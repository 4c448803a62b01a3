//! Lexical resolution of file paths: joining a relative path onto a working
//! directory and folding away `.` and `..` the way `Path::components` and
//! `PathBuf::pop` do on Unix, without touching the file system.
use vstd::prelude::*;

use crate::text::{from_chars, same_chars, to_chars};

verus! {

/// The `/`-separated pieces of `s`, empty pieces included (`str::split('/')`).
pub open spec fn split_on_slash(s: Seq<char>) -> Seq<Seq<char>>
    decreases s.len(),
{
    if s.len() == 0 {
        seq![Seq::empty()]
    } else {
        let r = split_on_slash(s.drop_last());
        if s.last() == '/' {
            r.push(Seq::empty())
        } else {
            r.update(r.len() - 1, r.last().push(s.last()))
        }
    }
}

/// One step of normalisation: empty pieces and `.` vanish, `..` drops the
/// last name kept so far (if any), any other piece is kept.
pub open spec fn step(names: Seq<Seq<char>>, piece: Seq<char>) -> Seq<Seq<char>> {
    if piece.len() == 0 || piece == "."@ {
        names
    } else if piece == ".."@ {
        if names.len() > 0 {
            names.drop_last()
        } else {
            names
        }
    } else {
        names.push(piece)
    }
}

/// The names left after normalising the pieces in order.
pub open spec fn fold_pieces(pieces: Seq<Seq<char>>) -> Seq<Seq<char>>
    decreases pieces.len(),
{
    if pieces.len() == 0 {
        Seq::empty()
    } else {
        step(fold_pieces(pieces.drop_last()), pieces.last())
    }
}

/// The names joined with `/`.
pub open spec fn join_names(names: Seq<Seq<char>>) -> Seq<char>
    decreases names.len(),
{
    if names.len() == 0 {
        Seq::empty()
    } else if names.len() == 1 {
        names[0]
    } else {
        join_names(names.drop_last()) + "/"@ + names.last()
    }
}

/// The normal form of a path: a leading `/` stays, then the names that remain
/// once `.`, empty pieces and `..` have been folded away.
pub open spec fn normal_form(path: Seq<char>) -> Seq<char> {
    let names = fold_pieces(split_on_slash(path));
    if path.len() > 0 && path[0] == '/' {
        "/"@ + join_names(names)
    } else {
        join_names(names)
    }
}

/// `Path::new(base).join(rel)` for a relative `rel`.
pub open spec fn join_relative(base: Seq<char>, rel: Seq<char>) -> Seq<char> {
    if base.len() == 0 {
        rel
    } else if base.last() == '/' {
        base + rel
    } else {
        base + "/"@ + rel
    }
}

/// A token that starts with `~` or `/` is kept as it is; any other is joined
/// onto `cwd` and normalised.
pub open spec fn resolved(cwd: Seq<char>, token: Seq<char>) -> Seq<char> {
    if token.len() > 0 && (token[0] == '~' || token[0] == '/') {
        token
    } else {
        normal_form(join_relative(cwd, token))
    }
}

fn apply_step(names: &mut Vec<Vec<char>>, piece: Vec<char>)
    ensures
        crate::text::char_views(final(names)@) == step(crate::text::char_views(old(names)@), piece@),
{
    let ghost before = crate::text::char_views(names@);
    let dot = to_chars(".");
    let dotdot = to_chars("..");
    if piece.len() == 0 || same_chars(&piece, &dot) {
    } else if same_chars(&piece, &dotdot) {
        if names.len() > 0 {
            names.pop();
            assert(crate::text::char_views(names@) =~= before.drop_last());
        }
    } else {
        let ghost p = piece@;
        names.push(piece);
        assert(crate::text::char_views(names@) =~= before.push(p));
    }
}

fn join_with_slash(names: &Vec<Vec<char>>) -> (out: Vec<char>)
    ensures
        out@ == join_names(crate::text::char_views(names@)),
{
    let ghost nv = crate::text::char_views(names@);
    let mut out: Vec<char> = Vec::new();
    let mut k: usize = 0;
    while k < names.len()
        invariant
            k <= names.len(),
            nv == crate::text::char_views(names@),
            out@ == join_names(nv.take(k as int)),
        decreases names.len() - k,
    {
        let ghost before = out@;
        if k > 0 {
            out.push('/');
        }
        let name = &names[k];
        let mut m: usize = 0;
        let ghost mid = out@;
        while m < name.len()
            invariant
                m <= name.len(),
                out@ == mid + name@.take(m as int),
            decreases name.len() - m,
        {
            out.push(name[m]);
            assert(name@.take(m as int + 1) =~= name@.take(m as int).push(name@[m as int]));
            m = m + 1;
        }
        proof {
            assert(name@.take(name.len() as int) =~= name@);
            let t = nv.take(k as int + 1);
            assert(t.drop_last() =~= nv.take(k as int));
            assert(t.last() == name@);
            if k == 0 {
                assert(out@ =~= name@);
            } else {
                assert(out@ =~= before + "/"@ + name@) by {
                    reveal_strlit("/");
                }
            }
        }
        k = k + 1;
    }
    assert(nv.take(names.len() as int) =~= nv);
    out
}

/// The normal form of `path`.
pub fn normalize_path(path: &[char]) -> (out: Vec<char>)
    ensures
        out@ == normal_form(path@),
{
    let mut names: Vec<Vec<char>> = Vec::new();
    let mut cur: Vec<char> = Vec::new();
    let mut i: usize = 0;
    assert(split_on_slash(path@.take(0)) =~= seq![Seq::<char>::empty()]);
    assert(split_on_slash(path@.take(0)).drop_last() =~= Seq::<Seq<char>>::empty());
    while i < path.len()
        invariant
            i <= path.len(),
            crate::text::char_views(names@) == fold_pieces(split_on_slash(path@.take(i as int)).drop_last()),
            cur@ == split_on_slash(path@.take(i as int)).last(),
            split_on_slash(path@.take(i as int)).len() > 0,
        decreases path.len() - i,
    {
        let c = path[i];
        let ghost prev = split_on_slash(path@.take(i as int));
        proof {
            assert(path@.take(i as int + 1).drop_last() =~= path@.take(i as int));
            assert(path@.take(i as int + 1).last() == c);
        }
        if c == '/' {
            let piece = cur;
            cur = Vec::new();
            apply_step(&mut names, piece);
            proof {
                let next = split_on_slash(path@.take(i as int + 1));
                assert(next == prev.push(Seq::empty()));
                assert(next.drop_last() =~= prev);
                assert(prev =~= prev.drop_last().push(prev.last()));
                assert(fold_pieces(prev) == step(fold_pieces(prev.drop_last()), prev.last()));
            }
        } else {
            cur.push(c);
            proof {
                let next = split_on_slash(path@.take(i as int + 1));
                assert(next.drop_last() =~= prev.drop_last());
                assert(next.last() =~= cur@);
            }
        }
        i = i + 1;
    }
    proof {
        assert(path@.take(path.len() as int) =~= path@);
        let all = split_on_slash(path@);
        assert(all =~= all.drop_last().push(all.last()));
    }
    apply_step(&mut names, cur);
    let joined = join_with_slash(&names);
    if path.len() > 0 && path[0] == '/' {
        let mut out: Vec<char> = Vec::new();
        out.push('/');
        let mut k: usize = 0;
        while k < joined.len()
            invariant
                k <= joined.len(),
                out@ == seq!['/'] + joined@.take(k as int),
            decreases joined.len() - k,
        {
            out.push(joined[k]);
            assert(joined@.take(k as int + 1) =~= joined@.take(k as int).push(joined@[k as int]));
            k = k + 1;
        }
        proof {
            reveal_strlit("/");
            assert(joined@.take(joined.len() as int) =~= joined@);
            assert(out@ =~= "/"@ + joined@);
        }
        out
    } else {
        joined
    }
}

/// Resolves `token` against `cwd`: kept as it is when it starts with `~` or
/// `/`, else joined onto `cwd` and normalised.
pub fn resolve_path(cwd: &str, token: &[char]) -> (out: String)
    ensures
        out@ == resolved(cwd@, token@),
{
    if token.len() > 0 && (token[0] == '~' || token[0] == '/') {
        return from_chars(token);
    }
    let base = to_chars(cwd);
    let mut joined: Vec<char> = Vec::new();
    let mut k: usize = 0;
    while k < base.len()
        invariant
            k <= base.len(),
            joined@ == base@.take(k as int),
        decreases base.len() - k,
    {
        joined.push(base[k]);
        assert(base@.take(k as int + 1) =~= base@.take(k as int).push(base@[k as int]));
        k = k + 1;
    }
    assert(base@.take(base.len() as int) =~= base@);
    if base.len() > 0 && base[base.len() - 1] != '/' {
        joined.push('/');
    }
    let ghost mid = joined@;
    let mut m: usize = 0;
    while m < token.len()
        invariant
            m <= token.len(),
            joined@ == mid + token@.take(m as int),
        decreases token.len() - m,
    {
        joined.push(token[m]);
        assert(token@.take(m as int + 1) =~= token@.take(m as int).push(token@[m as int]));
        m = m + 1;
    }
    proof {
        reveal_strlit("/");
        assert(token@.take(token.len() as int) =~= token@);
        if base.len() == 0 {
            assert(joined@ =~= token@);
        } else if base@.last() == '/' {
            assert(joined@ =~= base@ + token@);
        } else {
            assert(joined@ =~= base@ + "/"@ + token@);
        }
    }
    let normal = normalize_path(&joined);
    from_chars(&normal)
}

/// A name that survives normalisation: not empty, not `.` and not `..`.
pub open spec fn plain_name(n: Seq<char>) -> bool {
    n.len() > 0 && n != "."@ && n != ".."@
}

proof fn lemma_fold_plain(pieces: Seq<Seq<char>>)
    ensures
        forall|i: int| 0 <= i < fold_pieces(pieces).len() ==> plain_name(#[trigger] fold_pieces(pieces)[i]),
    decreases pieces.len(),
{
    if pieces.len() > 0 {
        lemma_fold_plain(pieces.drop_last());
        let prev = fold_pieces(pieces.drop_last());
        let cur = fold_pieces(pieces);
        let p = pieces.last();
        assert(cur == step(prev, p));
        assert forall|i: int| 0 <= i < cur.len() implies plain_name(#[trigger] cur[i]) by {
            if p.len() == 0 || p == "."@ {
            } else if p == ".."@ {
                if prev.len() > 0 {
                    assert(cur[i] == prev[i]);
                }
            } else {
                if i < prev.len() {
                    assert(cur[i] == prev[i]);
                }
            }
        }
    }
}

/// Normalising leaves only plain names: no empty piece, `.` or `..` remains.
pub proof fn law_normal_form_names_are_plain(path: Seq<char>)
    ensures
        forall|i: int|
            0 <= i < fold_pieces(split_on_slash(path)).len() ==> plain_name(#[trigger] fold_pieces(split_on_slash(path))[i]),
{
    lemma_fold_plain(split_on_slash(path));
}

} // verus!
