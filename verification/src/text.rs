//! Character-level text operations used by the scanners and the path
//! normaliser, each stated over the `Seq<char>` view of the text.
use vstd::prelude::*;

verus! {

/// `p` is a prefix of `s`.
pub open spec fn starts_with(s: Seq<char>, p: Seq<char>) -> bool {
    p.len() <= s.len() && s.subrange(0, p.len() as int) == p
}

/// `p` occurs in `s` starting at position `i`.
pub open spec fn occurs_at(s: Seq<char>, p: Seq<char>, i: int) -> bool {
    0 <= i && i + p.len() <= s.len() && s.subrange(i, i + p.len()) == p
}

/// `p` occurs somewhere in `s` (the empty pattern occurs everywhere).
pub open spec fn contains_seq(s: Seq<char>, p: Seq<char>) -> bool {
    exists|i: int| occurs_at(s, p, i)
}

/// The characters that Unicode gives the `White_Space` property, which is
/// what `char::is_whitespace` tests.
pub open spec fn is_white_space(c: char) -> bool {
    ||| '\u{9}' <= c <= '\u{d}'
    ||| c == ' '
    ||| c == '\u{85}'
    ||| c == '\u{a0}'
    ||| c == '\u{1680}'
    ||| '\u{2000}' <= c <= '\u{200a}'
    ||| c == '\u{2028}'
    ||| c == '\u{2029}'
    ||| c == '\u{202f}'
    ||| c == '\u{205f}'
    ||| c == '\u{3000}'
}

/// Whether `c` is one of the `White_Space` characters, as
/// `char::is_whitespace` answers.
fn char_is_whitespace(c: char) -> (b: bool)
    ensures
        b == is_white_space(c),
{
    ('\u{9}' <= c && c <= '\u{d}') || c == ' ' || c == '\u{85}' || c == '\u{a0}' || c == '\u{1680}'
        || ('\u{2000}' <= c && c <= '\u{200a}') || c == '\u{2028}' || c == '\u{2029}' || c == '\u{202f}'
        || c == '\u{205f}' || c == '\u{3000}'
}

/// `String::push`: appends one character.
#[verifier::external_body]
fn string_push(s: &mut String, c: char)
    ensures
        final(s)@ == old(s)@.push(c),
{
    s.push(c)
}

/// The maximal runs of non-whitespace characters of `s`, in order: what
/// `str::split_whitespace` yields.
pub open spec fn words(s: Seq<char>) -> Seq<Seq<char>>
    decreases s.len(),
{
    if s.len() == 0 {
        Seq::empty()
    } else {
        let w = words(s.drop_last());
        let c = s.last();
        if is_white_space(c) {
            w
        } else if s.len() >= 2 && !is_white_space(s[s.len() - 2]) {
            w.update(w.len() - 1, w.last().push(c))
        } else {
            w.push(seq![c])
        }
    }
}

/// The character views of a vector of character vectors.
pub open spec fn char_views(v: Seq<Vec<char>>) -> Seq<Seq<char>> {
    v.map_values(|x: Vec<char>| x@)
}

/// The character views of a vector of strings.
pub open spec fn string_views(v: Seq<String>) -> Seq<Seq<char>> {
    v.map_values(|x: String| x@)
}

/// Copies the characters of `s` into a vector.
pub fn to_chars(s: &str) -> (v: Vec<char>)
    ensures
        v@ == s@,
{
    let mut v: Vec<char> = Vec::new();
    for c in it: s.chars()
        invariant
            v@ == it.seq().take(it.index() as int),
    {
        v.push(c);
    }
    v
}

/// Builds a string from characters.
pub fn from_chars(v: &[char]) -> (s: String)
    ensures
        s@ == v@,
{
    let mut s = String::new();
    let mut i: usize = 0;
    while i < v.len()
        invariant
            i <= v.len(),
            s@ == v@.take(i as int),
        decreases v.len() - i,
    {
        string_push(&mut s, v[i]);
        assert(v@.take(i as int + 1) == v@.take(i as int).push(v@[i as int]));
        i = i + 1;
    }
    assert(v@.take(v.len() as int) == v@);
    s
}

/// Whether `p` is a prefix of `s`.
pub fn has_prefix(s: &[char], p: &[char]) -> (b: bool)
    ensures
        b == starts_with(s@, p@),
{
    if p.len() > s.len() {
        return false;
    }
    let mut i: usize = 0;
    while i < p.len()
        invariant
            i <= p.len() <= s.len(),
            forall|k: int| 0 <= k < i ==> s@[k] == p@[k],
        decreases p.len() - i,
    {
        if s[i] != p[i] {
            assert(s@.subrange(0, p.len() as int)[i as int] != p@[i as int]);
            return false;
        }
        i = i + 1;
    }
    assert(s@.subrange(0, p.len() as int) =~= p@);
    true
}

/// Whether `p` occurs in `s` at position `at`.
fn occurs_at_exec(s: &[char], p: &[char], at: usize) -> (b: bool)
    ensures
        b == occurs_at(s@, p@, at as int),
{
    if p.len() > s.len() || at > s.len() - p.len() {
        return false;
    }
    let mut i: usize = 0;
    while i < p.len()
        invariant
            i <= p.len(),
            at + p.len() <= s.len(),
            forall|k: int| 0 <= k < i ==> s@[at + k] == p@[k],
        decreases p.len() - i,
    {
        if s[at + i] != p[i] {
            assert(s@.subrange(at as int, at + p.len())[i as int] != p@[i as int]);
            return false;
        }
        i = i + 1;
    }
    assert(s@.subrange(at as int, at + p.len()) =~= p@);
    true
}

/// Whether `p` occurs anywhere in `s`.
pub fn has_infix(s: &[char], p: &[char]) -> (b: bool)
    ensures
        b == contains_seq(s@, p@),
{
    if p.len() > s.len() {
        assert forall|i: int| !occurs_at(s@, p@, i) by {}
        return false;
    }
    let last = s.len() - p.len();
    let mut at: usize = 0;
    while at <= last
        invariant
            last == s.len() - p.len(),
            p.len() <= s.len(),
            forall|i: int| 0 <= i < at ==> !occurs_at(s@, p@, i),
        decreases last + 1 - at,
    {
        if occurs_at_exec(s, p, at) {
            return true;
        }
        if at == last {
            assert forall|i: int| !occurs_at(s@, p@, i) by {}
            return false;
        }
        at = at + 1;
    }
    assert forall|i: int| !occurs_at(s@, p@, i) by {}
    false
}

/// Whether `c` occurs in `s`.
pub fn has_char(s: &[char], c: char) -> (b: bool)
    ensures
        b == s@.contains(c),
{
    let mut i: usize = 0;
    while i < s.len()
        invariant
            i <= s.len(),
            forall|k: int| 0 <= k < i ==> s@[k] != c,
        decreases s.len() - i,
    {
        if s[i] == c {
            return true;
        }
        i = i + 1;
    }
    false
}

/// Whether two character sequences are equal.
pub fn same_chars(a: &[char], b: &[char]) -> (r: bool)
    ensures
        r == (a@ == b@),
{
    if a.len() != b.len() {
        return false;
    }
    let r = has_prefix(a, b);
    proof {
        assert(a@ =~= a@.subrange(0, b@.len() as int));
    }
    r
}

/// Splits `s` into its maximal runs of non-whitespace characters.
pub fn split_words(s: &[char]) -> (out: Vec<Vec<char>>)
    ensures
        char_views(out@) == words(s@),
{
    let mut out: Vec<Vec<char>> = Vec::new();
    let mut cur: Vec<char> = Vec::new();
    let mut i: usize = 0;
    while i < s.len()
        invariant
            i <= s.len(),
            cur@.len() > 0 <==> (i > 0 && !is_white_space(s@[i - 1])),
            cur@.len() > 0 ==> words(s@.take(i as int)) == char_views(out@).push(cur@),
            cur@.len() == 0 ==> words(s@.take(i as int)) == char_views(out@),
        decreases s.len() - i,
    {
        let c = s[i];
        let ghost prev = s@.take(i as int);
        assert(s@.take(i as int + 1).drop_last() == prev);
        assert(s@.take(i as int + 1).last() == c);
        if char_is_whitespace(c) {
            if cur.len() > 0 {
                let done = cur;
                out.push(done);
                cur = Vec::new();
                assert(char_views(out@) =~= words(prev));
            }
            assert(words(s@.take(i as int + 1)) == words(prev));
        } else {
            if cur.len() > 0 {
                assert(s@.take(i as int + 1)[i as int - 1] == s@[i as int - 1]);
                cur.push(c);
                assert(words(prev).update(words(prev).len() - 1, words(prev).last().push(c))
                    =~= char_views(out@).push(cur@));
            } else {
                cur.push(c);
                assert(cur@ =~= seq![c]);
                if i > 0 {
                    assert(s@.take(i as int + 1)[i as int - 1] == s@[i as int - 1]);
                }
                assert(words(prev).push(seq![c]) =~= char_views(out@).push(cur@));
            }
        }
        i = i + 1;
    }
    assert(s@.take(s.len() as int) == s@);
    if cur.len() > 0 {
        out.push(cur);
        assert(char_views(out@) =~= words(s@));
    }
    out
}


/// The character classes that the scanners trim or split on.
#[derive(Debug, Clone, Copy, PartialEq, Eq, Structural)]
pub enum CharClass {
    /// Unicode `White_Space`.
    Whitespace,
    /// `'` and `"`.
    Quote,
    /// `'`, `"` and `` ` ``.
    QuoteOrBacktick,
    /// `;`, `,`, `)` and `(`.
    TrailingPunct,
    /// `>`, `<`, `|` and `&`.
    Redirect,
}

/// Membership of `c` in the class `cls`.
pub open spec fn in_class(cls: CharClass, c: char) -> bool {
    match cls {
        CharClass::Whitespace => is_white_space(c),
        CharClass::Quote => c == '\'' || c == '"',
        CharClass::QuoteOrBacktick => c == '\'' || c == '"' || c == '`',
        CharClass::TrailingPunct => c == ';' || c == ',' || c == ')' || c == '(',
        CharClass::Redirect => c == '>' || c == '<' || c == '|' || c == '&',
    }
}

/// Whether `c` belongs to the class `cls`.
pub fn class_has(cls: CharClass, c: char) -> (b: bool)
    ensures
        b == in_class(cls, c),
{
    match cls {
        CharClass::Whitespace => char_is_whitespace(c),
        CharClass::Quote => c == '\'' || c == '"',
        CharClass::QuoteOrBacktick => c == '\'' || c == '"' || c == '`',
        CharClass::TrailingPunct => c == ';' || c == ',' || c == ')' || c == '(',
        CharClass::Redirect => c == '>' || c == '<' || c == '|' || c == '&',
    }
}

/// `s` without its leading characters of class `cls`.
pub open spec fn strip_start(s: Seq<char>, cls: CharClass) -> Seq<char>
    decreases s.len(),
{
    if s.len() > 0 && in_class(cls, s[0]) {
        strip_start(s.drop_first(), cls)
    } else {
        s
    }
}

/// `s` without its trailing characters of class `cls`.
pub open spec fn strip_end(s: Seq<char>, cls: CharClass) -> Seq<char>
    decreases s.len(),
{
    if s.len() > 0 && in_class(cls, s.last()) {
        strip_end(s.drop_last(), cls)
    } else {
        s
    }
}

/// `s` without leading and trailing characters of class `cls` (`trim_matches`).
pub open spec fn strip_both(s: Seq<char>, cls: CharClass) -> Seq<char> {
    strip_end(strip_start(s, cls), cls)
}

/// The part of `s` before its first character of class `cls` (all of `s`
/// when there is none): the first piece that `str::split` yields.
pub open spec fn before_class(s: Seq<char>, cls: CharClass) -> Seq<char>
    decreases s.len(),
{
    if s.len() == 0 || in_class(cls, s[0]) {
        Seq::empty()
    } else {
        seq![s[0]] + before_class(s.drop_first(), cls)
    }
}

/// Copies `s[from..to]`.
pub fn copy_range(s: &[char], from: usize, to: usize) -> (r: Vec<char>)
    requires
        from <= to <= s.len(),
    ensures
        r@ == s@.subrange(from as int, to as int),
{
    let mut r: Vec<char> = Vec::new();
    let mut i: usize = from;
    while i < to
        invariant
            from <= i <= to <= s.len(),
            r@ == s@.subrange(from as int, i as int),
        decreases to - i,
    {
        r.push(s[i]);
        assert(s@.subrange(from as int, i as int + 1) =~= s@.subrange(from as int, i as int).push(s@[i as int]));
        i = i + 1;
    }
    r
}

/// Removes the leading characters of class `cls`.
pub fn trim_start_class(s: &[char], cls: CharClass) -> (r: Vec<char>)
    ensures
        r@ == strip_start(s@, cls),
{
    let mut i: usize = 0;
    assert(s@.subrange(0, s.len() as int) =~= s@);
    while i < s.len() && class_has(cls, s[i])
        invariant
            i <= s.len(),
            strip_start(s@, cls) == strip_start(s@.subrange(i as int, s.len() as int), cls),
        decreases s.len() - i,
    {
        assert(s@.subrange(i as int, s.len() as int).drop_first() =~= s@.subrange(i as int + 1, s.len() as int));
        i = i + 1;
    }
    copy_range(s, i, s.len())
}

/// Removes the trailing characters of class `cls`.
pub fn trim_end_class(s: &[char], cls: CharClass) -> (r: Vec<char>)
    ensures
        r@ == strip_end(s@, cls),
{
    let mut j: usize = s.len();
    assert(s@.subrange(0, s.len() as int) =~= s@);
    while j > 0 && class_has(cls, s[j - 1])
        invariant
            j <= s.len(),
            strip_end(s@, cls) == strip_end(s@.subrange(0, j as int), cls),
        decreases j,
    {
        assert(s@.subrange(0, j as int).drop_last() =~= s@.subrange(0, j as int - 1));
        j = j - 1;
    }
    copy_range(s, 0, j)
}

/// Removes the leading and trailing characters of class `cls`.
pub fn trim_class(s: &[char], cls: CharClass) -> (r: Vec<char>)
    ensures
        r@ == strip_both(s@, cls),
{
    let t = trim_start_class(s, cls);
    trim_end_class(&t, cls)
}

/// The part of `s` before its first character of class `cls`.
pub fn take_before_class(s: &[char], cls: CharClass) -> (r: Vec<char>)
    ensures
        r@ == before_class(s@, cls),
{
    let mut i: usize = 0;
    assert(s@.subrange(0, s.len() as int) =~= s@);
    assert(s@.subrange(0, 0) + s@ =~= s@);
    while i < s.len() && !class_has(cls, s[i])
        invariant
            i <= s.len(),
            forall|k: int| 0 <= k < i ==> !in_class(cls, s@[k]),
            before_class(s@, cls) == s@.subrange(0, i as int) + before_class(s@.subrange(i as int, s.len() as int), cls),
        decreases s.len() - i,
    {
        let ghost rest = s@.subrange(i as int, s.len() as int);
        assert(rest.drop_first() =~= s@.subrange(i as int + 1, s.len() as int));
        assert(s@.subrange(0, i as int + 1) =~= s@.subrange(0, i as int) + seq![s@[i as int]]);
        i = i + 1;
    }
    proof {
        let rest = s@.subrange(i as int, s.len() as int);
        assert(before_class(rest, cls) == Seq::<char>::empty());
        assert(before_class(s@, cls) =~= s@.subrange(0, i as int));
    }
    copy_range(s, 0, i)
}

/// Whether two strings hold the same characters.
pub fn str_equals(a: &str, b: &str) -> (r: bool)
    ensures
        r == (a@ == b@),
{
    let x = to_chars(a);
    let y = to_chars(b);
    same_chars(&x, &y)
}

/// `head` followed by `tail`, as a new string.
pub fn concat_str(head: &str, tail: &str) -> (s: String)
    ensures
        s@ == head@ + tail@,
{
    let mut s = head.to_owned();
    s.append(tail);
    s
}

/// The decimal digit for `d` (below ten).
pub open spec fn digit_char(d: nat) -> char {
    ((d + 48) as u32) as char
}

/// The decimal numeral of `n`, without leading zeros.
pub open spec fn decimal(n: nat) -> Seq<char>
    decreases n,
{
    if n < 10 {
        seq![digit_char(n)]
    } else {
        decimal(n / 10).push(digit_char(n % 10))
    }
}

fn digit_of(d: u32) -> (c: char)
    requires
        d < 10,
    ensures
        c == digit_char(d as nat),
{
    match d {
        0 => '0',
        1 => '1',
        2 => '2',
        3 => '3',
        4 => '4',
        5 => '5',
        6 => '6',
        7 => '7',
        8 => '8',
        _ => '9',
    }
}

fn push_decimal(out: &mut Vec<char>, n: u32)
    ensures
        final(out)@ == old(out)@ + decimal(n as nat),
    decreases n,
{
    if n >= 10 {
        push_decimal(out, n / 10);
    }
    out.push(digit_of(n % 10));
    assert(out@ =~= old(out)@ + decimal(n as nat));
}

/// The decimal numeral of `n` (what `n.to_string()` gives).
pub fn decimal_string(n: u32) -> (s: String)
    ensures
        s@ == decimal(n as nat),
{
    let mut v: Vec<char> = Vec::new();
    push_decimal(&mut v, n);
    assert(v@ =~= decimal(n as nat));
    from_chars(&v)
}

/// The pieces of `s` between occurrences of `sep`, empty pieces included
/// (`str::split(sep)`).
pub open spec fn split_on(s: Seq<char>, sep: char) -> Seq<Seq<char>>
    decreases s.len(),
{
    if s.len() == 0 {
        seq![Seq::empty()]
    } else {
        let r = split_on(s.drop_last(), sep);
        if s.last() == sep {
            r.push(Seq::empty())
        } else {
            r.update(r.len() - 1, r.last().push(s.last()))
        }
    }
}

pub proof fn lemma_split_on_nonempty(s: Seq<char>, sep: char)
    ensures
        split_on(s, sep).len() > 0,
    decreases s.len(),
{
    if s.len() > 0 {
        lemma_split_on_nonempty(s.drop_last(), sep);
    }
}

/// Splits `s` at every `sep`.
pub fn split_chars(s: &[char], sep: char) -> (out: Vec<Vec<char>>)
    ensures
        char_views(out@) == split_on(s@, sep),
{
    let mut out: Vec<Vec<char>> = Vec::new();
    let mut cur: Vec<char> = Vec::new();
    let mut i: usize = 0;
    assert(split_on(s@.take(0), sep) =~= seq![Seq::<char>::empty()]);
    while i < s.len()
        invariant
            i <= s.len(),
            split_on(s@.take(i as int), sep) == char_views(out@).push(cur@),
        decreases s.len() - i,
    {
        let c = s[i];
        let ghost prev = split_on(s@.take(i as int), sep);
        proof {
            assert(s@.take(i as int + 1).drop_last() =~= s@.take(i as int));
            assert(s@.take(i as int + 1).last() == c);
        }
        if c == sep {
            let piece = cur;
            cur = Vec::new();
            let ghost before = char_views(out@);
            out.push(piece);
            assert(char_views(out@) =~= before.push(piece@));
            assert(split_on(s@.take(i as int + 1), sep) =~= char_views(out@).push(cur@));
        } else {
            cur.push(c);
            assert(split_on(s@.take(i as int + 1), sep) =~= char_views(out@).push(cur@));
        }
        i = i + 1;
    }
    assert(s@.take(s.len() as int) =~= s@);
    let ghost before = char_views(out@);
    let ghost last = cur@;
    out.push(cur);
    assert(char_views(out@) =~= before.push(last));
    out
}

} // verus!
