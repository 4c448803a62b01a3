//! A rough token count of the conversation.
use vstd::prelude::*;
use vstd::utf8::encode_utf8;

use crate::engine::types::ChatMessage;

verus! {

/// The number of UTF-8 bytes in the contents of `messages`.
pub open spec fn content_bytes(messages: Seq<ChatMessage>) -> nat
    decreases messages.len(),
{
    if messages.len() == 0 {
        0
    } else {
        content_bytes(messages.drop_last()) + encode_utf8(messages.last().content@).len()
    }
}

/// Estimates the tokens of a conversation as a quarter of its content bytes.
pub fn estimate_tokens(messages: &[ChatMessage]) -> (n: usize)
    requires
        content_bytes(messages@) <= usize::MAX,
    ensures
        n == content_bytes(messages@) / 4,
{
    let mut total_chars: usize = 0;
    let mut i: usize = 0;
    while i < messages.len()
        invariant
            i <= messages.len(),
            content_bytes(messages@) <= usize::MAX,
            total_chars == content_bytes(messages@.take(i as int)),
        decreases messages.len() - i,
    {
        proof {
            assert(messages@.take(i as int + 1).drop_last() =~= messages@.take(i as int));
            lemma_content_bytes_prefix(messages@, i as int + 1);
        }
        total_chars = total_chars + messages[i].content.as_str().len();
        i = i + 1;
    }
    assert(messages@.take(messages.len() as int) =~= messages@);
    total_chars / 4
}

proof fn lemma_content_bytes_prefix(messages: Seq<ChatMessage>, k: int)
    requires
        0 <= k <= messages.len(),
    ensures
        content_bytes(messages.take(k)) <= content_bytes(messages),
    decreases messages.len() - k,
{
    if k < messages.len() {
        lemma_content_bytes_prefix(messages, k + 1);
        assert(messages.take(k + 1).drop_last() =~= messages.take(k));
    } else {
        assert(messages.take(k) =~= messages);
    }
}

} // verus!
