//! Clipboard synchronisation: which local clipboard changes are sent to the
//! other peers, and how clipboard text travels as bytes.
use vstd::prelude::*;
use vstd::utf8::{decode_utf8, encode_utf8, encode_utf8_decode_utf8, encode_utf8_valid_utf8, valid_utf8};

verus! {

/// A change of clipboard content.
#[derive(Clone, Debug)]
pub enum ClipboardEvent {
    LocalChanged(String),
    RemoteReceived(String),
}

/// A local clipboard text is a change worth sending: it is not empty and
/// differs from the last content seen, whether read locally or received.
pub open spec fn is_local_change(last: Seq<char>, current: Seq<char>) -> bool {
    current.len() > 0 && current != last
}

/// The last clipboard content seen.
pub struct ClipboardSync {
    pub last_content: String,
}

impl ClipboardSync {
    /// Nothing seen yet.
    pub fn new() -> (c: ClipboardSync)
        ensures
            c.last_content@ == Seq::<char>::empty(),
    {
        ClipboardSync { last_content: String::new() }
    }

    /// Text received from a peer is about to be put on the local clipboard:
    /// it becomes the last content seen.
    pub fn apply_remote(&mut self, content: &str)
        ensures
            final(self).last_content@ == content@,
    {
        self.last_content = String::from_str(content);
    }

    /// The local clipboard holds `current`: where that is a change, it
    /// becomes the last content seen and is returned to be sent.
    pub fn observe_local(&mut self, current: String) -> (sent: Option<String>)
        ensures
            is_local_change(old(self).last_content@, current@) ==> sent == Some(current)
                && final(self).last_content@ == current@,
            !is_local_change(old(self).last_content@, current@) ==> sent is None
                && final(self).last_content == old(self).last_content,
    {
        if !current.as_str().is_empty() && !(current == self.last_content) {
            self.last_content = current.clone();
            Some(current)
        } else {
            None
        }
    }
}

/// Content received from a peer is not sent back to the peers: right after
/// `apply_remote`, the same text on the local clipboard is no change.
pub proof fn lemma_remote_content_not_echoed(content: Seq<char>)
    ensures
        !is_local_change(content, content),
{
}

/// A local change is sent once: once seen, the same text is no change.
pub proof fn lemma_change_sent_once(last: Seq<char>, current: Seq<char>)
    requires
        is_local_change(last, current),
    ensures
        !is_local_change(current, current),
{
}

/// Every new local text is shared: a non-empty text that differs from the
/// last content seen, in any character or in length, is a change to send,
/// whatever the last content was.
pub proof fn lemma_new_text_is_sent(last: Seq<char>, current: Seq<char>)
    requires
        current.len() > 0,
        current.len() != last.len() || exists|i: int| 0 <= i < current.len() && current[i] != last[i],
    ensures
        is_local_change(last, current),
{
    if current.len() == last.len() {
        let i = choose|i: int| 0 <= i < current.len() && current[i] != last[i];
        assert(current[i] != last[i]);
    }
}

/// Only new text is shared: an empty text, or the text last seen, is no
/// change.
pub proof fn lemma_only_new_text_is_sent(last: Seq<char>, current: Seq<char>)
    requires
        current.len() == 0 || current =~= last,
    ensures
        !is_local_change(last, current),
{
}

/// Two different non-empty texts copied one after the other are both
/// shared, in either order.
pub proof fn lemma_alternating_texts_are_sent(a: Seq<char>, b: Seq<char>)
    requires
        a.len() > 0,
        b.len() > 0,
        a != b,
    ensures
        is_local_change(a, b),
        is_local_change(b, a),
{
}

/// The bytes that carry clipboard text: its UTF-8 encoding.
pub fn text_bytes(text: &str) -> (b: Vec<u8>)
    ensures
        b@ == encode_utf8(text@),
{
    text.as_bytes_vec()
}

/// Calls `String::from_utf8`. Trusted: std documents that it returns the
/// text the bytes encode where they are valid UTF-8, and an error otherwise.
#[verifier::external_body]
fn string_from_utf8(bytes: Vec<u8>) -> (r: Option<String>)
    ensures
        r is Some <==> valid_utf8(bytes@),
        r matches Some(s) ==> s@ == decode_utf8(bytes@),
{
    String::from_utf8(bytes).ok()
}

/// The text carried by clipboard bytes, or `None` where they are not UTF-8.
pub fn bytes_text(bytes: Vec<u8>) -> (r: Option<String>)
    ensures
        r is Some <==> valid_utf8(bytes@),
        r matches Some(s) ==> s@ == decode_utf8(bytes@),
{
    string_from_utf8(bytes)
}

/// Clipboard text sent to a peer arrives as the same text.
pub proof fn lemma_text_round_trip(text: Seq<char>)
    ensures
        valid_utf8(encode_utf8(text)),
        decode_utf8(encode_utf8(text)) == text,
{
    encode_utf8_valid_utf8(text);
    encode_utf8_decode_utf8(text);
}

} // verus!
