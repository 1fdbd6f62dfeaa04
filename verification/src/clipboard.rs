//! Copying through the terminal.
use base64::Engine;
use vstd::prelude::*;
use crate::text::{byte_len, cut_to_bytes, owned, within_bytes};

verus! {

/// Cap on the OSC 52 payload; terminals commonly reject larger sequences.
pub const MAX_CLIPBOARD_BYTES: usize = 100_000;

/// Cap clipboard payloads at `MAX_CLIPBOARD_BYTES` on a char boundary; returns
/// whether anything was dropped.
pub fn clip_for_clipboard(content: String) -> (r: (String, bool))
    ensures
        r.0@ == within_bytes(content@, MAX_CLIPBOARD_BYTES as nat),
        r.1 == (byte_len(content@) > MAX_CLIPBOARD_BYTES),
{
    cut_to_bytes(content.as_str(), MAX_CLIPBOARD_BYTES)
}

/// The standard base64 form of the UTF-8 bytes of a text.
pub uninterp spec fn base64_of(text: Seq<char>) -> Seq<char>;

/// `base64::Engine::encode` of the standard engine: four characters for every
/// three bytes that were begun. A text so long that this count would not fit a
/// machine word makes it panic, so longer ones are left out.
#[verifier::external_body]
fn encode_base64(text: &str) -> (r: String)
    requires
        byte_len(text@) <= usize::MAX / 4,
    ensures
        r@ == base64_of(text@),
        r@.len() == (byte_len(text@) + 2) / 3 * 4,
{
    base64::engine::general_purpose::STANDARD.encode(text)
}

/// The OSC 52 escape sequence that hands a text to the clipboard.
pub open spec fn osc52(text: Seq<char>) -> Seq<char> {
    "\x1b]52;c;"@ + base64_of(text) + "\x07"@
}

/// The escape sequence that copies `content` to the system clipboard. An OSC
/// sequence does not disturb the cell grid, and support is up to the terminal
/// (unsupported ones ignore it).
pub fn clipboard_sequence(content: &str) -> (r: String)
    requires
        byte_len(content@) <= usize::MAX / 4,
    ensures
        r@ == osc52(content@),
{
    let encoded: String = encode_base64(content);
    framed(encoded.as_str())
}

/// An encoded payload as an escape sequence.
pub fn framed(encoded: &str) -> (r: String)
    ensures
        r@ == "\x1b]52;c;"@ + encoded@ + "\x07"@,
{
    let mut out: String = owned("\x1b]52;c;");
    out.push_str(encoded);
    out.push_str("\x07");
    out
}

// ---------------------------------------------------------------------------
// Laws
// ---------------------------------------------------------------------------

/// The escape sequence that copies a text: it opens with the clipboard command,
/// holds nothing but the encoded text, and ends with the bell.
pub proof fn copies_are_framed(text: Seq<char>)
    ensures
        ({
            let encoded = base64_of(text);
            let sent = osc52(text);
            &&& sent.len() == encoded.len() + 8
            &&& sent[0] == '\u{1b}' && sent[1] == ']' && sent[2] == '5' && sent[3] == '2' && sent[4]
                == ';' && sent[5] == 'c' && sent[6] == ';'
            &&& forall|i: int| 0 <= i < encoded.len() ==> #[trigger] encoded[i] == sent[i + 7]
            &&& sent.last() == '\u{7}'
        }),
{
    reveal_strlit("\x1b]52;c;");
    reveal_strlit("\x07");
}

} // verus!
