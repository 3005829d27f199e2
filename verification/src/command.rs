//! What a finished child process left behind, and its output read as text.

use vstd::prelude::*;

verus! {

/// The outcome of a command that was run to its end.
pub struct CommandOutput {
    /// Whether it exited with status zero.
    pub success: bool,
    /// What it wrote to its standard output.
    pub stdout: Vec<u8>,
    /// What it wrote to its standard error.
    pub stderr: Vec<u8>,
}

/// What `String::from_utf8_lossy` makes of `bytes`.
pub uninterp spec fn utf8_lossy(bytes: Seq<u8>) -> Seq<char>;

/// `bytes` as text: what they encode where they are valid UTF-8, and elsewhere what
/// `String::from_utf8_lossy` makes of them.
pub open spec fn as_text(bytes: Seq<u8>) -> Seq<char> {
    if vstd::utf8::valid_utf8(bytes) {
        vstd::utf8::decode_utf8(bytes)
    } else {
        utf8_lossy(bytes)
    }
}

/// `String::from_utf8_lossy`: bytes read as UTF-8, with replacement characters where they are
/// not valid. The result depends on the bytes alone, and valid bytes are decoded as they stand;
/// where the replacement characters go in bytes that are not valid is left unsaid.
#[verifier::external_body]
pub(crate) fn lossy_text(bytes: &Vec<u8>) -> (r: String)
    ensures
        r@ == utf8_lossy(bytes@),
        vstd::utf8::valid_utf8(bytes@) ==> r@ == vstd::utf8::decode_utf8(bytes@),
{
    String::from_utf8_lossy(bytes.as_slice()).into_owned()
}

/// `String::from_utf8`: the text that `bytes` encode, or nothing where they are not valid UTF-8.
#[verifier::external_body]
pub(crate) fn strict_text(bytes: Vec<u8>) -> (r: Option<String>)
    ensures
        r is Some <==> vstd::utf8::valid_utf8(bytes@),
        r matches Some(s) ==> s@ == vstd::utf8::decode_utf8(bytes@),
{
    String::from_utf8(bytes).ok()
}

/// Output that is valid UTF-8 is read as the text that it encodes, whatever that is.
pub proof fn law_valid_output_is_read_as_it_stands(bytes: Seq<u8>)
    ensures
        vstd::utf8::valid_utf8(bytes) ==> as_text(bytes) == vstd::utf8::decode_utf8(bytes),
        !vstd::utf8::valid_utf8(bytes) ==> as_text(bytes) == utf8_lossy(bytes),
{
}

} // verus!
