//! The contents of text files: the text that a file's bytes hold, and the
//! bytes that hold a text. Reading and writing the file is the caller's part.

use vstd::prelude::*;
use vstd::string::StrSliceExecFns;
use vstd::utf8::{
    decode_utf8, encode_utf8, encode_utf8_decode_utf8, encode_utf8_valid_utf8, valid_utf8,
};
use crate::quit::{quit, quit_line, Exit, ExitView};

verus! {

/// `String::from_utf8`: the string whose UTF-8 encoding the bytes are, where
/// they are one.
#[verifier::external_body]
pub(crate) fn string_from_utf8(bytes: Vec<u8>) -> (r: Option<String>)
    ensures
        r is Some <==> valid_utf8(bytes@),
        r matches Some(s) ==> s@ == decode_utf8(bytes@),
{
    String::from_utf8(bytes).ok()
}

/// What is said of a file that holds no text.
pub open spec fn not_text() -> Seq<char> {
    "stream did not contain valid UTF-8"@
}

/// The text of a file that holds `bytes`. Where the bytes are no UTF-8, the
/// program named `program` gives up.
pub fn read_to_string(program: &str, bytes: Vec<u8>) -> (r: Result<String, Exit>)
    ensures
        match r {
            Ok(s) => valid_utf8(bytes@) && s@ == decode_utf8(bytes@),
            Err(x) => !valid_utf8(bytes@) && x@ == (ExitView {
                message: quit_line(program@, not_text()),
                code: 1,
            }),
        },
{
    match string_from_utf8(bytes) {
        Some(s) => Ok(s),
        None => Err(quit(program, "stream did not contain valid UTF-8")),
    }
}

/// The bytes that a file holds once `buff` is written to it.
pub fn write_all(buff: String) -> (bytes: Vec<u8>)
    ensures
        bytes@ == encode_utf8(buff@),
{
    buff.as_str().as_bytes_vec()
}

/// What was written as text is read back as the same text.
pub proof fn lemma_written_reads_back(s: Seq<char>)
    ensures
        valid_utf8(encode_utf8(s)),
        decode_utf8(encode_utf8(s)) == s,
{
    encode_utf8_valid_utf8(s);
    encode_utf8_decode_utf8(s);
}

} // verus!
