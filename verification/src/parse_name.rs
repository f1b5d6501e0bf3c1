//! Names: a LEB128 length prefix followed by that many bytes of UTF-8.

use vstd::prelude::*;
use vstd::slice::{slice_subrange, slice_to_vec};
use crate::parse_error::ParseError;
use crate::parse_num::{parse_varuint32, spec_parse_varuint32};

verus! {

/// What a byte sequence decodes to as UTF-8, if it is valid UTF-8.
pub uninterp spec fn utf8_decode(bytes: Seq<u8>) -> Option<Seq<char>>;

/// Relies on `String::from_utf8`: returns the decoded string exactly when
/// the bytes are valid UTF-8, a function of the bytes alone.
#[verifier::external_body]
fn string_from_utf8(bytes: Vec<u8>) -> (r: Option<String>)
    ensures
        match r {
            Some(st) => utf8_decode(bytes@) == Some(st@),
            None => utf8_decode(bytes@) is None,
        },
{
    String::from_utf8(bytes).ok()
}

/// What a name parse at `pos` yields: the characters of the name and the
/// position after it.
pub open spec fn spec_parse_name(s: Seq<u8>, pos: int) -> Result<(Seq<char>, int), ParseError> {
    match spec_parse_varuint32(s, pos) {
        Ok((len, p)) => if p + len <= s.len() {
            match utf8_decode(s.subrange(p, p + len)) {
                Some(cs) => Ok((cs, p + len)),
                None => Err(ParseError::InvalidUtf8),
            }
        } else {
            Err(ParseError::UnexpectedEof)
        },
        Err(e) => Err(e),
    }
}

/// Parses a length-prefixed UTF-8 name at `pos`.
pub fn parse_name(input: &[u8], pos: usize) -> (r: Result<(String, usize), ParseError>)
    requires
        pos <= input@.len(),
    ensures
        match r {
            Ok(p) => spec_parse_name(input@, pos as int) == Ok::<(Seq<char>, int), ParseError>(
                (p.0@, p.1 as int),
            ) && pos < p.1 <= input@.len(),
            Err(e) => spec_parse_name(input@, pos as int) == Err::<(Seq<char>, int), ParseError>(e),
        },
{
    let (len, p) = parse_varuint32(input, pos)?;
    if (len as usize) > input.len() - p {
        return Err(ParseError::UnexpectedEof);
    }
    let bytes = slice_to_vec(slice_subrange(input, p, p + len as usize));
    match string_from_utf8(bytes) {
        Some(st) => Ok((st, p + len as usize)),
        None => Err(ParseError::InvalidUtf8),
    }
}

} // verus!
