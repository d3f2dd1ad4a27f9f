//! Names as NetCDF-C hands them out: NUL-terminated byte buffers that hold UTF-8 text.

use vstd::prelude::*;
use vstd::utf8::*;
use crate::text::join2;

verus! {

/// The C string at the start of `buf`: its bytes before the first NUL, or all of them where
/// there is none.
pub open spec fn c_bytes(buf: Seq<u8>) -> Seq<u8> {
    match buf.index_of_first(0u8) {
        Some(end) => buf.take(end),
        None => buf,
    }
}

/// The message that `core::str::Utf8Error` prints for bytes that are not UTF-8.
pub uninterp spec fn utf8_error_text(bytes: Seq<u8>) -> Seq<char>;

/// The text that is kept of what decoding a name gave.
pub open spec fn decoded_name(decoded: Result<Seq<char>, Seq<char>>) -> Result<
    Seq<char>,
    Seq<char>,
> {
    match decoded {
        Ok(name) => Ok(name),
        Err(problem) => Err("Invalid UTF-8 from NetCDF name: "@ + problem),
    }
}

/// What decoding `bytes` as UTF-8 gives: their text, or the message that says why not.
pub open spec fn decode(bytes: Seq<u8>) -> Result<Seq<char>, Seq<char>> {
    if valid_utf8(bytes) {
        Ok(decode_utf8(bytes))
    } else {
        Err(utf8_error_text(bytes))
    }
}

/// The name in the buffer `buf`, or the message that says why it holds none.
pub open spec fn name_in(buf: Seq<u8>) -> Result<Seq<char>, Seq<char>> {
    decoded_name(decode(c_bytes(buf)))
}

/// Whether `name` can be handed to NetCDF-C as a C string: no byte of it is NUL.
pub open spec fn c_name(name: Seq<char>) -> bool {
    !encode_utf8(name).contains(0u8)
}

/// `r` with its texts viewed as sequences of characters.
pub open spec fn texts(r: Result<String, String>) -> Result<Seq<char>, Seq<char>> {
    match r {
        Ok(s) => Ok(s@),
        Err(e) => Err(e@),
    }
}

/// Every name that a buffer holds is NUL-free.
pub proof fn lemma_decoded_names_are_c_names(buf: Seq<u8>)
    ensures
        name_in(buf) matches Ok(name) ==> c_name(name),
{
    let bytes = c_bytes(buf);
    buf.index_of_first_ensures(0u8);
    assert(!bytes.contains(0u8));
    if valid_utf8(bytes) {
        decode_utf8_encode_utf8(bytes);
    }
}

/// Calls `core::str::from_utf8`. The contract claims what its documentation says, that it
/// succeeds exactly on valid UTF-8 and then gives the text that the bytes encode, and that the
/// printed form of its error depends on the bytes alone.
#[verifier::external_body]
fn from_utf8(bytes: &[u8]) -> (r: Result<String, String>)
    ensures
        r is Ok <==> valid_utf8(bytes@),
        r matches Ok(s) ==> s@ == decode_utf8(bytes@),
        r matches Err(e) ==> e@ == utf8_error_text(bytes@),
{
    match core::str::from_utf8(bytes) {
        Ok(s) => Ok(s.to_string()),
        Err(e) => Err(format!("{e}")),
    }
}

/// What is kept of a decoded name: the name itself, or its problem as an error message.
pub fn checked_name(decoded: Result<String, String>) -> (r: Result<String, String>)
    ensures
        texts(r) == decoded_name(texts(decoded)),
        decoded matches Ok(name) ==> (r matches Ok(kept) && kept@ == name@),
        decoded matches Err(problem) ==> (r matches Err(e) && e@
            == "Invalid UTF-8 from NetCDF name: "@ + problem@),
{
    match decoded {
        Ok(name) => Ok(name),
        Err(problem) => Err(join2("Invalid UTF-8 from NetCDF name: ", problem.as_str())),
    }
}

/// Reads the C string at the start of `buf` as a name.
pub fn cstr_to_string(buf: &[u8]) -> (r: Result<String, String>)
    ensures
        texts(r) == name_in(buf@),
        exists|end: int|
            #![trigger buf@.take(end)]
            {
                &&& 0 <= end <= buf@.len()
                &&& !buf@.take(end).contains(0u8)
                &&& end < buf@.len() ==> buf@[end] == 0
                &&& r is Ok <==> valid_utf8(buf@.take(end))
                &&& r matches Ok(name) ==> name@ == decode_utf8(buf@.take(end))
                &&& r matches Err(e) ==> e@ == "Invalid UTF-8 from NetCDF name: "@
                    + utf8_error_text(buf@.take(end))
            },
{
    let mut end: usize = 0;
    while end < buf.len() && buf[end] != 0
        invariant
            end <= buf@.len(),
            forall|i: int| 0 <= i < end ==> buf@[i] != 0,
        decreases buf@.len() - end,
    {
        end = end + 1;
    }
    proof {
        buf@.index_of_first_ensures(0u8);
        if end < buf@.len() {
            assert(buf@.contains(buf@[end as int]));
        }
        assert(c_bytes(buf@) =~= buf@.take(end as int));
    }
    checked_name(from_utf8(vstd::slice::slice_subrange(buf, 0, end)))
}

} // verus!
