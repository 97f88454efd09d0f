use vstd::prelude::*;

verus! {

/// The text that lossy UTF-8 decoding yields from the given bytes: valid
/// sequences decode to themselves, invalid ones come out as the replacement
/// character. Named rather than spelled out; the facts callers may rely on
/// stand in the contract of `lossy_string` below.
pub uninterp spec fn lossy_of(bytes: Seq<u8>) -> Seq<char>;

/// Relies on `String::from_utf8_lossy`: the characters depend on the input
/// bytes alone; no bytes decode to no characters and at least one byte
/// decodes to at least one character (every byte belongs to a valid sequence
/// or to an invalid one that becomes a replacement character); the result
/// ends in a newline exactly when the bytes end in the newline byte, since
/// 0x0A is the sole encoding of `'\n'` and can be part of no longer
/// sequence; bytes that are all ASCII are valid UTF-8 and decode to
/// themselves.
#[verifier::external_body]
pub(crate) fn lossy_string(bytes: &Vec<u8>) -> (r: String)
    ensures
        r@ == lossy_of(bytes@),
        bytes@.len() == 0 ==> r@.len() == 0,
        bytes@.len() > 0 ==> r@.len() > 0,
        bytes@.len() > 0 ==> (r@.last() == '\n' <==> bytes@.last() == 10),
        (forall|i: int| 0 <= i < bytes@.len() ==> bytes@[i] < 128) ==> r@ == bytes@.map_values(
            |b: u8| b as char,
        ),
{
    String::from_utf8_lossy(bytes).to_string()
}

} // verus!
