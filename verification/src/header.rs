//! The value of the forwarding header that a request is sent on with.

use vstd::prelude::*;

verus! {

/// A header's value after `addition` has joined it: alone where the header
/// was absent, else behind the old value, a comma and a space.
pub open spec fn extended(existing: Option<Seq<u8>>, addition: Seq<u8>) -> Seq<u8> {
    match existing {
        None => addition,
        Some(value) => value + seq![44u8, 32u8] + addition,
    }
}

/// Extending a header keeps what it held: the old value is the start of the
/// new one and the addition is its end. An absent header is created with
/// the addition as its value.
pub proof fn lemma_extended_appends(existing: Option<Seq<u8>>, addition: Seq<u8>)
    ensures
        existing.is_none() ==> extended(existing, addition) == addition,
        existing.is_some() ==> existing.unwrap().is_prefix_of(extended(existing, addition)),
        addition.is_suffix_of(extended(existing, addition)),
        existing.is_some() ==> extended(existing, addition).len() == existing.unwrap().len() + 2
            + addition.len(),
{
    let whole = extended(existing, addition);
    assert(whole.skip(whole.len() - addition.len()) =~= addition);
    if existing.is_some() {
        assert(whole.take(existing.unwrap().len() as int) =~= existing.unwrap());
    }
}

/// The views of an optional slice of bytes.
pub open spec fn bytes_view(bytes: Option<&[u8]>) -> Option<Seq<u8>> {
    match bytes {
        None => None,
        Some(b) => Some(b@),
    }
}

/// Computes the value that a header has after `addition` has joined it.
/// For the forwarding header the addition is the client's IP address.
pub fn extend_header_value(existing: Option<&[u8]>, addition: &[u8]) -> (value: Vec<u8>)
    ensures
        value@ == extended(bytes_view(existing), addition@),
{
    let mut value: Vec<u8> = Vec::new();
    match existing {
        None => {},
        Some(old_value) => {
            value.extend_from_slice(old_value);
            value.push(44u8);
            value.push(32u8);
        },
    }
    value.extend_from_slice(addition);
    assert(value@ =~= extended(bytes_view(existing), addition@));
    value
}

} // verus!
