//! Floating-point literals. Recognising and converting them is left to
//! `nom`; the library only says where a literal ends and carries the value
//! as the bit pattern of a binary64.

use vstd::prelude::*;

verus! {

/// What scanning for a number at the start of a text gives.
pub enum Scan {
    /// A literal of `consumed` characters, whose value has the bit pattern
    /// `bits`.
    Float { consumed: nat, bits: u64 },
    /// The text does not start with a number.
    Mismatch,
    /// The text starts like a number with an exponent, but no digit follows
    /// the exponent mark.
    Abort,
}

/// The outcome of `nom::number::complete::double` on `input`.
pub uninterp spec fn nom_double(input: Seq<char>) -> Scan;

/// The executable counterpart of [`Scan`]: on a match, what is left of the
/// text and the bit pattern of the value.
pub enum Scanned<'a> {
    Float(&'a str, u64),
    Mismatch,
    Abort,
}

/// Calls `nom::number::complete::double` on `input`.
///
/// The contract names the outcome [`nom_double`] and states what the
/// recogniser's grammar makes plain: on a match the remainder is a proper
/// suffix of `input` (every alternative of the grammar takes a digit or one
/// of the words `nan`, `inf`, `infinity`). A recoverable error of `nom` is
/// `Mismatch`; an unrecoverable one, which `nom` raises after an exponent
/// mark that no digit follows, is `Abort`.
#[verifier::external_body]
pub(crate) fn scan_double<'a>(input: &'a str) -> (r: Scanned<'a>)
    ensures
        match r {
            Scanned::Float(rest, bits) => {
                &&& rest@.len() < input@.len()
                &&& rest@ == input@.skip(input@.len() - rest@.len())
                &&& nom_double(input@) == (Scan::Float {
                    consumed: (input@.len() - rest@.len()) as nat,
                    bits,
                })
            },
            Scanned::Mismatch => nom_double(input@) == Scan::Mismatch,
            Scanned::Abort => nom_double(input@) == Scan::Abort,
        },
{
    match nom::number::complete::double::<&str, nom::error::Error<&str>>(input) {
        Ok((rest, value)) => Scanned::Float(rest, value.to_bits()),
        Err(nom::Err::Error(_)) => Scanned::Mismatch,
        Err(nom::Err::Failure(_)) => Scanned::Abort,
        Err(nom::Err::Incomplete(_)) => Scanned::Abort,
    }
}

} // verus!
