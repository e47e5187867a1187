//! The decode capability: reading a typed value from the front of a
//! buffer.

use vstd::prelude::*;

use crate::encode::Encode;
use crate::errors::{DecodeError, DecodeErrorV};

verus! {

/// A type that can be read back from wire bytes.
///
/// `parse` is the mathematical decoder: applied to the bytes from
/// `pos` on, it yields the decoded value's model and the number of
/// bytes consumed, or the exact error the decoder reports. `decode`
/// is proved to agree with it, and every decoded value is well formed
/// for re-encoding.
pub trait Decode: View + Encode + Sized {
    spec fn parse(data: Seq<u8>) -> Result<(Self::V, int), DecodeErrorV>;

    fn decode(buffer: &Vec<u8>, pos: usize) -> (r: Result<(Self, usize), DecodeError>)
        requires
            pos <= buffer@.len(),
        ensures
            match (r, Self::parse(buffer@.skip(pos as int))) {
                (Ok((v, end)), Ok((sv, n))) => v@ == sv && v.wf() && end == pos + n && end
                    <= buffer@.len(),
                (Err(e), Err(se)) => e@ == se,
                _ => false,
            },
    ;
}

} // verus!
