//! The encode capability: appending a value's wire image to a buffer.

use vstd::prelude::*;

verus! {

/// A type with a wire representation.
///
/// `wire` is the value's exact byte image; `encode` appends it to the
/// output buffer and returns the number of bytes written. `wf` is the
/// well-formedness a value must have for its wire image to be the
/// layout the protocol expects (for most types it is trivially true).
pub trait Encode {
    spec fn wf(&self) -> bool;

    spec fn wire(&self) -> Seq<u8>;

    fn encode(&self, buffer: &mut Vec<u8>) -> (n: usize)
        requires
            self.wf(),
        ensures
            final(buffer)@ == old(buffer)@ + self.wire(),
            n == self.wire().len(),
    ;
}

} // verus!
