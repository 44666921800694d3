use vstd::prelude::*;

verus! {

/// Answers that can be written to the wire.
pub trait PacketSerializable {
    /// The bytes of the answer.
    spec fn spec_serialize(&self) -> Seq<u8>;

    /// The bytes of the answer.
    fn serialize(&self) -> (r: Vec<u8>)
        ensures
            r@ == self.spec_serialize(),
    ;
}

} // verus!
