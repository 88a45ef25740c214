//! Resource identifiers.

use vstd::prelude::*;

verus! {

/// The bytes of the identifier of XRD, the base asset.
pub open spec fn xrd_bytes() -> Seq<u8> {
    seq![
        93u8, 166u8, 99u8, 24u8, 198u8, 49u8, 140u8, 97u8, 245u8, 166u8,
        27u8, 76u8, 99u8, 24u8, 198u8, 49u8, 140u8, 247u8, 148u8, 170u8,
        141u8, 41u8, 95u8, 20u8, 230u8, 49u8, 140u8, 99u8, 24u8, 198u8,
    ]
}

/// The stable identifier of a priced resource: the bytes of its address.
#[derive(Clone, Copy, Debug, PartialEq, Eq)]
pub struct ResourceId {
    pub bytes: [u8; 30],
}

impl View for ResourceId {
    type V = Seq<u8>;

    open spec fn view(&self) -> Seq<u8> {
        self.bytes@
    }
}

impl ResourceId {
    /// The identifier with the given bytes.
    pub fn new(bytes: [u8; 30]) -> (r: ResourceId)
        ensures
            r@ == bytes@,
    {
        ResourceId { bytes }
    }

    /// Whether two identifiers name the same resource.
    pub fn same_as(&self, other: &ResourceId) -> (r: bool)
        ensures
            r == (self@ == other@),
    {
        let mut i: usize = 0;
        while i < 30
            invariant
                i <= 30,
                forall|j: int| 0 <= j < i ==> self.bytes@[j] == other.bytes@[j],
            decreases 30 - i,
        {
            if self.bytes[i] != other.bytes[i] {
                return false;
            }
            i += 1;
        }
        assert(self.bytes@ =~= other.bytes@);
        true
    }
}

/// Reads the constant `XRD` of `scrypto`, the address of the network's
/// native token, and hands back the thirty bytes of its node identifier as
/// the constant's definition lists them.
#[verifier::external_body]
pub(crate) fn native_xrd() -> (r: ResourceId)
    ensures
        r@ == xrd_bytes(),
{
    ResourceId { bytes: scrypto::constants::XRD.into_node_id().0 }
}

} // verus!
