use vstd::prelude::*;

verus! {

/// The symmetric key shared by every node of a fleet.
pub struct FleetKey {
    key: [u8; 32],
}

impl FleetKey {
    pub closed spec fn spec_key(&self) -> Seq<u8> {
        self.key@
    }

    /// A fleet key holding `key`.
    pub fn new(key: [u8; 32]) -> (r: FleetKey)
        ensures
            r.spec_key() == key@,
    {
        FleetKey { key }
    }

    /// The key bytes.
    pub fn key(&self) -> (r: &[u8; 32])
        ensures
            r@ == self.spec_key(),
    {
        &self.key
    }
}

} // verus!
