use vstd::prelude::*;

verus! {

/// One enumerable capture device, as presented to the interface layer
/// that seeds a stream session with a device id.
#[derive(Debug)]
pub struct Cameras {
    pub id: String,
    pub name: String,
}

impl Cameras {
    /// A device entry with the given id and display name.
    pub fn new(id: String, name: String) -> (c: Cameras)
        ensures
            c.id@ == id@,
            c.name@ == name@,
    {
        Cameras { id, name }
    }
}

} // verus!
