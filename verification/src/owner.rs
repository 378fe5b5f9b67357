//! The two players, as seen from the engine's side.

use vstd::prelude::*;

verus! {

/// The player a structure or a unit belongs to. A site that holds no
/// structure belongs to nobody, which is written `None` wherever an owner is
/// optional.
#[derive(Copy, Clone, PartialEq, Eq, Structural, Debug)]
pub enum Owner {
    Friendly,
    Enemy,
}

impl Owner {
    /// The owner a wire code stands for: `0` is the engine's own side, `1` the
    /// opponent.
    pub open spec fn of_code(code: i32) -> Option<Owner> {
        if code == 0 {
            Some(Owner::Friendly)
        } else if code == 1 {
            Some(Owner::Enemy)
        } else {
            None
        }
    }

    /// Reads an owner code; any code but `0` and `1` means nobody.
    pub fn from_code(code: i32) -> (r: Option<Owner>)
        ensures
            r == Owner::of_code(code),
    {
        if code == 0 {
            Some(Owner::Friendly)
        } else if code == 1 {
            Some(Owner::Enemy)
        } else {
            None
        }
    }
}

} // verus!
