//! Units on the board.

use crate::owner::Owner;
use crate::point::Vector2;
use vstd::prelude::*;

verus! {

#[derive(Copy, Clone, PartialEq, Eq, Structural, Debug)]
pub enum UnitType {
    Queen,
    Knight,
    Archer,
    Giant,
}

#[derive(Copy, Clone, PartialEq, Eq, Structural, Debug)]
pub struct Unit {
    pub position: Vector2,
    pub owner: Owner,
    pub unit_type: UnitType,
    pub health: i32,
}

impl UnitType {
    /// The unit kind a wire code stands for.
    pub open spec fn of_code(code: i32) -> Option<UnitType> {
        if code == -1 {
            Some(UnitType::Queen)
        } else if code == 0 {
            Some(UnitType::Knight)
        } else if code == 1 {
            Some(UnitType::Archer)
        } else if code == 2 {
            Some(UnitType::Giant)
        } else {
            None
        }
    }

    /// Reads a unit kind code; `None` for a code that names no kind.
    pub fn from_code(code: i32) -> (r: Option<UnitType>)
        ensures
            r == UnitType::of_code(code),
    {
        if code == -1 {
            Some(UnitType::Queen)
        } else if code == 0 {
            Some(UnitType::Knight)
        } else if code == 1 {
            Some(UnitType::Archer)
        } else if code == 2 {
            Some(UnitType::Giant)
        } else {
            None
        }
    }
}

impl Unit {
    /// The unit a row of the observation stands for, if its codes are valid.
    pub open spec fn of_row(x: i32, y: i32, owner: i32, unit_type: i32, health: i32) -> Option<
        Unit,
    > {
        match (Owner::of_code(owner), UnitType::of_code(unit_type)) {
            (Some(o), Some(t)) => Some(
                Unit { position: Vector2 { x, y }, owner: o, unit_type: t, health },
            ),
            _ => None,
        }
    }

    /// Reads one unit row. A unit must belong to one of the two players and
    /// be of a known kind; otherwise the row is malformed and the result is
    /// `None`.
    pub fn from_row(x: i32, y: i32, owner: i32, unit_type: i32, health: i32) -> (r: Option<Unit>)
        ensures
            r == Unit::of_row(x, y, owner, unit_type, health),
    {
        match (Owner::from_code(owner), UnitType::from_code(unit_type)) {
            (Some(o), Some(t)) => Some(
                Unit { position: Vector2 { x, y }, owner: o, unit_type: t, health },
            ),
            _ => None,
        }
    }

    /// The unit is of the given kind and side.
    pub open spec fn is_a(self, unit_type: UnitType, owner: Owner) -> bool {
        self.unit_type == unit_type && self.owner == owner
    }

    /// Decides whether the unit is of the given kind and side.
    pub fn matches(&self, unit_type: UnitType, owner: Owner) -> (r: bool)
        ensures
            r == self.is_a(unit_type, owner),
    {
        self.unit_type == unit_type && self.owner == owner
    }
}

} // verus!
