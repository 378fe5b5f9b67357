//! Building sites and the structures that stand on them.

use crate::owner::Owner;
use crate::point::Vector2;
use vstd::prelude::*;

verus! {

#[derive(Copy, Clone, PartialEq, Eq, Structural, Debug)]
pub enum BarracksType {
    Knight,
    Archer,
    Giant,
}

#[derive(Copy, Clone, PartialEq, Eq, Structural, Debug)]
pub struct BarracksStructure {
    pub owner: Owner,
    pub barracks_type: BarracksType,
    pub turns_to_train: i32,
}

#[derive(Copy, Clone, PartialEq, Eq, Structural, Debug)]
pub struct TowerStructure {
    pub owner: Owner,
    pub health: i32,
    pub attack_radius: i32,
}

#[derive(Copy, Clone, PartialEq, Eq, Structural, Debug)]
pub struct MineStructure {
    pub owner: Owner,
    pub mining_rate: i32,
}

#[derive(Copy, Clone, PartialEq, Eq, Structural, Debug)]
pub enum Structure {
    NoStructure,
    Barracks(BarracksStructure),
    Tower(TowerStructure),
    Mine(MineStructure),
}

/// A fixed place of the board that holds at most one structure. The id, the
/// position and the radius never change; the rest is replaced every tick.
#[derive(Copy, Clone, PartialEq, Eq, Structural, Debug)]
pub struct Site {
    pub id: i32,
    pub position: Vector2,
    pub radius: i32,
    pub gold: i32,
    pub max_mining_rate: i32,
    pub structure: Structure,
}

impl BarracksType {
    /// Gold that training one unit of this kind costs.
    pub open spec fn cost(self) -> int {
        match self {
            BarracksType::Knight => 80,
            BarracksType::Archer => 100,
            BarracksType::Giant => 140,
        }
    }

    /// Gold that training one unit of this kind costs.
    pub fn cost_to_train(&self) -> (r: i32)
        ensures
            r == self.cost(),
    {
        match self {
            BarracksType::Knight => 80,
            BarracksType::Archer => 100,
            BarracksType::Giant => 140,
        }
    }

    /// The barracks kind a wire code stands for.
    pub open spec fn of_code(code: i32) -> Option<BarracksType> {
        if code == 0 {
            Some(BarracksType::Knight)
        } else if code == 1 {
            Some(BarracksType::Archer)
        } else if code == 2 {
            Some(BarracksType::Giant)
        } else {
            None
        }
    }

    /// Reads a barracks kind code; `None` for a code that names no kind.
    pub fn from_code(code: i32) -> (r: Option<BarracksType>)
        ensures
            r == BarracksType::of_code(code),
    {
        if code == 0 {
            Some(BarracksType::Knight)
        } else if code == 1 {
            Some(BarracksType::Archer)
        } else if code == 2 {
            Some(BarracksType::Giant)
        } else {
            None
        }
    }
}

impl Structure {
    /// The structure a site row of the observation stands for, if the row is
    /// well formed. An empty site ignores the owner and both parameters; a
    /// mine, a tower or a barracks must belong to one of the two players, and
    /// a barracks must name a known kind.
    pub open spec fn of_row(structure_type: i32, owner: i32, param_1: i32, param_2: i32) -> Option<
        Structure,
    > {
        if structure_type == -1 {
            Some(Structure::NoStructure)
        } else if structure_type == 0 {
            match Owner::of_code(owner) {
                Some(o) => Some(Structure::Mine(MineStructure { owner: o, mining_rate: param_1 })),
                None => None,
            }
        } else if structure_type == 1 {
            match Owner::of_code(owner) {
                Some(o) => Some(
                    Structure::Tower(
                        TowerStructure { owner: o, health: param_1, attack_radius: param_2 },
                    ),
                ),
                None => None,
            }
        } else if structure_type == 2 {
            match (Owner::of_code(owner), BarracksType::of_code(param_2)) {
                (Some(o), Some(k)) => Some(
                    Structure::Barracks(
                        BarracksStructure { owner: o, barracks_type: k, turns_to_train: param_1 },
                    ),
                ),
                _ => None,
            }
        } else {
            None
        }
    }

    /// Reads the structure of one site row; `None` when the row is malformed.
    pub fn from_row(structure_type: i32, owner: i32, param_1: i32, param_2: i32) -> (r: Option<
        Structure,
    >)
        ensures
            r == Structure::of_row(structure_type, owner, param_1, param_2),
    {
        if structure_type == -1 {
            Some(Structure::NoStructure)
        } else if structure_type == 0 {
            match Owner::from_code(owner) {
                Some(o) => Some(Structure::Mine(MineStructure { owner: o, mining_rate: param_1 })),
                None => None,
            }
        } else if structure_type == 1 {
            match Owner::from_code(owner) {
                Some(o) => Some(
                    Structure::Tower(
                        TowerStructure { owner: o, health: param_1, attack_radius: param_2 },
                    ),
                ),
                None => None,
            }
        } else if structure_type == 2 {
            match (Owner::from_code(owner), BarracksType::from_code(param_2)) {
                (Some(o), Some(k)) => Some(
                    Structure::Barracks(
                        BarracksStructure { owner: o, barracks_type: k, turns_to_train: param_1 },
                    ),
                ),
                _ => None,
            }
        } else {
            None
        }
    }
}

impl Site {
    /// A site as the setup announces it: nothing built, nothing known yet of
    /// its gold.
    pub fn new(id: i32, position: Vector2, radius: i32) -> (r: Site)
        ensures
            r == (Site {
                id,
                position,
                radius,
                gold: -1i32,
                max_mining_rate: -1i32,
                structure: Structure::NoStructure,
            }),
    {
        Site {
            id,
            position,
            radius,
            gold: -1,
            max_mining_rate: -1,
            structure: Structure::NoStructure,
        }
    }

    pub fn is_mine(&self) -> (r: bool)
        ensures
            r == (self.structure is Mine),
    {
        match &self.structure {
            Structure::Mine(_) => true,
            _ => false,
        }
    }

    /// The mine on this site.
    pub fn mine(&self) -> (r: &MineStructure)
        requires
            self.structure is Mine,
        ensures
            *r == self.structure->Mine_0,
    {
        match &self.structure {
            Structure::Mine(mine) => mine,
            _ => vstd::pervasive::unreached(),
        }
    }

    pub fn is_barracks(&self) -> (r: bool)
        ensures
            r == (self.structure is Barracks),
    {
        match &self.structure {
            Structure::Barracks(_) => true,
            _ => false,
        }
    }

    /// The barracks on this site.
    pub fn barracks(&self) -> (r: &BarracksStructure)
        requires
            self.structure is Barracks,
        ensures
            *r == self.structure->Barracks_0,
    {
        match &self.structure {
            Structure::Barracks(barracks) => barracks,
            _ => vstd::pervasive::unreached(),
        }
    }

    pub fn is_tower(&self) -> (r: bool)
        ensures
            r == (self.structure is Tower),
    {
        match &self.structure {
            Structure::Tower(_) => true,
            _ => false,
        }
    }

    /// The tower on this site.
    pub fn tower(&self) -> (r: &TowerStructure)
        requires
            self.structure is Tower,
        ensures
            *r == self.structure->Tower_0,
    {
        match &self.structure {
            Structure::Tower(tower) => tower,
            _ => vstd::pervasive::unreached(),
        }
    }

    /// The owner of the structure on this site; nobody owns an empty site.
    pub open spec fn owned_by(self) -> Option<Owner> {
        match self.structure {
            Structure::Mine(mine) => Some(mine.owner),
            Structure::Barracks(barracks) => Some(barracks.owner),
            Structure::Tower(tower) => Some(tower.owner),
            Structure::NoStructure => None,
        }
    }

    /// The owner of the structure on this site; nobody owns an empty site.
    pub fn owner(&self) -> (r: Option<Owner>)
        ensures
            r == self.owned_by(),
    {
        match &self.structure {
            Structure::Mine(mine) => Some(mine.owner),
            Structure::Barracks(barracks) => Some(barracks.owner),
            Structure::Tower(tower) => Some(tower.owner),
            Structure::NoStructure => None,
        }
    }

    /// The site holds a friendly barracks of the given kind that can start
    /// training this tick.
    pub open spec fn is_ready_barracks(self, kind: BarracksType) -> bool {
        match self.structure {
            Structure::Barracks(barracks) => barracks.owner == Owner::Friendly
                && barracks.barracks_type == kind && barracks.turns_to_train == 0,
            _ => false,
        }
    }

    /// Decides whether the site holds a friendly barracks of the given kind
    /// that can start training this tick.
    pub fn can_train(&self, kind: BarracksType) -> (r: bool)
        ensures
            r == self.is_ready_barracks(kind),
    {
        match &self.structure {
            Structure::Barracks(barracks) => barracks.owner == Owner::Friendly
                && barracks.barracks_type == kind && barracks.turns_to_train == 0,
            _ => false,
        }
    }
}

} // verus!
