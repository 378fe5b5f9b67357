//! The commands the engine answers with.

use crate::point::Vector2;
use crate::site::{BarracksType, Site};
use crate::text::{append_decimal, decimal};
use vstd::prelude::*;
use vstd::string::StringExecFns;

verus! {

/// What the queen can be told to build.
#[derive(Copy, Clone, PartialEq, Eq, Structural, Debug)]
pub enum BuildType {
    Barracks(BarracksType),
    Tower,
    Mine,
}

#[derive(Copy, Clone, PartialEq, Eq, Structural, Debug)]
pub struct BuildCommand {
    pub site_id: i32,
    pub build_type: BuildType,
}

/// The order for the queen: stand still, walk to a point, or build on the
/// site she touches.
#[derive(Copy, Clone, PartialEq, Eq, Structural, Debug)]
pub enum QueenCommand {
    Wait,
    Move(Vector2),
    Build(BuildCommand),
}

/// The barracks that start training this tick, in the order they were chosen.
#[derive(Debug, PartialEq, Eq)]
pub struct TrainCommand {
    pub site_ids: Vec<i32>,
}

impl BuildCommand {
    pub fn for_site(site: &Site, build_type: BuildType) -> (r: BuildCommand)
        ensures
            r == (BuildCommand { site_id: site.id, build_type }),
    {
        BuildCommand { site_id: site.id, build_type }
    }
}

impl TrainCommand {
    /// The command that trains at the given sites, in their order.
    pub fn for_sites(sites: Vec<&Site>) -> (r: TrainCommand)
        ensures
            r.site_ids@.len() == sites@.len(),
            forall|i: int| 0 <= i < sites@.len() ==> #[trigger] r.site_ids@[i] == sites@[i].id,
    {
        let mut site_ids: Vec<i32> = Vec::new();
        let mut i: usize = 0;
        while i < sites.len()
            invariant
                i <= sites@.len(),
                site_ids@.len() == i,
                forall|j: int| 0 <= j < i ==> #[trigger] site_ids@[j] == sites@[j].id,
            decreases sites@.len() - i,
        {
            site_ids.push(sites[i].id);
            i += 1;
        }
        TrainCommand { site_ids }
    }
}

/// The text of the ids of a training command: each id in turn, in decimal,
/// after one space.
pub open spec fn ids_text(ids: Seq<i32>) -> Seq<char>
    decreases ids.len(),
{
    if ids.len() == 0 {
        Seq::empty()
    } else {
        ids_text(ids.drop_last()) + seq![' '] + decimal(ids.last() as int)
    }
}

impl BuildType {
    /// The word that names the building in a command line.
    pub open spec fn word(self) -> Seq<char> {
        match self {
            BuildType::Barracks(BarracksType::Knight) => "BARRACKS-KNIGHT"@,
            BuildType::Barracks(BarracksType::Archer) => "BARRACKS-ARCHER"@,
            BuildType::Barracks(BarracksType::Giant) => "BARRACKS-GIANT"@,
            BuildType::Mine => "MINE"@,
            BuildType::Tower => "TOWER"@,
        }
    }

    /// The word that names the building in a command line.
    pub fn as_word(&self) -> (r: &'static str)
        ensures
            r@ == self.word(),
    {
        match self {
            BuildType::Barracks(barracks_type) => {
                match barracks_type {
                    BarracksType::Knight => "BARRACKS-KNIGHT",
                    BarracksType::Archer => "BARRACKS-ARCHER",
                    BarracksType::Giant => "BARRACKS-GIANT",
                }
            },
            BuildType::Mine => "MINE",
            BuildType::Tower => "TOWER",
        }
    }
}

impl QueenCommand {
    /// The command line: `WAIT`, or `MOVE` with the two coordinates of the
    /// target, or `BUILD` with the site id and the word of the building.
    pub open spec fn line(self) -> Seq<char> {
        match self {
            QueenCommand::Wait => "WAIT"@,
            QueenCommand::Move(position) => "MOVE "@ + decimal(position.x as int) + " "@ + decimal(
                position.y as int,
            ),
            QueenCommand::Build(build_cmd) => "BUILD "@ + decimal(build_cmd.site_id as int) + " "@
                + build_cmd.build_type.word(),
        }
    }

    /// Writes the command line.
    pub fn to_line(&self) -> (r: String)
        ensures
            r@ == self.line(),
    {
        match self {
            QueenCommand::Wait => String::from_str("WAIT"),
            QueenCommand::Move(position) => {
                let mut text = String::from_str("MOVE ");
                append_decimal(&mut text, position.x);
                text.append(" ");
                append_decimal(&mut text, position.y);
                text
            },
            QueenCommand::Build(build_cmd) => {
                let mut text = String::from_str("BUILD ");
                append_decimal(&mut text, build_cmd.site_id);
                text.append(" ");
                text.append(build_cmd.build_type.as_word());
                text
            },
        }
    }
}

impl TrainCommand {
    /// The command line: `TRAIN`, followed by the site ids in the order they
    /// were chosen, each after one space.
    pub open spec fn line(&self) -> Seq<char> {
        "TRAIN"@ + ids_text(self.site_ids@)
    }

    /// Writes the command line.
    pub fn to_line(&self) -> (r: String)
        ensures
            r@ == self.line(),
    {
        let mut text = String::from_str("TRAIN");
        let mut i: usize = 0;
        assert(self.site_ids@.take(0) =~= Seq::<i32>::empty());
        assert(text@ =~= "TRAIN"@ + ids_text(self.site_ids@.take(0)));
        while i < self.site_ids.len()
            invariant
                i <= self.site_ids@.len(),
                text@ == "TRAIN"@ + ids_text(self.site_ids@.take(i as int)),
            decreases self.site_ids@.len() - i,
        {
            proof {
                reveal_strlit(" ");
                assert(self.site_ids@.take(i + 1).drop_last() =~= self.site_ids@.take(i as int));
                assert(" "@ =~= seq![' ']);
            }
            let ghost before = text@;
            text.append(" ");
            append_decimal(&mut text, self.site_ids[i]);
            assert(text@ =~= "TRAIN"@ + ids_text(self.site_ids@.take(i + 1)));
            i += 1;
        }
        assert(self.site_ids@.take(i as int) =~= self.site_ids@);
        text
    }
}

} // verus!
