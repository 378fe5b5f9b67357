//! The queen's objectives. A task names the site it works on; whether it is
//! done and what it orders are read off the snapshot of the tick.

use crate::command::{BuildCommand, BuildType, QueenCommand};
use crate::context::{Context, World};
use crate::owner::Owner;
use crate::point::{
    angle_below_20_degrees, displacement, distance_sq, dot_of, is_truncated_offset,
    lemma_step_truncates, perp_ccw_of, perp_cw_of, step_of, Vector2,
};
use crate::arith::lemma_product_bound;
use crate::site::{BarracksType, Site, Structure};
use crate::unit::UnitType;
use vstd::prelude::*;

verus! {

/// The distance the queen covers in one tick.
pub const QUEEN_SPEED: i32 = 60;

/// The radius of the queen's disk.
pub const QUEEN_RADIUS: i32 = 30;

/// An enemy knight this close to the queen makes her give up a mine.
pub const KNIGHT_THREAT_RANGE: i32 = 300;

/// A tower whose attack radius exceeds this is upgraded no further.
pub const TOWER_RADIUS_CAP: i32 = 350;

/// The length of the sidestep that leads around a site in the way.
pub const SIDESTEP: i32 = 100;

#[derive(Copy, Clone, PartialEq, Eq, Structural, Debug)]
pub struct BuildMineTask {
    pub site_id: i32,
}

#[derive(Copy, Clone, PartialEq, Eq, Structural, Debug)]
pub struct BuildBarracksTask {
    pub site_id: i32,
    pub barracks_type: BarracksType,
}

#[derive(Copy, Clone, PartialEq, Eq, Structural, Debug)]
pub struct BuildTowerTask {
    pub site_id: i32,
}

#[derive(Copy, Clone, PartialEq, Eq, Structural, Debug)]
pub struct MoveToBuildSiteTask {
    pub site_id: i32,
}

#[derive(Copy, Clone, PartialEq, Eq, Structural, Debug)]
pub struct WaitTask {}

/// The objective the queen pursues from tick to tick.
#[derive(Copy, Clone, PartialEq, Eq, Structural, Debug)]
pub enum Task {
    Wait(WaitTask),
    MoveToBuildSite(MoveToBuildSiteTask),
    BuildMine(BuildMineTask),
    BuildBarracks(BuildBarracksTask),
    BuildTower(BuildTowerTask),
}

/// Some enemy knight is nearer to the friendly queen than `range`, the
/// distance taken with its fraction cut off.
pub open spec fn enemy_knight_nearer_than(world: World, range: int) -> bool {
    exists|i: int|
        0 <= i < world.units.len() && world.units[i].is_a(UnitType::Knight, Owner::Enemy)
            && world.queen_distance(world.units[i].position) < range
}

/// Every enemy knight is farther from the friendly queen than `range`, the
/// distance taken with its fraction cut off. It holds when there is no enemy
/// knight.
pub open spec fn enemy_knights_beyond(world: World, range: int) -> bool {
    forall|i: int|
        0 <= i < world.units.len() && world.units[i].is_a(UnitType::Knight, Owner::Enemy)
            ==> world.queen_distance(world.units[i].position) > range
}

/// The gap between the rim of the queen's disk and the rim of the site is
/// less than `QUEEN_SPEED + 10`: the distance between the two centres is less
/// than the site's radius plus a hundred.
pub open spec fn queen_within_reach(queen: Vector2, site: Site) -> bool {
    let reach = site.radius + QUEEN_RADIUS + QUEEN_SPEED + 10;
    reach > 0 && distance_sq(site.position, queen) < reach * reach
}

/// The touched site is in the way of the walk to the target site: the queen
/// touches a site, and the directions from her to the touched site and to
/// the target site are less than twenty degrees apart.
pub open spec fn path_is_blocked(world: World, site_id: i32) -> bool {
    let queen = world.queen().position;
    world.touched_site_id >= 0 && angle_below_20_degrees(
        displacement(world.site(world.touched_site_id).position, queen),
        displacement(world.site(site_id).position, queen),
    )
}

/// The tangent along which the queen sidesteps the touched site: the
/// direction to the touched site turned a quarter clockwise or
/// counter-clockwise, whichever forms the smaller angle with the direction to
/// the target site, and the counter-clockwise one where neither does. Of two
/// vectors of equal length the one with the larger inner product forms the
/// smaller angle.
pub open spec fn sidestep_tangent(world: World, site_id: i32) -> Vector2 {
    let queen = world.queen().position;
    let to_touched = displacement(world.site(world.touched_site_id).position, queen);
    let to_target = displacement(world.site(site_id).position, queen);
    if dot_of(to_target, perp_cw_of(to_touched)) > dot_of(to_target, perp_ccw_of(to_touched)) {
        perp_cw_of(to_touched)
    } else {
        perp_ccw_of(to_touched)
    }
}

/// The point the queen walks to on her way to the target site: one sidestep
/// along the tangent where the touched site is in the way, and else the
/// position of the target site.
pub open spec fn move_target(world: World, site_id: i32) -> Vector2 {
    if path_is_blocked(world, site_id) {
        step_of(world.queen().position, sidestep_tangent(world, site_id), SIDESTEP as int)
    } else {
        world.site(site_id).position
    }
}

/// Where the path is blocked, the integer point the queen is sent to is the
/// real point one sidestep away from her along the tangent, with the
/// fraction of each coordinate cut off: the coordinates are rounded toward
/// zero.
pub proof fn lemma_move_target_truncates(world: World, site_id: i32)
    requires
        world.in_bounds(),
        world.has_site(site_id),
        world.has_site(world.touched_site_id),
        world.has_friendly_queen(),
        path_is_blocked(world, site_id),
    ensures
        sidestep_tangent(world, site_id).norm_sq() > 0,
        is_truncated_offset(
            move_target(world, site_id).x as int,
            world.queen().position.x as int,
            SIDESTEP * sidestep_tangent(world, site_id).x,
            sidestep_tangent(world, site_id).norm_sq(),
        ),
        is_truncated_offset(
            move_target(world, site_id).y as int,
            world.queen().position.y as int,
            SIDESTEP * sidestep_tangent(world, site_id).y,
            sidestep_tangent(world, site_id).norm_sq(),
        ),
{
    world.lemma_queen_exists();
    world.lemma_site_exists(site_id);
    world.lemma_site_exists(world.touched_site_id);
    let queen = world.queen().position;
    let to_touched = displacement(world.site(world.touched_site_id).position, queen);
    let to_target = displacement(world.site(site_id).position, queen);
    let tangent = sidestep_tangent(world, site_id);
    assert(to_touched.norm_sq() > 0) by {
        if to_touched.x == 0 && to_touched.y == 0 {
            assert(to_touched.x * to_target.x + to_touched.y * to_target.y == 0)
                by (nonlinear_arith)
                requires
                    to_touched.x == 0 && to_touched.y == 0,
            ;
        } else {
            assert(to_touched.x * to_touched.x + to_touched.y * to_touched.y > 0)
                by (nonlinear_arith)
                requires
                    to_touched.x != 0 || to_touched.y != 0,
            ;
        }
    }
    assert(tangent.norm_sq() == to_touched.norm_sq()) by (nonlinear_arith)
        requires
            (tangent.x == to_touched.y && tangent.y == -to_touched.x) || (tangent.x
                == -to_touched.y && tangent.y == to_touched.x),
    ;
    lemma_step_truncates(queen, tangent, SIDESTEP as int);
}

impl BuildMineTask {
    pub fn new(site: &Site) -> (r: BuildMineTask)
        ensures
            r.site_id == site.id,
    {
        BuildMineTask { site_id: site.id }
    }

    /// The task is given up when an enemy knight is nearer than the threat
    /// range or a tower stands on the site, and it is finished when the site
    /// holds a friendly mine that digs at the site's full rate.
    pub open spec fn done(&self, world: World) -> bool {
        let site = world.site(self.site_id);
        enemy_knight_nearer_than(world, KNIGHT_THREAT_RANGE as int) || match site.structure {
            Structure::Mine(mine) => mine.owner == Owner::Friendly && mine.mining_rate
                == site.max_mining_rate,
            Structure::Tower(_) => true,
            _ => false,
        }
    }

    pub open spec fn command(&self) -> QueenCommand {
        QueenCommand::Build(BuildCommand { site_id: self.site_id, build_type: BuildType::Mine })
    }

    pub fn is_task_done(&self, context: &Context) -> (r: bool)
        requires
            context@.has_site(self.site_id),
            context@.has_friendly_queen(),
            context@.in_bounds(),
        ensures
            r == self.done(context@),
    {
        let site = context.site_by_id(self.site_id);
        let enemy_knight_dist = context.closest_unit_dist(UnitType::Knight, Owner::Enemy);
        let near = match enemy_knight_dist {
            Some(d) => d < KNIGHT_THREAT_RANGE,
            None => false,
        };
        if near {
            return true;
        }
        match &site.structure {
            Structure::Mine(mine) => {
                mine.owner == Owner::Friendly && mine.mining_rate == site.max_mining_rate
            },
            Structure::Tower(_) => true,
            _ => false,
        }
    }

    pub fn get_next_command(&self, _context: &Context) -> (r: QueenCommand)
        ensures
            r == self.command(),
    {
        QueenCommand::Build(BuildCommand { build_type: BuildType::Mine, site_id: self.site_id })
    }
}

impl BuildBarracksTask {
    pub fn new(site: &Site, barracks_type: BarracksType) -> (r: BuildBarracksTask)
        ensures
            r.site_id == site.id,
            r.barracks_type == barracks_type,
    {
        BuildBarracksTask { site_id: site.id, barracks_type }
    }

    /// The task is given up when a tower stands on the site, and it is
    /// finished when the site holds a friendly barracks of the wanted kind.
    pub open spec fn done(&self, world: World) -> bool {
        match world.site(self.site_id).structure {
            Structure::Barracks(barracks) => barracks.owner == Owner::Friendly
                && barracks.barracks_type == self.barracks_type,
            Structure::Tower(_) => true,
            _ => false,
        }
    }

    pub open spec fn command(&self) -> QueenCommand {
        QueenCommand::Build(
            BuildCommand {
                site_id: self.site_id,
                build_type: BuildType::Barracks(self.barracks_type),
            },
        )
    }

    pub fn is_task_done(&self, context: &Context) -> (r: bool)
        requires
            context@.has_site(self.site_id),
        ensures
            r == self.done(context@),
    {
        let site = context.site_by_id(self.site_id);
        match &site.structure {
            Structure::Barracks(barracks) => {
                barracks.owner == Owner::Friendly && barracks.barracks_type == self.barracks_type
            },
            Structure::Tower(_) => true,
            _ => false,
        }
    }

    pub fn get_next_command(&self, _context: &Context) -> (r: QueenCommand)
        ensures
            r == self.command(),
    {
        QueenCommand::Build(
            BuildCommand {
                build_type: BuildType::Barracks(self.barracks_type),
                site_id: self.site_id,
            },
        )
    }
}

impl BuildTowerTask {
    pub fn new(site: &Site) -> (r: BuildTowerTask)
        ensures
            r.site_id == site.id,
    {
        BuildTowerTask { site_id: site.id }
    }

    /// The task ends once a tower stands on the site and either belongs to
    /// the enemy or reaches farther than the cap.
    pub open spec fn done(&self, world: World) -> bool {
        match world.site(self.site_id).structure {
            Structure::Tower(tower) => tower.attack_radius > TOWER_RADIUS_CAP || tower.owner
                != Owner::Friendly,
            _ => false,
        }
    }

    pub open spec fn command(&self) -> QueenCommand {
        QueenCommand::Build(BuildCommand { site_id: self.site_id, build_type: BuildType::Tower })
    }

    pub fn is_task_done(&self, context: &Context) -> (r: bool)
        requires
            context@.has_site(self.site_id),
        ensures
            r == self.done(context@),
    {
        let site = context.site_by_id(self.site_id);
        match &site.structure {
            Structure::Tower(tower) => {
                tower.attack_radius > TOWER_RADIUS_CAP || tower.owner != Owner::Friendly
            },
            _ => false,
        }
    }

    pub fn get_next_command(&self, _context: &Context) -> (r: QueenCommand)
        ensures
            r == self.command(),
    {
        QueenCommand::Build(BuildCommand { build_type: BuildType::Tower, site_id: self.site_id })
    }
}

impl MoveToBuildSiteTask {
    pub fn new(site_id: i32) -> (r: MoveToBuildSiteTask)
        ensures
            r.site_id == site_id,
    {
        MoveToBuildSiteTask { site_id }
    }

    /// The task is given up when a tower stands on the site, and it is
    /// finished when the queen is within reach of the site.
    pub open spec fn done(&self, world: World) -> bool {
        let site = world.site(self.site_id);
        site.structure is Tower || queen_within_reach(world.queen().position, site)
    }

    pub open spec fn command(&self, world: World) -> QueenCommand {
        QueenCommand::Move(move_target(world, self.site_id))
    }

    pub fn is_task_done(&self, context: &Context) -> (r: bool)
        requires
            context@.has_site(self.site_id),
            context@.has_friendly_queen(),
            context@.in_bounds(),
        ensures
            r == self.done(context@),
    {
        let site = context.site_by_id(self.site_id);
        let queen_position = context.friendly_queen().position;
        if site.is_tower() {
            return true;
        }
        proof {
            context@.lemma_queen_exists();
            context@.lemma_site_exists(self.site_id);
        }
        let reach: i64 = site.radius as i64 + QUEEN_RADIUS as i64 + QUEEN_SPEED as i64 + 10;
        if reach <= 0 {
            return false;
        }
        proof {
            lemma_product_bound(reach as int, reach as int, 0x8000_0064);
        }
        let dist_sq: u64 = site.position.sub(queen_position).len_sq();
        dist_sq < (reach * reach) as u64
    }

    /// The order to walk toward the target site, around the touched site
    /// where that one is in the way.
    pub fn get_next_command(&self, context: &Context) -> (r: QueenCommand)
        requires
            context@.has_site(self.site_id),
            context@.in_bounds(),
            context.touched_site_id >= 0 ==> context@.has_site(context.touched_site_id)
                && context@.has_friendly_queen(),
        ensures
            r == self.command(context@),
    {
        let target_site = context.site_by_id(self.site_id);
        proof {
            context@.lemma_site_exists(self.site_id);
        }
        if context.touched_site_id >= 0 {
            let touched_site = context.site_by_id(context.touched_site_id);
            let queen_position = context.friendly_queen().position;
            proof {
                context@.lemma_queen_exists();
                context@.lemma_site_exists(context.touched_site_id);
            }
            let to_touched_site = touched_site.position.sub(queen_position);
            let to_target_site = target_site.position.sub(queen_position);
            if Vector2::angle_is_below_20_degrees(to_touched_site, to_target_site) {
                let around_cw = to_touched_site.perp_cw();
                let around_ccw = to_touched_site.perp_ccw();
                proof {
                    lemma_product_bound(
                        to_target_site.x as int,
                        around_cw.x as int,
                        20_000,
                    );
                    lemma_product_bound(
                        to_target_site.y as int,
                        around_cw.y as int,
                        20_000,
                    );
                    lemma_product_bound(
                        to_target_site.x as int,
                        around_ccw.x as int,
                        20_000,
                    );
                    lemma_product_bound(
                        to_target_site.y as int,
                        around_ccw.y as int,
                        20_000,
                    );
                    assert(to_touched_site.norm_sq() > 0) by {
                        if to_touched_site.x == 0 && to_touched_site.y == 0 {
                            assert(to_touched_site.x * to_target_site.x + to_touched_site.y
                                * to_target_site.y == 0) by (nonlinear_arith)
                                requires
                                    to_touched_site.x == 0 && to_touched_site.y == 0,
                            ;
                        } else {
                            assert(to_touched_site.x * to_touched_site.x
                                + to_touched_site.y * to_touched_site.y > 0) by (nonlinear_arith)
                                requires
                                    to_touched_site.x != 0 || to_touched_site.y != 0,
                            ;
                        }
                    }
                    assert(around_cw.norm_sq() == to_touched_site.norm_sq()) by (nonlinear_arith)
                        requires
                            around_cw.x == to_touched_site.y,
                            around_cw.y == -to_touched_site.x,
                    ;
                    assert(around_ccw.norm_sq() == to_touched_site.norm_sq()) by (nonlinear_arith)
                        requires
                            around_ccw.x == -to_touched_site.y,
                            around_ccw.y == to_touched_site.x,
                    ;
                }
                let toward_cw: i64 = Vector2::dot(to_target_site, around_cw);
                let toward_ccw: i64 = Vector2::dot(to_target_site, around_ccw);
                return if toward_cw > toward_ccw {
                    QueenCommand::Move(queen_position.step_along(around_cw, SIDESTEP))
                } else {
                    QueenCommand::Move(queen_position.step_along(around_ccw, SIDESTEP))
                };
            }
        }
        QueenCommand::Move(target_site.position)
    }
}

impl WaitTask {
    pub fn new() -> (r: WaitTask)
        ensures
            r == (WaitTask {  }),
    {
        WaitTask {  }
    }

    pub fn is_task_done(&self, _context: &Context) -> (r: bool)
        ensures
            r,
    {
        true
    }

    pub fn get_next_command(&self, _context: &Context) -> (r: QueenCommand)
        ensures
            r == QueenCommand::Wait,
    {
        QueenCommand::Wait
    }
}

impl Task {
    /// The id of the site the task works on; `None` for the idle task.
    pub open spec fn target(&self) -> Option<i32> {
        match self {
            Task::Wait(_) => None,
            Task::MoveToBuildSite(t) => Some(t.site_id),
            Task::BuildMine(t) => Some(t.site_id),
            Task::BuildBarracks(t) => Some(t.site_id),
            Task::BuildTower(t) => Some(t.site_id),
        }
    }

    /// The id of the site the task works on; `None` for the idle task.
    pub fn site_id(&self) -> (r: Option<i32>)
        ensures
            r == self.target(),
    {
        match self {
            Task::Wait(_) => None,
            Task::MoveToBuildSite(t) => Some(t.site_id),
            Task::BuildMine(t) => Some(t.site_id),
            Task::BuildBarracks(t) => Some(t.site_id),
            Task::BuildTower(t) => Some(t.site_id),
        }
    }

    /// The snapshot holds what the task reads: its site, the friendly queen,
    /// a touched site that exists, and positions within the board limit.
    pub open spec fn can_run(&self, world: World) -> bool {
        self.target() matches Some(id) ==> {
            &&& world.has_site(id)
            &&& world.has_friendly_queen()
            &&& world.in_bounds()
            &&& world.touched_site_id >= 0 ==> world.has_site(world.touched_site_id)
        }
    }

    /// The task has nothing left to do on this snapshot, or gives up. The
    /// idle task is always done.
    pub open spec fn done(&self, world: World) -> bool {
        match self {
            Task::Wait(_) => true,
            Task::MoveToBuildSite(t) => t.done(world),
            Task::BuildMine(t) => t.done(world),
            Task::BuildBarracks(t) => t.done(world),
            Task::BuildTower(t) => t.done(world),
        }
    }

    /// The order the task gives the queen on this snapshot.
    pub open spec fn command(&self, world: World) -> QueenCommand {
        match self {
            Task::Wait(_) => QueenCommand::Wait,
            Task::MoveToBuildSite(t) => t.command(world),
            Task::BuildMine(t) => t.command(),
            Task::BuildBarracks(t) => t.command(),
            Task::BuildTower(t) => t.command(),
        }
    }

    pub fn is_task_done(&self, context: &Context) -> (r: bool)
        requires
            self.can_run(context@),
        ensures
            r == self.done(context@),
    {
        match self {
            Task::Wait(t) => t.is_task_done(context),
            Task::MoveToBuildSite(t) => t.is_task_done(context),
            Task::BuildMine(t) => t.is_task_done(context),
            Task::BuildBarracks(t) => t.is_task_done(context),
            Task::BuildTower(t) => t.is_task_done(context),
        }
    }

    pub fn get_next_command(&self, context: &Context) -> (r: QueenCommand)
        requires
            self.can_run(context@),
        ensures
            r == self.command(context@),
    {
        match self {
            Task::Wait(t) => t.get_next_command(context),
            Task::MoveToBuildSite(t) => t.get_next_command(context),
            Task::BuildMine(t) => t.get_next_command(context),
            Task::BuildBarracks(t) => t.get_next_command(context),
            Task::BuildTower(t) => t.get_next_command(context),
        }
    }
}

} // verus!
