//! The engine: the state that outlives a tick, and the step that one
//! observation makes it take.

use crate::command::{ids_text, QueenCommand, TrainCommand};
use crate::context::{is_friendly_queen, Context, World};
use crate::point::Vector2;
use crate::policy::{
    build_site, get_next_task, get_train_command, is_build_candidate,
    lemma_next_task_targets_build_site, next_task, train_plan,
};
use crate::site::{Site, Structure};
use crate::task::{Task, WaitTask};
use crate::unit::Unit;
use vstd::prelude::*;

verus! {

/// What one tick reports of a site: everything but its place and size.
#[derive(Copy, Clone, PartialEq, Eq, Structural, Debug)]
pub struct SiteReport {
    pub site_id: i32,
    pub gold: i32,
    pub max_mining_rate: i32,
    pub structure: Structure,
}

/// Why the engine refuses a site or an observation.
#[derive(Copy, Clone, PartialEq, Eq, Structural, Debug)]
pub enum EngineError {
    /// A report, or the touched site, names a site that was never set up.
    UnknownSite,
    /// The observation shows no queen of the engine's own side.
    NoFriendlyQueen,
    /// A position lies outside the board limit.
    OutOfBounds,
}

/// The two commands that answer a tick.
#[derive(Debug)]
pub struct TickOutput {
    pub queen_command: QueenCommand,
    pub train_command: TrainCommand,
}

/// The decision engine. Between ticks it keeps the sites as last reported,
/// the queen's current task, and the position where the queen was first seen.
#[derive(Debug)]
pub struct Engine {
    pub context: Context,
    pub task: Task,
    pub started: bool,
}

/// The engine as a mathematical value.
pub struct EngineState {
    pub world: World,
    pub task: Task,
    pub started: bool,
}

/// What one tick shows, as a mathematical value.
pub struct Observation {
    pub gold: i32,
    pub touched_site_id: i32,
    pub reports: Seq<SiteReport>,
    pub units: Seq<Unit>,
}

impl View for Engine {
    type V = EngineState;

    open spec fn view(&self) -> EngineState {
        EngineState { world: self.context@, task: self.task, started: self.started }
    }
}

/// The site with the reported gold, mining rate and structure in place of
/// its own.
pub open spec fn site_reported(site: Site, report: SiteReport) -> Site {
    Site {
        gold: report.gold,
        max_mining_rate: report.max_mining_rate,
        structure: report.structure,
        ..site
    }
}

/// The world after one report: the site the report names is replaced by its
/// reported state. A report that names no site changes nothing.
pub open spec fn report_applied(world: World, report: SiteReport) -> World {
    if world.has_site(report.site_id) {
        World {
            sites: world.sites.update(
                world.site_index(report.site_id),
                site_reported(world.site(report.site_id), report),
            ),
            ..world
        }
    } else {
        world
    }
}

/// The world after the reports, applied in their order.
pub open spec fn reports_applied(world: World, reports: Seq<SiteReport>) -> World
    decreases reports.len(),
{
    if reports.len() == 0 {
        world
    } else {
        report_applied(reports_applied(world, reports.drop_last()), reports.last())
    }
}

/// What is wrong with an observation, if anything: a report or the touched
/// site names an unknown site, no friendly queen is among the units, or a
/// unit stands outside the board limit. Where several hold, the first in
/// this order is named: an unknown site in a report, the missing queen, a
/// unit out of bounds, an unknown touched site.
pub open spec fn fault(world: World, obs: Observation) -> Option<EngineError> {
    if exists|k: int| 0 <= k < obs.reports.len() && !world.has_site(obs.reports[k].site_id) {
        Some(EngineError::UnknownSite)
    } else if !(exists|i: int| 0 <= i < obs.units.len() && is_friendly_queen(obs.units[i])) {
        Some(EngineError::NoFriendlyQueen)
    } else if exists|i: int| 0 <= i < obs.units.len() && !obs.units[i].position.in_bounds() {
        Some(EngineError::OutOfBounds)
    } else if obs.touched_site_id >= 0 && !world.has_site(obs.touched_site_id) {
        Some(EngineError::UnknownSite)
    } else {
        None
    }
}

/// The snapshot of the tick: the sites after the reports, the observed
/// units, gold and touched site, and the starting position, which is where
/// the friendly queen stands on the first tick and never changes afterwards.
pub open spec fn observed(state: EngineState, obs: Observation) -> World {
    let seen = World {
        units: obs.units,
        gold: obs.gold,
        touched_site_id: obs.touched_site_id,
        ..reports_applied(state.world, obs.reports)
    };
    World {
        start_position: if state.started {
            state.world.start_position
        } else {
            seen.queen().position
        },
        ..seen
    }
}

/// The state after a well-formed observation. The task is kept unless it is
/// done on the snapshot of the tick; a task that is done is replaced by the
/// one the policy picks on that snapshot.
pub open spec fn step(state: EngineState, obs: Observation) -> EngineState {
    let world = observed(state, obs);
    EngineState {
        world,
        task: if state.task.done(world) {
            next_task(world)
        } else {
            state.task
        },
        started: true,
    }
}

/// The two command lines that answer a well-formed observation: the queen's
/// line, then the training line.
pub open spec fn answer(state: EngineState, obs: Observation) -> (Seq<char>, Seq<char>) {
    let after = step(state, obs);
    (after.task.command(after.world).line(), "TRAIN"@ + ids_text(train_plan(after.world)))
}

/// Equal states and equal observations give equal faults, equal states
/// after the tick, and equal command lines.
pub proof fn lemma_tick_is_deterministic(
    state_a: EngineState,
    state_b: EngineState,
    obs_a: Observation,
    obs_b: Observation,
)
    requires
        state_a == state_b,
        obs_a == obs_b,
    ensures
        fault(state_a.world, obs_a) == fault(state_b.world, obs_b),
        step(state_a, obs_a) == step(state_b, obs_b),
        answer(state_a, obs_a) == answer(state_b, obs_b),
{
}

/// The task changes from one tick to the next only when it is done on the
/// snapshot of the tick, and the task that replaces it is the one the policy
/// picks on that snapshot.
pub proof fn lemma_task_is_kept_until_done(state: EngineState, obs: Observation)
    ensures
        !state.task.done(observed(state, obs)) ==> step(state, obs).task == state.task,
        step(state, obs).task != state.task ==> state.task.done(observed(state, obs)) && step(
            state,
            obs,
        ).task == next_task(observed(state, obs)),
{
}

/// A task that a tick newly chooses, unless it is the idle one, works on the
/// build site of the tick's snapshot: the candidate closest to the friendly
/// queen, which satisfies the predicate of a build candidate on that
/// snapshot.
pub proof fn lemma_new_task_targets_build_site(state: EngineState, obs: Observation)
    ensures
        step(state, obs).task != state.task ==> (step(state, obs).task.target() matches Some(id)
            ==> build_site(observed(state, obs)) matches Some(site) && site.id == id
            && is_build_candidate(observed(state, obs), site)),
{
    lemma_next_task_targets_build_site(observed(state, obs));
}

/// The starting position is taken from the first observation and kept by
/// every later one.
pub proof fn lemma_start_position_is_kept(state: EngineState, obs: Observation)
    requires
        state.started,
    ensures
        step(state, obs).world.start_position == state.world.start_position,
        step(state, obs).started,
{
    lemma_reports_keep_layout(state.world, obs.reports);
}

impl EngineState {
    /// Every site and the starting position lie within the board limit, and
    /// the site of the task exists.
    pub open spec fn wf(self) -> bool {
        &&& self.world.start_position.in_bounds()
        &&& forall|i: int|
            0 <= i < self.world.sites.len() ==> (#[trigger] self.world.sites[i])
                .position.in_bounds()
        &&& self.task.target() matches Some(id) ==> self.world.has_site(id)
    }
}

/// A report changes neither the number of sites nor the id or the position
/// of any.
pub proof fn lemma_report_keeps_layout(world: World, report: SiteReport)
    ensures
        report_applied(world, report).sites.len() == world.sites.len(),
        forall|i: int|
            0 <= i < world.sites.len() ==> (#[trigger] report_applied(world, report).sites[i]).id
                == world.sites[i].id && report_applied(world, report).sites[i].position
                == world.sites[i].position,
        forall|id: i32| world.has_site(id) == #[trigger] report_applied(world, report).has_site(id),
{
    let after = report_applied(world, report);
    let k = world.site_index(report.site_id);
    if world.has_site(report.site_id) {
        world.lemma_site_exists(report.site_id);
    }
    assert forall|i: int| 0 <= i < world.sites.len() implies (#[trigger] after.sites[i]).id
        == world.sites[i].id && after.sites[i].position == world.sites[i].position by {
        if i == k {
            assert(world.site(report.site_id) == world.sites[k]);
        }
    }
    assert forall|id: i32| world.has_site(id) == #[trigger] after.has_site(id) by {
        if world.has_site(id) {
            let i = choose|i: int| 0 <= i < world.sites.len() && world.sites[i].id == id;
            assert(after.sites[i].id == id);
        }
        if after.has_site(id) {
            let i = choose|i: int| 0 <= i < after.sites.len() && after.sites[i].id == id;
            assert(world.sites[i].id == id);
        }
    }
}

/// Reports change neither the number of sites nor the id or the position of
/// any.
pub proof fn lemma_reports_keep_layout(world: World, reports: Seq<SiteReport>)
    ensures
        reports_applied(world, reports).sites.len() == world.sites.len(),
        forall|i: int|
            0 <= i < world.sites.len() ==> (#[trigger] reports_applied(world, reports).sites[i]).id
                == world.sites[i].id && reports_applied(world, reports).sites[i].position
                == world.sites[i].position,
        forall|id: i32|
            world.has_site(id) == #[trigger] reports_applied(world, reports).has_site(id),
        reports_applied(world, reports).start_position == world.start_position,
    decreases reports.len(),
{
    if reports.len() > 0 {
        let before = reports_applied(world, reports.drop_last());
        lemma_reports_keep_layout(world, reports.drop_last());
        lemma_report_keeps_layout(before, reports.last());
        let after = reports_applied(world, reports);
        assert forall|i: int| 0 <= i < world.sites.len() implies (#[trigger] after.sites[i]).id
            == world.sites[i].id && after.sites[i].position == world.sites[i].position by {
            assert(before.sites[i].id == world.sites[i].id);
        }
        assert forall|id: i32| world.has_site(id) == #[trigger] after.has_site(id) by {
            assert(world.has_site(id) == before.has_site(id));
        }
    }
}

/// Decides whether a friendly queen is among the units.
fn shows_friendly_queen(units: &Vec<Unit>) -> (r: bool)
    ensures
        r == exists|i: int| 0 <= i < units@.len() && is_friendly_queen(units@[i]),
{
    let mut i: usize = 0;
    while i < units.len()
        invariant
            i <= units@.len(),
            forall|j: int| 0 <= j < i ==> !is_friendly_queen(units@[j]),
        decreases units@.len() - i,
    {
        if units[i].matches(crate::unit::UnitType::Queen, crate::owner::Owner::Friendly) {
            return true;
        }
        i += 1;
    }
    false
}

/// Decides whether the point lies within the board limit.
fn within_bounds(p: Vector2) -> (r: bool)
    ensures
        r == p.in_bounds(),
{
    -crate::point::COORD_LIMIT <= p.x && p.x <= crate::point::COORD_LIMIT
        && -crate::point::COORD_LIMIT <= p.y && p.y <= crate::point::COORD_LIMIT
}

/// Decides whether every unit stands within the board limit.
fn units_within_bounds(units: &Vec<Unit>) -> (r: bool)
    ensures
        r == !(exists|i: int| 0 <= i < units@.len() && !units@[i].position.in_bounds()),
{
    let mut i: usize = 0;
    while i < units.len()
        invariant
            i <= units@.len(),
            forall|j: int| 0 <= j < i ==> units@[j].position.in_bounds(),
        decreases units@.len() - i,
    {
        if !within_bounds(units[i].position) {
            return false;
        }
        i += 1;
    }
    true
}

impl TickOutput {
    /// Writes the two command lines: the queen's, then the training line.
    pub fn lines(&self) -> (r: (String, String))
        ensures
            r.0@ == self.queen_command.line(),
            r.1@ == self.train_command.line(),
    {
        (self.queen_command.to_line(), self.train_command.to_line())
    }
}

impl Engine {
    /// An engine that knows no site yet; its task is to wait.
    pub fn new() -> (r: Engine)
        ensures
            r@.wf(),
            r@.world.sites.len() == 0,
            r@.world.units.len() == 0,
            r@.task == Task::Wait(WaitTask {  }),
            !r@.started,
    {
        Engine { context: Context::new(), task: Task::Wait(WaitTask::new()), started: false }
    }

    /// Decides whether the engine is well formed. The engine's own
    /// operations keep it so; a caller that writes to its fields can ask.
    pub fn is_well_formed(&self) -> (r: bool)
        ensures
            r == self@.wf(),
    {
        if !within_bounds(self.context.start_position) {
            return false;
        }
        let mut i: usize = 0;
        while i < self.context.sites.len()
            invariant
                i <= self.context.sites@.len(),
                forall|j: int|
                    0 <= j < i ==> (#[trigger] self@.world.sites[j]).position.in_bounds(),
            decreases self.context.sites@.len() - i,
        {
            if !within_bounds(self.context.sites[i].position) {
                return false;
            }
            i += 1;
        }
        match self.task.site_id() {
            Some(id) => {
                let found = self.context.find_site(id);
                proof {
                    if let Some(k) = found {
                        self@.world.lemma_site_index(id, k as int);
                    }
                }
                found.is_some()
            },
            None => true,
        }
    }

    /// Sets up one more site, empty and with nothing known of its gold. A
    /// site outside the board limit is refused and changes nothing.
    pub fn add_site(&mut self, site_id: i32, position: Vector2, radius: i32) -> (r: Result<
        (),
        EngineError,
    >)
        requires
            old(self)@.wf(),
        ensures
            final(self)@.wf(),
            match r {
                Ok(_) => position.in_bounds() && final(self)@ == (EngineState {
                    world: World {
                        sites: old(self)@.world.sites.push(
                            Site {
                                id: site_id,
                                position,
                                radius,
                                gold: -1i32,
                                max_mining_rate: -1i32,
                                structure: Structure::NoStructure,
                            },
                        ),
                        ..old(self)@.world
                    },
                    ..old(self)@
                }),
                Err(e) => !position.in_bounds() && e == EngineError::OutOfBounds && final(self)@
                    == old(self)@,
            },
    {
        if !within_bounds(position) {
            return Err(EngineError::OutOfBounds);
        }
        let ghost before = self@;
        self.context.sites.push(Site::new(site_id, position, radius));
        proof {
            if let Some(id) = self@.task.target() {
                let i = choose|i: int|
                    0 <= i < before.world.sites.len() && before.world.sites[i].id == id;
                assert(self@.world.sites[i].id == id);
            }
        }
        Ok(())
    }

    /// Takes in the observation of one tick and answers with the two
    /// commands.
    ///
    /// A malformed observation is refused and changes nothing. Otherwise the
    /// snapshot of the tick replaces the one before; the task is kept unless
    /// it is done on the new snapshot, in which case the policy picks its
    /// successor; the queen command is the task's, the training command the
    /// policy's. State and answer are functions of the state before and of
    /// the observation.
    pub fn tick(
        &mut self,
        gold: i32,
        touched_site_id: i32,
        reports: &Vec<SiteReport>,
        units: Vec<Unit>,
    ) -> (r: Result<TickOutput, EngineError>)
        requires
            old(self)@.wf(),
        ensures
            final(self)@.wf(),
            match r {
                Ok(out) => {
                    let obs = Observation {
                        gold,
                        touched_site_id,
                        reports: reports@,
                        units: units@,
                    };
                    &&& fault(old(self)@.world, obs) is None
                    &&& final(self)@ == step(old(self)@, obs)
                    &&& out.queen_command == final(self)@.task.command(final(self)@.world)
                    &&& out.train_command.site_ids@ == train_plan(final(self)@.world)
                    &&& (out.queen_command.line(), out.train_command.line()) == answer(
                        old(self)@,
                        obs,
                    )
                    &&& final(self)@.task != old(self)@.task ==> old(self)@.task.done(
                        final(self)@.world,
                    )
                },
                Err(e) => {
                    let obs = Observation {
                        gold,
                        touched_site_id,
                        reports: reports@,
                        units: units@,
                    };
                    &&& fault(old(self)@.world, obs) == Some(e)
                    &&& final(self)@ == old(self)@
                },
            },
    {
        let ghost obs = Observation { gold, touched_site_id, reports: reports@, units: units@ };
        let ghost before = self@;
        let mut k: usize = 0;
        while k < reports.len()
            invariant
                k <= reports@.len(),
                self@ == before,
                before.wf(),
                forall|j: int| 0 <= j < k ==> before.world.has_site(reports@[j].site_id),
            decreases reports@.len() - k,
        {
            if self.context.find_site(reports[k].site_id).is_none() {
                return Err(EngineError::UnknownSite);
            }
            proof {
                let i = choose|i: int| self@.world.is_site_index(reports@[k as int].site_id, i);
                self@.world.lemma_site_index(reports@[k as int].site_id, i);
            }
            k += 1;
        }
        if !shows_friendly_queen(&units) {
            return Err(EngineError::NoFriendlyQueen);
        }
        if !units_within_bounds(&units) {
            return Err(EngineError::OutOfBounds);
        }
        if touched_site_id >= 0 {
            match self.context.find_site(touched_site_id) {
                Some(i) => {
                    proof {
                        self@.world.lemma_site_index(touched_site_id, i as int);
                    }
                },
                None => {
                    return Err(EngineError::UnknownSite);
                },
            }
        }
        assert(fault(before.world, obs) is None);

        let mut k: usize = 0;
        assert(reports@.take(0) =~= Seq::<SiteReport>::empty());
        while k < reports.len()
            invariant
                k <= reports@.len(),
                self@ == (EngineState {
                    world: reports_applied(before.world, reports@.take(k as int)),
                    ..before
                }),
                before.wf(),
                forall|j: int|
                    0 <= j < reports@.len() ==> before.world.has_site(reports@[j].site_id),
            decreases reports@.len() - k,
        {
            let report = &reports[k];
            proof {
                lemma_reports_keep_layout(before.world, reports@.take(k as int));
                assert(reports@.take(k + 1).drop_last() =~= reports@.take(k as int));
                assert(reports@.take(k + 1).last() == *report);
                assert(before.world.has_site(reports@[k as int].site_id));
            }
            let site = self.context.site_by_id_mut(report.site_id);
            site.gold = report.gold;
            site.max_mining_rate = report.max_mining_rate;
            site.structure = report.structure;
            k += 1;
        }
        proof {
            assert(reports@.take(k as int) =~= reports@);
            lemma_reports_keep_layout(before.world, reports@);
        }
        self.context.units = units;
        self.context.gold = gold;
        self.context.touched_site_id = touched_site_id;
        if !self.started {
            proof {
                self.context@.lemma_queen_exists();
            }
            self.context.start_position = self.context.friendly_queen().position;
            self.started = true;
        }
        assert(self.context@ =~= observed(before, obs));
        assert(self.context@.has_friendly_queen());
        assert(self.context@.in_bounds()) by {
            self.context@.lemma_queen_exists();
        }
        proof {
            let applied = reports_applied(before.world, reports@);
            assert(self.context@.sites == applied.sites);
            assert forall|id: i32| before.world.has_site(id) implies self.context@.has_site(
                id,
            ) by {
                assert(applied.has_site(id));
                let i = choose|i: int| 0 <= i < applied.sites.len() && applied.sites[i].id == id;
                assert(self.context@.sites[i].id == id);
            }
        }
        assert(self.task.can_run(self.context@));
        if self.task.is_task_done(&self.context) {
            self.task = get_next_task(&self.context);
            proof {
                if let Some(id) = self.task.target() {
                    let site = build_site(self.context@)->Some_0;
                    let i = choose|i: int| crate::policy::is_build_site_index(self.context@, i);
                    assert(self.context@.sites[i].id == id);
                }
            }
        }
        let queen_command = self.task.get_next_command(&self.context);
        let train_command = get_train_command(&self.context);
        Ok(TickOutput { queen_command, train_command })
    }
}

} // verus!
