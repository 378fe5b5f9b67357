//! The policy: where to build next, which task follows a finished one, and
//! which barracks train this tick.

use crate::arith::lemma_product_bound;
use crate::command::{BuildType, TrainCommand};
use crate::context::{Context, World};
use crate::owner::Owner;
use crate::point::{distance_sq, Vector2};
use crate::site::{BarracksType, Site, Structure};
use crate::task::{
    enemy_knights_beyond, BuildBarracksTask, BuildMineTask, BuildTowerTask, MoveToBuildSiteTask,
    Task, WaitTask, KNIGHT_THREAT_RANGE,
};
use crate::unit::UnitType;
use vstd::prelude::*;

verus! {

/// The queen builds no farther than this from where she started.
pub const HOME_RADIUS: i32 = 1000;

/// The site holds an enemy tower whose fire reaches the point `p`: the
/// distance from the tower to `p` is less than its attack radius.
pub open spec fn tower_covers(tower_site: Site, p: Vector2) -> bool {
    match tower_site.structure {
        Structure::Tower(tower) => tower.owner == Owner::Enemy && tower.attack_radius > 0
            && distance_sq(tower_site.position, p) < tower.attack_radius * tower.attack_radius,
        _ => false,
    }
}

/// The queen may build on what the site holds now: nothing, or a mine or a
/// barracks that is not her own side's. A tower is never built over.
pub open spec fn structure_gives_way(structure: Structure) -> bool {
    match structure {
        Structure::Barracks(barracks) => barracks.owner != Owner::Friendly,
        Structure::Mine(mine) => mine.owner != Owner::Friendly,
        Structure::Tower(_) => false,
        Structure::NoStructure => true,
    }
}

/// The site is one the queen may build on: no farther than `HOME_RADIUS` from
/// her starting position, out of reach of every enemy tower, and not held by
/// a friendly structure or any tower.
pub open spec fn is_build_candidate(world: World, site: Site) -> bool {
    &&& distance_sq(site.position, world.start_position) <= HOME_RADIUS * HOME_RADIUS
    &&& forall|k: int|
        0 <= k < world.sites.len() ==> !tower_covers(#[trigger] world.sites[k], site.position)
    &&& structure_gives_way(site.structure)
}

/// `i` is the place of the build site: the candidate closest to the friendly
/// queen, the earliest in the list among equally close ones.
pub open spec fn is_build_site_index(world: World, i: int) -> bool {
    &&& 0 <= i < world.sites.len()
    &&& is_build_candidate(world, world.sites[i])
    &&& forall|j: int|
        0 <= j < world.sites.len() && world.site_precedes(j, i) ==> !is_build_candidate(
            world,
            #[trigger] world.sites[j],
        )
}

/// The site to build on next, if any site is a candidate.
pub open spec fn build_site(world: World) -> Option<Site> {
    if exists|i: int| is_build_site_index(world, i) {
        Some(world.sites[choose|i: int| is_build_site_index(world, i)])
    } else {
        None
    }
}

/// The kind of troops to train this tick: giants while the enemy holds a
/// tower, a friendly giant barracks stands and no friendly giant lives;
/// else knights if a friendly knight barracks stands; else nothing.
pub open spec fn pick_kind(world: World) -> Option<BarracksType> {
    if world.count_sites(BuildType::Tower, Owner::Enemy) > 0 && world.count_sites(
        BuildType::Barracks(BarracksType::Giant),
        Owner::Friendly,
    ) > 0 && world.count_units(UnitType::Giant, Owner::Friendly) == 0 {
        Some(BarracksType::Giant)
    } else if world.count_sites(BuildType::Barracks(BarracksType::Knight), Owner::Friendly) > 0 {
        Some(BarracksType::Knight)
    } else {
        None
    }
}

/// The ids of the barracks that train units of `kind` with `gold` at hand.
///
/// The sites are walked in their order. A friendly barracks of the kind that
/// is ready to train, and whose id was not taken before, is taken as long as
/// the gold left after the ones before it pays for one more unit.
pub open spec fn train_choice(sites: Seq<Site>, kind: BarracksType, gold: int) -> Seq<i32>
    decreases sites.len(),
{
    if sites.len() == 0 {
        Seq::empty()
    } else {
        let before = train_choice(sites.drop_last(), kind, gold);
        let site = sites.last();
        if site.is_ready_barracks(kind) && !before.contains(site.id) && gold - before.len()
            * kind.cost() >= kind.cost() {
            before.push(site.id)
        } else {
            before
        }
    }
}

/// The ids of the barracks that train this tick, in the order of choice.
pub open spec fn train_plan(world: World) -> Seq<i32> {
    match pick_kind(world) {
        Some(kind) => train_choice(world.sites, kind, world.gold as int),
        None => Seq::empty(),
    }
}

/// The task that builds on the touched site `site_id`, by the first of these
/// rules that applies:
///
/// - a tower, if the enemy has knights and no friendly tower stands;
/// - a mine, if fewer than three friendly mines stand and every enemy knight
///   is beyond the threat range;
/// - a knight barracks, if no friendly one stands;
/// - a tower, if fewer than two friendly towers stand;
/// - a giant barracks, if the enemy holds a tower and no friendly giant
///   barracks stands;
/// - a mine, if fewer than five friendly mines stand and every enemy knight
///   is beyond the threat range;
/// - a tower.
pub open spec fn build_task(world: World, site_id: i32) -> Task {
    let friendly_towers = world.count_sites(BuildType::Tower, Owner::Friendly);
    let friendly_mines = world.count_sites(BuildType::Mine, Owner::Friendly);
    let friendly_knight_barracks = world.count_sites(
        BuildType::Barracks(BarracksType::Knight),
        Owner::Friendly,
    );
    let friendly_giant_barracks = world.count_sites(
        BuildType::Barracks(BarracksType::Giant),
        Owner::Friendly,
    );
    let enemy_towers = world.count_sites(BuildType::Tower, Owner::Enemy);
    let enemy_knights = world.count_units(UnitType::Knight, Owner::Enemy);
    let calm = enemy_knights_beyond(world, KNIGHT_THREAT_RANGE as int);
    if enemy_knights > 0 && friendly_towers == 0 {
        Task::BuildTower(BuildTowerTask { site_id })
    } else if friendly_mines < 3 && calm {
        Task::BuildMine(BuildMineTask { site_id })
    } else if friendly_knight_barracks == 0 {
        Task::BuildBarracks(BuildBarracksTask { site_id, barracks_type: BarracksType::Knight })
    } else if friendly_towers < 2 {
        Task::BuildTower(BuildTowerTask { site_id })
    } else if enemy_towers > 0 && friendly_giant_barracks == 0 {
        Task::BuildBarracks(BuildBarracksTask { site_id, barracks_type: BarracksType::Giant })
    } else if friendly_mines < 5 && calm {
        Task::BuildMine(BuildMineTask { site_id })
    } else {
        Task::BuildTower(BuildTowerTask { site_id })
    }
}

/// The task that follows a finished one: idle when there is no build site,
/// the walk to the build site while the queen does not touch it, and else
/// the building that `build_task` picks.
pub open spec fn next_task(world: World) -> Task {
    match build_site(world) {
        None => Task::Wait(WaitTask {  }),
        Some(site) => if world.touched_site_id != site.id {
            Task::MoveToBuildSite(MoveToBuildSiteTask { site_id: site.id })
        } else {
            build_task(world, site.id)
        },
    }
}

/// Two sites never precede each other, and of two different sites one
/// precedes the other, so at most one place is that of the build site.
pub proof fn lemma_build_site_index(world: World, i: int)
    requires
        is_build_site_index(world, i),
    ensures
        build_site(world) == Some(world.sites[i]),
{
    let k = choose|k: int| is_build_site_index(world, k);
    assert(is_build_site_index(world, k));
    if k != i {
        assert(world.site_precedes(k, i) || world.site_precedes(i, k));
    }
}

/// A task that works on a site works on the build site: the candidate that
/// the search for the closest site selects, which satisfies the predicate of
/// a build candidate on the snapshot the task was chosen on.
pub proof fn lemma_next_task_targets_build_site(world: World)
    ensures
        next_task(world).target() matches Some(id) ==> exists|i: int|
            is_build_site_index(world, i) && build_site(world) == Some(world.sites[i])
                && world.sites[i].id == id && is_build_candidate(world, world.sites[i]),
        next_task(world) is Wait <==> build_site(world) is None,
{
    if exists|i: int| is_build_site_index(world, i) {
        let i = choose|i: int| is_build_site_index(world, i);
        lemma_build_site_index(world, i);
    }
}

/// Decides whether the queen may build on the site.
pub fn can_build_on(context: &Context, site: &Site) -> (r: bool)
    requires
        context@.in_bounds(),
        site.position.in_bounds(),
    ensures
        r == is_build_candidate(context@, *site),
{
    let home: u64 = (HOME_RADIUS as u64) * (HOME_RADIUS as u64);
    if site.position.sub(context.start_position).len_sq() > home {
        return false;
    }
    let mut k: usize = 0;
    while k < context.sites.len()
        invariant
            k <= context.sites@.len(),
            context@.in_bounds(),
            site.position.in_bounds(),
            forall|j: int|
                0 <= j < k ==> !tower_covers(#[trigger] context.sites@[j], site.position),
        decreases context.sites@.len() - k,
    {
        let other = &context.sites[k];
        match &other.structure {
            Structure::Tower(tower) => {
                if tower.owner == Owner::Enemy && tower.attack_radius > 0 {
                    proof {
                        lemma_product_bound(
                            tower.attack_radius as int,
                            tower.attack_radius as int,
                            0x8000_0000,
                        );
                    }
                    let radius: i64 = tower.attack_radius as i64;
                    if other.position.sub(site.position).len_sq() < (radius * radius) as u64 {
                        return false;
                    }
                }
            },
            _ => {},
        }
        k += 1;
    }
    match &site.structure {
        Structure::Barracks(barracks) => barracks.owner != Owner::Friendly,
        Structure::Mine(mine) => mine.owner != Owner::Friendly,
        Structure::Tower(_) => false,
        Structure::NoStructure => true,
    }
}

/// The site to build on next: the candidate closest to the friendly queen.
pub fn get_closest_site_to_build(context: &Context) -> (r: Option<&Site>)
    requires
        context@.has_friendly_queen(),
        context@.in_bounds(),
    ensures
        match r {
            Some(site) => build_site(context@) == Some(*site),
            None => build_site(context@) is None,
        },
        r matches Some(site) ==> is_build_candidate(context@, *site),
{
    let predicate = |site: &Site| -> (b: bool)
        requires
            context@.in_bounds(),
            site.position.in_bounds(),
        ensures
            b == is_build_candidate(context@, *site),
        { can_build_on(context, site) };
    let r = context.closest_site(predicate);
    proof {
        match r {
            Some(site) => {
                let i = choose|i: int|
                    {
                        &&& 0 <= i < context.sites@.len()
                        &&& *site == context.sites@[i]
                        &&& call_ensures(predicate, (&context.sites@[i],), true)
                        &&& forall|j: int|
                            0 <= j < context.sites@.len() && context@.site_precedes(j, i)
                                ==> call_ensures(predicate, (&#[trigger] context.sites@[j],), false)
                    };
                assert(is_build_site_index(context@, i));
                lemma_build_site_index(context@, i);
            },
            None => {
                assert forall|i: int| !is_build_site_index(context@, i) by {
                    if 0 <= i < context.sites@.len() {
                        assert(call_ensures(predicate, (&context.sites@[i],), false));
                    }
                }
            },
        }
    }
    r
}

/// The kind of troops to train this tick, if any.
pub fn get_next_unit_to_train(context: &Context) -> (r: Option<BarracksType>)
    ensures
        r == pick_kind(context@),
{
    let enemy_tower_count = context.site_count(BuildType::Tower, Owner::Enemy);
    let friendly_knight_barracks_count = context.site_count(
        BuildType::Barracks(BarracksType::Knight),
        Owner::Friendly,
    );
    let friendly_giant_barracks_count = context.site_count(
        BuildType::Barracks(BarracksType::Giant),
        Owner::Friendly,
    );
    let friendly_giant_count = context.unit_count(UnitType::Giant, Owner::Friendly);
    if enemy_tower_count > 0 && friendly_giant_barracks_count > 0 && friendly_giant_count == 0 {
        return Some(BarracksType::Giant);
    }
    if friendly_knight_barracks_count > 0 {
        return Some(BarracksType::Knight);
    }
    None
}

/// What holds of every choice of barracks: the ids are pairwise distinct,
/// their units are paid for by the gold, there are no more ids than sites,
/// each id is that of a friendly barracks of the kind that is ready to
/// train, and a ready barracks of the kind is left out only when the gold
/// that is left does not pay for one more unit.
pub proof fn lemma_train_choice(sites: Seq<Site>, kind: BarracksType, gold: int)
    ensures
        train_choice(sites, kind, gold).no_duplicates(),
        train_choice(sites, kind, gold).len() == 0 || train_choice(sites, kind, gold).len()
            * kind.cost() <= gold,
        train_choice(sites, kind, gold).len() <= sites.len(),
        forall|k: int|
            0 <= k < train_choice(sites, kind, gold).len() ==> exists|i: int|
                0 <= i < sites.len() && sites[i].id == #[trigger] train_choice(sites, kind, gold)[k]
                    && sites[i].is_ready_barracks(kind),
        forall|i: int|
            0 <= i < sites.len() && (#[trigger] sites[i]).is_ready_barracks(kind)
                && !train_choice(sites, kind, gold).contains(sites[i].id) ==> gold - train_choice(
                sites,
                kind,
                gold,
            ).len() * kind.cost() < kind.cost(),
    decreases sites.len(),
{
    if sites.len() > 0 {
        let before = train_choice(sites.drop_last(), kind, gold);
        let chosen = train_choice(sites, kind, gold);
        let site = sites.last();
        lemma_train_choice(sites.drop_last(), kind, gold);
        assert((before.len() + 1) * kind.cost() == before.len() * kind.cost() + kind.cost())
            by (nonlinear_arith);
        assert forall|i: int|
            0 <= i < sites.len() && (#[trigger] sites[i]).is_ready_barracks(kind)
                && !chosen.contains(sites[i].id) implies gold - chosen.len() * kind.cost()
            < kind.cost() by {
            if i < sites.len() - 1 {
                assert(sites.drop_last()[i] == sites[i]);
                if before.contains(sites[i].id) {
                    let k = choose|k: int| 0 <= k < before.len() && before[k] == sites[i].id;
                    assert(chosen[k] == sites[i].id);
                }
            } else {
                if before.contains(site.id) {
                    let k = choose|k: int| 0 <= k < before.len() && before[k] == site.id;
                    assert(chosen[k] == site.id);
                }
                if chosen.len() > before.len() {
                    assert(chosen[before.len() as int] == site.id);
                }
            }
        }
        assert forall|k: int| 0 <= k < chosen.len() implies exists|i: int|
            0 <= i < sites.len() && sites[i].id == #[trigger] chosen[k]
                && sites[i].is_ready_barracks(kind) by {
            if k < before.len() {
                assert(chosen[k] == before[k]);
                let i = choose|i: int|
                    0 <= i < sites.drop_last().len() && sites.drop_last()[i].id == before[k]
                        && sites.drop_last()[i].is_ready_barracks(kind);
                assert(sites[i] == sites.drop_last()[i]);
            } else {
                assert(sites[sites.len() - 1] == site);
            }
        }
    }
}

/// The ids of the friendly barracks of the kind that are ready to train, in
/// the order of their sites.
pub open spec fn ready_ids(sites: Seq<Site>, kind: BarracksType) -> Seq<i32> {
    sites.filter(|s: Site| s.is_ready_barracks(kind)).map_values(|s: Site| s.id)
}

/// The number of units that the gold pays for.
pub open spec fn affordable(gold: int, cost: int) -> int {
    if gold < cost {
        0
    } else {
        gold / cost
    }
}

/// Where no two sites carry the same id, the barracks that train are the
/// first ready ones of the kind, as many as the gold pays for.
pub proof fn lemma_train_choice_of_distinct_sites(sites: Seq<Site>, kind: BarracksType, gold: int)
    requires
        forall|i: int, j: int| 0 <= i < j < sites.len() ==> sites[i].id != sites[j].id,
    ensures
        train_choice(sites, kind, gold).len() == if ready_ids(sites, kind).len() <= affordable(
            gold,
            kind.cost(),
        ) {
            ready_ids(sites, kind).len() as int
        } else {
            affordable(gold, kind.cost())
        },
        train_choice(sites, kind, gold) == ready_ids(sites, kind).take(
            train_choice(sites, kind, gold).len() as int,
        ),
    decreases sites.len(),
{
    let ready = |s: Site| s.is_ready_barracks(kind);
    let id_of = |s: Site| s.id;
    let cost = kind.cost();
    let room = affordable(gold, cost);
    if gold >= cost {
        vstd::arithmetic::div_mod::lemma_fundamental_div_mod(gold, cost);
        vstd::arithmetic::div_mod::lemma_mod_bound(gold, cost);
        vstd::arithmetic::div_mod::lemma_div_pos_is_pos(gold, cost);
    }
    if sites.len() == 0 {
        assert(sites.filter(ready) =~= Seq::<Site>::empty()) by {
            sites.lemma_filter_len(ready);
        }
        assert(ready_ids(sites, kind) =~= Seq::<i32>::empty());
        assert(train_choice(sites, kind, gold) =~= ready_ids(sites, kind).take(0));
    } else {
        let front = sites.drop_last();
        let site = sites.last();
        let before = train_choice(front, kind, gold);
        let chosen = train_choice(sites, kind, gold);
        assert forall|i: int, j: int| 0 <= i < j < front.len() implies front[i].id
            != front[j].id by {
            assert(front[i] == sites[i] && front[j] == sites[j]);
        }
        lemma_train_choice_of_distinct_sites(front, kind, gold);
        lemma_train_choice(front, kind, gold);
        assert(front.push(site) =~= sites);
        front.lemma_filter_push(site, ready);
        let ids_front = ready_ids(front, kind);
        let ids = ready_ids(sites, kind);
        if site.is_ready_barracks(kind) {
            assert(ids =~= ids_front.push(site.id));
            assert(!before.contains(site.id)) by {
                if before.contains(site.id) {
                    let k = choose|k: int| 0 <= k < before.len() && before[k] == site.id;
                    let i = choose|i: int|
                        0 <= i < front.len() && front[i].id == before[k]
                            && front[i].is_ready_barracks(kind);
                    assert(sites[i].id == sites[sites.len() - 1].id);
                }
            }
            assert(gold - before.len() * cost >= cost <==> before.len() + 1 <= room) by {
                let n = before.len() as int;
                if gold >= cost {
                    let q = gold / cost;
                    assert(cost * (n + 1) == n * cost + cost) by (nonlinear_arith);
                    assert(n + 1 <= q ==> cost * (n + 1) <= cost * q) by (nonlinear_arith)
                        requires
                            cost > 0,
                    ;
                    assert(n + 1 > q ==> cost * (n + 1) >= cost * q + cost) by (nonlinear_arith)
                        requires
                            cost > 0,
                    ;
                } else {
                    assert(n * cost >= 0) by (nonlinear_arith)
                        requires
                            n >= 0,
                            cost > 0,
                    ;
                }
            }
            if chosen.len() > before.len() {
                assert(before =~= ids_front);
                assert(chosen =~= ids.take(chosen.len() as int));
            } else {
                assert(chosen =~= ids.take(chosen.len() as int));
            }
        } else {
            assert(ids =~= ids_front);
        }
    }
}

/// On a snapshot where no two sites carry the same id, the training plan is
/// the ids of the first ready barracks of the picked kind, as many as the
/// gold pays for.
pub proof fn lemma_train_plan_of_distinct_sites(world: World)
    requires
        world.ids_distinct(),
    ensures
        pick_kind(world) matches Some(kind) ==> {
            let ids = ready_ids(world.sites, kind);
            let room = affordable(world.gold as int, kind.cost());
            train_plan(world) == ids.take(
                if ids.len() <= room {
                    ids.len() as int
                } else {
                    room
                },
            )
        },
        pick_kind(world) is None ==> train_plan(world) == Seq::<i32>::empty(),
{
    if let Some(kind) = pick_kind(world) {
        lemma_train_choice_of_distinct_sites(world.sites, kind, world.gold as int);
    }
}

/// Decides whether one of the sites carries the id.
fn holds_site_id(sites: &Vec<&Site>, id: i32) -> (r: bool)
    ensures
        r == exists|j: int| 0 <= j < sites@.len() && (#[trigger] sites@[j]).id == id,
{
    let mut j: usize = 0;
    while j < sites.len()
        invariant
            j <= sites@.len(),
            forall|k: int| 0 <= k < j ==> (#[trigger] sites@[k]).id != id,
        decreases sites@.len() - j,
    {
        if sites[j].id == id {
            return true;
        }
        j += 1;
    }
    false
}

/// The barracks that start training this tick.
///
/// The kind of troops is picked once, from the snapshot alone. The friendly
/// barracks of that kind that are ready are then taken in the order of their
/// sites, each id once, for as long as the gold lasts.
pub fn get_train_command(context: &Context) -> (r: TrainCommand)
    ensures
        r.site_ids@ == train_plan(context@),
        r.site_ids@.no_duplicates(),
        pick_kind(context@) is None ==> r.site_ids@.len() == 0,
        pick_kind(context@) matches Some(kind) ==> r.site_ids@.len() == 0 || r.site_ids@.len()
            * kind.cost() <= context.gold,
        pick_kind(context@) matches Some(kind) ==> forall|k: int|
            0 <= k < r.site_ids@.len() ==> exists|i: int|
                0 <= i < context.sites@.len() && context.sites@[i].id == #[trigger] r.site_ids@[k]
                    && context.sites@[i].is_ready_barracks(kind),
        pick_kind(context@) matches Some(kind) ==> forall|i: int|
            0 <= i < context.sites@.len() && (#[trigger] context.sites@[i]).is_ready_barracks(kind)
                && !r.site_ids@.contains(context.sites@[i].id) ==> context.gold - r.site_ids@.len()
                * kind.cost() < kind.cost(),
{
    let mut train_sites: Vec<&Site> = Vec::new();
    let ghost mut ids: Seq<i32> = Seq::empty();
    match get_next_unit_to_train(context) {
        Some(barracks_type) => {
            let cost: i32 = barracks_type.cost_to_train();
            let mut gold_available: i32 = context.gold;
            let mut i: usize = 0;
            while i < context.sites.len()
                invariant
                    i <= context.sites@.len(),
                    cost == barracks_type.cost(),
                    ids == train_choice(
                        context.sites@.take(i as int),
                        barracks_type,
                        context.gold as int,
                    ),
                    ids.len() == train_sites@.len(),
                    forall|j: int| 0 <= j < ids.len() ==> #[trigger] ids[j] == train_sites@[j].id,
                    gold_available == context.gold - ids.len() * cost,
                decreases context.sites@.len() - i,
            {
                let site = &context.sites[i];
                let taken = holds_site_id(&train_sites, site.id);
                proof {
                    assert(context.sites@.take(i + 1).drop_last() =~= context.sites@.take(
                        i as int,
                    ));
                    assert(context.sites@.take(i + 1).last() == *site);
                    if taken {
                        let j = choose|j: int|
                            0 <= j < train_sites@.len() && (#[trigger] train_sites@[j]).id
                                == site.id;
                        assert(ids[j] == site.id);
                    }
                    assert(taken == ids.contains(site.id));
                    assert((ids.len() + 1) * cost == ids.len() * cost + cost) by (nonlinear_arith);
                }
                if gold_available >= cost && site.can_train(barracks_type) && !taken {
                    train_sites.push(site);
                    gold_available -= cost;
                    proof {
                        ids = ids.push(site.id);
                    }
                }
                i += 1;
            }
            proof {
                assert(context.sites@.take(i as int) =~= context.sites@);
                lemma_train_choice(context.sites@, barracks_type, context.gold as int);
            }
        },
        None => {},
    }
    let r = TrainCommand::for_sites(train_sites);
    assert(r.site_ids@ =~= ids);
    r
}

/// The task that follows a finished one.
pub fn get_next_task(context: &Context) -> (r: Task)
    requires
        context@.has_friendly_queen(),
        context@.in_bounds(),
    ensures
        r == next_task(context@),
        r.target() matches Some(id) ==> build_site(context@) matches Some(site) && site.id == id
            && is_build_candidate(context@, site),
{
    let build_site = match get_closest_site_to_build(context) {
        Some(site) => site,
        None => {
            return Task::Wait(WaitTask::new());
        },
    };
    if context.touched_site_id != build_site.id {
        return Task::MoveToBuildSite(MoveToBuildSiteTask::new(build_site.id));
    }
    let friendly_tower_count = context.site_count(BuildType::Tower, Owner::Friendly);
    let friendly_mine_count = context.site_count(BuildType::Mine, Owner::Friendly);
    let friendly_knight_barracks_count = context.site_count(
        BuildType::Barracks(BarracksType::Knight),
        Owner::Friendly,
    );
    let friendly_giant_barracks_count = context.site_count(
        BuildType::Barracks(BarracksType::Giant),
        Owner::Friendly,
    );
    let enemy_tower_count = context.site_count(BuildType::Tower, Owner::Enemy);
    let enemy_knight_count = context.unit_count(UnitType::Knight, Owner::Enemy);
    let enemy_knight_dist = context.closest_unit_dist(UnitType::Knight, Owner::Enemy);
    let calm = match enemy_knight_dist {
        Some(d) => d > KNIGHT_THREAT_RANGE,
        None => true,
    };
    assert(calm == enemy_knights_beyond(context@, KNIGHT_THREAT_RANGE as int));

    if enemy_knight_count > 0 && friendly_tower_count == 0 {
        return Task::BuildTower(BuildTowerTask::new(build_site));
    }
    if friendly_mine_count < 3 && calm {
        return Task::BuildMine(BuildMineTask::new(build_site));
    }
    if friendly_knight_barracks_count == 0 {
        return Task::BuildBarracks(BuildBarracksTask::new(build_site, BarracksType::Knight));
    }
    if friendly_tower_count < 2 {
        return Task::BuildTower(BuildTowerTask::new(build_site));
    }
    if enemy_tower_count > 0 && friendly_giant_barracks_count == 0 {
        return Task::BuildBarracks(BuildBarracksTask::new(build_site, BarracksType::Giant));
    }
    if friendly_mine_count < 5 && calm {
        return Task::BuildMine(BuildMineTask::new(build_site));
    }
    Task::BuildTower(BuildTowerTask::new(build_site))
}

} // verus!
