//! The world as one tick shows it, and the questions the policy asks of it.

use crate::arith::{
    floor_sqrt, lemma_floor_sqrt_exists, lemma_product_bound, lemma_square_monotone,
};
use crate::command::BuildType;
use crate::owner::Owner;
use crate::point::{distance, Vector2};
use crate::site::{Site, Structure};
use crate::unit::{Unit, UnitType};
use vstd::prelude::*;

verus! {

/// The snapshot of one tick: every site and unit, the gold at hand, the site
/// the queen touches (`-1` for none), and the place where the queen stood on
/// the first tick.
#[derive(Debug)]
pub struct Context {
    pub sites: Vec<Site>,
    pub units: Vec<Unit>,
    pub gold: i32,
    pub start_position: Vector2,
    pub touched_site_id: i32,
}

/// The site holds a structure of the given kind that belongs to `owner`; for
/// a barracks the kind of troops counts too.
pub open spec fn site_holds(site: Site, build_type: BuildType, owner: Owner) -> bool {
    match site.structure {
        Structure::Barracks(barracks) => build_type == BuildType::Barracks(barracks.barracks_type)
            && barracks.owner == owner,
        Structure::Mine(mine) => build_type == BuildType::Mine && mine.owner == owner,
        Structure::Tower(tower) => build_type == BuildType::Tower && tower.owner == owner,
        Structure::NoStructure => false,
    }
}

/// The unit is the queen of the engine's own side.
pub open spec fn is_friendly_queen(unit: Unit) -> bool {
    unit.unit_type == UnitType::Queen && unit.owner == Owner::Friendly
}

/// Decides whether the site holds a structure of the given kind and owner.
pub fn site_matches(site: &Site, build_type: BuildType, owner: Owner) -> (r: bool)
    ensures
        r == site_holds(*site, build_type, owner),
{
    match &site.structure {
        Structure::Barracks(barracks) => {
            match build_type {
                BuildType::Barracks(barracks_type) => {
                    barracks.barracks_type == barracks_type && barracks.owner == owner
                },
                _ => false,
            }
        },
        Structure::Mine(mine) => build_type == BuildType::Mine && mine.owner == owner,
        Structure::Tower(tower) => build_type == BuildType::Tower && tower.owner == owner,
        Structure::NoStructure => false,
    }
}

/// The snapshot as a mathematical value: what every decision of a tick is a
/// function of.
pub struct World {
    pub sites: Seq<Site>,
    pub units: Seq<Unit>,
    pub gold: i32,
    pub start_position: Vector2,
    pub touched_site_id: i32,
}

impl View for Context {
    type V = World;

    open spec fn view(&self) -> World {
        World {
            sites: self.sites@,
            units: self.units@,
            gold: self.gold,
            start_position: self.start_position,
            touched_site_id: self.touched_site_id,
        }
    }
}

impl World {
    /// Some site carries the id.
    pub open spec fn has_site(self, id: i32) -> bool {
        exists|i: int| 0 <= i < self.sites.len() && self.sites[i].id == id
    }

    /// `i` is the place of the first site that carries the id.
    pub open spec fn is_site_index(self, id: i32, i: int) -> bool {
        &&& 0 <= i < self.sites.len()
        &&& self.sites[i].id == id
        &&& forall|j: int| 0 <= j < i ==> self.sites[j].id != id
    }

    /// The place of the first site that carries the id.
    pub open spec fn site_index(self, id: i32) -> int {
        choose|i: int| self.is_site_index(id, i)
    }

    /// The first site that carries the id.
    pub open spec fn site(self, id: i32) -> Site {
        self.sites[self.site_index(id)]
    }

    /// No two sites carry the same id.
    pub open spec fn ids_distinct(self) -> bool {
        forall|i: int, j: int|
            0 <= i < j < self.sites.len() ==> self.sites[i].id != self.sites[j].id
    }

    /// The snapshot shows a queen of the engine's own side.
    pub open spec fn has_friendly_queen(self) -> bool {
        exists|i: int| 0 <= i < self.units.len() && is_friendly_queen(self.units[i])
    }

    /// `i` is the place of the first friendly queen among the units.
    pub open spec fn is_queen_index(self, i: int) -> bool {
        &&& 0 <= i < self.units.len()
        &&& is_friendly_queen(self.units[i])
        &&& forall|j: int| 0 <= j < i ==> !is_friendly_queen(self.units[j])
    }

    /// The first friendly queen among the units.
    pub open spec fn queen(self) -> Unit {
        self.units[choose|i: int| self.is_queen_index(i)]
    }

    /// Every site and unit, and the starting position, lie within the board
    /// limit.
    pub open spec fn in_bounds(self) -> bool {
        &&& self.start_position.in_bounds()
        &&& forall|i: int|
            0 <= i < self.sites.len() ==> (#[trigger] self.sites[i]).position.in_bounds()
        &&& forall|i: int|
            0 <= i < self.units.len() ==> (#[trigger] self.units[i]).position.in_bounds()
    }

    /// The number of sites that hold a structure of the given kind and owner.
    pub open spec fn count_sites(self, build_type: BuildType, owner: Owner) -> nat {
        self.sites.filter(|s: Site| site_holds(s, build_type, owner)).len()
    }

    /// The number of units of the given kind and owner.
    pub open spec fn count_units(self, unit_type: UnitType, owner: Owner) -> nat {
        self.units.filter(|u: Unit| u.is_a(unit_type, owner)).len()
    }

    /// The distance from the friendly queen to `p`, with its fraction cut
    /// off.
    pub open spec fn queen_distance(self, p: Vector2) -> int {
        distance(p, self.queen().position)
    }

    /// `d` is the least distance from the friendly queen to a unit of the
    /// given kind and owner.
    pub open spec fn is_closest_unit_distance(
        self,
        d: int,
        unit_type: UnitType,
        owner: Owner,
    ) -> bool {
        &&& exists|i: int|
            0 <= i < self.units.len() && self.units[i].is_a(unit_type, owner)
                && self.queen_distance(self.units[i].position) == d
        &&& forall|i: int|
            0 <= i < self.units.len() && self.units[i].is_a(unit_type, owner) ==> d
                <= self.queen_distance(self.units[i].position)
    }

    /// Site `j` comes before site `i` when the closest is sought: it is
    /// nearer to the friendly queen, or as near and earlier in the list.
    pub open spec fn site_precedes(self, j: int, i: int) -> bool {
        let dj = self.queen_distance(self.sites[j].position);
        let di = self.queen_distance(self.sites[i].position);
        dj < di || (dj == di && j < i)
    }

    /// Where some site carries the id, one is the first to do so.
    pub proof fn lemma_site_exists(self, id: i32)
        requires
            self.has_site(id),
        ensures
            self.is_site_index(id, self.site_index(id)),
    {
        let i = choose|i: int| 0 <= i < self.sites.len() && self.sites[i].id == id;
        self.lemma_first_site(id, i);
    }

    proof fn lemma_first_site(self, id: i32, n: int)
        requires
            0 <= n < self.sites.len(),
            self.sites[n].id == id,
        ensures
            exists|k: int| self.is_site_index(id, k),
        decreases n,
    {
        if forall|j: int| 0 <= j < n ==> self.sites[j].id != id {
            assert(self.is_site_index(id, n));
        } else {
            let j = choose|j: int| 0 <= j < n && self.sites[j].id == id;
            self.lemma_first_site(id, j);
        }
    }

    /// Where the snapshot shows a friendly queen, one is the first, and she
    /// is one of the units.
    pub proof fn lemma_queen_exists(self)
        requires
            self.has_friendly_queen(),
        ensures
            exists|k: int| self.is_queen_index(k) && self.queen() == self.units[k],
    {
        let i = choose|i: int| 0 <= i < self.units.len() && is_friendly_queen(self.units[i]);
        self.lemma_first_queen(i);
        let k = choose|k: int| self.is_queen_index(k);
        assert(self.is_queen_index(k) && self.queen() == self.units[k]);
    }

    proof fn lemma_first_queen(self, n: int)
        requires
            0 <= n < self.units.len(),
            is_friendly_queen(self.units[n]),
        ensures
            exists|k: int| self.is_queen_index(k),
        decreases n,
    {
        if forall|j: int| 0 <= j < n ==> !is_friendly_queen(self.units[j]) {
            assert(self.is_queen_index(n));
        } else {
            let j = choose|j: int| 0 <= j < n && is_friendly_queen(self.units[j]);
            self.lemma_first_queen(j);
        }
    }

    /// At most one place is the first that carries an id.
    pub proof fn lemma_site_index(self, id: i32, i: int)
        requires
            self.is_site_index(id, i),
        ensures
            self.site_index(id) == i,
            self.site(id) == self.sites[i],
            self.has_site(id),
    {
        let k = self.site_index(id);
        assert(self.is_site_index(id, k));
        if k < i {
        } else if i < k {
        }
    }

    /// At most one place is that of the first friendly queen.
    pub proof fn lemma_queen_index(self, i: int)
        requires
            self.is_queen_index(i),
        ensures
            self.queen() == self.units[i],
            self.has_friendly_queen(),
    {
        let k = choose|k: int| self.is_queen_index(k);
        assert(self.is_queen_index(k));
        if k < i {
        } else if i < k {
        }
    }
}

impl Context {
    /// An empty world: no sites, no units, no gold, the queen touching
    /// nothing.
    pub fn new() -> (r: Context)
        ensures
            r.sites@.len() == 0,
            r.units@.len() == 0,
            r.gold == 0,
            r.start_position == (Vector2 { x: 0, y: 0 }),
            r.touched_site_id == -1,
    {
        Context {
            sites: Vec::new(),
            units: Vec::new(),
            gold: 0,
            start_position: Vector2 { x: 0, y: 0 },
            touched_site_id: -1,
        }
    }

    /// Finds the place of the first site that carries the id.
    pub fn find_site(&self, site_id: i32) -> (r: Option<usize>)
        ensures
            match r {
                Some(i) => self@.is_site_index(site_id, i as int),
                None => !self@.has_site(site_id),
            },
    {
        let mut i: usize = 0;
        while i < self.sites.len()
            invariant
                i <= self.sites@.len(),
                forall|j: int| 0 <= j < i ==> self.sites@[j].id != site_id,
            decreases self.sites@.len() - i,
        {
            if self.sites[i].id == site_id {
                return Some(i);
            }
            i += 1;
        }
        None
    }

    /// The site that carries the id.
    pub fn site_by_id(&self, site_id: i32) -> (r: &Site)
        requires
            self@.has_site(site_id),
        ensures
            *r == self@.site(site_id),
    {
        match self.find_site(site_id) {
            Some(i) => {
                proof {
                    self@.lemma_site_index(site_id, i as int);
                }
                &self.sites[i]
            },
            None => vstd::pervasive::unreached(),
        }
    }

    /// The site that carries the id, to be changed in place.
    pub fn site_by_id_mut(&mut self, site_id: i32) -> (r: &mut Site)
        requires
            old(self)@.has_site(site_id),
        ensures
            *r == old(self)@.site(site_id),
            final(self)@ == (World {
                sites: old(self)@.sites.update(old(self)@.site_index(site_id), *final(r)),
                ..old(self)@
            }),
    {
        match self.find_site(site_id) {
            Some(i) => {
                proof {
                    self@.lemma_site_index(site_id, i as int);
                }
                &mut self.sites[i]
            },
            None => vstd::pervasive::unreached(),
        }
    }

    /// Finds the place of the first friendly queen among the units.
    pub fn find_friendly_queen(&self) -> (r: Option<usize>)
        ensures
            match r {
                Some(i) => self@.is_queen_index(i as int),
                None => !self@.has_friendly_queen(),
            },
    {
        let mut i: usize = 0;
        while i < self.units.len()
            invariant
                i <= self.units@.len(),
                forall|j: int| 0 <= j < i ==> !is_friendly_queen(self.units@[j]),
            decreases self.units@.len() - i,
        {
            if self.units[i].matches(UnitType::Queen, Owner::Friendly) {
                return Some(i);
            }
            i += 1;
        }
        None
    }

    /// The queen of the engine's own side.
    pub fn friendly_queen(&self) -> (r: &Unit)
        requires
            self@.has_friendly_queen(),
        ensures
            *r == self@.queen(),
    {
        match self.find_friendly_queen() {
            Some(i) => {
                proof {
                    self@.lemma_queen_index(i as int);
                }
                &self.units[i]
            },
            None => vstd::pervasive::unreached(),
        }
    }

    /// Counts the sites that hold a structure of the given kind and owner.
    pub fn site_count(&self, build_type: BuildType, owner: Owner) -> (r: usize)
        ensures
            r == self@.count_sites(build_type, owner),
    {
        let ghost pred = |s: Site| site_holds(s, build_type, owner);
        let mut n: usize = 0;
        let mut i: usize = 0;
        while i < self.sites.len()
            invariant
                i <= self.sites@.len(),
                n <= i,
                n == self.sites@.take(i as int).filter(pred).len(),
                pred == |s: Site| site_holds(s, build_type, owner),
            decreases self.sites@.len() - i,
        {
            proof {
                self.sites@.take(i as int).lemma_filter_len_push(pred, self.sites@[i as int]);
                assert(self.sites@.take(i as int).push(self.sites@[i as int]) =~= self.sites@.take(
                    i + 1,
                ));
            }
            if site_matches(&self.sites[i], build_type, owner) {
                n += 1;
            }
            i += 1;
        }
        assert(self.sites@.take(i as int) =~= self.sites@);
        n
    }

    /// Counts the units of the given kind and owner.
    pub fn unit_count(&self, unit_type: UnitType, owner: Owner) -> (r: usize)
        ensures
            r == self@.count_units(unit_type, owner),
    {
        let ghost pred = |u: Unit| u.is_a(unit_type, owner);
        let mut n: usize = 0;
        let mut i: usize = 0;
        while i < self.units.len()
            invariant
                i <= self.units@.len(),
                n <= i,
                n == self.units@.take(i as int).filter(pred).len(),
                pred == |u: Unit| u.is_a(unit_type, owner),
            decreases self.units@.len() - i,
        {
            proof {
                self.units@.take(i as int).lemma_filter_len_push(pred, self.units@[i as int]);
                assert(self.units@.take(i as int).push(self.units@[i as int]) =~= self.units@.take(
                    i + 1,
                ));
            }
            if self.units[i].matches(unit_type, owner) {
                n += 1;
            }
            i += 1;
        }
        assert(self.units@.take(i as int) =~= self.units@);
        n
    }

    /// The distance from the friendly queen to the closest unit of the given
    /// kind and owner, with its fraction cut off; `None` when there is no
    /// such unit.
    pub fn closest_unit_dist(&self, unit_type: UnitType, owner: Owner) -> (r: Option<i32>)
        requires
            self@.has_friendly_queen(),
            self@.in_bounds(),
        ensures
            match r {
                Some(d) => self@.is_closest_unit_distance(d as int, unit_type, owner),
                None => forall|i: int|
                    0 <= i < self.units@.len() ==> !self.units@[i].is_a(unit_type, owner),
            },
    {
        let reference_point = self.friendly_queen().position;
        proof {
            self@.lemma_queen_exists();
        }
        let mut best: Option<i32> = None;
        let mut i: usize = 0;
        while i < self.units.len()
            invariant
                i <= self.units@.len(),
                self@.in_bounds(),
                reference_point == self@.queen().position,
                reference_point.in_bounds(),
                match best {
                    Some(d) => {
                        &&& exists|k: int|
                            0 <= k < i && self.units@[k].is_a(unit_type, owner)
                                && self@.queen_distance(self.units@[k].position) == d
                        &&& forall|k: int|
                            0 <= k < i && self.units@[k].is_a(unit_type, owner) ==> d
                                <= self@.queen_distance(self.units@[k].position)
                    },
                    None => forall|k: int| 0 <= k < i ==> !self.units@[k].is_a(unit_type, owner),
                },
            decreases self.units@.len() - i,
        {
            let unit = &self.units[i];
            if unit.matches(unit_type, owner) {
                let d: u32 = unit.position.distance_to(reference_point);
                proof {
                    lemma_distance_bound(unit.position, reference_point);
                }
                let d: i32 = d as i32;
                match best {
                    Some(b) => {
                        if d < b {
                            best = Some(d);
                        }
                    },
                    None => {
                        best = Some(d);
                    },
                }
            }
            i += 1;
        }
        best
    }

    /// The site closest to the friendly queen among those the predicate
    /// accepts, the earliest in the list among equally close ones; `None`
    /// when the predicate accepts no site. Distances are compared with their
    /// fractions cut off.
    ///
    /// The predicate is asked once for every site. The result is stated over
    /// its answers: the chosen site was accepted, and every site that comes
    /// before it in the order of the search was rejected.
    pub fn closest_site<F: Fn(&Site) -> bool>(&self, predicate: F) -> (r: Option<&Site>)
        requires
            self@.has_friendly_queen(),
            self@.in_bounds(),
            forall|i: int|
                0 <= i < self.sites@.len() ==> call_requires(
                    predicate,
                    (&#[trigger] self.sites@[i],),
                ),
        ensures
            match r {
                Some(site) => exists|i: int|
                    {
                        &&& 0 <= i < self.sites@.len()
                        &&& *site == self.sites@[i]
                        &&& call_ensures(predicate, (&self.sites@[i],), true)
                        &&& forall|j: int|
                            0 <= j < self.sites@.len() && self@.site_precedes(j, i)
                                ==> call_ensures(predicate, (&#[trigger] self.sites@[j],), false)
                    },
                None => forall|j: int|
                    0 <= j < self.sites@.len() ==> call_ensures(
                        predicate,
                        (&#[trigger] self.sites@[j],),
                        false,
                    ),
            },
    {
        let reference_point = self.friendly_queen().position;
        proof {
            self@.lemma_queen_exists();
        }
        let mut best: Option<usize> = None;
        let mut best_dist: u32 = 0;
        let mut i: usize = 0;
        while i < self.sites.len()
            invariant
                i <= self.sites@.len(),
                self@.in_bounds(),
                reference_point == self@.queen().position,
                reference_point.in_bounds(),
                forall|k: int|
                    0 <= k < self.sites@.len() ==> call_requires(
                        predicate,
                        (&#[trigger] self.sites@[k],),
                    ),
                match best {
                    Some(b) => {
                        &&& b < i
                        &&& best_dist == self@.queen_distance(self.sites@[b as int].position)
                        &&& call_ensures(predicate, (&self.sites@[b as int],), true)
                        &&& forall|j: int|
                            0 <= j < i && self@.site_precedes(j, b as int) ==> call_ensures(
                                predicate,
                                (&#[trigger] self.sites@[j],),
                                false,
                            )
                    },
                    None => forall|j: int|
                        0 <= j < i ==> call_ensures(
                            predicate,
                            (&#[trigger] self.sites@[j],),
                            false,
                        ),
                },
            decreases self.sites@.len() - i,
        {
            let site = &self.sites[i];
            if predicate(site) {
                let d: u32 = site.position.distance_to(reference_point);
                match best {
                    Some(b) => {
                        if d < best_dist {
                            assert forall|j: int|
                                0 <= j < i + 1 && self@.site_precedes(
                                    j,
                                    i as int,
                                ) implies call_ensures(
                                predicate,
                                (&#[trigger] self.sites@[j],),
                                false,
                            ) by {
                                assert(self@.site_precedes(j, b as int));
                            }
                            best = Some(i);
                            best_dist = d;
                        }
                    },
                    None => {
                        best = Some(i);
                        best_dist = d;
                    },
                }
            }
            i += 1;
        }
        match best {
            Some(b) => Some(&self.sites[b]),
            None => None,
        }
    }
}

/// Two points within the board limit are less than thirty thousand apart.
pub proof fn lemma_distance_bound(p: Vector2, q: Vector2)
    requires
        p.in_bounds(),
        q.in_bounds(),
    ensures
        0 <= distance(p, q) < 30_000,
{
    let dx = p.x - q.x;
    let dy = p.y - q.y;
    let n = dx * dx + dy * dy;
    lemma_product_bound(dx, dx, 20_000);
    lemma_product_bound(dy, dy, 20_000);
    assert(dx * dx >= 0 && dy * dy >= 0) by (nonlinear_arith);
    lemma_floor_sqrt_exists(n);
    let r = floor_sqrt(n);
    if r >= 30_000 {
        lemma_square_monotone(30_000, r);
    }
}

} // verus!
