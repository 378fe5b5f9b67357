//! The exact integer engine against a floating-point model of the same
//! rules, on generated worlds. Where the model's own rounding could tip a
//! decision, the case is skipped.

use queen_engine::command::{BuildCommand, BuildType, QueenCommand};
use queen_engine::context::Context;
use queen_engine::owner::Owner;
use queen_engine::point::Vector2;
use queen_engine::policy::{can_build_on, get_closest_site_to_build, get_next_task, get_train_command};
use queen_engine::site::{
    BarracksStructure, BarracksType, MineStructure, Site, Structure, TowerStructure,
};
use queen_engine::task::{
    BuildBarracksTask, BuildMineTask, BuildTowerTask, MoveToBuildSiteTask, Task, WaitTask,
};
use queen_engine::unit::{Unit, UnitType};

struct Dice(u64);

impl Dice {
    fn roll(&mut self, sides: i32) -> i32 {
        self.0 = self.0.wrapping_mul(6364136223846793005).wrapping_add(1442695040888963407);
        ((self.0 >> 33) % (sides as u64)) as i32
    }
}

fn owner(dice: &mut Dice) -> Owner {
    if dice.roll(2) == 0 {
        Owner::Friendly
    } else {
        Owner::Enemy
    }
}

fn structure(dice: &mut Dice) -> Structure {
    match dice.roll(8) {
        0 => Structure::Mine(MineStructure { owner: owner(dice), mining_rate: 1 + dice.roll(3) }),
        1 => Structure::Tower(TowerStructure {
            owner: owner(dice),
            health: 200,
            attack_radius: 100 + dice.roll(400),
        }),
        2 => Structure::Barracks(BarracksStructure {
            owner: owner(dice),
            barracks_type: match dice.roll(3) {
                0 => BarracksType::Knight,
                1 => BarracksType::Archer,
                _ => BarracksType::Giant,
            },
            turns_to_train: dice.roll(3),
        }),
        _ => Structure::NoStructure,
    }
}

fn world(dice: &mut Dice) -> Context {
    let mut sites = Vec::new();
    let n = 2 + dice.roll(18);
    let mut id = 0;
    while id < n {
        sites.push(Site {
            id,
            position: Vector2 { x: dice.roll(1921), y: dice.roll(1001) },
            radius: 20 + dice.roll(90),
            gold: dice.roll(300),
            max_mining_rate: 1 + dice.roll(3),
            structure: structure(dice),
        });
        id += 1;
    }
    let queen = Vector2 { x: dice.roll(1921), y: dice.roll(1001) };
    let mut units = vec![
        Unit {
            position: Vector2 { x: dice.roll(1921), y: dice.roll(1001) },
            owner: Owner::Enemy,
            unit_type: UnitType::Queen,
            health: 100,
        },
        Unit { position: queen, owner: Owner::Friendly, unit_type: UnitType::Queen, health: 100 },
    ];
    let extra = dice.roll(6);
    let mut k = 0;
    while k < extra {
        let near = dice.roll(2) == 0;
        let position = if near {
            Vector2 { x: queen.x + dice.roll(801) - 400, y: queen.y + dice.roll(801) - 400 }
        } else {
            Vector2 { x: dice.roll(1921), y: dice.roll(1001) }
        };
        units.push(Unit {
            position,
            owner: owner(dice),
            unit_type: match dice.roll(3) {
                0 => UnitType::Knight,
                1 => UnitType::Archer,
                _ => UnitType::Giant,
            },
            health: 10,
        });
        k += 1;
    }
    let touched_site_id = if dice.roll(3) == 0 { -1 } else { dice.roll(n) };
    Context {
        sites,
        units,
        gold: dice.roll(600),
        start_position: Vector2 { x: dice.roll(1921), y: dice.roll(1001) },
        touched_site_id,
    }
}

#[derive(Copy, Clone)]
struct Point {
    x: f64,
    y: f64,
}

fn lift(p: Vector2) -> Point {
    Point { x: p.x as f64, y: p.y as f64 }
}

fn minus(a: Point, b: Point) -> Point {
    Point { x: a.x - b.x, y: a.y - b.y }
}

fn len(a: Point) -> f64 {
    (a.x * a.x + a.y * a.y).sqrt()
}

fn unit_of(a: Point) -> Point {
    let l = len(a);
    Point { x: a.x / l, y: a.y / l }
}

fn angle(a: Point, b: Point) -> f64 {
    let (a, b) = (unit_of(a), unit_of(b));
    (a.x * b.x + a.y * b.y).acos()
}

fn model_queen(c: &Context) -> Point {
    let q = c
        .units
        .iter()
        .find(|u| u.unit_type == UnitType::Queen && u.owner == Owner::Friendly)
        .unwrap();
    lift(q.position)
}

fn model_site(c: &Context, id: i32) -> &Site {
    c.sites.iter().find(|s| s.id == id).unwrap()
}

fn model_knight_distance(c: &Context) -> Option<i32> {
    let q = model_queen(c);
    c.units
        .iter()
        .filter(|u| u.unit_type == UnitType::Knight && u.owner == Owner::Enemy)
        .map(|u| len(minus(lift(u.position), q)) as i32)
        .min()
}

fn model_count(c: &Context, wanted: BuildType, owner: Owner) -> usize {
    c.sites
        .iter()
        .filter(|s| match s.structure {
            Structure::Barracks(b) => wanted == BuildType::Barracks(b.barracks_type) && b.owner == owner,
            Structure::Mine(m) => wanted == BuildType::Mine && m.owner == owner,
            Structure::Tower(t) => wanted == BuildType::Tower && t.owner == owner,
            Structure::NoStructure => false,
        })
        .count()
}

fn model_units(c: &Context, unit_type: UnitType, owner: Owner) -> usize {
    c.units.iter().filter(|u| u.unit_type == unit_type && u.owner == owner).count()
}

fn model_candidate(c: &Context, site: &Site) -> bool {
    if len(minus(lift(site.position), lift(c.start_position))) > 1000.0 {
        return false;
    }
    let covered = c.sites.iter().any(|other| match other.structure {
        Structure::Tower(t) => {
            t.owner == Owner::Enemy
                && len(minus(lift(other.position), lift(site.position))) < t.attack_radius as f64
        }
        _ => false,
    });
    if covered {
        return false;
    }
    match site.structure {
        Structure::Barracks(b) => b.owner != Owner::Friendly,
        Structure::Mine(m) => m.owner != Owner::Friendly,
        Structure::Tower(_) => false,
        Structure::NoStructure => true,
    }
}

fn model_build_site(c: &Context) -> Option<&Site> {
    let q = model_queen(c);
    c.sites
        .iter()
        .filter(|s| model_candidate(c, s))
        .min_by_key(|s| len(minus(lift(s.position), q)) as i32)
}

fn model_next_task(c: &Context) -> Task {
    let site = match model_build_site(c) {
        Some(site) => site,
        None => return Task::Wait(WaitTask {}),
    };
    let site_id = site.id;
    if c.touched_site_id != site_id {
        return Task::MoveToBuildSite(MoveToBuildSiteTask { site_id });
    }
    let towers = model_count(c, BuildType::Tower, Owner::Friendly);
    let mines = model_count(c, BuildType::Mine, Owner::Friendly);
    let knight_barracks = model_count(c, BuildType::Barracks(BarracksType::Knight), Owner::Friendly);
    let giant_barracks = model_count(c, BuildType::Barracks(BarracksType::Giant), Owner::Friendly);
    let enemy_towers = model_count(c, BuildType::Tower, Owner::Enemy);
    let enemy_knights = model_units(c, UnitType::Knight, Owner::Enemy);
    let knight_distance = model_knight_distance(c).unwrap_or(i32::MAX);
    if enemy_knights > 0 && towers == 0 {
        return Task::BuildTower(BuildTowerTask { site_id });
    }
    if mines < 3 && knight_distance > 300 {
        return Task::BuildMine(BuildMineTask { site_id });
    }
    if knight_barracks == 0 {
        return Task::BuildBarracks(BuildBarracksTask { site_id, barracks_type: BarracksType::Knight });
    }
    if towers < 2 {
        return Task::BuildTower(BuildTowerTask { site_id });
    }
    if enemy_towers > 0 && giant_barracks == 0 {
        return Task::BuildBarracks(BuildBarracksTask { site_id, barracks_type: BarracksType::Giant });
    }
    if mines < 5 && knight_distance > 300 {
        return Task::BuildMine(BuildMineTask { site_id });
    }
    Task::BuildTower(BuildTowerTask { site_id })
}

fn model_done(c: &Context, task: &Task) -> bool {
    match task {
        Task::Wait(_) => true,
        Task::MoveToBuildSite(t) => {
            let site = model_site(c, t.site_id);
            if let Structure::Tower(_) = site.structure {
                return true;
            }
            let gap = len(minus(lift(site.position), model_queen(c))) - (site.radius as f64) - 30.0;
            gap < 60.0 + 10.0
        }
        Task::BuildMine(t) => {
            let site = model_site(c, t.site_id);
            if model_knight_distance(c).unwrap_or(i32::MAX) < 300 {
                return true;
            }
            match site.structure {
                Structure::Mine(m) => {
                    m.owner == Owner::Friendly && m.mining_rate == site.max_mining_rate
                }
                Structure::Tower(_) => true,
                _ => false,
            }
        }
        Task::BuildBarracks(t) => match model_site(c, t.site_id).structure {
            Structure::Barracks(b) => b.owner == Owner::Friendly && b.barracks_type == t.barracks_type,
            Structure::Tower(_) => true,
            _ => false,
        },
        Task::BuildTower(t) => match model_site(c, t.site_id).structure {
            Structure::Tower(tower) => tower.attack_radius > 350 || tower.owner != Owner::Friendly,
            _ => false,
        },
    }
}

fn whole(value: f64) -> Option<i32> {
    if (value - value.round()).abs() < 1e-9 {
        None
    } else {
        Some(value as i32)
    }
}

/// The model's command, or `None` where its rounding could tip the answer.
fn model_command(c: &Context, task: &Task) -> Option<QueenCommand> {
    let build = |site_id: i32, build_type: BuildType| {
        Some(QueenCommand::Build(BuildCommand { site_id, build_type }))
    };
    let t = match task {
        Task::Wait(_) => return Some(QueenCommand::Wait),
        Task::BuildMine(t) => return build(t.site_id, BuildType::Mine),
        Task::BuildTower(t) => return build(t.site_id, BuildType::Tower),
        Task::BuildBarracks(t) => return build(t.site_id, BuildType::Barracks(t.barracks_type)),
        Task::MoveToBuildSite(t) => t,
    };
    let target = model_site(c, t.site_id);
    if c.touched_site_id >= 0 {
        let q = model_queen(c);
        let to_touched = minus(lift(model_site(c, c.touched_site_id).position), q);
        let to_target = minus(lift(target.position), q);
        let threshold = 20.0f64.to_radians();
        let between = angle(to_touched, to_target);
        if (between - threshold).abs() < 1e-9 {
            return None;
        }
        // Rounding can push the cosine of two parallel vectors above one,
        // where the arccosine is not a number.
        if between.is_nan() && len(to_touched) > 0.0 && len(to_target) > 0.0 {
            return None;
        }
        if between < threshold {
            let cw = unit_of(Point { x: to_touched.y, y: -to_touched.x });
            let ccw = unit_of(Point { x: -to_touched.y, y: to_touched.x });
            let angle_cw = angle(to_target, cw);
            let angle_ccw = angle(to_target, ccw);
            let tangent = if (angle_cw - angle_ccw).abs() < 1e-12 {
                ccw
            } else if angle_cw < angle_ccw {
                cw
            } else {
                ccw
            };
            let x = whole(q.x + tangent.x * 100.0)?;
            let y = whole(q.y + tangent.y * 100.0)?;
            return Some(QueenCommand::Move(Vector2 { x, y }));
        }
    }
    Some(QueenCommand::Move(target.position))
}

fn model_train(c: &Context) -> Vec<i32> {
    let mut gold = c.gold;
    let mut chosen: Vec<i32> = Vec::new();
    loop {
        let kind = if model_count(c, BuildType::Tower, Owner::Enemy) > 0
            && model_count(c, BuildType::Barracks(BarracksType::Giant), Owner::Friendly) > 0
            && model_units(c, UnitType::Giant, Owner::Friendly) == 0
        {
            BarracksType::Giant
        } else if model_count(c, BuildType::Barracks(BarracksType::Knight), Owner::Friendly) > 0 {
            BarracksType::Knight
        } else {
            break;
        };
        let cost = match kind {
            BarracksType::Knight => 80,
            BarracksType::Archer => 100,
            BarracksType::Giant => 140,
        };
        if gold < cost {
            break;
        }
        let site = c.sites.iter().find(|s| match s.structure {
            Structure::Barracks(b) => {
                b.owner == Owner::Friendly
                    && b.barracks_type == kind
                    && b.turns_to_train == 0
                    && !chosen.contains(&s.id)
            }
            _ => false,
        });
        match site {
            Some(site) => {
                chosen.push(site.id);
                gold -= cost;
            }
            None => break,
        }
    }
    chosen
}

fn tasks_for(c: &Context, dice: &mut Dice) -> Vec<Task> {
    let site_id = c.sites[dice.roll(c.sites.len() as i32) as usize].id;
    vec![
        Task::Wait(WaitTask {}),
        Task::MoveToBuildSite(MoveToBuildSiteTask { site_id }),
        Task::BuildMine(BuildMineTask { site_id }),
        Task::BuildTower(BuildTowerTask { site_id }),
        Task::BuildBarracks(BuildBarracksTask { site_id, barracks_type: BarracksType::Knight }),
        Task::BuildBarracks(BuildBarracksTask { site_id, barracks_type: BarracksType::Giant }),
    ]
}

#[test]
fn build_sites_agree_with_the_model() {
    let mut dice = Dice(1);
    let mut round = 0;
    while round < 3000 {
        let c = world(&mut dice);
        for site in &c.sites {
            assert_eq!(can_build_on(&c, site), model_candidate(&c, site));
        }
        assert_eq!(
            get_closest_site_to_build(&c).map(|s| s.id),
            model_build_site(&c).map(|s| s.id)
        );
        round += 1;
    }
}

#[test]
fn next_tasks_agree_with_the_model() {
    let mut dice = Dice(2);
    let mut round = 0;
    let mut kinds = [0; 5];
    while round < 6000 {
        let mut c = world(&mut dice);
        // Let the queen touch the build site in half of the worlds.
        if dice.roll(2) == 0 {
            if let Some(id) = model_build_site(&c).map(|s| s.id) {
                c.touched_site_id = id;
            }
        }
        let task = get_next_task(&c);
        assert_eq!(task, model_next_task(&c));
        kinds[match task {
            Task::Wait(_) => 0,
            Task::MoveToBuildSite(_) => 1,
            Task::BuildMine(_) => 2,
            Task::BuildBarracks(_) => 3,
            Task::BuildTower(_) => 4,
        }] += 1;
        round += 1;
    }
    // Every kind of task was met.
    for count in kinds {
        assert!(count > 0);
    }
}

#[test]
fn done_agrees_with_the_model() {
    let mut dice = Dice(3);
    let mut round = 0;
    let mut done = 0;
    let mut open = 0;
    while round < 4000 {
        let c = world(&mut dice);
        for task in tasks_for(&c, &mut dice) {
            let answer = task.is_task_done(&c);
            assert_eq!(answer, model_done(&c, &task));
            if answer {
                done += 1;
            } else {
                open += 1;
            }
        }
        round += 1;
    }
    assert!(done > 1000 && open > 1000);
}

#[test]
fn commands_agree_with_the_model() {
    let mut dice = Dice(4);
    let mut round = 0;
    let mut sidesteps = 0;
    while round < 20000 {
        let mut c = world(&mut dice);
        // Put the touched site near the queen, as it is in play.
        if c.touched_site_id >= 0 {
            let q = c.units[1].position;
            let touched = c.touched_site_id as usize;
            c.sites[touched].position =
                Vector2 { x: q.x + dice.roll(161) - 80, y: q.y + dice.roll(161) - 80 };
        }
        for task in tasks_for(&c, &mut dice) {
            if let Some(expected) = model_command(&c, &task) {
                let command = task.get_next_command(&c);
                assert_eq!(command, expected);
                if let (Task::MoveToBuildSite(t), QueenCommand::Move(p)) = (&task, &command) {
                    if *p != c.site_by_id(t.site_id).position {
                        sidesteps += 1;
                    }
                }
            }
        }
        round += 1;
    }
    assert!(sidesteps > 500);
}

#[test]
fn training_agrees_with_the_model() {
    let mut dice = Dice(5);
    let mut round = 0;
    let mut trained = 0;
    while round < 6000 {
        let c = world(&mut dice);
        let chosen = get_train_command(&c).site_ids;
        assert_eq!(chosen, model_train(&c));
        trained += chosen.len();
        round += 1;
    }
    assert!(trained > 100);
}
