use queen_engine::command::{BuildCommand, BuildType, QueenCommand, TrainCommand};
use queen_engine::engine::{Engine, EngineError, SiteReport, TickOutput};
use queen_engine::owner::Owner;
use queen_engine::point::Vector2;
use queen_engine::site::{
    BarracksStructure, BarracksType, MineStructure, Structure, TowerStructure,
};
use queen_engine::task::{
    BuildMineTask, BuildTowerTask, MoveToBuildSiteTask, Task, WaitTask,
};
use queen_engine::unit::{Unit, UnitType};

fn v(x: i32, y: i32) -> Vector2 {
    Vector2 { x, y }
}

fn unit(x: i32, y: i32, owner: Owner, unit_type: UnitType) -> Unit {
    Unit { position: v(x, y), owner, unit_type, health: 10 }
}

fn queens(x: i32, y: i32) -> Vec<Unit> {
    vec![
        unit(x, y, Owner::Friendly, UnitType::Queen),
        unit(1800, 900, Owner::Enemy, UnitType::Queen),
    ]
}

fn report(site_id: i32, structure: Structure) -> SiteReport {
    SiteReport { site_id, gold: 200, max_mining_rate: 3, structure }
}

fn empty(site_id: i32) -> SiteReport {
    report(site_id, Structure::NoStructure)
}

fn tower(owner: Owner, attack_radius: i32) -> Structure {
    Structure::Tower(TowerStructure { owner, health: 200, attack_radius })
}

fn barracks(owner: Owner, barracks_type: BarracksType, turns_to_train: i32) -> Structure {
    Structure::Barracks(BarracksStructure { owner, barracks_type, turns_to_train })
}

fn engine_with(sites: &[(i32, i32, i32, i32)]) -> Engine {
    let mut engine = Engine::new();
    for &(id, x, y, radius) in sites {
        assert_eq!(engine.add_site(id, v(x, y), radius), Ok(()));
    }
    engine
}

fn lines(out: Result<TickOutput, EngineError>) -> (String, String) {
    match out {
        Ok(out) => out.lines(),
        Err(e) => panic!("tick refused: {:?}", e),
    }
}

fn answer(queen: &str, train: &str) -> (String, String) {
    (String::from(queen), String::from(train))
}

#[test]
fn new_engine_waits() {
    let engine = Engine::new();
    assert_eq!(engine.task, Task::Wait(WaitTask {}));
    assert!(!engine.started);
    assert!(engine.context.sites.is_empty());
    assert_eq!(engine.context.touched_site_id, -1);
}

#[test]
fn add_site_sets_up_an_empty_site() {
    let engine = engine_with(&[(3, 10, 20, 30), (1, 40, 50, 60)]);
    assert_eq!(engine.context.sites.len(), 2);
    assert_eq!(engine.context.sites[0].id, 3);
    assert_eq!(engine.context.sites[0].position, v(10, 20));
    assert_eq!(engine.context.sites[0].radius, 30);
    assert_eq!(engine.context.sites[0].gold, -1);
    assert_eq!(engine.context.sites[0].max_mining_rate, -1);
    assert_eq!(engine.context.sites[0].structure, Structure::NoStructure);
    assert_eq!(engine.context.sites[1].id, 1);
}

#[test]
fn add_site_refuses_a_site_off_the_board() {
    let mut engine = engine_with(&[(0, 10, 10, 10)]);
    assert_eq!(engine.add_site(1, v(10_001, 0), 10), Err(EngineError::OutOfBounds));
    assert_eq!(engine.add_site(1, v(0, -10_001), 10), Err(EngineError::OutOfBounds));
    assert_eq!(engine.context.sites.len(), 1);
    assert_eq!(engine.add_site(1, v(10_000, -10_000), 10), Ok(()));
    assert_eq!(engine.context.sites.len(), 2);
}

#[test]
fn scenario_no_candidate_site() {
    let mut engine = engine_with(&[(0, 2000, 2000, 30)]);
    let out = engine.tick(0, -1, &vec![empty(0)], queens(100, 100));
    assert_eq!(lines(out), answer("WAIT", "TRAIN"));
    assert_eq!(engine.task, Task::Wait(WaitTask {}));
}

#[test]
fn scenario_first_tick_tower_against_knights() {
    let mut engine = engine_with(&[(0, 110, 100, 10)]);
    let mut units = queens(100, 100);
    units.push(unit(500, 100, Owner::Enemy, UnitType::Knight));
    let out = engine.tick(100, 0, &vec![empty(0)], units);
    assert_eq!(lines(out), answer("BUILD 0 TOWER", "TRAIN"));
    assert_eq!(engine.task, Task::BuildTower(BuildTowerTask { site_id: 0 }));
}

#[test]
fn scenario_mine_with_no_pressure() {
    let mut engine = engine_with(&[(0, 110, 100, 10)]);
    let out = engine.tick(0, 0, &vec![empty(0)], queens(100, 100));
    assert_eq!(lines(out), answer("BUILD 0 MINE", "TRAIN"));
    assert_eq!(engine.task, Task::BuildMine(BuildMineTask { site_id: 0 }));
}

#[test]
fn scenario_train_giants_preferred_when_enemy_has_towers() {
    let mut engine = engine_with(&[(3, 300, 300, 30), (7, 500, 300, 30), (9, 1700, 800, 30)]);
    let reports = vec![
        report(3, barracks(Owner::Friendly, BarracksType::Knight, 0)),
        report(7, barracks(Owner::Friendly, BarracksType::Giant, 0)),
        report(9, tower(Owner::Enemy, 300)),
    ];
    let out = engine.tick(200, -1, &reports, queens(100, 100));
    assert_eq!(lines(out), answer("WAIT", "TRAIN 7"));
}

#[test]
fn scenario_navigation_deflection() {
    let mut engine = engine_with(&[(1, 100, 0, 40), (2, 200, 0, 40)]);
    engine.task = Task::MoveToBuildSite(MoveToBuildSiteTask { site_id: 2 });
    let out = engine.tick(0, 1, &vec![empty(1), empty(2)], queens(0, 0));
    assert_eq!(lines(out), answer("MOVE 0 100", "TRAIN"));
    assert_eq!(engine.task, Task::MoveToBuildSite(MoveToBuildSiteTask { site_id: 2 }));
}

#[test]
fn scenario_tower_upgrade_cap() {
    let mut engine = engine_with(&[(5, 150, 100, 30), (6, 400, 100, 30)]);
    engine.task = Task::BuildTower(BuildTowerTask { site_id: 5 });
    let reports = vec![report(5, tower(Owner::Friendly, 350)), empty(6)];
    let out = engine.tick(0, 5, &reports, queens(100, 100));
    assert_eq!(lines(out), answer("BUILD 5 TOWER", "TRAIN"));
    assert_eq!(engine.task, Task::BuildTower(BuildTowerTask { site_id: 5 }));
    let reports = vec![report(5, tower(Owner::Friendly, 351)), empty(6)];
    let out = engine.tick(0, 5, &reports, queens(100, 100));
    assert_eq!(engine.task, Task::MoveToBuildSite(MoveToBuildSiteTask { site_id: 6 }));
    // The touched tower lies straight between the queen and the new site, so
    // the queen sidesteps it.
    assert_eq!(lines(out), answer("MOVE 100 200", "TRAIN"));
}

#[test]
fn task_is_kept_while_it_is_not_done() {
    let mut engine = engine_with(&[(0, 110, 100, 10), (1, 300, 100, 10)]);
    let out = engine.tick(0, 0, &vec![empty(0), empty(1)], queens(100, 100));
    assert_eq!(lines(out), answer("BUILD 0 MINE", "TRAIN"));
    // The mine stands but is not fully upgraded; a closer candidate or other
    // rules do not matter while the task is not done.
    let mine =
        |rate: i32| Structure::Mine(MineStructure { owner: Owner::Friendly, mining_rate: rate });
    let mut units = queens(100, 100);
    units.push(unit(1000, 100, Owner::Enemy, UnitType::Knight));
    let out = engine.tick(0, 0, &vec![report(0, mine(1)), empty(1)], units);
    assert_eq!(lines(out), answer("BUILD 0 MINE", "TRAIN"));
    assert_eq!(engine.task, Task::BuildMine(BuildMineTask { site_id: 0 }));
    let out = engine.tick(0, 0, &vec![report(0, mine(2)), empty(1)], queens(100, 100));
    assert_eq!(lines(out), answer("BUILD 0 MINE", "TRAIN"));
    // Fully upgraded: done, and the next task is picked on the same tick.
    let out = engine.tick(0, 0, &vec![report(0, mine(3)), empty(1)], queens(100, 100));
    assert_eq!(engine.task, Task::MoveToBuildSite(MoveToBuildSiteTask { site_id: 1 }));
    // The mine she touches lies straight in the way.
    assert_eq!(lines(out), answer("MOVE 100 200", "TRAIN"));
    let out = engine.tick(0, -1, &vec![report(0, mine(3)), empty(1)], queens(100, 200));
    assert_eq!(lines(out), answer("MOVE 300 100", "TRAIN"));
}

#[test]
fn start_position_is_taken_once() {
    let mut engine = engine_with(&[(0, 1000, 100, 10), (1, 1500, 100, 10)]);
    let out = engine.tick(0, -1, &vec![empty(0), empty(1)], queens(100, 100));
    assert!(engine.started);
    assert_eq!(engine.context.start_position, v(100, 100));
    assert_eq!(lines(out), answer("MOVE 1000 100", "TRAIN"));
    // The queen has walked on; home stays where she started, so the site at
    // 1500, which is 1400 from home, is still no candidate.
    engine.task = Task::Wait(WaitTask {});
    let out = engine.tick(0, -1, &vec![empty(0), empty(1)], queens(1400, 100));
    assert_eq!(engine.context.start_position, v(100, 100));
    assert_eq!(lines(out), answer("MOVE 1000 100", "TRAIN"));
    let out = engine.tick(0, -1, &vec![empty(0), empty(1)], queens(1450, 100));
    assert_eq!(engine.context.start_position, v(100, 100));
    assert_eq!(lines(out), answer("MOVE 1000 100", "TRAIN"));
}

#[test]
fn equal_engines_answer_alike() {
    let sites = [(0, 110, 100, 10), (1, 300, 140, 20), (2, 700, 500, 30), (3, 1500, 800, 30)];
    let mut a = engine_with(&sites);
    let mut b = engine_with(&sites);
    let mut tick = 0;
    while tick < 30 {
        let qx = 100 + 13 * tick;
        let qy = 100 + 7 * tick;
        let touched = if tick % 4 == 0 { 0 } else if tick % 4 == 1 { 1 } else { -1 };
        let rate = tick % 4;
        let reports = vec![
            report(0, Structure::Mine(MineStructure { owner: Owner::Friendly, mining_rate: rate })),
            report(
                1,
                if tick > 10 {
                    tower(Owner::Friendly, 300 + 5 * tick)
                } else {
                    Structure::NoStructure
                },
            ),
            report(2, barracks(Owner::Friendly, BarracksType::Knight, tick % 3)),
            report(3, tower(Owner::Enemy, 200)),
        ];
        let mut units = queens(qx, qy);
        if tick % 5 == 0 {
            units.push(unit(qx + 200, qy, Owner::Enemy, UnitType::Knight));
        }
        let la = lines(a.tick(40 * tick, touched, &reports, units.clone()));
        let lb = lines(b.tick(40 * tick, touched, &reports, units));
        assert_eq!(la, lb);
        assert_eq!(a.task, b.task);
        assert_eq!(a.context.sites, b.context.sites);
        assert_eq!(a.context.start_position, b.context.start_position);
        tick += 1;
    }
}

#[test]
fn reports_replace_the_state_of_their_sites() {
    let mut engine = engine_with(&[(4, 100, 100, 10), (8, 300, 100, 20)]);
    let reports = vec![
        SiteReport {
            site_id: 8,
            gold: 77,
            max_mining_rate: 2,
            structure: tower(Owner::Enemy, 250),
        },
        SiteReport { site_id: 4, gold: 55, max_mining_rate: 5, structure: Structure::NoStructure },
    ];
    assert!(engine.tick(12, -1, &reports, queens(50, 50)).is_ok());
    assert_eq!(engine.context.sites[0].id, 4);
    assert_eq!(engine.context.sites[0].position, v(100, 100));
    assert_eq!(engine.context.sites[0].radius, 10);
    assert_eq!(engine.context.sites[0].gold, 55);
    assert_eq!(engine.context.sites[0].max_mining_rate, 5);
    assert_eq!(engine.context.sites[1].gold, 77);
    assert_eq!(engine.context.sites[1].structure, tower(Owner::Enemy, 250));
    assert_eq!(engine.context.gold, 12);
    assert_eq!(engine.context.units.len(), 2);
    // A site that a tick does not report keeps its state.
    assert!(engine.tick(13, -1, &vec![empty(4)], queens(50, 50)).is_ok());
    assert_eq!(engine.context.sites[1].structure, tower(Owner::Enemy, 250));
    assert_eq!(engine.context.sites[0].gold, 200);
    assert_eq!(engine.context.gold, 13);
}

#[test]
fn report_of_an_unknown_site_is_refused() {
    let mut engine = engine_with(&[(0, 110, 100, 10)]);
    let out = engine.tick(5, 0, &vec![empty(0), empty(1)], queens(100, 100));
    assert_eq!(out.err(), Some(EngineError::UnknownSite));
    assert!(!engine.started);
    assert_eq!(engine.context.gold, 0);
    assert_eq!(engine.context.sites[0].gold, -1);
    assert!(engine.context.units.is_empty());
    assert_eq!(engine.task, Task::Wait(WaitTask {}));
}

#[test]
fn observation_without_friendly_queen_is_refused() {
    let mut engine = engine_with(&[(0, 110, 100, 10)]);
    let units = vec![
        unit(1800, 900, Owner::Enemy, UnitType::Queen),
        unit(100, 100, Owner::Friendly, UnitType::Knight),
    ];
    let out = engine.tick(5, 0, &vec![empty(0)], units);
    assert_eq!(out.err(), Some(EngineError::NoFriendlyQueen));
    assert_eq!(engine.context.sites[0].gold, -1);
    let out = engine.tick(5, 0, &vec![empty(0)], vec![]);
    assert_eq!(out.err(), Some(EngineError::NoFriendlyQueen));
}

#[test]
fn unit_off_the_board_is_refused() {
    let mut engine = engine_with(&[(0, 110, 100, 10)]);
    let mut units = queens(100, 100);
    units.push(unit(10_001, 0, Owner::Enemy, UnitType::Knight));
    let out = engine.tick(5, 0, &vec![empty(0)], units);
    assert_eq!(out.err(), Some(EngineError::OutOfBounds));
    assert_eq!(engine.context.sites[0].gold, -1);
}

#[test]
fn unknown_touched_site_is_refused() {
    let mut engine = engine_with(&[(0, 110, 100, 10)]);
    let out = engine.tick(5, 3, &vec![empty(0)], queens(100, 100));
    assert_eq!(out.err(), Some(EngineError::UnknownSite));
    assert_eq!(engine.context.touched_site_id, -1);
    // Any negative id stands for no site.
    assert!(engine.tick(5, -7, &vec![empty(0)], queens(100, 100)).is_ok());
    assert_eq!(engine.context.touched_site_id, -7);
}

#[test]
fn faults_are_named_in_their_order() {
    let mut engine = engine_with(&[(0, 110, 100, 10)]);
    let off_board = vec![unit(20_000, 0, Owner::Enemy, UnitType::Queen)];
    let out = engine.tick(5, 9, &vec![empty(4)], off_board);
    assert_eq!(out.err(), Some(EngineError::UnknownSite));
    let off_board = vec![unit(20_000, 0, Owner::Enemy, UnitType::Queen)];
    let out = engine.tick(5, 9, &vec![empty(0)], off_board);
    assert_eq!(out.err(), Some(EngineError::NoFriendlyQueen));
    let off_board = vec![unit(20_000, 0, Owner::Friendly, UnitType::Queen)];
    let out = engine.tick(5, 9, &vec![empty(0)], off_board);
    assert_eq!(out.err(), Some(EngineError::OutOfBounds));
}

#[test]
fn well_formed_engine_is_recognised() {
    let mut engine = engine_with(&[(0, 110, 100, 10), (1, 300, 100, 10)]);
    assert!(engine.is_well_formed());
    assert!(engine.tick(0, 0, &vec![empty(0), empty(1)], queens(100, 100)).is_ok());
    assert!(engine.is_well_formed());
    engine.task = Task::BuildTower(BuildTowerTask { site_id: 1 });
    assert!(engine.is_well_formed());
    engine.task = Task::BuildTower(BuildTowerTask { site_id: 2 });
    assert!(!engine.is_well_formed());
    engine.task = Task::Wait(WaitTask {});
    assert!(engine.is_well_formed());
    engine.context.sites[1].position = v(0, 10_001);
    assert!(!engine.is_well_formed());
    engine.context.sites[1].position = v(0, 10_000);
    assert!(engine.is_well_formed());
    engine.context.start_position = v(-10_001, 0);
    assert!(!engine.is_well_formed());
}

#[test]
fn tick_output_holds_the_commands() {
    let mut engine = engine_with(&[(0, 110, 100, 10)]);
    let out = engine.tick(0, 0, &vec![empty(0)], queens(100, 100)).unwrap();
    assert_eq!(
        out.queen_command,
        QueenCommand::Build(BuildCommand { site_id: 0, build_type: BuildType::Mine })
    );
    assert_eq!(out.train_command, TrainCommand { site_ids: vec![] });
}
