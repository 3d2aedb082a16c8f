use liecs::schedule::initial_stage;
use liecs::world::{COMPONENT_CAPACITY, ENTITY_CAPACITY, STARTUP_CAPACITY, UPDATE_CAPACITY};
use liecs::{Action, AnyComponent, App, Component, Delta, Entity, Moment, No, Query, QueryFilter, Stage};

struct Position;
struct Velocity;

impl Component for Position {
    fn spec_type_tag() -> u32 {
        1
    }

    fn type_tag() -> u32 {
        1
    }
}

impl Component for Velocity {
    fn spec_type_tag() -> u32 {
        2
    }

    fn type_tag() -> u32 {
        2
    }
}

const A: u32 = 1;
const B: u32 = 2;

fn comp(tag: u32) -> AnyComponent {
    AnyComponent::new(tag, 0)
}

fn ids(es: &[&Entity]) -> Vec<u32> {
    es.iter().map(|e| e.id()).collect()
}

fn three_entities() -> App {
    let mut app = App::new();
    app.spawn(&[comp(A)]);
    app.spawn(&[comp(A)]);
    app.spawn(&[comp(B)]);
    app
}

type System = fn(&mut App, &mut Vec<String>, u64);

/// Runs `steps` steps of the loop, handing update systems `elapsed` as the
/// measured time.
fn drive(app: &mut App, systems: &[System], log: &mut Vec<String>, steps: usize, elapsed: u64) {
    let mut stage = initial_stage();
    let mut measured = 0u64;
    for _ in 0..steps {
        let (action, next) = app.step(stage);
        match action {
            Action::Invoke { system, delta } => {
                let d = match delta {
                    Delta::Zero => 0,
                    Delta::Elapsed => measured,
                };
                systems[system](app, log, d);
            }
            Action::StartClock => log.push("clock".to_string()),
            Action::Measure => {
                measured = elapsed;
                log.push("measure".to_string());
            }
        }
        stage = next;
    }
}

#[test]
fn ids_count_up_from_one() {
    let mut app = App::new();
    for _ in 0..5 {
        app.spawn(&[comp(A)]);
    }
    assert_eq!(app.entity_count(), 5);
    for i in 0..5 {
        assert_eq!(app.entity(i).id(), (i + 1) as u32);
    }
}

#[test]
fn store_fills_to_capacity() {
    let mut app = App::default();
    for _ in 0..ENTITY_CAPACITY {
        app.spawn(&[comp(A)]);
    }
    assert_eq!(app.entity_count(), 128);
    assert_eq!(app.entity(127).id(), 128);
}

#[test]
fn spawn_at_capacity_changes_nothing() {
    let mut app = App::new();
    for _ in 0..ENTITY_CAPACITY {
        app.spawn(&[comp(A)]);
    }
    app.spawn(&[comp(B)]);
    assert_eq!(app.entity_count(), 128);
    assert_eq!(app.entity(127).id(), 128);
    assert_eq!(app.query(&Query::new(B)).len(), 0);
    assert_eq!(app.query(&Query::new(A)).len(), 128);
}

#[test]
fn spawn_without_components() {
    let mut app = App::new();
    app.spawn(&[]);
    assert_eq!(app.entity_count(), 1);
    assert_eq!(app.entity(0).component_count(), 0);
    assert!(app.entity(0).id() == 1);
}

#[test]
fn first_components_are_kept() {
    let mut app = App::new();
    let offered: Vec<AnyComponent> = (0..20u32).map(|t| AnyComponent::new(100 + t, t as u64)).collect();
    app.spawn(&offered);
    let e = app.entity(0);
    assert_eq!(e.component_count(), COMPONENT_CAPACITY);
    for i in 0..COMPONENT_CAPACITY {
        assert_eq!(*e.component(i), offered[i]);
    }
}

#[test]
fn twenty_components_past_capacity_never_match() {
    let mut app = App::new();
    let offered: Vec<AnyComponent> = (1..=20u32).map(comp).collect();
    app.spawn(&offered);
    for tag in 1..=16u32 {
        assert_eq!(app.query(&Query::new(tag)).len(), 1);
    }
    for tag in 17..=20u32 {
        assert_eq!(app.query(&Query::new(tag)).len(), 0);
        assert_eq!(app.query(&No::new(tag)).len(), 1);
    }
}

#[test]
fn query_matches_stored_types() {
    let mut app = App::new();
    app.spawn(&[comp(A), comp(B), comp(A)]);
    let e = app.entity(0);
    assert!(Query::new(A).matches(e));
    assert!(Query::new(B).matches(e));
    assert!(!Query::new(3).matches(e));
    assert!(!No::new(A).matches(e));
    assert!(No::new(3).matches(e));
    assert!(e.has(B));
    assert!(!e.has(7));
}

#[test]
fn query_by_component_type() {
    let app = three_entities();
    assert_eq!(ids(&app.query(&Query::of::<Position>())), vec![1, 2]);
    assert_eq!(ids(&app.query(&No::of::<Velocity>())), vec![1, 2]);
    assert_eq!(AnyComponent::of::<Velocity>(9), AnyComponent::new(B, 9));
}

#[test]
fn no_is_complement_of_query() {
    let mut app = App::new();
    app.spawn(&[comp(A), comp(B)]);
    app.spawn(&[comp(B)]);
    app.spawn(&[]);
    app.spawn(&[comp(3), comp(A)]);
    for tag in 0..5u32 {
        let with = ids(&app.query(&Query::new(tag)));
        let without = ids(&app.query(&No::new(tag)));
        assert_eq!(with.len() + without.len(), 4);
        for id in 1..=4u32 {
            assert!(with.contains(&id) != without.contains(&id));
        }
    }
}

#[test]
fn three_entity_queries() {
    let app = three_entities();
    assert_eq!(ids(&app.query(&Query::new(A))), vec![1, 2]);
    assert_eq!(ids(&app.query(&No::new(A))), vec![3]);
}

#[test]
fn query_on_empty_world() {
    let app = App::new();
    assert_eq!(app.query(&Query::new(A)).len(), 0);
    assert_eq!(app.query(&No::new(A)).len(), 0);
}

fn log_startup(tag: &str, log: &mut Vec<String>, delta: u64) {
    log.push(format!("{}:{}", tag, delta));
}

fn s0(_: &mut App, log: &mut Vec<String>, d: u64) {
    log_startup("s1", log, d)
}
fn s1(_: &mut App, log: &mut Vec<String>, d: u64) {
    log_startup("s2", log, d)
}
fn s2(_: &mut App, log: &mut Vec<String>, d: u64) {
    log_startup("s3", log, d)
}
fn s3(_: &mut App, log: &mut Vec<String>, d: u64) {
    log_startup("s4", log, d)
}
fn s4(_: &mut App, log: &mut Vec<String>, d: u64) {
    log_startup("s5", log, d)
}
fn u0(_: &mut App, log: &mut Vec<String>, d: u64) {
    log_startup("u", log, d)
}

#[test]
fn startup_runs_once_in_order_before_update() {
    let systems: Vec<System> = vec![s0, s1, s2, s3, u0];
    let mut app = App::new();
    app.add_system(Moment::Update, 4);
    for i in 0..4 {
        app.add_system(Moment::Startup, i);
    }
    let mut log = Vec::new();
    drive(&mut app, &systems, &mut log, 12, 5);
    assert_eq!(
        log,
        vec!["s1:0", "s2:0", "s3:0", "s4:0", "clock", "measure", "u:5", "measure", "u:5", "measure", "u:5", "measure"]
    );
}

#[test]
fn fifth_startup_system_is_dropped() {
    let systems: Vec<System> = vec![s0, s1, s2, s3, s4];
    let mut app = App::new();
    for i in 0..5 {
        app.add_system(Moment::Startup, i);
    }
    assert_eq!(app.startup_count(), STARTUP_CAPACITY);
    for i in 0..4 {
        assert_eq!(app.startup_system(i), i);
    }
    let mut log = Vec::new();
    drive(&mut app, &systems, &mut log, 5, 0);
    assert_eq!(log, vec!["s1:0", "s2:0", "s3:0", "s4:0", "clock"]);
}

#[test]
fn update_slots_fill_to_capacity() {
    let mut app = App::new();
    for i in 0..20 {
        app.add_system(Moment::Update, i);
    }
    assert_eq!(app.update_count(), UPDATE_CAPACITY);
    assert_eq!(app.update_system(15), 15);
    assert_eq!(app.startup_count(), 0);
}

fn spawn_b(app: &mut App, _: &mut Vec<String>, _: u64) {
    app.spawn(&[comp(B)]);
}

fn count_b(app: &mut App, log: &mut Vec<String>, _: u64) {
    let n = app.query(&Query::new(B)).len();
    log.push(format!("b:{}", n));
}

#[test]
fn startup_spawn_is_seen_by_update() {
    let systems: Vec<System> = vec![spawn_b, count_b];
    let mut app = three_entities();
    app.add_system(Moment::Startup, 0);
    app.add_system(Moment::Update, 1);
    let mut log = Vec::new();
    drive(&mut app, &systems, &mut log, 2, 0);
    assert_eq!(app.entity_count(), 4);
    assert_eq!(app.entity(3).id(), 4);
    drive_from_update(&mut app, &systems, &mut log);
    assert_eq!(log, vec!["clock", "b:2"]);
    let found = app.query(&Query::new(B));
    assert_eq!(ids(&found), vec![3, 4]);
}

fn drive_from_update(app: &mut App, systems: &[System], log: &mut Vec<String>) {
    let (a, next) = app.step(Stage::Measure);
    assert_eq!(a, Action::Measure);
    let (a, _) = app.step(next);
    if let Action::Invoke { system, delta } = a {
        assert_eq!(delta, Delta::Elapsed);
        systems[system](app, log, 0);
    } else {
        panic!("expected an update system");
    }
}

#[test]
fn steps_of_the_loop() {
    let mut app = App::new();
    app.add_system(Moment::Startup, 7);
    app.add_system(Moment::Update, 9);
    assert_eq!(app.step(initial_stage()), (Action::Invoke { system: 7, delta: Delta::Zero }, Stage::Startup(1, 1)));
    assert_eq!(app.step(Stage::Startup(1, 1)), (Action::StartClock, Stage::Measure));
    assert_eq!(app.step(Stage::Measure), (Action::Measure, Stage::Update(0, 1)));
    assert_eq!(app.step(Stage::Update(0, 1)), (Action::Invoke { system: 9, delta: Delta::Elapsed }, Stage::Update(1, 1)));
    assert_eq!(app.step(Stage::Update(1, 1)), (Action::Measure, Stage::Update(0, 1)));
}

#[test]
fn empty_update_phase_keeps_measuring() {
    let app = App::new();
    assert_eq!(app.step(initial_stage()), (Action::StartClock, Stage::Measure));
    assert_eq!(app.step(Stage::Update(0, 0)), (Action::Measure, Stage::Update(0, 0)));
}

fn register_update(app: &mut App, log: &mut Vec<String>, _: u64) {
    if app.update_count() == 1 {
        app.add_system(Moment::Update, 1);
    }
    log.push("reg".to_string());
}

#[test]
fn update_registered_mid_pass_waits_for_next_pass() {
    let systems: Vec<System> = vec![register_update, u0];
    let mut app = App::new();
    app.add_system(Moment::Update, 0);
    let mut log = Vec::new();
    drive(&mut app, &systems, &mut log, 7, 7);
    assert_eq!(log, vec!["clock", "measure", "reg", "measure", "reg", "u:7", "measure"]);
}

fn register_startup(app: &mut App, log: &mut Vec<String>, _: u64) {
    app.add_system(Moment::Startup, 1);
    log.push("reg".to_string());
}

#[test]
fn startup_registered_during_startup_does_not_run() {
    let systems: Vec<System> = vec![register_startup, s1];
    let mut app = App::new();
    app.add_system(Moment::Startup, 0);
    let mut log = Vec::new();
    drive(&mut app, &systems, &mut log, 3, 0);
    assert_eq!(app.startup_count(), 2);
    assert_eq!(log, vec!["reg", "clock", "measure"]);
}

#[test]
fn filters_of_component_types() {
    assert_eq!(Query::of::<Velocity>(), Query::new(2));
    assert_eq!(No::of::<Position>(), No::new(1));
    assert_eq!(AnyComponent::of::<Position>(3).tag, 1);
}

#[test]
fn component_tags_and_payloads() {
    let c = AnyComponent::new(4, 99);
    assert!(c.is(4));
    assert!(!c.is(5));
    assert_eq!(c.payload, 99);
    assert_eq!(Moment::Startup, Moment::Startup);
    assert_ne!(Moment::Startup, Moment::Update);
}
