use playspace::env_table::EnvTable;
use playspace::session::{Playspace, World};
use playspace::space_path::SpacePath;

const ABSENT: &str = "SOME_ABSENT_ENVVAR";
const PRESENT: &str = "SOME_PRESENT_ENVVAR";
const TRANSIENT: &str = "SOME_TRANSIENT_ENVVAR";

fn vars_before() -> EnvTable {
    let mut env = EnvTable::new();
    env.set(PRESENT.to_owned(), "present_value_before".to_owned());
    env.set(TRANSIENT.to_owned(), "transient_value_before".to_owned());
    let absent = ABSENT.to_owned();
    env.unset(&absent);
    env
}

fn world_before() -> World {
    World {
        env: vars_before(),
        cwd: Some(SpacePath::new(true, vec!["home".to_owned(), "user".to_owned()])),
        lock_held: false,
        scratch: None,
    }
}

fn fresh_root() -> SpacePath {
    SpacePath::new(true, vec!["tmp".to_owned(), "playspace-root".to_owned()])
}

fn assert_envs_inside(world: &World) {
    assert_eq!(
        world.env.get(&ABSENT.to_owned()).map(String::as_str),
        Some("absent_value")
    );
    assert_eq!(
        world.env.get(&PRESENT.to_owned()).map(String::as_str),
        Some("present_value_during")
    );
    assert_eq!(world.env.get(&TRANSIENT.to_owned()), None);
}

fn assert_envs_outside(world: &World) {
    assert_eq!(world.env.get(&ABSENT.to_owned()), None);
    assert_eq!(
        world.env.get(&PRESENT.to_owned()).map(String::as_str),
        Some("present_value_before")
    );
    assert_eq!(
        world.env.get(&TRANSIENT.to_owned()).map(String::as_str),
        Some("transient_value_before")
    );
}

fn overrides() -> Vec<(String, Option<String>)> {
    vec![
        (ABSENT.to_owned(), Some("absent_value".to_owned())),
        (PRESENT.to_owned(), Some("present_value_during".to_owned())),
        (TRANSIENT.to_owned(), None),
    ]
}

#[test]
fn set_reset_var() {
    let mut world = world_before();
    assert_envs_outside(&world);

    let space = Playspace::new(&mut world, Ok(fresh_root()), Ok(())).expect("Failed to create space");

    world.env.set(ABSENT.to_owned(), "absent_value".to_owned());
    world.env.set(PRESENT.to_owned(), "present_value_during".to_owned());
    let transient = TRANSIENT.to_owned();
    world.env.unset(&transient);

    assert_envs_inside(&world);

    space.exit(&mut world, Ok(()), Ok(())).expect("Failed to exit space");

    assert_envs_outside(&world);
}

#[test]
fn multi_vars_syntax() {
    let mut world = world_before();
    assert_envs_outside(&world);

    let space = Playspace::new(&mut world, Ok(fresh_root()), Ok(())).expect("Failed to create space");
    space.set_envs(&mut world, &overrides());

    assert_envs_inside(&world);

    space.exit(&mut world, Ok(()), Ok(())).expect("Failed to exit space");

    assert_envs_outside(&world);
}

#[test]
fn with_envs() {
    let mut world = world_before();
    assert_envs_outside(&world);

    let space = Playspace::with_envs(&mut world, &overrides(), Ok(fresh_root()), Ok(()))
        .expect("Failed to create space");

    assert_envs_inside(&world);

    space.exit(&mut world, Ok(()), Ok(())).expect("Failed to exit space");

    assert_envs_outside(&world);
}

#[test]
fn try_with_envs() {
    let mut world = world_before();
    assert_envs_outside(&world);

    let space = Playspace::try_with_envs(&mut world, &overrides(), Ok(fresh_root()), Ok(()))
        .expect("Failed to create space");

    assert_envs_inside(&world);

    space.exit(&mut world, Ok(()), Ok(())).expect("Failed to exit space");

    assert_envs_outside(&world);
}

#[test]
fn foo_unset_bar_set_restored() {
    // Before entry FOO=old; inside, FOO is unset and BAR=new is set; after
    // teardown FOO=old again and BAR is absent.
    let mut env = EnvTable::new();
    env.set("FOO".to_owned(), "old".to_owned());
    let mut world = World { env, cwd: Some(fresh_root()), lock_held: false, scratch: None };

    let space = Playspace::new(&mut world, Ok(fresh_root()), Ok(())).expect("Failed to create space");

    let foo = "FOO".to_owned();
    world.env.unset(&foo);
    world.env.set("BAR".to_owned(), "new".to_owned());
    assert_eq!(world.env.get(&"FOO".to_owned()), None);
    assert_eq!(world.env.get(&"BAR".to_owned()).map(String::as_str), Some("new"));

    space.exit(&mut world, Ok(()), Ok(())).expect("Failed to exit space");

    assert_eq!(world.env.get(&"FOO".to_owned()).map(String::as_str), Some("old"));
    assert_eq!(world.env.get(&"BAR".to_owned()), None);
    assert_eq!(world.env.len(), 1);
}

#[test]
fn reconcile_exact_actions_restore() {
    // The restore pass computed against a mutated table brings a copy of the
    // mutated table back to the snapshot, whatever was done in between.
    let mut snapshot = EnvTable::new();
    snapshot.set("A".to_owned(), "1".to_owned());
    snapshot.set("B".to_owned(), "2".to_owned());

    let mut mutated = snapshot.snapshot();
    mutated.set("A".to_owned(), "changed".to_owned());
    let b = "B".to_owned();
    mutated.unset(&b);
    mutated.set("C".to_owned(), "3".to_owned());

    let actions = EnvTable::reconcile(&mutated, &snapshot);
    mutated.apply_actions(&actions);

    assert_eq!(mutated.get(&"A".to_owned()).map(String::as_str), Some("1"));
    assert_eq!(mutated.get(&"B".to_owned()).map(String::as_str), Some("2"));
    assert_eq!(mutated.get(&"C".to_owned()), None);
    assert_eq!(mutated.len(), 2);
}
