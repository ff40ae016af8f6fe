use playspace::env_table::EnvTable;
use playspace::session::{Playspace, World};
use playspace::space_path::SpacePath;

fn abs(parts: &[&str]) -> SpacePath {
    SpacePath::new(true, parts.iter().map(|p| (*p).to_owned()).collect())
}

fn rel(parts: &[&str]) -> SpacePath {
    SpacePath::new(false, parts.iter().map(|p| (*p).to_owned()).collect())
}

fn fresh_root() -> SpacePath {
    abs(&["tmp", "playspace-root"])
}

#[test]
fn new_temporary() {
    let starting_dir = abs(&["home", "user", "project"]);
    let mut world = World {
        env: EnvTable::new(),
        cwd: Some(starting_dir.clone()),
        lock_held: false,
        scratch: None,
    };

    let space =
        Playspace::new(&mut world, Ok(fresh_root()), Ok(())).expect("Failed to create space");

    // The working directory moved into the scratch directory.
    let spaced_dir = world.cwd.clone().expect("Invalid spaced dir");
    assert!(spaced_dir.matches(space.directory()));
    assert!(!spaced_dir.matches(&starting_dir));

    // Make a subdirectory and move into it; teardown still restores the
    // starting directory.
    let subdir = space.directory().join(&rel(&["a_subdir"]));
    space
        .create_dir_all(&mut world, &subdir)
        .expect("Failed to create subdirectory");
    world.cwd = Some(subdir);

    space.exit(&mut world, Ok(()), Ok(())).expect("Failed to exit");

    let final_dir = world.cwd.clone().expect("Invalid final dir");
    assert!(final_dir.matches(&starting_dir));
}

#[test]
fn starting_invalid() {
    // The starting working directory cannot be resolved (it was deleted):
    // entry still succeeds, but teardown reports the failed restore while
    // releasing the lock, and a second session can be created afterwards.
    let mut world = World {
        env: EnvTable::new(),
        cwd: None,
        lock_held: false,
        scratch: None,
    };

    let space =
        Playspace::new(&mut world, Ok(fresh_root()), Ok(())).expect("Failed to create space");

    let spaced_dir = world.cwd.clone().expect("Failed to get spaced CWD");
    assert!(spaced_dir.matches(space.directory()));

    let verdict = space.exit(&mut world, Ok(()), Ok(()));
    assert!(verdict.is_err());
    assert!(!world.lock_held);

    let second =
        Playspace::new(&mut world, Ok(fresh_root()), Ok(())).expect("Failed to create second space");
    second.exit(&mut world, Ok(()), Ok(())).ok();
}
