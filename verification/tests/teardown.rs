use playspace::env_table::EnvTable;
use playspace::session::{Playspace, World};
use playspace::space_path::SpacePath;
use playspace::{aggregate_teardown, ExitError};

fn abs(parts: &[&str]) -> SpacePath {
    SpacePath::new(true, parts.iter().map(|p| (*p).to_owned()).collect())
}

fn fresh_root() -> SpacePath {
    abs(&["tmp", "playspace-root"])
}

fn io_err(msg: &str) -> std::io::Error {
    std::io::Error::new(std::io::ErrorKind::PermissionDenied, msg)
}

fn world_with_cwd() -> World {
    World {
        env: EnvTable::new(),
        cwd: Some(abs(&["home", "user"])),
        lock_held: false,
        scratch: None,
    }
}

#[test]
fn teardown_reports_failed_restore_and_removal() {
    // Both teardown steps fail: both errors are reported together, the
    // environment is still restored, and the lock is still released.
    let mut world = world_with_cwd();
    world.env.set("KEY".to_owned(), "kept".to_owned());

    let space = Playspace::new(&mut world, Ok(fresh_root()), Ok(())).expect("enter");
    world.env.set("KEY".to_owned(), "scribbled".to_owned());

    let verdict = space.exit(&mut world, Err(io_err("cannot chdir")), Err(io_err("cannot remove")));
    match verdict {
        Err(ExitError::WorkingDirChangeFailed { temp_dir: Some(_), .. }) => (),
        _ => panic!("expected both failures to be reported"),
    }
    assert!(!world.lock_held);
    assert_eq!(world.env.get(&"KEY".to_owned()).map(String::as_str), Some("kept"));
}

#[test]
fn teardown_reports_failed_restore_alone() {
    let mut world = world_with_cwd();
    let space = Playspace::new(&mut world, Ok(fresh_root()), Ok(())).expect("enter");

    let verdict = space.exit(&mut world, Err(io_err("cannot chdir")), Ok(()));
    match verdict {
        Err(ExitError::WorkingDirChangeFailed { temp_dir: None, .. }) => (),
        _ => panic!("expected the restore failure alone"),
    }
    assert!(!world.lock_held);
    assert!(world.scratch.is_none());
}

#[test]
fn teardown_reports_failed_removal_alone() {
    let mut world = world_with_cwd();
    let starting = world.cwd.clone().unwrap();
    let space = Playspace::new(&mut world, Ok(fresh_root()), Ok(())).expect("enter");

    let verdict = space.exit(&mut world, Ok(()), Err(io_err("cannot remove")));
    match verdict {
        Err(ExitError::TempDirRemoveFailed { .. }) => (),
        _ => panic!("expected the removal failure alone"),
    }
    assert!(!world.lock_held);
    assert!(world.cwd.unwrap().matches(&starting));
}

#[test]
fn aggregate_keeps_every_error() {
    assert!(matches!(aggregate_teardown(Ok(()), Ok(())), Ok(())));
    assert!(matches!(
        aggregate_teardown(Ok(()), Err(io_err("t"))),
        Err(ExitError::TempDirRemoveFailed { .. })
    ));
    assert!(matches!(
        aggregate_teardown(Err(io_err("w")), Ok(())),
        Err(ExitError::WorkingDirChangeFailed { temp_dir: None, .. })
    ));
    assert!(matches!(
        aggregate_teardown(Err(io_err("w")), Err(io_err("t"))),
        Err(ExitError::WorkingDirChangeFailed { temp_dir: Some(_), .. })
    ));
}

#[test]
fn exit_error_messages() {
    let working_only = ExitError::WorkingDirChangeFailed { source: io_err("w"), temp_dir: None };
    assert_eq!(working_only.message(), "could not change working directory");

    let both = ExitError::WorkingDirChangeFailed {
        source: io_err("w"),
        temp_dir: Some(io_err("t")),
    };
    assert_eq!(
        both.message(),
        "could not change working directory and also encountered an error removing temporary directory"
    );

    let removal = ExitError::TempDirRemoveFailed { source: io_err("t") };
    assert_eq!(removal.message(), "could not remove temporary directory");
}
