use playspace::env_table::EnvTable;
use playspace::session::{Playspace, World};
use playspace::space_path::SpacePath;
use playspace::WriteError;

fn plain_world() -> World {
    World {
        env: EnvTable::new(),
        cwd: Some(SpacePath::new(true, vec!["home".to_owned(), "user".to_owned()])),
        lock_held: false,
        scratch: None,
    }
}

fn fresh_root() -> SpacePath {
    SpacePath::new(true, vec!["tmp".to_owned(), "playspace-root".to_owned()])
}

fn rel(parts: &[&str]) -> SpacePath {
    SpacePath::new(false, parts.iter().map(|p| (*p).to_owned()).collect())
}

fn abs(parts: &[&str]) -> SpacePath {
    SpacePath::new(true, parts.iter().map(|p| (*p).to_owned()).collect())
}

#[test]
fn write_files() {
    let mut world = plain_world();
    let space =
        Playspace::new(&mut world, Ok(fresh_root()), Ok(())).expect("Failed to create playspace");

    let file1 = rel(&["file1.txt"]);
    space
        .write_file(&mut world, &file1, "some file1 contents".as_bytes().to_vec())
        .expect("Failed to write file1");
    assert_eq!(
        space.read_file(&world, &file1).map(|v| v.as_slice()),
        Some("some file1 contents".as_bytes())
    );

    let file2 = rel(&["file2.log"]);
    let handle = space
        .create_file(&mut world, &file2)
        .expect("Failed to create file2");
    assert!(handle.starts_with(space.directory()));
    space
        .write_file(&mut world, &file2, "a file2 log message".as_bytes().to_vec())
        .expect("Failed ot write to file2");
    assert_eq!(
        space.read_file(&world, &file2).map(|v| v.as_slice()),
        Some("a file2 log message".as_bytes())
    );

    space.exit(&mut world, Ok(()), Ok(())).expect("Failed to exit");
    assert!(world.scratch.is_none());
}

#[test]
fn good_absolute_file() {
    let mut world = plain_world();
    let space =
        Playspace::new(&mut world, Ok(fresh_root()), Ok(())).expect("Failed to create playspace");

    // An absolute path under the scratch root is accepted.
    let path = space.directory().join(&rel(&["a_file.txt"]));
    space
        .write_file(&mut world, &path, "some file contents".as_bytes().to_vec())
        .unwrap();
    assert_eq!(
        space.read_file(&world, &path).map(|v| v.as_slice()),
        Some("some file contents".as_bytes())
    );

    space.exit(&mut world, Ok(()), Ok(())).expect("Failed to exit");
}

#[test]
fn bad_absolute_file() {
    let mut world = plain_world();
    let space =
        Playspace::new(&mut world, Ok(fresh_root()), Ok(())).expect("Failed to create playspace");

    // An absolute path under the system temp root, but not under the scratch
    // directory, is rejected, and no file is created.
    let path = abs(&["tmp", "playspace", "some", "nonsense", "path.txt"]);
    match space.write_file(&mut world, &path, "nope".as_bytes().to_vec()) {
        Err(WriteError::OutsidePlayspace(_)) => (),
        Err(_) => panic!("Wrong error"),
        Ok(_) => panic!("Should not have worked"),
    }
    assert!(space.read_file(&world, &path).is_none());
}

#[test]
fn good_absolute_dir() {
    let mut world = plain_world();
    let space =
        Playspace::new(&mut world, Ok(fresh_root()), Ok(())).expect("Failed to create playspace");

    let dirs = space.directory().join(&rel(&["some", "new", "dirs"]));
    space
        .create_dir_all(&mut world, &dirs)
        .expect("Failed to create dirs");
    {
        let scratch = world.scratch.as_ref().expect("scratch dir present");
        assert!(scratch.root().matches(space.directory()));
        assert!(scratch.has_dir(&dirs));
        assert!(!scratch.has_dir(&abs(&["somewhere", "else"])));
    }

    let file = dirs.join(&rel(&["a_file.txt"]));
    space
        .write_file(&mut world, &file, "some file contents".as_bytes().to_vec())
        .unwrap();
    assert_eq!(
        space.read_file(&world, &file).map(|v| v.as_slice()),
        Some("some file contents".as_bytes())
    );

    space.exit(&mut world, Ok(()), Ok(())).expect("Failed to exit");
}

#[test]
fn bad_absolute_dir() {
    let mut world = plain_world();
    let space =
        Playspace::new(&mut world, Ok(fresh_root()), Ok(())).expect("Failed to create playspace");

    let path = abs(&["tmp", "playspace", "some", "nonsense", "path"]);
    match space.create_dir_all(&mut world, &path) {
        Err(WriteError::OutsidePlayspace(_)) => (),
        Err(_) => panic!("Wrong error"),
        Ok(_) => panic!("Should not have worked"),
    }
}

#[test]
fn relative_path_resolves_against_root() {
    // A relative path resolves against the scratch root even when the
    // working directory has moved elsewhere inside the session.
    let mut world = plain_world();
    let space =
        Playspace::new(&mut world, Ok(fresh_root()), Ok(())).expect("Failed to create playspace");

    world.cwd = Some(abs(&["somewhere", "else"]));

    let file = rel(&["notes.txt"]);
    let resolved = space.playspace_path(&file).unwrap();
    assert!(resolved.starts_with(space.directory()));
    assert!(!resolved.is_relative());
}

#[test]
fn round_trip_then_gone_after_teardown() {
    // Writing "notes.txt" with contents "hello" and reading it back before
    // teardown yields "hello"; after teardown the scratch directory, and the
    // file with it, no longer exists.
    let mut world = plain_world();
    let space =
        Playspace::new(&mut world, Ok(fresh_root()), Ok(())).expect("Failed to create playspace");

    let file = rel(&["notes.txt"]);
    space
        .write_file(&mut world, &file, "hello".as_bytes().to_vec())
        .unwrap();
    assert_eq!(
        space.read_file(&world, &file).map(|v| v.as_slice()),
        Some("hello".as_bytes())
    );

    space.exit(&mut world, Ok(()), Ok(())).expect("Failed to exit");
    assert!(world.scratch.is_none());
}

#[test]
fn write_then_replace_keeps_latest() {
    let mut world = plain_world();
    let space =
        Playspace::new(&mut world, Ok(fresh_root()), Ok(())).expect("Failed to create playspace");

    let file = rel(&["notes.txt"]);
    space
        .write_file(&mut world, &file, "first".as_bytes().to_vec())
        .unwrap();
    space
        .write_file(&mut world, &file, "second".as_bytes().to_vec())
        .unwrap();
    assert_eq!(
        space.read_file(&world, &file).map(|v| v.as_slice()),
        Some("second".as_bytes())
    );
}
