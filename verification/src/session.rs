//! The guarded session: one process-wide exclusion domain, a snapshot of the
//! ambient state, a scratch directory, and the teardown that restores
//! everything in strict reverse order.
//!
//! The ambient state a session touches is modelled by [`World`]: the
//! environment-variable table, the working directory, the single
//! process-wide lock, and the scratch directory while one exists. Every
//! transition of a session is a verified function on a `World`; the
//! operating-system outcomes that a transition depends on (creating the
//! scratch directory, changing the working directory, removing the
//! directory) enter as `Result` arguments, and the contracts say what holds
//! for every such outcome.

use vstd::prelude::*;

use crate::env_table::{spec_apply_overrides, EnvTable};
use crate::space_path::{PathModel, SpacePath};
use crate::{ExitError, SpaceError, WriteError};

verus! {

/// The mapping that a write log denotes: the latest write to a path wins.
pub open spec fn files_map(s: Seq<(SpacePath, Vec<u8>)>) -> Map<PathModel, Seq<u8>>
    decreases s.len(),
{
    if s.len() == 0 {
        Map::empty()
    } else {
        files_map(s.drop_last()).insert(s.last().0@, s.last().1@)
    }
}

/// A write log denotes a mapping that holds exactly the written paths.
pub proof fn lemma_files_map_contains(s: Seq<(SpacePath, Vec<u8>)>, k: PathModel)
    ensures
        files_map(s).contains_key(k) <==> exists|t: int| 0 <= t < s.len() && s[t].0@ == k,
    decreases s.len(),
{
    if s.len() > 0 {
        lemma_files_map_contains(s.drop_last(), k);
        if s.last().0@ == k {
            assert(s[s.len() - 1].0@ == k);
        } else if files_map(s.drop_last()).contains_key(k) {
            let t = choose|t: int| 0 <= t < s.len() - 1 && s.drop_last()[t].0@ == k;
            assert(s[t].0@ == k);
        } else if exists|t: int| 0 <= t < s.len() && s[t].0@ == k {
            let t = choose|t: int| 0 <= t < s.len() && s[t].0@ == k;
            assert(s.drop_last()[t].0@ == k);
        }
    }
}

/// The mapping a write log denotes holds, at a written path, the value of
/// the last write to it.
pub proof fn lemma_files_map_latest(s: Seq<(SpacePath, Vec<u8>)>, i: int)
    requires
        0 <= i < s.len(),
        forall|t: int| i < t < s.len() ==> s[t].0@ != s[i].0@,
    ensures
        files_map(s).contains_key(s[i].0@),
        files_map(s)[s[i].0@] == s[i].1@,
    decreases s.len(),
{
    if i == s.len() - 1 {
    } else {
        assert(s.last().0@ != s[i].0@);
        assert(forall|t: int|
            i < t < s.len() - 1 ==> s.drop_last()[t] == s[t]);
        assert(s.drop_last()[i] == s[i]);
        lemma_files_map_latest(s.drop_last(), i);
    }
}

/// The scratch directory of an active session: its root and what has been
/// created under it through the session's accessors.
pub struct ScratchDir {
    root: SpacePath,
    files: Vec<(SpacePath, Vec<u8>)>,
    dirs: Vec<SpacePath>,
}

impl ScratchDir {
    /// The root path of the directory.
    pub closed spec fn root_view(&self) -> PathModel {
        self.root@
    }

    /// The files under the directory, by resolved path.
    pub closed spec fn files_view(&self) -> Map<PathModel, Seq<u8>> {
        files_map(self.files@)
    }

    /// The directories created under the root, in creation order.
    pub closed spec fn dirs_view(&self) -> Seq<PathModel> {
        self.dirs@.map_values(|p: SpacePath| p@)
    }

    /// A freshly created scratch directory: empty.
    pub fn create(root: SpacePath) -> (sd: ScratchDir)
        ensures
            sd.root_view() == root@,
            sd.files_view() == Map::<PathModel, Seq<u8>>::empty(),
            sd.dirs_view() == Seq::<PathModel>::empty(),
    {
        let sd = ScratchDir { root, files: Vec::new(), dirs: Vec::new() };
        proof {
            assert(sd.dirs_view() =~= Seq::<PathModel>::empty());
        }
        sd
    }

    /// The root path.
    pub fn root(&self) -> (r: &SpacePath)
        ensures
            r@ == self.root_view(),
    {
        &self.root
    }

    /// Record a file with the given contents at a resolved path; a later
    /// write to the same path replaces the earlier one.
    pub fn write(&mut self, path: SpacePath, contents: Vec<u8>)
        ensures
            final(self).root_view() == old(self).root_view(),
            final(self).dirs_view() == old(self).dirs_view(),
            final(self).files_view() == old(self).files_view().insert(path@, contents@),
    {
        proof {
            let s = self.files@;
            let p = (path, contents);
            assert(s.push(p).drop_last() =~= s);
            assert(s.push(p).last() == p);
        }
        self.files.push((path, contents));
    }

    /// The contents of the file at a resolved path, if one was written.
    pub fn read(&self, path: &SpacePath) -> (r: Option<&Vec<u8>>)
        ensures
            (match r {
                Some(v) => self.files_view().contains_key(path@)
                    && v@ == self.files_view()[path@],
                None => !self.files_view().contains_key(path@),
            }),
    {
        let mut i: usize = self.files.len();
        while i > 0
            invariant
                i <= self.files@.len(),
                forall|t: int| i <= t < self.files@.len() ==> self.files@[t].0@ != path@,
            decreases i,
        {
            i -= 1;
            if self.files[i].0.matches(path) {
                proof {
                    lemma_files_map_latest(self.files@, i as int);
                }
                return Some(&self.files[i].1);
            }
        }
        proof {
            lemma_files_map_contains(self.files@, path@);
        }
        None
    }

    /// Record a directory created at a resolved path.
    pub fn add_dir(&mut self, path: SpacePath)
        ensures
            final(self).root_view() == old(self).root_view(),
            final(self).files_view() == old(self).files_view(),
            final(self).dirs_view() == old(self).dirs_view().push(path@),
    {
        self.dirs.push(path);
        proof {
            assert(final(self).dirs_view() =~= old(self).dirs_view().push(
                final(self).dirs@.last()@,
            ));
        }
    }

    /// True when a directory was created at the given resolved path.
    pub fn has_dir(&self, path: &SpacePath) -> (r: bool)
        ensures
            r == self.dirs_view().contains(path@),
    {
        let mut i: usize = 0;
        while i < self.dirs.len()
            invariant
                i <= self.dirs@.len(),
                forall|t: int| 0 <= t < i ==> self.dirs@[t]@ != path@,
            decreases self.dirs@.len() - i,
        {
            if self.dirs[i].matches(path) {
                proof {
                    assert(self.dirs_view()[i as int] == path@);
                }
                return true;
            }
            i += 1;
        }
        proof {
            if self.dirs_view().contains(path@) {
                let t = choose|t: int|
                    0 <= t < self.dirs_view().len() && self.dirs_view()[t] == path@;
                assert(self.dirs@[t]@ == path@);
            }
        }
        false
    }
}

/// Proof that the caller holds the process-wide lock. Only this module can
/// mint one; it is handed out by an acquisition and consumed, exactly once,
/// by the release.
pub struct ExclusionToken(());

/// The ambient process state that a session touches: the environment table,
/// the working directory, the single process-wide lock, and the scratch
/// directory of the active session, when there is one.
pub struct World {
    /// The process environment-variable table.
    pub env: EnvTable,
    /// The working directory, when it resolves to one.
    pub cwd: Option<SpacePath>,
    /// Whether the process-wide lock is held.
    pub lock_held: bool,
    /// The scratch directory of the active session.
    pub scratch: Option<ScratchDir>,
}

impl World {
    /// The working directory as a path value.
    pub open spec fn cwd_view(&self) -> Option<PathModel> {
        match self.cwd {
            Some(p) => Some(p@),
            None => None,
        }
    }
}

/// Acquire the lock by blocking: the calling thread is suspended until the
/// lock is free, so the call completes only in a state where it is free —
/// that is what the precondition states. The wait is indefinite; a caller
/// that already holds the lock on the same thread deadlocks.
pub fn acquire_blocking(world: &mut World) -> (t: ExclusionToken)
    requires
        !old(world).lock_held,
    ensures
        final(world).lock_held,
        final(world).env == old(world).env,
        final(world).cwd == old(world).cwd,
        final(world).scratch == old(world).scratch,
{
    world.lock_held = true;
    ExclusionToken(())
}

/// Acquire the lock cooperatively: the calling task is suspended, letting
/// other tasks of the same thread run, and resumes exactly when the lock
/// becomes free. The same exclusion domain as the blocking form, so the
/// contract is the same: the call completes only in a state where the lock
/// is free.
pub fn acquire_cooperative(world: &mut World) -> (t: ExclusionToken)
    requires
        !old(world).lock_held,
    ensures
        final(world).lock_held,
        final(world).env == old(world).env,
        final(world).cwd == old(world).cwd,
        final(world).scratch == old(world).scratch,
{
    world.lock_held = true;
    ExclusionToken(())
}

/// Try to acquire the lock without waiting: `None` exactly when it is
/// already held, in which case nothing changes.
pub fn try_acquire(world: &mut World) -> (t: Option<ExclusionToken>)
    ensures
        old(world).lock_held ==> t is None && *final(world) == *old(world),
        !old(world).lock_held ==> t is Some && final(world).lock_held,
        final(world).env == old(world).env,
        final(world).cwd == old(world).cwd,
        final(world).scratch == old(world).scratch,
{
    if world.lock_held {
        None
    } else {
        world.lock_held = true;
        Some(ExclusionToken(()))
    }
}

/// Release the lock, consuming the token. Exactly one token is outstanding
/// while the lock is held, so release frees the domain for the next
/// acquirer.
pub fn release(world: &mut World, token: ExclusionToken)
    ensures
        !final(world).lock_held,
        final(world).env == old(world).env,
        final(world).cwd == old(world).cwd,
        final(world).scratch == old(world).scratch,
{
    let ExclusionToken(_) = token;
    world.lock_held = false;
}

/// Relies on std::io::Error::new: builds the error reported when teardown
/// has no previous working directory to restore.
#[verifier::external_body]
fn no_previous_dir_error() -> std::io::Error {
    std::io::Error::new(std::io::ErrorKind::Other, "no previous working directory")
}

/// Where a requested path leads, relative to the scratch root: a relative
/// path is resolved against the root, wherever the working directory points;
/// an absolute path stands only if the root is an ancestor of it; anything
/// else is outside the scratch directory.
pub open spec fn spec_resolve(root: PathModel, p: PathModel) -> Option<PathModel> {
    if !p.absolute {
        Some((PathModel { absolute: root.absolute, parts: root.parts + p.parts }))
    } else if p.starts_with(root) {
        Some(p)
    } else {
        None
    }
}

/// The containment verdict on an absolute path, given what the filesystem
/// answered: `canonical_ancestor` is the canonical form of the nearest
/// ancestor of `path` that exists on disk (`None` when no ancestor exists),
/// and `canonical_root` is the canonical form of the scratch root. The path
/// passes exactly when such an ancestor was found and the root is one of its
/// ancestors.
pub fn containment_verdict(
    path: &SpacePath,
    canonical_ancestor: Option<&SpacePath>,
    canonical_root: &SpacePath,
) -> (r: Result<SpacePath, WriteError>)
    ensures
        (match canonical_ancestor {
            Some(ca) => {
                if ca@.starts_with(canonical_root@) {
                    r matches Ok(q) && q@ == path@
                } else {
                    r matches Err(WriteError::OutsidePlayspace(q)) && q@ == path@
                }
            },
            None => r matches Err(WriteError::OutsidePlayspace(q)) && q@ == path@,
        }),
{
    match canonical_ancestor {
        Some(ca) => {
            if ca.starts_with(canonical_root) {
                Ok(path.clone())
            } else {
                Err(WriteError::OutsidePlayspace(path.clone()))
            }
        },
        None => Err(WriteError::OutsidePlayspace(path.clone())),
    }
}

/// What holds after an entry attempt that found the lock free, for every
/// operating-system outcome. `env_after` is the environment table the entry
/// leaves behind (entry alone leaves it untouched; entry with overrides
/// applies them after the snapshot).
pub open spec fn entry_outcome(
    pre: World,
    post: World,
    tempdir_result: Result<SpacePath, std::io::Error>,
    chdir_result: Result<(), std::io::Error>,
    r: Result<Playspace, SpaceError>,
    env_after: Map<Seq<char>, Seq<char>>,
) -> bool {
    match r {
        Ok(ps) => {
            &&& chdir_result is Ok
            &&& (tempdir_result matches Ok(d) && ps.dir_view() == d@)
            &&& ps.snapshot_view() == pre.env@
            &&& ps.saved_dir_view() == pre.cwd_view()
            &&& post.lock_held
            &&& post.env@ == env_after
            &&& post.cwd_view() == Some(ps.dir_view())
            &&& (post.scratch matches Some(sd) && sd.root_view() == ps.dir_view()
                && sd.files_view() == Map::<PathModel, Seq<u8>>::empty()
                && sd.dirs_view() == Seq::<PathModel>::empty())
        },
        Err(e) => {
            &&& !post.lock_held
            &&& post.env == pre.env
            &&& post.cwd == pre.cwd
            &&& post.scratch == pre.scratch
            &&& (match (tempdir_result, chdir_result) {
                (Err(io), _) => e == SpaceError::StdIo(io),
                (Ok(_), Err(io)) => e == SpaceError::StdIo(io),
                (Ok(_), Ok(_)) => false,
            })
        },
    }
}

/// What holds after a non-blocking entry attempt, for every operating-system
/// outcome: while a session is active the attempt fails at once with
/// `AlreadyInSpace` and touches nothing; otherwise it behaves as an entry
/// that found the lock free.
pub open spec fn try_entry_outcome(
    pre: World,
    post: World,
    tempdir_result: Result<SpacePath, std::io::Error>,
    chdir_result: Result<(), std::io::Error>,
    r: Result<Playspace, SpaceError>,
    env_after: Map<Seq<char>, Seq<char>>,
) -> bool {
    if pre.lock_held {
        r == Err::<Playspace, SpaceError>(SpaceError::AlreadyInSpace) && post == pre
    } else {
        entry_outcome(pre, post, tempdir_result, chdir_result, r, env_after)
    }
}

/// What holds after a teardown, for every operating-system outcome: the
/// environment table is restored exactly, every step is attempted, every
/// error is reported, and the lock is released last, unconditionally.
pub open spec fn teardown_outcome(
    ps: Playspace,
    pre: World,
    post: World,
    chdir_back: Result<(), std::io::Error>,
    remove_result: Result<(), std::io::Error>,
    r: Result<(), ExitError>,
) -> bool {
    &&& post.env@ == ps.snapshot_view()
    &&& !post.lock_held
    &&& (remove_result is Ok ==> post.scratch is None)
    &&& (remove_result is Err ==> post.scratch == pre.scratch)
    &&& (match (ps.saved_dir_view(), chdir_back) {
        (Some(d), Ok(_)) => post.cwd_view() == Some(d),
        (Some(_), Err(_)) => post.cwd == pre.cwd,
        (None, _) => post.cwd == pre.cwd,
    })
    &&& (match (ps.saved_dir_view(), chdir_back, remove_result) {
        (Some(_), Ok(_), Ok(_)) => r == Ok::<(), ExitError>(()),
        (Some(_), Ok(_), Err(t)) => r == Err::<(), ExitError>(
            (ExitError::TempDirRemoveFailed { source: t }),
        ),
        (Some(_), Err(w), rr) => r == Err::<(), ExitError>(
            (ExitError::WorkingDirChangeFailed { source: w, temp_dir: crate::spec_err_of(rr) }),
        ),
        (None, _, rr) => r matches Err(ExitError::WorkingDirChangeFailed { source: _, temp_dir: t })
            && t == crate::spec_err_of(rr),
    })
}

/// One guarded session: the snapshot taken at entry, the scratch directory
/// root, and the exclusion token, held until teardown.
pub struct Playspace {
    saved_environment: EnvTable,
    saved_current_dir: Option<SpacePath>,
    directory: SpacePath,
    token: ExclusionToken,
}

impl Playspace {
    /// The environment table captured when the session was entered.
    pub closed spec fn snapshot_view(&self) -> Map<Seq<char>, Seq<char>> {
        self.saved_environment@
    }

    /// The working directory captured when the session was entered, if it
    /// resolved to one.
    pub closed spec fn saved_dir_view(&self) -> Option<PathModel> {
        match self.saved_current_dir {
            Some(p) => Some(p@),
            None => None,
        }
    }

    /// The scratch directory root.
    pub closed spec fn dir_view(&self) -> PathModel {
        self.directory@
    }

    /// True when this session is the one whose scratch directory the world
    /// holds.
    pub open spec fn active_in(&self, w: World) -> bool {
        &&& w.lock_held
        &&& (w.scratch matches Some(sd) && sd.root_view() == self.dir_view())
    }

    /// Enter a session, blocking until the lock is free (the precondition:
    /// the call completes only in a state where it is). `tempdir_result` is
    /// the operating system's answer to creating the scratch directory, and
    /// `chdir_result` its answer to moving into it; on either failure the
    /// lock is released and nothing else is touched.
    pub fn new(
        world: &mut World,
        tempdir_result: Result<SpacePath, std::io::Error>,
        chdir_result: Result<(), std::io::Error>,
    ) -> (r: Result<Playspace, SpaceError>)
        requires
            !old(world).lock_held,
        ensures
            entry_outcome(
                *old(world),
                *final(world),
                tempdir_result,
                chdir_result,
                r,
                old(world).env@,
            ),
    {
        let token = acquire_blocking(world);
        Self::from_lock(world, token, tempdir_result, chdir_result)
    }

    /// Enter a session without waiting: if the lock is held, fail at once
    /// with `AlreadyInSpace` and touch nothing.
    pub fn try_new(
        world: &mut World,
        tempdir_result: Result<SpacePath, std::io::Error>,
        chdir_result: Result<(), std::io::Error>,
    ) -> (r: Result<Playspace, SpaceError>)
        ensures
            try_entry_outcome(
                *old(world),
                *final(world),
                tempdir_result,
                chdir_result,
                r,
                old(world).env@,
            ),
    {
        match try_acquire(world) {
            Some(token) => Self::from_lock(world, token, tempdir_result, chdir_result),
            None => Err(SpaceError::AlreadyInSpace),
        }
    }

    /// The entry sequence once the lock is held: snapshot the environment
    /// and the working directory, then install the scratch directory and
    /// move into it; on any failure release the lock and leave the rest
    /// untouched.
    fn from_lock(
        world: &mut World,
        token: ExclusionToken,
        tempdir_result: Result<SpacePath, std::io::Error>,
        chdir_result: Result<(), std::io::Error>,
    ) -> (r: Result<Playspace, SpaceError>)
        requires
            old(world).lock_held,
        ensures
            entry_outcome(
                *old(world),
                *final(world),
                tempdir_result,
                chdir_result,
                r,
                old(world).env@,
            ),
    {
        let saved_environment = world.env.snapshot();
        let saved_current_dir = match &world.cwd {
            Some(p) => Some(p.clone()),
            None => None,
        };
        let directory = match tempdir_result {
            Ok(d) => d,
            Err(io) => {
                release(world, token);
                return Err(SpaceError::StdIo(io));
            },
        };
        match chdir_result {
            Ok(_) => {},
            Err(io) => {
                release(world, token);
                return Err(SpaceError::StdIo(io));
            },
        }
        world.cwd = Some(directory.clone());
        world.scratch = Some(ScratchDir::create(directory.clone()));
        Ok(Playspace { saved_environment, saved_current_dir, directory, token })
    }

    /// Enter (blocking) and then apply a batch of set-or-unset overrides;
    /// the snapshot is taken before the overrides, so teardown undoes them.
    pub fn with_envs(
        world: &mut World,
        vars: &Vec<(String, Option<String>)>,
        tempdir_result: Result<SpacePath, std::io::Error>,
        chdir_result: Result<(), std::io::Error>,
    ) -> (r: Result<Playspace, SpaceError>)
        requires
            !old(world).lock_held,
        ensures
            entry_outcome(
                *old(world),
                *final(world),
                tempdir_result,
                chdir_result,
                r,
                spec_apply_overrides(old(world).env@, vars@),
            ),
    {
        match Self::new(world, tempdir_result, chdir_result) {
            Ok(space) => {
                space.set_envs(world, vars);
                Ok(space)
            },
            Err(e) => Err(e),
        }
    }

    /// Enter without waiting and then apply a batch of set-or-unset
    /// overrides.
    pub fn try_with_envs(
        world: &mut World,
        vars: &Vec<(String, Option<String>)>,
        tempdir_result: Result<SpacePath, std::io::Error>,
        chdir_result: Result<(), std::io::Error>,
    ) -> (r: Result<Playspace, SpaceError>)
        ensures
            try_entry_outcome(
                *old(world),
                *final(world),
                tempdir_result,
                chdir_result,
                r,
                spec_apply_overrides(old(world).env@, vars@),
            ),
    {
        match Self::try_new(world, tempdir_result, chdir_result) {
            Ok(space) => {
                space.set_envs(world, vars);
                Ok(space)
            },
            Err(e) => Err(e),
        }
    }

    /// The scratch directory root of this session.
    pub fn directory(&self) -> (r: &SpacePath)
        ensures
            r@ == self.dir_view(),
    {
        &self.directory
    }

    /// Set or unset several environment variables: for each pair in order,
    /// `(name, Some(value))` sets the variable and `(name, None)` unsets it.
    pub fn set_envs(&self, world: &mut World, vars: &Vec<(String, Option<String>)>)
        ensures
            final(world).env@ == spec_apply_overrides(old(world).env@, vars@),
            final(world).cwd == old(world).cwd,
            final(world).lock_held == old(world).lock_held,
            final(world).scratch == old(world).scratch,
    {
        world.env.apply_overrides(vars);
    }

    /// Where a requested path leads: a relative path resolves against the
    /// scratch root, wherever the working directory points; an absolute path
    /// is accepted only when the root is one of its ancestors, and is
    /// otherwise rejected, carrying the request for diagnostics.
    pub fn playspace_path(&self, path: &SpacePath) -> (r: Result<SpacePath, WriteError>)
        ensures
            (match r {
                Ok(q) => spec_resolve(self.dir_view(), path@) == Some(q@),
                Err(WriteError::OutsidePlayspace(q)) => spec_resolve(self.dir_view(), path@)
                    is None && q@ == path@,
                Err(WriteError::StdIo(_)) => false,
            }),
    {
        if path.is_relative() {
            Ok(self.directory.join(path))
        } else if path.starts_with(&self.directory) {
            Ok(path.clone())
        } else {
            Err(WriteError::OutsidePlayspace(path.clone()))
        }
    }

    /// Write a file into the scratch directory. The path is routed through
    /// the containment check; a rejected path creates nothing.
    pub fn write_file(&self, world: &mut World, path: &SpacePath, contents: Vec<u8>) -> (r:
        Result<(), WriteError>)
        requires
            self.active_in(*old(world)),
        ensures
            final(world).env == old(world).env,
            final(world).cwd == old(world).cwd,
            final(world).lock_held == old(world).lock_held,
            (match spec_resolve(self.dir_view(), path@) {
                Some(q) => {
                    &&& r == Ok::<(), WriteError>(())
                    &&& (final(world).scratch matches Some(sd) && old(world).scratch matches Some(
                        sd0,
                    ) && sd.root_view() == sd0.root_view() && sd.dirs_view() == sd0.dirs_view()
                        && sd.files_view() == sd0.files_view().insert(q, contents@))
                },
                None => {
                    &&& (r matches Err(WriteError::OutsidePlayspace(p)) && p@ == path@)
                    &&& final(world).scratch == old(world).scratch
                },
            }),
    {
        let resolved = match self.playspace_path(path) {
            Ok(q) => q,
            Err(e) => {
                return Err(e);
            },
        };
        match &mut world.scratch {
            Some(sd) => {
                sd.write(resolved, contents);
                Ok(())
            },
            None => {
                proof {
                    assert(false);
                }
                Err(WriteError::OutsidePlayspace(resolved))
            },
        }
    }

    /// Create an empty file in the scratch directory, yielding its resolved
    /// path. The path is routed through the containment check.
    pub fn create_file(&self, world: &mut World, path: &SpacePath) -> (r: Result<
        SpacePath,
        WriteError,
    >)
        requires
            self.active_in(*old(world)),
        ensures
            final(world).env == old(world).env,
            final(world).cwd == old(world).cwd,
            final(world).lock_held == old(world).lock_held,
            (match spec_resolve(self.dir_view(), path@) {
                Some(q) => {
                    &&& (r matches Ok(p) && p@ == q)
                    &&& (final(world).scratch matches Some(sd) && old(world).scratch matches Some(
                        sd0,
                    ) && sd.root_view() == sd0.root_view() && sd.dirs_view() == sd0.dirs_view()
                        && sd.files_view() == sd0.files_view().insert(q, Seq::<u8>::empty()))
                },
                None => {
                    &&& (r matches Err(WriteError::OutsidePlayspace(p)) && p@ == path@)
                    &&& final(world).scratch == old(world).scratch
                },
            }),
    {
        let resolved = match self.playspace_path(path) {
            Ok(q) => q,
            Err(e) => {
                return Err(e);
            },
        };
        let handle = resolved.clone();
        match &mut world.scratch {
            Some(sd) => {
                let contents: Vec<u8> = Vec::new();
                sd.write(resolved, contents);
                Ok(handle)
            },
            None => {
                proof {
                    assert(false);
                }
                Err(WriteError::OutsidePlayspace(resolved))
            },
        }
    }

    /// Create a directory in the scratch directory. The path is routed
    /// through the containment check.
    pub fn create_dir_all(&self, world: &mut World, path: &SpacePath) -> (r: Result<
        (),
        WriteError,
    >)
        requires
            self.active_in(*old(world)),
        ensures
            final(world).env == old(world).env,
            final(world).cwd == old(world).cwd,
            final(world).lock_held == old(world).lock_held,
            (match spec_resolve(self.dir_view(), path@) {
                Some(q) => {
                    &&& r == Ok::<(), WriteError>(())
                    &&& (final(world).scratch matches Some(sd) && old(world).scratch matches Some(
                        sd0,
                    ) && sd.root_view() == sd0.root_view() && sd.files_view() == sd0.files_view()
                        && sd.dirs_view() == sd0.dirs_view().push(q))
                },
                None => {
                    &&& (r matches Err(WriteError::OutsidePlayspace(p)) && p@ == path@)
                    &&& final(world).scratch == old(world).scratch
                },
            }),
    {
        let resolved = match self.playspace_path(path) {
            Ok(q) => q,
            Err(e) => {
                return Err(e);
            },
        };
        match &mut world.scratch {
            Some(sd) => {
                sd.add_dir(resolved);
                Ok(())
            },
            None => {
                proof {
                    assert(false);
                }
                Err(WriteError::OutsidePlayspace(resolved))
            },
        }
    }

    /// The contents of a file written through this session, or `None` when
    /// the path was never written or is rejected by the containment check.
    pub fn read_file<'a>(&self, world: &'a World, path: &SpacePath) -> (r: Option<&'a Vec<u8>>)
        requires
            self.active_in(*world),
        ensures
            (match spec_resolve(self.dir_view(), path@) {
                Some(q) => (match r {
                    Some(v) => world.scratch matches Some(sd) && sd.files_view().contains_key(q)
                        && v@ == sd.files_view()[q],
                    None => world.scratch matches Some(sd) && !sd.files_view().contains_key(q),
                }),
                None => r is None,
            }),
    {
        let resolved = match self.playspace_path(path) {
            Ok(q) => q,
            Err(_) => {
                return None;
            },
        };
        match &world.scratch {
            Some(sd) => sd.read(&resolved),
            None => {
                proof {
                    assert(false);
                }
                None
            },
        }
    }

    /// Leave the session: restore the environment table exactly, attempt to
    /// restore the working directory, attempt to remove the scratch
    /// directory — both attempted whatever happened before — and release the
    /// lock last, unconditionally. Every error encountered is reported.
    /// `chdir_back` is the operating system's answer to restoring the saved
    /// working directory, `remove_result` its answer to removing the scratch
    /// directory.
    pub fn exit(
        self,
        world: &mut World,
        chdir_back: Result<(), std::io::Error>,
        remove_result: Result<(), std::io::Error>,
    ) -> (r: Result<(), ExitError>)
        ensures
            teardown_outcome(self, *old(world), *final(world), chdir_back, remove_result, r),
    {
        let Playspace { saved_environment, saved_current_dir, token, .. } = self;
        world.env.restore(&saved_environment);
        let working_dir_result: Result<(), std::io::Error> = match saved_current_dir {
            Some(d) => match chdir_back {
                Ok(_) => {
                    world.cwd = Some(d);
                    Ok(())
                },
                Err(e) => Err(e),
            },
            None => Err(no_previous_dir_error()),
        };
        let temp_dir_result: Result<(), std::io::Error> = match remove_result {
            Ok(_) => {
                world.scratch = None;
                Ok(())
            },
            Err(e) => Err(e),
        };
        release(world, token);
        crate::aggregate_teardown(working_dir_result, temp_dir_result)
    }

    /// The scoped form: enter a session (blocking), run the given unit of
    /// work with it, tear the session down, and return the work's result
    /// together with any teardown error. Whatever the work did to the world,
    /// the environment table leaves this call exactly as it entered and the
    /// lock is free again.
    pub fn scoped<R, F: FnOnce(&Playspace, &mut World) -> R>(
        world: &mut World,
        tempdir_result: Result<SpacePath, std::io::Error>,
        chdir_result: Result<(), std::io::Error>,
        chdir_back: Result<(), std::io::Error>,
        remove_result: Result<(), std::io::Error>,
        f: F,
    ) -> (r: Result<R, SpaceError>)
        requires
            !old(world).lock_held,
            forall|ps: &Playspace, w: &mut World| #[trigger] call_requires(f, (ps, w)),
        ensures
            scoped_outcome(
                *old(world),
                *final(world),
                tempdir_result,
                chdir_result,
                chdir_back,
                remove_result,
                spec_space_err(r),
                r is Ok,
            ),
    {
        let space = match Self::new(world, tempdir_result, chdir_result) {
            Ok(s) => s,
            Err(e) => {
                return Err(e);
            },
        };
        let out = f(&space, world);
        match space.exit(world, chdir_back, remove_result) {
            Ok(_) => Ok(out),
            Err(e) => Err(SpaceError::ExitError(e)),
        }
    }

    /// The scoped form without waiting: exactly as `scoped`, but an already
    /// active session is an immediate `AlreadyInSpace` error and nothing is
    /// touched.
    pub fn try_scoped<R, F: FnOnce(&Playspace, &mut World) -> R>(
        world: &mut World,
        tempdir_result: Result<SpacePath, std::io::Error>,
        chdir_result: Result<(), std::io::Error>,
        chdir_back: Result<(), std::io::Error>,
        remove_result: Result<(), std::io::Error>,
        f: F,
    ) -> (r: Result<R, SpaceError>)
        requires
            forall|ps: &Playspace, w: &mut World| #[trigger] call_requires(f, (ps, w)),
        ensures
            old(world).lock_held ==> spec_space_err(r) == Some(SpaceError::AlreadyInSpace)
                && *final(world) == *old(world),
            !old(world).lock_held ==> scoped_outcome(
                *old(world),
                *final(world),
                tempdir_result,
                chdir_result,
                chdir_back,
                remove_result,
                spec_space_err(r),
                r is Ok,
            ),
    {
        let space = match Self::try_new(world, tempdir_result, chdir_result) {
            Ok(s) => s,
            Err(e) => {
                return Err(e);
            },
        };
        let out = f(&space, world);
        match space.exit(world, chdir_back, remove_result) {
            Ok(_) => Ok(out),
            Err(e) => Err(SpaceError::ExitError(e)),
        }
    }

    /// The scoped form with a batch of set-or-unset overrides applied right
    /// after entry; teardown undoes them like any other change.
    pub fn scoped_with_envs<R, F: FnOnce(&Playspace, &mut World) -> R>(
        world: &mut World,
        vars: &Vec<(String, Option<String>)>,
        tempdir_result: Result<SpacePath, std::io::Error>,
        chdir_result: Result<(), std::io::Error>,
        chdir_back: Result<(), std::io::Error>,
        remove_result: Result<(), std::io::Error>,
        f: F,
    ) -> (r: Result<R, SpaceError>)
        requires
            !old(world).lock_held,
            forall|ps: &Playspace, w: &mut World| #[trigger] call_requires(f, (ps, w)),
        ensures
            scoped_outcome(
                *old(world),
                *final(world),
                tempdir_result,
                chdir_result,
                chdir_back,
                remove_result,
                spec_space_err(r),
                r is Ok,
            ),
    {
        let space = match Self::with_envs(world, vars, tempdir_result, chdir_result) {
            Ok(s) => s,
            Err(e) => {
                return Err(e);
            },
        };
        let out = f(&space, world);
        match space.exit(world, chdir_back, remove_result) {
            Ok(_) => Ok(out),
            Err(e) => Err(SpaceError::ExitError(e)),
        }
    }

    /// The scoped form for callers that do not care about teardown errors:
    /// the work's result is returned alone and the teardown verdict is
    /// discarded, as when a session object is simply dropped. The
    /// preconditions rule out the setup failures on which `scoped` would
    /// report an error.
    pub fn expect_scoped<R, F: FnOnce(&Playspace, &mut World) -> R>(
        world: &mut World,
        tempdir_result: Result<SpacePath, std::io::Error>,
        chdir_result: Result<(), std::io::Error>,
        chdir_back: Result<(), std::io::Error>,
        remove_result: Result<(), std::io::Error>,
        f: F,
    ) -> (out: R)
        requires
            !old(world).lock_held,
            tempdir_result is Ok,
            chdir_result is Ok,
            forall|ps: &Playspace, w: &mut World| #[trigger] call_requires(f, (ps, w)),
        ensures
            final(world).env@ == old(world).env@,
            !final(world).lock_held,
            remove_result is Ok ==> final(world).scratch is None,
    {
        let space = match Self::new(world, tempdir_result, chdir_result) {
            Ok(s) => s,
            Err(_) => vstd::pervasive::unreached(),
        };
        let out = f(&space, world);
        let _verdict = space.exit(world, chdir_back, remove_result);
        out
    }
}

/// The `SpaceError` that a scoped run reported, if any.
pub open spec fn spec_space_err<R>(r: Result<R, SpaceError>) -> Option<SpaceError> {
    match r {
        Ok(_) => None,
        Err(e) => Some(e),
    }
}

/// What holds after a scoped run that found the lock free, for every
/// operating-system outcome and every unit of work: the environment table
/// comes back exactly, the lock is free again, and the verdict reports
/// every setup or teardown failure. `err` is the error the run reported and
/// `ok` whether it returned the work's result.
pub open spec fn scoped_outcome(
    pre: World,
    post: World,
    tempdir_result: Result<SpacePath, std::io::Error>,
    chdir_result: Result<(), std::io::Error>,
    chdir_back: Result<(), std::io::Error>,
    remove_result: Result<(), std::io::Error>,
    err: Option<SpaceError>,
    ok: bool,
) -> bool {
    &&& post.env@ == pre.env@
    &&& !post.lock_held
    &&& ok == (err is None)
    &&& (match tempdir_result {
        Err(io) => err == Some(SpaceError::StdIo(io)) && post.cwd == pre.cwd && post.scratch
            == pre.scratch,
        Ok(_) => match chdir_result {
            Err(io) => err == Some(SpaceError::StdIo(io)) && post.cwd == pre.cwd && post.scratch
                == pre.scratch,
            Ok(_) => {
                &&& (remove_result is Ok ==> post.scratch is None)
                &&& (match (pre.cwd_view(), chdir_back, remove_result) {
                    (Some(d), Ok(_), Ok(_)) => err is None && post.cwd_view() == Some(d),
                    (Some(d), Ok(_), Err(t)) => err == Some(SpaceError::ExitError(
                        (ExitError::TempDirRemoveFailed { source: t }),
                    )) && post.cwd_view() == Some(d),
                    (Some(_), Err(w), rr) => err == Some(SpaceError::ExitError(
                        (ExitError::WorkingDirChangeFailed {
                            source: w,
                            temp_dir: crate::spec_err_of(rr),
                        }),
                    )),
                    (None, _, rr) => err matches Some(SpaceError::ExitError(
                        ExitError::WorkingDirChangeFailed { source: _, temp_dir: t },
                    )) && t == crate::spec_err_of(rr),
                })
            },
        },
    })
}

/// Whatever was done to the world between entry and teardown — any sequence
/// of set or unset calls against the environment table, or anything else —
/// teardown brings the table back, name for name and value for value, to
/// what it was immediately before the session was entered, and releases the
/// lock.
pub proof fn lemma_env_restored_exactly(
    pre: World,
    entered: World,
    ps: Playspace,
    td: Result<SpacePath, std::io::Error>,
    cd: Result<(), std::io::Error>,
    env_after: Map<Seq<char>, Seq<char>>,
    during: World,
    post: World,
    cb: Result<(), std::io::Error>,
    rm: Result<(), std::io::Error>,
    verdict: Result<(), ExitError>,
)
    requires
        entry_outcome(pre, entered, td, cd, Ok(ps), env_after),
        teardown_outcome(ps, during, post, cb, rm, verdict),
    ensures
        post.env@ == pre.env@,
        !post.lock_held,
{
}

/// After teardown the working directory is back at the value captured at
/// entry, provided one was captured and it could be entered again; when it
/// could not be — or none was captured — teardown reports an error but the
/// lock is released all the same.
pub proof fn lemma_working_dir_restored(
    pre: World,
    entered: World,
    ps: Playspace,
    td: Result<SpacePath, std::io::Error>,
    cd: Result<(), std::io::Error>,
    env_after: Map<Seq<char>, Seq<char>>,
    during: World,
    post: World,
    cb: Result<(), std::io::Error>,
    rm: Result<(), std::io::Error>,
    verdict: Result<(), ExitError>,
)
    requires
        entry_outcome(pre, entered, td, cd, Ok(ps), env_after),
        teardown_outcome(ps, during, post, cb, rm, verdict),
    ensures
        (match pre.cwd_view() {
            Some(d) => cb is Ok ==> post.cwd_view() == Some(d),
            None => verdict is Err,
        }),
        cb is Err ==> verdict is Err,
        !post.lock_held,
{
}

/// At most one session is active at an instant: while the lock is held, a
/// non-blocking entry always fails at once with `AlreadyInSpace` and touches
/// nothing; once the active session has been torn down, the same attempt
/// succeeds whenever the operating system cooperates.
pub proof fn lemma_one_active_session(
    active: World,
    refused: World,
    td1: Result<SpacePath, std::io::Error>,
    cd1: Result<(), std::io::Error>,
    r1: Result<Playspace, SpaceError>,
    m1: Map<Seq<char>, Seq<char>>,
    ps: Playspace,
    during: World,
    freed: World,
    cb: Result<(), std::io::Error>,
    rm: Result<(), std::io::Error>,
    verdict: Result<(), ExitError>,
    after: World,
    td2: Result<SpacePath, std::io::Error>,
    cd2: Result<(), std::io::Error>,
    r2: Result<Playspace, SpaceError>,
    m2: Map<Seq<char>, Seq<char>>,
)
    requires
        active.lock_held,
        try_entry_outcome(active, refused, td1, cd1, r1, m1),
        teardown_outcome(ps, during, freed, cb, rm, verdict),
        try_entry_outcome(freed, after, td2, cd2, r2, m2),
        td2 is Ok,
        cd2 is Ok,
    ensures
        r1 == Err::<Playspace, SpaceError>(SpaceError::AlreadyInSpace),
        refused == active,
        r2 is Ok,
{
}

/// A waiting entry completes only once the lock is free, and the lock
/// becomes free only through teardown, after the restoration has fully
/// happened: an entry that completes after a session's teardown finds, and
/// captures in its snapshot, exactly the state that session restored — never
/// an intermediate one.
pub proof fn lemma_entry_after_teardown_sees_restored_state(
    pre: World,
    entered: World,
    ps: Playspace,
    td: Result<SpacePath, std::io::Error>,
    cd: Result<(), std::io::Error>,
    env_after: Map<Seq<char>, Seq<char>>,
    during: World,
    freed: World,
    cb: Result<(), std::io::Error>,
    rm: Result<(), std::io::Error>,
    verdict: Result<(), ExitError>,
    entered2: World,
    ps2: Playspace,
    td2: Result<SpacePath, std::io::Error>,
    cd2: Result<(), std::io::Error>,
    m2: Map<Seq<char>, Seq<char>>,
)
    requires
        entry_outcome(pre, entered, td, cd, Ok(ps), env_after),
        teardown_outcome(ps, during, freed, cb, rm, verdict),
        entry_outcome(freed, entered2, td2, cd2, Ok(ps2), m2),
    ensures
        !freed.lock_held,
        ps2.snapshot_view() == ps.snapshot_view(),
        ps2.snapshot_view() == pre.env@,
{
}

} // verus!
