//! Backups of the database: which steps they take, in which order, and when they stop.

use vstd::prelude::*;
use vstd::string::StringExecFns;

verus! {

/// One step of making or restoring a backup. The workspace is the directory that the backup
/// engine works in; the archive is the compressed tarball of it.
#[derive(Debug, Clone, Copy, PartialEq, Eq, Structural)]
pub enum BackupStep {
    /// Set up the options of a backup engine in the workspace.
    EngineOptions,
    /// Set up the environment of the backup engine.
    EngineEnv,
    /// Open the backup engine.
    OpenEngine,
    /// Make a new backup of the database, where wanted after flushing it.
    CreateBackup { flush: bool },
    /// Create the archive file.
    CreateArchive,
    /// Start compressing into the archive.
    StartCompression,
    /// Append all of the workspace to the tarball, as its root.
    PackWorkspace,
    /// Finish the tarball.
    FinishTarball,
    /// Finish the compression.
    FinishCompression,
    /// Remove the workspace.
    RemoveWorkspace,
    /// Open the archive file.
    OpenArchive,
    /// Start decompressing the archive.
    StartDecompression,
    /// Unpack the tarball into the workspace.
    UnpackWorkspace,
    /// Restore the database directory from the latest backup.
    RestoreLatest,
    /// Open the store in the restored database directory.
    OpenStore,
}

/// The steps that make a backup.
pub open spec fn create_backup_steps() -> Seq<BackupStep> {
    seq![
        BackupStep::EngineOptions,
        BackupStep::EngineEnv,
        BackupStep::OpenEngine,
        BackupStep::CreateBackup { flush: true },
        BackupStep::CreateArchive,
        BackupStep::StartCompression,
        BackupStep::PackWorkspace,
        BackupStep::FinishTarball,
        BackupStep::FinishCompression,
        BackupStep::RemoveWorkspace,
    ]
}

/// The steps that restore a backup.
pub open spec fn from_backup_steps() -> Seq<BackupStep> {
    seq![
        BackupStep::OpenArchive,
        BackupStep::StartDecompression,
        BackupStep::UnpackWorkspace,
        BackupStep::EngineOptions,
        BackupStep::EngineEnv,
        BackupStep::OpenEngine,
        BackupStep::RestoreLatest,
        BackupStep::OpenStore,
        BackupStep::RemoveWorkspace,
    ]
}

/// The name of the workspace.
pub open spec fn workspace_name() -> Seq<char> {
    "rocksdb_backup"@
}

/// The file name of the archive of a backup.
pub open spec fn archive_name(backup_name: Seq<char>) -> Seq<char> {
    backup_name + ".tar.zst"@
}

/// A row of steps that stops at the first failure.
#[derive(Debug)]
pub struct Script {
    steps: Vec<BackupStep>,
    at: usize,
}

/// The steps of a script, and which of them it waits for.
pub struct ScriptView {
    pub steps: Seq<BackupStep>,
    pub at: int,
}

impl View for Script {
    type V = ScriptView;

    closed spec fn view(&self) -> ScriptView {
        ScriptView { steps: self.steps@, at: self.at as int }
    }
}

impl ScriptView {
    /// It waits for one of its steps.
    pub open spec fn running(self) -> bool {
        0 <= self.at < self.steps.len()
    }
}

/// What a script wants after a step: another step, or to return.
#[derive(Debug)]
pub enum Advance<E> {
    Perform(BackupStep),
    Finish(Result<(), E>),
}

/// How a script goes on: with the next step after a success, to its end after the last step, and
/// to its end at once after a failure.
pub open spec fn script_next<E>(script: ScriptView, outcome: Result<(), E>) -> Advance<E> {
    match outcome {
        Err(error) => Advance::Finish(Err(error)),
        Ok(_) => if script.at + 1 < script.steps.len() {
            Advance::Perform(script.steps[script.at + 1])
        } else {
            Advance::Finish(Ok(()))
        },
    }
}

impl Script {
    /// The script that makes a backup.
    pub fn create_backup() -> (script: Script)
        ensures
            script@ == (ScriptView { steps: create_backup_steps(), at: 0 }),
            script@.steps == seq![
                BackupStep::EngineOptions,
                BackupStep::EngineEnv,
                BackupStep::OpenEngine,
                BackupStep::CreateBackup { flush: true },
                BackupStep::CreateArchive,
                BackupStep::StartCompression,
                BackupStep::PackWorkspace,
                BackupStep::FinishTarball,
                BackupStep::FinishCompression,
                BackupStep::RemoveWorkspace,
            ],
    {
        let steps: Vec<BackupStep> = vec![
            BackupStep::EngineOptions,
            BackupStep::EngineEnv,
            BackupStep::OpenEngine,
            BackupStep::CreateBackup { flush: true },
            BackupStep::CreateArchive,
            BackupStep::StartCompression,
            BackupStep::PackWorkspace,
            BackupStep::FinishTarball,
            BackupStep::FinishCompression,
            BackupStep::RemoveWorkspace,
        ];
        assert(steps@ =~= create_backup_steps());
        Script { steps, at: 0 }
    }

    /// The script that restores a backup.
    pub fn from_backup() -> (script: Script)
        ensures
            script@ == (ScriptView { steps: from_backup_steps(), at: 0 }),
            script@.steps == seq![
                BackupStep::OpenArchive,
                BackupStep::StartDecompression,
                BackupStep::UnpackWorkspace,
                BackupStep::EngineOptions,
                BackupStep::EngineEnv,
                BackupStep::OpenEngine,
                BackupStep::RestoreLatest,
                BackupStep::OpenStore,
                BackupStep::RemoveWorkspace,
            ],
    {
        let steps: Vec<BackupStep> = vec![
            BackupStep::OpenArchive,
            BackupStep::StartDecompression,
            BackupStep::UnpackWorkspace,
            BackupStep::EngineOptions,
            BackupStep::EngineEnv,
            BackupStep::OpenEngine,
            BackupStep::RestoreLatest,
            BackupStep::OpenStore,
            BackupStep::RemoveWorkspace,
        ];
        assert(steps@ =~= from_backup_steps());
        Script { steps, at: 0 }
    }

    /// The step that the script waits for.
    pub fn current(&self) -> (step: BackupStep)
        requires
            self@.running(),
        ensures
            step == self@.steps[self@.at],
    {
        self.steps[self.at]
    }

    /// Goes on with what came of the current step.
    pub fn next<E>(&mut self, outcome: Result<(), E>) -> (advance: Advance<E>)
        requires
            old(self)@.running(),
        ensures
            advance == script_next(old(self)@, outcome),
            final(self)@.steps == old(self)@.steps,
            final(self)@.at == if outcome is Ok {
                old(self)@.at + 1
            } else {
                old(self)@.at
            },
            advance is Perform ==> final(self)@.running(),
            match (outcome, advance) {
                (Err(error), Advance::Finish(result)) => result == Err::<(), E>(error),
                (Err(_), Advance::Perform(_)) => false,
                (Ok(_), Advance::Finish(result)) => result == Ok::<(), E>(()) && old(self)@.at + 1
                    == old(self)@.steps.len(),
                (Ok(_), Advance::Perform(step)) => old(self)@.at + 1 < old(self)@.steps.len()
                    && step == old(self)@.steps[old(self)@.at + 1],
            },
    {
        match outcome {
            Err(error) => Advance::Finish(Err(error)),
            Ok(_) => {
                let len: usize = self.steps.len();
                self.at = self.at + 1;
                if self.at < len {
                    Advance::Perform(self.steps[self.at])
                } else {
                    Advance::Finish(Ok(()))
                }
            },
        }
    }
}

/// Where something lies, given by a path of type `P`.
#[derive(Debug)]
pub enum Place<'a, P> {
    /// At the path.
    At { path: &'a P },
    /// Under a name in the directory at the path.
    Inside { directory: &'a P, name: &'a str },
    /// Under a name in the directory that the file at the path lies in.
    Beside { file: &'a P, name: &'a str },
}

/// What a place says.
pub enum PlaceView<P> {
    At { path: P },
    Inside { directory: P, name: Seq<char> },
    Beside { file: P, name: Seq<char> },
}

impl<'a, P> View for Place<'a, P> {
    type V = PlaceView<P>;

    open spec fn view(&self) -> PlaceView<P> {
        match *self {
            Place::At { path } => PlaceView::At { path: *path },
            Place::Inside { directory, name } => PlaceView::Inside {
                directory: *directory,
                name: name@,
            },
            Place::Beside { file, name } => PlaceView::Beside { file: *file, name: name@ },
        }
    }
}

/// Where the workspace and the archive of a backup lie, and the directory of the database.
pub struct Places<Q> {
    pub workspace: Q,
    pub archive: Q,
    pub database: Q,
}

/// How to make a backup.
#[derive(Debug)]
pub struct BackupPlan<P> {
    /// The directory that the workspace and the archive lie in.
    pub backup_path: P,
    /// The name of the archive in that directory.
    pub archive: String,
    pub script: Script,
}

impl<P> BackupPlan<P> {
    /// Plans a backup of a name in a directory.
    pub fn new(backup_name: &str, backup_path: P) -> (plan: BackupPlan<P>)
        ensures
            plan.backup_path == backup_path,
            plan.archive@ == archive_name(backup_name@),
            plan.archive@ == backup_name@ + ".tar.zst"@,
            plan.script@ == (ScriptView { steps: create_backup_steps(), at: 0 }),
    {
        let mut archive: String = String::from(backup_name);
        archive.append(".tar.zst");
        BackupPlan { backup_path, archive, script: Script::create_backup() }
    }

    /// Where things lie when the database in a directory is backed up: the workspace and the
    /// archive in the backup directory.
    pub open spec fn places(self, database: P) -> Places<PlaceView<P>> {
        Places {
            workspace: PlaceView::Inside { directory: self.backup_path, name: workspace_name() },
            archive: PlaceView::Inside { directory: self.backup_path, name: self.archive@ },
            database: PlaceView::At { path: database },
        }
    }

    /// Where the workspace lies.
    pub fn workspace_place(&self) -> (place: Place<'_, P>)
        ensures
            place@ == (PlaceView::Inside {
                directory: self.backup_path,
                name: workspace_name(),
            }),
            place matches Place::Inside { directory, name } && *directory == self.backup_path
                && name@ == "rocksdb_backup"@,
    {
        Place::Inside { directory: &self.backup_path, name: "rocksdb_backup" }
    }

    /// Where the archive lies.
    pub fn archive_place(&self) -> (place: Place<'_, P>)
        ensures
            place@ == (PlaceView::Inside { directory: self.backup_path, name: self.archive@ }),
            place matches Place::Inside { directory, name } && *directory == self.backup_path
                && name@ == self.archive@,
    {
        Place::Inside { directory: &self.backup_path, name: self.archive.as_str() }
    }
}

/// How to restore a backup.
#[derive(Debug)]
pub struct RestorePlan<P> {
    /// The archive.
    pub backup_file: P,
    /// The directory to restore the database to.
    pub database_directory: P,
    pub script: Script,
}

impl<P> RestorePlan<P> {
    /// Plans to restore a database from an archive.
    pub fn new(backup_file: P, database_directory: P) -> (plan: RestorePlan<P>)
        ensures
            plan.backup_file == backup_file,
            plan.database_directory == database_directory,
            plan.script@ == (ScriptView { steps: from_backup_steps(), at: 0 }),
    {
        RestorePlan { backup_file, database_directory, script: Script::from_backup() }
    }

    /// Where things lie: the workspace in the directory that the archive lies in.
    pub open spec fn places(self) -> Places<PlaceView<P>> {
        Places {
            workspace: PlaceView::Beside { file: self.backup_file, name: workspace_name() },
            archive: PlaceView::At { path: self.backup_file },
            database: PlaceView::At { path: self.database_directory },
        }
    }

    /// Where the workspace lies: in the directory that the archive lies in.
    pub fn workspace_place(&self) -> (place: Place<'_, P>)
        ensures
            place@ == (PlaceView::Beside { file: self.backup_file, name: workspace_name() }),
            place matches Place::Beside { file, name } && *file == self.backup_file && name@
                == "rocksdb_backup"@,
    {
        Place::Beside { file: &self.backup_file, name: "rocksdb_backup" }
    }

    /// Where the archive lies.
    pub fn archive_place(&self) -> (place: Place<'_, P>)
        ensures
            place@ == (PlaceView::At { path: self.backup_file }),
            place matches Place::At { path } && *path == self.backup_file,
    {
        Place::At { path: &self.backup_file }
    }
}

/// The steps that a script takes, from where it is, where `works` says which of its steps
/// succeed; and whether it returns without an error.
pub open spec fn script_run(script: ScriptView, works: spec_fn(int) -> bool) -> (
    Seq<BackupStep>,
    bool,
)
    decreases script.steps.len() - script.at,
{
    if !script.running() {
        (seq![], false)
    } else {
        let outcome: Result<(), ()> = if works(script.at) {
            Ok(())
        } else {
            Err(())
        };
        let step = script.steps[script.at];
        match script_next(script, outcome) {
            Advance::Perform(_) => {
                let (steps, done) = script_run(ScriptView { at: script.at + 1, ..script }, works);
                (seq![step] + steps, done)
            },
            Advance::Finish(result) => (seq![step], result is Ok),
        }
    }
}

/// A script takes its steps in order up to the first that fails, and succeeds exactly when all
/// of its steps do.
pub proof fn law_script_stops_at_failure(script: ScriptView, works: spec_fn(int) -> bool)
    requires
        script.running(),
    ensures
        ({
            let (steps, done) = script_run(script, works);
            &&& 1 <= steps.len() <= script.steps.len() - script.at
            &&& steps == script.steps.subrange(script.at, script.at + steps.len())
            &&& forall|i: int| script.at <= i < script.at + steps.len() - 1 ==> #[trigger] works(i)
            &&& done <==> forall|i: int| script.at <= i < script.steps.len() ==> #[trigger] works(i)
            &&& done ==> steps.len() == script.steps.len() - script.at
            &&& !done ==> !works(script.at + steps.len() - 1)
        }),
    decreases script.steps.len() - script.at,
{
    let (steps, done) = script_run(script, works);
    if works(script.at) && script.at + 1 < script.steps.len() {
        let rest = ScriptView { at: script.at + 1, ..script };
        law_script_stops_at_failure(rest, works);
        let (tail, tail_done) = script_run(rest, works);
        assert(steps == seq![script.steps[script.at]] + tail);
        assert(steps =~= script.steps.subrange(script.at, script.at + steps.len()));
        assert(done == tail_done);
        assert forall|i: int| script.at <= i < script.at + steps.len() - 1 implies #[trigger] works(i) by {
            if i > script.at {
                assert(rest.at <= i < rest.at + tail.len() - 1);
            }
        }
        if done {
            assert forall|i: int| script.at <= i < script.steps.len() implies #[trigger] works(i) by {
                if i > script.at {
                    assert(rest.at <= i < rest.steps.len());
                }
            }
        } else {
            assert(script.at + steps.len() - 1 == rest.at + tail.len() - 1);
        }
    } else {
        assert(steps == seq![script.steps[script.at]]);
        assert(steps =~= script.steps.subrange(script.at, script.at + 1));
    }
}

/// The workspace is removed as the very last step, and only when every other step has succeeded:
/// the archive is then complete, or the restored store open.
pub proof fn law_workspace_outlives_backup(script: ScriptView, works: spec_fn(int) -> bool)
    requires
        script == (ScriptView { steps: create_backup_steps(), at: 0 }) || script == (ScriptView {
            steps: from_backup_steps(),
            at: 0,
        }),
        script_run(script, works).0.contains(BackupStep::RemoveWorkspace),
    ensures
        script_run(script, works).0 == script.steps,
        forall|i: int| 0 <= i < script.steps.len() - 1 ==> #[trigger] works(i),
{
    law_script_stops_at_failure(script, works);
    let (steps, done) = script_run(script, works);
    let i = choose|i: int| 0 <= i < steps.len() && steps[i] == BackupStep::RemoveWorkspace;
    assert(script.steps[i] == BackupStep::RemoveWorkspace);
    assert(i == script.steps.len() - 1);
    assert(steps =~= script.steps);
}

/// The archive of a backup carries the name of the backup, and says after it that it is a
/// tarball compressed with zstd: nothing is cut off or put before.
pub proof fn law_archive_carries_name_and_kind(backup_name: Seq<char>)
    ensures
        archive_name(backup_name).len() == backup_name.len() + 8,
        archive_name(backup_name).take(backup_name.len() as int) == backup_name,
        archive_name(backup_name).skip(backup_name.len() as int) == seq![
            '.',
            't',
            'a',
            'r',
            '.',
            'z',
            's',
            't',
        ],
{
    reveal_strlit(".tar.zst");
    assert(archive_name(backup_name).take(backup_name.len() as int) =~= backup_name);
    assert(archive_name(backup_name).skip(backup_name.len() as int) =~= ".tar.zst"@);
    assert(".tar.zst"@ =~= seq!['.', 't', 'a', 'r', '.', 'z', 's', 't']);
}

/// The directory that backups are made in and unpacked to has one name, and no archive has it.
pub proof fn law_workspace_is_no_archive(backup_name: Seq<char>)
    ensures
        workspace_name() == seq![
            'r',
            'o',
            'c',
            'k',
            's',
            'd',
            'b',
            '_',
            'b',
            'a',
            'c',
            'k',
            'u',
            'p',
        ],
        archive_name(backup_name) != workspace_name(),
{
    reveal_strlit("rocksdb_backup");
    assert(workspace_name() =~= seq![
        'r',
        'o',
        'c',
        'k',
        's',
        'd',
        'b',
        '_',
        'b',
        'a',
        'c',
        'k',
        'u',
        'p',
    ]);
    law_archive_carries_name_and_kind(backup_name);
    let name = archive_name(backup_name);
    assert(name.last() == name.skip(backup_name.len() as int)[7]);
    assert(workspace_name().last() == 'p');
}

/// A script can go on as long as it waits for one of its steps.
pub proof fn law_script_runs_while_steps_are_left(script: ScriptView)
    ensures
        script.running() <==> 0 <= script.at && script.at < script.steps.len(),
{
}

/// A script asks for the step after the one that worked, and ends with success where there is
/// none; an error of a step is the error that it ends with.
pub proof fn law_script_goes_step_by_step<E>(script: ScriptView, outcome: Result<(), E>)
    requires
        script.running(),
    ensures
        outcome matches Err(error) ==> script_next(script, outcome) == Advance::<E>::Finish(
            Err(error),
        ),
        outcome is Ok && script.at == script.steps.len() - 1 ==> script_next(script, outcome)
            == Advance::<E>::Finish(Ok(())),
        outcome is Ok && script.at < script.steps.len() - 1 ==> script_next(script, outcome)
            == Advance::<E>::Perform(script.steps[script.at + 1]),
{
}

/// `a` is one of the steps, and is taken before `b`, which is one too.
pub open spec fn taken_before(steps: Seq<BackupStep>, a: BackupStep, b: BackupStep) -> bool {
    exists|i: int, j: int|
        0 <= i < j < steps.len() && #[trigger] steps[i] == a && #[trigger] steps[j] == b
}

proof fn lemma_taken_before(steps: Seq<BackupStep>, i: int)
    requires
        0 <= i < steps.len() - 1,
    ensures
        taken_before(steps, steps[i], steps[i + 1]),
{
    let j = i + 1;
    assert(steps[i] == steps[i] && steps[j] == steps[j]);
}

/// The engine is opened before the backup is made, flushed; the archive is created only then; the
/// workspace is packed, the archive finished, and the workspace removed after that. No step is
/// taken twice, and there is no other.
pub proof fn law_backup_is_packed_once_made()
    ensures
        create_backup_steps().no_duplicates(),
        create_backup_steps().len() == 10,
        taken_before(create_backup_steps(), BackupStep::EngineOptions, BackupStep::EngineEnv),
        taken_before(create_backup_steps(), BackupStep::EngineEnv, BackupStep::OpenEngine),
        taken_before(create_backup_steps(), BackupStep::OpenEngine, BackupStep::CreateBackup { flush: true }),
        taken_before(create_backup_steps(), BackupStep::CreateBackup { flush: true }, BackupStep::CreateArchive),
        taken_before(create_backup_steps(), BackupStep::CreateArchive, BackupStep::StartCompression),
        taken_before(create_backup_steps(), BackupStep::StartCompression, BackupStep::PackWorkspace),
        taken_before(create_backup_steps(), BackupStep::PackWorkspace, BackupStep::FinishTarball),
        taken_before(create_backup_steps(), BackupStep::FinishTarball, BackupStep::FinishCompression),
        taken_before(create_backup_steps(), BackupStep::FinishCompression, BackupStep::RemoveWorkspace),
{
    let steps = create_backup_steps();
    lemma_taken_before(steps, 0);
    lemma_taken_before(steps, 1);
    lemma_taken_before(steps, 2);
    lemma_taken_before(steps, 3);
    lemma_taken_before(steps, 4);
    lemma_taken_before(steps, 5);
    lemma_taken_before(steps, 6);
    lemma_taken_before(steps, 7);
    lemma_taken_before(steps, 8);
}

/// The archive is unpacked before the engine is opened; the store is opened only once its database
/// was restored, and the workspace removed after that. No step is taken twice, and there is no
/// other.
pub proof fn law_backup_is_unpacked_before_restoring()
    ensures
        from_backup_steps().no_duplicates(),
        from_backup_steps().len() == 9,
        taken_before(from_backup_steps(), BackupStep::OpenArchive, BackupStep::StartDecompression),
        taken_before(from_backup_steps(), BackupStep::StartDecompression, BackupStep::UnpackWorkspace),
        taken_before(from_backup_steps(), BackupStep::UnpackWorkspace, BackupStep::EngineOptions),
        taken_before(from_backup_steps(), BackupStep::EngineOptions, BackupStep::EngineEnv),
        taken_before(from_backup_steps(), BackupStep::EngineEnv, BackupStep::OpenEngine),
        taken_before(from_backup_steps(), BackupStep::OpenEngine, BackupStep::RestoreLatest),
        taken_before(from_backup_steps(), BackupStep::RestoreLatest, BackupStep::OpenStore),
        taken_before(from_backup_steps(), BackupStep::OpenStore, BackupStep::RemoveWorkspace),
{
    let steps = from_backup_steps();
    lemma_taken_before(steps, 0);
    lemma_taken_before(steps, 1);
    lemma_taken_before(steps, 2);
    lemma_taken_before(steps, 3);
    lemma_taken_before(steps, 4);
    lemma_taken_before(steps, 5);
    lemma_taken_before(steps, 6);
    lemma_taken_before(steps, 7);
}

/// Backups of different names have different archives.
pub proof fn law_archive_names_differ(a: Seq<char>, b: Seq<char>)
    requires
        archive_name(a) == archive_name(b),
    ensures
        a == b,
{
    let x = archive_name(a);
    let y = archive_name(b);
    assert(x.len() == y.len());
    assert(a =~= x.take(a.len() as int));
    assert(b =~= y.take(b.len() as int));
}

/// What a place says is what it holds.
pub proof fn law_place_is_what_is_held<P>(place: Place<'_, P>)
    ensures
        match place {
            Place::At { path } => place@ == (PlaceView::At { path: *path }),
            Place::Inside { directory, name } => place@ == (PlaceView::Inside {
                directory: *directory,
                name: name@,
            }),
            Place::Beside { file, name } => place@ == (PlaceView::Beside {
                file: *file,
                name: name@,
            }),
        },
{
}

/// A backup works in the directory that it is made in, and puts its archive there; a restore
/// works in the directory that its archive lies in.
pub proof fn law_plans_work_beside_their_archive<P>(
    backup: BackupPlan<P>,
    database: P,
    restore: RestorePlan<P>,
)
    ensures
        backup.places(database).workspace == (PlaceView::Inside {
            directory: backup.backup_path,
            name: "rocksdb_backup"@,
        }),
        backup.places(database).archive == (PlaceView::Inside {
            directory: backup.backup_path,
            name: backup.archive@,
        }),
        backup.places(database).database == (PlaceView::At { path: database }),
        restore.places().workspace == (PlaceView::Beside {
            file: restore.backup_file,
            name: "rocksdb_backup"@,
        }),
        restore.places().archive == (PlaceView::At { path: restore.backup_file }),
        restore.places().database == (PlaceView::At { path: restore.database_directory }),
{
}

} // verus!
