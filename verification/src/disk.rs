//! A model of the disk that backups are made on and restored from, and what holds of such runs.

use crate::backup::{
    create_backup_steps, from_backup_steps, law_script_stops_at_failure, script_run,
    workspace_name, BackupPlan, BackupStep, PlaceView, Places, RestorePlan, ScriptView,
};
use crate::block::{block_cell, PrecomputedBlock};
use crate::model::{law_read_after_write, run_read, run_write, Codec, Database};
use vstd::prelude::*;

verus! {

/// What lies at each path: of the directory of a database, what the store there holds, writes
/// that were not flushed yet among it; of a workspace, the backups in it; of an archive, what is
/// packed in it.
pub type Disk<Q, D> = Map<Q, D>;

/// What a disk and the tools that work on it are like.
#[verifier::reject_recursive_types(P)]
#[verifier::reject_recursive_types(Q)]
#[verifier::reject_recursive_types(D)]
pub struct World<P, Q, D> {
    /// The path of a place.
    pub at: spec_fn(PlaceView<P>) -> Q,
    /// Whether something at the first path is changed by a change at the second: they are the
    /// same, or one lies below the other.
    pub overlap: spec_fn(Q, Q) -> bool,
    /// A workspace after a new backup of a database in it.
    pub backed_up: spec_fn(D, D) -> D,
    /// The archive of a workspace.
    pub packed: spec_fn(D) -> D,
    /// What unpacking an archive to where nothing lies gives.
    pub unpacked: spec_fn(D) -> D,
    /// The database of the latest backup in a workspace.
    pub latest: spec_fn(D) -> D,
}

impl<P, Q, D> World<P, Q, D> {
    /// The paths of places.
    pub open spec fn paths(self, places: Places<PlaceView<P>>) -> Places<Q> {
        Places {
            workspace: (self.at)(places.workspace),
            archive: (self.at)(places.archive),
            database: (self.at)(places.database),
        }
    }

    /// Neither path is changed by a change at the other.
    pub open spec fn apart(self, a: Q, b: Q) -> bool {
        !(self.overlap)(a, b) && !(self.overlap)(b, a)
    }

    /// Unpacking undoes packing, and the latest backup holds the database that it was made of.
    pub open spec fn faithful(self) -> bool {
        &&& forall|w: D| (self.unpacked)(#[trigger] (self.packed)(w)) == w
        &&& forall|w: D, d: D| (self.latest)(#[trigger] (self.backed_up)(w, d)) == d
    }
}

/// A step may change what lies in the workspace.
pub open spec fn changes_workspace(step: BackupStep) -> bool {
    match step {
        BackupStep::OpenEngine => true,
        BackupStep::CreateBackup { .. } => true,
        BackupStep::UnpackWorkspace => true,
        BackupStep::RemoveWorkspace => true,
        _ => false,
    }
}

/// A step may change the archive.
pub open spec fn changes_archive(step: BackupStep) -> bool {
    match step {
        BackupStep::CreateArchive => true,
        BackupStep::StartCompression => true,
        BackupStep::PackWorkspace => true,
        BackupStep::FinishTarball => true,
        BackupStep::FinishCompression => true,
        _ => false,
    }
}

/// A step may change what the store in the directory of the database holds. Flushing does not.
pub open spec fn changes_database(step: BackupStep) -> bool {
    match step {
        BackupStep::RestoreLatest => true,
        BackupStep::OpenStore => true,
        _ => false,
    }
}

/// The same lies at a path on both disks.
pub open spec fn same_at<Q, D>(a: Disk<Q, D>, b: Disk<Q, D>, path: Q) -> bool {
    &&& a.contains_key(path) <==> b.contains_key(path)
    &&& a.contains_key(path) ==> a[path] == b[path]
}

/// `content` lies at a path.
pub open spec fn lies_at<Q, D>(disk: Disk<Q, D>, path: Q, content: D) -> bool {
    disk.contains_key(path) && disk[path] == content
}

/// What a step that works has found, and what it leaves where it works.
pub open spec fn step_leaves<P, Q, D>(
    step: BackupStep,
    paths: Places<Q>,
    world: World<P, Q, D>,
    before: Disk<Q, D>,
    after: Disk<Q, D>,
) -> bool {
    match step {
        // The engine keeps the backups that it finds.
        BackupStep::OpenEngine => {
            &&& after.contains_key(paths.workspace)
            &&& before.contains_key(paths.workspace) ==> after[paths.workspace]
                == before[paths.workspace]
        },
        // A backup after a flush is one of all that the store holds.
        BackupStep::CreateBackup { flush } => {
            &&& before.contains_key(paths.database)
            &&& flush ==> lies_at(
                after,
                paths.workspace,
                (world.backed_up)(before[paths.workspace], before[paths.database]),
            )
        },
        // The finished archive holds the workspace, and nothing of an earlier archive.
        BackupStep::FinishCompression => world.apart(paths.archive, paths.workspace) ==> lies_at(
            after,
            paths.archive,
            (world.packed)(before[paths.workspace]),
        ),
        BackupStep::OpenArchive => before.contains_key(paths.archive),
        // Unpacking merges into a workspace that is there already.
        BackupStep::UnpackWorkspace => !before.contains_key(paths.workspace) ==> lies_at(
            after,
            paths.workspace,
            (world.unpacked)(before[paths.archive]),
        ),
        // What the directory held before is purged.
        BackupStep::RestoreLatest => lies_at(
            after,
            paths.database,
            (world.latest)(before[paths.workspace]),
        ),
        // The store holds what its database does.
        BackupStep::OpenStore => {
            &&& after.contains_key(paths.database)
            &&& before.contains_key(paths.database) ==> after[paths.database]
                == before[paths.database]
        },
        BackupStep::RemoveWorkspace => !after.contains_key(paths.workspace),
        _ => true,
    }
}

/// What a step that works does to the disk: it leaves what it is there for, and paths that
/// overlap with nothing it may change stay as they are.
pub open spec fn step_effect<P, Q, D>(
    step: BackupStep,
    paths: Places<Q>,
    world: World<P, Q, D>,
    before: Disk<Q, D>,
    after: Disk<Q, D>,
) -> bool {
    &&& step_leaves(step, paths, world, before, after)
    &&& forall|path: Q|
        !(changes_workspace(step) && (world.overlap)(path, paths.workspace)) && !(changes_archive(
            step,
        ) && (world.overlap)(path, paths.archive)) && !(changes_database(step) && (world.overlap)(
            path,
            paths.database,
        )) ==> #[trigger] same_at(before, after, path)
}

/// Steps that work take the disk through these states.
pub open spec fn takes_disk_through<P, Q, D>(
    steps: Seq<BackupStep>,
    paths: Places<Q>,
    world: World<P, Q, D>,
    disks: Seq<Disk<Q, D>>,
) -> bool {
    &&& disks.len() == steps.len() + 1
    &&& forall|i: int|
        0 <= i < steps.len() ==> #[trigger] step_effect(
            steps[i],
            paths,
            world,
            disks[i],
            disks[i + 1],
        )
}

/// The plan makes a backup of the database in a directory, all of its steps work, and they take
/// the disk through these states.
pub open spec fn makes_backup<P, Q, D>(
    plan: BackupPlan<P>,
    database: P,
    works: spec_fn(int) -> bool,
    world: World<P, Q, D>,
    disks: Seq<Disk<Q, D>>,
) -> bool {
    &&& plan.script@ == (ScriptView { steps: create_backup_steps(), at: 0 })
    &&& script_run(plan.script@, works).1
    &&& takes_disk_through(
        script_run(plan.script@, works).0,
        world.paths(plan.places(database)),
        world,
        disks,
    )
}

/// The plan restores a backup, all of its steps work, and they take the disk through these
/// states.
pub open spec fn restores_backup<P, Q, D>(
    plan: RestorePlan<P>,
    works: spec_fn(int) -> bool,
    world: World<P, Q, D>,
    disks: Seq<Disk<Q, D>>,
) -> bool {
    &&& plan.script@ == (ScriptView { steps: from_backup_steps(), at: 0 })
    &&& script_run(plan.script@, works).1
    &&& takes_disk_through(
        script_run(plan.script@, works).0,
        world.paths(plan.places()),
        world,
        disks,
    )
}

/// What one of the steps does.
proof fn lemma_step_works<P, Q, D>(
    steps: Seq<BackupStep>,
    paths: Places<Q>,
    world: World<P, Q, D>,
    disks: Seq<Disk<Q, D>>,
    i: int,
)
    requires
        takes_disk_through(steps, paths, world, disks),
        0 <= i < steps.len(),
    ensures
        step_leaves(steps[i], paths, world, disks[i], disks[i + 1]),
{
    assert(step_effect(steps[i], paths, world, disks[i], disks[i + 1]));
}

/// A path that overlaps with nothing that the steps from `i` to `j` may change stays as it is.
proof fn lemma_path_stays<P, Q, D>(
    steps: Seq<BackupStep>,
    paths: Places<Q>,
    world: World<P, Q, D>,
    disks: Seq<Disk<Q, D>>,
    path: Q,
    i: int,
    j: int,
)
    requires
        takes_disk_through(steps, paths, world, disks),
        0 <= i <= j <= steps.len(),
        forall|k: int|
            i <= k < j ==> {
                &&& changes_workspace(#[trigger] steps[k]) ==> !(world.overlap)(
                    path,
                    paths.workspace,
                )
                &&& changes_archive(steps[k]) ==> !(world.overlap)(path, paths.archive)
                &&& changes_database(steps[k]) ==> !(world.overlap)(path, paths.database)
            },
    ensures
        same_at(disks[i], disks[j], path),
    decreases j - i,
{
    if i < j {
        lemma_path_stays(steps, paths, world, disks, path, i, j - 1);
        let step = steps[j - 1];
        assert(step_effect(step, paths, world, disks[j - 1], disks[j - 1 + 1]));
        assert(same_at(disks[j - 1], disks[j], path));
    }
}

/// A script that succeeds has taken all of its steps.
proof fn lemma_takes_all_steps<P, Q, D>(
    steps: Seq<BackupStep>,
    works: spec_fn(int) -> bool,
    paths: Places<Q>,
    world: World<P, Q, D>,
    disks: Seq<Disk<Q, D>>,
)
    requires
        steps.len() > 0,
        script_run(ScriptView { steps, at: 0 }, works).1,
        takes_disk_through(
            script_run(ScriptView { steps, at: 0 }, works).0,
            paths,
            world,
            disks,
        ),
    ensures
        takes_disk_through(steps, paths, world, disks),
        step_effect(
            steps.last(),
            paths,
            world,
            disks[steps.len() - 1],
            disks.last(),
        ),
{
    let script = ScriptView { steps, at: 0 };
    law_script_stops_at_failure(script, works);
    assert(script_run(script, works).0 =~= steps);
    let n = steps.len() as int;
    assert(step_effect(steps[n - 1], paths, world, disks[n - 1], disks[n - 1 + 1]));
}

/// After a restore that succeeds nothing is left of the workspace, which lies in the directory
/// of the archive; and the archive, where it lies apart from the workspace and the database, is
/// as it was.
pub proof fn law_restore_cleans_up<P, Q, D>(
    plan: RestorePlan<P>,
    works: spec_fn(int) -> bool,
    world: World<P, Q, D>,
    disks: Seq<Disk<Q, D>>,
)
    requires
        restores_backup(plan, works, world, disks),
    ensures
        !disks.last().contains_key(
            (world.at)(PlaceView::Beside { file: plan.backup_file, name: workspace_name() }),
        ),
        ({
            let paths = world.paths(plan.places());
            world.apart(paths.archive, paths.workspace) && world.apart(
                paths.archive,
                paths.database,
            ) ==> same_at(
                disks.first(),
                disks.last(),
                (world.at)(PlaceView::At { path: plan.backup_file }),
            )
        }),
{
    let paths = world.paths(plan.places());
    let steps = from_backup_steps();
    lemma_takes_all_steps(steps, works, paths, world, disks);
    if world.apart(paths.archive, paths.workspace) && world.apart(paths.archive, paths.database) {
        lemma_path_stays(steps, paths, world, disks, paths.archive, 0, steps.len() as int);
    }
}

/// The first steps of a restore, however many of them work, leave the archive as it was, where it
/// lies apart from the workspace and the database.
pub proof fn law_restore_leaves_archive<P, Q, D>(
    plan: RestorePlan<P>,
    steps: Seq<BackupStep>,
    world: World<P, Q, D>,
    disks: Seq<Disk<Q, D>>,
)
    requires
        steps.len() <= from_backup_steps().len(),
        steps == from_backup_steps().take(steps.len() as int),
        takes_disk_through(steps, world.paths(plan.places()), world, disks),
        world.apart(
            world.paths(plan.places()).archive,
            world.paths(plan.places()).workspace,
        ),
        world.apart(world.paths(plan.places()).archive, world.paths(plan.places()).database),
    ensures
        same_at(
            disks.first(),
            disks.last(),
            (world.at)(PlaceView::At { path: plan.backup_file }),
        ),
{
    let paths = world.paths(plan.places());
    lemma_path_stays(steps, paths, world, disks, paths.archive, 0, steps.len() as int);
}

/// After a backup that succeeds nothing is left of the workspace; and the store, where its
/// database lies apart from the workspace and the archive, holds what it held.
pub proof fn law_backup_cleans_up<P, Q, D>(
    plan: BackupPlan<P>,
    database: P,
    works: spec_fn(int) -> bool,
    world: World<P, Q, D>,
    disks: Seq<Disk<Q, D>>,
)
    requires
        makes_backup(plan, database, works, world, disks),
    ensures
        !disks.last().contains_key(
            (world.at)(
                PlaceView::Inside { directory: plan.backup_path, name: workspace_name() },
            ),
        ),
        ({
            let paths = world.paths(plan.places(database));
            world.apart(paths.database, paths.workspace) && world.apart(
                paths.database,
                paths.archive,
            ) ==> same_at(disks.first(), disks.last(), paths.database)
        }),
{
    let paths = world.paths(plan.places(database));
    let steps = create_backup_steps();
    lemma_takes_all_steps(steps, works, paths, world, disks);
    if world.apart(paths.database, paths.workspace) && world.apart(paths.database, paths.archive) {
        lemma_path_stays(steps, paths, world, disks, paths.database, 0, steps.len() as int);
    }
}

/// After a backup that succeeds the archive is there, and its latest backup is one of what the
/// store held when it began, whatever the archive held before.
pub proof fn law_backup_archives_database<P, Q, D>(
    plan: BackupPlan<P>,
    database: P,
    works: spec_fn(int) -> bool,
    world: World<P, Q, D>,
    disks: Seq<Disk<Q, D>>,
)
    requires
        makes_backup(plan, database, works, world, disks),
        world.apart(
            world.paths(plan.places(database)).archive,
            world.paths(plan.places(database)).workspace,
        ),
        world.apart(
            world.paths(plan.places(database)).database,
            world.paths(plan.places(database)).workspace,
        ),
    ensures
        ({
            let paths = world.paths(plan.places(database));
            &&& disks.first().contains_key(paths.database)
            &&& exists|w: D| #[trigger]
                lies_at(
                    disks.last(),
                    paths.archive,
                    (world.packed)((world.backed_up)(w, disks.first()[paths.database])),
                )
        }),
{
    let paths = world.paths(plan.places(database));
    let steps = create_backup_steps();
    lemma_takes_all_steps(steps, works, paths, world, disks);
    lemma_path_stays(steps, paths, world, disks, paths.database, 0, 3);
    lemma_step_works(steps, paths, world, disks, 2);
    lemma_step_works(steps, paths, world, disks, 3);
    lemma_path_stays(steps, paths, world, disks, paths.workspace, 4, 8);
    lemma_step_works(steps, paths, world, disks, 8);
    lemma_path_stays(steps, paths, world, disks, paths.archive, 9, 10);
    let held = disks.first()[paths.database];
    assert(lies_at(
        disks.last(),
        paths.archive,
        (world.packed)((world.backed_up)(disks[3][paths.workspace], held)),
    ));
}

/// A restore that succeeds gives the directory of the database what the latest backup in the
/// archive holds, and nothing that it held before, where no workspace lay beside the archive and
/// the directory lies apart from it.
pub proof fn law_restore_unpacks_latest<P, Q, D>(
    plan: RestorePlan<P>,
    works: spec_fn(int) -> bool,
    world: World<P, Q, D>,
    disks: Seq<Disk<Q, D>>,
)
    requires
        restores_backup(plan, works, world, disks),
        !disks.first().contains_key(world.paths(plan.places()).workspace),
        world.apart(
            world.paths(plan.places()).database,
            world.paths(plan.places()).workspace,
        ),
    ensures
        ({
            let paths = world.paths(plan.places());
            lies_at(
                disks.last(),
                paths.database,
                (world.latest)((world.unpacked)(disks.first()[paths.archive])),
            )
        }),
{
    let paths = world.paths(plan.places());
    let steps = from_backup_steps();
    lemma_takes_all_steps(steps, works, paths, world, disks);
    lemma_step_works(steps, paths, world, disks, 0);
    lemma_path_stays(steps, paths, world, disks, paths.archive, 0, 2);
    lemma_path_stays(steps, paths, world, disks, paths.workspace, 0, 2);
    lemma_step_works(steps, paths, world, disks, 2);
    lemma_path_stays(steps, paths, world, disks, paths.workspace, 3, 5);
    lemma_step_works(steps, paths, world, disks, 5);
    lemma_step_works(steps, paths, world, disks, 6);
    lemma_step_works(steps, paths, world, disks, 7);
    lemma_path_stays(steps, paths, world, disks, paths.database, 8, 9);
}

/// A restore of the archive that a backup made gives back exactly what the store held when the
/// backup began. What the store was given afterwards, and what the directory held before, does
/// not show. No workspace may lie beside the archive when the restore begins: the archive would be
/// unpacked into it.
pub proof fn law_restore_gives_back<P, Q, D>(
    backup: BackupPlan<P>,
    database: P,
    backup_works: spec_fn(int) -> bool,
    made: Seq<Disk<Q, D>>,
    restore: RestorePlan<P>,
    restore_works: spec_fn(int) -> bool,
    restored: Seq<Disk<Q, D>>,
    world: World<P, Q, D>,
)
    requires
        world.faithful(),
        makes_backup(backup, database, backup_works, world, made),
        restores_backup(restore, restore_works, world, restored),
        ({
            let from = world.paths(backup.places(database));
            let to = world.paths(restore.places());
            &&& world.apart(from.archive, from.workspace)
            &&& world.apart(from.database, from.workspace)
            &&& world.apart(to.database, to.workspace)
            &&& to.archive == from.archive
            &&& same_at(made.last(), restored.first(), to.archive)
            &&& !restored.first().contains_key(to.workspace)
        }),
    ensures
        made.first().contains_key(world.paths(backup.places(database)).database),
        lies_at(
            restored.last(),
            world.paths(restore.places()).database,
            made.first()[world.paths(backup.places(database)).database],
        ),
{
    let from = world.paths(backup.places(database));
    let held = made.first()[from.database];
    law_backup_archives_database(backup, database, backup_works, world, made);
    law_restore_unpacks_latest(restore, restore_works, world, restored);
    let w = choose|w: D| #[trigger]
        lies_at(made.last(), from.archive, (world.packed)((world.backed_up)(w, held)));
    assert((world.unpacked)((world.packed)((world.backed_up)(w, held))) == (world.backed_up)(
        w,
        held,
    ));
}

/// The same of a restore that finds the archive and the backup directory's workspace as the
/// backup left them: the backup itself has seen to it that no workspace is in the way.
pub proof fn law_backup_makes_way_for_restore<P, Q, D>(
    backup: BackupPlan<P>,
    database: P,
    backup_works: spec_fn(int) -> bool,
    made: Seq<Disk<Q, D>>,
    restore: RestorePlan<P>,
    restore_works: spec_fn(int) -> bool,
    restored: Seq<Disk<Q, D>>,
    world: World<P, Q, D>,
)
    requires
        world.faithful(),
        makes_backup(backup, database, backup_works, world, made),
        restores_backup(restore, restore_works, world, restored),
        ({
            let from = world.paths(backup.places(database));
            let to = world.paths(restore.places());
            &&& world.apart(from.archive, from.workspace)
            &&& world.apart(from.database, from.workspace)
            &&& world.apart(to.database, to.workspace)
            &&& to.archive == from.archive
            &&& to.workspace == from.workspace
            &&& same_at(made.last(), restored.first(), to.archive)
            &&& same_at(made.last(), restored.first(), to.workspace)
        }),
    ensures
        made.first().contains_key(world.paths(backup.places(database)).database),
        lies_at(
            restored.last(),
            world.paths(restore.places()).database,
            made.first()[world.paths(backup.places(database)).database],
        ),
{
    law_backup_cleans_up(backup, database, backup_works, world, made);
    law_restore_gives_back(
        backup,
        database,
        backup_works,
        made,
        restore,
        restore_works,
        restored,
        world,
    );
}

/// A second backup of the same name in the same directory replaces the archive of the first:
/// restored is what the store held when the second began. A block that was added in between is
/// there. `contents` says what the store in the directory of a database holds.
pub proof fn law_second_backup_replaces_first<P, Q, D, C, R, E>(
    first: BackupPlan<P>,
    first_works: spec_fn(int) -> bool,
    first_made: Seq<Disk<Q, D>>,
    second: BackupPlan<P>,
    second_works: spec_fn(int) -> bool,
    second_made: Seq<Disk<Q, D>>,
    database: P,
    restore: RestorePlan<P>,
    restore_works: spec_fn(int) -> bool,
    restored: Seq<Disk<Q, D>>,
    world: World<P, Q, D>,
    contents: spec_fn(D) -> Database,
    codec: Codec<PrecomputedBlock<C, R>, E>,
    block: PrecomputedBlock<C, R>,
)
    requires
        world.faithful(),
        codec.restores(block),
        second.backup_path == first.backup_path,
        second.archive@ == first.archive@,
        makes_backup(first, database, first_works, world, first_made),
        makes_backup(second, database, second_works, world, second_made),
        restores_backup(restore, restore_works, world, restored),
        ({
            let from = world.paths(first.places(database));
            let to = world.paths(restore.places());
            &&& world.apart(from.archive, from.workspace)
            &&& world.apart(from.database, from.workspace)
            &&& world.apart(to.database, to.workspace)
            &&& to.archive == from.archive
            &&& contents(second_made.first()[from.database]) == run_write(
                contents(first_made.last()[from.database]),
                codec,
                block_cell(block.state_hash@),
                block,
            ).0
            &&& same_at(second_made.last(), restored.first(), to.archive)
            &&& !restored.first().contains_key(to.workspace)
        }),
    ensures
        ({
            let from = world.paths(first.places(database));
            let to = world.paths(restore.places());
            &&& lies_at(restored.last(), to.database, second_made.first()[from.database])
            &&& run_read(
                contents(restored.last()[to.database]),
                codec,
                block_cell(block.state_hash@),
                true,
            ).1 == Some(Ok::<Option<PrecomputedBlock<C, R>>, E>(Some(block)))
        }),
{
    let from = world.paths(first.places(database));
    law_restore_gives_back(
        second,
        database,
        second_works,
        second_made,
        restore,
        restore_works,
        restored,
        world,
    );
    law_read_after_write(
        contents(first_made.last()[from.database]),
        codec,
        block_cell(block.state_hash@),
        block,
        true,
    );
}

} // verus!
