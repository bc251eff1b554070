use indexer_store::backup::{Advance, BackupPlan, BackupStep, Place, Script};
use indexer_store::store::IndexerStore;
use std::collections::BTreeMap;

/// Takes the steps of a script, of which the one at `broken` fails.
fn take(mut script: Script, broken: Option<usize>) -> (Vec<BackupStep>, Result<(), usize>) {
    let mut steps = vec![script.current()];
    loop {
        let at = steps.len() - 1;
        let outcome = if broken == Some(at) { Err(at) } else { Ok(()) };
        match script.next(outcome) {
            Advance::Perform(step) => {
                assert_eq!(script.current(), step);
                steps.push(step);
            }
            Advance::Finish(result) => return (steps, result),
        }
    }
}

fn plan(name: &str) -> BackupPlan<&'static str> {
    let store = IndexerStore::new("/db").opened::<()>(Ok(())).unwrap();
    store.create_backup(name, "/backups")
}

fn create() -> Script {
    plan("nightly").script
}

fn restore() -> Script {
    IndexerStore::from_backup("/backups/nightly.tar.zst", "/db").script
}

#[test]
fn backup_takes_all_steps_in_order() {
    let (steps, result) = take(create(), None);
    assert_eq!(result, Ok(()));
    assert_eq!(
        steps,
        [
            BackupStep::EngineOptions,
            BackupStep::EngineEnv,
            BackupStep::OpenEngine,
            BackupStep::CreateBackup { flush: true },
            BackupStep::CreateArchive,
            BackupStep::StartCompression,
            BackupStep::PackWorkspace,
            BackupStep::FinishTarball,
            BackupStep::FinishCompression,
            BackupStep::RemoveWorkspace,
        ]
    );
}

#[test]
fn restoring_takes_all_steps_in_order() {
    let (steps, result) = take(restore(), None);
    assert_eq!(result, Ok(()));
    assert_eq!(
        steps,
        [
            BackupStep::OpenArchive,
            BackupStep::StartDecompression,
            BackupStep::UnpackWorkspace,
            BackupStep::EngineOptions,
            BackupStep::EngineEnv,
            BackupStep::OpenEngine,
            BackupStep::RestoreLatest,
            BackupStep::OpenStore,
            BackupStep::RemoveWorkspace,
        ]
    );
}

#[test]
fn failure_stops_a_script_and_keeps_the_workspace() {
    for broken in 0..9 {
        let (steps, result) = take(create(), Some(broken));
        assert_eq!(result, Err(broken));
        assert_eq!(steps.len(), broken + 1);
        assert!(!steps.contains(&BackupStep::RemoveWorkspace));
    }
    for broken in 0..8 {
        let (steps, result) = take(restore(), Some(broken));
        assert_eq!(result, Err(broken));
        assert_eq!(steps.len(), broken + 1);
        assert!(!steps.contains(&BackupStep::RemoveWorkspace));
    }
}

#[test]
fn plans_name_their_files() {
    let nightly = plan("nightly");
    assert_eq!(nightly.backup_path, "/backups");
    assert_eq!(nightly.archive, "nightly.tar.zst");
    assert_eq!(plan("").archive, ".tar.zst");
    let restored = IndexerStore::from_backup("/backups/nightly.tar.zst", "/db");
    assert_eq!(restored.backup_file, "/backups/nightly.tar.zst");
    assert_eq!(restored.database_directory, "/db");
}

#[test]
fn workspace_and_archive_of_a_backup_lie_in_its_directory() {
    let nightly = plan("nightly");
    match nightly.workspace_place() {
        Place::Inside { directory, name } => {
            assert_eq!((*directory, name), ("/backups", "rocksdb_backup"));
        }
        other => panic!("{:?}", other),
    }
    match nightly.archive_place() {
        Place::Inside { directory, name } => {
            assert_eq!((*directory, name), ("/backups", "nightly.tar.zst"));
        }
        other => panic!("{:?}", other),
    }
}

#[test]
fn workspace_of_a_restore_lies_beside_the_archive() {
    let restored = IndexerStore::from_backup("/backups/nightly.tar.zst", "/db");
    match restored.workspace_place() {
        Place::Beside { file, name } => {
            assert_eq!((*file, name), ("/backups/nightly.tar.zst", "rocksdb_backup"));
        }
        other => panic!("{:?}", other),
    }
    match restored.archive_place() {
        Place::At { path } => assert_eq!(*path, "/backups/nightly.tar.zst"),
        other => panic!("{:?}", other),
    }
}

#[test]
fn restoring_writes_no_archive() {
    let (steps, _) = take(restore(), None);
    for step in [
        BackupStep::CreateArchive,
        BackupStep::StartCompression,
        BackupStep::PackWorkspace,
        BackupStep::FinishTarball,
        BackupStep::FinishCompression,
    ] {
        assert!(!steps.contains(&step));
    }
    assert_eq!(steps.last(), Some(&BackupStep::RemoveWorkspace));
}

/// A directory tree in memory. Of a database it keeps the entries, of a workspace the databases
/// that were backed up, and of an archive the workspace packed in it.
#[derive(Default)]
struct Disk {
    databases: BTreeMap<String, Vec<String>>,
    workspaces: BTreeMap<String, Vec<Vec<String>>>,
    archives: BTreeMap<String, Vec<Vec<String>>>,
}

fn path_of(place: Place<'_, &'static str>) -> String {
    match place {
        Place::At { path } => path.to_string(),
        Place::Inside { directory, name } => format!("{}/{}", directory, name),
        Place::Beside { file, name } => {
            let (directory, _) = file.rsplit_once('/').unwrap();
            format!("{}/{}", directory, name)
        }
    }
}

impl Disk {
    fn perform(
        &mut self,
        step: BackupStep,
        workspace: &str,
        archive: &str,
        database: &str,
    ) -> Result<(), String> {
        match step {
            BackupStep::OpenEngine => {
                self.workspaces.entry(workspace.to_string()).or_default();
            }
            BackupStep::CreateBackup { flush } => {
                assert!(flush);
                let held = self.databases.get(database).ok_or("database")?.clone();
                self.workspaces.get_mut(workspace).ok_or("workspace")?.push(held);
            }
            BackupStep::FinishCompression => {
                let packed = self.workspaces.get(workspace).ok_or("workspace")?.clone();
                self.archives.insert(archive.to_string(), packed);
            }
            BackupStep::OpenArchive => {
                self.archives.get(archive).ok_or("archive")?;
            }
            BackupStep::UnpackWorkspace => {
                let packed = self.archives[archive].clone();
                self.workspaces.entry(workspace.to_string()).or_insert(packed);
            }
            BackupStep::RestoreLatest => {
                let latest = self.workspaces[workspace].last().ok_or("backup")?.clone();
                self.databases.insert(database.to_string(), latest);
            }
            BackupStep::RemoveWorkspace => {
                self.workspaces.remove(workspace).ok_or("workspace")?;
            }
            _ => {}
        }
        Ok(())
    }

    fn run(
        &mut self,
        mut script: Script,
        workspace: &str,
        archive: &str,
        database: &str,
    ) -> Result<(), String> {
        let mut step = script.current();
        loop {
            match script.next(self.perform(step, workspace, archive, database)) {
                Advance::Perform(next) => step = next,
                Advance::Finish(result) => return result,
            }
        }
    }

    fn back_up(&mut self, name: &str) -> Result<(), String> {
        let plan = plan(name);
        let workspace = path_of(plan.workspace_place());
        let archive = path_of(plan.archive_place());
        self.run(plan.script, &workspace, &archive, "/db")
    }

    fn restore(&mut self, file: &'static str, directory: &'static str) -> Result<(), String> {
        let plan = IndexerStore::from_backup(file, directory);
        let workspace = path_of(plan.workspace_place());
        let archive = path_of(plan.archive_place());
        self.run(plan.script, &workspace, &archive, directory)
    }

    fn write(&mut self, database: &str, entry: &str) {
        self.databases.entry(database.to_string()).or_default().push(entry.to_string());
    }
}

#[test]
fn restoring_gives_back_what_was_backed_up() {
    let mut disk = Disk::default();
    disk.write("/db", "a");
    disk.write("/other", "old");
    assert_eq!(disk.back_up("nightly"), Ok(()));
    disk.write("/db", "b");
    assert_eq!(disk.restore("/backups/nightly.tar.zst", "/other"), Ok(()));
    assert_eq!(disk.databases["/other"], ["a"]);
    assert_eq!(disk.databases["/db"], ["a", "b"]);
    assert!(disk.workspaces.is_empty());
    assert_eq!(disk.archives.keys().collect::<Vec<_>>(), ["/backups/nightly.tar.zst"]);
}

#[test]
fn second_backup_of_a_name_replaces_the_first() {
    let mut disk = Disk::default();
    disk.write("/db", "a");
    assert_eq!(disk.back_up("nightly"), Ok(()));
    disk.write("/db", "b");
    assert_eq!(disk.back_up("nightly"), Ok(()));
    assert_eq!(disk.restore("/backups/nightly.tar.zst", "/other"), Ok(()));
    assert_eq!(disk.databases["/other"], ["a", "b"]);
    assert_eq!(disk.archives.len(), 1);
}

#[test]
fn restoring_a_missing_archive_fails_at_once() {
    let mut disk = Disk::default();
    disk.write("/other", "old");
    assert_eq!(
        disk.restore("/backups/nightly.tar.zst", "/other"),
        Err("archive".to_string())
    );
    assert_eq!(disk.databases["/other"], ["old"]);
    assert!(disk.workspaces.is_empty());
}
