use std::collections::{BTreeMap, BTreeSet};

use bundle_repository::error::{FaultKind, IoFault, RepositoryError};
use bundle_repository::ident::DocId;
use bundle_repository::kind::Kind;
use bundle_repository::listing::Entry;
use bundle_repository::metadata::{Label, Metadata};
use bundle_repository::repository::{Archived, Bundle, Inboxed, Repository, Staging};
use bundle_repository::request::{OpenMode, Outcome, Pending, Request};
use bundle_repository::time::Timestamp;

/// A directory tree in memory that carries out the repository's requests the
/// way a filesystem does.
struct Disk {
    dirs: BTreeMap<String, Timestamp>,
    files: BTreeMap<String, Vec<u8>>,
    clock: i64,
    log: Vec<Request>,
}

fn fault(kind: FaultKind, message: &str) -> IoFault {
    IoFault { kind, message: String::from(message) }
}

fn parent(path: &str) -> Option<&str> {
    path.rfind('/').map(|at| &path[..at]).filter(|p| !p.is_empty())
}

impl Disk {
    fn new() -> Disk {
        Disk { dirs: BTreeMap::new(), files: BTreeMap::new(), clock: 0, log: Vec::new() }
    }

    fn tick(&mut self) -> Timestamp {
        self.clock += 1;
        Timestamp { seconds: self.clock, nanos: 0 }
    }

    fn create_dir_all(&mut self, path: &str) {
        let mut at = Some(path);
        while let Some(dir) = at {
            if !self.dirs.contains_key(dir) {
                let now = self.tick();
                self.dirs.insert(String::from(dir), now);
            }
            at = parent(dir);
        }
    }

    fn step(&mut self, request: &Request) -> Result<(), IoFault> {
        self.log.push(request.clone());
        match request {
            Request::CreateDirAll { path } => {
                self.create_dir_all(path);
                Ok(())
            }
            Request::Rename { from, to } => {
                if !self.dirs.contains_key(from) {
                    return Err(fault(FaultKind::NotFound, "No such file or directory"));
                }
                if self.dirs.contains_key(to) {
                    return Err(fault(FaultKind::AlreadyExists, "File exists"));
                }
                let inside = format!("{}/", from);
                let moved: Vec<String> =
                    self.files.keys().filter(|f| f.starts_with(&inside)).cloned().collect();
                for file in moved {
                    let bytes = self.files.remove(&file).unwrap();
                    self.files.insert(format!("{}/{}", to, &file[inside.len()..]), bytes);
                }
                self.dirs.remove(from);
                let now = self.tick();
                self.dirs.insert(to.clone(), now);
                Ok(())
            }
            Request::RemoveDirAll { path } => {
                if self.dirs.remove(path).is_none() {
                    return Err(fault(FaultKind::NotFound, "No such file or directory"));
                }
                let inside = format!("{}/", path);
                self.files.retain(|file, _| !file.starts_with(&inside));
                Ok(())
            }
            Request::Probe { path } => {
                if self.dirs.contains_key(path) || self.files.contains_key(path) {
                    Ok(())
                } else {
                    Err(fault(FaultKind::NotFound, "No such file or directory"))
                }
            }
            Request::Open { .. } | Request::ReadDir { .. } => {
                panic!("not a step without a result")
            }
        }
    }

    /// Opens a file. The handle it gives is the path.
    fn open(&mut self, request: &Request) -> Result<String, IoFault> {
        self.log.push(request.clone());
        match request {
            Request::Open { path, mode: OpenMode::Read } => {
                if self.files.contains_key(path) {
                    Ok(path.clone())
                } else {
                    Err(fault(FaultKind::NotFound, "No such file or directory"))
                }
            }
            Request::Open { path, mode: _ } => match parent(path) {
                Some(dir) if self.dirs.contains_key(dir) => {
                    self.files.insert(path.clone(), Vec::new());
                    Ok(path.clone())
                }
                _ => Err(fault(FaultKind::NotFound, "No such file or directory")),
            },
            _ => panic!("not an open"),
        }
    }

    fn read_dir(&mut self, request: &Request) -> Result<Vec<Result<Entry, IoFault>>, IoFault> {
        self.log.push(request.clone());
        let path = match request {
            Request::ReadDir { path } => path,
            _ => panic!("not a listing"),
        };
        if !self.dirs.contains_key(path) {
            return Err(fault(FaultKind::NotFound, "No such file or directory"));
        }
        let inside = format!("{}/", path);
        let mut entries = Vec::new();
        // In the order of the names backwards, so that nothing comes out
        // sorted by accident.
        for (dir, modified) in self.dirs.iter().rev() {
            if let Some(name) = dir.strip_prefix(&inside) {
                if !name.contains('/') {
                    entries.push(Ok(Entry { name: String::from(name), modified: *modified }));
                }
            }
        }
        Ok(entries)
    }

    /// Carries out the steps of a pending operation in order and stops at
    /// the first that fails.
    fn run<T>(&mut self, pending: Pending<T>) -> Result<T, RepositoryError> {
        let mut outcome = Outcome::Completed;
        let steps: Vec<Request> = pending.requests().clone();
        for (step, request) in steps.iter().enumerate() {
            if let Err(fault) = self.step(request) {
                outcome = Outcome::Failed { step, fault };
                break;
            }
        }
        pending.settle(outcome)
    }

    fn write<'r>(&mut self, bundle: &Bundle<'r, Staging>, kind: Kind, bytes: &[u8]) {
        let writing = bundle.write(kind);
        let opened = self.open(writing.request());
        let file = writing.settle(opened).unwrap();
        self.files.insert(file, bytes.to_vec());
    }

    fn read<'r, S: bundle_repository::repository::BundleState>(
        &mut self,
        bundle: &Bundle<'r, S>,
        kind: &Kind,
    ) -> Result<Option<Vec<u8>>, RepositoryError> {
        let reading = bundle.read(kind);
        let opened = self.open(reading.request());
        Ok(reading.settle(opened)?.map(|file| self.files[&file].clone()))
    }

    fn list<'r>(&mut self, repository: &'r Repository) -> Result<Vec<Bundle<'r, Inboxed>>, RepositoryError> {
        let listing = repository.inbox().list();
        let scanned = self.read_dir(listing.request());
        listing.settle(scanned)
    }

    fn in_inbox<'r>(&mut self, repository: &'r Repository, id: DocId) -> Option<Bundle<'r, Inboxed>> {
        let probe = repository.inbox().get(id);
        let found = self.step(probe.request());
        probe.settle(found)
    }

    fn in_archive<'r>(&mut self, repository: &'r Repository, id: DocId) -> Option<Bundle<'r, Archived>> {
        let probe = repository.archive().get(id);
        let found = self.step(probe.request());
        probe.settle(found)
    }

    fn partitions_holding(&self, id: &DocId) -> Vec<&'static str> {
        let name = id.to_base58();
        ["staging", "inbox", "archive"]
            .into_iter()
            .filter(|p| self.dirs.contains_key(&format!("/repo/{}/{}", p, name)))
            .collect()
    }
}

fn stamp(time: &Timestamp) -> serde_json::Value {
    serde_json::Value::Array(vec![
        serde_json::Value::from(time.seconds),
        serde_json::Value::from(time.nanos),
    ])
}

fn unstamp(value: &serde_json::Value) -> Timestamp {
    Timestamp {
        seconds: value[0].as_i64().unwrap(),
        nanos: u32::try_from(value[1].as_u64().unwrap()).unwrap(),
    }
}

/// Writes a record down as JSON.
fn encode(metadata: &Metadata) -> Vec<u8> {
    let mut record = serde_json::Map::new();
    record.insert(String::from("uploaded"), stamp(&metadata.uploaded));
    record.insert(
        String::from("archived"),
        metadata.archived.as_ref().map(stamp).unwrap_or(serde_json::Value::Null),
    );
    record.insert(String::from("title"), serde_json::Value::from(metadata.title.clone()));
    record.insert(String::from("pages"), serde_json::Value::from(metadata.pages));
    let labels: Vec<String> = metadata.labels.labels().iter().map(Label::to_string).collect();
    record.insert(String::from("labels"), serde_json::Value::from(labels));
    let mut properties = serde_json::Map::new();
    for (key, value) in metadata.properties.entries() {
        properties.insert(key.clone(), serde_json::Value::from(value.clone()));
    }
    record.insert(String::from("properties"), serde_json::Value::Object(properties));
    serde_json::to_vec(&serde_json::Value::Object(record)).unwrap()
}

/// Reads a record that was written down as JSON.
fn decode(bytes: &[u8]) -> Metadata {
    let record: serde_json::Value = serde_json::from_slice(bytes).unwrap();
    let mut metadata = Metadata::new(unstamp(&record["uploaded"]));
    if !record["archived"].is_null() {
        metadata.archived = Some(unstamp(&record["archived"]));
    }
    metadata.title = record["title"].as_str().map(String::from);
    metadata.pages = u32::try_from(record["pages"].as_u64().unwrap()).unwrap();
    for label in record["labels"].as_array().unwrap() {
        metadata.labels.insert(Label::new(label.as_str().unwrap()));
    }
    for (key, value) in record["properties"].as_object().unwrap() {
        metadata.properties.insert(key.clone(), String::from(value.as_str().unwrap()));
    }
    metadata
}

fn open_repository(disk: &mut Disk) -> Repository {
    disk.run(Repository::with_path(String::from("/repo"))).unwrap()
}

fn ids<S: bundle_repository::repository::BundleState>(bundles: &[Bundle<'_, S>]) -> Vec<DocId> {
    bundles.iter().map(|b| *b.id()).collect()
}

#[test]
fn opening_creates_the_root_and_is_repeatable() {
    let mut disk = Disk::new();
    let repository = open_repository(&mut disk);
    assert_eq!(repository.path(), "/repo");
    assert!(disk.dirs.contains_key("/repo"));
    assert_eq!(disk.log, vec![Request::CreateDirAll { path: String::from("/repo") }]);
    let again = open_repository(&mut disk);
    assert_eq!(again.path(), "/repo");
    // The partitions come when they are first needed.
    assert!(!disk.dirs.contains_key("/repo/staging"));
}

#[test]
fn opening_hands_a_fault_on_as_it_came() {
    let pending = Repository::with_path(String::from("/forbidden"));
    let denied = fault(FaultKind::Other, "Permission denied (os error 13)");
    let result = pending.settle(Outcome::Failed { step: 0, fault: denied.clone() });
    assert_eq!(result.err(), Some(RepositoryError::IoFailure(denied)));
}

#[test]
fn a_bundle_passes_through_the_partitions_one_at_a_time() {
    let mut disk = Disk::new();
    let repository = open_repository(&mut disk);
    let staged = disk.run(repository.stage()).unwrap();
    let id = *staged.id();
    assert_eq!(staged.path(), format!("/repo/staging/{}", id.to_base58()));
    assert_eq!(disk.partitions_holding(&id), vec!["staging"]);

    let inboxed = disk.run(staged.create()).unwrap();
    assert_eq!(*inboxed.id(), id);
    assert_eq!(inboxed.path(), format!("/repo/inbox/{}", id.to_base58()));
    assert_eq!(disk.partitions_holding(&id), vec!["inbox"]);

    let archived = disk.run(inboxed.archive()).unwrap();
    assert_eq!(*archived.id(), id);
    assert_eq!(archived.path(), format!("/repo/archive/{}", id.to_base58()));
    assert_eq!(disk.partitions_holding(&id), vec!["archive"]);
}

#[test]
fn a_transition_prepares_the_partition_and_then_moves_in_one_step() {
    let mut disk = Disk::new();
    let repository = open_repository(&mut disk);
    let staged = disk.run(repository.stage()).unwrap();
    let name = staged.id().to_base58();
    let pending = staged.create();
    assert_eq!(
        pending.requests(),
        &vec![
            Request::CreateDirAll { path: String::from("/repo/inbox") },
            Request::Rename {
                from: format!("/repo/staging/{}", name),
                to: format!("/repo/inbox/{}", name),
            },
        ]
    );
    let inboxed = disk.run(pending).unwrap();
    let pending = inboxed.archive();
    assert_eq!(
        pending.requests(),
        &vec![
            Request::CreateDirAll { path: String::from("/repo/archive") },
            Request::Rename {
                from: format!("/repo/inbox/{}", name),
                to: format!("/repo/archive/{}", name),
            },
        ]
    );
}

#[test]
fn what_is_written_is_read_back() {
    let mut disk = Disk::new();
    let repository = open_repository(&mut disk);
    let staged = disk.run(repository.stage()).unwrap();
    disk.write(&staged, Kind::Document, b"%PDF-1.4...");
    disk.write(&staged, Kind::other("notes"), b"\x00\x01\xfe\xff");
    assert_eq!(disk.read(&staged, &Kind::Document), Ok(Some(b"%PDF-1.4...".to_vec())));
    assert_eq!(disk.read(&staged, &Kind::other("notes")), Ok(Some(vec![0, 1, 0xfe, 0xff])));
}

#[test]
fn a_second_write_overwrites_the_first() {
    let mut disk = Disk::new();
    let repository = open_repository(&mut disk);
    let staged = disk.run(repository.stage()).unwrap();
    disk.write(&staged, Kind::Plaintext, b"a long first text");
    disk.write(&staged, Kind::Plaintext, b"short");
    assert_eq!(disk.read(&staged, &Kind::Plaintext), Ok(Some(b"short".to_vec())));
}

#[test]
fn reading_what_was_never_written_gives_nothing() {
    let mut disk = Disk::new();
    let repository = open_repository(&mut disk);
    let staged = disk.run(repository.stage()).unwrap();
    assert_eq!(disk.read(&staged, &Kind::Preview), Ok(None));
    let inboxed = disk.run(staged.create()).unwrap();
    assert_eq!(disk.read(&inboxed, &Kind::Metadata), Ok(None));
    let archived = disk.run(inboxed.archive()).unwrap();
    assert_eq!(disk.read(&archived, &Kind::other("juicer.log")), Ok(None));
}

#[test]
fn fragments_move_with_their_bundle() {
    let mut disk = Disk::new();
    let repository = open_repository(&mut disk);
    let staged = disk.run(repository.stage()).unwrap();
    disk.write(&staged, Kind::Document, b"%PDF-1.4...");
    let inboxed = disk.run(staged.create()).unwrap();
    assert_eq!(disk.read(&inboxed, &Kind::Document), Ok(Some(b"%PDF-1.4...".to_vec())));
    let archived = disk.run(inboxed.archive()).unwrap();
    assert_eq!(disk.read(&archived, &Kind::Document), Ok(Some(b"%PDF-1.4...".to_vec())));
}

#[test]
fn the_inbox_lists_what_was_committed_in_order() {
    let mut disk = Disk::new();
    let repository = open_repository(&mut disk);
    let mut committed = Vec::new();
    for _ in 0..25 {
        let staged = disk.run(repository.stage()).unwrap();
        let inboxed = disk.run(staged.create()).unwrap();
        committed.push(*inboxed.id());
    }
    // Some that are staged and not committed do not show.
    for _ in 0..3 {
        disk.run(repository.stage()).unwrap();
    }
    let listed = disk.list(&repository).unwrap();
    assert_eq!(listed.len(), 25);
    assert_eq!(ids(&listed), committed);
}

#[test]
fn bundles_of_one_time_are_listed_by_identifier() {
    let mut disk = Disk::new();
    let repository = open_repository(&mut disk);
    let mut committed = Vec::new();
    for _ in 0..10 {
        let staged = disk.run(repository.stage()).unwrap();
        let inboxed = disk.run(staged.create()).unwrap();
        committed.push(*inboxed.id());
    }
    let same = Timestamp { seconds: 1_700_000_000, nanos: 5 };
    for modified in disk.dirs.values_mut() {
        *modified = same;
    }
    committed.sort();
    let listed = disk.list(&repository).unwrap();
    assert_eq!(ids(&listed), committed);
}

#[test]
fn one_foreign_entry_fails_the_whole_listing() {
    let mut disk = Disk::new();
    let repository = open_repository(&mut disk);
    let staged = disk.run(repository.stage()).unwrap();
    disk.run(staged.create()).unwrap();
    disk.create_dir_all("/repo/inbox/lost+found");
    assert_eq!(disk.list(&repository).err(), Some(RepositoryError::InvalidIdentifier));
}

#[test]
fn a_fresh_repository_lists_an_empty_inbox() {
    let mut disk = Disk::new();
    let repository = open_repository(&mut disk);
    assert!(!disk.dirs.contains_key("/repo/inbox"));
    assert_eq!(disk.list(&repository).map(|listed| listed.len()), Ok(0));
    // Staged bundles do not make an inbox.
    for _ in 0..3 {
        disk.run(repository.stage()).unwrap();
    }
    assert_eq!(disk.list(&repository).map(|listed| listed.len()), Ok(0));
    // Listing has created nothing.
    assert!(!disk.dirs.contains_key("/repo/inbox"));
    assert_eq!(disk.log.last(), Some(&Request::ReadDir { path: String::from("/repo/inbox") }));
}

#[test]
fn an_inbox_that_cannot_be_read_fails_the_listing() {
    let repository = Repository::with_path(String::from("/repo")).settle(Outcome::Completed).unwrap();
    let denied = fault(FaultKind::Other, "Permission denied (os error 13)");
    let listing = repository.inbox().list();
    assert_eq!(
        listing.settle(Err(denied.clone())).err(),
        Some(RepositoryError::IoFailure(denied))
    );
}

#[test]
fn deleting_a_staged_bundle_removes_it_everywhere() {
    let mut disk = Disk::new();
    let repository = open_repository(&mut disk);
    let staged = disk.run(repository.stage()).unwrap();
    let id = *staged.id();
    disk.write(&staged, Kind::Document, b"%PDF-1.4...");
    disk.write(&staged, Kind::other("juicer.log"), b"...");
    let path = staged.path();
    assert_eq!(disk.run(staged.delete()), Ok(()));
    assert!(disk.partitions_holding(&id).is_empty());
    assert!(!disk.files.keys().any(|file| file.starts_with(&path)));
    assert!(disk.in_inbox(&repository, id).is_none());
    assert!(disk.in_archive(&repository, id).is_none());
}

#[test]
fn deleting_an_empty_bundle_works_as_well() {
    let mut disk = Disk::new();
    let repository = open_repository(&mut disk);
    let staged = disk.run(repository.stage()).unwrap();
    assert_eq!(disk.run(staged.delete()), Ok(()));
}

#[test]
fn deleting_an_inboxed_bundle_takes_it_off_the_list() {
    let mut disk = Disk::new();
    let repository = open_repository(&mut disk);
    let staged = disk.run(repository.stage()).unwrap();
    let inboxed = disk.run(staged.create()).unwrap();
    let id = *inboxed.id();
    assert_eq!(disk.run(inboxed.delete()), Ok(()));
    assert!(disk.list(&repository).unwrap().is_empty());
    assert!(disk.in_inbox(&repository, id).is_none());
}

#[test]
fn deleting_twice_reports_not_found() {
    let mut disk = Disk::new();
    let repository = open_repository(&mut disk);
    let staged = disk.run(repository.stage()).unwrap();
    let inboxed = disk.run(staged.create()).unwrap();
    let id = *inboxed.id();
    let twin = disk.in_inbox(&repository, id).unwrap();
    assert_eq!(disk.run(inboxed.delete()), Ok(()));
    assert_eq!(disk.run(twin.delete()), Err(RepositoryError::NotFound));
}

#[test]
fn document_from_staging_to_archive() {
    let mut disk = Disk::new();
    let repository = open_repository(&mut disk);
    let a = disk.run(repository.stage()).unwrap();
    let id = *a.id();
    disk.write(&a, Kind::Document, b"%PDF-1.4...");
    let a = disk.run(a.create()).unwrap();
    assert_eq!(ids(&disk.list(&repository).unwrap()), vec![id]);

    let mut metadata = Metadata::new(Timestamp { seconds: 1_700_000_000, nanos: 0 });
    metadata.pages = 3;
    metadata.labels.insert(Label::new("invoice"));
    metadata.properties.insert(String::from("lang"), String::from("de"));
    let writing = a.write_metadata();
    assert_eq!(
        writing.request(),
        &Request::Open {
            path: format!("/repo/inbox/{}/metadata.json", id.to_base58()),
            mode: OpenMode::ReadWrite,
        }
    );
    let opened = disk.open(writing.request());
    let file = writing.settle(opened).unwrap();
    disk.files.insert(file, encode(&metadata));

    // The record is read back as it was written; the bundle has not moved
    // and its document is as it was.
    let required = a.read_metadata();
    let opened = disk.open(required.request());
    let file = required.settle(opened).unwrap();
    let read_back = decode(&disk.files[&file]);
    assert!(read_back.same(&metadata));
    assert_eq!(read_back.pages, 3);
    assert_eq!(ids(&disk.list(&repository).unwrap()), vec![id]);
    assert!(disk.in_archive(&repository, id).is_none());
    assert_eq!(disk.read(&a, &Kind::Document), Ok(Some(b"%PDF-1.4...".to_vec())));

    let a = disk.run(a.archive()).unwrap();
    assert!(disk.list(&repository).unwrap().is_empty());
    let found = disk.in_archive(&repository, id).unwrap();
    assert_eq!(found.id(), a.id());
    assert_eq!(found.path(), a.path());
    let kept = disk.read(&found, &Kind::Metadata).unwrap().unwrap();
    assert!(decode(&kept).same(&metadata));
    assert_eq!(disk.read(&found, &Kind::Document), Ok(Some(b"%PDF-1.4...".to_vec())));
}

#[test]
fn ten_thousand_staged_bundles_have_ten_thousand_identifiers() {
    let mut disk = Disk::new();
    let repository = open_repository(&mut disk);
    let mut seen = BTreeSet::new();
    for _ in 0..10_000 {
        let staged = repository.stage().settle(Outcome::Completed).unwrap();
        assert!(seen.insert(*staged.id()));
    }
    assert_eq!(seen.len(), 10_000);
}

#[test]
fn archiving_twice_succeeds_once() {
    let mut disk = Disk::new();
    let repository = open_repository(&mut disk);
    let staged = disk.run(repository.stage()).unwrap();
    let inboxed = disk.run(staged.create()).unwrap();
    let id = *inboxed.id();
    let twin = disk.in_inbox(&repository, id).unwrap();
    // Both are under way before either is carried out.
    let first = inboxed.archive();
    let second = twin.archive();
    let first = disk.run(first);
    let second = disk.run(second);
    assert!(first.is_ok());
    assert_eq!(second.err(), Some(RepositoryError::NotFound));
    assert_eq!(disk.partitions_holding(&id), vec!["archive"]);
}

#[test]
fn committing_onto_a_taken_name_is_a_conflict() {
    let mut disk = Disk::new();
    let repository = open_repository(&mut disk);
    let staged = disk.run(repository.stage()).unwrap();
    let id = *staged.id();
    // An empty directory of that name is enough.
    disk.create_dir_all(&format!("/repo/inbox/{}", id.to_base58()));
    assert_eq!(disk.run(staged.create()).err(), Some(RepositoryError::Conflict));
    // The bundle is still where it was.
    assert_eq!(disk.partitions_holding(&id), vec!["staging", "inbox"]);
    assert!(disk.dirs.contains_key(&format!("/repo/staging/{}", id.to_base58())));
}

#[test]
fn committing_what_has_vanished_reports_not_found() {
    let mut disk = Disk::new();
    let repository = open_repository(&mut disk);
    let staged = disk.run(repository.stage()).unwrap();
    let path = staged.path();
    disk.dirs.remove(&path);
    assert_eq!(disk.run(staged.create()).err(), Some(RepositoryError::NotFound));
}

#[test]
fn lookups_find_what_is_there_and_nothing_else() {
    let mut disk = Disk::new();
    let repository = open_repository(&mut disk);
    let staged = disk.run(repository.stage()).unwrap();
    let id = *staged.id();
    assert!(disk.in_inbox(&repository, id).is_none());
    assert!(disk.in_archive(&repository, id).is_none());
    let inboxed = disk.run(staged.create()).unwrap();
    assert_eq!(disk.in_inbox(&repository, id).map(|b| *b.id()), Some(id));
    assert!(disk.in_archive(&repository, id).is_none());
    disk.run(inboxed.archive()).unwrap();
    assert!(disk.in_inbox(&repository, id).is_none());
    assert_eq!(disk.in_archive(&repository, id).map(|b| *b.id()), Some(id));
    assert!(disk.in_archive(&repository, DocId::random()).is_none());
}

#[test]
fn a_lookup_that_fails_for_any_reason_finds_nothing() {
    let repository = Repository::with_path(String::from("/repo")).settle(Outcome::Completed).unwrap();
    let id = DocId::random();
    let probe = repository.inbox().get(id);
    assert_eq!(
        probe.request(),
        &Request::Probe { path: format!("/repo/inbox/{}", id.to_base58()) }
    );
    assert!(probe.settle(Err(fault(FaultKind::Other, "Permission denied"))).is_none());
    let probe = repository.archive().get(id);
    assert_eq!(
        probe.request(),
        &Request::Probe { path: format!("/repo/archive/{}", id.to_base58()) }
    );
    assert!(probe.settle(Ok(())).is_some());
}

#[test]
fn bundles_of_different_identifiers_do_not_touch() {
    let mut disk = Disk::new();
    let repository = open_repository(&mut disk);
    let a = disk.run(repository.stage()).unwrap();
    let b = disk.run(repository.stage()).unwrap();
    let (a_id, b_id) = (*a.id(), *b.id());
    assert_ne!(a.path(), b.path());
    disk.write(&a, Kind::Document, b"a");
    disk.write(&b, Kind::Document, b"b");
    let a = disk.run(a.create()).unwrap();
    assert_eq!(disk.partitions_holding(&b_id), vec!["staging"]);
    assert_eq!(disk.read(&b, &Kind::Document), Ok(Some(b"b".to_vec())));
    disk.run(b.delete()).unwrap();
    assert_eq!(disk.partitions_holding(&a_id), vec!["inbox"]);
    assert_eq!(disk.read(&a, &Kind::Document), Ok(Some(b"a".to_vec())));
}
