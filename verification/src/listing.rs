//! Looking into the inbox and the archive.
//!
//! A lookup asks whether a bundle's directory is there. A listing reads the
//! inbox and gives its bundles in the order in which they were last touched;
//! it creates nothing, and an inbox that is not there yet lists as empty.
//! Neither holds anything in place: what they found may be gone by the time
//! the caller acts on it.

use vstd::prelude::*;

use crate::error::{FaultKind, IoFault, RepositoryError};
use crate::ident::{bytes_precede, lemma_precede_total, lemma_precede_transitive, DocId, ID_LEN};
use crate::layout::{partition_path, Partition};
use crate::repository::{Archive, Archived, Bundle, BundleState, BundleView, Inbox, Inboxed, Repository};
use crate::request::{Request, RequestView};
use crate::time::Timestamp;

verus! {

/// A lookup that is decided but not yet carried out: the path to look at,
/// and the handle to give if something is there.
pub struct Probe<T> {
    request: Request,
    value: T,
}

impl<T> Probe<T> {
    /// The path that is looked at.
    pub closed spec fn path(&self) -> Seq<char> {
        self.request@->Probe_path
    }

    /// What the lookup gives if something is there.
    pub closed spec fn value(&self) -> T {
        self.value
    }

    #[verifier::type_invariant]
    spec fn probes(&self) -> bool {
        self.request@ == (RequestView::Probe { path: self.path() })
    }

    /// The step to take: look whether anything stands at the path.
    pub fn request(&self) -> (request: &Request)
        ensures
            request@ == (RequestView::Probe { path: self.path() }),
    {
        proof {
            use_type_invariant(self);
        }
        &self.request
    }

    /// Ends the lookup. Whatever kept the driver from seeing the directory,
    /// the answer is that there is no such bundle; a lookup never fails.
    pub fn settle(self, found: Result<(), IoFault>) -> (bundle: Option<T>)
        ensures
            bundle == if found is Ok {
                Some(self.value())
            } else {
                None
            },
    {
        match found {
            Ok(_) => Some(self.value),
            Err(_) => None,
        }
    }
}

/// The lookup of one bundle in the partition of a state.
fn probe<'r, State: BundleState>(repository: &'r Repository, id: DocId) -> (probe: Probe<
    Bundle<'r, State>,
>)
    ensures
        probe.value()@ == (BundleView {
            root: repository@,
            partition: State::partition(),
            id: id@,
        }),
        probe.value()@.wf(),
        probe.path() == probe.value()@.path(),
{
    let bundle: Bundle<'r, State> = Bundle::new(id, repository);
    Probe { request: Request::Probe { path: bundle.path() }, value: bundle }
}

/// One entry of a directory, as the driver read it.
#[derive(Debug, Clone, PartialEq, Eq)]
pub struct Entry {
    /// The name of the entry, with what is no text in it replaced.
    pub name: String,
    /// When the entry was last modified.
    pub modified: Timestamp,
}

/// What orders the bundles of a listing: the time of the last modification,
/// and among bundles of one time the identifier.
pub struct Key {
    pub modified: Timestamp,
    pub id: Seq<u8>,
}

/// Whether one key comes before another.
pub open spec fn key_before(a: Key, b: Key) -> bool {
    a.modified.before(b.modified) || (a.modified == b.modified && bytes_precede(a.id, b.id))
}

/// The keys rise from each place to every later one; none occurs twice.
pub open spec fn ascending(keys: Seq<Key>) -> bool {
    forall|i: int, j: int| 0 <= i < j < keys.len() ==> key_before(#[trigger] keys[i], #[trigger] keys[j])
}

/// The key of an entry that was read and whose name is an identifier.
pub open spec fn report_key(report: Result<Entry, IoFault>) -> Option<Key> {
    match report {
        Ok(entry) => match DocId::parsed(entry.name@) {
            Some(id) => Some(Key { modified: entry.modified, id }),
            None => None,
        },
        Err(_) => None,
    }
}

/// What is wrong with an entry, if anything: it could not be read, or its
/// name is not an identifier.
pub open spec fn report_error(report: Result<Entry, IoFault>) -> Option<RepositoryError> {
    match report {
        Ok(entry) => if DocId::parsed(entry.name@) is None {
            Some(RepositoryError::InvalidIdentifier)
        } else {
            None
        },
        Err(fault) => Some(RepositoryError::IoFailure(fault)),
    }
}

/// One of the first `n` entries has this key.
pub open spec fn reported(reports: Seq<Result<Entry, IoFault>>, n: int, key: Key) -> bool {
    exists|i: int| 0 <= i < n && #[trigger] report_key(reports[i]) == Some(key)
}

/// No two of the first `n` entries have the same key.
pub open spec fn distinct_keys(reports: Seq<Result<Entry, IoFault>>, n: int) -> bool {
    forall|i: int, j: int|
        0 <= i < j < n ==> #[trigger] report_key(reports[i]) != #[trigger] report_key(reports[j])
}

/// The bundles are those of the entries, each once, in the order of their
/// keys.
pub open spec fn lists(
    root: Seq<char>,
    reports: Seq<Result<Entry, IoFault>>,
    bundles: Seq<BundleView>,
) -> bool {
    exists|keys: Seq<Key>|
        {
            &&& ascending(keys)
            &&& keys.len() == bundles.len()
            &&& forall|i: int|
                0 <= i < keys.len() ==> (#[trigger] bundles[i]) == (BundleView {
                    root,
                    partition: Partition::Inbox,
                    id: keys[i].id,
                }) && bundles[i].wf()
            &&& forall|key: Key|
                #[trigger] keys.contains(key) <==> reported(reports, reports.len() as int, key)
        }
}

/// What a listing comes to.
///
/// An inbox whose directory is not there holds nothing: the directory comes
/// with the first commit, so before that the listing is empty, not failed.
/// The listing fails if the directory could not be read for any other
/// reason, and at the first entry that could not be read or whose name is not
/// an identifier: one such entry fails the whole listing. Otherwise it gives
/// the bundles of the entries in the order of their keys, as many as there
/// are entries if their keys differ.
pub open spec fn listed(
    root: Seq<char>,
    scanned: Result<Vec<Result<Entry, IoFault>>, IoFault>,
    result: Result<Seq<BundleView>, RepositoryError>,
) -> bool {
    match scanned {
        Err(fault) => if fault.kind == FaultKind::NotFound {
            result == Ok::<_, RepositoryError>(Seq::<BundleView>::empty())
        } else {
            result == Err::<Seq<BundleView>, _>(RepositoryError::IoFailure(fault))
        },
        Ok(reports) => match result {
            Err(error) => exists|i: int|
                {
                    &&& 0 <= i < reports@.len()
                    &&& #[trigger] report_error(reports@[i]) == Some(error)
                    &&& forall|j: int| 0 <= j < i ==> #[trigger] report_error(reports@[j]) is None
                },
            Ok(bundles) => {
                &&& forall|i: int|
                    0 <= i < reports@.len() ==> #[trigger] report_error(reports@[i]) is None
                &&& lists(root, reports@, bundles)
                &&& distinct_keys(reports@, reports@.len() as int) ==> bundles.len()
                    == reports@.len()
            },
        },
    }
}

/// The order of keys is an order: no key comes before itself, of two that
/// differ one comes before the other but not both, and it is transitive.
pub proof fn lemma_key_order(a: Key, b: Key, c: Key)
    requires
        a.id.len() == b.id.len(),
    ensures
        !key_before(a, a),
        a != b ==> key_before(a, b) || key_before(b, a),
        !(key_before(a, b) && key_before(b, a)),
        key_before(a, b) && key_before(b, c) ==> key_before(a, c),
{
    lemma_precede_total(a.id, b.id);
    lemma_precede_total(a.id, a.id);
    if bytes_precede(a.id, b.id) && bytes_precede(b.id, c.id) {
        lemma_precede_transitive(a.id, b.id, c.id);
    }
}

struct Slot {
    modified: Timestamp,
    id: DocId,
}

impl Slot {
    spec fn key(self) -> Key {
        Key { modified: self.modified, id: self.id@ }
    }

    fn before(&self, other: &Slot) -> (earlier: bool)
        ensures
            earlier == key_before(self.key(), other.key()),
    {
        self.modified.is_before(&other.modified) || (self.modified.same(&other.modified)
            && self.id.precedes(&other.id))
    }

    fn same(&self, other: &Slot) -> (equal: bool)
        ensures
            equal == (self.key() == other.key()),
    {
        self.modified.same(&other.modified) && self.id.same(&other.id)
    }
}

spec fn keys_of(slots: Seq<Slot>) -> Seq<Key> {
    Seq::new(slots.len(), |i: int| slots[i].key())
}

/// Puts a slot into its place among slots in rising order, unless its key is
/// already there.
fn place(sorted: &mut Vec<Slot>, slot: Slot) -> (added: bool)
    requires
        ascending(keys_of(old(sorted)@)),
    ensures
        ascending(keys_of(final(sorted)@)),
        forall|key: Key|
            #[trigger] keys_of(final(sorted)@).contains(key) <==> keys_of(old(sorted)@).contains(
                key,
            ) || key == slot.key(),
        added == !keys_of(old(sorted)@).contains(slot.key()),
        final(sorted)@.len() == old(sorted)@.len() + if added {
            1int
        } else {
            0int
        },
{
    let ghost before = keys_of(sorted@);
    let ghost key = slot.key();
    proof {
        slot.id.lemma_view(slot.id);
        assert forall|i: int| 0 <= i < before.len() implies (#[trigger] before[i]).id.len()
            == ID_LEN by {
            sorted@[i].id.lemma_view(sorted@[i].id);
        }
    }
    let mut at: usize = 0;
    while at < sorted.len() && sorted[at].before(&slot)
        invariant
            at <= sorted@.len(),
            keys_of(sorted@) == before,
            sorted@ == old(sorted)@,
            key == slot.key(),
            forall|i: int| 0 <= i < at ==> key_before(#[trigger] before[i], key),
        decreases sorted@.len() - at,
    {
        assert(before[at as int] == sorted@[at as int].key());
        at += 1;
    }
    if at < sorted.len() && sorted[at].same(&slot) {
        assert(before[at as int] == key);
        assert(before.contains(key));
        assert forall|k: Key| #[trigger] before.contains(k) || k == key implies before.contains(
            k,
        ) by {}
        return false;
    }
    proof {
        // Every key from `at` on comes after the new one.
        assert forall|i: int| at <= i < before.len() implies key_before(
            key,
            #[trigger] before[i],
        ) by {
            lemma_key_order(before[at as int], key, key);
            lemma_key_order(key, before[at as int], before[i]);
        }
        assert(!before.contains(key)) by {
            if before.contains(key) {
                let i = choose|i: int| 0 <= i < before.len() && before[i] == key;
                lemma_key_order(key, key, key);
            }
        }
    }
    sorted.insert(at, slot);
    proof {
        let after = keys_of(sorted@);
        assert(after =~= before.insert(at as int, key));
        assert forall|i: int, j: int| 0 <= i < j < after.len() implies key_before(
            #[trigger] after[i],
            #[trigger] after[j],
        ) by {
            if j < at {
                assert(after[i] == before[i] && after[j] == before[j]);
            } else if j == at {
                assert(after[i] == before[i]);
            } else if i < at {
                assert(after[i] == before[i] && after[j] == before[j - 1]);
                lemma_key_order(before[i], key, before[j - 1]);
            } else if i == at {
                assert(after[j] == before[j - 1]);
            } else {
                assert(after[i] == before[i - 1] && after[j] == before[j - 1]);
            }
        }
        assert forall|k: Key| #[trigger] after.contains(k) <==> before.contains(k) || k
            == key by {
            if after.contains(k) {
                let i = choose|i: int| 0 <= i < after.len() && after[i] == k;
                if i < at {
                    assert(before[i] == k);
                } else if i > at {
                    assert(before[i - 1] == k);
                }
            }
            if before.contains(k) {
                let i = choose|i: int| 0 <= i < before.len() && before[i] == k;
                if i < at {
                    assert(after[i] == k);
                } else {
                    assert(after[i + 1] == k);
                }
            }
            if k == key {
                assert(after[at as int] == k);
            }
        }
    }
    true
}

fn copy_fault(fault: &IoFault) -> (copy: IoFault)
    ensures
        copy == *fault,
{
    IoFault { kind: fault.kind, message: fault.message.clone() }
}

/// A listing of the inbox that is decided but not yet carried out.
pub struct Listing<'r> {
    repository: &'r Repository,
    request: Request,
}

impl<'r> Listing<'r> {
    /// The root of the repository.
    pub closed spec fn root(&self) -> Seq<char> {
        self.repository@
    }

    #[verifier::type_invariant]
    spec fn reads(&self) -> bool {
        self.request@ == (RequestView::ReadDir {
            path: partition_path(self.root(), Partition::Inbox),
        })
    }

    /// The step to take: read the directory of the inbox.
    pub fn request(&self) -> (request: &Request)
        ensures
            request@ == (RequestView::ReadDir {
                path: partition_path(self.root(), Partition::Inbox),
            }),
    {
        proof {
            use_type_invariant(self);
        }
        &self.request
    }

    /// Ends the listing with the entries that the driver read, in the order
    /// in which it read them.
    pub fn settle(self, scanned: Result<Vec<Result<Entry, IoFault>>, IoFault>) -> (result: Result<
        Vec<Bundle<'r, Inboxed>>,
        RepositoryError,
    >)
        ensures
            listed(
                self.root(),
                scanned,
                match result {
                    Ok(bundles) => Ok(Seq::new(bundles@.len(), |i: int| bundles@[i]@)),
                    Err(error) => Err(error),
                },
            ),
    {
        let reports = match scanned {
            Ok(reports) => reports,
            Err(fault) => {
                return match fault.kind {
                    FaultKind::NotFound => {
                        let nothing: Vec<Bundle<'r, Inboxed>> = Vec::new();
                        assert(Seq::new(nothing@.len(), |i: int| nothing@[i]@)
                            =~= Seq::<BundleView>::empty());
                        Ok(nothing)
                    },
                    _ => Err(RepositoryError::IoFailure(fault)),
                };
            },
        };
        let mut sorted: Vec<Slot> = Vec::new();
        let mut i: usize = 0;
        while i < reports.len()
            invariant
                i <= reports@.len(),
                scanned == Ok::<_, IoFault>(reports),
                ascending(keys_of(sorted@)),
                forall|j: int| 0 <= j < i ==> #[trigger] report_error(reports@[j]) is None,
                forall|key: Key|
                    #[trigger] keys_of(sorted@).contains(key) <==> reported(
                        reports@,
                        i as int,
                        key,
                    ),
                distinct_keys(reports@, i as int) ==> sorted@.len() == i,
            decreases reports@.len() - i,
        {
            let ghost before = keys_of(sorted@);
            match &reports[i] {
                Err(fault) => {
                    assert(report_error(reports@[i as int]) == Some(
                        RepositoryError::IoFailure(*fault),
                    ));
                    return Err(RepositoryError::IoFailure(copy_fault(fault)));
                },
                Ok(entry) => match DocId::from_str(entry.name.as_str()) {
                    Err(_) => {
                        assert(report_error(reports@[i as int]) == Some(
                            RepositoryError::InvalidIdentifier,
                        ));
                        return Err(RepositoryError::InvalidIdentifier);
                    },
                    Ok(id) => {
                        let slot = Slot { modified: entry.modified, id };
                        assert(report_key(reports@[i as int]) == Some(slot.key()));
                        let added = place(&mut sorted, slot);
                        proof {
                            let after = keys_of(sorted@);
                            assert forall|key: Key| #[trigger] after.contains(key) <==> reported(
                                reports@,
                                i + 1,
                                key,
                            ) by {
                                if reported(reports@, i + 1, key) {
                                    let j = choose|j: int|
                                        0 <= j < i + 1 && #[trigger] report_key(reports@[j])
                                            == Some(key);
                                    if j < i {
                                        assert(reported(reports@, i as int, key));
                                    }
                                }
                                if before.contains(key) {
                                    let j = choose|j: int|
                                        0 <= j < i && #[trigger] report_key(reports@[j]) == Some(
                                            key,
                                        );
                                    assert(reported(reports@, i + 1, key));
                                }
                            }
                            if distinct_keys(reports@, i + 1) {
                                assert(distinct_keys(reports@, i as int));
                                if before.contains(slot.key()) {
                                    let j = choose|j: int|
                                        0 <= j < i && #[trigger] report_key(reports@[j]) == Some(
                                            slot.key(),
                                        );
                                    assert(report_key(reports@[j]) != report_key(
                                        reports@[i as int],
                                    ));
                                }
                            }
                        }
                    },
                },
            }
            i += 1;
        }
        let mut bundles: Vec<Bundle<'r, Inboxed>> = Vec::new();
        let mut n: usize = 0;
        while n < sorted.len()
            invariant
                n <= sorted@.len(),
                bundles@.len() == n,
                forall|k: int|
                    0 <= k < n ==> (#[trigger] bundles@[k])@ == (BundleView {
                        root: self.repository@,
                        partition: Partition::Inbox,
                        id: keys_of(sorted@)[k].id,
                    }) && bundles@[k]@.wf(),
            decreases sorted@.len() - n,
        {
            let bundle: Bundle<'r, Inboxed> = Bundle::new(sorted[n].id, self.repository);
            bundles.push(bundle);
            n += 1;
        }
        proof {
            let views = Seq::new(bundles@.len(), |k: int| bundles@[k]@);
            let keys = keys_of(sorted@);
            assert forall|k: int| 0 <= k < keys.len() implies (#[trigger] views[k]) == (BundleView {
                root: self.root(),
                partition: Partition::Inbox,
                id: keys[k].id,
            }) && views[k].wf() by {
                assert(views[k] == bundles@[k]@);
            }
            assert(lists(self.root(), reports@, views));
        }
        Ok(bundles)
    }
}

impl<'r> Inbox<'r> {
    /// Lists the bundles of the inbox, by the time of their last modification
    /// and, among bundles of one time, by identifier.
    pub fn list(&self) -> (listing: Listing<'r>)
        ensures
            listing.root() == self@,
    {
        let repository = self.repository();
        Listing { repository, request: Request::ReadDir { path: Inboxed::path(repository) } }
    }

    /// Looks for a bundle in the inbox.
    pub fn get(&self, id: DocId) -> (probe: Probe<Bundle<'r, Inboxed>>)
        ensures
            probe.value()@ == (BundleView {
                root: self@,
                partition: Partition::Inbox,
                id: id@,
            }),
            probe.value()@.wf(),
            probe.path() == probe.value()@.path(),
    {
        probe::<Inboxed>(self.repository(), id)
    }
}

impl<'r> Archive<'r> {
    /// Looks for a bundle in the archive.
    pub fn get(&self, id: DocId) -> (probe: Probe<Bundle<'r, Archived>>)
        ensures
            probe.value()@ == (BundleView {
                root: self@,
                partition: Partition::Archive,
                id: id@,
            }),
            probe.value()@.wf(),
            probe.path() == probe.value()@.path(),
    {
        probe::<Archived>(self.repository(), id)
    }
}

} // verus!
