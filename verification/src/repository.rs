//! The repository, the three states of a bundle, and the handle that binds a
//! bundle to one of them.

use std::marker::PhantomData;
use vstd::prelude::*;

use crate::ident::{all_base58, base58_encoding, is_version4, DocId};
use crate::kind::{
    lemma_canonical_filenames_differ, lemma_canonical_filenames_plain, Kind, KindView,
};
use crate::layout::{
    bundle_path, is_plain, join, joined, lemma_joined_injective, partition_path, Partition,
};
use crate::request::{Pending, Request, RequestView};

verus! {

/// Where a repository is to be opened.
pub struct Config {
    pub path: String,
}

/// A repository: the root directory under which the three partitions lie.
pub struct Repository {
    path: String,
}

impl View for Repository {
    type V = Seq<char>;

    /// The path of the root.
    closed spec fn view(&self) -> Seq<char> {
        self.path@
    }
}

/// A state in the life of a bundle. Each state keeps its bundles in a
/// partition of its own.
pub trait BundleState {
    /// The partition that holds the bundles of this state.
    spec fn partition() -> Partition;

    /// The directory of that partition in a repository.
    fn path(repository: &Repository) -> (path: String)
        ensures
            path@ == partition_path(repository@, Self::partition()),
    ;
}

/// New and still being filled: fragments can be written, nothing else has
/// seen the bundle yet.
pub struct Staging {}

/// Complete and waiting to be processed.
pub struct Inboxed {}

/// Final. An archived bundle is only read.
pub struct Archived {}

impl BundleState for Staging {
    open spec fn partition() -> Partition {
        Partition::Staging
    }

    fn path(repository: &Repository) -> (path: String) {
        join(repository.path(), Partition::Staging.dir_name())
    }
}

impl BundleState for Inboxed {
    open spec fn partition() -> Partition {
        Partition::Inbox
    }

    fn path(repository: &Repository) -> (path: String) {
        join(repository.path(), Partition::Inbox.dir_name())
    }
}

impl BundleState for Archived {
    open spec fn partition() -> Partition {
        Partition::Archive
    }

    fn path(repository: &Repository) -> (path: String) {
        join(repository.path(), Partition::Archive.dir_name())
    }
}

/// What a bundle handle stands for: a bundle of one identifier in one
/// partition of one repository.
pub struct BundleView {
    pub root: Seq<char>,
    pub partition: Partition,
    pub id: Seq<u8>,
}

impl BundleView {
    /// The name of the bundle's directory: the text of its identifier.
    pub open spec fn name(self) -> Seq<char> {
        base58_encoding(self.id)
    }

    /// The bundle's directory.
    pub open spec fn path(self) -> Seq<char> {
        bundle_path(self.root, self.partition, self.name())
    }

    /// The file of one of the bundle's fragments.
    pub open spec fn path_of(self, kind: KindView) -> Seq<char> {
        joined(self.path(), kind.filename())
    }

    /// The same bundle in another partition.
    pub open spec fn moved_to(self, partition: Partition) -> BundleView {
        BundleView { root: self.root, partition, id: self.id }
    }

    /// The name of the directory is a plain name, and it is read back as the
    /// identifier. Every handle that the repository gives out stands for such
    /// a bundle.
    pub open spec fn wf(self) -> bool {
        &&& is_plain(self.name())
        &&& all_base58(self.name())
        &&& DocId::parsed(self.name()) == Some(self.id)
    }
}

/// The steps that move a bundle into another partition: make sure that the
/// partition's directory is there, then move the bundle's directory into it
/// in one step. A fault of the first step is handed on as it came; the second
/// fails with `NotFound` where the bundle is gone from where it was, and with
/// `Conflict` where the other partition already holds its name.
pub open spec fn relocation(bundle: BundleView, to: Partition) -> Seq<RequestView> {
    seq![
        RequestView::CreateDirAll { path: partition_path(bundle.root, to) },
        RequestView::Rename { from: bundle.path(), to: bundle.moved_to(to).path() },
    ]
}

/// The one step that removes a bundle: its directory goes with everything in
/// it. It fails with `NotFound` where the directory is already gone; any
/// other fault is handed on as it came.
pub open spec fn removal(bundle: BundleView) -> Seq<RequestView> {
    seq![RequestView::RemoveDirAll { path: bundle.path() }]
}

/// In one bundle, the fragments of two canonical kinds that differ lie in two
/// files.
pub proof fn lemma_canonical_fragments_apart(bundle: BundleView, a: KindView, b: KindView)
    requires
        a.is_canonical(),
        b.is_canonical(),
        a != b,
    ensures
        bundle.path_of(a) != bundle.path_of(b),
{
    lemma_canonical_filenames_plain(a);
    lemma_canonical_filenames_plain(b);
    lemma_canonical_filenames_differ(a, b);
    lemma_joined_injective(bundle.path(), a.filename(), b.filename());
}

/// A text of the base58 alphabet holds no separator.
pub proof fn lemma_base58_plain(text: Seq<char>)
    requires
        all_base58(text),
        text.len() > 0,
    ensures
        is_plain(text),
{
    assert forall|i: int| 0 <= i < text.len() implies text[i] != '/' by {
        assert(crate::ident::is_base58_char(text[i]));
    }
}

/// A handle on one bundle, bound to the state the bundle is in. What can be
/// done with the bundle depends on the state; an operation that moves the
/// bundle on takes the handle and gives one of the next state.
pub struct Bundle<'r, State: BundleState> {
    id: DocId,
    name: String,
    repository: &'r Repository,
    state: PhantomData<State>,
}

impl<'r, State: BundleState> View for Bundle<'r, State> {
    type V = BundleView;

    closed spec fn view(&self) -> BundleView {
        BundleView { root: self.repository@, partition: State::partition(), id: self.id@ }
    }
}

impl<'r, State: BundleState> Bundle<'r, State> {
    #[verifier::type_invariant]
    spec fn named(&self) -> bool {
        &&& self.name@ == base58_encoding(self.id@)
        &&& self@.wf()
    }

    /// The handle on the bundle of this identifier in the state's partition.
    pub(crate) fn new(id: DocId, repository: &'r Repository) -> (bundle: Self)
        ensures
            bundle@ == (BundleView {
                root: repository@,
                partition: State::partition(),
                id: id@,
            }),
            bundle@.wf(),
    {
        let name = id.to_base58();
        proof {
            lemma_base58_plain(name@);
        }
        Bundle { id, name, repository, state: PhantomData }
    }

    /// The identifier of the bundle.
    pub fn id(&self) -> (id: &DocId)
        ensures
            id@ == self@.id,
            self@.partition == State::partition(),
    {
        &self.id
    }

    /// The bundle's directory.
    pub fn path(&self) -> (path: String)
        ensures
            path@ == self@.path(),
            self@.partition == State::partition(),
            self@.wf(),
    {
        proof {
            use_type_invariant(self);
        }
        let partition = State::path(self.repository);
        join(partition.as_str(), self.name.as_str())
    }

    /// The file of one of the bundle's fragments.
    pub fn path_of(&self, kind: &Kind) -> (path: String)
        ensures
            path@ == self@.path_of(kind@),
    {
        let directory = self.path();
        let file = kind.filename();
        join(directory.as_str(), file.as_str())
    }
}

impl<'r, State: BundleState> Bundle<'r, State> {
    /// Moves the bundle on into the partition of another state.
    fn relocate<To: BundleState>(self) -> (pending: Pending<Bundle<'r, To>>)
        ensures
            pending.value()@ == self@.moved_to(To::partition()),
            pending.value()@.wf(),
            pending.steps() == relocation(self@, To::partition()),
    {
        proof {
            use_type_invariant(&self);
        }
        let from = self.path();
        let target: Bundle<'r, To> = Bundle {
            id: self.id,
            name: self.name,
            repository: self.repository,
            state: PhantomData,
        };
        let mut steps: Vec<Request> = Vec::new();
        steps.push(Request::CreateDirAll { path: To::path(target.repository) });
        steps.push(Request::Rename { from, to: target.path() });
        let pending = Pending::new(steps, target);
        assert(pending.steps() =~= relocation(self@, To::partition()));
        pending
    }

    /// Removes the bundle.
    fn remove(self) -> (pending: Pending<()>)
        ensures
            pending.steps() == removal(self@),
    {
        let mut steps: Vec<Request> = Vec::new();
        steps.push(Request::RemoveDirAll { path: self.path() });
        let pending = Pending::new(steps, ());
        assert(pending.steps() =~= removal(self@));
        pending
    }
}

impl<'r> Bundle<'r, Staging> {
    /// Commits the bundle: it leaves staging for the inbox. The handle is
    /// taken; the handle on the inboxed bundle is given once the move has
    /// succeeded.
    pub fn create(self) -> (pending: Pending<Bundle<'r, Inboxed>>)
        ensures
            pending.value()@ == self@.moved_to(Partition::Inbox),
            pending.value()@.wf(),
            pending.steps() == relocation(self@, Partition::Inbox),
    {
        self.relocate::<Inboxed>()
    }

    /// Gives the bundle up: its directory is removed with all that was
    /// written into it, whatever that was.
    pub fn delete(self) -> (pending: Pending<()>)
        ensures
            pending.steps() == removal(self@),
    {
        self.remove()
    }
}

impl<'r> Bundle<'r, Inboxed> {
    /// Archives the bundle: it leaves the inbox for the archive, where it
    /// stays. The handle is taken; the handle on the archived bundle is given
    /// once the move has succeeded.
    pub fn archive(self) -> (pending: Pending<Bundle<'r, Archived>>)
        ensures
            pending.value()@ == self@.moved_to(Partition::Archive),
            pending.value()@.wf(),
            pending.steps() == relocation(self@, Partition::Archive),
    {
        self.relocate::<Archived>()
    }

    /// Removes the bundle from the inbox with all its fragments.
    pub fn delete(self) -> (pending: Pending<()>)
        ensures
            pending.steps() == removal(self@),
    {
        self.remove()
    }
}

impl Repository {
    /// Opens the repository at a path. The root directory is created if it is
    /// missing; the partitions are created when they are first needed. Any
    /// fault in creating the root is handed on as it came.
    pub fn with_path(path: String) -> (pending: Pending<Repository>)
        ensures
            pending.steps() == seq![RequestView::CreateDirAll { path: path@ }],
            pending.value()@ == path@,
    {
        let mut steps: Vec<Request> = Vec::new();
        steps.push(Request::CreateDirAll { path: path.clone() });
        let pending = Pending::new(steps, Repository { path });
        assert(pending.steps() =~= seq![RequestView::CreateDirAll { path: path@ }]);
        pending
    }

    /// Opens the repository that a configuration names.
    pub fn from_config(config: Config) -> (pending: Pending<Repository>)
        ensures
            pending.steps() == seq![RequestView::CreateDirAll { path: config.path@ }],
            pending.value()@ == config.path@,
    {
        Repository::with_path(config.path)
    }

    /// The path of the root.
    pub fn path(&self) -> (path: &str)
        ensures
            path@ == self@,
    {
        self.path.as_str()
    }

    /// The bundles that wait in the inbox. Looking at them changes nothing.
    pub fn inbox(&self) -> (inbox: Inbox<'_>)
        ensures
            inbox@ == self@,
    {
        Inbox(self)
    }

    /// The bundles that are archived. Looking at them changes nothing.
    pub fn archive(&self) -> (archive: Archive<'_>)
        ensures
            archive@ == self@,
    {
        Archive(self)
    }

    /// Begins a new bundle: draws a fresh identifier and asks for its
    /// directory in the staging partition. The handle is given once the
    /// directory stands; a fault in creating it is handed on as it came.
    pub fn stage(&self) -> (pending: Pending<Bundle<'_, Staging>>)
        ensures
            pending.value()@.root == self@,
            pending.value()@.partition == Partition::Staging,
            pending.value()@.wf(),
            is_version4(pending.value()@.id),
            pending.steps() == seq![RequestView::CreateDirAll { path: pending.value()@.path() }],
    {
        let bundle: Bundle<'_, Staging> = Bundle::new(DocId::random(), self);
        let mut steps: Vec<Request> = Vec::new();
        steps.push(Request::CreateDirAll { path: bundle.path() });
        let pending = Pending::new(steps, bundle);
        assert(pending.steps() =~= seq![
            RequestView::CreateDirAll { path: pending.value()@.path() },
        ]);
        pending
    }
}

/// The inbox of a repository.
pub struct Inbox<'r>(&'r Repository);

/// The archive of a repository.
pub struct Archive<'r>(&'r Repository);

impl<'r> Inbox<'r> {
    pub(crate) fn repository(&self) -> (repository: &'r Repository)
        ensures
            repository@ == self@,
    {
        self.0
    }
}

impl<'r> Archive<'r> {
    pub(crate) fn repository(&self) -> (repository: &'r Repository)
        ensures
            repository@ == self@,
    {
        self.0
    }
}

impl<'r> View for Inbox<'r> {
    type V = Seq<char>;

    /// The root of the repository.
    closed spec fn view(&self) -> Seq<char> {
        self.0@
    }
}

impl<'r> View for Archive<'r> {
    type V = Seq<char>;

    /// The root of the repository.
    closed spec fn view(&self) -> Seq<char> {
        self.0@
    }
}

} // verus!
