//! Where things lie under the root of a repository.
//!
//! `root/staging/<id>/`, `root/inbox/<id>/` and `root/archive/<id>/` hold the
//! bundles, each directory named by the text of its identifier and holding
//! one file per fragment.

use vstd::prelude::*;
use vstd::string::StrSliceExecFns;
use vstd::string::StringExecFns;

verus! {

/// The three partitions of a repository.
#[derive(Debug, Clone, Copy, PartialEq, Eq, Hash)]
pub enum Partition {
    Staging,
    Inbox,
    Archive,
}

impl Partition {
    /// The name of the partition's directory under the root.
    pub open spec fn name(self) -> Seq<char> {
        match self {
            Partition::Staging => "staging"@,
            Partition::Inbox => "inbox"@,
            Partition::Archive => "archive"@,
        }
    }

    /// The name of the partition's directory under the root.
    pub fn dir_name(&self) -> (name: &'static str)
        ensures
            name@ == self.name(),
    {
        match self {
            Partition::Staging => "staging",
            Partition::Inbox => "inbox",
            Partition::Archive => "archive",
        }
    }
}

/// A name that stands for one entry of a directory: it is not empty and holds
/// no separator.
pub open spec fn is_plain(name: Seq<char>) -> bool {
    &&& name.len() > 0
    &&& forall|i: int| 0 <= i < name.len() ==> name[i] != '/'
}

/// A path made ready to take a name: empty, or ending in a separator.
pub open spec fn as_directory(base: Seq<char>) -> Seq<char> {
    if base.len() == 0 || base.last() == '/' {
        base
    } else {
        base.push('/')
    }
}

/// The path of `name` under `base`. A name that starts at the root stands for
/// itself; any other is put behind `base`, with one separator between the two
/// unless `base` is empty or already ends in one.
pub open spec fn joined(base: Seq<char>, name: Seq<char>) -> Seq<char> {
    if name.len() > 0 && name[0] == '/' {
        name
    } else {
        as_directory(base) + name
    }
}

/// The directory of a partition.
pub open spec fn partition_path(root: Seq<char>, partition: Partition) -> Seq<char> {
    joined(root, partition.name())
}

/// The directory of the bundle whose identifier has the text `name`.
pub open spec fn bundle_path(root: Seq<char>, partition: Partition, name: Seq<char>) -> Seq<char> {
    joined(partition_path(root, partition), name)
}

/// The path of `name` under `base`.
pub fn join(base: &str, name: &str) -> (path: String)
    ensures
        path@ == joined(base@, name@),
{
    proof {
        reveal_strlit("/");
    }
    if name.unicode_len() > 0 && name.get_char(0) == '/' {
        return String::from_str(name);
    }
    let base_len = base.unicode_len();
    let mut path = String::from_str(base);
    if base_len > 0 && base.get_char(base_len - 1) != '/' {
        path.append("/");
        assert(path@ =~= base@.push('/'));
    }
    path.append(name);
    path
}

/// The names of the partitions are plain and begin with three different
/// letters.
pub proof fn lemma_partition_names(partition: Partition)
    ensures
        is_plain(partition.name()),
        partition.name()[0] == match partition {
            Partition::Staging => 's',
            Partition::Inbox => 'i',
            Partition::Archive => 'a',
        },
{
    reveal_strlit("staging");
    reveal_strlit("inbox");
    reveal_strlit("archive");
}

/// Under one base, a plain name is found at the end of its path, behind the
/// base made ready; the path is longer than the base and ends in no
/// separator.
pub proof fn lemma_joined_plain(base: Seq<char>, name: Seq<char>)
    requires
        is_plain(name),
    ensures
        joined(base, name) == as_directory(base) + name,
        joined(base, name).len() > base.len(),
        joined(base, name).last() != '/',
        as_directory(joined(base, name)) == joined(base, name).push('/'),
{
    let path = joined(base, name);
    assert(path.last() == name.last());
}

/// Under one base, plain names that differ have paths that differ.
pub proof fn lemma_joined_injective(base: Seq<char>, a: Seq<char>, b: Seq<char>)
    requires
        is_plain(a),
        is_plain(b),
        a != b,
    ensures
        joined(base, a) != joined(base, b),
{
    let front = as_directory(base);
    if front + a == front + b {
        assert(a.len() == b.len()) by {
            assert((front + a).len() == (front + b).len());
        }
        assert forall|i: int| 0 <= i < a.len() implies a[i] == b[i] by {
            assert((front + a)[front.len() + i] == a[i]);
            assert((front + b)[front.len() + i] == b[i]);
        }
        assert(a =~= b);
    }
}

/// The three partitions of a repository are three different directories.
pub proof fn lemma_partitions_apart(root: Seq<char>, p: Partition, q: Partition)
    requires
        p != q,
    ensures
        partition_path(root, p) != partition_path(root, q),
{
    lemma_partition_names(p);
    lemma_partition_names(q);
    lemma_joined_injective(root, p.name(), q.name());
}

/// Two bundle directories are the same only if they lie in the same partition
/// and carry the same name. So no bundle can be seen in two partitions under
/// one path, and bundles of different names never share a directory.
pub proof fn lemma_bundles_apart(
    root: Seq<char>,
    p: Partition,
    a: Seq<char>,
    q: Partition,
    b: Seq<char>,
)
    requires
        is_plain(a),
        is_plain(b),
        p != q || a != b,
    ensures
        bundle_path(root, p, a) != bundle_path(root, q, b),
{
    lemma_partition_names(p);
    lemma_partition_names(q);
    lemma_joined_plain(root, p.name());
    lemma_joined_plain(root, q.name());
    lemma_joined_plain(partition_path(root, p), a);
    lemma_joined_plain(partition_path(root, q), b);
    if p == q {
        lemma_joined_injective(partition_path(root, p), a, b);
    } else {
        let front = as_directory(root);
        let left = bundle_path(root, p, a);
        let right = bundle_path(root, q, b);
        assert(left[front.len() as int] == p.name()[0]);
        assert(right[front.len() as int] == q.name()[0]);
    }
}

/// The directory of a bundle is not the directory of any partition.
pub proof fn lemma_bundle_below_partition(
    root: Seq<char>,
    p: Partition,
    a: Seq<char>,
    q: Partition,
)
    requires
        is_plain(a),
    ensures
        bundle_path(root, p, a) != partition_path(root, q),
{
    lemma_partition_names(p);
    lemma_partition_names(q);
    lemma_joined_plain(root, p.name());
    lemma_joined_plain(root, q.name());
    lemma_joined_plain(partition_path(root, p), a);
    if p != q {
        let front = as_directory(root);
        assert(bundle_path(root, p, a)[front.len() as int] == p.name()[0]);
        assert(partition_path(root, q)[front.len() as int] == q.name()[0]);
    }
}

} // verus!
