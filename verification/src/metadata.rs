//! The metadata record of a bundle.

use vstd::prelude::*;
use vstd::string::StringExecFns;

use crate::ident::DocId;
use crate::time::Timestamp;

verus! {

/// A label put on a document.
#[derive(Debug, Clone, Hash, PartialEq, Eq)]
pub struct Label(String);

impl View for Label {
    type V = Seq<char>;

    /// The text of the label.
    closed spec fn view(&self) -> Seq<char> {
        self.0@
    }
}

impl Label {
    /// The label of the given text.
    pub fn new(text: &str) -> (label: Label)
        ensures
            label@ == text@,
    {
        Label(String::from_str(text))
    }

    /// The text of the label.
    pub fn as_str(&self) -> (text: &str)
        ensures
            text@ == self@,
    {
        self.0.as_str()
    }

    /// The text of the label.
    pub fn to_string(&self) -> (text: String)
        ensures
            text@ == self@,
    {
        self.0.clone()
    }

    /// Whether the two labels have the same text.
    pub fn same(&self, other: &Label) -> (equal: bool)
        ensures
            equal == (self@ == other@),
    {
        self.0 == other.0
    }
}

impl vstd::std_specs::convert::FromSpecImpl<String> for Label {
    open spec fn obeys_from_spec() -> bool {
        true
    }

    closed spec fn from_spec(text: String) -> Label {
        Label(text)
    }
}

impl From<String> for Label {
    fn from(text: String) -> (label: Label)
        ensures
            label@ == text@,
    {
        Label(text)
    }
}

/// The labels of a document: each at most once, in no order that matters.
#[derive(Debug, Clone)]
pub struct LabelSet {
    items: Vec<Label>,
}

impl View for LabelSet {
    type V = Set<Seq<char>>;

    /// The texts of the labels.
    closed spec fn view(&self) -> Set<Seq<char>> {
        Set::new(|text: Seq<char>| exists|i: int| 0 <= i < self.items@.len() && self.items@[i]@ == text)
    }
}

impl LabelSet {
    /// No label is held twice. Every set that this module makes is such a
    /// set, and its operations keep it one.
    pub closed spec fn wf(&self) -> bool {
        forall|i: int, j: int|
            0 <= i < j < self.items@.len() ==> self.items@[i]@ != self.items@[j]@
    }

    /// The number of labels: the length of the list that holds them.
    pub closed spec fn count(&self) -> nat {
        self.items@.len()
    }

    /// No labels.
    pub fn new() -> (labels: LabelSet)
        ensures
            labels@ == Set::<Seq<char>>::empty(),
            labels.count() == 0,
            labels.wf(),
    {
        let labels = LabelSet { items: Vec::new() };
        assert(labels@ =~= Set::<Seq<char>>::empty());
        labels
    }

    /// The number of labels.
    pub fn len(&self) -> (n: usize)
        ensures
            n == self.count(),
    {
        self.items.len()
    }

    /// Whether a label of this text is among them.
    pub fn contains(&self, text: &str) -> (found: bool)
        ensures
            found == self@.contains(text@),
    {
        let wanted = String::from_str(text);
        let mut i: usize = 0;
        while i < self.items.len()
            invariant
                i <= self.items@.len(),
                wanted@ == text@,
                forall|j: int| 0 <= j < i ==> self.items@[j]@ != text@,
            decreases self.items@.len() - i,
        {
            if self.items[i].0 == wanted {
                return true;
            }
            i += 1;
        }
        false
    }

    /// Adds a label. Says whether it was new; a label that was already there
    /// is not added again.
    pub fn insert(&mut self, label: Label) -> (added: bool)
        requires
            old(self).wf(),
        ensures
            final(self).wf(),
            final(self)@ == old(self)@.insert(label@),
            added == !old(self)@.contains(label@),
            final(self).count() == old(self).count() + if added {
                1nat
            } else {
                0nat
            },
    {
        if self.contains(label.as_str()) {
            assert(self@ =~= self@.insert(label@));
            return false;
        }
        let ghost before = self.items@;
        self.items.push(label);
        assert(self@ =~= old(self)@.insert(label@)) by {
            assert forall|text: Seq<char>| self@.contains(text) <==> old(self)@.insert(
                label@,
            ).contains(text) by {
                if old(self)@.contains(text) {
                    let i = choose|i: int| 0 <= i < before.len() && before[i]@ == text;
                    assert(self.items@[i]@ == text);
                }
                if text == label@ {
                    assert(self.items@[before.len() as int]@ == text);
                }
            }
        }
        true
    }

    /// Whether every label of this set is also in the other.
    pub fn within(&self, other: &LabelSet) -> (all: bool)
        ensures
            all == self@.subset_of(other@),
    {
        let mut i: usize = 0;
        while i < self.items.len()
            invariant
                i <= self.items@.len(),
                forall|j: int| 0 <= j < i ==> other@.contains(#[trigger] self.items@[j]@),
            decreases self.items@.len() - i,
        {
            if !other.contains(self.items[i].as_str()) {
                assert(self@.contains(self.items@[i as int]@));
                return false;
            }
            i += 1;
        }
        assert forall|text: Seq<char>| self@.contains(text) implies other@.contains(text) by {
            let j = choose|j: int| 0 <= j < self.items@.len() && self.items@[j]@ == text;
            assert(other@.contains(self.items@[j]@));
        }
        true
    }

    /// Whether the two sets hold the same labels.
    pub fn same(&self, other: &LabelSet) -> (equal: bool)
        ensures
            equal == (self@ == other@),
    {
        let equal = self.within(other) && other.within(self);
        assert(equal ==> self@ =~= other@);
        equal
    }

    /// The labels, each once.
    pub fn labels(&self) -> (items: &Vec<Label>)
        requires
            self.wf(),
        ensures
            items@.len() == self.count(),
            forall|i: int| 0 <= i < items@.len() ==> self@.contains(#[trigger] items@[i]@),
            forall|text: Seq<char>|
                self@.contains(text) ==> exists|i: int|
                    0 <= i < items@.len() && #[trigger] items@[i]@ == text,
            forall|i: int, j: int| 0 <= i < j < items@.len() ==> items@[i]@ != items@[j]@,
    {
        &self.items
    }
}

/// The properties of a document: values by key, each key at most once.
#[derive(Debug, Clone)]
pub struct PropertyMap {
    entries: Vec<(String, String)>,
}

/// The place of a key among entries, if it is there.
pub open spec fn holds_key(entries: Seq<(String, String)>, key: Seq<char>, i: int) -> bool {
    0 <= i < entries.len() && entries[i].0@ == key
}

impl View for PropertyMap {
    type V = Map<Seq<char>, Seq<char>>;

    /// The values by their keys.
    closed spec fn view(&self) -> Map<Seq<char>, Seq<char>> {
        Map::new(
            |key: Seq<char>| exists|i: int| holds_key(self.entries@, key, i),
            |key: Seq<char>| self.entries@[choose|i: int| holds_key(self.entries@, key, i)].1@,
        )
    }
}

impl PropertyMap {
    /// No key is held twice. Every map that this module makes is such a map,
    /// and its operations keep it one.
    pub closed spec fn wf(&self) -> bool {
        forall|i: int, j: int|
            0 <= i < j < self.entries@.len() ==> self.entries@[i].0@ != self.entries@[j].0@
    }

    /// The number of properties: the length of the list that holds them.
    pub closed spec fn count(&self) -> nat {
        self.entries@.len()
    }

    /// No properties.
    pub fn new() -> (properties: PropertyMap)
        ensures
            properties@ == Map::<Seq<char>, Seq<char>>::empty(),
            properties.count() == 0,
            properties.wf(),
    {
        let properties = PropertyMap { entries: Vec::new() };
        assert(properties@ =~= Map::<Seq<char>, Seq<char>>::empty());
        properties
    }

    /// The number of properties.
    pub fn len(&self) -> (n: usize)
        ensures
            n == self.count(),
    {
        self.entries.len()
    }

    fn find(&self, key: &String) -> (at: Option<usize>)
        ensures
            match at {
                Some(i) => holds_key(self.entries@, key@, i as int),
                None => forall|i: int| !holds_key(self.entries@, key@, i),
            },
    {
        let mut i: usize = 0;
        while i < self.entries.len()
            invariant
                i <= self.entries@.len(),
                forall|j: int| 0 <= j < i ==> self.entries@[j].0@ != key@,
            decreases self.entries@.len() - i,
        {
            if self.entries[i].0 == *key {
                return Some(i);
            }
            i += 1;
        }
        None
    }

    /// The value of a key, if the key is there.
    pub fn get(&self, key: &str) -> (value: Option<&String>)
        requires
            self.wf(),
        ensures
            match value {
                Some(v) => self@.dom().contains(key@) && self@[key@] == v@,
                None => !self@.dom().contains(key@),
            },
    {
        let wanted = String::from_str(key);
        match self.find(&wanted) {
            Some(i) => {
                let ghost chosen = choose|j: int| holds_key(self.entries@, key@, j);
                assert(chosen == i);
                Some(&self.entries[i].1)
            },
            None => None,
        }
    }

    /// Sets the value of a key and gives the value that the key had before,
    /// if it had one.
    pub fn insert(&mut self, key: String, value: String) -> (previous: Option<String>)
        requires
            old(self).wf(),
        ensures
            final(self).wf(),
            final(self)@ == old(self)@.insert(key@, value@),
            match previous {
                Some(p) => old(self)@.dom().contains(key@) && old(self)@[key@] == p@,
                None => !old(self)@.dom().contains(key@),
            },
            final(self).count() == old(self).count() + if previous is None {
                1nat
            } else {
                0nat
            },
    {
        let ghost before = self.entries@;
        match self.find(&key) {
            Some(i) => {
                let ghost chosen = choose|j: int| holds_key(before, key@, j);
                assert(chosen == i);
                let ghost kept = key@;
                let (_, previous) = self.entries.remove(i);
                self.entries.insert(i, (key, value));
                proof {
                    let after = self.entries@;
                    assert(after =~= before.update(i as int, after[i as int]));
                    assert forall|a: int, b: int| 0 <= a < b < after.len() implies after[a].0@
                        != after[b].0@ by {
                        assert(after[a].0@ == before[a].0@ && after[b].0@ == before[b].0@);
                    }
                    assert forall|k: Seq<char>, j: int| holds_key(after, k, j) <==> holds_key(
                        before,
                        k,
                        j,
                    ) by {}
                    assert(self@ =~= old(self)@.insert(kept, value@)) by {
                        assert forall|k: Seq<char>| self@.dom().contains(k) implies #[trigger] self@[k]
                            == old(self)@.insert(kept, value@)[k] by {
                            let j = choose|j: int| holds_key(after, k, j);
                            let m = choose|m: int| holds_key(before, k, m);
                            assert(holds_key(before, k, j));
                            assert(j == m);
                        }
                    }
                }
                Some(previous)
            },
            None => {
                let ghost kept = key@;
                self.entries.push((key, value));
                proof {
                    let after = self.entries@;
                    assert(holds_key(after, kept, before.len() as int));
                    assert forall|a: int| 0 <= a < before.len() implies after[a].0@ != kept by {
                        assert(!holds_key(before, kept, a));
                    }
                    assert forall|a: int, b: int| 0 <= a < b < after.len() implies after[a].0@
                        != after[b].0@ by {
                        if b < before.len() {
                            assert(after[a] == before[a] && after[b] == before[b]);
                        }
                    }
                    assert forall|k: Seq<char>| self@.dom().contains(k) <==> old(
                        self,
                    )@.insert(kept, value@).dom().contains(k) by {
                        if old(self)@.dom().contains(k) {
                            let m = choose|m: int| holds_key(before, k, m);
                            assert(holds_key(after, k, m));
                        }
                        if self@.dom().contains(k) && k != kept {
                            let j = choose|j: int| holds_key(after, k, j);
                            assert(holds_key(before, k, j));
                        }
                    }
                    assert forall|k: Seq<char>| self@.dom().contains(k) implies #[trigger] self@[k]
                        == old(self)@.insert(kept, value@)[k] by {
                        let j = choose|j: int| holds_key(after, k, j);
                        if k == kept {
                            assert(j == before.len());
                        } else {
                            let m = choose|m: int| holds_key(before, k, m);
                            assert(holds_key(before, k, j));
                            assert(holds_key(after, k, m));
                            assert(j == m);
                        }
                    }
                    assert(self@ =~= old(self)@.insert(kept, value@));
                }
                None
            },
        }
    }

    /// Whether every key of this map has the same value in the other.
    pub fn within(&self, other: &PropertyMap) -> (all: bool)
        requires
            self.wf(),
            other.wf(),
        ensures
            all == self@.submap_of(other@),
    {
        let mut i: usize = 0;
        while i < self.entries.len()
            invariant
                i <= self.entries@.len(),
                self.wf(),
                other.wf(),
                forall|j: int|
                    0 <= j < i ==> other@.dom().contains(#[trigger] self.entries@[j].0@)
                        && other@[self.entries@[j].0@] == self.entries@[j].1@,
            decreases self.entries@.len() - i,
        {
            let ghost key = self.entries@[i as int].0@;
            proof {
                assert(holds_key(self.entries@, key, i as int));
                let chosen = choose|j: int| holds_key(self.entries@, key, j);
                assert(chosen == i);
                assert(self@.dom().contains(key) && self@[key] == self.entries@[i as int].1@);
            }
            match other.get(self.entries[i].0.as_str()) {
                Some(value) => {
                    if !(*value == self.entries[i].1) {
                        return false;
                    }
                },
                None => {
                    return false;
                },
            }
            i += 1;
        }
        assert forall|key: Seq<char>| #[trigger] self@.dom().contains(key) implies other@.dom().contains(
            key,
        ) && self@[key] == other@[key] by {
            let j = choose|j: int| holds_key(self.entries@, key, j);
            assert(other@.dom().contains(self.entries@[j].0@));
        }
        true
    }

    /// Whether the two maps hold the same values under the same keys.
    pub fn same(&self, other: &PropertyMap) -> (equal: bool)
        requires
            self.wf(),
            other.wf(),
        ensures
            equal == (self@ == other@),
    {
        let equal = self.within(other) && other.within(self);
        assert(equal ==> self@ =~= other@);
        equal
    }

    /// The properties, each key once with its value.
    pub fn entries(&self) -> (entries: &Vec<(String, String)>)
        requires
            self.wf(),
        ensures
            entries@.len() == self.count(),
            forall|i: int|
                0 <= i < entries@.len() ==> self@.dom().contains(#[trigger] entries@[i].0@)
                    && self@[entries@[i].0@] == entries@[i].1@,
            forall|key: Seq<char>|
                self@.dom().contains(key) ==> exists|i: int| #[trigger] holds_key(entries@, key, i),
            forall|i: int, j: int| 0 <= i < j < entries@.len() ==> entries@[i].0@ != entries@[j].0@,
    {
        proof {
            assert forall|i: int| 0 <= i < self.entries@.len() implies self@.dom().contains(
                #[trigger] self.entries@[i].0@,
            ) && self@[self.entries@[i].0@] == self.entries@[i].1@ by {
                let key = self.entries@[i].0@;
                assert(holds_key(self.entries@, key, i));
                let j = choose|j: int| holds_key(self.entries@, key, j);
                assert(j == i);
            }
        }
        &self.entries
    }
}

/// What is known about a document besides its fragments.
#[derive(Debug, Clone)]
pub struct Metadata {
    /// When the document was handed in.
    pub uploaded: Timestamp,
    /// When the bundle was archived. Not set before that, and not always
    /// after.
    pub archived: Option<Timestamp>,
    pub title: Option<String>,
    /// The number of pages.
    pub pages: u32,
    pub labels: LabelSet,
    pub properties: PropertyMap,
}

/// A [`Metadata`] record with its texts as sequences of characters, its
/// labels as a set and its properties as a map.
#[verifier::ext_equal]
pub struct MetadataView {
    pub uploaded: Timestamp,
    pub archived: Option<Timestamp>,
    pub title: Option<Seq<char>>,
    pub pages: u32,
    pub labels: Set<Seq<char>>,
    pub properties: Map<Seq<char>, Seq<char>>,
}

impl View for Metadata {
    type V = MetadataView;

    open spec fn view(&self) -> MetadataView {
        MetadataView {
            uploaded: self.uploaded,
            archived: self.archived,
            title: match self.title {
                Some(title) => Some(title@),
                None => None,
            },
            pages: self.pages,
            labels: self.labels@,
            properties: self.properties@,
        }
    }
}

impl Metadata {
    /// Whether the two records say the same: the same times, title and
    /// number of pages, the same labels, and the same values under the same
    /// keys.
    pub fn same(&self, other: &Metadata) -> (equal: bool)
        requires
            self.wf(),
            other.wf(),
        ensures
            equal == (self@ == other@),
    {
        let archived = match (&self.archived, &other.archived) {
            (Some(a), Some(b)) => a.same(b),
            (None, None) => true,
            _ => false,
        };
        let title = match (&self.title, &other.title) {
            (Some(a), Some(b)) => *a == *b,
            (None, None) => true,
            _ => false,
        };
        let equal = self.uploaded.same(&other.uploaded) && archived && title && self.pages
            == other.pages && self.labels.same(&other.labels) && self.properties.same(
            &other.properties,
        );
        assert(equal ==> self@ =~= other@);
        equal
    }

    /// The labels are a set and the properties a map.
    pub open spec fn wf(&self) -> bool {
        self.labels.wf() && self.properties.wf()
    }

    /// The record of a document handed in at the given time, with nothing
    /// else known about it yet.
    pub fn new(uploaded: Timestamp) -> (metadata: Metadata)
        ensures
            metadata.uploaded == uploaded,
            metadata.archived is None,
            metadata.title is None,
            metadata.pages == 0,
            metadata.labels@ == Set::<Seq<char>>::empty(),
            metadata.properties@ == Map::<Seq<char>, Seq<char>>::empty(),
            metadata.wf(),
    {
        Metadata {
            uploaded,
            archived: None,
            title: None,
            pages: 0,
            labels: LabelSet::new(),
            properties: PropertyMap::new(),
        }
    }
}

/// A document as it is shown: its identifier with its metadata record.
#[derive(Debug, Clone)]
pub struct DocInfo {
    pub id: DocId,
    pub metadata: Metadata,
}

impl vstd::std_specs::convert::FromSpecImpl<(DocId, Metadata)> for DocInfo {
    open spec fn obeys_from_spec() -> bool {
        true
    }

    open spec fn from_spec(pair: (DocId, Metadata)) -> DocInfo {
        DocInfo { id: pair.0, metadata: pair.1 }
    }
}

impl From<(DocId, Metadata)> for DocInfo {
    fn from(pair: (DocId, Metadata)) -> (info: DocInfo) {
        DocInfo { id: pair.0, metadata: pair.1 }
    }
}

} // verus!
