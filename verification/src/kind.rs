//! The kinds of fragment a bundle can hold, and the file each is kept in.

use vstd::prelude::*;
use vstd::string::StringExecFns;

use crate::layout::is_plain;

verus! {

/// A kind of fragment. Four kinds are canonical; `Other` is open and carries
/// the name of its file. Nothing keeps an open name from being the file name
/// of a canonical kind: that is left to the caller.
#[derive(Clone, Debug, PartialEq, Eq)]
pub enum Kind {
    Document,
    Preview,
    Plaintext,
    Metadata,
    Other { name: String },
}

/// A [`Kind`] with its name as a sequence of characters.
pub enum KindView {
    Document,
    Preview,
    Plaintext,
    Metadata,
    Other { name: Seq<char> },
}

impl View for Kind {
    type V = KindView;

    open spec fn view(&self) -> KindView {
        match self {
            Kind::Document => KindView::Document,
            Kind::Preview => KindView::Preview,
            Kind::Plaintext => KindView::Plaintext,
            Kind::Metadata => KindView::Metadata,
            Kind::Other { name } => KindView::Other { name: name@ },
        }
    }
}

impl KindView {
    /// The name of the file that holds a fragment of this kind.
    pub open spec fn filename(self) -> Seq<char> {
        match self {
            KindView::Document => "document.pdf"@,
            KindView::Preview => "preview.png"@,
            KindView::Plaintext => "document.txt"@,
            KindView::Metadata => "metadata.json"@,
            KindView::Other { name } => name,
        }
    }

    /// The kind that a fragment name stands for: the four canonical kinds by
    /// their names, anything else as an open kind of that name.
    pub open spec fn named(fragment: Seq<char>) -> KindView {
        if fragment == "document"@ {
            KindView::Document
        } else if fragment == "preview"@ {
            KindView::Preview
        } else if fragment == "plaintext"@ {
            KindView::Plaintext
        } else if fragment == "metadata"@ {
            KindView::Metadata
        } else {
            KindView::Other { name: fragment }
        }
    }

    /// Whether the kind is one of the four canonical ones.
    pub open spec fn is_canonical(self) -> bool {
        !(self is Other)
    }
}

/// Two canonical kinds that differ are kept in files of different names.
pub proof fn lemma_canonical_filenames_differ(a: KindView, b: KindView)
    requires
        a.is_canonical(),
        b.is_canonical(),
        a != b,
    ensures
        a.filename() != b.filename(),
{
    reveal_strlit("document.pdf");
    reveal_strlit("preview.png");
    reveal_strlit("document.txt");
    reveal_strlit("metadata.json");
    if a.filename() == b.filename() {
        assert(a.filename().len() == b.filename().len());
        assert(a.filename()[9] == b.filename()[9]);
    }
}

/// The file name of a canonical kind is a plain name: it is not empty and
/// holds no separator.
pub proof fn lemma_canonical_filenames_plain(kind: KindView)
    requires
        kind.is_canonical(),
    ensures
        is_plain(kind.filename()),
{
    reveal_strlit("document.pdf");
    reveal_strlit("preview.png");
    reveal_strlit("document.txt");
    reveal_strlit("metadata.json");
}

impl Kind {
    /// The open kind kept in a file of the given name.
    pub fn other(name: &str) -> (kind: Kind)
        ensures
            kind@ == (KindView::Other { name: name@ }),
    {
        Kind::Other { name: String::from_str(name) }
    }

    /// The name of the file that holds a fragment of this kind.
    pub fn filename(&self) -> (name: String)
        ensures
            name@ == self@.filename(),
    {
        match self {
            Kind::Document => String::from_str("document.pdf"),
            Kind::Preview => String::from_str("preview.png"),
            Kind::Plaintext => String::from_str("document.txt"),
            Kind::Metadata => String::from_str("metadata.json"),
            Kind::Other { name } => name.clone(),
        }
    }

    /// Whether the two kinds are the same variant and, if open, of the same
    /// name.
    pub fn same(&self, other: &Kind) -> (equal: bool)
        ensures
            equal == (self@ == other@),
    {
        match (self, other) {
            (Kind::Document, Kind::Document) => true,
            (Kind::Preview, Kind::Preview) => true,
            (Kind::Plaintext, Kind::Plaintext) => true,
            (Kind::Metadata, Kind::Metadata) => true,
            (Kind::Other { name: a }, Kind::Other { name: b }) => {
                assert((a@ == b@) <==> (self@ == other@));
                *a == *b
            },
            _ => false,
        }
    }
}

impl vstd::std_specs::convert::FromSpecImpl<String> for Kind {
    open spec fn obeys_from_spec() -> bool {
        true
    }

    open spec fn from_spec(fragment: String) -> Kind {
        match KindView::named(fragment@) {
            KindView::Document => Kind::Document,
            KindView::Preview => Kind::Preview,
            KindView::Plaintext => Kind::Plaintext,
            KindView::Metadata => Kind::Metadata,
            KindView::Other { .. } => Kind::Other { name: fragment },
        }
    }
}

impl From<String> for Kind {
    /// The kind that a fragment name stands for.
    fn from(fragment: String) -> (kind: Kind)
        ensures
            kind@ == KindView::named(fragment@),
    {
        if fragment == String::from_str("document") {
            Kind::Document
        } else if fragment == String::from_str("preview") {
            Kind::Preview
        } else if fragment == String::from_str("plaintext") {
            Kind::Plaintext
        } else if fragment == String::from_str("metadata") {
            Kind::Metadata
        } else {
            Kind::Other { name: fragment }
        }
    }
}

} // verus!
