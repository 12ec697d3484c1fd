//! The records that are loaded: entries of a catalogue of papers, with and
//! without the identifier that the catalogue gave them.

use vstd::prelude::*;
use vstd::std_specs::convert::FromSpecImpl;

verus! {

/// One version of a paper.
#[derive(Debug, Clone, PartialEq, Eq, Hash)]
pub struct Version {
    pub created: String,
    pub version: String,
}

/// An entry as the catalogue holds it.
#[derive(Debug, Clone, PartialEq, Eq, Hash)]
pub struct ArxivEntry {
    pub abstract_text: Option<String>,
    pub authors: Option<String>,
    pub authors_parsed: Vec<Vec<String>>,
    pub categories: Option<String>,
    pub comments: Option<String>,
    pub doi: Option<String>,
    pub id: u32,
    pub journal_ref: Option<String>,
    pub license: Option<String>,
    pub report_no: Option<String>,
    pub submitter: Option<String>,
    pub title: Option<String>,
    pub update_date: Option<String>,
    pub versions: Vec<Version>,
}

/// An entry without its identifier, for a sink that gives out keys of its
/// own.
#[derive(Debug, Clone, PartialEq, Eq, Hash)]
pub struct ArxivEntry2 {
    pub abstract_text: Option<String>,
    pub authors: Option<String>,
    pub authors_parsed: Vec<Vec<String>>,
    pub categories: Option<String>,
    pub comments: Option<String>,
    pub doi: Option<String>,
    pub journal_ref: Option<String>,
    pub license: Option<String>,
    pub report_no: Option<String>,
    pub submitter: Option<String>,
    pub title: Option<String>,
    pub update_date: Option<String>,
    pub versions: Vec<Version>,
}

impl From<ArxivEntry> for ArxivEntry2 {
    /// Drops the identifier and keeps every other field as it is.
    fn from(entry: ArxivEntry) -> (stripped: ArxivEntry2) {
        ArxivEntry2 {
            abstract_text: entry.abstract_text,
            authors: entry.authors,
            authors_parsed: entry.authors_parsed,
            categories: entry.categories,
            comments: entry.comments,
            doi: entry.doi,
            journal_ref: entry.journal_ref,
            license: entry.license,
            report_no: entry.report_no,
            submitter: entry.submitter,
            title: entry.title,
            update_date: entry.update_date,
            versions: entry.versions,
        }
    }
}

/// The entry without its identifier: every other field as it is.
pub open spec fn without_id(entry: ArxivEntry) -> ArxivEntry2 {
    ArxivEntry2 {
        abstract_text: entry.abstract_text,
        authors: entry.authors,
        authors_parsed: entry.authors_parsed,
        categories: entry.categories,
        comments: entry.comments,
        doi: entry.doi,
        journal_ref: entry.journal_ref,
        license: entry.license,
        report_no: entry.report_no,
        submitter: entry.submitter,
        title: entry.title,
        update_date: entry.update_date,
        versions: entry.versions,
    }
}

impl FromSpecImpl<ArxivEntry> for ArxivEntry2 {
    open spec fn obeys_from_spec() -> bool {
        true
    }

    open spec fn from_spec(entry: ArxivEntry) -> ArxivEntry2 {
        without_id(entry)
    }
}

/// The entries of a partition without their identifiers, in the same order.
pub open spec fn without_ids(entries: Seq<ArxivEntry>) -> Seq<ArxivEntry2> {
    Seq::new(entries.len(), |i: int| without_id(entries[i]))
}

/// Strips the identifier from every entry of a partition; the order stays,
/// and so does everything else in the entries.
pub fn strip_ids(entries: Vec<ArxivEntry>) -> (stripped: Vec<ArxivEntry2>)
    ensures
        stripped@ == without_ids(entries@),
{
    let ghost all = entries@;
    let mut rest = entries;
    let mut backwards: Vec<ArxivEntry2> = Vec::new();
    while rest.len() > 0
        invariant
            rest@ == all.subrange(0, rest@.len() as int),
            rest@.len() <= all.len(),
            backwards@.len() == all.len() - rest@.len(),
            forall|j: int|
                0 <= j < backwards@.len() ==> #[trigger] backwards@[j] == without_id(
                    all[all.len() - 1 - j],
                ),
        decreases rest@.len(),
    {
        let last = rest.pop();
        match last {
            Some(entry) => {
                backwards.push(ArxivEntry2::from(entry));
            },
            None => {},
        }
    }
    let ghost turned = backwards@;
    let mut stripped: Vec<ArxivEntry2> = Vec::new();
    while backwards.len() > 0
        invariant
            turned.len() == all.len(),
            backwards@ == turned.subrange(0, backwards@.len() as int),
            backwards@.len() <= turned.len(),
            stripped@.len() == turned.len() - backwards@.len(),
            forall|j: int|
                0 <= j < stripped@.len() ==> #[trigger] stripped@[j] == turned[turned.len() - 1
                    - j],
        decreases backwards@.len(),
    {
        let last = backwards.pop();
        match last {
            Some(entry) => {
                stripped.push(entry);
            },
            None => {},
        }
    }
    assert(stripped@ =~= without_ids(all));
    stripped
}

} // verus!
