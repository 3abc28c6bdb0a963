//! The data model rows the application stores: entries (content-addressed
//! files), tags, and the association between them, each with its
//! insertable form. The SQL layer that loads and stores them is an
//! external collaborator; these are the shapes handed across that
//! boundary.

use vstd::prelude::*;

verus! {

/// One stored file: its row id, content digest, detected MIME type, and
/// whether the stored file has gone missing.
#[derive(Debug)]
pub struct Entry {
    pub id: i64,
    pub hash: String,
    pub mime: Option<String>,
    pub is_orphan: Option<bool>,
}

/// The insertable form of an entry.
pub struct NewEntry<'a> {
    pub hash: &'a str,
    pub mime: Option<&'a str>,
}

/// One tag a user can search by, optionally namespaced by a schema.
#[derive(Debug)]
pub struct Tag {
    pub id: i64,
    pub schema: Option<String>,
    pub name: String,
}

/// The insertable form of a tag.
pub struct NewTag<'a> {
    pub schema: Option<&'a str>,
    pub name: &'a str,
}

/// One tagging: the tag and the entry it is attached to.
#[derive(Debug)]
pub struct EntryTag {
    pub tag_id: i64,
    pub entry_id: i64,
    pub id: i64,
}

/// The insertable form of a tagging.
pub struct NewEntryTag {
    pub tag_id: i64,
    pub entry_id: i64,
}

impl Entry {
    /// The insertable form of this entry, borrowing its fields.
    pub fn as_new(&self) -> (r: NewEntry<'_>)
        ensures
            r.hash@ == self.hash@,
            match r.mime {
                Some(m) => self.mime matches Some(sm) && sm@ == m@,
                None => self.mime is None,
            },
    {
        NewEntry {
            hash: self.hash.as_str(),
            mime: match &self.mime {
                Some(m) => Some(m.as_str()),
                None => None,
            },
        }
    }
}

} // verus!
