//! Documents: an id, a revision (absent until the first save), a sequence
//! (0 until the first save) and a dictionary of properties; and the rules a
//! save follows under each concurrency policy.
use vstd::prelude::*;
use crate::error::{error_of, CBLError, CouchbaseLiteError, Error, ErrorCode, Result};
use crate::fleece::{lookup, Dict, Timestamp, Tree};
use crate::fleece_mutable::{lemma_put_all, put_all, MutableDict};

verus! {

/// How a save treats a revision stored since the document was loaded.
#[derive(Clone, Copy, Debug, PartialEq, Eq, Structural)]
pub enum ConcurrencyControl {
    /// The save overwrites the stored revision.
    LastWriteWins,
    /// The save fails with a conflict.
    FailOnConflict,
}

/// A document in memory.
#[derive(Debug)]
pub struct Document {
    id: String,
    revision_id: Option<String>,
    sequence: u64,
    properties: MutableDict,
}

/// The text of a revision, if there is one.
pub open spec fn revision_text(r: Option<String>) -> Option<Seq<char>> {
    match r {
        Some(s) => Some(s@),
        None => None,
    }
}

impl Document {
    /// The document's id.
    pub closed spec fn spec_id(&self) -> Seq<char> {
        self.id@
    }

    /// The document's revision; `None` until it is saved.
    pub closed spec fn spec_revision(&self) -> Option<Seq<char>> {
        revision_text(self.revision_id)
    }

    /// The document's sequence; 0 until it is saved.
    pub closed spec fn spec_sequence(&self) -> u64 {
        self.sequence
    }

    /// The document's properties.
    pub closed spec fn spec_properties(&self) -> MutableDict {
        self.properties
    }

    /// A document has a revision exactly when it has a nonzero sequence.
    pub open spec fn wf(&self) -> bool {
        self.spec_revision() is Some <==> self.spec_sequence() > 0
    }

    /// A new, unsaved document with the given id and no properties.
    pub fn new_with_id(id: &str) -> (r: Document)
        ensures
            r.wf(),
            r.spec_id() == id@,
            r.spec_revision() is None,
            r.spec_sequence() == 0,
            r.spec_properties()@ == Seq::<(Seq<char>, Tree)>::empty(),
            !r.spec_properties().spec_is_none(),
            !r.spec_properties().changed(),
    {
        Document {
            id: id.to_owned(),
            revision_id: None,
            sequence: 0,
            properties: MutableDict::new(),
        }
    }

    /// A document as stored: its id, revision, sequence and properties. A
    /// stored revision comes with a nonzero sequence.
    pub fn from_parts(
        id: String,
        revision_id: Option<String>,
        sequence: u64,
        properties: MutableDict,
    ) -> (r: Document)
        requires
            revision_id is Some <==> sequence > 0,
        ensures
            r.wf(),
            r.spec_id() == id@,
            r.spec_revision() == revision_text(revision_id),
            r.spec_sequence() == sequence,
            r.spec_properties() == properties,
    {
        Document { id, revision_id, sequence, properties }
    }

    /// The document's id.
    pub fn id(&self) -> (r: String)
        ensures
            r@ == self.spec_id(),
    {
        self.id.clone()
    }

    /// The document's revision; `None` until it is saved.
    pub fn revision_id(&self) -> (r: Option<String>)
        ensures
            revision_text(r) == self.spec_revision(),
    {
        match &self.revision_id {
            Some(s) => Some(s.clone()),
            None => None,
        }
    }

    /// The document's sequence; 0 until it is saved.
    pub fn sequence(&self) -> (r: u64)
        ensures
            r == self.spec_sequence(),
    {
        self.sequence
    }

    /// A read-only view of the properties, borrowed from the document.
    pub fn properties(&self) -> (r: Dict<'_>)
        ensures
            r@ == self.spec_properties().dict_view(),
    {
        self.properties.as_dict()
    }

    /// The properties, for editing in place; edits are part of the document
    /// and are saved with it.
    pub fn mutable_properties(&mut self) -> (r: &mut MutableDict)
        ensures
            *r == old(self).spec_properties(),
            final(self).spec_properties() == *final(r),
            final(self).spec_id() == old(self).spec_id(),
            final(self).spec_revision() == old(self).spec_revision(),
            final(self).spec_sequence() == old(self).spec_sequence(),
    {
        &mut self.properties
    }

    /// Replaces the properties.
    pub fn set_properties(&mut self, properties: MutableDict)
        ensures
            final(self).spec_properties() == properties,
            final(self).spec_id() == old(self).spec_id(),
            final(self).spec_revision() == old(self).spec_revision(),
            final(self).spec_sequence() == old(self).spec_sequence(),
    {
        self.properties = properties;
    }
}

/// A document that has never been saved has sequence 0; and once values are
/// stored under a set of distinct keys into the empty properties of a new
/// document, its property count is the number of keys, and exactly those
/// keys have a value.
pub proof fn lemma_unsaved_document(doc: Document, keys: Seq<Seq<char>>, values: Seq<Tree>)
    requires
        doc.wf(),
        doc.spec_revision() is None,
        doc.spec_properties()@.len() == 0,
        keys.no_duplicates(),
        values.len() == keys.len(),
    ensures
        doc.spec_sequence() == 0,
        put_all(doc.spec_properties()@, keys, values).len() == keys.len(),
        forall|k: Seq<char>|
            (lookup(put_all(doc.spec_properties()@, keys, values), k) is Some) <==> keys.contains(k),
{
    let s = doc.spec_properties()@;
    assert forall|i: int| 0 <= i < keys.len() implies lookup(s, #[trigger] keys[i]) is None by {
        crate::fleece::lemma_first_index(s, keys[i]);
    }
    assert forall|k: Seq<char>| lookup(s, k) is None by {
        crate::fleece::lemma_first_index(s, k);
    }
    lemma_put_all(s, keys, values);
}

/// Whether a save may go ahead: under last-write-wins always; under
/// fail-on-conflict only when the stored revision (`None` when nothing is
/// stored) is the revision the document was loaded at.
pub open spec fn save_allowed(
    doc_revision: Option<Seq<char>>,
    stored_revision: Option<Seq<char>>,
    concurrency: ConcurrencyControl,
) -> bool {
    concurrency == ConcurrencyControl::LastWriteWins || doc_revision == stored_revision
}

/// The error that a refused save gives.
pub open spec fn conflict_error() -> Error {
    Error { code: ErrorCode::CouchbaseLite(CouchbaseLiteError::Conflict), internal_info: None }
}

/// Decides whether saving `doc` may go ahead, given the revision stored now
/// under its id, or gives the conflict error.
pub fn check_save(doc: &Document, stored_revision: Option<&str>, concurrency: ConcurrencyControl) -> (r:
    Result<()>)
    ensures
        r is Ok <==> save_allowed(
            doc.spec_revision(),
            match stored_revision {
                Some(s) => Some(s@),
                None => None,
            },
            concurrency,
        ),
        r matches Err(e) ==> e == conflict_error(),
{
    let same = match (&doc.revision_id, stored_revision) {
        (Some(a), Some(b)) => {
            let b = b.to_owned();
            *a == b
        },
        (None, None) => true,
        _ => false,
    };
    match concurrency {
        ConcurrencyControl::LastWriteWins => Ok(()),
        ConcurrencyControl::FailOnConflict => if same {
            Ok(())
        } else {
            Err(Error::cbl_error(CouchbaseLiteError::Conflict))
        },
    }
}

/// A save of a document loaded before another save of the same id fails
/// under fail-on-conflict and goes ahead under last-write-wins.
pub proof fn lemma_save_after_other_save(
    doc_revision: Option<Seq<char>>,
    stored_revision: Option<Seq<char>>,
)
    requires
        doc_revision != stored_revision,
    ensures
        !save_allowed(doc_revision, stored_revision, ConcurrencyControl::FailOnConflict),
        save_allowed(doc_revision, stored_revision, ConcurrencyControl::LastWriteWins),
{
}

/// The expiration that the engine reports as a number: negative is a
/// failure, 0 is no expiration, anything else a time.
pub open spec fn expiration_of(exp: i64) -> Option<Timestamp> {
    if exp == 0 {
        None
    } else {
        Some(Timestamp(exp))
    }
}

/// The number that stands for an expiration: 0 for none.
pub open spec fn expiration_number(when: Option<Timestamp>) -> i64 {
    match when {
        Some(t) => t.0,
        None => 0,
    }
}

/// A document's expiration from the engine's report: a negative number is
/// the failure that the record (which then holds an error) reports.
pub fn decode_expiration(exp: i64, err: &CBLError) -> (r: Result<Option<Timestamp>>)
    requires
        exp >= 0 || err.code != 0,
    ensures
        exp < 0 ==> (r matches Err(e) && e == error_of(*err)),
        exp >= 0 ==> (r matches Ok(w) && w == expiration_of(exp)),
{
    if exp < 0 {
        Err(Error::new(err))
    } else if exp == 0 {
        Ok(None)
    } else {
        Ok(Some(Timestamp(exp)))
    }
}

/// The number that sets or clears an expiration.
pub fn encode_expiration(when: Option<Timestamp>) -> (r: i64)
    ensures
        r == expiration_number(when),
{
    match when {
        Some(Timestamp(n)) => n,
        None => 0,
    }
}

/// Clearing an expiration reads back as none, and a time after the epoch
/// reads back as itself.
pub proof fn lemma_expiration_round_trip(when: Option<Timestamp>)
    requires
        (when matches Some(t) ==> t.0 > 0),
    ensures
        expiration_of(expiration_number(when)) == when,
{
}

} // verus!
