//! Coalescing of background work: what is in flight, what waits, and what is
//! launched next.
use std::collections::HashMap;
use vstd::prelude::*;

use crate::document::{DocumentId, DocumentRevision, WorkspaceEpoch};
use crate::path::{path_equal, same_path};

verus! {

broadcast use vstd::std_specs::hash::group_hash_axioms;

/// The one syntax job in flight, if any.
#[derive(Debug)]
pub struct SyntaxCoalesceState {
    pub in_flight: Option<(DocumentId, DocumentRevision)>,
}

impl Default for SyntaxCoalesceState {
    fn default() -> (st: Self)
        ensures
            st.in_flight is None,
    {
        SyntaxCoalesceState { in_flight: None }
    }
}

impl SyntaxCoalesceState {
    pub fn has_in_flight(&self) -> (busy: bool)
        ensures
            busy == (self.in_flight is Some),
    {
        self.in_flight.is_some()
    }

    pub fn on_dispatch(&mut self, doc: DocumentId, rev: DocumentRevision)
        ensures
            final(self).in_flight == Some((doc, rev)),
    {
        self.in_flight = Some((doc, rev));
    }

    /// Takes note of a result. Only the result of the job in flight ends it; any
    /// other leaves the state as it was.
    pub fn on_result(&mut self, doc: DocumentId, rev: DocumentRevision) -> (matched: bool)
        ensures
            matched == (old(self).in_flight == Some((doc, rev))),
            matched ==> final(self).in_flight is None,
            !matched ==> final(self).in_flight == old(self).in_flight,
    {
        match self.in_flight {
            Some((d, r)) => {
                if d == doc && r == rev {
                    self.in_flight = None;
                    true
                } else {
                    false
                }
            },
            None => false,
        }
    }

    /// Whether a job may be started: nothing is in flight, and the document is not
    /// up to date.
    pub fn should_spawn_for(
        &self,
        _doc: DocumentId,
        _rev: DocumentRevision,
        up_to_date: bool,
    ) -> (spawn: bool)
        ensures
            spawn == (!up_to_date && self.in_flight is None),
    {
        !up_to_date && self.in_flight.is_none()
    }

    pub fn clear(&mut self)
        ensures
            final(self).in_flight is None,
    {
        self.in_flight = None;
    }
}

/// A file to be written: the text of a document at a revision.
#[derive(Debug)]
pub struct SaveRequestData {
    pub epoch: WorkspaceEpoch,
    pub doc_id: DocumentId,
    pub revision: DocumentRevision,
    pub path: String,
    pub content: String,
}

/// The saves in flight and the latest waiting save of each document. The maps
/// are keyed by the bits of the document identifier.
#[derive(Debug)]
pub struct SaveCoalesceState {
    pub in_flight: HashMap<u128, DocumentRevision>,
    pub pending: HashMap<u128, SaveRequestData>,
}

/// What the save coalescing remembers.
pub struct Saves {
    pub in_flight: Map<u128, DocumentRevision>,
    pub pending: Map<u128, SaveRequestData>,
}

impl View for SaveCoalesceState {
    type V = Saves;

    open spec fn view(&self) -> Saves {
        Saves { in_flight: self.in_flight@, pending: self.pending@ }
    }
}

/// Whether saves wait only behind a save of the same document.
pub open spec fn saves_wf(s: Saves) -> bool {
    &&& s.pending.dom().subset_of(s.in_flight.dom())
    &&& forall|k: u128| #[trigger]
        s.pending.dom().contains(k) ==> s.pending[k].doc_id == DocumentId(k)
}

/// A save is asked for: it waits behind one in flight, in place of any other that
/// waited, and else starts.
pub open spec fn save_requested(s: Saves, data: SaveRequestData) -> (Saves, Option<
    SaveRequestData,
>) {
    let k = data.doc_id.0;
    if s.in_flight.dom().contains(k) {
        (Saves { pending: s.pending.insert(k, data), ..s }, None)
    } else {
        (Saves { in_flight: s.in_flight.insert(k, data.revision), ..s }, Some(data))
    }
}

/// A save has ended: the one that waits starts.
pub open spec fn save_finished(s: Saves, doc: DocumentId) -> (Saves, Option<SaveRequestData>) {
    let k = doc.0;
    if s.pending.dom().contains(k) {
        let data = s.pending[k];
        (
            Saves {
                in_flight: s.in_flight.insert(k, data.revision),
                pending: s.pending.remove(k),
            },
            Some(data),
        )
    } else {
        (Saves { in_flight: s.in_flight.remove(k), ..s }, None)
    }
}

/// Of the saves asked for while one is in flight, the latest is started when
/// that one ends, and none before.
pub proof fn latest_save_follows(s: Saves, first: SaveRequestData, second: SaveRequestData)
    requires
        first.doc_id == second.doc_id,
        s.in_flight.dom().contains(first.doc_id.0),
    ensures
        save_requested(s, first).1 is None,
        save_requested(save_requested(s, first).0, second).1 is None,
        save_finished(
            save_requested(save_requested(s, first).0, second).0,
            first.doc_id,
        ).1 == Some(second),
{
}

/// While a save of a document is in flight no other save of it starts: a save
/// starts only on a document with none in flight, or when that one ends.
pub proof fn saves_of_a_document_are_serialized(s: Saves, data: SaveRequestData)
    requires
        saves_wf(s),
    ensures
        save_requested(s, data).1 is Some ==> !s.in_flight.dom().contains(data.doc_id.0),
        save_requested(s, data).0.in_flight.dom().contains(data.doc_id.0),
        saves_wf(save_requested(s, data).0),
        saves_wf(save_finished(s, data.doc_id).0),
        save_finished(s, data.doc_id).1 is Some <==> save_finished(
            s,
            data.doc_id,
        ).0.in_flight.dom().contains(data.doc_id.0),
        !save_finished(s, data.doc_id).0.pending.dom().contains(data.doc_id.0),
{
}

/// What happens to one document leaves the saves of every other alone.
pub proof fn saves_of_documents_are_independent(s: Saves, data: SaveRequestData, other: u128)
    requires
        other != data.doc_id.0,
    ensures
        ({
            let a = save_requested(s, data).0;
            let b = save_finished(s, data.doc_id).0;
            &&& a.in_flight.dom().contains(other) == s.in_flight.dom().contains(other)
            &&& a.pending.dom().contains(other) == s.pending.dom().contains(other)
            &&& b.in_flight.dom().contains(other) == s.in_flight.dom().contains(other)
            &&& b.pending.dom().contains(other) == s.pending.dom().contains(other)
            &&& a.in_flight[other] == s.in_flight[other]
            &&& a.pending[other] == s.pending[other]
            &&& b.in_flight[other] == s.in_flight[other]
            &&& b.pending[other] == s.pending[other]
        }),
{
}

impl Default for SaveCoalesceState {
    fn default() -> (st: Self)
        ensures
            st@.in_flight == Map::<u128, DocumentRevision>::empty(),
            st@.pending == Map::<u128, SaveRequestData>::empty(),
    {
        SaveCoalesceState { in_flight: HashMap::new(), pending: HashMap::new() }
    }
}

impl SaveCoalesceState {
    pub fn has_in_flight_for(&self, doc: DocumentId) -> (busy: bool)
        ensures
            busy == self@.in_flight.dom().contains(doc.0),
    {
        self.in_flight.contains_key(&doc.0)
    }

    /// Asks for a save. While one of the document is in flight this one waits, in
    /// place of any that waited before; else it is returned, to be started now.
    pub fn on_request(&mut self, data: SaveRequestData) -> (launch: Option<SaveRequestData>)
        ensures
            (final(self)@, launch) == save_requested(old(self)@, data),
            saves_wf(old(self)@) ==> saves_wf(final(self)@),
    {
        let k: u128 = data.doc_id.0;
        if self.in_flight.contains_key(&k) {
            self.pending.insert(k, data);
            None
        } else {
            self.in_flight.insert(k, data.revision);
            Some(data)
        }
    }

    /// Takes note that a save of a document has ended, well or not. The save that
    /// waits for it is returned, to be started now.
    pub fn on_result(&mut self, doc: DocumentId, _rev: DocumentRevision) -> (launch: Option<
        SaveRequestData,
    >)
        ensures
            (final(self)@, launch) == save_finished(old(self)@, doc),
            saves_wf(old(self)@) ==> saves_wf(final(self)@),
    {
        self.in_flight.remove(&doc.0);
        match self.pending.remove(&doc.0) {
            Some(data) => {
                self.in_flight.insert(doc.0, data.revision);
                assert(self@.in_flight =~= old(self)@.in_flight.insert(doc.0, data.revision));
                Some(data)
            },
            None => {
                assert(self@.pending =~= old(self)@.pending);
                None
            },
        }
    }

    pub fn clear(&mut self)
        ensures
            final(self)@.in_flight == Map::<u128, DocumentRevision>::empty(),
            final(self)@.pending == Map::<u128, SaveRequestData>::empty(),
    {
        self.in_flight.clear();
        self.pending.clear();
    }
}

/// The one file read in flight and the latest one that waits.
#[derive(Debug)]
pub struct ProjectFileCoalesceState {
    pub in_flight: Option<(String, WorkspaceEpoch)>,
    pub pending: Option<(String, WorkspaceEpoch)>,
}

/// Whether a read is the one of a path, however that is written, at an epoch.
pub open spec fn is_read_of(
    read: Option<(String, WorkspaceEpoch)>,
    path: Seq<char>,
    epoch: WorkspaceEpoch,
) -> bool {
    match read {
        Some((p, e)) => path_equal(p@, path) && e == epoch,
        None => false,
    }
}

impl Default for ProjectFileCoalesceState {
    fn default() -> (st: Self)
        ensures
            st.in_flight is None,
            st.pending is None,
    {
        ProjectFileCoalesceState { in_flight: None, pending: None }
    }
}

impl ProjectFileCoalesceState {
    pub fn has_in_flight(&self) -> (busy: bool)
        ensures
            busy == (self.in_flight is Some),
    {
        self.in_flight.is_some()
    }

    /// Asks for a read. It starts if none is in flight; else it waits, in place of
    /// any that waited before.
    pub fn on_request(&mut self, path: String, epoch: WorkspaceEpoch) -> (spawn: bool)
        ensures
            spawn == (old(self).in_flight is None),
            spawn ==> final(self).in_flight == Some((path, epoch)) && final(self).pending == old(
                self,
            ).pending,
            !spawn ==> final(self).in_flight == old(self).in_flight && final(self).pending == Some(
                (path, epoch),
            ),
    {
        if self.in_flight.is_none() {
            self.in_flight = Some((path, epoch));
            true
        } else {
            self.pending = Some((path, epoch));
            false
        }
    }

    pub fn on_dispatch(&mut self, path: String, epoch: WorkspaceEpoch)
        ensures
            final(self).in_flight == Some((path, epoch)),
            final(self).pending == old(self).pending,
    {
        self.in_flight = Some((path, epoch));
    }

    /// Takes note of a result. Only the result of the read in flight, of the same
    /// path and epoch, ends it.
    pub fn on_result(&mut self, path: &String, epoch: WorkspaceEpoch) -> (matched: bool)
        ensures
            matched == is_read_of(old(self).in_flight, path@, epoch),
            matched ==> final(self).in_flight is None,
            !matched ==> final(self).in_flight == old(self).in_flight,
            final(self).pending == old(self).pending,
    {
        let matched = match &self.in_flight {
            Some((p, e)) => same_path(p.as_str(), path.as_str()) && *e == epoch,
            None => false,
        };
        if matched {
            self.in_flight = None;
        }
        matched
    }

    pub fn take_pending(&mut self) -> (pending: Option<(String, WorkspaceEpoch)>)
        ensures
            pending == old(self).pending,
            final(self).pending is None,
            final(self).in_flight == old(self).in_flight,
    {
        self.pending.take()
    }

    pub fn clear(&mut self)
        ensures
            final(self).in_flight is None,
            final(self).pending is None,
    {
        self.in_flight = None;
        self.pending = None;
    }
}

/// A save starts at once where none of its document is in flight, and what starts is
/// what was asked for. When it ends with nothing waiting, the next one starts at once
/// again; with one waiting, that one is in flight then.
pub proof fn saves_start_as_asked(s: Saves, data: SaveRequestData, doc: DocumentId)
    ensures
        !s.in_flight.dom().contains(data.doc_id.0) ==> save_requested(s, data).1 == Some(data)
            && save_requested(s, data).0.in_flight.dom().contains(data.doc_id.0)
            && save_requested(s, data).0.in_flight[data.doc_id.0] == data.revision
            && save_requested(s, data).0.pending == s.pending,
        s.in_flight.dom().contains(data.doc_id.0) ==> save_requested(s, data).1 is None
            && save_requested(s, data).0.pending.dom().contains(data.doc_id.0)
            && save_requested(s, data).0.pending[data.doc_id.0] == data
            && save_requested(s, data).0.in_flight == s.in_flight,
        !s.pending.dom().contains(doc.0) ==> save_finished(s, doc).1 is None && !save_finished(
            s,
            doc,
        ).0.in_flight.dom().contains(doc.0),
        s.pending.dom().contains(doc.0) ==> save_finished(s, doc).1 == Some(s.pending[doc.0])
            && save_finished(s, doc).0.in_flight.dom().contains(doc.0) && !save_finished(
            s,
            doc,
        ).0.pending.dom().contains(doc.0) && save_finished(s, doc).0.in_flight[doc.0]
            == s.pending[doc.0].revision,
{
}

} // verus!
