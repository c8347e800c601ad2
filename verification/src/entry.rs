//! Entries of the Raft log.
use crate::membership::{MembershipConfig, MembershipView};
use crate::request::{ClientRequest, RequestView};
use vstd::prelude::*;

verus! {

/// An entry of the Raft log.
#[derive(Debug)]
pub struct Entry {
    /// This entry's term.
    pub term: u64,
    /// This entry's index.
    pub index: u64,
    /// This entry's payload.
    pub payload: EntryPayload,
}

/// What an entry carries.
#[derive(Debug)]
pub enum EntryPayload {
    /// An empty payload committed by a new cluster leader.
    Blank,
    /// A normal log entry.
    Normal(EntryNormal),
    /// A config change log entry.
    ConfigChange(EntryConfigChange),
    /// An entry which points to a snapshot.
    SnapshotPointer(EntrySnapshotPointer),
}

/// A normal log entry.
#[derive(Debug)]
pub struct EntryNormal {
    /// The contents of this entry.
    pub data: ClientRequest,
}

/// A log entry holding a config change.
#[derive(Debug)]
pub struct EntryConfigChange {
    /// Details on the cluster's membership configuration.
    pub membership: MembershipConfig,
}

/// A log entry pointing to a snapshot.
#[derive(Debug)]
pub struct EntrySnapshotPointer {
    /// The ID of the snapshot.
    pub id: String,
    /// The cluster's membership config covered by this snapshot.
    pub membership: MembershipConfig,
}

/// What an `Entry` holds.
pub struct EntryView {
    pub term: u64,
    pub index: u64,
    pub payload: PayloadView,
}

/// What an `EntryPayload` holds.
pub enum PayloadView {
    Blank,
    Normal { data: RequestView },
    ConfigChange { membership: MembershipView },
    SnapshotPointer { id: Seq<char>, membership: MembershipView },
}

impl View for EntryPayload {
    type V = PayloadView;

    open spec fn view(&self) -> PayloadView {
        match *self {
            EntryPayload::Blank => PayloadView::Blank,
            EntryPayload::Normal(normal) => PayloadView::Normal { data: normal.data@ },
            EntryPayload::ConfigChange(change) => PayloadView::ConfigChange {
                membership: change.membership@,
            },
            EntryPayload::SnapshotPointer(pointer) => PayloadView::SnapshotPointer {
                id: pointer.id@,
                membership: pointer.membership@,
            },
        }
    }
}

impl View for Entry {
    type V = EntryView;

    open spec fn view(&self) -> EntryView {
        EntryView { term: self.term, index: self.index, payload: self.payload@ }
    }
}

impl EntryView {
    /// The membership config of a config change or of a snapshot pointer.
    pub open spec fn membership(self) -> Option<MembershipView> {
        match self.payload {
            PayloadView::ConfigChange { membership } => Some(membership),
            PayloadView::SnapshotPointer { id, membership } => Some(membership),
            _ => None,
        }
    }
}

/// The entry that stands for a snapshot in the log.
pub open spec fn snapshot_pointer(
    index: u64,
    term: u64,
    id: Seq<char>,
    membership: MembershipView,
) -> EntryView {
    EntryView { term, index, payload: PayloadView::SnapshotPointer { id, membership } }
}

impl Clone for EntryPayload {
    fn clone(&self) -> (copy: Self)
        ensures
            copy@ == self@,
    {
        match self {
            EntryPayload::Blank => EntryPayload::Blank,
            EntryPayload::Normal(normal) => EntryPayload::Normal(
                EntryNormal { data: normal.data.clone() },
            ),
            EntryPayload::ConfigChange(change) => EntryPayload::ConfigChange(
                EntryConfigChange { membership: change.membership.clone() },
            ),
            EntryPayload::SnapshotPointer(pointer) => EntryPayload::SnapshotPointer(
                EntrySnapshotPointer {
                    id: pointer.id.clone(),
                    membership: pointer.membership.clone(),
                },
            ),
        }
    }
}

impl Clone for Entry {
    fn clone(&self) -> (copy: Self)
        ensures
            copy@ == self@,
    {
        Entry { term: self.term, index: self.index, payload: self.payload.clone() }
    }
}

impl Entry {
    /// Makes the entry that stands for a snapshot in the log.
    ///
    /// `index` and `term` are those of the entry that it replaces, `id` is the ID of the snapshot,
    /// and `membership` is the latest membership config that the snapshot covers.
    pub fn new_snapshot_pointer(
        index: u64,
        term: u64,
        id: String,
        membership: MembershipConfig,
    ) -> (entry: Entry)
        ensures
            entry@ == snapshot_pointer(index, term, id@, membership@),
    {
        Entry {
            term,
            index,
            payload: EntryPayload::SnapshotPointer(EntrySnapshotPointer { id, membership }),
        }
    }

    /// The membership config of a config change or of a snapshot pointer.
    pub fn membership(&self) -> (config: Option<&MembershipConfig>)
        ensures
            match config {
                Some(c) => self@.membership() == Some(c@),
                None => self@.membership() is None,
            },
    {
        match &self.payload {
            EntryPayload::ConfigChange(change) => Some(&change.membership),
            EntryPayload::SnapshotPointer(pointer) => Some(&pointer.membership),
            _ => None,
        }
    }
}

} // verus!
