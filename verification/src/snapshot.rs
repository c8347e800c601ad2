//! Snapshots of the state machine.
use crate::decimal::decimal;
use crate::error::StoreError;
use crate::membership::{MembershipConfig, MembershipView};
use vstd::prelude::*;

verus! {

/// A snapshot of the state machine, with what it covers of the log.
#[derive(Debug)]
pub struct WALStoreSnapshot {
    /// The last index covered by this snapshot.
    pub index: u64,
    /// The term of the last index covered by this snapshot.
    pub term: u64,
    /// The last membership config included in this snapshot.
    pub membership: MembershipConfig,
    /// The data of the state machine at the time of this snapshot.
    pub data: Vec<u8>,
}

/// What a `WALStoreSnapshot` holds.
pub struct SnapshotView {
    pub index: u64,
    pub term: u64,
    pub membership: MembershipView,
    pub data: Seq<u8>,
}

impl View for WALStoreSnapshot {
    type V = SnapshotView;

    open spec fn view(&self) -> SnapshotView {
        SnapshotView {
            index: self.index,
            term: self.term,
            membership: self.membership@,
            data: self.data@,
        }
    }
}

/// What is handed out of the current snapshot.
#[derive(Debug)]
pub struct CurrentSnapshotData {
    /// The snapshot entry's term.
    pub term: u64,
    /// The snapshot entry's index.
    pub index: u64,
    /// The latest membership configuration covered by the snapshot.
    pub membership: MembershipConfig,
    /// The bytes of the snapshot.
    pub snapshot: Vec<u8>,
}

/// What a `CurrentSnapshotData` holds.
pub struct SnapshotDataView {
    pub term: u64,
    pub index: u64,
    pub membership: MembershipView,
    pub snapshot: Seq<u8>,
}

impl View for CurrentSnapshotData {
    type V = SnapshotDataView;

    open spec fn view(&self) -> SnapshotDataView {
        SnapshotDataView {
            term: self.term,
            index: self.index,
            membership: self.membership@,
            snapshot: self.snapshot@,
        }
    }
}

impl SnapshotView {
    /// What is handed out of this snapshot, encoded as `bytes`.
    pub open spec fn handed_out(self, bytes: Seq<u8>) -> SnapshotDataView {
        SnapshotDataView {
            term: self.term,
            index: self.index,
            membership: self.membership,
            snapshot: bytes,
        }
    }
}

impl Clone for WALStoreSnapshot {
    fn clone(&self) -> (copy: Self)
        ensures
            copy@ == self@,
    {
        let data = self.data.clone();
        assert(data@ =~= self.data@);
        WALStoreSnapshot {
            index: self.index,
            term: self.term,
            membership: self.membership.clone(),
            data,
        }
    }
}

impl WALStoreSnapshot {
    /// Hands out this snapshot, encoded as `bytes`.
    pub fn hand_out(&self, bytes: Vec<u8>) -> (data: CurrentSnapshotData)
        ensures
            data@ == self@.handed_out(bytes@),
            data.index == self.index,
            data.term == self.term,
            data.membership@ == self.membership@,
            data.snapshot@ == bytes@,
    {
        CurrentSnapshotData {
            term: self.term,
            index: self.index,
            membership: self.membership.clone(),
            snapshot: bytes,
        }
    }
}

/// The JSON text of an array of bytes, with line breaks and indentation.
pub open spec fn pretty_json(bytes: Seq<u8>) -> Seq<char> {
    if bytes.len() == 0 {
        "[]"@
    } else {
        "["@ + json_elements(bytes) + "\n]"@
    }
}

/// The elements of a JSON array: each byte in decimal on a line of its own, behind two blanks, with
/// commas between them.
pub open spec fn json_elements(bytes: Seq<u8>) -> Seq<char>
    decreases bytes.len(),
{
    if bytes.len() == 0 {
        Seq::empty()
    } else if bytes.len() == 1 {
        "\n  "@ + decimal(bytes.last() as nat)
    } else {
        json_elements(bytes.drop_last()) + ",\n  "@ + decimal(bytes.last() as nat)
    }
}

/// Calls `serde_json::to_string_pretty` on a slice of bytes, which writes them as an array, one to
/// a line and indented by two blanks. A slice of integers holds no map and its serialization has no
/// failure of its own, so the call succeeds.
#[verifier::external_body]
fn to_string_pretty(bytes: &[u8]) -> (text: Result<String, serde_json::Error>)
    ensures
        text is Ok,
        text->Ok_0@ == pretty_json(bytes@),
{
    serde_json::to_string_pretty(bytes)
}

/// The note on a snapshot that is about to be installed, from its JSON text.
pub fn installation_note(json: &str) -> (note: String)
    ensures
        note@ == "JSON SNAP:\n"@ + json@,
{
    let mut note = "JSON SNAP:\n".to_string();
    note.append(json);
    note
}

/// The note on a snapshot that is about to be installed, from its bytes.
pub fn describe_snapshot(bytes: &[u8]) -> (note: Result<String, StoreError>)
    ensures
        note is Ok,
        note->Ok_0@ == "JSON SNAP:\n"@ + pretty_json(bytes@),
{
    match to_string_pretty(bytes) {
        Ok(json) => Ok(installation_note(json.as_str())),
        Err(error) => Err(StoreError::Json(error)),
    }
}

} // verus!
