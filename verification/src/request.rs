//! Requests of clients and the answers to them.
use vstd::prelude::*;

verus! {

/// A request of a client: an update of the client's status info.
#[derive(Debug)]
pub struct ClientRequest {
    /// The ID of the client which has sent the request.
    pub client: String,
    /// The serial number of this request.
    pub serial: u64,
    /// A string describing the status of the client.
    pub status: String,
}

/// What a `ClientRequest` holds.
pub struct RequestView {
    pub client: Seq<char>,
    pub serial: u64,
    pub status: Seq<char>,
}

impl View for ClientRequest {
    type V = RequestView;

    open spec fn view(&self) -> RequestView {
        RequestView { client: self.client@, serial: self.serial, status: self.status@ }
    }
}

impl Clone for ClientRequest {
    fn clone(&self) -> (copy: Self)
        ensures
            copy@ == self@,
    {
        ClientRequest {
            client: self.client.clone(),
            serial: self.serial,
            status: self.status.clone(),
        }
    }
}

/// The characters of an optional string.
pub open spec fn option_chars(text: Option<String>) -> Option<Seq<char>> {
    match text {
        Some(s) => Some(s@),
        None => None,
    }
}

/// The answer to a `ClientRequest`: the status that was recorded for the client before it.
#[derive(Debug)]
pub struct ClientResponse(pub Option<String>);

impl View for ClientResponse {
    type V = Option<Seq<char>>;

    open spec fn view(&self) -> Option<Seq<char>> {
        option_chars(self.0)
    }
}

impl Clone for ClientResponse {
    fn clone(&self) -> (copy: Self)
        ensures
            copy@ == self@,
    {
        ClientResponse(clone_text(&self.0))
    }
}

/// Copies an optional string.
pub(crate) fn clone_text(text: &Option<String>) -> (copy: Option<String>)
    ensures
        copy == *text,
{
    match text {
        Some(s) => Some(s.clone()),
        None => None,
    }
}

} // verus!
