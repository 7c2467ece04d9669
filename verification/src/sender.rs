//! The transport: what sends a request and brings back the response body.

use vstd::prelude::*;
use crate::api::{reply_model, TransportError};
use crate::params::Params;

verus! {

/// Something that can send an authenticated request to the Web API.
///
/// A sender says nothing of how it sends. What it may bring back it states as
/// a relation, `may_reply`, between a request and a reply. A sender that goes
/// over a network admits every reply, and that is what a sender states that
/// states nothing; one that answers from memory admits one reply.
pub trait SlackWebRequestSender {
    /// Whether this sender may answer the request for `method`, made with
    /// `token` and `params`, with `reply`: a response body, or the message of
    /// a transport error.
    open spec fn may_reply(
        &self,
        method: Seq<char>,
        token: Seq<char>,
        params: Map<Seq<char>, Seq<char>>,
        reply: Result<Seq<char>, Seq<char>>,
    ) -> bool {
        true
    }

    /// Sends the request for `method` with `token` and `params`, once, and
    /// gives the response body or the reason why none came.
    fn send_authed(&self, method: &str, token: &str, params: Params) -> (reply: Result<
        String,
        TransportError,
    >)
        ensures
            self.may_reply(method@, token@, params@, reply_model(reply)),
    ;
}

/// A sender that sends nothing and answers every request with one and the
/// same response body.
pub struct MockSlackWebRequestSender {
    response: String,
}

impl View for MockSlackWebRequestSender {
    type V = Seq<char>;

    /// The response body that this sender answers with.
    closed spec fn view(&self) -> Seq<char> {
        self.response@
    }
}

impl MockSlackWebRequestSender {
    /// A sender that answers every request with `response`.
    pub fn respond_with(response: &str) -> (sender: MockSlackWebRequestSender)
        ensures
            sender@ == response@,
    {
        MockSlackWebRequestSender { response: response.to_owned() }
    }
}

impl SlackWebRequestSender for MockSlackWebRequestSender {
    open spec fn may_reply(
        &self,
        method: Seq<char>,
        token: Seq<char>,
        params: Map<Seq<char>, Seq<char>>,
        reply: Result<Seq<char>, Seq<char>>,
    ) -> bool {
        reply == Ok::<Seq<char>, Seq<char>>(self@)
    }

    fn send_authed(&self, method: &str, token: &str, params: Params) -> (reply: Result<
        String,
        TransportError,
    >) {
        Ok(self.response.clone())
    }
}

} // verus!
