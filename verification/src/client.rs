//! The client that sends the requests, and a record of what it was handed.
//!
//! The library sends nothing itself. It hands each request to a client and
//! takes what comes back. A sender holds the client, and keeps the record
//! of all that the client was handed.

use crate::{Request, RequestView, Response, ResponseView};
use vstd::prelude::*;

verus! {

/// What sends a request and comes back with the response.
pub trait HttpClient {
    /// Sends the request. Where no response comes back, the result tells
    /// why.
    fn execute(&mut self, request: &Request) -> Result<Response, String>;
}

/// A request that was handed to the client, and what came back: the
/// response, or why there is none.
pub struct Delivery {
    pub request: RequestView,
    pub outcome: Result<ResponseView, Seq<char>>,
}

/// What came back from the client, seen as texts.
pub open spec fn delivered(result: Result<Response, String>) -> Result<ResponseView, Seq<char>> {
    match result {
        Ok(response) => Ok(response@),
        Err(cause) => Err(cause@),
    }
}

/// A client, and what it has been handed.
pub struct Sender<C: HttpClient> {
    client: C,
    sent: Ghost<Seq<Delivery>>,
}

impl<C: HttpClient> Sender<C> {
    /// What the client has been handed through this sender, oldest first.
    pub closed spec fn sent(&self) -> Seq<Delivery> {
        self.sent@
    }

    /// A sender for the client, which has been handed nothing through it.
    pub fn new(client: C) -> (sender: Sender<C>)
        ensures
            sender.sent() == Seq::<Delivery>::empty(),
    {
        Sender { client, sent: Ghost(Seq::empty()) }
    }

    /// Hands the request to the client, once, and hands back what comes
    /// back.
    pub fn send(&mut self, request: &Request) -> (result: Result<Response, String>)
        ensures
            final(self).sent() == old(self).sent().push(
                Delivery { request: request@, outcome: delivered(result) },
            ),
    {
        let result = self.client.execute(request);
        proof {
            self.sent@ = self.sent@.push(Delivery { request: request@, outcome: delivered(result) });
        }
        result
    }

    /// The client that the sender holds.
    pub closed spec fn client(&self) -> C {
        self.client
    }

    /// Gives the client back.
    pub fn into_client(self) -> (client: C)
        ensures
            client == self.client(),
    {
        self.client
    }
}

} // verus!
