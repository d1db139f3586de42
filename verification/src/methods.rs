//! The method registry: the closed set of remote operations, each with its
//! path-segment spelling for HTTP and its verb spelling for the WebSocket
//! protocol.

use vstd::prelude::*;

verus! {

/// A remote operation of the transactor.
#[derive(Clone, Copy, Debug, PartialEq, Eq, Structural)]
pub enum Method {
    Account,
    FindAll,
    EnsurePerson,
    Tx,
    Request,
    Event,
    Ping,
    Hello,
}

/// The path-segment spelling of each method.
pub open spec fn spec_kebab(m: Method) -> Seq<char> {
    match m {
        Method::Account => "account"@,
        Method::FindAll => "find-all"@,
        Method::EnsurePerson => "ensure-person"@,
        Method::Tx => "tx"@,
        Method::Request => "request"@,
        Method::Event => "event"@,
        Method::Ping => "ping"@,
        Method::Hello => "hello"@,
    }
}

/// The verb spelling of each method on the WebSocket protocol.
pub open spec fn spec_camel(m: Method) -> Seq<char> {
    match m {
        Method::Account => "account"@,
        Method::FindAll => "findAll"@,
        Method::EnsurePerson => "ensurePerson"@,
        Method::Tx => "tx"@,
        Method::Request => "domainRequest"@,
        Method::Event => "event"@,
        Method::Ping => "ping"@,
        Method::Hello => "hello"@,
    }
}

impl Method {
    /// The path-segment spelling, used in HTTP URLs.
    pub fn kebab(self) -> (r: &'static str)
        ensures
            r@ == spec_kebab(self),
    {
        match self {
            Method::Account => "account",
            Method::FindAll => "find-all",
            Method::EnsurePerson => "ensure-person",
            Method::Tx => "tx",
            Method::Request => "request",
            Method::Event => "event",
            Method::Ping => "ping",
            Method::Hello => "hello",
        }
    }

    /// The verb spelling, used in WebSocket request envelopes.
    pub fn camel(self) -> (r: &'static str)
        ensures
            r@ == spec_camel(self),
    {
        match self {
            Method::Account => "account",
            Method::FindAll => "findAll",
            Method::EnsurePerson => "ensurePerson",
            Method::Tx => "tx",
            Method::Request => "domainRequest",
            Method::Event => "event",
            Method::Ping => "ping",
            Method::Hello => "hello",
        }
    }
}

} // verus!
