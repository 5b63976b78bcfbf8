//! Evaluation of conditional-request preconditions against a resource's
//! current fingerprint.
//!
//! The check must always run against the fingerprint of a freshly read
//! resource, never a cached one; callers therefore hand the current resource
//! (or its freshly computed tag) in, and these functions are pure.

use vstd::prelude::*;
use crate::fingerprint::{make_etag, spec_etag, Fingerprintable};
use crate::models::event::Event;

verus! {

/// Verdict of an `If-Match` check before a write.
#[derive(Clone, Copy, Debug, PartialEq, Eq, Structural)]
pub enum MatchCheck {
    /// The header was absent, or named the current tag: apply the write.
    Proceed,
    /// The header named a stale tag: refuse the write with 412.
    PreconditionFailed,
}

/// Verdict of an `If-None-Match` check before a read.
#[derive(Clone, Copy, Debug, PartialEq, Eq, Structural)]
pub enum NoneMatchCheck {
    /// The header was absent or named another tag: send the full body.
    Proceed,
    /// The header named the current tag: send 304 with an empty body.
    NotModified,
}

/// The view of an optional client-supplied tag.
pub open spec fn opt_tag_view(o: Option<&String>) -> Option<Seq<char>> {
    match o {
        None => None,
        Some(t) => Some(t@),
    }
}

pub open spec fn spec_if_match(client: Option<Seq<char>>, current: Seq<char>) -> MatchCheck {
    match client {
        None => MatchCheck::Proceed,
        Some(t) => if t == current {
            MatchCheck::Proceed
        } else {
            MatchCheck::PreconditionFailed
        },
    }
}

pub open spec fn spec_if_none_match(client: Option<Seq<char>>, current: Seq<char>) -> NoneMatchCheck {
    match client {
        None => NoneMatchCheck::Proceed,
        Some(t) => if t == current {
            NoneMatchCheck::NotModified
        } else {
            NoneMatchCheck::Proceed
        },
    }
}

/// `If-Match` semantics: absent means proceed; a tag unequal to the
/// current one means the client's copy is stale, so the write is refused.
pub fn evaluate_if_match(client: Option<&String>, current: &String) -> (r: MatchCheck)
    ensures
        r == spec_if_match(opt_tag_view(client), current@),
{
    match client {
        None => MatchCheck::Proceed,
        Some(t) => if *t == *current {
            MatchCheck::Proceed
        } else {
            MatchCheck::PreconditionFailed
        },
    }
}

/// `If-None-Match` semantics: absent means send the body; a tag equal to
/// the current one means the client already holds this representation.
pub fn evaluate_if_none_match(client: Option<&String>, current: &String) -> (r: NoneMatchCheck)
    ensures
        r == spec_if_none_match(opt_tag_view(client), current@),
{
    match client {
        None => NoneMatchCheck::Proceed,
        Some(t) => if *t == *current {
            NoneMatchCheck::NotModified
        } else {
            NoneMatchCheck::Proceed
        },
    }
}

/// Outcome of a conditional read of one resource.
pub enum ReadOutcome {
    /// 304 Not Modified: the client's tag matched; the body is empty and
    /// only the `ETag` header is sent.
    NotModified { etag: String },
    /// 200 OK: full body plus the current `ETag`.
    Fresh { etag: String, body: Event },
}

/// Conditional read of an event: compute the current fingerprint, evaluate
/// `If-None-Match` against it, and either short-circuit to 304 or hand the
/// body back with its tag.
pub fn conditional_get(event: Event, client_tag: Option<&String>) -> (r: ReadOutcome)
    ensures
        match r {
            ReadOutcome::NotModified { etag } => {
                &&& etag@ == spec_etag(event.canon())
                &&& spec_if_none_match(opt_tag_view(client_tag), spec_etag(event.canon()))
                    == NoneMatchCheck::NotModified
            },
            ReadOutcome::Fresh { etag, body } => {
                &&& etag@ == spec_etag(event.canon())
                &&& body == event
                &&& spec_if_none_match(opt_tag_view(client_tag), spec_etag(event.canon()))
                    == NoneMatchCheck::Proceed
            },
        },
{
    let etag = make_etag(&event);
    match evaluate_if_none_match(client_tag, &etag) {
        NoneMatchCheck::NotModified => ReadOutcome::NotModified { etag },
        NoneMatchCheck::Proceed => ReadOutcome::Fresh { etag, body: event },
    }
}

/// The conditional-read law: a request presenting exactly the current tag
/// is answered 304 with no body; one presenting any other tag is answered
/// 200 with the full body and the current tag.
pub proof fn lemma_conditional_read(current: Seq<char>, presented: Seq<char>)
    ensures
        presented == current ==> spec_if_none_match(Some(presented), current)
            == NoneMatchCheck::NotModified,
        presented != current ==> spec_if_none_match(Some(presented), current)
            == NoneMatchCheck::Proceed,
        spec_if_none_match(None, current) == NoneMatchCheck::Proceed,
{
}

/// The conditional-write gate law: a write presenting a stale tag is
/// refused; one presenting the current tag, or none, proceeds.
pub proof fn lemma_conditional_write_gate(current: Seq<char>, presented: Seq<char>)
    ensures
        presented != current ==> spec_if_match(Some(presented), current)
            == MatchCheck::PreconditionFailed,
        presented == current ==> spec_if_match(Some(presented), current) == MatchCheck::Proceed,
        spec_if_match(None, current) == MatchCheck::Proceed,
{
}

} // verus!
