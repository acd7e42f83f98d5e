//! The decisions taken for one proxied request, as a state machine: the
//! caller performs each action and reports its outcome as the next event.
use vstd::prelude::*;

verus! {

/// What a decoded operation asks of the proxy.
#[derive(Debug, Clone, Copy, PartialEq, Eq, Structural)]
pub enum RequestKind {
    /// A document submission: its payload goes through the page pipeline.
    DocumentSubmission,
    /// Any other operation: it is only rerouted.
    Other,
}

/// The operation codes that the protocol library knows.
pub open spec fn is_ipp_operation(code: u16) -> bool {
    ||| 0x0002 <= code <= 0x000E
    ||| 0x0010 <= code <= 0x0012
    ||| 0x4001 <= code <= 0x400F
    ||| code == 0x4027
    ||| code == 0x4028
}

/// The code of the document-submission operation (Send-Document).
pub open spec fn send_document_code() -> u16 {
    0x0006
}

pub open spec fn kind_of(code: u16) -> Option<RequestKind> {
    if !is_ipp_operation(code) {
        None
    } else if code == send_document_code() {
        Some(RequestKind::DocumentSubmission)
    } else {
        Some(RequestKind::Other)
    }
}

/// Relies on ipp's `Operation::try_from(u16)`, which accepts exactly the
/// codes of the variants of its `Operation` enum.
#[verifier::external_body]
fn operation_known(code: u16) -> (r: bool)
    ensures
        r == is_ipp_operation(code),
{
    ipp::model::Operation::try_from(code).is_ok()
}

/// Relies on ipp's `Operation::SendDocument`, the code of Send-Document.
#[verifier::external_body]
fn send_document_operation() -> (r: u16)
    ensures
        r == send_document_code(),
{
    ipp::model::Operation::SendDocument as u16
}

/// Tells a document submission from other operations; `None` for a code
/// that names no operation.
pub fn classify_operation(code: u16) -> (r: Option<RequestKind>)
    ensures
        r == kind_of(code),
{
    if !operation_known(code) {
        None
    } else if code == send_document_operation() {
        Some(RequestKind::DocumentSubmission)
    } else {
        Some(RequestKind::Other)
    }
}

/// The response a request ends with.
#[derive(Debug, Clone, Copy, PartialEq, Eq, Structural)]
pub enum Reply {
    /// The connection gave no peer address.
    BadRequest,
    /// No registered client matches the caller; nothing more is said.
    Forbidden,
    /// Parsing, the page pipeline or the upstream printer failed.
    InternalError,
    /// The upstream printer's reply, passed back.
    Upstream,
}

#[derive(Debug, Clone, Copy, PartialEq, Eq, Structural)]
pub enum Stage {
    Received,
    Resolving,
    Parsing,
    CreatingJob,
    Splitting,
    Annotating,
    Merging,
    Forwarding,
    Done(Reply),
}

/// The outcome of the last action.
#[derive(Debug, Clone, Copy, PartialEq, Eq, Structural)]
pub enum Event {
    /// Whether the connection has a peer address.
    PeerAddress { present: bool },
    /// Whether the client directory knows the caller.
    ClientLookup { found: bool },
    /// The decoded operation, or `None` when the body does not decode or
    /// names no operation.
    MessageParsed { kind: Option<RequestKind> },
    JobCreated { ok: bool },
    /// The page count of the embedded document, or `None` when its boundary
    /// is missing or splitting failed.
    DocumentSplit { pages: Option<usize> },
    /// Whether every page was captioned (and the page count recorded).
    PagesAnnotated { ok: bool },
    /// Whether the pages were merged (and the duration recorded).
    PagesMerged { ok: bool },
    UpstreamReplied { ok: bool },
}

/// What the caller does next.
#[derive(Debug, Clone, Copy, PartialEq, Eq, Structural)]
pub enum Action {
    ResolveClient,
    ParseMessage,
    /// Rewrite the routing attribute, then create the job record.
    RouteAndCreateJob,
    /// Rewrite the routing attribute, then forward the message.
    RouteAndForward,
    /// Detect the document's boundaries and split it into pages.
    SplitDocument,
    /// Record the page count, then caption every page concurrently.
    RecordPagesAndAnnotate { pages: usize },
    /// Merge the captioned pages in page order, then record the duration.
    MergePages,
    /// Put the reassembled payload in the message and forward it.
    ReplacePayloadAndForward,
    /// Narrow the reply's advertised capabilities and pass it back.
    RespondWithUpstream,
    /// Mark the job failed, then answer with an internal error.
    FailJob,
    Respond(Reply),
    Nothing,
}

/// The transition table: the next stage and the action to take.
pub open spec fn next(stage: Stage, event: Event) -> (Stage, Action) {
    match (stage, event) {
        (Stage::Received, Event::PeerAddress { present }) => if present {
            (Stage::Resolving, Action::ResolveClient)
        } else {
            (Stage::Done(Reply::BadRequest), Action::Respond(Reply::BadRequest))
        },
        (Stage::Resolving, Event::ClientLookup { found }) => if found {
            (Stage::Parsing, Action::ParseMessage)
        } else {
            (Stage::Done(Reply::Forbidden), Action::Respond(Reply::Forbidden))
        },
        (Stage::Parsing, Event::MessageParsed { kind }) => match kind {
            Some(RequestKind::DocumentSubmission) => (Stage::CreatingJob, Action::RouteAndCreateJob),
            Some(RequestKind::Other) => (Stage::Forwarding, Action::RouteAndForward),
            None => (Stage::Done(Reply::InternalError), Action::Respond(Reply::InternalError)),
        },
        (Stage::CreatingJob, Event::JobCreated { ok }) => if ok {
            (Stage::Splitting, Action::SplitDocument)
        } else {
            (Stage::Done(Reply::InternalError), Action::Respond(Reply::InternalError))
        },
        (Stage::Splitting, Event::DocumentSplit { pages }) => match pages {
            Some(n) => (Stage::Annotating, Action::RecordPagesAndAnnotate { pages: n }),
            None => (Stage::Done(Reply::InternalError), Action::FailJob),
        },
        (Stage::Annotating, Event::PagesAnnotated { ok }) => if ok {
            (Stage::Merging, Action::MergePages)
        } else {
            (Stage::Done(Reply::InternalError), Action::FailJob)
        },
        (Stage::Merging, Event::PagesMerged { ok }) => if ok {
            (Stage::Forwarding, Action::ReplacePayloadAndForward)
        } else {
            (Stage::Done(Reply::InternalError), Action::FailJob)
        },
        (Stage::Forwarding, Event::UpstreamReplied { ok }) => if ok {
            (Stage::Done(Reply::Upstream), Action::RespondWithUpstream)
        } else {
            (Stage::Done(Reply::InternalError), Action::Respond(Reply::InternalError))
        },
        (Stage::Done(reply), _) => (Stage::Done(reply), Action::Nothing),
        (Stage::Splitting, _) | (Stage::Annotating, _) | (Stage::Merging, _) => (
            Stage::Done(Reply::InternalError),
            Action::FailJob,
        ),
        _ => (Stage::Done(Reply::InternalError), Action::Respond(Reply::InternalError)),
    }
}

/// The next stage of a request and the action to take, given the outcome of
/// the last action. An event that does not belong to the stage is an
/// internal error; once done, a request stays done.
pub fn step(stage: Stage, event: Event) -> (r: (Stage, Action))
    ensures
        r == next(stage, event),
{
    match (stage, event) {
        (Stage::Received, Event::PeerAddress { present }) => if present {
            (Stage::Resolving, Action::ResolveClient)
        } else {
            (Stage::Done(Reply::BadRequest), Action::Respond(Reply::BadRequest))
        },
        (Stage::Resolving, Event::ClientLookup { found }) => if found {
            (Stage::Parsing, Action::ParseMessage)
        } else {
            (Stage::Done(Reply::Forbidden), Action::Respond(Reply::Forbidden))
        },
        (Stage::Parsing, Event::MessageParsed { kind }) => match kind {
            Some(RequestKind::DocumentSubmission) => (Stage::CreatingJob, Action::RouteAndCreateJob),
            Some(RequestKind::Other) => (Stage::Forwarding, Action::RouteAndForward),
            None => (Stage::Done(Reply::InternalError), Action::Respond(Reply::InternalError)),
        },
        (Stage::CreatingJob, Event::JobCreated { ok }) => if ok {
            (Stage::Splitting, Action::SplitDocument)
        } else {
            (Stage::Done(Reply::InternalError), Action::Respond(Reply::InternalError))
        },
        (Stage::Splitting, Event::DocumentSplit { pages }) => match pages {
            Some(n) => (Stage::Annotating, Action::RecordPagesAndAnnotate { pages: n }),
            None => (Stage::Done(Reply::InternalError), Action::FailJob),
        },
        (Stage::Annotating, Event::PagesAnnotated { ok }) => if ok {
            (Stage::Merging, Action::MergePages)
        } else {
            (Stage::Done(Reply::InternalError), Action::FailJob)
        },
        (Stage::Merging, Event::PagesMerged { ok }) => if ok {
            (Stage::Forwarding, Action::ReplacePayloadAndForward)
        } else {
            (Stage::Done(Reply::InternalError), Action::FailJob)
        },
        (Stage::Forwarding, Event::UpstreamReplied { ok }) => if ok {
            (Stage::Done(Reply::Upstream), Action::RespondWithUpstream)
        } else {
            (Stage::Done(Reply::InternalError), Action::Respond(Reply::InternalError))
        },
        (Stage::Done(reply), _) => (Stage::Done(reply), Action::Nothing),
        (Stage::Splitting, _) | (Stage::Annotating, _) | (Stage::Merging, _) => (
            Stage::Done(Reply::InternalError),
            Action::FailJob,
        ),
        _ => (Stage::Done(Reply::InternalError), Action::Respond(Reply::InternalError)),
    }
}

/// A job is created only for a decoded document submission, and only once
/// the caller is resolved and the message parsed.
pub proof fn lemma_job_only_for_submission(stage: Stage, event: Event)
    ensures
        next(stage, event).1 == Action::RouteAndCreateJob ==> stage == Stage::Parsing && event
            == (Event::MessageParsed { kind: Some(RequestKind::DocumentSubmission) }),
{
}

/// A message goes upstream only when it is not a document submission, or
/// when every step of the page pipeline succeeded.
pub proof fn lemma_forward_only_after_pipeline(stage: Stage, event: Event)
    ensures
        next(stage, event).1 == Action::RouteAndForward ==> stage == Stage::Parsing && event
            == (Event::MessageParsed { kind: Some(RequestKind::Other) }),
        next(stage, event).1 == Action::ReplacePayloadAndForward ==> stage == Stage::Merging
            && event == (Event::PagesMerged { ok: true }),
{
}

/// Once a job exists, any failure of the pipeline marks it failed and ends
/// the request with an internal error, without forwarding.
pub proof fn lemma_pipeline_failure_fails_job(stage: Stage, event: Event)
    requires
        stage == Stage::Splitting || stage == Stage::Annotating || stage == Stage::Merging,
        next(stage, event).0 is Done,
    ensures
        next(stage, event) == (Stage::Done(Reply::InternalError), Action::FailJob),
{
}

/// A caller without a peer address, or unknown to the directory, is turned
/// away before anything is parsed or any job created.
pub proof fn lemma_rejection_before_parsing()
    ensures
        next(Stage::Received, Event::PeerAddress { present: false }) == (
            Stage::Done(Reply::BadRequest),
            Action::Respond(Reply::BadRequest),
        ),
        next(Stage::Resolving, Event::ClientLookup { found: false }) == (
            Stage::Done(Reply::Forbidden),
            Action::Respond(Reply::Forbidden),
        ),
{
}

/// The outcome of captioning every page, given each page's result in page
/// order: all the captioned pages in that order, or `None` when any failed.
pub fn join_pages<T>(results: Vec<Option<T>>) -> (r: Option<Vec<T>>)
    ensures
        r is None <==> exists|i: int| 0 <= i < results@.len() && #[trigger] results@[i] is None,
        r matches Some(pages) ==> pages@.len() == results@.len() && forall|i: int|
            0 <= i < results@.len() ==> results@[i] == Some(#[trigger] pages@[i]),
{
    let ghost before = results@;
    let mut rest = results;
    let mut pages: Vec<T> = Vec::new();
    while rest.len() > 0
        invariant
            before == results@,
            pages@.len() + rest@.len() == before.len(),
            forall|i: int| 0 <= i < rest@.len() ==> rest@[i] == before[pages@.len() + i],
            forall|i: int| 0 <= i < pages@.len() ==> before[i] == Some(#[trigger] pages@[i]),
        decreases rest@.len(),
    {
        let ghost k = pages@.len();
        assert(rest@[0] == before[k as int]);
        match rest.remove(0) {
            Some(page) => {
                pages.push(page);
            },
            None => {
                assert(0 <= k < before.len() && before[k as int] is None);
                return None;
            },
        }
    }
    assert forall|i: int| 0 <= i < before.len() implies !(#[trigger] before[i] is None) by {
        assert(before[i] == Some(pages@[i]));
    }
    Some(pages)
}

} // verus!
