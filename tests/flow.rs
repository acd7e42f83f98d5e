use ipp_proxy::caption::page_text;
use ipp_proxy::envelope::{assemble, split_payload};
use ipp_proxy::model::Team;
use ipp_proxy::flow::{
    classify_operation, join_pages, step, Action, Event, Reply, RequestKind, Stage,
};

fn run(events: &[Event]) -> (Stage, Vec<Action>) {
    let mut stage = Stage::Received;
    let mut actions = Vec::new();
    for e in events {
        let (s, a) = step(stage, *e);
        stage = s;
        actions.push(a);
    }
    (stage, actions)
}

#[test]
fn operation_codes() {
    assert_eq!(classify_operation(0x0006), Some(RequestKind::DocumentSubmission));
    assert_eq!(classify_operation(0x0002), Some(RequestKind::Other));
    assert_eq!(classify_operation(0x000B), Some(RequestKind::Other));
    assert_eq!(classify_operation(0x4028), Some(RequestKind::Other));
    assert_eq!(classify_operation(0x0001), None);
    assert_eq!(classify_operation(0x000F), None);
    assert_eq!(classify_operation(0xFFFF), None);
}

#[test]
fn unregistered_caller_is_denied_without_a_job() {
    let (stage, actions) = run(&[
        Event::PeerAddress { present: true },
        Event::ClientLookup { found: false },
    ]);
    assert_eq!(stage, Stage::Done(Reply::Forbidden));
    assert_eq!(actions, vec![Action::ResolveClient, Action::Respond(Reply::Forbidden)]);
}

#[test]
fn missing_peer_address_is_a_bad_request() {
    let (stage, actions) = run(&[Event::PeerAddress { present: false }]);
    assert_eq!(stage, Stage::Done(Reply::BadRequest));
    assert_eq!(actions, vec![Action::Respond(Reply::BadRequest)]);
}

#[test]
fn document_submission_runs_the_pipeline() {
    let (stage, actions) = run(&[
        Event::PeerAddress { present: true },
        Event::ClientLookup { found: true },
        Event::MessageParsed { kind: classify_operation(0x0006) },
        Event::JobCreated { ok: true },
        Event::DocumentSplit { pages: Some(3) },
        Event::PagesAnnotated { ok: true },
        Event::PagesMerged { ok: true },
        Event::UpstreamReplied { ok: true },
    ]);
    assert_eq!(stage, Stage::Done(Reply::Upstream));
    assert_eq!(
        actions,
        vec![
            Action::ResolveClient,
            Action::ParseMessage,
            Action::RouteAndCreateJob,
            Action::SplitDocument,
            Action::RecordPagesAndAnnotate { pages: 3 },
            Action::MergePages,
            Action::ReplacePayloadAndForward,
            Action::RespondWithUpstream,
        ]
    );
}

#[test]
fn failed_page_fails_the_job_and_nothing_is_forwarded() {
    let results = vec![Some("page-0"), None, Some("page-2")];
    let joined = join_pages(results);
    assert_eq!(joined, None);
    let (stage, actions) = run(&[
        Event::PeerAddress { present: true },
        Event::ClientLookup { found: true },
        Event::MessageParsed { kind: Some(RequestKind::DocumentSubmission) },
        Event::JobCreated { ok: true },
        Event::DocumentSplit { pages: Some(3) },
        Event::PagesAnnotated { ok: joined.is_some() },
    ]);
    assert_eq!(stage, Stage::Done(Reply::InternalError));
    assert_eq!(actions.last(), Some(&Action::FailJob));
    assert!(!actions.contains(&Action::ReplacePayloadAndForward));
    assert!(!actions.contains(&Action::RouteAndForward));
}

#[test]
fn missing_boundary_fails_the_job() {
    let (stage, actions) = run(&[
        Event::PeerAddress { present: true },
        Event::ClientLookup { found: true },
        Event::MessageParsed { kind: Some(RequestKind::DocumentSubmission) },
        Event::JobCreated { ok: true },
        Event::DocumentSplit { pages: None },
    ]);
    assert_eq!(stage, Stage::Done(Reply::InternalError));
    assert_eq!(actions.last(), Some(&Action::FailJob));
}

#[test]
fn status_query_bypasses_the_pipeline_but_is_rerouted() {
    let (stage, actions) = run(&[
        Event::PeerAddress { present: true },
        Event::ClientLookup { found: true },
        Event::MessageParsed { kind: classify_operation(0x000B) },
        Event::UpstreamReplied { ok: true },
    ]);
    assert_eq!(stage, Stage::Done(Reply::Upstream));
    assert_eq!(
        actions,
        vec![
            Action::ResolveClient,
            Action::ParseMessage,
            Action::RouteAndForward,
            Action::RespondWithUpstream,
        ]
    );
    assert!(!actions.contains(&Action::RouteAndCreateJob));
}

#[test]
fn malformed_message_ends_before_any_job() {
    let (stage, actions) = run(&[
        Event::PeerAddress { present: true },
        Event::ClientLookup { found: true },
        Event::MessageParsed { kind: None },
    ]);
    assert_eq!(stage, Stage::Done(Reply::InternalError));
    assert_eq!(actions.last(), Some(&Action::Respond(Reply::InternalError)));
}

#[test]
fn upstream_failure_after_pipeline_is_an_internal_error() {
    let (stage, actions) = run(&[
        Event::PeerAddress { present: true },
        Event::ClientLookup { found: true },
        Event::MessageParsed { kind: Some(RequestKind::DocumentSubmission) },
        Event::JobCreated { ok: true },
        Event::DocumentSplit { pages: Some(1) },
        Event::PagesAnnotated { ok: true },
        Event::PagesMerged { ok: true },
        Event::UpstreamReplied { ok: false },
    ]);
    assert_eq!(stage, Stage::Done(Reply::InternalError));
    assert_eq!(actions.last(), Some(&Action::Respond(Reply::InternalError)));
}

#[test]
fn out_of_order_event_is_an_internal_error_and_done_stays_done() {
    let (stage, _) = run(&[Event::JobCreated { ok: true }]);
    assert_eq!(stage, Stage::Done(Reply::InternalError));
    assert_eq!(
        step(Stage::Done(Reply::Forbidden), Event::PeerAddress { present: true }),
        (Stage::Done(Reply::Forbidden), Action::Nothing)
    );
    assert_eq!(
        step(Stage::Annotating, Event::JobCreated { ok: true }),
        (Stage::Done(Reply::InternalError), Action::FailJob)
    );
}

#[test]
fn joined_pages_keep_page_order() {
    let joined = join_pages(vec![Some("p0"), Some("p1"), Some("p2")]);
    assert_eq!(joined, Some(vec!["p0", "p1", "p2"]));
    assert_eq!(join_pages::<u8>(vec![]), Some(vec![]));
}

#[test]
fn registered_client_submission_end_to_end() {
    let header = b"\x1b%-12345X@PJL ENTER LANGUAGE=PDF\r\n".to_vec();
    let document = b"%PDF-1.4 page-a page-b page-c %%EOF".to_vec();
    let footer = b"@PJL EOJ\r\n".to_vec();
    let mut payload = header.clone();
    payload.extend_from_slice(&document);
    payload.extend_from_slice(b"\x1b%-12345X");
    payload.extend_from_slice(&footer);

    let team = Team {
        team_id: "t7".to_string(),
        team_name: "An extraordinarily long team name indeed".to_string(),
        location: "Desk 12".to_string(),
        ip_address: Some("10.0.0.12".to_string()),
        password: None,
        ipp_upstream: "printer:631".to_string(),
    };
    let e = split_payload(&payload).unwrap();
    assert_eq!(e.document, document);
    let captions: Vec<String> = (0..3).map(|i| page_text(&team, i, 3)).collect();
    for (i, c) in captions.iter().enumerate() {
        assert!(c.contains(&format!("Page {} of 3", i + 1)));
        assert!(c.contains("Desk 12"));
        assert!(c.contains("\"An extraordinarily long team n...\""));
    }
    let annotated = join_pages(captions.iter().map(|c| Some(c.clone())).collect()).unwrap();
    assert_eq!(annotated, captions);
    let merged = annotated.concat().into_bytes();
    let out = assemble(&e.prefix, &merged, &e.suffix);
    assert_eq!(&out[..header.len()], &header[..]);
    let mut suffix = b"\x1b%-12345X".to_vec();
    suffix.extend_from_slice(&footer);
    assert_eq!(&out[out.len() - suffix.len()..], &suffix[..]);
    assert_eq!(&out[header.len()..out.len() - suffix.len()], &merged[..]);
}
