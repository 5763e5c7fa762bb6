use request_capture::request::{CapturedRequest, HeaderField};
use request_capture::write::{StepReport, WriteAction, WritePlan, WriteSession};

fn request(headers: &[(&str, &[u8])]) -> CapturedRequest {
    CapturedRequest {
        method: "PUT".to_string(),
        path: "/thing".to_string(),
        query: None,
        headers: headers
            .iter()
            .map(|(n, v)| HeaderField { name: n.to_string(), value: v.to_vec() })
            .collect(),
    }
}

/// Describes an action in a few words, so that sequences can be compared.
fn describe(a: &WriteAction) -> String {
    match a {
        WriteAction::BeginTransaction => "begin".to_string(),
        WriteAction::InsertRequest(r) => format!("request {} {}", r.method, r.path),
        WriteAction::InsertHeader { request_id, name, value } => {
            format!("header {request_id} {name}={value}")
        }
        WriteAction::InsertBody { request_id, body } => format!("body {request_id} {}", body.len()),
        WriteAction::Commit => "commit".to_string(),
        WriteAction::Finish => "finish".to_string(),
        WriteAction::Abort => "abort".to_string(),
    }
}

/// Runs a session, answering each action with `answer`, and records the actions.
fn run(plan: WritePlan, mut answer: impl FnMut(&WriteAction) -> StepReport) -> Vec<String> {
    let (mut session, mut action) = WriteSession::begin(plan);
    let mut seen = vec![describe(&action)];
    for _ in 0..100 {
        if matches!(action, WriteAction::Finish | WriteAction::Abort) {
            break;
        }
        let report = answer(&action);
        action = session.advance(report);
        seen.push(describe(&action));
    }
    assert!(session.is_finished());
    seen
}

fn ok_with_id(id: i64) -> impl FnMut(&WriteAction) -> StepReport {
    move |a| match a {
        WriteAction::InsertRequest(_) => StepReport::RequestStored(id),
        _ => StepReport::Done,
    }
}

#[test]
fn plan_has_body_only_when_not_empty() {
    let req = request(&[("a", b"1")]);
    assert!(WritePlan::new(&req, None, Vec::new()).body.is_none());
    assert_eq!(WritePlan::new(&req, None, b"xyz".to_vec()).body, Some(b"xyz".to_vec()));
}

#[test]
fn successful_write_issues_every_statement_in_order() {
    let req = request(&[("a", b"1"), ("b", b"\xff")]);
    let plan = WritePlan::new(&req, Some("1.2.3.4".to_string()), b"data".to_vec());
    assert_eq!(
        run(plan, ok_with_id(42)),
        vec!["begin", "request PUT /thing", "header 42 a=1", "header 42 b=", "body 42 4", "commit", "finish"]
    );
}

#[test]
fn empty_body_skips_the_body_row() {
    let req = request(&[]);
    let plan = WritePlan::new(&req, None, Vec::new());
    assert_eq!(run(plan, ok_with_id(7)), vec!["begin", "request PUT /thing", "commit", "finish"]);
}

#[test]
fn failure_aborts_and_stays_aborted() {
    let req = request(&[("a", b"1"), ("b", b"2")]);
    let plan = WritePlan::new(&req, None, b"x".to_vec());
    let mut count = 0;
    let seen = run(plan, |a| {
        count += 1;
        match a {
            WriteAction::InsertRequest(_) => StepReport::RequestStored(3),
            WriteAction::InsertHeader { name, .. } if name == "b" => StepReport::Failed,
            _ => StepReport::Done,
        }
    });
    assert_eq!(seen, vec!["begin", "request PUT /thing", "header 3 a=1", "header 3 b=2", "abort"]);
    assert_eq!(count, 4);
}

#[test]
fn failed_commit_aborts() {
    let req = request(&[]);
    let plan = WritePlan::new(&req, None, Vec::new());
    let seen = run(plan, |a| match a {
        WriteAction::InsertRequest(_) => StepReport::RequestStored(1),
        WriteAction::Commit => StepReport::Failed,
        _ => StepReport::Done,
    });
    assert_eq!(seen, vec!["begin", "request PUT /thing", "commit", "abort"]);
}

#[test]
fn failed_begin_aborts_before_any_insert() {
    let req = request(&[("a", b"1")]);
    let plan = WritePlan::new(&req, None, b"x".to_vec());
    assert_eq!(run(plan, |_| StepReport::Failed), vec!["begin", "abort"]);
}

#[test]
fn missing_id_aborts() {
    let req = request(&[("a", b"1")]);
    let plan = WritePlan::new(&req, None, Vec::new());
    assert_eq!(run(plan, |_| StepReport::Done), vec!["begin", "request PUT /thing", "abort"]);
}

#[test]
fn ended_session_repeats_its_answer() {
    let req = request(&[]);
    let plan = WritePlan::new(&req, None, Vec::new());
    let (mut s, _) = WriteSession::begin(plan);
    assert!(matches!(s.advance(StepReport::Done), WriteAction::InsertRequest(_)));
    assert!(matches!(s.advance(StepReport::RequestStored(5)), WriteAction::Commit));
    assert!(matches!(s.advance(StepReport::Done), WriteAction::Finish));
    assert!(matches!(s.advance(StepReport::Failed), WriteAction::Finish));
    assert!(matches!(s.advance(StepReport::Done), WriteAction::Finish));
    assert_eq!(s.plan().request.path, "/thing");
}
