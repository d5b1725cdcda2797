use odin::ollama::client::{decode_record, name_rows, SUSPICION_THRESHOLD};
use odin::ollama::{
    analysis_request, get_resource_verification_prompt, project_names, reconcile, repair,
    scores_from_response, JsonField, JsonMember, OllamaAgentOutput, OllamaNameInput, ProcessScore,
    ScoringError, PROCESS_ANALYSIS_PROMPT, RESOURCE_SYSTEM_MESSAGE, RESOURCE_USER_PROMPT,
};
use odin::os_tooling::{OsProcessGroup, OsProcessInformation, ProcessRaw};

fn named(pid: u32, name: &str) -> OllamaNameInput {
    OllamaNameInput { pid, name: name.to_string() }
}

fn sent(pids: &[u32]) -> Vec<OllamaNameInput> {
    pids.iter().map(|p| named(*p, "n")).collect()
}

fn score(pid: u32, name: &str, score: u8, reason: &str) -> ProcessScore {
    ProcessScore { pid, name: name.to_string(), score, reason: reason.to_string() }
}

fn member(key: &str, value: JsonField) -> JsonMember {
    JsonMember { key: key.to_string(), value }
}

fn text(value: &str) -> JsonField {
    JsonField::Text(value.to_string())
}

fn group(pid: u32, name: &str) -> OsProcessGroup {
    let parent = OsProcessInformation::try_from(&ProcessRaw {
        pid,
        parent: None,
        cpu: 9900,
        memory: 1 << 30,
        run_time: 5,
        name: Some(name.to_string()),
        status: "Run".to_string(),
        command: vec![Some("--secret".to_string())],
        user_id: None,
    })
    .unwrap();
    OsProcessGroup { parent_process: parent, forked_threads: vec![] }
}

#[test]
fn only_scores_of_sent_pids_are_retained() {
    let body = r#"[{"pid":20,"name":"b","score":90,"reason":"odd"},{"pid":40,"name":"x","score":95,"reason":"made up"}]"#;
    let kept = scores_from_response(body, &sent(&[10, 20, 30])).unwrap();
    assert_eq!(kept, vec![score(20, "b", 90, "odd")]);
}

#[test]
fn truncation_marker_is_repaired_once() {
    let body = r#"[{"pid":1,"name":"x","isMalicious":true,"reason":"r"}...]"#;
    assert_eq!(repair(body), r#"[{"pid":1,"name":"x","isMalicious":true,"reason":"r"}]"#);
    let kept = scores_from_response(body, &sent(&[1])).unwrap();
    assert_eq!(kept, vec![score(1, "x", 100, "r")]);
}

#[test]
fn answer_that_does_not_read_after_repair_is_malformed() {
    for body in ["", "not json", "[{\"pid\":1,", "{\"pid\":1}", "[1,2]", "[{\"pid\":1,\"name\":\"x\",\"score\":70}]"] {
        assert_eq!(scores_from_response(body, &sent(&[1])), Err(ScoringError::MalformedResponse), "{}", body);
    }
    assert_eq!(
        ScoringError::MalformedResponse.message(),
        "Failed to parse LLM response as ProcessScore array"
    );
    assert_eq!(ScoringError::RequestFailed.message(), "The scoring service did not answer");
}

#[test]
fn only_scores_above_the_threshold_are_kept() {
    assert_eq!(SUSPICION_THRESHOLD, 60);
    let body = r#" [{"pid":1,"name":"a","score":60,"reason":"r"},
        {"pid":2,"name":"b","score":61,"reason":"r"},
        {"pid":3,"name":"c","score":0,"reason":"r"},
        {"pid":4,"name":"d","score":100,"reason":"r"},
        {"pid":5,"name":"e","isMalicious":false,"reason":"r"}] "#;
    let kept = scores_from_response(body, &sent(&[1, 2, 3, 4, 5])).unwrap();
    assert_eq!(kept, vec![score(2, "b", 61, "r"), score(4, "d", 100, "r")]);
    assert_eq!(scores_from_response("[]", &sent(&[1])), Ok(vec![]));
}

#[test]
fn every_alias_of_the_flag_is_accepted() {
    for alias in ["isMalicious", "is_malicious", "isMalacious", "ismalicious"] {
        let body = format!(r#"[{{"pid":7,"name":"m","{}":true,"reason":"why","extra":[1,2]}}]"#, alias);
        let kept = scores_from_response(&body, &sent(&[7])).unwrap();
        assert_eq!(kept, vec![score(7, "m", 100, "why")], "{}", alias);
    }
}

#[test]
fn records_are_decoded_strictly() {
    let good = vec![
        member("reason", text("r")),
        member("pid", JsonField::Number(Some(3))),
        member("other", JsonField::Nested),
        member("score", JsonField::Number(Some(100))),
        member("name", text("n")),
    ];
    assert_eq!(decode_record(&good), Some(score(3, "n", 100, "r")));
    let cases: Vec<Vec<JsonMember>> = vec![
        vec![],
        // score out of range
        vec![member("pid", JsonField::Number(Some(3))), member("name", text("n")), member("score", JsonField::Number(Some(101))), member("reason", text("r"))],
        // score not a whole number
        vec![member("pid", JsonField::Number(Some(3))), member("name", text("n")), member("score", JsonField::Number(None)), member("reason", text("r"))],
        // a score of the wrong kind is not saved by a flag
        vec![member("pid", JsonField::Number(Some(3))), member("name", text("n")), member("score", text("90")), member("isMalicious", JsonField::Bool(true)), member("reason", text("r"))],
        // pid too large
        vec![member("pid", JsonField::Number(Some(1 << 32))), member("name", text("n")), member("score", JsonField::Number(Some(1))), member("reason", text("r"))],
        // pid of the wrong kind
        vec![member("pid", text("3")), member("name", text("n")), member("score", JsonField::Number(Some(1))), member("reason", text("r"))],
        // name missing
        vec![member("pid", JsonField::Number(Some(3))), member("score", JsonField::Number(Some(1))), member("reason", text("r"))],
        // reason null
        vec![member("pid", JsonField::Number(Some(3))), member("name", text("n")), member("score", JsonField::Number(Some(1))), member("reason", JsonField::Null)],
        // flag of the wrong kind
        vec![member("pid", JsonField::Number(Some(3))), member("name", text("n")), member("is_malicious", text("yes")), member("reason", text("r"))],
    ];
    for row in &cases {
        assert_eq!(decode_record(row), None, "{:?}", row);
    }
    let first_wins = vec![
        member("pid", JsonField::Number(Some(u32::MAX as u64))),
        member("pid", JsonField::Number(Some(1))),
        member("name", text("n")),
        member("is_malicious", JsonField::Bool(false)),
        member("isMalicious", JsonField::Bool(true)),
        member("reason", text("r")),
    ];
    assert_eq!(decode_record(&first_wins), Some(score(u32::MAX, "n", 100, "r")));
}

#[test]
fn reconcile_refuses_an_answer_with_a_bad_record() {
    let good = vec![member("pid", JsonField::Number(Some(1))), member("name", text("n")), member("score", JsonField::Number(Some(99))), member("reason", text("r"))];
    let bad = vec![member("pid", JsonField::Number(Some(1)))];
    assert_eq!(reconcile(&vec![good, bad], &sent(&[1])), None);
    assert_eq!(reconcile(&vec![], &sent(&[])), Some(vec![]));
}

#[test]
fn reconcile_keeps_order_and_repeats() {
    let row = |pid: u64, s: u64| vec![member("pid", JsonField::Number(Some(pid))), member("name", text("n")), member("score", JsonField::Number(Some(s))), member("reason", text("r"))];
    let kept = reconcile(&vec![row(3, 70), row(9, 99), row(1, 80), row(3, 90), row(2, 10)], &sent(&[1, 2, 3])).unwrap();
    assert_eq!(kept, vec![score(3, "n", 70, "r"), score(1, "n", 80, "r"), score(3, "n", 90, "r")]);
}

#[test]
fn repair_trims_and_strips() {
    assert_eq!(repair(""), "");
    assert_eq!(repair(" \t\r\n"), "");
    assert_eq!(repair("  [1] \n"), "[1]");
    assert_eq!(repair("a b"), "a b");
    assert_eq!(repair("..."), "");
    assert_eq!(repair("...."), ".");
    assert_eq!(repair(".. ."), ".. .");
    assert_eq!(repair("[1,\u{2026}]"), "[1,]");
    assert_eq!(repair(" x...y\u{2026}z...... "), "xyz");
    assert_eq!(repair("\u{e9}...\u{e9}"), "\u{e9}\u{e9}");
    // spaces that a marker hid stay
    assert_eq!(repair("... [1] ..."), " [1] ");
}

#[test]
fn only_pid_and_name_of_parents_are_projected() {
    let names = project_names(&vec![group(5, "sshd"), group(6, "cr0n")]);
    assert_eq!(names, vec![named(5, "sshd"), named(6, "cr0n")]);
    assert_eq!(project_names(&vec![]), vec![]);
    assert_eq!(
        name_rows(&names)[1],
        vec![member("pid", JsonField::Number(Some(6))), member("name", text("cr0n"))]
    );
}

#[test]
fn request_embeds_instructions_and_processes() {
    let names = vec![named(5, "sshd"), named(6, "a\"b")];
    let request = analysis_request(&names, "llama3", 4096);
    assert_eq!(request.model, "llama3");
    assert!(!request.stream);
    assert_eq!(request.options.num_ctx, 4096);
    let expected = format!(
        "{}\n\nInput processes to analyze:\n{}",
        PROCESS_ANALYSIS_PROMPT,
        r#"[{"name":"sshd","pid":5},{"name":"a\"b","pid":6}]"#
    );
    assert_eq!(request.prompt, expected);
    let empty = analysis_request(&vec![], "m", 1);
    assert!(empty.prompt.ends_with("analyze:\n[]"));
}

#[test]
fn resource_prompt_joins_its_parts() {
    let prompt = get_resource_verification_prompt();
    assert_eq!(prompt, format!("{}\n\n{}", RESOURCE_SYSTEM_MESSAGE, RESOURCE_USER_PROMPT));
    assert!(prompt.starts_with("You are a deterministic JSON generator"));
    assert!(prompt.ends_with("Backup processes: High I/O but low CPU usage"));
}

#[test]
fn yes_or_no_judgement_as_score() {
    let yes = OllamaAgentOutput { pid: 4, name: "n".to_string(), is_malicious: true, reason: "r".to_string() };
    assert_eq!(yes.as_score(), Some(score(4, "n", 100, "r")));
    let no = OllamaAgentOutput { pid: u32::MAX as u64, name: "n".to_string(), is_malicious: false, reason: "r".to_string() };
    assert_eq!(no.as_score(), Some(score(u32::MAX, "n", 0, "r")));
    let big = OllamaAgentOutput { pid: 1 << 32, name: "n".to_string(), is_malicious: true, reason: "r".to_string() };
    assert_eq!(big.as_score(), None);
}

#[test]
fn odd_but_valid_json_is_read_as_serde_json_reads_it() {
    // a null in the array is an object without members: no score
    assert_eq!(scores_from_response("[null]", &sent(&[1])), Err(ScoringError::MalformedResponse));
    // of two members with one key the later one counts
    let twice = r#"[{"pid":9,"pid":1,"name":"n","score":10,"score":77,"reason":"r"}]"#;
    assert_eq!(scores_from_response(twice, &sent(&[1])), Ok(vec![score(1, "n", 77, "r")]));
    // numbers that are not whole, or negative, are no pid and no score
    for body in [
        r#"[{"pid":1.5,"name":"n","score":70,"reason":"r"}]"#,
        r#"[{"pid":-1,"name":"n","score":70,"reason":"r"}]"#,
        r#"[{"pid":1,"name":"n","score":70.5,"reason":"r"}]"#,
        r#"[{"pid":1,"name":"n","score":18446744073709551616,"reason":"r"}]"#,
    ] {
        assert_eq!(scores_from_response(body, &sent(&[1])), Err(ScoringError::MalformedResponse), "{}", body);
    }
    // text with escapes and characters beyond ASCII comes through
    let escaped = r#"[{"pid":1,"name":"a\"bé","score":99,"reason":"line\nbreak …"}]"#;
    assert_eq!(
        scores_from_response(escaped, &sent(&[1])),
        Ok(vec![score(1, "a\"b\u{e9}", 99, "line\nbreak \u{2026}")])
    );
}
