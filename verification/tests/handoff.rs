use aom::handoff::{
    dry_run_plan_file, report_of_parse, validate_payload, validate_str, FindingSeverity,
    HandoffError, HandoffFinding, HandoffReport,
};
use aom::json::{parse_json, JsonValue};
use serde_json::Value;

fn validated(source: &str) -> HandoffReport {
    validate_str(source).unwrap()
}

fn valid_payload() -> String {
    r#"{
      "format":"canvas.bolt_handoff.v0.1",
      "kind":"planning_request",
      "source":{"product":"rumble-canvas","workspace_id":"w","handoff_id":"h","created_by":"a","created_at":"2026-06-30T00:00:00Z"},
      "package":{"package_id":"p","version":"0.1.0","package_hash":"sha256:0000000000000000000000000000000000000000000000000000000000000000","items":[{"section_id":"s","revision_id":"r"}]},
      "planning_scope":{"mode":"full_package","target_objects":[],"excluded_objects":[],"goal":"Plan only"},
      "spec_context":{},
      "traceability_links":[{"source_type":"journey","source_id":"j","target_type":"action","target_id":"a","relation_type":"implements"}],
      "active_waivers":[],
      "open_questions":[],
      "risks":[],
      "capability_candidates":[],
      "requested_outputs":["implementation_plan"],
      "execution_policy":{"planning_only":true,"allow_execution":false,"requires_human_approval_for_execution":true}
    }"#
    .to_string()
}

#[test]
fn accepts_valid_planning_only_payload() {
    let report = validate_str(&valid_payload()).unwrap();
    assert!(report.is_valid(), "{:#?}", report.findings);
}

#[test]
fn rejects_execution_enabled_payload() {
    let payload =
        valid_payload().replace("\"allow_execution\":false", "\"allow_execution\":true");
    let report = validate_str(&payload).unwrap();
    assert!(!report.is_valid());
    assert!(
        report
            .findings
            .iter()
            .any(|f| f.code == "execution_forbidden")
    );
}

#[test]
fn rejects_missing_traceability() {
    let payload = valid_payload().replace(
        "\"traceability_links\":[{\"source_type\":\"journey\",\"source_id\":\"j\",\"target_type\":\"action\",\"target_id\":\"a\",\"relation_type\":\"implements\"}]",
        "\"traceability_links\":[]",
    );
    let report = validate_str(&payload).unwrap();
    assert!(!report.is_valid());
    assert!(
        report
            .findings
            .iter()
            .any(|f| f.code == "missing_traceability_links")
    );
}

// ---------------------------------------------------------------------------
// Further cases
// ---------------------------------------------------------------------------

fn codes(report: &HandoffReport) -> Vec<&'static str> {
    report.findings.iter().map(|f| f.code).collect()
}

fn with(key: &str, value: &str) -> String {
    let mut payload: Value = serde_json::from_str(&valid_payload()).unwrap();
    payload[key] = serde_json::from_str(value).unwrap();
    payload.to_string()
}

#[test]
fn valid_report_carries_declared_values() {
    let report = validated(&valid_payload());
    assert!(report.findings.is_empty());
    assert_eq!(report.format.as_deref(), Some("canvas.bolt_handoff.v0.1"));
    assert_eq!(report.kind.as_deref(), Some("planning_request"));
    assert_eq!(report.handoff_id.as_deref(), Some("h"));
    assert_eq!(report.package_id.as_deref(), Some("p"));
    assert_eq!(
        report.package_hash.as_deref(),
        Some("sha256:0000000000000000000000000000000000000000000000000000000000000000")
    );
    assert_eq!(report.planning_goal.as_deref(), Some("Plan only"));
    assert_eq!(report.requested_outputs, vec!["implementation_plan".to_string()]);
}

#[test]
fn empty_object_reports_every_error_in_order() {
    let report = validated("{}");
    assert_eq!(
        codes(&report),
        vec![
            "unsupported_format",
            "unsupported_kind",
            "missing_source_product",
            "missing_workspace_id",
            "missing_handoff_id",
            "missing_created_by",
            "missing_created_at",
            "missing_package_id",
            "missing_package_version",
            "missing_package_hash",
            "empty_package_items",
            "missing_planning_mode",
            "missing_planning_goal",
            "missing_traceability_links",
            "planning_only_required",
            "execution_forbidden",
            "human_approval_required",
            "missing_requested_outputs",
        ]
    );
    assert_eq!(
        report.findings[0].message,
        "expected format `canvas.bolt_handoff.v0.1`, got `<missing>`"
    );
    assert_eq!(
        report.findings[2].message,
        "missing required string `source.product`"
    );
    assert_eq!(report.findings[9].message, "package.package_hash is required");
    assert_eq!(
        report.findings[13].message,
        "`traceability_links` must be a non-empty array"
    );
    assert_eq!(report.findings[17].severity, FindingSeverity::Warning);
    assert_eq!(report.format, None);
    assert!(report.requested_outputs.is_empty());
}

#[test]
fn wrong_format_and_kind_are_quoted() {
    let payload = with("format", "\"v2\"");
    let report = validated(&payload);
    assert_eq!(
        report.findings,
        vec![HandoffFinding {
            severity: FindingSeverity::Error,
            code: "unsupported_format",
            message: "expected format `canvas.bolt_handoff.v0.1`, got `v2`".to_string(),
        }]
    );
    let payload = with("kind", "42");
    let report = validated(&payload);
    assert_eq!(
        report.findings[0].message,
        "expected kind `planning_request`, got `<missing>`"
    );
}

#[test]
fn package_hash_shape() {
    let hex = "0123456789abcdefABCDEF0123456789abcdef0123456789abcdef0123456789";
    assert_eq!(hex.len(), 64);
    let ok = valid_payload().replace(
        "sha256:0000000000000000000000000000000000000000000000000000000000000000",
        &format!("sha256:{hex}"),
    );
    assert!(validated(&ok).is_valid());
    for bad in [
        "sha256:000",
        "sha1:0000000000000000000000000000000000000000000000000000000000000000",
        "sha256:000000000000000000000000000000000000000000000000000000000000000g",
        "sha256:00000000000000000000000000000000000000000000000000000000000000000",
    ] {
        let payload = valid_payload().replace(
            "sha256:0000000000000000000000000000000000000000000000000000000000000000",
            bad,
        );
        let report = validated(&payload);
        assert_eq!(codes(&report), vec!["invalid_package_hash"], "{bad}");
        assert_eq!(
            report.findings[0].message,
            format!("package_hash must be sha256:<64 hex chars>, got `{bad}`")
        );
    }
}

#[test]
fn blocking_questions_need_a_waiver() {
    let open = with(
        "open_questions",
        r#"[{"impact":"blocking","status":"open"},{"impact":"minor","status":"open"},{"impact":"blocking","status":"closed"},{"impact":"blocking","status":"open"}]"#,
    );
    let report = validated(&open);
    assert_eq!(
        codes(&report),
        vec!["blocking_question_without_waiver", "blocking_question_without_waiver"]
    );
    let mut payload: Value = serde_json::from_str(&open).unwrap();
    payload["active_waivers"] = serde_json::from_str(r#"[{"status":"expired"},{"status":"active"}]"#).unwrap();
    assert!(validated(&payload.to_string()).is_valid());
    payload["active_waivers"] = serde_json::from_str(r#"[{"status":"expired"}]"#).unwrap();
    assert!(!validated(&payload.to_string()).is_valid());
}

#[test]
fn open_high_risks_need_mitigation_or_waiver() {
    let risks = with(
        "risks",
        r#"[{"severity":"high"},{"severity":"critical","status":"mitigated"},{"severity":"low","status":"open"},{"severity":"blocking","status":"open"}]"#,
    );
    let report = validated(&risks);
    assert_eq!(
        codes(&report),
        vec!["high_risk_without_waiver", "high_risk_without_waiver"]
    );
    let mut payload: Value = serde_json::from_str(&risks).unwrap();
    payload["active_waivers"] = serde_json::from_str(r#"[{"status":"accepted"}]"#).unwrap();
    assert!(validated(&payload.to_string()).is_valid());
}

#[test]
fn warnings_do_not_invalidate() {
    let mut payload: Value = serde_json::from_str(&valid_payload()).unwrap();
    payload["capability_candidates"] =
        serde_json::from_str(r#"[{"proposed_owner_layer":"  "},{"name":"x"},{"proposed_owner_layer":"core"}]"#).unwrap();
    payload["requested_outputs"] = serde_json::from_str("[1, null]").unwrap();
    let report = validated(&payload.to_string());
    assert_eq!(
        codes(&report),
        vec![
            "capability_owner_missing",
            "capability_owner_missing",
            "missing_requested_outputs"
        ]
    );
    assert!(report.findings.iter().all(|f| f.severity == FindingSeverity::Warning));
    assert!(report.is_valid());
}

#[test]
fn execution_policy_must_be_planning_only() {
    let payload = with(
        "execution_policy",
        r#"{"planning_only":"yes","allow_execution":false}"#,
    );
    let report = validated(&payload);
    assert_eq!(
        codes(&report),
        vec!["planning_only_required", "human_approval_required"]
    );
    assert_eq!(
        report.findings[1].message,
        "execution_policy.requires_human_approval_for_execution must be true"
    );
}

#[test]
fn labels() {
    assert_eq!(FindingSeverity::Error.label(), "error");
    assert_eq!(FindingSeverity::Warning.label(), "warning");
}

#[test]
fn dry_run_of_valid_report_lists_tasks() {
    let payload = with(
        "requested_outputs",
        r#"["implementation_plan","task_breakdown","risk_review","test_plan","shared_capability_extraction_review","diagram",7]"#,
    );
    let report = validated(&payload);
    let plan = dry_run_plan_file(report.clone());
    assert_eq!(plan.report, report);
    assert_eq!(
        plan.gates,
        vec![
            "package_approved",
            "planning_only_enforced",
            "traceability_present",
            "blocking_questions_waived_or_absent",
            "high_risks_waived_or_absent",
            "shared_capability_review_requested",
        ]
    );
    assert_eq!(
        plan.tasks,
        vec![
            "draft implementation plan",
            "derive task breakdown",
            "review risks and waivers",
            "derive acceptance and contract test plan",
            "review shared capability extraction",
            "produce requested output `diagram`",
        ]
    );
}

#[test]
fn dry_run_of_invalid_report_is_refused() {
    let payload = valid_payload().replace("\"allow_execution\":false", "\"allow_execution\":true");
    let plan = dry_run_plan_file(validated(&payload));
    assert!(plan.tasks.is_empty());
    assert_eq!(plan.gates.len(), 7);
    assert_eq!(plan.gates.last().unwrap(), "refuse_until_validation_clean");
}

#[test]
fn nested_lookups_need_objects() {
    let report = validated(r#"{"source":"flat","package":[1,2],"execution_policy":null}"#);
    assert!(codes(&report).contains(&"missing_source_product"));
    assert!(codes(&report).contains(&"empty_package_items"));
    assert!(codes(&report).contains(&"planning_only_required"));
}

#[test]
fn invalid_json_is_an_error() {
    let err = validate_str("{\"format\":").unwrap_err();
    let HandoffError::InvalidHandoff { message } = err;
    assert!(message.starts_with("invalid JSON: "), "{message}");
    assert!(message.len() > "invalid JSON: ".len());
    assert!(validate_str("").is_err());
    assert!(validate_str("[1, 2").is_err());
}

#[test]
fn parsed_text_reaches_validation() {
    // any JSON document is validated, not only objects
    let r = validated("[1, 2]");
    assert_eq!(r.findings.len(), 18);
    // the parse gives the document's values
    match parse_json(r#"{"b":[true,null,1.5],"a":"x"}"#).unwrap() {
        JsonValue::Object(members) => {
            assert_eq!(members.len(), 2);
            assert_eq!(members[0].0, "a");
            assert!(matches!(&members[0].1, JsonValue::String(s) if s == "x"));
            match &members[1].1 {
                JsonValue::Array(items) => {
                    assert!(matches!(items[0], JsonValue::Bool(true)));
                    assert!(matches!(items[1], JsonValue::Null));
                    assert!(matches!(&items[2], JsonValue::Number(n) if n == "1.5"));
                }
                other => panic!("{other:?}"),
            }
        }
        other => panic!("{other:?}"),
    }
    assert_eq!(
        report_of_parse(Err("eof".to_string())).unwrap_err(),
        HandoffError::InvalidHandoff { message: "invalid JSON: eof".to_string() }
    );
    let direct = validate_payload(&parse_json(&valid_payload()).unwrap());
    assert_eq!(direct, validated(&valid_payload()));
}
