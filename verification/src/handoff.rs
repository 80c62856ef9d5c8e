//! Planning-only Rumble → Bolt handoff validation.
//!
//! This module is deliberately small and deterministic. It validates the first
//! `ImplementationHandoff` contract before any product UI starts depending on
//! Bolt execution. MVP scope: validate/refuse/produce a dry-run planning report;
//! never execute implementation work.
use vstd::prelude::*;

use crate::json::{
    array_at, array_at_path, array_opt_at, array_strings_at, array_strings_at_path, bool_at,
    bool_at_path, parse_json, parse_view, parsed_json, path_view, string_at, string_at_path,
    JsonValue,
};
use crate::text::{
    char_is_ascii_hexdigit, chars_of, is_ascii_hexdigit, is_prefix, join, starts_with, str_eq,
    trim, trim_str,
};

verus! {

pub const SUPPORTED_FORMAT: &'static str = "canvas.bolt_handoff.v0.1";

pub const SUPPORTED_KIND: &'static str = "planning_request";

#[derive(Debug, Clone, PartialEq, Eq, Structural)]
pub enum FindingSeverity {
    Error,
    Warning,
}

/// The label of a severity.
pub open spec fn severity_label(s: FindingSeverity) -> Seq<char> {
    match s {
        FindingSeverity::Error => "error"@,
        FindingSeverity::Warning => "warning"@,
    }
}

impl FindingSeverity {
    pub fn label(&self) -> (r: &'static str)
        ensures
            r@ == severity_label(*self),
    {
        match self {
            FindingSeverity::Error => "error",
            FindingSeverity::Warning => "warning",
        }
    }
}

#[derive(Debug, Clone, PartialEq, Eq)]
pub struct HandoffFinding {
    pub severity: FindingSeverity,
    pub code: &'static str,
    pub message: String,
}

/// A finding as plain values.
pub struct FindingView {
    pub severity: FindingSeverity,
    pub code: Seq<char>,
    pub message: Seq<char>,
}

impl View for HandoffFinding {
    type V = FindingView;

    open spec fn view(&self) -> FindingView {
        FindingView { severity: self.severity, code: self.code@, message: self.message@ }
    }
}

#[derive(Debug, Clone, PartialEq, Eq)]
pub struct HandoffReport {
    pub format: Option<String>,
    pub kind: Option<String>,
    pub handoff_id: Option<String>,
    pub package_id: Option<String>,
    pub package_hash: Option<String>,
    pub planning_goal: Option<String>,
    pub requested_outputs: Vec<String>,
    pub findings: Vec<HandoffFinding>,
}

/// A report as plain values.
pub struct ReportView {
    pub format: Option<Seq<char>>,
    pub kind: Option<Seq<char>>,
    pub handoff_id: Option<Seq<char>>,
    pub package_id: Option<Seq<char>>,
    pub package_hash: Option<Seq<char>>,
    pub planning_goal: Option<Seq<char>>,
    pub requested_outputs: Seq<Seq<char>>,
    pub findings: Seq<FindingView>,
}

/// The text of an optional string.
pub open spec fn opt_text(o: Option<String>) -> Option<Seq<char>> {
    match o {
        Some(s) => Some(s@),
        None => None,
    }
}

/// The contents of a list of strings.
pub open spec fn texts(v: Seq<String>) -> Seq<Seq<char>> {
    v.map_values(|s: String| s@)
}

/// The contents of a list of findings.
pub open spec fn findings_view(v: Seq<HandoffFinding>) -> Seq<FindingView> {
    v.map_values(|f: HandoffFinding| f@)
}

impl View for HandoffReport {
    type V = ReportView;

    open spec fn view(&self) -> ReportView {
        ReportView {
            format: opt_text(self.format),
            kind: opt_text(self.kind),
            handoff_id: opt_text(self.handoff_id),
            package_id: opt_text(self.package_id),
            package_hash: opt_text(self.package_hash),
            planning_goal: opt_text(self.planning_goal),
            requested_outputs: texts(self.requested_outputs@),
            findings: findings_view(self.findings@),
        }
    }
}

/// A report is valid when none of its findings is an error.
pub open spec fn report_is_valid(r: ReportView) -> bool {
    !exists|i: int| 0 <= i < r.findings.len() && (#[trigger] r.findings[i]).severity
        == FindingSeverity::Error
}

impl HandoffReport {
    pub fn is_valid(&self) -> (r: bool)
        ensures
            r == report_is_valid(self@),
    {
        let mut i: usize = 0;
        while i < self.findings.len()
            invariant
                i <= self.findings.len(),
                forall|k: int|
                    0 <= k < i ==> (#[trigger] findings_view(self.findings@)[k]).severity
                        != FindingSeverity::Error,
            decreases self.findings.len() - i,
        {
            match self.findings[i].severity {
                FindingSeverity::Error => {
                    assert(findings_view(self.findings@)[i as int].severity
                        == FindingSeverity::Error);
                    return false;
                },
                FindingSeverity::Warning => {},
            }
            i = i + 1;
        }
        true
    }
}

#[derive(Debug, Clone, PartialEq, Eq)]
pub struct DryRunPlan {
    pub report: HandoffReport,
    pub gates: Vec<String>,
    pub tasks: Vec<String>,
}

/// A dry-run plan as plain values.
pub struct PlanView {
    pub report: ReportView,
    pub gates: Seq<Seq<char>>,
    pub tasks: Seq<Seq<char>>,
}

impl View for DryRunPlan {
    type V = PlanView;

    open spec fn view(&self) -> PlanView {
        PlanView { report: self.report@, gates: texts(self.gates@), tasks: texts(self.tasks@) }
    }
}

// ---------------------------------------------------------------------------
// What validation finds in a payload
// ---------------------------------------------------------------------------
/// An error finding.
pub open spec fn error_finding(code: Seq<char>, message: Seq<char>) -> FindingView {
    FindingView { severity: FindingSeverity::Error, code, message }
}

/// A warning finding.
pub open spec fn warning_finding(code: Seq<char>, message: Seq<char>) -> FindingView {
    FindingView { severity: FindingSeverity::Warning, code, message }
}

/// How a found value is shown in a message.
pub open spec fn shown(o: Option<Seq<char>>) -> Seq<char> {
    match o {
        Some(s) => s,
        None => "<missing>"@,
    }
}

/// The finding for a `format` or `kind` that is not the supported one.
pub open spec fn supported_findings(
    found: Option<Seq<char>>,
    expected: Seq<char>,
    label: Seq<char>,
    code: Seq<char>,
) -> Seq<FindingView> {
    if found != Some(expected) {
        seq![
            error_finding(
                code,
                "expected "@ + label + " `"@ + expected + "`, got `"@ + shown(found) + "`"@,
            ),
        ]
    } else {
        seq![]
    }
}

/// The finding for a string missing at `path`.
pub open spec fn required_findings(p: JsonValue, path: Seq<Seq<char>>, code: Seq<char>) -> Seq<
    FindingView,
> {
    if string_at(p, path) is None {
        seq![error_finding(code, "missing required string `"@ + join(path, "."@) + "`"@)]
    } else {
        seq![]
    }
}

/// The finding for a missing or empty array at `path`.
pub open spec fn non_empty_array_findings(p: JsonValue, path: Seq<Seq<char>>, code: Seq<char>) -> Seq<
    FindingView,
> {
    if array_opt_at(p, path) matches Some(items) && items.len() > 0 {
        seq![]
    } else {
        seq![error_finding(code, "`"@ + join(path, "."@) + "` must be a non-empty array"@)]
    }
}

/// `sha256:` followed by exactly 64 hexadecimal digits.
pub open spec fn is_sha256_hash(v: Seq<char>) -> bool {
    &&& is_prefix("sha256:"@, v)
    &&& v.len() == 71
    &&& forall|i: int| 7 <= i < v.len() ==> is_ascii_hexdigit(#[trigger] v[i])
}

/// The finding for a missing or malformed package hash.
pub open spec fn hash_findings(hash: Option<Seq<char>>) -> Seq<FindingView> {
    match hash {
        Some(v) => if is_sha256_hash(v) {
            seq![]
        } else {
            seq![
                error_finding(
                    "invalid_package_hash"@,
                    "package_hash must be sha256:<64 hex chars>, got `"@ + v + "`"@,
                ),
            ]
        },
        None => seq![error_finding("missing_package_hash"@, "package.package_hash is required"@)],
    }
}

/// The findings of `f` on each of `items`, in order.
pub open spec fn each(items: Seq<JsonValue>, f: spec_fn(JsonValue) -> Seq<FindingView>) -> Seq<
    FindingView,
>
    decreases items.len(),
{
    if items.len() == 0 {
        seq![]
    } else {
        each(items.drop_last(), f) + f(items.last())
    }
}

/// A string member of an array element.
pub open spec fn field(v: JsonValue, name: Seq<char>) -> Option<Seq<char>> {
    string_at(v, seq![name])
}

/// A waiver counts when its status is `accepted` or `active`.
pub open spec fn is_accepted_waiver(w: JsonValue) -> bool {
    field(w, "status"@) == Some("accepted"@) || field(w, "status"@) == Some("active"@)
}

/// The payload holds an accepted or active waiver.
pub open spec fn has_waiver(p: JsonValue) -> bool {
    exists|i: int|
        0 <= i < array_at(p, seq!["active_waivers"@]).len() && is_accepted_waiver(
            #[trigger] array_at(p, seq!["active_waivers"@])[i],
        )
}

/// An open question that blocks.
pub open spec fn is_open_blocker(q: JsonValue) -> bool {
    field(q, "impact"@) == Some("blocking"@) && field(q, "status"@) == Some("open"@)
}

/// The finding for one question.
pub open spec fn blocker_finding(waived: bool) -> spec_fn(JsonValue) -> Seq<FindingView> {
    |q: JsonValue|
        if is_open_blocker(q) && !waived {
            seq![
                error_finding(
                    "blocking_question_without_waiver"@,
                    "blocking open question requires an accepted active waiver"@,
                ),
            ]
        } else {
            seq![]
        }
}

/// A risk of high, critical or blocking severity that is not mitigated,
/// accepted or waived.
pub open spec fn is_open_high_risk(r: JsonValue) -> bool {
    let severity = field(r, "severity"@);
    let status = field(r, "status"@);
    &&& (severity == Some("high"@) || severity == Some("critical"@) || severity == Some(
        "blocking"@,
    ))
    &&& !(status == Some("mitigated"@) || status == Some("accepted"@) || status == Some(
        "waived"@,
    ))
}

/// The finding for one risk.
pub open spec fn risk_finding(waived: bool) -> spec_fn(JsonValue) -> Seq<FindingView> {
    |r: JsonValue|
        if is_open_high_risk(r) && !waived {
            seq![
                error_finding(
                    "high_risk_without_waiver"@,
                    "high/critical open risk requires mitigation or an accepted active waiver"@,
                ),
            ]
        } else {
            seq![]
        }
}

/// A capability candidate without a (non-blank) proposed owner layer.
pub open spec fn owner_missing(c: JsonValue) -> bool {
    match field(c, "proposed_owner_layer"@) {
        Some(owner) => trim(owner).len() == 0,
        None => true,
    }
}

/// The finding for one capability candidate.
pub open spec fn candidate_finding() -> spec_fn(JsonValue) -> Seq<FindingView> {
    |c: JsonValue|
        if owner_missing(c) {
            seq![
                warning_finding(
                    "capability_owner_missing"@,
                    "capability candidate has no proposed_owner_layer"@,
                ),
            ]
        } else {
            seq![]
        }
}

/// The findings on the execution policy: planning only, no execution, human
/// approval required.
pub open spec fn policy_findings(p: JsonValue) -> Seq<FindingView> {
    (if bool_at(p, seq!["execution_policy"@, "planning_only"@]) != Some(true) {
        seq![
            error_finding(
                "planning_only_required"@,
                "execution_policy.planning_only must be true"@,
            ),
        ]
    } else {
        seq![]
    }) + (if bool_at(p, seq!["execution_policy"@, "allow_execution"@]) != Some(false) {
        seq![
            error_finding(
                "execution_forbidden"@,
                "execution_policy.allow_execution must be false"@,
            ),
        ]
    } else {
        seq![]
    }) + (if bool_at(p, seq!["execution_policy"@, "requires_human_approval_for_execution"@])
        != Some(true) {
        seq![
            error_finding(
                "human_approval_required"@,
                "execution_policy.requires_human_approval_for_execution must be true"@,
            ),
        ]
    } else {
        seq![]
    })
}

/// The warning for a payload that requests no outputs.
pub open spec fn outputs_findings(p: JsonValue) -> Seq<FindingView> {
    if array_strings_at(p, seq!["requested_outputs"@]).len() == 0 {
        seq![
            warning_finding(
                "missing_requested_outputs"@,
                "no requested outputs declared; dry-run plan will be minimal"@,
            ),
        ]
    } else {
        seq![]
    }
}

/// Everything validation finds in a payload, in the order it checks.
pub open spec fn payload_findings(p: JsonValue) -> Seq<FindingView> {
    supported_findings(string_at(p, seq!["format"@]), SUPPORTED_FORMAT@, "format"@, "unsupported_format"@)
        + supported_findings(string_at(p, seq!["kind"@]), SUPPORTED_KIND@, "kind"@, "unsupported_kind"@)
        + required_findings(p, seq!["source"@, "product"@], "missing_source_product"@)
        + required_findings(p, seq!["source"@, "workspace_id"@], "missing_workspace_id"@)
        + required_findings(p, seq!["source"@, "handoff_id"@], "missing_handoff_id"@)
        + required_findings(p, seq!["source"@, "created_by"@], "missing_created_by"@)
        + required_findings(p, seq!["source"@, "created_at"@], "missing_created_at"@)
        + required_findings(p, seq!["package"@, "package_id"@], "missing_package_id"@)
        + required_findings(p, seq!["package"@, "version"@], "missing_package_version"@)
        + hash_findings(string_at(p, seq!["package"@, "package_hash"@]))
        + non_empty_array_findings(p, seq!["package"@, "items"@], "empty_package_items"@)
        + required_findings(p, seq!["planning_scope"@, "mode"@], "missing_planning_mode"@)
        + required_findings(p, seq!["planning_scope"@, "goal"@], "missing_planning_goal"@)
        + non_empty_array_findings(p, seq!["traceability_links"@], "missing_traceability_links"@)
        + each(array_at(p, seq!["open_questions"@]), blocker_finding(has_waiver(p)))
        + each(array_at(p, seq!["risks"@]), risk_finding(has_waiver(p)))
        + each(array_at(p, seq!["capability_candidates"@]), candidate_finding())
        + policy_findings(p)
        + outputs_findings(p)
}

/// The report that validation gives for a payload.
pub open spec fn payload_report(p: JsonValue) -> ReportView {
    ReportView {
        format: string_at(p, seq!["format"@]),
        kind: string_at(p, seq!["kind"@]),
        handoff_id: string_at(p, seq!["source"@, "handoff_id"@]),
        package_id: string_at(p, seq!["package"@, "package_id"@]),
        package_hash: string_at(p, seq!["package"@, "package_hash"@]),
        planning_goal: string_at(p, seq!["planning_scope"@, "goal"@]),
        requested_outputs: array_strings_at(p, seq!["requested_outputs"@]),
        findings: payload_findings(p),
    }
}

// ---------------------------------------------------------------------------
// Validation
// ---------------------------------------------------------------------------
fn error(code: &'static str, message: String) -> (f: HandoffFinding)
    ensures
        f@ == error_finding(code@, message@),
{
    HandoffFinding { severity: FindingSeverity::Error, code, message }
}

fn warning(code: &'static str, message: String) -> (f: HandoffFinding)
    ensures
        f@ == warning_finding(code@, message@),
{
    HandoffFinding { severity: FindingSeverity::Warning, code, message }
}

fn push_finding(findings: &mut Vec<HandoffFinding>, f: HandoffFinding)
    ensures
        findings_view(final(findings)@) == findings_view(old(findings)@) + seq![f@],
{
    let ghost before = findings@;
    findings.push(f);
    assert(findings_view(findings@) =~= findings_view(before) + seq![f@]);
}

/// The elements of `path` joined by dots.
fn join_path(path: &[&str]) -> (r: String)
    ensures
        r@ == join(path_view(path@), "."@),
{
    let ghost views = path_view(path@);
    let mut r = String::new();
    let mut i: usize = 0;
    while i < path.len()
        invariant
            views == path_view(path@),
            i <= path.len(),
            r@ == join(views.take(i as int), "."@),
        decreases path.len() - i,
    {
        assert(views.take(i + 1).drop_last() =~= views.take(i as int));
        if i > 0 {
            r.append(".");
        } else {
            assert(r@ =~= Seq::<char>::empty());
        }
        r.append(path[i]);
        proof {
            if i == 0 {
                assert(r@ =~= views.take(1)[0]);
            }
        }
        i = i + 1;
    }
    assert(views.take(path.len() as int) =~= views);
    r
}

fn check_supported(
    findings: &mut Vec<HandoffFinding>,
    found: &Option<String>,
    expected: &str,
    label: &str,
    code: &'static str,
)
    ensures
        findings_view(final(findings)@) == findings_view(old(findings)@) + supported_findings(
            opt_text(*found),
            expected@,
            label@,
            code@,
        ),
{
    let matches = match found {
        Some(f) => str_eq(f.as_str(), expected),
        None => false,
    };
    if !matches {
        let mut message = String::from_str("expected ");
        message.append(label);
        message.append(" `");
        message.append(expected);
        message.append("`, got `");
        match found {
            Some(f) => message.append(f.as_str()),
            None => message.append("<missing>"),
        }
        message.append("`");
        push_finding(findings, error(code, message));
    } else {
        assert(findings_view(findings@) =~= findings_view(findings@) + Seq::<FindingView>::empty());
    }
}

fn require_string(
    findings: &mut Vec<HandoffFinding>,
    payload: &JsonValue,
    path: &[&str],
    code: &'static str,
)
    ensures
        findings_view(final(findings)@) == findings_view(old(findings)@) + required_findings(
            *payload,
            path_view(path@),
            code@,
        ),
{
    if string_at_path(payload, path).is_none() {
        let mut message = String::from_str("missing required string `");
        let joined = join_path(path);
        message.append(joined.as_str());
        message.append("`");
        push_finding(findings, error(code, message));
    } else {
        assert(findings_view(findings@) =~= findings_view(findings@) + Seq::<FindingView>::empty());
    }
}

fn validate_non_empty_array(
    findings: &mut Vec<HandoffFinding>,
    payload: &JsonValue,
    path: &[&str],
    code: &'static str,
)
    ensures
        findings_view(final(findings)@) == findings_view(old(findings)@)
            + non_empty_array_findings(*payload, path_view(path@), code@),
{
    let present = match array_at_path(payload, path) {
        Some(values) => values.len() > 0,
        None => false,
    };
    if present {
        assert(findings_view(findings@) =~= findings_view(findings@) + Seq::<FindingView>::empty());
    } else {
        let mut message = String::from_str("`");
        let joined = join_path(path);
        message.append(joined.as_str());
        message.append("` must be a non-empty array");
        push_finding(findings, error(code, message));
    }
}

/// Whether `value` is `sha256:` followed by 64 hexadecimal digits.
fn is_sha256(value: &str) -> (r: bool)
    ensures
        r == is_sha256_hash(value@),
{
    if !starts_with(value, "sha256:") {
        return false;
    }
    let v = chars_of(value);
    if v.len() != 71 {
        return false;
    }
    let mut i: usize = 7;
    while i < v.len()
        invariant
            v@ == value@,
            v.len() == 71,
            7 <= i <= v.len(),
            forall|k: int| 7 <= k < i ==> is_ascii_hexdigit(#[trigger] v@[k]),
        decreases v.len() - i,
    {
        if !char_is_ascii_hexdigit(v[i]) {
            return false;
        }
        i = i + 1;
    }
    proof {
        reveal_strlit("sha256:");
    }
    true
}

fn validate_package_hash(findings: &mut Vec<HandoffFinding>, hash: &Option<String>)
    ensures
        findings_view(final(findings)@) == findings_view(old(findings)@) + hash_findings(
            opt_text(*hash),
        ),
{
    match hash {
        Some(value) => {
            if is_sha256(value.as_str()) {
                assert(findings_view(findings@) =~= findings_view(findings@) + Seq::<
                    FindingView,
                >::empty());
            } else {
                let mut message = String::from_str(
                    "package_hash must be sha256:<64 hex chars>, got `",
                );
                message.append(value.as_str());
                message.append("`");
                push_finding(findings, error("invalid_package_hash", message));
            }
        },
        None => {
            push_finding(
                findings,
                error("missing_package_hash", String::from_str("package.package_hash is required")),
            );
        },
    }
}

proof fn lemma_each_step(items: Seq<JsonValue>, i: int, f: spec_fn(JsonValue) -> Seq<FindingView>)
    requires
        0 <= i < items.len(),
    ensures
        each(items.take(i + 1), f) == each(items.take(i), f) + f(items[i]),
{
    assert(items.take(i + 1).drop_last() =~= items.take(i));
    assert(items.take(i + 1).last() == items[i]);
}

fn has_accepted_waiver(payload: &JsonValue) -> (r: bool)
    ensures
        r == has_waiver(*payload),
{
    match array_at_path(payload, &["active_waivers"]) {
        Some(waivers) => {
            assert(path_view(["active_waivers"]@) =~= seq!["active_waivers"@]);
            let mut i: usize = 0;
            while i < waivers.len()
                invariant
                    i <= waivers.len(),
                    array_at(*payload, seq!["active_waivers"@]) == waivers@,
                    forall|k: int| 0 <= k < i ==> !is_accepted_waiver(#[trigger] waivers@[k]),
                decreases waivers.len() - i,
            {
                let status = string_at_path(&waivers[i], &["status"]);
                assert(path_view(["status"]@) =~= seq!["status"@]);
                let accepted = match &status {
                    Some(s) => str_eq(s.as_str(), "accepted") || str_eq(s.as_str(), "active"),
                    None => false,
                };
                if accepted {
                    assert(is_accepted_waiver(waivers@[i as int]));
                    return true;
                }
                i = i + 1;
            }
            false
        },
        None => {
            assert(path_view(["active_waivers"]@) =~= seq!["active_waivers"@]);
            false
        },
    }
}

fn validate_blockers(payload: &JsonValue, findings: &mut Vec<HandoffFinding>)
    ensures
        findings_view(final(findings)@) == findings_view(old(findings)@) + each(
            array_at(*payload, seq!["open_questions"@]),
            blocker_finding(has_waiver(*payload)),
        ),
{
    let waived = has_accepted_waiver(payload);
    let ghost f = blocker_finding(waived);
    assert(path_view(["open_questions"]@) =~= seq!["open_questions"@]);
    match array_at_path(payload, &["open_questions"]) {
        Some(questions) => {
            let ghost start = findings_view(findings@);
            let mut i: usize = 0;
            assert(start =~= start + each(questions@.take(0), f));
            while i < questions.len()
                invariant
                    i <= questions.len(),
                    findings_view(findings@) == start + each(questions@.take(i as int), f),
                    f == blocker_finding(waived),
                decreases questions.len() - i,
            {
                proof {
                    lemma_each_step(questions@, i as int, f);
                }
                let impact = string_at_path(&questions[i], &["impact"]);
                let status = string_at_path(&questions[i], &["status"]);
                assert(path_view(["impact"]@) =~= seq!["impact"@]);
                assert(path_view(["status"]@) =~= seq!["status"@]);
                let blocking = match &impact {
                    Some(s) => str_eq(s.as_str(), "blocking"),
                    None => false,
                };
                let open = match &status {
                    Some(s) => str_eq(s.as_str(), "open"),
                    None => false,
                };
                if blocking && open && !waived {
                    push_finding(
                        findings,
                        error(
                            "blocking_question_without_waiver",
                            String::from_str(
                                "blocking open question requires an accepted active waiver",
                            ),
                        ),
                    );
                } else {
                    assert(f(questions@[i as int]) =~= Seq::<FindingView>::empty());
                }
                assert(findings_view(findings@) =~= start + each(questions@.take(i + 1), f));
                i = i + 1;
            }
            assert(questions@.take(questions.len() as int) =~= questions@);
        },
        None => {
            assert(findings_view(findings@) =~= findings_view(findings@) + Seq::<
                FindingView,
            >::empty());
        },
    }
}

fn validate_risks(payload: &JsonValue, findings: &mut Vec<HandoffFinding>)
    ensures
        findings_view(final(findings)@) == findings_view(old(findings)@) + each(
            array_at(*payload, seq!["risks"@]),
            risk_finding(has_waiver(*payload)),
        ),
{
    let waived = has_accepted_waiver(payload);
    let ghost f = risk_finding(waived);
    assert(path_view(["risks"]@) =~= seq!["risks"@]);
    match array_at_path(payload, &["risks"]) {
        Some(risks) => {
            let ghost start = findings_view(findings@);
            let mut i: usize = 0;
            assert(start =~= start + each(risks@.take(0), f));
            while i < risks.len()
                invariant
                    i <= risks.len(),
                    findings_view(findings@) == start + each(risks@.take(i as int), f),
                    f == risk_finding(waived),
                decreases risks.len() - i,
            {
                proof {
                    lemma_each_step(risks@, i as int, f);
                }
                let severity = string_at_path(&risks[i], &["severity"]);
                let status = string_at_path(&risks[i], &["status"]);
                assert(path_view(["severity"]@) =~= seq!["severity"@]);
                assert(path_view(["status"]@) =~= seq!["status"@]);
                let high = match &severity {
                    Some(s) => str_eq(s.as_str(), "high") || str_eq(s.as_str(), "critical")
                        || str_eq(s.as_str(), "blocking"),
                    None => false,
                };
                let settled = match &status {
                    Some(s) => str_eq(s.as_str(), "mitigated") || str_eq(s.as_str(), "accepted")
                        || str_eq(s.as_str(), "waived"),
                    None => false,
                };
                if high && !settled && !waived {
                    push_finding(
                        findings,
                        error(
                            "high_risk_without_waiver",
                            String::from_str(
                                "high/critical open risk requires mitigation or an accepted active waiver",
                            ),
                        ),
                    );
                } else {
                    assert(f(risks@[i as int]) =~= Seq::<FindingView>::empty());
                }
                assert(findings_view(findings@) =~= start + each(risks@.take(i + 1), f));
                i = i + 1;
            }
            assert(risks@.take(risks.len() as int) =~= risks@);
        },
        None => {
            assert(findings_view(findings@) =~= findings_view(findings@) + Seq::<
                FindingView,
            >::empty());
        },
    }
}

fn validate_capability_candidates(payload: &JsonValue, findings: &mut Vec<HandoffFinding>)
    ensures
        findings_view(final(findings)@) == findings_view(old(findings)@) + each(
            array_at(*payload, seq!["capability_candidates"@]),
            candidate_finding(),
        ),
{
    let ghost f = candidate_finding();
    assert(path_view(["capability_candidates"]@) =~= seq!["capability_candidates"@]);
    match array_at_path(payload, &["capability_candidates"]) {
        Some(candidates) => {
            let ghost start = findings_view(findings@);
            let mut i: usize = 0;
            assert(start =~= start + each(candidates@.take(0), f));
            while i < candidates.len()
                invariant
                    i <= candidates.len(),
                    findings_view(findings@) == start + each(candidates@.take(i as int), f),
                    f == candidate_finding(),
                decreases candidates.len() - i,
            {
                proof {
                    lemma_each_step(candidates@, i as int, f);
                }
                let owner = string_at_path(&candidates[i], &["proposed_owner_layer"]);
                assert(path_view(["proposed_owner_layer"]@) =~= seq!["proposed_owner_layer"@]);
                let missing = match &owner {
                    Some(o) => {
                        let trimmed = trim_str(o.as_str());
                        trimmed.as_str().is_empty()
                    },
                    None => true,
                };
                if missing {
                    push_finding(
                        findings,
                        warning(
                            "capability_owner_missing",
                            String::from_str("capability candidate has no proposed_owner_layer"),
                        ),
                    );
                } else {
                    assert(f(candidates@[i as int]) =~= Seq::<FindingView>::empty());
                }
                assert(findings_view(findings@) =~= start + each(candidates@.take(i + 1), f));
                i = i + 1;
            }
            assert(candidates@.take(candidates.len() as int) =~= candidates@);
        },
        None => {
            assert(findings_view(findings@) =~= findings_view(findings@) + Seq::<
                FindingView,
            >::empty());
        },
    }
}

fn validate_execution_policy(payload: &JsonValue, findings: &mut Vec<HandoffFinding>)
    ensures
        findings_view(final(findings)@) == findings_view(old(findings)@) + policy_findings(
            *payload,
        ),
{
    let ghost start = findings_view(findings@);
    let planning_only = bool_at_path(payload, &["execution_policy", "planning_only"]);
    let allow_execution = bool_at_path(payload, &["execution_policy", "allow_execution"]);
    let requires_human_approval = bool_at_path(
        payload,
        &["execution_policy", "requires_human_approval_for_execution"],
    );
    assert(path_view(["execution_policy", "planning_only"]@) =~= seq![
        "execution_policy"@,
        "planning_only"@,
    ]);
    assert(path_view(["execution_policy", "allow_execution"]@) =~= seq![
        "execution_policy"@,
        "allow_execution"@,
    ]);
    assert(path_view(["execution_policy", "requires_human_approval_for_execution"]@) =~= seq![
        "execution_policy"@,
        "requires_human_approval_for_execution"@,
    ]);
    if planning_only != Some(true) {
        push_finding(
            findings,
            error(
                "planning_only_required",
                String::from_str("execution_policy.planning_only must be true"),
            ),
        );
    }
    if allow_execution != Some(false) {
        push_finding(
            findings,
            error(
                "execution_forbidden",
                String::from_str("execution_policy.allow_execution must be false"),
            ),
        );
    }
    if requires_human_approval != Some(true) {
        push_finding(
            findings,
            error(
                "human_approval_required",
                String::from_str(
                    "execution_policy.requires_human_approval_for_execution must be true",
                ),
            ),
        );
    }
    assert(findings_view(findings@) =~= start + policy_findings(*payload));
}

/// Validate a parsed handoff payload: what it declares, and every finding
/// against the planning-only contract.
pub fn validate_payload(payload: &JsonValue) -> (report: HandoffReport)
    ensures
        report@ == payload_report(*payload),
{
    let mut findings: Vec<HandoffFinding> = Vec::new();
    assert(findings_view(findings@) =~= Seq::<FindingView>::empty());

    let format = string_at_path(payload, &["format"]);
    assert(path_view(["format"]@) =~= seq!["format"@]);
    check_supported(&mut findings, &format, SUPPORTED_FORMAT, "format", "unsupported_format");

    let kind = string_at_path(payload, &["kind"]);
    assert(path_view(["kind"]@) =~= seq!["kind"@]);
    check_supported(&mut findings, &kind, SUPPORTED_KIND, "kind", "unsupported_kind");

    let handoff_id = string_at_path(payload, &["source", "handoff_id"]);
    assert(path_view(["source", "handoff_id"]@) =~= seq!["source"@, "handoff_id"@]);
    require_string(&mut findings, payload, &["source", "product"], "missing_source_product");
    assert(path_view(["source", "product"]@) =~= seq!["source"@, "product"@]);
    require_string(&mut findings, payload, &["source", "workspace_id"], "missing_workspace_id");
    assert(path_view(["source", "workspace_id"]@) =~= seq!["source"@, "workspace_id"@]);
    require_string(&mut findings, payload, &["source", "handoff_id"], "missing_handoff_id");
    require_string(&mut findings, payload, &["source", "created_by"], "missing_created_by");
    assert(path_view(["source", "created_by"]@) =~= seq!["source"@, "created_by"@]);
    require_string(&mut findings, payload, &["source", "created_at"], "missing_created_at");
    assert(path_view(["source", "created_at"]@) =~= seq!["source"@, "created_at"@]);

    let package_id = string_at_path(payload, &["package", "package_id"]);
    assert(path_view(["package", "package_id"]@) =~= seq!["package"@, "package_id"@]);
    let package_hash = string_at_path(payload, &["package", "package_hash"]);
    assert(path_view(["package", "package_hash"]@) =~= seq!["package"@, "package_hash"@]);
    require_string(&mut findings, payload, &["package", "package_id"], "missing_package_id");
    require_string(&mut findings, payload, &["package", "version"], "missing_package_version");
    assert(path_view(["package", "version"]@) =~= seq!["package"@, "version"@]);
    validate_package_hash(&mut findings, &package_hash);
    validate_non_empty_array(&mut findings, payload, &["package", "items"], "empty_package_items");
    assert(path_view(["package", "items"]@) =~= seq!["package"@, "items"@]);

    let planning_goal = string_at_path(payload, &["planning_scope", "goal"]);
    assert(path_view(["planning_scope", "goal"]@) =~= seq!["planning_scope"@, "goal"@]);
    require_string(&mut findings, payload, &["planning_scope", "mode"], "missing_planning_mode");
    assert(path_view(["planning_scope", "mode"]@) =~= seq!["planning_scope"@, "mode"@]);
    require_string(&mut findings, payload, &["planning_scope", "goal"], "missing_planning_goal");

    validate_non_empty_array(
        &mut findings,
        payload,
        &["traceability_links"],
        "missing_traceability_links",
    );
    assert(path_view(["traceability_links"]@) =~= seq!["traceability_links"@]);
    validate_blockers(payload, &mut findings);
    validate_risks(payload, &mut findings);
    validate_capability_candidates(payload, &mut findings);
    validate_execution_policy(payload, &mut findings);

    let requested_outputs = array_strings_at_path(payload, &["requested_outputs"]);
    assert(path_view(["requested_outputs"]@) =~= seq!["requested_outputs"@]);
    if requested_outputs.len() == 0 {
        push_finding(
            &mut findings,
            warning(
                "missing_requested_outputs",
                String::from_str("no requested outputs declared; dry-run plan will be minimal"),
            ),
        );
    } else {
        assert(findings_view(findings@) =~= findings_view(findings@) + Seq::<FindingView>::empty());
    }

    let report = HandoffReport {
        format,
        kind,
        handoff_id,
        package_id,
        package_hash,
        planning_goal,
        requested_outputs,
        findings,
    };
    assert(report@.findings =~= payload_findings(*payload));
    report
}


// ---------------------------------------------------------------------------
// Validation of JSON text
// ---------------------------------------------------------------------------
/// A handoff whose text cannot be validated.
#[derive(Debug, Clone, PartialEq, Eq)]
pub enum HandoffError {
    InvalidHandoff { message: String },
}

/// A validation outcome as plain values: the report, or the error message.
pub open spec fn outcome_view(r: Result<HandoffReport, HandoffError>) -> Result<ReportView, Seq<char>> {
    match r {
        Ok(report) => Ok(report@),
        Err(HandoffError::InvalidHandoff { message }) => Err(message@),
    }
}

/// The outcome of validating a parse outcome: the report of the payload, or
/// `invalid JSON: ` followed by the parser's message.
pub open spec fn parse_outcome_report(parsed: Result<JsonValue, Seq<char>>) -> Result<ReportView, Seq<char>> {
    match parsed {
        Ok(payload) => Ok(payload_report(payload)),
        Err(detail) => Err("invalid JSON: "@ + detail),
    }
}

/// Validate the outcome of parsing a handoff's JSON text.
pub fn report_of_parse(parsed: Result<JsonValue, String>) -> (r: Result<HandoffReport, HandoffError>)
    ensures
        outcome_view(r) == parse_outcome_report(parse_view(parsed)),
{
    match parsed {
        Ok(payload) => Ok(validate_payload(&payload)),
        Err(detail) => {
            let mut message = String::from_str("invalid JSON: ");
            message.append(detail.as_str());
            Err(HandoffError::InvalidHandoff { message })
        },
    }
}

/// Validate a handoff given as JSON text.
pub fn validate_str(source: &str) -> (r: Result<HandoffReport, HandoffError>)
    ensures
        outcome_view(r) == parse_outcome_report(parsed_json(source@)),
{
    report_of_parse(parse_json(source))
}

// ---------------------------------------------------------------------------
// Dry-run planning
// ---------------------------------------------------------------------------
/// The gates that every dry-run plan lists first.
pub open spec fn base_gates() -> Seq<Seq<char>> {
    seq![
        "package_approved"@,
        "planning_only_enforced"@,
        "traceability_present"@,
        "blocking_questions_waived_or_absent"@,
        "high_risks_waived_or_absent"@,
        "shared_capability_review_requested"@,
    ]
}

/// The planning task for one requested output.
pub open spec fn task_for(output: Seq<char>) -> Seq<char> {
    if output == "implementation_plan"@ {
        "draft implementation plan"@
    } else if output == "task_breakdown"@ {
        "derive task breakdown"@
    } else if output == "risk_review"@ {
        "review risks and waivers"@
    } else if output == "test_plan"@ {
        "derive acceptance and contract test plan"@
    } else if output == "shared_capability_extraction_review"@ {
        "review shared capability extraction"@
    } else {
        "produce requested output `"@ + output + "`"@
    }
}

/// The dry-run plan for a report: a valid report gets the base gates and one
/// task per requested output, in order; any other report gets the base gates,
/// a refusal gate, and no task.
pub open spec fn dry_run_of(r: ReportView) -> PlanView {
    PlanView {
        report: r,
        gates: if report_is_valid(r) {
            base_gates()
        } else {
            base_gates().push("refuse_until_validation_clean"@)
        },
        tasks: if report_is_valid(r) {
            r.requested_outputs.map_values(|o: Seq<char>| task_for(o))
        } else {
            seq![]
        },
    }
}

fn task_for_output(output: &str) -> (r: String)
    ensures
        r@ == task_for(output@),
{
    if str_eq(output, "implementation_plan") {
        String::from_str("draft implementation plan")
    } else if str_eq(output, "task_breakdown") {
        String::from_str("derive task breakdown")
    } else if str_eq(output, "risk_review") {
        String::from_str("review risks and waivers")
    } else if str_eq(output, "test_plan") {
        String::from_str("derive acceptance and contract test plan")
    } else if str_eq(output, "shared_capability_extraction_review") {
        String::from_str("review shared capability extraction")
    } else {
        let mut task = String::from_str("produce requested output `");
        task.append(output);
        task.append("`");
        task
    }
}

/// Build the dry-run plan for a report validated from a handoff file. A plan
/// never executes anything: an invalid report is refused with no tasks.
pub fn dry_run_plan_file(report: HandoffReport) -> (plan: DryRunPlan)
    ensures
        plan@ == dry_run_of(report@),
{
    let mut gates: Vec<String> = Vec::new();
    gates.push(String::from_str("package_approved"));
    gates.push(String::from_str("planning_only_enforced"));
    gates.push(String::from_str("traceability_present"));
    gates.push(String::from_str("blocking_questions_waived_or_absent"));
    gates.push(String::from_str("high_risks_waived_or_absent"));
    gates.push(String::from_str("shared_capability_review_requested"));
    assert(texts(gates@) =~= base_gates());
    let mut tasks: Vec<String> = Vec::new();
    let ghost outputs = texts(report.requested_outputs@);
    if report.is_valid() {
        let mut i: usize = 0;
        while i < report.requested_outputs.len()
            invariant
                outputs == texts(report.requested_outputs@),
                i <= report.requested_outputs.len(),
                texts(tasks@) == outputs.take(i as int).map_values(|o: Seq<char>| task_for(o)),
            decreases report.requested_outputs.len() - i,
        {
            let ghost before = tasks@;
            let task = task_for_output(report.requested_outputs[i].as_str());
            assert(outputs[i as int] == report.requested_outputs@[i as int]@);
            let ghost tv = task@;
            tasks.push(task);
            assert(texts(tasks@) =~= texts(before).push(tv));
            assert(outputs.take(i + 1) =~= outputs.take(i as int).push(outputs[i as int]));
            assert(texts(tasks@) =~= outputs.take(i + 1).map_values(|o: Seq<char>| task_for(o)));
            i = i + 1;
        }
        assert(outputs.take(report.requested_outputs.len() as int) =~= outputs);
    } else {
        gates.push(String::from_str("refuse_until_validation_clean"));
        assert(texts(gates@) =~= base_gates().push("refuse_until_validation_clean"@));
        assert(texts(tasks@) =~= Seq::<Seq<char>>::empty());
    }
    DryRunPlan { report, gates, tasks }
}


// ---------------------------------------------------------------------------
// Laws
// ---------------------------------------------------------------------------
/// What a payload must declare for its report to be valid: the supported
/// format and kind, every required string, a well-formed package hash,
/// non-empty package items and traceability links, no open blocking question
/// and no open high risk unless a waiver is accepted or active, and an
/// execution policy that is planning only, forbids execution and requires
/// human approval.
pub open spec fn payload_acceptable(p: JsonValue) -> bool {
    &&& string_at(p, seq!["format"@]) == Some("canvas.bolt_handoff.v0.1"@)
    &&& string_at(p, seq!["kind"@]) == Some("planning_request"@)
    &&& string_at(p, seq!["source"@, "product"@]) is Some
    &&& string_at(p, seq!["source"@, "workspace_id"@]) is Some
    &&& string_at(p, seq!["source"@, "handoff_id"@]) is Some
    &&& string_at(p, seq!["source"@, "created_by"@]) is Some
    &&& string_at(p, seq!["source"@, "created_at"@]) is Some
    &&& string_at(p, seq!["package"@, "package_id"@]) is Some
    &&& string_at(p, seq!["package"@, "version"@]) is Some
    &&& string_at(p, seq!["package"@, "package_hash"@]) matches Some(h) && h.len() == 71
        && h.subrange(0, 7) == seq!['s', 'h', 'a', '2', '5', '6', ':'] && forall|i: int|
        7 <= i < 71 ==> ('0' <= #[trigger] h[i] <= '9' || 'a' <= h[i] <= 'f' || 'A' <= h[i]
            <= 'F')
    &&& array_opt_at(p, seq!["package"@, "items"@]) matches Some(items) && items.len() > 0
    &&& string_at(p, seq!["planning_scope"@, "mode"@]) is Some
    &&& string_at(p, seq!["planning_scope"@, "goal"@]) is Some
    &&& array_opt_at(p, seq!["traceability_links"@]) matches Some(links) && links.len() > 0
    &&& !no_accepted_or_active_waiver(p) || forall|i: int|
        0 <= i < array_at(p, seq!["open_questions"@]).len() ==> !(string_at(
            #[trigger] array_at(p, seq!["open_questions"@])[i],
            seq!["impact"@],
        ) == Some("blocking"@) && string_at(
            array_at(p, seq!["open_questions"@])[i],
            seq!["status"@],
        ) == Some("open"@))
    &&& !no_accepted_or_active_waiver(p) || forall|i: int|
        0 <= i < array_at(p, seq!["risks"@]).len() ==> !((string_at(
            #[trigger] array_at(p, seq!["risks"@])[i],
            seq!["severity"@],
        ) == Some("high"@) || string_at(array_at(p, seq!["risks"@])[i], seq!["severity"@])
            == Some("critical"@) || string_at(array_at(p, seq!["risks"@])[i], seq!["severity"@])
            == Some("blocking"@)) && string_at(array_at(p, seq!["risks"@])[i], seq!["status"@])
            != Some("mitigated"@) && string_at(array_at(p, seq!["risks"@])[i], seq!["status"@])
            != Some("accepted"@) && string_at(array_at(p, seq!["risks"@])[i], seq!["status"@])
            != Some("waived"@))
    &&& bool_at(p, seq!["execution_policy"@, "planning_only"@]) == Some(true)
    &&& bool_at(p, seq!["execution_policy"@, "allow_execution"@]) == Some(false)
    &&& bool_at(p, seq!["execution_policy"@, "requires_human_approval_for_execution"@]) == Some(
        true,
    )
}

/// Some finding of `s` is an error.
pub open spec fn has_error(s: Seq<FindingView>) -> bool {
    exists|i: int| 0 <= i < s.len() && (#[trigger] s[i]).severity == FindingSeverity::Error
}

proof fn lemma_has_error_concat(a: Seq<FindingView>, b: Seq<FindingView>)
    ensures
        has_error(a + b) <==> has_error(a) || has_error(b),
{
    if has_error(a + b) {
        let i = choose|i: int|
            0 <= i < (a + b).len() && (#[trigger] (a + b)[i]).severity == FindingSeverity::Error;
        if i < a.len() {
            assert(a[i] == (a + b)[i]);
        } else {
            assert(b[i - a.len()] == (a + b)[i]);
        }
    }
    if has_error(a) {
        let i = choose|i: int| 0 <= i < a.len() && (#[trigger] a[i]).severity == FindingSeverity::Error;
        assert((a + b)[i] == a[i]);
    }
    if has_error(b) {
        let i = choose|i: int| 0 <= i < b.len() && (#[trigger] b[i]).severity == FindingSeverity::Error;
        assert((a + b)[a.len() + i] == b[i]);
    }
}

proof fn lemma_has_error_each(items: Seq<JsonValue>, f: spec_fn(JsonValue) -> Seq<FindingView>)
    ensures
        has_error(each(items, f)) <==> exists|i: int|
            0 <= i < items.len() && has_error(f(#[trigger] items[i])),
    decreases items.len(),
{
    if items.len() > 0 {
        let rest = items.drop_last();
        lemma_has_error_each(rest, f);
        lemma_has_error_concat(each(rest, f), f(items.last()));
        if exists|i: int| 0 <= i < items.len() && has_error(f(#[trigger] items[i])) {
            let i = choose|i: int| 0 <= i < items.len() && has_error(f(#[trigger] items[i]));
            if i < rest.len() {
                assert(rest[i] == items[i]);
            }
        }
        if exists|i: int| 0 <= i < rest.len() && has_error(f(#[trigger] rest[i])) {
            let i = choose|i: int| 0 <= i < rest.len() && has_error(f(#[trigger] rest[i]));
            assert(rest[i] == items[i]);
        }
    }
}

proof fn lemma_single(f: FindingView)
    ensures
        has_error(seq![f]) <==> f.severity == FindingSeverity::Error,
{
    assert(seq![f][0] == f);
}

proof fn lemma_empty()
    ensures
        !has_error(Seq::<FindingView>::empty()),
{
}

/// A report is valid exactly when its payload is acceptable: every error
/// finding stands for one unmet requirement, and warnings (no requested
/// outputs, a capability candidate without owner layer) never refuse a
/// handoff.
pub proof fn report_valid_iff_payload_acceptable(p: JsonValue)
    ensures
        report_is_valid(payload_report(p)) <==> payload_acceptable(p),
{
    let waived = has_waiver(p);
    let ws = array_at(p, seq!["active_waivers"@]);
    assert(waived <==> !no_accepted_or_active_waiver(p)) by {
        if waived {
            let j = choose|j: int| 0 <= j < ws.len() && is_accepted_waiver(#[trigger] ws[j]);
            assert(string_at(ws[j], seq!["status"@]) == Some("accepted"@) || string_at(
                ws[j],
                seq!["status"@],
            ) == Some("active"@));
        }
        if !no_accepted_or_active_waiver(p) {
            let j = choose|j: int|
                0 <= j < ws.len() && !(string_at(#[trigger] ws[j], seq!["status"@]) != Some(
                    "accepted"@,
                ) && string_at(ws[j], seq!["status"@]) != Some("active"@));
            assert(is_accepted_waiver(ws[j]));
        }
    }
    match string_at(p, seq!["package"@, "package_hash"@]) {
        Some(h) => {
            reveal_strlit("sha256:");
            assert("sha256:"@ =~= seq!['s', 'h', 'a', '2', '5', '6', ':']);
        },
        None => {},
    }
    reveal_strlit("canvas.bolt_handoff.v0.1");
    reveal_strlit("planning_request");
    assert(SUPPORTED_FORMAT@ == "canvas.bolt_handoff.v0.1"@);
    assert(SUPPORTED_KIND@ == "planning_request"@);
    let s1 = supported_findings(string_at(p, seq!["format"@]), SUPPORTED_FORMAT@, "format"@, "unsupported_format"@);
    let s2 = supported_findings(string_at(p, seq!["kind"@]), SUPPORTED_KIND@, "kind"@, "unsupported_kind"@);
    let s3 = required_findings(p, seq!["source"@, "product"@], "missing_source_product"@);
    let s4 = required_findings(p, seq!["source"@, "workspace_id"@], "missing_workspace_id"@);
    let s5 = required_findings(p, seq!["source"@, "handoff_id"@], "missing_handoff_id"@);
    let s6 = required_findings(p, seq!["source"@, "created_by"@], "missing_created_by"@);
    let s7 = required_findings(p, seq!["source"@, "created_at"@], "missing_created_at"@);
    let s8 = required_findings(p, seq!["package"@, "package_id"@], "missing_package_id"@);
    let s9 = required_findings(p, seq!["package"@, "version"@], "missing_package_version"@);
    let s10 = hash_findings(string_at(p, seq!["package"@, "package_hash"@]));
    let s11 = non_empty_array_findings(p, seq!["package"@, "items"@], "empty_package_items"@);
    let s12 = required_findings(p, seq!["planning_scope"@, "mode"@], "missing_planning_mode"@);
    let s13 = required_findings(p, seq!["planning_scope"@, "goal"@], "missing_planning_goal"@);
    let s14 = non_empty_array_findings(p, seq!["traceability_links"@], "missing_traceability_links"@);
    let qs = array_at(p, seq!["open_questions"@]);
    let rs = array_at(p, seq!["risks"@]);
    let cs = array_at(p, seq!["capability_candidates"@]);
    let s15 = each(qs, blocker_finding(waived));
    let s16 = each(rs, risk_finding(waived));
    let s17 = each(cs, candidate_finding());
    let s18 = policy_findings(p);
    let s19 = outputs_findings(p);
    let all = payload_findings(p);
    assert(all == s1 + s2 + s3 + s4 + s5 + s6 + s7 + s8 + s9 + s10 + s11 + s12 + s13 + s14 + s15
        + s16 + s17 + s18 + s19);
    lemma_has_error_concat(s1, s2);
    lemma_has_error_concat(s1 + s2, s3);
    lemma_has_error_concat(s1 + s2 + s3, s4);
    lemma_has_error_concat(s1 + s2 + s3 + s4, s5);
    lemma_has_error_concat(s1 + s2 + s3 + s4 + s5, s6);
    lemma_has_error_concat(s1 + s2 + s3 + s4 + s5 + s6, s7);
    lemma_has_error_concat(s1 + s2 + s3 + s4 + s5 + s6 + s7, s8);
    lemma_has_error_concat(s1 + s2 + s3 + s4 + s5 + s6 + s7 + s8, s9);
    lemma_has_error_concat(s1 + s2 + s3 + s4 + s5 + s6 + s7 + s8 + s9, s10);
    lemma_has_error_concat(s1 + s2 + s3 + s4 + s5 + s6 + s7 + s8 + s9 + s10, s11);
    lemma_has_error_concat(s1 + s2 + s3 + s4 + s5 + s6 + s7 + s8 + s9 + s10 + s11, s12);
    lemma_has_error_concat(s1 + s2 + s3 + s4 + s5 + s6 + s7 + s8 + s9 + s10 + s11 + s12, s13);
    lemma_has_error_concat(
        s1 + s2 + s3 + s4 + s5 + s6 + s7 + s8 + s9 + s10 + s11 + s12 + s13,
        s14,
    );
    lemma_has_error_concat(
        s1 + s2 + s3 + s4 + s5 + s6 + s7 + s8 + s9 + s10 + s11 + s12 + s13 + s14,
        s15,
    );
    lemma_has_error_concat(
        s1 + s2 + s3 + s4 + s5 + s6 + s7 + s8 + s9 + s10 + s11 + s12 + s13 + s14 + s15,
        s16,
    );
    lemma_has_error_concat(
        s1 + s2 + s3 + s4 + s5 + s6 + s7 + s8 + s9 + s10 + s11 + s12 + s13 + s14 + s15 + s16,
        s17,
    );
    lemma_has_error_concat(
        s1 + s2 + s3 + s4 + s5 + s6 + s7 + s8 + s9 + s10 + s11 + s12 + s13 + s14 + s15 + s16
            + s17,
        s18,
    );
    lemma_has_error_concat(
        s1 + s2 + s3 + s4 + s5 + s6 + s7 + s8 + s9 + s10 + s11 + s12 + s13 + s14 + s15 + s16
            + s17 + s18,
        s19,
    );
    assert(report_is_valid(payload_report(p)) == !has_error(all));
    // each part
    lemma_empty();
    assert forall|code: Seq<char>, m: Seq<char>| has_error(seq![error_finding(code, m)]) by {
        lemma_single(error_finding(code, m));
    }
    assert forall|code: Seq<char>, m: Seq<char>| !has_error(seq![warning_finding(code, m)]) by {
        lemma_single(warning_finding(code, m));
    }
    // the execution policy
    let pe1 = if bool_at(p, seq!["execution_policy"@, "planning_only"@]) != Some(true) {
        seq![error_finding("planning_only_required"@, "execution_policy.planning_only must be true"@)]
    } else {
        Seq::<FindingView>::empty()
    };
    let pe2 = if bool_at(p, seq!["execution_policy"@, "allow_execution"@]) != Some(false) {
        seq![error_finding("execution_forbidden"@, "execution_policy.allow_execution must be false"@)]
    } else {
        Seq::<FindingView>::empty()
    };
    let pe3 = if bool_at(p, seq!["execution_policy"@, "requires_human_approval_for_execution"@])
        != Some(true) {
        seq![
            error_finding(
                "human_approval_required"@,
                "execution_policy.requires_human_approval_for_execution must be true"@,
            ),
        ]
    } else {
        Seq::<FindingView>::empty()
    };
    assert(s18 == pe1 + pe2 + pe3);
    lemma_has_error_concat(pe1, pe2);
    lemma_has_error_concat(pe1 + pe2, pe3);
    // the arrays
    lemma_has_error_each(qs, blocker_finding(waived));
    lemma_has_error_each(rs, risk_finding(waived));
    lemma_has_error_each(cs, candidate_finding());
    assert forall|i: int| 0 <= i < qs.len() implies (has_error(blocker_finding(waived)(
        #[trigger] qs[i],
    )) <==> (is_open_blocker(qs[i]) && !waived)) by {}
    assert forall|i: int| 0 <= i < rs.len() implies (has_error(risk_finding(waived)(
        #[trigger] rs[i],
    )) <==> (is_open_high_risk(rs[i]) && !waived)) by {}
    assert forall|i: int| 0 <= i < cs.len() implies !has_error(candidate_finding()(#[trigger] cs[i])) by {}
    assert(!has_error(s17));
    assert(!has_error(s19));
}

/// A plan is refused (its last gate is the refusal gate, and it has no
/// task) exactly when its report is not valid; a valid report's plan has
/// the base gates and one task per requested output.
pub proof fn dry_run_refuses_exactly_invalid_reports(r: ReportView)
    ensures
        !report_is_valid(r) ==> {
            &&& dry_run_of(r).tasks.len() == 0
            &&& dry_run_of(r).gates.len() == 7
            &&& dry_run_of(r).gates.last() == "refuse_until_validation_clean"@
        },
        report_is_valid(r) ==> {
            &&& dry_run_of(r).gates == base_gates()
            &&& dry_run_of(r).tasks.len() == r.requested_outputs.len()
            &&& forall|i: int| 0 <= i < r.requested_outputs.len() ==> #[trigger] dry_run_of(r).tasks[i]
                == task_for(r.requested_outputs[i])
        },
        dry_run_of(r).report == r,
{
}


/// Some finding of `s` has this severity and code.
pub open spec fn has_finding(s: Seq<FindingView>, severity: FindingSeverity, code: Seq<char>) -> bool {
    exists|i: int| 0 <= i < s.len() && (#[trigger] s[i]).severity == severity && s[i].code == code
}

proof fn lemma_has_finding_concat(
    a: Seq<FindingView>,
    b: Seq<FindingView>,
    severity: FindingSeverity,
    code: Seq<char>,
)
    ensures
        has_finding(a + b, severity, code) <==> has_finding(a, severity, code) || has_finding(
            b,
            severity,
            code,
        ),
{
    if has_finding(a + b, severity, code) {
        let i = choose|i: int|
            0 <= i < (a + b).len() && (#[trigger] (a + b)[i]).severity == severity && (a
                + b)[i].code == code;
        if i < a.len() {
            assert(a[i] == (a + b)[i]);
        } else {
            assert(b[i - a.len()] == (a + b)[i]);
        }
    }
    if has_finding(a, severity, code) {
        let i = choose|i: int| 0 <= i < a.len() && (#[trigger] a[i]).severity == severity && a[i].code == code;
        assert((a + b)[i] == a[i]);
    }
    if has_finding(b, severity, code) {
        let i = choose|i: int| 0 <= i < b.len() && (#[trigger] b[i]).severity == severity && b[i].code == code;
        assert((a + b)[a.len() + i] == b[i]);
    }
}

proof fn lemma_has_finding_each(
    items: Seq<JsonValue>,
    f: spec_fn(JsonValue) -> Seq<FindingView>,
    severity: FindingSeverity,
    code: Seq<char>,
)
    ensures
        has_finding(each(items, f), severity, code) <==> exists|i: int|
            0 <= i < items.len() && has_finding(f(#[trigger] items[i]), severity, code),
    decreases items.len(),
{
    if items.len() > 0 {
        let rest = items.drop_last();
        lemma_has_finding_each(rest, f, severity, code);
        lemma_has_finding_concat(each(rest, f), f(items.last()), severity, code);
        if exists|i: int| 0 <= i < items.len() && has_finding(f(#[trigger] items[i]), severity, code) {
            let i = choose|i: int| 0 <= i < items.len() && has_finding(f(#[trigger] items[i]), severity, code);
            if i < rest.len() {
                assert(rest[i] == items[i]);
            }
        }
        if exists|i: int| 0 <= i < rest.len() && has_finding(f(#[trigger] rest[i]), severity, code) {
            let i = choose|i: int| 0 <= i < rest.len() && has_finding(f(#[trigger] rest[i]), severity, code);
            assert(rest[i] == items[i]);
        }
    }
}

proof fn lemma_has_finding_single(f: FindingView, severity: FindingSeverity, code: Seq<char>)
    ensures
        has_finding(seq![f], severity, code) <==> (f.severity == severity && f.code == code),
{
    assert(seq![f][0] == f);
}

/// The findings of the checks that come before the array checks.
spec fn leading_findings(p: JsonValue) -> Seq<FindingView> {
    supported_findings(string_at(p, seq!["format"@]), SUPPORTED_FORMAT@, "format"@, "unsupported_format"@)
        + supported_findings(string_at(p, seq!["kind"@]), SUPPORTED_KIND@, "kind"@, "unsupported_kind"@)
        + required_findings(p, seq!["source"@, "product"@], "missing_source_product"@)
        + required_findings(p, seq!["source"@, "workspace_id"@], "missing_workspace_id"@)
        + required_findings(p, seq!["source"@, "handoff_id"@], "missing_handoff_id"@)
        + required_findings(p, seq!["source"@, "created_by"@], "missing_created_by"@)
        + required_findings(p, seq!["source"@, "created_at"@], "missing_created_at"@)
        + required_findings(p, seq!["package"@, "package_id"@], "missing_package_id"@)
        + required_findings(p, seq!["package"@, "version"@], "missing_package_version"@)
        + hash_findings(string_at(p, seq!["package"@, "package_hash"@]))
        + non_empty_array_findings(p, seq!["package"@, "items"@], "empty_package_items"@)
        + required_findings(p, seq!["planning_scope"@, "mode"@], "missing_planning_mode"@)
        + required_findings(p, seq!["planning_scope"@, "goal"@], "missing_planning_goal"@)
        + non_empty_array_findings(p, seq!["traceability_links"@], "missing_traceability_links"@)
}

/// Only a finding of one of the leading codes comes from the leading checks;
/// none of them is as long as `code`.
proof fn lemma_leading_codes(p: JsonValue, code: Seq<char>)
    requires
        code.len() == 24 || code.len() == 32,
    ensures
        !has_finding(leading_findings(p), FindingSeverity::Error, code),
{
    reveal_strlit("unsupported_format");
    reveal_strlit("unsupported_kind");
    reveal_strlit("missing_source_product");
    reveal_strlit("missing_workspace_id");
    reveal_strlit("missing_handoff_id");
    reveal_strlit("missing_created_by");
    reveal_strlit("missing_created_at");
    reveal_strlit("missing_package_id");
    reveal_strlit("missing_package_version");
    reveal_strlit("invalid_package_hash");
    reveal_strlit("missing_package_hash");
    reveal_strlit("empty_package_items");
    reveal_strlit("missing_planning_mode");
    reveal_strlit("missing_planning_goal");
    reveal_strlit("missing_traceability_links");
    let e = FindingSeverity::Error;
    assert forall|f: FindingView| f.code.len() != code.len() implies !has_finding(seq![f], e, code) by {
        lemma_has_finding_single(f, e, code);
    }
    let s1 = supported_findings(string_at(p, seq!["format"@]), SUPPORTED_FORMAT@, "format"@, "unsupported_format"@);
    let s2 = supported_findings(string_at(p, seq!["kind"@]), SUPPORTED_KIND@, "kind"@, "unsupported_kind"@);
    let s3 = required_findings(p, seq!["source"@, "product"@], "missing_source_product"@);
    let s4 = required_findings(p, seq!["source"@, "workspace_id"@], "missing_workspace_id"@);
    let s5 = required_findings(p, seq!["source"@, "handoff_id"@], "missing_handoff_id"@);
    let s6 = required_findings(p, seq!["source"@, "created_by"@], "missing_created_by"@);
    let s7 = required_findings(p, seq!["source"@, "created_at"@], "missing_created_at"@);
    let s8 = required_findings(p, seq!["package"@, "package_id"@], "missing_package_id"@);
    let s9 = required_findings(p, seq!["package"@, "version"@], "missing_package_version"@);
    let s10 = hash_findings(string_at(p, seq!["package"@, "package_hash"@]));
    let s11 = non_empty_array_findings(p, seq!["package"@, "items"@], "empty_package_items"@);
    let s12 = required_findings(p, seq!["planning_scope"@, "mode"@], "missing_planning_mode"@);
    let s13 = required_findings(p, seq!["planning_scope"@, "goal"@], "missing_planning_goal"@);
    let s14 = non_empty_array_findings(p, seq!["traceability_links"@], "missing_traceability_links"@);
    assert(!has_finding(Seq::<FindingView>::empty(), e, code));
    assert(!has_finding(s1, e, code));
    assert(!has_finding(s2, e, code));
    assert(!has_finding(s3, e, code));
    assert(!has_finding(s4, e, code));
    assert(!has_finding(s5, e, code));
    assert(!has_finding(s6, e, code));
    assert(!has_finding(s7, e, code));
    assert(!has_finding(s8, e, code));
    assert(!has_finding(s9, e, code));
    assert(!has_finding(s10, e, code));
    assert(!has_finding(s11, e, code));
    assert(!has_finding(s12, e, code));
    assert(!has_finding(s13, e, code));
    assert(!has_finding(s14, e, code));
    lemma_has_finding_concat(s1, s2, e, code);
    lemma_has_finding_concat(s1 + s2, s3, e, code);
    lemma_has_finding_concat(s1 + s2 + s3, s4, e, code);
    lemma_has_finding_concat(s1 + s2 + s3 + s4, s5, e, code);
    lemma_has_finding_concat(s1 + s2 + s3 + s4 + s5, s6, e, code);
    lemma_has_finding_concat(s1 + s2 + s3 + s4 + s5 + s6, s7, e, code);
    lemma_has_finding_concat(s1 + s2 + s3 + s4 + s5 + s6 + s7, s8, e, code);
    lemma_has_finding_concat(s1 + s2 + s3 + s4 + s5 + s6 + s7 + s8, s9, e, code);
    lemma_has_finding_concat(s1 + s2 + s3 + s4 + s5 + s6 + s7 + s8 + s9, s10, e, code);
    lemma_has_finding_concat(s1 + s2 + s3 + s4 + s5 + s6 + s7 + s8 + s9 + s10, s11, e, code);
    lemma_has_finding_concat(s1 + s2 + s3 + s4 + s5 + s6 + s7 + s8 + s9 + s10 + s11, s12, e, code);
    lemma_has_finding_concat(
        s1 + s2 + s3 + s4 + s5 + s6 + s7 + s8 + s9 + s10 + s11 + s12,
        s13,
        e,
        code,
    );
    lemma_has_finding_concat(
        s1 + s2 + s3 + s4 + s5 + s6 + s7 + s8 + s9 + s10 + s11 + s12 + s13,
        s14,
        e,
        code,
    );
}

/// Where a finding of the payload comes from: the leading checks, the
/// questions, the risks, the capability candidates, or the trailing checks.
proof fn lemma_payload_finding_sources(p: JsonValue, severity: FindingSeverity, code: Seq<char>)
    ensures
        has_finding(payload_findings(p), severity, code) <==> (has_finding(
            leading_findings(p),
            severity,
            code,
        ) || has_finding(
            each(array_at(p, seq!["open_questions"@]), blocker_finding(has_waiver(p))),
            severity,
            code,
        ) || has_finding(
            each(array_at(p, seq!["risks"@]), risk_finding(has_waiver(p))),
            severity,
            code,
        ) || has_finding(
            each(array_at(p, seq!["capability_candidates"@]), candidate_finding()),
            severity,
            code,
        ) || has_finding(policy_findings(p), severity, code) || has_finding(
            outputs_findings(p),
            severity,
            code,
        )),
{
    let l = leading_findings(p);
    let q = each(array_at(p, seq!["open_questions"@]), blocker_finding(has_waiver(p)));
    let r = each(array_at(p, seq!["risks"@]), risk_finding(has_waiver(p)));
    let c = each(array_at(p, seq!["capability_candidates"@]), candidate_finding());
    let t1 = policy_findings(p);
    let t2 = outputs_findings(p);
    assert(payload_findings(p) =~= l + q + r + c + t1 + t2);
    lemma_has_finding_concat(l, q, severity, code);
    lemma_has_finding_concat(l + q, r, severity, code);
    lemma_has_finding_concat(l + q + r, c, severity, code);
    lemma_has_finding_concat(l + q + r + c, t1, severity, code);
    lemma_has_finding_concat(l + q + r + c + t1, t2, severity, code);
}

/// The trailing checks give no finding of a 24- or 32-character error code,
/// and the capability candidates give warnings only.
proof fn lemma_trailing_codes(p: JsonValue, code: Seq<char>)
    requires
        code.len() == 24 || code.len() == 32,
    ensures
        !has_finding(policy_findings(p), FindingSeverity::Error, code),
        !has_finding(outputs_findings(p), FindingSeverity::Error, code),
        !has_finding(
            each(array_at(p, seq!["capability_candidates"@]), candidate_finding()),
            FindingSeverity::Error,
            code,
        ),
{
    reveal_strlit("planning_only_required");
    reveal_strlit("execution_forbidden");
    reveal_strlit("human_approval_required");
    let e = FindingSeverity::Error;
    assert forall|f: FindingView| f.code.len() != code.len() || f.severity != e implies !has_finding(
        seq![f],
        e,
        code,
    ) by {
        lemma_has_finding_single(f, e, code);
    }
    assert(!has_finding(Seq::<FindingView>::empty(), e, code));
    let pe1 = if bool_at(p, seq!["execution_policy"@, "planning_only"@]) != Some(true) {
        seq![error_finding("planning_only_required"@, "execution_policy.planning_only must be true"@)]
    } else {
        Seq::<FindingView>::empty()
    };
    let pe2 = if bool_at(p, seq!["execution_policy"@, "allow_execution"@]) != Some(false) {
        seq![error_finding("execution_forbidden"@, "execution_policy.allow_execution must be false"@)]
    } else {
        Seq::<FindingView>::empty()
    };
    let pe3 = if bool_at(p, seq!["execution_policy"@, "requires_human_approval_for_execution"@])
        != Some(true) {
        seq![
            error_finding(
                "human_approval_required"@,
                "execution_policy.requires_human_approval_for_execution must be true"@,
            ),
        ]
    } else {
        Seq::<FindingView>::empty()
    };
    assert(policy_findings(p) == pe1 + pe2 + pe3);
    assert(!has_finding(pe1, e, code));
    assert(!has_finding(pe2, e, code));
    assert(!has_finding(pe3, e, code));
    lemma_has_finding_concat(pe1, pe2, e, code);
    lemma_has_finding_concat(pe1 + pe2, pe3, e, code);
    assert(!has_finding(outputs_findings(p), e, code));
    let cs = array_at(p, seq!["capability_candidates"@]);
    lemma_has_finding_each(cs, candidate_finding(), e, code);
    assert forall|i: int| 0 <= i < cs.len() implies !has_finding(
        candidate_finding()(#[trigger] cs[i]),
        e,
        code,
    ) by {}
}

/// The payload has no waiver whose status is `accepted` or `active`.
pub open spec fn no_accepted_or_active_waiver(p: JsonValue) -> bool {
    forall|j: int|
        0 <= j < array_at(p, seq!["active_waivers"@]).len() ==> string_at(
            #[trigger] array_at(p, seq!["active_waivers"@])[j],
            seq!["status"@],
        ) != Some("accepted"@) && string_at(
            array_at(p, seq!["active_waivers"@])[j],
            seq!["status"@],
        ) != Some("active"@)
}

/// A risk of severity `high`, `critical` or `blocking` whose status is not
/// `mitigated`, `accepted` or `waived` (or is missing), in a payload with no
/// accepted or active waiver, gives a `high_risk_without_waiver` error, and
/// the report is not valid.
pub proof fn open_high_risk_without_waiver_is_refused(p: JsonValue, i: int)
    requires
        0 <= i < array_at(p, seq!["risks"@]).len(),
        string_at(array_at(p, seq!["risks"@])[i], seq!["severity"@]) == Some("high"@)
            || string_at(array_at(p, seq!["risks"@])[i], seq!["severity"@]) == Some("critical"@)
            || string_at(array_at(p, seq!["risks"@])[i], seq!["severity"@]) == Some("blocking"@),
        string_at(array_at(p, seq!["risks"@])[i], seq!["status"@]) != Some("mitigated"@),
        string_at(array_at(p, seq!["risks"@])[i], seq!["status"@]) != Some("accepted"@),
        string_at(array_at(p, seq!["risks"@])[i], seq!["status"@]) != Some("waived"@),
        no_accepted_or_active_waiver(p),
    ensures
        has_finding(
            payload_report(p).findings,
            FindingSeverity::Error,
            "high_risk_without_waiver"@,
        ),
        !report_is_valid(payload_report(p)),
{
    let e = FindingSeverity::Error;
    let code = "high_risk_without_waiver"@;
    let rs = array_at(p, seq!["risks"@]);
    let ws = array_at(p, seq!["active_waivers"@]);
    assert(!has_waiver(p)) by {
        assert forall|j: int| 0 <= j < ws.len() implies !is_accepted_waiver(#[trigger] ws[j]) by {
            assert(string_at(ws[j], seq!["status"@]) != Some("accepted"@));
        }
    }
    let f = risk_finding(has_waiver(p));
    assert(is_open_high_risk(rs[i]));
    lemma_has_finding_single(f(rs[i])[0], e, code);
    assert(f(rs[i]) =~= seq![f(rs[i])[0]]);
    assert(has_finding(f(rs[i]), e, code));
    lemma_has_finding_each(rs, f, e, code);
    lemma_payload_finding_sources(p, e, code);
    let k = choose|k: int|
        0 <= k < payload_findings(p).len() && (#[trigger] payload_findings(p)[k]).severity == e
            && payload_findings(p)[k].code == code;
    assert(payload_report(p).findings[k].severity == e);
}

/// A `high_risk_without_waiver` error is given only when some risk has
/// severity `high`, `critical` or `blocking`, a status that is not
/// `mitigated`, `accepted` or `waived`, and no waiver is accepted or active.
pub proof fn high_risk_error_needs_open_high_risk(p: JsonValue)
    requires
        has_finding(
            payload_report(p).findings,
            FindingSeverity::Error,
            "high_risk_without_waiver"@,
        ),
    ensures
        no_accepted_or_active_waiver(p),
        exists|i: int|
            0 <= i < array_at(p, seq!["risks"@]).len() && (string_at(
                #[trigger] array_at(p, seq!["risks"@])[i],
                seq!["severity"@],
            ) == Some("high"@) || string_at(array_at(p, seq!["risks"@])[i], seq!["severity"@])
                == Some("critical"@) || string_at(array_at(p, seq!["risks"@])[i], seq!["severity"@])
                == Some("blocking"@)) && string_at(array_at(p, seq!["risks"@])[i], seq!["status"@])
                != Some("mitigated"@) && string_at(array_at(p, seq!["risks"@])[i], seq!["status"@])
                != Some("accepted"@) && string_at(array_at(p, seq!["risks"@])[i], seq!["status"@])
                != Some("waived"@),
{
    let e = FindingSeverity::Error;
    let code = "high_risk_without_waiver"@;
    reveal_strlit("high_risk_without_waiver");
    reveal_strlit("blocking_question_without_waiver");
    let waived = has_waiver(p);
    let qs = array_at(p, seq!["open_questions"@]);
    let rs = array_at(p, seq!["risks"@]);
    lemma_payload_finding_sources(p, e, code);
    lemma_leading_codes(p, code);
    lemma_trailing_codes(p, code);
    lemma_has_finding_each(qs, blocker_finding(waived), e, code);
    assert forall|i: int| 0 <= i < qs.len() implies !has_finding(
        blocker_finding(waived)(#[trigger] qs[i]),
        e,
        code,
    ) by {
        let f = blocker_finding(waived)(qs[i]);
        if is_open_blocker(qs[i]) && !waived {
            let g = error_finding(
                "blocking_question_without_waiver"@,
                "blocking open question requires an accepted active waiver"@,
            );
            assert(f == seq![g]);
            reveal_strlit("blocking_question_without_waiver");
            reveal_strlit("high_risk_without_waiver");
            assert(g.code.len() != code.len());
            lemma_has_finding_single(g, e, code);
        } else {
            assert(f == Seq::<FindingView>::empty());
        }
    }
    lemma_has_finding_each(rs, risk_finding(waived), e, code);
    let i = choose|i: int| 0 <= i < rs.len() && has_finding(risk_finding(waived)(#[trigger] rs[i]), e, code);
    assert(is_open_high_risk(rs[i]) && !waived);
    let ws = array_at(p, seq!["active_waivers"@]);
    assert forall|j: int| 0 <= j < ws.len() implies string_at(#[trigger] ws[j], seq!["status"@])
        != Some("accepted"@) && string_at(ws[j], seq!["status"@]) != Some("active"@) by {
        assert(!is_accepted_waiver(ws[j]));
    }
}

/// An open question whose impact is `blocking` and whose status is `open`,
/// in a payload with no accepted or active waiver (a `rejected` or `expired`
/// one does not count), gives a `blocking_question_without_waiver` error,
/// and the report is not valid.
pub proof fn open_blocking_question_without_waiver_is_refused(p: JsonValue, i: int)
    requires
        0 <= i < array_at(p, seq!["open_questions"@]).len(),
        string_at(array_at(p, seq!["open_questions"@])[i], seq!["impact"@]) == Some("blocking"@),
        string_at(array_at(p, seq!["open_questions"@])[i], seq!["status"@]) == Some("open"@),
        no_accepted_or_active_waiver(p),
    ensures
        has_finding(
            payload_report(p).findings,
            FindingSeverity::Error,
            "blocking_question_without_waiver"@,
        ),
        !report_is_valid(payload_report(p)),
{
    let e = FindingSeverity::Error;
    let code = "blocking_question_without_waiver"@;
    let qs = array_at(p, seq!["open_questions"@]);
    let ws = array_at(p, seq!["active_waivers"@]);
    assert(!has_waiver(p)) by {
        assert forall|j: int| 0 <= j < ws.len() implies !is_accepted_waiver(#[trigger] ws[j]) by {
            assert(string_at(ws[j], seq!["status"@]) != Some("accepted"@));
        }
    }
    let f = blocker_finding(has_waiver(p));
    assert(is_open_blocker(qs[i]));
    lemma_has_finding_single(f(qs[i])[0], e, code);
    assert(f(qs[i]) =~= seq![f(qs[i])[0]]);
    assert(has_finding(f(qs[i]), e, code));
    lemma_has_finding_each(qs, f, e, code);
    lemma_payload_finding_sources(p, e, code);
    let k = choose|k: int|
        0 <= k < payload_findings(p).len() && (#[trigger] payload_findings(p)[k]).severity == e
            && payload_findings(p)[k].code == code;
    assert(payload_report(p).findings[k].severity == e);
}

/// A `blocking_question_without_waiver` error is given only when some
/// question has impact exactly `blocking` and status exactly `open`, and no
/// waiver is accepted or active.
pub proof fn blocking_question_error_needs_open_blocking_question(p: JsonValue)
    requires
        has_finding(
            payload_report(p).findings,
            FindingSeverity::Error,
            "blocking_question_without_waiver"@,
        ),
    ensures
        no_accepted_or_active_waiver(p),
        exists|i: int|
            0 <= i < array_at(p, seq!["open_questions"@]).len() && string_at(
                #[trigger] array_at(p, seq!["open_questions"@])[i],
                seq!["impact"@],
            ) == Some("blocking"@) && string_at(
                array_at(p, seq!["open_questions"@])[i],
                seq!["status"@],
            ) == Some("open"@),
{
    let e = FindingSeverity::Error;
    let code = "blocking_question_without_waiver"@;
    reveal_strlit("high_risk_without_waiver");
    reveal_strlit("blocking_question_without_waiver");
    let waived = has_waiver(p);
    let qs = array_at(p, seq!["open_questions"@]);
    let rs = array_at(p, seq!["risks"@]);
    lemma_payload_finding_sources(p, e, code);
    lemma_leading_codes(p, code);
    lemma_trailing_codes(p, code);
    lemma_has_finding_each(rs, risk_finding(waived), e, code);
    assert forall|i: int| 0 <= i < rs.len() implies !has_finding(
        risk_finding(waived)(#[trigger] rs[i]),
        e,
        code,
    ) by {
        let f = risk_finding(waived)(rs[i]);
        if is_open_high_risk(rs[i]) && !waived {
            let g = error_finding(
                "high_risk_without_waiver"@,
                "high/critical open risk requires mitigation or an accepted active waiver"@,
            );
            assert(f == seq![g]);
            reveal_strlit("blocking_question_without_waiver");
            reveal_strlit("high_risk_without_waiver");
            assert(g.code.len() != code.len());
            lemma_has_finding_single(g, e, code);
        } else {
            assert(f == Seq::<FindingView>::empty());
        }
    }
    lemma_has_finding_each(qs, blocker_finding(waived), e, code);
    let i = choose|i: int| 0 <= i < qs.len() && has_finding(blocker_finding(waived)(#[trigger] qs[i]), e, code);
    assert(is_open_blocker(qs[i]) && !waived);
    let ws = array_at(p, seq!["active_waivers"@]);
    assert forall|j: int| 0 <= j < ws.len() implies string_at(#[trigger] ws[j], seq!["status"@])
        != Some("accepted"@) && string_at(ws[j], seq!["status"@]) != Some("active"@) by {
        assert(!is_accepted_waiver(ws[j]));
    }
}

/// The gates of a dry-run plan, in order: the six base gates, then the
/// refusal gate exactly when the report is invalid.
pub proof fn dry_run_gates_are_listed_in_order(r: ReportView)
    ensures
        report_is_valid(r) ==> dry_run_of(r).gates == seq![
            "package_approved"@,
            "planning_only_enforced"@,
            "traceability_present"@,
            "blocking_questions_waived_or_absent"@,
            "high_risks_waived_or_absent"@,
            "shared_capability_review_requested"@,
        ],
        !report_is_valid(r) ==> dry_run_of(r).gates == seq![
            "package_approved"@,
            "planning_only_enforced"@,
            "traceability_present"@,
            "blocking_questions_waived_or_absent"@,
            "high_risks_waived_or_absent"@,
            "shared_capability_review_requested"@,
            "refuse_until_validation_clean"@,
        ],
        !report_is_valid(r) ==> dry_run_of(r).tasks.len() == 0,
{
    assert(base_gates().push("refuse_until_validation_clean"@) =~= seq![
        "package_approved"@,
        "planning_only_enforced"@,
        "traceability_present"@,
        "blocking_questions_waived_or_absent"@,
        "high_risks_waived_or_absent"@,
        "shared_capability_review_requested"@,
        "refuse_until_validation_clean"@,
    ]);
}

/// A report is valid exactly when none of its findings has severity
/// `Error`: warnings never make it invalid.
pub proof fn valid_means_no_error_finding(r: ReportView)
    ensures
        report_is_valid(r) <==> forall|i: int|
            0 <= i < r.findings.len() ==> (#[trigger] r.findings[i]).severity
                != FindingSeverity::Error,
{
}

/// The labels of the severities.
pub proof fn severity_labels()
    ensures
        severity_label(FindingSeverity::Error) == "error"@,
        severity_label(FindingSeverity::Warning) == "warning"@,
{
}

/// The tasks of a valid report's plan, one per requested output in order:
/// the five known outputs map to their planning tasks, any other output to
/// a task that names it.
pub proof fn dry_run_tasks_follow_requested_outputs(r: ReportView)
    requires
        report_is_valid(r),
    ensures
        dry_run_of(r).tasks.len() == r.requested_outputs.len(),
        forall|i: int|
            0 <= i < r.requested_outputs.len() ==> #[trigger] dry_run_of(r).tasks[i] == (if r.requested_outputs[i]
                == "implementation_plan"@ {
                "draft implementation plan"@
            } else if r.requested_outputs[i] == "task_breakdown"@ {
                "derive task breakdown"@
            } else if r.requested_outputs[i] == "risk_review"@ {
                "review risks and waivers"@
            } else if r.requested_outputs[i] == "test_plan"@ {
                "derive acceptance and contract test plan"@
            } else if r.requested_outputs[i] == "shared_capability_extraction_review"@ {
                "review shared capability extraction"@
            } else {
                "produce requested output `"@ + r.requested_outputs[i] + "`"@
            }),
{
}

} // verus!
