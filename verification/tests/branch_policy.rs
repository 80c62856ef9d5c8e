use aom::branch_policy::{AttemptBranch, BranchPolicy, BranchPolicyError};

#[test]
fn attempt_branch_is_deterministic_and_namespaced() {
    let branch = AttemptBranch::new("run-20260701", 42, 2).unwrap();
    assert_eq!(branch.as_str(), "bolt/run/run-20260701/issue-42/attempt-2");
    BranchPolicy::bolt_default()
        .validate_create(branch.as_str())
        .unwrap();
}

#[test]
fn attempt_zero_is_rejected() {
    let err = AttemptBranch::new("run", 1, 0).unwrap_err();
    assert!(err.to_string().contains("attempt"));
}

#[test]
fn unsafe_run_id_is_rejected() {
    let err = AttemptBranch::new("../main", 1, 1).unwrap_err();
    assert!(err.to_string().contains("unsafe run id"));
}

#[test]
fn allows_create_push_delete_inside_owned_namespace() {
    let p = BranchPolicy::bolt_default();
    for op in [
        BranchPolicy::validate_create,
        BranchPolicy::validate_push,
        BranchPolicy::validate_delete,
    ] {
        op(&p, "bolt/run/r/issue-1/attempt-1").unwrap();
    }
}

#[test]
fn refuses_protected_branches() {
    let p = BranchPolicy::bolt_default();
    assert!(matches!(
        p.validate_delete("main"),
        Err(BranchPolicyError::ProtectedBranch(_))
    ));
}

#[test]
fn refuses_human_branch_outside_namespace() {
    let p = BranchPolicy::bolt_default();
    assert!(matches!(
        p.validate_push("feature/human-work"),
        Err(BranchPolicyError::OutsideOwnedNamespace { .. })
    ));
}

#[test]
fn refuses_unsafe_ref_syntax() {
    let p = BranchPolicy::bolt_default();
    for branch in [
        "bolt//double",
        "bolt/../main",
        "refs/heads/bolt/x",
        "bolt/x.lock",
        "bolt/x@{1}",
        "bolt/x y",
    ] {
        assert!(
            matches!(
                p.validate_create(branch),
                Err(BranchPolicyError::InvalidBranch(_))
            ),
            "{branch} should be invalid"
        );
    }
}

// ---------------------------------------------------------------------------
// Further cases
// ---------------------------------------------------------------------------

fn invalid_reason(r: Result<(), BranchPolicyError>) -> String {
    match r {
        Err(BranchPolicyError::InvalidBranch(reason)) => reason,
        other => panic!("expected an invalid branch, got {other:?}"),
    }
}

#[test]
fn syntax_reasons_come_in_order() {
    let p = BranchPolicy::bolt_default();
    assert_eq!(invalid_reason(p.validate_create("")), "branch must not be empty");
    let long = format!("bolt/{}", "a".repeat(176));
    assert_eq!(long.len(), 181);
    assert_eq!(invalid_reason(p.validate_create(&long)), "branch is too long");
    let at_limit = format!("bolt/{}", "a".repeat(175));
    assert!(p.validate_create(&at_limit).is_ok());
    assert_eq!(
        invalid_reason(p.validate_create("/bolt/x")),
        "branch must not start or end with slash"
    );
    assert_eq!(
        invalid_reason(p.validate_create("bolt/x/")),
        "branch must not start or end with slash"
    );
    assert_eq!(
        invalid_reason(p.validate_create("bolt/x@{1}")),
        "branch contains forbidden git ref sequence"
    );
    assert_eq!(
        invalid_reason(p.validate_create("bolt/x.lock")),
        "branch has forbidden git ref suffix"
    );
    assert_eq!(
        invalid_reason(p.validate_create("bolt/x.")),
        "branch has forbidden git ref suffix"
    );
    assert_eq!(
        invalid_reason(p.validate_create("refs/heads/x")),
        "full refs are not accepted; pass a branch name"
    );
    assert_eq!(
        invalid_reason(p.validate_create("bolt/x y")),
        "branch contains unsafe characters"
    );
}

#[test]
fn length_limit_counts_bytes() {
    let p = BranchPolicy::bolt_default();
    // 93 characters, of which 88 take two bytes: 181 bytes in all
    let wide = format!("bolt/{}", "é".repeat(88));
    assert!(wide.chars().count() < 180);
    assert_eq!(invalid_reason(p.validate_create(&wide)), "branch is too long");
    let narrow = format!("bolt/{}", "é".repeat(60));
    assert_eq!(
        invalid_reason(p.validate_create(&narrow)),
        "branch contains unsafe characters"
    );
}

#[test]
fn refusal_messages() {
    let p = BranchPolicy::bolt_default();
    assert_eq!(
        p.validate_delete("main").unwrap_err().to_string(),
        "protected branch is not agent-owned: main"
    );
    assert_eq!(
        p.validate_push("feature/human-work").unwrap_err().to_string(),
        "branch `feature/human-work` is outside the agent-owned namespace(s): bolt/"
    );
    let two = BranchPolicy::new(vec!["bolt/".to_string(), "bot/".to_string()], vec![]);
    assert_eq!(
        two.validate_push("x").unwrap_err(),
        BranchPolicyError::OutsideOwnedNamespace {
            branch: "x".to_string(),
            prefixes: vec!["bolt/".to_string(), "bot/".to_string()],
        }
    );
    assert_eq!(
        two.validate_push("x").unwrap_err().to_string(),
        "branch `x` is outside the agent-owned namespace(s): bolt/, bot/"
    );
    assert_eq!(
        p.validate_create("").unwrap_err().to_string(),
        "invalid branch: branch must not be empty"
    );
}

#[test]
fn run_id_is_trimmed_and_checked() {
    let b = AttemptBranch::new("  run-1 \t", 7, 1).unwrap();
    assert_eq!(b.as_str(), "bolt/run/run-1/issue-7/attempt-1");
    let b = AttemptBranch::new("\u{3000}r_2.x\u{a0}", 0, u32::MAX).unwrap();
    assert_eq!(b.as_str(), "bolt/run/r_2.x/issue-0/attempt-4294967295");
    let b = AttemptBranch::new("r", u64::MAX, 10).unwrap();
    assert_eq!(b.as_str(), "bolt/run/r/issue-18446744073709551615/attempt-10");
    assert_eq!(
        AttemptBranch::new("   ", 1, 1).unwrap_err(),
        BranchPolicyError::InvalidBranch("run id must not be empty".to_string())
    );
    assert_eq!(
        AttemptBranch::new(" a/b ", 1, 1).unwrap_err(),
        BranchPolicyError::InvalidBranch("unsafe run id segment `a/b`".to_string())
    );
    // the attempt number is checked before the run id
    assert_eq!(
        AttemptBranch::new("", 1, 0).unwrap_err(),
        BranchPolicyError::InvalidBranch("attempt must be >= 1".to_string())
    );
}

#[test]
fn attempt_branches_are_owned_by_default_policy() {
    let p = BranchPolicy::bolt_default();
    for (run, issue, attempt) in [("r", 1, 1), ("a.b", 99, 3), ("X_y-9", 0, 12)] {
        let b = AttemptBranch::new(run, issue, attempt).unwrap();
        assert!(p.is_owned(b.as_str()));
    }
    // a run id holding `..` gives a branch that the policy refuses
    let b = AttemptBranch::new("a..b", 1, 1).unwrap();
    assert!(!p.is_owned(b.as_str()));
}

#[test]
fn protected_branches_are_never_owned() {
    let p = BranchPolicy::new(vec!["".to_string()], vec!["main".to_string(), "bolt/keep".to_string()]);
    assert!(!p.is_owned("main"));
    assert!(!p.is_owned("bolt/keep"));
    assert!(p.is_owned("bolt/other"));
    let d = BranchPolicy::bolt_default();
    for name in ["main", "master", "develop", "release"] {
        assert!(matches!(
            d.validate_create(name),
            Err(BranchPolicyError::ProtectedBranch(b)) if b == name
        ));
        assert!(!d.is_owned(name));
    }
}

#[test]
fn create_push_delete_and_is_owned_agree() {
    let p = BranchPolicy::bolt_default();
    for branch in ["bolt/a", "main", "feature/x", "bolt//x", "bolt/ok-1.2_3"] {
        let c = p.validate_create(branch);
        assert_eq!(c, p.validate_push(branch));
        assert_eq!(c, p.validate_delete(branch));
        assert_eq!(c.is_ok(), p.is_owned(branch));
    }
}

#[test]
fn sanitized_run_id_is_stable() {
    for run in ["  run-1 ", "a.b", "\u{2003}x_y\t"] {
        let once = AttemptBranch::new(run, 3, 4).unwrap();
        let segment = once.as_str()["bolt/run/".len()..].split('/').next().unwrap().to_string();
        assert_eq!(segment, run.trim());
        let twice = AttemptBranch::new(&segment, 3, 4).unwrap();
        assert_eq!(once, twice);
    }
}

#[test]
fn distinct_tuples_give_distinct_names() {
    let names: Vec<String> = [("r", 1, 1), ("r", 11, 1), ("r", 1, 11), ("r1", 1, 1), (" r ", 2, 1)]
        .iter()
        .map(|(r, i, a)| AttemptBranch::new(r, *i, *a).unwrap().as_str().to_string())
        .collect();
    for i in 0..names.len() {
        for j in 0..names.len() {
            assert_eq!(i == j, names[i] == names[j], "{} {}", names[i], names[j]);
        }
    }
    // tuples that differ only by white space around the run id share a name
    assert_eq!(AttemptBranch::new(" r ", 1, 1).unwrap(), AttemptBranch::new("r", 1, 1).unwrap());
}

#[test]
fn policy_is_monotone_and_fails_closed() {
    let none = BranchPolicy::new(vec![], vec![]);
    for b in ["bolt/x", "main", "anything"] {
        assert!(!none.is_owned(b));
    }
    let one = BranchPolicy::new(vec!["bolt/".to_string()], vec![]);
    let more = BranchPolicy::new(vec!["bolt/".to_string(), "bot/".to_string()], vec![]);
    let guarded = BranchPolicy::new(vec!["bolt/".to_string()], vec!["bolt/x".to_string()]);
    for b in ["bolt/x", "bot/y", "feature/z", "bolt/y"] {
        if one.is_owned(b) {
            assert!(more.is_owned(b));
        }
        if guarded.is_owned(b) {
            assert!(one.is_owned(b));
        }
    }
    assert!(more.is_owned("bot/y") && !one.is_owned("bot/y"));
    assert!(one.is_owned("bolt/x") && !guarded.is_owned("bolt/x"));
}
