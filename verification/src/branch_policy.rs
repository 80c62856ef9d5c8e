//! Branch ownership policy for bounded repository autonomy.
//!
//! The agent may own branches inside an explicit namespace (for example
//! `bolt/run/<run-id>/...`) but must never own the repository, protected
//! branches, settings, or secrets.
use vstd::prelude::*;

use crate::text::{
    chars_of, char_is_ascii_alphanumeric, contains, contains_str, decimal, decimal_string,
    ends_with, is_ascii_alphanumeric, is_prefix, is_suffix, join, join_strings, starts_with,
    str_eq, trim, trim_str, occurs_at, lemma_decimal_digits, lemma_decimal_injective,
    lemma_leading_ws_exact, lemma_trailing_ws_exact,
};

verus! {

/// A candidate branch owned by the agent for one bounded attempt.
#[derive(Debug, Clone, PartialEq, Eq)]
pub struct AttemptBranch {
    name: String,
}

impl View for AttemptBranch {
    type V = Seq<char>;

    closed spec fn view(&self) -> Seq<char> {
        self.name@
    }
}

/// Policy for branch create/push/delete operations.
#[derive(Debug, Clone)]
pub struct BranchPolicy {
    owned_prefixes: Vec<String>,
    protected_branches: Vec<String>,
}

/// What a policy holds: the owned prefixes and the protected branch names.
pub struct PolicyView {
    pub owned_prefixes: Seq<Seq<char>>,
    pub protected_branches: Seq<Seq<char>>,
}

/// The contents of a list of strings.
pub open spec fn strings_view(v: Seq<String>) -> Seq<Seq<char>> {
    v.map_values(|s: String| s@)
}

impl View for BranchPolicy {
    type V = PolicyView;

    closed spec fn view(&self) -> PolicyView {
        PolicyView {
            owned_prefixes: strings_view(self.owned_prefixes@),
            protected_branches: strings_view(self.protected_branches@),
        }
    }
}

#[derive(Debug, Clone, PartialEq, Eq)]
pub enum BranchPolicyError {
    InvalidBranch(String),
    ProtectedBranch(String),
    OutsideOwnedNamespace { branch: String, prefixes: Vec<String> },
}

/// What a refusal holds, as plain text.
pub enum RefusalView {
    InvalidBranch(Seq<char>),
    ProtectedBranch(Seq<char>),
    OutsideOwnedNamespace { branch: Seq<char>, prefixes: Seq<Seq<char>> },
}

impl View for BranchPolicyError {
    type V = RefusalView;

    open spec fn view(&self) -> RefusalView {
        match self {
            BranchPolicyError::InvalidBranch(reason) => RefusalView::InvalidBranch(reason@),
            BranchPolicyError::ProtectedBranch(branch) => RefusalView::ProtectedBranch(branch@),
            BranchPolicyError::OutsideOwnedNamespace { branch, prefixes } => {
                RefusalView::OutsideOwnedNamespace {
                    branch: branch@,
                    prefixes: strings_view(prefixes@),
                }
            },
        }
    }
}

/// A decision of the policy, as plain values.
pub open spec fn decision_view(r: Result<(), BranchPolicyError>) -> Result<(), RefusalView> {
    match r {
        Ok(()) => Ok(()),
        Err(e) => Err(e@),
    }
}

/// The text of a refusal, as its `Display` renders it.
pub open spec fn refusal_text(e: RefusalView) -> Seq<char> {
    match e {
        RefusalView::InvalidBranch(reason) => "invalid branch: "@ + reason,
        RefusalView::ProtectedBranch(branch) => "protected branch is not agent-owned: "@ + branch,
        RefusalView::OutsideOwnedNamespace { branch, prefixes } => "branch `"@ + branch
            + "` is outside the agent-owned namespace(s): "@ + join(prefixes, ", "@),
    }
}

/// Characters that a branch name may hold.
pub open spec fn is_branch_char(c: char) -> bool {
    is_ascii_alphanumeric(c) || c == '/' || c == '-' || c == '_' || c == '.'
}

/// Characters that a run id segment may hold.
pub open spec fn is_segment_char(c: char) -> bool {
    is_ascii_alphanumeric(c) || c == '-' || c == '_' || c == '.'
}

/// Why `b` is not an acceptable branch name, checked in this order; `None`
/// when it is one. The length limit counts the bytes of its UTF-8 encoding.
pub open spec fn branch_syntax_error(b: Seq<char>) -> Option<Seq<char>> {
    if b.len() == 0 {
        Some("branch must not be empty"@)
    } else if vstd::utf8::encode_utf8(b).len() > 180 {
        Some("branch is too long"@)
    } else if b[0] == '/' || b.last() == '/' {
        Some("branch must not start or end with slash"@)
    } else if contains(b, "//"@) || contains(b, ".."@) || contains(b, "@{"@) {
        Some("branch contains forbidden git ref sequence"@)
    } else if is_suffix(".lock"@, b) || b.last() == '.' {
        Some("branch has forbidden git ref suffix"@)
    } else if is_prefix("refs/"@, b) {
        Some("full refs are not accepted; pass a branch name"@)
    } else if exists|i: int| 0 <= i < b.len() && !is_branch_char(#[trigger] b[i]) {
        Some("branch contains unsafe characters"@)
    } else {
        None
    }
}

/// `b` starts with one of `prefixes`.
pub open spec fn has_owned_prefix(prefixes: Seq<Seq<char>>, b: Seq<char>) -> bool {
    exists|i: int| 0 <= i < prefixes.len() && is_prefix(#[trigger] prefixes[i], b)
}

/// The decision of policy `p` on an operation on branch `b`: syntax first,
/// then protection, then the owned namespace.
pub open spec fn owned_branch_decision(p: PolicyView, b: Seq<char>) -> Result<(), RefusalView> {
    match branch_syntax_error(b) {
        Some(reason) => Err(RefusalView::InvalidBranch(reason)),
        None => if p.protected_branches.contains(b) {
            Err(RefusalView::ProtectedBranch(b))
        } else if !has_owned_prefix(p.owned_prefixes, b) {
            Err(RefusalView::OutsideOwnedNamespace { branch: b, prefixes: p.owned_prefixes })
        } else {
            Ok(())
        },
    }
}

/// The run id segment made of `input`: trimmed, non-empty, and made of
/// ASCII letters, digits, `-`, `_` and `.` only.
pub open spec fn segment_decision(input: Seq<char>) -> Result<Seq<char>, RefusalView> {
    let t = trim(input);
    if t.len() == 0 {
        Err(RefusalView::InvalidBranch("run id must not be empty"@))
    } else if exists|i: int| 0 <= i < t.len() && !is_segment_char(#[trigger] t[i]) {
        Err(RefusalView::InvalidBranch("unsafe run id segment `"@ + t + "`"@))
    } else {
        Ok(t)
    }
}

/// The branch name for one run/issue/attempt tuple.
pub open spec fn attempt_branch_name(segment: Seq<char>, issue: u64, attempt: u32) -> Seq<char> {
    "bolt/run/"@ + segment + "/issue-"@ + decimal(issue as nat) + "/attempt-"@ + decimal(
        attempt as nat,
    )
}

/// What `AttemptBranch::new` gives for these arguments.
pub open spec fn attempt_branch_decision(run_id: Seq<char>, issue: u64, attempt: u32) -> Result<
    Seq<char>,
    RefusalView,
> {
    if attempt == 0 {
        Err(RefusalView::InvalidBranch("attempt must be >= 1"@))
    } else {
        match segment_decision(run_id) {
            Ok(segment) => Ok(attempt_branch_name(segment, issue, attempt)),
            Err(e) => Err(e),
        }
    }
}

impl BranchPolicyError {
    /// The message of this refusal (what `Display` shows).
    pub fn to_string(&self) -> (r: String)
        ensures
            r@ == refusal_text(self@),
    {
        match self {
            BranchPolicyError::InvalidBranch(reason) => {
                let mut s = String::from_str("invalid branch: ");
                s.append(reason.as_str());
                s
            },
            BranchPolicyError::ProtectedBranch(branch) => {
                let mut s = String::from_str("protected branch is not agent-owned: ");
                s.append(branch.as_str());
                s
            },
            BranchPolicyError::OutsideOwnedNamespace { branch, prefixes } => {
                let mut s = String::from_str("branch `");
                s.append(branch.as_str());
                s.append("` is outside the agent-owned namespace(s): ");
                let joined = join_strings(prefixes, ", ");
                s.append(joined.as_str());
                s
            },
        }
    }
}

fn invalid(reason: &str) -> (e: BranchPolicyError)
    ensures
        e@ == RefusalView::InvalidBranch(reason@),
{
    BranchPolicyError::InvalidBranch(String::from_str(reason))
}

/// The run id trimmed, or why it cannot be a branch segment.
fn sanitize_segment(input: &str) -> (r: Result<String, BranchPolicyError>)
    ensures
        match r {
            Ok(s) => segment_decision(input@) == Ok::<Seq<char>, RefusalView>(s@),
            Err(e) => segment_decision(input@) == Err::<Seq<char>, RefusalView>(e@),
        },
{
    let trimmed = trim_str(input);
    let v = chars_of(trimmed.as_str());
    if v.len() == 0 {
        return Err(invalid("run id must not be empty"));
    }
    let mut i: usize = 0;
    while i < v.len()
        invariant
            v@ == trim(input@),
            trimmed@ == trim(input@),
            i <= v.len(),
            forall|k: int| 0 <= k < i ==> is_segment_char(#[trigger] v@[k]),
        decreases v.len() - i,
    {
        let c = v[i];
        if !(char_is_ascii_alphanumeric(c) || c == '-' || c == '_' || c == '.') {
            assert(!is_segment_char(v@[i as int]));
            let mut msg = String::from_str("unsafe run id segment `");
            msg.append(trimmed.as_str());
            msg.append("`");
            return Err(BranchPolicyError::InvalidBranch(msg));
        }
        i = i + 1;
    }
    Ok(trimmed)
}

/// Whether `b` is an acceptable branch name, or why not.
fn validate_branch_syntax(branch: &str) -> (r: Result<(), BranchPolicyError>)
    ensures
        match r {
            Ok(()) => branch_syntax_error(branch@) is None,
            Err(e) => branch_syntax_error(branch@) matches Some(reason) && e@
                == RefusalView::InvalidBranch(reason),
        },
{
    let v = chars_of(branch);
    if v.len() == 0 {
        return Err(invalid("branch must not be empty"));
    }
    if branch.as_bytes().len() > 180 {
        return Err(invalid("branch is too long"));
    }
    if v[0] == '/' || v[v.len() - 1] == '/' {
        return Err(invalid("branch must not start or end with slash"));
    }
    if contains_str(branch, "//") || contains_str(branch, "..") || contains_str(branch, "@{") {
        return Err(invalid("branch contains forbidden git ref sequence"));
    }
    if ends_with(branch, ".lock") || v[v.len() - 1] == '.' {
        return Err(invalid("branch has forbidden git ref suffix"));
    }
    if starts_with(branch, "refs/") {
        return Err(invalid("full refs are not accepted; pass a branch name"));
    }
    let mut i: usize = 0;
    while i < v.len()
        invariant
            v@ == branch@,
            v.len() > 0,
            vstd::utf8::encode_utf8(branch@).len() <= 180,
            !(v@[0] == '/' || v@.last() == '/'),
            !(contains(branch@, "//"@) || contains(branch@, ".."@) || contains(branch@, "@{"@)),
            !(is_suffix(".lock"@, branch@) || v@.last() == '.'),
            !is_prefix("refs/"@, branch@),
            i <= v.len(),
            forall|k: int| 0 <= k < i ==> is_branch_char(#[trigger] v@[k]),
        decreases v.len() - i,
    {
        let c = v[i];
        if !(char_is_ascii_alphanumeric(c) || c == '/' || c == '-' || c == '_' || c == '.') {
            assert(!is_branch_char(branch@[i as int]));
            return Err(invalid("branch contains unsafe characters"));
        }
        i = i + 1;
    }
    Ok(())
}

impl AttemptBranch {
    /// Build a deterministic branch for one run/issue/attempt tuple.
    pub fn new(run_id: &str, issue: u64, attempt: u32) -> (r: Result<Self, BranchPolicyError>)
        ensures
            match r {
                Ok(b) => attempt_branch_decision(run_id@, issue, attempt) == Ok::<
                    Seq<char>,
                    RefusalView,
                >(b@),
                Err(e) => attempt_branch_decision(run_id@, issue, attempt) == Err::<
                    Seq<char>,
                    RefusalView,
                >(e@),
            },
    {
        if attempt == 0 {
            return Err(invalid("attempt must be >= 1"));
        }
        let run = match sanitize_segment(run_id) {
            Ok(run) => run,
            Err(e) => return Err(e),
        };
        let mut name = String::from_str("bolt/run/");
        name.append(run.as_str());
        name.append("/issue-");
        let issue_text = decimal_string(issue);
        name.append(issue_text.as_str());
        name.append("/attempt-");
        let attempt_text = decimal_string(attempt as u64);
        name.append(attempt_text.as_str());
        Ok(AttemptBranch { name })
    }

    pub fn as_str(&self) -> (r: &str)
        ensures
            r@ == self@,
    {
        self.name.as_str()
    }
}

impl BranchPolicy {
    /// Default policy for Bolt-owned branches.
    pub fn bolt_default() -> (p: Self)
        ensures
            p@ == bolt_default_view(),
    {
        let mut owned_prefixes: Vec<String> = Vec::new();
        owned_prefixes.push(String::from_str("bolt/"));
        let mut protected_branches: Vec<String> = Vec::new();
        protected_branches.push(String::from_str("main"));
        protected_branches.push(String::from_str("master"));
        protected_branches.push(String::from_str("develop"));
        protected_branches.push(String::from_str("release"));
        let p = Self { owned_prefixes, protected_branches };
        assert(p@.owned_prefixes =~= seq!["bolt/"@]);
        assert(p@.protected_branches =~= seq!["main"@, "master"@, "develop"@, "release"@]);
        p
    }

    pub fn new(owned_prefixes: Vec<String>, protected_branches: Vec<String>) -> (p: Self)
        ensures
            p@.owned_prefixes == strings_view(owned_prefixes@),
            p@.protected_branches == strings_view(protected_branches@),
    {
        Self { owned_prefixes, protected_branches }
    }

    pub fn validate_create(&self, branch: &str) -> (r: Result<(), BranchPolicyError>)
        ensures
            decision_view(r) == owned_branch_decision(self@, branch@),
    {
        self.validate_owned_branch(branch)
    }

    pub fn validate_push(&self, branch: &str) -> (r: Result<(), BranchPolicyError>)
        ensures
            decision_view(r) == owned_branch_decision(self@, branch@),
    {
        self.validate_owned_branch(branch)
    }

    /// Deletion is intentionally allowed only for agent-owned branches. Repo
    /// deletion, protected branch deletion, and human branch deletion are outside
    /// this policy and must be impossible with the token/settings layer too.
    pub fn validate_delete(&self, branch: &str) -> (r: Result<(), BranchPolicyError>)
        ensures
            decision_view(r) == owned_branch_decision(self@, branch@),
    {
        self.validate_owned_branch(branch)
    }

    pub fn is_owned(&self, branch: &str) -> (r: bool)
        ensures
            r == (owned_branch_decision(self@, branch@) is Ok),
    {
        self.validate_owned_branch(branch).is_ok()
    }

    fn validate_owned_branch(&self, branch: &str) -> (r: Result<(), BranchPolicyError>)
        ensures
            decision_view(r) == owned_branch_decision(self@, branch@),
    {
        match validate_branch_syntax(branch) {
            Ok(()) => {},
            Err(e) => return Err(e),
        }
        let ghost pv = self@;
        let mut i: usize = 0;
        while i < self.protected_branches.len()
            invariant
                pv == self@,
                branch_syntax_error(branch@) is None,
                i <= self.protected_branches.len(),
                forall|k: int| 0 <= k < i ==> pv.protected_branches[k] != branch@,
            decreases self.protected_branches.len() - i,
        {
            if str_eq(self.protected_branches[i].as_str(), branch) {
                assert(pv.protected_branches[i as int] == branch@);
                return Err(BranchPolicyError::ProtectedBranch(String::from_str(branch)));
            }
            i = i + 1;
        }
        assert(!pv.protected_branches.contains(branch@));
        let mut j: usize = 0;
        while j < self.owned_prefixes.len()
            invariant
                pv == self@,
                branch_syntax_error(branch@) is None,
                !pv.protected_branches.contains(branch@),
                j <= self.owned_prefixes.len(),
                forall|k: int| 0 <= k < j ==> !is_prefix(#[trigger] pv.owned_prefixes[k], branch@),
            decreases self.owned_prefixes.len() - j,
        {
            if starts_with(branch, self.owned_prefixes[j].as_str()) {
                assert(is_prefix(pv.owned_prefixes[j as int], branch@));
                return Ok(());
            }
            j = j + 1;
        }
        Err(
            BranchPolicyError::OutsideOwnedNamespace {
                branch: String::from_str(branch),
                prefixes: self.owned_prefixes.clone(),
            },
        )
    }
}

} // verus!

verus! {

/// The contents of `BranchPolicy::bolt_default()`.
pub open spec fn bolt_default_view() -> PolicyView {
    PolicyView {
        owned_prefixes: seq!["bolt/"@],
        protected_branches: seq!["main"@, "master"@, "develop"@, "release"@],
    }
}

/// `x` directly followed by `y` occurs in `s`.
pub open spec fn adjacent(s: Seq<char>, x: char, y: char) -> bool {
    exists|i: int| 0 <= i && i + 1 < s.len() && s[i] == x && #[trigger] s[i + 1] == y
}

/// Every character of `s` satisfies `f`.
pub open spec fn all_chars(s: Seq<char>, f: spec_fn(char) -> bool) -> bool {
    forall|i: int| 0 <= i < s.len() ==> f(#[trigger] s[i])
}

proof fn lemma_two_char_pattern(s: Seq<char>, p: Seq<char>)
    requires
        p.len() == 2,
    ensures
        contains(s, p) <==> adjacent(s, p[0], p[1]),
{
    if contains(s, p) {
        let i = choose|i: int| occurs_at(s, p, i);
        assert(s.subrange(i, i + 2)[0] == p[0]);
        assert(s.subrange(i, i + 2)[1] == p[1]);
        assert(s[i + 1] == p[1]);
    }
    if adjacent(s, p[0], p[1]) {
        let i = choose|i: int| 0 <= i && i + 1 < s.len() && s[i] == p[0] && #[trigger] s[i + 1] == p[1];
        assert(s.subrange(i, i + 2) =~= p);
        assert(occurs_at(s, p, i));
    }
}

proof fn lemma_all_chars_concat(s1: Seq<char>, s2: Seq<char>, f: spec_fn(char) -> bool)
    requires
        all_chars(s1, f),
        all_chars(s2, f),
    ensures
        all_chars(s1 + s2, f),
{
    assert forall|i: int| 0 <= i < (s1 + s2).len() implies f(#[trigger] (s1 + s2)[i]) by {
        if i < s1.len() {
            assert((s1 + s2)[i] == s1[i]);
        } else {
            assert((s1 + s2)[i] == s2[i - s1.len()]);
        }
    }
}

proof fn lemma_not_adjacent_concat(s1: Seq<char>, s2: Seq<char>, x: char, y: char)
    requires
        !adjacent(s1, x, y),
        !adjacent(s2, x, y),
        s1.len() > 0 && s2.len() > 0 ==> !(s1.last() == x && s2[0] == y),
    ensures
        !adjacent(s1 + s2, x, y),
{
    let s = s1 + s2;
    assert forall|i: int| 0 <= i && i + 1 < s.len() implies !(s[i] == x && #[trigger] s[i + 1]
        == y) by {
        if i + 1 < s1.len() {
            assert(s[i] == s1[i] && s[i + 1] == s1[i + 1]);
            if s1[i] == x && s1[i + 1] == y {
                assert(adjacent(s1, x, y));
            }
        } else if i >= s1.len() {
            let j = i - s1.len();
            assert(s[i] == s2[j] && s[i + 1] == s2[j + 1]);
            if s2[j] == x && s2[j + 1] == y {
                assert(adjacent(s2, x, y));
            }
        } else {
            assert(s[i] == s1.last() && s[i + 1] == s2[0]);
        }
    }
}

proof fn lemma_no_char_not_adjacent(s: Seq<char>, x: char, y: char)
    requires
        forall|i: int| 0 <= i < s.len() ==> #[trigger] s[i] != x,
    ensures
        !adjacent(s, x, y),
{
    assert forall|i: int| 0 <= i && i + 1 < s.len() implies !(s[i] == x && #[trigger] s[i + 1]
        == y) by {
        assert(s[i] != x);
    }
}

/// A branch made by `AttemptBranch::new` lies in the namespace of the default
/// policy and passes its checks, unless the run id holds `..` or the name
/// exceeds the length limit.
pub proof fn attempt_branch_owned_by_default(run_id: Seq<char>, issue: u64, attempt: u32)
    requires
        attempt_branch_decision(run_id, issue, attempt) is Ok,
        !contains(trim(run_id), ".."@),
        attempt_branch_decision(run_id, issue, attempt)->Ok_0.len() <= 180,
    ensures
        owned_branch_decision(bolt_default_view(), attempt_branch_decision(run_id, issue, attempt)->Ok_0) is Ok,
{
    let t = trim(run_id);
    let a = "bolt/run/"@;
    let b = "/issue-"@;
    let c = "/attempt-"@;
    let d1 = decimal(issue as nat);
    let d2 = decimal(attempt as nat);
    let name = a + t + b + d1 + c + d2;
    assert(attempt_branch_decision(run_id, issue, attempt)->Ok_0 == name);
    reveal_strlit("bolt/run/");
    reveal_strlit("/issue-");
    reveal_strlit("/attempt-");
    reveal_strlit("//");
    reveal_strlit("..");
    reveal_strlit("@{");
    reveal_strlit(".lock");
    reveal_strlit("refs/");
    reveal_strlit("bolt/");
    reveal_strlit("main");
    reveal_strlit("master");
    reveal_strlit("develop");
    reveal_strlit("release");
    lemma_decimal_digits(issue as nat);
    lemma_decimal_digits(attempt as nat);
    // every character is a branch character
    let bc = |ch: char| is_branch_char(ch);
    assert(all_chars(a, bc));
    assert(all_chars(b, bc));
    assert(all_chars(c, bc));
    assert(all_chars(t, bc));
    assert(all_chars(d1, bc));
    assert(all_chars(d2, bc));
    lemma_all_chars_concat(a, t, bc);
    lemma_all_chars_concat(a + t, b, bc);
    lemma_all_chars_concat(a + t + b, d1, bc);
    lemma_all_chars_concat(a + t + b + d1, c, bc);
    lemma_all_chars_concat(a + t + b + d1 + c, d2, bc);
    assert(all_chars(name, bc));
    // the UTF-8 encoding of an ASCII name has one byte per character
    assert(vstd::utf8::is_ascii_chars(name)) by {
        assert forall|i: int| 0 <= i < name.len() implies '\0' <= #[trigger] name[i] <= '\u{7f}' by {
            assert(bc(name[i]));
        }
    }
    vstd::utf8::is_ascii_chars_encode_utf8(name);
    // no `//`
    assert(!adjacent(a, '/', '/'));
    assert(!adjacent(b, '/', '/'));
    assert(!adjacent(c, '/', '/'));
    lemma_no_char_not_adjacent(t, '/', '/');
    lemma_no_char_not_adjacent(d1, '/', '/');
    lemma_no_char_not_adjacent(d2, '/', '/');
    lemma_not_adjacent_concat(a, t, '/', '/');
    lemma_not_adjacent_concat(a + t, b, '/', '/');
    lemma_not_adjacent_concat(a + t + b, d1, '/', '/');
    lemma_not_adjacent_concat(a + t + b + d1, c, '/', '/');
    lemma_not_adjacent_concat(a + t + b + d1 + c, d2, '/', '/');
    lemma_two_char_pattern(name, "//"@);
    // no `..`
    lemma_no_char_not_adjacent(a, '.', '.');
    lemma_no_char_not_adjacent(b, '.', '.');
    lemma_no_char_not_adjacent(c, '.', '.');
    lemma_no_char_not_adjacent(d1, '.', '.');
    lemma_no_char_not_adjacent(d2, '.', '.');
    lemma_two_char_pattern(t, ".."@);
    lemma_not_adjacent_concat(a, t, '.', '.');
    lemma_not_adjacent_concat(a + t, b, '.', '.');
    lemma_not_adjacent_concat(a + t + b, d1, '.', '.');
    lemma_not_adjacent_concat(a + t + b + d1, c, '.', '.');
    lemma_not_adjacent_concat(a + t + b + d1 + c, d2, '.', '.');
    lemma_two_char_pattern(name, ".."@);
    // no `@{`
    assert forall|i: int| 0 <= i < name.len() implies #[trigger] name[i] != '@' by {
        assert(bc(name[i]));
    }
    lemma_no_char_not_adjacent(name, '@', '{');
    lemma_two_char_pattern(name, "@{"@);
    // first and last characters
    assert(name[0] == 'b');
    assert(name.last() == d2.last());
    assert('0' <= d2[d2.len() - 1] <= '9');
    assert(!is_suffix(".lock"@, name)) by {
        if is_suffix(".lock"@, name) {
            assert(name.subrange(name.len() - 5, name.len() as int)[4] == name.last());
        }
    }
    assert(!is_prefix("refs/"@, name)) by {
        if is_prefix("refs/"@, name) {
            assert(name.subrange(0, 5)[0] == name[0]);
        }
    }
    assert(branch_syntax_error(name) is None);
    // not protected
    let p = bolt_default_view();
    assert(!p.protected_branches.contains(name)) by {
        if p.protected_branches.contains(name) {
            let k = choose|k: int| 0 <= k < p.protected_branches.len() && p.protected_branches[k] == name;
            assert(p.protected_branches[k][0] != 'b');
        }
    }
    // inside the owned namespace
    assert(name.subrange(0, 5) =~= "bolt/"@);
    assert(is_prefix(p.owned_prefixes[0], name));
}

/// A protected branch is never agent-owned, whatever the owned prefixes:
/// creating, pushing or deleting it is refused.
pub proof fn protected_branch_never_owned(p: PolicyView, branch: Seq<char>)
    requires
        p.protected_branches.contains(branch),
    ensures
        owned_branch_decision(p, branch) is Err,
{
}

/// An accepted branch is a well-formed branch name, is not protected, and
/// starts with one of the owned prefixes.
pub proof fn owned_branch_is_in_namespace(p: PolicyView, branch: Seq<char>)
    requires
        owned_branch_decision(p, branch) is Ok,
    ensures
        branch_syntax_error(branch) is None,
        !p.protected_branches.contains(branch),
        has_owned_prefix(p.owned_prefixes, branch),
{
}


/// A policy without owned prefixes owns nothing: it fails closed.
pub proof fn empty_namespace_owns_nothing(p: PolicyView, branch: Seq<char>)
    requires
        p.owned_prefixes.len() == 0,
    ensures
        owned_branch_decision(p, branch) is Err,
{
}

/// Adding owned prefixes never revokes ownership of a branch.
pub proof fn more_owned_prefixes_never_revoke(
    p: PolicyView,
    extra: Seq<Seq<char>>,
    branch: Seq<char>,
)
    requires
        owned_branch_decision(p, branch) is Ok,
    ensures
        owned_branch_decision(
            PolicyView {
                owned_prefixes: p.owned_prefixes + extra,
                protected_branches: p.protected_branches,
            },
            branch,
        ) is Ok,
{
    let i = choose|i: int| 0 <= i < p.owned_prefixes.len() && is_prefix(#[trigger] p.owned_prefixes[i], branch);
    assert((p.owned_prefixes + extra)[i] == p.owned_prefixes[i]);
}

/// Adding protected branch names never grants ownership of a branch.
pub proof fn more_protected_branches_never_grant(
    p: PolicyView,
    extra: Seq<Seq<char>>,
    branch: Seq<char>,
)
    requires
        owned_branch_decision(
            PolicyView {
                owned_prefixes: p.owned_prefixes,
                protected_branches: p.protected_branches + extra,
            },
            branch,
        ) is Ok,
    ensures
        owned_branch_decision(p, branch) is Ok,
{
    if p.protected_branches.contains(branch) {
        let k = choose|k: int| 0 <= k < p.protected_branches.len() && p.protected_branches[k] == branch;
        assert((p.protected_branches + extra)[k] == branch);
    }
}

/// Sanitizing a sanitized run id gives it back unchanged.
pub proof fn segment_decision_idempotent(input: Seq<char>)
    requires
        segment_decision(input) is Ok,
    ensures
        segment_decision(segment_decision(input)->Ok_0) == segment_decision(input),
{
    let t = trim(input);
    assert(forall|i: int| 0 <= i < t.len() ==> is_segment_char(#[trigger] t[i]));
    lemma_leading_ws_exact(t, 0);
    lemma_trailing_ws_exact(t, 0);
    assert(t.skip(0) =~= t);
    assert(t.take(t.len() as int) =~= t);
    assert(trim(t) == t);
}

/// No slash occurs in `x`.
pub open spec fn slash_free(x: Seq<char>) -> bool {
    forall|i: int| 0 <= i < x.len() ==> #[trigger] x[i] != '/'
}

proof fn lemma_split_at_slash(a: Seq<char>, x1: Seq<char>, b1: Seq<char>, x2: Seq<char>, b2: Seq<char>)
    requires
        a + x1 + b1 == a + x2 + b2,
        slash_free(x1),
        slash_free(x2),
        b1.len() > 0 && b1[0] == '/',
        b2.len() > 0 && b2[0] == '/',
    ensures
        x1 == x2,
        b1 == b2,
{
    let s = a + x1 + b1;
    let s2 = a + x2 + b2;
    if x1.len() < x2.len() {
        assert(s[(a.len() + x1.len()) as int] == b1[0]);
        assert(s2[(a.len() + x1.len()) as int] == x2[x1.len() as int]);
    } else if x2.len() < x1.len() {
        assert(s2[(a.len() + x2.len()) as int] == b2[0]);
        assert(s[(a.len() + x2.len()) as int] == x1[x2.len() as int]);
    }
    assert(x1 =~= s.subrange(a.len() as int, (a.len() + x1.len()) as int));
    assert(x2 =~= s2.subrange(a.len() as int, (a.len() + x2.len()) as int));
    assert(b1 =~= s.skip((a.len() + x1.len()) as int));
    assert(b2 =~= s2.skip((a.len() + x2.len()) as int));
}

/// Attempt branch names are injective: two tuples that give the same name
/// have the same trimmed run id, issue and attempt.
pub proof fn attempt_branch_names_are_distinct(
    run1: Seq<char>,
    issue1: u64,
    attempt1: u32,
    run2: Seq<char>,
    issue2: u64,
    attempt2: u32,
)
    requires
        attempt_branch_decision(run1, issue1, attempt1) is Ok,
        attempt_branch_decision(run2, issue2, attempt2) is Ok,
        attempt_branch_decision(run1, issue1, attempt1)->Ok_0 == attempt_branch_decision(
            run2,
            issue2,
            attempt2,
        )->Ok_0,
    ensures
        trim(run1) == trim(run2),
        issue1 == issue2,
        attempt1 == attempt2,
{
    let t1 = trim(run1);
    let t2 = trim(run2);
    let a = "bolt/run/"@;
    let b = "/issue-"@;
    let c = "/attempt-"@;
    let d1 = decimal(issue1 as nat);
    let d2 = decimal(issue2 as nat);
    let e1 = decimal(attempt1 as nat);
    let e2 = decimal(attempt2 as nat);
    reveal_strlit("/issue-");
    reveal_strlit("/attempt-");
    lemma_decimal_digits(issue1 as nat);
    lemma_decimal_digits(issue2 as nat);
    lemma_decimal_digits(attempt1 as nat);
    lemma_decimal_digits(attempt2 as nat);
    assert(slash_free(t1)) by {
        assert forall|i: int| 0 <= i < t1.len() implies #[trigger] t1[i] != '/' by {
            assert(is_segment_char(t1[i]));
        }
    }
    assert(slash_free(t2)) by {
        assert forall|i: int| 0 <= i < t2.len() implies #[trigger] t2[i] != '/' by {
            assert(is_segment_char(t2[i]));
        }
    }
    assert(slash_free(d1));
    assert(slash_free(d2));
    let r1 = b + d1 + c + e1;
    let r2 = b + d2 + c + e2;
    assert(attempt_branch_name(t1, issue1, attempt1) =~= a + t1 + r1);
    assert(attempt_branch_name(t2, issue2, attempt2) =~= a + t2 + r2);
    lemma_split_at_slash(a, t1, r1, t2, r2);
    assert(r1 =~= b + d1 + (c + e1));
    assert(r2 =~= b + d2 + (c + e2));
    lemma_split_at_slash(b, d1, c + e1, d2, c + e2);
    assert(e1 =~= (c + e1).skip(c.len() as int));
    assert(e2 =~= (c + e2).skip(c.len() as int));
    lemma_decimal_injective(issue1 as nat, issue2 as nat);
    lemma_decimal_injective(attempt1 as nat, attempt2 as nat);
}

/// A branch the policy accepts is a well-formed git branch name: it is not
/// empty and at most 180 bytes long in UTF-8; it is made only of ASCII
/// letters, digits, `/`, `-`, `_` and `.`; it neither starts nor ends with
/// `/`; it holds no `//`, `..` or `@{`; it ends neither with `.` nor with
/// `.lock`; and it does not start with `refs/`.
pub proof fn accepted_branch_is_well_formed(p: PolicyView, branch: Seq<char>)
    requires
        owned_branch_decision(p, branch) is Ok,
    ensures
        branch.len() > 0,
        vstd::utf8::encode_utf8(branch).len() <= 180,
        forall|i: int|
            0 <= i < branch.len() ==> {
                let c = #[trigger] branch[i];
                ('0' <= c <= '9') || ('a' <= c <= 'z') || ('A' <= c <= 'Z') || c == '/' || c
                    == '-' || c == '_' || c == '.'
            },
        branch[0] != '/',
        branch[branch.len() - 1] != '/',
        branch[branch.len() - 1] != '.',
        forall|i: int|
            0 <= i && i + 1 < branch.len() ==> !(branch[i] == '/' && #[trigger] branch[i + 1]
                == '/') && !(branch[i] == '.' && branch[i + 1] == '.') && !(branch[i] == '@'
                && branch[i + 1] == '{'),
        !(branch.len() >= 5 && branch.subrange(branch.len() - 5, branch.len() as int) == seq![
            '.',
            'l',
            'o',
            'c',
            'k',
        ]),
        !(branch.len() >= 5 && branch.subrange(0, 5) == seq!['r', 'e', 'f', 's', '/']),
{
    reveal_strlit("//");
    reveal_strlit("..");
    reveal_strlit("@{");
    reveal_strlit(".lock");
    reveal_strlit("refs/");
    lemma_two_char_pattern(branch, "//"@);
    lemma_two_char_pattern(branch, ".."@);
    lemma_two_char_pattern(branch, "@{"@);
    assert(!exists|i: int| 0 <= i < branch.len() && !is_branch_char(#[trigger] branch[i]));
    if branch.len() >= 5 && branch.subrange(branch.len() - 5, branch.len() as int) == seq![
        '.',
        'l',
        'o',
        'c',
        'k',
    ] {
        assert(".lock"@ =~= seq!['.', 'l', 'o', 'c', 'k']);
        assert(is_suffix(".lock"@, branch));
    }
    if branch.len() >= 5 && branch.subrange(0, 5) == seq!['r', 'e', 'f', 's', '/'] {
        assert("refs/"@ =~= seq!['r', 'e', 'f', 's', '/']);
        assert(is_prefix("refs/"@, branch));
    }
}

/// A well-formed git branch name, as the policy requires it, written out:
/// not empty, at most 180 bytes in UTF-8, only ASCII letters, digits, `/`,
/// `-`, `_` and `.`, no `/` at either end, no `//`, `..` or `@{`, no `.` or
/// `.lock` at the end, and no `refs/` at the start.
pub open spec fn git_branch_name_ok(b: Seq<char>) -> bool {
    &&& b.len() > 0
    &&& vstd::utf8::encode_utf8(b).len() <= 180
    &&& forall|i: int|
        0 <= i < b.len() ==> ('0' <= #[trigger] b[i] <= '9') || ('a' <= b[i] <= 'z') || ('A'
            <= b[i] <= 'Z') || b[i] == '/' || b[i] == '-' || b[i] == '_' || b[i] == '.'
    &&& b[0] != '/'
    &&& b[b.len() - 1] != '/'
    &&& b[b.len() - 1] != '.'
    &&& forall|i: int|
        0 <= i && i + 1 < b.len() ==> !(b[i] == '/' && #[trigger] b[i + 1] == '/') && !(b[i]
            == '.' && b[i + 1] == '.') && !(b[i] == '@' && b[i + 1] == '{')
    &&& !(b.len() >= 5 && b.subrange(b.len() - 5, b.len() as int) == seq!['.', 'l', 'o', 'c', 'k'])
    &&& !(b.len() >= 5 && b.subrange(0, 5) == seq!['r', 'e', 'f', 's', '/'])
}

/// The policy accepts a branch exactly when it is a well-formed branch name,
/// equal to none of the protected names, and starting with one of the owned
/// prefixes.
pub proof fn owned_exactly_when_well_formed_unprotected_and_prefixed(
    p: PolicyView,
    branch: Seq<char>,
)
    ensures
        owned_branch_decision(p, branch) is Ok <==> {
            &&& git_branch_name_ok(branch)
            &&& forall|k: int|
                0 <= k < p.protected_branches.len() ==> #[trigger] p.protected_branches[k]
                    != branch
            &&& exists|k: int|
                0 <= k < p.owned_prefixes.len() && (#[trigger] p.owned_prefixes[k]).len()
                    <= branch.len() && branch.subrange(0, p.owned_prefixes[k].len() as int)
                    == p.owned_prefixes[k]
        },
{
    reveal_strlit("//");
    reveal_strlit("..");
    reveal_strlit("@{");
    reveal_strlit(".lock");
    reveal_strlit("refs/");
    assert(".lock"@ =~= seq!['.', 'l', 'o', 'c', 'k']);
    assert("refs/"@ =~= seq!['r', 'e', 'f', 's', '/']);
    lemma_two_char_pattern(branch, "//"@);
    lemma_two_char_pattern(branch, ".."@);
    lemma_two_char_pattern(branch, "@{"@);
    if owned_branch_decision(p, branch) is Ok {
        accepted_branch_is_well_formed(p, branch);
    }
    if git_branch_name_ok(branch) {
        assert forall|i: int| 0 <= i < branch.len() implies is_branch_char(#[trigger] branch[i]) by {
        }
        assert(branch_syntax_error(branch) is None);
    }
}

} // verus!
