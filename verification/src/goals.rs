//! `goals.toml` — declarative phase, milestones, hard gates and observability.
//!
//! Thresholds are integers (sufficient for A1: violation counts and a coverage
//! percentage). Reading the file itself is done by the TOML deserializer
//! outside this library; these are the values it fills.
use vstd::prelude::*;

verus! {

/// Comparison operator for a gate or observability metric.
#[derive(Debug, Clone, Copy, PartialEq, Eq, Structural)]
pub enum Op {
    Eq,
    Ne,
    Lt,
    Lte,
    Gt,
    Gte,
}

/// The phase the project is currently in.
#[derive(Debug, Clone)]
pub struct Phase {
    pub id: String,
    pub title: String,
}

/// A sub-milestone within a phase.
#[derive(Debug, Clone)]
pub struct Milestone {
    pub id: String,
    pub title: String,
    pub done: bool,
}

/// A hard, blocking gate: `metric op threshold` must hold for the phase to pass.
#[derive(Debug, Clone)]
pub struct Gate {
    pub name: String,
    pub metric: String,
    pub op: Op,
    pub threshold: i64,
}

/// A non-blocking observability target (reported, never blocks).
#[derive(Debug, Clone)]
pub struct Observe {
    pub name: String,
    pub metric: String,
    pub op: Op,
    pub threshold: i64,
}

/// The whole `goals.toml`.
#[derive(Debug, Clone)]
pub struct Goals {
    pub phase: Phase,
    pub milestone: Vec<Milestone>,
    pub gate: Vec<Gate>,
    pub observe: Vec<Observe>,
}

/// Failure to parse a `goals.toml`.
#[derive(Debug)]
pub struct GoalsError(String);

impl View for GoalsError {
    type V = Seq<char>;

    /// What the parser reported.
    closed spec fn view(&self) -> Seq<char> {
        self.0@
    }
}

impl GoalsError {
    /// A failure with the parser's report `detail`.
    pub fn new(detail: String) -> (e: Self)
        ensures
            e@ == detail@,
    {
        GoalsError(detail)
    }

    /// The message of this failure (what `Display` shows).
    pub fn to_string(&self) -> (r: String)
        ensures
            r@ == "invalid goals.toml: "@ + self@,
    {
        let mut s = String::from_str("invalid goals.toml: ");
        s.append(self.0.as_str());
        s
    }
}

} // verus!
