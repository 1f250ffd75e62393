//! The data model of the linter, and the interface of its rule sets.

use crate::patterns::{is_match, regex_is_match};
use vstd::prelude::*;

pub mod name_validity;

verus! {

/// The pattern that marks a value as the result of a call: an opening
/// parenthesis with a closing one after it.
pub const DYNAMIC_PATTERN: &'static str = r"\(.*\)";

/// The construct that declared a name.
#[derive(Debug, Clone, Copy, PartialEq, Eq, Structural)]
pub enum VariableKind {
    Var,
    Let,
    /// An assignment with no declaring keyword.
    Global,
    Const,
}

/// Where a name is visible. Scopes are not tracked, so every name has the
/// same one.
#[derive(Debug, Clone, Copy, PartialEq, Eq, Structural)]
pub enum VariableScope {
    Unknown,
}

/// A coarse classification of a right-hand side.
#[derive(Debug, Clone, Copy, PartialEq, Eq, Structural)]
pub enum VariableValueKind {
    /// Anything that does not look like a call.
    Compound,
    /// The text holds a parenthesized span.
    Dynamic,
}

/// The right-hand side of a declaration, as written, with its
/// classification.
#[derive(Debug)]
pub struct VariableValue {
    pub value: String,
    pub kind: VariableValueKind,
}

/// One declaration candidate.
#[derive(Debug)]
pub struct Variable {
    pub name: String,
    pub kind: VariableKind,
    pub scope: VariableScope,
    pub value: VariableValue,
    /// The 0-based index of the line that the candidate was found on.
    pub linum: usize,
}

/// The mathematical content of a [`Variable`].
pub struct VariableView {
    pub name: Seq<char>,
    pub kind: VariableKind,
    pub scope: VariableScope,
    pub value: Seq<char>,
    pub value_kind: VariableValueKind,
    pub linum: usize,
}

impl View for Variable {
    type V = VariableView;

    open spec fn view(&self) -> VariableView {
        VariableView {
            name: self.name@,
            kind: self.kind,
            scope: self.scope,
            value: self.value.value@,
            value_kind: self.value.kind,
            linum: self.linum,
        }
    }
}

impl VariableView {
    /// Coarse equality: two candidates stand for the same variable when name
    /// and scope agree, whatever their kinds and values.
    pub open spec fn same_variable(self, other: VariableView) -> bool {
        self.name == other.name && self.scope == other.scope
    }
}

/// The classification that follows from the engine's answer on
/// [`DYNAMIC_PATTERN`]: `Dynamic` on a match, `Compound` otherwise.
pub open spec fn value_kind_of(found: Option<bool>) -> VariableValueKind {
    if found == Some(true) {
        VariableValueKind::Dynamic
    } else {
        VariableValueKind::Compound
    }
}

/// The candidate that [`Variable::new`] builds from its arguments.
pub open spec fn new_variable(
    name: Seq<char>,
    kind: VariableKind,
    value: Seq<char>,
    linum: usize,
) -> VariableView {
    VariableView {
        name,
        kind,
        scope: VariableScope::Unknown,
        value,
        value_kind: value_kind_of(regex_is_match(DYNAMIC_PATTERN@, value)),
        linum,
    }
}

impl VariableValueKind {
    /// Classifies a value from the engine's answer on [`DYNAMIC_PATTERN`].
    pub fn from_match(found: Option<bool>) -> (kind: VariableValueKind)
        ensures
            kind == value_kind_of(found),
    {
        match found {
            Some(true) => VariableValueKind::Dynamic,
            _ => VariableValueKind::Compound,
        }
    }
}

impl Variable {
    /// Builds a candidate and classifies its value.
    pub fn new(name: &str, kind: VariableKind, value: &str, linum: usize) -> (var: Variable)
        ensures
            var@ == new_variable(name@, kind, value@, linum),
    {
        let var_value = VariableValue {
            value: value.to_owned(),
            kind: VariableValueKind::from_match(is_match(DYNAMIC_PATTERN, value)),
        };
        Variable {
            name: name.to_owned(),
            kind,
            value: var_value,
            scope: VariableScope::Unknown,
            linum,
        }
    }
}

impl PartialEq for Variable {
    fn eq(&self, other: &Variable) -> (same: bool) {
        self.name == other.name && self.scope == other.scope
    }
}

impl vstd::std_specs::cmp::PartialEqSpecImpl for Variable {
    open spec fn obeys_eq_spec() -> bool {
        true
    }

    open spec fn eq_spec(&self, other: &Variable) -> bool {
        self@.same_variable(other@)
    }
}

/// One finding. An empty title stands for "no issue".
#[derive(Debug)]
pub struct ReportLine {
    pub title: String,
    pub variable_name: String,
}

/// The mathematical content of a [`ReportLine`].
pub struct ReportLineView {
    pub title: Seq<char>,
    pub variable_name: Seq<char>,
}

impl View for ReportLine {
    type V = ReportLineView;

    open spec fn view(&self) -> ReportLineView {
        ReportLineView { title: self.title@, variable_name: self.variable_name@ }
    }
}

impl ReportLine {
    /// The finding as a line of a listing: its title behind an arrow.
    pub fn to_text(&self) -> (text: String)
        ensures
            text@ == " \u{2937} "@ + self.title@,
    {
        let mut text = String::from_str(" \u{2937} ");
        text.append(self.title.as_str());
        text
    }
}

impl PartialEq for ReportLine {
    fn eq(&self, other: &ReportLine) -> (same: bool) {
        self.title == other.title && self.variable_name == other.variable_name
    }
}

impl vstd::std_specs::cmp::PartialEqSpecImpl for ReportLine {
    open spec fn obeys_eq_spec() -> bool {
        true
    }

    open spec fn eq_spec(&self, other: &ReportLine) -> bool {
        self@ == other@
    }
}

/// A rule set: it judges one variable at a time and answers with a finding,
/// whose title is empty where it has no complaint.
pub trait Recommender {
    /// The finding of this rule set on a variable. A rule set that is to
    /// be reasoned about says here what it answers; one that leaves this
    /// open still has one answer for each variable.
    open spec fn suggestion(&self, variable: VariableView) -> ReportLineView {
        arbitrary()
    }

    fn suggest(&self, variable: &Variable) -> (line: ReportLine)
        ensures
            line@ == self.suggestion(variable@),
    ;
}

} // verus!
