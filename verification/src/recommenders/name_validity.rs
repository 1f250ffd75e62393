//! The naming rules: a cascade in which the first rule that objects decides.

use crate::patterns::{is_match, regex_is_match};
use crate::recommenders::{Recommender, ReportLine, ReportLineView, Variable, VariableKind, VariableView};
use crate::text::{has_char, line_label, line_label_text, same_text};
use vstd::prelude::*;

verus! {

/// The longest name that passes without a remark.
pub const MAX_LENGTH: usize = 25;

/// The shortest name that passes without a remark.
pub const MIN_LENGTH: usize = 5;

/// What the name of a constant has to begin with.
pub const CONSTANT_START_PATTERN: &'static str = "^[A-Z_]";

/// A leading capital letter.
pub const CAPITAL_START_PATTERN: &'static str = "^[A-Z]";

/// The names that a constant may have.
pub open spec fn is_known_constant(name: Seq<char>) -> bool {
    name == "MAX"@ || name == "MIN"@
}

/// Whether a constant's name passes: it must be one of the known names and
/// the engine must find [`CONSTANT_START_PATTERN`] in it.
pub open spec fn is_appropriate_constant(name: Seq<char>) -> bool {
    is_known_constant(name) && regex_is_match(CONSTANT_START_PATTERN@, name) == Some(true)
}

/// The short names that are idiomatic enough to pass the length rule.
pub open spec fn is_appropriate_name(name: Seq<char>) -> bool {
    ||| name == "_"@
    ||| name == "self"@
    ||| name == "cors"@
    ||| name == "url"@
    ||| name == "ajax"@
    ||| name == "xhr"@
    ||| name == "id"@
    ||| name == "elem"@
    ||| name == "href"@
    ||| name == "data"@
    ||| name == "fn"@
    ||| name == "key"@
    ||| name == "obj"@
    ||| name == "tag"@
    ||| name == "body"@
    ||| name == "list"@
    ||| name == "dir"@
    ||| name == "attr"@
    ||| name == "len"@
    ||| name == "node"@
    ||| name == "rhs"@
    ||| name == "lhs"@
    ||| name == "win"@
    ||| name == "min"@
    ||| name == "max"@
    ||| name == "doc"@
    ||| name == "ret"@
    ||| name == "xml"@
}

/// Whether the engine finds [`CAPITAL_START_PATTERN`] in the name.
pub open spec fn has_capital_start(name: Seq<char>) -> bool {
    regex_is_match(CAPITAL_START_PATTERN@, name) == Some(true)
}

/// The one-letter names of counters and errors: `i`, `j`, `k` and `e`.
pub open spec fn is_counter_name(name: Seq<char>) -> bool {
    name.len() == 1 && (name[0] == 'i' || name[0] == 'j' || name[0] == 'k' || name[0] == 'e')
}

/// One of the characters that no name should hold.
pub open spec fn is_poor_char(c: char) -> bool {
    c == '&' || c == '$' || c == '-' || c == '_'
}

/// Whether a name holds a poor character. A name that begins with an
/// underscore is exempt.
pub open spec fn has_poor_chars(name: Seq<char>) -> bool {
    (exists|i: int| 0 <= i < name.len() && is_poor_char(#[trigger] name[i])) && name[0] != '_'
}

/// Whether the length of a name, in characters, is out of bounds.
pub open spec fn has_odd_length(name: Seq<char>) -> bool {
    name.len() > MAX_LENGTH || name.len() < MIN_LENGTH
}

/// The rule that objects to a variable, if any.
#[derive(Debug, Clone, Copy, PartialEq, Eq, Structural)]
pub enum Verdict {
    /// A constant whose name is not appropriate for one.
    OddConstant,
    /// A poor character in the name.
    PoorChars,
    /// A leading capital letter.
    CapitalStart,
    /// A name that is too short or too long, and no known exception.
    OddLength,
    /// No rule objects.
    Fine,
}

/// The cascade: the rules are asked in a fixed order, and the first that
/// objects decides.
pub open spec fn verdict(variable: VariableView) -> Verdict {
    let name = variable.name;
    if variable.kind == VariableKind::Const && !is_appropriate_constant(name) {
        Verdict::OddConstant
    } else if has_poor_chars(name) {
        Verdict::PoorChars
    } else if has_capital_start(name) {
        Verdict::CapitalStart
    } else if has_odd_length(name) && !is_counter_name(name) && !is_appropriate_name(name) {
        Verdict::OddLength
    } else {
        Verdict::Fine
    }
}

/// The text of a finding: the line number, what the name belongs to, the
/// name in quotes, and the complaint.
pub open spec fn title_text(
    linum: usize,
    subject: Seq<char>,
    name: Seq<char>,
    complaint: Seq<char>,
) -> Seq<char> {
    "Line "@ + line_label(linum) + " "@ + subject + " '"@ + name + "' "@ + complaint
}

/// The title that goes with a verdict; empty where no rule objects.
pub open spec fn title_of(verdict: Verdict, linum: usize, name: Seq<char>) -> Seq<char> {
    match verdict {
        Verdict::OddConstant => title_text(
            linum,
            "CONSTANT"@,
            name,
            "seems odd. Please come up with a better name"@,
        ),
        Verdict::PoorChars => title_text(
            linum,
            "Variable"@,
            name,
            "has terrible char in its name. Please consider renaming it."@,
        ),
        Verdict::CapitalStart => title_text(
            linum,
            "Variable"@,
            name,
            "starts with Capital. Please come up with a better name"@,
        ),
        Verdict::OddLength => title_text(
            linum,
            "Variable"@,
            name,
            "seems odd. Please come up with a better name"@,
        ),
        Verdict::Fine => Seq::empty(),
    }
}

/// The finding of the naming rules on a variable.
pub open spec fn name_finding(variable: VariableView) -> ReportLineView {
    ReportLineView {
        title: title_of(verdict(variable), variable.linum, variable.name),
        variable_name: variable.name,
    }
}

/// Every title of an objection begins with the word "Line", so a title is
/// empty exactly where no rule objects.
pub proof fn lemma_title_empty_iff_fine(variable: VariableView)
    ensures
        name_finding(variable).title.len() == 0 <==> verdict(variable) == Verdict::Fine,
{
    reveal_strlit("Line ");
}

/// A constant whose name is not one of the known ones is reported as odd,
/// however well its name is formed.
pub proof fn lemma_unknown_constant_is_odd(variable: VariableView)
    requires
        variable.kind == VariableKind::Const,
        !is_known_constant(variable.name),
    ensures
        verdict(variable) == Verdict::OddConstant,
{
}

/// A name that begins with an underscore is never reported for its
/// characters.
pub proof fn lemma_leading_underscore_is_exempt(variable: VariableView)
    requires
        variable.name.len() > 0,
        variable.name[0] == '_',
    ensures
        verdict(variable) != Verdict::PoorChars,
{
}

/// The counters and the idiomatic short names are never reported for their
/// length.
pub proof fn lemma_exceptions_pass_the_length_rule(variable: VariableView)
    requires
        is_counter_name(variable.name) || is_appropriate_name(variable.name),
    ensures
        verdict(variable) != Verdict::OddLength,
{
}

/// A name of [`MIN_LENGTH`] to [`MAX_LENGTH`] characters is never reported
/// for its length.
pub proof fn lemma_length_within_bounds_passes(variable: VariableView)
    requires
        MIN_LENGTH <= variable.name.len() <= MAX_LENGTH,
    ensures
        verdict(variable) != Verdict::OddLength,
{
}

/// Writes the text of a finding.
pub fn write_title(linum: usize, subject: &str, name: &str, complaint: &str) -> (title: String)
    ensures
        title@ == title_text(linum, subject@, name@, complaint@),
{
    let mut title = String::from_str("Line ");
    let label = line_label_text(linum);
    title.append(label.as_str());
    title.append(" ");
    title.append(subject);
    title.append(" '");
    title.append(name);
    title.append("' ");
    title.append(complaint);
    title
}

/// The rule set that judges names.
pub struct NameValidity {}

impl NameValidity {
    /// Whether a constant's name passes.
    pub fn named_appropriately_as_constant(&self, name: &str) -> (fine: bool)
        ensures
            fine == is_appropriate_constant(name@),
    {
        (same_text(name, "MAX") || same_text(name, "MIN")) && matches!(
            is_match(CONSTANT_START_PATTERN, name),
            Some(true)
        )
    }

    /// Whether the name is one of the idiomatic short names.
    pub fn named_appropriately(&self, name: &str) -> (fine: bool)
        ensures
            fine == is_appropriate_name(name@),
    {
        let appropriate_names: [&str; 28] = [
            "_",
            "self",
            "cors",
            "url",
            "ajax",
            "xhr",
            "id",
            "elem",
            "href",
            "data",
            "fn",
            "key",
            "obj",
            "tag",
            "body",
            "list",
            "dir",
            "attr",
            "len",
            "node",
            "rhs",
            "lhs",
            "win",
            "min",
            "max",
            "doc",
            "ret",
            "xml",
        ];
        let mut i: usize = 0;
        while i < 28
            invariant
                i <= 28,
                appropriate_names@.len() == 28,
                forall|j: int| 0 <= j < i ==> name@ != (#[trigger] appropriate_names@[j])@,
                forall|j: int|
                    0 <= j < 28 ==> is_appropriate_name((#[trigger] appropriate_names@[j])@),
                is_appropriate_name(name@) ==> exists|j: int|
                    0 <= j < 28 && name@ == (#[trigger] appropriate_names@[j])@,
            decreases 28 - i,
        {
            if same_text(name, appropriate_names[i]) {
                return true;
            }
            i = i + 1;
        }
        false
    }

    /// Whether the name begins with a capital letter.
    pub fn starts_with_capical(&self, name: &str) -> (capital: bool)
        ensures
            capital == has_capital_start(name@),
    {
        matches!(is_match(CAPITAL_START_PATTERN, name), Some(true))
    }

    /// Whether the name is `i`, `j`, `k` or `e`.
    pub fn named_ijk(&self, name: &str) -> (counter: bool)
        ensures
            counter == is_counter_name(name@),
    {
        if name.unicode_len() != 1 {
            return false;
        }
        let c = name.get_char(0);
        c == 'i' || c == 'j' || c == 'k' || c == 'e'
    }

    /// Whether the name holds a poor character and does not begin with an
    /// underscore.
    pub fn includes_poor_chars(&self, name: &str) -> (poor: bool)
        ensures
            poor == has_poor_chars(name@),
    {
        let found = has_char(name, '&') || has_char(name, '$') || has_char(name, '-') || has_char(
            name,
            '_',
        );
        proof {
            if found {
                let c = if name@.contains('&') {
                    '&'
                } else if name@.contains('$') {
                    '$'
                } else if name@.contains('-') {
                    '-'
                } else {
                    '_'
                };
                let i = choose|i: int| 0 <= i < name@.len() && name@[i] == c;
                assert(is_poor_char(name@[i]));
            }
        }
        found && name.get_char(0) != '_'
    }

    /// Runs the cascade on a variable.
    pub fn judge(&self, variable: &Variable) -> (v: Verdict)
        ensures
            v == verdict(variable@),
    {
        let name = variable.name.as_str();
        if matches!(variable.kind, VariableKind::Const) && !self.named_appropriately_as_constant(
            name,
        ) {
            Verdict::OddConstant
        } else if self.includes_poor_chars(name) {
            Verdict::PoorChars
        } else if self.starts_with_capical(name) {
            Verdict::CapitalStart
        } else {
            let len: usize = name.unicode_len();
            if (len > MAX_LENGTH || len < MIN_LENGTH) && !self.named_ijk(name)
                && !self.named_appropriately(name) {
                Verdict::OddLength
            } else {
                Verdict::Fine
            }
        }
    }
}

impl Recommender for NameValidity {
    open spec fn suggestion(&self, variable: VariableView) -> ReportLineView {
        name_finding(variable)
    }

    fn suggest(&self, variable: &Variable) -> (line: ReportLine) {
        let name = variable.name.as_str();
        let title = match self.judge(variable) {
            Verdict::OddConstant => write_title(
                variable.linum,
                "CONSTANT",
                name,
                "seems odd. Please come up with a better name",
            ),
            Verdict::PoorChars => write_title(
                variable.linum,
                "Variable",
                name,
                "has terrible char in its name. Please consider renaming it.",
            ),
            Verdict::CapitalStart => write_title(
                variable.linum,
                "Variable",
                name,
                "starts with Capital. Please come up with a better name",
            ),
            Verdict::OddLength => write_title(
                variable.linum,
                "Variable",
                name,
                "seems odd. Please come up with a better name",
            ),
            Verdict::Fine => String::new(),
        };
        ReportLine { title, variable_name: name.to_owned() }
    }
}

} // verus!
