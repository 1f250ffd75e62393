//! The declaration extractor: it reads a source text line by line and
//! collects every name that is declared or assigned, once.

use crate::patterns::{captures, pairs_view, regex_captures};
use crate::recommenders::name_validity::{name_finding, NameValidity};
use crate::recommenders::{
    new_variable, Recommender, ReportLine, ReportLineView, Variable, VariableKind, VariableView,
};
use crate::reports::{
    is_tidy, lemma_turn_tidy, line_views, report_of, single, turn, variable_views, Judgement,
    Report,
};
use vstd::prelude::*;

verus! {

/// A `let` declaration: the name and the value that it is given.
pub const LET_PATTERN: &'static str = r"let +(\w+) *?={1} *?([[:punct:][:alnum:]]+)\.*?";

/// A `var` declaration.
pub const VAR_PATTERN: &'static str = r"var +(\w+) *?={1} *?([[:punct:][:alnum:]]+)\.*?";

/// A `const` declaration.
pub const CONST_PATTERN: &'static str = r"const +(\w+) *?={1} *?([[:punct:][:alnum:]]+)\.*?";

/// An assignment, with or without a keyword before it.
pub const GLOBAL_PATTERN: &'static str = r"(\w+) *?={1} *?([[:punct:][:alnum:]]+)\.*?";

/// Lines with fewer characters than this are not looked at.
pub const MIN_LINE_LENGTH: usize = 4;

/// What the engine found in a text: for each match the name and the value.
pub type Found = Seq<(Seq<char>, Seq<char>)>;

/// The pattern by which declarations of a kind are found.
pub open spec fn pattern_of(kind: VariableKind) -> Seq<char> {
    match kind {
        VariableKind::Let => LET_PATTERN@,
        VariableKind::Var => VAR_PATTERN@,
        VariableKind::Const => CONST_PATTERN@,
        VariableKind::Global => GLOBAL_PATTERN@,
    }
}

/// Whether a list of variables holds one with the name and scope of the
/// candidate.
pub open spec fn knows(variables: Seq<VariableView>, candidate: VariableView) -> bool {
    exists|i: int| 0 <= i < variables.len() && (#[trigger] variables[i]).same_variable(candidate)
}

/// The list after a candidate came up: it is appended unless the list knows
/// its name already.
pub open spec fn insert_new(variables: Seq<VariableView>, candidate: VariableView) -> Seq<
    VariableView,
> {
    if knows(variables, candidate) {
        variables
    } else {
        variables.push(candidate)
    }
}

/// The list after the matches of one pattern on one line came up, first to
/// last.
pub open spec fn record(
    variables: Seq<VariableView>,
    kind: VariableKind,
    found: Found,
    linum: usize,
) -> Seq<VariableView>
    decreases found.len(),
{
    if found.len() == 0 {
        variables
    } else {
        insert_new(
            record(variables, kind, found.drop_last(), linum),
            new_variable(found.last().0, kind, found.last().1, linum),
        )
    }
}

/// The matches that count for a pattern's answer: its matches, and none
/// where the engine refused the pattern.
pub open spec fn found_in(answer: Option<Found>) -> Found {
    match answer {
        Some(found) => found,
        None => Seq::empty(),
    }
}

/// The list after one line was searched for declarations of one kind.
pub open spec fn scan(
    variables: Seq<VariableView>,
    kind: VariableKind,
    linum: usize,
    text: Seq<char>,
) -> Seq<VariableView> {
    record(variables, kind, found_in(regex_captures(pattern_of(kind), text)), linum)
}

/// The list after one line was read: a short line changes nothing; any
/// other is searched for `let`, `var` and `const` declarations and then for
/// bare assignments, in this order.
pub open spec fn extract_line(variables: Seq<VariableView>, linum: usize, text: Seq<char>) -> Seq<
    VariableView,
> {
    if text.len() < MIN_LINE_LENGTH {
        variables
    } else {
        let lets = scan(variables, VariableKind::Let, linum, text);
        let vars = scan(lets, VariableKind::Var, linum, text);
        let consts = scan(vars, VariableKind::Const, linum, text);
        scan(consts, VariableKind::Global, linum, text)
    }
}

/// The numbered lines of a text, as plain values.
pub open spec fn lines_view(lines: Seq<(usize, String)>) -> Seq<(usize, Seq<char>)> {
    lines.map_values(|line: (usize, String)| (line.0, line.1@))
}

/// The variables of a whole text, in the order in which they first came up.
pub open spec fn extract(lines: Seq<(usize, Seq<char>)>) -> Seq<VariableView>
    decreases lines.len(),
{
    if lines.len() == 0 {
        Seq::empty()
    } else {
        extract_line(extract(lines.drop_last()), lines.last().0, lines.last().1)
    }
}

/// A list in which no two variables share name and scope.
pub open spec fn is_deduplicated(variables: Seq<VariableView>) -> bool {
    forall|i: int, j: int|
        0 <= i < j < variables.len() ==> !(#[trigger] variables[i]).same_variable(
            #[trigger] variables[j],
        )
}

/// The naming rules as a judgement.
pub open spec fn name_judgement() -> Judgement {
    |variable: VariableView| name_finding(variable)
}

/// The findings of the naming rules on a whole text.
pub open spec fn findings(lines: Seq<(usize, Seq<char>)>) -> Seq<ReportLineView> {
    turn(name_judgement(), extract(lines), Seq::empty())
}

/// A candidate that came up is known from then on, and the variables
/// before it keep their places: the first record of a name wins.
pub proof fn lemma_insert_new(variables: Seq<VariableView>, candidate: VariableView)
    ensures
        variables.is_prefix_of(insert_new(variables, candidate)),
        knows(insert_new(variables, candidate), candidate),
        is_deduplicated(variables) ==> is_deduplicated(insert_new(variables, candidate)),
{
    let after = insert_new(variables, candidate);
    if knows(variables, candidate) {
    } else {
        assert(after[variables.len() as int].same_variable(candidate));
        if is_deduplicated(variables) {
            assert forall|i: int, j: int| 0 <= i < j < after.len() implies !(#[trigger] after[i])
                .same_variable(#[trigger] after[j]) by {
                if j == variables.len() {
                    assert(variables[i] == after[i]);
                    assert(!variables[i].same_variable(candidate));
                } else {
                    assert(variables[i] == after[i]);
                    assert(variables[j] == after[j]);
                }
            }
        }
    }
}

/// The matches of one pattern displace nothing and leave the list
/// deduplicated.
pub proof fn lemma_record(
    variables: Seq<VariableView>,
    kind: VariableKind,
    found: Found,
    linum: usize,
)
    ensures
        variables.is_prefix_of(record(variables, kind, found, linum)),
        is_deduplicated(variables) ==> is_deduplicated(record(variables, kind, found, linum)),
    decreases found.len(),
{
    if found.len() > 0 {
        lemma_record(variables, kind, found.drop_last(), linum);
        lemma_insert_new(
            record(variables, kind, found.drop_last(), linum),
            new_variable(found.last().0, kind, found.last().1, linum),
        );
    }
}

/// A name that the list knows is known to every list that it is the
/// beginning of.
pub proof fn lemma_prefix_knows(
    shorter: Seq<VariableView>,
    longer: Seq<VariableView>,
    candidate: VariableView,
)
    requires
        shorter.is_prefix_of(longer),
        knows(shorter, candidate),
    ensures
        knows(longer, candidate),
{
    let i = choose|i: int| 0 <= i < shorter.len() && (#[trigger] shorter[i]).same_variable(candidate);
    assert(longer[i].same_variable(candidate));
}

/// Nothing that a pattern found is lost: the name of each of its matches
/// is known afterwards.
pub proof fn lemma_record_knows(
    variables: Seq<VariableView>,
    kind: VariableKind,
    found: Found,
    linum: usize,
    k: int,
)
    requires
        0 <= k < found.len(),
    ensures
        knows(
            record(variables, kind, found, linum),
            new_variable(found[k].0, kind, found[k].1, linum),
        ),
    decreases found.len(),
{
    let before = record(variables, kind, found.drop_last(), linum);
    lemma_insert_new(before, new_variable(found.last().0, kind, found.last().1, linum));
    if k < found.len() - 1 {
        lemma_record_knows(variables, kind, found.drop_last(), linum, k);
        lemma_prefix_knows(
            before,
            record(variables, kind, found, linum),
            new_variable(found[k].0, kind, found[k].1, linum),
        );
    }
}

/// A line with fewer than [`MIN_LINE_LENGTH`] characters yields no
/// variable, whatever it holds.
pub proof fn lemma_short_line_yields_nothing(
    variables: Seq<VariableView>,
    linum: usize,
    text: Seq<char>,
)
    requires
        text.len() < MIN_LINE_LENGTH,
    ensures
        extract_line(variables, linum, text) == variables,
{
}

/// Reading a line displaces nothing and leaves the list deduplicated.
pub proof fn lemma_extract_line(variables: Seq<VariableView>, linum: usize, text: Seq<char>)
    ensures
        variables.is_prefix_of(extract_line(variables, linum, text)),
        is_deduplicated(variables) ==> is_deduplicated(extract_line(variables, linum, text)),
{
    if text.len() >= MIN_LINE_LENGTH {
        let lets = scan(variables, VariableKind::Let, linum, text);
        let vars = scan(lets, VariableKind::Var, linum, text);
        let consts = scan(vars, VariableKind::Const, linum, text);
        lemma_record(
            variables,
            VariableKind::Let,
            found_in(regex_captures(pattern_of(VariableKind::Let), text)),
            linum,
        );
        lemma_record(
            lets,
            VariableKind::Var,
            found_in(regex_captures(pattern_of(VariableKind::Var), text)),
            linum,
        );
        lemma_record(
            vars,
            VariableKind::Const,
            found_in(regex_captures(pattern_of(VariableKind::Const), text)),
            linum,
        );
        lemma_record(
            consts,
            VariableKind::Global,
            found_in(regex_captures(pattern_of(VariableKind::Global), text)),
            linum,
        );
    }
}

/// The candidate that a match of a pattern on a line stands for.
pub open spec fn candidate(kind: VariableKind, linum: usize, text: Seq<char>, k: int) -> VariableView {
    let found = found_in(regex_captures(pattern_of(kind), text));
    new_variable(found[k].0, kind, found[k].1, linum)
}

/// Whether `k` numbers a match of the pattern of a kind on a line that is
/// long enough to be read.
pub open spec fn is_match_on(kind: VariableKind, text: Seq<char>, k: int) -> bool {
    text.len() >= MIN_LINE_LENGTH && 0 <= k < found_in(
        regex_captures(pattern_of(kind), text),
    ).len()
}

/// Nothing that a line declares is lost: the name of every match of every
/// pattern is known once the line was read.
pub proof fn lemma_extract_line_knows(
    variables: Seq<VariableView>,
    linum: usize,
    text: Seq<char>,
    kind: VariableKind,
    k: int,
)
    requires
        is_match_on(kind, text, k),
    ensures
        knows(extract_line(variables, linum, text), candidate(kind, linum, text, k)),
{
    let lets = scan(variables, VariableKind::Let, linum, text);
    let vars = scan(lets, VariableKind::Var, linum, text);
    let consts = scan(vars, VariableKind::Const, linum, text);
    let globals = scan(consts, VariableKind::Global, linum, text);
    let found = found_in(regex_captures(pattern_of(kind), text));
    let c = candidate(kind, linum, text, k);
    lemma_record(
        lets,
        VariableKind::Var,
        found_in(regex_captures(pattern_of(VariableKind::Var), text)),
        linum,
    );
    lemma_record(
        vars,
        VariableKind::Const,
        found_in(regex_captures(pattern_of(VariableKind::Const), text)),
        linum,
    );
    lemma_record(
        consts,
        VariableKind::Global,
        found_in(regex_captures(pattern_of(VariableKind::Global), text)),
        linum,
    );
    match kind {
        VariableKind::Let => {
            lemma_record_knows(variables, kind, found, linum, k);
            lemma_prefix_knows(lets, vars, c);
            lemma_prefix_knows(vars, consts, c);
            lemma_prefix_knows(consts, globals, c);
        },
        VariableKind::Var => {
            lemma_record_knows(lets, kind, found, linum, k);
            lemma_prefix_knows(vars, consts, c);
            lemma_prefix_knows(consts, globals, c);
        },
        VariableKind::Const => {
            lemma_record_knows(vars, kind, found, linum, k);
            lemma_prefix_knows(consts, globals, c);
        },
        VariableKind::Global => {
            lemma_record_knows(consts, kind, found, linum, k);
        },
    }
}

/// Nothing that a text declares is lost: the name of every match of every
/// pattern on every line that is read is known to the extraction.
pub proof fn lemma_extract_knows(
    lines: Seq<(usize, Seq<char>)>,
    i: int,
    kind: VariableKind,
    k: int,
)
    requires
        0 <= i < lines.len(),
        is_match_on(kind, lines[i].1, k),
    ensures
        knows(extract(lines), candidate(kind, lines[i].0, lines[i].1, k)),
    decreases lines.len(),
{
    let before = extract(lines.drop_last());
    if i == lines.len() - 1 {
        lemma_extract_line_knows(before, lines.last().0, lines.last().1, kind, k);
    } else {
        lemma_extract_knows(lines.drop_last(), i, kind, k);
        lemma_extract_line(before, lines.last().0, lines.last().1);
        lemma_prefix_knows(before, extract(lines), candidate(kind, lines[i].0, lines[i].1, k));
    }
}

/// Nothing is made up by a pattern: each variable after its matches came
/// up was listed before or is the candidate of one of the matches.
pub proof fn lemma_record_sound(
    variables: Seq<VariableView>,
    kind: VariableKind,
    found: Found,
    linum: usize,
    v: VariableView,
)
    requires
        record(variables, kind, found, linum).contains(v),
    ensures
        variables.contains(v) || exists|k: int|
            0 <= k < found.len() && v == new_variable(
                (#[trigger] found[k]).0,
                kind,
                found[k].1,
                linum,
            ),
    decreases found.len(),
{
    if found.len() > 0 {
        let before = record(variables, kind, found.drop_last(), linum);
        let after = record(variables, kind, found, linum);
        let j = choose|j: int| 0 <= j < after.len() && after[j] == v;
        if j < before.len() {
            assert(before[j] == v);
            lemma_record_sound(variables, kind, found.drop_last(), linum, v);
            if !variables.contains(v) {
                let k = choose|k: int|
                    0 <= k < found.drop_last().len() && v == new_variable(
                        (#[trigger] found.drop_last()[k]).0,
                        kind,
                        found.drop_last()[k].1,
                        linum,
                    );
                assert(found.drop_last()[k] == found[k]);
            }
        } else {
            assert(found.last() == found[found.len() - 1]);
        }
    }
}

/// Nothing is made up by a line: each variable after it was read was
/// listed before or is the candidate of a match on the line.
pub proof fn lemma_extract_line_sound(
    variables: Seq<VariableView>,
    linum: usize,
    text: Seq<char>,
    v: VariableView,
)
    requires
        extract_line(variables, linum, text).contains(v),
    ensures
        variables.contains(v) || exists|kind: VariableKind, k: int|
            is_match_on(kind, text, k) && v == #[trigger] candidate(kind, linum, text, k),
{
    if text.len() >= MIN_LINE_LENGTH {
        let lets = scan(variables, VariableKind::Let, linum, text);
        let vars = scan(lets, VariableKind::Var, linum, text);
        let consts = scan(vars, VariableKind::Const, linum, text);
        let found_lets = found_in(regex_captures(pattern_of(VariableKind::Let), text));
        let found_vars = found_in(regex_captures(pattern_of(VariableKind::Var), text));
        let found_consts = found_in(regex_captures(pattern_of(VariableKind::Const), text));
        let found_globals = found_in(regex_captures(pattern_of(VariableKind::Global), text));
        lemma_record_sound(consts, VariableKind::Global, found_globals, linum, v);
        if consts.contains(v) {
            lemma_record_sound(vars, VariableKind::Const, found_consts, linum, v);
            if vars.contains(v) {
                lemma_record_sound(lets, VariableKind::Var, found_vars, linum, v);
                if lets.contains(v) {
                    lemma_record_sound(variables, VariableKind::Let, found_lets, linum, v);
                    if !variables.contains(v) {
                        let k = choose|k: int|
                            0 <= k < found_lets.len() && v == new_variable(
                                (#[trigger] found_lets[k]).0,
                                VariableKind::Let,
                                found_lets[k].1,
                                linum,
                            );
                        assert(v == candidate(VariableKind::Let, linum, text, k));
                    }
                } else {
                    let k = choose|k: int|
                        0 <= k < found_vars.len() && v == new_variable(
                            (#[trigger] found_vars[k]).0,
                            VariableKind::Var,
                            found_vars[k].1,
                            linum,
                        );
                    assert(v == candidate(VariableKind::Var, linum, text, k));
                }
            } else {
                let k = choose|k: int|
                    0 <= k < found_consts.len() && v == new_variable(
                        (#[trigger] found_consts[k]).0,
                        VariableKind::Const,
                        found_consts[k].1,
                        linum,
                    );
                assert(v == candidate(VariableKind::Const, linum, text, k));
            }
        } else {
            let k = choose|k: int|
                0 <= k < found_globals.len() && v == new_variable(
                    (#[trigger] found_globals[k]).0,
                    VariableKind::Global,
                    found_globals[k].1,
                    linum,
                );
            assert(v == candidate(VariableKind::Global, linum, text, k));
        }
    }
}

/// Nothing is made up: each variable of a text is the candidate of a match
/// of one of the patterns on one of its lines.
pub proof fn lemma_extract_sound(lines: Seq<(usize, Seq<char>)>, v: VariableView)
    requires
        extract(lines).contains(v),
    ensures
        exists|i: int, kind: VariableKind, k: int|
            0 <= i < lines.len() && is_match_on(kind, lines[i].1, k) && v == #[trigger] candidate(
                kind,
                lines[i].0,
                lines[i].1,
                k,
            ),
    decreases lines.len(),
{
    if lines.len() > 0 {
        let before = extract(lines.drop_last());
        lemma_extract_line_sound(before, lines.last().0, lines.last().1, v);
        if before.contains(v) {
            lemma_extract_sound(lines.drop_last(), v);
            let (i, kind, k) = choose|i: int, kind: VariableKind, k: int|
                0 <= i < lines.drop_last().len() && is_match_on(kind, lines.drop_last()[i].1, k)
                    && v == #[trigger] candidate(
                    kind,
                    lines.drop_last()[i].0,
                    lines.drop_last()[i].1,
                    k,
                );
            assert(lines.drop_last()[i] == lines[i]);
            assert(v == candidate(kind, lines[i].0, lines[i].1, k));
        } else {
            let (kind, k) = choose|kind: VariableKind, k: int|
                is_match_on(kind, lines.last().1, k) && v == #[trigger] candidate(
                    kind,
                    lines.last().0,
                    lines.last().1,
                    k,
                );
            let i = lines.len() - 1;
            assert(v == candidate(kind, lines[i].0, lines[i].1, k));
        }
    } else {
        assert(extract(lines).len() == 0);
    }
}

/// The dedup invariant: whatever the text, no two of its variables share
/// name and scope.
pub proof fn lemma_extract_deduplicated(lines: Seq<(usize, Seq<char>)>)
    ensures
        is_deduplicated(extract(lines)),
    decreases lines.len(),
{
    if lines.len() > 0 {
        lemma_extract_deduplicated(lines.drop_last());
        lemma_extract_line(extract(lines.drop_last()), lines.last().0, lines.last().1);
    }
}

/// First seen, first kept: the variables of the first `n` lines of a text
/// are the first variables of the whole text, unchanged.
pub proof fn lemma_extract_keeps_earlier(lines: Seq<(usize, Seq<char>)>, n: int)
    requires
        0 <= n <= lines.len(),
    ensures
        extract(lines.take(n)).is_prefix_of(extract(lines)),
    decreases lines.len(),
{
    if n == lines.len() {
        assert(lines.take(n) =~= lines);
    } else {
        lemma_extract_keeps_earlier(lines.drop_last(), n);
        assert(lines.drop_last().take(n) =~= lines.take(n));
        lemma_extract_line(extract(lines.drop_last()), lines.last().0, lines.last().1);
    }
}

/// A text of short lines only yields no variable.
pub proof fn lemma_short_lines_yield_nothing(lines: Seq<(usize, Seq<char>)>)
    requires
        forall|i: int| 0 <= i < lines.len() ==> (#[trigger] lines[i]).1.len() < MIN_LINE_LENGTH,
    ensures
        extract(lines).len() == 0,
    decreases lines.len(),
{
    if lines.len() > 0 {
        lemma_short_lines_yield_nothing(lines.drop_last());
    }
}

/// The findings on a text list nothing twice and nothing with an empty
/// title.
pub proof fn lemma_findings_tidy(lines: Seq<(usize, Seq<char>)>)
    ensures
        is_tidy(findings(lines)),
{
    lemma_turn_tidy(name_judgement(), extract(lines), Seq::empty());
}

/// The lines of a text with their 0-based numbers.
pub open spec fn numbered(lines: Seq<String>) -> Seq<(usize, Seq<char>)> {
    Seq::new(lines.len(), |i: int| (i as usize, lines[i]@))
}

/// Turns the lines of a text into what the extractor reads.
pub struct Reader {}

impl Reader {
    /// Numbers the lines of a text, from 0.
    pub fn number_lines(lines: Vec<String>) -> (pairs: Vec<(usize, String)>)
        ensures
            lines_view(pairs@) == numbered(lines@),
    {
        let mut pairs: Vec<(usize, String)> = Vec::new();
        let mut i: usize = 0;
        while i < lines.len()
            invariant
                i <= lines.len(),
                pairs@.len() == i,
                forall|j: int|
                    0 <= j < i ==> (#[trigger] pairs@[j]).0 == j && pairs@[j].1@ == lines@[j]@,
            decreases lines.len() - i,
        {
            pairs.push((i, lines[i].clone()));
            i = i + 1;
        }
        assert(lines_view(pairs@) =~= numbered(lines@));
        pairs
    }
}

/// `std::io::Error`, the error of a failed read. It is declared so that the
/// linter can hand it on; nothing is said of what it holds.
#[verifier::external_type_specification]
#[verifier::external_body]
pub struct ExIoError(std::io::Error);

/// Extracts the declarations of a text and lints them.
pub struct Parser {}

impl Parser {
    /// The pattern by which declarations of a kind are found.
    pub fn pattern(kind: VariableKind) -> (pattern: &'static str)
        ensures
            pattern@ == pattern_of(kind),
    {
        match kind {
            VariableKind::Let => LET_PATTERN,
            VariableKind::Var => VAR_PATTERN,
            VariableKind::Const => CONST_PATTERN,
            VariableKind::Global => GLOBAL_PATTERN,
        }
    }

    /// Whether the list holds a variable with the name and scope of `var`.
    pub fn is_known(variables: &Vec<Variable>, var: &Variable) -> (known: bool)
        ensures
            known == knows(variable_views(variables@), var@),
    {
        let mut i: usize = 0;
        while i < variables.len()
            invariant
                i <= variables.len(),
                forall|j: int|
                    0 <= j < i ==> !(#[trigger] variable_views(variables@)[j]).same_variable(var@),
            decreases variables.len() - i,
        {
            if variables[i] == *var {
                assert(variable_views(variables@)[i as int].same_variable(var@));
                return true;
            }
            i = i + 1;
        }
        false
    }

    /// Adds the matches of one pattern on one line to the list: each match
    /// as a candidate of the given kind, unless its name is known already.
    pub fn record(
        variables: &mut Vec<Variable>,
        kind: VariableKind,
        found: &Vec<(String, String)>,
        linum: usize,
    )
        ensures
            variable_views(final(variables)@) == record(
                variable_views(old(variables)@),
                kind,
                pairs_view(found@),
                linum,
            ),
    {
        let ghost before = variable_views(variables@);
        let ghost pairs = pairs_view(found@);
        let mut i: usize = 0;
        assert(pairs.take(0).len() == 0);
        while i < found.len()
            invariant
                i <= found.len(),
                pairs == pairs_view(found@),
                variable_views(variables@) == record(before, kind, pairs.take(i as int), linum),
            decreases found.len() - i,
        {
            let var = Variable::new(found[i].0.as_str(), kind, found[i].1.as_str(), linum);
            proof {
                assert(pairs.take(i + 1).drop_last() =~= pairs.take(i as int));
                assert(pairs.take(i + 1).last() == (found[i as int].0@, found[i as int].1@));
            }
            if !Self::is_known(variables, &var) {
                let ghost listed = variable_views(variables@);
                variables.push(var);
                assert(variable_views(variables@) =~= listed.push(var@));
            }
            i = i + 1;
        }
        assert(pairs.take(i as int) =~= pairs);
    }

    /// Searches one line for declarations of one kind and adds what it
    /// finds to the list.
    pub fn scan(variables: &mut Vec<Variable>, kind: VariableKind, linum: usize, text: &str)
        ensures
            variable_views(final(variables)@) == scan(
                variable_views(old(variables)@),
                kind,
                linum,
                text@,
            ),
    {
        match captures(Self::pattern(kind), text) {
            Some(found) => Self::record(variables, kind, &found, linum),
            None => {},
        }
    }

    /// Reads one line: a line of fewer than [`MIN_LINE_LENGTH`] characters
    /// is passed over, any other is searched with the four patterns in
    /// their fixed order.
    pub fn extract_line(variables: &mut Vec<Variable>, linum: usize, text: &str)
        ensures
            variable_views(final(variables)@) == extract_line(
                variable_views(old(variables)@),
                linum,
                text@,
            ),
            text@.len() < MIN_LINE_LENGTH ==> variable_views(final(variables)@) == variable_views(
                old(variables)@,
            ),
    {
        if text.unicode_len() < MIN_LINE_LENGTH {
            return ;
        }
        Self::scan(variables, VariableKind::Let, linum, text);
        Self::scan(variables, VariableKind::Var, linum, text);
        Self::scan(variables, VariableKind::Const, linum, text);
        Self::scan(variables, VariableKind::Global, linum, text);
    }

    /// Collects the variables of a whole text, each name once, in the order
    /// in which they first came up.
    pub fn extract(lines: &Vec<(usize, String)>) -> (variables: Vec<Variable>)
        ensures
            variable_views(variables@) == extract(lines_view(lines@)),
            is_deduplicated(variable_views(variables@)),
    {
        let mut variables: Vec<Variable> = Vec::new();
        let ghost text = lines_view(lines@);
        let mut i: usize = 0;
        assert(variable_views(variables@) =~= Seq::empty());
        assert(text.take(0).len() == 0);
        while i < lines.len()
            invariant
                i <= lines.len(),
                text == lines_view(lines@),
                variable_views(variables@) == extract(text.take(i as int)),
            decreases lines.len() - i,
        {
            proof {
                assert(text.take(i + 1).drop_last() =~= text.take(i as int));
                assert(text.take(i + 1).last() == (lines[i as int].0, lines[i as int].1@));
            }
            Self::extract_line(&mut variables, lines[i].0, lines[i].1.as_str());
            i = i + 1;
        }
        proof {
            assert(text.take(i as int) =~= text);
            lemma_extract_deduplicated(text);
        }
        variables
    }

    /// Lints a whole text, given as its numbered lines: collects its
    /// variables and lists what the naming rules object to. Where the text
    /// could not be read, the error of the read is handed back instead.
    pub fn parse_loc(line_loc_pair: std::io::Result<Box<Vec<(usize, String)>>>) -> (result:
        std::io::Result<Box<Vec<ReportLine>>>)
        ensures
            match line_loc_pair {
                Ok(lines) => result is Ok && line_views(result->Ok_0@) == findings(
                    lines_view(lines@),
                ) && is_tidy(line_views(result->Ok_0@)),
                Err(error) => result is Err && result->Err_0 == error,
            },
    {
        match line_loc_pair {
            Ok(lines) => Ok(Box::new(Self::lint(&lines))),
            Err(error) => Err(error),
        }
    }

    /// Lints the numbered lines of a text.
    pub fn lint(lines: &Vec<(usize, String)>) -> (report: Vec<ReportLine>)
        ensures
            line_views(report@) == findings(lines_view(lines@)),
            is_tidy(line_views(report@)),
    {
        let variables = Self::extract(lines);
        let naming: Box<dyn Recommender> = Box::new(NameValidity {  });
        let recommenders = single(naming);
        assert(forall|v: VariableView| recommenders@[0].suggestion(v) == name_finding(v));
        let rep = Report::new(Box::new(variables), recommenders);
        proof {
            let judgements = rep.judgements();
            let found = rep.variables();
            assert forall|v: VariableView| #[trigger] judgements[0](v) == name_judgement()(v) by {
                assert(judgements[0](v) == recommenders@[0].suggestion(v));
            }
            assert(judgements.last() =~= name_judgement());
            assert(report_of(judgements.drop_last(), found) =~= Seq::empty());
            assert(report_of(judgements, found) == turn(name_judgement(), found, Seq::empty()));
        }
        *rep.generate()
    }
}

} // verus!
