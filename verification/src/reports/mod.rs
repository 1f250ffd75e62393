//! The report: every rule set is asked about every variable, and what they
//! object to is listed once, in the order in which it came up.

use crate::recommenders::{Recommender, ReportLine, ReportLineView, Variable, VariableView};
use vstd::prelude::*;

verus! {

/// The contents of a list of variables.
pub open spec fn variable_views(variables: Seq<Variable>) -> Seq<VariableView> {
    variables.map_values(|v: Variable| v@)
}

/// The contents of a list of findings.
pub open spec fn line_views(lines: Seq<ReportLine>) -> Seq<ReportLineView> {
    lines.map_values(|l: ReportLine| l@)
}

/// A report after one more finding came up: it is appended unless its title
/// is empty or the report holds it already.
pub open spec fn add_finding(report: Seq<ReportLineView>, issue: ReportLineView) -> Seq<
    ReportLineView,
> {
    if issue.title.len() == 0 || report.contains(issue) {
        report
    } else {
        report.push(issue)
    }
}

/// What a rule set says of each variable.
pub type Judgement = spec_fn(VariableView) -> ReportLineView;

/// A report after one rule set has judged the variables, first to last.
pub open spec fn turn(
    judgement: Judgement,
    variables: Seq<VariableView>,
    report: Seq<ReportLineView>,
) -> Seq<ReportLineView>
    decreases variables.len(),
{
    if variables.len() == 0 {
        report
    } else {
        add_finding(
            turn(judgement, variables.drop_last(), report),
            judgement(variables.last()),
        )
    }
}

/// The report of the rule sets on the variables: the rule sets take their
/// turns in order, each over all the variables.
pub open spec fn report_of(
    judgements: Seq<Judgement>,
    variables: Seq<VariableView>,
) -> Seq<ReportLineView>
    decreases judgements.len(),
{
    if judgements.len() == 0 {
        Seq::empty()
    } else {
        turn(judgements.last(), variables, report_of(judgements.drop_last(), variables))
    }
}

/// A report that lists nothing twice and nothing with an empty title.
pub open spec fn is_tidy(report: Seq<ReportLineView>) -> bool {
    &&& forall|i: int| 0 <= i < report.len() ==> (#[trigger] report[i]).title.len() > 0
    &&& forall|i: int, j: int| 0 <= i < j < report.len() ==> report[i] != report[j]
}

/// Adding a finding keeps a tidy report tidy.
pub proof fn lemma_add_finding_tidy(report: Seq<ReportLineView>, issue: ReportLineView)
    requires
        is_tidy(report),
    ensures
        is_tidy(add_finding(report, issue)),
{
}

/// A finding that came up is in the report from then on, unless its title
/// is empty; and what was in the report stays, at its place.
pub proof fn lemma_add_finding_keeps(report: Seq<ReportLineView>, issue: ReportLineView)
    ensures
        report.is_prefix_of(add_finding(report, issue)),
        issue.title.len() > 0 ==> add_finding(report, issue).contains(issue),
        forall|l: ReportLineView| #[trigger]
            add_finding(report, issue).contains(l) ==> report.contains(l) || l == issue,
{
    let after = add_finding(report, issue);
    if issue.title.len() > 0 && !report.contains(issue) {
        assert(after[report.len() as int] == issue);
    }
    assert forall|l: ReportLineView| #[trigger] after.contains(l) implies report.contains(l) || l
        == issue by {
        let i = choose|i: int| 0 <= i < after.len() && after[i] == l;
        if i < report.len() {
            assert(report[i] == l);
        }
    }
}

/// One rule set's turn displaces nothing: what was in the report stays, at
/// its place.
pub proof fn lemma_turn_keeps(
    judgement: Judgement,
    variables: Seq<VariableView>,
    report: Seq<ReportLineView>,
)
    ensures
        report.is_prefix_of(turn(judgement, variables, report)),
    decreases variables.len(),
{
    if variables.len() > 0 {
        lemma_turn_keeps(judgement, variables.drop_last(), report);
        let before = turn(judgement, variables.drop_last(), report);
        lemma_add_finding_keeps(before, judgement(variables.last()));
    }
}

/// One rule set's turn keeps a tidy report tidy.
pub proof fn lemma_turn_tidy(
    judgement: Judgement,
    variables: Seq<VariableView>,
    report: Seq<ReportLineView>,
)
    requires
        is_tidy(report),
    ensures
        is_tidy(turn(judgement, variables, report)),
    decreases variables.len(),
{
    if variables.len() > 0 {
        lemma_turn_tidy(judgement, variables.drop_last(), report);
        let before = turn(judgement, variables.drop_last(), report);
        lemma_add_finding_tidy(before, judgement(variables.last()));
    }
}

/// What is in a report is in every report that it is the beginning of.
pub proof fn lemma_prefix_contains(
    shorter: Seq<ReportLineView>,
    longer: Seq<ReportLineView>,
    line: ReportLineView,
)
    requires
        shorter.is_prefix_of(longer),
        shorter.contains(line),
    ensures
        longer.contains(line),
{
    let i = choose|i: int| 0 <= i < shorter.len() && shorter[i] == line;
    assert(longer[i] == line);
}

/// After a rule set's turn the report lists each of its objections.
pub proof fn lemma_turn_lists(
    judgement: Judgement,
    variables: Seq<VariableView>,
    report: Seq<ReportLineView>,
    k: int,
)
    requires
        0 <= k < variables.len(),
        judgement(variables[k]).title.len() > 0,
    ensures
        turn(judgement, variables, report).contains(judgement(variables[k])),
    decreases variables.len(),
{
    let before = turn(judgement, variables.drop_last(), report);
    lemma_add_finding_keeps(before, judgement(variables.last()));
    if k < variables.len() - 1 {
        lemma_turn_lists(judgement, variables.drop_last(), report, k);
        lemma_prefix_contains(
            before,
            turn(judgement, variables, report),
            judgement(variables[k]),
        );
    }
}

/// A rule set's turn adds nothing of its own making: each line after it
/// was in the report before, or is what the rule set says of a variable.
pub proof fn lemma_turn_sound(
    judgement: Judgement,
    variables: Seq<VariableView>,
    report: Seq<ReportLineView>,
    line: ReportLineView,
)
    requires
        turn(judgement, variables, report).contains(line),
    ensures
        report.contains(line) || exists|k: int|
            0 <= k < variables.len() && line == judgement(#[trigger] variables[k]),
    decreases variables.len(),
{
    if variables.len() > 0 {
        let before = turn(judgement, variables.drop_last(), report);
        lemma_add_finding_keeps(before, judgement(variables.last()));
        if before.contains(line) {
            lemma_turn_sound(judgement, variables.drop_last(), report, line);
            if !report.contains(line) {
                let k = choose|k: int|
                    0 <= k < variables.drop_last().len() && line == judgement(
                        #[trigger] variables.drop_last()[k],
                    );
                assert(line == judgement(variables[k]));
            }
        } else {
            assert(line == judgement(variables[variables.len() - 1]));
        }
    }
}

/// A turn of a rule set whose objections are all listed changes nothing.
pub proof fn lemma_turn_again(
    judgement: Judgement,
    variables: Seq<VariableView>,
    report: Seq<ReportLineView>,
)
    requires
        forall|k: int|
            0 <= k < variables.len() && judgement(#[trigger] variables[k]).title.len() > 0
                ==> report.contains(judgement(variables[k])),
    ensures
        turn(judgement, variables, report) == report,
    decreases variables.len(),
{
    if variables.len() > 0 {
        assert forall|k: int|
            0 <= k < variables.drop_last().len() && judgement(
                #[trigger] variables.drop_last()[k],
            ).title.len() > 0 implies report.contains(judgement(variables.drop_last()[k])) by {
            assert(variables.drop_last()[k] == variables[k]);
        }
        lemma_turn_again(judgement, variables.drop_last(), report);
        assert(variables.last() == variables[variables.len() - 1]);
    }
}

/// A report never lists a finding twice, whichever rule sets and variables
/// it came from, and never lists an empty title.
pub proof fn lemma_report_tidy(judgements: Seq<Judgement>, variables: Seq<VariableView>)
    ensures
        is_tidy(report_of(judgements, variables)),
    decreases judgements.len(),
{
    if judgements.len() > 0 {
        lemma_report_tidy(judgements.drop_last(), variables);
        lemma_turn_tidy(judgements.last(), variables, report_of(judgements.drop_last(), variables));
    }
}

/// The report is complete: it lists every objection of every rule set to
/// every variable.
pub proof fn lemma_report_lists(
    judgements: Seq<Judgement>,
    variables: Seq<VariableView>,
    i: int,
    k: int,
)
    requires
        0 <= i < judgements.len(),
        0 <= k < variables.len(),
        judgements[i](variables[k]).title.len() > 0,
    ensures
        report_of(judgements, variables).contains(judgements[i](variables[k])),
    decreases judgements.len(),
{
    let before = report_of(judgements.drop_last(), variables);
    if i == judgements.len() - 1 {
        lemma_turn_lists(judgements.last(), variables, before, k);
    } else {
        lemma_report_lists(judgements.drop_last(), variables, i, k);
        lemma_turn_keeps(judgements.last(), variables, before);
        lemma_prefix_contains(
            before,
            report_of(judgements, variables),
            judgements[i](variables[k]),
        );
    }
}

/// The report holds nothing else: each of its lines is what one of the
/// rule sets says of one of the variables.
pub proof fn lemma_report_sound(
    judgements: Seq<Judgement>,
    variables: Seq<VariableView>,
    line: ReportLineView,
)
    requires
        report_of(judgements, variables).contains(line),
    ensures
        exists|i: int, k: int|
            0 <= i < judgements.len() && 0 <= k < variables.len() && line == (
            #[trigger] judgements[i])(#[trigger] variables[k]),
    decreases judgements.len(),
{
    if judgements.len() > 0 {
        let before = report_of(judgements.drop_last(), variables);
        lemma_turn_sound(judgements.last(), variables, before, line);
        if before.contains(line) {
            lemma_report_sound(judgements.drop_last(), variables, line);
            let (i, k) = choose|i: int, k: int|
                0 <= i < judgements.drop_last().len() && 0 <= k < variables.len() && line == (
                #[trigger] judgements.drop_last()[i])(#[trigger] variables[k]);
            assert(line == judgements[i](variables[k]));
        } else {
            let k = choose|k: int|
                0 <= k < variables.len() && line == (judgements.last())(#[trigger] variables[k]);
            assert(line == judgements[judgements.len() - 1](variables[k]));
        }
    }
}

/// A rule set that is asked a second time adds nothing: equal findings
/// collapse to one.
pub proof fn lemma_repeated_rule_set(
    judgements: Seq<Judgement>,
    variables: Seq<VariableView>,
    i: int,
)
    requires
        0 <= i < judgements.len(),
    ensures
        report_of(judgements.push(judgements[i]), variables) == report_of(judgements, variables),
{
    let again = judgements.push(judgements[i]);
    let report = report_of(judgements, variables);
    assert(again.drop_last() =~= judgements);
    assert(again.last() == judgements[i]);
    assert forall|k: int|
        0 <= k < variables.len() && (judgements[i])(#[trigger] variables[k]).title.len()
            > 0 implies report.contains(judgements[i](variables[k])) by {
        lemma_report_lists(judgements, variables, i, k);
    }
    lemma_turn_again(judgements[i], variables, report);
}

/// A list of one item: the rule sets of a report with a single rule set.
pub fn single<T>(item: T) -> (list: Vec<T>)
    ensures
        list@.len() == 1,
        list@[0] == item,
{
    let mut list: Vec<T> = Vec::new();
    list.push(item);
    list
}

/// Whether a list of findings holds one equal to `issue`.
pub fn contains_line(report: &Vec<ReportLine>, issue: &ReportLine) -> (found: bool)
    ensures
        found == line_views(report@).contains(issue@),
{
    let mut i: usize = 0;
    while i < report.len()
        invariant
            i <= report.len(),
            forall|j: int| 0 <= j < i ==> line_views(report@)[j] != issue@,
        decreases report.len() - i,
    {
        if report[i].title == issue.title && report[i].variable_name == issue.variable_name {
            assert(line_views(report@)[i as int] == issue@);
            return true;
        }
        i = i + 1;
    }
    false
}

/// The variables of one run, with the rule sets that judge them.
pub struct Report {
    recommenders: Vec<Box<dyn Recommender>>,
    variables: Box<Vec<Variable>>,
}

impl Report {
    /// The rule sets, in the order of their turns.
    pub closed spec fn judgements(&self) -> Seq<Judgement> {
        Seq::new(
            self.recommenders@.len(),
            |i: int| (|variable: VariableView| self.recommenders@[i].suggestion(variable)),
        )
    }

    /// The variables, in the order in which they are judged.
    pub closed spec fn variables(&self) -> Seq<VariableView> {
        variable_views(self.variables@)
    }

    pub fn new(variables: Box<Vec<Variable>>, recommenders: Vec<Box<dyn Recommender>>) -> (report:
        Report)
        ensures
            report.variables() == variable_views(variables@),
            report.judgements().len() == recommenders@.len(),
            forall|i: int, variable: VariableView|
                0 <= i < recommenders@.len() ==> #[trigger] report.judgements()[i](variable)
                    == recommenders@[i].suggestion(variable),
    {
        Report { variables, recommenders }
    }

    /// Lists what the rule sets object to: each finding once, none with an
    /// empty title, in the order in which they came up.
    pub fn generate(&self) -> (report: Box<Vec<ReportLine>>)
        ensures
            line_views(report@) == report_of(self.judgements(), self.variables()),
            is_tidy(line_views(report@)),
    {
        let mut report: Vec<ReportLine> = Vec::new();
        let ghost variables = self.variables();
        let mut r: usize = 0;
        assert(line_views(report@) =~= Seq::empty());
        assert(self.judgements().take(0).len() == 0);
        while r < self.recommenders.len()
            invariant
                r <= self.recommenders.len(),
                variables == self.variables(),
                self.judgements().len() == self.recommenders.len(),
                line_views(report@) == report_of(self.judgements().take(r as int), variables),
            decreases self.recommenders.len() - r,
        {
            let rec = &self.recommenders[r];
            let ghost judgement = self.judgements()[r as int];
            let ghost before = line_views(report@);
            let mut v: usize = 0;
            assert(variables.take(0).len() == 0);
            while v < self.variables.len()
                invariant
                    v <= self.variables.len(),
                    variables == self.variables(),
                    variables.len() == self.variables.len(),
                    forall|variable: VariableView| #[trigger]
                        judgement(variable) == rec.suggestion(variable),
                    line_views(report@) == turn(judgement, variables.take(v as int), before),
                decreases self.variables.len() - v,
            {
                let issue = rec.suggest(&self.variables[v]);
                proof {
                    assert(variables.take(v + 1).drop_last() =~= variables.take(v as int));
                    assert(variables.take(v + 1).last() == self.variables[v as int]@);
                }
                if !issue.title.as_str().is_empty() && !contains_line(&report, &issue) {
                    let ghost listed = line_views(report@);
                    report.push(issue);
                    assert(line_views(report@) =~= listed.push(issue@));
                }
                v = v + 1;
            }
            proof {
                assert(variables.take(v as int) =~= variables);
                let turns = self.judgements().take(r + 1);
                assert(turns.drop_last() =~= self.judgements().take(r as int));
                assert(turns.last() == judgement);
            }
            r = r + 1;
        }
        proof {
            assert(self.judgements().take(r as int) =~= self.judgements());
            lemma_report_tidy(self.judgements(), variables);
        }
        Box::new(report)
    }
}

} // verus!
