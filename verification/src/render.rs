//! The exposition: the text that a collector reads.

use crate::metric::{rendered_metric, Metric, MetricView};
use crate::rule::{Rule, RuleView};
use crate::target::{target_views, Target, TargetView};
use crate::text::{push_char, push_text};
use vstd::prelude::*;

verus! {

/// The first `upto` lines, with a line feed between each two.
pub open spec fn joined_lines(lines: Seq<Seq<char>>, upto: int) -> Seq<char>
    decreases upto,
{
    if upto <= 0 {
        Seq::empty()
    } else if upto == 1 {
        lines[0]
    } else {
        joined_lines(lines, upto - 1) + seq!['\n'] + lines[upto - 1]
    }
}

/// The line that opens the part of a target. It ends in a line feed of its
/// own, so that an empty line follows it.
pub open spec fn banner(name: Seq<char>) -> Seq<char> {
    "################### "@ + name + " ###################\n"@
}

/// The line that declares the series of a rule as gauges.
pub open spec fn type_line(name: Seq<char>) -> Seq<char> {
    "# TYPE "@ + name + " gauge"@
}

/// The lines of the metrics that a rule holds, in their order.
pub open spec fn metric_lines(results: Seq<MetricView>) -> Seq<Seq<char>> {
    Seq::new(results.len(), |i: int| rendered_metric(results[i]))
}

/// The lines of a rule: the type line and one line for each metric if the
/// rule holds any, and an empty line in either case.
pub open spec fn rule_lines(rule: RuleView) -> Seq<Seq<char>> {
    if rule.results.len() > 0 {
        seq![type_line(rule.name)] + metric_lines(rule.results) + seq![Seq::empty()]
    } else {
        seq![Seq::empty()]
    }
}

/// The lines of the first `upto` rules, in the order of the rules.
pub open spec fn rules_lines(rules: Seq<RuleView>, upto: int) -> Seq<Seq<char>>
    decreases upto,
{
    if upto <= 0 {
        Seq::empty()
    } else {
        rules_lines(rules, upto - 1) + rule_lines(rules[upto - 1])
    }
}

/// The lines of a target: its banner, the lines of its rules and an empty
/// line.
pub open spec fn target_lines(target: TargetView) -> Seq<Seq<char>> {
    seq![banner(target.name)] + rules_lines(target.rules, target.rules.len() as int) + seq![
        Seq::empty(),
    ]
}

/// The lines of the first `upto` targets, in the order of the targets.
pub open spec fn targets_lines(targets: Seq<TargetView>, upto: int) -> Seq<Seq<char>>
    decreases upto,
{
    if upto <= 0 {
        Seq::empty()
    } else {
        targets_lines(targets, upto - 1) + target_lines(targets[upto - 1])
    }
}

/// The exposition of the targets: all their lines, with a line feed between
/// each two. Targets and rules come in the order of the configuration, the
/// metrics of a rule in the order in which they were found.
pub open spec fn document(targets: Seq<TargetView>) -> Seq<char> {
    let lines = targets_lines(targets, targets.len() as int);
    joined_lines(lines, lines.len() as int)
}

/// Two renderings of the same targets give the same text, character for
/// character: as long as no scrape changes what the targets hold, the
/// exposition does not change.
pub proof fn lemma_render_stable(targets: Seq<Target>, first: Seq<char>, second: Seq<char>)
    requires
        first == document(target_views(targets)),
        second == document(target_views(targets)),
    ensures
        first == second,
{
}

/// Without targets the exposition is empty.
pub proof fn lemma_render_nothing()
    ensures
        document(Seq::<TargetView>::empty()) == Seq::<char>::empty(),
{
}

/// The media type of the exposition.
pub fn content_type() -> (media: &'static str)
    ensures
        media@ == "text/plain; version=0.0.4"@,
{
    "text/plain; version=0.0.4"
}

fn push_line(lines: &mut Vec<String>, line: String)
    ensures
        final(lines).deep_view() == old(lines).deep_view().push(line@),
{
    let ghost before = lines.deep_view();
    lines.push(line);
    assert(lines.deep_view() =~= before.push(line@));
}

fn push_rule_lines(lines: &mut Vec<String>, rule: &Rule)
    ensures
        final(lines).deep_view() == old(lines).deep_view() + rule_lines(rule@),
{
    let ghost before = lines.deep_view();
    let results: &Vec<Metric> = rule.results().gauges();
    if results.len() > 0 {
        let mut head = String::new();
        push_text(&mut head, "# TYPE ");
        push_text(&mut head, rule.name());
        push_text(&mut head, " gauge");
        assert(head@ =~= type_line(rule@.name));
        push_line(lines, head);
        let mut i: usize = 0;
        while i < results.len()
            invariant
                i <= results.len(),
                results.deep_view() == rule@.results,
                lines.deep_view() == before + seq![type_line(rule@.name)] + metric_lines(
                    rule@.results,
                ).take(i as int),
            decreases results.len() - i,
        {
            let line = results[i].render();
            assert(results.deep_view()[i as int] == results@[i as int].deep_view());
            push_line(lines, line);
            assert(metric_lines(rule@.results).take(i + 1) =~= metric_lines(rule@.results).take(
                i as int,
            ).push(metric_lines(rule@.results)[i as int]));
            assert(lines.deep_view() =~= before + seq![type_line(rule@.name)] + metric_lines(
                rule@.results,
            ).take(i + 1));
            i += 1;
        }
        assert(metric_lines(rule@.results).take(results.len() as int) =~= metric_lines(
            rule@.results,
        ));
        push_line(lines, String::new());
        assert(lines.deep_view() =~= before + rule_lines(rule@));
    } else {
        push_line(lines, String::new());
        assert(lines.deep_view() =~= before + rule_lines(rule@));
    }
}

fn push_target_lines(lines: &mut Vec<String>, target: &Target)
    ensures
        final(lines).deep_view() == old(lines).deep_view() + target_lines(target@),
{
    let ghost before = lines.deep_view();
    let mut head = String::new();
    push_text(&mut head, "################### ");
    push_text(&mut head, target.name());
    push_text(&mut head, " ###################\n");
    assert(head@ =~= banner(target@.name));
    push_line(lines, head);
    let rules = target.rules();
    let mut i: usize = 0;
    while i < rules.len()
        invariant
            i <= rules.len(),
            rules@.len() == target@.rules.len(),
            forall|k: int| 0 <= k < rules.len() ==> (#[trigger] rules@[k])@ == target@.rules[k],
            lines.deep_view() == before + seq![banner(target@.name)] + rules_lines(
                target@.rules,
                i as int,
            ),
        decreases rules.len() - i,
    {
        push_rule_lines(lines, &rules[i]);
        assert(lines.deep_view() =~= before + seq![banner(target@.name)] + rules_lines(
            target@.rules,
            i + 1,
        ));
        i += 1;
    }
    push_line(lines, String::new());
    assert(lines.deep_view() =~= before + target_lines(target@));
}

fn join_lines(lines: &Vec<String>) -> (text: String)
    ensures
        text@ == joined_lines(lines.deep_view(), lines.len() as int),
{
    let mut text = String::new();
    let mut i: usize = 0;
    while i < lines.len()
        invariant
            i <= lines.len(),
            text@ == joined_lines(lines.deep_view(), i as int),
        decreases lines.len() - i,
    {
        if i > 0 {
            push_char(&mut text, '\n');
        }
        push_text(&mut text, lines[i].as_str());
        assert(lines.deep_view()[i as int] == lines@[i as int]@);
        assert(text@ =~= joined_lines(lines.deep_view(), i + 1));
        i += 1;
    }
    text
}

/// Renders what the targets hold as the exposition. This cannot fail.
pub fn serve_metrics(targets: &Vec<Target>) -> (body: String)
    ensures
        body@ == document(target_views(targets@)),
{
    let mut lines: Vec<String> = Vec::new();
    assert(lines.deep_view() =~= Seq::empty());
    let mut i: usize = 0;
    while i < targets.len()
        invariant
            i <= targets.len(),
            lines.deep_view() == targets_lines(target_views(targets@), i as int),
        decreases targets.len() - i,
    {
        push_target_lines(&mut lines, &targets[i]);
        i += 1;
    }
    join_lines(&lines)
}

} // verus!
