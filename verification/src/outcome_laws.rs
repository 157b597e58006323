//! What holds of the report on a set that was armed: it counts every entry once, it has a line for every
//! entry that was not armed and for no other, and one more entry that was armed changes one count.

use crate::stop_point_set;
use crate::stop_point_set::ArmOutcome;
use crate::text;
use vstd::prelude::*;

verus! {

/// How many entries were armed.
pub open spec fn armed(outcomes: Seq<(String, ArmOutcome)>) -> nat {
    stop_point_set::tally(outcomes, |o: ArmOutcome| o is Armed)
}

pub open spec fn deferred(outcomes: Seq<(String, ArmOutcome)>) -> nat {
    stop_point_set::tally(outcomes, |o: ArmOutcome| o is Deferred)
}

pub open spec fn refused(outcomes: Seq<(String, ArmOutcome)>) -> nat {
    stop_point_set::tally(outcomes, |o: ArmOutcome| o is Refused)
}

pub open spec fn skipped(outcomes: Seq<(String, ArmOutcome)>) -> nat {
    stop_point_set::tally(outcomes, |o: ArmOutcome| o is SkippedDisabled)
}

/// The entries that were not armed, in the order given.
pub open spec fn left_out(outcomes: Seq<(String, ArmOutcome)>) -> Seq<(String, ArmOutcome)> {
    outcomes.filter(|e: (String, ArmOutcome)| !(e.1 is Armed))
}

/// Neither a label nor a reason breaks its line.
pub open spec fn on_one_line(outcomes: Seq<(String, ArmOutcome)>) -> bool {
    forall|i: int|
        0 <= i < outcomes.len() ==> {
            let (label, outcome) = #[trigger] outcomes[i];
            !label@.contains('\n') && (outcome matches ArmOutcome::Refused(why) ==> !why@.contains(
                '\n',
            ))
        }
}

/// Every outcome is counted once, under what happened.
pub proof fn every_outcome_is_counted(outcomes: Seq<(String, ArmOutcome)>)
    ensures
        armed(outcomes) + deferred(outcomes) + refused(outcomes) + skipped(outcomes)
            == outcomes.len(),
    decreases outcomes.len(),
{
    if outcomes.len() > 0 {
        every_outcome_is_counted(outcomes.drop_last());
    }
}

proof fn left_out_of_more(outcomes: Seq<(String, ArmOutcome)>)
    ensures
        outcomes.len() == 0 ==> left_out(outcomes).len() == 0,
        outcomes.len() > 0 ==> left_out(outcomes) == if outcomes.last().1 is Armed {
            left_out(outcomes.drop_last())
        } else {
            left_out(outcomes.drop_last()).push(outcomes.last())
        },
{
    reveal(Seq::filter);
}

proof fn what_is_left_out_is_counted(outcomes: Seq<(String, ArmOutcome)>)
    ensures
        left_out(outcomes).len() == deferred(outcomes) + refused(outcomes) + skipped(outcomes),
    decreases outcomes.len(),
{
    left_out_of_more(outcomes);
    if outcomes.len() > 0 {
        what_is_left_out_is_counted(outcomes.drop_last());
    }
}

/// A text with no line break but the one at its end.
spec fn ends_its_line(s: Seq<char>) -> bool {
    s.len() > 0 && s.last() == '\n' && !s.drop_last().contains('\n')
}

proof fn a_tail_ends_its_line(head: Seq<char>, tail: Seq<char>)
    requires
        !head.contains('\n'),
        ends_its_line(tail),
    ensures
        ends_its_line(head + tail),
{
    let s = head + tail;
    assert(s.drop_last() =~= head + tail.drop_last());
    if s.drop_last().contains('\n') {
        let k = choose|k: int| 0 <= k < s.drop_last().len() && s.drop_last()[k] == '\n';
        if k < head.len() {
            assert(head[k] == '\n');
        } else {
            assert(tail.drop_last()[k - head.len()] == '\n');
        }
    }
}

proof fn no_break_in_two(a: Seq<char>, b: Seq<char>)
    requires
        !a.contains('\n'),
        !b.contains('\n'),
    ensures
        !(a + b).contains('\n'),
{
    if (a + b).contains('\n') {
        let k = choose|k: int| 0 <= k < (a + b).len() && (a + b)[k] == '\n';
        if k < a.len() {
            assert(a[k] == '\n');
        } else {
            assert(b[k - a.len()] == '\n');
        }
    }
}

proof fn the_deferred_tail_ends_its_line()
    ensures
        ends_its_line(stop_point_set::DEFERRED_TAIL@),
{
    reveal_strlit(
        " — deferred: the class is not loaded yet, so it is armed on a class-load watch and fires when it is.\n",
    );
}

proof fn the_skipped_tail_ends_its_line()
    ensures
        ends_its_line(stop_point_set::SKIPPED_TAIL@),
{
    reveal_strlit(
        " — NOT armed: it was disabled or spent when the set was exported. Its arguments are still in the set, so arm it with the tool named there if you want it back.\n",
    );
}

/// What is said of an entry that was not armed is one line, which holds its label and the reason.
proof fn an_entry_has_one_line(label: Seq<char>, outcome: ArmOutcome)
    requires
        !(outcome is Armed),
        !label.contains('\n'),
        outcome matches ArmOutcome::Refused(why) ==> !why@.contains('\n'),
    ensures
        ends_its_line(stop_point_set::outcome_line(label, outcome)),
        text::holds(stop_point_set::outcome_line(label, outcome).drop_last(), label),
        outcome matches ArmOutcome::Refused(why) ==> text::holds(
            stop_point_set::outcome_line(label, outcome).drop_last(),
            why@,
        ),
{
    let line = stop_point_set::outcome_line(label, outcome);
    match outcome {
        ArmOutcome::Armed => {},
        ArmOutcome::Deferred => {
            reveal_strlit("   ⏳ ");
            the_deferred_tail_ends_its_line();
            let tail = stop_point_set::DEFERRED_TAIL@;
            no_break_in_two("   ⏳ "@, label);
            a_tail_ends_its_line("   ⏳ "@ + label, tail);
            assert(line.drop_last() =~= "   ⏳ "@ + label + tail.drop_last());
            text::holds_the_middle("   ⏳ "@, label, tail.drop_last());
        },
        ArmOutcome::Refused(why) => {
            reveal_strlit("   🛑 ");
            reveal_strlit(" — refused: ");
            reveal_strlit("\n");
            let head = "   🛑 "@ + label + " — refused: "@;
            no_break_in_two("   🛑 "@, label);
            no_break_in_two("   🛑 "@ + label, " — refused: "@);
            no_break_in_two(head, why@);
            a_tail_ends_its_line(head + why@, "\n"@);
            assert(line.drop_last() =~= "   🛑 "@ + label + (" — refused: "@ + why@));
            text::holds_the_middle("   🛑 "@, label, " — refused: "@ + why@);
            assert(line.drop_last() =~= head + why@ + Seq::<char>::empty());
            text::holds_the_middle(head, why@, Seq::empty());
        },
        ArmOutcome::SkippedDisabled => {
            reveal_strlit("   ⏸  ");
            the_skipped_tail_ends_its_line();
            let tail = stop_point_set::SKIPPED_TAIL@;
            no_break_in_two("   ⏸  "@, label);
            a_tail_ends_its_line("   ⏸  "@ + label, tail);
            assert(line.drop_last() =~= "   ⏸  "@ + label + tail.drop_last());
            text::holds_the_middle("   ⏸  "@, label, tail.drop_last());
        },
    }
}

/// What stands on the line of an entry that was not armed.
pub open spec fn said(entry: (String, ArmOutcome)) -> Seq<char> {
    stop_point_set::outcome_line(entry.0@, entry.1).drop_last()
}

proof fn the_lines_are_those_left_out(head: Seq<char>, outcomes: Seq<(String, ArmOutcome)>)
    requires
        !head.contains('\n'),
        on_one_line(outcomes),
    ensures
        ({
            let all = head.push('\n') + stop_point_set::outcome_lines(outcomes);
            &&& all.last() == '\n'
            &&& text::lines(all) == seq![head] + left_out(outcomes).map_values(
                |e: (String, ArmOutcome)| said(e),
            )
        }),
    decreases outcomes.len(),
{
    let one = |e: (String, ArmOutcome)| said(e);
    let lines = stop_point_set::outcome_lines(outcomes);
    let all = head.push('\n') + lines;
    left_out_of_more(outcomes);
    if outcomes.len() == 0 {
        assert(all =~= head.push('\n') + Seq::<char>::empty());
        text::lines_of_a_line(head, Seq::empty());
        assert(text::lines(Seq::<char>::empty()) =~= Seq::empty());
        assert(left_out(outcomes).map_values(one) =~= Seq::empty());
    } else {
        let rest = outcomes.drop_last();
        let (label, outcome) = outcomes.last();
        assert(outcomes[outcomes.len() - 1] == (label, outcome));
        assert forall|i: int| 0 <= i < rest.len() implies ({
            let (label, outcome) = #[trigger] rest[i];
            !label@.contains('\n') && (outcome matches ArmOutcome::Refused(why) ==> !why@.contains(
                '\n',
            ))
        }) by {
            assert(rest[i] == outcomes[i]);
        }
        the_lines_are_those_left_out(head, rest);
        let before = head.push('\n') + stop_point_set::outcome_lines(rest);
        let line = stop_point_set::outcome_line(label@, outcome);
        if outcome is Armed {
            assert(lines =~= stop_point_set::outcome_lines(rest));
        } else {
            an_entry_has_one_line(label@, outcome);
            assert(line =~= line.drop_last().push('\n'));
            assert(all =~= before + line.drop_last().push('\n'));
            text::lines_with_a_line(before, line.drop_last());
            assert(left_out(outcomes).map_values(one) =~= left_out(rest).map_values(one).push(
                said(outcomes.last()),
            ));
            assert((seq![head] + left_out(rest).map_values(one)).push(said(outcomes.last())) =~= seq![
                head,
            ] + left_out(outcomes).map_values(one));
        }
    }
}

proof fn digits_hold_no_break(n: nat)
    ensures
        !text::dec(n).contains('\n'),
{
    text::dec_is_digits(n);
    if text::dec(n).contains('\n') {
        let k = choose|k: int| 0 <= k < text::dec(n).len() && text::dec(n)[k] == '\n';
        assert(text::is_digit(text::dec(n)[k]));
    }
}

proof fn counts_hold_no_break(a: nat, d: nat, r: nat, s: nat)
    ensures
        !stop_point_set::outcome_counts(a, d, r, s).contains('\n'),
{
    reveal_strlit(" armed, ");
    reveal_strlit(" deferred, ");
    reveal_strlit(" refused");
    reveal_strlit(", ");
    reveal_strlit(" skipped (disabled when exported)");
    digits_hold_no_break(a);
    digits_hold_no_break(d);
    digits_hold_no_break(r);
    digits_hold_no_break(s);
    let x = text::dec(a) + " armed, "@;
    let y = x + text::dec(d);
    let z = y + " deferred, "@;
    let u = z + text::dec(r);
    let v = u + " refused"@;
    let tail = if s > 0 {
        ", "@ + text::dec(s) + " skipped (disabled when exported)"@
    } else {
        Seq::empty()
    };
    no_break_in_two(text::dec(a), " armed, "@);
    no_break_in_two(x, text::dec(d));
    no_break_in_two(y, " deferred, "@);
    no_break_in_two(z, text::dec(r));
    no_break_in_two(u, " refused"@);
    if s > 0 {
        no_break_in_two(", "@, text::dec(s));
        no_break_in_two(", "@ + text::dec(s), " skipped (disabled when exported)"@);
    }
    no_break_in_two(v, tail);
}

/// The report on a set that was armed: the counts on the first line, then one line for each entry that was
/// not armed, in the order of the set, and no line for any other. The line of an entry holds its label and
/// the reason it was refused for.
pub proof fn a_report_has_a_line_for_each_entry_not_armed(outcomes: Seq<(String, ArmOutcome)>)
    requires
        on_one_line(outcomes),
    ensures
        ({
            let lines = text::lines(stop_point_set::outcome_report(outcomes));
            let out = left_out(outcomes);
            let count = deferred(outcomes) + refused(outcomes) + skipped(outcomes);
            &&& lines.len() == 1 + count
            &&& lines[0] == stop_point_set::outcome_counts(
                armed(outcomes),
                deferred(outcomes),
                refused(outcomes),
                skipped(outcomes),
            )
            &&& out.len() == count
            &&& forall|k: int|
                0 <= k < count ==> (#[trigger] lines[k + 1]) == said(out[k]) && text::holds(
                    lines[k + 1],
                    out[k].0@,
                ) && (out[k].1 matches ArmOutcome::Refused(why) ==> text::holds(lines[k + 1], why@))
        }),
{
    let head = stop_point_set::outcome_counts(
        armed(outcomes),
        deferred(outcomes),
        refused(outcomes),
        skipped(outcomes),
    );
    let report = stop_point_set::outcome_report(outcomes);
    let out = left_out(outcomes);
    reveal_strlit("\n");
    counts_hold_no_break(
        armed(outcomes),
        deferred(outcomes),
        refused(outcomes),
        skipped(outcomes),
    );
    assert(report =~= head.push('\n') + stop_point_set::outcome_lines(outcomes));
    the_lines_are_those_left_out(head, outcomes);
    what_is_left_out_is_counted(outcomes);
    let lines = text::lines(report);
    assert forall|k: int| 0 <= k < out.len() implies (#[trigger] lines[k + 1]) == said(out[k])
        && text::holds(lines[k + 1], out[k].0@) && (out[k].1 matches ArmOutcome::Refused(why)
        ==> text::holds(lines[k + 1], why@)) by {
        let j = what_is_left_out_was_given(outcomes, k);
        let (label, outcome) = outcomes[j];
        an_entry_has_one_line(label@, outcome);
    }
}

proof fn what_is_left_out_was_given(outcomes: Seq<(String, ArmOutcome)>, k: int) -> (j: int)
    requires
        0 <= k < left_out(outcomes).len(),
    ensures
        0 <= j < outcomes.len(),
        outcomes[j] == left_out(outcomes)[k],
        !(outcomes[j].1 is Armed),
    decreases outcomes.len(),
{
    left_out_of_more(outcomes);
    let rest = outcomes.drop_last();
    if k < left_out(rest).len() {
        let j = what_is_left_out_was_given(rest, k);
        assert(rest[j] == outcomes[j]);
        j
    } else {
        outcomes.len() - 1
    }
}

/// One more entry that was armed, wherever it stands, changes the count of those that were armed and nothing
/// else of the report.
pub proof fn one_more_armed_changes_one_count(
    outcomes: Seq<(String, ArmOutcome)>,
    at: int,
    label: String,
)
    requires
        0 <= at <= outcomes.len(),
    ensures
        ({
            let more = outcomes.insert(at, (label, ArmOutcome::Armed));
            &&& armed(more) == armed(outcomes) + 1
            &&& deferred(more) == deferred(outcomes)
            &&& refused(more) == refused(outcomes)
            &&& skipped(more) == skipped(outcomes)
            &&& left_out(more) == left_out(outcomes)
            &&& stop_point_set::outcome_report(more) == stop_point_set::outcome_counts(
                armed(outcomes) + 1,
                deferred(outcomes),
                refused(outcomes),
                skipped(outcomes),
            ) + "\n"@ + stop_point_set::outcome_lines(outcomes)
        }),
    decreases outcomes.len(),
{
    let entry = (label, ArmOutcome::Armed);
    let more = outcomes.insert(at, entry);
    left_out_of_more(outcomes);
    left_out_of_more(more);
    if at == outcomes.len() {
        assert(more.drop_last() =~= outcomes);
        assert(more.last() == entry);
    } else {
        let rest = outcomes.drop_last();
        one_more_armed_changes_one_count(rest, at, label);
        assert(more.drop_last() =~= rest.insert(at, entry));
        assert(more.last() == outcomes.last());
        more_armed_adds_no_line(rest, at, entry);
    }
    more_armed_adds_no_line(outcomes, at, entry);
}

proof fn more_armed_adds_no_line(
    outcomes: Seq<(String, ArmOutcome)>,
    at: int,
    entry: (String, ArmOutcome),
)
    requires
        0 <= at <= outcomes.len(),
        entry.1 is Armed,
    ensures
        stop_point_set::outcome_lines(outcomes.insert(at, entry)) == stop_point_set::outcome_lines(
            outcomes,
        ),
    decreases outcomes.len(),
{
    let more = outcomes.insert(at, entry);
    if at == outcomes.len() {
        assert(more.drop_last() =~= outcomes);
        assert(more.last() == entry);
        assert(stop_point_set::outcome_lines(more) =~= stop_point_set::outcome_lines(outcomes));
    } else {
        more_armed_adds_no_line(outcomes.drop_last(), at, entry);
        assert(more.drop_last() =~= outcomes.drop_last().insert(at, entry));
        assert(more.last() == outcomes.last());
    }
}

} // verus!
