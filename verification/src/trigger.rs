use vstd::prelude::*;

verus! {

/// An IO status report is due at a poll exactly when the raw trigger level
/// differs from the level latched at the previous poll.
pub open spec fn spec_edge_report_due(level_low: bool, latched_low: bool) -> bool {
    level_low != latched_low
}

/// One poll of the trigger input: given the raw level and the level latched
/// so far, returns the new latch and whether an IO status report is due.
/// The latch always follows the polled level, so a held level is never
/// re-reported.
pub fn poll_edge(level_low: bool, latched_low: bool) -> (r: (bool, bool))
    ensures
        r.0 == level_low,
        r.1 == spec_edge_report_due(level_low, latched_low),
{
    (level_low, level_low != latched_low)
}

/// The latch left behind after polling a whole sequence of raw levels,
/// starting from an initial latch.
pub open spec fn spec_latch_after(init_low: bool, levels: Seq<bool>) -> bool
    decreases levels.len(),
{
    if levels.len() == 0 {
        init_low
    } else {
        levels.last()
    }
}

/// Whether a report was due at each poll of a sequence of raw levels.
pub open spec fn spec_edge_reports(init_low: bool, levels: Seq<bool>) -> Seq<bool>
    decreases levels.len(),
{
    if levels.len() == 0 {
        Seq::empty()
    } else {
        spec_edge_reports(init_low, levels.drop_last()).push(
            spec_edge_report_due(levels.last(), spec_latch_after(init_low, levels.drop_last())),
        )
    }
}

/// Over any sequence of trigger polls, a report is due at a poll if and only
/// if the level at that poll differs from the level at the previous poll
/// (at the first poll: from the initially latched level). So no duplicate
/// report is due while the level is held, and no genuine transition is
/// missed.
pub proof fn lemma_edge_reports_iff_transition(init_low: bool, levels: Seq<bool>, i: int)
    requires
        0 <= i < levels.len(),
    ensures
        spec_edge_reports(init_low, levels).len() == levels.len(),
        spec_edge_reports(init_low, levels)[i] == (levels[i] != (if i == 0 {
            init_low
        } else {
            levels[i - 1]
        })),
    decreases levels.len(),
{
    lemma_edge_reports_len(init_low, levels);
    if i < levels.len() - 1 {
        lemma_edge_reports_iff_transition(init_low, levels.drop_last(), i);
        assert(levels.drop_last()[i] == levels[i]);
        if i > 0 {
            assert(levels.drop_last()[i - 1] == levels[i - 1]);
        }
    } else {
        if levels.len() > 1 {
            assert(spec_latch_after(init_low, levels.drop_last()) == levels[i - 1]);
        }
    }
}

/// The report sequence has one entry per poll.
pub proof fn lemma_edge_reports_len(init_low: bool, levels: Seq<bool>)
    ensures
        spec_edge_reports(init_low, levels).len() == levels.len(),
    decreases levels.len(),
{
    if levels.len() > 0 {
        lemma_edge_reports_len(init_low, levels.drop_last());
    }
}

} // verus!
