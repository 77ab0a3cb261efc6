//! Accessibility-permission watching: which polled trust states to report.
//!
//! The trust state is polled periodically outside; a state is reported when
//! it differs from the last one reported, and the first poll always is.

use vstd::prelude::*;

verus! {

/// The last reported trust state.
#[derive(Clone, Copy, Debug, PartialEq, Eq, Structural)]
pub struct TrustWatch {
    pub last: Option<bool>,
}

impl TrustWatch {
    /// Nothing reported yet.
    pub fn new() -> (r: TrustWatch)
        ensures
            r.last is None,
    {
        TrustWatch { last: None }
    }

    /// Takes one polled state; returns it when it is to be reported.
    pub fn observe(&mut self, granted: bool) -> (r: Option<bool>)
        ensures
            (r, final(self).last) == observe_step(old(self).last, granted),
    {
        if self.last != Some(granted) {
            self.last = Some(granted);
            Some(granted)
        } else {
            None
        }
    }
}

/// One poll: the state is reported when it differs from the last one
/// reported (always, on the first poll), and becomes the last one.
pub open spec fn observe_step(last: Option<bool>, granted: bool) -> (Option<bool>, Option<bool>) {
    (if last != Some(granted) {
        Some(granted)
    } else {
        None
    }, Some(granted))
}

/// The states reported over a run of polls from a fresh watch, in order,
/// and the last state recorded.
pub open spec fn watch_run(polls: Seq<bool>) -> (Seq<bool>, Option<bool>)
    decreases polls.len(),
{
    if polls.len() == 0 {
        (Seq::empty(), None)
    } else {
        let (reported, last) = watch_run(polls.drop_last());
        let (r, next) = observe_step(last, polls.last());
        (
            match r {
                Some(v) => reported.push(v),
                None => reported,
            },
            next,
        )
    }
}

/// Over any run of polls: the first poll is reported, the last state
/// reported is the state polled last, and two consecutive reported states
/// always differ.
pub proof fn lemma_reports_alternate(polls: Seq<bool>)
    ensures
        polls.len() == 0 ==> watch_run(polls).0.len() == 0 && watch_run(polls).1 is None,
        polls.len() > 0 ==> {
            let reported = watch_run(polls).0;
            &&& reported.len() > 0
            &&& reported[0] == polls[0]
            &&& reported.last() == polls.last()
            &&& watch_run(polls).1 == Some(polls.last())
        },
        forall|i: int|
            0 <= i < watch_run(polls).0.len() - 1 ==> #[trigger] watch_run(polls).0[i]
                != watch_run(polls).0[i + 1],
    decreases polls.len(),
{
    if polls.len() > 0 {
        let prefix = polls.drop_last();
        lemma_reports_alternate(prefix);
        if prefix.len() > 0 {
            assert(prefix[0] == polls[0]);
            assert(prefix.last() == polls[polls.len() - 2]);
        }
        let reported = watch_run(polls).0;
        let before = watch_run(prefix).0;
        assert forall|i: int| 0 <= i < reported.len() - 1 implies #[trigger] reported[i]
            != reported[i + 1] by {
            if i < before.len() - 1 {
                assert(reported[i] == before[i]);
                assert(reported[i + 1] == before[i + 1]);
            }
        }
    }
}

} // verus!