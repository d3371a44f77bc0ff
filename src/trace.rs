//! Properties of whole runs: what the sequence of actions looks like for any
//! sequence of events fed to the state machine.
use vstd::prelude::*;
use crate::provider::{marks_invalid_key, strings_view, RunError};
use crate::session::{initial, step_model, ActionModel, Event, Phase, SessionModel};

verus! {

/// The final state and the actions produced when `events` are fed one by one
/// to a run in state `s`.
pub open spec fn run(s: SessionModel, events: Seq<Event>) -> (SessionModel, Seq<ActionModel>)
    decreases events.len(),
{
    if events.len() == 0 {
        (s, Seq::empty())
    } else {
        let (s1, a) = step_model(s, events[0]);
        let (sn, rest) = run(s1, events.drop_first());
        (sn, seq![a] + rest)
    }
}

/// How far a phase lies along the flow; no transition goes back.
pub open spec fn rank(p: Phase) -> int {
    match p {
        Phase::Start => 0,
        Phase::AwaitBalance => 1,
        Phase::AwaitAvailability => 2,
        Phase::AwaitOrder => 3,
        Phase::Polling => 4,
        Phase::Releasing => 5,
        Phase::Done => 6,
        Phase::Aborted => 6,
    }
}

/// The event is a poll cycle that forwarded at least one text.
pub open spec fn is_nonempty_cycle(e: Event) -> bool {
    match e {
        Event::Cycle { texts } => texts@.len() > 0,
        _ => false,
    }
}

/// The first text of a poll cycle.
pub open spec fn first_text(e: Event) -> Seq<char> {
    match e {
        Event::Cycle { texts } => texts@[0]@,
        _ => Seq::empty(),
    }
}

/// An action that calls the provider about a number: order, poll, release.
pub open spec fn touches_number(a: ActionModel) -> bool {
    a is Order || a is StartPolling || a is Release
}

proof fn lemma_run_len(s: SessionModel, events: Seq<Event>)
    ensures
        run(s, events).1.len() == events.len(),
    decreases events.len(),
{
    if events.len() > 0 {
        lemma_run_len(step_model(s, events[0]).0, events.drop_first());
    }
}

/// A step never moves back along the flow.
proof fn lemma_step_rank(s: SessionModel, e: Event)
    ensures
        rank(step_model(s, e).0.phase) >= rank(s.phase),
        step_model(s, e).1 is Order ==> rank(step_model(s, e).0.phase) >= 3,
        step_model(s, e).1 is StartPolling ==> rank(step_model(s, e).0.phase) >= 4,
        step_model(s, e).1 is Release ==> rank(step_model(s, e).0.phase) >= 5,
{
}

/// An action that touches the number leaves the run past the order phase
/// for good.
proof fn lemma_run_rank(s: SessionModel, events: Seq<Event>)
    ensures
        rank(run(s, events).0.phase) >= rank(s.phase),
        forall|i: int|
            0 <= i < run(s, events).1.len() && touches_number(#[trigger] run(s, events).1[i])
                ==> rank(run(s, events).0.phase) >= 3,
        forall|i: int|
            0 <= i < run(s, events).1.len() && (#[trigger] run(s, events).1[i] is StartPolling
                || run(s, events).1[i] is Release) ==> rank(run(s, events).0.phase) >= 4,
    decreases events.len(),
{
    if events.len() > 0 {
        let s1 = step_model(s, events[0]).0;
        lemma_step_rank(s, events[0]);
        lemma_run_rank(s1, events.drop_first());
        let acts = run(s, events).1;
        let rest = run(s1, events.drop_first()).1;
        assert forall|i: int| 0 < i < acts.len() implies acts[i] == rest[i - 1] by {}
    }
}

/// Once the release is out, or the run has ended, nothing more touches the
/// number.
proof fn lemma_late_quiet(s: SessionModel, events: Seq<Event>)
    requires
        s.phase == Phase::Releasing || s.phase == Phase::Done || s.phase == Phase::Aborted,
    ensures
        forall|i: int| 0 <= i < run(s, events).1.len() ==> !touches_number(#[trigger] run(s, events).1[i]),
        s.phase != Phase::Releasing ==> run(s, events).0.phase == s.phase,
    decreases events.len(),
{
    if events.len() > 0 {
        let s1 = step_model(s, events[0]).0;
        lemma_late_quiet(s1, events.drop_first());
        let acts = run(s, events).1;
        let rest = run(s1, events.drop_first()).1;
        assert forall|i: int| 0 < i < acts.len() implies acts[i] == rest[i - 1] by {}
    }
}

/// While polling with nothing waiting: every release names the rented
/// handle and delivers the first text of the cycle it answers; there is at
/// most one; and the first cycle that brings a text is answered by one.
proof fn lemma_polling(s: SessionModel, events: Seq<Event>)
    requires
        s.phase == Phase::Polling,
        s.queue.len() == 0,
        s.rented is Some,
    ensures
        ({
            let acts = run(s, events).1;
            &&& forall|i: int|
                0 <= i < acts.len() ==> !(#[trigger] acts[i] is Order) && !(acts[i] is StartPolling)
            &&& forall|i: int|
                0 <= i < acts.len() && #[trigger] acts[i] is Release ==> acts[i]->Release_handle
                    == s.rented->Some_0.1 && is_nonempty_cycle(events[i])
                    && acts[i]->Release_message == first_text(events[i])
            &&& forall|i: int, j: int|
                0 <= i < acts.len() && 0 <= j < acts.len() && #[trigger] acts[i] is Release
                    && #[trigger] acts[j] is Release ==> i == j
            &&& forall|k: int|
                0 <= k < events.len() && is_nonempty_cycle(#[trigger] events[k]) ==> exists|i: int|
                    0 <= i <= k && #[trigger] acts[i] is Release
        }),
    decreases events.len(),
{
    lemma_run_len(s, events);
    if events.len() > 0 {
        let e = events[0];
        let (s1, a) = step_model(s, e);
        let acts = run(s, events).1;
        let rest = run(s1, events.drop_first()).1;
        let tail = events.drop_first();
        assert(acts[0] == a);
        assert forall|i: int| 0 < i < acts.len() implies acts[i] == rest[i - 1] by {}
        if a is Release {
            match e {
                Event::Cycle { texts } => {
                    assert(s.queue + strings_view(texts@) =~= strings_view(texts@));
                },
                _ => {},
            }
            lemma_late_quiet(s1, tail);
            assert forall|i: int, j: int|
                0 <= i < acts.len() && 0 <= j < acts.len() && #[trigger] acts[i] is Release
                    && #[trigger] acts[j] is Release implies i == j by {
                if i > 0 {
                    assert(!touches_number(rest[i - 1]));
                }
                if j > 0 {
                    assert(!touches_number(rest[j - 1]));
                }
            }
            assert forall|k: int|
                0 <= k < events.len() && is_nonempty_cycle(#[trigger] events[k]) implies exists|i: int|
                0 <= i <= k && #[trigger] acts[i] is Release by {
                assert(acts[0] is Release);
            }
            assert forall|i: int| 0 <= i < acts.len() && #[trigger] acts[i] is Release implies acts[i]->Release_handle
                == s.rented->Some_0.1 && is_nonempty_cycle(events[i]) && acts[i]->Release_message
                == first_text(events[i]) by {
                if i > 0 {
                    assert(!touches_number(rest[i - 1]));
                }
            }
        } else {
            match e {
                Event::Cycle { texts } => {
                    assert(s.queue + strings_view(texts@) =~= strings_view(texts@));
                },
                _ => {},
            }
            assert(s1.phase == Phase::Polling);
            assert(s1.queue.len() == 0);
            lemma_polling(s1, tail);
            assert(!is_nonempty_cycle(e));
            assert forall|i: int| 0 <= i < acts.len() && #[trigger] acts[i] is Release implies acts[i]->Release_handle
                == s.rented->Some_0.1 && is_nonempty_cycle(events[i]) && acts[i]->Release_message
                == first_text(events[i]) by {
                assert(rest[i - 1] is Release);
                assert(events[i] == tail[i - 1]);
            }
            assert forall|i: int, j: int|
                0 <= i < acts.len() && 0 <= j < acts.len() && #[trigger] acts[i] is Release
                    && #[trigger] acts[j] is Release implies i == j by {
                assert(rest[i - 1] is Release);
                assert(rest[j - 1] is Release);
            }
            assert forall|k: int|
                0 <= k < events.len() && is_nonempty_cycle(#[trigger] events[k]) implies exists|i: int|
                0 <= i <= k && #[trigger] acts[i] is Release by {
                assert(k > 0);
                assert(tail[k - 1] == events[k]);
                assert(is_nonempty_cycle(tail[k - 1]));
                let i0 = choose|i0: int| 0 <= i0 <= k - 1 && #[trigger] rest[i0] is Release;
                assert(acts[i0 + 1] is Release);
            }
        }
    }
}

/// Before the number is rented: releases come at most once, only for the
/// handle that the order returned, only on the first cycle that brings a
/// text, and that cycle always brings one.
proof fn lemma_setup(s: SessionModel, events: Seq<Event>)
    requires
        rank(s.phase) <= 3,
        s.queue.len() == 0,
    ensures
        ({
            let acts = run(s, events).1;
            &&& forall|i: int, j: int|
                0 <= i < acts.len() && 0 <= j < acts.len() && #[trigger] acts[i] is Release
                    && #[trigger] acts[j] is Release ==> i == j
            &&& forall|i: int|
                0 <= i < acts.len() && #[trigger] acts[i] is Release ==> is_nonempty_cycle(events[i])
                    && acts[i]->Release_message == first_text(events[i]) && exists|j: int|
                    0 <= j < i && #[trigger] acts[j] is StartPolling && acts[j]->StartPolling_handle
                        == acts[i]->Release_handle
            &&& forall|j: int, k: int|
                0 <= j < k < events.len() && #[trigger] acts[j] is StartPolling && is_nonempty_cycle(
                    #[trigger] events[k],
                ) ==> exists|i: int| j < i <= k && #[trigger] acts[i] is Release
        }),
    decreases events.len(),
{
    lemma_run_len(s, events);
    if events.len() > 0 {
        let e = events[0];
        let (s1, a) = step_model(s, e);
        let acts = run(s, events).1;
        let tail = events.drop_first();
        let rest = run(s1, tail).1;
        lemma_run_len(s1, tail);
        assert(acts[0] == a);
        assert forall|i: int| 0 < i < acts.len() implies acts[i] == rest[i - 1] && events[i] == tail[i - 1] by {}
        if a is StartPolling {
            lemma_polling(s1, tail);
            assert forall|i: int| 0 <= i < acts.len() && #[trigger] acts[i] is Release implies is_nonempty_cycle(events[i])
                && acts[i]->Release_message == first_text(events[i]) && exists|j: int|
                0 <= j < i && #[trigger] acts[j] is StartPolling && acts[j]->StartPolling_handle
                    == acts[i]->Release_handle by {
                assert(rest[i - 1] is Release);
                assert(acts[0] is StartPolling);
            }
            assert forall|i: int, j: int|
                0 <= i < acts.len() && 0 <= j < acts.len() && #[trigger] acts[i] is Release
                    && #[trigger] acts[j] is Release implies i == j by {
                assert(rest[i - 1] is Release);
                assert(rest[j - 1] is Release);
            }
            assert forall|j: int, k: int|
                0 <= j < k < events.len() && #[trigger] acts[j] is StartPolling && is_nonempty_cycle(
                    #[trigger] events[k],
                ) implies exists|i: int| j < i <= k && #[trigger] acts[i] is Release by {
                if j > 0 {
                    assert(rest[j - 1] is StartPolling);
                } else {
                    assert(is_nonempty_cycle(tail[k - 1]));
                    let i0 = choose|i0: int| 0 <= i0 <= k - 1 && #[trigger] rest[i0] is Release;
                    assert(acts[i0 + 1] is Release);
                }
            }
        } else if s1.phase == Phase::Aborted {
            lemma_late_quiet(s1, tail);
            assert forall|i: int| 0 <= i < acts.len() implies !(#[trigger] acts[i] is Release)
                && !(acts[i] is StartPolling) by {
                if i > 0 {
                    assert(!touches_number(rest[i - 1]));
                }
            }
        } else {
            assert(rank(s1.phase) <= 3);
            lemma_setup(s1, tail);
            assert(!(a is Release));
            assert forall|i: int| 0 <= i < acts.len() && #[trigger] acts[i] is Release implies is_nonempty_cycle(events[i])
                && acts[i]->Release_message == first_text(events[i]) && exists|j: int|
                0 <= j < i && #[trigger] acts[j] is StartPolling && acts[j]->StartPolling_handle
                    == acts[i]->Release_handle by {
                assert(rest[i - 1] is Release);
                let j0 = choose|j0: int|
                    0 <= j0 < i - 1 && #[trigger] rest[j0] is StartPolling && rest[j0]->StartPolling_handle
                        == rest[i - 1]->Release_handle;
                assert(acts[j0 + 1] is StartPolling);
            }
            assert forall|i: int, j: int|
                0 <= i < acts.len() && 0 <= j < acts.len() && #[trigger] acts[i] is Release
                    && #[trigger] acts[j] is Release implies i == j by {
                assert(rest[i - 1] is Release);
                assert(rest[j - 1] is Release);
            }
            assert forall|j: int, k: int|
                0 <= j < k < events.len() && #[trigger] acts[j] is StartPolling && is_nonempty_cycle(
                    #[trigger] events[k],
                ) implies exists|i: int| j < i <= k && #[trigger] acts[i] is Release by {
                assert(j > 0);
                assert(rest[j - 1] is StartPolling);
                assert(is_nonempty_cycle(tail[k - 1]));
                let i0 = choose|i0: int| j - 1 < i0 <= k - 1 && #[trigger] rest[i0] is Release;
                assert(acts[i0 + 1] is Release);
            }
        }
    }
}

/// Feeding two runs of events one after the other is feeding their
/// concatenation.
proof fn lemma_run_append(s: SessionModel, a: Seq<Event>, b: Seq<Event>)
    ensures
        run(s, a + b) == (run(run(s, a).0, b).0, run(s, a).1 + run(run(s, a).0, b).1),
    decreases a.len(),
{
    if a.len() == 0 {
        assert(a + b =~= b);
        assert(run(s, a).1 + run(s, b).1 =~= run(s, b).1);
    } else {
        let s1 = step_model(s, a[0]).0;
        assert((a + b)[0] == a[0]);
        assert((a + b).drop_first() =~= a.drop_first() + b);
        lemma_run_append(s1, a.drop_first(), b);
        let x = step_model(s, a[0]).1;
        assert(seq![x] + (run(s1, a.drop_first()).1 + run(run(s, a).0, b).1) =~= (seq![x] + run(
            s1,
            a.drop_first(),
        ).1) + run(run(s, a).0, b).1);
    }
}

/// Splits a run at event `k`: the actions before it, the action it causes,
/// and what follows, with the state reached before it.
proof fn lemma_run_split(s: SessionModel, events: Seq<Event>, k: int)
    requires
        0 <= k < events.len(),
    ensures
        ({
            let mid = run(s, events.take(k)).0;
            let (after, a) = step_model(mid, events[k]);
            &&& run(s, events).1 == run(s, events.take(k)).1 + seq![a] + run(after, events.skip(k + 1)).1
            &&& run(s, events.take(k)).1.len() == k
        }),
{
    let mid = run(s, events.take(k)).0;
    assert(events =~= events.take(k) + events.skip(k));
    lemma_run_append(s, events.take(k), events.skip(k));
    assert(events.skip(k)[0] == events[k]);
    assert(events.skip(k).drop_first() =~= events.skip(k + 1));
    lemma_run_len(s, events.take(k));
    let (after, a) = step_model(mid, events[k]);
    assert(run(mid, events.skip(k)).1 == seq![a] + run(after, events.skip(k + 1)).1);
    assert(run(s, events.take(k)).1 + (seq![a] + run(after, events.skip(k + 1)).1) =~= run(
        s,
        events.take(k),
    ).1 + seq![a] + run(after, events.skip(k + 1)).1);
}

/// A number that is ordered is released exactly once, when the first text
/// sent to it has been delivered: in any run, at most one release happens;
/// each release names the handle of an earlier successful order and carries
/// the first text of the poll cycle it answers; and once a number is ordered,
/// the first poll cycle that brings a text is answered by the release.
pub proof fn lemma_release_once_after_delivery(require_stock: bool, events: Seq<Event>)
    ensures
        ({
            let acts = run(initial(require_stock), events).1;
            &&& acts.len() == events.len()
            &&& forall|i: int, j: int|
                0 <= i < acts.len() && 0 <= j < acts.len() && #[trigger] acts[i] is Release
                    && #[trigger] acts[j] is Release ==> i == j
            &&& forall|i: int|
                0 <= i < acts.len() && #[trigger] acts[i] is Release ==> is_nonempty_cycle(events[i])
                    && acts[i]->Release_message == first_text(events[i]) && exists|j: int|
                    0 <= j < i && #[trigger] acts[j] is StartPolling && acts[j]->StartPolling_handle
                        == acts[i]->Release_handle
            &&& forall|j: int, k: int|
                0 <= j < k < events.len() && #[trigger] acts[j] is StartPolling && is_nonempty_cycle(
                    #[trigger] events[k],
                ) ==> exists|i: int| j < i <= k && #[trigger] acts[i] is Release
        }),
{
    lemma_run_len(initial(require_stock), events);
    lemma_setup(initial(require_stock), events);
}

/// When the balance query reports an invalid API key, the run exits with
/// status 1, and no order, poll or release ever happens in it, before or
/// after.
pub proof fn lemma_invalid_key_stops_run(require_stock: bool, events: Seq<Event>, k: int)
    requires
        0 <= k < events.len(),
        run(initial(require_stock), events.take(k)).0.phase == Phase::AwaitBalance,
        events[k] is Balance,
        marks_invalid_key(events[k]->Balance_error),
    ensures
        ({
            let acts = run(initial(require_stock), events).1;
            &&& acts[k] == ActionModel::Exit { status: 1 }
            &&& forall|i: int| 0 <= i < acts.len() ==> !touches_number(#[trigger] acts[i])
        }),
{
    let s0 = initial(require_stock);
    let pre = run(s0, events.take(k)).1;
    let mid = run(s0, events.take(k)).0;
    let (after, a) = step_model(mid, events[k]);
    let post = run(after, events.skip(k + 1)).1;
    lemma_run_split(s0, events, k);
    lemma_run_rank(s0, events.take(k));
    lemma_late_quiet(after, events.skip(k + 1));
    let acts = run(s0, events).1;
    assert forall|i: int| 0 <= i < acts.len() implies !touches_number(#[trigger] acts[i]) by {
        if i < k {
            assert(acts[i] == pre[i]);
        } else if i > k {
            assert(acts[i] == post[i - k - 1]);
        }
    }
}

/// When the order call fails (transport failure or a payload that does not
/// decode), the run aborts with a transport error, and no poll or release
/// ever happens in it.
pub proof fn lemma_failed_order_stops_run(require_stock: bool, events: Seq<Event>, k: int)
    requires
        0 <= k < events.len(),
        run(initial(require_stock), events.take(k)).0.phase == Phase::AwaitOrder,
        events[k] is CallFailed,
    ensures
        ({
            let acts = run(initial(require_stock), events).1;
            &&& acts[k] == ActionModel::Abort { error: RunError::Transport }
            &&& forall|i: int|
                0 <= i < acts.len() ==> !(#[trigger] acts[i] is StartPolling) && !(acts[i] is Release)
        }),
{
    let s0 = initial(require_stock);
    let pre = run(s0, events.take(k)).1;
    let mid = run(s0, events.take(k)).0;
    let (after, a) = step_model(mid, events[k]);
    let post = run(after, events.skip(k + 1)).1;
    lemma_run_split(s0, events, k);
    lemma_run_rank(s0, events.take(k));
    lemma_late_quiet(after, events.skip(k + 1));
    let acts = run(s0, events).1;
    assert forall|i: int| 0 <= i < acts.len() implies !(#[trigger] acts[i] is StartPolling) && !(
    acts[i] is Release) by {
        if i < k {
            assert(acts[i] == pre[i]);
        } else if i > k {
            assert(acts[i] == post[i - k - 1]);
            assert(!touches_number(post[i - k - 1]));
        }
    }
}

} // verus!
