//! The event loop's decisions: fixed-cadence frame pacing and the draining
//! of one frame's input batch.
//!
//! The loop itself — sleeping, polling the terminal, performing commands —
//! lives outside the library. What is verified here is every decision it
//! takes: whether to sleep and for how long, and what a batch of keys does
//! to the modal state.

use vstd::prelude::*;
use crate::input::Client;
use crate::input::Key;
use crate::input::dispatch_spec;
use crate::input::requests_quit;

verus! {

/// The target duration of one frame, in milliseconds (about 30 frames per
/// second).
pub const TARGET_FRAMETIME_MS: u64 = 33;

/// The pacing decision for one loop iteration: how long to sleep before
/// doing any work, or nothing when a full frame interval has elapsed.
pub open spec fn pacing_wait(elapsed_ms: u64, target_ms: u64) -> Option<u64> {
    if elapsed_ms < target_ms {
        Some((target_ms - elapsed_ms) as u64)
    } else {
        None
    }
}

/// Decide the frame pacing: a remainder to sleep when the elapsed time has
/// not yet reached the target, or nothing when the frame is due.
pub fn frame_wait(elapsed_ms: u64, target_ms: u64) -> (wait: Option<u64>)
    ensures
        wait == pacing_wait(elapsed_ms, target_ms),
{
    if elapsed_ms < target_ms {
        Some(target_ms - elapsed_ms)
    } else {
        None
    }
}

/// The modal state after a whole batch of keys, dispatched in order.
pub open spec fn run_keys(c: Client, keys: Seq<Key>) -> Client
    decreases keys.len(),
{
    if keys.len() == 0 {
        c
    } else {
        dispatch_spec(run_keys(c, keys.drop_last()), keys.last())
    }
}

/// Whether any key of a batch requests termination.
pub open spec fn any_quit(keys: Seq<Key>) -> bool {
    exists|i: int| 0 <= i < keys.len() && requests_quit(#[trigger] keys[i])
}

/// Dispatch one frame's input batch in order, and report whether any key of
/// the batch requested termination. Dispatching continues past a
/// termination request: every key pressed before the frame's flush is
/// reflected in the state.
pub fn drain_keys(client: &mut Client, keys: &Vec<Key>) -> (quit: bool)
    ensures
        *final(client) == run_keys(*old(client), keys@),
        quit == any_quit(keys@),
{
    let mut quit = false;
    let mut k: usize = 0;
    proof {
        assert(keys@.take(0) =~= Seq::<Key>::empty());
    }
    while k < keys.len()
        invariant
            k <= keys@.len(),
            *client == run_keys(*old(client), keys@.take(k as int)),
            quit == any_quit(keys@.take(k as int)),
        decreases keys@.len() - k,
    {
        let key = keys[k];
        let q = client.dispatch(key);
        if q {
            quit = true;
        }
        proof {
            assert(keys@.take(k + 1).drop_last() =~= keys@.take(k as int));
            assert(keys@.take(k + 1).last() == key);
            if any_quit(keys@.take(k as int)) {
                let i = choose|i: int|
                    0 <= i < keys@.take(k as int).len() && requests_quit(
                        #[trigger] keys@.take(k as int)[i],
                    );
                assert(requests_quit(keys@.take(k + 1)[i]));
            }
            if requests_quit(key) {
                assert(requests_quit(keys@.take(k + 1)[k as int]));
            }
            if any_quit(keys@.take(k + 1)) {
                let i = choose|i: int|
                    0 <= i < keys@.take(k + 1).len() && requests_quit(
                        #[trigger] keys@.take(k + 1)[i],
                    );
                if i < k {
                    assert(requests_quit(keys@.take(k as int)[i]));
                } else {
                    assert(keys@.take(k + 1)[i] == key);
                }
            }
        }
        k += 1;
    }
    proof {
        assert(keys@.take(keys@.len() as int) =~= keys@);
    }
    quit
}

/// Law: the one-key batch `:` raises the termination request while leaving
/// the modal state unchanged, and the empty batch raises nothing and
/// changes nothing.
pub proof fn lemma_quit_batch(c: Client)
    ensures
        any_quit(seq![Key::Char(':')]),
        run_keys(c, seq![Key::Char(':')]) == c,
        !any_quit(Seq::<Key>::empty()),
        run_keys(c, Seq::<Key>::empty()) == c,
{
    assert(seq![Key::Char(':')].drop_last() =~= Seq::<Key>::empty());
    assert(requests_quit(seq![Key::Char(':')][0]));
}

} // verus!
