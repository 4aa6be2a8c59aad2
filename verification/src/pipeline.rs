//! Distribution of events over a pool of workers.
use vstd::prelude::*;

verus! {

/// The worker after `current` in round-robin order over `worker_count`
/// workers (numbered from 0). The pool has at least one worker: with none,
/// the distribution step fails.
pub fn next_worker(current: usize, worker_count: usize) -> (next: usize)
    requires
        current < worker_count,
    ensures
        next == (current + 1) % (worker_count as int),
        next < worker_count,
{
    (current + 1) % worker_count
}

/// The worker reached from `current` after `steps` hand-offs.
pub open spec fn after_steps(current: int, worker_count: int, steps: nat) -> int
    decreases steps,
{
    if steps == 0 {
        current
    } else {
        (after_steps(current, worker_count, (steps - 1) as nat) + 1) % worker_count
    }
}

/// A law of round-robin distribution: after `k` hand-offs from worker
/// `current` the event goes to worker `(current + k) mod n`, so that every
/// worker gets one of any `n` consecutive events and the turn comes back to
/// `current` after `n`.
pub proof fn lemma_round_robin_cycles(current: int, worker_count: int, k: nat)
    requires
        0 <= current < worker_count,
    ensures
        after_steps(current, worker_count, k) == (current + k) % worker_count,
        after_steps(current, worker_count, worker_count as nat) == current,
{
    lemma_steps_mod(current, worker_count, k);
    lemma_steps_mod(current, worker_count, worker_count as nat);
    vstd::arithmetic::div_mod::lemma_mod_add_multiples_vanish(current, worker_count);
    vstd::arithmetic::div_mod::lemma_small_mod(current as nat, worker_count as nat);
}

proof fn lemma_steps_mod(current: int, worker_count: int, k: nat)
    requires
        0 <= current < worker_count,
    ensures
        after_steps(current, worker_count, k) == (current + k) % worker_count,
    decreases k,
{
    if k > 0 {
        lemma_steps_mod(current, worker_count, (k - 1) as nat);
        vstd::arithmetic::div_mod::lemma_add_mod_noop_right(1, current + k - 1, worker_count);
    } else {
        vstd::arithmetic::div_mod::lemma_small_mod(current as nat, worker_count as nat);
    }
}

} // verus!
