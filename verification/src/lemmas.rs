//! What holds of every machine, whatever its rule table: proved over the
//! model that the engine's contracts are stated in.

use crate::alphabet::{Rule, State, Symbol};
use crate::model::Config;
use vstd::prelude::*;

verus! {

/// A step leaves the head on a cell of the tape.
pub proof fn lemma_step_keeps_head_on_tape(c: Config, table: Map<(State, Symbol), Rule>)
    requires
        c.valid(),
    ensures
        c.step(table).valid(),
{
}

/// After any number of steps the head is on a cell of the tape.
pub proof fn lemma_head_stays_on_tape(c: Config, table: Map<(State, Symbol), Rule>, n: nat)
    requires
        c.valid(),
    ensures
        c.after(table, n).valid(),
    decreases n,
{
    if n > 0 {
        lemma_head_stays_on_tape(c, table, (n - 1) as nat);
        lemma_step_keeps_head_on_tape(c.after(table, (n - 1) as nat), table);
    }
}

/// A step keeps the tape's length or adds one cell to it.
pub proof fn lemma_step_grows_by_at_most_one(c: Config, table: Map<(State, Symbol), Rule>)
    requires
        c.valid(),
    ensures
        c.tape.len() <= c.step(table).tape.len() <= c.tape.len() + 1,
{
}

/// The tape never shrinks: after more steps it is at least as long as
/// after fewer, and it has grown by no more than one cell per step.
pub proof fn lemma_tape_never_shrinks(
    c: Config,
    table: Map<(State, Symbol), Rule>,
    n: nat,
    m: nat,
)
    requires
        c.valid(),
        n <= m,
    ensures
        c.after(table, n).tape.len() <= c.after(table, m).tape.len() <= c.after(
            table,
            n,
        ).tape.len() + (m - n),
    decreases m,
{
    if n < m {
        lemma_tape_never_shrinks(c, table, n, (m - 1) as nat);
        lemma_head_stays_on_tape(c, table, (m - 1) as nat);
        lemma_step_grows_by_at_most_one(c.after(table, (m - 1) as nat), table);
    }
}

/// A halted configuration is left as it is by any number of steps.
pub proof fn lemma_halt_is_stable(c: Config, table: Map<(State, Symbol), Rule>, n: nat)
    requires
        c.state == State::Halt,
    ensures
        c.after(table, n) == c,
    decreases n,
{
    if n > 0 {
        lemma_halt_is_stable(c, table, (n - 1) as nat);
    }
}

/// Once a run has reached `Halt`, every later configuration is the one in
/// which it halted.
pub proof fn lemma_nothing_changes_after_halt(
    c: Config,
    table: Map<(State, Symbol), Rule>,
    n: nat,
    m: nat,
)
    requires
        c.after(table, n).state == State::Halt,
        n <= m,
    ensures
        c.after(table, m) == c.after(table, n),
    decreases m,
{
    if n < m {
        lemma_nothing_changes_after_halt(c, table, n, (m - 1) as nat);
    }
}

/// Where the table has no entry for the state and the symbol under the
/// head, a step halts the machine and leaves tape and head where they were.
pub proof fn lemma_missing_rule_halts(c: Config, table: Map<(State, Symbol), Rule>)
    requires
        !table.contains_key((c.state, c.head())),
    ensures
        c.step(table).state == State::Halt,
        c.step(table).tape == c.tape,
        c.step(table).position == c.position,
{
}

/// Taking the first step apart: `n + 1` steps from `c` are `n` steps from
/// the configuration after one step.
pub proof fn lemma_after_unfolds_at_front(c: Config, table: Map<(State, Symbol), Rule>, n: nat)
    ensures
        c.after(table, n + 1) == c.step(table).after(table, n),
    decreases n,
{
    if n > 0 {
        lemma_after_unfolds_at_front(c, table, (n - 1) as nat);
    } else {
        assert(c.after(table, 1) == c.after(table, 0).step(table));
    }
}

/// `n` is where a run of at most `limit` steps from `c` ends: no step
/// before it started from `Halt`, and it is either the limit or the first
/// count at which the machine has halted.
pub open spec fn ends_at(c: Config, table: Map<(State, Symbol), Rule>, limit: nat, n: nat) -> bool {
    &&& n <= limit
    &&& forall|i: nat| i < n ==> (#[trigger] c.after(table, i)).state != State::Halt
    &&& n < limit ==> c.after(table, n).state == State::Halt
}

/// A run stops where `steps_taken` says.
pub proof fn lemma_steps_taken_ends_run(c: Config, table: Map<(State, Symbol), Rule>, limit: nat)
    ensures
        ends_at(c, table, limit, c.steps_taken(table, limit)),
    decreases limit,
{
    if limit == 0 || c.state == State::Halt {
    } else {
        let next = c.step(table);
        let rest = next.steps_taken(table, (limit - 1) as nat);
        lemma_steps_taken_ends_run(next, table, (limit - 1) as nat);
        assert forall|i: nat| i < rest + 1 implies (#[trigger] c.after(table, i)).state
            != State::Halt by {
            if i > 0 {
                lemma_after_unfolds_at_front(c, table, (i - 1) as nat);
                assert(next.after(table, (i - 1) as nat).state != State::Halt);
            }
        }
        lemma_after_unfolds_at_front(c, table, rest);
    }
}

/// A run is determined by the rule table, the configuration it starts from
/// and the limit: any two runs from the same three stop after the same
/// number of steps, in the same configuration, having shown the same
/// observations.
pub proof fn lemma_run_is_determined(
    c: Config,
    table: Map<(State, Symbol), Rule>,
    limit: nat,
    n1: nat,
    n2: nat,
)
    requires
        ends_at(c, table, limit, n1),
        ends_at(c, table, limit, n2),
    ensures
        n1 == n2,
        n1 == c.steps_taken(table, limit),
        c.after(table, n1) == c.after(table, n2),
        c.trace(table, n1) == c.trace(table, n2),
{
    let n = c.steps_taken(table, limit);
    lemma_steps_taken_ends_run(c, table, limit);
    if n1 < n {
        assert(c.after(table, n1).state != State::Halt);
    }
    if n < n1 {
        assert(c.after(table, n).state != State::Halt);
    }
    if n2 < n {
        assert(c.after(table, n2).state != State::Halt);
    }
    if n < n2 {
        assert(c.after(table, n).state != State::Halt);
    }
}

} // verus!
