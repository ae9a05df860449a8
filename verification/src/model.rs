//! The mathematical model of a machine: a configuration, the effect of one
//! step on it, and the effect of any number of steps.

use crate::alphabet::{Move, Rule, State, Symbol};
use crate::rules::lookup;
use vstd::prelude::*;

verus! {

/// Everything that changes while a machine runs: the control state, the
/// tape, and the cell the head is on.
pub struct Config {
    pub state: State,
    pub tape: Seq<Symbol>,
    pub position: int,
}

/// What an observer is told after a step: the state the machine is in and
/// the symbol under the head.
#[derive(Clone, Copy, Debug, PartialEq, Eq, Structural)]
pub struct Observation {
    pub state: State,
    pub symbol: Symbol,
}

impl Config {
    /// The head is on a cell of the tape.
    pub open spec fn valid(self) -> bool {
        0 <= self.position < self.tape.len()
    }

    /// The symbol under the head.
    pub open spec fn head(self) -> Symbol {
        self.tape[self.position]
    }

    /// What an observer sees of this configuration.
    pub open spec fn observe(self) -> Observation {
        Observation { state: self.state, symbol: self.head() }
    }

    /// The configuration after `rule` has been applied: the cell under the
    /// head holds `rule.write`, the state is `rule.next_state`, and the head
    /// has moved one cell. Where the head would leave the tape, the tape gets
    /// a blank cell at that end.
    pub open spec fn apply(self, rule: Rule) -> Config {
        let written = self.tape.update(self.position, rule.write);
        match rule.move_ {
            Move::Left => if self.position == 0 {
                Config { state: rule.next_state, tape: seq![Symbol::Blank] + written, position: 0 }
            } else {
                Config { state: rule.next_state, tape: written, position: self.position - 1 }
            },
            Move::Right => if self.position + 1 == self.tape.len() {
                Config {
                    state: rule.next_state,
                    tape: written.push(Symbol::Blank),
                    position: self.position + 1,
                }
            } else {
                Config { state: rule.next_state, tape: written, position: self.position + 1 }
            },
        }
    }

    /// The configuration after one step under `table`. A halted
    /// configuration stays as it is. Where the table has no entry for the
    /// state and the symbol under the head, only the state changes, to
    /// `Halt`.
    pub open spec fn step(self, table: Map<(State, Symbol), Rule>) -> Config {
        if self.state == State::Halt {
            self
        } else {
            match lookup(table, self.state, self.head()) {
                Some(rule) => self.apply(rule),
                None => Config { state: State::Halt, ..self },
            }
        }
    }

    /// The configuration after `n` steps under `table`.
    pub open spec fn after(self, table: Map<(State, Symbol), Rule>, n: nat) -> Config
        decreases n,
    {
        if n == 0 {
            self
        } else {
            self.after(table, (n - 1) as nat).step(table)
        }
    }

    /// The number of steps a run of at most `limit` steps performs: it stops
    /// before the first step that would start from `Halt`.
    pub open spec fn steps_taken(self, table: Map<(State, Symbol), Rule>, limit: nat) -> nat
        decreases limit,
    {
        if limit == 0 || self.state == State::Halt {
            0
        } else {
            1 + self.step(table).steps_taken(table, (limit - 1) as nat)
        }
    }

    /// What an observer is told during the first `n` steps: entry `i` is
    /// what is seen after step `i + 1`.
    pub open spec fn trace(self, table: Map<(State, Symbol), Rule>, n: nat) -> Seq<Observation> {
        Seq::new(n, |i: int| self.after(table, (i + 1) as nat).observe())
    }
}

} // verus!
