//! The transition engine: a machine that owns its state, tape and head
//! position and advances one step at a time under a rule table.

use crate::alphabet::{Move, Rule, State, Symbol};
use crate::model::{Config, Observation};
use crate::rules::Rules;
use std::collections::VecDeque;
use vstd::prelude::*;

verus! {

/// Why a machine could not be built.
#[derive(Clone, Copy, Debug, PartialEq, Eq, Structural)]
pub enum MachineError {
    /// The initial tape has no cell for the head to stand on.
    EmptyTape,
}

/// A machine: the rule table it runs under and its current configuration.
pub struct TuringMachine {
    state: State,
    tape: VecDeque<Symbol>,
    position: usize,
    rules: Rules,
}

/// `VecDeque`'s indexed assignment (`IndexMut::index_mut`): the cell at
/// `at` gets `symbol`, every other cell and the length stay. The index must
/// be in bounds, where the std method would panic otherwise.
#[verifier::external_body]
fn write_cell(tape: &mut VecDeque<Symbol>, at: usize, symbol: Symbol)
    requires
        at < old(tape)@.len(),
    ensures
        final(tape)@ == old(tape)@.update(at as int, symbol),
{
    tape[at] = symbol;
}

impl View for TuringMachine {
    type V = Config;

    closed spec fn view(&self) -> Config {
        Config { state: self.state, tape: self.tape@, position: self.position as int }
    }
}

impl TuringMachine {
    /// The rule table the machine runs under, as a mathematical map.
    pub closed spec fn table(&self) -> Map<(State, Symbol), Rule> {
        self.rules@
    }

    /// The head is on a cell of the tape, and the tape's length is one
    /// that memory can hold.
    pub open spec fn wf(&self) -> bool {
        self@.valid() && self@.tape.len() <= usize::MAX
    }

    /// Builds a machine in `initial_state` over `initial_tape`, with the head
    /// on the first cell. An empty tape is refused.
    pub fn new(rules: Rules, initial_state: State, initial_tape: Vec<Symbol>) -> (built: Result<
        TuringMachine,
        MachineError,
    >)
        ensures
            initial_tape@.len() == 0 <==> built == Err::<TuringMachine, MachineError>(
                MachineError::EmptyTape,
            ),
            initial_tape@.len() > 0 ==> built is Ok && built->Ok_0.wf() && built->Ok_0.table()
                == rules@ && built->Ok_0@ == (Config {
                state: initial_state,
                tape: initial_tape@,
                position: 0,
            }),
    {
        if initial_tape.len() == 0 {
            return Err(MachineError::EmptyTape);
        }
        let mut tape: VecDeque<Symbol> = VecDeque::new();
        let mut i: usize = 0;
        while i < initial_tape.len()
            invariant
                i <= initial_tape@.len(),
                tape@ == initial_tape@.take(i as int),
            decreases initial_tape@.len() - i,
        {
            tape.push_back(initial_tape[i]);
            i += 1;
            assert(tape@ =~= initial_tape@.take(i as int));
        }
        assert(tape@ =~= initial_tape@);
        Ok(TuringMachine { state: initial_state, tape, position: 0, rules })
    }

    /// The current control state.
    pub fn state(&self) -> (s: State)
        ensures
            s == self@.state,
    {
        self.state
    }

    /// The index of the cell under the head.
    pub fn position(&self) -> (p: usize)
        ensures
            p == self@.position,
    {
        self.position
    }

    /// The tape, from its first cell to its last.
    pub fn tape(&self) -> (cells: Vec<Symbol>)
        ensures
            cells@ == self@.tape,
    {
        let mut cells: Vec<Symbol> = Vec::new();
        let mut i: usize = 0;
        while i < self.tape.len()
            invariant
                i <= self.tape@.len(),
                cells@ == self.tape@.take(i as int),
            decreases self.tape@.len() - i,
        {
            cells.push(self.tape[i]);
            i += 1;
            assert(cells@ =~= self.tape@.take(i as int));
        }
        assert(cells@ =~= self.tape@);
        cells
    }

    /// The number of cells of the tape.
    pub fn tape_len(&self) -> (n: usize)
        ensures
            n == self@.tape.len(),
    {
        self.tape.len()
    }

    /// Whether the machine has halted.
    pub fn is_halted(&self) -> (h: bool)
        ensures
            h == (self@.state == State::Halt),
    {
        self.state == State::Halt
    }

    /// The state and the symbol under the head.
    pub fn observe(&self) -> (seen: Observation)
        requires
            self.wf(),
        ensures
            seen == self@.observe(),
    {
        Observation { state: self.state, symbol: self.tape[self.position] }
    }

    /// Performs one step and reports what an observer sees afterwards. The
    /// rule table is untouched.
    pub fn step(&mut self) -> (seen: Observation)
        requires
            old(self).wf(),
            old(self)@.tape.len() < usize::MAX,
        ensures
            final(self)@ == old(self)@.step(old(self).table()),
            final(self).table() == old(self).table(),
            final(self).wf(),
            old(self)@.tape.len() <= final(self)@.tape.len() <= old(self)@.tape.len() + 1,
            old(self)@.state == State::Halt ==> final(self)@ == old(self)@,
            seen == final(self)@.observe(),
    {
        if self.state == State::Halt {
            return self.observe();
        }
        let symbol = self.tape[self.position];
        match self.rules.get(self.state, symbol) {
            Some(rule) => {
                write_cell(&mut self.tape, self.position, rule.write);
                self.state = rule.next_state;
                match rule.move_ {
                    Move::Left => {
                        if self.position == 0 {
                            self.tape.push_front(Symbol::Blank);
                        } else {
                            self.position -= 1;
                        }
                    },
                    Move::Right => {
                        self.position += 1;
                        if self.position == self.tape.len() {
                            self.tape.push_back(Symbol::Blank);
                        }
                    },
                }
            },
            None => {
                self.state = State::Halt;
            },
        }
        self.observe()
    }

    /// Steps until the machine has halted or `max_steps` steps are done,
    /// and returns what an observer sees after each step, in order.
    pub fn run(&mut self, max_steps: usize) -> (seen: Vec<Observation>)
        requires
            old(self).wf(),
            old(self)@.tape.len() + max_steps <= usize::MAX,
        ensures
            seen@ == old(self)@.trace(
                old(self).table(),
                old(self)@.steps_taken(old(self).table(), max_steps as nat),
            ),
            final(self)@ == old(self)@.after(
                old(self).table(),
                old(self)@.steps_taken(old(self).table(), max_steps as nat),
            ),
            final(self).table() == old(self).table(),
            final(self).wf(),
            seen@.len() <= max_steps,
            old(self)@.tape.len() <= final(self)@.tape.len() <= old(self)@.tape.len() + seen@.len(),
            seen@.len() < max_steps ==> final(self)@.state == State::Halt,
    {
        let ghost start = self@;
        let ghost table = self.table();
        let mut seen: Vec<Observation> = Vec::new();
        let mut done: usize = 0;
        while done < max_steps && self.state != State::Halt
            invariant
                done <= max_steps,
                self.wf(),
                self.table() == table,
                self@ == start.after(table, done as nat),
                start.tape.len() <= self@.tape.len() <= start.tape.len() + done,
                start.tape.len() + max_steps <= usize::MAX,
                seen@ == start.trace(table, done as nat),
                done + self@.steps_taken(table, (max_steps - done) as nat) == start.steps_taken(
                    table,
                    max_steps as nat,
                ),
            decreases max_steps - done,
        {
            let now: Observation = self.step();
            seen.push(now);
            done += 1;
            assert(seen@ =~= start.trace(table, done as nat));
        }
        seen
    }
}

} // verus!
