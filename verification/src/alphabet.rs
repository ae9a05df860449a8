//! The closed sets of values a machine works with: control states, tape
//! symbols, head moves, and the rule that ties them together.

use crate::text::chars_of;
use vstd::prelude::*;

verus! {

/// A token that names no value of the enumeration it was read for.
#[derive(Clone, Copy, Debug, PartialEq, Eq, Structural)]
pub struct ParseEnumError;

impl ParseEnumError {
    /// The error in words.
    pub fn message(&self) -> (text: String)
        ensures
            text@ == "Could not parse the enum"@,
    {
        "Could not parse the enum".to_string()
    }
}

/// A parse that found nothing is an error; one that found a value is that
/// value.
pub open spec fn found<T>(parsed: Option<T>) -> Result<T, ParseEnumError> {
    match parsed {
        Some(value) => Ok(value),
        None => Err(ParseEnumError),
    }
}

/// A control state. `Halt` is the single terminal state.
#[derive(Clone, Copy, Debug, PartialEq, Eq, Hash, Structural)]
pub enum State {
    A,
    B,
    C,
    Halt,
}

/// The content of one tape cell. `Blank` fills cells that were never written.
#[derive(Clone, Copy, Debug, PartialEq, Eq, Hash, Structural)]
pub enum Symbol {
    Zero,
    One,
    Blank,
}

/// The direction in which the head moves after a write.
#[derive(Clone, Copy, Debug, PartialEq, Eq, Hash, Structural)]
pub enum Move {
    Left,
    Right,
}

/// What to do on one (state, symbol) pair: the symbol to write, the
/// direction to move, and the state to enter.
#[derive(Clone, Copy, Debug, PartialEq, Eq, Structural)]
pub struct Rule {
    pub write: Symbol,
    pub move_: Move,
    pub next_state: State,
}

impl State {
    /// The state that `token` names: `A`, `B`, `C` or `Halt`, and no other
    /// text.
    pub open spec fn parse(token: Seq<char>) -> Option<State> {
        if token == seq!['A'] {
            Some(State::A)
        } else if token == seq!['B'] {
            Some(State::B)
        } else if token == seq!['C'] {
            Some(State::C)
        } else if token == seq!['H', 'a', 'l', 't'] {
            Some(State::Halt)
        } else {
            None
        }
    }

    /// Reads a state from the characters of its name.
    pub fn from_chars(token: &Vec<char>) -> (parsed: Result<State, ParseEnumError>)
        ensures
            parsed == found(State::parse(token@)),
    {
        let n: usize = token.len();
        if n == 1 {
            let c: char = token[0];
            assert(token@ =~= seq![c]);
            assert(seq![c][0] == c);
            assert(seq!['A'][0] == 'A' && seq!['B'][0] == 'B' && seq!['C'][0] == 'C');
            if c == 'A' {
                Ok(State::A)
            } else if c == 'B' {
                Ok(State::B)
            } else if c == 'C' {
                Ok(State::C)
            } else {
                Err(ParseEnumError)
            }
        } else if n == 4 {
            let ghost halt = seq!['H', 'a', 'l', 't'];
            assert(halt[0] == 'H' && halt[1] == 'a' && halt[2] == 'l' && halt[3] == 't');
            if token[0] == 'H' && token[1] == 'a' && token[2] == 'l' && token[3] == 't' {
                assert(token@ =~= halt);
                Ok(State::Halt)
            } else {
                Err(ParseEnumError)
            }
        } else {
            assert(seq!['H', 'a', 'l', 't'].len() == 4);
            Err(ParseEnumError)
        }
    }

    /// Reads a state from its name.
    pub fn from_str(s: &str) -> (parsed: Result<State, ParseEnumError>)
        ensures
            parsed == found(State::parse(s@)),
    {
        let token: Vec<char> = chars_of(s);
        State::from_chars(&token)
    }

    /// The position of the state in the enumeration, from 0.
    pub open spec fn ordinal(self) -> int {
        match self {
            State::A => 0,
            State::B => 1,
            State::C => 2,
            State::Halt => 3,
        }
    }

    /// Computes `ordinal`.
    pub fn index(self) -> (i: u8)
        ensures
            i == self.ordinal(),
            i < 4,
    {
        match self {
            State::A => 0,
            State::B => 1,
            State::C => 2,
            State::Halt => 3,
        }
    }

    /// The state at position `i` of the enumeration; `Halt` from 3 on.
    pub open spec fn at(i: int) -> State {
        if i == 0 {
            State::A
        } else if i == 1 {
            State::B
        } else if i == 2 {
            State::C
        } else {
            State::Halt
        }
    }

    /// Computes `at`.
    pub fn from_index(i: u8) -> (state: State)
        ensures
            state == State::at(i as int),
            i < 4 ==> state.ordinal() == i,
    {
        if i == 0 {
            State::A
        } else if i == 1 {
            State::B
        } else if i == 2 {
            State::C
        } else {
            State::Halt
        }
    }
}

impl Symbol {
    /// The symbol that `token` names: `0`, `1` or `Blank`, and no other text.
    pub open spec fn parse(token: Seq<char>) -> Option<Symbol> {
        if token == seq!['0'] {
            Some(Symbol::Zero)
        } else if token == seq!['1'] {
            Some(Symbol::One)
        } else if token == seq!['B', 'l', 'a', 'n', 'k'] {
            Some(Symbol::Blank)
        } else {
            None
        }
    }

    /// Reads a symbol from the characters of its name.
    pub fn from_chars(token: &Vec<char>) -> (parsed: Result<Symbol, ParseEnumError>)
        ensures
            parsed == found(Symbol::parse(token@)),
    {
        let n: usize = token.len();
        if n == 1 {
            let c: char = token[0];
            assert(token@ =~= seq![c]);
            assert(seq![c][0] == c);
            assert(seq!['0'][0] == '0' && seq!['1'][0] == '1');
            if c == '0' {
                Ok(Symbol::Zero)
            } else if c == '1' {
                Ok(Symbol::One)
            } else {
                Err(ParseEnumError)
            }
        } else if n == 5 {
            let ghost blank = seq!['B', 'l', 'a', 'n', 'k'];
            assert(blank[0] == 'B' && blank[1] == 'l' && blank[2] == 'a' && blank[3] == 'n'
                && blank[4] == 'k');
            if token[0] == 'B' && token[1] == 'l' && token[2] == 'a' && token[3] == 'n' && token[4]
                == 'k' {
                assert(token@ =~= blank);
                Ok(Symbol::Blank)
            } else {
                Err(ParseEnumError)
            }
        } else {
            assert(seq!['B', 'l', 'a', 'n', 'k'].len() == 5);
            Err(ParseEnumError)
        }
    }

    /// Reads a symbol from its name.
    pub fn from_str(s: &str) -> (parsed: Result<Symbol, ParseEnumError>)
        ensures
            parsed == found(Symbol::parse(s@)),
    {
        let token: Vec<char> = chars_of(s);
        Symbol::from_chars(&token)
    }

    /// The position of the symbol in the enumeration, from 0.
    pub open spec fn ordinal(self) -> int {
        match self {
            Symbol::Zero => 0,
            Symbol::One => 1,
            Symbol::Blank => 2,
        }
    }

    /// Computes `ordinal`.
    pub fn index(self) -> (i: u8)
        ensures
            i == self.ordinal(),
            i < 3,
    {
        match self {
            Symbol::Zero => 0,
            Symbol::One => 1,
            Symbol::Blank => 2,
        }
    }

    /// The symbol at position `i` of the enumeration; `Blank` from 2 on.
    pub open spec fn at(i: int) -> Symbol {
        if i == 0 {
            Symbol::Zero
        } else if i == 1 {
            Symbol::One
        } else {
            Symbol::Blank
        }
    }

    /// Computes `at`.
    pub fn from_index(i: u8) -> (symbol: Symbol)
        ensures
            symbol == Symbol::at(i as int),
            i < 3 ==> symbol.ordinal() == i,
    {
        if i == 0 {
            Symbol::Zero
        } else if i == 1 {
            Symbol::One
        } else {
            Symbol::Blank
        }
    }
}

impl Move {
    /// The move that `token` names: `L` or `R`, and no other text.
    pub open spec fn parse(token: Seq<char>) -> Option<Move> {
        if token == seq!['L'] {
            Some(Move::Left)
        } else if token == seq!['R'] {
            Some(Move::Right)
        } else {
            None
        }
    }

    /// Reads a move from the characters of its name.
    pub fn from_chars(token: &Vec<char>) -> (parsed: Result<Move, ParseEnumError>)
        ensures
            parsed == found(Move::parse(token@)),
    {
        if token.len() == 1 {
            let c: char = token[0];
            assert(token@ =~= seq![c]);
            assert(seq![c][0] == c);
            assert(seq!['L'][0] == 'L' && seq!['R'][0] == 'R');
            if c == 'L' {
                Ok(Move::Left)
            } else if c == 'R' {
                Ok(Move::Right)
            } else {
                Err(ParseEnumError)
            }
        } else {
            assert(seq!['L'].len() == 1 && seq!['R'].len() == 1);
            Err(ParseEnumError)
        }
    }

    /// Reads a move from its name.
    pub fn from_str(s: &str) -> (parsed: Result<Move, ParseEnumError>)
        ensures
            parsed == found(Move::parse(s@)),
    {
        let token: Vec<char> = chars_of(s);
        Move::from_chars(&token)
    }
}

} // verus!
