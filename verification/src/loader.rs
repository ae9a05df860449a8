//! Reading a rule table from text: one rule per line, five fields
//! separated by commas, each a token with optional white space around it.

use crate::alphabet::{Move, ParseEnumError, Rule, State, Symbol};
use crate::rules::Rules;
use crate::text::{chars_of, split, split_chars, trim, trim_chars};
use vstd::prelude::*;

verus! {

/// What one line of a rule file amounts to.
#[derive(Clone, Copy, Debug, PartialEq, Eq, Structural)]
pub enum Line {
    /// The line does not have five fields and is passed over.
    Skipped,
    /// The line gives the rule for a state and a symbol.
    Entry(State, Symbol, Rule),
    /// The line has five fields, and one of them is no token of its kind.
    Invalid,
}

/// The meaning of one line. The fields are, in order: state, symbol under
/// the head, symbol to write, move, next state.
pub open spec fn read_line(text: Seq<char>) -> Line {
    let fields = split(text, ',');
    if fields.len() != 5 {
        Line::Skipped
    } else {
        match (
            State::parse(trim(fields[0])),
            Symbol::parse(trim(fields[1])),
            Symbol::parse(trim(fields[2])),
            Move::parse(trim(fields[3])),
            State::parse(trim(fields[4])),
        ) {
            (Some(state), Some(symbol), Some(write), Some(move_), Some(next_state)) => Line::Entry(
                state,
                symbol,
                Rule { write, move_, next_state },
            ),
            _ => Line::Invalid,
        }
    }
}

/// The table that the lines of a rule file build, or the error where some
/// line is invalid. Skipped lines add nothing; of two entries for the same
/// state and symbol the later one stands.
pub open spec fn read_lines(lines: Seq<Seq<char>>) -> Result<
    Map<(State, Symbol), Rule>,
    ParseEnumError,
>
    decreases lines.len(),
{
    if lines.len() == 0 {
        Ok(Map::empty())
    } else {
        match read_lines(lines.drop_last()) {
            Err(e) => Err(e),
            Ok(table) => match read_line(lines.last()) {
                Line::Skipped => Ok(table),
                Line::Entry(state, symbol, rule) => Ok(table.insert((state, symbol), rule)),
                Line::Invalid => Err(ParseEnumError),
            },
        }
    }
}

/// The texts of a vector of strings.
pub open spec fn line_texts(lines: Seq<String>) -> Seq<Seq<char>> {
    lines.map_values(|line: String| line@)
}

/// Reads one line.
pub fn parse_line(line: &str) -> (parsed: Line)
    ensures
        parsed == read_line(line@),
{
    let text: Vec<char> = chars_of(line);
    let fields: Vec<Vec<char>> = split_chars(&text, ',');
    if fields.len() != 5 {
        return Line::Skipped;
    }
    let state = State::from_chars(&trim_chars(&fields[0]));
    let symbol = Symbol::from_chars(&trim_chars(&fields[1]));
    let write = Symbol::from_chars(&trim_chars(&fields[2]));
    let move_ = Move::from_chars(&trim_chars(&fields[3]));
    let next_state = State::from_chars(&trim_chars(&fields[4]));
    match (state, symbol, write, move_, next_state) {
        (Ok(state), Ok(symbol), Ok(write), Ok(move_), Ok(next_state)) => Line::Entry(
            state,
            symbol,
            Rule { write, move_, next_state },
        ),
        _ => Line::Invalid,
    }
}

/// Builds the rule table that `lines` describe. Fails on the first
/// invalid line.
pub fn load_rules(lines: &Vec<String>) -> (loaded: Result<Rules, ParseEnumError>)
    ensures
        match read_lines(line_texts(lines@)) {
            Ok(table) => loaded is Ok && loaded->Ok_0@ == table,
            Err(e) => loaded == Err::<Rules, ParseEnumError>(e),
        },
{
    let mut table = Rules::new();
    let mut i: usize = 0;
    let ghost all = line_texts(lines@);
    assert(all.take(0) =~= Seq::<Seq<char>>::empty());
    while i < lines.len()
        invariant
            i <= lines@.len(),
            all == line_texts(lines@),
            read_lines(all.take(i as int)) == Ok::<Map<(State, Symbol), Rule>, ParseEnumError>(
                table@,
            ),
        decreases lines@.len() - i,
    {
        assert(all.take(i + 1).drop_last() =~= all.take(i as int));
        assert(all.take(i + 1).last() == lines@[i as int]@);
        match parse_line(lines[i].as_str()) {
            Line::Skipped => {},
            Line::Entry(state, symbol, rule) => {
                table.insert(state, symbol, rule);
            },
            Line::Invalid => {
                proof {
                    lemma_invalid_line_fails(all, i as int);
                }
                return Err(ParseEnumError);
            },
        }
        i += 1;
    }
    assert(all.take(i as int) =~= all);
    Ok(table)
}

/// Once a prefix of the lines fails, the whole file fails.
pub proof fn lemma_failure_persists(lines: Seq<Seq<char>>, n: int)
    requires
        0 <= n <= lines.len(),
        read_lines(lines.take(n)) is Err,
    ensures
        read_lines(lines) is Err,
    decreases lines.len() - n,
{
    if n < lines.len() {
        assert(lines.take(n + 1).drop_last() =~= lines.take(n));
        lemma_failure_persists(lines, n + 1);
    } else {
        assert(lines.take(n) =~= lines);
    }
}

/// A file with an invalid line fails.
pub proof fn lemma_invalid_line_fails(lines: Seq<Seq<char>>, at: int)
    requires
        0 <= at < lines.len(),
        read_line(lines[at]) == Line::Invalid,
    ensures
        read_lines(lines) == Err::<Map<(State, Symbol), Rule>, ParseEnumError>(ParseEnumError),
{
    assert(lines.take(at + 1).drop_last() =~= lines.take(at));
    assert(lines.take(at + 1).last() == lines[at]);
    assert(read_lines(lines.take(at + 1)) is Err);
    lemma_failure_persists(lines, at + 1);
}

} // verus!
