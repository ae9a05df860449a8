use turing_machine::alphabet::{Move, ParseEnumError, Rule, State, Symbol};
use turing_machine::loader::{load_rules, parse_line, Line};
use turing_machine::rules::Rules;
use turing_machine::text::{chars_of, split_chars, trim_chars};

fn rule(write: Symbol, move_: Move, next_state: State) -> Rule {
    Rule { write, move_, next_state }
}

fn chars(s: &str) -> Vec<char> {
    s.chars().collect()
}

#[test]
fn empty_table_has_no_entry() {
    let t = Rules::new();
    for state in [State::A, State::B, State::C, State::Halt] {
        for symbol in [Symbol::Zero, Symbol::One, Symbol::Blank] {
            assert_eq!(t.get(state, symbol), None);
        }
    }
}

#[test]
fn insert_then_get_finds_only_that_pair() {
    let mut t = Rules::new();
    let r = rule(Symbol::One, Move::Left, State::C);
    t.insert(State::B, Symbol::Blank, r);
    for state in [State::A, State::B, State::C, State::Halt] {
        for symbol in [Symbol::Zero, Symbol::One, Symbol::Blank] {
            let expected = if state == State::B && symbol == Symbol::Blank { Some(r) } else { None };
            assert_eq!(t.get(state, symbol), expected);
        }
    }
}

#[test]
fn all_twelve_pairs_are_kept_apart() {
    let mut t = Rules::new();
    let states = [State::A, State::B, State::C, State::Halt];
    let symbols = [Symbol::Zero, Symbol::One, Symbol::Blank];
    for (i, state) in states.iter().enumerate() {
        for (j, symbol) in symbols.iter().enumerate() {
            t.insert(*state, *symbol, rule(symbols[(i + j) % 3], Move::Right, states[(i + 2 * j) % 4]));
        }
    }
    for (i, state) in states.iter().enumerate() {
        for (j, symbol) in symbols.iter().enumerate() {
            assert_eq!(
                t.get(*state, *symbol),
                Some(rule(symbols[(i + j) % 3], Move::Right, states[(i + 2 * j) % 4]))
            );
        }
    }
}

#[test]
fn later_entry_replaces_earlier_one() {
    let first = rule(Symbol::One, Move::Left, State::B);
    let second = rule(Symbol::Blank, Move::Right, State::C);
    let t = Rules::from_entries(&vec![
        (State::A, Symbol::Zero, first),
        (State::B, Symbol::One, first),
        (State::A, Symbol::Zero, second),
    ]);
    assert_eq!(t.get(State::A, Symbol::Zero), Some(second));
    assert_eq!(t.get(State::B, Symbol::One), Some(first));
    assert_eq!(t.get(State::A, Symbol::One), None);
}

#[test]
fn state_tokens() {
    assert_eq!(State::from_str("A"), Ok(State::A));
    assert_eq!(State::from_str("B"), Ok(State::B));
    assert_eq!(State::from_str("C"), Ok(State::C));
    assert_eq!(State::from_str("Halt"), Ok(State::Halt));
    assert_eq!(State::from_str(""), Err(ParseEnumError));
    assert_eq!(State::from_str("D"), Err(ParseEnumError));
    assert_eq!(State::from_str("a"), Err(ParseEnumError));
    assert_eq!(State::from_str("halt"), Err(ParseEnumError));
    assert_eq!(State::from_str("Hal"), Err(ParseEnumError));
    assert_eq!(State::from_str("Halts"), Err(ParseEnumError));
    assert_eq!(State::from_str(" A"), Err(ParseEnumError));
    assert_eq!(State::from_str("AB"), Err(ParseEnumError));
}

#[test]
fn symbol_tokens() {
    assert_eq!(Symbol::from_str("0"), Ok(Symbol::Zero));
    assert_eq!(Symbol::from_str("1"), Ok(Symbol::One));
    assert_eq!(Symbol::from_str("Blank"), Ok(Symbol::Blank));
    assert_eq!(Symbol::from_str(""), Err(ParseEnumError));
    assert_eq!(Symbol::from_str("2"), Err(ParseEnumError));
    assert_eq!(Symbol::from_str("blank"), Err(ParseEnumError));
    assert_eq!(Symbol::from_str("Blanc"), Err(ParseEnumError));
    assert_eq!(Symbol::from_str("Zero"), Err(ParseEnumError));
    assert_eq!(Symbol::from_str("01"), Err(ParseEnumError));
}

#[test]
fn move_tokens() {
    assert_eq!(Move::from_str("L"), Ok(Move::Left));
    assert_eq!(Move::from_str("R"), Ok(Move::Right));
    assert_eq!(Move::from_str(""), Err(ParseEnumError));
    assert_eq!(Move::from_str("l"), Err(ParseEnumError));
    assert_eq!(Move::from_str("Left"), Err(ParseEnumError));
    assert_eq!(Move::from_str("LR"), Err(ParseEnumError));
}

#[test]
fn tokens_from_characters() {
    assert_eq!(State::from_chars(&chars("Halt")), Ok(State::Halt));
    assert_eq!(State::from_chars(&chars("Hxlt")), Err(ParseEnumError));
    assert_eq!(Symbol::from_chars(&chars("Blank")), Ok(Symbol::Blank));
    assert_eq!(Symbol::from_chars(&chars("Blink")), Err(ParseEnumError));
    assert_eq!(Move::from_chars(&chars("R")), Ok(Move::Right));
    assert_eq!(Move::from_chars(&chars("X")), Err(ParseEnumError));
}

#[test]
fn error_message() {
    assert_eq!(ParseEnumError.message(), "Could not parse the enum");
}

#[test]
fn state_and_symbol_indices() {
    assert_eq!(State::A.index(), 0);
    assert_eq!(State::B.index(), 1);
    assert_eq!(State::C.index(), 2);
    assert_eq!(State::Halt.index(), 3);
    assert_eq!(Symbol::Zero.index(), 0);
    assert_eq!(Symbol::One.index(), 1);
    assert_eq!(Symbol::Blank.index(), 2);
}

#[test]
fn characters_of_a_string() {
    assert_eq!(chars_of(""), Vec::<char>::new());
    assert_eq!(chars_of("a,b"), vec!['a', ',', 'b']);
    assert_eq!(chars_of("é1"), vec!['é', '1']);
}

#[test]
fn trimming() {
    assert_eq!(trim_chars(&chars("  A \t")), chars("A"));
    assert_eq!(trim_chars(&chars("A")), chars("A"));
    assert_eq!(trim_chars(&chars("")), chars(""));
    assert_eq!(trim_chars(&chars(" \n ")), chars(""));
    assert_eq!(trim_chars(&chars(" a b ")), chars("a b"));
    assert_eq!(trim_chars(&chars("\u{a0}x\u{3000}")), chars("x"));
}

#[test]
fn splitting() {
    assert_eq!(split_chars(&chars(""), ','), vec![chars("")]);
    assert_eq!(split_chars(&chars("a"), ','), vec![chars("a")]);
    assert_eq!(split_chars(&chars("a,b"), ','), vec![chars("a"), chars("b")]);
    assert_eq!(split_chars(&chars(",a,,b,"), ','), vec![chars(""), chars("a"), chars(""), chars("b"), chars("")]);
    assert_eq!(split_chars(&chars("a;b,c"), ';'), vec![chars("a"), chars("b,c")]);
}

#[test]
fn splitting_agrees_with_std() {
    for line in ["", ",", "A,0,1,R,B", " A , 0 ,1,R , B ", "a,,b", ",,,,", "no commas"] {
        let expected: Vec<Vec<char>> = line.split(',').map(|f| f.chars().collect()).collect();
        assert_eq!(split_chars(&chars(line), ','), expected);
        let trimmed: Vec<char> = line.trim().chars().collect();
        assert_eq!(trim_chars(&chars(line)), trimmed);
    }
}

#[test]
fn line_with_five_tokens_is_an_entry() {
    assert_eq!(
        parse_line("A,0,1,R,B"),
        Line::Entry(State::A, Symbol::Zero, rule(Symbol::One, Move::Right, State::B))
    );
    assert_eq!(
        parse_line("  C , Blank ,\t0 , L , Halt  "),
        Line::Entry(State::C, Symbol::Blank, rule(Symbol::Zero, Move::Left, State::Halt))
    );
}

#[test]
fn line_without_five_fields_is_skipped() {
    assert_eq!(parse_line(""), Line::Skipped);
    assert_eq!(parse_line("A,0,1,R"), Line::Skipped);
    assert_eq!(parse_line("A,0,1,R,B,"), Line::Skipped);
    assert_eq!(parse_line("# a comment"), Line::Skipped);
    assert_eq!(parse_line("X,Y,Z"), Line::Skipped);
}

#[test]
fn line_with_a_bad_token_is_invalid() {
    assert_eq!(parse_line("D,0,1,R,B"), Line::Invalid);
    assert_eq!(parse_line("A,2,1,R,B"), Line::Invalid);
    assert_eq!(parse_line("A,0,x,R,B"), Line::Invalid);
    assert_eq!(parse_line("A,0,1,U,B"), Line::Invalid);
    assert_eq!(parse_line("A,0,1,R,"), Line::Invalid);
    assert_eq!(parse_line(",,,,"), Line::Invalid);
    assert_eq!(parse_line("A,0,1,R,B C"), Line::Invalid);
}

#[test]
fn loading_builds_the_table() {
    let lines: Vec<String> = ["A,0,1,R,B", "", "B, 1, 0, R, Halt", "skip,me", "A,0,Blank,L,C"]
        .iter()
        .map(|l| l.to_string())
        .collect();
    match load_rules(&lines) {
        Ok(t) => {
            assert_eq!(t.get(State::A, Symbol::Zero), Some(rule(Symbol::Blank, Move::Left, State::C)));
            assert_eq!(t.get(State::B, Symbol::One), Some(rule(Symbol::Zero, Move::Right, State::Halt)));
            assert_eq!(t.get(State::A, Symbol::One), None);
            assert_eq!(t.get(State::C, Symbol::Zero), None);
        }
        Err(_) => panic!("the lines are valid"),
    }
}

#[test]
fn loading_fails_on_an_invalid_line() {
    let lines: Vec<String> = ["A,0,1,R,B", "A,0,1,R,Q", "B,1,0,R,Halt"].iter().map(|l| l.to_string()).collect();
    match load_rules(&lines) {
        Ok(_) => panic!("the second line is invalid"),
        Err(e) => assert_eq!(e, ParseEnumError),
    }
}

#[test]
fn loading_nothing_gives_the_empty_table() {
    match load_rules(&Vec::new()) {
        Ok(t) => assert_eq!(t.get(State::A, Symbol::Zero), None),
        Err(_) => panic!("no line is invalid"),
    }
}

#[test]
fn entries_are_listed_by_state_then_symbol() {
    let a = rule(Symbol::One, Move::Left, State::B);
    let b = rule(Symbol::Blank, Move::Right, State::C);
    let c = rule(Symbol::Zero, Move::Right, State::Halt);
    let t = Rules::from_entries(&vec![
        (State::Halt, Symbol::Blank, c),
        (State::B, Symbol::One, b),
        (State::A, Symbol::Zero, b),
        (State::B, Symbol::Zero, a),
        (State::A, Symbol::Zero, a),
    ]);
    assert_eq!(
        t.entries(),
        vec![
            (State::A, Symbol::Zero, a),
            (State::B, Symbol::Zero, a),
            (State::B, Symbol::One, b),
            (State::Halt, Symbol::Blank, c),
        ]
    );
    assert_eq!(Rules::new().entries(), vec![]);
}

#[test]
fn listing_rebuilds_the_table() {
    let a = rule(Symbol::One, Move::Left, State::B);
    let b = rule(Symbol::Blank, Move::Right, State::C);
    let t = Rules::from_entries(&vec![(State::C, Symbol::One, a), (State::A, Symbol::Blank, b)]);
    let again = Rules::from_entries(&t.entries());
    for state in [State::A, State::B, State::C, State::Halt] {
        for symbol in [Symbol::Zero, Symbol::One, Symbol::Blank] {
            assert_eq!(again.get(state, symbol), t.get(state, symbol));
        }
    }
}

#[test]
fn indices_and_back() {
    for state in [State::A, State::B, State::C, State::Halt] {
        assert_eq!(State::from_index(state.index()), state);
    }
    for symbol in [Symbol::Zero, Symbol::One, Symbol::Blank] {
        assert_eq!(Symbol::from_index(symbol.index()), symbol);
    }
    assert_eq!(State::from_index(200), State::Halt);
    assert_eq!(Symbol::from_index(200), Symbol::Blank);
}
