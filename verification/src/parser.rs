//! The frame parser: a state machine over the characters of one read that
//! harvests the bulk strings of a command frame.

use vstd::prelude::*;
use vstd::utf8::encode_utf8;
use crate::decimal::{parse_i32, parsed_i32};
use crate::text::{push_char, views};
use crate::types::{ParserState, ScanState};

verus! {

/// The parser in the middle of its input: the state it is in and the tokens
/// it has harvested so far.
pub struct Scan {
    pub state: ScanState,
    pub tokens: Seq<Seq<char>>,
}

/// The parser before any input.
pub open spec fn initial_scan() -> Scan {
    Scan { state: ScanState::Start, tokens: Seq::empty() }
}

/// The length that a bulk string's header has to announce: the number of
/// bytes of the string's UTF-8 encoding.
pub open spec fn byte_length(content: Seq<char>) -> int {
    encode_utf8(content).len() as int
}

/// One transition of the state machine, on the character `ch`.
pub open spec fn step(scan: Scan, ch: char) -> Scan {
    match scan.state {
        ScanState::Start => {
            if ch == '*' {
                Scan { state: ScanState::ReadingArrayLength(Seq::empty()), tokens: scan.tokens }
            } else {
                scan
            }
        },
        ScanState::ReadingArrayLength(acc) => {
            if ch == '\r' {
                if parsed_i32(acc) is Some {
                    Scan { state: ScanState::ExpectingBulkString, tokens: scan.tokens }
                } else {
                    Scan { state: ScanState::Start, tokens: scan.tokens }
                }
            } else {
                Scan { state: ScanState::ReadingArrayLength(acc.push(ch)), tokens: scan.tokens }
            }
        },
        ScanState::ExpectingBulkString => {
            if ch == '$' {
                Scan { state: ScanState::ReadingBulkLength(Seq::empty()), tokens: scan.tokens }
            } else {
                scan
            }
        },
        ScanState::ReadingBulkLength(acc) => {
            if ch == '\r' {
                match parsed_i32(acc) {
                    Some(n) => Scan {
                        state: ScanState::ReadingBulkContent {
                            expected_length: n as int,
                            current_content: Seq::empty(),
                        },
                        tokens: scan.tokens,
                    },
                    None => initial_scan(),
                }
            } else {
                Scan { state: ScanState::ReadingBulkLength(acc.push(ch)), tokens: scan.tokens }
            }
        },
        ScanState::ReadingBulkContent { expected_length, current_content } => {
            if ch == '\r' {
                if byte_length(current_content) == expected_length {
                    Scan {
                        state: ScanState::ExpectingBulkString,
                        tokens: scan.tokens.push(current_content),
                    }
                } else {
                    scan
                }
            } else if ch != '\n' {
                Scan {
                    state: ScanState::ReadingBulkContent {
                        expected_length,
                        current_content: current_content.push(ch),
                    },
                    tokens: scan.tokens,
                }
            } else {
                scan
            }
        },
    }
}

/// The parser after it has read `input`, character by character, from `scan`.
pub open spec fn scan_from(scan: Scan, input: Seq<char>) -> Scan
    decreases input.len(),
{
    if input.len() == 0 {
        scan
    } else {
        step(scan_from(scan, input.drop_last()), input.last())
    }
}

/// The tokens that one read yields.
pub open spec fn parsed_tokens(input: Seq<char>) -> Seq<Seq<char>> {
    scan_from(initial_scan(), input).tokens
}

/// Splits one read into the tokens of its command frame. Malformed input is
/// never an error: it yields fewer tokens, or none.
pub fn parse_command(request: &str) -> (command_parts: Vec<String>)
    ensures
        views(command_parts@) == parsed_tokens(request@),
{
    let mut state = ParserState::Start;
    let mut command_parts: Vec<String> = Vec::new();
    proof {
        assert(views(command_parts@) =~= Seq::<Seq<char>>::empty());
    }
    let ghost mut read: int = 0;
    for ch in it: request.chars()
        invariant
            it.seq() == request@,
            read == it.index(),
            (Scan { state: state@, tokens: views(command_parts@) }) == scan_from(
                initial_scan(),
                request@.take(read),
            ),
    {
        let ghost parts_before = command_parts@;
        proof {
            assert(request@.take(read + 1).drop_last() =~= request@.take(read));
        }
        state = match state {
            ParserState::Start => {
                if ch == '*' {
                    ParserState::ReadingArrayLength(String::new())
                } else {
                    ParserState::Start
                }
            },
            ParserState::ReadingArrayLength(num) => {
                if ch == '\r' {
                    match parse_i32(num.as_str()) {
                        Some(_n) => ParserState::ExpectingBulkString,
                        None => ParserState::Start,
                    }
                } else {
                    let mut num = num;
                    push_char(&mut num, ch);
                    ParserState::ReadingArrayLength(num)
                }
            },
            ParserState::ExpectingBulkString => {
                if ch == '$' {
                    ParserState::ReadingBulkLength(String::new())
                } else {
                    ParserState::ExpectingBulkString
                }
            },
            ParserState::ReadingBulkLength(num) => {
                if ch == '\r' {
                    match parse_i32(num.as_str()) {
                        Some(n) => ParserState::ReadingBulkContent {
                            expected_length: n,
                            current_content: String::new(),
                        },
                        None => {
                            command_parts = Vec::new();
                            proof {
                                assert(views(command_parts@) =~= Seq::<Seq<char>>::empty());
                            }
                            ParserState::Start
                        },
                    }
                } else {
                    let mut num = num;
                    push_char(&mut num, ch);
                    ParserState::ReadingBulkLength(num)
                }
            },
            ParserState::ReadingBulkContent { expected_length, current_content } => {
                if ch == '\r' {
                    if expected_length >= 0 && current_content.as_str().as_bytes().len()
                        == expected_length as usize {
                        proof {
                            assert(views(parts_before.push(current_content)) =~= views(
                                parts_before,
                            ).push(current_content@));
                        }
                        command_parts.push(current_content);
                        ParserState::ExpectingBulkString
                    } else {
                        ParserState::ReadingBulkContent { expected_length, current_content }
                    }
                } else if ch != '\n' {
                    let mut current_content = current_content;
                    push_char(&mut current_content, ch);
                    ParserState::ReadingBulkContent { expected_length, current_content }
                } else {
                    ParserState::ReadingBulkContent { expected_length, current_content }
                }
            },
        };
        proof {
            read = read + 1;
        }
    }
    proof {
        assert(request@.take(read) =~= request@);
    }
    command_parts
}

} // verus!
