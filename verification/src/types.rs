//! The values the store holds, what a lookup answers, and the states of the
//! frame parser, each with the mathematical value it stands for.

use vstd::prelude::*;

verus! {

/// What a stored entry is, as a mathematical value: its text, and the
/// instant (milliseconds on the caller's clock) after which it has expired,
/// if it ever does.
pub struct StoredValue {
    pub data: Seq<char>,
    pub expires_at: Option<int>,
}

/// One entry of the store.
#[derive(Clone)]
pub struct RedisValue {
    pub data: String,
    /// The last millisecond at which the entry is still alive; `None` for an
    /// entry that never expires.
    pub expires_at: Option<u128>,
}

impl View for RedisValue {
    type V = StoredValue;

    open spec fn view(&self) -> StoredValue {
        StoredValue {
            data: self.data@,
            expires_at: match self.expires_at {
                Some(t) => Some(t as int),
                None => None,
            },
        }
    }
}

/// What a lookup answers, as a mathematical value.
pub enum GetOutcome {
    Value(Seq<char>),
    Nothing,
    Expired,
}

/// What a lookup answers.
#[derive(Debug)]
pub enum RedisGetResult {
    /// The entry's text, or the filtered array.
    Value(String),
    /// Nothing is stored under the key, or a filter was asked of an entry
    /// that is no JSON array.
    Nothing,
    /// The entry had outlived its deadline and has just been removed.
    Expired,
}

impl View for RedisGetResult {
    type V = GetOutcome;

    open spec fn view(&self) -> GetOutcome {
        match self {
            RedisGetResult::Value(s) => GetOutcome::Value(s@),
            RedisGetResult::Nothing => GetOutcome::Nothing,
            RedisGetResult::Expired => GetOutcome::Expired,
        }
    }
}

/// A state of the frame parser, as a mathematical value.
pub enum ScanState {
    Start,
    ReadingArrayLength(Seq<char>),
    ExpectingBulkString,
    ReadingBulkLength(Seq<char>),
    ReadingBulkContent { expected_length: int, current_content: Seq<char> },
}

/// A state of the frame parser.
#[derive(Debug)]
pub enum ParserState {
    /// Looking for the `*` that opens a frame.
    Start,
    /// Collecting the digits of the element count.
    ReadingArrayLength(String),
    /// Looking for the `$` that opens a bulk string.
    ExpectingBulkString,
    /// Collecting the digits of a bulk string's length.
    ReadingBulkLength(String),
    /// Collecting a bulk string's characters.
    ReadingBulkContent { expected_length: i32, current_content: String },
}

impl View for ParserState {
    type V = ScanState;

    open spec fn view(&self) -> ScanState {
        match self {
            ParserState::Start => ScanState::Start,
            ParserState::ReadingArrayLength(acc) => ScanState::ReadingArrayLength(acc@),
            ParserState::ExpectingBulkString => ScanState::ExpectingBulkString,
            ParserState::ReadingBulkLength(acc) => ScanState::ReadingBulkLength(acc@),
            ParserState::ReadingBulkContent { expected_length, current_content } => {
                ScanState::ReadingBulkContent {
                    expected_length: *expected_length as int,
                    current_content: current_content@,
                }
            },
        }
    }
}

} // verus!
