//! Command frames as text, and what the parser makes of them: a well-formed
//! frame gives its tokens back, and a frame that is cut short or whose
//! length field is no number gives fewer.

use vstd::prelude::*;
use crate::decimal::{decimal_text, lemma_decimal_text, lemma_numeral_is_read, parsed_i32};
use crate::parser::{byte_length, initial_scan, parsed_tokens, scan_from, step, Scan};
use crate::types::ScanState;

verus! {

/// The end of a protocol line.
pub open spec fn line_end() -> Seq<char> {
    seq!['\r', '\n']
}

/// Whether `s` is free of carriage returns.
pub open spec fn no_carriage_return(s: Seq<char>) -> bool {
    forall|i: int| 0 <= i < s.len() ==> #[trigger] s[i] != '\r'
}

/// Whether `s` is free of carriage returns and line feeds.
pub open spec fn no_line_break(s: Seq<char>) -> bool {
    forall|i: int| 0 <= i < s.len() ==> #[trigger] s[i] != '\r' && s[i] != '\n'
}

/// A bulk string as text: `$`, the length field, and the token, each on a
/// line of its own.
pub open spec fn bulk_with(length: Seq<char>, token: Seq<char>) -> Seq<char> {
    seq!['$'] + length + line_end() + token + line_end()
}

/// The bulk string that carries `token`, with its true length.
pub open spec fn bulk_text(token: Seq<char>) -> Seq<char> {
    bulk_with(decimal_text(byte_length(token) as nat), token)
}

/// The bulk strings that carry `tokens`, one after the other.
pub open spec fn bulks_text(tokens: Seq<Seq<char>>) -> Seq<char>
    decreases tokens.len(),
{
    if tokens.len() == 0 {
        Seq::empty()
    } else {
        bulks_text(tokens.drop_last()) + bulk_text(tokens.last())
    }
}

/// A frame as text: `*` and the count field on a line, then the body.
pub open spec fn frame_with(count: Seq<char>, body: Seq<char>) -> Seq<char> {
    seq!['*'] + count + line_end() + body
}

/// The well-formed frame that carries `tokens`.
pub open spec fn frame_text(tokens: Seq<Seq<char>>) -> Seq<char> {
    frame_with(decimal_text(tokens.len()), bulks_text(tokens))
}

/// Whether a token can travel in a bulk string: it holds no line break, and
/// its length fits the length field.
pub open spec fn bulk_token(token: Seq<char>) -> bool {
    no_line_break(token) && byte_length(token) <= i32::MAX
}

/// Whether tokens can travel in one frame.
pub open spec fn frame_tokens(tokens: Seq<Seq<char>>) -> bool {
    tokens.len() <= i32::MAX && forall|i: int|
        0 <= i < tokens.len() ==> bulk_token(#[trigger] tokens[i])
}

/// The number of carriage returns in `s`.
pub open spec fn carriage_returns(s: Seq<char>) -> nat
    decreases s.len(),
{
    if s.len() == 0 {
        0
    } else if s.last() == '\r' {
        carriage_returns(s.drop_last()) + 1
    } else {
        carriage_returns(s.drop_last())
    }
}

/// How far a state is into a frame, in carriage returns read since the
/// last token.
pub open spec fn progress(state: ScanState) -> int {
    match state {
        ScanState::Start => 0,
        ScanState::ReadingArrayLength(_) => 0,
        ScanState::ExpectingBulkString => 1,
        ScanState::ReadingBulkLength(_) => 1,
        ScanState::ReadingBulkContent { .. } => 2,
    }
}

/// The carriage returns that a scan accounts for: two for each token, and
/// those of the frame's header and of the bulk string under way.
pub open spec fn consumed(scan: Scan) -> int {
    2 * scan.tokens.len() + progress(scan.state)
}

/// Whether a scan holds tokens only where a frame's header has been read.
pub open spec fn settled(scan: Scan) -> bool {
    (scan.state is Start || scan.state is ReadingArrayLength) ==> scan.tokens.len() == 0
}

/// A numeral holds no carriage return.
pub proof fn lemma_numeral_is_one_line(n: nat)
    ensures
        no_carriage_return(decimal_text(n)),
{
    lemma_decimal_text(n);
}

/// Reading `a` and then `b` is reading `a + b`.
pub proof fn lemma_scan_concat(scan: Scan, a: Seq<char>, b: Seq<char>)
    ensures
        scan_from(scan, a + b) == scan_from(scan_from(scan, a), b),
    decreases b.len(),
{
    if b.len() > 0 {
        assert((a + b).drop_last() =~= a + b.drop_last());
        lemma_scan_concat(scan, a, b.drop_last());
    }
}

/// Reading one character is one step.
pub proof fn lemma_scan_one(scan: Scan, c: char)
    ensures
        scan_from(scan, seq![c]) == step(scan, c),
{
    let none = seq![c].drop_last();
    assert(scan_from(scan, none) == scan);
}

/// Reading `text` and then the character `c`.
pub proof fn lemma_scan_push(scan: Scan, text: Seq<char>, c: char)
    ensures
        scan_from(scan, text + seq![c]) == step(scan_from(scan, text), c),
{
    lemma_scan_concat(scan, text, seq![c]);
    lemma_scan_one(scan_from(scan, text), c);
}

/// While the count field is read, every character but a carriage return
/// joins it.
pub proof fn lemma_count_field(tokens: Seq<Seq<char>>, acc: Seq<char>, text: Seq<char>)
    requires
        no_carriage_return(text),
    ensures
        scan_from(Scan { state: ScanState::ReadingArrayLength(acc), tokens }, text) == (Scan {
            state: ScanState::ReadingArrayLength(acc + text),
            tokens,
        }),
    decreases text.len(),
{
    if text.len() > 0 {
        let init = text.drop_last();
        lemma_count_field(tokens, acc, init);
        assert((acc + init).push(text.last()) =~= acc + text);
    }
}

/// While a length field is read, every character but a carriage return
/// joins it.
pub proof fn lemma_length_field(tokens: Seq<Seq<char>>, acc: Seq<char>, text: Seq<char>)
    requires
        no_carriage_return(text),
    ensures
        scan_from(Scan { state: ScanState::ReadingBulkLength(acc), tokens }, text) == (Scan {
            state: ScanState::ReadingBulkLength(acc + text),
            tokens,
        }),
    decreases text.len(),
{
    if text.len() > 0 {
        let init = text.drop_last();
        lemma_length_field(tokens, acc, init);
        assert((acc + init).push(text.last()) =~= acc + text);
    }
}

/// While a bulk string's content is read, every character but a line break
/// joins it.
pub proof fn lemma_content(
    tokens: Seq<Seq<char>>,
    expected_length: int,
    acc: Seq<char>,
    text: Seq<char>,
)
    requires
        no_line_break(text),
    ensures
        scan_from(
            Scan {
                state: ScanState::ReadingBulkContent { expected_length, current_content: acc },
                tokens,
            },
            text,
        ) == (Scan {
            state: ScanState::ReadingBulkContent { expected_length, current_content: acc + text },
            tokens,
        }),
    decreases text.len(),
{
    if text.len() > 0 {
        let init = text.drop_last();
        lemma_content(tokens, expected_length, acc, init);
        assert((acc + init).push(text.last()) =~= acc + text);
    }
}

/// A frame's first line, read from the start: a count field that is a
/// number leads to the bulk strings, any other back to the start.
pub proof fn lemma_header(tokens: Seq<Seq<char>>, count: Seq<char>)
    requires
        no_carriage_return(count),
    ensures
        scan_from(Scan { state: ScanState::Start, tokens }, seq!['*'] + count + seq!['\r']) == (
        Scan {
            state: if parsed_i32(count) is Some {
                ScanState::ExpectingBulkString
            } else {
                ScanState::Start
            },
            tokens,
        }),
{
    let start = Scan { state: ScanState::Start, tokens };
    lemma_scan_one(start, '*');
    lemma_scan_concat(start, seq!['*'], count);
    lemma_count_field(tokens, Seq::empty(), count);
    lemma_scan_push(start, seq!['*'] + count, '\r');
}

/// The first line of a bulk string, read where one is expected: a length
/// field that is a number leads to the content, any other back to the
/// start, with no token kept.
pub proof fn lemma_bulk_header(tokens: Seq<Seq<char>>, length: Seq<char>)
    requires
        no_carriage_return(length),
    ensures
        scan_from(
            Scan { state: ScanState::ExpectingBulkString, tokens },
            seq!['$'] + length + seq!['\r'],
        ) == match parsed_i32(length) {
            Some(n) => Scan {
                state: ScanState::ReadingBulkContent {
                    expected_length: n as int,
                    current_content: Seq::empty(),
                },
                tokens,
            },
            None => initial_scan(),
        },
{
    let start = Scan { state: ScanState::ExpectingBulkString, tokens };
    lemma_scan_one(start, '$');
    lemma_scan_concat(start, seq!['$'], length);
    lemma_length_field(tokens, Seq::empty(), length);
    lemma_scan_push(start, seq!['$'] + length, '\r');
}

/// A bulk string with its true length, read where one is expected, adds
/// its token.
pub proof fn lemma_bulk(tokens: Seq<Seq<char>>, token: Seq<char>)
    requires
        bulk_token(token),
    ensures
        scan_from(Scan { state: ScanState::ExpectingBulkString, tokens }, bulk_text(token)) == (
        Scan { state: ScanState::ExpectingBulkString, tokens: tokens.push(token) }),
{
    let n = byte_length(token);
    let length = decimal_text(n as nat);
    lemma_numeral_is_read(n as nat);
    lemma_numeral_is_one_line(n as nat);
    let start = Scan { state: ScanState::ExpectingBulkString, tokens };
    let head = seq!['$'] + length + seq!['\r'];
    lemma_bulk_header(tokens, length);
    // the line feed of the first line is passed over
    lemma_scan_push(start, head, '\n');
    // the token's characters
    lemma_scan_concat(start, head + seq!['\n'], token);
    lemma_content(tokens, n, Seq::empty(), token);
    // the second line's end
    lemma_scan_push(start, head + seq!['\n'] + token, '\r');
    lemma_scan_push(start, head + seq!['\n'] + token + seq!['\r'], '\n');
    assert(bulk_text(token) =~= head + seq!['\n'] + token + seq!['\r'] + seq!['\n']);
}

/// Bulk strings with their true lengths, read where one is expected, add
/// their tokens in order.
pub proof fn lemma_bulks(before: Seq<Seq<char>>, tokens: Seq<Seq<char>>)
    requires
        forall|i: int| 0 <= i < tokens.len() ==> bulk_token(#[trigger] tokens[i]),
    ensures
        scan_from(
            Scan { state: ScanState::ExpectingBulkString, tokens: before },
            bulks_text(tokens),
        ) == (Scan { state: ScanState::ExpectingBulkString, tokens: before + tokens }),
    decreases tokens.len(),
{
    let start = Scan { state: ScanState::ExpectingBulkString, tokens: before };
    if tokens.len() > 0 {
        let init = tokens.drop_last();
        lemma_bulks(before, init);
        lemma_scan_concat(start, bulks_text(init), bulk_text(tokens.last()));
        lemma_bulk(before + init, tokens.last());
        assert((before + init).push(tokens.last()) =~= before + tokens);
    }
}

/// A frame whose count field is a number and whose bulk strings have their
/// true lengths is read to its end, and yields its tokens.
pub proof fn lemma_frame(count: Seq<char>, tokens: Seq<Seq<char>>)
    requires
        no_carriage_return(count),
        parsed_i32(count) is Some,
        forall|i: int| 0 <= i < tokens.len() ==> bulk_token(#[trigger] tokens[i]),
    ensures
        scan_from(initial_scan(), frame_with(count, bulks_text(tokens))) == (Scan {
            state: ScanState::ExpectingBulkString,
            tokens,
        }),
{
    let head = seq!['*'] + count + seq!['\r'];
    lemma_header(Seq::empty(), count);
    lemma_scan_push(initial_scan(), head, '\n');
    lemma_scan_concat(initial_scan(), head + seq!['\n'], bulks_text(tokens));
    lemma_bulks(Seq::empty(), tokens);
    assert(frame_with(count, bulks_text(tokens)) =~= head + seq!['\n'] + bulks_text(tokens));
}

/// The parser gives the tokens of a well-formed frame back: all of them,
/// in order, and nothing else.
pub proof fn lemma_well_formed_frame(tokens: Seq<Seq<char>>)
    requires
        frame_tokens(tokens),
    ensures
        parsed_tokens(frame_text(tokens)) == tokens,
{
    lemma_numeral_is_read(tokens.len());
    lemma_numeral_is_one_line(tokens.len());
    lemma_frame(decimal_text(tokens.len()), tokens);
}

/// A step accounts for at most the carriage return it reads.
pub proof fn lemma_step_consumes(scan: Scan, c: char)
    ensures
        consumed(step(scan, c)) <= consumed(scan) + if c == '\r' {
            1int
        } else {
            0int
        },
        settled(scan) ==> settled(step(scan, c)),
{
}

/// A scan accounts for at most the carriage returns it has read.
pub proof fn lemma_scan_consumes(scan: Scan, text: Seq<char>)
    ensures
        consumed(scan_from(scan, text)) <= consumed(scan) + carriage_returns(text),
        settled(scan) ==> settled(scan_from(scan, text)),
    decreases text.len(),
{
    if text.len() > 0 {
        lemma_scan_consumes(scan, text.drop_last());
        lemma_step_consumes(scan_from(scan, text.drop_last()), text.last());
    }
}

/// Every token costs two carriage returns, and the first one a third: an
/// input that yields `n > 0` tokens holds at least `2 * n + 1` of them.
pub proof fn lemma_tokens_need_carriage_returns(input: Seq<char>)
    ensures
        parsed_tokens(input).len() > 0 ==> 2 * parsed_tokens(input).len() + 1 <= carriage_returns(
            input,
        ),
{
    lemma_scan_consumes(initial_scan(), input);
}

/// The carriage returns of two texts add up.
pub proof fn lemma_carriage_returns_concat(a: Seq<char>, b: Seq<char>)
    ensures
        carriage_returns(a + b) == carriage_returns(a) + carriage_returns(b),
    decreases b.len(),
{
    if b.len() > 0 {
        assert((a + b).drop_last() =~= a + b.drop_last());
        lemma_carriage_returns_concat(a, b.drop_last());
    }
}

/// A text free of carriage returns holds none.
pub proof fn lemma_carriage_returns_none(s: Seq<char>)
    requires
        no_carriage_return(s),
    ensures
        carriage_returns(s) == 0,
    decreases s.len(),
{
    if s.len() > 0 {
        let init = s.drop_last();
        lemma_carriage_returns_none(init);
    }
}

/// A single character is a carriage return or it is not.
pub proof fn lemma_carriage_returns_one(c: char)
    ensures
        carriage_returns(seq![c]) == if c == '\r' {
            1nat
        } else {
            0nat
        },
{
    let none = seq![c].drop_last();
    assert(carriage_returns(none) == 0);
}

/// A bulk string holds two carriage returns, whatever its length field
/// says, as long as neither the field nor the token holds one.
pub proof fn lemma_carriage_returns_bulk(length: Seq<char>, token: Seq<char>)
    requires
        no_carriage_return(length),
        no_carriage_return(token),
    ensures
        carriage_returns(bulk_with(length, token)) == 2,
        carriage_returns(seq!['$'] + length + seq!['\r']) == 1,
        carriage_returns(seq!['\n'] + token + line_end()) == 1,
{
    lemma_carriage_returns_none(length);
    lemma_carriage_returns_none(token);
    let dollar = seq!['$'];
    let feed = seq!['\n'];
    let cr = seq!['\r'];
    lemma_carriage_returns_one('$');
    lemma_carriage_returns_one('\n');
    lemma_carriage_returns_one('\r');
    lemma_carriage_returns_concat(dollar, length);
    lemma_carriage_returns_concat(dollar + length, cr);
    lemma_carriage_returns_concat(feed, token);
    lemma_carriage_returns_concat(feed + token, cr);
    lemma_carriage_returns_concat(feed + token + cr, feed);
    assert(feed + token + line_end() =~= feed + token + cr + feed);
    lemma_carriage_returns_concat(dollar + length + cr, feed + token + line_end());
    assert(bulk_with(length, token) =~= (dollar + length + cr) + (feed + token + line_end()));
}

/// Bulk strings hold two carriage returns each.
pub proof fn lemma_carriage_returns_bulks(tokens: Seq<Seq<char>>)
    requires
        forall|i: int| 0 <= i < tokens.len() ==> bulk_token(#[trigger] tokens[i]),
    ensures
        carriage_returns(bulks_text(tokens)) == 2 * tokens.len(),
    decreases tokens.len(),
{
    if tokens.len() > 0 {
        let init = tokens.drop_last();
        lemma_carriage_returns_bulks(init);
        let token = tokens.last();
        let length = decimal_text(byte_length(token) as nat);
        lemma_numeral_is_one_line(byte_length(token) as nat);
        lemma_carriage_returns_bulk(length, token);
        lemma_carriage_returns_concat(bulks_text(init), bulk_text(token));
    }
}

/// A frame that is cut short yields fewer tokens than it carries: every
/// prefix of a well-formed frame that ends before the last line's end
/// yields fewer tokens than the whole frame.
pub proof fn lemma_truncated_frame(tokens: Seq<Seq<char>>, cut: int)
    requires
        frame_tokens(tokens),
        tokens.len() > 0,
        0 <= cut <= frame_text(tokens).len() - 2,
    ensures
        parsed_tokens(frame_text(tokens).take(cut)).len() < tokens.len(),
        parsed_tokens(frame_text(tokens)).len() == tokens.len(),
{
    let whole = frame_text(tokens);
    let kept = whole.take(cut);
    let lost = whole.skip(cut);
    lemma_well_formed_frame(tokens);
    // the whole frame holds 2n + 1 carriage returns
    let count = decimal_text(tokens.len());
    lemma_numeral_is_one_line(tokens.len());
    lemma_carriage_returns_none(count);
    let star = seq!['*'];
    lemma_carriage_returns_one('*');
    lemma_carriage_returns_one('\r');
    lemma_carriage_returns_one('\n');
    lemma_carriage_returns_concat(seq!['\r'], seq!['\n']);
    assert(line_end() =~= seq!['\r'] + seq!['\n']);
    lemma_carriage_returns_concat(star, count);
    lemma_carriage_returns_concat(star + count, line_end());
    lemma_carriage_returns_concat(star + count + line_end(), bulks_text(tokens));
    lemma_carriage_returns_bulks(tokens);
    // and the last of them is lost
    assert(whole =~= kept + lost);
    lemma_carriage_returns_concat(kept, lost);
    lemma_carriage_returns_some(lost, whole.len() - 2 - cut);
    lemma_tokens_need_carriage_returns(kept);
}

/// A text that holds a carriage return holds at least one.
pub proof fn lemma_carriage_returns_some(s: Seq<char>, at: int)
    requires
        0 <= at < s.len(),
        s[at] == '\r',
    ensures
        carriage_returns(s) >= 1,
    decreases s.len(),
{
    if at < s.len() - 1 {
        lemma_carriage_returns_some(s.drop_last(), at);
    }
}

/// A frame whose count field is no number yields fewer tokens than it
/// carries.
pub proof fn lemma_non_numeric_count(tokens: Seq<Seq<char>>, count: Seq<char>)
    requires
        frame_tokens(tokens),
        tokens.len() > 0,
        no_carriage_return(count),
        parsed_i32(count) is None,
    ensures
        parsed_tokens(frame_with(count, bulks_text(tokens))).len() < tokens.len(),
{
    let head = seq!['*'] + count + seq!['\r'];
    let rest = seq!['\n'] + bulks_text(tokens);
    lemma_header(Seq::empty(), count);
    lemma_scan_concat(initial_scan(), head, rest);
    assert(frame_with(count, bulks_text(tokens)) =~= head + rest);
    lemma_scan_consumes(initial_scan(), rest);
    let feed = seq!['\n'];
    lemma_carriage_returns_one('\n');
    lemma_carriage_returns_concat(feed, bulks_text(tokens));
    lemma_carriage_returns_bulks(tokens);
}

/// A frame with a bulk string whose length field is no number yields fewer
/// tokens than it carries. The frame is well formed but for the length
/// field of the bulk string at `index`, which reads `length`.
pub proof fn lemma_non_numeric_length(tokens: Seq<Seq<char>>, index: int, length: Seq<char>)
    requires
        frame_tokens(tokens),
        0 <= index < tokens.len(),
        no_carriage_return(length),
        parsed_i32(length) is None,
    ensures
        parsed_tokens(
            frame_with(
                decimal_text(tokens.len()),
                bulks_text(tokens.take(index)) + bulk_with(length, tokens[index]) + bulks_text(
                    tokens.skip(index + 1),
                ),
            ),
        ).len() < tokens.len(),
{
    let before = tokens.take(index);
    let after = tokens.skip(index + 1);
    let token = tokens[index];
    // up to the broken bulk string the frame is read as a well-formed one
    let count = decimal_text(tokens.len());
    lemma_numeral_is_read(tokens.len());
    lemma_numeral_is_one_line(tokens.len());
    let sound = frame_with(count, bulks_text(before));
    lemma_frame(count, before);
    // the broken length field sends the parser back to the start
    let broken = seq!['$'] + length + seq!['\r'];
    lemma_scan_concat(initial_scan(), sound, broken);
    lemma_bulk_header(before, length);
    // and what follows holds too few carriage returns
    let rest = seq!['\n'] + token + line_end() + bulks_text(after);
    lemma_scan_concat(initial_scan(), sound + broken, rest);
    lemma_scan_consumes(initial_scan(), rest);
    lemma_carriage_returns_bulk(length, token);
    lemma_carriage_returns_concat(seq!['\n'] + token + line_end(), bulks_text(after));
    lemma_carriage_returns_bulks(after);
    assert(frame_with(
        count,
        bulks_text(before) + bulk_with(length, token) + bulks_text(after),
    ) =~= sound + broken + rest);
}

} // verus!
