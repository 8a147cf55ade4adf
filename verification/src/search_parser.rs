//! The filter engine: it reads a query string such as
//! `age_gt=28&name_like=jo` into conditions and tests JSON documents against
//! them.

use vstd::prelude::*;
use vstd::utf8::{
    decode_utf8,
    encode_utf8,
    encode_utf8_decode_utf8,
    encode_utf8_valid_utf8,
    is_ascii_chars,
    is_ascii_chars_encode_utf8,
    valid_utf8,
};
use serde_json::Value;
use crate::json::{
    json_document,
    json_equal,
    json_member,
    json_number_order,
    json_string,
    member,
    number_order,
    parse_document,
    same_document,
    string_content,
    Comparison,
};
use crate::text::{
    char_views,
    chars_of,
    contains_chars,
    find_char,
    index_of,
    is_substring,
    lemma_index_of,
    lemma_index_of_is,
    lemma_split_concat,
    lowercase,
    push_char,
    same_text,
    split,
    split_chars,
    string_of,
    to_lowercase,
};

verus! {

/// How a condition compares a field with its literal.
#[derive(Debug, Clone, Copy, PartialEq, Eq, Structural)]
pub enum FilterOperator {
    Equals,
    GreaterThan,
    LessThan,
    GreaterThanOrEqual,
    LessThanOrEqual,
    Like,
    NotEquals,
}

/// A condition as a mathematical value.
pub struct ConditionView {
    pub field: Seq<char>,
    pub operator: FilterOperator,
    pub value: Seq<char>,
}

/// One condition of a query: a field, an operator and the literal to
/// compare the field with.
#[derive(Debug)]
pub struct FilterCondition {
    pub field: String,
    pub operator: FilterOperator,
    pub value: String,
}

impl View for FilterCondition {
    type V = ConditionView;

    open spec fn view(&self) -> ConditionView {
        ConditionView { field: self.field@, operator: self.operator, value: self.value@ }
    }
}

/// The views of a sequence of conditions, in order.
pub open spec fn condition_views(conditions: Seq<FilterCondition>) -> Seq<ConditionView> {
    conditions.map_values(|c: FilterCondition| c@)
}

/// Whether `c` is a hexadecimal digit, in either case.
pub open spec fn is_hex_digit(c: char) -> bool {
    ('0' <= c && c <= '9') || ('a' <= c && c <= 'f') || ('A' <= c && c <= 'F')
}

/// Whether every `%` of `s` is followed by two hexadecimal digits.
pub open spec fn valid_percent_encoding(s: Seq<char>) -> bool {
    forall|i: int|
        0 <= i < s.len() && #[trigger] s[i] == '%' ==> i + 2 < s.len() && is_hex_digit(s[i + 1])
            && is_hex_digit(s[i + 2])
}

/// Whether the byte is the ASCII code of a hexadecimal digit.
pub open spec fn is_hex_byte(b: u8) -> bool {
    (0x30 <= b && b <= 0x39) || (0x61 <= b && b <= 0x66) || (0x41 <= b && b <= 0x46)
}

/// The number that the ASCII code of a hexadecimal digit stands for.
pub open spec fn hex_value(b: u8) -> int {
    if b <= 0x39 {
        b - 0x30
    } else if b <= 0x46 {
        b - 0x41 + 10
    } else {
        b - 0x61 + 10
    }
}

/// Percent-decoding of bytes: each `%` that two hexadecimal digits follow
/// becomes the byte they spell, and every other byte stands for itself.
pub open spec fn percent_decoded(bytes: Seq<u8>) -> Seq<u8>
    decreases bytes.len(),
{
    if bytes.len() == 0 {
        Seq::empty()
    } else if bytes[0] == 0x25 && bytes.len() >= 3 && is_hex_byte(bytes[1]) && is_hex_byte(
        bytes[2],
    ) {
        seq![(16 * hex_value(bytes[1]) + hex_value(bytes[2])) as u8] + percent_decoded(
            bytes.skip(3),
        )
    } else {
        seq![bytes[0]] + percent_decoded(bytes.skip(1))
    }
}

/// The text that `raw` percent-decodes to, where the decoded bytes are
/// well-formed UTF-8.
pub open spec fn decoded_text(raw: Seq<char>) -> Option<Seq<char>> {
    let bytes = percent_decoded(encode_utf8(raw));
    if valid_utf8(bytes) {
        Some(decode_utf8(bytes))
    } else {
        None
    }
}

/// `s` with a space in place of each `+`.
pub open spec fn plus_to_space(s: Seq<char>) -> Seq<char> {
    s.map_values(
        |c: char|
            if c == '+' {
                ' '
            } else {
                c
            },
    )
}

/// The operator that a suffix names.
pub open spec fn operator_named(suffix: Seq<char>) -> Option<FilterOperator> {
    if suffix == "gt"@ {
        Some(FilterOperator::GreaterThan)
    } else if suffix == "lt"@ {
        Some(FilterOperator::LessThan)
    } else if suffix == "gte"@ {
        Some(FilterOperator::GreaterThanOrEqual)
    } else if suffix == "lte"@ {
        Some(FilterOperator::LessThanOrEqual)
    } else if suffix == "like"@ {
        Some(FilterOperator::Like)
    } else if suffix == "ne"@ {
        Some(FilterOperator::NotEquals)
    } else {
        None
    }
}

/// The condition that a parameter's name and decoded value make. A name
/// without `_` is a field to compare for equality; otherwise what follows
/// the first `_` has to name an operator.
pub open spec fn condition_from(name: Seq<char>, value: Seq<char>) -> Option<ConditionView> {
    let i = index_of(name, '_');
    if i >= name.len() {
        Some(ConditionView { field: name, operator: FilterOperator::Equals, value })
    } else {
        match operator_named(name.skip(i + 1)) {
            Some(operator) => Some(ConditionView { field: name.take(i), operator, value }),
            None => None,
        }
    }
}

/// The condition that one parameter of a query makes, if it makes one: it
/// has exactly one `=`, what follows the `=` is valid percent-encoding of
/// UTF-8 text, and what precedes it names a field and an operator.
pub open spec fn condition_of(param: Seq<char>) -> Option<ConditionView> {
    let i = index_of(param, '=');
    let raw = param.skip(i + 1);
    if i >= param.len() || index_of(raw, '=') < raw.len() || !valid_percent_encoding(raw) {
        None
    } else {
        match decoded_text(raw) {
            Some(decoded) => condition_from(param.take(i), plus_to_space(decoded)),
            None => None,
        }
    }
}

/// The conditions that a sequence of parameters makes, in order; a
/// parameter that makes none is passed over.
pub open spec fn conditions_of(params: Seq<Seq<char>>) -> Seq<ConditionView>
    decreases params.len(),
{
    if params.len() == 0 {
        Seq::empty()
    } else {
        match condition_of(params.last()) {
            Some(condition) => conditions_of(params.drop_last()).push(condition),
            None => conditions_of(params.drop_last()),
        }
    }
}

/// The conditions of a query string: those of its parameters, which `&`
/// separates.
pub open spec fn parsed_conditions(query: Seq<char>) -> Seq<ConditionView> {
    conditions_of(split(query, '&'))
}

/// Equality of a field with a literal. A literal that is JSON text is
/// compared as a document; any other literal equals only the string with
/// the same characters.
pub open spec fn equals_literal(field: Value, literal: Seq<char>) -> bool {
    match json_document(literal) {
        Some(document) => json_equal(field, document),
        None => json_string(field) == Some(literal),
    }
}

/// Whether a string field contains the literal, both taken in lower case.
pub open spec fn like_literal(field: Value, literal: Seq<char>) -> bool {
    match json_string(field) {
        Some(s) => is_substring(lowercase(literal), lowercase(s)),
        None => false,
    }
}

/// Whether an ordering operator accepts the way a field stands to the
/// literal. No operator accepts a comparison that has no outcome.
pub open spec fn order_accepted(order: Option<Comparison>, operator: FilterOperator) -> bool {
    match operator {
        FilterOperator::GreaterThan => order == Some(Comparison::Greater),
        FilterOperator::LessThan => order == Some(Comparison::Less),
        FilterOperator::GreaterThanOrEqual => order == Some(Comparison::Greater) || order == Some(
            Comparison::Equal,
        ),
        FilterOperator::LessThanOrEqual => order == Some(Comparison::Less) || order == Some(
            Comparison::Equal,
        ),
        _ => false,
    }
}

/// Whether `field` stands to `literal` as `operator` asks.
pub open spec fn field_satisfies(field: Value, literal: Seq<char>, operator: FilterOperator) -> bool {
    match operator {
        FilterOperator::Equals => equals_literal(field, literal),
        FilterOperator::NotEquals => !equals_literal(field, literal),
        FilterOperator::Like => like_literal(field, literal),
        _ => order_accepted(json_number_order(field, literal), operator),
    }
}

/// Whether `item` meets `condition`: it has the field, and the field stands
/// to the literal as the operator asks.
pub open spec fn condition_holds(item: Value, condition: ConditionView) -> bool {
    match json_member(item, condition.field) {
        Some(field) => field_satisfies(field, condition.value, condition.operator),
        None => false,
    }
}

/// Whether `item` meets every one of `conditions`.
pub open spec fn matches_all(item: Value, conditions: Seq<ConditionView>) -> bool {
    forall|i: int| 0 <= i < conditions.len() ==> condition_holds(item, #[trigger] conditions[i])
}

/// The conditions of two runs of parameters are those of the first run
/// followed by those of the second.
pub proof fn lemma_conditions_concat(a: Seq<Seq<char>>, b: Seq<Seq<char>>)
    ensures
        conditions_of(a + b) == conditions_of(a) + conditions_of(b),
    decreases b.len(),
{
    if b.len() > 0 {
        assert((a + b).drop_last() =~= a + b.drop_last());
        lemma_conditions_concat(a, b.drop_last());
    }
}

/// The conditions of two queries joined by `&` are those of the first
/// followed by those of the second.
pub proof fn lemma_query_concat(a: Seq<char>, b: Seq<char>)
    ensures
        parsed_conditions(a + seq!['&'] + b) == parsed_conditions(a) + parsed_conditions(b),
{
    lemma_split_concat(a, b, '&');
    lemma_conditions_concat(split(a, '&'), split(b, '&'));
}

/// A parameter whose value holds a `%` that two hexadecimal digits do not
/// follow makes no condition.
pub proof fn lemma_malformed_value(name: Seq<char>, raw: Seq<char>)
    requires
        !valid_percent_encoding(raw),
    ensures
        condition_of(name + seq!['='] + raw) is None,
{
    let param = name + seq!['='] + raw;
    lemma_index_of(param, '=');
    lemma_index_of(name, '=');
    let at = index_of(param, '=');
    let rest = param.skip(at + 1);
    if index_of(name, '=') < name.len() {
        // the name holds an equals sign of its own: the parameter has two
        let first = index_of(name, '=');
        assert(param[first] == name[first]);
        assert(rest[name.len() - at - 1] == param[name.len() as int]);
        lemma_index_of(rest, '=');
    } else {
        lemma_index_of_is(param, '=', name.len() as int);
        assert(rest =~= raw);
    }
}

/// A malformed value drops its own parameter and no other: a query with
/// such a parameter in its middle makes the conditions of what precedes
/// the parameter, followed by those of what follows it.
pub proof fn lemma_malformed_parameter_dropped(
    before: Seq<char>,
    name: Seq<char>,
    raw: Seq<char>,
    after: Seq<char>,
)
    requires
        !valid_percent_encoding(raw),
        forall|i: int| 0 <= i < name.len() ==> name[i] != '&',
        forall|i: int| 0 <= i < raw.len() ==> raw[i] != '&',
    ensures
        parsed_conditions(before + seq!['&'] + (name + seq!['='] + raw) + seq!['&'] + after)
            == parsed_conditions(before) + parsed_conditions(after),
{
    let param = name + seq!['='] + raw;
    lemma_index_of_is(param, '&', param.len() as int);
    lemma_malformed_value(name, raw);
    assert(conditions_of(seq![param].drop_last()) =~= Seq::<ConditionView>::empty());
    lemma_query_concat(before, param);
    lemma_query_concat(before + seq!['&'] + param, after);
}

/// A value of ASCII characters without `%` decodes to itself.
pub proof fn lemma_plain_value_decodes_to_itself(raw: Seq<char>)
    requires
        is_ascii_chars(raw),
        forall|i: int| 0 <= i < raw.len() ==> raw[i] != '%',
    ensures
        valid_percent_encoding(raw),
        decoded_text(raw) == Some(raw),
{
    let bytes = encode_utf8(raw);
    is_ascii_chars_encode_utf8(raw);
    lemma_nothing_to_decode(bytes);
    encode_utf8_valid_utf8(raw);
    encode_utf8_decode_utf8(raw);
}

/// Bytes without a percent sign decode to themselves.
pub proof fn lemma_nothing_to_decode(bytes: Seq<u8>)
    requires
        forall|i: int| 0 <= i < bytes.len() ==> bytes[i] != 0x25,
    ensures
        percent_decoded(bytes) == bytes,
    decreases bytes.len(),
{
    if bytes.len() > 0 {
        let rest = bytes.skip(1);
        lemma_nothing_to_decode(rest);
    }
}

/// `percent_encoding::percent_decode_str` followed by `decode_utf8`: every
/// `%` with two hexadecimal digits behind it is replaced by the byte they
/// spell, and the bytes that result are read as UTF-8; `None` where they
/// are not well-formed UTF-8.
#[verifier::external_body]
fn percent_decode(raw: &str) -> (decoded: Option<String>)
    ensures
        match decoded {
            Some(text) => decoded_text(raw@) == Some(text@),
            None => decoded_text(raw@) is None,
        },
{
    match percent_encoding::percent_decode_str(raw).decode_utf8() {
        Ok(text) => Some(text.into_owned()),
        Err(_) => None,
    }
}

/// Whether `c` is a hexadecimal digit, in either case.
fn hex_digit(c: char) -> (hex: bool)
    ensures
        hex == is_hex_digit(c),
{
    ('0' <= c && c <= '9') || ('a' <= c && c <= 'f') || ('A' <= c && c <= 'F')
}

/// `s` with a space in place of each `+`.
fn replace_plus(s: &str) -> (out: String)
    ensures
        out@ == plus_to_space(s@),
{
    let chars = chars_of(s);
    let mut out = String::new();
    let mut i: usize = 0;
    while i < chars.len()
        invariant
            0 <= i <= chars.len(),
            out@ == plus_to_space(chars@.take(i as int)),
        decreases chars.len() - i,
    {
        let c: char = chars[i];
        if c == '+' {
            push_char(&mut out, ' ');
        } else {
            push_char(&mut out, c);
        }
        i = i + 1;
    }
    out
}

/// The operator that the characters of `name` from `from` on spell.
fn operator_at(name: &Vec<char>, from: usize) -> (operator: Option<FilterOperator>)
    requires
        from <= name.len(),
    ensures
        operator == operator_named(name@.skip(from as int)),
{
    let suffix = string_of(name, from, name.len());
    if same_text(suffix.as_str(), "gt") {
        Some(FilterOperator::GreaterThan)
    } else if same_text(suffix.as_str(), "lt") {
        Some(FilterOperator::LessThan)
    } else if same_text(suffix.as_str(), "gte") {
        Some(FilterOperator::GreaterThanOrEqual)
    } else if same_text(suffix.as_str(), "lte") {
        Some(FilterOperator::LessThanOrEqual)
    } else if same_text(suffix.as_str(), "like") {
        Some(FilterOperator::Like)
    } else if same_text(suffix.as_str(), "ne") {
        Some(FilterOperator::NotEquals)
    } else {
        None
    }
}

/// The condition that one parameter makes, if it makes one.
fn parse_param(param: &Vec<char>) -> (r: Option<FilterCondition>)
    ensures
        match r {
            Some(condition) => condition_of(param@) == Some(condition@),
            None => condition_of(param@) is None,
        },
{
    let eq: usize = find_char(param, 0, '=');
    proof {
        assert(param@.skip(0) =~= param@);
    }
    if eq >= param.len() {
        return None;
    }
    let second: usize = find_char(param, eq + 1, '=');
    if second < param.len() {
        return None;
    }
    let name = string_of(param, 0, eq);
    let raw = string_of(param, eq + 1, param.len());
    if !SearchParser::is_valid_percent_encoding(raw.as_str()) {
        return None;
    }
    match percent_decode(raw.as_str()) {
        Some(decoded) => {
            let value = replace_plus(decoded.as_str());
            SearchParser::parse_field_and_operator(name.as_str(), value.as_str())
        },
        None => None,
    }
}

/// The filter engine's functions.
pub struct SearchParser;

impl SearchParser {
    /// Whether every `%` of `s` is followed by two hexadecimal digits.
    pub fn is_valid_percent_encoding(s: &str) -> (valid: bool)
        ensures
            valid == valid_percent_encoding(s@),
    {
        let chars = chars_of(s);
        let mut i: usize = 0;
        while i < chars.len()
            invariant
                chars@ == s@,
                0 <= i <= chars.len(),
                forall|j: int|
                    0 <= j < i && #[trigger] chars@[j] == '%' ==> j + 2 < chars.len()
                        && is_hex_digit(chars@[j + 1]) && is_hex_digit(chars@[j + 2]),
            decreases chars.len() - i,
        {
            if chars[i] == '%' {
                if chars.len() - i < 3 || !hex_digit(chars[i + 1]) || !hex_digit(chars[i + 2]) {
                    return false;
                }
                i = i + 3;
            } else {
                i = i + 1;
            }
        }
        true
    }

    /// Reads a query string into its conditions. A parameter that is not
    /// `name=value` with a well-formed value and a known operator is passed
    /// over; the others keep their order.
    pub fn parse_search_params(query_string: &str) -> (conditions: Vec<FilterCondition>)
        ensures
            condition_views(conditions@) == parsed_conditions(query_string@),
    {
        let chars = chars_of(query_string);
        let params = split_chars(&chars, '&');
        let mut conditions: Vec<FilterCondition> = Vec::new();
        let mut i: usize = 0;
        while i < params.len()
            invariant
                0 <= i <= params.len(),
                condition_views(conditions@) == conditions_of(char_views(params@).take(i as int)),
            decreases params.len() - i,
        {
            proof {
                let read = char_views(params@).take(i + 1);
                assert(read.drop_last() =~= char_views(params@).take(i as int));
            }
            match parse_param(&params[i]) {
                Some(condition) => {
                    conditions.push(condition);
                },
                None => {},
            }
            i = i + 1;
        }
        proof {
            assert(char_views(params@).take(i as int) =~= char_views(params@));
        }
        conditions
    }

    /// Reads a parameter's name into a field and an operator and joins
    /// them with the decoded value.
    pub fn parse_field_and_operator(field_with_op: &str, value: &str) -> (r: Option<
        FilterCondition,
    >)
        ensures
            match r {
                Some(condition) => condition_from(field_with_op@, value@) == Some(condition@),
                None => condition_from(field_with_op@, value@) is None,
            },
    {
        let name = chars_of(field_with_op);
        let at: usize = find_char(&name, 0, '_');
        proof {
            assert(name@.skip(0) =~= name@);
        }
        if at >= name.len() {
            return Some(
                FilterCondition {
                    field: field_with_op.to_owned(),
                    operator: FilterOperator::Equals,
                    value: value.to_owned(),
                },
            );
        }
        match operator_at(&name, at + 1) {
            Some(operator) => {
                let field = string_of(&name, 0, at);
                Some(FilterCondition { field, operator, value: value.to_owned() })
            },
            None => None,
        }
    }

    /// Whether `item` meets every one of `conditions`. A condition on a
    /// field that `item` lacks is not met.
    pub fn matches_conditions(item: &Value, conditions: &[FilterCondition]) -> (matches: bool)
        ensures
            matches == matches_all(*item, condition_views(conditions@)),
    {
        let mut i: usize = 0;
        while i < conditions.len()
            invariant
                0 <= i <= conditions.len(),
                forall|j: int|
                    0 <= j < i ==> condition_holds(
                        *item,
                        #[trigger] condition_views(conditions@)[j],
                    ),
            decreases conditions.len() - i,
        {
            let condition = &conditions[i];
            let holds: bool = match member(item, condition.field.as_str()) {
                Some(field) => Self::compare_values(
                    field,
                    condition.value.as_str(),
                    &condition.operator,
                ),
                None => false,
            };
            proof {
                assert(condition_views(conditions@)[i as int] == condition@);
            }
            if !holds {
                return false;
            }
            i = i + 1;
        }
        true
    }

    /// Whether `field` stands to `search_value` as `operator` asks.
    pub fn compare_values(field: &Value, search_value: &str, operator: &FilterOperator) -> (holds:
        bool)
        ensures
            holds == field_satisfies(*field, search_value@, *operator),
    {
        match operator {
            FilterOperator::Equals => Self::values_equal(field, search_value),
            FilterOperator::NotEquals => !Self::values_equal(field, search_value),
            FilterOperator::Like => Self::values_like(field, search_value),
            _ => Self::compare_numeric(field, search_value, operator),
        }
    }

    /// Equality of a field with a literal.
    pub fn values_equal(field: &Value, search_value: &str) -> (equal: bool)
        ensures
            equal == equals_literal(*field, search_value@),
    {
        match parse_document(search_value) {
            Ok(document) => same_document(field, &document),
            Err(_) => match string_content(field) {
                Some(s) => same_text(s, search_value),
                None => false,
            },
        }
    }

    /// Whether a string field contains the literal, case folded.
    pub fn values_like(field: &Value, search_value: &str) -> (like: bool)
        ensures
            like == like_literal(*field, search_value@),
    {
        match string_content(field) {
            Some(s) => {
                let hay = to_lowercase(s);
                let needle = to_lowercase(search_value);
                contains_chars(&chars_of(hay.as_str()), &chars_of(needle.as_str()))
            },
            None => false,
        }
    }

    /// Whether a numeric field stands to a numeric literal as an ordering
    /// operator asks; `false` where either is no number.
    pub fn compare_numeric(field: &Value, search_value: &str, operator: &FilterOperator) -> (holds:
        bool)
        ensures
            holds == order_accepted(json_number_order(*field, search_value@), *operator),
    {
        Self::order_satisfies(number_order(field, search_value), operator)
    }

    /// Whether an ordering operator accepts the way a field stands to the
    /// literal.
    pub fn order_satisfies(order: Option<Comparison>, operator: &FilterOperator) -> (holds: bool)
        ensures
            holds == order_accepted(order, *operator),
    {
        match operator {
            FilterOperator::GreaterThan => match order {
                Some(Comparison::Greater) => true,
                _ => false,
            },
            FilterOperator::LessThan => match order {
                Some(Comparison::Less) => true,
                _ => false,
            },
            FilterOperator::GreaterThanOrEqual => match order {
                Some(Comparison::Greater) => true,
                Some(Comparison::Equal) => true,
                _ => false,
            },
            FilterOperator::LessThanOrEqual => match order {
                Some(Comparison::Less) => true,
                Some(Comparison::Equal) => true,
                _ => false,
            },
            _ => false,
        }
    }
}

} // verus!
