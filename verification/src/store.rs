//! The key-value store: entries with an optional deadline, JSON-array
//! append, and lookups that may carry a filter.

use vstd::prelude::*;
use vstd::hash_map::StringHashMap;
use serde_json::Value;
use std::time::{SystemTime, UNIX_EPOCH};
use crate::json::{
    into_elements,
    json_array_text,
    json_document,
    json_elements,
    parse_document,
    render_array,
};
use crate::search_parser::{
    condition_views,
    matches_all,
    parsed_conditions,
    ConditionView,
    FilterCondition,
    SearchParser,
};
use crate::text::{chars_of, find_char, index_of, lemma_index_of, string_of};
use crate::types::{GetOutcome, RedisGetResult, RedisValue, StoredValue};

verus! {

/// Why the store refused an operation.
#[derive(Debug, Clone, Copy, PartialEq, Eq, Structural)]
pub enum StoreError {
    /// The entry to append to holds text that is no JSON.
    ExistingNotJson,
    /// The value to append is no JSON.
    ValueNotJson,
    /// The entry to append to holds JSON that is no array.
    ExistingNotArray,
    /// The serializer refused the array.
    Serialize,
}

/// The message that a client is sent for an error.
pub open spec fn error_message(error: StoreError) -> Seq<char> {
    match error {
        StoreError::ExistingNotJson => "Existing data is not a valid JSON array"@,
        StoreError::ValueNotJson => "New value is not valid JSON"@,
        StoreError::ExistingNotArray => "Existing data is not a JSON array"@,
        StoreError::Serialize => "The array could not be written as JSON"@,
    }
}

impl StoreError {
    /// The message that a client is sent for this error.
    pub fn message(&self) -> (text: String)
        ensures
            text@ == error_message(*self),
    {
        match self {
            StoreError::ExistingNotJson => "Existing data is not a valid JSON array".to_owned(),
            StoreError::ValueNotJson => "New value is not valid JSON".to_owned(),
            StoreError::ExistingNotArray => "Existing data is not a JSON array".to_owned(),
            StoreError::Serialize => "The array could not be written as JSON".to_owned(),
        }
    }
}

/// The deadline of an entry set at `now` with the time to live `px`.
pub open spec fn deadline(px: Option<u64>, now: u64) -> Option<int> {
    match px {
        Some(millis) => Some(now + millis),
        None => None,
    }
}

/// The store after `value` has been set under `key` at `now`.
pub open spec fn after_set(
    entries: Map<Seq<char>, StoredValue>,
    key: Seq<char>,
    value: Seq<char>,
    px: Option<u64>,
    now: u64,
) -> Map<Seq<char>, StoredValue> {
    entries.insert(key, StoredValue { data: value, expires_at: deadline(px, now) })
}

/// The elements that appending `document` adds: its own elements where it
/// is an array, else the document itself.
pub open spec fn added_items(document: Value) -> Seq<Value> {
    match json_elements(document) {
        Some(items) => items,
        None => seq![document],
    }
}

/// The text of an entry after `value` has been appended to it, or why the
/// append is refused. `existing` is the entry's text before, `None` where
/// there is no entry.
pub open spec fn appended_text(existing: Option<Seq<char>>, value: Seq<char>) -> Result<
    Seq<char>,
    StoreError,
> {
    match existing {
        Some(data) => match json_document(data) {
            None => Err(StoreError::ExistingNotJson),
            Some(current) => match json_document(value) {
                None => Err(StoreError::ValueNotJson),
                Some(added) => match json_elements(current) {
                    None => Err(StoreError::ExistingNotArray),
                    Some(items) => match json_array_text(items + added_items(added)) {
                        Some(text) => Ok(text),
                        None => Err(StoreError::Serialize),
                    },
                },
            },
        },
        None => match json_document(value) {
            None => Err(StoreError::ValueNotJson),
            Some(added) => match json_array_text(added_items(added)) {
                Some(text) => Ok(text),
                None => Err(StoreError::Serialize),
            },
        },
    }
}

/// The text stored under `key`, if any.
pub open spec fn stored_text(entries: Map<Seq<char>, StoredValue>, key: Seq<char>) -> Option<
    Seq<char>,
> {
    if entries.contains_key(key) {
        Some(entries[key].data)
    } else {
        None
    }
}

/// What an append of `value` under `key` answers.
pub open spec fn append_result(
    entries: Map<Seq<char>, StoredValue>,
    key: Seq<char>,
    value: Seq<char>,
) -> Result<(), StoreError> {
    match appended_text(stored_text(entries, key), value) {
        Ok(_) => Ok(()),
        Err(failure) => Err(failure),
    }
}

/// The store after an append of `value` under `key`. A refused append
/// changes nothing; an accepted one replaces the entry's text and keeps its
/// deadline, and a new entry has none.
pub open spec fn after_append(
    entries: Map<Seq<char>, StoredValue>,
    key: Seq<char>,
    value: Seq<char>,
) -> Map<Seq<char>, StoredValue> {
    match appended_text(stored_text(entries, key), value) {
        Ok(text) => entries.insert(
            key,
            StoredValue {
                data: text,
                expires_at: if entries.contains_key(key) {
                    entries[key].expires_at
                } else {
                    None
                },
            },
        ),
        Err(_) => entries,
    }
}

/// Whether a lookup of `key` is a filter request: the key holds a `?` and
/// there is an entry under what precedes the first one.
pub open spec fn is_filter_request(entries: Map<Seq<char>, StoredValue>, key: Seq<char>) -> bool {
    index_of(key, '?') < key.len() && entries.contains_key(key.take(index_of(key, '?')))
}

/// The elements of `items` that meet every one of `conditions`, in order.
pub open spec fn filtered(items: Seq<Value>, conditions: Seq<ConditionView>) -> Seq<Value> {
    items.filter(|item: Value| matches_all(item, conditions))
}

/// What a filter request answers from an entry's text: the array of the
/// elements that meet the query's conditions, or nothing where the text is
/// no JSON array.
pub open spec fn filter_answer(data: Seq<char>, query: Seq<char>) -> GetOutcome {
    match json_document(data) {
        None => GetOutcome::Nothing,
        Some(document) => match json_elements(document) {
            None => GetOutcome::Nothing,
            Some(items) => GetOutcome::Value(
                match json_array_text(filtered(items, parsed_conditions(query))) {
                    Some(text) => text,
                    None => Seq::empty(),
                },
            ),
        },
    }
}

/// Whether an entry has outlived its deadline at `now`.
pub open spec fn expired(entry: StoredValue, now: u64) -> bool {
    match entry.expires_at {
        Some(at) => now > at,
        None => false,
    }
}

/// What a lookup of `key` at `now` answers.
pub open spec fn lookup(entries: Map<Seq<char>, StoredValue>, key: Seq<char>, now: u64) -> GetOutcome {
    let at = index_of(key, '?');
    if is_filter_request(entries, key) {
        filter_answer(entries[key.take(at)].data, key.skip(at + 1))
    } else if !entries.contains_key(key) {
        GetOutcome::Nothing
    } else if expired(entries[key], now) {
        GetOutcome::Expired
    } else {
        GetOutcome::Value(entries[key].data)
    }
}

/// The store after a lookup of `key` at `now`: the entry is removed where
/// the lookup finds it expired, and nothing else changes.
pub open spec fn after_lookup(
    entries: Map<Seq<char>, StoredValue>,
    key: Seq<char>,
    now: u64,
) -> Map<Seq<char>, StoredValue> {
    if !is_filter_request(entries, key) && entries.contains_key(key) && expired(
        entries[key],
        now,
    ) {
        entries.remove(key)
    } else {
        entries
    }
}

/// Whether a lookup is a filter request does not depend on what is stored
/// under the key itself.
pub proof fn lemma_filter_request_ignores_own_key(
    entries: Map<Seq<char>, StoredValue>,
    key: Seq<char>,
    entry: StoredValue,
)
    ensures
        is_filter_request(entries.insert(key, entry), key) == is_filter_request(entries, key),
        is_filter_request(entries.remove(key), key) == is_filter_request(entries, key),
{
    lemma_index_of(key, '?');
}

/// A lookup that follows a set, no later than the deadline, answers the
/// value that was set, and changes nothing. The key is any that is not
/// read as a filter request on another entry.
pub proof fn lemma_get_after_set(
    entries: Map<Seq<char>, StoredValue>,
    key: Seq<char>,
    value: Seq<char>,
    px: Option<u64>,
    now: u64,
    later: u64,
)
    requires
        !is_filter_request(entries, key),
        px matches Some(millis) ==> later <= now + millis,
    ensures
        lookup(after_set(entries, key, value, px, now), key, later) == GetOutcome::Value(value),
        after_lookup(after_set(entries, key, value, px, now), key, later) == after_set(
            entries,
            key,
            value,
            px,
            now,
        ),
{
    lemma_filter_request_ignores_own_key(
        entries,
        key,
        StoredValue { data: value, expires_at: deadline(px, now) },
    );
}

/// An entry set with a time to live is found expired by the first lookup
/// after its deadline, which removes it; every lookup after that finds
/// nothing. The key is any that is not read as a filter request on another
/// entry.
pub proof fn lemma_expired_once(
    entries: Map<Seq<char>, StoredValue>,
    key: Seq<char>,
    value: Seq<char>,
    millis: u64,
    now: u64,
    later: u64,
    again: u64,
)
    requires
        !is_filter_request(entries, key),
        later > now + millis,
    ensures
        lookup(after_set(entries, key, value, Some(millis), now), key, later)
            == GetOutcome::Expired,
        after_lookup(after_set(entries, key, value, Some(millis), now), key, later)
            == entries.remove(key),
        lookup(entries.remove(key), key, again) == GetOutcome::Nothing,
        after_lookup(entries.remove(key), key, again) == entries.remove(key),
{
    let entry = StoredValue { data: value, expires_at: deadline(Some(millis), now) };
    lemma_filter_request_ignores_own_key(entries, key, entry);
}

/// A refused append changes nothing.
pub proof fn lemma_refused_append(
    entries: Map<Seq<char>, StoredValue>,
    key: Seq<char>,
    value: Seq<char>,
)
    requires
        append_result(entries, key, value) is Err,
    ensures
        after_append(entries, key, value) == entries,
{
}

/// An append of text that is no JSON is refused, whatever is stored, and
/// changes nothing. Where the entry is a JSON document, or there is none,
/// the error is that the value is no JSON.
pub proof fn lemma_append_of_non_json(
    entries: Map<Seq<char>, StoredValue>,
    key: Seq<char>,
    value: Seq<char>,
)
    requires
        json_document(value) is None,
    ensures
        append_result(entries, key, value) is Err,
        after_append(entries, key, value) == entries,
        !entries.contains_key(key) || json_document(entries[key].data) is Some ==> append_result(
            entries,
            key,
            value,
        ) == Err::<(), StoreError>(StoreError::ValueNotJson),
{
}

/// An append of a document that is no array adds one element behind those
/// that the entry holds.
pub proof fn lemma_append_one_element(
    entries: Map<Seq<char>, StoredValue>,
    key: Seq<char>,
    value: Seq<char>,
    items: Seq<Value>,
    added: Value,
)
    requires
        entries.contains_key(key),
        json_document(entries[key].data) matches Some(current) && json_elements(current) == Some(
            items,
        ),
        json_document(value) == Some(added),
        json_elements(added) is None,
    ensures
        appended_text(Some(entries[key].data), value) == match json_array_text(
            items.push(added),
        ) {
            Some(text) => Ok::<Seq<char>, StoreError>(text),
            None => Err::<Seq<char>, StoreError>(StoreError::Serialize),
        },
{
    assert(items + seq![added] =~= items.push(added));
}

/// Whether the array of `items`, once written, is read back as the array
/// of the same elements.
pub open spec fn reads_back(items: Seq<Value>) -> bool {
    match json_array_text(items) {
        Some(text) => match json_document(text) {
            Some(document) => json_elements(document) == Some(items),
            None => false,
        },
        None => false,
    }
}

/// Whether the entry under `key` is the array of `items`. No entry stands
/// for the empty array.
pub open spec fn holds_items(
    entries: Map<Seq<char>, StoredValue>,
    key: Seq<char>,
    items: Seq<Value>,
) -> bool {
    match stored_text(entries, key) {
        Some(data) => match json_document(data) {
            Some(document) => json_elements(document) == Some(items),
            None => false,
        },
        None => items.len() == 0,
    }
}

/// The store after `values` have been appended under `key`, one after the
/// other.
pub open spec fn after_appends(
    entries: Map<Seq<char>, StoredValue>,
    key: Seq<char>,
    values: Seq<Seq<char>>,
) -> Map<Seq<char>, StoredValue>
    decreases values.len(),
{
    if values.len() == 0 {
        entries
    } else {
        after_append(after_appends(entries, key, values.drop_last()), key, values.last())
    }
}

/// Appends lose nothing: where every value is a JSON document that is no
/// array, and every array that is written is read back as it was written,
/// each of the appends is accepted, and the entry ends as the array of the
/// elements it had, followed by the documents appended, in the order of the
/// appends.
pub proof fn lemma_appends_lose_nothing(
    entries: Map<Seq<char>, StoredValue>,
    key: Seq<char>,
    items: Seq<Value>,
    values: Seq<Seq<char>>,
    added: Seq<Value>,
)
    requires
        holds_items(entries, key, items),
        added.len() == values.len(),
        forall|i: int|
            0 <= i < values.len() ==> json_document(#[trigger] values[i]) == Some(added[i])
                && json_elements(added[i]) is None,
        forall|n: int| 1 <= n <= added.len() ==> reads_back(items + #[trigger] added.take(n)),
    ensures
        forall|n: int|
            0 <= n < values.len() ==> append_result(
                after_appends(entries, key, #[trigger] values.take(n)),
                key,
                values[n],
            ) is Ok,
        holds_items(after_appends(entries, key, values), key, items + added),
        (items + added).len() == items.len() + values.len(),
    decreases values.len(),
{
    if values.len() > 0 {
        let count = values.len() - 1;
        let earlier = values.drop_last();
        let before = added.drop_last();
        assert forall|n: int| 1 <= n <= before.len() implies reads_back(
            items + #[trigger] before.take(n),
        ) by {
            assert(before.take(n) =~= added.take(n));
        }
        lemma_appends_lose_nothing(entries, key, items, earlier, before);
        // the last append adds its document behind what the entry holds
        assert(added.take(count + 1) =~= added);
        assert((items + before) + seq![added.last()] =~= items + added);
        assert forall|n: int| 0 <= n < values.len() implies append_result(
            after_appends(entries, key, #[trigger] values.take(n)),
            key,
            values[n],
        ) is Ok by {
            if n < count {
                assert(values.take(n) =~= earlier.take(n));
            }
        }
    }
}

/// An accepted append keeps the entry's deadline and every other entry.
pub proof fn lemma_accepted_append(
    entries: Map<Seq<char>, StoredValue>,
    key: Seq<char>,
    value: Seq<char>,
)
    requires
        append_result(entries, key, value) is Ok,
    ensures
        after_append(entries, key, value).contains_key(key),
        entries.contains_key(key) ==> after_append(entries, key, value)[key].expires_at
            == entries[key].expires_at,
        !entries.contains_key(key) ==> after_append(entries, key, value)[key].expires_at is None,
        forall|other: Seq<char>|
            other != key ==> (#[trigger] after_append(entries, key, value).contains_key(other)
                == entries.contains_key(other)) && after_append(entries, key, value)[other]
                == entries[other],
{
}

/// The system clock, in whole milliseconds since the Unix epoch; zero for
/// a clock set before it. Nothing is known of the result.
#[verifier::external_body]
fn clock_millis() -> (millis: u128) {
    SystemTime::now().duration_since(UNIX_EPOCH).map(|since| since.as_millis()).unwrap_or(0)
}

/// The clock's reading as the store counts time; nothing is known of it.
fn current_millis() -> (now: u64) {
    capped_millis(clock_millis())
}

/// A clock reading as the store counts time: itself where a `u64` holds
/// it, else the largest `u64`.
pub open spec fn capped(millis: u128) -> u64 {
    if millis > u64::MAX {
        u64::MAX
    } else {
        millis as u64
    }
}

/// A clock reading as the store counts time.
pub fn capped_millis(millis: u128) -> (now: u64)
    ensures
        now == capped(millis),
{
    if millis > 0xffff_ffff_ffff_ffff {
        0xffff_ffff_ffff_ffff
    } else {
        millis as u64
    }
}

/// The elements of `items` that meet every one of `conditions`, in order.
pub fn filter_items(items: Vec<Value>, conditions: &[FilterCondition]) -> (kept: Vec<Value>)
    ensures
        kept@ == filtered(items@, condition_views(conditions@)),
{
    let ghost pred = |item: Value| matches_all(item, condition_views(conditions@));
    let ghost all = items@;
    let ghost mut seen: int = 0;
    let mut kept: Vec<Value> = Vec::new();
    for item in it: items
        invariant
            it.seq() == all,
            seen == it.index(),
            pred == |item: Value| matches_all(item, condition_views(conditions@)),
            kept@ == all.take(seen).filter(pred),
    {
        proof {
            reveal(Seq::filter);
            assert(all.take(seen + 1).drop_last() =~= all.take(seen));
        }
        if SearchParser::matches_conditions(&item, conditions) {
            kept.push(item);
        }
        proof {
            seen = seen + 1;
        }
    }
    proof {
        assert(all.take(seen) =~= all);
    }
    kept
}

/// The elements of an array after a document has been appended to it.
/// `added` is the document told apart: `Ok` with the elements of an array,
/// which join `items` one by one, or `Err` with any other document, which
/// joins as one element.
pub fn extend_items(items: Vec<Value>, added: Result<Vec<Value>, Value>) -> (all: Vec<Value>)
    ensures
        all@ == items@ + match added {
            Ok(elements) => elements@,
            Err(single) => seq![single],
        },
{
    let mut all = items;
    match added {
        Ok(elements) => {
            let mut elements = elements;
            all.append(&mut elements);
        },
        Err(single) => {
            all.push(single);
        },
    }
    all
}

/// The text of an entry after `value` has been appended to it.
fn append_text(existing: Option<&str>, value: &str) -> (r: Result<String, StoreError>)
    ensures
        match r {
            Ok(text) => appended_text(
                match existing {
                    Some(data) => Some(data@),
                    None => None,
                },
                value@,
            ) == Ok::<Seq<char>, StoreError>(text@),
            Err(error) => appended_text(
                match existing {
                    Some(data) => Some(data@),
                    None => None,
                },
                value@,
            ) == Err::<Seq<char>, StoreError>(error),
        },
{
    let items: Vec<Value> = match existing {
        Some(data) => {
            let current = match parse_document(data) {
                Ok(document) => document,
                Err(_) => {
                    return Err(StoreError::ExistingNotJson);
                },
            };
            let added = match parse_document(value) {
                Ok(document) => document,
                Err(_) => {
                    return Err(StoreError::ValueNotJson);
                },
            };
            match into_elements(current) {
                Ok(items) => extend_items(items, into_elements(added)),
                Err(_) => {
                    return Err(StoreError::ExistingNotArray);
                },
            }
        },
        None => {
            let added = match parse_document(value) {
                Ok(document) => document,
                Err(_) => {
                    return Err(StoreError::ValueNotJson);
                },
            };
            extend_items(Vec::new(), into_elements(added))
        },
    };
    match render_array(&items) {
        Ok(text) => Ok(text),
        Err(_) => Err(StoreError::Serialize),
    }
}

/// What a filter request answers from an entry's text.
fn answer_filter(data: &str, query: &str) -> (answer: RedisGetResult)
    ensures
        answer@ == filter_answer(data@, query@),
{
    let document = match parse_document(data) {
        Ok(document) => document,
        Err(_) => {
            return RedisGetResult::Nothing;
        },
    };
    match into_elements(document) {
        Ok(items) => {
            let conditions = SearchParser::parse_search_params(query);
            let kept = filter_items(items, conditions.as_slice());
            match render_array(&kept) {
                Ok(text) => RedisGetResult::Value(text),
                Err(_) => RedisGetResult::Value(String::new()),
            }
        },
        Err(_) => RedisGetResult::Nothing,
    }
}

/// The store: a map from keys to entries.
pub struct RedisStore {
    data: StringHashMap<RedisValue>,
}

impl View for RedisStore {
    type V = Map<Seq<char>, StoredValue>;

    closed spec fn view(&self) -> Map<Seq<char>, StoredValue> {
        self.data@.map_values(|entry: RedisValue| entry@)
    }
}

impl RedisStore {
    /// An empty store.
    pub fn new() -> (store: Self)
        ensures
            store@ == Map::<Seq<char>, StoredValue>::empty(),
    {
        let store = RedisStore { data: StringHashMap::new() };
        store
    }

    /// Stores `value` under `key`, in place of whatever was there. With a
    /// time to live the entry expires that many milliseconds after the
    /// clock's reading; without one it never does.
    pub fn set(&mut self, key: String, value: String, px: Option<u64>) -> (r: Result<
        (),
        StoreError,
    >)
        ensures
            r is Ok,
            exists|now: u64| final(self)@ == after_set(old(self)@, key@, value@, px, now),
    {
        let now: u64 = current_millis();
        self.set_at(key, value, px, now);
        Ok(())
    }

    /// Stores `value` under `key` as `set` does, with `now` for the clock's
    /// reading.
    pub fn set_at(&mut self, key: String, value: String, px: Option<u64>, now: u64)
        ensures
            final(self)@ == after_set(old(self)@, key@, value@, px, now),
    {
        let expires_at: Option<u128> = match px {
            Some(millis) => Some(now as u128 + millis as u128),
            None => None,
        };
        let entry = RedisValue { data: value, expires_at };
        self.data.insert(key, entry);
    }

    /// Appends `value`, which has to be JSON, to the array under `key`: the
    /// elements of an array one by one, any other document as one element.
    /// Without an entry under `key` the array starts empty. A refused append
    /// leaves the store as it was.
    pub fn append(&mut self, key: String, value: String) -> (r: Result<(), StoreError>)
        ensures
            final(self)@ == after_append(old(self)@, key@, value@),
            r == append_result(old(self)@, key@, value@),
    {
        match self.data.get(key.as_str()) {
            Some(existing) => {
                let expires_at = existing.expires_at;
                match append_text(Some(existing.data.as_str()), value.as_str()) {
                    Ok(text) => {
                        self.data.insert(key, RedisValue { data: text, expires_at });
                        Ok(())
                    },
                    Err(error) => Err(error),
                }
            },
            None => match append_text(None, value.as_str()) {
                Ok(text) => {
                    self.data.insert(key, RedisValue { data: text, expires_at: None });
                    Ok(())
                },
                Err(error) => Err(error),
            },
        }
    }

    /// Looks `key` up at the clock's reading.
    pub fn get(&mut self, key: &str) -> (answer: RedisGetResult)
        ensures
            exists|now: u64|
                answer@ == lookup(old(self)@, key@, now) && final(self)@ == after_lookup(
                    old(self)@,
                    key@,
                    now,
                ),
    {
        let now: u64 = current_millis();
        self.get_at(key, now)
    }

    /// Looks `key` up at `now`. A key that holds a `?` is first read as a
    /// filter request on the entry under what precedes the first `?`; where
    /// there is no such entry, and for every other key, the whole key is
    /// looked up, and an entry found expired is removed.
    pub fn get_at(&mut self, key: &str, now: u64) -> (answer: RedisGetResult)
        ensures
            answer@ == lookup(old(self)@, key@, now),
            final(self)@ == after_lookup(old(self)@, key@, now),
    {
        let chars = chars_of(key);
        let at: usize = find_char(&chars, 0, '?');
        proof {
            assert(chars@.skip(0) =~= chars@);
        }
        if at < chars.len() {
            let base = string_of(&chars, 0, at);
            match self.data.get(base.as_str()) {
                Some(entry) => {
                    let query = string_of(&chars, at + 1, chars.len());
                    return answer_filter(entry.data.as_str(), query.as_str());
                },
                None => {},
            }
        }
        match self.data.get(key) {
            Some(entry) => {
                let dead: bool = match entry.expires_at {
                    Some(deadline) => now as u128 > deadline,
                    None => false,
                };
                if dead {
                    self.data.remove(key);
                    RedisGetResult::Expired
                } else {
                    RedisGetResult::Value(entry.data.clone())
                }
            },
            None => RedisGetResult::Nothing,
        }
    }
}

} // verus!
