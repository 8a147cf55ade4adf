//! The command dispatcher: from the tokens of one frame to a store
//! operation and the reply to send.

use vstd::prelude::*;
use vstd::string::StringExecFns;
use crate::decimal::{parse_u64, parsed_u64};
use crate::metrics::{namespaced, namespaced_key};
use crate::parser::{parse_command, parsed_tokens};
use crate::store::{
    after_append,
    after_lookup,
    after_set,
    append_result,
    error_message,
    lookup,
    RedisStore,
};
use crate::text::{same_text, to_uppercase, uppercase, views};
use crate::types::{GetOutcome, RedisGetResult, StoredValue};

verus! {

/// What one connection remembers between commands: the tenant it has named
/// itself, if it has.
pub struct Connection {
    pub tenant: Option<String>,
}

impl View for Connection {
    type V = Option<Seq<char>>;

    open spec fn view(&self) -> Option<Seq<char>> {
        match self.tenant {
            Some(name) => Some(name@),
            None => None,
        }
    }
}

impl Connection {
    /// A connection that has not named a tenant yet.
    pub fn new() -> (connection: Self)
        ensures
            connection@ is None,
    {
        Connection { tenant: None }
    }
}

/// What is to be done after a command, as a mathematical value.
pub enum OutcomeView {
    Reply(Seq<char>),
    ReplyAndRecord { reply: Seq<char>, endpoint: Seq<char>, method: Seq<char> },
    Silent,
    Unknown,
}

/// What is to be done after a command.
#[derive(Debug)]
pub enum Outcome {
    /// Send the reply.
    Reply(String),
    /// Send the reply, then record the command in the tenant's metrics:
    /// `endpoint` is the key as the client wrote it, `method` the verb.
    ReplyAndRecord { reply: String, endpoint: String, method: String },
    /// Send nothing.
    Silent,
    /// Send nothing: the verb is not one of the protocol's.
    Unknown,
}

impl View for Outcome {
    type V = OutcomeView;

    open spec fn view(&self) -> OutcomeView {
        match self {
            Outcome::Reply(reply) => OutcomeView::Reply(reply@),
            Outcome::ReplyAndRecord { reply, endpoint, method } => OutcomeView::ReplyAndRecord {
                reply: reply@,
                endpoint: endpoint@,
                method: method@,
            },
            Outcome::Silent => OutcomeView::Silent,
            Outcome::Unknown => OutcomeView::Unknown,
        }
    }
}

/// The verbs of the protocol.
#[derive(Debug, Clone, Copy, PartialEq, Eq, Structural)]
pub enum Verb {
    Client,
    SetKey,
    GetKey,
    AppendKey,
    Ping,
    Echo,
    Info,
    Unknown,
}

/// The verb that an upper-case word names. `HEALTH` is another name for
/// `PING`.
pub open spec fn verb_named(word: Seq<char>) -> Verb {
    if word == "CLIENT"@ {
        Verb::Client
    } else if word == "SET"@ {
        Verb::SetKey
    } else if word == "GET"@ {
        Verb::GetKey
    } else if word == "APPEND"@ {
        Verb::AppendKey
    } else if word == "PING"@ || word == "HEALTH"@ {
        Verb::Ping
    } else if word == "ECHO"@ {
        Verb::Echo
    } else if word == "INFO"@ {
        Verb::Info
    } else {
        Verb::Unknown
    }
}

/// The verb as the metrics record it.
pub open spec fn verb_name(verb: Verb) -> Seq<char> {
    match verb {
        Verb::SetKey => "SET"@,
        Verb::GetKey => "GET"@,
        _ => "APPEND"@,
    }
}

/// The reply to a lookup.
pub open spec fn lookup_reply(answer: GetOutcome) -> Seq<char> {
    match answer {
        GetOutcome::Value(value) => "+"@ + value + "\r\n"@,
        GetOutcome::Nothing => "+\r\n"@,
        GetOutcome::Expired => "$-1\r\n"@,
    }
}

/// The reply that reports an error.
pub open spec fn error_reply(message: Seq<char>) -> Seq<char> {
    "-ERR "@ + message + "\r\n"@
}

/// Whether a `SET` with these tokens carries a time to live that is no
/// number.
pub open spec fn bad_ttl(parts: Seq<Seq<char>>) -> bool {
    parts.len() > 4 && parsed_u64(parts[4]) is None
}

/// The time to live that a `SET` with these tokens carries.
pub open spec fn ttl_of(parts: Seq<Seq<char>>) -> Option<u64> {
    if parts.len() > 4 {
        parsed_u64(parts[4])
    } else {
        None
    }
}

/// Whether the second of the tokens, in upper case, is `SETNAME`.
pub open spec fn asks_setname(parts: Seq<Seq<char>>) -> bool {
    parts.len() > 1 && uppercase(parts[1]) == "SETNAME"@
}

/// The reply to a command that lacks an argument.
pub open spec fn too_few_arguments() -> OutcomeView {
    OutcomeView::Reply(error_reply("wrong number of arguments"@))
}

/// What `SET`, `GET` or `APPEND` leads to for a connection that has named
/// `tenant`. `parts` has at least two tokens.
pub open spec fn store_outcome(
    verb: Verb,
    tenant: Seq<char>,
    entries: Map<Seq<char>, StoredValue>,
    parts: Seq<Seq<char>>,
    now: u64,
) -> OutcomeView {
    let key = namespaced(tenant, parts[1]);
    let recorded = |reply: Seq<char>|
        OutcomeView::ReplyAndRecord { reply, endpoint: parts[1], method: verb_name(verb) };
    if verb == Verb::GetKey {
        recorded(lookup_reply(lookup(entries, key, now)))
    } else if parts.len() <= 2 {
        too_few_arguments()
    } else if verb == Verb::SetKey {
        if bad_ttl(parts) {
            OutcomeView::Reply(error_reply("value is not an integer or out of range"@))
        } else {
            recorded("+OK\r\n"@)
        }
    } else {
        match append_result(entries, key, parts[2]) {
            Ok(_) => recorded("+OK\r\n"@),
            Err(error) => OutcomeView::Reply(error_reply(error_message(error))),
        }
    }
}

/// The store after `SET`, `GET` or `APPEND` of a connection that has named
/// `tenant`. `parts` has at least two tokens.
pub open spec fn store_after(
    verb: Verb,
    tenant: Seq<char>,
    entries: Map<Seq<char>, StoredValue>,
    parts: Seq<Seq<char>>,
    now: u64,
) -> Map<Seq<char>, StoredValue> {
    let key = namespaced(tenant, parts[1]);
    if verb == Verb::GetKey {
        after_lookup(entries, key, now)
    } else if parts.len() <= 2 {
        entries
    } else if verb == Verb::SetKey {
        if bad_ttl(parts) {
            entries
        } else {
            after_set(entries, key, parts[2], ttl_of(parts), now)
        }
    } else {
        after_append(entries, key, parts[2])
    }
}

/// Whether the verb is one that works on the store.
pub open spec fn is_store_verb(verb: Verb) -> bool {
    verb == Verb::SetKey || verb == Verb::GetKey || verb == Verb::AppendKey
}

/// What the command `verb` with the tokens `parts` leads to, for a
/// connection whose tenant is `tenant`, on the store `entries` at `now`.
/// `setname` says whether the subcommand of a `CLIENT` command is
/// `SETNAME`. A command that lacks an argument is answered with an error:
/// `CLIENT` without a subcommand, `SETNAME` without a name, `ECHO` without
/// a message, a store command without a key. A `CLIENT` with any other
/// subcommand is not one of the protocol's.
pub open spec fn command_outcome(
    verb: Verb,
    setname: bool,
    tenant: Option<Seq<char>>,
    entries: Map<Seq<char>, StoredValue>,
    parts: Seq<Seq<char>>,
    now: u64,
) -> OutcomeView {
    match verb {
        Verb::Client => if parts.len() <= 1 {
            too_few_arguments()
        } else if !setname {
            OutcomeView::Unknown
        } else if parts.len() <= 2 {
            too_few_arguments()
        } else {
            OutcomeView::Reply("+OK\r\n"@)
        },
        Verb::Ping => OutcomeView::Reply("+PONG\r\n"@),
        Verb::Echo => if parts.len() > 1 {
            OutcomeView::Reply("+"@ + parts[1] + "\r\n"@)
        } else {
            too_few_arguments()
        },
        Verb::Info => OutcomeView::Reply("+redis_version:0.0.1\r\n"@),
        Verb::Unknown => OutcomeView::Unknown,
        _ => match tenant {
            None => OutcomeView::Reply(error_reply("Tenant name required (use CLIENT SETNAME)"@)),
            Some(name) => if parts.len() <= 1 {
                too_few_arguments()
            } else {
                store_outcome(verb, name, entries, parts, now)
            },
        },
    }
}

/// The connection's tenant after the command.
pub open spec fn tenant_after(
    verb: Verb,
    setname: bool,
    tenant: Option<Seq<char>>,
    parts: Seq<Seq<char>>,
) -> Option<Seq<char>> {
    if verb == Verb::Client && setname && parts.len() > 2 {
        Some(parts[2])
    } else {
        tenant
    }
}

/// The store after the command.
pub open spec fn entries_after(
    verb: Verb,
    tenant: Option<Seq<char>>,
    entries: Map<Seq<char>, StoredValue>,
    parts: Seq<Seq<char>>,
    now: u64,
) -> Map<Seq<char>, StoredValue> {
    if is_store_verb(verb) && tenant is Some && parts.len() > 1 {
        store_after(verb, tenant.unwrap(), entries, parts, now)
    } else {
        entries
    }
}

/// `"+"`, `body` and the line end.
fn plus_line(body: &str) -> (line: String)
    ensures
        line@ == "+"@ + body@ + "\r\n"@,
{
    let mut line = String::from_str("+");
    line.append(body);
    line.append("\r\n");
    line
}

/// The reply that reports an error.
fn error_line(message: &str) -> (line: String)
    ensures
        line@ == error_reply(message@),
{
    let mut line = String::from_str("-ERR ");
    line.append(message);
    line.append("\r\n");
    line
}

/// The verb that an upper-case word names.
pub fn read_verb(word: &str) -> (verb: Verb)
    ensures
        verb == verb_named(word@),
{
    if same_text(word, "CLIENT") {
        Verb::Client
    } else if same_text(word, "SET") {
        Verb::SetKey
    } else if same_text(word, "GET") {
        Verb::GetKey
    } else if same_text(word, "APPEND") {
        Verb::AppendKey
    } else if same_text(word, "PING") || same_text(word, "HEALTH") {
        Verb::Ping
    } else if same_text(word, "ECHO") {
        Verb::Echo
    } else if same_text(word, "INFO") {
        Verb::Info
    } else {
        Verb::Unknown
    }
}

/// Carries out `SET`, `GET` or `APPEND` for a connection that has named
/// `tenant`.
fn run_store_command(
    verb: Verb,
    tenant: &str,
    store: &mut RedisStore,
    parts: &Vec<String>,
    now: u64,
) -> (outcome: Outcome)
    requires
        is_store_verb(verb),
        parts.len() > 1,
    ensures
        outcome@ == store_outcome(verb, tenant@, old(store)@, views(parts@), now),
        final(store)@ == store_after(verb, tenant@, old(store)@, views(parts@), now),
{
    let key = namespaced_key(tenant, parts[1].as_str());
    let endpoint = parts[1].clone();
    if verb == Verb::GetKey {
        let reply = match store.get_at(key.as_str(), now) {
            RedisGetResult::Value(value) => plus_line(value.as_str()),
            RedisGetResult::Nothing => "+\r\n".to_owned(),
            RedisGetResult::Expired => "$-1\r\n".to_owned(),
        };
        return Outcome::ReplyAndRecord { reply, endpoint, method: "GET".to_owned() };
    }
    if parts.len() <= 2 {
        return Outcome::Reply(error_line("wrong number of arguments"));
    }
    if verb == Verb::SetKey {
        let px: Option<u64> = if parts.len() > 4 {
            match parse_u64(parts[4].as_str()) {
                Some(millis) => Some(millis),
                None => {
                    return Outcome::Reply(error_line("value is not an integer or out of range"));
                },
            }
        } else {
            None
        };
        store.set_at(key, parts[2].clone(), px, now);
        Outcome::ReplyAndRecord { reply: "+OK\r\n".to_owned(), endpoint, method: "SET".to_owned() }
    } else {
        match store.append(key, parts[2].clone()) {
            Ok(_) => Outcome::ReplyAndRecord {
                reply: "+OK\r\n".to_owned(),
                endpoint,
                method: "APPEND".to_owned(),
            },
            Err(error) => Outcome::Reply(error_line(error.message().as_str())),
        }
    }
}

/// Carries out the command `verb` with the tokens `command_parts`. A store
/// command works on the key in the connection's namespace and asks for a
/// tenant to have been named; `CLIENT` names the tenant where `setname`
/// says that its subcommand is `SETNAME` and a name follows. A command
/// that lacks an argument changes nothing and is answered with an error.
pub fn execute(
    verb: Verb,
    setname: bool,
    command_parts: &Vec<String>,
    store: &mut RedisStore,
    connection: &mut Connection,
    now: u64,
) -> (outcome: Outcome)
    ensures
        outcome@ == command_outcome(
            verb,
            setname,
            old(connection)@,
            old(store)@,
            views(command_parts@),
            now,
        ),
        final(connection)@ == tenant_after(verb, setname, old(connection)@, views(command_parts@)),
        final(store)@ == entries_after(
            verb,
            old(connection)@,
            old(store)@,
            views(command_parts@),
            now,
        ),
{
    match verb {
        Verb::Client => {
            if command_parts.len() <= 1 {
                Outcome::Reply(error_line("wrong number of arguments"))
            } else if !setname {
                Outcome::Unknown
            } else if command_parts.len() <= 2 {
                Outcome::Reply(error_line("wrong number of arguments"))
            } else {
                connection.tenant = Some(command_parts[2].clone());
                Outcome::Reply("+OK\r\n".to_owned())
            }
        },
        Verb::Ping => Outcome::Reply("+PONG\r\n".to_owned()),
        Verb::Echo => {
            if command_parts.len() > 1 {
                Outcome::Reply(plus_line(command_parts[1].as_str()))
            } else {
                Outcome::Reply(error_line("wrong number of arguments"))
            }
        },
        Verb::Info => Outcome::Reply("+redis_version:0.0.1\r\n".to_owned()),
        Verb::Unknown => Outcome::Unknown,
        _ => match &connection.tenant {
            None => Outcome::Reply(error_line("Tenant name required (use CLIENT SETNAME)")),
            Some(tenant) => {
                if command_parts.len() <= 1 {
                    Outcome::Reply(error_line("wrong number of arguments"))
                } else {
                    run_store_command(verb, tenant.as_str(), store, command_parts, now)
                }
            },
        },
    }
}

/// Carries out the command with the tokens `command_parts`: the first
/// token, whatever its case, names the verb. No token, no command.
pub fn dispatch(
    command_parts: &Vec<String>,
    store: &mut RedisStore,
    connection: &mut Connection,
    now: u64,
) -> (outcome: Outcome)
    ensures
        command_parts.len() == 0 ==> {
            &&& outcome@ == OutcomeView::Silent
            &&& final(connection)@ == old(connection)@
            &&& final(store)@ == old(store)@
        },
        command_parts.len() > 0 ==> {
            let parts = views(command_parts@);
            let verb = verb_named(uppercase(parts[0]));
            &&& outcome@ == command_outcome(
                verb,
                asks_setname(parts),
                old(connection)@,
                old(store)@,
                parts,
                now,
            )
            &&& final(connection)@ == tenant_after(
                verb,
                asks_setname(parts),
                old(connection)@,
                parts,
            )
            &&& final(store)@ == entries_after(verb, old(connection)@, old(store)@, parts, now)
        },
{
    if command_parts.len() == 0 {
        return Outcome::Silent;
    }
    let verb = read_verb(to_uppercase(command_parts[0].as_str()).as_str());
    let setname: bool = verb == Verb::Client && command_parts.len() > 1 && same_text(
        to_uppercase(command_parts[1].as_str()).as_str(),
        "SETNAME",
    );
    execute(verb, setname, command_parts, store, connection, now)
}

/// Reads one frame out of `request` and carries out its command.
pub fn handle_request(
    request: &str,
    store: &mut RedisStore,
    connection: &mut Connection,
    now: u64,
) -> (outcome: Outcome)
    ensures
        parsed_tokens(request@).len() == 0 ==> {
            &&& outcome@ == OutcomeView::Silent
            &&& final(connection)@ == old(connection)@
            &&& final(store)@ == old(store)@
        },
        parsed_tokens(request@).len() > 0 ==> {
            let parts = parsed_tokens(request@);
            let verb = verb_named(uppercase(parts[0]));
            &&& outcome@ == command_outcome(
                verb,
                asks_setname(parts),
                old(connection)@,
                old(store)@,
                parts,
                now,
            )
            &&& final(connection)@ == tenant_after(
                verb,
                asks_setname(parts),
                old(connection)@,
                parts,
            )
            &&& final(store)@ == entries_after(verb, old(connection)@, old(store)@, parts, now)
        },
{
    let command_parts = parse_command(request);
    dispatch(&command_parts, store, connection, now)
}

} // verus!
