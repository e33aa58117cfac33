//! Normalization of the external status document: one poll cycle's JSON
//! answer is parsed into `ProcessRecord`s, with every unparseable or
//! missing field defaulting to its zero value rather than failing the
//! record, and an unparseable document skipping the whole cycle.
//!
//! The JSON value itself is opaque to the verifier; what each accessor
//! of it returns is given a name (`json_doc_of`, `json_items_of`, ...),
//! and the parsing contracts pin every record of the result to the
//! document's array elements through those names.

use vstd::prelude::*;
use crate::event::{ProcessRecord, RecordView};

verus! {

#[verifier::external_type_specification]
#[verifier::external_body]
pub struct ExValue(serde_json::Value);

/// Whether a text is a JSON document that the parser accepts: the
/// (unspecified) condition under which `serde_json` parses it.
pub uninterp spec fn json_text_ok(s: Seq<char>) -> bool;

/// The value that a text accepted by the parser parses to.
pub uninterp spec fn json_doc_of(s: Seq<char>) -> serde_json::Value;

/// The elements a JSON value holds when it is an array, and nothing
/// otherwise.
pub uninterp spec fn json_items_of(v: serde_json::Value) -> Option<Seq<serde_json::Value>>;

/// The member a JSON value holds under a key when it is an object with
/// that key, and nothing otherwise.
pub uninterp spec fn json_member_of(v: serde_json::Value, key: Seq<char>) -> Option<
    serde_json::Value,
>;

/// The text a JSON value holds when it is a string, and nothing
/// otherwise.
pub uninterp spec fn json_str_of(v: serde_json::Value) -> Option<Seq<char>>;

/// The integer a JSON value holds when it is a number representable as
/// an i64, and nothing otherwise.
pub uninterp spec fn json_i64_of(v: serde_json::Value) -> Option<i64>;

/// The decimal text of the number a JSON value holds, and nothing when
/// it is not a number.
pub uninterp spec fn json_numtext_of(v: serde_json::Value) -> Option<Seq<char>>;

/// Relies on serde_json::from_str for serde_json::Value: whether it
/// returns a value, and which, is a function of the parsed text alone —
/// named here `json_text_ok` and `json_doc_of`.
#[verifier::external_body]
fn parse_json_document(doc: &str) -> (r: Option<serde_json::Value>)
    ensures
        r is Some <==> json_text_ok(doc@),
        r matches Some(v) ==> v == json_doc_of(doc@),
{
    serde_json::from_str::<serde_json::Value>(doc).ok()
}

/// Relies on serde_json::Value::as_array: the elements exactly when the
/// value is a JSON array, named here `json_items_of`.
#[verifier::external_body]
fn json_array_items(v: &serde_json::Value) -> (r: Option<Vec<serde_json::Value>>)
    ensures
        r is Some <==> json_items_of(*v) is Some,
        r matches Some(items) ==> json_items_of(*v) == Some(items@),
{
    match v.as_array() {
        Some(items) => Some(items.clone()),
        None => None,
    }
}

/// Relies on serde_json::Value::get: the member under this key exactly
/// when the value is a JSON object that has one, named here
/// `json_member_of`.
#[verifier::external_body]
fn json_get<'a>(v: &'a serde_json::Value, key: &str) -> (r: Option<&'a serde_json::Value>)
    ensures
        r is Some <==> json_member_of(*v, key@) is Some,
        r matches Some(m) ==> json_member_of(*v, key@) == Some(*m),
{
    v.get(key)
}

/// Relies on serde_json::Value::as_str: the text exactly when the value
/// is a JSON string, named here `json_str_of`.
#[verifier::external_body]
fn json_as_string(v: &serde_json::Value) -> (r: Option<String>)
    ensures
        r is Some <==> json_str_of(*v) is Some,
        r matches Some(s) ==> json_str_of(*v) == Some(s@),
{
    match v.as_str() {
        Some(s) => Some(s.to_owned()),
        None => None,
    }
}

/// Relies on serde_json::Value::as_i64: the integer exactly when the
/// value is a JSON number representable as an i64, named here
/// `json_i64_of`.
#[verifier::external_body]
fn json_as_i64(v: &serde_json::Value) -> (r: Option<i64>)
    ensures
        r == json_i64_of(*v),
{
    v.as_i64()
}

/// Relies on serde_json::Number's display form: the decimal text exactly
/// when the value is a JSON number, named here `json_numtext_of`; the
/// text of a given number is deterministic.
#[verifier::external_body]
fn json_number_text(v: &serde_json::Value) -> (r: Option<String>)
    ensures
        r is Some <==> json_numtext_of(*v) is Some,
        r matches Some(s) ==> json_numtext_of(*v) == Some(s@),
{
    match v {
        serde_json::Value::Number(n) => Some(n.to_string()),
        _ => None,
    }
}

/// The member under `key` of an optional JSON value.
pub open spec fn member_in(ov: Option<serde_json::Value>, key: Seq<char>) -> Option<
    serde_json::Value,
> {
    match ov {
        Some(v) => json_member_of(v, key),
        None => None,
    }
}

/// The text an optional JSON value holds.
pub open spec fn str_in(ov: Option<serde_json::Value>) -> Option<Seq<char>> {
    match ov {
        Some(v) => json_str_of(v),
        None => None,
    }
}

/// The i64 an optional JSON value holds.
pub open spec fn i64_in(ov: Option<serde_json::Value>) -> Option<i64> {
    match ov {
        Some(v) => json_i64_of(v),
        None => None,
    }
}

/// The number text an optional JSON value holds.
pub open spec fn numtext_in(ov: Option<serde_json::Value>) -> Option<Seq<char>> {
    match ov {
        Some(v) => json_numtext_of(v),
        None => None,
    }
}

/// A present text, or the empty default.
pub open spec fn text_or_empty(o: Option<Seq<char>>) -> Seq<char> {
    match o {
        Some(s) => s,
        None => Seq::<char>::empty(),
    }
}

/// A present integer, or the zero default.
pub open spec fn int_or_zero(o: Option<i64>) -> int {
    match o {
        Some(x) => x as int,
        None => 0int,
    }
}

/// A present number text, or the zero default.
pub open spec fn numtext_or_zero(o: Option<Seq<char>>) -> Seq<char> {
    match o {
        Some(s) => s,
        None => "0"@,
    }
}

/// The record one element of the status array normalizes to: each field
/// read from its place in the element — top-level `name`, `pm_id` and
/// `pid`; `pm_uptime`, `status`, `restart_time` and `username` inside
/// `pm2_env`; `cpu` and `memory` inside `monit` — with its zero default
/// wherever the element does not provide it.
pub open spec fn record_view_of(v: serde_json::Value) -> RecordView {
    RecordView {
        name: text_or_empty(str_in(json_member_of(v, "name"@))),
        id: int_or_zero(i64_in(json_member_of(v, "pm_id"@))),
        pid: int_or_zero(i64_in(json_member_of(v, "pid"@))),
        uptime: int_or_zero(i64_in(member_in(json_member_of(v, "pm2_env"@), "pm_uptime"@))),
        status: text_or_empty(str_in(member_in(json_member_of(v, "pm2_env"@), "status"@))),
        restart: int_or_zero(i64_in(member_in(json_member_of(v, "pm2_env"@), "restart_time"@))),
        user: text_or_empty(str_in(member_in(json_member_of(v, "pm2_env"@), "username"@))),
        cpu_text: numtext_or_zero(numtext_in(member_in(json_member_of(v, "monit"@), "cpu"@))),
        mem: int_or_zero(i64_in(member_in(json_member_of(v, "monit"@), "memory"@))),
    }
}

/// Assembles one process record from whatever fields the status document
/// yielded: a missing or unparseable field becomes its zero value — the
/// empty string, zero, or the zero CPU text — and never fails the record.
pub fn record_from_fields(
    name: Option<String>,
    id: Option<i64>,
    pid: Option<i64>,
    uptime: Option<i64>,
    status: Option<String>,
    restart: Option<i64>,
    user: Option<String>,
    cpu_text: Option<String>,
    mem: Option<i64>,
) -> (r: ProcessRecord)
    ensures
        r@.name == (match name {
            Some(s) => s@,
            None => Seq::<char>::empty(),
        }),
        r@.id == (match id {
            Some(x) => x as int,
            None => 0int,
        }),
        r@.pid == (match pid {
            Some(x) => x as int,
            None => 0int,
        }),
        r@.uptime == (match uptime {
            Some(x) => x as int,
            None => 0int,
        }),
        r@.status == (match status {
            Some(s) => s@,
            None => Seq::<char>::empty(),
        }),
        r@.restart == (match restart {
            Some(x) => x as int,
            None => 0int,
        }),
        r@.user == (match user {
            Some(s) => s@,
            None => Seq::<char>::empty(),
        }),
        r@.cpu_text == (match cpu_text {
            Some(s) => s@,
            None => "0"@,
        }),
        r@.mem == (match mem {
            Some(x) => x as int,
            None => 0int,
        }),
{
    ProcessRecord {
        name: match name {
            Some(s) => s,
            None => String::new(),
        },
        id: match id {
            Some(x) => x,
            None => 0,
        },
        pid: match pid {
            Some(x) => x,
            None => 0,
        },
        uptime: match uptime {
            Some(x) => x,
            None => 0,
        },
        status: match status {
            Some(s) => s,
            None => String::new(),
        },
        restart: match restart {
            Some(x) => x,
            None => 0,
        },
        user: match user {
            Some(s) => s,
            None => String::new(),
        },
        cpu_text: match cpu_text {
            Some(s) => s,
            None => String::from_str("0"),
        },
        mem: match mem {
            Some(x) => x,
            None => 0,
        },
    }
}

/// Reads one record out of one element of the status array, defaulting
/// every field the element does not provide.
fn record_of_value(v: &serde_json::Value) -> (r: ProcessRecord)
    ensures
        r@ == record_view_of(*v),
{
    let name = match json_get(v, "name") {
        Some(x) => json_as_string(x),
        None => None,
    };
    let id = match json_get(v, "pm_id") {
        Some(x) => json_as_i64(x),
        None => None,
    };
    let pid = match json_get(v, "pid") {
        Some(x) => json_as_i64(x),
        None => None,
    };
    let mut uptime: Option<i64> = None;
    let mut status: Option<String> = None;
    let mut restart: Option<i64> = None;
    let mut user: Option<String> = None;
    if let Some(env) = json_get(v, "pm2_env") {
        uptime = match json_get(env, "pm_uptime") {
            Some(x) => json_as_i64(x),
            None => None,
        };
        status = match json_get(env, "status") {
            Some(x) => json_as_string(x),
            None => None,
        };
        restart = match json_get(env, "restart_time") {
            Some(x) => json_as_i64(x),
            None => None,
        };
        user = match json_get(env, "username") {
            Some(x) => json_as_string(x),
            None => None,
        };
    }
    let mut cpu_text: Option<String> = None;
    let mut mem: Option<i64> = None;
    if let Some(monit) = json_get(v, "monit") {
        cpu_text = match json_get(monit, "cpu") {
            Some(x) => json_number_text(x),
            None => None,
        };
        mem = match json_get(monit, "memory") {
            Some(x) => json_as_i64(x),
            None => None,
        };
    }
    record_from_fields(name, id, pid, uptime, status, restart, user, cpu_text, mem)
}

/// The external process supervisor whose status answers and log stream
/// this library normalizes.
pub struct PM2 {}

impl PM2 {
    /// Parses one status document into process records: one record per
    /// element of the top-level array, in the array's order, each field
    /// defaulting to its zero value where the element does not provide
    /// it; a valid document that is not an array yields no records; an
    /// invalid document yields `None`, and the caller skips the cycle.
    pub fn parse_jlist(doc: &str) -> (r: Option<Vec<ProcessRecord>>)
        ensures
            r is Some <==> json_text_ok(doc@),
            r matches Some(recs) ==> (match json_items_of(json_doc_of(doc@)) {
                Some(items) => recs@.len() == items.len() && (forall|i: int|
                    0 <= i < items.len() ==> (#[trigger] recs@[i])@ == record_view_of(items[i])),
                None => recs@.len() == 0,
            }),
    {
        let value = match parse_json_document(doc) {
            Some(v) => v,
            None => {
                return None;
            },
        };
        let mut records: Vec<ProcessRecord> = Vec::new();
        if let Some(items) = json_array_items(&value) {
            let mut i: usize = 0;
            let n = items.len();
            while i < n
                invariant
                    i <= n,
                    n == items@.len(),
                    json_items_of(json_doc_of(doc@)) == Some(items@),
                    records@.len() == i,
                    forall|k: int|
                        0 <= k < i ==> (#[trigger] records@[k])@ == record_view_of(items@[k]),
                decreases n - i,
            {
                records.push(record_of_value(&items[i]));
                i = i + 1;
            }
        }
        Some(records)
    }
}

} // verus!
