//! Parser for one line of the combined structured log stream.
//!
//! A well-formed line carries five ordered fields, each prefixed by its
//! key and delimited by single spaces:
//!
//! `timestamp=<ts> app=<app> id=<id> type=<ty> message=<msg>`
//!
//! The timestamp value must be at least 11 bytes (a date, one separator
//! byte, and a time-of-day); the first four values contain no space; the
//! message is the rest of the line and may contain anything. A line not of
//! this form is discarded: the parser returns `None` and never panics, so
//! one garbled line cannot take the ingestor down.

use vstd::prelude::*;
use vstd::slice::{slice_subrange, slice_to_vec};
use crate::event::{LogEvent, LogEventView};

verus! {

/// The bytes of `"timestamp="`.
pub open spec fn key_timestamp() -> Seq<u8> {
    seq![116u8, 105u8, 109u8, 101u8, 115u8, 116u8, 97u8, 109u8, 112u8, 61u8]
}

/// The bytes of `"app="`.
pub open spec fn key_app() -> Seq<u8> {
    seq![97u8, 112u8, 112u8, 61u8]
}

/// The bytes of `"id="`.
pub open spec fn key_id() -> Seq<u8> {
    seq![105u8, 100u8, 61u8]
}

/// The bytes of `"type="`.
pub open spec fn key_type() -> Seq<u8> {
    seq![116u8, 121u8, 112u8, 101u8, 61u8]
}

/// The bytes of `"message="`.
pub open spec fn key_message() -> Seq<u8> {
    seq![109u8, 101u8, 115u8, 115u8, 97u8, 103u8, 101u8, 61u8]
}

/// A single space byte.
pub open spec fn one_space() -> Seq<u8> {
    seq![32u8]
}

/// No byte of `s` is a space.
pub open spec fn no_space(s: Seq<u8>) -> bool {
    forall|i: int| 0 <= i < s.len() ==> s[i] != 32u8
}

/// `p` occurs in `s` starting at position `at`.
pub open spec fn prefix_at_spec(s: Seq<u8>, at: int, p: Seq<u8>) -> bool {
    &&& 0 <= at
    &&& at + p.len() <= s.len()
    &&& s.subrange(at, at + p.len()) == p
}

/// The displayed form of a raw timestamp value: its date (the first ten
/// bytes) and its time of day (everything past the eleventh byte), joined
/// by a single space in place of the separator byte between them.
pub open spec fn normalized_stamp(ts: Seq<u8>) -> Seq<u8>
    recommends
        (ts.len() as int) >= 11,
{
    ts.subrange(0, 10) + one_space() + ts.subrange(11, ts.len() as int)
}

/// `s` is exactly the line formed from the five field values: every field
/// is announced by its key, the first four values are space-free, and the
/// timestamp value is long enough to be split into date and time.
pub open spec fn line_form(
    s: Seq<u8>,
    ts: Seq<u8>,
    app: Seq<u8>,
    id: Seq<u8>,
    ty: Seq<u8>,
    msg: Seq<u8>,
) -> bool {
    &&& s == key_timestamp() + ts + one_space() + key_app() + app + one_space() + key_id() + id
        + one_space() + key_type() + ty + one_space() + key_message() + msg
    &&& no_space(ts)
    &&& no_space(app)
    &&& no_space(id)
    &&& no_space(ty)
    &&& (ts.len() as int) >= 11
}

/// `s` is a well-formed log line.
pub open spec fn wf_line(s: Seq<u8>) -> bool {
    exists|ts: Seq<u8>, app: Seq<u8>, id: Seq<u8>, ty: Seq<u8>, msg: Seq<u8>|
        line_form(s, ts, app, id, ty, msg)
}

/// The event that a line formed from these five field values parses to.
pub open spec fn formed_event(
    ts: Seq<u8>,
    app: Seq<u8>,
    id: Seq<u8>,
    ty: Seq<u8>,
    msg: Seq<u8>,
) -> LogEventView {
    LogEventView {
        app: app,
        process_id: id,
        message: msg,
        timestamp: normalized_stamp(ts),
        log_type: ty,
    }
}

proof fn lemma_cut(s: Seq<u8>, a: Seq<u8>, b: Seq<u8>)
    requires
        s == a + b,
    ensures
        a =~= s.subrange(0, a.len() as int),
        b =~= s.subrange(a.len() as int, s.len() as int),
        s.len() == a.len() + b.len(),
{
}

/// Every decomposition of a line fixes the positions of its four space
/// delimiters and the content of every field: each ensured fact locates
/// one key, one value, or one space of the line.
#[verifier::rlimit(100)]
proof fn lemma_form_determines(
    s: Seq<u8>,
    ts: Seq<u8>,
    app: Seq<u8>,
    id: Seq<u8>,
    ty: Seq<u8>,
    msg: Seq<u8>,
)
    requires
        line_form(s, ts, app, id, ty, msg),
    ensures
        s.len() == 34 + (ts.len() as int) + (app.len() as int) + (id.len() as int) + (ty.len() as int) + (msg.len() as int),
        prefix_at_spec(s, 0, key_timestamp()),
        ts == s.subrange(10, 10 + (ts.len() as int)),
        s[10 + (ts.len() as int)] == 32u8,
        prefix_at_spec(s, 11 + (ts.len() as int), key_app()),
        app == s.subrange(15 + (ts.len() as int), 15 + (ts.len() as int) + (app.len() as int)),
        s[15 + (ts.len() as int) + (app.len() as int)] == 32u8,
        prefix_at_spec(s, 16 + (ts.len() as int) + (app.len() as int), key_id()),
        id == s.subrange(19 + (ts.len() as int) + (app.len() as int), 19 + (ts.len() as int) + (app.len() as int) + (id.len() as int)),
        s[19 + (ts.len() as int) + (app.len() as int) + (id.len() as int)] == 32u8,
        prefix_at_spec(s, 20 + (ts.len() as int) + (app.len() as int) + (id.len() as int), key_type()),
        ty == s.subrange(
            25 + (ts.len() as int) + (app.len() as int) + (id.len() as int),
            25 + (ts.len() as int) + (app.len() as int) + (id.len() as int) + (ty.len() as int),
        ),
        s[25 + (ts.len() as int) + (app.len() as int) + (id.len() as int) + (ty.len() as int)] == 32u8,
        prefix_at_spec(s, 26 + (ts.len() as int) + (app.len() as int) + (id.len() as int) + (ty.len() as int), key_message()),
        msg == s.subrange(
            34 + (ts.len() as int) + (app.len() as int) + (id.len() as int) + (ty.len() as int),
            s.len() as int,
        ),
        forall|j: int| 10 <= j < 10 + (ts.len() as int) ==> s[j] != 32u8,
        forall|j: int|
            15 + (ts.len() as int) <= j < 15 + (ts.len() as int) + (app.len() as int) ==> s[j]
                != 32u8,
        forall|j: int|
            19 + (ts.len() as int) + (app.len() as int) <= j < 19 + (ts.len() as int) + (
            app.len() as int) + (id.len() as int) ==> s[j] != 32u8,
        forall|j: int|
            25 + (ts.len() as int) + (app.len() as int) + (id.len() as int) <= j < 25 + (
            ts.len() as int) + (app.len() as int) + (id.len() as int) + (ty.len() as int) ==> s[j]
                != 32u8,
{
    let c1 = key_timestamp() + ts;
    let c2 = c1 + one_space();
    let c3 = c2 + key_app();
    let c4 = c3 + app;
    let c5 = c4 + one_space();
    let c6 = c5 + key_id();
    let c7 = c6 + id;
    let c8 = c7 + one_space();
    let c9 = c8 + key_type();
    let c10 = c9 + ty;
    let c11 = c10 + one_space();
    let c12 = c11 + key_message();
    lemma_cut(s, c12, msg);
    assert(c12 =~= s.subrange(0, c12.len() as int));
    lemma_cut(c12, c11, key_message());
    assert(key_message() =~= s.subrange(c11.len() as int, c12.len() as int));
    lemma_cut(c11, c10, one_space());
    assert(s[c10.len() as int] == 32u8);
    lemma_cut(c10, c9, ty);
    assert(ty =~= s.subrange(c9.len() as int, c10.len() as int));
    lemma_cut(c9, c8, key_type());
    assert(key_type() =~= s.subrange(c8.len() as int, c9.len() as int));
    lemma_cut(c8, c7, one_space());
    assert(s[c7.len() as int] == 32u8);
    lemma_cut(c7, c6, id);
    assert(id =~= s.subrange(c6.len() as int, c7.len() as int));
    lemma_cut(c6, c5, key_id());
    assert(key_id() =~= s.subrange(c5.len() as int, c6.len() as int));
    lemma_cut(c5, c4, one_space());
    assert(s[c4.len() as int] == 32u8);
    lemma_cut(c4, c3, app);
    assert(app =~= s.subrange(c3.len() as int, c4.len() as int));
    lemma_cut(c3, c2, key_app());
    assert(key_app() =~= s.subrange(c2.len() as int, c3.len() as int));
    lemma_cut(c2, c1, one_space());
    assert(s[c1.len() as int] == 32u8);
    lemma_cut(c1, key_timestamp(), ts);
    assert(ts =~= s.subrange(10, c1.len() as int));
    assert(key_timestamp() =~= s.subrange(0, 10));

    // The field values contribute no space byte to the line.
    assert forall|j: int| 10 <= j < 10 + (ts.len() as int) implies s[j] != 32u8 by {
        assert(s[j] == ts[j - 10]);
    }
    assert forall|j: int|
        15 + (ts.len() as int) <= j < 15 + (ts.len() as int) + (app.len() as int) implies s[j]
        != 32u8 by {
        assert(s[j] == app[j - 15 - (ts.len() as int)]);
    }
    assert forall|j: int|
        19 + (ts.len() as int) + (app.len() as int) <= j < 19 + (ts.len() as int) + (
    app.len() as int) + (id.len() as int) implies s[j] != 32u8 by {
        assert(s[j] == id[j - 19 - (ts.len() as int) - (app.len() as int)]);
    }
    assert forall|j: int|
        25 + (ts.len() as int) + (app.len() as int) + (id.len() as int) <= j < 25 + (
    ts.len() as int) + (app.len() as int) + (id.len() as int) + (ty.len() as int) implies s[j]
        != 32u8 by {
        assert(s[j] == ty[j - 25 - (ts.len() as int) - (app.len() as int) - (id.len() as int)]);
    }
}

/// Returns the position of the first space byte at or after `from`, if any.
fn find_space_from(line: &[u8], from: usize) -> (r: Option<usize>)
    requires
        from <= line@.len(),
    ensures
        match r {
            Some(k) => {
                &&& from <= k < line@.len()
                &&& line@[k as int] == 32u8
                &&& forall|j: int| from <= j < k ==> line@[j] != 32u8
            },
            None => forall|j: int| from <= j < line@.len() ==> line@[j] != 32u8,
        },
{
    let mut i: usize = from;
    while i < line.len()
        invariant
            from <= i <= line@.len(),
            forall|j: int| from <= j < i ==> line@[j] != 32u8,
        decreases line@.len() - i,
    {
        if line[i] == 32u8 {
            return Some(i);
        }
        i = i + 1;
    }
    None
}

/// Whether `pat` occurs in `line` starting at position `at`.
fn match_at(line: &[u8], at: usize, pat: &[u8]) -> (b: bool)
    ensures
        b == prefix_at_spec(line@, at as int, pat@),
{
    let n = line.len();
    let m = pat.len();
    if at > n || n - at < m {
        return false;
    }
    let mut j: usize = 0;
    while j < m
        invariant
            n == line@.len(),
            m == pat@.len(),
            at + m <= n,
            j <= m,
            forall|k: int| 0 <= k < j ==> line@[at + k] == pat@[k],
        decreases m - j,
    {
        if line[at + j] != pat[j] {
            proof {
                assert(!prefix_at_spec(line@, at as int, pat@)) by {
                    if prefix_at_spec(line@, at as int, pat@) {
                        assert(line@.subrange(at as int, at + pat@.len())[j as int] == pat@[j as int]);
                    }
                }
            }
            return false;
        }
        j = j + 1;
    }
    proof {
        assert(line@.subrange(at as int, at + pat@.len()) =~= pat@);
    }
    true
}

/// Copies `line[from..to]` into a fresh vector.
fn copy_range(line: &[u8], from: usize, to: usize) -> (r: Vec<u8>)
    requires
        from <= to <= line@.len(),
    ensures
        r@ == line@.subrange(from as int, to as int),
{
    slice_to_vec(slice_subrange(line, from, to))
}

fn key_timestamp_bytes() -> (a: [u8; 10])
    ensures
        a@ == key_timestamp(),
{
    let a = [116u8, 105u8, 109u8, 101u8, 115u8, 116u8, 97u8, 109u8, 112u8, 61u8];
    proof {
        assert(a@ =~= key_timestamp());
    }
    a
}

fn key_app_bytes() -> (a: [u8; 4])
    ensures
        a@ == key_app(),
{
    let a = [97u8, 112u8, 112u8, 61u8];
    proof {
        assert(a@ =~= key_app());
    }
    a
}

fn key_id_bytes() -> (a: [u8; 3])
    ensures
        a@ == key_id(),
{
    let a = [105u8, 100u8, 61u8];
    proof {
        assert(a@ =~= key_id());
    }
    a
}

fn key_type_bytes() -> (a: [u8; 5])
    ensures
        a@ == key_type(),
{
    let a = [116u8, 121u8, 112u8, 101u8, 61u8];
    proof {
        assert(a@ =~= key_type());
    }
    a
}

fn key_message_bytes() -> (a: [u8; 8])
    ensures
        a@ == key_message(),
{
    let a = [109u8, 101u8, 115u8, 115u8, 97u8, 103u8, 101u8, 61u8];
    proof {
        assert(a@ =~= key_message());
    }
    a
}

/// A line on which the exec parser's checks all succeed, with delimiter
/// spaces at `i1` to `i4`, is formed from its subranges between the keys.
#[verifier::rlimit(100)]
proof fn lemma_assemble_form(s: Seq<u8>, i1: int, i2: int, i3: int, i4: int)
    requires
        prefix_at_spec(s, 0, key_timestamp()),
        21 <= i1 < s.len(),
        s[i1] == 32u8,
        forall|j: int| 10 <= j < i1 ==> s[j] != 32u8,
        prefix_at_spec(s, i1 + 1, key_app()),
        i1 + 5 <= i2 < s.len(),
        s[i2] == 32u8,
        forall|j: int| i1 + 5 <= j < i2 ==> s[j] != 32u8,
        prefix_at_spec(s, i2 + 1, key_id()),
        i2 + 4 <= i3 < s.len(),
        s[i3] == 32u8,
        forall|j: int| i2 + 4 <= j < i3 ==> s[j] != 32u8,
        prefix_at_spec(s, i3 + 1, key_type()),
        i3 + 6 <= i4 < s.len(),
        s[i4] == 32u8,
        forall|j: int| i3 + 6 <= j < i4 ==> s[j] != 32u8,
        prefix_at_spec(s, i4 + 1, key_message()),
    ensures
        line_form(
            s,
            s.subrange(10, i1),
            s.subrange(i1 + 5, i2),
            s.subrange(i2 + 4, i3),
            s.subrange(i3 + 6, i4),
            s.subrange(i4 + 9, s.len() as int),
        ),
{
    let tsv = s.subrange(10, i1);
    let appv = s.subrange(i1 + 5, i2);
    let idv = s.subrange(i2 + 4, i3);
    let tyv = s.subrange(i3 + 6, i4);
    let msgv = s.subrange(i4 + 9, s.len() as int);

    // The pieces reassemble the whole line, prefix by prefix.
    let c1 = key_timestamp() + tsv;
    assert(c1 =~= s.subrange(0, i1));
    let c2 = c1 + one_space();
    assert(c2 =~= s.subrange(0, i1 + 1));
    let c3 = c2 + key_app();
    assert(c3 =~= s.subrange(0, i1 + 5));
    let c4 = c3 + appv;
    assert(c4 =~= s.subrange(0, i2));
    let c5 = c4 + one_space();
    assert(c5 =~= s.subrange(0, i2 + 1));
    let c6 = c5 + key_id();
    assert(c6 =~= s.subrange(0, i2 + 4));
    let c7 = c6 + idv;
    assert(c7 =~= s.subrange(0, i3));
    let c8 = c7 + one_space();
    assert(c8 =~= s.subrange(0, i3 + 1));
    let c9 = c8 + key_type();
    assert(c9 =~= s.subrange(0, i3 + 6));
    let c10 = c9 + tyv;
    assert(c10 =~= s.subrange(0, i4));
    let c11 = c10 + one_space();
    assert(c11 =~= s.subrange(0, i4 + 1));
    let c12 = c11 + key_message();
    assert(c12 =~= s.subrange(0, i4 + 9));
    assert(c12 + msgv =~= s);
    assert(line_form(s, tsv, appv, idv, tyv, msgv));
}

/// Every decomposition of a line whose delimiter spaces stand at `i1` to
/// `i4` names exactly the subranges between the keys.
#[verifier::rlimit(100)]
proof fn lemma_assemble_unique(s: Seq<u8>, i1: int, i2: int, i3: int, i4: int)
    requires
        10 <= i1,
        s[i1] == 32u8,
        forall|j: int| 10 <= j < i1 ==> s[j] != 32u8,
        i1 + 5 <= i2,
        s[i2] == 32u8,
        forall|j: int| i1 + 5 <= j < i2 ==> s[j] != 32u8,
        i2 + 4 <= i3,
        s[i3] == 32u8,
        forall|j: int| i2 + 4 <= j < i3 ==> s[j] != 32u8,
        i3 + 6 <= i4,
        i4 < s.len(),
        s[i4] == 32u8,
        forall|j: int| i3 + 6 <= j < i4 ==> s[j] != 32u8,
    ensures
        forall|ts2: Seq<u8>, app2: Seq<u8>, id2: Seq<u8>, ty2: Seq<u8>, msg2: Seq<u8>|
            #[trigger] line_form(s, ts2, app2, id2, ty2, msg2) ==> {
                &&& ts2 == s.subrange(10, i1)
                &&& app2 == s.subrange(i1 + 5, i2)
                &&& id2 == s.subrange(i2 + 4, i3)
                &&& ty2 == s.subrange(i3 + 6, i4)
                &&& msg2 == s.subrange(i4 + 9, s.len() as int)
            },
{
    assert forall|ts2: Seq<u8>, app2: Seq<u8>, id2: Seq<u8>, ty2: Seq<u8>, msg2: Seq<u8>|
        #[trigger] line_form(s, ts2, app2, id2, ty2, msg2) implies {
        &&& ts2 == s.subrange(10, i1)
        &&& app2 == s.subrange(i1 + 5, i2)
        &&& id2 == s.subrange(i2 + 4, i3)
        &&& ty2 == s.subrange(i3 + 6, i4)
        &&& msg2 == s.subrange(i4 + 9, s.len() as int)
    } by {
        lemma_form_determines(s, ts2, app2, id2, ty2, msg2);
        assert(i1 == 10 + (ts2.len() as int));
        assert(i2 == 15 + (ts2.len() as int) + (app2.len() as int));
        assert(i3 == 19 + (ts2.len() as int) + (app2.len() as int) + (id2.len() as int));
        assert(i4 == 25 + (ts2.len() as int) + (app2.len() as int) + (id2.len() as int) + (
        ty2.len() as int));
    }
}

/// Parses one log line. Returns the event exactly when the line is
/// well-formed; any malformed line is rejected with `None`, never a panic.
pub fn parse_log_line(line: &[u8]) -> (r: Option<LogEvent>)
    ensures
        r is Some <==> wf_line(line@),
        forall|ts: Seq<u8>, app: Seq<u8>, id: Seq<u8>, ty: Seq<u8>, msg: Seq<u8>|
            #[trigger] line_form(line@, ts, app, id, ty, msg) ==> (r matches Some(e) && e@
                == formed_event(ts, app, id, ty, msg)),
{
    let n = line.len();
    let k_ts = key_timestamp_bytes();
    let k_app = key_app_bytes();
    let k_id = key_id_bytes();
    let k_ty = key_type_bytes();
    let k_msg = key_message_bytes();

    if !match_at(line, 0, k_ts.as_slice()) {
        proof {
            reject_no_timestamp_key(line@);
        }
        return None;
    }
    let i1 = match find_space_from(line, 10) {
        Some(k) => k,
        None => {
            proof {
                reject_head_no_space(line@);
            }
            return None;
        },
    };
    if i1 < 21 {
        proof {
            reject_short_stamp(line@, i1 as int);
        }
        return None;
    }
    if !match_at(line, i1 + 1, k_app.as_slice()) {
        proof {
            reject_bad_key(line@, i1 as int, i1 as int, i1 as int, 0);
        }
        return None;
    }
    let i2 = match find_space_from(line, i1 + 5) {
        Some(k) => k,
        None => {
            proof {
                reject_no_more_space(line@, i1 as int, i1 as int, i1 as int, 1);
            }
            return None;
        },
    };
    if !match_at(line, i2 + 1, k_id.as_slice()) {
        proof {
            reject_bad_key(line@, i1 as int, i2 as int, i2 as int, 1);
        }
        return None;
    }
    let i3 = match find_space_from(line, i2 + 4) {
        Some(k) => k,
        None => {
            proof {
                reject_no_more_space(line@, i1 as int, i2 as int, i2 as int, 2);
            }
            return None;
        },
    };
    if !match_at(line, i3 + 1, k_ty.as_slice()) {
        proof {
            reject_bad_key(line@, i1 as int, i2 as int, i3 as int, 2);
        }
        return None;
    }
    let i4 = match find_space_from(line, i3 + 6) {
        Some(k) => k,
        None => {
            proof {
                reject_no_more_space(line@, i1 as int, i2 as int, i3 as int, 3);
            }
            return None;
        },
    };
    if !match_at(line, i4 + 1, k_msg.as_slice()) {
        proof {
            reject_bad_key(line@, i1 as int, i2 as int, i3 as int, 3);
        }
        return None;
    }

    let app = copy_range(line, i1 + 5, i2);
    let pid = copy_range(line, i2 + 4, i3);
    let ty = copy_range(line, i3 + 6, i4);
    let msg = copy_range(line, i4 + 9, n);
    let mut stamp = copy_range(line, 10, 20);
    stamp.push(32u8);
    let mut time_part = copy_range(line, 21, i1);
    stamp.append(&mut time_part);

    let event = LogEvent {
        app: app,
        process_id: pid,
        message: msg,
        timestamp: stamp,
        log_type: ty,
    };

    proof {
        let s = line@;
        let tsv = s.subrange(10, i1 as int);
        lemma_assemble_form(s, i1 as int, i2 as int, i3 as int, i4 as int);
        lemma_assemble_unique(s, i1 as int, i2 as int, i3 as int, i4 as int);
        assert(wf_line(s));
        assert(event@.timestamp =~= normalized_stamp(tsv));

        // Any decomposition names the pieces the parser extracted.
        assert forall|ts2: Seq<u8>, app2: Seq<u8>, id2: Seq<u8>, ty2: Seq<u8>, msg2: Seq<u8>|
            #[trigger] line_form(s, ts2, app2, id2, ty2, msg2) implies event@ == formed_event(
            ts2,
            app2,
            id2,
            ty2,
            msg2,
        ) by {
            assert(ts2 == tsv);
            assert(event@.timestamp == normalized_stamp(ts2));
        }
    }
    Some(event)
}

/// A line whose head is not the timestamp key is not well-formed.
#[verifier::rlimit(100)]
proof fn reject_no_timestamp_key(s: Seq<u8>)
    requires
        !prefix_at_spec(s, 0, key_timestamp()),
    ensures
        !wf_line(s),
{
    if wf_line(s) {
        let (ts, app, id, ty, msg) = choose|ts: Seq<u8>, app: Seq<u8>, id: Seq<u8>, ty: Seq<u8>, msg: Seq<u8>|
            line_form(s, ts, app, id, ty, msg);
        lemma_form_determines(s, ts, app, id, ty, msg);
    }
}

/// A line with no space at or after position 10 is not well-formed: a
/// well-formed line has its first delimiter space past its timestamp value.
#[verifier::rlimit(100)]
proof fn reject_head_no_space(s: Seq<u8>)
    requires
        forall|j: int| 10 <= j < s.len() ==> s[j] != 32u8,
    ensures
        !wf_line(s),
{
    if wf_line(s) {
        let (ts, app, id, ty, msg) = choose|ts: Seq<u8>, app: Seq<u8>, id: Seq<u8>, ty: Seq<u8>, msg: Seq<u8>|
            line_form(s, ts, app, id, ty, msg);
        lemma_form_determines(s, ts, app, id, ty, msg);
        assert(s[10 + (ts.len() as int)] == 32u8);
    }
}

/// A line with no space left after an already-located delimiter is not
/// well-formed: each of the four delimiters of a well-formed line is
/// followed by one more, until the last. The exec parser has located the
/// first `stage` delimiter spaces at `i1`, `i2` and `i3` (unused trailing
/// arguments repeat the last found) and found no space after the key that
/// follows the last of them.
#[verifier::rlimit(100)]
proof fn reject_no_more_space(s: Seq<u8>, i1: int, i2: int, i3: int, stage: int)
    requires
        10 <= i1 < s.len(),
        s[i1] == 32u8,
        forall|j: int| 10 <= j < i1 ==> s[j] != 32u8,
        prefix_at_spec(s, i1 + 1, key_app()),
        stage == 1 ==> forall|j: int| i1 + 5 <= j < s.len() ==> s[j] != 32u8,
        stage >= 2 ==> {
            &&& i1 + 5 <= i2 < s.len()
            &&& s[i2] == 32u8
            &&& (forall|j: int| i1 + 5 <= j < i2 ==> s[j] != 32u8)
            &&& prefix_at_spec(s, i2 + 1, key_id())
        },
        stage == 2 ==> forall|j: int| i2 + 4 <= j < s.len() ==> s[j] != 32u8,
        stage == 3 ==> {
            &&& i2 + 4 <= i3 < s.len()
            &&& s[i3] == 32u8
            &&& (forall|j: int| i2 + 4 <= j < i3 ==> s[j] != 32u8)
            &&& prefix_at_spec(s, i3 + 1, key_type())
            &&& (forall|j: int| i3 + 6 <= j < s.len() ==> s[j] != 32u8)
        },
        1 <= stage <= 3,
    ensures
        !wf_line(s),
{
    if wf_line(s) {
        let (ts, app, id, ty, msg) = choose|ts: Seq<u8>, app: Seq<u8>, id: Seq<u8>, ty: Seq<u8>, msg: Seq<u8>|
            line_form(s, ts, app, id, ty, msg);
        lemma_form_determines(s, ts, app, id, ty, msg);
        assert(i1 == 10 + (ts.len() as int));
        if stage >= 2 {
            assert(i2 == 15 + (ts.len() as int) + (app.len() as int));
        }
        if stage == 3 {
            assert(i3 == 19 + (ts.len() as int) + (app.len() as int) + (id.len() as int));
        }
        if stage == 1 {
            assert(s[15 + (ts.len() as int) + (app.len() as int)] == 32u8);
        }
        if stage == 2 {
            assert(s[19 + (ts.len() as int) + (app.len() as int) + (id.len() as int)] == 32u8);
        }
        if stage == 3 {
            assert(s[25 + (ts.len() as int) + (app.len() as int) + (id.len() as int) + (ty.len() as int)] == 32u8);
        }
    }
}

/// A first space before position 21 leaves no room for an eleven-byte
/// timestamp value, so the line is not well-formed.
#[verifier::rlimit(100)]
proof fn reject_short_stamp(s: Seq<u8>, i1: int)
    requires
        10 <= i1 < s.len(),
        s[i1] == 32u8,
        forall|j: int| 10 <= j < i1 ==> s[j] != 32u8,
        i1 < 21,
    ensures
        !wf_line(s),
{
    if wf_line(s) {
        let (ts, app, id, ty, msg) = choose|ts: Seq<u8>, app: Seq<u8>, id: Seq<u8>, ty: Seq<u8>, msg: Seq<u8>|
            line_form(s, ts, app, id, ty, msg);
        lemma_form_determines(s, ts, app, id, ty, msg);
        assert(i1 == 10 + (ts.len() as int));
    }
}

/// The delimiter spaces of a well-formed line are followed by the keys of
/// its later fields, so a missing key after a delimiter rejects the line.
/// The exec parser has located the first `stage + 1` delimiter spaces at
/// `i1`, `i2` and `i3` (unused trailing ones repeat the last found); the
/// key check after the delimiter of stage `stage` failed.
#[verifier::rlimit(100)]
proof fn reject_bad_key(s: Seq<u8>, i1: int, i2: int, i3: int, stage: int)
    requires
        10 <= i1 < s.len(),
        s[i1] == 32u8,
        forall|j: int| 10 <= j < i1 ==> s[j] != 32u8,
        stage == 0 ==> !prefix_at_spec(s, i1 + 1, key_app()),
        stage >= 1 ==> {
            &&& prefix_at_spec(s, i1 + 1, key_app())
            &&& i1 + 5 <= i2 < s.len()
            &&& s[i2] == 32u8
            &&& forall|j: int| i1 + 5 <= j < i2 ==> s[j] != 32u8
        },
        stage == 1 ==> !prefix_at_spec(s, i2 + 1, key_id()),
        stage >= 2 ==> {
            &&& prefix_at_spec(s, i2 + 1, key_id())
            &&& i2 + 4 <= i3 < s.len()
            &&& s[i3] == 32u8
            &&& forall|j: int| i2 + 4 <= j < i3 ==> s[j] != 32u8
        },
        stage == 2 ==> !prefix_at_spec(s, i3 + 1, key_type()),
        stage == 3 ==> {
            &&& prefix_at_spec(s, i3 + 1, key_type())
            &&& exists|i4: int|
                {
                    &&& i3 + 6 <= i4 < s.len()
                    &&& s[i4] == 32u8
                    &&& (forall|j: int| i3 + 6 <= j < i4 ==> s[j] != 32u8)
                    &&& !prefix_at_spec(s, i4 + 1, key_message())
                }
        },
        0 <= stage <= 3,
    ensures
        !wf_line(s),
{
    if wf_line(s) {
        let (ts, app, id, ty, msg) = choose|ts: Seq<u8>, app: Seq<u8>, id: Seq<u8>, ty: Seq<u8>, msg: Seq<u8>|
            line_form(s, ts, app, id, ty, msg);
        lemma_form_determines(s, ts, app, id, ty, msg);
        assert(i1 == 10 + (ts.len() as int));
        if stage >= 1 {
            assert(i2 == 15 + (ts.len() as int) + (app.len() as int));
        }
        if stage >= 2 {
            assert(i3 == 19 + (ts.len() as int) + (app.len() as int) + (id.len() as int));
        }
        if stage == 3 {
            let i4 = choose|i4: int|
                {
                    &&& i3 + 6 <= i4 < s.len()
                    &&& s[i4] == 32u8
                    &&& (forall|j: int| i3 + 6 <= j < i4 ==> s[j] != 32u8)
                    &&& !prefix_at_spec(s, i4 + 1, key_message())
                };
            assert(i4 == 25 + (ts.len() as int) + (app.len() as int) + (id.len() as int) + (ty.len() as int));
        }
    }
}

} // verus!
