//! The JSON form of a `Status`, as served by the status endpoint.
//!
//! A status is encoded as one JSON object with the four counters and
//! the three optional timestamps, the latter as epoch milliseconds or
//! `null`. `spec_status_json` fixes the encoding; `render_status_json`
//! produces it and `parse_status_json` reads it back, each against an
//! exact specification. `lemma_status_json_round_trip` states that
//! parsing undoes rendering.

use vstd::prelude::*;

use crate::decimal::dec_rep;
use crate::decimal::dec_rep_int;
use crate::decimal::i64_to_dec;
use crate::decimal::is_digit;
use crate::decimal::lemma_dec_rep_props;
use crate::decimal::lemma_parse_i64_dec_rep;
use crate::decimal::lemma_parse_u64_dec_rep;
use crate::decimal::parse_i64_at;
use crate::decimal::parse_u64_at;
use crate::decimal::spec_parse_i64_at;
use crate::decimal::spec_parse_u64_at;
use crate::decimal::u64_to_dec;
use crate::status::Status;
use crate::status::StatusView;

verus! {

/// JSON text of an optional timestamp: the number, or `null`.
pub open spec fn spec_opt_ts_json(t: Option<int>) -> Seq<char> {
    match t {
        None => "null"@,
        Some(ts) => dec_rep_int(ts),
    }
}

/// The JSON object encoding a status. The concatenation associates to
/// the right, so that each suffix of the encoding is itself a term the
/// round-trip proof can step through.
pub open spec fn spec_status_json(v: StatusView) -> Seq<char> {
    "{\"txs_committed\":"@ + (dec_rep(v.committed) + (",\"txs_rejected\":"@ + (dec_rep(v.rejected)
        + (",\"txs_sent\":"@ + (dec_rep(v.sent) + (",\"txs_unknown\":"@ + (dec_rep(v.unknown)
        + (",\"latest_committed_transaction\":"@ + (spec_opt_ts_json(v.latest_committed)
        + (",\"latest_rejected_transaction\":"@ + (spec_opt_ts_json(v.latest_rejected)
        + (",\"latest_sent_at\":"@ + (spec_opt_ts_json(v.latest_sent) + "}"@)))))))))))))
}

/// Whether the literal `lit` stands at position `i` of `s`; on success
/// the position just past it.
pub open spec fn spec_expect(s: Seq<char>, i: int, lit: Seq<char>) -> Option<int> {
    if 0 <= i && i + lit.len() <= s.len() && s.subrange(i, i + lit.len()) == lit {
        Some(i + lit.len())
    } else {
        None
    }
}

/// What parsing an optional timestamp at position `i` returns: `null`,
/// or a signed number.
pub open spec fn spec_parse_opt_ts(s: Seq<char>, i: int) -> Option<(Option<int>, int)> {
    match spec_expect(s, i, "null"@) {
        Some(j) => Some((None, j)),
        None => match spec_parse_i64_at(s, i) {
            Some((t, j)) => Some((Some(t as int), j)),
            None => None,
        },
    }
}

/// What parsing a counter at position `i` returns: an unsigned number
/// that a `usize` can hold.
pub open spec fn spec_parse_counter(s: Seq<char>, i: int) -> Option<(u64, int)> {
    match spec_parse_u64_at(s, i) {
        Some((v, j)) => if v <= usize::MAX as u64 {
            Some((v, j))
        } else {
            None
        },
        None => None,
    }
}

/// What parsing a whole status object returns, for every input: the
/// decoded status exactly when the input is the canonical encoding of
/// one, and nothing otherwise. Each field hands over to the next, so
/// a reader and the round-trip proof can follow one field at a time.
pub open spec fn spec_parse_status_json(s: Seq<char>) -> Option<StatusView> {
    match spec_expect(s, 0, "{\"txs_committed\":"@) {
        None => None,
        Some(i) => spec_parse_from_committed(s, i),
    }
}

/// The committed counter and everything after it.
pub open spec fn spec_parse_from_committed(s: Seq<char>, i: int) -> Option<StatusView> {
    match spec_parse_counter(s, i) {
        None => None,
        Some((committed, j)) => spec_parse_from_rejected(s, j, committed),
    }
}

/// The rejected counter and everything after it.
pub open spec fn spec_parse_from_rejected(s: Seq<char>, i: int, committed: u64) -> Option<
    StatusView,
> {
    match spec_expect(s, i, ",\"txs_rejected\":"@) {
        None => None,
        Some(j) => match spec_parse_counter(s, j) {
            None => None,
            Some((rejected, k)) => spec_parse_from_sent(s, k, committed, rejected),
        },
    }
}

/// The sent counter and everything after it.
pub open spec fn spec_parse_from_sent(
    s: Seq<char>,
    i: int,
    committed: u64,
    rejected: u64,
) -> Option<StatusView> {
    match spec_expect(s, i, ",\"txs_sent\":"@) {
        None => None,
        Some(j) => match spec_parse_counter(s, j) {
            None => None,
            Some((sent, k)) => spec_parse_from_unknown(s, k, committed, rejected, sent),
        },
    }
}

/// The unknown counter and everything after it.
pub open spec fn spec_parse_from_unknown(
    s: Seq<char>,
    i: int,
    committed: u64,
    rejected: u64,
    sent: u64,
) -> Option<StatusView> {
    match spec_expect(s, i, ",\"txs_unknown\":"@) {
        None => None,
        Some(j) => match spec_parse_counter(s, j) {
            None => None,
            Some((unknown, k)) => spec_parse_status_tail(s, k, committed, rejected, sent, unknown),
        },
    }
}

/// The timestamp fields and the closing brace of the status object.
pub open spec fn spec_parse_status_tail(
    s: Seq<char>,
    i: int,
    committed: u64,
    rejected: u64,
    sent: u64,
    unknown: u64,
) -> Option<StatusView> {
    match spec_expect(s, i, ",\"latest_committed_transaction\":"@) {
        None => None,
        Some(i9) => match spec_parse_opt_ts(s, i9) {
            None => None,
            Some((latest_committed, i10)) => match spec_expect(
                s,
                i10,
                ",\"latest_rejected_transaction\":"@,
            ) {
                None => None,
                Some(i11) => match spec_parse_opt_ts(s, i11) {
                    None => None,
                    Some((latest_rejected, i12)) => match spec_expect(
                        s,
                        i12,
                        ",\"latest_sent_at\":"@,
                    ) {
                        None => None,
                        Some(i13) => match spec_parse_opt_ts(s, i13) {
                            None => None,
                            Some((latest_sent, i14)) => match spec_expect(s, i14, "}"@) {
                                None => None,
                                Some(i15) => if i15 == s.len() {
                                    Some(
                                        StatusView {
                                            committed: committed as nat,
                                            rejected: rejected as nat,
                                            sent: sent as nat,
                                            unknown: unknown as nat,
                                            latest_committed,
                                            latest_rejected,
                                            latest_sent,
                                        },
                                    )
                                } else {
                                    None
                                },
                            },
                        },
                    },
                },
            },
        },
    }
}

/// Append the JSON text of an optional timestamp.
fn append_opt_ts(out: &mut String, t: Option<i64>)
    ensures
        final(out)@ == old(out)@ + spec_opt_ts_json(
            match t {
                None => None,
                Some(ts) => Some(ts as int),
            },
        ),
{
    match t {
        None => out.append("null"),
        Some(ts) => {
            let rendered = i64_to_dec(ts);
            out.append(rendered.as_str());
        },
    }
}

/// A sequence is its own subrange over its whole extent.
proof fn lemma_subrange_whole(s: Seq<char>)
    ensures
        s.subrange(0, s.len() as int) == s,
{
    assert(s.subrange(0, s.len() as int) =~= s);
}

/// Concatenation of sequences associates.
proof fn lemma_concat_assoc(a: Seq<char>, b: Seq<char>, c: Seq<char>)
    ensures
        (a + b) + c == a + (b + c),
{
    assert((a + b) + c =~= a + (b + c));
}

/// Render a status as its canonical JSON object.
pub fn render_status_json(status: &Status) -> (r: String)
    ensures
        r@ == spec_status_json(status@),
{
    let mut out = String::new();
    out.append("{\"txs_committed\":");
    let committed = u64_to_dec(status.committed_count() as u64);
    out.append(committed.as_str());
    out.append(",\"txs_rejected\":");
    let rejected = u64_to_dec(status.rejected_count() as u64);
    out.append(rejected.as_str());
    out.append(",\"txs_sent\":");
    let sent = u64_to_dec(status.sent_count() as u64);
    out.append(sent.as_str());
    out.append(",\"txs_unknown\":");
    let unknown = u64_to_dec(status.unknown_count() as u64);
    out.append(unknown.as_str());
    out.append(",\"latest_committed_transaction\":");
    append_opt_ts(&mut out, status.latest_committed_millis());
    out.append(",\"latest_rejected_transaction\":");
    append_opt_ts(&mut out, status.latest_rejected_millis());
    out.append(",\"latest_sent_at\":");
    append_opt_ts(&mut out, status.latest_sent_millis());
    out.append("}");
    proof {
        let e = Seq::<char>::empty();
        let l1 = "{\"txs_committed\":"@;
        let l2 = ",\"txs_rejected\":"@;
        let l3 = ",\"txs_sent\":"@;
        let l4 = ",\"txs_unknown\":"@;
        let l5 = ",\"latest_committed_transaction\":"@;
        let l6 = ",\"latest_rejected_transaction\":"@;
        let l7 = ",\"latest_sent_at\":"@;
        let l8 = "}"@;
        let d1 = dec_rep(status@.committed);
        let d2 = dec_rep(status@.rejected);
        let d3 = dec_rep(status@.sent);
        let d4 = dec_rep(status@.unknown);
        let t1 = spec_opt_ts_json(status@.latest_committed);
        let t2 = spec_opt_ts_json(status@.latest_rejected);
        let t3 = spec_opt_ts_json(status@.latest_sent);
        let p1 = e + l1;
        let p2 = p1 + d1;
        let p3 = p2 + l2;
        let p4 = p3 + d2;
        let p5 = p4 + l3;
        let p6 = p5 + d3;
        let p7 = p6 + l4;
        let p8 = p7 + d4;
        let p9 = p8 + l5;
        let p10 = p9 + t1;
        let p11 = p10 + l6;
        let p12 = p11 + t2;
        let p13 = p12 + l7;
        let p14 = p13 + t3;
        assert(out@ == p14 + l8);
        let q14 = t3 + l8;
        lemma_concat_assoc(p13, t3, l8);
        let q13 = l7 + q14;
        lemma_concat_assoc(p12, l7, q14);
        let q12 = t2 + q13;
        lemma_concat_assoc(p11, t2, q13);
        let q11 = l6 + q12;
        lemma_concat_assoc(p10, l6, q12);
        let q10 = t1 + q11;
        lemma_concat_assoc(p9, t1, q11);
        let q9 = l5 + q10;
        lemma_concat_assoc(p8, l5, q10);
        let q8 = d4 + q9;
        lemma_concat_assoc(p7, d4, q9);
        let q7 = l4 + q8;
        lemma_concat_assoc(p6, l4, q8);
        let q6 = d3 + q7;
        lemma_concat_assoc(p5, d3, q7);
        let q5 = l3 + q6;
        lemma_concat_assoc(p4, l3, q6);
        let q4 = d2 + q5;
        lemma_concat_assoc(p3, d2, q5);
        let q3 = l2 + q4;
        lemma_concat_assoc(p2, l2, q4);
        let q2 = d1 + q3;
        lemma_concat_assoc(p1, d1, q3);
        let q1 = l1 + q2;
        lemma_concat_assoc(e, l1, q2);
        assert(e + q1 =~= q1);
        assert(out@ == q1);
        assert(q1 == spec_status_json(status@));
    }
    out
}

/// Whether the literal `lit` stands at position `i` of `s`; mirrors
/// `spec_expect`.
fn expect_lit(s: &str, n: usize, i: usize, lit: &str) -> (r: Option<usize>)
    requires
        n == s@.len(),
        i <= n,
    ensures
        (match r {
            None => spec_expect(s@, i as int, lit@) is None,
            Some(j) => spec_expect(s@, i as int, lit@) == Some(j as int) && i <= j <= n,
        }),
{
    let m = lit.unicode_len();
    if m > n - i {
        assert(spec_expect(s@, i as int, lit@) is None);
        return None;
    }
    let mut k: usize = 0;
    while k < m
        invariant
            0 <= k <= m,
            i + m <= n,
            n == s@.len(),
            m == lit@.len(),
            forall|q: int| 0 <= q < k ==> s@[i + q] == lit@[q],
        decreases m - k,
    {
        let sc = s.get_char(i + k);
        let lc = lit.get_char(k);
        if sc != lc {
            proof {
                let sub = s@.subrange(i as int, i + lit@.len());
                assert(sub[k as int] != lit@[k as int]);
                assert(sub != lit@);
            }
            return None;
        }
        k = k + 1;
    }
    proof {
        assert(s@.subrange(i as int, i + lit@.len()) =~= lit@);
    }
    Some(i + m)
}

/// Parse an optional timestamp; mirrors `spec_parse_opt_ts`.
fn parse_opt_ts(s: &str, n: usize, i: usize) -> (r: Option<(Option<i64>, usize)>)
    requires
        n == s@.len(),
        i <= n,
    ensures
        (match r {
            None => spec_parse_opt_ts(s@, i as int) is None,
            Some(p) => spec_parse_opt_ts(s@, i as int) == Some(
                (
                    match p.0 {
                        None => None,
                        Some(ts) => Some(ts as int),
                    },
                    p.1 as int,
                ),
            ) && i <= p.1 <= n,
        }),
{
    match expect_lit(s, n, i, "null") {
        Some(j) => Some((None, j)),
        None => match parse_i64_at(s, n, i) {
            Some((t, j)) => Some((Some(t), j)),
            None => None,
        },
    }
}

/// Parse a counter; mirrors `spec_parse_counter`.
fn parse_counter(s: &str, n: usize, i: usize) -> (r: Option<(usize, usize)>)
    requires
        n == s@.len(),
        i <= n,
    ensures
        (match r {
            None => spec_parse_counter(s@, i as int) is None,
            Some(p) => spec_parse_counter(s@, i as int) == Some((p.0 as u64, p.1 as int)) && i
                <= p.1 <= n,
        }),
{
    match parse_u64_at(s, n, i) {
        Some((v, j)) => {
            if v <= usize::MAX as u64 {
                Some((v as usize, j))
            } else {
                None
            }
        },
        None => None,
    }
}

/// Parse the canonical JSON object of a status; returns the status it
/// encodes, or nothing when the input is not such an encoding.
pub fn parse_status_json(s: &str) -> (r: Option<Status>)
    ensures
        (match r {
            None => spec_parse_status_json(s@) is None,
            Some(st) => spec_parse_status_json(s@) == Some(st@),
        }),
{
    let n = s.unicode_len();
    let i1 = match expect_lit(s, n, 0, "{\"txs_committed\":") {
        Some(j) => j,
        None => {
            return None;
        },
    };
    let (committed, i2) = match parse_counter(s, n, i1) {
        Some(p) => p,
        None => {
            return None;
        },
    };
    let i3 = match expect_lit(s, n, i2, ",\"txs_rejected\":") {
        Some(j) => j,
        None => {
            return None;
        },
    };
    let (rejected, i4) = match parse_counter(s, n, i3) {
        Some(p) => p,
        None => {
            return None;
        },
    };
    let i5 = match expect_lit(s, n, i4, ",\"txs_sent\":") {
        Some(j) => j,
        None => {
            return None;
        },
    };
    let (sent, i6) = match parse_counter(s, n, i5) {
        Some(p) => p,
        None => {
            return None;
        },
    };
    let i7 = match expect_lit(s, n, i6, ",\"txs_unknown\":") {
        Some(j) => j,
        None => {
            return None;
        },
    };
    let (unknown, i8) = match parse_counter(s, n, i7) {
        Some(p) => p,
        None => {
            return None;
        },
    };
    let i9 = match expect_lit(s, n, i8, ",\"latest_committed_transaction\":") {
        Some(j) => j,
        None => {
            return None;
        },
    };
    let (latest_committed, i10) = match parse_opt_ts(s, n, i9) {
        Some(p) => p,
        None => {
            return None;
        },
    };
    let i11 = match expect_lit(s, n, i10, ",\"latest_rejected_transaction\":") {
        Some(j) => j,
        None => {
            return None;
        },
    };
    let (latest_rejected, i12) = match parse_opt_ts(s, n, i11) {
        Some(p) => p,
        None => {
            return None;
        },
    };
    let i13 = match expect_lit(s, n, i12, ",\"latest_sent_at\":") {
        Some(j) => j,
        None => {
            return None;
        },
    };
    let (latest_sent, i14) = match parse_opt_ts(s, n, i13) {
        Some(p) => p,
        None => {
            return None;
        },
    };
    let i15 = match expect_lit(s, n, i14, "}") {
        Some(j) => j,
        None => {
            return None;
        },
    };
    if i15 != n {
        return None;
    }
    Some(
        Status::from_parts(
            committed,
            rejected,
            sent,
            unknown,
            latest_committed,
            latest_rejected,
            latest_sent,
        ),
    )
}

/// A view whose numbers the executable `Status` can hold.
pub open spec fn wf_status_view(v: StatusView) -> bool {
    &&& v.committed <= usize::MAX
    &&& v.rejected <= usize::MAX
    &&& v.sent <= usize::MAX
    &&& v.unknown <= usize::MAX
    &&& (v.latest_committed matches Some(t) ==> i64::MIN <= t <= i64::MAX)
    &&& (v.latest_rejected matches Some(t) ==> i64::MIN <= t <= i64::MAX)
    &&& (v.latest_sent matches Some(t) ==> i64::MIN <= t <= i64::MAX)
}

/// When the rest of the input is a literal followed by `rest`, the
/// literal is found and `rest` is what remains.
proof fn lemma_step_lit(s: Seq<char>, pos: int, lit: Seq<char>, rest: Seq<char>)
    requires
        0 <= pos <= s.len(),
        s.subrange(pos, s.len() as int) == lit + rest,
    ensures
        spec_expect(s, pos, lit) == Some(pos + lit.len()),
        s.subrange(pos + lit.len(), s.len() as int) == rest,
{
    let whole = s.subrange(pos, s.len() as int);
    assert(whole.len() == lit.len() + rest.len());
    assert(s.subrange(pos, pos + lit.len()) =~= lit) by {
        assert(forall|k: int|
            0 <= k < lit.len() ==> #[trigger] s.subrange(pos, pos + lit.len())[k] == whole[k]);
    }
    assert(s.subrange(pos + lit.len(), s.len() as int) =~= rest) by {
        assert(forall|k: int|
            0 <= k < rest.len() ==> #[trigger] s.subrange(pos + lit.len(), s.len() as int)[k]
                == whole[lit.len() + k]);
    }
}

/// When the rest of the input is a rendered counter followed by a
/// `rest` that does not begin with a digit, the counter is read back.
proof fn lemma_step_u64(s: Seq<char>, pos: int, n: u64, rest: Seq<char>)
    requires
        0 <= pos <= s.len(),
        s.subrange(pos, s.len() as int) == dec_rep(n as nat) + rest,
        rest.len() == 0 || !is_digit(rest[0]),
    ensures
        spec_parse_u64_at(s, pos) == Some((n, pos + dec_rep(n as nat).len())),
        s.subrange(pos + dec_rep(n as nat).len(), s.len() as int) == rest,
{
    let rep = dec_rep(n as nat);
    lemma_dec_rep_props(n as nat);
    lemma_step_lit(s, pos, rep, rest);
    let j = pos + rep.len();
    assert(s.subrange(pos, j) == rep);
    if j < s.len() {
        assert(s[j] == rest[0]);
    }
    lemma_parse_u64_dec_rep(s, pos, n);
}

/// When the rest of the input is a rendered signed number followed by
/// a `rest` that does not begin with a digit, the number is read back.
proof fn lemma_step_i64(s: Seq<char>, pos: int, v: i64, rest: Seq<char>)
    requires
        0 <= pos <= s.len(),
        s.subrange(pos, s.len() as int) == dec_rep_int(v as int) + rest,
        rest.len() == 0 || !is_digit(rest[0]),
    ensures
        spec_parse_i64_at(s, pos) == Some((v, pos + dec_rep_int(v as int).len())),
        s.subrange(pos + dec_rep_int(v as int).len(), s.len() as int) == rest,
{
    let rep = dec_rep_int(v as int);
    lemma_step_lit(s, pos, rep, rest);
    let j = pos + rep.len();
    if j < s.len() {
        assert(s[j] == rest[0]);
    }
    lemma_parse_i64_dec_rep(s, pos, v);
}

/// When the rest of the input is the text of an optional timestamp
/// followed by a `rest` that does not begin with a digit, that
/// timestamp is read back.
proof fn lemma_step_opt_ts(s: Seq<char>, pos: int, t: Option<int>, rest: Seq<char>)
    requires
        0 <= pos <= s.len(),
        (t matches Some(x) ==> i64::MIN <= x <= i64::MAX),
        s.subrange(pos, s.len() as int) == spec_opt_ts_json(t) + rest,
        rest.len() == 0 || !is_digit(rest[0]),
    ensures
        spec_parse_opt_ts(s, pos) == Some((t, pos + spec_opt_ts_json(t).len())),
        s.subrange(pos + spec_opt_ts_json(t).len(), s.len() as int) == rest,
{
    reveal_strlit("null");
    match t {
        None => {
            lemma_step_lit(s, pos, "null"@, rest);
        },
        Some(x) => {
            let v = x as i64;
            let rep = dec_rep_int(x);
            assert(dec_rep_int(v as int) == spec_opt_ts_json(t));
            lemma_step_i64(s, pos, v, rest);
            if x < 0 {
                lemma_dec_rep_props((-x) as nat);
                assert(rep == seq!['-'] + dec_rep((-x) as nat));
                assert(rep[0] == '-');
            } else {
                lemma_dec_rep_props(x as nat);
                assert(is_digit(rep[0]));
            }
            assert(s.subrange(pos, s.len() as int)[0] == s[pos]);
            assert(s[pos] == rep[0]);
            assert(s[pos] != 'n');
            if pos + 4 <= s.len() {
                let sub = s.subrange(pos, pos + 4);
                assert(sub[0] == s[pos]);
                assert(sub != "null"@);
            }
            assert(spec_expect(s, pos, "null"@) is None);
        },
    }
}

/// The timestamp fields and the closing brace of a rendered status,
/// standing at position `pos`, parse back to the timestamps they came
/// from.
proof fn lemma_round_trip_tail(
    s: Seq<char>,
    pos: int,
    committed: u64,
    rejected: u64,
    sent: u64,
    unknown: u64,
    lc: Option<int>,
    lr: Option<int>,
    ls: Option<int>,
)
    requires
        0 <= pos <= s.len(),
        (lc matches Some(t) ==> i64::MIN <= t <= i64::MAX),
        (lr matches Some(t) ==> i64::MIN <= t <= i64::MAX),
        (ls matches Some(t) ==> i64::MIN <= t <= i64::MAX),
        s.subrange(pos, s.len() as int) == ",\"latest_committed_transaction\":"@ + (
        spec_opt_ts_json(lc) + (",\"latest_rejected_transaction\":"@ + (spec_opt_ts_json(lr) + (
        ",\"latest_sent_at\":"@ + (spec_opt_ts_json(ls) + "}"@))))),
    ensures
        spec_parse_status_tail(s, pos, committed, rejected, sent, unknown) == Some(
            StatusView {
                committed: committed as nat,
                rejected: rejected as nat,
                sent: sent as nat,
                unknown: unknown as nat,
                latest_committed: lc,
                latest_rejected: lr,
                latest_sent: ls,
            },
        ),
{
    reveal_strlit(",\"latest_committed_transaction\":");
    reveal_strlit(",\"latest_rejected_transaction\":");
    reveal_strlit(",\"latest_sent_at\":");
    reveal_strlit("}");
    let r14: Seq<char> = "}"@;
    let r13 = spec_opt_ts_json(ls) + r14;
    let r12 = ",\"latest_sent_at\":"@ + r13;
    let r11 = spec_opt_ts_json(lr) + r12;
    let r10 = ",\"latest_rejected_transaction\":"@ + r11;
    let r9 = spec_opt_ts_json(lc) + r10;

    lemma_step_lit(s, pos, ",\"latest_committed_transaction\":"@, r9);
    let i9: int = pos + ",\"latest_committed_transaction\":"@.len() as int;

    assert(r10[0] == ',');
    lemma_step_opt_ts(s, i9, lc, r10);
    let i10: int = i9 + spec_opt_ts_json(lc).len() as int;

    lemma_step_lit(s, i10, ",\"latest_rejected_transaction\":"@, r11);
    let i11: int = i10 + ",\"latest_rejected_transaction\":"@.len() as int;

    assert(r12[0] == ',');
    lemma_step_opt_ts(s, i11, lr, r12);
    let i12: int = i11 + spec_opt_ts_json(lr).len() as int;

    lemma_step_lit(s, i12, ",\"latest_sent_at\":"@, r13);
    let i13: int = i12 + ",\"latest_sent_at\":"@.len() as int;

    assert(r14[0] == '}');
    lemma_step_opt_ts(s, i13, ls, r14);
    let i14: int = i13 + spec_opt_ts_json(ls).len() as int;

    lemma_step_lit(s, i14, "}"@, Seq::<char>::empty());
    let i15: int = i14 + "}"@.len() as int;
    assert(s.subrange(i15, s.len() as int) == Seq::<char>::empty());
    assert(i15 == s.len());
}

/// One labelled counter field of the encoding: its label is found at
/// `pos`, the number after it is read back, and `rest` is what
/// remains.
proof fn lemma_counter_field(s: Seq<char>, pos: int, label: Seq<char>, n: u64, rest: Seq<char>)
    requires
        0 <= pos <= s.len(),
        n <= usize::MAX as u64,
        s.subrange(pos, s.len() as int) == label + (dec_rep(n as nat) + rest),
        rest.len() > 0,
        !is_digit(rest[0]),
    ensures
        spec_expect(s, pos, label) == Some(pos + label.len()),
        spec_parse_counter(s, pos + label.len()) == Some((n, s.len() - rest.len())),
        s.subrange(s.len() - rest.len(), s.len() as int) == rest,
{
    lemma_step_lit(s, pos, label, dec_rep(n as nat) + rest);
    lemma_step_u64(s, pos + label.len(), n, rest);
}

/// Parsing the canonical JSON encoding of a status yields that status
/// back: the encoding loses nothing.
pub proof fn lemma_status_json_round_trip(v: StatusView)
    requires
        wf_status_view(v),
    ensures
        spec_parse_status_json(spec_status_json(v)) == Some(v),
{
    reveal_strlit(",\"txs_rejected\":");
    reveal_strlit(",\"txs_sent\":");
    reveal_strlit(",\"txs_unknown\":");
    reveal_strlit(",\"latest_committed_transaction\":");
    let s = spec_status_json(v);
    let r8 = ",\"latest_committed_transaction\":"@ + (spec_opt_ts_json(v.latest_committed) + (
    ",\"latest_rejected_transaction\":"@ + (spec_opt_ts_json(v.latest_rejected) + (
    ",\"latest_sent_at\":"@ + (spec_opt_ts_json(v.latest_sent) + "}"@)))));
    let r6 = ",\"txs_unknown\":"@ + (dec_rep(v.unknown) + r8);
    let r4 = ",\"txs_sent\":"@ + (dec_rep(v.sent) + r6);
    let r2 = ",\"txs_rejected\":"@ + (dec_rep(v.rejected) + r4);
    let c1: u64 = v.committed as u64;
    let c2: u64 = v.rejected as u64;
    let c3: u64 = v.sent as u64;
    let c4: u64 = v.unknown as u64;
    lemma_subrange_whole(s);

    assert(dec_rep(c1 as nat) == dec_rep(v.committed));
    assert(r2[0] == ',');
    lemma_counter_field(s, 0, "{\"txs_committed\":"@, c1, r2);
    let i1: int = "{\"txs_committed\":"@.len() as int;
    let j1: int = s.len() - r2.len();

    assert(dec_rep(c2 as nat) == dec_rep(v.rejected));
    assert(r4[0] == ',');
    lemma_counter_field(s, j1, ",\"txs_rejected\":"@, c2, r4);
    let j2: int = s.len() - r4.len();

    assert(dec_rep(c3 as nat) == dec_rep(v.sent));
    assert(r6[0] == ',');
    lemma_counter_field(s, j2, ",\"txs_sent\":"@, c3, r6);
    let j3: int = s.len() - r6.len();

    assert(dec_rep(c4 as nat) == dec_rep(v.unknown));
    assert(r8[0] == ',');
    lemma_counter_field(s, j3, ",\"txs_unknown\":"@, c4, r8);
    let j4: int = s.len() - r8.len();

    lemma_round_trip_tail(
        s,
        j4,
        c1,
        c2,
        c3,
        c4,
        v.latest_committed,
        v.latest_rejected,
        v.latest_sent,
    );
    let parsed = StatusView {
        committed: c1 as nat,
        rejected: c2 as nat,
        sent: c3 as nat,
        unknown: c4 as nat,
        latest_committed: v.latest_committed,
        latest_rejected: v.latest_rejected,
        latest_sent: v.latest_sent,
    };
    assert(spec_parse_from_unknown(s, j3, c1, c2, c3) == Some(parsed));
    assert(spec_parse_from_sent(s, j2, c1, c2) == Some(parsed));
    assert(spec_parse_from_rejected(s, j1, c1) == Some(parsed));
    assert(spec_parse_from_committed(s, i1) == Some(parsed));
    assert(spec_parse_status_json(s) == Some(parsed));
    assert(parsed == v);
}

} // verus!
