//! The persistence format of the two storage artifacts.
//!
//! Both artifacts are plain ASCII documents built from one primitive: a
//! `u64` written as exactly twenty zero-padded decimal digits, which keeps
//! the serialized form sortable and unambiguous.
//!
//! - The lock document is a single twenty-digit instant.
//! - The record document is one line per session: the start instant, a
//!   comma, the end instant, and a newline; forty-two bytes per record.
//!
//! Parsing is strict: any deviation is corruption, including a record whose
//! end lies before its start, which would stand for a negative duration.

use vstd::prelude::*;
use vstd::arithmetic::div_mod::{
    lemma_basic_div, lemma_div_denominator, lemma_fundamental_div_mod, lemma_mod_bound,
};

use crate::instant::{EndTime, StartTime, TimeRecord};

verus! {

/// Powers of ten.
pub open spec fn pow10(k: nat) -> nat
    decreases k,
{
    if k == 0 {
        1
    } else {
        10 * pow10((k - 1) as nat)
    }
}

proof fn lemma_pow10_pos(k: nat)
    ensures
        pow10(k) >= 1,
    decreases k,
{
    if k > 0 {
        lemma_pow10_pos((k - 1) as nat);
    }
}

proof fn lemma_pow10_values()
    ensures
        pow10(19) == 10_000_000_000_000_000_000,
        pow10(20) == 100_000_000_000_000_000_000,
{
    reveal_with_fuel(pow10, 21);
}

/// An ASCII decimal digit.
pub open spec fn is_digit(b: u8) -> bool {
    48 <= b <= 57
}

/// All bytes of the sequence are ASCII decimal digits.
pub open spec fn digits_ok(s: Seq<u8>) -> bool {
    forall|i: int| 0 <= i < s.len() ==> is_digit(s[i])
}

/// The numeric value of a digit sequence, read left to right.
pub open spec fn num_value(s: Seq<u8>) -> int
    decreases s.len(),
{
    if s.len() == 0 {
        0
    } else {
        num_value(s.drop_last()) * 10 + s.last() - 48
    }
}

/// The digit at position `i` (most significant first) of `n` written as
/// twenty decimal digits.
pub open spec fn digit_at(n: u64, i: int) -> u8 {
    (48 + ((n as nat) / pow10((19 - i) as nat)) % 10) as u8
}

/// `n` written as exactly twenty zero-padded decimal digits.
pub open spec fn spec_digits20(n: u64) -> Seq<u8> {
    Seq::new(20, |i: int| digit_at(n, i))
}

proof fn lemma_digits20_prefix(n: u64, k: int)
    requires
        0 <= k <= 20,
    ensures
        num_value(spec_digits20(n).subrange(0, k)) == (n as nat) / pow10((20 - k) as nat),
    decreases k,
{
    let s = spec_digits20(n);
    if k == 0 {
        lemma_pow10_values();
        lemma_basic_div(n as int, pow10(20) as int);
    } else {
        lemma_digits20_prefix(n, k - 1);
        let pre = s.subrange(0, k);
        assert(pre.drop_last() =~= s.subrange(0, k - 1));
        assert(pre.last() == digit_at(n, k - 1));
        let p = pow10((20 - k) as nat);
        lemma_pow10_pos((20 - k) as nat);
        let m = (n as nat) / p;
        // Splitting one division step off the prefix value:
        // the value over k - 1 digits is m / 10, and digit k - 1 is m % 10.
        assert(pow10((21 - k) as nat) == 10 * p);
        lemma_div_denominator(n as int, p as int, 10);
        assert((n as nat) / pow10((21 - k) as nat) == m / 10);
        lemma_fundamental_div_mod(m as int, 10);
        assert(num_value(pre) == (m / 10) * 10 + (m % 10));
    }
}

/// The twenty-digit form of `n` is all digits and reads back as `n`.
proof fn lemma_digits20(n: u64)
    ensures
        spec_digits20(n).len() == 20,
        digits_ok(spec_digits20(n)),
        num_value(spec_digits20(n)) == n,
{
    lemma_digits20_prefix(n, 20);
    assert(spec_digits20(n).subrange(0, 20) =~= spec_digits20(n));
    assert(pow10(0) == 1);
    assert(num_value(spec_digits20(n)) == (n as nat) / pow10(0));
    assert((n as nat) / 1 == n as nat);
    assert forall|i: int| 0 <= i < 20 implies is_digit(spec_digits20(n)[i]) by {
        lemma_pow10_pos((19 - i) as nat);
        lemma_mod_bound(((n as nat) / pow10((19 - i) as nat)) as int, 10);
    }
}

proof fn lemma_num_value_nonneg(s: Seq<u8>)
    requires
        digits_ok(s),
    ensures
        num_value(s) >= 0,
    decreases s.len(),
{
    if s.len() > 0 {
        assert(digits_ok(s.drop_last()));
        lemma_num_value_nonneg(s.drop_last());
    }
}

proof fn lemma_num_value_prefix(s: Seq<u8>, k: int)
    requires
        digits_ok(s),
        0 <= k <= s.len(),
    ensures
        num_value(s) >= num_value(s.subrange(0, k)),
    decreases s.len(),
{
    if k == s.len() {
        assert(s.subrange(0, k) =~= s);
    } else {
        let dl = s.drop_last();
        assert(digits_ok(dl));
        lemma_num_value_nonneg(dl);
        lemma_num_value_prefix(dl, k);
        assert(dl.subrange(0, k) =~= s.subrange(0, k));
    }
}

/// Appends the twenty-digit form of `n`.
pub fn encode_u64(out: &mut Vec<u8>, n: u64)
    ensures
        final(out)@ == old(out)@ + spec_digits20(n),
{
    let mut div: u64 = 10_000_000_000_000_000_000;
    proof {
        lemma_pow10_values();
    }
    let mut i: usize = 0;
    while i < 20
        invariant
            i <= 20,
            i < 20 ==> div == pow10((19 - i) as nat),
            out@ == old(out)@ + spec_digits20(n).subrange(0, i as int),
        decreases 20 - i,
    {
        proof {
            lemma_pow10_pos((19 - i) as nat);
        }
        let digit: u64 = (n / div) % 10;
        out.push(48u8 + digit as u8);
        proof {
            assert(48u8 + digit as u8 == digit_at(n, i as int));
            assert(out@ =~= old(out)@ + spec_digits20(n).subrange(0, i + 1));
        }
        i = i + 1;
        div = div / 10;
        proof {
            if i < 20 {
                assert(pow10((20 - i) as nat) == 10 * pow10((19 - i) as nat));
            }
        }
    }
    proof {
        assert(spec_digits20(n).subrange(0, 20) =~= spec_digits20(n));
    }
}

/// What a twenty-digit slot holds: the value of the digits, if they are
/// digits at all and the value fits a `u64`.
pub open spec fn spec_parse_num20(s: Seq<u8>) -> Option<u64> {
    if s.len() == 20 && digits_ok(s) && num_value(s) <= u64::MAX {
        Some(num_value(s) as u64)
    } else {
        None
    }
}

/// Reads the twenty-digit slot of `bytes` starting at `start`.
pub fn parse_num20(bytes: &Vec<u8>, start: usize) -> (r: Option<u64>)
    requires
        start + 20 <= bytes.len(),
    ensures
        r == spec_parse_num20(bytes@.subrange(start as int, start as int + 20)),
{
    let ghost s = bytes@.subrange(start as int, start as int + 20);
    let mut acc: u64 = 0;
    let mut i: usize = 0;
    while i < 20
        invariant
            i <= 20,
            start + 20 <= bytes.len(),
            s == bytes@.subrange(start as int, start as int + 20),
            digits_ok(s.subrange(0, i as int)),
            acc == num_value(s.subrange(0, i as int)),
        decreases 20 - i,
    {
        let b = bytes[start + i];
        proof {
            assert(b == s[i as int]);
        }
        if b < 48 || b > 57 {
            return None;
        }
        let d = (b - 48) as u64;
        proof {
            assert(s.subrange(0, i + 1).drop_last() =~= s.subrange(0, i as int));
            assert(s.subrange(0, i + 1).last() == s[i as int]);
            assert(num_value(s.subrange(0, i + 1)) == acc * 10 + d);
        }
        if acc > u64::MAX / 10 || (acc == u64::MAX / 10 && d > u64::MAX % 10) {
            proof {
                if digits_ok(s) {
                    lemma_num_value_prefix(s, i + 1);
                }
            }
            return None;
        }
        acc = acc * 10 + d;
        proof {
            assert(digits_ok(s.subrange(0, i + 1)));
        }
        i = i + 1;
    }
    proof {
        assert(s.subrange(0, 20) =~= s);
    }
    Some(acc)
}

/// All records of the sequence are well formed.
pub open spec fn records_valid(rs: Seq<TimeRecord>) -> bool {
    forall|i: int| 0 <= i < rs.len() ==> rs[i].valid()
}

/// One record's line: start, comma, end, newline; forty-two bytes.
pub open spec fn spec_record_bytes(r: TimeRecord) -> Seq<u8> {
    spec_digits20(r.start.millis) + seq![44u8] + spec_digits20(r.end.millis) + seq![10u8]
}

/// What a forty-two-byte line holds, if it is well formed.
pub open spec fn spec_parse_block(b: Seq<u8>) -> Option<TimeRecord> {
    if b.len() == 42 {
        match (spec_parse_num20(b.subrange(0, 20)), spec_parse_num20(b.subrange(21, 41))) {
            (Some(s), Some(e)) => if b[20] == 44 && b[41] == 10 && s <= e {
                Some(TimeRecord { start: StartTime { millis: s }, end: EndTime { millis: e } })
            } else {
                None
            },
            _ => None,
        }
    } else {
        None
    }
}

/// The record document for a sequence of records: their lines in order.
pub open spec fn spec_encode_records(rs: Seq<TimeRecord>) -> Seq<u8>
    decreases rs.len(),
{
    if rs.len() == 0 {
        Seq::empty()
    } else {
        spec_record_bytes(rs.first()) + spec_encode_records(rs.drop_first())
    }
}

/// What a record document holds: its records, or nothing if any part of it
/// deviates from the format.
pub open spec fn spec_parse_records(c: Seq<u8>) -> Option<Seq<TimeRecord>>
    decreases c.len(),
{
    if c.len() == 0 {
        Some(Seq::empty())
    } else if c.len() < 42 {
        None
    } else {
        match (spec_parse_block(c.subrange(0, 42)), spec_parse_records(c.skip(42))) {
            (Some(r), Some(rest)) => Some(seq![r] + rest),
            _ => None,
        }
    }
}

/// The record document is exactly forty-two bytes per record.
pub proof fn lemma_encode_records_len(rs: Seq<TimeRecord>)
    ensures
        spec_encode_records(rs).len() == 42 * rs.len(),
    decreases rs.len(),
{
    if rs.len() > 0 {
        lemma_encode_records_len(rs.drop_first());
    }
}

/// Appending a record appends its line.
pub proof fn lemma_encode_records_push(rs: Seq<TimeRecord>, r: TimeRecord)
    ensures
        spec_encode_records(rs.push(r)) == spec_encode_records(rs) + spec_record_bytes(r),
    decreases rs.len(),
{
    if rs.len() == 0 {
        assert(rs.push(r).drop_first() =~= Seq::<TimeRecord>::empty());
        assert(rs.push(r).first() == r);
        assert(spec_encode_records(Seq::<TimeRecord>::empty()) == Seq::<u8>::empty());
        assert(spec_encode_records(rs.push(r)) =~= spec_encode_records(rs) + spec_record_bytes(r));
    } else {
        lemma_encode_records_push(rs.drop_first(), r);
        assert(rs.push(r).drop_first() =~= rs.drop_first().push(r));
        assert(rs.push(r).first() == rs.first());
        assert(spec_encode_records(rs.push(r)) =~= spec_encode_records(rs) + spec_record_bytes(r));
    }
}

/// A well-formed record's line parses back to the record itself.
pub proof fn lemma_block_round_trip(r: TimeRecord)
    requires
        r.valid(),
    ensures
        spec_record_bytes(r).len() == 42,
        spec_parse_block(spec_record_bytes(r)) == Some(r),
{
    let b = spec_record_bytes(r);
    lemma_digits20(r.start.millis);
    lemma_digits20(r.end.millis);
    assert(b.subrange(0, 20) =~= spec_digits20(r.start.millis));
    assert(b.subrange(21, 41) =~= spec_digits20(r.end.millis));
    assert(b[20] == 44);
    assert(b[41] == 10);
}

/// Round trip: the document written for well-formed records parses back to
/// exactly those records.
pub proof fn lemma_records_round_trip(rs: Seq<TimeRecord>)
    requires
        records_valid(rs),
    ensures
        spec_parse_records(spec_encode_records(rs)) == Some(rs),
    decreases rs.len(),
{
    if rs.len() > 0 {
        let c = spec_encode_records(rs);
        let rest = rs.drop_first();
        assert(records_valid(rest));
        lemma_encode_records_len(rest);
        lemma_block_round_trip(rs.first());
        assert(c.subrange(0, 42) =~= spec_record_bytes(rs.first()));
        assert(c.skip(42) =~= spec_encode_records(rest));
        lemma_records_round_trip(rest);
        assert(seq![rs.first()] + rest =~= rs);
    }
}

/// Whatever parses, parses to well-formed records.
pub proof fn lemma_parse_records_valid(c: Seq<u8>)
    ensures
        spec_parse_records(c) matches Some(rs) ==> records_valid(rs),
    decreases c.len(),
{
    if c.len() >= 42 {
        lemma_parse_records_valid(c.skip(42));
    }
}

/// Writes the record document for `records`.
pub fn encode_records(records: &Vec<TimeRecord>) -> (out: Vec<u8>)
    ensures
        out@ == spec_encode_records(records@),
{
    let mut out: Vec<u8> = Vec::new();
    let mut i: usize = 0;
    while i < records.len()
        invariant
            i <= records.len(),
            out@ == spec_encode_records(records@.subrange(0, i as int)),
        decreases records.len() - i,
    {
        let r = records[i];
        encode_u64(&mut out, r.start.millis);
        out.push(44u8);
        encode_u64(&mut out, r.end.millis);
        out.push(10u8);
        proof {
            let pre = records@.subrange(0, i as int);
            lemma_encode_records_push(pre, r);
            assert(records@.subrange(0, i + 1) =~= pre.push(r));
            assert(out@ =~= spec_encode_records(pre) + spec_record_bytes(r));
        }
        i = i + 1;
    }
    proof {
        assert(records@.subrange(0, records@.len() as int) =~= records@);
    }
    out
}

/// Reads a record document; `None` means the content is corrupt.
pub fn parse_records(content: &Vec<u8>) -> (r: Option<Vec<TimeRecord>>)
    ensures
        match r {
            Some(v) => spec_parse_records(content@) == Some(v@),
            None => spec_parse_records(content@) is None,
        },
{
    let n = content.len();
    let blocks = n / 42;
    let mut out: Vec<TimeRecord> = Vec::new();
    let mut pos: usize = 0;
    let mut k: usize = 0;
    proof {
        lemma_fundamental_div_mod(n as int, 42);
        assert(content@.skip(0) =~= content@);
        match spec_parse_records(content@) {
            Some(rest) => {
                assert(out@ + rest =~= rest);
            },
            None => {},
        }
    }
    while k < blocks
        invariant
            k <= blocks,
            pos == 42 * k,
            blocks == n as int / 42,
            n == content.len(),
            42 * blocks <= n,
            spec_parse_records(content@) == match spec_parse_records(content@.skip(pos as int)) {
                Some(rest) => Some(out@ + rest),
                None => None::<Seq<TimeRecord>>,
            },
        decreases blocks - k,
    {
        let ghost suffix = content@.skip(pos as int);
        proof {
            assert(suffix.len() == n - pos >= 42);
            assert(suffix.subrange(0, 20) =~= content@.subrange(pos as int, pos as int + 20));
            assert(suffix.subrange(21, 41) =~= content@.subrange(
                pos as int + 21,
                pos as int + 41,
            ));
            assert(suffix.subrange(0, 42).subrange(0, 20) =~= suffix.subrange(0, 20));
            assert(suffix.subrange(0, 42).subrange(21, 41) =~= suffix.subrange(21, 41));
            assert(suffix.subrange(0, 42)[20] == content@[pos as int + 20]);
            assert(suffix.subrange(0, 42)[41] == content@[pos as int + 41]);
        }
        let s_val = match parse_num20(content, pos) {
            Some(v) => v,
            None => {
                proof {
                    assert(spec_parse_block(suffix.subrange(0, 42)) is None);
                    assert(spec_parse_records(suffix) is None);
                }
                return None;
            },
        };
        if content[pos + 20] != 44 {
            proof {
                assert(spec_parse_block(suffix.subrange(0, 42)) is None);
                assert(spec_parse_records(suffix) is None);
            }
            return None;
        }
        let e_val = match parse_num20(content, pos + 21) {
            Some(v) => v,
            None => {
                proof {
                    assert(spec_parse_block(suffix.subrange(0, 42)) is None);
                    assert(spec_parse_records(suffix) is None);
                }
                return None;
            },
        };
        if content[pos + 41] != 10 {
            proof {
                assert(spec_parse_block(suffix.subrange(0, 42)) is None);
                assert(spec_parse_records(suffix) is None);
            }
            return None;
        }
        if s_val > e_val {
            proof {
                assert(spec_parse_block(suffix.subrange(0, 42)) is None);
                assert(spec_parse_records(suffix) is None);
            }
            return None;
        }
        let rec = TimeRecord { start: StartTime { millis: s_val }, end: EndTime { millis: e_val } };
        let ghost out_pre = out@;
        out.push(rec);
        proof {
            assert(spec_parse_block(suffix.subrange(0, 42)) == Some(rec));
            assert(suffix.skip(42) =~= content@.skip(pos + 42));
            assert(out@ == out_pre.push(rec));
            match spec_parse_records(content@.skip(pos + 42)) {
                Some(rest2) => {
                    assert(spec_parse_records(suffix) == Some(seq![rec] + rest2));
                    assert(out_pre + (seq![rec] + rest2) =~= out@ + rest2);
                },
                None => {
                    assert(spec_parse_records(suffix) is None);
                },
            }
        }
        pos = pos + 42;
        k = k + 1;
    }
    if pos == n {
        proof {
            assert(content@.skip(pos as int) =~= Seq::<u8>::empty());
            match spec_parse_records(content@.skip(pos as int)) {
                Some(rest) => {
                    assert(out@ + rest =~= out@);
                },
                None => {},
            }
        }
        Some(out)
    } else {
        proof {
            assert(content@.skip(pos as int).len() == n - 42 * (n as int / 42));
            assert(0 < n - 42 * (n as int / 42) < 42);
        }
        None
    }
}

/// The lock document for a running session: its start instant's twenty
/// digits.
pub open spec fn spec_encode_lock(t: StartTime) -> Seq<u8> {
    spec_digits20(t.millis)
}

/// What a lock document holds, if it is well formed.
pub open spec fn spec_parse_lock(c: Seq<u8>) -> Option<StartTime> {
    if c.len() == 20 {
        match spec_parse_num20(c) {
            Some(n) => Some(StartTime { millis: n }),
            None => None,
        }
    } else {
        None
    }
}

/// Writes the lock document for a session started at `t`.
pub fn encode_lock(t: StartTime) -> (out: Vec<u8>)
    ensures
        out@ == spec_encode_lock(t),
{
    let mut out: Vec<u8> = Vec::new();
    encode_u64(&mut out, t.millis);
    proof {
        assert(out@ =~= spec_encode_lock(t));
    }
    out
}

/// Reads a lock document; `None` means the content is corrupt.
pub fn parse_lock(content: &Vec<u8>) -> (r: Option<StartTime>)
    ensures
        r == spec_parse_lock(content@),
{
    if content.len() != 20 {
        return None;
    }
    proof {
        assert(content@.subrange(0, 20) =~= content@);
    }
    match parse_num20(content, 0) {
        Some(n) => Some(StartTime { millis: n }),
        None => None,
    }
}

/// Round trip: a written lock document reads back as the same instant.
pub proof fn lemma_lock_round_trip(t: StartTime)
    ensures
        spec_parse_lock(spec_encode_lock(t)) == Some(t),
{
    lemma_digits20(t.millis);
}

} // verus!
