use vstd::prelude::*;

verus! {

/// The decimal ASCII digits of `n`, most significant first.
pub open spec fn dec_digits(n: nat) -> Seq<u8>
    decreases n,
{
    if n < 10 {
        seq![(48 + n) as u8]
    } else {
        dec_digits(n / 10).push((48 + n % 10) as u8)
    }
}

/// The decimal ASCII form of a signed value: an optional minus sign, then
/// the digits of the magnitude.
pub open spec fn dec_bytes(n: int) -> Seq<u8> {
    if n < 0 {
        seq![45u8] + dec_digits((-n) as nat)
    } else {
        dec_digits(n as nat)
    }
}

/// One persisted record: decimal receipt timestamp, one space, the raw
/// payload, one newline.
pub open spec fn spec_record(ts: int, payload: Seq<u8>) -> Seq<u8> {
    dec_bytes(ts) + seq![32u8] + payload + seq![10u8]
}

proof fn lemma_dec_digits_are_digits(n: nat)
    ensures
        forall|i: int| 0 <= i < dec_digits(n).len() ==> 48 <= #[trigger] dec_digits(n)[i] <= 57,
    decreases n,
{
    if n >= 10 {
        lemma_dec_digits_are_digits(n / 10);
        let d = dec_digits(n);
        let dd = dec_digits(n / 10);
        assert forall|i: int| 0 <= i < d.len() implies 48 <= #[trigger] d[i] <= 57 by {
            if i < d.len() - 1 {
                assert(d[i] == dd[i]);
            } else {
                assert(d[i] == (48 + n % 10) as u8);
            }
        }
    }
}

fn push_dec_u64(v: &mut Vec<u8>, m: u64)
    ensures
        final(v)@ == old(v)@ + dec_digits(m as nat),
    decreases m,
{
    if m < 10 {
        v.push(48 + m as u8);
        proof {
            assert(final(v)@ =~= old(v)@ + dec_digits(m as nat));
        }
    } else {
        push_dec_u64(v, m / 10);
        v.push(48 + (m % 10) as u8);
        proof {
            assert((48 + (m as nat) % 10) as u8 == 48 + ((m % 10) as u8));
            assert(final(v)@ =~= old(v)@ + dec_digits(m as nat));
        }
    }
}

/// Frame one record for the persisted log.
pub fn format_record(ts: i64, payload: &Vec<u8>) -> (r: Vec<u8>)
    ensures
        r@ == spec_record(ts as int, payload@),
{
    let mut v: Vec<u8> = Vec::new();
    if ts < 0 {
        v.push(45);
        let m: u64 = (-(ts as i128)) as u64;
        proof {
            assert(m as nat == (-(ts as int)) as nat);
        }
        push_dec_u64(&mut v, m);
        proof {
            assert(v@ =~= dec_bytes(ts as int));
        }
    } else {
        push_dec_u64(&mut v, ts as u64);
    }
    v.push(32);
    let n = payload.len();
    let mut j: usize = 0;
    while j < n
        invariant
            j <= n,
            n == payload@.len(),
            v@ == dec_bytes(ts as int) + seq![32u8] + payload@.take(j as int),
        decreases n - j,
    {
        v.push(payload[j]);
        proof {
            assert(payload@.take(j + 1) =~= payload@.take(j as int).push(payload@[j as int]));
            assert(v@ =~= dec_bytes(ts as int) + seq![32u8] + payload@.take(j + 1));
        }
        j = j + 1;
    }
    v.push(10);
    proof {
        assert(payload@.take(n as int) =~= payload@);
        assert(v@ =~= spec_record(ts as int, payload@));
    }
    v
}

/// The numeric value of a run of decimal ASCII digits.
pub open spec fn dec_val(digits: Seq<u8>) -> int
    decreases digits.len(),
{
    if digits.len() == 0 {
        0
    } else {
        dec_val(digits.drop_last()) * 10 + (digits.last() - 48)
    }
}

/// Reading the printed digits back yields the value that was printed.
pub proof fn lemma_dec_val_of_dec_digits(n: nat)
    ensures
        dec_val(dec_digits(n)) == n,
    decreases n,
{
    assert(dec_val(Seq::<u8>::empty()) == 0);
    if n < 10 {
        assert(dec_digits(n).drop_last() =~= Seq::<u8>::empty());
        assert(dec_digits(n).last() == (48 + n) as u8);
    } else {
        lemma_dec_val_of_dec_digits(n / 10);
        assert(dec_digits(n).drop_last() =~= dec_digits(n / 10));
        assert(dec_digits(n).last() == (48 + n % 10) as u8);
    }
}

/// The signed value printed as `dec_bytes`.
pub open spec fn parse_ts(b: Seq<u8>) -> int {
    if b.len() > 0 && b[0] == 45 {
        -dec_val(b.skip(1))
    } else {
        dec_val(b)
    }
}

pub proof fn lemma_parse_ts_of_dec_bytes(n: int)
    ensures
        parse_ts(dec_bytes(n)) == n,
{
    if n < 0 {
        lemma_dec_val_of_dec_digits((-n) as nat);
        assert(dec_bytes(n).skip(1) =~= dec_digits((-n) as nat));
    } else {
        lemma_dec_digits_are_digits(n as nat);
        lemma_dec_val_of_dec_digits(n as nat);
    }
}

/// Index of the first occurrence of `c`, or the length when absent.
pub open spec fn first_at(s: Seq<u8>, c: u8) -> int
    decreases s.len(),
{
    if s.len() == 0 {
        0
    } else if s[0] == c {
        0
    } else {
        1 + first_at(s.skip(1), c)
    }
}

proof fn lemma_first_at_concat(a: Seq<u8>, b: Seq<u8>, c: u8)
    requires
        forall|i: int| 0 <= i < a.len() ==> a[i] != c,
        b.len() > 0,
        b[0] == c,
    ensures
        first_at(a + b, c) == a.len(),
    decreases a.len(),
{
    if a.len() == 0 {
        assert(a + b =~= b);
    } else {
        lemma_first_at_concat(a.skip(1), b, c);
        assert((a + b).skip(1) =~= a.skip(1) + b);
    }
}

/// Split one log line at its first space into (timestamp, payload).
pub open spec fn parse_line(line: Seq<u8>) -> (int, Seq<u8>) {
    let i = first_at(line, 32);
    if i < line.len() {
        (parse_ts(line.take(i)), line.skip(i + 1))
    } else {
        (parse_ts(line), Seq::empty())
    }
}

/// Splitting a framed record (without its trailing newline) at the first
/// space recovers exactly the timestamp and the payload that were written.
pub proof fn lemma_parse_line_roundtrip(ts: int, payload: Seq<u8>)
    ensures
        parse_line(dec_bytes(ts) + seq![32u8] + payload) == (ts, payload),
{
    let d = dec_bytes(ts);
    let line = d + seq![32u8] + payload;
    if ts < 0 {
        lemma_dec_digits_are_digits((-ts) as nat);
    } else {
        lemma_dec_digits_are_digits(ts as nat);
    }
    assert(forall|i: int| 0 <= i < d.len() ==> d[i] != 32);
    assert(line =~= d + (seq![32u8] + payload));
    lemma_first_at_concat(d, seq![32u8] + payload, 32);
    assert(first_at(line, 32) == d.len());
    assert(line.take(d.len() as int) =~= d);
    assert(line.skip(d.len() as int + 1) =~= payload);
    lemma_parse_ts_of_dec_bytes(ts);
}

/// The whole decompressed body of a finalized file: the framed records in
/// write order.
pub open spec fn records_bytes(rs: Seq<(i64, Seq<u8>)>) -> Seq<u8>
    decreases rs.len(),
{
    if rs.len() == 0 {
        Seq::empty()
    } else {
        spec_record(rs[0].0 as int, rs[0].1) + records_bytes(rs.skip(1))
    }
}

/// Split a byte stream on newlines; a trailing newline yields no empty
/// final chunk.
pub open spec fn lines_of(s: Seq<u8>) -> Seq<Seq<u8>>
    decreases s.len(),
{
    if s.len() == 0 {
        Seq::empty()
    } else {
        let i = first_at(s, 10);
        if 0 <= i && i < s.len() {
            seq![s.take(i)] + lines_of(s.skip(i + 1))
        } else {
            seq![s]
        }
    }
}

/// Round trip of the persistence format: splitting a properly finalized
/// body on newlines and each line at its first space recovers the exact
/// write-ordered sequence of (timestamp, payload) pairs, provided no
/// payload itself contains a raw newline byte.
pub proof fn lemma_file_roundtrip(rs: Seq<(i64, Seq<u8>)>)
    requires
        forall|k: int, i: int|
            0 <= k < rs.len() && 0 <= i < rs[k].1.len() ==> rs[k].1[i] != 10,
    ensures
        lines_of(records_bytes(rs)).len() == rs.len(),
        forall|k: int|
            0 <= k < rs.len() ==> parse_line(lines_of(records_bytes(rs))[k]) == (
            rs[k].0 as int,
            rs[k].1,
            ),
    decreases rs.len(),
{
    if rs.len() > 0 {
        let ts = rs[0].0 as int;
        let p = rs[0].1;
        let head = dec_bytes(ts) + seq![32u8] + p;
        let rest = records_bytes(rs.skip(1));
        let s = records_bytes(rs);
        if ts < 0 {
            lemma_dec_digits_are_digits((-ts) as nat);
        } else {
            lemma_dec_digits_are_digits(ts as nat);
        }
        assert(forall|i: int| 0 <= i < head.len() ==> head[i] != 10);
        assert(s =~= head + (seq![10u8] + rest));
        lemma_first_at_concat(head, seq![10u8] + rest, 10);
        assert(first_at(s, 10) == head.len());
        assert(s.len() > 0);
        assert(first_at(s, 10) < s.len());
        assert(s.take(head.len() as int) =~= head);
        assert(s.skip(head.len() as int + 1) =~= rest);
        lemma_file_roundtrip(rs.skip(1));
        lemma_parse_line_roundtrip(ts, p);
        assert(lines_of(s) =~= seq![head] + lines_of(rest));
        assert forall|k: int| 0 <= k < rs.len() implies parse_line(lines_of(s)[k]) == (
            rs[k].0 as int,
            rs[k].1,
        ) by {
            if k > 0 {
                assert(lines_of(s)[k] == lines_of(rest)[k - 1]);
                assert(rs.skip(1)[k - 1] == rs[k]);
            }
        }
    }
}

} // verus!
