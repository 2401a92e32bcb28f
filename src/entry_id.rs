//! Stream entry IDs: the `<ms>-<seq>` form, its order, and the decimal
//! text of integers.
use vstd::prelude::*;

verus! {

pub open spec fn is_digit(b: u8) -> bool {
    48 <= b <= 57
}

pub open spec fn all_digits(s: Seq<u8>) -> bool {
    forall|i: int| 0 <= i < s.len() ==> is_digit(#[trigger] s[i])
}

/// Value of a run of ASCII digits, most significant first.
pub open spec fn digits_value(s: Seq<u8>) -> nat
    decreases s.len(),
{
    if s.len() == 0 {
        0
    } else {
        digits_value(s.drop_last()) * 10 + (s.last() - 48) as nat
    }
}

/// The decimal text of `n`, without sign or leading zeros.
pub open spec fn decimal(n: nat) -> Seq<u8>
    decreases n,
{
    if n < 10 {
        seq![(n + 48) as u8]
    } else {
        decimal(n / 10).push((n % 10 + 48) as u8)
    }
}

/// What `u64`'s `FromStr` accepts: an optional `+`, then one or more
/// digits whose value fits in 64 bits.
pub open spec fn parse_u64_spec(s: Seq<u8>) -> Option<u64> {
    let d = if s.len() > 0 && s[0] == 43 { s.drop_first() } else { s };
    if d.len() > 0 && all_digits(d) && digits_value(d) <= u64::MAX {
        Some(digits_value(d) as u64)
    } else {
        None
    }
}

/// Number of bytes before the first `-` (the whole length if there is none).
pub open spec fn dash_free_len(s: Seq<u8>) -> nat
    decreases s.len(),
{
    if s.len() > 0 && s[0] != 45 {
        1 + dash_free_len(s.drop_first())
    } else {
        0
    }
}

/// A stream entry ID as the broker assigns it: milliseconds and sequence.
#[derive(Clone, Copy, Debug, PartialEq, Eq, Structural)]
pub struct EntryId {
    pub ms: u64,
    pub seq: u64,
}

/// `s` is `<ms>-<seq>`, two non-empty runs of digits that fit in 64 bits.
pub open spec fn parse_id_spec(s: Seq<u8>) -> Option<EntryId> {
    let k = dash_free_len(s) as int;
    let a = s.subrange(0, k);
    let b = s.subrange(k + 1, s.len() as int);
    if k < s.len() && a.len() > 0 && all_digits(a) && digits_value(a) <= u64::MAX && b.len() > 0
        && all_digits(b) && digits_value(b) <= u64::MAX {
        Some(EntryId { ms: digits_value(a) as u64, seq: digits_value(b) as u64 })
    } else {
        None
    }
}

/// The broker's order on entry IDs: by milliseconds, then by sequence.
pub open spec fn id_lt(a: EntryId, b: EntryId) -> bool {
    a.ms < b.ms || (a.ms == b.ms && a.seq < b.seq)
}

pub open spec fn id_le(a: EntryId, b: EntryId) -> bool {
    id_lt(a, b) || a == b
}

proof fn lemma_digits_prefix_le(s: Seq<u8>, k: int)
    requires
        0 <= k <= s.len(),
        all_digits(s),
    ensures
        digits_value(s.subrange(0, k)) <= digits_value(s),
    decreases s.len(),
{
    if k < s.len() {
        assert(s.drop_last().subrange(0, k) =~= s.subrange(0, k));
        lemma_digits_prefix_le(s.drop_last(), k);
    } else {
        assert(s.subrange(0, k) =~= s);
    }
}

proof fn lemma_decimal_digits(n: nat)
    ensures
        all_digits(decimal(n)),
        decimal(n).len() > 0,
        digits_value(decimal(n)) == n,
        decimal(n)[0] != 43,
    decreases n,
{
    let d = decimal(n);
    if n >= 10 {
        lemma_decimal_digits(n / 10);
        assert(d.drop_last() =~= decimal(n / 10));
        assert(d.last() - 48 == n % 10);
        assert(n == (n / 10) * 10 + n % 10);
        assert forall|i: int| 0 <= i < d.len() implies is_digit(#[trigger] d[i]) by {
            if i < d.len() - 1 {
                assert(d[i] == decimal(n / 10)[i]);
            }
        }
    } else {
        assert(d.drop_last() =~= Seq::<u8>::empty());
        assert(digits_value(Seq::<u8>::empty()) == 0);
    }
}

/// Value of the digits `s[start..end]`, or `None` where one is not a digit,
/// the run is empty, or the value does not fit in 64 bits.
fn parse_digits(s: &[u8], start: usize, end: usize) -> (r: Option<u64>)
    requires
        start <= end <= s@.len(),
    ensures
        r == (if start < end && all_digits(s@.subrange(start as int, end as int)) && digits_value(
            s@.subrange(start as int, end as int),
        ) <= u64::MAX {
            Some(digits_value(s@.subrange(start as int, end as int)) as u64)
        } else {
            None::<u64>
        }),
{
    if start == end {
        return None;
    }
    let mut v: u64 = 0;
    let mut i: usize = start;
    while i < end
        invariant
            start <= i <= end <= s@.len(),
            all_digits(s@.subrange(start as int, i as int)),
            v as nat == digits_value(s@.subrange(start as int, i as int)),
        decreases end - i,
    {
        let b = s[i];
        assert(s@.subrange(start as int, i as int + 1).drop_last() =~= s@.subrange(
            start as int,
            i as int,
        ));
        if b < 48 || b > 57 {
            assert(!is_digit(s@.subrange(start as int, end as int)[i - start]));
            return None;
        }
        let d: u64 = (b - 48) as u64;
        if v > (u64::MAX - d) / 10 {
            proof {
                let full = s@.subrange(start as int, end as int);
                assert(full.subrange(0, i - start + 1) =~= s@.subrange(start as int, i as int + 1));
                if all_digits(full) {
                    lemma_digits_prefix_le(full, i - start + 1);
                }
            }
            return None;
        }
        v = v * 10 + d;
        i = i + 1;
    }
    Some(v)
}

/// Parses a `u64` as `u64`'s `FromStr` does.
pub fn parse_u64(s: &[u8], start: usize, end: usize) -> (r: Option<u64>)
    requires
        start <= end <= s@.len(),
    ensures
        r == parse_u64_spec(s@.subrange(start as int, end as int)),
{
    if start < end && s[start] == 43 {
        assert(s@.subrange(start as int, end as int).drop_first() =~= s@.subrange(
            start as int + 1,
            end as int,
        ));
        parse_digits(s, start + 1, end)
    } else {
        parse_digits(s, start, end)
    }
}

/// Index of the first `-` in `s`, or its length.
pub fn dash_position(s: &[u8]) -> (r: usize)
    ensures
        r == dash_free_len(s@),
        r <= s@.len(),
{
    let mut k: usize = 0;
    assert(s@.subrange(0, s@.len() as int) =~= s@);
    while k < s.len() && s[k] != 45
        invariant
            k <= s@.len(),
            dash_free_len(s@) == k + dash_free_len(s@.subrange(k as int, s@.len() as int)),
        decreases s@.len() - k,
    {
        assert(s@.subrange(k as int, s@.len() as int).drop_first() =~= s@.subrange(
            k as int + 1,
            s@.len() as int,
        ));
        k = k + 1;
    }
    proof {
        assert(s@.subrange(0, s@.len() as int) =~= s@);
    }
    k
}

/// Reads an entry ID of the form `<ms>-<seq>`.
pub fn parse_entry_id(s: &[u8]) -> (r: Option<EntryId>)
    ensures
        r == parse_id_spec(s@),
{
    let k = dash_position(s);
    if k >= s.len() {
        return None;
    }
    let ms = parse_digits(s, 0, k);
    let seq = parse_digits(s, k + 1, s.len());
    match (ms, seq) {
        (Some(a), Some(b)) => Some(EntryId { ms: a, seq: b }),
        _ => None,
    }
}

/// `a` comes strictly before `b` in the stream.
pub fn id_before(a: EntryId, b: EntryId) -> (r: bool)
    ensures
        r == id_lt(a, b),
{
    a.ms < b.ms || (a.ms == b.ms && a.seq < b.seq)
}

/// Appends the decimal text of `n` to `out`.
pub fn push_decimal(out: &mut Vec<u8>, n: u64)
    ensures
        final(out)@ == old(out)@ + decimal(n as nat),
    decreases n,
{
    if n >= 10 {
        push_decimal(out, n / 10);
    }
    out.push(((n % 10) + 48) as u8);
    proof {
        if n >= 10 {
            assert(decimal(n as nat) == decimal((n / 10) as nat).push(((n % 10) + 48) as u8));
        }
        assert(final(out)@ =~= old(out)@ + decimal(n as nat));
    }
}

/// The ID `<ms>-0`: the first possible entry of millisecond `ms`.
pub fn first_id_of_ms(ms: u64) -> (r: Vec<u8>)
    ensures
        r@ == decimal(ms as nat) + seq![45u8, 48u8],
        parse_id_spec(r@) == Some(EntryId { ms, seq: 0 }),
{
    let mut r: Vec<u8> = Vec::new();
    push_decimal(&mut r, ms);
    r.push(45);
    r.push(48);
    proof {
        lemma_first_id_of_ms(ms);
        assert(r@ =~= decimal(ms as nat) + seq![45u8, 48u8]);
    }
    r
}

/// `<ms>-0` reads back as the ID of millisecond `ms`, sequence 0.
pub proof fn lemma_first_id_of_ms(ms: u64)
    ensures
        parse_id_spec(decimal(ms as nat) + seq![45u8, 48u8]) == Some(EntryId { ms, seq: 0 }),
{
    let d = decimal(ms as nat);
    let r = d + seq![45u8, 48u8];
    lemma_decimal_digits(ms as nat);
    lemma_dash_free_digits(r, d.len() as int);
    assert(r.subrange(0, d.len() as int) =~= d);
    assert(r.subrange(d.len() as int + 1, r.len() as int) =~= seq![48u8]);
    assert(digits_value(seq![48u8]) == 0) by {
        assert(seq![48u8].drop_last() =~= Seq::<u8>::empty());
        assert(digits_value(Seq::<u8>::empty()) == 0);
        assert(seq![48u8].last() == 48);
    }
}

proof fn lemma_dash_free_digits(s: Seq<u8>, k: int)
    requires
        0 <= k < s.len(),
        all_digits(s.subrange(0, k)),
        s[k] == 45,
    ensures
        dash_free_len(s) == k,
    decreases k,
{
    if k > 0 {
        assert(s.subrange(0, k)[0] == s[0]);
        let t = s.drop_first();
        assert(t.subrange(0, k - 1) =~= s.subrange(0, k).drop_first());
        lemma_dash_free_digits(t, k - 1);
    }
}

} // verus!
