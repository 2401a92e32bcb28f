//! Retention: the watermark below which stream entries may be discarded.
use vstd::prelude::*;
use crate::entry_id::{
    all_digits, dash_free_len, dash_position, decimal, first_id_of_ms, id_le, is_digit,
    lemma_first_id_of_ms, parse_id_spec, parse_u64, parse_u64_spec,
};

verus! {

pub const MS_PER_MINUTE: u64 = 60000;

/// The earliest-position sentinel `0-0`.
pub open spec fn is_earliest(cursor: Seq<u8>) -> bool {
    cursor == seq![48u8, 45u8, 48u8]
}

/// `now_ms - keep_minutes` minutes, or 0 where that would be negative.
pub open spec fn cutoff_spec(now_ms: u64, keep_minutes: u64) -> nat {
    if now_ms >= keep_minutes * MS_PER_MINUTE {
        (now_ms - keep_minutes * MS_PER_MINUTE) as nat
    } else {
        0
    }
}

/// The millisecond part of a cursor: the text before its first `-` read as
/// a `u64`, or 0 where that text is not one.
pub open spec fn cursor_ms(cursor: Seq<u8>) -> u64 {
    match parse_u64_spec(cursor.subrange(0, dash_free_len(cursor) as int)) {
        Some(v) => v,
        None => 0,
    }
}

/// The watermark to trim below, or none where nothing is to be trimmed: the
/// cursor itself where the cutoff is not earlier than the cursor's
/// millisecond, else `<cutoff>-0`.
pub open spec fn watermark_spec(cursor: Seq<u8>, now_ms: u64, keep_minutes: u64) -> Option<Seq<u8>> {
    let last_ms = cursor_ms(cursor);
    let cutoff = cutoff_spec(now_ms, keep_minutes);
    let target: nat = if cutoff < last_ms { cutoff } else { last_ms as nat };
    if cursor.len() == 0 || is_earliest(cursor) || last_ms == 0 || target == 0 {
        None
    } else if target == last_ms {
        Some(cursor)
    } else {
        Some(decimal(target) + seq![45u8, 48u8])
    }
}

fn is_earliest_id(cursor: &[u8]) -> (r: bool)
    ensures
        r == is_earliest(cursor@),
{
    let r = cursor.len() == 3 && cursor[0] == 48 && cursor[1] == 45 && cursor[2] == 48;
    proof {
        if r {
            assert(cursor@ =~= seq![48u8, 45u8, 48u8]);
        }
    }
    r
}

fn cutoff_ms(now_ms: u64, keep_minutes: u64) -> (r: u64)
    ensures
        r == cutoff_spec(now_ms, keep_minutes),
{
    if keep_minutes > u64::MAX / MS_PER_MINUTE {
        assert(keep_minutes * MS_PER_MINUTE > u64::MAX) by (nonlinear_arith)
            requires
                keep_minutes > u64::MAX / MS_PER_MINUTE,
                MS_PER_MINUTE == 60000,
        ;
        0
    } else {
        assert(keep_minutes * MS_PER_MINUTE <= u64::MAX) by (nonlinear_arith)
            requires
                keep_minutes <= u64::MAX / MS_PER_MINUTE,
                MS_PER_MINUTE == 60000,
        ;
        let window = keep_minutes * MS_PER_MINUTE;
        if now_ms >= window {
            now_ms - window
        } else {
            0
        }
    }
}

/// The watermark for trimming the stream by time: entries strictly below it
/// may be discarded. `None` where the cursor is empty or the earliest
/// sentinel, its millisecond part is 0 or unreadable, or the cutoff is 0.
pub fn trim_watermark(cursor: &[u8], now_ms: u64, keep_minutes: u64) -> (r: Option<Vec<u8>>)
    ensures
        match r {
            Some(w) => watermark_spec(cursor@, now_ms, keep_minutes) == Some(w@),
            None => watermark_spec(cursor@, now_ms, keep_minutes).is_none(),
        },
{
    if cursor.len() == 0 || is_earliest_id(cursor) {
        return None;
    }
    let cutoff = cutoff_ms(now_ms, keep_minutes);
    let k = dash_position(cursor);
    let last_ms = match parse_u64(cursor, 0, k) {
        Some(v) => v,
        None => 0,
    };
    if last_ms == 0 {
        return None;
    }
    let target = if cutoff < last_ms {
        cutoff
    } else {
        last_ms
    };
    if target == 0 {
        return None;
    }
    if target == last_ms {
        let mut w: Vec<u8> = Vec::new();
        let mut i: usize = 0;
        while i < cursor.len()
            invariant
                i <= cursor@.len(),
                w@ == cursor@.subrange(0, i as int),
            decreases cursor@.len() - i,
        {
            w.push(cursor[i]);
            i = i + 1;
            assert(w@ =~= cursor@.subrange(0, i as int));
        }
        assert(cursor@.subrange(0, cursor@.len() as int) =~= cursor@);
        Some(w)
    } else {
        Some(first_id_of_ms(target))
    }
}

/// The trimmer never produces a watermark after the cursor: where the cursor
/// is an entry ID, any watermark is an entry ID not greater than it.
pub proof fn lemma_watermark_not_after_cursor(cursor: Seq<u8>, now_ms: u64, keep_minutes: u64)
    requires
        parse_id_spec(cursor).is_some(),
        watermark_spec(cursor, now_ms, keep_minutes).is_some(),
    ensures
        parse_id_spec(watermark_spec(cursor, now_ms, keep_minutes).unwrap()).is_some(),
        id_le(
            parse_id_spec(watermark_spec(cursor, now_ms, keep_minutes).unwrap()).unwrap(),
            parse_id_spec(cursor).unwrap(),
        ),
{
    let c = parse_id_spec(cursor).unwrap();
    let k = dash_free_len(cursor) as int;
    let a = cursor.subrange(0, k);
    assert(a[0] != 43) by {
        assert(all_digits(a));
        assert(is_digit(a[0]));
    }
    assert(cursor_ms(cursor) == c.ms);
    let last_ms = cursor_ms(cursor);
    let cutoff = cutoff_spec(now_ms, keep_minutes);
    let target: nat = if cutoff < last_ms { cutoff } else { last_ms as nat };
    if target != last_ms {
        lemma_first_id_of_ms(target as u64);
    }
}

} // verus!
