//! Broker key layout, and text decoding of stored bytes.
use vstd::prelude::*;
use vstd::string::is_ascii;
use vstd::string::StrSliceExecFns;
use vstd::string::StringExecFns;

verus! {

/// Bytes of a text whose characters are all ASCII.
pub open spec fn ascii_bytes(s: Seq<char>) -> Seq<u8> {
    s.map_values(|c: char| c as u8)
}

/// Appends the bytes of the ASCII text `s` to `out`.
pub fn push_ascii(out: &mut Vec<u8>, s: &str)
    requires
        is_ascii(s),
    ensures
        final(out)@ == old(out)@ + ascii_bytes(s@),
{
    let n = s.unicode_len();
    let mut i: usize = 0;
    while i < n
        invariant
            n == s@.len(),
            i <= n,
            is_ascii(s),
            out@ == old(out)@ + ascii_bytes(s@.subrange(0, i as int)),
        decreases n - i,
    {
        let b = s.get_ascii(i);
        out.push(b);
        i = i + 1;
        assert(out@ =~= old(out)@ + ascii_bytes(s@.subrange(0, i as int)));
    }
    assert(s@.subrange(0, n as int) =~= s@);
}

/// Appends all of `b` to `out`.
pub fn push_bytes(out: &mut Vec<u8>, b: &[u8])
    ensures
        final(out)@ == old(out)@ + b@,
{
    let mut i: usize = 0;
    while i < b.len()
        invariant
            i <= b@.len(),
            out@ == old(out)@ + b@.subrange(0, i as int),
        decreases b@.len() - i,
    {
        out.push(b[i]);
        i = i + 1;
        assert(out@ =~= old(out)@ + b@.subrange(0, i as int));
    }
    assert(b@.subrange(0, b@.len() as int) =~= b@);
}

pub open spec fn processing_prefix() -> Seq<u8> {
    ascii_bytes("videogen:processing:"@)
}

pub open spec fn completed_prefix() -> Seq<u8> {
    ascii_bytes("videogen:completed:"@)
}

pub open spec fn legacy_completed_set() -> Seq<u8> {
    ascii_bytes("videogen:completed"@)
}

pub open spec fn cursor_key_spec() -> Seq<u8> {
    ascii_bytes("videogen:last_id"@)
}

/// Time to live of a processing marker: one day.
pub const PROCESSING_TTL_SECS: u64 = 86400;

/// Time to live of a completion marker: one week.
pub const COMPLETED_TTL_SECS: u64 = 604800;

/// The key of the processing marker of an entry: a hash `{jid, ts_ms}`.
pub fn processing_key(entry_id: &[u8]) -> (r: Vec<u8>)
    ensures
        r@ == processing_prefix() + entry_id@,
{
    let mut r: Vec<u8> = Vec::new();
    proof {
        reveal_strlit("videogen:processing:");
    }
    push_ascii(&mut r, "videogen:processing:");
    push_bytes(&mut r, entry_id);
    r
}

/// The key of the completion marker of an entry: a string holding `ts_ms`.
pub fn completed_key(entry_id: &[u8]) -> (r: Vec<u8>)
    ensures
        r@ == completed_prefix() + entry_id@,
{
    let mut r: Vec<u8> = Vec::new();
    proof {
        reveal_strlit("videogen:completed:");
    }
    push_ascii(&mut r, "videogen:completed:");
    push_bytes(&mut r, entry_id);
    r
}

/// The legacy set whose members are the IDs of completed entries.
pub fn legacy_completed_key() -> (r: Vec<u8>)
    ensures
        r@ == legacy_completed_set(),
{
    let mut r: Vec<u8> = Vec::new();
    proof {
        reveal_strlit("videogen:completed");
    }
    push_ascii(&mut r, "videogen:completed");
    r
}

/// The key under which the cursor is persisted.
pub fn cursor_key() -> (r: Vec<u8>)
    ensures
        r@ == cursor_key_spec(),
{
    let mut r: Vec<u8> = Vec::new();
    proof {
        reveal_strlit("videogen:last_id");
    }
    push_ascii(&mut r, "videogen:last_id");
    r
}

/// The text of `b` read as UTF-8, each invalid sequence replaced by U+FFFD.
pub uninterp spec fn utf8_lossy(b: Seq<u8>) -> Seq<char>;

/// Relies on `String::from_utf8_lossy`: the text depends on the bytes alone,
/// and it is empty exactly when the bytes are (every byte belongs either to a
/// decoded character or to a sequence replaced by U+FFFD).
#[verifier::external_body]
fn decode_lossy(b: &[u8]) -> (r: String)
    ensures
        r@ == utf8_lossy(b@),
        r@.len() == 0 <==> b@.len() == 0,
{
    String::from_utf8_lossy(b).into_owned()
}

/// Decodes stored bytes as UTF-8, replacing invalid sequences rather than
/// failing.
pub fn try_string_from_bytes(bytes: &[u8]) -> (r: String)
    ensures
        r@ == utf8_lossy(bytes@),
        r@.len() == 0 <==> bytes@.len() == 0,
{
    decode_lossy(bytes)
}

/// The key of the job record of `jid`: `job:<jid>`.
pub fn job_key(jid: &str) -> (r: String)
    ensures
        r@ == "job:"@ + jid@,
{
    let mut r = <String as StringExecFns>::from_str("job:");
    r.append(jid);
    r
}

} // verus!
