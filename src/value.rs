//! Broker replies and the defensive decoding of a stream read reply into
//! entries.
use vstd::prelude::*;

verus! {

/// A reply of the broker's wire protocol.
pub enum BrokerValue {
    Array(Vec<BrokerValue>),
    /// A binary-safe string.
    Bytes(Vec<u8>),
    /// A short status string.
    Status(Vec<u8>),
    Integer(i64),
    Nil,
    Okay,
}

/// A decoded stream entry: its ID and its fields in reply order.
pub struct StreamEntry {
    pub id: Vec<u8>,
    pub fields: Vec<(Vec<u8>, Vec<u8>)>,
}

/// What a decoded entry holds.
pub struct EntryModel {
    pub id: Seq<u8>,
    pub fields: Seq<(Seq<u8>, Seq<u8>)>,
}

impl View for StreamEntry {
    type V = EntryModel;

    open spec fn view(&self) -> EntryModel {
        EntryModel { id: self.id@, fields: self.fields@.map_values(|p: (Vec<u8>, Vec<u8>)| (p.0@, p.1@)) }
    }
}

/// The bytes of a string reply, if `v` is one.
pub open spec fn data_of(v: BrokerValue) -> Option<Seq<u8>> {
    match v {
        BrokerValue::Bytes(b) => Some(b@),
        BrokerValue::Status(b) => Some(b@),
        _ => None,
    }
}

/// The field pair in slot `j` (elements `2j` and `2j+1`), if both are strings.
pub open spec fn pair_at(kv: Seq<BrokerValue>, j: int) -> Seq<(Seq<u8>, Seq<u8>)> {
    if 2 * j + 1 < kv.len() && data_of(kv[2 * j]).is_some() && data_of(kv[2 * j + 1]).is_some() {
        seq![(data_of(kv[2 * j]).unwrap(), data_of(kv[2 * j + 1]).unwrap())]
    } else {
        Seq::empty()
    }
}

/// The field pairs of the first `n` slots of a flat `[k1, v1, k2, v2, ...]` list.
pub open spec fn pairs_upto(kv: Seq<BrokerValue>, n: nat) -> Seq<(Seq<u8>, Seq<u8>)>
    decreases n,
{
    if n == 0 {
        Seq::empty()
    } else {
        pairs_upto(kv, (n - 1) as nat) + pair_at(kv, n - 1)
    }
}

/// The fields of an entry: pairs whose key and value are both strings.
pub open spec fn fields_of(v: Option<BrokerValue>) -> Seq<(Seq<u8>, Seq<u8>)> {
    match v {
        Some(BrokerValue::Array(kv)) => pairs_upto(kv@, (kv@.len() / 2) as nat),
        _ => Seq::empty(),
    }
}

/// One entry `[id, [k1, v1, ...]]`; none where it is not an array or its ID
/// is missing or empty.
pub open spec fn entry_of(v: BrokerValue) -> Option<EntryModel> {
    match v {
        BrokerValue::Array(parts) => {
            let id = if parts@.len() > 0 && data_of(parts@[0]).is_some() {
                data_of(parts@[0]).unwrap()
            } else {
                Seq::empty()
            };
            if id.len() == 0 {
                None
            } else {
                Some(
                    EntryModel {
                        id,
                        fields: fields_of(if parts@.len() > 1 { Some(parts@[1]) } else { None }),
                    },
                )
            }
        },
        _ => None,
    }
}

pub open spec fn opt_seq<T>(o: Option<T>) -> Seq<T> {
    match o {
        Some(x) => seq![x],
        None => Seq::empty(),
    }
}

pub open spec fn entries_upto(es: Seq<BrokerValue>, n: nat) -> Seq<EntryModel>
    decreases n,
{
    if n == 0 {
        Seq::empty()
    } else {
        entries_upto(es, (n - 1) as nat) + opt_seq(entry_of(es[n - 1]))
    }
}

/// The entries of one stream `[name, [entry, ...]]`.
pub open spec fn stream_entries(s: BrokerValue) -> Seq<EntryModel> {
    match s {
        BrokerValue::Array(parts) => if parts@.len() == 2 {
            match parts@[1] {
                BrokerValue::Array(es) => entries_upto(es@, es@.len()),
                _ => Seq::empty(),
            }
        } else {
            Seq::empty()
        },
        _ => Seq::empty(),
    }
}

pub open spec fn streams_upto(ss: Seq<BrokerValue>, n: nat) -> Seq<EntryModel>
    decreases n,
{
    if n == 0 {
        Seq::empty()
    } else {
        streams_upto(ss, (n - 1) as nat) + stream_entries(ss[n - 1])
    }
}

/// The entries of a stream read reply `[[stream, [[id, [k, v, ...]], ...]], ...]`,
/// in reply order; anything of another shape contributes nothing.
pub open spec fn decode_spec(v: BrokerValue) -> Seq<EntryModel> {
    match v {
        BrokerValue::Array(ss) => streams_upto(ss@, ss@.len()),
        _ => Seq::empty(),
    }
}

pub fn copy_bytes(b: &[u8]) -> (r: Vec<u8>)
    ensures
        r@ == b@,
{
    let mut r: Vec<u8> = Vec::new();
    let mut i: usize = 0;
    while i < b.len()
        invariant
            i <= b@.len(),
            r@ == b@.subrange(0, i as int),
        decreases b@.len() - i,
    {
        r.push(b[i]);
        i = i + 1;
        assert(r@ =~= b@.subrange(0, i as int));
    }
    assert(b@.subrange(0, b@.len() as int) =~= b@);
    r
}

/// The elements of `v`, if it is an array.
pub fn as_bulk(v: &BrokerValue) -> (r: Option<&Vec<BrokerValue>>)
    ensures
        match *v {
            BrokerValue::Array(a) => r == Some(&a),
            _ => r.is_none(),
        },
{
    match v {
        BrokerValue::Array(a) => Some(a),
        _ => None,
    }
}

/// The bytes of `v`, if it is a string reply.
pub fn as_data(v: &BrokerValue) -> (r: Option<&Vec<u8>>)
    ensures
        match r {
            Some(b) => data_of(*v) == Some(b@),
            None => data_of(*v).is_none(),
        },
{
    match v {
        BrokerValue::Bytes(b) => Some(b),
        BrokerValue::Status(b) => Some(b),
        _ => None,
    }
}

fn decode_fields(kv: &Vec<BrokerValue>) -> (r: Vec<(Vec<u8>, Vec<u8>)>)
    ensures
        r@.map_values(|p: (Vec<u8>, Vec<u8>)| (p.0@, p.1@)) == pairs_upto(kv@, (kv@.len() / 2) as nat),
{
    let mut r: Vec<(Vec<u8>, Vec<u8>)> = Vec::new();
    let mut j: usize = 0;
    let len = kv.len();
    let n = len / 2;
    while j < n
        invariant
            len == kv@.len(),
            n == kv@.len() / 2,
            j <= n,
            r@.map_values(|p: (Vec<u8>, Vec<u8>)| (p.0@, p.1@)) == pairs_upto(kv@, j as nat),
        decreases n - j,
    {
        assert(2 * j + 1 < kv@.len()) by (nonlinear_arith)
            requires
                j < n,
                n == kv@.len() / 2,
        ;
        match (as_data(&kv[2 * j]), as_data(&kv[2 * j + 1])) {
            (Some(k), Some(v)) => {
                r.push((copy_bytes(k.as_slice()), copy_bytes(v.as_slice())));
            },
            _ => {},
        }
        j = j + 1;
        assert(r@.map_values(|p: (Vec<u8>, Vec<u8>)| (p.0@, p.1@)) =~= pairs_upto(kv@, j as nat));
    }
    r
}

/// Decodes one entry `[id, [k1, v1, ...]]`; `None` where it has no usable ID.
pub fn decode_entry(v: &BrokerValue) -> (r: Option<StreamEntry>)
    ensures
        match r {
            Some(e) => entry_of(*v) == Some(e@),
            None => entry_of(*v).is_none(),
        },
{
    let parts = match as_bulk(v) {
        Some(p) => p,
        None => return None,
    };
    let id = if parts.len() > 0 {
        match as_data(&parts[0]) {
            Some(b) => copy_bytes(b.as_slice()),
            None => Vec::new(),
        }
    } else {
        Vec::new()
    };
    if id.len() == 0 {
        return None;
    }
    let fields = if parts.len() > 1 {
        match as_bulk(&parts[1]) {
            Some(kv) => decode_fields(kv),
            None => Vec::new(),
        }
    } else {
        Vec::new()
    };
    let e = StreamEntry { id, fields };
    assert(e@.fields =~= fields_of(if parts@.len() > 1 { Some(parts@[1]) } else { None }));
    Some(e)
}

/// Decodes a stream read reply into its entries, in reply order, skipping
/// whatever does not have the expected shape.
pub fn decode_response(v: &BrokerValue) -> (r: Vec<StreamEntry>)
    ensures
        r@.map_values(|e: StreamEntry| e@) == decode_spec(*v),
        forall|i: int| 0 <= i < r@.len() ==> r@[i].id@.len() > 0,
{
    let mut r: Vec<StreamEntry> = Vec::new();
    let streams = match as_bulk(v) {
        Some(s) => s,
        None => return r,
    };
    let mut i: usize = 0;
    while i < streams.len()
        invariant
            i <= streams@.len(),
            *v == BrokerValue::Array(*streams),
            r@.map_values(|e: StreamEntry| e@) == streams_upto(streams@, i as nat),
            forall|k: int| 0 <= k < r@.len() ==> r@[k].id@.len() > 0,
        decreases streams@.len() - i,
    {
        let ghost r0 = r@.map_values(|e: StreamEntry| e@);
        let s = &streams[i];
        if let Some(parts) = as_bulk(s) {
            if parts.len() == 2 {
                if let Some(es) = as_bulk(&parts[1]) {
                    let mut k: usize = 0;
                    while k < es.len()
                        invariant
                            k <= es@.len(),
                            r@.map_values(|e: StreamEntry| e@) == r0 + entries_upto(es@, k as nat),
                            forall|q: int| 0 <= q < r@.len() ==> r@[q].id@.len() > 0,
                        decreases es@.len() - k,
                    {
                        let ghost r1 = r@.map_values(|e: StreamEntry| e@);
                        match decode_entry(&es[k]) {
                            Some(e) => {
                                r.push(e);
                            },
                            None => {},
                        }
                        proof {
                            assert(r@.map_values(|e: StreamEntry| e@) =~= r1 + opt_seq(
                                entry_of(es@[k as int]),
                            ));
                            assert(entries_upto(es@, (k + 1) as nat) == entries_upto(es@, k as nat)
                                + opt_seq(entry_of(es@[k as int])));
                        }
                        k = k + 1;
                        assert(r@.map_values(|e: StreamEntry| e@) =~= r0 + entries_upto(
                            es@,
                            k as nat,
                        ));
                    }
                }
            }
        }
        i = i + 1;
        assert(r@.map_values(|e: StreamEntry| e@) =~= streams_upto(streams@, i as nat));
    }
    r
}

/// `x` is the reply form `[id, [k1, v1, k2, v2, ...]]` of the entry `e`.
pub open spec fn encodes_entry(x: BrokerValue, e: EntryModel) -> bool {
    match x {
        BrokerValue::Array(p) => {
            &&& p@.len() == 2
            &&& data_of(p@[0]) == Some(e.id)
            &&& match p@[1] {
                BrokerValue::Array(kv) => {
                    &&& kv@.len() == 2 * e.fields.len()
                    &&& forall|j: int|
                        0 <= j < e.fields.len() ==> data_of(#[trigger] kv@[2 * j]) == Some(e.fields[j].0)
                            && data_of(kv@[2 * j + 1]) == Some(e.fields[j].1)
                },
                _ => false,
            }
        },
        _ => false,
    }
}

/// `r` is the reply form `[[stream, [entry, ...]]]` of the entries `es`.
/// The stream name of the first stream of a read reply, if it has one.
pub open spec fn first_stream_name(r: BrokerValue) -> Option<Seq<u8>> {
    match r {
        BrokerValue::Array(ss) => if ss@.len() > 0 {
            match ss@[0] {
                BrokerValue::Array(parts) => if parts@.len() > 0 {
                    data_of(parts@[0])
                } else {
                    None
                },
                _ => None,
            }
        } else {
            None
        },
        _ => None,
    }
}

pub open spec fn encodes(r: BrokerValue, es: Seq<EntryModel>) -> bool {
    match r {
        BrokerValue::Array(ss) => {
            &&& ss@.len() == 1
            &&& match ss@[0] {
                BrokerValue::Array(parts) => {
                    &&& parts@.len() == 2
                    &&& data_of(parts@[0]).is_some()
                    &&& match parts@[1] {
                        BrokerValue::Array(items) => {
                            &&& items@.len() == es.len()
                            &&& forall|i: int| 0 <= i < es.len() ==> encodes_entry(#[trigger] items@[i], es[i])
                        },
                        _ => false,
                    }
                },
                _ => false,
            }
        },
        _ => false,
    }
}

proof fn lemma_pairs_of_encoding(kv: Seq<BrokerValue>, fields: Seq<(Seq<u8>, Seq<u8>)>, n: nat)
    requires
        kv.len() == 2 * fields.len(),
        n <= fields.len(),
        forall|j: int|
            0 <= j < fields.len() ==> data_of(#[trigger] kv[2 * j]) == Some(fields[j].0) && data_of(
                kv[2 * j + 1],
            ) == Some(fields[j].1),
    ensures
        pairs_upto(kv, n) == fields.subrange(0, n as int),
    decreases n,
{
    if n > 0 {
        lemma_pairs_of_encoding(kv, fields, (n - 1) as nat);
        let j = n - 1;
        assert(data_of(kv[2 * j]) == Some(fields[j].0));
        assert(pair_at(kv, j) == seq![fields[j]]);
        assert(fields.subrange(0, n as int) =~= fields.subrange(0, j) + seq![fields[j]]);
    } else {
        assert(fields.subrange(0, 0) =~= Seq::<(Seq<u8>, Seq<u8>)>::empty());
    }
}

proof fn lemma_entries_of_encoding(items: Seq<BrokerValue>, es: Seq<EntryModel>, n: nat)
    requires
        items.len() == es.len(),
        n <= es.len(),
        forall|i: int| 0 <= i < es.len() ==> encodes_entry(#[trigger] items[i], es[i]),
        forall|i: int| 0 <= i < es.len() ==> (#[trigger] es[i]).id.len() > 0,
    ensures
        entries_upto(items, n) == es.subrange(0, n as int),
    decreases n,
{
    if n > 0 {
        lemma_entries_of_encoding(items, es, (n - 1) as nat);
        let i = n - 1;
        let e = es[i];
        assert(encodes_entry(items[i], e));
        assert(e.id.len() > 0);
        match items[i] {
            BrokerValue::Array(p) => {
                match p@[1] {
                    BrokerValue::Array(kv) => {
                        assert(kv@.len() / 2 == e.fields.len());
                        lemma_pairs_of_encoding(kv@, e.fields, e.fields.len());
                        assert(e.fields.subrange(0, e.fields.len() as int) =~= e.fields);
                    },
                    _ => {},
                }
            },
            _ => {},
        }
        assert(entry_of(items[i]) == Some(e));
        assert(es.subrange(0, n as int) =~= es.subrange(0, i) + seq![e]);
    } else {
        assert(es.subrange(0, 0) =~= Seq::<EntryModel>::empty());
    }
}

/// Decoding the reply form of entries with non-empty IDs gives those entries back.
pub proof fn lemma_decode_of_encoding(r: BrokerValue, es: Seq<EntryModel>)
    requires
        encodes(r, es),
        forall|i: int| 0 <= i < es.len() ==> (#[trigger] es[i]).id.len() > 0,
    ensures
        decode_spec(r) == es,
{
    match r {
        BrokerValue::Array(ss) => {
            match ss@[0] {
                BrokerValue::Array(parts) => {
                    match parts@[1] {
                        BrokerValue::Array(items) => {
                            lemma_entries_of_encoding(items@, es, es.len());
                            assert(es.subrange(0, es.len() as int) =~= es);
                            assert(streams_upto(ss@, 0) =~= Seq::<EntryModel>::empty());
                            assert(streams_upto(ss@, 1) =~= stream_entries(ss@[0]));
                        },
                        _ => {},
                    }
                },
                _ => {},
            }
        },
        _ => {},
    }
}

proof fn lemma_entries_have_ids(es: Seq<BrokerValue>, n: nat)
    requires
        n <= es.len(),
    ensures
        forall|i: int| 0 <= i < entries_upto(es, n).len() ==> (#[trigger] entries_upto(es, n)[i]).id.len() > 0,
    decreases n,
{
    if n > 0 {
        lemma_entries_have_ids(es, (n - 1) as nat);
        let pre = entries_upto(es, (n - 1) as nat);
        let all = entries_upto(es, n);
        assert forall|i: int| 0 <= i < all.len() implies (#[trigger] all[i]).id.len() > 0 by {
            if i >= pre.len() {
                assert(all[i] == entry_of(es[n - 1]).unwrap());
            } else {
                assert(all[i] == pre[i]);
            }
        }
    }
}

proof fn lemma_decoded_have_ids(ss: Seq<BrokerValue>, n: nat)
    requires
        n <= ss.len(),
    ensures
        forall|i: int| 0 <= i < streams_upto(ss, n).len() ==> (#[trigger] streams_upto(ss, n)[i]).id.len() > 0,
    decreases n,
{
    if n > 0 {
        lemma_decoded_have_ids(ss, (n - 1) as nat);
        let pre = streams_upto(ss, (n - 1) as nat);
        let all = streams_upto(ss, n);
        let tail = stream_entries(ss[n - 1]);
        match ss[n - 1] {
            BrokerValue::Array(parts) => if parts@.len() == 2 {
                match parts@[1] {
                    BrokerValue::Array(es) => lemma_entries_have_ids(es@, es@.len()),
                    _ => {},
                }
            },
            _ => {},
        }
        assert forall|i: int| 0 <= i < all.len() implies (#[trigger] all[i]).id.len() > 0 by {
            if i >= pre.len() {
                assert(all[i] == tail[i - pre.len()]);
            } else {
                assert(all[i] == pre[i]);
            }
        }
    }
}

/// Decoding is stable under re-encoding: the reply form of what a reply
/// decodes to decodes to the same entries.
pub proof fn lemma_decode_round_trip(v: BrokerValue, r: BrokerValue)
    requires
        encodes(r, decode_spec(v)),
    ensures
        decode_spec(r) == decode_spec(v),
{
    match v {
        BrokerValue::Array(ss) => lemma_decoded_have_ids(ss@, ss@.len()),
        _ => {},
    }
    lemma_decode_of_encoding(r, decode_spec(v));
}

/// The reply form `[[stream, [[id, [k1, v1, ...]], ...]]]` of `entries`.
pub fn encode_response(stream: &[u8], entries: &Vec<StreamEntry>) -> (r: BrokerValue)
    ensures
        encodes(r, entries@.map_values(|e: StreamEntry| e@)),
        first_stream_name(r) == Some(stream@),
{
    let ghost es = entries@.map_values(|e: StreamEntry| e@);
    let mut items: Vec<BrokerValue> = Vec::new();
    let mut i: usize = 0;
    while i < entries.len()
        invariant
            i <= entries@.len(),
            es == entries@.map_values(|e: StreamEntry| e@),
            items@.len() == i,
            forall|q: int| 0 <= q < i ==> encodes_entry(#[trigger] items@[q], es[q]),
        decreases entries@.len() - i,
    {
        let e = &entries[i];
        let mut kv: Vec<BrokerValue> = Vec::new();
        let mut j: usize = 0;
        while j < e.fields.len()
            invariant
                j <= e.fields@.len(),
                kv@.len() == 2 * j,
                forall|t: int|
                    0 <= t < j ==> data_of(#[trigger] kv@[2 * t]) == Some(e@.fields[t].0) && data_of(
                        kv@[2 * t + 1],
                    ) == Some(e@.fields[t].1),
            decreases e.fields@.len() - j,
        {
            let k = copy_bytes(e.fields[j].0.as_slice());
            let v = copy_bytes(e.fields[j].1.as_slice());
            kv.push(BrokerValue::Bytes(k));
            kv.push(BrokerValue::Bytes(v));
            assert forall|t: int|
                0 <= t < j + 1 implies data_of(#[trigger] kv@[2 * t]) == Some(e@.fields[t].0)
                && data_of(kv@[2 * t + 1]) == Some(e@.fields[t].1) by {
                if t == j {
                    assert(kv@[2 * t] == BrokerValue::Bytes(k));
                }
            }
            j = j + 1;
        }
        let mut p: Vec<BrokerValue> = Vec::new();
        p.push(BrokerValue::Bytes(copy_bytes(e.id.as_slice())));
        p.push(BrokerValue::Array(kv));
        let x = BrokerValue::Array(p);
        assert(encodes_entry(x, es[i as int]));
        items.push(x);
        i = i + 1;
    }
    let mut parts: Vec<BrokerValue> = Vec::new();
    parts.push(BrokerValue::Bytes(copy_bytes(stream)));
    parts.push(BrokerValue::Array(items));
    let mut ss: Vec<BrokerValue> = Vec::new();
    ss.push(BrokerValue::Array(parts));
    BrokerValue::Array(ss)
}

} // verus!
