//! The wire record: a foreign function's volatility, argument and result type
//! descriptors and opaque body, framed as tag/value fields.
//!
//! Each field is a key (`tag * 8 + wire type`, as a varint) and a value. The
//! volatility is a varint under tag 1, omitted when `Volatile`. Each argument
//! type is a length-prefixed value under tag 2, the result type one under tag
//! 3, the body one under tag 5, omitted when empty. Tag 4 is reserved. A type
//! descriptor is carried as the bytes of its own encoding.
use vstd::prelude::*;
use crate::varint::{
    lemma_varint_at_bounds, lemma_varint_at_encoded, read_varint, varint_at, varint_bytes,
    write_varint,
};

verus! {

/// How repeatable a function's result is.
#[derive(Clone, Copy, Debug, PartialEq, Eq, Structural)]
pub enum Volatility {
    Volatile,
    Immutable,
    Stable,
}

pub open spec fn volatility_code(v: Volatility) -> u64 {
    match v {
        Volatility::Volatile => 0,
        Volatility::Immutable => 1,
        Volatility::Stable => 2,
    }
}

/// Codes other than 1 and 2 read as `Volatile`, the default.
pub open spec fn volatility_of_code(c: u64) -> Volatility {
    if c == 1 {
        Volatility::Immutable
    } else if c == 2 {
        Volatility::Stable
    } else {
        Volatility::Volatile
    }
}

impl Volatility {
    pub fn code(&self) -> (r: u64)
        ensures
            r == volatility_code(*self),
    {
        match self {
            Volatility::Volatile => 0,
            Volatility::Immutable => 1,
            Volatility::Stable => 2,
        }
    }

    pub fn from_code(c: u64) -> (r: Volatility)
        ensures
            r == volatility_of_code(c),
    {
        if c == 1 {
            Volatility::Immutable
        } else if c == 2 {
            Volatility::Stable
        } else {
            Volatility::Volatile
        }
    }
}

pub const KEY_VOLATILITY: u8 = 0x08;

pub const KEY_INPUT_TYPE: u8 = 0x12;

pub const KEY_RESULT_TYPE: u8 = 0x1a;

pub const KEY_BLOB: u8 = 0x2a;

/// What a wire record holds.
pub struct UdfRecord {
    pub volatility: Volatility,
    pub input_types: Seq<Seq<u8>>,
    pub result_type: Option<Seq<u8>>,
    pub blob: Seq<u8>,
}

/// The record that an empty buffer decodes to.
pub open spec fn empty_record() -> UdfRecord {
    UdfRecord {
        volatility: Volatility::Volatile,
        input_types: Seq::empty(),
        result_type: None,
        blob: Seq::empty(),
    }
}

/// Every length that the framing writes fits in a varint.
pub open spec fn record_fits(r: UdfRecord) -> bool {
    &&& forall|k: int| 0 <= k < r.input_types.len() ==> #[trigger] r.input_types[k].len() <= u64::MAX
    &&& r.result_type matches Some(t) ==> t.len() <= u64::MAX
    &&& r.blob.len() <= u64::MAX
}

/// A length-prefixed field: key, length, payload.
pub open spec fn delimited(key: u8, payload: Seq<u8>) -> Seq<u8> {
    seq![key] + varint_bytes(payload.len() as u64) + payload
}

pub open spec fn encode_input_types(ts: Seq<Seq<u8>>) -> Seq<u8>
    decreases ts.len(),
{
    if ts.len() == 0 {
        Seq::empty()
    } else {
        encode_input_types(ts.drop_last()) + delimited(KEY_INPUT_TYPE, ts.last())
    }
}

pub open spec fn encode_volatility(v: Volatility) -> Seq<u8> {
    if v == Volatility::Volatile {
        Seq::empty()
    } else {
        seq![KEY_VOLATILITY, volatility_code(v) as u8]
    }
}

pub open spec fn encode_result_type(t: Option<Seq<u8>>) -> Seq<u8> {
    match t {
        None => Seq::empty(),
        Some(t) => delimited(KEY_RESULT_TYPE, t),
    }
}

pub open spec fn encode_blob(b: Seq<u8>) -> Seq<u8> {
    if b.len() == 0 {
        Seq::empty()
    } else {
        delimited(KEY_BLOB, b)
    }
}

/// The bytes of a record: its fields in tag order.
pub open spec fn encode_record(r: UdfRecord) -> Seq<u8> {
    encode_volatility(r.volatility) + encode_input_types(r.input_types) + encode_result_type(
        r.result_type,
    ) + encode_blob(r.blob)
}

/// A varint field: tag 1 sets the volatility, any other is skipped.
pub open spec fn with_varint(acc: UdfRecord, tag: u64, v: u64) -> UdfRecord {
    if tag == 1 {
        UdfRecord { volatility: volatility_of_code(v), ..acc }
    } else {
        acc
    }
}

/// A length-prefixed field: tag 2 adds an argument type, tag 3 merges into
/// the result type (a repeated message field merges, which on its bytes is
/// concatenation), tag 5 sets the body, any other is skipped.
pub open spec fn with_bytes(acc: UdfRecord, tag: u64, b: Seq<u8>) -> UdfRecord {
    if tag == 2 {
        UdfRecord { input_types: acc.input_types.push(b), ..acc }
    } else if tag == 3 {
        UdfRecord {
            result_type: Some(
                match acc.result_type {
                    None => b,
                    Some(p) => p + b,
                },
            ),
            ..acc
        }
    } else if tag == 5 {
        UdfRecord { blob: b, ..acc }
    } else {
        acc
    }
}

/// Keys that the decoder accepts: a tag of at least 1, one of the wire types
/// varint (0), fixed 64 bits (1), length-prefixed (2) and fixed 32 bits (5),
/// and the wire type that each known tag is written with.
pub open spec fn field_accepted(tag: u64, wt: u64) -> bool {
    &&& tag >= 1
    &&& wt == 0 || wt == 1 || wt == 2 || wt == 5
    &&& tag == 1 ==> wt == 0
    &&& (tag == 2 || tag == 3 || tag == 5) ==> wt == 2
}

/// Decodes the fields from index `i` on into `acc`; `None` when the bytes are
/// malformed or truncated.
pub open spec fn decode_fields(s: Seq<u8>, i: int, acc: UdfRecord) -> Option<UdfRecord>
    decreases s.len() - i,
    via decode_fields_decreases
{
    if i < 0 || i >= s.len() {
        Some(acc)
    } else {
        match varint_at(s, i) {
            None => None,
            Some((key, j)) => {
                let tag = key / 8;
                let wt = key % 8;
                if key > u32::MAX || !field_accepted(tag, wt) {
                    None
                } else if wt == 0 {
                    match varint_at(s, j) {
                        None => None,
                        Some((v, k)) => decode_fields(s, k, with_varint(acc, tag, v)),
                    }
                } else if wt == 2 {
                    match varint_at(s, j) {
                        None => None,
                        Some((n, k)) => {
                            if n > s.len() - k {
                                None
                            } else {
                                decode_fields(s, k + n, with_bytes(acc, tag, s.subrange(k, k + n)))
                            }
                        },
                    }
                } else {
                    let w = if wt == 1 {
                        8int
                    } else {
                        4int
                    };
                    if j + w > s.len() {
                        None
                    } else {
                        decode_fields(s, j + w, acc)
                    }
                }
            },
        }
    }
}

#[via_fn]
proof fn decode_fields_decreases(s: Seq<u8>, i: int, acc: UdfRecord) {
    lemma_varint_at_bounds(s, i);
    if let Some((key, j)) = varint_at(s, i) {
        lemma_varint_at_bounds(s, j);
    }
}

/// The record that `s` decodes to, or `None` when it is malformed.
pub open spec fn decode_record(s: Seq<u8>) -> Option<UdfRecord> {
    decode_fields(s, 0, empty_record())
}


proof fn lemma_decode_delimited(s: Seq<u8>, i: int, key: u8, payload: Seq<u8>, acc: UdfRecord)
    requires
        key == KEY_INPUT_TYPE || key == KEY_RESULT_TYPE || key == KEY_BLOB,
        payload.len() <= u64::MAX,
        0 <= i,
        i + delimited(key, payload).len() <= s.len(),
        s.subrange(i, i + delimited(key, payload).len()) == delimited(key, payload),
    ensures
        decode_fields(s, i, acc) == decode_fields(
            s,
            i + delimited(key, payload).len(),
            with_bytes(acc, (key / 8) as u64, payload),
        ),
{
    let d = delimited(key, payload);
    let lb = varint_bytes(payload.len() as u64);
    let m: int = lb.len() as int;
    assert(s[i] == d[0]);
    assert(varint_at(s, i) == Some((key as u64, i + 1)));
    assert(s.subrange(i + 1, i + 1 + m) =~= d.subrange(1, 1 + m));
    assert(d.subrange(1, 1 + m) =~= lb);
    lemma_varint_at_encoded(s, i + 1, payload.len() as u64);
    let k = i + 1 + m;
    assert(s.subrange(k, k + payload.len()) =~= d.subrange(1 + m, d.len() as int));
    assert(d.subrange(1 + m, d.len() as int) =~= payload);
}

proof fn lemma_decode_volatility(s: Seq<u8>, i: int, v: Volatility, acc: UdfRecord)
    requires
        v != Volatility::Volatile,
        0 <= i,
        i + 2 <= s.len(),
        s.subrange(i, i + 2) == encode_volatility(v),
    ensures
        decode_fields(s, i, acc) == decode_fields(s, i + 2, UdfRecord { volatility: v, ..acc }),
{
    assert(s[i] == s.subrange(i, i + 2)[0]);
    assert(s[i + 1] == s.subrange(i, i + 2)[1]);
    assert(varint_at(s, i) == Some((KEY_VOLATILITY as u64, i + 1)));
    assert(varint_at(s, i + 1) == Some((volatility_code(v), i + 2)));
    assert(with_varint(acc, 1, volatility_code(v)) == UdfRecord { volatility: v, ..acc });
}

proof fn lemma_decode_input_types(s: Seq<u8>, p: int, ts: Seq<Seq<u8>>, acc: UdfRecord)
    requires
        forall|k: int| 0 <= k < ts.len() ==> #[trigger] ts[k].len() <= u64::MAX,
        0 <= p,
        p + encode_input_types(ts).len() <= s.len(),
        s.subrange(p, p + encode_input_types(ts).len()) == encode_input_types(ts),
    ensures
        decode_fields(s, p, acc) == decode_fields(
            s,
            p + encode_input_types(ts).len(),
            UdfRecord { input_types: acc.input_types + ts, ..acc },
        ),
    decreases ts.len(),
{
    if ts.len() == 0 {
        assert(acc.input_types + ts =~= acc.input_types);
    } else {
        let init = ts.drop_last();
        let e = encode_input_types(ts);
        let ei = encode_input_types(init);
        let d = delimited(KEY_INPUT_TYPE, ts.last());
        assert(e == ei + d);
        assert(s.subrange(p, p + ei.len()) =~= e.subrange(0, ei.len() as int));
        assert(e.subrange(0, ei.len() as int) =~= ei);
        lemma_decode_input_types(s, p, init, acc);
        let mid = UdfRecord { input_types: acc.input_types + init, ..acc };
        assert(s.subrange(p + ei.len(), p + e.len()) =~= e.subrange(ei.len() as int, e.len() as int));
        assert(e.subrange(ei.len() as int, e.len() as int) =~= d);
        assert(ts.last().len() <= u64::MAX);
        lemma_decode_delimited(s, p + ei.len(), KEY_INPUT_TYPE, ts.last(), mid);
        assert((acc.input_types + init).push(ts.last()) =~= acc.input_types + ts);
    }
}

/// Decoding the bytes of a record gives the record back: its volatility, its
/// argument types in order, its result type and its body.
pub proof fn lemma_record_round_trip(r: UdfRecord)
    requires
        record_fits(r),
    ensures
        decode_record(encode_record(r)) == Some(r),
{
    let a = encode_volatility(r.volatility);
    let b = encode_input_types(r.input_types);
    let c = encode_result_type(r.result_type);
    let d = encode_blob(r.blob);
    let s = encode_record(r);
    assert(s == a + b + c + d);
    let pb = a.len() as int;
    let pc = pb + b.len();
    let pd = pc + c.len();
    assert(s.subrange(0, pb) =~= a);
    assert(s.subrange(pb, pc) =~= b);
    assert(s.subrange(pc, pd) =~= c);
    assert(s.subrange(pd, s.len() as int) =~= d);
    let acc0 = empty_record();
    let acc1 = UdfRecord { volatility: r.volatility, ..acc0 };
    if r.volatility != Volatility::Volatile {
        lemma_decode_volatility(s, 0, r.volatility, acc0);
    }
    assert(decode_fields(s, 0, acc0) == decode_fields(s, pb, acc1));
    lemma_decode_input_types(s, pb, r.input_types, acc1);
    let acc2 = UdfRecord { input_types: acc1.input_types + r.input_types, ..acc1 };
    assert(acc1.input_types + r.input_types =~= r.input_types);
    let acc3 = UdfRecord { result_type: r.result_type, ..acc2 };
    if let Some(t) = r.result_type {
        lemma_decode_delimited(s, pc, KEY_RESULT_TYPE, t, acc2);
    }
    assert(decode_fields(s, pc, acc2) == decode_fields(s, pd, acc3));
    if r.blob.len() != 0 {
        lemma_decode_delimited(s, pd, KEY_BLOB, r.blob, acc3);
    }
    let acc4 = UdfRecord { blob: r.blob, ..acc3 };
    assert(acc3.blob.len() == 0 && r.blob.len() == 0 ==> acc3.blob =~= r.blob);
    assert(decode_fields(s, pd, acc3) == decode_fields(s, s.len() as int, acc4));
    assert(acc4 == r);
}


/// A decoded or to-be-encoded wire record.
pub struct UdfProto {
    pub volatility: Volatility,
    pub input_types: Vec<Vec<u8>>,
    pub result_type: Option<Vec<u8>>,
    pub blob: Vec<u8>,
}

pub open spec fn bytes_of(t: Vec<u8>) -> Seq<u8> {
    t@
}

impl View for UdfProto {
    type V = UdfRecord;

    open spec fn view(&self) -> UdfRecord {
        UdfRecord {
            volatility: self.volatility,
            input_types: self.input_types@.map_values(|t: Vec<u8>| bytes_of(t)),
            result_type: match self.result_type {
                None => None,
                Some(t) => Some(t@),
            },
            blob: self.blob@,
        }
    }
}

/// Appends `src` to `buf`.
fn append_bytes(buf: &mut Vec<u8>, src: &[u8])
    ensures
        final(buf)@ == old(buf)@ + src@,
{
    let mut i: usize = 0;
    while i < src.len()
        invariant
            i <= src@.len(),
            buf@ == old(buf)@ + src@.subrange(0, i as int),
        decreases src@.len() - i,
    {
        buf.push(src[i]);
        i = i + 1;
        assert(buf@ =~= old(buf)@ + src@.subrange(0, i as int));
    }
    assert(src@.subrange(0, i as int) =~= src@);
}

/// The bytes of `src` from `start` up to `end`.
fn copy_range(src: &[u8], start: usize, end: usize) -> (r: Vec<u8>)
    requires
        start <= end <= src@.len(),
    ensures
        r@ == src@.subrange(start as int, end as int),
{
    let mut r: Vec<u8> = Vec::new();
    let mut i: usize = start;
    while i < end
        invariant
            start <= i <= end <= src@.len(),
            r@ == src@.subrange(start as int, i as int),
        decreases end - i,
    {
        r.push(src[i]);
        i = i + 1;
        assert(r@ =~= src@.subrange(start as int, i as int));
    }
    r
}

/// Appends a length-prefixed field.
fn write_delimited(buf: &mut Vec<u8>, key: u8, payload: &[u8])
    ensures
        final(buf)@ == old(buf)@ + delimited(key, payload@),
{
    buf.push(key);
    write_varint(buf, payload.len() as u64);
    append_bytes(buf, payload);
    assert(final(buf)@ =~= old(buf)@ + delimited(key, payload@));
}

impl UdfProto {
    /// Builds the record that carries a foreign function: its volatility, its
    /// argument types, its result type and the serialized callable.
    pub fn try_from_udf(
        volatility: &Volatility,
        input_types: &[Vec<u8>],
        result_type: &[u8],
        blob: Vec<u8>,
    ) -> (r: UdfProto)
        ensures
            r@.volatility == *volatility,
            r@.input_types == input_types@.map_values(|t: Vec<u8>| bytes_of(t)),
            r@.result_type == Some(result_type@),
            r@.blob == blob@,
    {
        let mut types: Vec<Vec<u8>> = Vec::new();
        let mut i: usize = 0;
        while i < input_types.len()
            invariant
                i <= input_types@.len(),
                types@.len() == i,
                forall|k: int| 0 <= k < i ==> #[trigger] types@[k]@ == input_types@[k]@,
            decreases input_types@.len() - i,
        {
            let t = copy_range(input_types[i].as_slice(), 0, input_types[i].len());
            assert(t@ =~= input_types@[i as int]@);
            types.push(t);
            i = i + 1;
        }
        assert(types@.map_values(|t: Vec<u8>| bytes_of(t)) =~= input_types@.map_values(
            |t: Vec<u8>| bytes_of(t),
        ));
        let ret = copy_range(result_type, 0, result_type.len());
        UdfProto { volatility: *volatility, input_types: types, result_type: Some(ret), blob }
    }

    /// Appends the bytes of this record to `buf`.
    pub fn encode(&self, buf: &mut Vec<u8>)
        ensures
            final(buf)@ == old(buf)@ + encode_record(self@),
    {
        let code = self.volatility.code();
        if code != 0 {
            buf.push(KEY_VOLATILITY);
            buf.push(code as u8);
        }
        assert(buf@ =~= old(buf)@ + encode_volatility(self@.volatility));
        let ghost after_vol = buf@;
        let ghost ts = self@.input_types;
        let mut i: usize = 0;
        while i < self.input_types.len()
            invariant
                i <= self.input_types@.len(),
                ts == self@.input_types,
                ts.len() == self.input_types@.len(),
                buf@ == after_vol + encode_input_types(ts.subrange(0, i as int)),
            decreases self.input_types@.len() - i,
        {
            write_delimited(buf, KEY_INPUT_TYPE, self.input_types[i].as_slice());
            proof {
                let sub = ts.subrange(0, i + 1);
                assert(sub.drop_last() =~= ts.subrange(0, i as int));
                assert(sub.last() == self.input_types@[i as int]@);
            }
            i = i + 1;
        }
        assert(ts.subrange(0, i as int) =~= ts);
        let ghost after_types = buf@;
        match &self.result_type {
            None => {},
            Some(t) => write_delimited(buf, KEY_RESULT_TYPE, t.as_slice()),
        }
        let ghost after_ret = buf@;
        assert(after_ret =~= after_types + encode_result_type(self@.result_type));
        if self.blob.len() != 0 {
            write_delimited(buf, KEY_BLOB, self.blob.as_slice());
        }
        assert(buf@ =~= after_ret + encode_blob(self@.blob));
        assert(buf@ =~= old(buf)@ + encode_record(self@));
    }

    /// The record that an empty buffer decodes to.
    pub fn empty() -> (r: UdfProto)
        ensures
            r@ == empty_record(),
    {
        let r = UdfProto {
            volatility: Volatility::Volatile,
            input_types: Vec::new(),
            result_type: None,
            blob: Vec::new(),
        };
        assert(r@.input_types =~= Seq::<Seq<u8>>::empty());
        assert(r@.blob =~= Seq::<u8>::empty());
        r
    }

    /// Decodes a record; `None` exactly when `buf` is malformed or truncated.
    /// Fields may come in any order; unknown tags are skipped.
    pub fn decode(buf: &[u8]) -> (r: Option<UdfProto>)
        ensures
            match decode_record(buf@) {
                None => r.is_none(),
                Some(m) => r matches Some(p) && p@ == m,
            },
    {
        let mut acc = UdfProto::empty();
        let mut i: usize = 0;
        while i < buf.len()
            invariant
                i <= buf@.len(),
                decode_fields(buf@, i as int, acc@) == decode_record(buf@),
            decreases buf@.len() - i,
        {
            let (key, j) = match read_varint(buf, i) {
                None => return None,
                Some(p) => p,
            };
            let tag = key / 8;
            let wt = key % 8;
            if key > u32::MAX as u64 {
                return None;
            }
            let accepted = tag >= 1 && (wt == 0 || wt == 1 || wt == 2 || wt == 5) && (tag != 1
                || wt == 0) && (!(tag == 2 || tag == 3 || tag == 5) || wt == 2);
            if !accepted {
                return None;
            }
            if wt == 0 {
                let (v, k) = match read_varint(buf, j) {
                    None => return None,
                    Some(p) => p,
                };
                if tag == 1 {
                    acc.volatility = Volatility::from_code(v);
                }
                i = k;
            } else if wt == 2 {
                let (n, k) = match read_varint(buf, j) {
                    None => return None,
                    Some(p) => p,
                };
                if n > (buf.len() - k) as u64 {
                    return None;
                }
                let end = k + n as usize;
                let bytes = copy_range(buf, k, end);
                let ghost before = acc@;
                if tag == 2 {
                    acc.input_types.push(bytes);
                    assert(acc@.input_types =~= before.input_types.push(buf@.subrange(
                        k as int,
                        end as int,
                    )));
                } else if tag == 3 {
                    let merged = match &acc.result_type {
                        None => bytes,
                        Some(prev) => {
                            let mut m = copy_range(prev.as_slice(), 0, prev.len());
                            append_bytes(&mut m, bytes.as_slice());
                            m
                        },
                    };
                    acc.result_type = Some(merged);
                    assert(acc@.result_type == with_bytes(before, tag, buf@.subrange(
                        k as int,
                        end as int,
                    )).result_type);
                } else if tag == 5 {
                    acc.blob = bytes;
                }
                assert(acc@ == with_bytes(before, tag, buf@.subrange(k as int, end as int)));
                i = end;
            } else {
                let w: usize = if wt == 1 {
                    8
                } else {
                    4
                };
                if w > buf.len() - j {
                    return None;
                }
                i = j + w;
            }
        }
        Some(acc)
    }

    /// The bytes of this record.
    pub fn encode_to_vec(&self) -> (r: Vec<u8>)
        ensures
            r@ == encode_record(self@),
    {
        let mut buf: Vec<u8> = Vec::new();
        self.encode(&mut buf);
        assert(buf@ =~= encode_record(self@));
        buf
    }
}

} // verus!
