//! Base-128 variable-length integers, least significant group first, as used
//! by the tag/value framing of the wire record.
use vstd::prelude::*;

verus! {

/// The canonical encoding of `v`: seven bits per byte, the high bit set on
/// every byte but the last.
pub open spec fn varint_bytes(v: u64) -> Seq<u8>
    decreases v,
{
    if v < 128 {
        seq![v as u8]
    } else {
        seq![(v % 128 + 128) as u8] + varint_bytes(v / 128)
    }
}

/// Reads a varint that starts at index `i` of `s`: its value and the index
/// just past its last byte, or `None` when the bytes run out before a byte
/// without the high bit, or when the value does not fit in 64 bits.
pub open spec fn varint_at(s: Seq<u8>, i: int) -> Option<(u64, int)>
    decreases s.len() - i,
{
    if i < 0 || i >= s.len() {
        None
    } else if s[i] < 128 {
        Some((s[i] as u64, i + 1))
    } else {
        match varint_at(s, i + 1) {
            None => None,
            Some((rest, end)) => {
                if rest <= (u64::MAX - (s[i] - 128)) / 128 {
                    Some((((s[i] - 128) + 128 * rest) as u64, end))
                } else {
                    None
                }
            },
        }
    }
}

/// Where the bytes of `varint_bytes(v)` stand at index `i` of `s`, reading
/// there gives `v` back and ends just past them.
pub proof fn lemma_varint_at_encoded(s: Seq<u8>, i: int, v: u64)
    requires
        0 <= i,
        i + varint_bytes(v).len() <= s.len(),
        s.subrange(i, i + varint_bytes(v).len()) == varint_bytes(v),
    ensures
        varint_at(s, i) == Some((v, i + varint_bytes(v).len())),
    decreases v,
{
    let e = varint_bytes(v);
    assert(s[i] == s.subrange(i, i + e.len())[0]);
    if v >= 128 {
        let t = varint_bytes(v / 128);
        assert(e == seq![(v % 128 + 128) as u8] + t);
        assert(s.subrange(i + 1, i + 1 + t.len()) =~= e.subrange(1, e.len() as int));
        assert(e.subrange(1, e.len() as int) =~= t);
        lemma_varint_at_encoded(s, i + 1, v / 128);
        assert(v / 128 <= (u64::MAX - v % 128) / 128) by (nonlinear_arith)
            requires
                v <= u64::MAX,
        ;
    }
}

/// Reading fails at `i` when every byte from `i` up to `m` has the high bit
/// and reading fails at `m`.
pub proof fn lemma_varint_fails_from(s: Seq<u8>, i: int, m: int)
    requires
        0 <= i <= m,
        varint_at(s, m).is_none(),
        forall|k: int| i <= k < m ==> #[trigger] s[k] >= 128,
    ensures
        varint_at(s, i).is_none(),
    decreases m - i,
{
    if i < m {
        lemma_varint_fails_from(s, i + 1, m);
    }
}

pub proof fn lemma_varint_at_bounds(s: Seq<u8>, i: int)
    ensures
        varint_at(s, i) matches Some((v, e)) ==> i < e <= s.len(),
    decreases s.len() - i,
{
    if 0 <= i < s.len() && s[i] >= 128 {
        lemma_varint_at_bounds(s, i + 1);
    }
}

/// Appends the encoding of `v` to `buf`.
pub fn write_varint(buf: &mut Vec<u8>, v: u64)
    ensures
        final(buf)@ == old(buf)@ + varint_bytes(v),
{
    let mut x: u64 = v;
    while x >= 128
        invariant
            buf@ + varint_bytes(x) == old(buf)@ + varint_bytes(v),
        decreases x,
    {
        let ghost before = buf@;
        buf.push((x % 128 + 128) as u8);
        assert(before + varint_bytes(x) =~= buf@ + varint_bytes(x / 128));
        x = x / 128;
    }
    let ghost before = buf@;
    buf.push(x as u8);
    assert(before + varint_bytes(x) =~= buf@);
}

/// Reads the varint that starts at `start`: its value and the index just past it.
pub fn read_varint(buf: &[u8], start: usize) -> (r: Option<(u64, usize)>)
    ensures
        match varint_at(buf@, start as int) {
            None => r.is_none(),
            Some((v, e)) => r == Some((v, e as usize)) && start < e <= buf@.len(),
        },
{
    proof {
        lemma_varint_at_bounds(buf@, start as int);
    }
    if start >= buf.len() {
        return None;
    }
    let mut j: usize = start;
    while j < buf.len() && buf[j] >= 128
        invariant
            start <= j <= buf@.len(),
            forall|k: int| start <= k < j ==> #[trigger] buf@[k] >= 128,
        decreases buf@.len() - j,
    {
        j = j + 1;
    }
    if j == buf.len() {
        proof {
            lemma_varint_fails_from(buf@, start as int, j as int);
        }
        return None;
    }
    let mut acc: u64 = buf[j] as u64;
    let mut k: usize = j;
    while k > start
        invariant
            start <= k <= j < buf@.len(),
            varint_at(buf@, k as int) == Some((acc, j + 1)),
            forall|q: int| start <= q < j ==> #[trigger] buf@[q] >= 128,
        decreases k,
    {
        let low: u64 = (buf[k - 1] - 128) as u64;
        if acc > (u64::MAX - low) / 128 {
            proof {
                lemma_varint_fails_from(buf@, start as int, k - 1);
            }
            return None;
        }
        assert(128 * acc <= u64::MAX - low) by (nonlinear_arith)
            requires
                acc <= (u64::MAX - low) / 128,
        ;
        acc = low + 128 * acc;
        k = k - 1;
    }
    Some((acc, j + 1))
}

} // verus!
