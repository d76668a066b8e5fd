//! The byte format in which the search cache is stored between runs.
//!
//! Each entry takes thirteen bytes: the app id (four bytes, least significant
//! first), a marker (1 when a game was found, 0 for "not found"), and the
//! game id (eight bytes, least significant first; zero for "not found").
use vstd::prelude::*;

verus! {

/// Bytes taken by one stored entry.
pub const RECORD_LEN: usize = 13;

/// The four bytes of `x`, least significant first.
pub open spec fn u32_bytes(x: u32) -> Seq<u8> {
    seq![(x & 0xff) as u8, ((x >> 8u32) & 0xff) as u8, ((x >> 16u32) & 0xff) as u8, ((x >> 24u32) & 0xff) as u8]
}

/// The eight bytes of `x`, least significant first.
pub open spec fn u64_bytes(x: u64) -> Seq<u8> {
    seq![
        (x & 0xff) as u8,
        ((x >> 8u64) & 0xff) as u8,
        ((x >> 16u64) & 0xff) as u8,
        ((x >> 24u64) & 0xff) as u8,
        ((x >> 32u64) & 0xff) as u8,
        ((x >> 40u64) & 0xff) as u8,
        ((x >> 48u64) & 0xff) as u8,
        ((x >> 56u64) & 0xff) as u8,
    ]
}

/// The bytes that store one cache entry.
pub open spec fn record_bytes(e: (u32, Option<usize>)) -> Seq<u8> {
    match e.1 {
        Some(g) => u32_bytes(e.0) + seq![1u8] + u64_bytes(g as u64),
        None => u32_bytes(e.0) + seq![0u8] + u64_bytes(0),
    }
}

/// The bytes that store `es`, entry after entry.
pub open spec fn entries_bytes(es: Seq<(u32, Option<usize>)>) -> Seq<u8>
    decreases es.len(),
{
    if es.len() == 0 {
        Seq::empty()
    } else {
        entries_bytes(es.drop_last()) + record_bytes(es.last())
    }
}

/// The number that the four bytes of `b` from `off` on stand for.
pub open spec fn u32_at(b: Seq<u8>, off: int) -> u32 {
    (b[off] as u32) | ((b[off + 1] as u32) << 8u32) | ((b[off + 2] as u32) << 16u32) | ((b[off + 3] as u32) << 24u32)
}

/// The number that the eight bytes of `b` from `off` on stand for.
pub open spec fn u64_at(b: Seq<u8>, off: int) -> u64 {
    (b[off] as u64) | ((b[off + 1] as u64) << 8u64) | ((b[off + 2] as u64) << 16u64) | ((b[off + 3] as u64) << 24u64)
        | ((b[off + 4] as u64) << 32u64) | ((b[off + 5] as u64) << 40u64) | ((b[off + 6] as u64) << 48u64)
        | ((b[off + 7] as u64) << 56u64)
}

/// Whether the `i`-th record of `b` is well formed: marker 1 with a game id
/// that fits a `usize`, or marker 0 with a zero game id.
pub open spec fn valid_record(b: Seq<u8>, i: int) -> bool {
    let off = 13 * i;
    (b[off + 4] == 1 && u64_at(b, off + 5) <= usize::MAX) || (b[off + 4] == 0 && u64_at(b, off + 5) == 0)
}

/// The entry that the `i`-th record of `b` stores.
pub open spec fn record_at(b: Seq<u8>, i: int) -> (u32, Option<usize>) {
    let off = 13 * i;
    (u32_at(b, off), if b[off + 4] == 1 { Some(u64_at(b, off + 5) as usize) } else { None })
}

/// The entries that `b` stores, or `None` when it is not a whole number of
/// well-formed records.
pub open spec fn decode_spec(b: Seq<u8>) -> Option<Seq<(u32, Option<usize>)>> {
    if b.len() % 13 == 0 && forall|i: int| 0 <= i < b.len() / 13 ==> #[trigger] valid_record(b, i) {
        Some(Seq::new((b.len() / 13) as nat, |i: int| record_at(b, i)))
    } else {
        None
    }
}

fn push_u32(out: &mut Vec<u8>, x: u32)
    ensures
        final(out)@ == old(out)@ + u32_bytes(x),
{
    out.push((x & 0xff) as u8);
    out.push(((x >> 8u32) & 0xff) as u8);
    out.push(((x >> 16u32) & 0xff) as u8);
    out.push(((x >> 24u32) & 0xff) as u8);
    assert(final(out)@ =~= old(out)@ + u32_bytes(x));
}

fn push_u64(out: &mut Vec<u8>, x: u64)
    ensures
        final(out)@ == old(out)@ + u64_bytes(x),
{
    out.push((x & 0xff) as u8);
    out.push(((x >> 8u64) & 0xff) as u8);
    out.push(((x >> 16u64) & 0xff) as u8);
    out.push(((x >> 24u64) & 0xff) as u8);
    out.push(((x >> 32u64) & 0xff) as u8);
    out.push(((x >> 40u64) & 0xff) as u8);
    out.push(((x >> 48u64) & 0xff) as u8);
    out.push(((x >> 56u64) & 0xff) as u8);
    assert(final(out)@ =~= old(out)@ + u64_bytes(x));
}

/// The bytes that store `entries`.
pub fn encode_entries(entries: &Vec<(u32, Option<usize>)>) -> (r: Vec<u8>)
    ensures
        r@ == entries_bytes(entries@),
{
    let mut out: Vec<u8> = Vec::new();
    let mut i: usize = 0;
    while i < entries.len()
        invariant
            i <= entries@.len(),
            out@ == entries_bytes(entries@.take(i as int)),
        decreases entries@.len() - i,
    {
        let (app_id, res) = entries[i];
        push_u32(&mut out, app_id);
        match res {
            Some(g) => {
                out.push(1u8);
                push_u64(&mut out, g as u64);
            },
            None => {
                out.push(0u8);
                push_u64(&mut out, 0u64);
            },
        }
        proof {
            assert(entries@.take(i as int + 1).drop_last() =~= entries@.take(i as int));
            assert(out@ =~= entries_bytes(entries@.take(i as int + 1)));
        }
        i = i + 1;
    }
    assert(entries@.take(i as int) =~= entries@);
    out
}

/// The entries that `bytes` store, or `None` when they are not a whole
/// number of well-formed records.
pub fn decode_entries(bytes: &Vec<u8>) -> (r: Option<Vec<(u32, Option<usize>)>>)
    ensures
        r is Some <==> decode_spec(bytes@) is Some,
        r is Some ==> decode_spec(bytes@) == Some(r->0@),
{
    if bytes.len() % RECORD_LEN != 0 {
        return None;
    }
    let n = bytes.len() / RECORD_LEN;
    let mut out: Vec<(u32, Option<usize>)> = Vec::new();
    let mut i: usize = 0;
    while i < n
        invariant
            i <= n,
            n == bytes@.len() / 13,
            bytes@.len() % 13 == 0,
            bytes@.len() <= usize::MAX,
            out@ == Seq::new(i as nat, |k: int| record_at(bytes@, k)),
            forall|k: int| 0 <= k < i ==> #[trigger] valid_record(bytes@, k),
        decreases n - i,
    {
        assert(13 * i + 13 <= bytes@.len()) by (nonlinear_arith)
            requires
                i < n,
                n == bytes@.len() / 13,
                bytes@.len() % 13 == 0,
        ;
        let off = RECORD_LEN * i;
        let app_id = (bytes[off] as u32) | ((bytes[off + 1] as u32) << 8u32) | ((bytes[off + 2] as u32) << 16u32)
            | ((bytes[off + 3] as u32) << 24u32);
        let g = (bytes[off + 5] as u64) | ((bytes[off + 6] as u64) << 8u64) | ((bytes[off + 7] as u64) << 16u64)
            | ((bytes[off + 8] as u64) << 24u64) | ((bytes[off + 9] as u64) << 32u64) | ((bytes[off + 10] as u64) << 40u64)
            | ((bytes[off + 11] as u64) << 48u64) | ((bytes[off + 12] as u64) << 56u64);
        let marker = bytes[off + 4];
        let found = marker == 1 && g <= usize::MAX as u64;
        if !found && !(marker == 0 && g == 0) {
            assert(!valid_record(bytes@, i as int));
            return None;
        }
        let res = if found {
            Some(g as usize)
        } else {
            None
        };
        assert(valid_record(bytes@, i as int));
        out.push((app_id, res));
        assert(out@ =~= Seq::new((i + 1) as nat, |k: int| record_at(bytes@, k)));
        i = i + 1;
    }
    Some(out)
}

proof fn lemma_u32_bytes(x: u32)
    ensures
        u32_at(u32_bytes(x), 0) == x,
{
    let b = u32_bytes(x);
    let b0 = (x & 0xff) as u8;
    let b1 = ((x >> 8u32) & 0xff) as u8;
    let b2 = ((x >> 16u32) & 0xff) as u8;
    let b3 = ((x >> 24u32) & 0xff) as u8;
    assert(b[0] == b0 && b[1] == b1 && b[2] == b2 && b[3] == b3);
    assert((b0 as u32) | ((b1 as u32) << 8u32) | ((b2 as u32) << 16u32) | ((b3 as u32) << 24u32) == x) by (bit_vector)
        requires
            b0 == (x & 0xff) as u8,
            b1 == ((x >> 8u32) & 0xff) as u8,
            b2 == ((x >> 16u32) & 0xff) as u8,
            b3 == ((x >> 24u32) & 0xff) as u8,
    ;
}

proof fn lemma_u64_bytes(x: u64)
    ensures
        u64_at(u64_bytes(x), 0) == x,
{
    let b = u64_bytes(x);
    let b0 = (x & 0xff) as u8;
    let b1 = ((x >> 8u64) & 0xff) as u8;
    let b2 = ((x >> 16u64) & 0xff) as u8;
    let b3 = ((x >> 24u64) & 0xff) as u8;
    let b4 = ((x >> 32u64) & 0xff) as u8;
    let b5 = ((x >> 40u64) & 0xff) as u8;
    let b6 = ((x >> 48u64) & 0xff) as u8;
    let b7 = ((x >> 56u64) & 0xff) as u8;
    assert(b[0] == b0 && b[1] == b1 && b[2] == b2 && b[3] == b3);
    assert(b[4] == b4 && b[5] == b5 && b[6] == b6 && b[7] == b7);
    assert((b0 as u64) | ((b1 as u64) << 8u64) | ((b2 as u64) << 16u64) | ((b3 as u64) << 24u64)
        | ((b4 as u64) << 32u64) | ((b5 as u64) << 40u64) | ((b6 as u64) << 48u64) | ((b7 as u64) << 56u64)
        == x) by (bit_vector)
        requires
            b0 == (x & 0xff) as u8,
            b1 == ((x >> 8u64) & 0xff) as u8,
            b2 == ((x >> 16u64) & 0xff) as u8,
            b3 == ((x >> 24u64) & 0xff) as u8,
            b4 == ((x >> 32u64) & 0xff) as u8,
            b5 == ((x >> 40u64) & 0xff) as u8,
            b6 == ((x >> 48u64) & 0xff) as u8,
            b7 == ((x >> 56u64) & 0xff) as u8,
    ;
}

/// Where each record stands in the stored bytes.
proof fn lemma_entries_bytes_layout(es: Seq<(u32, Option<usize>)>)
    ensures
        entries_bytes(es).len() == 13 * es.len(),
        forall|i: int, k: int|
            0 <= i < es.len() && 0 <= k < 13 ==> entries_bytes(es)[13 * i + k] == #[trigger] record_bytes(es[i])[k],
    decreases es.len(),
{
    if es.len() > 0 {
        let init = es.drop_last();
        lemma_entries_bytes_layout(init);
        assert(record_bytes(es.last()).len() == 13);
        assert forall|i: int, k: int| 0 <= i < es.len() && 0 <= k < 13 implies entries_bytes(es)[13 * i + k]
            == #[trigger] record_bytes(es[i])[k] by {
            if i < init.len() {
                assert(init[i] == es[i]);
                assert(entries_bytes(init)[13 * i + k] == record_bytes(init[i])[k]);
            }
        }
    }
}

/// One stored record reads back as the entry it stores.
proof fn lemma_record_round_trip(b: Seq<u8>, i: int, e: (u32, Option<usize>))
    requires
        0 <= i,
        13 * i + 13 <= b.len(),
        forall|k: int| 0 <= k < 13 ==> b[13 * i + k] == #[trigger] record_bytes(e)[k],
    ensures
        valid_record(b, i),
        record_at(b, i) == e,
{
    let r = record_bytes(e);
    let off = 13 * i;
    assert(b[off] == r[0] && b[off + 1] == r[1] && b[off + 2] == r[2] && b[off + 3] == r[3]);
    assert(b[off + 4] == r[4]);
    assert(b[off + 5] == r[5] && b[off + 6] == r[6] && b[off + 7] == r[7] && b[off + 8] == r[8]);
    assert(b[off + 9] == r[9] && b[off + 10] == r[10] && b[off + 11] == r[11] && b[off + 12] == r[12]);
    lemma_u32_bytes(e.0);
    assert(u32_at(b, off) == u32_at(u32_bytes(e.0), 0));
    let g: u64 = match e.1 {
        Some(v) => v as u64,
        None => 0,
    };
    lemma_u64_bytes(g);
    assert(u64_at(b, off + 5) == u64_at(u64_bytes(g), 0));
}

/// Reading back what `encode_entries` stores gives the entries it was given.
pub proof fn lemma_decode_encode(es: Seq<(u32, Option<usize>)>)
    ensures
        decode_spec(entries_bytes(es)) == Some(es),
{
    let b = entries_bytes(es);
    lemma_entries_bytes_layout(es);
    assert(b.len() / 13 == es.len()) by (nonlinear_arith)
        requires
            b.len() == 13 * es.len(),
    ;
    assert(b.len() % 13 == 0) by (nonlinear_arith)
        requires
            b.len() == 13 * es.len(),
    ;
    assert forall|i: int|
        #![trigger valid_record(b, i)]
        #![trigger record_at(b, i)]
        0 <= i < es.len() implies valid_record(b, i) && record_at(b, i) == es[i] by {
        assert(13 * i + 13 <= b.len()) by (nonlinear_arith)
            requires
                0 <= i < es.len(),
                b.len() == 13 * es.len(),
        ;
        lemma_record_round_trip(b, i, es[i]);
    }
    assert(Seq::new((b.len() / 13) as nat, |i: int| record_at(b, i)) =~= es);
}

} // verus!
