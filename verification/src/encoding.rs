//! Little-endian binary primitives: byte-level encodings as sequence specs,
//! exec writers that append to a byte vector, and exec readers that walk a
//! cursor. Every reader's result is pinned to a parse spec over the bytes.

use vstd::prelude::*;

verus! {

// ---------------------------------------------------------------------------
// Encoding specs
// ---------------------------------------------------------------------------

pub open spec fn u16_le_bytes(v: u16) -> Seq<u8> {
    seq![(v & 0xff) as u8, ((v >> 8) & 0xff) as u8]
}

pub open spec fn u32_le_bytes(v: u32) -> Seq<u8> {
    seq![
        (v & 0xff) as u8,
        ((v >> 8) & 0xff) as u8,
        ((v >> 16) & 0xff) as u8,
        ((v >> 24) & 0xff) as u8,
    ]
}

pub open spec fn u64_le_bytes(v: u64) -> Seq<u8> {
    seq![
        (v & 0xff) as u8,
        ((v >> 8) & 0xff) as u8,
        ((v >> 16) & 0xff) as u8,
        ((v >> 24) & 0xff) as u8,
        ((v >> 32) & 0xff) as u8,
        ((v >> 40) & 0xff) as u8,
        ((v >> 48) & 0xff) as u8,
        ((v >> 56) & 0xff) as u8,
    ]
}

pub open spec fn i64_le_bytes(v: i64) -> Seq<u8> {
    u64_le_bytes(v as u64)
}

pub open spec fn bool_byte(v: bool) -> u8 {
    if v {
        1u8
    } else {
        0u8
    }
}

/// A possibly-null byte string: a signed 32-bit length (`-1` for null)
/// followed by the bytes themselves.
pub open spec fn bytestring_bytes(b: Option<Seq<u8>>) -> Seq<u8> {
    match b {
        Option::None => u32_le_bytes(0xffffffffu32),
        Option::Some(s) => u32_le_bytes(s.len() as u32) + s,
    }
}

/// A byte string is encodable when its length fits in a signed 32-bit count.
pub open spec fn bytestring_wf(b: Option<Seq<u8>>) -> bool {
    match b {
        Option::None => true,
        Option::Some(s) => s.len() <= 0x7fffffff,
    }
}

// ---------------------------------------------------------------------------
// Parse specs: `Some((value, next position))` or `None` when the bytes end.
// ---------------------------------------------------------------------------

pub open spec fn u16_from_le(b0: u8, b1: u8) -> u16 {
    (b0 as u16) | ((b1 as u16) << 8)
}

pub open spec fn u32_from_le(b0: u8, b1: u8, b2: u8, b3: u8) -> u32 {
    (b0 as u32) | ((b1 as u32) << 8) | ((b2 as u32) << 16) | ((b3 as u32) << 24)
}

pub open spec fn u64_from_le(b0: u8, b1: u8, b2: u8, b3: u8, b4: u8, b5: u8, b6: u8, b7: u8) -> u64 {
    (b0 as u64) | ((b1 as u64) << 8) | ((b2 as u64) << 16) | ((b3 as u64) << 24) | ((b4 as u64)
        << 32) | ((b5 as u64) << 40) | ((b6 as u64) << 48) | ((b7 as u64) << 56)
}

pub open spec fn parse_u16(s: Seq<u8>, p: int) -> Option<(u16, int)> {
    if 0 <= p && p + 2 <= s.len() {
        Option::Some((u16_from_le(s[p], s[p + 1]), p + 2))
    } else {
        Option::None
    }
}

pub open spec fn parse_u32(s: Seq<u8>, p: int) -> Option<(u32, int)> {
    if 0 <= p && p + 4 <= s.len() {
        Option::Some((u32_from_le(s[p], s[p + 1], s[p + 2], s[p + 3]), p + 4))
    } else {
        Option::None
    }
}

pub open spec fn parse_u64(s: Seq<u8>, p: int) -> Option<(u64, int)> {
    if 0 <= p && p + 8 <= s.len() {
        Option::Some(
            (
                u64_from_le(
                    s[p],
                    s[p + 1],
                    s[p + 2],
                    s[p + 3],
                    s[p + 4],
                    s[p + 5],
                    s[p + 6],
                    s[p + 7],
                ),
                p + 8,
            ),
        )
    } else {
        Option::None
    }
}

pub open spec fn parse_i64(s: Seq<u8>, p: int) -> Option<(i64, int)> {
    match parse_u64(s, p) {
        Option::Some((v, np)) => Option::Some((v as i64, np)),
        Option::None => Option::None,
    }
}

pub open spec fn parse_bool(s: Seq<u8>, p: int) -> Option<(bool, int)> {
    if 0 <= p && p + 1 <= s.len() {
        Option::Some((s[p] != 0, p + 1))
    } else {
        Option::None
    }
}

pub open spec fn parse_u8(s: Seq<u8>, p: int) -> Option<(u8, int)> {
    if 0 <= p && p + 1 <= s.len() {
        Option::Some((s[p], p + 1))
    } else {
        Option::None
    }
}

pub open spec fn parse_bytestring(s: Seq<u8>, p: int) -> Option<(Option<Seq<u8>>, int)> {
    match parse_u32(s, p) {
        Option::None => Option::None,
        Option::Some((n, p1)) => if n == 0xffffffffu32 {
            Option::Some((Option::None, p1))
        } else if n <= 0x7fffffff && p1 + n <= s.len() {
            Option::Some((Option::Some(s.subrange(p1, p1 + n)), p1 + n))
        } else {
            Option::None
        },
    }
}

// ---------------------------------------------------------------------------
// Round-trip facts for the fixed-width primitives
// ---------------------------------------------------------------------------

pub proof fn lemma_u16_le_round_trip(v: u16)
    ensures
        u16_from_le(u16_le_bytes(v)[0], u16_le_bytes(v)[1]) == v,
{
    assert((((v & 0xff) as u8) as u16) | (((((v >> 8) & 0xff) as u8) as u16) << 8) == v)
        by (bit_vector);
}

pub proof fn lemma_u32_le_round_trip(v: u32)
    ensures
        u32_from_le(u32_le_bytes(v)[0], u32_le_bytes(v)[1], u32_le_bytes(v)[2], u32_le_bytes(v)[3])
            == v,
{
    assert((((v & 0xff) as u8) as u32) | (((((v >> 8) & 0xff) as u8) as u32) << 8) | (((((v >> 16)
        & 0xff) as u8) as u32) << 16) | (((((v >> 24) & 0xff) as u8) as u32) << 24) == v)
        by (bit_vector);
}

pub proof fn lemma_u64_le_round_trip(v: u64)
    ensures
        u64_from_le(
            u64_le_bytes(v)[0],
            u64_le_bytes(v)[1],
            u64_le_bytes(v)[2],
            u64_le_bytes(v)[3],
            u64_le_bytes(v)[4],
            u64_le_bytes(v)[5],
            u64_le_bytes(v)[6],
            u64_le_bytes(v)[7],
        ) == v,
{
    assert((((v & 0xff) as u8) as u64) | (((((v >> 8) & 0xff) as u8) as u64) << 8) | (((((v >> 16)
        & 0xff) as u8) as u64) << 16) | (((((v >> 24) & 0xff) as u8) as u64) << 24) | (((((v >> 32)
        & 0xff) as u8) as u64) << 32) | (((((v >> 40) & 0xff) as u8) as u64) << 40) | (((((v >> 48)
        & 0xff) as u8) as u64) << 48) | (((((v >> 56) & 0xff) as u8) as u64) << 56) == v)
        by (bit_vector);
}

/// Round trip at a position: bytes that hold a 16-bit word parse back to it.
pub proof fn lemma_parse_u16_at(s: Seq<u8>, p: int, v: u16)
    requires
        0 <= p,
        p + 2 <= s.len(),
        s.subrange(p, p + 2) == u16_le_bytes(v),
    ensures
        parse_u16(s, p) == Option::Some((v, p + 2)),
{
    assert forall|i: int| 0 <= i < 2 implies s[p + i] == #[trigger] u16_le_bytes(v)[i] by {
        assert(u16_le_bytes(v)[i] == s.subrange(p, p + 2)[i]);
    }
    assert(s[p] == u16_le_bytes(v)[0] && s[p + 1] == u16_le_bytes(v)[1]);
    lemma_u16_le_round_trip(v);
}

/// Round trip at a position: bytes that hold a 32-bit word parse back to it.
pub proof fn lemma_parse_u32_at(s: Seq<u8>, p: int, v: u32)
    requires
        0 <= p,
        p + 4 <= s.len(),
        s.subrange(p, p + 4) == u32_le_bytes(v),
    ensures
        parse_u32(s, p) == Option::Some((v, p + 4)),
{
    assert forall|i: int| 0 <= i < 4 implies s[p + i] == #[trigger] u32_le_bytes(v)[i] by {
        assert(u32_le_bytes(v)[i] == s.subrange(p, p + 4)[i]);
    }
    assert(s[p] == u32_le_bytes(v)[0] && s[p + 1] == u32_le_bytes(v)[1] && s[p + 2] == u32_le_bytes(
        v,
    )[2] && s[p + 3] == u32_le_bytes(v)[3]);
    lemma_u32_le_round_trip(v);
}

/// Cutting a known part out of a known whole: when the bytes at `p` hold
/// `whole`, and `part` is the run of `whole` starting at offset `d`, then
/// the bytes at `p + d` hold `part`.
pub proof fn lemma_subrange_part(s: Seq<u8>, p: int, d: int, whole: Seq<u8>, part: Seq<u8>)
    requires
        0 <= p,
        0 <= d,
        d + part.len() <= whole.len(),
        p + whole.len() <= s.len(),
        s.subrange(p, p + whole.len()) == whole,
        forall|i: int| 0 <= i < part.len() ==> #[trigger] part[i] == whole[d + i],
    ensures
        s.subrange(p + d, p + d + part.len()) == part,
{
    assert(s.subrange(p + d, p + d + part.len()) =~= part) by {
        assert forall|i: int| 0 <= i < part.len() implies s.subrange(p + d, p + d + part.len())[i]
            == #[trigger] part[i] by {
            assert(whole[d + i] == s.subrange(p, p + whole.len())[d + i]);
        }
    }
}

/// Round trip at a position: bytes that hold a 64-bit word parse back to it.
pub proof fn lemma_parse_u64_at(s: Seq<u8>, p: int, v: u64)
    requires
        0 <= p,
        p + 8 <= s.len(),
        s.subrange(p, p + 8) == u64_le_bytes(v),
    ensures
        parse_u64(s, p) == Option::Some((v, p + 8)),
{
    assert forall|i: int| 0 <= i < 8 implies s[p + i] == #[trigger] u64_le_bytes(v)[i] by {
        assert(u64_le_bytes(v)[i] == s.subrange(p, p + 8)[i]);
    }
    assert(s[p] == u64_le_bytes(v)[0] && s[p + 1] == u64_le_bytes(v)[1] && s[p + 2] == u64_le_bytes(
        v,
    )[2] && s[p + 3] == u64_le_bytes(v)[3] && s[p + 4] == u64_le_bytes(v)[4] && s[p + 5]
        == u64_le_bytes(v)[5] && s[p + 6] == u64_le_bytes(v)[6] && s[p + 7] == u64_le_bytes(v)[7]);
    lemma_u64_le_round_trip(v);
}

/// Round trip at a position: bytes that hold a signed 64-bit word parse
/// back to it.
pub proof fn lemma_parse_i64_at(s: Seq<u8>, p: int, v: i64)
    requires
        0 <= p,
        p + 8 <= s.len(),
        s.subrange(p, p + 8) == i64_le_bytes(v),
    ensures
        parse_i64(s, p) == Option::Some((v, p + 8)),
{
    lemma_parse_u64_at(s, p, v as u64);
    assert(((v as u64) as i64) == v) by (bit_vector);
}

/// Round trip at a position: a boolean byte parses back to its value.
pub proof fn lemma_parse_bool_at(s: Seq<u8>, p: int, v: bool)
    requires
        0 <= p,
        p + 1 <= s.len(),
        s.subrange(p, p + 1) == seq![bool_byte(v)],
    ensures
        parse_bool(s, p) == Option::Some((v, p + 1)),
{
    assert(s[p] == s.subrange(p, p + 1)[0]);
}

/// Round trip at a position: an encoded byte string parses back to it.
pub proof fn lemma_parse_bytestring_at(s: Seq<u8>, p: int, b: Option<Seq<u8>>)
    requires
        0 <= p,
        bytestring_wf(b),
        p + bytestring_bytes(b).len() <= s.len(),
        s.subrange(p, p + bytestring_bytes(b).len()) == bytestring_bytes(b),
    ensures
        parse_bytestring(s, p) == Option::Some((b, p + bytestring_bytes(b).len())),
{
    let e = bytestring_bytes(b);
    match b {
        Option::None => {
            assert(s.subrange(p, p + 4) =~= u32_le_bytes(0xffffffffu32));
            lemma_parse_u32_at(s, p, 0xffffffffu32);
        },
        Option::Some(t) => {
            let n = t.len() as u32;
            assert forall|i: int| 0 <= i < e.len() implies s[p + i] == #[trigger] e[i] by {
                assert(e[i] == s.subrange(p, p + e.len())[i]);
            }
            assert(s.subrange(p, p + 4) =~= u32_le_bytes(n)) by {
                assert forall|i: int| 0 <= i < 4 implies s.subrange(p, p + 4)[i]
                    == #[trigger] u32_le_bytes(n)[i] by {
                    assert(e[i] == u32_le_bytes(n)[i]);
                }
            }
            lemma_parse_u32_at(s, p, n);
            assert(n != 0xffffffffu32);
            assert(s.subrange(p + 4, p + 4 + n) =~= t) by {
                assert forall|i: int| 0 <= i < t.len() implies s.subrange(p + 4, p + 4 + n)[i]
                    == #[trigger] t[i] by {
                    assert(e[4 + i] == t[i]);
                    assert(s[p + (4 + i)] == e[4 + i]);
                }
            }
        },
    }
}

// ---------------------------------------------------------------------------
// Exec writers
// ---------------------------------------------------------------------------

pub fn write_u16(out: &mut Vec<u8>, v: u16)
    ensures
        final(out)@ == old(out)@ + u16_le_bytes(v),
{
    out.push((v & 0xff) as u8);
    out.push(((v >> 8) & 0xff) as u8);
    proof {
        assert(out@ =~= old(out)@ + u16_le_bytes(v));
    }
}

pub fn write_u32(out: &mut Vec<u8>, v: u32)
    ensures
        final(out)@ == old(out)@ + u32_le_bytes(v),
{
    out.push((v & 0xff) as u8);
    out.push(((v >> 8) & 0xff) as u8);
    out.push(((v >> 16) & 0xff) as u8);
    out.push(((v >> 24) & 0xff) as u8);
    proof {
        assert(out@ =~= old(out)@ + u32_le_bytes(v));
    }
}

pub fn write_u64(out: &mut Vec<u8>, v: u64)
    ensures
        final(out)@ == old(out)@ + u64_le_bytes(v),
{
    out.push((v & 0xff) as u8);
    out.push(((v >> 8) & 0xff) as u8);
    out.push(((v >> 16) & 0xff) as u8);
    out.push(((v >> 24) & 0xff) as u8);
    out.push(((v >> 32) & 0xff) as u8);
    out.push(((v >> 40) & 0xff) as u8);
    out.push(((v >> 48) & 0xff) as u8);
    out.push(((v >> 56) & 0xff) as u8);
    proof {
        assert(out@ =~= old(out)@ + u64_le_bytes(v));
    }
}

pub fn write_i64(out: &mut Vec<u8>, v: i64)
    ensures
        final(out)@ == old(out)@ + i64_le_bytes(v),
{
    write_u64(out, v as u64);
}

pub fn write_bool(out: &mut Vec<u8>, v: bool)
    ensures
        final(out)@ == old(out)@ + seq![bool_byte(v)],
{
    out.push(if v { 1u8 } else { 0u8 });
    proof {
        assert(out@ =~= old(out)@ + seq![bool_byte(v)]);
    }
}

pub fn write_u8(out: &mut Vec<u8>, v: u8)
    ensures
        final(out)@ == old(out)@ + seq![v],
{
    out.push(v);
    proof {
        assert(out@ =~= old(out)@ + seq![v]);
    }
}

pub fn write_bytestring(out: &mut Vec<u8>, b: &Option<Vec<u8>>)
    requires
        bytestring_wf(match *b {
            Option::Some(ref s) => Option::Some(s@),
            Option::None => Option::None,
        }),
    ensures
        final(out)@ == old(out)@ + bytestring_bytes(match *b {
            Option::Some(ref s) => Option::Some(s@),
            Option::None => Option::None,
        }),
{
    match b {
        Option::None => {
            write_u32(out, 0xffffffffu32);
        },
        Option::Some(s) => {
            write_u32(out, s.len() as u32);
            let ghost mid = out@;
            let mut i: usize = 0;
            while i < s.len()
                invariant
                    i <= s.len(),
                    out@ == mid + s@.subrange(0, i as int),
                decreases s.len() - i,
            {
                out.push(s[i]);
                i = i + 1;
                proof {
                    assert(out@ =~= mid + s@.subrange(0, i as int));
                }
            }
            proof {
                assert(s@.subrange(0, s@.len() as int) =~= s@);
                assert(out@ =~= old(out)@ + bytestring_bytes(Option::Some(s@)));
            }
        },
    }
}

// ---------------------------------------------------------------------------
// Exec readers
// ---------------------------------------------------------------------------

pub fn read_u16(data: &Vec<u8>, pos: &mut usize) -> (r: Option<u16>)
    ensures
        match parse_u16(data@, *old(pos) as int) {
            Option::Some((v, np)) => r == Option::Some(v) && *final(pos) as int == np,
            Option::None => r is None && *final(pos) == *old(pos),
        },
{
    if *pos <= data.len() && data.len() - *pos >= 2 {
        let b0 = data[*pos];
        let b1 = data[*pos + 1];
        *pos = *pos + 2;
        Some(b0 as u16 | ((b1 as u16) << 8))
    } else {
        None
    }
}

pub fn read_u32(data: &Vec<u8>, pos: &mut usize) -> (r: Option<u32>)
    ensures
        match parse_u32(data@, *old(pos) as int) {
            Option::Some((v, np)) => r == Option::Some(v) && *final(pos) as int == np,
            Option::None => r is None && *final(pos) == *old(pos),
        },
{
    if *pos <= data.len() && data.len() - *pos >= 4 {
        let b0 = data[*pos];
        let b1 = data[*pos + 1];
        let b2 = data[*pos + 2];
        let b3 = data[*pos + 3];
        *pos = *pos + 4;
        Some(b0 as u32 | ((b1 as u32) << 8) | ((b2 as u32) << 16) | ((b3 as u32) << 24))
    } else {
        None
    }
}

pub fn read_u64(data: &Vec<u8>, pos: &mut usize) -> (r: Option<u64>)
    ensures
        match parse_u64(data@, *old(pos) as int) {
            Option::Some((v, np)) => r == Option::Some(v) && *final(pos) as int == np,
            Option::None => r is None && *final(pos) == *old(pos),
        },
{
    if *pos <= data.len() && data.len() - *pos >= 8 {
        let b0 = data[*pos];
        let b1 = data[*pos + 1];
        let b2 = data[*pos + 2];
        let b3 = data[*pos + 3];
        let b4 = data[*pos + 4];
        let b5 = data[*pos + 5];
        let b6 = data[*pos + 6];
        let b7 = data[*pos + 7];
        *pos = *pos + 8;
        Some(
            b0 as u64 | ((b1 as u64) << 8) | ((b2 as u64) << 16) | ((b3 as u64) << 24) | ((b4
                as u64) << 32) | ((b5 as u64) << 40) | ((b6 as u64) << 48) | ((b7 as u64) << 56),
        )
    } else {
        None
    }
}

pub fn read_i64(data: &Vec<u8>, pos: &mut usize) -> (r: Option<i64>)
    ensures
        match parse_i64(data@, *old(pos) as int) {
            Option::Some((v, np)) => r == Option::Some(v) && *final(pos) as int == np,
            Option::None => r is None && *final(pos) == *old(pos),
        },
{
    match read_u64(data, pos) {
        Option::Some(v) => Option::Some(v as i64),
        Option::None => Option::None,
    }
}

pub fn read_bool(data: &Vec<u8>, pos: &mut usize) -> (r: Option<bool>)
    ensures
        match parse_bool(data@, *old(pos) as int) {
            Option::Some((v, np)) => r == Option::Some(v) && *final(pos) as int == np,
            Option::None => r is None && *final(pos) == *old(pos),
        },
{
    if *pos < data.len() {
        let b = data[*pos];
        *pos = *pos + 1;
        Some(b != 0)
    } else {
        None
    }
}

pub fn read_u8(data: &Vec<u8>, pos: &mut usize) -> (r: Option<u8>)
    ensures
        match parse_u8(data@, *old(pos) as int) {
            Option::Some((v, np)) => r == Option::Some(v) && *final(pos) as int == np,
            Option::None => r is None && *final(pos) == *old(pos),
        },
{
    if *pos < data.len() {
        let b = data[*pos];
        *pos = *pos + 1;
        Some(b)
    } else {
        None
    }
}

pub fn read_bytestring(data: &Vec<u8>, pos: &mut usize) -> (r: Option<Option<Vec<u8>>>)
    ensures
        match parse_bytestring(data@, *old(pos) as int) {
            Option::Some((v, np)) => match r {
                Option::Some(b) => v == (match b {
                    Option::Some(s) => Option::Some(s@),
                    Option::None => Option::None,
                }) && *final(pos) as int == np,
                Option::None => false,
            },
            Option::None => r is None,
        },
{
    let start = *pos;
    match read_u32(data, pos) {
        Option::None => Option::None,
        Option::Some(n) => {
            if n == 0xffffffffu32 {
                Option::Some(Option::None)
            } else if n <= 0x7fffffff && *pos <= data.len() && data.len() - *pos >= n as usize {
                let mut v: Vec<u8> = Vec::new();
                let base = *pos;
                let dlen = data.len();
                let mut i: usize = 0;
                while i < n as usize
                    invariant
                        i <= n as usize,
                        base + n as usize <= dlen,
                        dlen == data@.len(),
                        v@ == data@.subrange(base as int, base as int + i as int),
                    decreases n as usize - i,
                {
                    v.push(data[base + i]);
                    i = i + 1;
                    proof {
                        assert(v@ =~= data@.subrange(base as int, base as int + i as int));
                    }
                }
                *pos = base + n as usize;
                Option::Some(Option::Some(v))
            } else {
                *pos = start;
                Option::None
            }
        },
    }
}

} // verus!
