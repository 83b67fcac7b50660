use vstd::prelude::*;

use crate::error::ServeError;

verus! {

/// One above the largest value a variable-length integer can carry.
pub const VARINT_BOUND: u64 = 0x4000_0000_0000_0000;

/// The low byte of `x`.
pub open spec fn low(x: u64) -> u8 {
    (x & 0xff) as u8
}

/// The variable-length encoding of `v`: the top two bits of the first byte
/// give the length (1, 2, 4 or 8 bytes), the rest is `v` big-endian.
pub open spec fn varint_spec(v: u64) -> Seq<u8> {
    if v < 0x40 {
        seq![v as u8]
    } else if v < 0x4000 {
        seq![low(v >> 8) | 0x40, low(v)]
    } else if v < 0x4000_0000 {
        seq![low(v >> 24) | 0x80, low(v >> 16), low(v >> 8), low(v)]
    } else {
        seq![
            low(v >> 56) | 0xc0,
            low(v >> 48),
            low(v >> 40),
            low(v >> 32),
            low(v >> 24),
            low(v >> 16),
            low(v >> 8),
            low(v),
        ]
    }
}

/// The value of the two bytes `a`, `b` with the length bits cleared.
pub open spec fn be2(a: u8, b: u8) -> u64 {
    (((a & 0x3f) as u64) << 8) | (b as u64)
}

/// The value of four bytes with the length bits cleared.
pub open spec fn be4(a: u8, b: u8, c: u8, d: u8) -> u64 {
    (((a & 0x3f) as u64) << 24) | ((b as u64) << 16) | ((c as u64) << 8) | (d as u64)
}

/// The value of eight bytes with the length bits cleared.
pub open spec fn be8(s: Seq<u8>) -> u64
    recommends
        s.len() >= 8,
{
    (((s[0] & 0x3f) as u64) << 56) | ((s[1] as u64) << 48) | ((s[2] as u64) << 40) | ((s[3] as u64)
        << 32) | ((s[4] as u64) << 24) | ((s[5] as u64) << 16) | ((s[6] as u64) << 8) | (s[7] as u64)
}

/// The length, in bytes, of the integer that starts with `first`.
pub open spec fn varint_width(first: u8) -> nat {
    if first >> 6u8 == 0 {
        1
    } else if first >> 6u8 == 1 {
        2
    } else if first >> 6u8 == 2 {
        4
    } else {
        8
    }
}

/// The integer at the start of `s` and its length, if `s` holds a whole one.
#[verifier::opaque]
pub open spec fn parse_varint(s: Seq<u8>) -> Option<(u64, nat)> {
    if s.len() == 0 {
        None
    } else if s.len() < varint_width(s[0]) {
        None
    } else if varint_width(s[0]) == 1 {
        Some(((s[0] & 0x3f) as u64, 1))
    } else if varint_width(s[0]) == 2 {
        Some((be2(s[0], s[1]), 2))
    } else if varint_width(s[0]) == 4 {
        Some((be4(s[0], s[1], s[2], s[3]), 4))
    } else {
        Some((be8(s), 8))
    }
}

/// An integer read from `s` takes between one and eight of its bytes.
pub proof fn lemma_parse_varint_len(s: Seq<u8>)
    ensures
        parse_varint(s) matches Some((v, n)) ==> 1 <= n <= 8 && n <= s.len(),
{
    reveal(parse_varint);
}

/// Appends the encoding of `v`; a value of `VARINT_BOUND` or more cannot be
/// encoded.
pub fn encode_varint(v: u64, out: &mut Vec<u8>) -> (r: Result<(), ServeError>)
    ensures
        v < VARINT_BOUND ==> r is Ok && final(out)@ == old(out)@ + varint_spec(v),
        v >= VARINT_BOUND ==> r == Err::<(), ServeError>(ServeError::Encode) && final(out)@ == old(out)@,
{
    if v >= VARINT_BOUND {
        return Err(ServeError::Encode);
    }
    reveal(varint_spec);
    let ghost start = out@;
    if v < 0x40 {
        out.push(v as u8);
    } else if v < 0x4000 {
        out.push((((v >> 8) & 0xff) as u8) | 0x40);
        out.push((v & 0xff) as u8);
    } else if v < 0x4000_0000 {
        out.push((((v >> 24) & 0xff) as u8) | 0x80);
        out.push(((v >> 16) & 0xff) as u8);
        out.push(((v >> 8) & 0xff) as u8);
        out.push((v & 0xff) as u8);
    } else {
        out.push((((v >> 56) & 0xff) as u8) | 0xc0);
        out.push(((v >> 48) & 0xff) as u8);
        out.push(((v >> 40) & 0xff) as u8);
        out.push(((v >> 32) & 0xff) as u8);
        out.push(((v >> 24) & 0xff) as u8);
        out.push(((v >> 16) & 0xff) as u8);
        out.push(((v >> 8) & 0xff) as u8);
        out.push((v & 0xff) as u8);
    }
    assert(out@ =~= start + varint_spec(v));
    Ok(())
}

/// Reads the integer that starts at `pos` of `buf`: its value and length.
pub fn decode_varint(buf: &[u8], pos: usize) -> (r: Option<(u64, usize)>)
    requires
        pos <= buf@.len(),
    ensures
        r == (match parse_varint(buf@.subrange(pos as int, buf@.len() as int)) {
            Some((v, n)) => Some((v, n as usize)),
            None => None::<(u64, usize)>,
        }),
{
    reveal(parse_varint);
    let ghost s = buf@.subrange(pos as int, buf@.len() as int);
    if pos >= buf.len() {
        return None;
    }
    let first = buf[pos];
    let tag = first >> 6u8;
    let width: usize = if tag == 0 {
        1
    } else if tag == 1 {
        2
    } else if tag == 2 {
        4
    } else {
        8
    };
    assert(s[0] == first);
    assert(width == varint_width(first));
    if buf.len() - pos < width {
        return None;
    }
    assert forall|i: int| 0 <= i < width implies s[i] == buf@[pos + i] by {}
    if width == 1 {
        Some(((first & 0x3f) as u64, 1))
    } else if width == 2 {
        Some((((((first & 0x3f) as u64) << 8) | (buf[pos + 1] as u64)), 2))
    } else if width == 4 {
        let v = (((first & 0x3f) as u64) << 24) | ((buf[pos + 1] as u64) << 16) | ((buf[pos + 2] as u64)
            << 8) | (buf[pos + 3] as u64);
        Some((v, 4))
    } else {
        let v = (((first & 0x3f) as u64) << 56) | ((buf[pos + 1] as u64) << 48) | ((buf[pos + 2] as u64)
            << 40) | ((buf[pos + 3] as u64) << 32) | ((buf[pos + 4] as u64) << 24) | ((buf[pos
            + 5] as u64) << 16) | ((buf[pos + 6] as u64) << 8) | (buf[pos + 7] as u64);
        Some((v, 8))
    }
}

/// Every integer below `VARINT_BOUND` is read back from its encoding, with
/// the encoding's length, whatever follows it.
pub proof fn lemma_varint_round_trip(v: u64, rest: Seq<u8>)
    requires
        v < VARINT_BOUND,
    ensures
        parse_varint(varint_spec(v) + rest) == Some((v, varint_spec(v).len())),
{
    reveal(varint_spec);
    reveal(parse_varint);
    let s = varint_spec(v) + rest;
    if v < 0x40 {
        assert(s[0] == v as u8);
        assert(v < 0x40 ==> (v as u8) >> 6u8 == 0 && ((v as u8) & 0x3f) as u64 == v) by (bit_vector);
    } else if v < 0x4000 {
        assert(s[0] == low(v >> 8) | 0x40 && s[1] == low(v));
        assert(0x40 <= v < 0x4000 ==> (((v >> 8) & 0xff) as u8 | 0x40) >> 6u8 == 1 && (((((((v
            >> 8) & 0xff) as u8 | 0x40) & 0x3f) as u64) << 8) | (((v & 0xff) as u8) as u64)) == v)
            by (bit_vector);
    } else if v < 0x4000_0000 {
        assert(s[0] == low(v >> 24) | 0x80 && s[1] == low(v >> 16) && s[2] == low(v >> 8) && s[3]
            == low(v));
        assert(0x4000 <= v < 0x4000_0000 ==> (((v >> 24) & 0xff) as u8 | 0x80) >> 6u8 == 2 && ((((((
            (v >> 24) & 0xff) as u8 | 0x80) & 0x3f) as u64) << 24) | ((((v >> 16) & 0xff) as u8
            as u64) << 16) | ((((v >> 8) & 0xff) as u8 as u64) << 8) | (((v & 0xff) as u8) as u64))
            == v) by (bit_vector);
    } else {
        assert(s[0] == low(v >> 56) | 0xc0 && s[1] == low(v >> 48) && s[2] == low(v >> 40) && s[3]
            == low(v >> 32) && s[4] == low(v >> 24) && s[5] == low(v >> 16) && s[6] == low(v >> 8)
            && s[7] == low(v));
        assert(0x4000_0000 <= v < 0x4000_0000_0000_0000 ==> (((v >> 56) & 0xff) as u8 | 0xc0) >> 6u8
            == 3 && ((((((v >> 56) & 0xff) as u8 | 0xc0) & 0x3f) as u64) << 56) | ((((v >> 48)
            & 0xff) as u8 as u64) << 48) | ((((v >> 40) & 0xff) as u8 as u64) << 40) | ((((v >> 32)
            & 0xff) as u8 as u64) << 32) | ((((v >> 24) & 0xff) as u8 as u64) << 24) | ((((v >> 16)
            & 0xff) as u8 as u64) << 16) | ((((v >> 8) & 0xff) as u8 as u64) << 8) | (((v & 0xff)
            as u8) as u64) == v) by (bit_vector);
    }
}

/// The encodings of `vs`, one after another.
pub open spec fn ints_spec(vs: Seq<u64>) -> Seq<u8>
    decreases vs.len(),
{
    if vs.len() == 0 {
        Seq::empty()
    } else {
        varint_spec(vs[0]) + ints_spec(vs.drop_first())
    }
}

/// The `k` integers at the start of `s` and their total length.
pub open spec fn parse_ints(s: Seq<u8>, k: nat) -> Option<(Seq<u64>, nat)>
    decreases k,
{
    if k == 0 {
        Some((Seq::empty(), 0))
    } else {
        match parse_varint(s) {
            None => None,
            Some((v, n)) => match parse_ints(s.skip(n as int), (k - 1) as nat) {
                None => None,
                Some((vs, m)) => Some((seq![v] + vs, n + m)),
            },
        }
    }
}

/// Whether every value of `vs` can be encoded.
pub open spec fn all_encodable(vs: Seq<u64>) -> bool {
    forall|i: int| 0 <= i < vs.len() ==> #[trigger] vs[i] < VARINT_BOUND
}

/// A run of encodable integers is read back whole from its encoding,
/// whatever follows it.
pub proof fn lemma_ints_round_trip(vs: Seq<u64>, rest: Seq<u8>)
    requires
        all_encodable(vs),
    ensures
        parse_ints(ints_spec(vs) + rest, vs.len()) == Some((vs, ints_spec(vs).len())),
    decreases vs.len(),
{
    if vs.len() > 0 {
        let tail = vs.drop_first();
        assert(all_encodable(tail)) by {
            assert forall|i: int| 0 <= i < tail.len() implies #[trigger] tail[i] < VARINT_BOUND by {
                assert(tail[i] == vs[i + 1]);
            }
        }
        assert(vs[0] < VARINT_BOUND);
        let s = ints_spec(vs) + rest;
        assert(s =~= varint_spec(vs[0]) + (ints_spec(tail) + rest));
        lemma_varint_round_trip(vs[0], ints_spec(tail) + rest);
        assert(s.skip(varint_spec(vs[0]).len() as int) =~= ints_spec(tail) + rest);
        lemma_ints_round_trip(tail, rest);
        assert(seq![vs[0]] + tail =~= vs);
    }
}

/// Appends the encodings of `vs`; any value too large to encode refuses
/// the whole run, leaving `out` as it was.
pub fn encode_ints(vs: &[u64], out: &mut Vec<u8>) -> (r: Result<(), ServeError>)
    ensures
        all_encodable(vs@) ==> r is Ok && final(out)@ == old(out)@ + ints_spec(vs@),
        !all_encodable(vs@) ==> r == Err::<(), ServeError>(ServeError::Encode) && final(out)@ == old(out)@,
{
    let mut i: usize = 0;
    while i < vs.len()
        invariant
            0 <= i <= vs@.len(),
            forall|j: int| 0 <= j < i ==> #[trigger] vs@[j] < VARINT_BOUND,
        decreases vs@.len() - i,
    {
        if vs[i] >= VARINT_BOUND {
            return Err(ServeError::Encode);
        }
        i = i + 1;
    }
    let ghost start = out@;
    let mut i: usize = 0;
    assert(vs@.skip(0) =~= vs@);
    while i < vs.len()
        invariant
            0 <= i <= vs@.len(),
            all_encodable(vs@),
            out@ + ints_spec(vs@.skip(i as int)) == start + ints_spec(vs@),
        decreases vs@.len() - i,
    {
        let ghost before = out@;
        assert(vs@[i as int] < VARINT_BOUND);
        let _ = encode_varint(vs[i], out);
        assert(ints_spec(vs@.skip(i as int)) == varint_spec(vs@[i as int]) + ints_spec(
            vs@.skip(i as int).drop_first(),
        ));
        assert(vs@.skip(i as int).drop_first() =~= vs@.skip(i + 1));
        assert(out@ + ints_spec(vs@.skip(i + 1)) =~= before + ints_spec(vs@.skip(i as int)));
        i = i + 1;
    }
    assert(ints_spec(vs@.skip(vs@.len() as int)) =~= Seq::<u8>::empty()) by {
        assert(vs@.skip(vs@.len() as int) =~= Seq::<u64>::empty());
    }
    assert(out@ =~= start + ints_spec(vs@));
    Ok(())
}

/// Reads `k` integers starting at `pos` of `buf`: their values and total length.
pub fn decode_ints(buf: &[u8], pos: usize, k: usize) -> (r: Option<(Vec<u64>, usize)>)
    requires
        pos <= buf@.len(),
    ensures
        match parse_ints(buf@.skip(pos as int), k as nat) {
            Some((vs, n)) => r matches Some((out, m)) && out@ == vs && m == n,
            None => r is None,
        },
        r matches Some((out, m)) ==> out@.len() == k && pos + m <= buf@.len(),
{
    let ghost s = buf@.skip(pos as int);
    let mut out: Vec<u64> = Vec::new();
    let mut off: usize = pos;
    let mut i: usize = 0;
    while i < k
        invariant
            pos <= off <= buf@.len(),
            0 <= i <= k,
            out@.len() == i,
            s == buf@.skip(pos as int),
            parse_ints(s, k as nat) == match parse_ints(buf@.skip(off as int), (k - i) as nat) {
                Some((vs, m)) => Some((out@ + vs, ((off - pos) + m) as nat)),
                None => None::<(Seq<u64>, nat)>,
            },
        decreases k - i,
    {
        assert(buf@.subrange(off as int, buf@.len() as int) =~= buf@.skip(off as int));
        proof {
            lemma_parse_varint_len(buf@.skip(off as int));
        }
        match decode_varint(buf, off) {
            None => {
                return None;
            },
            Some((v, n)) => {
                let ghost t = buf@.skip(off as int);
                proof {
                    lemma_parse_varint_len(t);
                }
                let len = buf.len();
                assert(off + n <= len);
                assert(t.skip(n as int) =~= buf@.skip(off + n));
                let ghost prev = out@;
                out.push(v);
                assert(forall|vs: Seq<u64>| prev + (seq![v] + vs) =~= out@ + vs);
                off = off + n;
                i = i + 1;
            },
        }
    }
    assert(out@ + Seq::<u64>::empty() =~= out@);
    Some((out, off - pos))
}

/// A byte string on the wire: its length, then its bytes.
pub open spec fn bytes_spec(b: Seq<u8>) -> Seq<u8> {
    varint_spec(b.len() as u64) + b
}

/// The byte string at the start of `s` and its total length.
pub open spec fn parse_bytes(s: Seq<u8>) -> Option<(Seq<u8>, nat)> {
    match parse_varint(s) {
        None => None,
        Some((len, n)) => if n + len <= s.len() {
            Some((s.subrange(n as int, (n + len) as int), (n + len) as nat))
        } else {
            None
        },
    }
}

/// A byte string shorter than `VARINT_BOUND` is read back from its encoding,
/// whatever follows it.
pub proof fn lemma_bytes_round_trip(b: Seq<u8>, rest: Seq<u8>)
    requires
        b.len() < VARINT_BOUND,
    ensures
        parse_bytes(bytes_spec(b) + rest) == Some((b, bytes_spec(b).len())),
{
    let head = varint_spec(b.len() as u64);
    let s = bytes_spec(b) + rest;
    assert(s =~= head + (b + rest));
    lemma_varint_round_trip(b.len() as u64, b + rest);
    assert(s.subrange(head.len() as int, (head.len() + b.len()) as int) =~= b);
}

/// Appends the encoding of the byte string `b`.
pub fn encode_bytes(b: &[u8], out: &mut Vec<u8>) -> (r: Result<(), ServeError>)
    ensures
        b@.len() < VARINT_BOUND ==> r is Ok && final(out)@ == old(out)@ + bytes_spec(b@),
        b@.len() >= VARINT_BOUND ==> r is Err && final(out)@ == old(out)@,
{
    let len = b.len() as u64;
    if len >= VARINT_BOUND {
        return Err(ServeError::Encode);
    }
    let ghost start = out@;
    let _ = encode_varint(len, out);
    crate::buffer::extend_bytes(out, b);
    assert(out@ =~= start + bytes_spec(b@));
    Ok(())
}

/// Reads the byte string at `pos` of `buf`: its bytes and total length.
pub fn decode_bytes(buf: &[u8], pos: usize) -> (r: Option<(Vec<u8>, usize)>)
    requires
        pos <= buf@.len(),
    ensures
        match parse_bytes(buf@.skip(pos as int)) {
            Some((b, n)) => r matches Some((out, m)) && out@ == b && m == n,
            None => r is None,
        },
        r matches Some((out, m)) ==> pos + m <= buf@.len(),
{
    assert(buf@.subrange(pos as int, buf@.len() as int) =~= buf@.skip(pos as int));
    proof {
        lemma_parse_varint_len(buf@.skip(pos as int));
    }
    match decode_varint(buf, pos) {
        None => None,
        Some((len, n)) => {
            let ghost s = buf@.skip(pos as int);
            proof {
                lemma_parse_varint_len(s);
            }
            let avail = buf.len() - pos - n;
            if len as u128 > avail as u128 {
                return None;
            }
            let start = pos + n;
            let stop = start + len as usize;
            let mut out: Vec<u8> = Vec::new();
            let mut i: usize = start;
            while i < stop
                invariant
                    start <= i <= stop <= buf@.len(),
                    out@ == buf@.subrange(start as int, i as int),
                decreases stop - i,
            {
                out.push(buf[i]);
                i = i + 1;
                assert(out@ =~= buf@.subrange(start as int, i as int));
            }
            assert(s.subrange(n as int, (n + len) as int) =~= buf@.subrange(start as int, stop as int));
            Some((out, n + len as usize))
        },
    }
}

/// Reading `k` integers takes at least one byte for each.
pub proof fn lemma_parse_ints_bound(s: Seq<u8>, k: nat)
    ensures
        parse_ints(s, k) matches Some((vs, n)) ==> k <= n <= s.len() && vs.len() == k,
    decreases k,
{
    if k > 0 {
        lemma_parse_varint_len(s);
        if let Some((v, n)) = parse_varint(s) {
            lemma_parse_ints_bound(s.skip(n as int), (k - 1) as nat);
        }
    }
}

/// The encoding of two runs of integers is the encoding of the joined run.
pub proof fn lemma_ints_concat(a: Seq<u64>, b: Seq<u64>)
    ensures
        ints_spec(a + b) == ints_spec(a) + ints_spec(b),
    decreases a.len(),
{
    if a.len() == 0 {
        assert(a + b =~= b);
        assert(ints_spec(a) + ints_spec(b) =~= ints_spec(b));
    } else {
        assert((a + b).drop_first() =~= a.drop_first() + b);
        lemma_ints_concat(a.drop_first(), b);
        assert(ints_spec(a + b) =~= ints_spec(a) + ints_spec(b));
    }
}

} // verus!
