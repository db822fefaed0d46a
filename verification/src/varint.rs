//! Base-128 varints and the length-delimited framing that the SimNet
//! protocol wraps every protobuf message in.
use vstd::prelude::*;

verus! {

/// A varint header ran over ten bytes without terminating.
#[derive(Debug, Clone, Copy, PartialEq, Eq, Structural)]
pub enum VarintError {
    TooLong,
}

/// Longest varint that can carry a `u64`.
pub const MAX_VARINT_LEN: usize = 10;

/// `128^n`.
pub open spec fn pow128(n: nat) -> nat
    decreases n,
{
    if n == 0 {
        1
    } else {
        128 * pow128((n - 1) as nat)
    }
}

/// Little-endian base-128 value carried by the low seven bits of each byte.
pub open spec fn varint_value(bytes: Seq<u8>) -> nat
    decreases bytes.len(),
{
    if bytes.len() == 0 {
        0
    } else {
        (bytes[0] % 128) as nat + 128 * varint_value(bytes.drop_first())
    }
}

/// Number of leading bytes whose continuation bit (the high bit) is set.
pub open spec fn continuation_run(bytes: Seq<u8>) -> nat
    decreases bytes.len(),
{
    if bytes.len() == 0 || bytes[0] < 128 {
        0
    } else {
        1 + continuation_run(bytes.drop_first())
    }
}

/// What decoding a varint header at the front of `bytes` yields: an error when
/// ten or more continuation bytes lead, nothing yet when the buffer ends before
/// the terminating byte, and otherwise the value (reduced to 64 bits, as
/// shifting into a `u64` does) together with the header length.
pub open spec fn varint_decode_spec(bytes: Seq<u8>) -> Result<Option<(u64, usize)>, VarintError> {
    let k = continuation_run(bytes);
    if k >= 10 {
        Err(VarintError::TooLong)
    } else if k < bytes.len() {
        Ok(Some(((varint_value(bytes.take((k + 1) as int)) % 0x1_0000_0000_0000_0000) as u64, (k + 1) as usize)))
    } else {
        Ok(None)
    }
}

/// Canonical (shortest) varint encoding of `v`.
pub open spec fn varint_encoding(v: nat) -> Seq<u8>
    decreases v,
{
    if v < 128 {
        seq![v as u8]
    } else {
        seq![(v % 128 + 128) as u8] + varint_encoding(v / 128)
    }
}

/// A message framed on the wire: its length as a varint, then the payload.
pub open spec fn frame_of(payload: Seq<u8>) -> Seq<u8> {
    varint_encoding(payload.len()) + payload
}

/// What taking one frame off the front of `buf` yields: the payload and the
/// bytes after it, nothing while the frame is incomplete, or the header error.
pub open spec fn frame_split_spec(buf: Seq<u8>) -> Result<Option<(Seq<u8>, Seq<u8>)>, VarintError> {
    match varint_decode_spec(buf) {
        Err(e) => Err(e),
        Ok(None) => Ok(None),
        Ok(Some((len, header))) => {
            if header + len > buf.len() {
                Ok(None)
            } else {
                Ok(
                    Some(
                        (
                            buf.subrange(header as int, header + len),
                            buf.subrange(header + len, buf.len() as int),
                        ),
                    ),
                )
            }
        },
    }
}

proof fn lemma_pow128_facts()
    ensures
        pow128(9) == 0x8000_0000_0000_0000,
        pow128(10) == 0x40_0000_0000_0000_0000,
{
    reveal_with_fuel(pow128, 11);
}

proof fn lemma_pow128_positive(n: nat)
    ensures
        pow128(n) >= 1,
    decreases n,
{
    if n > 0 {
        lemma_pow128_positive((n - 1) as nat);
    }
}

proof fn lemma_pow128_monotonic(a: nat, b: nat)
    requires
        a <= b,
    ensures
        pow128(a) <= pow128(b),
    decreases b,
{
    if a < b {
        lemma_pow128_monotonic(a, (b - 1) as nat);
        lemma_pow128_positive((b - 1) as nat);
    }
}

proof fn lemma_value_bound(s: Seq<u8>)
    ensures
        varint_value(s) < pow128(s.len()),
    decreases s.len(),
{
    if s.len() > 0 {
        lemma_value_bound(s.drop_first());
        assert(pow128(s.len()) == 128 * pow128((s.len() - 1) as nat));
    }
}

proof fn lemma_value_push(s: Seq<u8>, b: u8)
    ensures
        varint_value(s.push(b)) == varint_value(s) + (b % 128) as nat * pow128(s.len()),
    decreases s.len(),
{
    if s.len() == 0 {
        assert(s.push(b).drop_first() =~= Seq::<u8>::empty());
        assert(varint_value(Seq::<u8>::empty()) == 0);
        assert(s.push(b)[0] == b);
        assert(pow128(0) == 1);
        assert(varint_value(s) == 0);
    } else {
        assert(s.push(b).drop_first() =~= s.drop_first().push(b));
        lemma_value_push(s.drop_first(), b);
        let c = (b % 128) as nat;
        let p = pow128((s.len() - 1) as nat);
        assert(128 * (varint_value(s.drop_first()) + c * p) == 128 * varint_value(s.drop_first())
            + c * (128 * p)) by (nonlinear_arith);
        assert(s.push(b)[0] == s[0]);
        assert(pow128(s.len()) == 128 * p);
        assert(varint_value(s.push(b)) == (s[0] % 128) as nat + 128 * varint_value(s.push(b).drop_first()));
    }
}

proof fn lemma_run_exact(s: Seq<u8>, i: nat)
    requires
        i < s.len(),
        forall|j: int| 0 <= j < i ==> s[j] >= 128,
        s[i as int] < 128,
    ensures
        continuation_run(s) == i,
    decreases i,
{
    if i > 0 {
        lemma_run_exact(s.drop_first(), (i - 1) as nat);
    }
}

proof fn lemma_run_at_least(s: Seq<u8>, i: nat)
    requires
        i <= s.len(),
        forall|j: int| 0 <= j < i ==> s[j] >= 128,
    ensures
        continuation_run(s) >= i,
    decreases i,
{
    if i > 0 {
        lemma_run_at_least(s.drop_first(), (i - 1) as nat);
    }
}

/// Decodes a varint from the front of `buf`, returning the value and the
/// number of header bytes it occupied, `None` while more bytes are needed.
pub fn try_read_varint_from_slice(buf: &[u8]) -> (res: Result<Option<(u64, usize)>, VarintError>)
    ensures
        res == varint_decode_spec(buf@),
{
    let mut value: u64 = 0;
    let mut mult: u64 = 1;
    let mut i: usize = 0;
    proof {
        lemma_pow128_facts();
        assert(buf@.take(0) =~= Seq::<u8>::empty());
    }
    while i < buf.len()
        invariant
            i <= buf@.len(),
            i < 10,
            forall|j: int| 0 <= j < i ==> buf@[j] >= 128,
            mult == pow128(i as nat),
            value == varint_value(buf@.take(i as int)),
            pow128(9) == 0x8000_0000_0000_0000,
        decreases buf.len() - i,
    {
        let byte = buf[i];
        let low: u64 = (byte % 128) as u64;
        proof {
            assert(buf@.take(i + 1) =~= buf@.take(i as int).push(byte));
            lemma_value_push(buf@.take(i as int), byte);
            lemma_value_bound(buf@.take(i as int));
            lemma_pow128_monotonic(i as nat, 9);
            assert(low * mult <= 127 * mult) by (nonlinear_arith)
                requires
                    low <= 127,
            ;
        }
        if byte < 128 {
            proof {
                lemma_run_exact(buf@, i as nat);
            }
            if i < 9 {
                proof {
                    lemma_pow128_monotonic((i + 1) as nat, 9);
                    assert(pow128((i + 1) as nat) == 128 * mult);
                }
                return Ok(Some((value + low * mult, i + 1)));
            } else {
                let r: u64 = low % 2;
                proof {
                    let q = low / 2;
                    assert(low == 2 * q + r);
                    let full = value + low * mult;
                    assert(full == (value + r * mult) + q * 0x1_0000_0000_0000_0000) by (nonlinear_arith)
                        requires
                            low == 2 * q + r,
                            mult == 0x8000_0000_0000_0000,
                            full == value + low * mult,
                    ;
                    assert(value + r * mult < 0x1_0000_0000_0000_0000);
                    vstd::arithmetic::div_mod::lemma_mod_multiples_vanish(
                        q as int,
                        (value + r * mult) as int,
                        0x1_0000_0000_0000_0000,
                    );
                    vstd::arithmetic::div_mod::lemma_small_mod(
                        (value + r * mult) as nat,
                        0x1_0000_0000_0000_0000,
                    );
                }
                return Ok(Some((value + r * mult, i + 1)));
            }
        }
        if i == 9 {
            proof {
                lemma_run_at_least(buf@, 10);
            }
            return Err(VarintError::TooLong);
        }
        proof {
            lemma_pow128_monotonic((i + 1) as nat, 9);
            assert(pow128((i + 1) as nat) == 128 * mult);
        }
        value = value + low * mult;
        mult = mult * 128;
        i = i + 1;
    }
    proof {
        lemma_run_at_least(buf@, i as nat);
        assert(continuation_run(buf@) <= buf@.len()) by {
            lemma_run_le_len(buf@);
        }
    }
    Ok(None)
}

proof fn lemma_run_le_len(s: Seq<u8>)
    ensures
        continuation_run(s) <= s.len(),
    decreases s.len(),
{
    if s.len() > 0 {
        lemma_run_le_len(s.drop_first());
    }
}

/// Encodes `value` as a varint, seven bits per byte, least significant first.
pub fn encode_varint(value: u64) -> (bytes: Vec<u8>)
    ensures
        bytes@ == varint_encoding(value as nat),
{
    let mut bytes: Vec<u8> = Vec::new();
    let mut v: u64 = value;
    loop
        invariant
            bytes@ + varint_encoding(v as nat) == varint_encoding(value as nat),
        decreases v,
    {
        if v < 128 {
            let ghost before = bytes@;
            bytes.push(v as u8);
            assert(bytes@ =~= before + varint_encoding(v as nat));
            return bytes;
        }
        let ghost before = bytes@;
        bytes.push((v % 128 + 128) as u8);
        assert(bytes@ + varint_encoding((v / 128) as nat) =~= before + varint_encoding(v as nat));
        v = v / 128;
    }
}

proof fn lemma_encoding_facts(v: nat, rest: Seq<u8>)
    ensures
        varint_encoding(v).len() >= 1,
        continuation_run(varint_encoding(v) + rest) == varint_encoding(v).len() - 1,
        varint_value(varint_encoding(v)) == v,
        (varint_encoding(v) + rest).take(varint_encoding(v).len() as int) == varint_encoding(v),
    decreases v,
{
    let e = varint_encoding(v);
    assert((e + rest).take(e.len() as int) =~= e);
    if v < 128 {
        assert(e.drop_first() =~= Seq::<u8>::empty());
        assert(varint_value(Seq::<u8>::empty()) == 0);
    } else {
        lemma_encoding_facts(v / 128, rest);
        let tail = varint_encoding(v / 128);
        assert(e.drop_first() =~= tail);
        assert((e + rest).drop_first() =~= tail + rest);
    }
}

proof fn lemma_encoding_len(v: nat, n: nat)
    requires
        n >= 1,
        v < pow128(n),
    ensures
        varint_encoding(v).len() <= n,
    decreases v,
{
    if v >= 128 {
        assert(n >= 2) by {
            if n == 1 {
                assert(pow128(1) == 128) by {
                    reveal_with_fuel(pow128, 2);
                }
            }
        }
        assert(v / 128 < pow128((n - 1) as nat)) by {
            assert(pow128(n) == 128 * pow128((n - 1) as nat));
        }
        lemma_encoding_len(v / 128, (n - 1) as nat);
    }
}

/// Decoding the encoding of a value, whatever bytes follow it, gives the value
/// back together with the encoding's length, which never exceeds ten bytes.
pub proof fn varint_roundtrip(value: u64, rest: Seq<u8>)
    ensures
        1 <= varint_encoding(value as nat).len() <= 10,
        varint_decode_spec(varint_encoding(value as nat) + rest) == Ok::<Option<(u64, usize)>, VarintError>(
            Some((value, varint_encoding(value as nat).len() as usize)),
        ),
{
    let e = varint_encoding(value as nat);
    lemma_encoding_facts(value as nat, rest);
    lemma_pow128_facts();
    lemma_encoding_len(value as nat, 10);
    vstd::arithmetic::div_mod::lemma_small_mod(value as nat, 0x1_0000_0000_0000_0000);
}

/// Frames `payload` for the wire: its length as a varint, then the bytes.
pub fn frame_message(payload: &[u8]) -> (framed: Vec<u8>)
    ensures
        framed@ == frame_of(payload@),
{
    let mut framed = encode_varint(payload.len() as u64);
    let mut i: usize = 0;
    let ghost header = framed@;
    while i < payload.len()
        invariant
            i <= payload@.len(),
            header == varint_encoding(payload@.len()),
            framed@ == header + payload@.take(i as int),
        decreases payload.len() - i,
    {
        framed.push(payload[i]);
        assert(payload@.take(i + 1) =~= payload@.take(i as int).push(payload@[i as int]));
        i = i + 1;
    }
    assert(payload@.take(i as int) =~= payload@);
    framed
}

fn copy_range(buf: &Vec<u8>, from: usize, to: usize) -> (out: Vec<u8>)
    requires
        from <= to <= buf@.len(),
    ensures
        out@ == buf@.subrange(from as int, to as int),
{
    let mut out: Vec<u8> = Vec::new();
    let mut i = from;
    while i < to
        invariant
            from <= i <= to,
            to <= buf@.len(),
            out@ == buf@.subrange(from as int, i as int),
        decreases to - i,
    {
        out.push(buf[i]);
        assert(buf@.subrange(from as int, i + 1) =~= buf@.subrange(from as int, i as int).push(buf@[i as int]));
        i = i + 1;
    }
    out
}

/// Takes one complete length-delimited frame off the front of `buffer` and
/// returns its payload; leaves `buffer` as it was while the frame is
/// incomplete or its header is malformed.
pub fn try_take_frame(buffer: &mut Vec<u8>) -> (res: Result<Option<Vec<u8>>, VarintError>)
    ensures
        match frame_split_spec(old(buffer)@) {
            Err(e) => res == Err::<Option<Vec<u8>>, VarintError>(e) && final(buffer)@ == old(buffer)@,
            Ok(None) => res is Ok && res->Ok_0 is None && final(buffer)@ == old(buffer)@,
            Ok(Some((payload, remaining))) => res is Ok && res->Ok_0 is Some && res->Ok_0->Some_0@ == payload
                && final(buffer)@ == remaining,
        },
{
    let header = try_read_varint_from_slice(buffer.as_slice());
    match header {
        Err(e) => Err(e),
        Ok(None) => Ok(None),
        Ok(Some((len, header_len))) => {
            let available = buffer.len() - header_len;
            if len as u128 > available as u128 {
                return Ok(None);
            }
            let total = header_len + len as usize;
            let payload = copy_range(buffer, header_len, total);
            let remaining = copy_range(buffer, total, buffer.len());
            *buffer = remaining;
            Ok(Some(payload))
        },
    }
}

/// Taking a frame off `frame_of(payload) + rest` gives the payload back and
/// leaves exactly `rest`, whenever the payload length fits in a `u64`.
pub proof fn frame_roundtrip(payload: Seq<u8>, rest: Seq<u8>)
    requires
        payload.len() <= u64::MAX,
    ensures
        frame_split_spec(frame_of(payload) + rest) == Ok::<Option<(Seq<u8>, Seq<u8>)>, VarintError>(
            Some((payload, rest)),
        ),
{
    let n = payload.len() as u64;
    let e = varint_encoding(n as nat);
    let buf = frame_of(payload) + rest;
    assert(buf =~= e + (payload + rest));
    varint_roundtrip(n, payload + rest);
    assert(buf.subrange(e.len() as int, e.len() + n) =~= payload);
    assert(buf.subrange(e.len() + n, buf.len() as int) =~= rest);
}

} // verus!
