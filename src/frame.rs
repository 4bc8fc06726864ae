//! Framing of MQTT packets: the fixed header's remaining-length varint and
//! the receive buffer that reassembles frames from a byte stream.
use vstd::prelude::*;

verus! {

/// The value of the remaining-length bytes `b[1..=n]`, base 128, least
/// significant group first.
pub open spec fn varint_value(b: Seq<u8>, n: nat) -> nat
    decreases n,
{
    if n == 0 || n >= b.len() {
        0
    } else {
        varint_value(b, (n - 1) as nat) + (b[n as int] % 128) as nat * pow128((n - 1) as nat)
    }
}

pub open spec fn pow128(e: nat) -> nat
    decreases e,
{
    if e == 0 {
        1
    } else {
        128 * pow128((e - 1) as nat)
    }
}

/// Scans the length bytes from index `k` on.
pub open spec fn size_from(b: Seq<u8>, k: nat) -> Option<nat>
    decreases 5 - k,
{
    if k >= 5 {
        Some(0)
    } else if k >= b.len() {
        None
    } else if b[k as int] < 128 {
        let total = varint_value(b, k) + k + 1;
        if total <= b.len() {
            Some(total)
        } else {
            None
        }
    } else {
        size_from(b, k + 1)
    }
}

/// What `packet_size` reports for the bytes `b`: `Some(total)` once a whole
/// frame of `total` bytes is there, `Some(0)` when the length field runs
/// past four bytes, `None` while more bytes are needed.
pub open spec fn frame_size(b: Seq<u8>) -> Option<nat> {
    size_from(b, 1)
}

/// The remaining-length field that encodes `n` (below 2^28): groups of
/// seven bits, least significant first, the high bit set on all but the last.
pub open spec fn length_field(n: nat) -> Seq<u8> {
    if n < 128 {
        seq![n as u8]
    } else if n < 16384 {
        seq![(n % 128 + 128) as u8, (n / 128) as u8]
    } else if n < 2097152 {
        seq![(n % 128 + 128) as u8, ((n / 128) % 128 + 128) as u8, (n / 16384) as u8]
    } else {
        seq![
            (n % 128 + 128) as u8,
            ((n / 128) % 128 + 128) as u8,
            ((n / 16384) % 128 + 128) as u8,
            (n / 2097152) as u8,
        ]
    }
}

/// A frame with first byte `first`, a remaining length of `n` and the
/// payload `payload` (of length `n`).
pub open spec fn frame_bytes(first: u8, n: nat, payload: Seq<u8>) -> Seq<u8> {
    seq![first] + length_field(n) + payload
}

/// `b` agrees with the fixed header of a frame of remaining length `n` on
/// every index that both hold.
pub open spec fn header_prefix(b: Seq<u8>, n: nat) -> bool {
    forall|i: int|
        1 <= i < b.len() && i <= length_field(n).len() ==> #[trigger] b[i] == length_field(n)[i - 1]
}

proof fn lemma_size_of_header(b: Seq<u8>, n: nat)
    requires
        n < 268435456,
        b.len() >= 1,
        header_prefix(b, n),
    ensures
        frame_size(b) == if b.len() >= 1 + length_field(n).len() + n {
            Some(1 + length_field(n).len() + n)
        } else {
            None::<nat>
        },
{
    let f = length_field(n);
    assert(pow128(0) == 1);
    assert(pow128(1) == 128);
    assert(pow128(2) == 16384);
    assert(pow128(3) == 2097152);
    assert(varint_value(b, 0) == 0);
    if n < 128 {
        assert(f.len() == 1);
        if b.len() >= 2 {
            assert(b[1] == f[0]);
            assert(b[1] as nat == n);
            assert(b[1] % 128 == b[1]);
            assert(varint_value(b, 1) == n);
        }
    } else if n < 16384 {
        assert(f.len() == 2);
        if b.len() >= 2 {
            assert(b[1] == f[0]);
            assert(b[1] >= 128);
            assert(size_from(b, 1) == size_from(b, 2));
            if b.len() >= 3 {
                assert(b[2] == f[1]);
                assert(b[2] < 128);
                assert(varint_value(b, 1) == n % 128);
                assert(varint_value(b, 2) == n % 128 + (n / 128) * 128);
                assert(varint_value(b, 2) == n);
            }
        }
    } else if n < 2097152 {
        assert(f.len() == 3);
        if b.len() >= 2 {
            assert(b[1] == f[0]);
            assert(size_from(b, 1) == size_from(b, 2));
            if b.len() >= 3 {
                assert(b[2] == f[1]);
                assert(size_from(b, 2) == size_from(b, 3));
                if b.len() >= 4 {
                    assert(b[3] == f[2]);
                    assert(b[3] < 128);
                    assert(varint_value(b, 1) == n % 128);
                    assert(varint_value(b, 2) == n % 128 + ((n / 128) % 128) * 128);
                    assert(varint_value(b, 3) == n % 128 + ((n / 128) % 128) * 128 + (n / 16384) * 16384);
                    assert(varint_value(b, 3) == n);
                }
            }
        }
    } else {
        assert(f.len() == 4);
        if b.len() >= 2 {
            assert(b[1] == f[0]);
            assert(size_from(b, 1) == size_from(b, 2));
            if b.len() >= 3 {
                assert(b[2] == f[1]);
                assert(size_from(b, 2) == size_from(b, 3));
                if b.len() >= 4 {
                    assert(b[3] == f[2]);
                    assert(size_from(b, 3) == size_from(b, 4));
                    if b.len() >= 5 {
                        assert(b[4] == f[3]);
                        assert(b[4] < 128);
                        assert(varint_value(b, 1) == n % 128);
                        assert(varint_value(b, 2) == n % 128 + ((n / 128) % 128) * 128);
                        assert(varint_value(b, 3) == n % 128 + ((n / 128) % 128) * 128 + ((n / 16384) % 128) * 16384);
                        assert(varint_value(b, 4) == n % 128 + ((n / 128) % 128) * 128 + ((n / 16384) % 128) * 16384 + (n / 2097152) * 2097152);
                        assert(varint_value(b, 4) == n);
                    }
                }
            }
        }
    }
}

/// A buffer that starts with a whole frame, whose remaining length takes
/// one to four bytes, has the size of that frame: fixed header and payload.
pub proof fn lemma_complete_frame(first: u8, n: nat, payload: Seq<u8>, rest: Seq<u8>)
    requires
        n < 268435456,
        payload.len() == n,
    ensures
        frame_size(frame_bytes(first, n, payload) + rest) == Some(1 + length_field(n).len() + n),
{
    lemma_size_of_header(frame_bytes(first, n, payload) + rest, n);
}

/// A buffer that holds less than a whole frame is incomplete.
pub proof fn lemma_partial_frame(first: u8, n: nat, payload: Seq<u8>, m: nat)
    requires
        n < 268435456,
        payload.len() == n,
        1 <= m < frame_bytes(first, n, payload).len(),
    ensures
        frame_size(frame_bytes(first, n, payload).subrange(0, m as int)) is None,
{
    lemma_size_of_header(frame_bytes(first, n, payload).subrange(0, m as int), n);
}

/// A length field whose first four bytes all carry the continuation bit is
/// invalid, whatever follows.
pub proof fn lemma_overlong_length(b: Seq<u8>)
    requires
        b.len() >= 5,
        forall|i: int| 1 <= i <= 4 ==> b[i] >= 128,
    ensures
        frame_size(b) == Some(0nat),
{
    assert(b[1] >= 128 && b[2] >= 128 && b[3] >= 128 && b[4] >= 128);
    assert(size_from(b, 4) == size_from(b, 5));
    assert(size_from(b, 3) == size_from(b, 4));
    assert(size_from(b, 2) == size_from(b, 3));
    assert(size_from(b, 1) == size_from(b, 2));
}

/// Length of the first MQTT frame in `buffer` (fixed header and payload).
pub fn packet_size(buffer: &[u8]) -> (r: Option<usize>)
    ensures
        r matches Some(n) ==> frame_size(buffer@) == Some(n as nat),
        r is None ==> frame_size(buffer@) is None,
{
    let mut pos: usize = 1;
    let mut multiplier: usize = 1;
    let mut value: usize = 0;
    while pos < buffer.len()
        invariant
            1 <= pos <= 4,
            multiplier == pow128((pos - 1) as nat),
            multiplier <= 2097152,
            value < multiplier,
            value == varint_value(buffer@, (pos - 1) as nat),
            size_from(buffer@, 1) == size_from(buffer@, pos as nat),
        decreases buffer.len() - pos,
    {
        let byte = buffer[pos];
        let ghost before = value;
        let digit = (byte % 128) as usize;
        assert(digit * multiplier <= 127 * 2097152) by (nonlinear_arith)
            requires
                digit <= 127,
                multiplier <= 2097152,
        ;
        value = value + digit * multiplier;
        proof {
            assert(value < 128 * multiplier) by (nonlinear_arith)
                requires
                    value == before + digit * multiplier,
                    digit < 128,
                    before < multiplier,
            ;
        }
        if byte < 128 {
            let total = value + pos + 1;
            if total <= buffer.len() {
                return Some(total);
            } else {
                return None;
            }
        }
        pos += 1;
        if pos == 5 {
            return Some(0);
        }
        multiplier = multiplier * 128;
        proof {
            if pos == 2 { assert(multiplier == 128); }
            if pos == 3 { assert(multiplier == 16384); }
            if pos == 4 { assert(multiplier == 2097152); }
        }
    }
    None
}

} // verus!
