//! Hardware identifiers in hex: the chip's unique id becomes the client
//! id, the radio's MAC address goes into the discovery document.
use vstd::prelude::*;

verus! {

/// The lowercase hex digit of a value below 16.
pub open spec fn hex_digit(d: u8) -> u8 {
    if d < 10 {
        (48 + d) as u8
    } else {
        (87 + d) as u8
    }
}

/// Two lowercase hex digits per byte, high nibble first.
pub open spec fn hex_of(b: Seq<u8>) -> Seq<u8>
    decreases b.len(),
{
    if b.len() == 0 {
        seq![]
    } else {
        seq![hex_digit(b[0] / 16), hex_digit(b[0] % 16)] + hex_of(b.drop_first())
    }
}

/// Relies on hex::encode_to_slice, which writes the lowercase hex form of
/// `input` into an output of exactly twice its length.
#[verifier::external_body]
fn encode_hex(input: &[u8], output: &mut Vec<u8>)
    requires
        old(output)@.len() == 2 * input@.len(),
    ensures
        final(output)@ == hex_of(input@),
{
    let _ = hex::encode_to_slice(input, output.as_mut_slice());
}

/// The hex form of a hardware identifier.
pub fn hex_id(address: &[u8]) -> (r: Vec<u8>)
    requires
        2 * address@.len() <= usize::MAX,
    ensures
        r@ == hex_of(address@),
        r@.len() == 2 * address@.len(),
{
    let mut out: Vec<u8> = Vec::new();
    let mut i: usize = 0;
    while i < 2 * address.len()
        invariant
            2 * address@.len() <= usize::MAX,
            i <= 2 * address@.len(),
            out@.len() == i,
        decreases 2 * address.len() - i,
    {
        out.push(0);
        i += 1;
    }
    encode_hex(address, &mut out);
    proof {
        lemma_hex_len(address@);
    }
    out
}

proof fn lemma_hex_len(b: Seq<u8>)
    ensures
        hex_of(b).len() == 2 * b.len(),
    decreases b.len(),
{
    if b.len() > 0 {
        lemma_hex_len(b.drop_first());
    }
}

} // verus!
