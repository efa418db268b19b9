//! Hexadecimal renderings of trace and span identifiers.
use vstd::prelude::*;

verus! {

/// The lowercase hexadecimal digits, by value.
pub open spec fn hex_digits() -> Seq<char> {
    seq!['0', '1', '2', '3', '4', '5', '6', '7', '8', '9', 'a', 'b', 'c', 'd', 'e', 'f']
}

/// Two lowercase hexadecimal digits for each byte, high nibble first.
pub open spec fn hex_of(b: Seq<u8>) -> Seq<char>
    decreases b.len(),
{
    if b.len() == 0 {
        Seq::empty()
    } else {
        let x = b.last();
        hex_of(b.drop_last()) + seq![hex_digits()[(x / 16) as int], hex_digits()[(x % 16) as int]]
    }
}

/// The `n` low bytes of `x`, most significant first.
pub open spec fn be_bytes(x: nat, n: nat) -> Seq<u8>
    decreases n,
{
    if n == 0 {
        Seq::empty()
    } else {
        be_bytes(x / 256, (n - 1) as nat).push((x % 256) as u8)
    }
}

/// The text form of a trace identifier: its 16 bytes in hexadecimal.
pub open spec fn trace_id_text(id: u128) -> Seq<char> {
    hex_of(be_bytes(id as nat, 16))
}

/// The text form of a span identifier: its 8 bytes in hexadecimal.
pub open spec fn span_id_text(id: u64) -> Seq<char> {
    hex_of(be_bytes(id as nat, 8))
}

/// Relies on `hex::encode`: two lowercase hexadecimal digits for each byte,
/// high nibble first.
#[verifier::external_body]
fn hex_encode(b: &[u8]) -> (r: String)
    ensures
        r@ == hex_of(b@),
{
    hex::encode(b)
}

/// The `n` low bytes of `x`, most significant first.
fn to_be_bytes(x: u128, n: usize) -> (r: Vec<u8>)
    ensures
        r@ == be_bytes(x as nat, n as nat),
    decreases n,
{
    if n == 0 {
        Vec::new()
    } else {
        let mut v = to_be_bytes(x / 256, n - 1);
        v.push((x % 256) as u8);
        v
    }
}

/// Renders a trace identifier as 32 hexadecimal digits.
pub fn trace_id_hex(id: u128) -> (r: String)
    ensures
        r@ == trace_id_text(id),
{
    let b = to_be_bytes(id, 16);
    hex_encode(b.as_slice())
}

/// Renders a span identifier as 16 hexadecimal digits.
pub fn span_id_hex(id: u64) -> (r: String)
    ensures
        r@ == span_id_text(id),
{
    let b = to_be_bytes(id as u128, 8);
    hex_encode(b.as_slice())
}

} // verus!
