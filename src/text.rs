use vstd::prelude::*;

verus! {

/// The characters of an ASCII byte sequence.
pub open spec fn ascii_chars(b: Seq<u8>) -> Seq<char> {
    b.map_values(|c: u8| c as char)
}

pub open spec fn all_ascii(b: Seq<u8>) -> bool {
    forall|i: int| 0 <= i < b.len() ==> #[trigger] b[i] < 128
}

/// Relies on `String::from_utf8`: a sequence of bytes below 0x80 is valid UTF-8, and each byte
/// becomes the character with the same code.
#[verifier::external_body]
pub(crate) fn ascii_string(bytes: Vec<u8>) -> (s: String)
    requires
        all_ascii(bytes@),
    ensures
        s@ == ascii_chars(bytes@),
{
    String::from_utf8(bytes).unwrap_or_default()
}

/// Decimal digits of `n`, most significant first, without leading zeros.
pub open spec fn decimal(n: nat) -> Seq<u8>
    decreases n,
{
    if n < 10 {
        seq![(48 + n) as u8]
    } else {
        decimal(n / 10).push((48 + n % 10) as u8)
    }
}

/// Appends the decimal digits of `n` to `out`.
pub fn push_decimal(out: &mut Vec<u8>, n: u32)
    requires
        all_ascii(old(out)@),
    ensures
        final(out)@ == old(out)@ + decimal(n as nat),
        all_ascii(final(out)@),
    decreases n,
{
    if n >= 10 {
        push_decimal(out, n / 10);
    }
    out.push((48 + n % 10) as u8);
    assert(out@ =~= old(out)@ + decimal(n as nat));
}

/// Lowercase hexadecimal digit of a value below 16.
pub open spec fn hex_digit(v: u8) -> u8 {
    if v < 10 { (48 + v) as u8 } else { (87 + v) as u8 }
}

/// Two lowercase hexadecimal digits of a byte.
pub open spec fn hex_pair(b: u8) -> Seq<u8> {
    seq![hex_digit(b / 16), hex_digit(b % 16)]
}

/// A MAC address written as six lowercase hexadecimal pairs separated by colons.
pub open spec fn mac_text(m: Seq<u8>) -> Seq<u8> {
    hex_pair(m[0]) + seq![58u8] + hex_pair(m[1]) + seq![58u8] + hex_pair(m[2]) + seq![58u8]
        + hex_pair(m[3]) + seq![58u8] + hex_pair(m[4]) + seq![58u8] + hex_pair(m[5])
}

fn hex_digit_of(v: u8) -> (r: u8)
    requires
        v < 16,
    ensures
        r == hex_digit(v),
        r < 128,
{
    if v < 10 { 48 + v } else { 87 + v }
}

/// Appends the two hexadecimal digits of `b` to `out`.
fn push_hex_pair(out: &mut Vec<u8>, b: u8)
    requires
        all_ascii(old(out)@),
    ensures
        final(out)@ == old(out)@ + hex_pair(b),
        all_ascii(final(out)@),
{
    out.push(hex_digit_of(b / 16));
    out.push(hex_digit_of(b % 16));
    assert(out@ =~= old(out)@ + hex_pair(b));
}

/// The MAC address held in `bytes[pos..pos + 6]`, as text.
pub fn mac_string(bytes: &[u8], pos: usize) -> (s: String)
    requires
        pos + 6 <= bytes@.len(),
    ensures
        s@ == ascii_chars(mac_text(bytes@.subrange(pos as int, pos + 6))),
{
    let mut out: Vec<u8> = Vec::new();
    push_hex_pair(&mut out, bytes[pos]);
    out.push(58);
    push_hex_pair(&mut out, bytes[pos + 1]);
    out.push(58);
    push_hex_pair(&mut out, bytes[pos + 2]);
    out.push(58);
    push_hex_pair(&mut out, bytes[pos + 3]);
    out.push(58);
    push_hex_pair(&mut out, bytes[pos + 4]);
    out.push(58);
    push_hex_pair(&mut out, bytes[pos + 5]);
    let ghost m = bytes@.subrange(pos as int, pos + 6);
    assert(out@ =~= mac_text(m));
    ascii_string(out)
}

} // verus!
