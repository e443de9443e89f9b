//! A deterministic string hash for suffixes of generated C identifiers.
use vstd::utf8::encode_utf8;
use vstd::prelude::*;

verus! {

/// One step of the hash: `h * 33 + b` in 64-bit arithmetic.
pub open spec fn djb2_step(h: u64, b: u8) -> u64 {
    ((h as nat * 33 + b as nat) % 0x1_0000_0000_0000_0000) as u64
}

/// The hash value of a byte sequence.
pub open spec fn djb2_value(data: Seq<u8>) -> u64
    decreases data.len(),
{
    if data.len() == 0 {
        5381
    } else {
        djb2_step(djb2_value(data.drop_last()), data.last())
    }
}

/// The lower-case hexadecimal digit of value `d`.
pub open spec fn hex_digit(d: int) -> char {
    if d == 0 { '0' } else if d == 1 { '1' } else if d == 2 { '2' } else if d == 3 { '3' }
    else if d == 4 { '4' } else if d == 5 { '5' } else if d == 6 { '6' } else if d == 7 { '7' }
    else if d == 8 { '8' } else if d == 9 { '9' } else if d == 10 { 'a' } else if d == 11 { 'b' }
    else if d == 12 { 'c' } else if d == 13 { 'd' } else if d == 14 { 'e' } else { 'f' }
}

/// The last `digits` hexadecimal digits of `v`, with leading zeros.
pub open spec fn hex_text(v: nat, digits: nat) -> Seq<char>
    decreases digits,
{
    if digits == 0 {
        Seq::empty()
    } else {
        hex_text(v / 16, (digits - 1) as nat).push(hex_digit((v % 16) as int))
    }
}

/// The hash of a byte sequence as sixteen hexadecimal digits.
pub open spec fn djb2_text(data: Seq<u8>) -> Seq<char> {
    hex_text(djb2_value(data) as nat, 16)
}

/// The hash of a string, taken over its UTF-8 bytes.
pub open spec fn djb2_of(s: Seq<char>) -> Seq<char> {
    djb2_text(encode_utf8(s))
}

/// A hash text always has sixteen characters.
pub proof fn law_hash_has_sixteen_digits(data: Seq<u8>)
    ensures
        djb2_text(data).len() == 16,
{
    lemma_hex_len(djb2_value(data) as nat, 16);
}

proof fn lemma_hex_len(v: nat, digits: nat)
    ensures
        hex_text(v, digits).len() == digits,
    decreases digits,
{
    if digits > 0 {
        lemma_hex_len(v / 16, (digits - 1) as nat);
    }
}

fn hex(v: u64, digits: u8) -> (r: String)
    ensures
        r@ == hex_text(v as nat, digits as nat),
    decreases digits,
{
    if digits == 0 {
        String::new()
    } else {
        let mut out = hex(v / 16, digits - 1);
        let d: u64 = v % 16;
        let c = if d == 0 { '0' } else if d == 1 { '1' } else if d == 2 { '2' } else if d == 3 { '3' }
            else if d == 4 { '4' } else if d == 5 { '5' } else if d == 6 { '6' } else if d == 7 { '7' }
            else if d == 8 { '8' } else if d == 9 { '9' } else if d == 10 { 'a' } else if d == 11 { 'b' }
            else if d == 12 { 'c' } else if d == 13 { 'd' } else if d == 14 { 'e' } else { 'f' };
        out.push(c);
        out
    }
}

/// Hashes raw bytes.
pub fn djb2_hash(data: &[u8]) -> (r: String)
    ensures
        r@ == djb2_text(data@),
{
    let mut h: u64 = 5381;
    let mut i: usize = 0;
    while i < data.len()
        invariant
            i <= data@.len(),
            h == djb2_value(data@.take(i as int)),
        decreases data@.len() - i,
    {
        proof {
            assert(data@.take(i + 1).drop_last() =~= data@.take(i as int));
            vstd::arithmetic::div_mod::lemma_mod_adds(
                h as int * 33,
                data@[i as int] as int,
                0x1_0000_0000_0000_0000,
            );
            vstd::arithmetic::div_mod::lemma_add_mod_noop(
                h as int * 33,
                data@[i as int] as int,
                0x1_0000_0000_0000_0000,
            );
        }
        h = h.wrapping_mul(33).wrapping_add(data[i] as u64);
        i = i + 1;
    }
    proof {
        assert(data@.take(data@.len() as int) =~= data@);
    }
    hex(h, 16)
}

/// Hashes a string slice.
pub fn djb2_str(s: &str) -> (r: String)
    ensures
        r@ == djb2_of(s@),
{
    djb2_hash(s.as_bytes())
}

} // verus!
