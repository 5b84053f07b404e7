//! QUIC variable-length integers (RFC 9000, section 16).
use vstd::prelude::*;

use crate::error::{fails_with, Error, ERR_INVALID_ARGUMENT};
use crate::MAX_VARINT;

verus! {

/// `256` raised to the power `n`.
pub open spec fn pow256(n: nat) -> nat
    decreases n,
{
    if n == 0 {
        1
    } else {
        256 * pow256((n - 1) as nat)
    }
}

/// The `n` low-order base-256 digits of `v`, most significant first.
pub open spec fn be_bytes(v: nat, n: nat) -> Seq<u8>
    decreases n,
{
    if n == 0 {
        Seq::empty()
    } else {
        be_bytes(v / 256, (n - 1) as nat).push((v % 256) as u8)
    }
}

/// The number that a byte string denotes when read as a big-endian integer.
pub open spec fn be_value(s: Seq<u8>) -> nat
    decreases s.len(),
{
    if s.len() == 0 {
        0
    } else {
        be_value(s.drop_last()) * 256 + s.last() as nat
    }
}

/// The length of the shortest encoding of `v`.
pub open spec fn uvarint_len_spec(v: nat) -> nat {
    if v < 64 {
        1
    } else if v < 16384 {
        2
    } else if v < 1073741824 {
        4
    } else {
        8
    }
}

/// The two-bit length code that an encoding of `n` bytes carries in its first byte.
pub open spec fn len_code(n: nat) -> nat {
    if n == 1 {
        0
    } else if n == 2 {
        1
    } else if n == 4 {
        2
    } else {
        3
    }
}

/// The encoded length announced by the first byte of an encoding.
pub open spec fn prefix_len(first: u8) -> nat {
    if first / 64 == 0 {
        1
    } else if first / 64 == 1 {
        2
    } else if first / 64 == 2 {
        4
    } else {
        8
    }
}

/// The shortest encoding of `v`: its big-endian digits, with the length code
/// in the two high bits of the first byte.
pub open spec fn uvarint_encoding(v: nat) -> Seq<u8> {
    let n = uvarint_len_spec(v);
    let digits = be_bytes(v, n);
    digits.update(0, (digits[0] + 64 * len_code(n)) as u8)
}

/// What a decoder reads from the start of `s`: the value and the number of
/// bytes it occupies, or nothing when `s` does not hold a whole integer.
pub open spec fn uvarint_decoding(s: Seq<u8>) -> Option<(u64, usize)> {
    if s.len() == 0 {
        None
    } else {
        let n = prefix_len(s[0]);
        if s.len() < n {
            None
        } else {
            Some((be_value(s.take(n as int).update(0, s[0] % 64)) as u64, n as usize))
        }
    }
}

proof fn lemma_be_bytes_len(v: nat, n: nat)
    ensures
        be_bytes(v, n).len() == n,
    decreases n,
{
    if n > 0 {
        lemma_be_bytes_len(v / 256, (n - 1) as nat);
    }
}

proof fn lemma_pow256_pos(n: nat)
    ensures
        pow256(n) >= 1,
    decreases n,
{
    if n > 0 {
        lemma_pow256_pos((n - 1) as nat);
    }
}

proof fn lemma_be_value_of_bytes(v: nat, n: nat)
    requires
        v < pow256(n),
    ensures
        be_value(be_bytes(v, n)) == v,
    decreases n,
{
    if n > 0 {
        let p = pow256((n - 1) as nat);
        assert(v / 256 < p) by (nonlinear_arith)
            requires
                v < 256 * p,
        ;
        lemma_be_value_of_bytes(v / 256, (n - 1) as nat);
        let s = be_bytes(v, n);
        assert(s.drop_last() =~= be_bytes(v / 256, (n - 1) as nat));
        assert((v / 256) * 256 + v % 256 == v) by (nonlinear_arith);
    } else {
        assert(v == 0);
    }
}

proof fn lemma_be_bytes_first(v: nat, n: nat)
    requires
        n >= 1,
        v < 64 * pow256((n - 1) as nat),
    ensures
        be_bytes(v, n)[0] == v / pow256((n - 1) as nat),
        be_bytes(v, n)[0] < 64,
    decreases n,
{
    lemma_be_bytes_len(v, n);
    if n == 1 {
        assert(pow256(0) == 1);
    } else {
        let p = pow256((n - 2) as nat);
        lemma_pow256_pos((n - 2) as nat);
        assert(v / 256 < 64 * p) by (nonlinear_arith)
            requires
                v < 64 * (256 * p),
        ;
        lemma_be_bytes_first(v / 256, (n - 1) as nat);
        lemma_be_bytes_len(v / 256, (n - 1) as nat);
        assert((v / 256) / p == v / (256 * p)) by {
            vstd::arithmetic::div_mod::lemma_div_denominator(v as int, 256, p as int);
        }
    }
}

proof fn lemma_be_value_push(s: Seq<u8>, b: u8)
    ensures
        be_value(s.push(b)) == be_value(s) * 256 + b,
{
    assert(s.push(b).drop_last() =~= s);
}

proof fn lemma_be_value_bound(s: Seq<u8>)
    ensures
        be_value(s) < pow256(s.len()),
    decreases s.len(),
{
    if s.len() > 0 {
        lemma_be_value_bound(s.drop_last());
        let a = be_value(s.drop_last());
        let p = pow256(s.drop_last().len());
        let l = s.last();
        assert(a * 256 + l < 256 * p) by (nonlinear_arith)
            requires
                a < p,
                l < 256,
        ;
    }
}

proof fn lemma_pow256_values()
    ensures
        pow256(0) == 1,
        pow256(1) == 256,
        pow256(3) == 16777216,
        pow256(7) == 0x100_0000_0000_0000,
{
    reveal_with_fuel(pow256, 8);
}

/// Decoding the encoding of any value in range gives the value back, and the
/// decoder consumes exactly the bytes that the encoder produced.
pub proof fn lemma_uvarint_roundtrip(v: u64)
    requires
        v <= MAX_VARINT,
    ensures
        uvarint_encoding(v as nat).len() == uvarint_len_spec(v as nat),
        uvarint_decoding(uvarint_encoding(v as nat)) == Some(
            (v, uvarint_len_spec(v as nat) as usize),
        ),
{
    let n = uvarint_len_spec(v as nat);
    lemma_pow256_values();
    assert(v < 64 * pow256((n - 1) as nat));
    lemma_be_bytes_len(v as nat, n);
    lemma_be_bytes_first(v as nat, n);
    lemma_pow256_pos((n - 1) as nat);
    assert(v < pow256(n)) by (nonlinear_arith)
        requires
            v < 64 * pow256((n - 1) as nat),
            pow256(n) == 256 * pow256((n - 1) as nat),
    ;
    lemma_be_value_of_bytes(v as nat, n);
    let digits = be_bytes(v as nat, n);
    let s = uvarint_encoding(v as nat);
    let first = (digits[0] + 64 * len_code(n)) as u8;
    assert(s[0] == first);
    assert(first / 64 == len_code(n));
    assert(first % 64 == digits[0]);
    assert(prefix_len(s[0]) == n);
    assert(s.take(n as int).update(0, s[0] % 64) =~= digits);
}

/// Decoding only looks at the bytes of the integer: what follows it does not
/// change the result.
pub proof fn lemma_uvarint_decoding_ignores_suffix(s: Seq<u8>, t: Seq<u8>)
    requires
        uvarint_decoding(s) is Some,
    ensures
        uvarint_decoding(s + t) == uvarint_decoding(s),
{
    let n = prefix_len(s[0]);
    assert((s + t)[0] == s[0]);
    assert((s + t).take(n as int) =~= s.take(n as int));
}

/// Every decoded value is in the range that an encoder accepts.
pub proof fn lemma_uvarint_decoded_in_range(s: Seq<u8>)
    requires
        uvarint_decoding(s) is Some,
    ensures
        uvarint_decoding(s)->Some_0.0 <= MAX_VARINT,
        1 <= uvarint_decoding(s)->Some_0.1 <= 8,
        uvarint_decoding(s)->Some_0.1 <= s.len(),
{
    let n = prefix_len(s[0]);
    let d = s.take(n as int).update(0, s[0] % 64);
    lemma_pow256_values();
    lemma_be_value_bound(d.drop_first());
    assert(d =~= seq![d[0]] + d.drop_first());
    lemma_be_value_first(d[0], d.drop_first());
    let rest = be_value(d.drop_first());
    let p = pow256(d.drop_first().len());
    assert(d.drop_first().len() == n - 1);
    assert(p <= 0x100_0000_0000_0000) by {
        if n == 1 {
        } else if n == 2 {
        } else if n == 4 {
        } else {
        }
    }
    assert(d[0] < 64);
    assert(be_value(d) <= MAX_VARINT) by (nonlinear_arith)
        requires
            be_value(d) == d[0] * p + rest,
            rest < p,
            d[0] < 64,
            p <= 0x100_0000_0000_0000,
    ;
}

proof fn lemma_be_value_first(b: u8, s: Seq<u8>)
    ensures
        be_value(seq![b] + s) == b * pow256(s.len()) + be_value(s),
    decreases s.len(),
{
    if s.len() == 0 {
        assert(seq![b] + s =~= seq![].push(b));
        lemma_be_value_push(seq![], b);
        assert(be_value(Seq::<u8>::empty()) == 0);
        assert(pow256(0) == 1);
        assert(b * pow256(s.len()) == b);
    } else {
        let init = s.drop_last();
        lemma_be_value_first(b, init);
        assert(seq![b] + s =~= (seq![b] + init).push(s.last()));
        lemma_be_value_push(seq![b] + init, s.last());
        lemma_be_value_push(init, s.last());
        assert(s =~= init.push(s.last()));
        let p = pow256(init.len());
        assert(pow256(s.len()) == 256 * p);
        assert((b * p + be_value(init)) * 256 + s.last() == b * (256 * p) + (be_value(init) * 256
            + s.last())) by (nonlinear_arith);
    }
}

/// Length of the shortest encoding of `value` (1, 2, 4 or 8 bytes).
fn uvarint_len(value: u64) -> (n: usize)
    ensures
        n == uvarint_len_spec(value as nat),
{
    if value < 64 {
        1
    } else if value < 16384 {
        2
    } else if value < 1073741824 {
        4
    } else {
        8
    }
}

/// The `n` low-order base-256 digits of `v`, most significant first.
fn be_bytes_exec(v: u64, n: usize) -> (r: Vec<u8>)
    ensures
        r@ == be_bytes(v as nat, n as nat),
    decreases n,
{
    if n == 0 {
        Vec::new()
    } else {
        let mut r = be_bytes_exec(v / 256, n - 1);
        r.push((v % 256) as u8);
        r
    }
}

/// Decodes one QUIC variable-length unsigned integer when enough input is present.
///
/// Returns the value and the number of bytes it occupies, or `None` when the
/// input is empty or shorter than the length its first byte announces.
pub fn decode_uvarint(input: &[u8]) -> (r: Option<(u64, usize)>)
    ensures
        r == uvarint_decoding(input@),
{
    if input.len() == 0 {
        return None;
    }
    let first = input[0];
    let required: usize = if first < 64 {
        1
    } else if first < 128 {
        2
    } else if first < 192 {
        4
    } else {
        8
    };
    assert(required == prefix_len(first));
    if input.len() < required {
        return None;
    }
    let ghost digits = input@.take(required as int).update(0, first % 64);
    let mut value: u64 = (first % 64) as u64;
    let mut i: usize = 1;
    proof {
        lemma_pow256_values();
        assert(input@.take(1).update(0, first % 64) =~= seq![].push(first % 64));
        lemma_be_value_push(seq![], first % 64);
    }
    while i < required
        invariant
            1 <= i <= required <= 8,
            required <= input.len(),
            first == input@[0],
            value == be_value(input@.take(i as int).update(0, first % 64)),
            value < 64 * pow256((i - 1) as nat),
        decreases required - i,
    {
        let b = input[i];
        let ghost prev = input@.take(i as int).update(0, first % 64);
        proof {
            assert(input@.take(i + 1).update(0, first % 64) =~= prev.push(b));
            lemma_be_value_push(prev, b);
            lemma_pow256_values();
            let p = pow256((i - 1) as nat);
            assert(pow256(i as nat) == 256 * p);
            assert(p <= 0x1_0000_0000_0000nat) by {
                reveal_with_fuel(pow256, 8);
            }
            assert(value * 256 + b < 64 * (256 * p)) by (nonlinear_arith)
                requires
                    value < 64 * p,
                    b < 256,
            ;
            assert(64 * (256 * p) <= 0x4000_0000_0000_0000) by (nonlinear_arith)
                requires
                    p <= 0x1_0000_0000_0000nat,
            ;
        }
        value = value * 256 + b as u64;
        i = i + 1;
    }
    assert(input@.take(i as int).update(0, first % 64) =~= digits);
    Some((value, required))
}

/// Encodes a QUIC variable-length unsigned integer in its shortest form.
///
/// Values above `MAX_VARINT` are refused with `ERR_INVALID_ARGUMENT`.
pub fn encode_uvarint(value: u64) -> (r: Result<Vec<u8>, Error>)
    ensures
        value > MAX_VARINT ==> fails_with(r, ERR_INVALID_ARGUMENT),
        value <= MAX_VARINT ==> r is Ok && r->Ok_0@ == uvarint_encoding(value as nat),
{
    if value > MAX_VARINT {
        return Err(Error::new(ERR_INVALID_ARGUMENT));
    }
    let len = uvarint_len(value);
    let code: u8 = if len == 1 {
        0
    } else if len == 2 {
        1
    } else if len == 4 {
        2
    } else {
        3
    };
    let mut output = be_bytes_exec(value, len);
    proof {
        lemma_pow256_values();
        lemma_be_bytes_len(value as nat, len as nat);
        lemma_be_bytes_first(value as nat, len as nat);
    }
    let first = output[0];
    output.set(0, first + 64 * code);
    Ok(output)
}

} // verus!
