//! Arithmetic on sequences of 5-bit symbols and 8-bit bytes.
//!
//! A payment request carries its payload as symbols of five bits each. This
//! module reads such a sequence as one big-endian number and regroups it into
//! bytes.

use vstd::arithmetic::div_mod::lemma_fundamental_div_mod_converse;
use vstd::arithmetic::power2::{lemma2_to64, pow2};
use vstd::prelude::*;

use crate::decoder::DecodeError;

verus! {

/// Every element is a 5-bit symbol.
pub open spec fn all_five_bit(data: Seq<u8>) -> bool {
    forall|i: int| 0 <= i < data.len() ==> #[trigger] data[i] < 32
}

/// Tells whether every element is a 5-bit symbol.
pub fn is_five_bit(data: &[u8]) -> (fits: bool)
    ensures
        fits == all_five_bit(data@),
{
    let mut i: usize = 0;
    while i < data.len()
        invariant
            i <= data.len(),
            forall|j: int| 0 <= j < i ==> #[trigger] data@[j] < 32,
        decreases data.len() - i,
    {
        if data[i] >= 32 {
            return false;
        }
        i += 1;
    }
    true
}

/// The number whose big-endian digits in the given base are `digits`.
pub open spec fn be_value(digits: Seq<u8>, base: nat) -> nat
    decreases digits.len(),
{
    if digits.len() == 0 {
        0
    } else {
        be_value(digits.drop_last(), base) * base + digits.last() as nat
    }
}

/// The `len` low-order base-256 digits of `value`, most significant first.
pub open spec fn be_bytes(value: nat, len: nat) -> Seq<u8>
    decreases len,
{
    if len == 0 {
        Seq::empty()
    } else {
        be_bytes(value / 256, (len - 1) as nat).push((value % 256) as u8)
    }
}

/// Number of padding bits that follow the last whole byte of `symbols` symbols.
pub open spec fn padding_bits(symbols: nat) -> nat {
    (5 * symbols) % 8
}

/// Number of whole bytes held by `symbols` symbols.
pub open spec fn whole_bytes(symbols: nat) -> nat {
    (5 * symbols) / 8
}

/// The bytes that a symbol sequence carries, most significant bit first.
///
/// The sequence is read as one number. Its lowest `padding_bits` bits are
/// padding and must be zero; what stands above them is the payload, written
/// as `whole_bytes` bytes. `None` when a padding bit is set.
pub open spec fn repack(data: Seq<u8>) -> Option<Seq<u8>> {
    let value = be_value(data, 32);
    let pad = pow2(padding_bits(data.len()));
    if value % pad == 0 {
        Some(be_bytes(value / pad, whole_bytes(data.len())))
    } else {
        None
    }
}

/// The lowest `bits` bits of `acc`, as a number.
spec fn low_bits(acc: u32, bits: nat) -> nat {
    (acc as nat) % pow2(bits)
}

/// Writing the digits of a byte sequence's value gives the sequence back.
pub proof fn lemma_be_bytes_of_value(bytes: Seq<u8>)
    ensures
        be_bytes(be_value(bytes, 256), bytes.len()) == bytes,
    decreases bytes.len(),
{
    if bytes.len() > 0 {
        let init = bytes.drop_last();
        let v = be_value(init, 256);
        let last = bytes.last() as nat;
        lemma_be_bytes_of_value(init);
        lemma_fundamental_div_mod_converse((v * 256 + last) as int, 256, v as int, last as int);
        assert(be_bytes(v * 256 + last, bytes.len()) == be_bytes(v, init.len()).push(
            last as u8,
        ));
        assert(init.push(bytes.last()) =~= bytes);
    }
}

/// The value of the digits read so far grows by one digit at a time.
pub proof fn lemma_be_value_push(digits: Seq<u8>, digit: u8, base: nat)
    ensures
        be_value(digits.push(digit), base) == be_value(digits, base) * base + digit as nat,
{
    assert(digits.push(digit).drop_last() =~= digits);
}

proof fn lemma_absorb(acc: u32, bits: u32, v: u32)
    by (bit_vector)
    requires
        bits < 8,
        v < 32,
    ensures
        bits == 0 ==> ((acc << 5) | v) % 32 == v,
        bits == 1 ==> ((acc << 5) | v) % 64 == (acc % 2) * 32 + v,
        bits == 2 ==> ((acc << 5) | v) % 128 == (acc % 4) * 32 + v,
        bits == 3 ==> ((acc << 5) | v) % 256 == (acc % 8) * 32 + v,
        bits == 4 ==> ((acc << 5) | v) % 512 == (acc % 16) * 32 + v,
        bits == 5 ==> ((acc << 5) | v) % 1024 == (acc % 32) * 32 + v,
        bits == 6 ==> ((acc << 5) | v) % 2048 == (acc % 64) * 32 + v,
        bits == 7 ==> ((acc << 5) | v) % 4096 == (acc % 128) * 32 + v,
{
}

proof fn lemma_emit(acc: u32, bits: u32)
    by (bit_vector)
    requires
        bits < 5,
    ensures
        (acc >> bits) & 0xff < 256,
        bits == 0 ==> acc % 256 == ((acc >> bits) & 0xff),
        bits == 1 ==> acc % 512 == ((acc >> bits) & 0xff) * 2 + acc % 2,
        bits == 2 ==> acc % 1024 == ((acc >> bits) & 0xff) * 4 + acc % 4,
        bits == 3 ==> acc % 2048 == ((acc >> bits) & 0xff) * 8 + acc % 8,
        bits == 4 ==> acc % 4096 == ((acc >> bits) & 0xff) * 16 + acc % 16,
{
}

proof fn lemma_mask(acc: u32, bits: u32)
    by (bit_vector)
    requires
        0 < bits < 8,
    ensures
        (1u32 << bits) >= 1,
        bits == 1 ==> acc & (((1u32 << bits) - 1) as u32) == acc % 2,
        bits == 2 ==> acc & (((1u32 << bits) - 1) as u32) == acc % 4,
        bits == 3 ==> acc & (((1u32 << bits) - 1) as u32) == acc % 8,
        bits == 4 ==> acc & (((1u32 << bits) - 1) as u32) == acc % 16,
        bits == 5 ==> acc & (((1u32 << bits) - 1) as u32) == acc % 32,
        bits == 6 ==> acc & (((1u32 << bits) - 1) as u32) == acc % 64,
        bits == 7 ==> acc & (((1u32 << bits) - 1) as u32) == acc % 128,
{
}

proof fn lemma_pow2_small(bits: nat)
    requires
        bits < 13,
    ensures
        pow2(bits) == if bits == 0 {
            1nat
        } else if bits == 1 {
            2
        } else if bits == 2 {
            4
        } else if bits == 3 {
            8
        } else if bits == 4 {
            16
        } else if bits == 5 {
            32
        } else if bits == 6 {
            64
        } else if bits == 7 {
            128
        } else if bits == 8 {
            256
        } else if bits == 9 {
            512
        } else if bits == 10 {
            1024
        } else if bits == 11 {
            2048
        } else {
            4096
        },
{
    lemma2_to64();
}

/// Regroups 5-bit symbols into bytes, most significant bit first.
///
/// A byte is produced for every eight bits read. The bits left over after the
/// last byte are padding: if one of them is set the input is rejected.
pub fn five_bit_to_bytes(data: &[u8]) -> (res: Result<Vec<u8>, DecodeError>)
    requires
        all_five_bit(data@),
    ensures
        match res {
            Ok(bytes) => repack(data@) == Some(bytes@),
            Err(e) => e == DecodeError::InvalidPadding && repack(data@) is None,
        },
{
    let mut acc: u32 = 0;
    let mut bits: u32 = 0;
    let mut out: Vec<u8> = Vec::new();
    let mut i: usize = 0;
    proof {
        lemma_pow2_small(0);
    }
    while i < data.len()
        invariant
            i <= data.len(),
            all_five_bit(data@),
            bits < 8,
            bits == padding_bits(i as nat),
            out.len() == whole_bytes(i as nat),
            be_value(data@.take(i as int), 32) == be_value(out@, 256) * pow2(bits as nat)
                + low_bits(acc, bits as nat),
        decreases data.len() - i,
    {
        let value = data[i];
        let ghost seen = be_value(data@.take(i as int), 32);
        let ghost held = be_value(out@, 256);
        proof {
            assert(data@.take(i + 1) =~= data@.take(i as int).push(value));
            lemma_be_value_push(data@.take(i as int), value, 32);
            lemma_absorb(acc, bits, value as u32);
            lemma_pow2_small(bits as nat);
            lemma_pow2_small((bits + 5) as nat);
            assert(held * (pow2(bits as nat) * 32) == held * pow2(bits as nat) * 32)
                by (nonlinear_arith);
        }
        acc = (acc << 5) | (value as u32);
        bits += 5;
        assert(seen * 32 + value == held * pow2(bits as nat) + low_bits(acc, bits as nat));
        if bits >= 8 {
            bits -= 8;
            proof {
                lemma_emit(acc, bits);
                lemma_pow2_small(bits as nat);
                lemma_pow2_small((bits + 8) as nat);
            }
            let byte = ((acc >> bits) & 0xff) as u8;
            proof {
                lemma_be_value_push(out@, byte, 256);
                assert(low_bits(acc, (bits + 8) as nat) == byte * pow2(bits as nat) + low_bits(
                    acc,
                    bits as nat,
                ));
                assert(held * (pow2(bits as nat) * 256) + byte * pow2(bits as nat) == (held
                    * 256 + byte) * pow2(bits as nat)) by (nonlinear_arith);
            }
            out.push(byte);
        }
        i += 1;
    }
    proof {
        assert(data@.take(i as int) =~= data@);
        lemma_pow2_small(bits as nat);
        let pad = pow2(bits as nat);
        let held = be_value(out@, 256);
        lemma_fundamental_div_mod_converse(
            be_value(data@, 32) as int,
            pad as int,
            held as int,
            low_bits(acc, bits as nat) as int,
        );
        lemma_be_bytes_of_value(out@);
    }
    if bits > 0 {
        proof {
            lemma_mask(acc, bits);
        }
        let mask = (1u32 << bits) - 1;
        if (acc & mask) != 0 {
            return Err(DecodeError::InvalidPadding);
        }
    }
    Ok(out)
}

} // verus!
