//! Fresh identifiers and unguessable tokens.  A 128-bit random value
//! comes from the process's entropy source; rendering it as hex is
//! verified here.

use vstd::prelude::*;

verus! {

/// Relies on uuid::Uuid::new_v4: a fresh random 128-bit identifier.
/// Nothing can be promised of a random value; callers state what holds
/// of every outcome.
#[verifier::external_body]
pub(crate) fn fresh_u128() -> u128 {
    uuid::Uuid::new_v4().as_u128()
}

/// Sixteen to the power `k`.
pub open spec fn pow16(k: nat) -> int
    decreases k,
{
    if k == 0 {
        1
    } else {
        16 * pow16((k - 1) as nat)
    }
}

pub proof fn lemma_pow16_pos(k: nat)
    ensures
        pow16(k) >= 1,
    decreases k,
{
    if k > 0 {
        lemma_pow16_pos((k - 1) as nat);
    }
}

/// Lower-case hex digit for a value below 16.
pub open spec fn hex_digit(v: int) -> u8 {
    if v < 10 {
        (0x30 + v) as u8
    } else {
        (0x61 + (v - 10)) as u8
    }
}

/// The 32 lower-case hex digits of a 128-bit value, most significant
/// first.
pub open spec fn hex32(v: u128) -> Seq<u8> {
    Seq::new(32, |i: int| hex_digit((v as int / pow16((31 - i) as nat)) % 16))
}

/// Render a 128-bit value as 32 lower-case hex digits.
pub fn u128_to_hex(v: u128) -> (r: Vec<u8>)
    ensures
        r@ == hex32(v),
{
    let mut rev: Vec<u8> = Vec::new();
    let mut cur: u128 = v;
    let mut i: usize = 0;
    while i < 32
        invariant
            i <= 32,
            rev@.len() == i,
            cur as int == v as int / pow16(i as nat),
            forall|k: int| 0 <= k < i ==> rev@[k] == hex32(v)[31 - k],
        decreases 32 - i,
    {
        let d: u8 = (cur % 16) as u8;
        let digit: u8 = if d < 10 {
            0x30 + d
        } else {
            0x61 + (d - 10)
        };
        proof {
            lemma_pow16_pos(i as nat);
            assert(digit == hex_digit((v as int / pow16(i as nat)) % 16));
            assert(hex32(v)[31 - i as int] == hex_digit(
                (v as int / pow16((31 - (31 - i as int)) as nat)) % 16,
            ));
            vstd::arithmetic::div_mod::lemma_div_denominator(v as int, pow16(i as nat), 16);
            assert(pow16(i as nat) * 16 == pow16((i + 1) as nat)) by {
                assert(pow16((i + 1) as nat) == 16 * pow16(i as nat));
            }
        }
        rev.push(digit);
        cur = cur / 16;
        i = i + 1;
    }
    let mut out: Vec<u8> = Vec::new();
    let mut j: usize = 0;
    while j < 32
        invariant
            j <= 32,
            rev@.len() == 32,
            out@.len() == j,
            forall|k: int| 0 <= k < 32 ==> rev@[k] == hex32(v)[31 - k],
            forall|k: int| 0 <= k < j ==> out@[k] == hex32(v)[k],
        decreases 32 - j,
    {
        out.push(rev[31 - j]);
        j = j + 1;
    }
    proof {
        assert(out@ =~= hex32(v));
    }
    out
}

/// A fresh unguessable token: 64 hex digits from two independent
/// draws.  A version-4 identifier fixes six of its 128 bits, so each
/// draw carries 122 random bits and the token carries 244, comfortably
/// past the 128 bits of entropy unguessability asks for.
pub fn fresh_token() -> (r: Vec<u8>)
    ensures
        r@.len() == 64,
        exists|a: u128, b: u128| r@ == hex32(a) + hex32(b),
{
    let a = fresh_u128();
    let b = fresh_u128();
    let mut r = u128_to_hex(a);
    let mut tail = u128_to_hex(b);
    r.append(&mut tail);
    proof {
        assert(r@ == hex32(a) + hex32(b));
    }
    r
}

} // verus!
