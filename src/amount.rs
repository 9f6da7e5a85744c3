//! Unsigned 256-bit token amounts, in the token's smallest unit.

use vstd::prelude::*;
use ethers::types::U256;
use crate::text::decimal_text;

verus! {

/// One limb's range: 2^64.
pub open spec fn limb_base() -> nat {
    0x1_0000_0000_0000_0000
}

/// The exclusive bound of an amount: 2^256.
pub open spec fn amount_bound() -> nat {
    limb_base() * limb_base() * limb_base() * limb_base()
}

/// An amount as four 64-bit limbs, least significant first.
#[derive(Debug, Clone, Copy, PartialEq, Eq)]
pub struct Amount {
    pub limbs: [u64; 4],
}

impl Amount {
    /// The number the limbs stand for.
    pub open spec fn value(&self) -> nat {
        self.limbs[0] as nat + limb_base() * (self.limbs[1] as nat + limb_base() * (self.limbs[2] as nat
            + limb_base() * self.limbs[3] as nat))
    }

    /// An amount below 2^64.
    pub fn from_u64(v: u64) -> (r: Amount)
        ensures
            r.value() == v as nat,
    {
        Amount { limbs: [v, 0, 0, 0] }
    }

    /// Whether this amount is at least `other`.
    pub fn at_least(&self, other: &Amount) -> (r: bool)
        ensures
            r == (self.value() >= other.value()),
    {
        let a = self.limbs;
        let b = other.limbs;
        let ghost a2 = a[2] as nat + limb_base() * a[3] as nat;
        let ghost b2 = b[2] as nat + limb_base() * b[3] as nat;
        let ghost a1 = a[1] as nat + limb_base() * a2;
        let ghost b1 = b[1] as nat + limb_base() * b2;
        proof {
            lemma_limb_order(a[2] as nat, a[3] as nat, b[2] as nat, b[3] as nat);
            lemma_limb_order(a[1] as nat, a2, b[1] as nat, b2);
            lemma_limb_order(a[0] as nat, a1, b[0] as nat, b1);
        }
        if a[3] != b[3] {
            a[3] > b[3]
        } else if a[2] != b[2] {
            a[2] > b[2]
        } else if a[1] != b[1] {
            a[1] > b[1]
        } else {
            a[0] >= b[0]
        }
    }
}

/// Numbers written with one more limb on top compare by the top limb first.
proof fn lemma_limb_order(lo_a: nat, hi_a: nat, lo_b: nat, hi_b: nat)
    requires
        lo_a < limb_base(),
        lo_b < limb_base(),
    ensures
        hi_a > hi_b ==> lo_a + limb_base() * hi_a > lo_b + limb_base() * hi_b,
        hi_a < hi_b ==> lo_a + limb_base() * hi_a < lo_b + limb_base() * hi_b,
        hi_a == hi_b ==> (lo_a + limb_base() * hi_a >= lo_b + limb_base() * hi_b <==> lo_a >= lo_b),
{
    let base = limb_base();
    if hi_a > hi_b {
        assert(base * hi_a >= base * hi_b + base) by (nonlinear_arith)
            requires
                hi_a >= hi_b + 1,
        ;
    }
    if hi_a < hi_b {
        assert(base * hi_b >= base * hi_a + base) by (nonlinear_arith)
            requires
                hi_b >= hi_a + 1,
        ;
    }
}

/// Whether every character is an ASCII decimal digit.
pub open spec fn all_digits(s: Seq<char>) -> bool {
    forall|i: int| 0 <= i < s.len() ==> '0' <= #[trigger] s[i] && s[i] <= '9'
}

/// The number that a string of decimal digits stands for; the empty string
/// stands for zero.
pub open spec fn decimal_value(s: Seq<char>) -> nat
    decreases s.len(),
{
    if s.len() == 0 {
        0
    } else {
        10 * decimal_value(s.drop_last()) + (s.last() as nat - '0' as nat) as nat
    }
}

/// The amount a decimal text stands for: digits only, below 2^256.
pub open spec fn parsed_amount(s: Seq<char>) -> Option<nat> {
    if all_digits(s) && decimal_value(s) < amount_bound() {
        Some(decimal_value(s))
    } else {
        None
    }
}

/// Relies on ethers' `U256::from_dec_str`: decimal digits only (the empty
/// text reads as zero), refused once the value reaches 2^256.
#[verifier::external_body]
pub(crate) fn parse_amount(text: &str) -> (r: Option<Amount>)
    ensures
        r matches Some(a) ==> parsed_amount(text@) == Some(a.value()),
        r is None ==> parsed_amount(text@) is None,
{
    U256::from_dec_str(text).ok().map(|v| Amount { limbs: v.0 })
}

/// Relies on `U256`'s `Display`: the value in decimal, without leading zeros.
#[verifier::external_body]
pub(crate) fn amount_to_string(a: &Amount) -> (r: String)
    ensures
        r@ == decimal_text(a.value()),
{
    U256(a.limbs).to_string()
}

} // verus!
