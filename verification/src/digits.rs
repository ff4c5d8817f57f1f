//! Natural numbers of any size, held as lists of base-65536 digits with the
//! least significant digit first. They give every number of the tree its
//! exact value, however long its literal.
use vstd::prelude::*;

use crate::ast::List;

verus! {

/// The value of a digit list.
pub open spec fn nat_of(l: List<u16>) -> nat
    decreases l,
{
    match l {
        List::Nil => 0,
        List::Cons(d, rest) => d as nat + 65536 * nat_of(*rest),
    }
}

/// The digits of `nat_of(l) * m + c`, carried digit by digit.
pub open spec fn spec_mul_add(l: List<u16>, m: nat, c: nat) -> List<u16>
    decreases l, c,
{
    match l {
        List::Nil => if c == 0 {
            List::Nil
        } else {
            List::Cons((c % 65536) as u16, Box::new(spec_mul_add(List::Nil, m, c / 65536)))
        },
        List::Cons(d, rest) => {
            let t = d as nat * m + c;
            List::Cons((t % 65536) as u16, Box::new(spec_mul_add(*rest, m, t / 65536)))
        },
    }
}

pub proof fn lemma_mul_add_value(l: List<u16>, m: nat, c: nat)
    ensures
        nat_of(spec_mul_add(l, m, c)) == nat_of(l) * m + c,
    decreases l, c,
{
    match l {
        List::Nil => {
            assert(nat_of(List::<u16>::Nil) == 0);
            assert(0 * m == 0) by (nonlinear_arith);
            if c != 0 {
                lemma_mul_add_value(List::Nil, m, c / 65536);
                assert(c % 65536 + 65536 * (c / 65536) == c);
            }
        },
        List::Cons(d, rest) => {
            let t = d as nat * m + c;
            lemma_mul_add_value(*rest, m, t / 65536);
            let v = nat_of(*rest);
            assert(nat_of(l) * m + c == t + 65536 * (v * m)) by (nonlinear_arith)
                requires
                    nat_of(l) == d as nat + 65536 * v,
                    t == d as nat * m + c,
            ;
        },
    }
}

/// `l * m + c`.
pub fn mul_add(l: &List<u16>, m: u32, c: u32) -> (r: List<u16>)
    requires
        m < 65536,
    ensures
        r == spec_mul_add(*l, m as nat, c as nat),
        nat_of(r) == nat_of(*l) * m + c,
    decreases l, c,
{
    proof {
        lemma_mul_add_value(*l, m as nat, c as nat);
    }
    match l {
        List::Nil => if c == 0 {
            List::Nil
        } else {
            let rest = mul_add(l, m, c / 65536);
            List::Cons((c % 65536) as u16, Box::new(rest))
        },
        List::Cons(d, rest) => {
            assert((*d as nat) * (m as nat) <= 65535 * 65535) by (nonlinear_arith)
                requires
                    *d <= 65535,
                    m <= 65535,
            ;
            let t: u64 = (*d as u64) * (m as u64) + (c as u64);
            let high = mul_add(rest, m, (t / 65536) as u32);
            List::Cons((t % 65536) as u16, Box::new(high))
        },
    }
}

/// `l * m`, for any `m` of 32 bits: `l * (m mod 65536)` plus `l * (m / 65536)`
/// moved up one digit.
pub fn times(l: &List<u16>, m: u32) -> (r: List<u16>)
    ensures
        nat_of(r) == nat_of(*l) * m,
{
    let low = mul_add(l, m % 65536, 0);
    let high = mul_add(l, m / 65536, 0);
    let shifted = List::Cons(0, Box::new(high));
    let r = sum(&low, &shifted, 0);
    assert(nat_of(*l) * m == nat_of(*l) * (m % 65536) + 65536 * (nat_of(*l) * (m / 65536)))
        by (nonlinear_arith)
        requires
            m == m % 65536 + 65536 * (m / 65536),
    ;
    r
}

/// `a + b + carry`.
pub fn sum(a: &List<u16>, b: &List<u16>, carry: u32) -> (r: List<u16>)
    requires
        carry <= 1,
    ensures
        nat_of(r) == nat_of(*a) + nat_of(*b) + carry,
    decreases a, b,
{
    match a {
        List::Nil => match b {
            List::Nil => if carry == 0 {
                List::Nil
            } else {
                List::Cons(1, Box::new(List::Nil))
            },
            List::Cons(y, rb) => {
                let t: u32 = *y as u32 + carry;
                let high = sum(a, rb, t / 65536);
                List::Cons((t % 65536) as u16, Box::new(high))
            },
        },
        List::Cons(x, ra) => match b {
            List::Nil => {
                let t: u32 = *x as u32 + carry;
                let high = sum(ra, b, t / 65536);
                List::Cons((t % 65536) as u16, Box::new(high))
            },
            List::Cons(y, rb) => {
                let t: u32 = *x as u32 + *y as u32 + carry;
                let high = sum(ra, rb, t / 65536);
                List::Cons((t % 65536) as u16, Box::new(high))
            },
        },
    }
}

/// Whether two digit lists have the same value; a list may end in zero
/// digits.
pub fn same_value(a: &List<u16>, b: &List<u16>) -> (r: bool)
    ensures
        r == (nat_of(*a) == nat_of(*b)),
    decreases a, b,
{
    match a {
        List::Nil => match b {
            List::Nil => true,
            List::Cons(y, rb) => *y == 0 && same_value(a, rb),
        },
        List::Cons(x, ra) => match b {
            List::Nil => *x == 0 && same_value(ra, b),
            List::Cons(y, rb) => *x == *y && same_value(ra, rb),
        },
    }
}

/// The digits of a 32-bit number.
pub fn from_u32(k: u32) -> (r: List<u16>)
    ensures
        nat_of(r) == k,
{
    mul_add(&List::Nil, 1, k)
}

} // verus!
