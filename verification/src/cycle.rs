//! A ring of indices `0..max`, used to step the focus or a workspace
//! forward and backward with wrap-around.
use vstd::prelude::*;

verus! {

/// The position that a cycle of length `max` gives for the signed `index`:
/// nothing on an empty cycle, else `index` taken modulo `max` (never negative).
pub open spec fn cycle_at(max: nat, index: int) -> Option<usize> {
    if max == 0 {
        None
    } else {
        Some((index % (max as int)) as usize)
    }
}

/// The absolute value of an integer.
pub open spec fn abs(i: int) -> int {
    if i < 0 { -i } else { i }
}

/// The inputs on which stepping into a cycle of length `max` stays within
/// `isize` arithmetic: the lookup takes `|index|`, multiplies the reduced
/// offset by it and, for a positive index, adds the offset to `max`.
pub open spec fn cycle_index_ok(max: int, index: int) -> bool {
    ||| max == 0
    ||| index == 0
    ||| {
        &&& index != isize::MIN
        &&& (abs(index) % max) * abs(index) <= isize::MAX
        &&& index > 0 ==> max + abs(index) % max <= isize::MAX
    }
}

pub struct Cycle {
    max: isize,
    slice: Vec<Option<usize>>,
}

impl View for Cycle {
    type V = nat;

    /// The length of the ring.
    closed spec fn view(&self) -> nat {
        self.max as nat
    }
}

proof fn lemma_neg_mod(i: int, m: int)
    requires
        i < 0,
        m > 0,
    ensures
        (m - (-i) % m) % m == i % m,
{
    let a = (-i) % m;
    let q = (-i) / m;
    assert(-i == q * m + a) by (nonlinear_arith)
        requires
            a == (-i) % m,
            q == (-i) / m,
            m > 0,
    ;
    assert(i == (-q - 1) * m + (m - a)) by (nonlinear_arith)
        requires
            -i == q * m + a,
    ;
    if a == 0 {
        assert(i == (-q) * m) by (nonlinear_arith)
            requires
                -i == q * m + a,
                a == 0,
        ;
        vstd::arithmetic::div_mod::lemma_mod_multiples_basic(-q, m);
        vstd::arithmetic::div_mod::lemma_mod_self_0(m);
    } else {
        vstd::arithmetic::div_mod::lemma_fundamental_div_mod_converse(i, m, -q - 1, m - a);
        vstd::arithmetic::div_mod::lemma_small_mod((m - a) as nat, m as nat);
    }
}

impl Cycle {
    #[verifier::type_invariant]
    spec fn inv(self) -> bool {
        &&& 0 <= self.max
        &&& self.slice@.len() == self.max + 1
        &&& forall|i: int| 0 <= i < self.max ==> self.slice@[i] == Some(i as usize)
        &&& self.slice@[self.max as int] == None::<usize>
    }

    /// A ring over `0..max`.
    pub fn new(max: usize) -> (c: Cycle)
        requires
            max <= isize::MAX,
        ensures
            c@ == max,
    {
        let mut v: Vec<Option<usize>> = Vec::new();
        for i in 0..max
            invariant
                v@.len() == i,
                forall|j: int| 0 <= j < i ==> v@[j] == Some(j as usize),
        {
            v.push(Some(i));
        }
        v.push(None);
        Cycle { max: max as isize, slice: v }
    }

    /// The position of `index` on the ring: `index` modulo the length,
    /// or `None` when the ring is empty.
    pub fn index(&self, index: isize) -> (r: Option<usize>)
        requires
            cycle_index_ok(self@ as int, index as int),
        ensures
            r == cycle_at(self@, index as int),
    {
        proof {
            use_type_invariant(self);
        }
        if self.max == 0 {
            return self.slice[0];
        }
        if index == 0 {
            return self.slice[0];
        }
        let m: isize = self.max;
        let ab: isize = if index < 0 { -index } else { index };
        let a: isize = ab % m;
        let p: isize = a * ab;
        let q: isize = p / index;
        proof {
            if index > 0 {
                assert((p as int) / (index as int) == a) by (nonlinear_arith)
                    requires
                        p == a * index,
                        index > 0,
                ;
            } else {
                assert((p as int) / (index as int) == -a) by (nonlinear_arith)
                    requires
                        p == a * (-index),
                        index < 0,
                ;
            }
            assert(index > 0 ==> q == a);
            assert(index < 0 ==> q == -a);
        }
        let b_ind: isize = m + q;
        let b_ind: isize = b_ind % m;
        proof {
            if index > 0 {
                vstd::arithmetic::div_mod::lemma_mod_add_multiples_vanish(a as int, m as int);
                vstd::arithmetic::div_mod::lemma_mod_twice(index as int, m as int);
            } else {
                lemma_neg_mod(index as int, m as int);
            }
        }
        self.slice[b_ind as usize]
    }
}


/// A ring position is always a position of the ring, and the ring repeats
/// with its length: `index` and `index + max` land on the same position.
pub proof fn law_cycle_in_range(max: nat, index: int)
    requires
        max > 0,
    ensures
        cycle_at(max, index) matches Some(p) && p < max,
        cycle_at(max, index + max) == cycle_at(max, index),
{
    vstd::arithmetic::div_mod::lemma_mod_bound(index, max as int);
    vstd::arithmetic::div_mod::lemma_mod_add_multiples_vanish(index, max as int);
}

/// One step forward from a position and one step back land where it
/// started, and so do a step back and a step forward.
pub proof fn law_cycle_step_back(max: nat, index: int)
    requires
        max > 0,
        max <= usize::MAX,
        0 <= index < max,
    ensures
        cycle_at(max, cycle_at(max, index + 1).unwrap() - 1) == Some(index as usize),
        cycle_at(max, cycle_at(max, index - 1).unwrap() + 1) == Some(index as usize),
{
    let m = max as int;
    vstd::arithmetic::div_mod::lemma_small_mod(index as nat, max);
    vstd::arithmetic::div_mod::lemma_mod_self_0(m);
    vstd::arithmetic::div_mod::lemma_fundamental_div_mod_converse(-1, m, -1, m - 1);
    assert((-1) % m == m - 1);
    if index + 1 < m {
        vstd::arithmetic::div_mod::lemma_small_mod((index + 1) as nat, max);
        assert(cycle_at(max, index + 1).unwrap() == index + 1);
    } else {
        assert(cycle_at(max, index + 1).unwrap() == 0);
    }
    if index >= 1 {
        vstd::arithmetic::div_mod::lemma_small_mod((index - 1) as nat, max);
        assert(cycle_at(max, index - 1).unwrap() == index - 1);
    } else {
        assert(cycle_at(max, index - 1).unwrap() == m - 1);
    }
}

} // verus!
