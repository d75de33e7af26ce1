//! Folding a list of solids into one composite.

use vstd::prelude::*;
use crate::scalar::Scalar;
use crate::mixer::{MixKind, Mixer, SubtractionMixer, UnionMixer};
use crate::object::{Bool, Object};
use crate::solid::Solid;

verus! {

/// The solids that a list of objects stands for, in order.
pub open spec fn solids(v: Seq<Object>) -> Seq<Solid> {
    v.map_values(|o: Object| o@)
}

/// The balanced composite of a non-empty list: a single solid is left
/// as it is, a longer list is split at its midpoint and the two halves
/// are joined by one blend of `kind` and radius `r`.
pub open spec fn balanced(kind: MixKind, r: Scalar, s: Seq<Solid>) -> Solid
    recommends
        s.len() > 0,
    decreases s.len(),
{
    if s.len() <= 1 {
        s[0]
    } else {
        let half = s.len() / 2;
        Solid::Blend {
            kind,
            r,
            a: Box::new(balanced(kind, r, s.subrange(0, half as int))),
            b: Box::new(balanced(kind, r, s.subrange(half as int, s.len() as int))),
        }
    }
}

/// The first solid minus the smooth union of all the others.
pub open spec fn subtracted(r: Scalar, s: Seq<Solid>) -> Solid
    recommends
        s.len() > 0,
{
    if s.len() <= 1 {
        s[0]
    } else {
        Solid::Blend {
            kind: MixKind::Subtraction,
            r,
            a: Box::new(s[0]),
            b: Box::new(balanced(MixKind::Union, r, s.subrange(1, s.len() as int))),
        }
    }
}

/// Number of halvings that bring a list of `n` solids down to single
/// ones: the least `k` with `n <= 2^k`.
pub open spec fn levels(n: nat) -> nat
    decreases n,
{
    if n <= 1 {
        0
    } else {
        1 + levels((n - n / 2) as nat)
    }
}

/// Two to the power `k`.
pub open spec fn two_to(k: nat) -> nat
    decreases k,
{
    if k == 0 {
        1
    } else {
        2 * two_to((k - 1) as nat)
    }
}

/// A longer list needs no fewer halvings.
pub proof fn lemma_levels_monotone(m: nat, n: nat)
    requires
        m <= n,
    ensures
        levels(m) <= levels(n),
    decreases n,
{
    if m > 1 {
        lemma_levels_monotone((m - m / 2) as nat, (n - n / 2) as nat);
    }
}

/// `levels(n)` is the least exponent whose power of two reaches `n`.
pub proof fn lemma_levels_is_log(n: nat)
    requires
        n >= 1,
    ensures
        n <= two_to(levels(n)),
        n > 1 ==> two_to((levels(n) - 1) as nat) < n,
    decreases n,
{
    if n > 1 {
        let h = (n - n / 2) as nat;
        lemma_levels_is_log(h);
        if h > 1 {
            assert(levels(h) >= 1);
        }
    }
}

/// The balanced composite adds at most `levels(len)` blends above the
/// deepest solid of the list.
pub proof fn lemma_balanced_depth(kind: MixKind, r: Scalar, s: Seq<Solid>, d: nat)
    requires
        s.len() > 0,
        forall|i: int| 0 <= i < s.len() ==> (#[trigger] s[i]).depth() <= d,
    ensures
        balanced(kind, r, s).depth() <= d + levels(s.len()),
    decreases s.len(),
{
    if s.len() > 1 {
        let half = s.len() / 2;
        let front = s.subrange(0, half as int);
        let back = s.subrange(half as int, s.len() as int);
        lemma_balanced_depth(kind, r, front, d);
        lemma_balanced_depth(kind, r, back, d);
        lemma_levels_monotone(front.len(), back.len());
    }
}

/// The balanced composite puts exactly `levels(len)` blends above a
/// list of leaves.
pub proof fn lemma_balanced_leaves_depth(kind: MixKind, r: Scalar, s: Seq<Solid>)
    requires
        s.len() > 0,
        forall|i: int| 0 <= i < s.len() ==> (#[trigger] s[i]) is Leaf,
    ensures
        balanced(kind, r, s).depth() == levels(s.len()),
    decreases s.len(),
{
    if s.len() > 1 {
        let half = s.len() / 2;
        let front = s.subrange(0, half as int);
        let back = s.subrange(half as int, s.len() as int);
        lemma_balanced_leaves_depth(kind, r, front);
        lemma_balanced_leaves_depth(kind, r, back);
        lemma_levels_monotone(front.len(), back.len());
    }
}

/// Of three solids, the subtraction fold takes the union of the last
/// two from the first.
pub proof fn lemma_subtracted_of_three(r: Scalar, a: Solid, b: Solid, c: Solid)
    ensures
        subtracted(r, seq![a, b, c]) == (Solid::Blend {
            kind: MixKind::Subtraction,
            r,
            a: Box::new(a),
            b: Box::new(
                Solid::Blend { kind: MixKind::Union, r, a: Box::new(b), b: Box::new(c) },
            ),
        }),
{
    let s = seq![a, b, c];
    let rest = s.subrange(1, 3);
    assert(rest =~= seq![b, c]);
    assert(rest.subrange(0, 1) =~= seq![b]);
    assert(rest.subrange(1, 2) =~= seq![c]);
    reveal_with_fuel(balanced, 2);
}

/// The subtraction fold of two or more solids is the first one minus
/// the balanced union of the rest.
pub proof fn lemma_subtracted_is_minus_union(r: Scalar, s: Seq<Solid>)
    requires
        s.len() >= 2,
    ensures
        subtracted(r, s) == (Solid::Blend {
            kind: MixKind::Subtraction,
            r,
            a: Box::new(s[0]),
            b: Box::new(balanced(MixKind::Union, r, s.skip(1))),
        }),
{
    assert(s.skip(1) =~= s.subrange(1, s.len() as int));
}

impl<T: Mixer> Bool<T> {
    /// Folds `v` into one balanced composite under this mixer with
    /// blend radius `r`; an empty list gives nothing.
    pub fn from_vec(v: Vec<Object>, r: Scalar) -> (o: Option<Object>)
        ensures
            match o {
                None => v@.len() == 0,
                Some(x) => v@.len() > 0 && x@ == balanced(T::kind(), r, solids(v@)),
            },
        decreases v@.len(),
    {
        let mut v = v;
        let ghost all = v@;
        let n: usize = v.len();
        if n == 0 {
            None
        } else if n == 1 {
            v.pop()
        } else {
            let l2: usize = n / 2;
            let v2 = v.split_off(l2);
            proof {
                assert(solids(v@) =~= solids(all).subrange(0, l2 as int));
                assert(solids(v2@) =~= solids(all).subrange(l2 as int, n as int));
            }
            let a = Bool::<T>::from_vec(v, r).unwrap();
            let b = Bool::<T>::from_vec(v2, r).unwrap();
            let node = Bool::<T>::new(a, b, r);
            proof {
                node.lemma_view();
            }
            Some(node.into_object())
        }
    }
}

impl Bool<SubtractionMixer> {
    /// Subtracts from the first solid of `v` the smooth union of all the
    /// others, with blend radius `r`; an empty list gives nothing.
    pub fn subtraction_from_vec(v: Vec<Object>, r: Scalar) -> (o: Option<Object>)
        ensures
            match o {
                None => v@.len() == 0,
                Some(x) => v@.len() > 0 && x@ == subtracted(r, solids(v@)),
            },
    {
        let mut v = v;
        let ghost all = v@;
        let n: usize = v.len();
        if n == 0 {
            None
        } else if n == 1 {
            v.pop()
        } else {
            let v_rest = v.split_off(1);
            proof {
                assert(solids(v_rest@) =~= solids(all).subrange(1, n as int));
            }
            let head = v.pop().unwrap();
            let rest = Bool::<UnionMixer>::from_vec(v_rest, r).unwrap();
            let node = Bool::<SubtractionMixer>::new(head, rest, r);
            proof {
                node.lemma_view();
            }
            Some(node.into_object())
        }
    }
}

} // verus!
