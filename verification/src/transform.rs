//! Symbolic affine transforms: the elementary motions a solid has
//! undergone, in the order in which they were applied.

use vstd::prelude::*;
use crate::scalar::Scalar;
use crate::geometry::{Point, Vector};
use crate::arithmetic::{is_pull_back, is_push_forward, Arithmetic};

verus! {

/// One elementary motion.
#[derive(Clone, Copy, Debug, PartialEq, Eq, Structural)]
pub enum Step {
    /// Displacement by a vector.
    Translate(Vector),
    /// Rotation by three axis angles.
    Rotate(Vector),
    /// Uniform scaling by a factor.
    Scale(Scalar),
}

/// Whether `out` is a point that undoing `steps`, latest first, may
/// give for `p`: the point of the untransformed frame that the steps
/// carry to `p`.
pub open spec fn pulled_back<K: Arithmetic>(k: &K, steps: Seq<Step>, p: Point, out: Point) -> bool
    decreases steps.len(),
{
    if steps.len() == 0 {
        out == p
    } else {
        exists|mid: Point| #[trigger]
            is_pull_back(k, steps.last(), p, mid) && pulled_back(k, steps.drop_last(), mid, out)
    }
}

/// Whether `out` is a direction that carrying the normal `n` through
/// `steps`, earliest first, may give.
pub open spec fn pushed_forward<K: Arithmetic>(k: &K, steps: Seq<Step>, n: Vector, out: Vector) -> bool
    decreases steps.len(),
{
    if steps.len() == 0 {
        out == n
    } else {
        exists|mid: Vector| #[trigger]
            is_push_forward(k, steps.first(), n, mid) && pushed_forward(k, steps.drop_first(), mid, out)
    }
}

/// A composed transform: its steps, earliest first.
#[derive(Debug)]
pub struct Transform {
    steps: Vec<Step>,
}

impl View for Transform {
    type V = Seq<Step>;

    closed spec fn view(&self) -> Seq<Step> {
        self.steps@
    }
}

impl Clone for Transform {
    fn clone(&self) -> (t: Transform)
        ensures
            t@ == self@,
    {
        let mut steps: Vec<Step> = Vec::new();
        let mut i: usize = 0;
        while i < self.steps.len()
            invariant
                i <= self.steps.len(),
                steps@ == self.steps@.subrange(0, i as int),
            decreases self.steps.len() - i,
        {
            steps.push(self.steps[i]);
            i += 1;
            assert(steps@ =~= self.steps@.subrange(0, i as int));
        }
        assert(steps@ =~= self.steps@);
        Transform { steps }
    }
}

impl Transform {
    /// The transform that moves nothing.
    pub fn identity() -> (t: Transform)
        ensures
            t@ == Seq::<Step>::empty(),
    {
        Transform { steps: Vec::new() }
    }

    /// The single step `step`.
    pub fn single(step: Step) -> (t: Transform)
        ensures
            t@ == seq![step],
    {
        let mut steps: Vec<Step> = Vec::new();
        steps.push(step);
        assert(steps@ =~= seq![step]);
        Transform { steps }
    }

    pub fn translate(v: &Vector) -> (t: Transform)
        ensures
            t@ == seq![Step::Translate(*v)],
    {
        Transform::single(Step::Translate(*v))
    }

    pub fn rotate(v: &Vector) -> (t: Transform)
        ensures
            t@ == seq![Step::Rotate(*v)],
    {
        Transform::single(Step::Rotate(*v))
    }

    pub fn scale(s: Scalar) -> (t: Transform)
        ensures
            t@ == seq![Step::Scale(s)],
    {
        Transform::single(Step::Scale(s))
    }

    /// This transform followed by `other`.
    pub fn concat(&self, other: &Transform) -> (t: Transform)
        ensures
            t@ == self@ + other@,
    {
        let mut t = self.clone();
        let mut i: usize = 0;
        while i < other.steps.len()
            invariant
                i <= other.steps.len(),
                t.steps@ == self.steps@ + other.steps@.subrange(0, i as int),
            decreases other.steps.len() - i,
        {
            t.steps.push(other.steps[i]);
            i += 1;
            assert(t.steps@ =~= self.steps@ + other.steps@.subrange(0, i as int));
        }
        assert(other.steps@.subrange(0, i as int) =~= other.steps@);
        t
    }

    /// Maps the point `p` of the transformed frame into the
    /// untransformed one.
    pub fn t_point<K: Arithmetic>(&self, p: Point, k: &K) -> (out: Point)
        ensures
            pulled_back(k, self@, p, out),
    {
        let mut cur = p;
        let mut i: usize = self.steps.len();
        assert(self.steps@.subrange(0, i as int) =~= self.steps@);
        while i > 0
            invariant
                i <= self.steps.len(),
                forall|o: Point|
                    pulled_back(k, self.steps@.subrange(0, i as int), cur, o) ==> pulled_back(
                        k,
                        self.steps@,
                        p,
                        o,
                    ),
            decreases i,
        {
            let next = k.pull_back(self.steps[i - 1], cur);
            proof {
                let prefix = self.steps@.subrange(0, i as int);
                assert(prefix.drop_last() =~= self.steps@.subrange(0, i - 1));
                assert forall|o: Point|
                    pulled_back(k, self.steps@.subrange(0, i - 1), next, o) implies pulled_back(
                    k,
                    self.steps@,
                    p,
                    o,
                ) by {
                    assert(is_pull_back(k, prefix.last(), cur, next));
                    assert(pulled_back(k, prefix, cur, o));
                }
            }
            cur = next;
            i -= 1;
        }
        cur
    }

    /// Maps the normal `n` of the untransformed frame into the
    /// transformed one; the result is not of unit length.
    pub fn i_vector<K: Arithmetic>(&self, n: Vector, k: &K) -> (out: Vector)
        ensures
            pushed_forward(k, self@, n, out),
    {
        let mut cur = n;
        let mut i: usize = 0;
        let len: usize = self.steps.len();
        assert(self.steps@.subrange(0, len as int) =~= self.steps@);
        while i < len
            invariant
                i <= len,
                len == self.steps.len(),
                forall|o: Vector|
                    pushed_forward(k, self.steps@.subrange(i as int, len as int), cur, o)
                        ==> pushed_forward(k, self.steps@, n, o),
            decreases len - i,
        {
            let next = k.push_forward(self.steps[i], cur);
            proof {
                let suffix = self.steps@.subrange(i as int, len as int);
                assert(suffix.drop_first() =~= self.steps@.subrange(i + 1, len as int));
                assert forall|o: Vector|
                    pushed_forward(
                        k,
                        self.steps@.subrange(i + 1, len as int),
                        next,
                        o,
                    ) implies pushed_forward(k, self.steps@, n, o) by {
                    assert(is_push_forward(k, suffix.first(), cur, next));
                    assert(pushed_forward(k, suffix, cur, o));
                }
            }
            cur = next;
            i += 1;
        }
        cur
    }

    /// Number of steps.
    pub fn len(&self) -> (n: usize)
        ensures
            n == self@.len(),
    {
        self.steps.len()
    }

    /// The `i`-th step, earliest first.
    pub fn step(&self, i: usize) -> (s: Step)
        requires
            i < self@.len(),
        ensures
            s == self@[i as int],
    {
        self.steps[i]
    }
}

/// Undoing a single step is one call of the arithmetic.
pub proof fn lemma_pulled_back_single<K: Arithmetic>(k: &K, step: Step, p: Point, out: Point)
    ensures
        pulled_back(k, seq![step], p, out) <==> is_pull_back(k, step, p, out),
{
    let steps = seq![step];
    assert(steps.last() == step);
    assert(steps.drop_last() =~= Seq::<Step>::empty());
    if is_pull_back(k, step, p, out) {
        assert(is_pull_back(k, steps.last(), p, out) && pulled_back(k, steps.drop_last(), out, out));
    }
    if pulled_back(k, steps, p, out) {
        let mid = choose|mid: Point| #[trigger]
            is_pull_back(k, steps.last(), p, mid) && pulled_back(k, steps.drop_last(), mid, out);
        assert(mid == out);
    }
}

/// Undoing `later` and then `earlier` undoes `earlier` followed by
/// `later`.
pub proof fn lemma_pulled_back_joins<K: Arithmetic>(
    k: &K,
    earlier: Seq<Step>,
    later: Seq<Step>,
    p: Point,
    mid: Point,
    out: Point,
)
    requires
        pulled_back(k, later, p, mid),
        pulled_back(k, earlier, mid, out),
    ensures
        pulled_back(k, earlier + later, p, out),
    decreases later.len(),
{
    if later.len() == 0 {
        assert(earlier + later =~= earlier);
    } else {
        let all = earlier + later;
        let next = choose|next: Point| #[trigger]
            is_pull_back(k, later.last(), p, next) && pulled_back(k, later.drop_last(), next, mid);
        lemma_pulled_back_joins(k, earlier, later.drop_last(), next, mid, out);
        assert(all.last() == later.last());
        assert(all.drop_last() =~= earlier + later.drop_last());
        assert(is_pull_back(k, all.last(), p, next) && pulled_back(k, all.drop_last(), next, out));
    }
}

/// Undoing `earlier` followed by `later` passes through a point at
/// which `later` has been undone.
pub proof fn lemma_pulled_back_splits<K: Arithmetic>(
    k: &K,
    earlier: Seq<Step>,
    later: Seq<Step>,
    p: Point,
    out: Point,
) -> (mid: Point)
    requires
        pulled_back(k, earlier + later, p, out),
    ensures
        pulled_back(k, later, p, mid),
        pulled_back(k, earlier, mid, out),
    decreases later.len(),
{
    if later.len() == 0 {
        assert(earlier + later =~= earlier);
        p
    } else {
        let all = earlier + later;
        assert(all.last() == later.last());
        assert(all.drop_last() =~= earlier + later.drop_last());
        let next = choose|next: Point| #[trigger]
            is_pull_back(k, all.last(), p, next) && pulled_back(k, all.drop_last(), next, out);
        let mid = lemma_pulled_back_splits(k, earlier, later.drop_last(), next, out);
        assert(is_pull_back(k, later.last(), p, next) && pulled_back(k, later.drop_last(), next, mid));
        mid
    }
}

/// Composition is associative.
pub proof fn lemma_concat_associative(a: Seq<Step>, b: Seq<Step>, c: Seq<Step>)
    ensures
        (a + b) + c == a + (b + c),
{
    assert((a + b) + c =~= a + (b + c));
}

/// The identity is neutral on both sides of a composition.
pub proof fn lemma_identity_neutral(a: Seq<Step>)
    ensures
        Seq::<Step>::empty() + a == a,
        a + Seq::<Step>::empty() == a,
{
    assert(Seq::<Step>::empty() + a =~= a);
    assert(a + Seq::<Step>::empty() =~= a);
}

} // verus!
