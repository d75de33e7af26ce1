//! The canonical text of a solid, and equality and order by it.
//!
//! Two solids are taken for equal when their texts are: solids that are
//! built differently and fill the same space are not.

use vstd::prelude::*;
use std::cmp::Ordering;
use crate::object::Object;
use crate::solid::Solid;
use crate::text::{lemma_precedes_total, precedes, text_lt};

verus! {

/// The text that `format!` gives for a solid under `{:?}`.
pub uninterp spec fn debug_text(s: Solid) -> Seq<char>;

/// Calls `format!` with `{:?}` on the object, whose `Debug` form is the
/// derived one. Assumed: the text is a function of the solid that the
/// object stands for.
#[verifier::external_body]
fn debug_string(o: &Object) -> (text: String)
    ensures
        text@ == debug_text(o@),
{
    format!("{:?}", o)
}

/// How the text `a` stands to `b` in lexicographic order.
pub fn compare_texts(a: &str, b: &str) -> (o: Option<Ordering>)
    ensures
        match o {
            Some(Ordering::Less) => precedes(a@, b@),
            Some(Ordering::Equal) => a@ == b@,
            Some(Ordering::Greater) => precedes(b@, a@),
            None => false,
        },
{
    proof {
        lemma_precedes_total(a@, b@);
    }
    if text_lt(a, b) {
        Some(Ordering::Less)
    } else if text_lt(b, a) {
        Some(Ordering::Greater)
    } else {
        Some(Ordering::Equal)
    }
}

impl Object {
    /// The canonical text of the solid.
    pub fn to_string(&self) -> (text: String)
        ensures
            text@ == debug_text(self@),
    {
        debug_string(self)
    }

    /// Whether the two solids have the same canonical text.
    pub fn eq(&self, other: &Object) -> (same: bool)
        ensures
            same == (debug_text(self@) == debug_text(other@)),
    {
        let s = self.to_string();
        let o = other.to_string();
        s == o
    }

    /// How the canonical text of this solid stands to that of `other`.
    pub fn partial_cmp(&self, other: &Object) -> (o: Option<Ordering>)
        ensures
            match o {
                Some(Ordering::Less) => precedes(debug_text(self@), debug_text(other@)),
                Some(Ordering::Equal) => debug_text(self@) == debug_text(other@),
                Some(Ordering::Greater) => precedes(debug_text(other@), debug_text(self@)),
                None => false,
            },
    {
        let s = self.to_string();
        let o = other.to_string();
        compare_texts(s.as_str(), o.as_str())
    }
}

} // verus!
