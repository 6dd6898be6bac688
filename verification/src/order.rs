//! Orderings: from a sign to an ordering, and the order of paths.

use crate::path::AbsolutePath;
use crate::text::{order_texts, text_order};
use std::cmp::Ordering;
use vstd::prelude::*;
use vstd::std_specs::cmp::PartialOrdSpecImpl;

verus! {

/// The ordering that a sign stands for: negative is `Less`, zero is
/// `Equal`, positive is `Greater`.
pub open spec fn ordering_of(sign: int) -> Ordering {
    if sign < 0 {
        Ordering::Less
    } else if sign == 0 {
        Ordering::Equal
    } else {
        Ordering::Greater
    }
}

/// The ordering that `sign` stands for.
pub fn to_ordering(sign: i8) -> (order: Ordering)
    ensures
        sign < 0 ==> order == Ordering::Less,
        sign == 0 ==> order == Ordering::Equal,
        sign > 0 ==> order == Ordering::Greater,
{
    if sign < 0 {
        Ordering::Less
    } else if sign == 0 {
        Ordering::Equal
    } else {
        Ordering::Greater
    }
}

/// Paths are ordered as their texts are in a dictionary. Any two paths can
/// be compared.
impl PartialOrd for AbsolutePath {
    fn partial_cmp(&self, other: &Self) -> (order: Option<Ordering>) {
        Some(to_ordering(order_texts(self.as_str(), other.as_str())))
    }
}

impl PartialOrdSpecImpl for AbsolutePath {
    open spec fn obeys_partial_cmp_spec() -> bool {
        true
    }

    open spec fn partial_cmp_spec(&self, other: &Self) -> Option<Ordering> {
        Some(ordering_of(text_order(self@, other@)))
    }
}

} // verus!
