use crate::data::cell::{Cell, CellView};
use crate::data::sign::{compare_integers, integer_sign, Sign};
use crate::data::text::{compare_text, text_sign};
use std::cmp::Ordering;
use vstd::prelude::*;

verus! {

/// The order that a sign stands for.
pub open spec fn sign_order(sign: Sign) -> Ordering {
    match sign {
        Sign::Before => Ordering::Less,
        Sign::Same => Ordering::Equal,
        Sign::After => Ordering::Greater,
    }
}

/// The order of two cells. Only two integers, two texts and two durations have one;
/// two cells of different variants, or of any other variant, have none.
pub open spec fn order_of(a: CellView, b: CellView) -> Option<Ordering> {
    match (a, b) {
        (CellView::Integer(x), CellView::Integer(y)) => Some(sign_order(integer_sign(x, y))),
        (CellView::Text(x), CellView::Text(y)) => Some(sign_order(text_sign(x, y))),
        (CellView::Duration(x), CellView::Duration(y)) => Some(sign_order(integer_sign(x, y))),
        _ => None,
    }
}

fn order_for(sign: Sign) -> (o: Ordering)
    ensures
        o == sign_order(sign),
{
    match sign {
        Sign::Before => Ordering::Less,
        Sign::Same => Ordering::Equal,
        Sign::After => Ordering::Greater,
    }
}

impl Cell {
    /// Compares two cells, where their variant has an order.
    pub fn partial_cmp(&self, other: &Cell) -> (o: Option<Ordering>)
        ensures
            o == order_of(self@, other@),
    {
        match (self, other) {
            (Cell::Integer(x), Cell::Integer(y)) => Some(order_for(compare_integers(*x, *y))),
            (Cell::Text(x), Cell::Text(y)) => Some(order_for(compare_text(x.as_str(), y.as_str()))),
            (Cell::Duration(x), Cell::Duration(y)) => Some(
                order_for(compare_integers(x.nanos, y.nanos)),
            ),
            _ => None,
        }
    }
}

} // verus!
