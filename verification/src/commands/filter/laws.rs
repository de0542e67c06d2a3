use crate::commands::filter::parser::{ConditionView, Operator, ValueView};
use crate::commands::filter::{evaluated, incomparable, operand, passing};
use crate::data::cell::{type_of, CellView};
use crate::errors::JobErrorView;
use vstd::prelude::*;

verus! {

/// A value is equal to itself: on every row, the condition that tests a value for
/// equality with itself holds.
pub proof fn equal_holds_of_itself(value: ValueView, row: Seq<CellView>)
    ensures
        evaluated(ConditionView { operator: Operator::Equal, left: value, right: value }, row)
            == Ok::<bool, JobErrorView>(true),
{
}

/// Whether an operator asks for the order of its two sides.
pub open spec fn is_ordering(operator: Operator) -> bool {
    operator == Operator::GreaterThan || operator == Operator::GreaterThanOrEqual || operator
        == Operator::LessThan || operator == Operator::LessThanOrEqual
}

/// Cells of different types have no order: on a row where the two sides of an ordering
/// operator are cells of different types, the condition fails with the error that says
/// so.
pub proof fn ordering_fails_across_types(
    operator: Operator,
    left: ValueView,
    right: ValueView,
    row: Seq<CellView>,
)
    requires
        is_ordering(operator),
        type_of(operand(left, row)) != type_of(operand(right, row)),
    ensures
        evaluated(ConditionView { operator, left, right }, row) == Err::<bool, JobErrorView>(
            incomparable(),
        ),
{
}

/// Where every row passes the condition, the rows that pass are all the rows, in their
/// order.
pub proof fn all_pass(condition: ConditionView, rows: Seq<Seq<CellView>>)
    requires
        forall|i: int|
            0 <= i < rows.len() ==> evaluated(condition, #[trigger] rows[i]) == Ok::<
                bool,
                JobErrorView,
            >(true),
    ensures
        passing(condition, rows) == rows,
    decreases rows.len(),
{
    if rows.len() > 0 {
        all_pass(condition, rows.drop_last());
        assert(rows.drop_last().push(rows.last()) =~= rows);
    } else {
        assert(rows =~= Seq::empty());
    }
}

/// Where no row passes the condition, no row is among those that pass.
pub proof fn none_pass(condition: ConditionView, rows: Seq<Seq<CellView>>)
    requires
        forall|i: int|
            0 <= i < rows.len() ==> evaluated(condition, #[trigger] rows[i]) != Ok::<
                bool,
                JobErrorView,
            >(true),
    ensures
        passing(condition, rows) == Seq::<Seq<CellView>>::empty(),
    decreases rows.len(),
{
    if rows.len() > 0 {
        none_pass(condition, rows.drop_last());
    }
}

} // verus!
