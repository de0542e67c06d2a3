use crate::data::argument::{arguments_view, Argument, ArgumentView};
use crate::data::cell::{Cell, CellView};
use crate::data::cell_type::{field_index, find_field, schema_view, ColumnType, ColumnTypeView};
use crate::errors::{argument_error, ErrorKind, JobError, JobErrorView};
use crate::glob::chars_of;
use vstd::prelude::*;

verus! {

/// One side of a condition.
#[derive(Debug)]
pub enum Value {
    /// A value that is the same for every row.
    Cell(Cell),
    /// The cell of the row in the column at this position.
    Field(usize),
}

/// A `Value` as a mathematical value.
pub enum ValueView {
    Cell(CellView),
    Field(int),
}

impl View for Value {
    type V = ValueView;

    open spec fn view(&self) -> ValueView {
        match self {
            Value::Cell(c) => ValueView::Cell(c@),
            Value::Field(i) => ValueView::Field(*i as int),
        }
    }
}

/// A test that a row passes or fails.
#[derive(Debug)]
pub enum Condition {
    Equal(Value, Value),
    GreaterThan(Value, Value),
    GreaterThanOrEqual(Value, Value),
    LessThan(Value, Value),
    LessThanOrEqual(Value, Value),
    NotEqual(Value, Value),
    Match(Value, Value),
    NotMatch(Value, Value),
}

/// The eight operators of a condition.
#[derive(Clone, Copy, Debug, PartialEq, Eq, Structural)]
pub enum Operator {
    Equal,
    GreaterThan,
    GreaterThanOrEqual,
    LessThan,
    LessThanOrEqual,
    NotEqual,
    Match,
    NotMatch,
}

/// A `Condition` as its operator and its two sides.
pub struct ConditionView {
    pub operator: Operator,
    pub left: ValueView,
    pub right: ValueView,
}

impl View for Condition {
    type V = ConditionView;

    open spec fn view(&self) -> ConditionView {
        match self {
            Condition::Equal(l, r) => ConditionView { operator: Operator::Equal, left: l@, right: r@ },
            Condition::GreaterThan(l, r) => ConditionView {
                operator: Operator::GreaterThan,
                left: l@,
                right: r@,
            },
            Condition::GreaterThanOrEqual(l, r) => ConditionView {
                operator: Operator::GreaterThanOrEqual,
                left: l@,
                right: r@,
            },
            Condition::LessThan(l, r) => ConditionView {
                operator: Operator::LessThan,
                left: l@,
                right: r@,
            },
            Condition::LessThanOrEqual(l, r) => ConditionView {
                operator: Operator::LessThanOrEqual,
                left: l@,
                right: r@,
            },
            Condition::NotEqual(l, r) => ConditionView {
                operator: Operator::NotEqual,
                left: l@,
                right: r@,
            },
            Condition::Match(l, r) => ConditionView { operator: Operator::Match, left: l@, right: r@ },
            Condition::NotMatch(l, r) => ConditionView {
                operator: Operator::NotMatch,
                left: l@,
                right: r@,
            },
        }
    }
}

/// Whether a value can be read from a row of `width` cells.
pub open spec fn value_fits(value: ValueView, width: nat) -> bool {
    value matches ValueView::Field(i) ==> 0 <= i < width
}

/// Whether both sides of a condition can be read from a row of `width` cells.
pub open spec fn condition_fits(condition: ConditionView, width: nat) -> bool {
    value_fits(condition.left, width) && value_fits(condition.right, width)
}

/// The argument error with the given message.
pub open spec fn argument_failure(message: Seq<char>) -> JobErrorView {
    JobErrorView { kind: ErrorKind::Argument, message }
}

/// The side of a condition that an argument stands for: a name is the column of that
/// name, every other cell but an operator and a stream is itself.
pub open spec fn parsed_value(schema: Seq<ColumnTypeView>, cell: CellView) -> Result<
    ValueView,
    JobErrorView,
> {
    match cell {
        CellView::Field(name) => match field_index(schema, name) {
            Some(i) => Ok(ValueView::Field(i)),
            None => Err(argument_failure("Unknown field"@)),
        },
        CellView::Op(_) => Err(argument_failure("Expected value"@)),
        CellView::Output(_) => Err(argument_failure("Invalid argument type Stream"@)),
        _ => Ok(ValueView::Cell(cell)),
    }
}

/// The operator that a text writes.
pub open spec fn operator_of(op: Seq<char>) -> Option<Operator> {
    if op == seq!['=', '='] {
        Some(Operator::Equal)
    } else if op == seq!['!', '='] {
        Some(Operator::NotEqual)
    } else if op == seq!['>'] {
        Some(Operator::GreaterThan)
    } else if op == seq!['>', '='] {
        Some(Operator::GreaterThanOrEqual)
    } else if op == seq!['<'] {
        Some(Operator::LessThan)
    } else if op == seq!['<', '='] {
        Some(Operator::LessThanOrEqual)
    } else if op == seq!['=', '~'] {
        Some(Operator::Match)
    } else if op == seq!['!', '~'] {
        Some(Operator::NotMatch)
    } else {
        None
    }
}

/// The condition that a list of arguments writes: a value, an operator and a value,
/// and nothing more. The first thing that is wrong, read from the left, decides the
/// error; one argument too many is found last.
pub open spec fn parsed_condition(schema: Seq<ColumnTypeView>, arguments: Seq<ArgumentView>) -> Result<
    ConditionView,
    JobErrorView,
> {
    if arguments.len() < 1 {
        Err(argument_failure("Expected one value"@))
    } else {
        match parsed_value(schema, arguments[0].cell) {
            Err(e) => Err(e),
            Ok(left) => if arguments.len() < 2 {
                Err(argument_failure("Expected condition"@))
            } else {
                match arguments[1].cell {
                    CellView::Op(op) => if arguments.len() < 3 {
                        Err(argument_failure("Expected one value"@))
                    } else {
                        match parsed_value(schema, arguments[2].cell) {
                            Err(e) => Err(e),
                            Ok(right) => match operator_of(op) {
                                None => Err(argument_failure("Unknown operator"@)),
                                Some(operator) => if arguments.len() > 3 {
                                    Err(argument_failure("Too many arguments"@))
                                } else {
                                    Ok(ConditionView { operator, left, right })
                                },
                            },
                        }
                    },
                    _ => Err(argument_failure("Expected comparison"@)),
                }
            },
        }
    }
}

fn parse_value(input_type: &Vec<ColumnType>, argument: &Argument) -> (r: Result<Value, JobError>)
    ensures
        match r {
            Ok(value) => parsed_value(schema_view(input_type@), argument@.cell) == Ok::<
                ValueView,
                JobErrorView,
            >(value@) && value_fits(value@, input_type.len() as nat),
            Err(e) => parsed_value(schema_view(input_type@), argument@.cell) == Err::<
                ValueView,
                JobErrorView,
            >(e@),
        },
{
    match &argument.cell {
        Cell::Field(name) => match find_field(name, input_type) {
            Ok(i) => Ok(Value::Field(i)),
            Err(e) => Err(e),
        },
        Cell::Op(_) => Err(argument_error("Expected value")),
        Cell::Output(_) => Err(argument_error("Invalid argument type Stream")),
        cell => Ok(Value::Cell(cell.clone())),
    }
}

/// Reads an operator.
pub fn parse_operator(op: &String) -> (r: Option<Operator>)
    ensures
        r == operator_of(op@),
{
    let c = chars_of(op.as_str());
    let r = if c.len() == 1 {
        if c[0] == '>' {
            Some(Operator::GreaterThan)
        } else if c[0] == '<' {
            Some(Operator::LessThan)
        } else {
            None
        }
    } else if c.len() == 2 {
        if c[0] == '=' && c[1] == '=' {
            Some(Operator::Equal)
        } else if c[0] == '!' && c[1] == '=' {
            Some(Operator::NotEqual)
        } else if c[0] == '>' && c[1] == '=' {
            Some(Operator::GreaterThanOrEqual)
        } else if c[0] == '<' && c[1] == '=' {
            Some(Operator::LessThanOrEqual)
        } else if c[0] == '=' && c[1] == '~' {
            Some(Operator::Match)
        } else if c[0] == '!' && c[1] == '~' {
            Some(Operator::NotMatch)
        } else {
            None
        }
    } else {
        None
    };
    proof {
        let s = op@;
        assert(s == seq!['=', '='] <==> (s.len() == 2 && s[0] == '=' && s[1] == '=')) by {
            if s.len() == 2 && s[0] == '=' && s[1] == '=' {
                assert(s =~= seq!['=', '=']);
            }
        }
        assert(s == seq!['!', '='] <==> (s.len() == 2 && s[0] == '!' && s[1] == '=')) by {
            if s.len() == 2 && s[0] == '!' && s[1] == '=' {
                assert(s =~= seq!['!', '=']);
            }
        }
        assert(s == seq!['>', '='] <==> (s.len() == 2 && s[0] == '>' && s[1] == '=')) by {
            if s.len() == 2 && s[0] == '>' && s[1] == '=' {
                assert(s =~= seq!['>', '=']);
            }
        }
        assert(s == seq!['<', '='] <==> (s.len() == 2 && s[0] == '<' && s[1] == '=')) by {
            if s.len() == 2 && s[0] == '<' && s[1] == '=' {
                assert(s =~= seq!['<', '=']);
            }
        }
        assert(s == seq!['=', '~'] <==> (s.len() == 2 && s[0] == '=' && s[1] == '~')) by {
            if s.len() == 2 && s[0] == '=' && s[1] == '~' {
                assert(s =~= seq!['=', '~']);
            }
        }
        assert(s == seq!['!', '~'] <==> (s.len() == 2 && s[0] == '!' && s[1] == '~')) by {
            if s.len() == 2 && s[0] == '!' && s[1] == '~' {
                assert(s =~= seq!['!', '~']);
            }
        }
        assert(s == seq!['>'] <==> (s.len() == 1 && s[0] == '>')) by {
            if s.len() == 1 && s[0] == '>' {
                assert(s =~= seq!['>']);
            }
        }
        assert(s == seq!['<'] <==> (s.len() == 1 && s[0] == '<')) by {
            if s.len() == 1 && s[0] == '<' {
                assert(s =~= seq!['<']);
            }
        }
    }
    r
}

fn build(operator: Operator, left: Value, right: Value) -> (c: Condition)
    ensures
        c@ == (ConditionView { operator, left: left@, right: right@ }),
{
    match operator {
        Operator::Equal => Condition::Equal(left, right),
        Operator::GreaterThan => Condition::GreaterThan(left, right),
        Operator::GreaterThanOrEqual => Condition::GreaterThanOrEqual(left, right),
        Operator::LessThan => Condition::LessThan(left, right),
        Operator::LessThanOrEqual => Condition::LessThanOrEqual(left, right),
        Operator::NotEqual => Condition::NotEqual(left, right),
        Operator::Match => Condition::Match(left, right),
        Operator::NotMatch => Condition::NotMatch(left, right),
    }
}

/// Reads a condition from the arguments of a call, against the columns of its input.
/// A condition that is returned reads only columns that the input has.
pub fn parse(input_type: &Vec<ColumnType>, arguments: &Vec<Argument>) -> (r: Result<
    Condition,
    JobError,
>)
    ensures
        match r {
            Ok(condition) => parsed_condition(
                schema_view(input_type@),
                arguments_view(arguments@),
            ) == Ok::<ConditionView, JobErrorView>(condition@) && condition_fits(
                condition@,
                input_type.len() as nat,
            ),
            Err(e) => parsed_condition(schema_view(input_type@), arguments_view(arguments@))
                == Err::<ConditionView, JobErrorView>(e@),
        },
{
    if arguments.len() < 1 {
        return Err(argument_error("Expected one value"));
    }
    let left = match parse_value(input_type, &arguments[0]) {
        Ok(v) => v,
        Err(e) => {
            return Err(e);
        },
    };
    if arguments.len() < 2 {
        return Err(argument_error("Expected condition"));
    }
    match &arguments[1].cell {
        Cell::Op(op) => {
            if arguments.len() < 3 {
                return Err(argument_error("Expected one value"));
            }
            let right = match parse_value(input_type, &arguments[2]) {
                Ok(v) => v,
                Err(e) => {
                    return Err(e);
                },
            };
            match parse_operator(op) {
                None => Err(argument_error("Unknown operator")),
                Some(operator) => {
                    if arguments.len() > 3 {
                        Err(argument_error("Too many arguments"))
                    } else {
                        Ok(build(operator, left, right))
                    }
                },
            }
        },
        _ => Err(argument_error("Expected comparison")),
    }
}

} // verus!
