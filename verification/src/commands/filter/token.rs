use crate::commands::filter::parser::{
    operator_of, parse, parse_operator, parsed_condition, Condition, ConditionView,
};
use crate::data::argument::{arguments_view, Argument, ArgumentView, BaseArgument};
use crate::data::cell::{Cell, CellView};
use crate::data::cell_type::{schema_view, ColumnType};
use crate::data::integer::{integer_of, parse_integer};
use crate::data::regex::{regex_valid, Regex};
use crate::errors::{ErrorKind, JobError, JobErrorView};
use crate::glob::{chars_of, Glob};
use vstd::prelude::*;
use vstd::string::StrSliceExecFns;

verus! {

/// Whether a text holds one of the wildcards `*` and `?`.
pub open spec fn has_wildcard(text: Seq<char>) -> bool {
    exists|i: int| 0 <= i < text.len() && (#[trigger] text[i] == '*' || text[i] == '?')
}

/// Whether a text stands between double quotes.
pub open spec fn is_quoted(text: Seq<char>) -> bool {
    text.len() >= 2 && text[0] == '"' && text.last() == '"'
}

/// Whether a text is written as a regular expression: between `r{` and `}`.
pub open spec fn is_bracketed(text: Seq<char>) -> bool {
    text.len() >= 3 && text[0] == 'r' && text[1] == '{' && text.last() == '}'
}

/// The cell that a token writes. Its form decides: an operator; a text between
/// double quotes; a regular expression between `r{` and `}`, which has to compile; a
/// glob, where it holds a wildcard; an integer; and the name of a column otherwise.
pub open spec fn token_cell(text: Seq<char>) -> Result<CellView, JobErrorView> {
    if operator_of(text) is Some {
        Ok(CellView::Op(text))
    } else if is_quoted(text) {
        Ok(CellView::Text(text.subrange(1, text.len() - 1)))
    } else if is_bracketed(text) {
        let pattern = text.subrange(2, text.len() - 1);
        if regex_valid(pattern) {
            Ok(CellView::Regex(pattern))
        } else {
            Err(JobErrorView { kind: ErrorKind::Type, message: "Invalid regular expression"@ })
        }
    } else if has_wildcard(text) {
        Ok(CellView::Glob(text))
    } else {
        match integer_of(text) {
            Some(i) => Ok(CellView::Integer(i)),
            None => Ok(CellView::Field(text)),
        }
    }
}

fn wildcard(chars: &Vec<char>) -> (b: bool)
    ensures
        b == has_wildcard(chars@),
{
    let mut i: usize = 0;
    while i < chars.len()
        invariant
            i <= chars.len(),
            forall|k: int| 0 <= k < i ==> !(#[trigger] chars@[k] == '*' || chars@[k] == '?'),
        decreases chars.len() - i,
    {
        if chars[i] == '*' || chars[i] == '?' {
            return true;
        }
        i += 1;
    }
    false
}

/// Reads a token as a cell.
pub fn token(text: &str) -> (r: Result<Cell, JobError>)
    ensures
        match r {
            Ok(cell) => token_cell(text@) == Ok::<CellView, JobErrorView>(cell@),
            Err(e) => token_cell(text@) == Err::<CellView, JobErrorView>(e@),
        },
{
    let owned = text.to_owned();
    if parse_operator(&owned).is_some() {
        return Ok(Cell::Op(owned));
    }
    let chars = chars_of(text);
    let n = chars.len();
    if n >= 2 && chars[0] == '"' && chars[n - 1] == '"' {
        return Ok(Cell::text(text.substring_char(1, n - 1)));
    }
    if n >= 3 && chars[0] == 'r' && chars[1] == '{' && chars[n - 1] == '}' {
        return match Regex::new(text.substring_char(2, n - 1)) {
            Ok(re) => Ok(Cell::Regex(re)),
            Err(e) => Err(e),
        };
    }
    if wildcard(&chars) {
        return Ok(Cell::Glob(Glob::new(text)));
    }
    match parse_integer(text) {
        Some(i) => Ok(Cell::Integer(i)),
        None => Ok(Cell::Field(owned)),
    }
}

/// The arguments that the first `n` tokens write, none of them with a name. The first
/// token that writes no cell decides the error.
pub open spec fn token_arguments(tokens: Seq<String>, n: nat) -> Result<
    Seq<ArgumentView>,
    JobErrorView,
>
    decreases n,
{
    if n == 0 || n > tokens.len() {
        Ok(Seq::empty())
    } else {
        match token_arguments(tokens, (n - 1) as nat) {
            Err(e) => Err(e),
            Ok(arguments) => match token_cell(tokens[n - 1]@) {
                Err(e) => Err(e),
                Ok(cell) => Ok(arguments.push(ArgumentView { name: None, cell })),
            },
        }
    }
}

/// The condition that a list of tokens writes against the columns `schema`: the
/// tokens are read as cells, and the cells as a condition.
pub open spec fn tokens_condition(
    schema: Seq<crate::data::cell_type::ColumnTypeView>,
    tokens: Seq<String>,
) -> Result<ConditionView, JobErrorView> {
    match token_arguments(tokens, tokens.len()) {
        Err(e) => Err(e),
        Ok(arguments) => parsed_condition(schema, arguments),
    }
}

proof fn lemma_tokens_fail(tokens: Seq<String>, n: nat, m: nat)
    requires
        n <= m <= tokens.len(),
        token_arguments(tokens, n) is Err,
    ensures
        token_arguments(tokens, m) == token_arguments(tokens, n),
    decreases m,
{
    if n < m {
        lemma_tokens_fail(tokens, n, (m - 1) as nat);
    }
}

/// Reads a condition from tokens as they were written, against the columns of the
/// input. A condition that is returned reads only columns that the input has.
pub fn parse_tokens(input_type: &Vec<ColumnType>, tokens: &Vec<String>) -> (r: Result<
    Condition,
    JobError,
>)
    ensures
        match r {
            Ok(condition) => tokens_condition(schema_view(input_type@), tokens@) == Ok::<
                ConditionView,
                JobErrorView,
            >(condition@) && crate::commands::filter::parser::condition_fits(
                condition@,
                input_type.len() as nat,
            ),
            Err(e) => tokens_condition(schema_view(input_type@), tokens@) == Err::<
                ConditionView,
                JobErrorView,
            >(e@),
        },
{
    let mut arguments: Vec<Argument> = Vec::new();
    let mut i: usize = 0;
    proof {
        assert(arguments_view(arguments@) =~= Seq::<ArgumentView>::empty());
    }
    while i < tokens.len()
        invariant
            i <= tokens.len(),
            token_arguments(tokens@, i as nat) == Ok::<Seq<ArgumentView>, JobErrorView>(
                arguments_view(arguments@),
            ),
        decreases tokens.len() - i,
    {
        let ghost so_far = arguments_view(arguments@);
        match token(tokens[i].as_str()) {
            Err(e) => {
                proof {
                    lemma_tokens_fail(tokens@, (i + 1) as nat, tokens@.len());
                }
                return Err(e);
            },
            Ok(cell) => {
                let argument = BaseArgument::unnamed(cell);
                proof {
                    assert(arguments_view(arguments@.push(argument)) =~= so_far.push(argument@));
                }
                arguments.push(argument);
            },
        }
        i += 1;
    }
    parse(input_type, &arguments)
}

} // verus!
