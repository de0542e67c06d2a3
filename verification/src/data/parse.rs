use crate::data::cell::{Cell, CellView};
use crate::data::cell_type::CellType;
use crate::data::duration::Duration;
use crate::data::integer::{integer_of, parse_integer};
use crate::data::regex::{regex_valid, Regex};
use crate::errors::{type_error, ErrorKind, JobError, JobErrorView};
use crate::glob::Glob;
use vstd::prelude::*;
use vstd::string::StrSliceExecFns;
use vstd::utf8::encode_utf8;

verus! {

/// The cell of type `t` that the text `s` writes, if it writes one. Texts, paths,
/// patterns, names and operators are taken as they stand; an integer is a decimal
/// number; a duration is a whole number of seconds; a regular expression has to
/// compile. No text writes a command or the output of a pipeline.
pub open spec fn parsed(t: CellType, s: Seq<char>) -> Option<CellView> {
    match t {
        CellType::Text => Some(CellView::Text(s)),
        CellType::Integer => match integer_of(s) {
            Some(i) => Some(CellView::Integer(i)),
            None => None,
        },
        CellType::File => Some(CellView::File(encode_utf8(s))),
        CellType::Glob => Some(CellView::Glob(s)),
        CellType::Regex => if regex_valid(s) {
            Some(CellView::Regex(s))
        } else {
            None
        },
        CellType::Duration => match integer_of(s) {
            Some(i) => if i64::MIN <= i <= i64::MAX {
                Some(CellView::Duration(i * 1_000_000_000))
            } else {
                None
            },
            None => None,
        },
        CellType::Field => Some(CellView::Field(s)),
        CellType::Op => Some(CellView::Op(s)),
        CellType::Command => None,
        CellType::Output => None,
    }
}

/// The message of the type error for a text that does not write a cell of type `t`.
pub open spec fn parse_failure(t: CellType) -> Seq<char> {
    match t {
        CellType::Integer => "Invalid integer"@,
        CellType::Duration => "Invalid duration"@,
        CellType::Regex => "Invalid regular expression"@,
        _ => "Failed to parse cell"@,
    }
}

impl CellType {
    /// Reads `s` as a cell of this type, or fails with a type error.
    pub fn parse(&self, s: &str) -> (r: Result<Cell, JobError>)
        ensures
            match r {
                Ok(cell) => parsed(*self, s@) == Some(cell@),
                Err(e) => parsed(*self, s@) is None && e@ == (JobErrorView {
                    kind: ErrorKind::Type,
                    message: parse_failure(*self),
                }),
            },
    {
        match self {
            CellType::Text => Ok(Cell::Text(s.to_owned())),
            CellType::Integer => match parse_integer(s) {
                Some(i) => Ok(Cell::Integer(i)),
                None => Err(type_error("Invalid integer")),
            },
            CellType::File => Ok(Cell::File(s.as_bytes_vec())),
            CellType::Glob => Ok(Cell::Glob(Glob::new(s))),
            CellType::Regex => match Regex::new(s) {
                Ok(re) => Ok(Cell::Regex(re)),
                Err(e) => Err(e),
            },
            CellType::Duration => match parse_integer(s) {
                Some(i) => if -0x8000_0000_0000_0000 <= i && i <= 0x7fff_ffff_ffff_ffff {
                    Ok(Cell::Duration(Duration::nanoseconds(i * 1_000_000_000)))
                } else {
                    Err(type_error("Invalid duration"))
                },
                None => Err(type_error("Invalid duration")),
            },
            CellType::Field => Ok(Cell::Field(s.to_owned())),
            CellType::Op => Ok(Cell::Op(s.to_owned())),
            CellType::Command => Err(type_error("Failed to parse cell")),
            CellType::Output => Err(type_error("Failed to parse cell")),
        }
    }
}

} // verus!
