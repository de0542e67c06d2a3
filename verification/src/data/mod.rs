pub mod argument;
pub mod cell;
pub mod cell_type;
pub mod command;
pub mod duration;
pub mod integer;
pub mod order;
pub mod parse;
pub mod regex;
pub mod row;
pub mod sign;
pub mod text;

pub use argument::{Argument, ArgumentView, BaseArgument};
pub use cell::{Cell, CellView};
pub use cell_type::{CellType, ColumnType, ColumnTypeView};
pub use command::{Command, CommandView};
pub use duration::Duration;
pub use regex::Regex;
pub use row::Row;
