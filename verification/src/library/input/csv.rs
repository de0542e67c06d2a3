use crate::commands::mutation::same_outcome;
use crate::commands::ExecutionContext;
use crate::data::argument::{arguments_view, Argument, ArgumentView};
use crate::data::cell::{cells_view, type_of, Cell, CellView};
use crate::data::cell_type::{clone_schema, schema_view, CellType, ColumnType, ColumnTypeView};
use crate::data::parse::{parse_failure, parsed};
use crate::data::row::{conforms, Row};
use crate::errors::{argument_error, error, ErrorKind, JobError, JobErrorView};
use crate::glob::chars_of;
use crate::stream::{already_initialized, broken_pipe, OutputStream};
use vstd::prelude::*;
use vstd::string::StrSliceExecFns;

verus! {

/// How a text of separated values is to be read.
#[derive(Debug)]
pub struct Csv {
    /// The paths of the files to read, in order.
    pub files: Vec<Vec<u8>>,
    /// The name and the type of each column, in order.
    pub columns: Vec<ColumnType>,
    /// The character between two values.
    pub separator: char,
    /// How many lines are passed over at the beginning.
    pub head: i128,
    /// The character that is taken away from both ends of every value, if any.
    pub trim: Option<char>,
}

/// The parts of `s` between the separators. A text without a separator is its only
/// part, the empty text too.
pub open spec fn split(s: Seq<char>, separator: char) -> Seq<Seq<char>>
    decreases s.len(),
{
    if s.len() == 0 {
        seq![Seq::empty()]
    } else {
        let before = split(s.drop_last(), separator);
        if s.last() == separator {
            before.push(Seq::empty())
        } else {
            before.drop_last().push(before.last().push(s.last()))
        }
    }
}

/// `s` without the characters `c` at its beginning.
pub open spec fn trim_start(s: Seq<char>, c: char) -> Seq<char>
    decreases s.len(),
{
    if s.len() > 0 && s[0] == c {
        trim_start(s.drop_first(), c)
    } else {
        s
    }
}

/// `s` without the characters `c` at its end.
pub open spec fn trim_end(s: Seq<char>, c: char) -> Seq<char>
    decreases s.len(),
{
    if s.len() > 0 && s.last() == c {
        trim_end(s.drop_last(), c)
    } else {
        s
    }
}

/// `s` without the characters `trim` at both ends, or `s` itself where nothing is to
/// be taken away.
pub open spec fn trimmed(s: Seq<char>, trim: Option<char>) -> Seq<char> {
    match trim {
        Some(c) => trim_end(trim_start(s, c), c),
        None => s,
    }
}

/// A line without its last character, which ends it.
pub open spec fn body(line: Seq<char>) -> Seq<char> {
    if line.len() == 0 {
        line
    } else {
        line.drop_last()
    }
}

/// The values of a line: the line without its last character is split at the
/// separators, and each part is trimmed.
pub open spec fn values(line: Seq<char>, separator: char, trim: Option<char>) -> Seq<Seq<char>> {
    split(body(line), separator).map_values(|part: Seq<char>| trimmed(part, trim))
}

/// The error for a line with more or fewer values than there are columns.
pub open spec fn wrong_width() -> JobErrorView {
    JobErrorView { kind: ErrorKind::Generic, message: "csv: Wrong number of columns in CSV file"@ }
}

/// The cells that the first `n` values write, each read as the type of its column.
/// The first value that does not write a cell of that type decides the error.
pub open spec fn cells_of(columns: Seq<ColumnTypeView>, fields: Seq<Seq<char>>, n: nat) -> Result<
    Seq<CellView>,
    JobErrorView,
>
    decreases n,
{
    if n == 0 || n > fields.len() || n > columns.len() {
        Ok(Seq::empty())
    } else {
        match cells_of(columns, fields, (n - 1) as nat) {
            Err(e) => Err(e),
            Ok(cells) => match parsed(columns[n - 1].cell_type, fields[n - 1]) {
                Some(cell) => Ok(cells.push(cell)),
                None => Err(
                    JobErrorView {
                        kind: ErrorKind::Type,
                        message: parse_failure(columns[n - 1].cell_type),
                    },
                ),
            },
        }
    }
}

/// The row that a line writes: it has to have one value for each column.
pub open spec fn parsed_line(
    columns: Seq<ColumnTypeView>,
    separator: char,
    trim: Option<char>,
    line: Seq<char>,
) -> Result<Seq<CellView>, JobErrorView> {
    let fields = values(line, separator, trim);
    if fields.len() != columns.len() {
        Err(wrong_width())
    } else {
        cells_of(columns, fields, fields.len())
    }
}

/// The rows that the lines from position `i` on write, and how reading them ends.
/// An empty line is the end of the text. The first `skip` lines are passed over. The
/// first line that writes no row ends the reading with its error, after the rows of
/// the lines before it.
pub open spec fn rows_from(
    columns: Seq<ColumnTypeView>,
    separator: char,
    trim: Option<char>,
    lines: Seq<Seq<char>>,
    i: int,
    skip: nat,
) -> (Seq<Seq<CellView>>, Result<(), JobErrorView>)
    decreases lines.len() - i,
{
    if i < 0 || i >= lines.len() || lines[i].len() == 0 {
        (Seq::empty(), Ok(()))
    } else if skip > 0 {
        rows_from(columns, separator, trim, lines, i + 1, (skip - 1) as nat)
    } else {
        match parsed_line(columns, separator, trim, lines[i]) {
            Err(e) => (Seq::empty(), Err(e)),
            Ok(row) => {
                let (rest, result) = rows_from(columns, separator, trim, lines, i + 1, 0);
                (seq![row] + rest, result)
            },
        }
    }
}

/// How many lines `head` asks to pass over in a text of `n` lines: all of them where
/// it is negative or more than `n`.
pub open spec fn skip_count(head: int, n: nat) -> nat {
    if head < 0 || head > n {
        n
    } else {
        head as nat
    }
}

/// The lines of a list, each as its characters.
pub open spec fn lines_view(lines: Seq<String>) -> Seq<Seq<char>> {
    lines.map_values(|l: String| l@)
}

/// The rows that a text writes, and how reading it ends.
pub open spec fn csv_rows(cfg: Csv, lines: Seq<String>) -> (
    Seq<Seq<CellView>>,
    Result<(), JobErrorView>,
) {
    rows_from(
        schema_view(cfg.columns@),
        cfg.separator,
        cfg.trim,
        lines_view(lines),
        0,
        skip_count(cfg.head as int, lines.len()),
    )
}

fn bounds(chars: &Vec<char>, end: usize, separator: char) -> (parts: Vec<(usize, usize)>)
    requires
        end <= chars.len(),
    ensures
        parts@.len() == split(chars@.take(end as int), separator).len(),
        forall|k: int|
            0 <= k < parts@.len() ==> (#[trigger] parts@[k]).0 <= parts@[k].1 <= end && chars@.subrange(
                parts@[k].0 as int,
                parts@[k].1 as int,
            ) == split(chars@.take(end as int), separator)[k],
{
    let mut parts: Vec<(usize, usize)> = Vec::new();
    let mut start: usize = 0;
    let mut i: usize = 0;
    proof {
        assert(chars@.take(0) =~= Seq::<char>::empty());
        assert(chars@.subrange(0, 0) =~= Seq::<char>::empty());
    }
    while i < end
        invariant
            start <= i <= end <= chars.len(),
            split(chars@.take(i as int), separator).len() == parts@.len() + 1,
            split(chars@.take(i as int), separator).last() == chars@.subrange(
                start as int,
                i as int,
            ),
            forall|k: int|
                0 <= k < parts@.len() ==> (#[trigger] parts@[k]).0 <= parts@[k].1 <= i && chars@.subrange(
                    parts@[k].0 as int,
                    parts@[k].1 as int,
                ) == split(chars@.take(i as int), separator)[k],
        decreases end - i,
    {
        let ghost before = split(chars@.take(i as int), separator);
        proof {
            assert(chars@.take(i + 1).drop_last() =~= chars@.take(i as int));
            assert(chars@.take(i + 1).last() == chars@[i as int]);
        }
        if chars[i] == separator {
            parts.push((start, i));
            start = i + 1;
            proof {
                assert(chars@.subrange(i + 1, i + 1) =~= Seq::<char>::empty());
            }
        } else {
            proof {
                assert(chars@.subrange(start as int, i + 1) =~= chars@.subrange(
                    start as int,
                    i as int,
                ).push(chars@[i as int]));
            }
        }
        i += 1;
    }
    parts.push((start, end));
    parts
}

fn trim_bounds(chars: &Vec<char>, from: usize, to: usize, trim: Option<char>) -> (r: (usize, usize))
    requires
        from <= to <= chars.len(),
    ensures
        from <= r.0 <= r.1 <= to,
        chars@.subrange(r.0 as int, r.1 as int) == trimmed(
            chars@.subrange(from as int, to as int),
            trim,
        ),
{
    match trim {
        None => (from, to),
        Some(c) => {
            let mut a = from;
            while a < to && chars[a] == c
                invariant
                    from <= a <= to <= chars.len(),
                    trim_start(chars@.subrange(from as int, to as int), c) == trim_start(
                        chars@.subrange(a as int, to as int),
                        c,
                    ),
                decreases to - a,
            {
                proof {
                    assert(chars@.subrange(a as int, to as int).drop_first() =~= chars@.subrange(
                        a + 1,
                        to as int,
                    ));
                }
                a += 1;
            }
            let mut b = to;
            while b > a && chars[b - 1] == c
                invariant
                    a <= b <= to <= chars.len(),
                    trim_end(chars@.subrange(a as int, to as int), c) == trim_end(
                        chars@.subrange(a as int, b as int),
                        c,
                    ),
                decreases b - a,
            {
                proof {
                    assert(chars@.subrange(a as int, b as int).drop_last() =~= chars@.subrange(
                        a as int,
                        b - 1,
                    ));
                }
                b -= 1;
            }
            (a, b)
        },
    }
}

proof fn lemma_cells_fail(columns: Seq<ColumnTypeView>, fields: Seq<Seq<char>>, n: nat, m: nat)
    requires
        n <= m <= fields.len(),
        m <= columns.len(),
        cells_of(columns, fields, n) is Err,
    ensures
        cells_of(columns, fields, m) == cells_of(columns, fields, n),
    decreases m,
{
    if n < m {
        lemma_cells_fail(columns, fields, n, (m - 1) as nat);
    }
}

/// Reads one line as a row of the given columns.
pub fn parse_line(columns: &Vec<ColumnType>, separator: char, trim: Option<char>, line: &str) -> (r:
    Result<Row, JobError>)
    ensures
        match r {
            Ok(row) => parsed_line(schema_view(columns@), separator, trim, line@) == Ok::<
                Seq<CellView>,
                JobErrorView,
            >(row@) && conforms(row@, schema_view(columns@)),
            Err(e) => parsed_line(schema_view(columns@), separator, trim, line@) == Err::<
                Seq<CellView>,
                JobErrorView,
            >(e@),
        },
{
    let chars = chars_of(line);
    let end: usize = if chars.len() == 0 {
        0
    } else {
        chars.len() - 1
    };
    proof {
        assert(chars@.take(end as int) =~= body(line@));
    }
    let parts = bounds(&chars, end, separator);
    let ghost schema = schema_view(columns@);
    let ghost fields = values(line@, separator, trim);
    if parts.len() != columns.len() {
        return Err(error("csv: Wrong number of columns in CSV file"));
    }
    let mut cells: Vec<Cell> = Vec::new();
    let mut k: usize = 0;
    proof {
        assert(cells_view(cells@) =~= Seq::<CellView>::empty());
    }
    while k < parts.len()
        invariant
            k <= parts.len(),
            parts.len() == columns.len(),
            chars@ == line@,
            end <= chars.len(),
            schema == schema_view(columns@),
            fields == values(line@, separator, trim),
            fields.len() == parts@.len(),
            forall|j: int|
                0 <= j < parts@.len() ==> (#[trigger] parts@[j]).0 <= parts@[j].1 <= end && chars@.subrange(
                    parts@[j].0 as int,
                    parts@[j].1 as int,
                ) == split(body(line@), separator)[j],
            cells_of(schema, fields, k as nat) == Ok::<Seq<CellView>, JobErrorView>(
                cells_view(cells@),
            ),
            cells@.len() == k,
            forall|j: int| 0 <= j < k ==> type_of(#[trigger] cells_view(cells@)[j]) == schema[j].cell_type,
        decreases parts.len() - k,
    {
        let (from, to) = parts[k];
        let (a, b) = trim_bounds(&chars, from, to, trim);
        let field = line.substring_char(a, b);
        proof {
            assert(field@ == fields[k as int]);
            assert(schema[k as int] == columns@[k as int]@);
        }
        match columns[k].cell_type.parse(field) {
            Ok(cell) => {
                proof {
                    assert(cells_view(cells@.push(cell)) =~= cells_view(cells@).push(cell@));
                    lemma_parsed_type(columns@[k as int].cell_type, field@);
                }
                cells.push(cell);
            },
            Err(e) => {
                proof {
                    lemma_cells_fail(schema, fields, (k + 1) as nat, fields.len());
                }
                return Err(e);
            },
        }
        k += 1;
    }
    Ok(Row::new(cells))
}

proof fn lemma_parsed_type(t: CellType, s: Seq<char>)
    ensures
        parsed(t, s) matches Some(cell) ==> type_of(cell) == t,
{
}

proof fn lemma_cells_error(columns: Seq<ColumnTypeView>, fields: Seq<Seq<char>>, n: nat)
    ensures
        cells_of(columns, fields, n) matches Err(e) ==> e.kind == ErrorKind::Type,
    decreases n,
{
    if n > 0 {
        lemma_cells_error(columns, fields, (n - 1) as nat);
    }
}

proof fn lemma_rows_error(
    columns: Seq<ColumnTypeView>,
    separator: char,
    trim: Option<char>,
    lines: Seq<Seq<char>>,
    i: int,
    skip: nat,
)
    ensures
        rows_from(columns, separator, trim, lines, i, skip).1 matches Err(e) ==> e.kind
            == ErrorKind::Type || e == wrong_width(),
    decreases lines.len() - i,
{
    if i < 0 || i >= lines.len() || lines[i].len() == 0 {
    } else if skip > 0 {
        lemma_rows_error(columns, separator, trim, lines, i + 1, (skip - 1) as nat);
    } else {
        let fields = values(lines[i], separator, trim);
        lemma_cells_error(columns, fields, fields.len());
        lemma_rows_error(columns, separator, trim, lines, i + 1, 0);
    }
}

/// The error of a text is no error of a stream: it is a type error, or the error for
/// a line of the wrong width.
pub proof fn text_errors_differ(cfg: Csv, lines: Seq<String>)
    ensures
        csv_rows(cfg, lines).1 matches Err(e) ==> e != already_initialized() && e != broken_pipe(),
{
    reveal_strlit("csv: Wrong number of columns in CSV file");
    reveal_strlit("Broken pipe");
    reveal_strlit("Stream already initialized");
    assert("csv: Wrong number of columns in CSV file"@.len() != "Broken pipe"@.len());
    assert("csv: Wrong number of columns in CSV file"@.len()
        != "Stream already initialized"@.len());
    lemma_rows_error(
        schema_view(cfg.columns@),
        cfg.separator,
        cfg.trim,
        lines_view(lines),
        0,
        skip_count(cfg.head as int, lines.len()),
    );
}

/// Reads the lines of a text and writes the rows that they write to the output, up
/// to the end of the text or to the first line that writes no row, whose error it
/// returns. It stops before that at the first row that the output does not take: the
/// reader is gone, which is no error, and the lines that follow are not read.
#[verifier::loop_isolation(false)]
pub fn read_lines(cfg: &Csv, lines: &Vec<String>, output: &mut OutputStream) -> (r: Result<
    (),
    JobError,
>)
    requires
        old(output).schema() == schema_view(cfg.columns@),
    ensures
        final(output).schema() == old(output).schema(),
        ({
            let rows = csv_rows(*cfg, lines@).0;
            ||| {
                &&& final(output).sent() == old(output).sent() + rows
                &&& same_outcome(r, csv_rows(*cfg, lines@).1)
                &&& final(output).is_open() == old(output).is_open()
            }
            ||| {
                &&& r is Ok
                &&& !final(output).is_open()
                &&& exists|k: int|
                    0 <= k < rows.len() && final(output).sent() == old(output).sent()
                        + #[trigger] rows.take(k)
            }
        }),
{
    let ghost schema = schema_view(cfg.columns@);
    let ghost all = lines_view(lines@);
    let ghost sent = output.sent();
    let ghost total = csv_rows(*cfg, lines@);
    let mut skip: usize = if cfg.head < 0 || cfg.head > lines.len() as i128 {
        lines.len()
    } else {
        cfg.head as usize
    };
    let ghost mut done: Seq<Seq<CellView>> = Seq::empty();
    let mut i: usize = 0;
    proof {
        assert(done + total.0 =~= total.0);
        assert(sent + done =~= sent);
    }
    while i < lines.len()
        invariant
            i <= lines.len(),
            output.schema() == schema,
            ({
                let rest = rows_from(schema, cfg.separator, cfg.trim, all, i as int, skip as nat);
                total.0 == done + rest.0 && total.1 == rest.1
            }),
            output.sent() == sent + done,
            output.is_open() == old(output).is_open(),
        decreases lines.len() - i,
    {
        assert(all[i as int] == lines@[i as int]@);
        if lines[i].as_str().unicode_len() == 0 {
            proof {
                assert(done + Seq::<Seq<CellView>>::empty() =~= done);
            }
            return Ok(());
        }
        if skip > 0 {
            skip -= 1;
        } else {
            match parse_line(&cfg.columns, cfg.separator, cfg.trim, lines[i].as_str()) {
                Err(e) => {
                    proof {
                        assert(done + Seq::<Seq<CellView>>::empty() =~= done);
                    }
                    return Err(e);
                },
                Ok(row) => {
                    let ghost cells = row@;
                    let ghost rest = rows_from(schema, cfg.separator, cfg.trim, all, i + 1, 0);
                    proof {
                        assert(done + (seq![cells] + rest.0) =~= done.push(cells) + rest.0);
                    }
                    match output.send(row) {
                        Ok(_) => {
                            proof {
                                assert(sent + done.push(cells) =~= (sent + done).push(cells));
                            }
                        },
                        Err(_) => {
                            proof {
                                let k = done.len() as int;
                                assert(total.0.take(k) =~= done);
                                assert(0 <= k < total.0.len());
                            }
                            return Ok(());
                        },
                    }
                    proof {
                        done = done.push(cells);
                    }
                },
            }
        }
        i += 1;
    }
    proof {
        assert(done + Seq::<Seq<CellView>>::empty() =~= done);
    }
    Ok(())
}

/// Reads a text of separated values from its context: commits the output to the
/// columns, then writes the rows that the lines write. It fails where the output
/// cannot be committed, on a second initialization or on a reader that is gone
/// before, and with the error of the first line that writes no row, where that line
/// is reached.
pub fn csv(context: ExecutionContext, cfg: &Csv, lines: &Vec<String>) -> (r: Result<(), JobError>)
    ensures
        context.output.is_initialized() <==> (r matches Err(e) && e@ == already_initialized()),
        r matches Err(e) ==> e@ == already_initialized() || e@ == broken_pipe() || csv_rows(
            *cfg,
            lines@,
        ).1 == Err::<(), JobErrorView>(e@),
        csv_rows(*cfg, lines@).0.len() == 0 && !context.output.is_initialized() ==> (r
            matches Err(e) && e@ == broken_pipe()) || same_outcome(r, csv_rows(*cfg, lines@).1),
{
    proof {
        text_errors_differ(*cfg, lines@);
    }
    let mut context = context;
    let mut output = match context.output.initialize(clone_schema(&cfg.columns)) {
        Ok(output) => output,
        Err(e) => {
            return Err(e);
        },
    };
    read_lines(cfg, lines, &mut output)
}

/// A `Csv` with its texts and lists as sequences.
pub struct CsvView {
    pub files: Seq<Seq<u8>>,
    pub columns: Seq<ColumnTypeView>,
    pub separator: char,
    pub head: int,
    pub trim: Option<char>,
}

impl View for Csv {
    type V = CsvView;

    open spec fn view(&self) -> CsvView {
        CsvView {
            files: self.files@.map_values(|f: Vec<u8>| f@),
            columns: schema_view(self.columns@),
            separator: self.separator,
            head: self.head as int,
            trim: self.trim,
        }
    }
}

/// The type that a word names.
pub open spec fn type_named(word: Seq<char>) -> Option<CellType> {
    if word == "string"@ {
        Some(CellType::Text)
    } else if word == "integer"@ {
        Some(CellType::Integer)
    } else if word == "file"@ {
        Some(CellType::File)
    } else if word == "glob"@ {
        Some(CellType::Glob)
    } else if word == "regex"@ {
        Some(CellType::Regex)
    } else if word == "duration"@ {
        Some(CellType::Duration)
    } else {
        None
    }
}

/// The argument error with the given message.
pub open spec fn unfit(message: Seq<char>) -> JobErrorView {
    JobErrorView { kind: ErrorKind::Argument, message }
}

/// What one argument adds to the settings. An argument without a name is a file to
/// read. `separator` and `trim` take a text of one character, `head` an integer.
/// Every other name is that of a column, and its value the word for the column's
/// type.
pub open spec fn setting(before: CsvView, argument: ArgumentView) -> Result<CsvView, JobErrorView> {
    match argument.name {
        None => match argument.cell {
            CellView::File(path) => Ok(CsvView { files: before.files.push(path), ..before }),
            _ => Err(unfit("Expected a file"@)),
        },
        Some(name) => if name == "separator"@ {
            match argument.cell {
                CellView::Text(t) => if t.len() == 1 {
                    Ok(CsvView { separator: t[0], ..before })
                } else {
                    Err(unfit("Expected a single character"@))
                },
                _ => Err(unfit("Expected a single character"@)),
            }
        } else if name == "trim"@ {
            match argument.cell {
                CellView::Text(t) => if t.len() == 1 {
                    Ok(CsvView { trim: Some(t[0]), ..before })
                } else {
                    Err(unfit("Expected a single character"@))
                },
                _ => Err(unfit("Expected a single character"@)),
            }
        } else if name == "head"@ {
            match argument.cell {
                CellView::Integer(i) => Ok(CsvView { head: i, ..before }),
                _ => Err(unfit("Expected an integer"@)),
            }
        } else {
            let word = match argument.cell {
                CellView::Text(t) => Some(t),
                CellView::Field(t) => Some(t),
                _ => None,
            };
            if word is Some && type_named(word->0) is Some {
                Ok(
                    CsvView {
                        columns: before.columns.push(
                            ColumnTypeView { name, cell_type: type_named(word->0)->0 },
                        ),
                        ..before
                    },
                )
            } else {
                Err(unfit("Expected a type"@))
            }
        },
    }
}

/// The settings before any argument: no file, no column, values between commas, no
/// line passed over, nothing trimmed.
pub open spec fn default_settings() -> CsvView {
    CsvView {
        files: Seq::empty(),
        columns: Seq::empty(),
        separator: ',',
        head: 0,
        trim: None,
    }
}

/// The settings that the first `n` arguments give. The first argument that does not
/// fit decides the error.
pub open spec fn settings(arguments: Seq<ArgumentView>, n: nat) -> Result<CsvView, JobErrorView>
    decreases n,
{
    if n == 0 || n > arguments.len() {
        Ok(default_settings())
    } else {
        match settings(arguments, (n - 1) as nat) {
            Err(e) => Err(e),
            Ok(before) => setting(before, arguments[n - 1]),
        }
    }
}

proof fn lemma_settings_fail(arguments: Seq<ArgumentView>, n: nat, m: nat)
    requires
        n <= m <= arguments.len(),
        settings(arguments, n) is Err,
    ensures
        settings(arguments, m) == settings(arguments, n),
    decreases m,
{
    if n < m {
        lemma_settings_fail(arguments, n, (m - 1) as nat);
    }
}

fn is_word(text: &String, word: &str) -> (b: bool)
    ensures
        b == (text@ == word@),
{
    *text == word.to_owned()
}

fn named_type(word: &String) -> (t: Option<CellType>)
    ensures
        t == type_named(word@),
{
    if is_word(word, "string") {
        Some(CellType::Text)
    } else if is_word(word, "integer") {
        Some(CellType::Integer)
    } else if is_word(word, "file") {
        Some(CellType::File)
    } else if is_word(word, "glob") {
        Some(CellType::Glob)
    } else if is_word(word, "regex") {
        Some(CellType::Regex)
    } else if is_word(word, "duration") {
        Some(CellType::Duration)
    } else {
        None
    }
}

fn single(cell: &Cell) -> (c: Option<char>)
    ensures
        match c {
            Some(c) => cell@ matches CellView::Text(t) && t.len() == 1 && t[0] == c,
            None => !(cell@ matches CellView::Text(t) && t.len() == 1),
        },
{
    match cell {
        Cell::Text(t) => {
            let chars = chars_of(t.as_str());
            if chars.len() == 1 {
                Some(chars[0])
            } else {
                None
            }
        },
        _ => None,
    }
}

fn copy_path(path: &Vec<u8>) -> (res: Vec<u8>)
    ensures
        res@ == path@,
{
    let mut res: Vec<u8> = Vec::new();
    let mut i: usize = 0;
    while i < path.len()
        invariant
            i <= path.len(),
            res@ == path@.take(i as int),
        decreases path.len() - i,
    {
        res.push(path[i]);
        assert(path@.take(i + 1) =~= path@.take(i as int).push(path@[i as int]));
        i += 1;
    }
    assert(path@.take(path.len() as int) =~= path@);
    res
}

impl Csv {
    fn set(&mut self, argument: &Argument) -> (r: Result<(), JobError>)
        ensures
            match r {
                Ok(_) => setting(old(self)@, argument@) == Ok::<CsvView, JobErrorView>(final(self)@),
                Err(e) => setting(old(self)@, argument@) == Err::<CsvView, JobErrorView>(e@),
            },
    {
        match &argument.name {
            None => match &argument.cell {
                Cell::File(path) => {
                    let ghost before = self.files@.map_values(|f: Vec<u8>| f@);
                    self.files.push(copy_path(path));
                    assert(self.files@.map_values(|f: Vec<u8>| f@) =~= before.push(path@));
                    Ok(())
                },
                _ => Err(argument_error("Expected a file")),
            },
            Some(name) => {
                if is_word(name, "separator") {
                    match single(&argument.cell) {
                        Some(c) => {
                            self.separator = c;
                            Ok(())
                        },
                        None => Err(argument_error("Expected a single character")),
                    }
                } else if is_word(name, "trim") {
                    match single(&argument.cell) {
                        Some(c) => {
                            self.trim = Some(c);
                            Ok(())
                        },
                        None => Err(argument_error("Expected a single character")),
                    }
                } else if is_word(name, "head") {
                    match &argument.cell {
                        Cell::Integer(i) => {
                            self.head = *i;
                            Ok(())
                        },
                        _ => Err(argument_error("Expected an integer")),
                    }
                } else {
                    let cell_type = match &argument.cell {
                        Cell::Text(t) => named_type(t),
                        Cell::Field(t) => named_type(t),
                        _ => None,
                    };
                    match cell_type {
                        Some(cell_type) => {
                            let ghost before = schema_view(self.columns@);
                            self.columns.push(ColumnType { name: name.clone(), cell_type });
                            assert(schema_view(self.columns@) =~= before.push(
                                ColumnTypeView { name: name@, cell_type },
                            ));
                            Ok(())
                        },
                        None => Err(argument_error("Expected a type")),
                    }
                }
            },
        }
    }

    /// Reads the settings from the arguments of a call.
    pub fn parse(arguments: &Vec<Argument>) -> (r: Result<Csv, JobError>)
        ensures
            match r {
                Ok(cfg) => settings(arguments_view(arguments@), arguments@.len()) == Ok::<
                    CsvView,
                    JobErrorView,
                >(cfg@),
                Err(e) => settings(arguments_view(arguments@), arguments@.len()) == Err::<
                    CsvView,
                    JobErrorView,
                >(e@),
            },
    {
        let mut cfg = Csv {
            files: Vec::new(),
            columns: Vec::new(),
            separator: ',',
            head: 0,
            trim: None,
        };
        let ghost all = arguments_view(arguments@);
        let mut i: usize = 0;
        proof {
            assert(cfg@.files =~= default_settings().files);
            assert(cfg@.columns =~= default_settings().columns);
        }
        while i < arguments.len()
            invariant
                i <= arguments.len(),
                all == arguments_view(arguments@),
                settings(all, i as nat) == Ok::<CsvView, JobErrorView>(cfg@),
            decreases arguments.len() - i,
        {
            assert(all[i as int] == arguments@[i as int]@);
            match cfg.set(&arguments[i]) {
                Ok(_) => {},
                Err(e) => {
                    proof {
                        lemma_settings_fail(all, (i + 1) as nat, all.len());
                    }
                    return Err(e);
                },
            }
            i += 1;
        }
        Ok(cfg)
    }
}

} // verus!
