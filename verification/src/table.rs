//! Tables read from comma-separated text, and the typed fields of their rows.

use crate::date::{date_of, exception_type_of, Date, ExceptionType};
use crate::decimal::{is_decimal, Decimal};
use crate::error::{ImportError, ImportErrorView};
use crate::reader::{csv_table, describe, split_records};
use vstd::prelude::*;

verus! {

/// A table: the names of its columns and its rows of fields, all without
/// surrounding white space. Where the source could not be read to its end,
/// the rows are those before the fault, and `failure` tells of the fault.
pub struct Table {
    pub header: Vec<String>,
    pub rows: Vec<Vec<String>>,
    pub failure: Option<String>,
}

/// The mathematical content of a [`Table`].
pub ghost struct TableView {
    pub header: Seq<Seq<char>>,
    pub rows: Seq<Seq<Seq<char>>>,
    pub complete: bool,
}

impl View for Table {
    type V = TableView;

    open spec fn view(&self) -> TableView {
        TableView {
            header: self.header.deep_view(),
            rows: self.rows.deep_view(),
            complete: self.failure is None,
        }
    }
}

/// A column of a table, looked up by its name once for all rows.
pub struct Column {
    name: String,
    position: Option<usize>,
}

impl Column {
    /// The name that the column was looked up by.
    pub closed spec fn name(&self) -> Seq<char> {
        self.name@
    }

    /// Whether the column was looked up by `name` in `header`.
    pub open spec fn finds(&self, header: Seq<Seq<char>>, name: Seq<char>) -> bool {
        self.name() == name && self.locates(header)
    }

    /// Whether this is the first column of `header` that has the name, or
    /// tells rightly that there is none.
    pub closed spec fn locates(&self, header: Seq<Seq<char>>) -> bool {
        match self.position {
            Some(position) => header.index_of_first(self.name@) == Some(position as int),
            None => header.index_of_first(self.name@) is None,
        }
    }
}

/// The field of the row `row` in the first column named `name`, if there is
/// such a column and the row reaches it.
pub open spec fn field_of(table: TableView, row: int, name: Seq<char>) -> Option<Seq<char>> {
    match table.header.index_of_first(name) {
        Some(column) => if column < table.rows[row].len() {
            Some(table.rows[row][column])
        } else {
            None
        },
        None => None,
    }
}

/// Whether an import that takes the rows of a table in their order, and ends
/// at the first row with a fault, gets through: `faults` holds for each row
/// its fault, if it has one, and `complete` tells whether the table was read
/// to its end.
pub open spec fn runs_through(faults: Seq<Option<ImportErrorView>>, complete: bool) -> bool {
    complete && forall|row: int| 0 <= row < faults.len() ==> faults[row] is None
}

/// Whether such an import ends with `error`: the fault of the first row that
/// has one or, where no row has one and the table is not complete, the
/// failure of its reader.
pub open spec fn stops_at(
    faults: Seq<Option<ImportErrorView>>,
    complete: bool,
    error: ImportErrorView,
) -> bool {
    ||| exists|row: int|
        {
            &&& 0 <= row < faults.len()
            &&& #[trigger] faults[row] == Some(error)
            &&& forall|earlier: int| 0 <= earlier < row ==> faults[earlier] is None
        }
    ||| {
        &&& forall|row: int| 0 <= row < faults.len() ==> faults[row] is None
        &&& !complete
        &&& error is Csv
    }
}

/// The field `name` of the row `row` as text: any text will do, but the field
/// has to be there.
pub open spec fn text_field(table: TableView, row: int, name: Seq<char>) -> Result<
    Seq<char>,
    ImportErrorView,
> {
    match field_of(table, row, name) {
        Some(text) => Ok(text),
        None => Err(ImportErrorView::MissingField { row, field: name }),
    }
}

/// The field `name` of the row `row` as text that is required: the field has
/// to be there and to hold a character at least.
pub open spec fn required_field(table: TableView, row: int, name: Seq<char>) -> Result<
    Seq<char>,
    ImportErrorView,
> {
    match field_of(table, row, name) {
        Some(text) => if text.len() == 0 {
            Err(ImportErrorView::EmptyField { row, field: name })
        } else {
            Ok(text)
        },
        None => Err(ImportErrorView::MissingField { row, field: name }),
    }
}

/// The field `name` of the row `row` as a decimal number: the literal itself.
pub open spec fn decimal_field(table: TableView, row: int, name: Seq<char>) -> Result<
    Seq<char>,
    ImportErrorView,
> {
    match field_of(table, row, name) {
        Some(text) => if is_decimal(text) {
            Ok(text)
        } else {
            Err(ImportErrorView::InvalidDecimal { row, field: name })
        },
        None => Err(ImportErrorView::MissingField { row, field: name }),
    }
}

/// The field `name` of the row `row` as a calendar date.
pub open spec fn date_field(table: TableView, row: int, name: Seq<char>) -> Result<
    crate::date::DateView,
    ImportErrorView,
> {
    match field_of(table, row, name) {
        Some(text) => match date_of(text) {
            Some(date) => Ok(date),
            None => Err(ImportErrorView::InvalidDate { row, field: name }),
        },
        None => Err(ImportErrorView::MissingField { row, field: name }),
    }
}

/// The field `name` of the row `row` as an exception type.
pub open spec fn exception_type_field(table: TableView, row: int, name: Seq<char>) -> Result<
    ExceptionType,
    ImportErrorView,
> {
    match field_of(table, row, name) {
        Some(text) => match exception_type_of(text) {
            Some(kind) => Ok(kind),
            None => Err(ImportErrorView::InvalidExceptionType { row, field: name }),
        },
        None => Err(ImportErrorView::MissingField { row, field: name }),
    }
}

impl Table {
    /// Reads a table from comma-separated text.
    pub fn read(bytes: &[u8]) -> (table: Table)
        ensures
            table@ == csv_table(bytes@),
    {
        let (header, rows, error) = split_records(bytes);
        let failure = match error {
            Some(error) => Some(describe(&error)),
            None => None,
        };
        Table { header, rows, failure }
    }

    /// What is reported where the table was not read to its end: the fault
    /// as the table tells of it.
    pub fn reader_failure(&self) -> (error: ImportError)
        requires
            self.failure is Some,
        ensures
            error == ImportError::Csv(self.failure->Some_0),
    {
        match &self.failure {
            Some(text) => ImportError::Csv(text.clone()),
            None => ImportError::Csv(String::new()),
        }
    }

    /// Looks up the first column named `name`.
    pub fn column(&self, name: &str) -> (column: Column)
        ensures
            column.name() == name@,
            column.locates(self@.header),
    {
        let wanted = name.to_owned();
        let ghost header = self@.header;
        let mut position: usize = 0;
        while position < self.header.len()
            invariant
                header == self.header.deep_view(),
                wanted@ == name@,
                position <= self.header.len(),
                forall|k: int| 0 <= k < position ==> header[k] != name@,
            decreases self.header.len() - position,
        {
            if self.header[position] == wanted {
                proof {
                    assert(header[position as int] == name@);
                    header.index_of_first_ensures(name@);
                }
                return Column { name: wanted, position: Some(position) };
            }
            position += 1;
        }
        proof {
            header.index_of_first_ensures(name@);
        }
        Column { name: wanted, position: None }
    }

    /// The field of the row `row` in `column`.
    fn field(&self, row: usize, column: &Column) -> (field: Option<&String>)
        requires
            row < self.rows.len(),
            column.locates(self@.header),
        ensures
            match field {
                Some(text) => field_of(self@, row as int, column.name()) == Some(text@),
                None => field_of(self@, row as int, column.name()) is None,
            },
    {
        let fields = &self.rows[row];
        match column.position {
            Some(position) => if position < fields.len() {
                Some(&fields[position])
            } else {
                None
            },
            None => None,
        }
    }

    /// The field of the row `row` in `column`, as text.
    pub fn text(&self, row: usize, column: &Column) -> (outcome: Result<String, ImportError>)
        requires
            row < self.rows.len(),
            column.locates(self@.header),
        ensures
            match outcome {
                Ok(text) => text_field(self@, row as int, column.name()) == Ok::<
                    Seq<char>,
                    ImportErrorView,
                >(text@),
                Err(error) => text_field(self@, row as int, column.name()) == Err::<
                    Seq<char>,
                    ImportErrorView,
                >(error@),
            },
    {
        match self.field(row, column) {
            Some(text) => Ok(text.clone()),
            None => Err(ImportError::MissingField { row, field: column.name.clone() }),
        }
    }

    /// The field of the row `row` in `column`, as text that is required.
    pub fn required(&self, row: usize, column: &Column) -> (outcome: Result<String, ImportError>)
        requires
            row < self.rows.len(),
            column.locates(self@.header),
        ensures
            match outcome {
                Ok(text) => required_field(self@, row as int, column.name()) == Ok::<
                    Seq<char>,
                    ImportErrorView,
                >(text@),
                Err(error) => required_field(self@, row as int, column.name()) == Err::<
                    Seq<char>,
                    ImportErrorView,
                >(error@),
            },
    {
        match self.field(row, column) {
            Some(text) => if text.as_str().unicode_len() == 0 {
                Err(ImportError::EmptyField { row, field: column.name.clone() })
            } else {
                Ok(text.clone())
            },
            None => Err(ImportError::MissingField { row, field: column.name.clone() }),
        }
    }

    /// The field of the row `row` in `column`, as a decimal number.
    pub fn decimal(&self, row: usize, column: &Column) -> (outcome: Result<Decimal, ImportError>)
        requires
            row < self.rows.len(),
            column.locates(self@.header),
        ensures
            match outcome {
                Ok(number) => decimal_field(self@, row as int, column.name()) == Ok::<
                    Seq<char>,
                    ImportErrorView,
                >(number@),
                Err(error) => decimal_field(self@, row as int, column.name()) == Err::<
                    Seq<char>,
                    ImportErrorView,
                >(error@),
            },
    {
        match self.field(row, column) {
            Some(text) => match Decimal::parse(text.as_str()) {
                Some(number) => Ok(number),
                None => Err(ImportError::InvalidDecimal { row, field: column.name.clone() }),
            },
            None => Err(ImportError::MissingField { row, field: column.name.clone() }),
        }
    }

    /// The field of the row `row` in `column`, as a calendar date.
    pub fn date(&self, row: usize, column: &Column) -> (outcome: Result<Date, ImportError>)
        requires
            row < self.rows.len(),
            column.locates(self@.header),
        ensures
            match outcome {
                Ok(date) => date_field(self@, row as int, column.name()) == Ok::<
                    crate::date::DateView,
                    ImportErrorView,
                >(date@),
                Err(error) => date_field(self@, row as int, column.name()) == Err::<
                    crate::date::DateView,
                    ImportErrorView,
                >(error@),
            },
    {
        match self.field(row, column) {
            Some(text) => match Date::parse(text.as_str()) {
                Some(date) => Ok(date),
                None => Err(ImportError::InvalidDate { row, field: column.name.clone() }),
            },
            None => Err(ImportError::MissingField { row, field: column.name.clone() }),
        }
    }

    /// The field of the row `row` in `column`, as an exception type.
    pub fn exception_type(&self, row: usize, column: &Column) -> (outcome: Result<
        ExceptionType,
        ImportError,
    >)
        requires
            row < self.rows.len(),
            column.locates(self@.header),
        ensures
            match outcome {
                Ok(kind) => exception_type_field(self@, row as int, column.name()) == Ok::<
                    ExceptionType,
                    ImportErrorView,
                >(kind),
                Err(error) => exception_type_field(self@, row as int, column.name()) == Err::<
                    ExceptionType,
                    ImportErrorView,
                >(error@),
            },
    {
        match self.field(row, column) {
            Some(text) => match ExceptionType::parse(text.as_str()) {
                Some(kind) => Ok(kind),
                None => Err(ImportError::InvalidExceptionType { row, field: column.name.clone() }),
            },
            None => Err(ImportError::MissingField { row, field: column.name.clone() }),
        }
    }
}

} // verus!
