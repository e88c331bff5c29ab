//! The failures an import can end with.

use vstd::prelude::*;
use vstd::string::*;

verus! {

/// Why an import step failed.
#[derive(Debug, PartialEq, Eq)]
pub enum ImportError {
    /// The source could not be split into records; the text is the reader's
    /// own account of the failure.
    Csv(String),
    /// The header names no such column, or the row has no field under it.
    MissingField { row: usize, field: String },
    /// A required field holds no text.
    EmptyField { row: usize, field: String },
    /// A field that should hold a decimal number holds something else.
    InvalidDecimal { row: usize, field: String },
    /// A field that should hold a calendar date holds something else.
    InvalidDate { row: usize, field: String },
    /// A field that should hold an exception type holds something else.
    InvalidExceptionType { row: usize, field: String },
    /// The planar coordinate of the row has no geographic counterpart.
    Projection { row: usize },
    /// An object with this identifier is already in the collection.
    DuplicateIdentifier(String),
    /// No stop area is known for the stop point with this identifier.
    UnresolvedReference(String),
}

/// The mathematical content of an [`ImportError`].
pub ghost enum ImportErrorView {
    Csv(Seq<char>),
    MissingField { row: int, field: Seq<char> },
    EmptyField { row: int, field: Seq<char> },
    InvalidDecimal { row: int, field: Seq<char> },
    InvalidDate { row: int, field: Seq<char> },
    InvalidExceptionType { row: int, field: Seq<char> },
    Projection { row: int },
    DuplicateIdentifier(Seq<char>),
    UnresolvedReference(Seq<char>),
}

impl View for ImportError {
    type V = ImportErrorView;

    open spec fn view(&self) -> ImportErrorView {
        match *self {
            ImportError::Csv(text) => ImportErrorView::Csv(text@),
            ImportError::MissingField { row, field } => ImportErrorView::MissingField {
                row: row as int,
                field: field@,
            },
            ImportError::EmptyField { row, field } => ImportErrorView::EmptyField {
                row: row as int,
                field: field@,
            },
            ImportError::InvalidDecimal { row, field } => ImportErrorView::InvalidDecimal {
                row: row as int,
                field: field@,
            },
            ImportError::InvalidDate { row, field } => ImportErrorView::InvalidDate {
                row: row as int,
                field: field@,
            },
            ImportError::InvalidExceptionType { row, field } => ImportErrorView::InvalidExceptionType {
                row: row as int,
                field: field@,
            },
            ImportError::Projection { row } => ImportErrorView::Projection { row: row as int },
            ImportError::DuplicateIdentifier(id) => ImportErrorView::DuplicateIdentifier(id@),
            ImportError::UnresolvedReference(id) => ImportErrorView::UnresolvedReference(id@),
        }
    }
}

/// The digit that stands for `value`, a number below ten.
pub open spec fn digit_of(value: nat) -> char {
    (48 + value) as u8 as char
}

/// The digits that write `number` in base ten, without leading zeros.
pub open spec fn digits_of(number: nat) -> Seq<char>
    decreases number,
{
    if number < 10 {
        seq![digit_of(number)]
    } else {
        digits_of(number / 10).push(digit_of(number % 10))
    }
}

/// What is said of a fault in the field `field` of the row `row`: the number
/// of the row, counted from zero, the name of the field, and `fault`.
pub open spec fn field_message(row: int, field: Seq<char>, fault: Seq<char>) -> Seq<char> {
    "row "@ + digits_of(row as nat) + ", field '"@ + field + "': "@ + fault
}

/// The message of an error.
pub open spec fn message_of(error: ImportErrorView) -> Seq<char> {
    match error {
        ImportErrorView::Csv(text) => text,
        ImportErrorView::MissingField { row, field } => field_message(
            row,
            field,
            "no such field"@,
        ),
        ImportErrorView::EmptyField { row, field } => field_message(
            row,
            field,
            "the field is empty"@,
        ),
        ImportErrorView::InvalidDecimal { row, field } => field_message(
            row,
            field,
            "not a decimal number"@,
        ),
        ImportErrorView::InvalidDate { row, field } => field_message(row, field, "not a date"@),
        ImportErrorView::InvalidExceptionType { row, field } => field_message(
            row,
            field,
            "not an exception type"@,
        ),
        ImportErrorView::Projection { row } => "row "@ + digits_of(row as nat)
            + ": the coordinate cannot be projected"@,
        ImportErrorView::DuplicateIdentifier(id) => "identifier '"@ + id + "' already found"@,
        ImportErrorView::UnresolvedReference(id) =>
            "Failed to find the corresponding StopArea for the StopPoint '"@ + id + "'"@,
    }
}

/// The digit that stands for `value`, as text.
fn digit_text(value: usize) -> (text: &'static str)
    requires
        value < 10,
    ensures
        text@ == seq![digit_of(value as nat)],
{
    proof {
        reveal_strlit("0");
        reveal_strlit("1");
        reveal_strlit("2");
        reveal_strlit("3");
        reveal_strlit("4");
        reveal_strlit("5");
        reveal_strlit("6");
        reveal_strlit("7");
        reveal_strlit("8");
        reveal_strlit("9");
    }
    let text = if value == 0 {
        "0"
    } else if value == 1 {
        "1"
    } else if value == 2 {
        "2"
    } else if value == 3 {
        "3"
    } else if value == 4 {
        "4"
    } else if value == 5 {
        "5"
    } else if value == 6 {
        "6"
    } else if value == 7 {
        "7"
    } else if value == 8 {
        "8"
    } else {
        "9"
    };
    text
}

/// `number` in base ten.
fn number_text(number: usize) -> (text: String)
    ensures
        text@ == digits_of(number as nat),
    decreases number,
{
    if number < 10 {
        digit_text(number).to_owned()
    } else {
        let text = number_text(number / 10).concat(digit_text(number % 10));
        text
    }
}

/// What is said of a fault in the field `field` of the row `row`.
fn field_text(row: usize, field: &String, fault: &str) -> (text: String)
    ensures
        text@ == field_message(row as int, field@, fault@),
{
    let number = number_text(row);
    "row ".to_owned().concat(number.as_str()).concat(", field '").concat(field.as_str()).concat(
        "': ",
    ).concat(fault)
}

impl ImportError {
    /// The message of the error, for a reader.
    pub fn message(&self) -> (text: String)
        ensures
            text@ == message_of(self@),
    {
        match self {
            ImportError::Csv(text) => text.clone(),
            ImportError::MissingField { row, field } => field_text(*row, field, "no such field"),
            ImportError::EmptyField { row, field } => field_text(
                *row,
                field,
                "the field is empty",
            ),
            ImportError::InvalidDecimal { row, field } => field_text(
                *row,
                field,
                "not a decimal number",
            ),
            ImportError::InvalidDate { row, field } => field_text(*row, field, "not a date"),
            ImportError::InvalidExceptionType { row, field } => field_text(
                *row,
                field,
                "not an exception type",
            ),
            ImportError::Projection { row } => {
                let number = number_text(*row);
                "row ".to_owned().concat(number.as_str()).concat(
                    ": the coordinate cannot be projected",
                )
            },
            ImportError::DuplicateIdentifier(id) => "identifier '".to_owned().concat(
                id.as_str(),
            ).concat("' already found"),
            ImportError::UnresolvedReference(id) =>
                "Failed to find the corresponding StopArea for the StopPoint '".to_owned().concat(
                    id.as_str(),
                ).concat("'"),
        }
    }
}

} // verus!
