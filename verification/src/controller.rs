//! What can end a run before its time, and how it is told to the user.

use crate::select::NotFound;
use vstd::prelude::*;
use vstd::string::StringExecFns;

verus! {

/// A file that could not be read: its name, and why.
#[derive(Debug, PartialEq, Eq)]
pub struct Unreadable {
    pub filename: String,
    pub cause: String,
}

/// What ended the run.
#[derive(Debug, PartialEq, Eq)]
pub enum ErrorKind {
    /// The environment file could not be read.
    ReadEnvFile(Unreadable),
    /// The snapshot file could not be read.
    ReadSnapshotFile(Unreadable),
    /// The request file does not follow the grammar.
    ParseRequestScript(crate::parser::Error),
    /// The request file could not be read.
    ReadRequestScriptFile(Unreadable),
    /// The script engine failed on a script of the named request file.
    ScriptEngineError(String, crate::script_engine::Error),
    /// No request script holds the line that was asked for.
    RequestNotFound(NotFound),
    /// The request could not be sent, or no response came back.
    HttpClient(String),
    /// A format for the output names a character that stands for nothing.
    InvalidFormat(crate::output::FormatError),
    /// The output could not be written.
    WriteOutput(String),
    /// The snapshot file could not be written.
    WriteSnapshotFile(Unreadable),
}

/// The end of a run before its time.
#[derive(Debug, PartialEq, Eq)]
pub struct Error {
    pub kind: ErrorKind,
}

/// A text without the plus sign that it may begin with.
pub open spec fn unsigned(text: Seq<char>) -> Seq<char> {
    if text.len() > 0 && text[0] == '+' {
        text.skip(1)
    } else {
        text
    }
}

/// Whether a text holds decimal digits and nothing else.
pub open spec fn all_digits(digits: Seq<char>) -> bool {
    forall|i: int| 0 <= i < digits.len() ==> '0' <= #[trigger] digits[i] <= '9'
}

/// Whether a text is a line number: decimal digits, a plus sign before them
/// or none, for a number from 1 up to 2147483647.
pub open spec fn valid_line_number(text: Seq<char>) -> bool {
    &&& unsigned(text).len() > 0
    &&& all_digits(unsigned(text))
    &&& 1 <= number_of(unsigned(text)) <= 2147483647
}

/// The number that decimal digits stand for.
pub open spec fn number_of(digits: Seq<char>) -> nat
    decreases digits.len(),
{
    if digits.len() == 0 {
        0
    } else {
        number_of(digits.drop_last()) * 10 + (digits.last() as nat - '0' as nat) as nat
    }
}

/// The message for a text that is no line number.
pub open spec fn line_number_message() -> Seq<char> {
    "Line number is not a valid integer"@
}

/// Tells whether a text is a line number.
pub fn is_valid_line_number(val: &str) -> (result: Result<(), String>)
    ensures
        valid_line_number(val@) ==> result is Ok,
        !valid_line_number(val@) ==> result is Err && result->Err_0@ == line_number_message(),
{
    let chars = crate::text::to_chars(val);
    let start: usize = if chars.len() > 0 && chars[0] == '+' {
        1
    } else {
        0
    };
    let ghost digits = unsigned(val@);
    if start >= chars.len() {
        return Err("Line number is not a valid integer".to_owned());
    }
    let mut number: u64 = 0;
    let mut i: usize = start;
    assert(digits.take(0) =~= Seq::empty());
    assert(digits =~= val@.skip(start as int));
    while i < chars.len()
        invariant
            start <= i <= chars.len(),
            chars@ == val@,
            digits == val@.skip(start as int),
            digits == unsigned(val@),
            all_digits(digits.take(i - start)),
            number == number_of(digits.take(i - start)),
            number <= 2147483647,
        decreases chars.len() - i,
    {
        let c = chars[i];
        proof {
            assert(digits.take(i - start + 1).drop_last() =~= digits.take(i - start));
            assert(digits.take(i - start + 1).last() == c);
        }
        assert(digits.len() == chars.len() - start);
        assert(digits[i - start] == c);
        if c < '0' || c > '9' {
            assert(!('0' <= digits[i - start] <= '9'));
            return Err("Line number is not a valid integer".to_owned());
        }
        let digit = (c as u32 - '0' as u32) as u64;
        number = number * 10 + digit;
        if number > 2147483647 {
            proof {
                if valid_line_number(val@) {
                    lemma_number_grows(digits, i - start + 1, digits.len() as int);
                    assert(digits.take(digits.len() as int) =~= digits);
                }
            }
            return Err("Line number is not a valid integer".to_owned());
        }
        i += 1;
        assert forall|k: int| 0 <= k < i - start implies '0' <= #[trigger] digits.take(
            i - start,
        )[k] <= '9' by {
            if k < i - start - 1 {
                assert(digits.take(i - start - 1)[k] == digits[k]);
            }
        }
    }
    assert(digits.take(i - start) =~= digits);
    if number == 0 {
        Err("Line number is not a valid integer".to_owned())
    } else {
        Ok(())
    }
}

/// More digits do not make a smaller number.
proof fn lemma_number_grows(digits: Seq<char>, i: int, j: int)
    requires
        0 <= i <= j <= digits.len(),
        all_digits(digits),
    ensures
        number_of(digits.take(i)) <= number_of(digits.take(j)),
    decreases j - i,
{
    if i < j {
        lemma_number_grows(digits, i, j - 1);
        assert(digits.take(j).drop_last() =~= digits.take(j - 1));
    }
}

/// Where a script that failed stands: file name, line and column of its
/// place in a request file; the name of the request file alone for a script
/// that stands in no file.
pub open spec fn place_text(filename: Seq<char>, selection: crate::model::SelectionView) -> Seq<
    char,
> {
    if selection.start.line == 0 {
        filename
    } else {
        selection.text()
    }
}

impl ErrorKind {
    /// The message for the user. An error of the parser or of the script
    /// engine is told with the place that it belongs to.
    pub open spec fn message_text(self) -> Seq<char> {
        match self {
            ErrorKind::ReadEnvFile(file) => "Could not read environment file - "@ + file.filename@
                + ": "@ + file.cause@,
            ErrorKind::ReadSnapshotFile(file) => "Could not read the snapshot file - "@
                + file.filename@ + ": "@ + file.cause@,
            ErrorKind::ParseRequestScript(error) => error.selection@.text() + ": "@
                + error.message@,
            ErrorKind::ReadRequestScriptFile(file) => file.filename@ + ": "@ + file.cause@,
            ErrorKind::ScriptEngineError(filename, error) => place_text(
                filename@,
                error.selection@,
            ) + ": "@ + error.message@,
            ErrorKind::RequestNotFound(error) => error.message_text(),
            ErrorKind::HttpClient(cause) => cause@,
            ErrorKind::InvalidFormat(error) => error.message_text(),
            ErrorKind::WriteOutput(cause) => cause@,
            ErrorKind::WriteSnapshotFile(file) => "Could not write the snapshot file - "@
                + file.filename@ + ": "@ + file.cause@,
        }
    }
}

impl Error {
    /// The message for the user.
    pub fn message(&self) -> (text: String)
        ensures
            text@ == self.kind.message_text(),
    {
        match &self.kind {
            ErrorKind::ReadEnvFile(file) => {
                let mut text = "Could not read environment file - ".to_owned();
                text.append(file.filename.as_str());
                text.append(": ");
                text.append(file.cause.as_str());
                text
            },
            ErrorKind::ReadSnapshotFile(file) => {
                let mut text = "Could not read the snapshot file - ".to_owned();
                text.append(file.filename.as_str());
                text.append(": ");
                text.append(file.cause.as_str());
                text
            },
            ErrorKind::ParseRequestScript(error) => {
                let mut text = error.selection.text();
                text.append(": ");
                text.append(error.message.as_str());
                text
            },
            ErrorKind::ReadRequestScriptFile(file) => {
                let mut text = file.filename.clone();
                text.append(": ");
                text.append(file.cause.as_str());
                text
            },
            ErrorKind::ScriptEngineError(filename, error) => {
                let mut text = if error.selection.start.line == 0 {
                    filename.clone()
                } else {
                    error.selection.text()
                };
                text.append(": ");
                text.append(error.message.as_str());
                text
            },
            ErrorKind::RequestNotFound(error) => error.message(),
            ErrorKind::HttpClient(cause) => cause.clone(),
            ErrorKind::InvalidFormat(error) => error.message(),
            ErrorKind::WriteOutput(cause) => cause.clone(),
            ErrorKind::WriteSnapshotFile(file) => {
                let mut text = "Could not write the snapshot file - ".to_owned();
                text.append(file.filename.as_str());
                text.append(": ");
                text.append(file.cause.as_str());
                text
            },
        }
    }
}

} // verus!
