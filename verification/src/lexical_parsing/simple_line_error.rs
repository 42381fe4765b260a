//! Errors that name the line they arose on.
use vstd::prelude::*;
use crate::util::{decimal_text, nat_to_decimal};

verus! {

/// An error on a line of a file.
#[derive(Debug)]
pub struct SimpleLineError {
    pub description: String,
    pub line_index: usize,
    pub file_name: String,
}

/// The place of a line in messages: the file, and the number of the line,
/// counted from 1.
pub open spec fn line_path(file_name: Seq<char>, line_index: usize) -> Seq<char> {
    file_name + " - Line "@ + decimal_text(line_index + 1)
}

/// The place of a line in messages.
pub fn line_path_text(file_name: &str, line_index: usize) -> (text: String)
    ensures
        text@ == line_path(file_name@, line_index),
{
    let mut text = String::from_str(file_name);
    text.append(" - Line ");
    text.append(nat_to_decimal(line_index as u128 + 1).as_str());
    text
}

impl SimpleLineError {
    /// The text of the error: the place of the line, then the description.
    pub open spec fn text(self) -> Seq<char> {
        line_path(self.file_name@, self.line_index) + ": "@ + self.description@
    }

    /// An error on the line `line_index`, counted from 0, of a file.
    pub fn new(description: String, line_index: usize, file_name: String) -> (error:
        SimpleLineError)
        ensures
            error.description == description,
            error.line_index == line_index,
            error.file_name == file_name,
    {
        SimpleLineError { description, line_index, file_name }
    }

    /// The text of the error.
    pub fn message(&self) -> (text: String)
        ensures
            text@ == self.text(),
    {
        let mut text = line_path_text(self.file_name.as_str(), self.line_index);
        text.append(": ");
        text.append(self.description.as_str());
        text
    }
}

} // verus!
