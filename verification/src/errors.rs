//! Error types for the pipeline, with their ghost views and the message
//! texts that the command-line front end prints.

use vstd::prelude::*;

verus! {

/// A fault found while substituting placeholders into a template.
#[derive(Debug)]
pub enum TemplateError {
    /// A `{` was never closed by a `}` before the template ended, or a
    /// second `{` opened inside a placeholder.
    UnmatchedOpen,
    /// A `}` appeared outside any placeholder.
    UnmatchedClose,
    /// A placeholder named a field that the record does not have.
    MissingField(String),
}

/// Ghost view of [`TemplateError`]: the same variants over `Seq<char>`.
pub enum TemplateErrorView {
    UnmatchedOpen,
    UnmatchedClose,
    MissingField(Seq<char>),
}

impl View for TemplateError {
    type V = TemplateErrorView;

    open spec fn view(&self) -> TemplateErrorView {
        match self {
            TemplateError::UnmatchedOpen => TemplateErrorView::UnmatchedOpen,
            TemplateError::UnmatchedClose => TemplateErrorView::UnmatchedClose,
            TemplateError::MissingField(n) => TemplateErrorView::MissingField(n@),
        }
    }
}

/// The message text for a template fault.
pub open spec fn spec_template_message(e: TemplateErrorView) -> Seq<char> {
    match e {
        TemplateErrorView::UnmatchedOpen => "unmatched '{' in template"@,
        TemplateErrorView::UnmatchedClose => "unmatched '}' in template"@,
        TemplateErrorView::MissingField(n) => "unknown field "@ + n,
    }
}

impl TemplateError {
    /// A human-readable description of the fault.
    pub fn message(&self) -> (r: String)
        ensures
            r@ == spec_template_message(self@),
    {
        match self {
            TemplateError::UnmatchedOpen => "unmatched '{' in template".to_owned(),
            TemplateError::UnmatchedClose => "unmatched '}' in template".to_owned(),
            TemplateError::MissingField(n) => {
                let r = "unknown field ".to_owned().concat(n.as_str());
                proof {
                    assert(r@ =~= spec_template_message(self@));
                }
                r
            },
        }
    }
}

/// A failure that aborts the whole run.
#[derive(Debug)]
pub enum Error {
    /// The response body was not a sequence of records; carries the
    /// underlying cause text.
    Parse(String),
    /// A record delivered by the source has no `symbol` field, so it
    /// cannot be indexed; the run fails rather than dropping the record.
    MissingSymbol,
    /// A requested identifier is not in the index; carries the identifier.
    Lookup(String),
    /// The template could not be filled in from a record.
    Format(TemplateError),
}

/// Ghost view of [`Error`]: the same variants over `Seq<char>`.
pub enum ErrorView {
    Parse(Seq<char>),
    MissingSymbol,
    Lookup(Seq<char>),
    Format(TemplateErrorView),
}

impl View for Error {
    type V = ErrorView;

    open spec fn view(&self) -> ErrorView {
        match self {
            Error::Parse(c) => ErrorView::Parse(c@),
            Error::MissingSymbol => ErrorView::MissingSymbol,
            Error::Lookup(n) => ErrorView::Lookup(n@),
            Error::Format(e) => ErrorView::Format(e@),
        }
    }
}

/// The primary message text for a failure.
pub open spec fn spec_message(e: ErrorView) -> Seq<char> {
    match e {
        ErrorView::Parse(_) => "unable to parse API response"@,
        ErrorView::MissingSymbol => "record has no symbol field"@,
        ErrorView::Lookup(n) => "unable to get "@ + n + " value"@,
        ErrorView::Format(_) => "unable to format value"@,
    }
}

/// The underlying cause text, where the failure has one.
pub open spec fn spec_cause(e: ErrorView) -> Option<Seq<char>> {
    match e {
        ErrorView::Parse(c) => Some(c),
        ErrorView::Format(t) => Some(spec_template_message(t)),
        _ => None,
    }
}

impl Error {
    /// A human-readable description of the failure, naming the requested
    /// identifier where one could not be found.
    pub fn message(&self) -> (r: String)
        ensures
            r@ == spec_message(self@),
    {
        match self {
            Error::Parse(_) => "unable to parse API response".to_owned(),
            Error::MissingSymbol => "record has no symbol field".to_owned(),
            Error::Lookup(n) => {
                let r = "unable to get ".to_owned().concat(n.as_str()).concat(" value");
                proof {
                    assert(r@ =~= spec_message(self@));
                }
                r
            },
            Error::Format(_) => "unable to format value".to_owned(),
        }
    }

    /// The underlying cause, printed on a `caused by:` line of its own,
    /// where the failure has one.
    pub fn cause(&self) -> (r: Option<String>)
        ensures
            match r {
                Some(c) => spec_cause(self@) == Some(c@),
                None => spec_cause(self@) is None,
            },
    {
        match self {
            Error::Parse(c) => Some(c.clone()),
            Error::Format(t) => Some(t.message()),
            _ => None,
        }
    }
}

} // verus!
