//! The failures the library itself can report. I/O failures around it are
//! the caller's to describe.
use vstd::prelude::*;
use vstd::string::*;

verus! {

/// What went wrong inside the library's own logic.
#[derive(Debug, PartialEq, Eq)]
pub enum TldrError {
    /// No official pages root is configured and no platform default cache
    /// location could be determined.
    NoDefaultPagesDir,
    /// A page file without a first line cannot be rendered.
    EmptyPage,
    /// A styling choice other than `auto`, `on` or `off` was requested.
    UnknownStyledChoice(String),
}

/// The mathematical value of an error.
pub enum TldrErrorV {
    NoDefaultPagesDir,
    EmptyPage,
    UnknownStyledChoice(Seq<char>),
}

impl View for TldrError {
    type V = TldrErrorV;

    open spec fn view(&self) -> TldrErrorV {
        match self {
            TldrError::NoDefaultPagesDir => TldrErrorV::NoDefaultPagesDir,
            TldrError::EmptyPage => TldrErrorV::EmptyPage,
            TldrError::UnknownStyledChoice(s) => TldrErrorV::UnknownStyledChoice(s@),
        }
    }
}

/// The text each error prints as.
pub open spec fn error_message_spec(e: TldrErrorV) -> Seq<char> {
    match e {
        TldrErrorV::NoDefaultPagesDir => "Error getting default pages dir!"@,
        TldrErrorV::EmptyPage => "First line must not blank!"@,
        TldrErrorV::UnknownStyledChoice(s) => "Unknown styled choice: "@ + s
            + ". Choice: [auto | on | off]"@,
    }
}

impl TldrError {
    /// A human-readable account of the error.
    pub fn message(&self) -> (r: String)
        ensures
            r@ == error_message_spec(self@),
    {
        match self {
            TldrError::NoDefaultPagesDir => "Error getting default pages dir!".to_owned(),
            TldrError::EmptyPage => "First line must not blank!".to_owned(),
            TldrError::UnknownStyledChoice(s) => {
                let mut out = "Unknown styled choice: ".to_owned();
                out.append(s.as_str());
                out.append(". Choice: [auto | on | off]");
                proof {
                    assert(out@ =~= error_message_spec(self@));
                }
                out
            },
        }
    }
}

} // verus!
