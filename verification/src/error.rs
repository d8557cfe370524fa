//! The error taxonomy of the parser.
//!
//! Every failure the engine can report is an [`Error`]: a kind out of
//! [`ErrorKind`], a rendered message, and (for value-conversion failures)
//! the underlying cause. The exact message of every constructor is pinned
//! down by a spec-level counterpart, so callers can reason about the full
//! error value, message included.

use vstd::prelude::*;
use vstd::string::StringExecFns;
use crate::strutil::push_char;

verus! {

/// The classification of an [`Error`].
#[derive(Clone, Copy, Debug, PartialEq, Eq, Structural)]
pub enum ErrorKind {
    /// A value was present but failed type conversion.
    ParseFailed,
    /// A short or long identifier is not registered in the schema.
    UnknownSwitch,
    /// A positional token beyond the schema's capacity.
    TooManyPositional,
    /// A required option or positional never received a value.
    MissingRequiredArgument,
    /// A value-bearing switch stood at the end of the stream.
    MissingValue,
    /// A value was attached to a flag.
    UnexpectedValue,
    /// A token could not be interpreted as text.
    InvalidUtf8,
    /// Escape hatch for caller-raised errors.
    Other,
}

/// How a flag or option was addressed on the command line: by its short
/// character or by its long name.
#[derive(Debug)]
pub enum Switch {
    Short(char),
    Long(String),
}

/// Mathematical model of a [`Switch`].
pub enum SwitchView {
    Short(char),
    Long(Seq<char>),
}

impl View for Switch {
    type V = SwitchView;

    open spec fn view(&self) -> SwitchView {
        match self {
            Switch::Short(c) => SwitchView::Short(*c),
            Switch::Long(l) => SwitchView::Long(l@),
        }
    }
}

/// How a switch is written on the command line: `-c` or `--name`.
pub open spec fn spec_render_switch(s: SwitchView) -> Seq<char> {
    match s {
        SwitchView::Short(c) => seq!['-', c],
        SwitchView::Long(l) => seq!['-', '-'] + l,
    }
}

/// Renders a switch the way it is written on the command line.
pub fn render_switch(s: &Switch) -> (r: String)
    ensures
        r@ == spec_render_switch(s@),
{
    let mut out = String::new();
    push_char(&mut out, '-');
    match s {
        Switch::Short(c) => {
            push_char(&mut out, *c);
            proof {
                assert(out@ =~= spec_render_switch(s@));
            }
        }
        Switch::Long(l) => {
            push_char(&mut out, '-');
            out.append(l.as_str());
            proof {
                assert(out@ =~= spec_render_switch(s@));
            }
        }
    }
    out
}

/// Mathematical model of an [`Error`].
pub struct ErrorView {
    pub message: Seq<char>,
    pub kind: ErrorKind,
    pub source: Option<Seq<char>>,
}

/// A parse failure: its kind, a human-readable message, and, for conversion
/// failures, the message of the underlying cause.
#[derive(Debug)]
pub struct Error {
    pub message: String,
    pub kind: ErrorKind,
    pub source: Option<String>,
}

impl View for Error {
    type V = ErrorView;

    open spec fn view(&self) -> ErrorView {
        ErrorView {
            message: self.message@,
            kind: self.kind,
            source: match self.source {
                Some(ref s) => Some(s@),
                None => None,
            },
        }
    }
}

pub open spec fn spec_parse_failed(name: Seq<char>, cause: Seq<char>) -> ErrorView {
    ErrorView {
        message: "Invalid value for '"@ + name + "': "@ + cause,
        kind: ErrorKind::ParseFailed,
        source: Some(cause),
    }
}

pub open spec fn spec_unknown_switch(switch: SwitchView) -> ErrorView {
    ErrorView {
        message: "Did not recognize argument '"@ + spec_render_switch(switch) + "'"@,
        kind: ErrorKind::UnknownSwitch,
        source: None,
    }
}

pub open spec fn spec_too_many_positional(arg: Seq<char>) -> ErrorView {
    ErrorView {
        message: "Too many positional arguments, starting with '"@ + arg + "'"@,
        kind: ErrorKind::TooManyPositional,
        source: None,
    }
}

pub open spec fn spec_missing_required_argument(arg_name: Seq<char>) -> ErrorView {
    ErrorView {
        message: "Missing required argument '"@ + arg_name + "'"@,
        kind: ErrorKind::MissingRequiredArgument,
        source: None,
    }
}

pub open spec fn spec_missing_value(switch: SwitchView) -> ErrorView {
    ErrorView {
        message: "Missing value for '"@ + spec_render_switch(switch) + "'"@,
        kind: ErrorKind::MissingValue,
        source: None,
    }
}

pub open spec fn spec_unexpected_value(switch: SwitchView) -> ErrorView {
    ErrorView {
        message: "Flag '"@ + spec_render_switch(switch) + "' cannot take a value"@,
        kind: ErrorKind::UnexpectedValue,
        source: None,
    }
}

pub open spec fn spec_invalid_utf8() -> ErrorView {
    ErrorView {
        message: "Invalid UTF-8 was detected in one or more arguments"@,
        kind: ErrorKind::InvalidUtf8,
        source: None,
    }
}

pub open spec fn spec_other(message: Seq<char>) -> ErrorView {
    ErrorView { message, kind: ErrorKind::Other, source: None }
}

impl Error {
    pub fn parse_failed(name: &str, cause: String) -> (e: Error)
        ensures
            e@ == spec_parse_failed(name@, cause@),
    {
        let mut message = String::new();
        message.append("Invalid value for '");
        message.append(name);
        message.append("': ");
        message.append(cause.as_str());
        let e = Error { message, kind: ErrorKind::ParseFailed, source: Some(cause) };
        proof {
            assert(e@.message =~= spec_parse_failed(name@, e@.source->0).message);
        }
        e
    }

    pub fn unknown_switch(switch: Switch) -> (e: Error)
        ensures
            e@ == spec_unknown_switch(switch@),
    {
        let mut message = String::new();
        message.append("Did not recognize argument '");
        let rendered = render_switch(&switch);
        message.append(rendered.as_str());
        message.append("'");
        let e = Error { message, kind: ErrorKind::UnknownSwitch, source: None };
        proof {
            assert(e@.message =~= spec_unknown_switch(switch@).message);
        }
        e
    }

    pub fn too_many_positional(arg: &str) -> (e: Error)
        ensures
            e@ == spec_too_many_positional(arg@),
    {
        let mut message = String::new();
        message.append("Too many positional arguments, starting with '");
        message.append(arg);
        message.append("'");
        let e = Error { message, kind: ErrorKind::TooManyPositional, source: None };
        proof {
            assert(e@.message =~= spec_too_many_positional(arg@).message);
        }
        e
    }

    pub fn missing_required_argument(arg_name: &str) -> (e: Error)
        ensures
            e@ == spec_missing_required_argument(arg_name@),
    {
        let mut message = String::new();
        message.append("Missing required argument '");
        message.append(arg_name);
        message.append("'");
        let e = Error { message, kind: ErrorKind::MissingRequiredArgument, source: None };
        proof {
            assert(e@.message =~= spec_missing_required_argument(arg_name@).message);
        }
        e
    }

    pub fn missing_value(switch: Switch) -> (e: Error)
        ensures
            e@ == spec_missing_value(switch@),
    {
        let mut message = String::new();
        message.append("Missing value for '");
        let rendered = render_switch(&switch);
        message.append(rendered.as_str());
        message.append("'");
        let e = Error { message, kind: ErrorKind::MissingValue, source: None };
        proof {
            assert(e@.message =~= spec_missing_value(switch@).message);
        }
        e
    }

    pub fn unexpected_value(switch: Switch) -> (e: Error)
        ensures
            e@ == spec_unexpected_value(switch@),
    {
        let mut message = String::new();
        message.append("Flag '");
        let rendered = render_switch(&switch);
        message.append(rendered.as_str());
        message.append("' cannot take a value");
        let e = Error { message, kind: ErrorKind::UnexpectedValue, source: None };
        proof {
            assert(e@.message =~= spec_unexpected_value(switch@).message);
        }
        e
    }

    pub fn invalid_utf8() -> (e: Error)
        ensures
            e@ == spec_invalid_utf8(),
    {
        let mut message = String::new();
        message.append("Invalid UTF-8 was detected in one or more arguments");
        let e = Error { message, kind: ErrorKind::InvalidUtf8, source: None };
        proof {
            assert(e@.message =~= spec_invalid_utf8().message);
        }
        e
    }

    pub fn other(message: String) -> (e: Error)
        ensures
            e@ == spec_other(message@),
    {
        Error { message, kind: ErrorKind::Other, source: None }
    }
}

} // verus!
