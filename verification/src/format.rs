//! The optional formatting step. Running a formatter is the caller's
//! business; what is emitted once the formatter has answered is decided
//! here.
use vstd::prelude::*;

verus! {

/// What the caller's formatter answered.
#[derive(Clone, Debug, PartialEq, Eq)]
pub enum FormatterReply {
    /// The formatter ran and returned this text.
    Formatted(String),
    /// There is no formatter to run.
    Unavailable,
    /// The formatter ran and failed.
    Failed,
}

/// How the emitted text came about. Only `Formatted` says that the text
/// went through the formatter.
#[derive(Clone, Copy, Debug, PartialEq, Eq)]
pub enum FormatStatus {
    /// Formatting was not asked for.
    Raw,
    /// The text is the formatter's.
    Formatted,
    /// Formatting was asked for and there was no formatter.
    FormatterUnavailable,
    /// Formatting was asked for and the formatter failed.
    FormatterFailure,
}

/// The text to hand out, and how it came about.
#[derive(Clone, Debug, PartialEq, Eq)]
pub struct Emission {
    pub text: String,
    pub status: FormatStatus,
}

pub enum FormatterReplyView {
    Formatted(Seq<char>),
    Unavailable,
    Failed,
}

pub struct EmissionView {
    pub text: Seq<char>,
    pub status: FormatStatus,
}

impl View for FormatterReply {
    type V = FormatterReplyView;

    open spec fn view(&self) -> FormatterReplyView {
        match self {
            FormatterReply::Formatted(text) => FormatterReplyView::Formatted(text@),
            FormatterReply::Unavailable => FormatterReplyView::Unavailable,
            FormatterReply::Failed => FormatterReplyView::Failed,
        }
    }
}

impl View for Emission {
    type V = EmissionView;

    open spec fn view(&self) -> EmissionView {
        EmissionView { text: self.text@, status: self.status }
    }
}

/// The emission for a raw text and the formatter's reply, `None` where
/// formatting was not asked for. Without a formatted text the raw text is
/// emitted unchanged, and the status says why.
pub open spec fn spec_settle(raw: Seq<char>, reply: Option<FormatterReplyView>) -> EmissionView {
    match reply {
        None => EmissionView { text: raw, status: FormatStatus::Raw },
        Some(FormatterReplyView::Formatted(text)) => EmissionView {
            text,
            status: FormatStatus::Formatted,
        },
        Some(FormatterReplyView::Unavailable) => EmissionView {
            text: raw,
            status: FormatStatus::FormatterUnavailable,
        },
        Some(FormatterReplyView::Failed) => EmissionView {
            text: raw,
            status: FormatStatus::FormatterFailure,
        },
    }
}

/// The view of an optional reply.
pub open spec fn reply_view(reply: Option<FormatterReply>) -> Option<FormatterReplyView> {
    match reply {
        Some(reply) => Some(reply@),
        None => None,
    }
}

/// Decides what is emitted: the formatter's text where there is one, the
/// raw text otherwise.
pub fn settle(raw: String, reply: Option<FormatterReply>) -> (r: Emission)
    ensures
        r@ == spec_settle(raw@, reply_view(reply)),
{
    match reply {
        None => Emission { text: raw, status: FormatStatus::Raw },
        Some(FormatterReply::Formatted(text)) => Emission { text, status: FormatStatus::Formatted },
        Some(FormatterReply::Unavailable) => Emission {
            text: raw,
            status: FormatStatus::FormatterUnavailable,
        },
        Some(FormatterReply::Failed) => Emission {
            text: raw,
            status: FormatStatus::FormatterFailure,
        },
    }
}

/// The text emitted when the formatter `f` answers with its text.
pub open spec fn spec_formatted(f: spec_fn(Seq<char>) -> Seq<char>, raw: Seq<char>) -> Seq<char> {
    spec_settle(raw, Some(FormatterReplyView::Formatted(f(raw)))).text
}

/// Formatting text that is already formatted changes nothing, for every
/// formatter that is itself idempotent.
pub proof fn formatting_is_idempotent(f: spec_fn(Seq<char>) -> Seq<char>, raw: Seq<char>)
    requires
        forall|text: Seq<char>| #[trigger] f(f(text)) == f(text),
    ensures
        spec_formatted(f, spec_formatted(f, raw)) == spec_formatted(f, raw),
{
}

/// Without a formatted reply the raw text is emitted, byte for byte.
pub proof fn unformatted_emission_is_raw(raw: Seq<char>, reply: Option<FormatterReplyView>)
    requires
        !(reply matches Some(FormatterReplyView::Formatted(_))),
    ensures
        spec_settle(raw, reply).text == raw,
        spec_settle(raw, reply).status != FormatStatus::Formatted,
{
}

} // verus!
