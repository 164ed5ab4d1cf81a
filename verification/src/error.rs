//! What can go wrong in a synthesis job.

use vstd::prelude::*;
use vstd::string::StringExecFns;

verus! {

/// A failed job: the transport, the query encoder or the audio sink gave up.
/// Each variant carries the failing layer's own message.
#[derive(Debug, PartialEq, Eq)]
pub enum TtsError {
    /// The request could not be sent, or the answer could not be received.
    RequestError(String),
    /// The query string could not be written.
    SerdeError(String),
    /// The audio sink could not be written to.
    IoError(String),
}

/// A `TtsError` with its messages as character sequences.
pub enum TtsErrorView {
    RequestError(Seq<char>),
    SerdeError(Seq<char>),
    IoError(Seq<char>),
}

impl View for TtsError {
    type V = TtsErrorView;

    open spec fn view(&self) -> TtsErrorView {
        match self {
            TtsError::RequestError(m) => TtsErrorView::RequestError(m@),
            TtsError::SerdeError(m) => TtsErrorView::SerdeError(m@),
            TtsError::IoError(m) => TtsErrorView::IoError(m@),
        }
    }
}

impl TtsErrorView {
    /// The failing layer's message.
    pub open spec fn message(self) -> Seq<char> {
        match self {
            TtsErrorView::RequestError(m) => m,
            TtsErrorView::SerdeError(m) => m,
            TtsErrorView::IoError(m) => m,
        }
    }

    /// The words that name the failing layer.
    pub open spec fn prefix(self) -> Seq<char> {
        match self {
            TtsErrorView::RequestError(_) => "Request error: "@,
            TtsErrorView::SerdeError(_) => "Serde error: "@,
            TtsErrorView::IoError(_) => "IO error: "@,
        }
    }

    /// The error in words: the layer, then its message.
    pub open spec fn description(self) -> Seq<char> {
        self.prefix() + self.message()
    }
}

impl TtsError {
    /// The error in words, for a person to read.
    pub fn describe(&self) -> (s: String)
        ensures
            s@ == self@.description(),
    {
        match self {
            TtsError::RequestError(m) => "Request error: ".to_owned().concat(m.as_str()),
            TtsError::SerdeError(m) => "Serde error: ".to_owned().concat(m.as_str()),
            TtsError::IoError(m) => "IO error: ".to_owned().concat(m.as_str()),
        }
    }

    /// The encoder's error as an error of this library, with the encoder's message.
    pub fn from_encoder(e: serde_urlencoded::ser::Error) -> (r: TtsError)
        ensures
            r matches TtsError::SerdeError(m) && vstd::string::to_string_from_display_ensures::<
                serde_urlencoded::ser::Error,
            >(&e, m),
    {
        TtsError::SerdeError(e.to_string())
    }
}

} // verus!
