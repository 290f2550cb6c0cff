use vstd::prelude::*;
use crate::update::updater::Message;

verus! {

/// Every error that may interrupt an update.
#[derive(Debug)]
pub enum Error {
    IO(std::io::Error),
    Path(std::path::StripPrefixError),
    Url(url::ParseError),
    Utf8(std::str::Utf8Error),
    Json(serde_json::Error),
    Reqwest(reqwest::Error),
    /// A progress message could not be delivered; it is kept here.
    MpscSend(Box<Message>),
    Other(String),
}

/// What the library can tell of an error: its kind, and the text of the
/// errors it makes itself.
pub enum ErrorView {
    IO,
    Path,
    Url,
    Utf8,
    Json,
    Reqwest,
    MpscSend,
    Other(Seq<char>),
}

impl View for Error {
    type V = ErrorView;

    open spec fn view(&self) -> ErrorView {
        match self {
            Error::IO(_) => ErrorView::IO,
            Error::Path(_) => ErrorView::Path,
            Error::Url(_) => ErrorView::Url,
            Error::Utf8(_) => ErrorView::Utf8,
            Error::Json(_) => ErrorView::Json,
            Error::Reqwest(_) => ErrorView::Reqwest,
            Error::MpscSend(_) => ErrorView::MpscSend,
            Error::Other(s) => ErrorView::Other(s@),
        }
    }
}

impl From<String> for Error {
    fn from(err: String) -> (e: Self) {
        Error::Other(err)
    }
}

impl vstd::std_specs::convert::FromSpecImpl<String> for Error {
    open spec fn obeys_from_spec() -> bool {
        true
    }

    open spec fn from_spec(err: String) -> Self {
        Error::Other(err)
    }
}

} // verus!
