use vstd::prelude::*;

verus! {

/// Where an error came from.
#[derive(Debug)]
pub enum ErrorSource {
    /// The platform reported it; the text is the platform's description.
    Os(String),
    /// The library found it.
    Custom(String),
}

/// The mathematical value of an [`ErrorSource`].
pub ghost enum ErrorSourceView {
    Os(Seq<char>),
    Custom(Seq<char>),
}

impl View for ErrorSource {
    type V = ErrorSourceView;

    open spec fn view(&self) -> ErrorSourceView {
        match self {
            ErrorSource::Os(text) => ErrorSourceView::Os(text@),
            ErrorSource::Custom(text) => ErrorSourceView::Custom(text@),
        }
    }
}

/// An error of the tray icon.
#[derive(Debug)]
pub struct TrayError {
    pub source: ErrorSource,
}

impl View for TrayError {
    type V = ErrorSourceView;

    open spec fn view(&self) -> ErrorSourceView {
        self.source@
    }
}

impl TrayError {
    /// An error that the library found, with `msg` as its text.
    pub fn custom(msg: &str) -> (error: Self)
        ensures
            error@ == ErrorSourceView::Custom(msg@),
    {
        TrayError { source: ErrorSource::Custom(msg.to_owned()) }
    }

    /// An error that the platform reported, with `description` as its text.
    pub fn os(description: &str) -> (error: Self)
        ensures
            error@ == ErrorSourceView::Os(description@),
    {
        TrayError { source: ErrorSource::Os(description.to_owned()) }
    }

    /// The text of the error.
    pub fn message(&self) -> (text: String)
        ensures
            text@ == match self@ {
                ErrorSourceView::Os(t) => t,
                ErrorSourceView::Custom(t) => t,
            },
    {
        match &self.source {
            ErrorSource::Os(text) => text.clone(),
            ErrorSource::Custom(text) => text.clone(),
        }
    }
}

} // verus!
