//! The closed set of failures that every backend reports.

use vstd::prelude::*;

verus! {

/// The details of an anti-bot challenge.
#[derive(Debug, Clone, PartialEq, Eq)]
pub struct YandexCaptcha {
    /// Address of the challenge image.
    pub img_url: String,
    /// Key that identifies the challenge.
    pub key: String,
    /// Status reported with the challenge.
    pub status: String,
    /// Address of the page on which a person can answer the challenge.
    pub captcha_page: String,
}

/// An anti-bot challenge that a backend sent in place of results.
#[derive(Debug, Clone, PartialEq, Eq)]
pub struct YandexCaptchaUrl {
    /// The kind of response, as the backend names it.
    pub kind: String,
    /// The challenge itself.
    pub captcha: YandexCaptcha,
}

/// Why a lookup failed.
#[derive(Debug, Clone, PartialEq, Eq)]
pub enum Error {
    /// The link does not lead to an image, or its content type is unspecified.
    LinkIsNotImage,
    /// The request address could not be built from its template.
    UnableToFormat,
    /// A header could not be read as text.
    UnableToConvertToString,
    /// A score could not be read as a number.
    UnableToConvertToFloat,
    /// The request did not reach the backend, or no response came back.
    FailedRequest,
    /// The response body does not have the expected JSON shape.
    FailedToParseIntoJson,
    /// The response page lacks a node that the harvest relies on.
    UnableToRetrieve(String),
    /// The backend answered with an anti-bot challenge instead of results.
    CaptchaChallenge(YandexCaptchaUrl),
    /// Any other failure, with the backend's explanation.
    Generic(String),
}

/// Mathematical content of a [`YandexCaptcha`].
pub struct YandexCaptchaView {
    pub img_url: Seq<char>,
    pub key: Seq<char>,
    pub status: Seq<char>,
    pub captcha_page: Seq<char>,
}

/// Mathematical content of a [`YandexCaptchaUrl`].
pub struct YandexCaptchaUrlView {
    pub kind: Seq<char>,
    pub captcha: YandexCaptchaView,
}

/// Mathematical content of an [`Error`].
pub enum ErrorView {
    LinkIsNotImage,
    UnableToFormat,
    UnableToConvertToString,
    UnableToConvertToFloat,
    FailedRequest,
    FailedToParseIntoJson,
    UnableToRetrieve(Seq<char>),
    CaptchaChallenge(YandexCaptchaUrlView),
    Generic(Seq<char>),
}

impl View for YandexCaptcha {
    type V = YandexCaptchaView;

    open spec fn view(&self) -> YandexCaptchaView {
        YandexCaptchaView {
            img_url: self.img_url@,
            key: self.key@,
            status: self.status@,
            captcha_page: self.captcha_page@,
        }
    }
}

impl View for YandexCaptchaUrl {
    type V = YandexCaptchaUrlView;

    open spec fn view(&self) -> YandexCaptchaUrlView {
        YandexCaptchaUrlView { kind: self.kind@, captcha: self.captcha@ }
    }
}

impl View for Error {
    type V = ErrorView;

    open spec fn view(&self) -> ErrorView {
        match self {
            Error::LinkIsNotImage => ErrorView::LinkIsNotImage,
            Error::UnableToFormat => ErrorView::UnableToFormat,
            Error::UnableToConvertToString => ErrorView::UnableToConvertToString,
            Error::UnableToConvertToFloat => ErrorView::UnableToConvertToFloat,
            Error::FailedRequest => ErrorView::FailedRequest,
            Error::FailedToParseIntoJson => ErrorView::FailedToParseIntoJson,
            Error::UnableToRetrieve(reason) => ErrorView::UnableToRetrieve(reason@),
            Error::CaptchaChallenge(challenge) => ErrorView::CaptchaChallenge(challenge@),
            Error::Generic(reason) => ErrorView::Generic(reason@),
        }
    }
}

/// The text that [`Error::message`] gives for each failure.
pub open spec fn message_of(error: ErrorView) -> Seq<char> {
    match error {
        ErrorView::LinkIsNotImage =>
            "The provided link does not lead to an image file, or the Content-Type is unspecified."@,
        ErrorView::UnableToFormat => "unable to format the request address"@,
        ErrorView::UnableToConvertToString => "unable to read a header as text"@,
        ErrorView::UnableToConvertToFloat => "unable to read a score as a number"@,
        ErrorView::FailedRequest => "the request failed"@,
        ErrorView::FailedToParseIntoJson => "the response is not the expected JSON"@,
        ErrorView::UnableToRetrieve(reason) => "unable to retrieve: "@ + reason,
        ErrorView::CaptchaChallenge(challenge) =>
            "stopped by a captcha: "@ + challenge.captcha.captcha_page,
        ErrorView::Generic(reason) => reason,
    }
}

impl Error {
    /// A sentence for people that says what went wrong.
    pub fn message(&self) -> (text: String)
        ensures
            text@ == message_of(self@),
    {
        match self {
            Error::LinkIsNotImage => String::from_str(
                "The provided link does not lead to an image file, or the Content-Type is unspecified.",
            ),
            Error::UnableToFormat => String::from_str("unable to format the request address"),
            Error::UnableToConvertToString => String::from_str("unable to read a header as text"),
            Error::UnableToConvertToFloat => String::from_str("unable to read a score as a number"),
            Error::FailedRequest => String::from_str("the request failed"),
            Error::FailedToParseIntoJson => String::from_str(
                "the response is not the expected JSON",
            ),
            Error::UnableToRetrieve(reason) => String::from_str("unable to retrieve: ").concat(
                reason.as_str(),
            ),
            Error::CaptchaChallenge(challenge) => String::from_str(
                "stopped by a captcha: ",
            ).concat(challenge.captcha.captcha_page.as_str()),
            Error::Generic(reason) => reason.clone(),
        }
    }
}

} // verus!
