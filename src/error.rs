use vstd::prelude::*;

verus! {

#[verifier::external_type_specification]
#[verifier::external_body]
pub struct ExParseError(url::ParseError);

#[verifier::external_type_specification]
#[verifier::external_body]
pub struct ExSystemTimeError(std::time::SystemTimeError);

/// The result of the fallible operations of this library.
pub type Result<T> = std::result::Result<T, Error>;

/// Every way in which building, parsing or reading the clock can fail.
#[derive(Debug)]
pub enum Error {
    /// The text is not unpadded base32, or a URI carried no secret.
    Secret(String),
    /// The issuer of the label and the `issuer` parameter differ (label, parameter).
    IssuerMismatch(String, String),
    /// The issuer holds a colon.
    Issuer(String),
    /// The `period` parameter is not a number.
    Step(String),
    /// The `digits` parameter is not a number.
    Digits(String),
    /// The `algorithm` parameter names no known algorithm.
    Algorithm(String),
    /// The account name holds a colon or cannot be percent-decoded.
    AccountName(String),
    /// The issuer of the label cannot be percent-decoded.
    IssuerDecoding(String),
    /// The host of the URI is not `totp`.
    Host(String),
    /// The scheme of the URI is not `otpauth`.
    Scheme(String),
    /// The secret is shorter than 128 bits; holds its length in bits.
    SecretTooSmall(usize),
    /// The number of digits is outside 6 to 8.
    InvalidDigits(usize),
    /// The text is not a URI.
    Url(url::ParseError),
    /// The clock stands before the Unix epoch.
    Time(std::time::SystemTimeError),
    /// The first second of the next step, after this time, does not fit in 64 bits.
    Overflow(u64),
}

/// An [`Error`] with its texts seen as character sequences.
pub enum ErrorView {
    Secret(Seq<char>),
    IssuerMismatch(Seq<char>, Seq<char>),
    Issuer(Seq<char>),
    Step(Seq<char>),
    Digits(Seq<char>),
    Algorithm(Seq<char>),
    AccountName(Seq<char>),
    IssuerDecoding(Seq<char>),
    Host(Seq<char>),
    Scheme(Seq<char>),
    SecretTooSmall(usize),
    InvalidDigits(usize),
    Url(url::ParseError),
    Time(std::time::SystemTimeError),
    Overflow(u64),
}

impl View for Error {
    type V = ErrorView;

    open spec fn view(&self) -> ErrorView {
        match self {
            Error::Secret(s) => ErrorView::Secret(s@),
            Error::IssuerMismatch(a, b) => ErrorView::IssuerMismatch(a@, b@),
            Error::Issuer(s) => ErrorView::Issuer(s@),
            Error::Step(s) => ErrorView::Step(s@),
            Error::Digits(s) => ErrorView::Digits(s@),
            Error::Algorithm(s) => ErrorView::Algorithm(s@),
            Error::AccountName(s) => ErrorView::AccountName(s@),
            Error::IssuerDecoding(s) => ErrorView::IssuerDecoding(s@),
            Error::Host(s) => ErrorView::Host(s@),
            Error::Scheme(s) => ErrorView::Scheme(s@),
            Error::SecretTooSmall(n) => ErrorView::SecretTooSmall(*n),
            Error::InvalidDigits(n) => ErrorView::InvalidDigits(*n),
            Error::Url(e) => ErrorView::Url(*e),
            Error::Time(e) => ErrorView::Time(*e),
            Error::Overflow(t) => ErrorView::Overflow(*t),
        }
    }
}

} // verus!
