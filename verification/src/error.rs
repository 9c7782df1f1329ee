//! What can go wrong, and what is said about it.
use crate::text::{decimal, push_decimal, texts, Utf8Failure};
use hyper::StatusCode;
use vstd::prelude::*;
use vstd::std_specs::convert::FromSpec;
use vstd::string::*;

verus! {

/// Everything that a fetch can fail with.
#[derive(Debug, PartialEq, Eq)]
pub enum Error {
    /// The server answered the request for a URL with this status code.
    Http(String, u16),
    /// The response could not be parsed; the file that it was saved to, if it was saved, and the
    /// cause.
    ParseResponse(String, Option<String>, String),
    /// The response holds a string that is not a store path.
    ParseStorePath(String, String),
    /// The response holds bytes that are not UTF-8.
    Unicode(String, Vec<u8>, Utf8Failure),
    /// The response could not be decompressed; the cause.
    Decode(String, String),
    /// The response is compressed with something else than what is supported.
    UnsupportedEncoding(String, Option<Vec<String>>),
    /// The URL of the proxy cannot be used.
    ParseProxy(String),
    /// A timeout was exceeded.
    Timeout,
    /// The timer failed; the cause.
    TimerError(String),
    /// The HTTP client failed; its message, and the cause, if it has one.
    Hyper(String, Option<String>),
    /// The URL is not one that a request can be sent to; the message of the URI parser.
    Url(String),
}

/// What an [`Error`] stands for.
pub enum ErrorView {
    Http(Seq<char>, u16),
    ParseResponse(Seq<char>, Option<Seq<char>>, Seq<char>),
    ParseStorePath(Seq<char>, Seq<char>),
    Unicode { url: Seq<char>, bytes: Seq<u8>, valid_up_to: int, message: Seq<char> },
    Decode(Seq<char>, Seq<char>),
    UnsupportedEncoding(Seq<char>, Option<Seq<Seq<char>>>),
    ParseProxy(Seq<char>),
    Timeout,
    TimerError(Seq<char>),
    Hyper(Seq<char>, Option<Seq<char>>),
    Url(Seq<char>),
}

impl View for Error {
    type V = ErrorView;

    open spec fn view(&self) -> ErrorView {
        match *self {
            Error::Http(url, code) => ErrorView::Http(url@, code),
            Error::ParseResponse(url, file, cause) => ErrorView::ParseResponse(
                url@,
                match file {
                    Some(file) => Some(file@),
                    None => None,
                },
                cause@,
            ),
            Error::ParseStorePath(url, path) => ErrorView::ParseStorePath(url@, path@),
            Error::Unicode(url, bytes, failure) => ErrorView::Unicode {
                url: url@,
                bytes: bytes@,
                valid_up_to: failure.valid_up_to as int,
                message: failure.message@,
            },
            Error::Decode(url, cause) => ErrorView::Decode(url@, cause@),
            Error::UnsupportedEncoding(url, codings) => ErrorView::UnsupportedEncoding(
                url@,
                match codings {
                    Some(codings) => Some(texts(codings@)),
                    None => None,
                },
            ),
            Error::ParseProxy(url) => ErrorView::ParseProxy(url@),
            Error::Timeout => ErrorView::Timeout,
            Error::TimerError(cause) => ErrorView::TimerError(cause@),
            Error::Hyper(message, cause) => ErrorView::Hyper(
                message@,
                match cause {
                    Some(cause) => Some(cause@),
                    None => None,
                },
            ),
            Error::Url(message) => ErrorView::Url(message@),
        }
    }
}

impl ErrorView {
    /// Status codes have three digits, and the invalid byte is one of the bytes.
    pub open spec fn wf(self) -> bool {
        match self {
            ErrorView::Http(_, code) => 100 <= code < 1000,
            ErrorView::Unicode { bytes, valid_up_to, .. } => 0 <= valid_up_to < bytes.len(),
            _ => true,
        }
    }

    /// The kind of the error, in words.
    pub open spec fn description(self) -> Seq<char> {
        match self {
            ErrorView::Http(..) => "http status code error"@,
            ErrorView::ParseResponse(..) => "response parse error"@,
            ErrorView::ParseStorePath(..) => "store path parse error"@,
            ErrorView::Unicode { .. } => "unicode error"@,
            ErrorView::Decode(..) => "decoder error"@,
            ErrorView::UnsupportedEncoding(..) => "unsupported content-encoding"@,
            ErrorView::ParseProxy(_) => "proxy url parse error"@,
            ErrorView::Timeout => "timeout exceeded"@,
            ErrorView::TimerError(_) => "timer failure"@,
            ErrorView::Hyper(message, _) => message,
            ErrorView::Url(message) => message,
        }
    }

    /// What the error was caused by, as it printed itself.
    pub open spec fn cause(self) -> Option<Seq<char>> {
        match self {
            ErrorView::ParseResponse(_, _, cause) => Some(cause),
            ErrorView::Decode(_, cause) => Some(cause),
            ErrorView::TimerError(cause) => Some(cause),
            ErrorView::Hyper(_, cause) => cause,
            _ => None,
        }
    }

    /// The message for the user.
    pub open spec fn message(self) -> Seq<char> {
        match self {
            ErrorView::Http(url, code) => "request GET '"@ + url + "' failed with HTTP error "@
                + status_text(code),
            ErrorView::ParseResponse(url, file, _) => "response to GET '"@ + url
                + "' failed to parse"@ + (match file {
                Some(file) => " (response saved to "@ + file + ")"@,
                None => Seq::empty(),
            }),
            ErrorView::ParseStorePath(url, path) => "response to GET '"@ + url
                + "' contained invalid store path '"@ + path
                + "', expected string matching format $(NIX_STORE_DIR)$(HASH)-$(NAME)"@,
            ErrorView::Unicode { url, bytes, valid_up_to, message } => "response to GET '"@ + url
                + "' contained invalid unicode byte "@ + decimal(bytes[valid_up_to] as nat) + ": "@
                + message,
            ErrorView::Decode(url, _) => "response to GET '"@ + url + "' could not be decoded"@,
            ErrorView::UnsupportedEncoding(url, codings) => "response to GET '"@ + url
                + "' had unsupported content-encoding ("@ + (match codings {
                Some(codings) => listed(codings),
                None => "not present"@,
            }) + ")"@,
            ErrorView::ParseProxy(url) => "Can not parse the proxy URL ("@ + url + ")"@,
            _ => self.description(),
        }
    }
}

/// The reason that [`hyper::StatusCode`] prints after `code`.
pub uninterp spec fn status_reason(code: u16) -> Seq<char>;

/// A status code in words: its number and its reason.
pub open spec fn status_text(code: u16) -> Seq<char> {
    decimal(code as nat) + " "@ + status_reason(code)
}

/// Makes a [`hyper::StatusCode`] with `StatusCode::from_u16`, which succeeds from 100 to 999, and
/// prints it. The text is the number, a space, and a reason that depends on the code alone.
#[verifier::external_body]
fn format_status(code: u16) -> (text: String)
    requires
        100 <= code < 1000,
    ensures
        text@ == decimal(code as nat) + " "@ + status_reason(code),
{
    StatusCode::from_u16(code).unwrap().to_string()
}

/// Each of `parts` with a comma and a space before it.
pub open spec fn with_commas(parts: Seq<Seq<char>>) -> Seq<char>
    decreases parts.len(),
{
    if parts.len() == 0 {
        Seq::empty()
    } else {
        with_commas(parts.drop_last()) + (", "@ + parts.last())
    }
}

/// `parts` with a comma and a space between them.
pub open spec fn listed(parts: Seq<Seq<char>>) -> Seq<char> {
    if parts.len() == 0 {
        Seq::empty()
    } else {
        parts[0] + with_commas(parts.drop_first())
    }
}

/// Appends `parts` with a comma and a space between them.
pub(crate) fn push_list(out: &mut String, parts: &Vec<String>)
    ensures
        final(out)@ == old(out)@ + listed(texts(parts@)),
{
    let ghost before = out@;
    if parts.len() == 0 {
        assert(out@ =~= before + listed(texts(parts@)));
        return ;
    }
    out.append(parts[0].as_str());
    let ghost all = texts(parts@);
    let ghost rest = all.drop_first();
    assert(out@ =~= before + (all[0] + with_commas(rest.take(0))));
    let mut i: usize = 1;
    while i < parts.len()
        invariant
            1 <= i <= parts.len(),
            all == texts(parts@),
            rest == all.drop_first(),
            out@ == before + (all[0] + with_commas(rest.take(i - 1))),
        decreases parts.len() - i,
    {
        out.append(", ");
        out.append(parts[i].as_str());
        proof {
            assert(rest.take(i as int).drop_last() == rest.take(i - 1));
            assert(rest.take(i as int).last() == parts@[i as int]@);
            assert(out@ =~= before + (all[0] + with_commas(rest.take(i as int))));
        }
        i += 1;
    }
    assert(rest.take(parts.len() - 1) == rest);
}

impl Error {
    /// The kind of the error, in words.
    pub fn description(&self) -> (text: &str)
        ensures
            text@ == self@.description(),
    {
        match self {
            Error::Http(..) => "http status code error",
            Error::ParseResponse(..) => "response parse error",
            Error::ParseStorePath(..) => "store path parse error",
            Error::Unicode(..) => "unicode error",
            Error::Decode(..) => "decoder error",
            Error::UnsupportedEncoding(..) => "unsupported content-encoding",
            Error::ParseProxy(_) => "proxy url parse error",
            Error::Timeout => "timeout exceeded",
            Error::TimerError(_) => "timer failure",
            Error::Hyper(message, _) => message.as_str(),
            Error::Url(message) => message.as_str(),
        }
    }

    /// What the error was caused by, as it printed itself.
    pub fn cause(&self) -> (cause: Option<&str>)
        ensures
            match cause {
                Some(cause) => self@.cause() == Some(cause@),
                None => self@.cause() is None,
            },
    {
        match self {
            Error::ParseResponse(_, _, cause) => Some(cause.as_str()),
            Error::Decode(_, cause) => Some(cause.as_str()),
            Error::TimerError(cause) => Some(cause.as_str()),
            Error::Hyper(_, Some(cause)) => Some(cause.as_str()),
            _ => None,
        }
    }

    /// The message for the user.
    pub fn message(&self) -> (text: String)
        requires
            self@.wf(),
        ensures
            text@ == self@.message(),
    {
        let mut out = String::new();
        match self {
            Error::Http(url, code) => {
                out.append("request GET '");
                out.append(url.as_str());
                out.append("' failed with HTTP error ");
                out.append(format_status(*code).as_str());
            },
            Error::ParseResponse(url, file, _) => {
                out.append("response to GET '");
                out.append(url.as_str());
                out.append("' failed to parse");
                match file {
                    Some(file) => {
                        out.append(" (response saved to ");
                        out.append(file.as_str());
                        out.append(")");
                    },
                    None => {},
                }
            },
            Error::ParseStorePath(url, path) => {
                out.append("response to GET '");
                out.append(url.as_str());
                out.append("' contained invalid store path '");
                out.append(path.as_str());
                out.append("', expected string matching format $(NIX_STORE_DIR)$(HASH)-$(NAME)");
            },
            Error::Unicode(url, bytes, failure) => {
                out.append("response to GET '");
                out.append(url.as_str());
                out.append("' contained invalid unicode byte ");
                push_decimal(&mut out, bytes[failure.valid_up_to] as u64);
                out.append(": ");
                out.append(failure.message.as_str());
            },
            Error::Decode(url, _) => {
                out.append("response to GET '");
                out.append(url.as_str());
                out.append("' could not be decoded");
            },
            Error::UnsupportedEncoding(url, codings) => {
                out.append("response to GET '");
                out.append(url.as_str());
                out.append("' had unsupported content-encoding (");
                match codings {
                    Some(codings) => push_list(&mut out, codings),
                    None => out.append("not present"),
                }
                out.append(")");
            },
            Error::ParseProxy(url) => {
                out.append("Can not parse the proxy URL (");
                out.append(url.as_str());
                out.append(")");
            },
            _ => out.append(self.description()),
        }
        assert(out@ =~= self@.message());
        out
    }
}

/// A failure of the timer that watches over a timeout, as it printed itself.
#[derive(Debug, PartialEq, Eq)]
pub struct TimeoutError(pub String);

impl From<TimeoutError> for Error {
    fn from(error: TimeoutError) -> (converted: Error) {
        Error::TimerError(error.0)
    }
}

impl vstd::std_specs::convert::FromSpecImpl<TimeoutError> for Error {
    open spec fn obeys_from_spec() -> bool {
        true
    }

    open spec fn from_spec(error: TimeoutError) -> Error {
        Error::TimerError(error.0)
    }
}

/// How a series of attempts ends without success.
#[derive(Debug, PartialEq, Eq)]
pub enum RetryError {
    /// The timer that separates the attempts failed; its error, as it printed itself.
    TimerError(String),
    /// The last attempt failed.
    OperationError(Error),
}

impl From<RetryError> for Error {
    fn from(error: RetryError) -> (converted: Error) {
        match error {
            RetryError::TimerError(cause) => Error::TimerError(cause),
            RetryError::OperationError(error) => error,
        }
    }
}

impl vstd::std_specs::convert::FromSpecImpl<RetryError> for Error {
    open spec fn obeys_from_spec() -> bool {
        true
    }

    open spec fn from_spec(error: RetryError) -> Error {
        match error {
            RetryError::TimerError(cause) => Error::TimerError(cause),
            RetryError::OperationError(error) => error,
        }
    }
}

/// Each message quotes what the error is about, in full.
pub proof fn law_messages_quote_the_facts(
    url: Seq<char>,
    code: u16,
    text: Seq<char>,
    cause: Seq<char>,
    bytes: Seq<u8>,
    position: int,
    codings: Seq<Seq<char>>,
)
    ensures
        ErrorView::Http(url, code).message() == "request GET '"@ + url
            + "' failed with HTTP error "@ + decimal(code as nat) + " "@ + status_reason(code),
        ErrorView::ParseResponse(url, None, cause).message() == "response to GET '"@ + url
            + "' failed to parse"@,
        ErrorView::ParseResponse(url, Some(text), cause).message() == "response to GET '"@ + url
            + "' failed to parse"@ + " (response saved to "@ + text + ")"@,
        ErrorView::ParseStorePath(url, text).message() == "response to GET '"@ + url
            + "' contained invalid store path '"@ + text
            + "', expected string matching format $(NIX_STORE_DIR)$(HASH)-$(NAME)"@,
        0 <= position < bytes.len() ==> (ErrorView::Unicode {
            url,
            bytes,
            valid_up_to: position,
            message: text,
        }).message() == "response to GET '"@ + url + "' contained invalid unicode byte "@ + decimal(
            bytes[position] as nat,
        ) + ": "@ + text,
        ErrorView::Decode(url, cause).message() == "response to GET '"@ + url
            + "' could not be decoded"@,
        ErrorView::UnsupportedEncoding(url, None).message() == "response to GET '"@ + url
            + "' had unsupported content-encoding (not present)"@,
        ErrorView::UnsupportedEncoding(url, Some(codings)).message() == "response to GET '"@ + url
            + "' had unsupported content-encoding ("@ + listed(codings) + ")"@,
        ErrorView::ParseProxy(url).message() == "Can not parse the proxy URL ("@ + url + ")"@,
        ErrorView::Timeout.message() == "timeout exceeded"@,
        ErrorView::TimerError(cause).message() == "timer failure"@,
        ErrorView::Hyper(text, Some(cause)).message() == text,
        ErrorView::Hyper(text, None).message() == text,
        ErrorView::Url(text).message() == text,
{
    let saved = ErrorView::ParseResponse(url, Some(text), cause).message();
    assert(saved =~= "response to GET '"@ + url + "' failed to parse"@ + " (response saved to "@
        + text + ")"@);
    let unsaved = ErrorView::ParseResponse(url, None, cause).message();
    assert(unsaved =~= "response to GET '"@ + url + "' failed to parse"@);
    let status = ErrorView::Http(url, code).message();
    assert(status =~= "request GET '"@ + url + "' failed with HTTP error "@ + decimal(code as nat)
        + " "@ + status_reason(code));
    let absent = ErrorView::UnsupportedEncoding(url, None).message();
    reveal_strlit("' had unsupported content-encoding (not present)");
    reveal_strlit("' had unsupported content-encoding (");
    reveal_strlit("not present");
    reveal_strlit(")");
    assert(absent =~= "response to GET '"@ + url
        + "' had unsupported content-encoding (not present)"@);
}

/// A list is its parts with a comma and a space between them.
pub proof fn law_lists_are_joined(parts: Seq<Seq<char>>, part: Seq<char>)
    ensures
        listed(Seq::empty()) == Seq::<char>::empty(),
        listed(seq![part]) == part,
        parts.len() > 0 ==> listed(parts.push(part)) == listed(parts) + ", "@ + part,
{
    assert(seq![part].drop_first() =~= Seq::empty());
    assert(listed(seq![part]) =~= part);
    if parts.len() > 0 {
        let all = parts.push(part);
        assert(all.drop_first() =~= parts.drop_first().push(part));
        assert(all.drop_first().drop_last() =~= parts.drop_first());
        assert(all.drop_first().last() == part);
        assert(listed(all) =~= listed(parts) + ", "@ + part);
    }
}

/// An error has a cause exactly where something else failed before it, and then that is the cause.
pub proof fn law_causes_are_kept(error: ErrorView)
    ensures
        error.cause() == (match error {
            ErrorView::ParseResponse(_, _, cause) => Some(cause),
            ErrorView::Decode(_, cause) => Some(cause),
            ErrorView::TimerError(cause) => Some(cause),
            ErrorView::Hyper(_, cause) => cause,
            _ => None,
        }),
{
}

/// The description tells the kind of an error; where something else failed, it is what that said.
pub proof fn law_descriptions_tell_the_kind(
    url: Seq<char>,
    code: u16,
    text: Seq<char>,
    cause: Seq<char>,
)
    ensures
        ErrorView::Http(url, code).description() == "http status code error"@,
        ErrorView::ParseResponse(url, None, cause).description() == "response parse error"@,
        ErrorView::ParseStorePath(url, text).description() == "store path parse error"@,
        (ErrorView::Unicode {
            url,
            bytes: Seq::empty(),
            valid_up_to: 0,
            message: text,
        }).description() == "unicode error"@,
        ErrorView::Decode(url, cause).description() == "decoder error"@,
        ErrorView::UnsupportedEncoding(url, None).description() == "unsupported content-encoding"@,
        ErrorView::ParseProxy(url).description() == "proxy url parse error"@,
        ErrorView::Timeout.description() == ErrorView::Timeout.message(),
        ErrorView::TimerError(cause).description() == ErrorView::TimerError(cause).message(),
        ErrorView::Hyper(text, None).description() == text,
        ErrorView::Url(text).description() == text,
{
}

/// An error stands for what it holds.
pub proof fn law_errors_are_what_they_hold(error: Error)
    ensures
        match error {
            Error::Http(url, code) => error@ == ErrorView::Http(url@, code),
            Error::ParseResponse(url, None, cause) => error@ == ErrorView::ParseResponse(
                url@,
                None,
                cause@,
            ),
            Error::ParseResponse(url, Some(file), cause) => error@ == ErrorView::ParseResponse(
                url@,
                Some(file@),
                cause@,
            ),
            Error::ParseStorePath(url, path) => error@ == ErrorView::ParseStorePath(url@, path@),
            Error::Unicode(url, bytes, failure) => error@ == (ErrorView::Unicode {
                url: url@,
                bytes: bytes@,
                valid_up_to: failure.valid_up_to as int,
                message: failure.message@,
            }),
            Error::Decode(url, cause) => error@ == ErrorView::Decode(url@, cause@),
            Error::UnsupportedEncoding(url, None) => error@ == ErrorView::UnsupportedEncoding(
                url@,
                None,
            ),
            Error::UnsupportedEncoding(url, Some(list)) => error@
                == ErrorView::UnsupportedEncoding(url@, Some(list@.map_values(|s: String| s@))),
            Error::ParseProxy(url) => error@ == ErrorView::ParseProxy(url@),
            Error::Timeout => error@ == ErrorView::Timeout,
            Error::TimerError(cause) => error@ == ErrorView::TimerError(cause@),
            Error::Hyper(message, None) => error@ == ErrorView::Hyper(message@, None),
            Error::Hyper(message, Some(cause)) => error@ == ErrorView::Hyper(
                message@,
                Some(cause@),
            ),
            Error::Url(message) => error@ == ErrorView::Url(message@),
        },
{
}

/// A failure of a timer becomes an error with that failure as its cause, and the failure of the last
/// attempt of a series becomes the error of the series, as it is.
pub proof fn law_conversions_lose_nothing(timeout: TimeoutError, cause: String, error: Error)
    ensures
        <Error as FromSpec<TimeoutError>>::from_spec(timeout) == Error::TimerError(timeout.0),
        <Error as FromSpec<RetryError>>::from_spec(RetryError::TimerError(cause))
            == Error::TimerError(cause),
        <Error as FromSpec<RetryError>>::from_spec(RetryError::OperationError(error)) == error,
{
}

} // verus!
