use hydra::error::{Error, RetryError, TimeoutError};
use hydra::text::Utf8Failure;

fn text(s: &str) -> String {
    String::from(s)
}

#[test]
fn http_errors_name_the_status() {
    let error = Error::Http(text("u"), 500);
    assert_eq!(error.description(), "http status code error");
    assert_eq!(
        error.message(),
        "request GET 'u' failed with HTTP error 500 Internal Server Error"
    );
    assert_eq!(
        Error::Http(text("u"), 799).message(),
        "request GET 'u' failed with HTTP error 799 <unknown status code>"
    );
}

#[test]
fn parse_errors_name_the_file() {
    let error = Error::ParseResponse(text("u"), None, text("eof"));
    assert_eq!(error.description(), "response parse error");
    assert_eq!(error.message(), "response to GET 'u' failed to parse");
    assert_eq!(
        Error::ParseResponse(text("u"), Some(text("/tmp/f")), text("eof")).message(),
        "response to GET 'u' failed to parse (response saved to /tmp/f)"
    );
}

#[test]
fn store_path_errors_name_the_path() {
    let error = Error::ParseStorePath(text("u"), text("p"));
    assert_eq!(error.description(), "store path parse error");
    assert_eq!(
        error.message(),
        "response to GET 'u' contained invalid store path 'p', expected string matching format \
         $(NIX_STORE_DIR)$(HASH)-$(NAME)"
    );
}

#[test]
fn unicode_errors_name_the_byte() {
    let failure = Utf8Failure { valid_up_to: 1, message: text("bad") };
    let error = Error::Unicode(text("u"), vec![65, 200, 66], failure);
    assert_eq!(error.description(), "unicode error");
    assert_eq!(
        error.message(),
        "response to GET 'u' contained invalid unicode byte 200: bad"
    );
}

#[test]
fn decode_errors_name_the_url() {
    let error = Error::Decode(text("u"), text("lzma data error"));
    assert_eq!(error.description(), "decoder error");
    assert_eq!(error.message(), "response to GET 'u' could not be decoded");
}

#[test]
fn encoding_errors_list_the_codings() {
    let error = Error::UnsupportedEncoding(text("u"), None);
    assert_eq!(error.description(), "unsupported content-encoding");
    assert_eq!(
        error.message(),
        "response to GET 'u' had unsupported content-encoding (not present)"
    );
    let codings = Some(vec![text("gzip"), text("br"), text("x")]);
    assert_eq!(
        Error::UnsupportedEncoding(text("u"), codings).message(),
        "response to GET 'u' had unsupported content-encoding (gzip, br, x)"
    );
    assert_eq!(
        Error::UnsupportedEncoding(text("u"), Some(vec![])).message(),
        "response to GET 'u' had unsupported content-encoding ()"
    );
}

#[test]
fn proxy_errors_name_the_url() {
    let error = Error::ParseProxy(text("u"));
    assert_eq!(error.description(), "proxy url parse error");
    assert_eq!(error.message(), "Can not parse the proxy URL (u)");
}

#[test]
fn timer_errors_are_told_apart_from_timeouts() {
    assert_eq!(Error::Timeout.message(), "timeout exceeded");
    assert_eq!(Error::TimerError(text("shutdown")).message(), "timer failure");
    assert_eq!(Error::Timeout.description(), "timeout exceeded");
    assert_eq!(Error::TimerError(text("shutdown")).description(), "timer failure");
}

#[test]
fn errors_of_others_keep_their_message() {
    assert_eq!(Error::Hyper(text("broken pipe"), None).message(), "broken pipe");
    assert_eq!(Error::Url(text("invalid format")).description(), "invalid format");
}

#[test]
fn errors_are_converted() {
    let timer = || Error::TimerError(text("timer is shutdown"));
    assert_eq!(Error::from(TimeoutError(text("timer is shutdown"))), timer());
    assert_eq!(Error::from(RetryError::TimerError(text("timer is shutdown"))), timer());
    assert_eq!(Error::from(RetryError::OperationError(Error::Timeout)), Error::Timeout);
}

#[test]
fn causes_are_kept() {
    assert_eq!(Error::TimerError(text("c")).cause(), Some("c"));
    assert_eq!(Error::Decode(text("u"), text("c")).cause(), Some("c"));
    assert_eq!(Error::ParseResponse(text("u"), None, text("c")).cause(), Some("c"));
    assert_eq!(Error::Hyper(text("m"), Some(text("c"))).cause(), Some("c"));
    assert_eq!(Error::Hyper(text("m"), None).cause(), None);
    assert_eq!(Error::Timeout.cause(), None);
    assert_eq!(Error::Http(text("u"), 500).cause(), None);
}
