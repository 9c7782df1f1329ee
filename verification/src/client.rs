//! How requests reach the network: directly or through a proxy.
use crate::error::{Error, ErrorView};
use hyper::Uri;
use std::str::FromStr;
use typed_headers::{Credentials, Error as HeaderError};
use url::{ParseError, Url as ParsedUrl};
use vstd::prelude::*;
use vstd::string::*;

verus! {

/// What parsing `text` as a [`hyper::Uri`] gives: what the URI prints, or what the error prints.
pub uninterp spec fn parsed_uri(text: Seq<char>) -> Result<Seq<char>, Seq<char>>;

/// Calls `from_str` of [`hyper::Uri`] and prints what it returns. Both texts depend on `text` alone.
#[verifier::external_body]
pub(crate) fn parse_uri(text: &str) -> (result: Result<String, String>)
    ensures
        match result {
            Ok(uri) => parsed_uri(text@) == Ok::<_, Seq<char>>(uri@),
            Err(message) => parsed_uri(text@) == Err::<Seq<char>, _>(message@),
        },
{
    Uri::from_str(text).map(|uri| uri.to_string()).map_err(|error| error.to_string())
}

/// A parsed URL, [`url::Url`].
#[verifier::external_type_specification]
#[verifier::external_body]
pub struct ExUrl(ParsedUrl);

/// Why a URL cannot be parsed, [`url::ParseError`].
#[verifier::external_type_specification]
#[verifier::external_body]
pub struct ExParseError(ParseError);

/// The serialization that `url` holds. Everything else about a URL follows from it.
pub uninterp spec fn url_text(url: ParsedUrl) -> Seq<char>;

/// The serialization of the URL that `input` denotes; `None` where it denotes none.
pub uninterp spec fn parsed_url(input: Seq<char>) -> Option<Seq<char>>;

/// [`url::Url::parse`] is a function of its input.
pub assume_specification[ ParsedUrl::parse ](input: &str) -> (result: Result<
    ParsedUrl,
    ParseError,
>)
    ensures
        match result {
            Ok(url) => parsed_url(input@) == Some(url_text(url)),
            Err(_) => parsed_url(input@) is None,
        },
;

/// The user name in the URL with this serialization, percent-encoded; empty where there is none.
pub uninterp spec fn url_username(text: Seq<char>) -> Seq<char>;

/// [`url::Url::username`] is a function of the serialization.
pub assume_specification[ ParsedUrl::username ](url: &ParsedUrl) -> (username: &str)
    ensures
        username@ == url_username(url_text(*url)),
;

/// The password in the URL with this serialization, percent-encoded.
pub uninterp spec fn url_password(text: Seq<char>) -> Option<Seq<char>>;

/// [`url::Url::password`] is a function of the serialization.
pub assume_specification[ ParsedUrl::password ](url: &ParsedUrl) -> (password: Option<&str>)
    ensures
        match password {
            Some(password) => url_password(url_text(*url)) == Some(password@),
            None => url_password(url_text(*url)) is None,
        },
;

/// The serialization of a URL after its user name was removed; `None` where the URL is of a kind that
/// cannot have one.
pub uninterp spec fn url_without_username(text: Seq<char>) -> Option<Seq<char>>;

/// [`url::Url::set_username`] with an empty name. It either fails and does nothing, or leaves a URL
/// without a user name.
pub assume_specification[ ParsedUrl::set_username ](url: &mut ParsedUrl, username: &str) -> (result:
    Result<(), ()>)
    requires
        username@.len() == 0,
    ensures
        match result {
            Ok(_) => url_without_username(url_text(*old(url))) == Some(url_text(*final(url))),
            Err(_) => url_without_username(url_text(*old(url))) is None && url_text(*final(url))
                == url_text(*old(url)),
        },
        result is Ok ==> url_username(url_text(*final(url))).len() == 0,
;

/// The serialization of a URL after its password was removed; `None` where the URL is of a kind that
/// cannot have one.
pub uninterp spec fn url_without_password(text: Seq<char>) -> Option<Seq<char>>;

/// [`url::Url::set_password`] without a password. It either fails and does nothing, or leaves a URL
/// with the same user name and without a password.
pub assume_specification[ ParsedUrl::set_password ](
    url: &mut ParsedUrl,
    password: Option<&str>,
) -> (result: Result<(), ()>)
    requires
        password is None,
    ensures
        match result {
            Ok(_) => url_without_password(url_text(*old(url))) == Some(url_text(*final(url))),
            Err(_) => url_without_password(url_text(*old(url))) is None && url_text(*final(url))
                == url_text(*old(url)),
        },
        result is Ok ==> url_password(url_text(*final(url))) is None && url_username(
            url_text(*final(url)),
        ) == url_username(url_text(*old(url))),
;

/// Prints a [`url::Url`], which gives its serialization.
#[verifier::external_body]
fn url_to_string(url: &ParsedUrl) -> (text: String)
    ensures
        text@ == url_text(*url),
{
    url.to_string()
}

/// Whether `text` holds an ASCII control character.
pub open spec fn has_control(text: Seq<char>) -> bool {
    exists|i: int| 0 <= i < text.len() && (#[trigger] text[i] <= '\u{1f}' || text[i] == '\u{7f}')
}

/// Whether there are Basic credentials for a user and a password: the user holds no `:`, and neither
/// holds a control character.
pub open spec fn basic_is_possible(username: Seq<char>, password: Seq<char>) -> bool {
    !username.contains(':') && !has_control(username) && !has_control(password)
}

/// The token that [`typed_headers::Credentials::basic`] makes of a user and a password.
pub uninterp spec fn basic_token(username: Seq<char>, password: Seq<char>) -> Seq<char>;

/// Basic credentials, in the form that a header has them.
pub open spec fn basic_text(username: Seq<char>, password: Seq<char>) -> Seq<char> {
    "Basic "@ + basic_token(username, password)
}

/// Calls [`typed_headers::Credentials::basic`] and prints the credentials. It fails except where
/// [`basic_is_possible`] holds; the text is the scheme, a space, and a token that is a function of
/// the user and the password.
#[verifier::external_body]
fn basic_credentials(username: &str, password: &str) -> (result: Result<String, HeaderError>)
    ensures
        result is Ok <==> basic_is_possible(username@, password@),
        result matches Ok(text) ==> text@ == "Basic "@ + basic_token(username@, password@),
{
    Credentials::basic(username, password).map(|credentials| credentials.to_string())
}

/// A proxy that all requests go through.
#[derive(Debug, PartialEq, Eq)]
pub struct ProxySettings {
    /// The URI of the proxy, without credentials.
    pub uri: String,
    /// The credentials to authorize with, in the form that a header has them.
    pub authorization: Option<String>,
}

/// What [`ProxySettings`] stand for.
pub struct ProxyView {
    pub uri: Seq<char>,
    pub authorization: Option<Seq<char>>,
}

impl View for ProxySettings {
    type V = ProxyView;

    open spec fn view(&self) -> ProxyView {
        ProxyView {
            uri: self.uri@,
            authorization: match self.authorization {
                Some(authorization) => Some(authorization@),
                None => None,
            },
        }
    }
}

/// The settings for a proxy at `uri`. There is an authorization exactly if there is a user; a
/// password that is missing counts as empty. `None` where there are no credentials for that user.
pub open spec fn settings_for(
    uri: Seq<char>,
    username: Seq<char>,
    password: Option<Seq<char>>,
) -> Option<ProxyView> {
    let password = match password {
        Some(password) => password,
        None => Seq::empty(),
    };
    if username.len() == 0 {
        Some(ProxyView { uri, authorization: None })
    } else if basic_is_possible(username, password) {
        Some(
            ProxyView {
                uri,
                authorization: Some(basic_text(username, password)),
            },
        )
    } else {
        None
    }
}

/// The characters of a string that may be missing.
pub open spec fn text_of(text: Option<&str>) -> Option<Seq<char>> {
    match text {
        Some(text) => Some(text@),
        None => None,
    }
}

impl ProxySettings {
    /// The settings for a proxy at `uri` (see [`settings_for`]).
    pub fn new(uri: String, username: &str, password: Option<&str>) -> (settings: Option<
        ProxySettings,
    >)
        ensures
            match settings {
                Some(settings) => settings_for(uri@, username@, text_of(password)) == Some(
                    settings@,
                ),
                None => settings_for(uri@, username@, text_of(password)) is None,
            },
    {
        if username.is_empty() {
            return Some(ProxySettings { uri, authorization: None });
        }
        let result = match password {
            Some(password) => basic_credentials(username, password),
            None => {
                proof {
                    reveal_strlit("");
                    assert(""@ =~= Seq::<char>::empty());
                }
                basic_credentials(username, "")
            },
        };
        match result {
            Ok(authorization) => Some(ProxySettings { uri, authorization: Some(authorization) }),
            Err(_) => None,
        }
    }
}

/// The URL of a proxy, taken apart.
#[derive(Debug, PartialEq, Eq)]
pub struct ProxyUrl {
    /// The URL without user and password.
    pub text: String,
    pub username: String,
    pub password: Option<String>,
}

/// What a [`ProxyUrl`] stands for.
pub struct ProxyUrlView {
    pub text: Seq<char>,
    pub username: Seq<char>,
    pub password: Option<Seq<char>>,
}

impl View for ProxyUrl {
    type V = ProxyUrlView;

    open spec fn view(&self) -> ProxyUrlView {
        ProxyUrlView {
            text: self.text@,
            username: self.username@,
            password: match self.password {
                Some(password) => Some(password@),
                None => None,
            },
        }
    }
}

/// The URL `proxy_url`, taken apart; `None` where it is not a URL that can have a user.
pub open spec fn split_url(proxy_url: Seq<char>) -> Option<ProxyUrlView> {
    match parsed_url(proxy_url) {
        None => None,
        Some(full) => match url_without_username(full) {
            None => None,
            Some(partial) => match url_without_password(partial) {
                None => None,
                Some(text) => Some(
                    ProxyUrlView {
                        text,
                        username: url_username(full),
                        password: url_password(full),
                    },
                ),
            },
        },
    }
}

impl ProxyUrl {
    /// Takes the URL of a proxy apart (see [`split_url`]). The URL that is left names neither a user
    /// nor a password.
    pub fn parse(proxy_url: &str) -> (result: Option<ProxyUrl>)
        ensures
            match result {
                Some(split) => split_url(proxy_url@) == Some(split@),
                None => split_url(proxy_url@) is None,
            },
            result matches Some(split) ==> url_username(split.text@).len() == 0 && url_password(
                split.text@,
            ) is None,
    {
        let mut url = match ParsedUrl::parse(proxy_url) {
            Ok(url) => url,
            Err(_) => return None,
        };
        let username = url.username().to_owned();
        let password = match url.password() {
            Some(password) => Some(password.to_owned()),
            None => None,
        };
        proof {
            reveal_strlit("");
        }
        if url.set_username("").is_err() {
            return None;
        }
        if url.set_password(None).is_err() {
            return None;
        }
        Some(ProxyUrl { text: url_to_string(&url), username, password })
    }
}

/// How requests are sent.
#[derive(Debug, PartialEq, Eq)]
pub enum Client {
    /// Through a proxy.
    Proxy(ProxySettings),
    /// Directly.
    NoProxy,
}

/// What a [`Client`] stands for.
pub enum ClientView {
    Proxy(ProxyView),
    NoProxy,
}

impl View for Client {
    type V = ClientView;

    open spec fn view(&self) -> ClientView {
        match *self {
            Client::Proxy(settings) => ClientView::Proxy(settings@),
            Client::NoProxy => ClientView::NoProxy,
        }
    }
}

/// The client for a proxy, the URL of which was taken apart, and which is reached at `uri`, if what
/// was left of the URL is a URI.
pub open spec fn through_proxy(
    proxy_url: Seq<char>,
    split: ProxyUrlView,
    uri: Option<Seq<char>>,
) -> Result<ClientView, ErrorView> {
    match uri {
        None => Err(ErrorView::ParseProxy(proxy_url)),
        Some(uri) => match settings_for(uri, split.username, split.password) {
            None => Err(ErrorView::ParseProxy(proxy_url)),
            Some(settings) => Ok(ClientView::Proxy(settings)),
        },
    }
}

/// The client for the proxy that is configured, if one is. The URL of the proxy must be one that can
/// have a user, what is left of it must be a URI, and there must be credentials for the user.
pub open spec fn client_for(http_proxy: Option<String>) -> Result<ClientView, ErrorView> {
    match http_proxy {
        None => Ok(ClientView::NoProxy),
        Some(proxy_url) => match split_url(proxy_url@) {
            None => Err(ErrorView::ParseProxy(proxy_url@)),
            Some(split) => through_proxy(proxy_url@, split, parsed_uri(split.text).ok()),
        },
    }
}

/// Whether what is left of the URL of the proxy names neither a user nor a password.
pub open spec fn names_no_user(http_proxy: Option<String>) -> bool {
    http_proxy matches Some(proxy_url) && split_url(proxy_url@) matches Some(split)
        && url_username(split.text).len() == 0 && url_password(split.text) is None
}

/// What a result of making a client stands for.
pub open spec fn client_result_view(result: Result<Client, Error>) -> Result<
    ClientView,
    ErrorView,
> {
    match result {
        Ok(client) => Ok(client@),
        Err(error) => Err(error@),
    }
}

impl Client {
    /// Makes a client. `http_proxy` is the URL of the proxy to use, if there is one. The URI that a
    /// proxy is reached at names neither a user nor a password.
    pub fn new(http_proxy: Option<String>) -> (result: Result<Client, Error>)
        ensures
            client_result_view(result) == client_for(http_proxy),
            result matches Ok(Client::Proxy(_)) ==> names_no_user(http_proxy),
    {
        let proxy_url = match http_proxy {
            Some(proxy_url) => proxy_url,
            None => return Ok(Client::NoProxy),
        };
        let split = match ProxyUrl::parse(proxy_url.as_str()) {
            Some(split) => split,
            None => return Err(Error::ParseProxy(proxy_url)),
        };
        let parsed = parse_uri(split.text.as_str());
        Client::through(proxy_url, split, parsed)
    }

    /// The client for the proxy at `proxy_url`, given the URL taken apart, and what parsing what is
    /// left of it as a URI gave.
    pub fn through(proxy_url: String, split: ProxyUrl, parsed: Result<String, String>) -> (result:
        Result<Client, Error>)
        ensures
            client_result_view(result) == through_proxy(
                proxy_url@,
                split@,
                match parsed {
                    Ok(uri) => Some(uri@),
                    Err(_) => None,
                },
            ),
    {
        let uri = match parsed {
            Ok(uri) => uri,
            Err(_) => return Err(Error::ParseProxy(proxy_url)),
        };
        let password = match &split.password {
            Some(password) => Some(password.as_str()),
            None => None,
        };
        match ProxySettings::new(uri, split.username.as_str(), password) {
            Some(settings) => Ok(Client::Proxy(settings)),
            None => Err(Error::ParseProxy(proxy_url)),
        }
    }
}

/// Whether Basic credentials can hold `text`: there is no ASCII control character in it.
pub open spec fn is_printable(text: Seq<char>) -> bool {
    forall|i: int| 0 <= i < text.len() ==> #[trigger] text[i] > '\u{1f}' && text[i] != '\u{7f}'
}

/// A user of the proxy is authorized with their name and their password, which is empty where none is
/// given. Without a user there is no authorization. A user for whom there are no credentials is
/// refused.
pub proof fn law_users_are_authorized(
    uri: Seq<char>,
    username: Seq<char>,
    password: Seq<char>,
    some: Option<Seq<char>>,
)
    ensures
        settings_for(uri, Seq::empty(), some) == Some(ProxyView { uri, authorization: None }),
        settings_for(uri, username, None) == settings_for(uri, username, Some(Seq::empty())),
        username.len() > 0 ==> settings_for(uri, username, Some(password)) == (if is_printable(
            username,
        ) && is_printable(password) && !username.contains(':') {
            Some(
                ProxyView {
                    uri,
                    authorization: Some("Basic "@ + basic_token(username, password)),
                },
            )
        } else {
            None
        }),
{
    assert(has_control(username) <==> !is_printable(username));
    assert(has_control(password) <==> !is_printable(password));
}

/// A client goes through the proxy that its URL names: the URI is what is left of the URL without
/// user and password, and the authorization is for the user that the URL names.
pub proof fn law_the_proxy_is_that_of_the_url(
    proxy_url: String,
    full: Seq<char>,
    partial: Seq<char>,
    text: Seq<char>,
    uri: Seq<char>,
)
    requires
        parsed_url(proxy_url@) == Some(full),
        url_without_username(full) == Some(partial),
        url_without_password(partial) == Some(text),
        parsed_uri(text) == Ok::<_, Seq<char>>(uri),
    ensures
        ({
            let username = url_username(full);
            let password = match url_password(full) {
                Some(password) => password,
                None => Seq::empty(),
            };
            let result = client_for(Some(proxy_url));
            &&& username.len() == 0 ==> result == Ok::<_, ErrorView>(
                ClientView::Proxy(ProxyView { uri, authorization: None }),
            )
            &&& username.len() > 0 && is_printable(username) && is_printable(password)
                && !username.contains(':') ==> result == Ok::<_, ErrorView>(
                ClientView::Proxy(
                    ProxyView {
                        uri,
                        authorization: Some("Basic "@ + basic_token(username, password)),
                    },
                ),
            )
            &&& username.len() > 0 && !(is_printable(username) && is_printable(password)
                && !username.contains(':')) ==> result == Err::<ClientView, _>(
                ErrorView::ParseProxy(proxy_url@),
            )
        }),
{
    let password = match url_password(full) {
        Some(password) => password,
        None => Seq::empty(),
    };
    law_users_are_authorized(uri, url_username(full), password, url_password(full));
    if url_username(full).len() == 0 {
        assert(url_username(full) =~= Seq::empty());
    }
}

/// Without a URL there is no proxy. A URL that is none, that cannot have a user, or that leaves no
/// URI is refused, and the error names it.
pub proof fn law_other_proxy_urls_are_refused(
    proxy_url: String,
    full: Seq<char>,
    partial: Seq<char>,
    text: Seq<char>,
)
    ensures
        client_for(None) == Ok::<_, ErrorView>(ClientView::NoProxy),
        parsed_url(proxy_url@) is None ==> client_for(Some(proxy_url)) == Err::<ClientView, _>(
            ErrorView::ParseProxy(proxy_url@),
        ),
        parsed_url(proxy_url@) == Some(full) && url_without_username(full) is None ==> client_for(
            Some(proxy_url),
        ) == Err::<ClientView, _>(ErrorView::ParseProxy(proxy_url@)),
        parsed_url(proxy_url@) == Some(full) && url_without_username(full) == Some(partial)
            && url_without_password(partial) is None ==> client_for(Some(proxy_url)) == Err::<
            ClientView,
            _,
        >(ErrorView::ParseProxy(proxy_url@)),
        parsed_url(proxy_url@) == Some(full) && url_without_username(full) == Some(partial)
            && url_without_password(partial) == Some(text) && parsed_uri(text) is Err
            ==> client_for(Some(proxy_url)) == Err::<ClientView, _>(
            ErrorView::ParseProxy(proxy_url@),
        ),
{
}

/// A URL is taken apart into the user and the password that it names and what is left without them.
pub proof fn law_urls_are_taken_apart(
    proxy_url: Seq<char>,
    full: Seq<char>,
    partial: Seq<char>,
    text: Seq<char>,
)
    requires
        parsed_url(proxy_url) == Some(full),
        url_without_username(full) == Some(partial),
        url_without_password(partial) == Some(text),
    ensures
        split_url(proxy_url) matches Some(split) && split.text == text && split.username
            == url_username(full) && split.password == url_password(full),
{
}

/// The client for a URL that was taken apart is that for its user and password, if there is a URI.
pub proof fn law_parts_of_a_url_are_used(
    proxy_url: Seq<char>,
    split: ProxyUrlView,
    uri: Seq<char>,
)
    ensures
        through_proxy(proxy_url, split, None) == Err::<ClientView, _>(
            ErrorView::ParseProxy(proxy_url),
        ),
        through_proxy(proxy_url, split, Some(uri)) == (match settings_for(
            uri,
            split.username,
            split.password,
        ) {
            Some(settings) => Ok(ClientView::Proxy(settings)),
            None => Err(ErrorView::ParseProxy(proxy_url)),
        }),
{
}

/// Settings, URLs and clients stand for what they hold.
pub proof fn law_clients_are_what_they_hold(
    uri: String,
    authorization: String,
    username: String,
    password: String,
    settings: ProxySettings,
    result: Result<Client, Error>,
    given: &str,
)
    ensures
        (ProxySettings { uri, authorization: None })@ == (ProxyView {
            uri: uri@,
            authorization: None,
        }),
        (ProxySettings { uri, authorization: Some(authorization) })@ == (ProxyView {
            uri: uri@,
            authorization: Some(authorization@),
        }),
        (ProxyUrl { text: uri, username, password: None })@ == (ProxyUrlView {
            text: uri@,
            username: username@,
            password: None,
        }),
        (ProxyUrl { text: uri, username, password: Some(password) })@ == (ProxyUrlView {
            text: uri@,
            username: username@,
            password: Some(password@),
        }),
        Client::NoProxy@ == ClientView::NoProxy,
        Client::Proxy(settings)@ == ClientView::Proxy(settings@),
        client_result_view(result) == (match result {
            Ok(client) => Ok(client@),
            Err(error) => Err(error@),
        }),
        text_of(None) is None,
        text_of(Some(given)) == Some(given@),
{
}

} // verus!
