//! What to ask a binary cache for, and what to make of its answers.
//!
//! There are two questions: [`Fetcher::fetch_references`] gets the references of a store path from its
//! narinfo, and [`Fetcher::fetch_files`] gets the listing of the files in a store path.
use crate::client::{
    basic_token, client_for, is_printable, law_the_proxy_is_that_of_the_url, names_no_user,
    parsed_uri, parsed_url, url_password, url_username, url_without_password,
    url_without_username, Client, ClientView,
};
use crate::encoding::{decoded, encoding_for, ContentCodingsView, SupportedEncoding};
use crate::error::{Error, ErrorView};
use crate::fetch::{fetched, is_success, law_plain_body_is_its_bytes, law_status_decides};
use crate::narinfo::{narinfo, parse_narinfo, paths_view, Narinfo, NarinfoView};
use crate::package::{law_a_path_needs_a_dash, parsed_path, StorePath, StorePathView};
use crate::text::{
    decimal, decimal_padded, law_padding_keeps_the_number, push_decimal, push_decimal_padded,
};
use crate::written::{is_blank, is_word, law_written_narinfo_is_read_back, written};
use vstd::prelude::*;
use vstd::string::*;

verus! {

/// Everything that asking a binary cache takes: how to reach it, and where it is.
///
/// A single fetcher should make all requests.
#[derive(Debug, PartialEq, Eq)]
pub struct Fetcher {
    client: Client,
    cache_url: String,
}

/// What a [`Fetcher`] stands for.
pub struct FetcherView {
    pub client: ClientView,
    pub cache_url: Seq<char>,
}

impl View for Fetcher {
    type V = FetcherView;

    closed spec fn view(&self) -> FetcherView {
        FetcherView { client: self.client@, cache_url: self.cache_url@ }
    }
}

/// The fetcher for a cache and the proxy that is configured, if one is.
pub open spec fn fetcher_for(cache_url: Seq<char>, http_proxy: Option<String>) -> Result<
    FetcherView,
    ErrorView,
> {
    match client_for(http_proxy) {
        Ok(client) => Ok(FetcherView { client, cache_url }),
        Err(error) => Err(error),
    }
}

/// What a result of making a fetcher stands for.
pub open spec fn fetcher_result_view(result: Result<Fetcher, Error>) -> Result<
    FetcherView,
    ErrorView,
> {
    match result {
        Ok(fetcher) => Ok(fetcher@),
        Err(error) => Err(error@),
    }
}

/// Something to fetch.
#[derive(Debug, PartialEq, Eq)]
pub struct FetchRequest {
    pub url: String,
    /// How the response is compressed, where its header fields do not tell.
    pub encoding: Option<SupportedEncoding>,
}

/// What a [`FetchRequest`] stands for.
pub struct FetchRequestView {
    pub url: Seq<char>,
    pub encoding: Option<SupportedEncoding>,
}

impl View for FetchRequest {
    type V = FetchRequestView;

    open spec fn view(&self) -> FetchRequestView {
        FetchRequestView { url: self.url@, encoding: self.encoding }
    }
}

/// The URL of what a cache holds about a hash under a suffix.
pub open spec fn cache_entry(cache_url: Seq<char>, hash: Seq<char>, suffix: Seq<char>) -> Seq<
    char,
> {
    cache_url + "/"@ + hash + suffix
}

fn entry_url(cache_url: &str, hash: &str, suffix: &str) -> (url: String)
    ensures
        url@ == cache_entry(cache_url@, hash@, suffix@),
{
    let mut url = String::new();
    url.append(cache_url);
    url.append("/");
    url.append(hash);
    url.append(suffix);
    assert(url@ =~= cache_entry(cache_url@, hash@, suffix@));
    url
}

/// The references of a store path, on their way.
#[derive(Debug, PartialEq, Eq)]
pub struct ReferencesFetch {
    path: StorePath,
}

impl View for ReferencesFetch {
    type V = StorePathView;

    /// The path that was asked for.
    closed spec fn view(&self) -> StorePathView {
        self.path@
    }
}

/// A store path and its references.
pub struct ReferencesView {
    pub path: StorePathView,
    pub references: Option<Seq<StorePathView>>,
}

/// What the content of a narinfo, if there is one, says about `path`. Without a narinfo there are no
/// references, and the path stays as it is.
pub open spec fn references(url: Seq<char>, path: StorePathView, data: Option<Seq<u8>>) -> Result<
    ReferencesView,
    ErrorView,
> {
    match data {
        None => Ok(ReferencesView { path, references: None }),
        Some(data) => match narinfo(url, path, data) {
            Err(error) => Err(error),
            Ok(info) => Ok(
                ReferencesView { path: info.path, references: Some(info.references) },
            ),
        },
    }
}

/// What a store path and its references stand for.
pub open spec fn references_view(
    result: Result<(StorePath, Option<Vec<StorePath>>), Error>,
) -> Result<ReferencesView, ErrorView> {
    match result {
        Ok((path, references)) => Ok(
            ReferencesView {
                path: path@,
                references: match references {
                    Some(references) => Some(paths_view(references@)),
                    None => None,
                },
            },
        ),
        Err(error) => Err(error@),
    }
}

/// The bytes that were received, if any were.
pub open spec fn data_view(data: Option<Vec<u8>>) -> Option<Seq<u8>> {
    match data {
        Some(data) => Some(data@),
        None => None,
    }
}

impl ReferencesFetch {
    /// Reads what was received from `url` (see [`references`]).
    pub fn received(self, url: &String, data: Option<Vec<u8>>) -> (result: Result<
        (StorePath, Option<Vec<StorePath>>),
        Error,
    >)
        ensures
            references(url@, self@, data_view(data)) == references_view(result),
            result matches Err(error) ==> error@.wf(),
            data matches Some(bytes) ==> (match narinfo(url@, self@, bytes@) {
                Ok(info) => result matches Ok((path, Some(received))) && path@ == info.path
                    && received@.len() == info.references.len() && forall|i: int|
                    0 <= i < received@.len() ==> #[trigger] received@[i]@ == info.references[i],
                Err(error) => result matches Err(found) && found@ == error,
            }),
            data is None ==> (result matches Ok((path, None)) && path@ == self@),
    {
        let data = match data {
            Some(data) => data,
            None => return Ok((self.path, None)),
        };
        match parse_narinfo(url, self.path, data.as_slice()) {
            Ok(Narinfo { path, references }) => Ok((path, Some(references))),
            Err(error) => Err(error),
        }
    }
}

/// The file listing of a store path, on its way.
#[derive(Debug, PartialEq, Eq)]
pub struct FilesFetch {
    fallback: Option<String>,
    name: String,
}

/// What a [`FilesFetch`] stands for: the URL to fall back to, if that was not done yet, and the name
/// that the listing is saved under.
pub struct FilesFetchView {
    pub fallback: Option<Seq<char>>,
    pub name: Seq<char>,
}

impl View for FilesFetch {
    type V = FilesFetchView;

    closed spec fn view(&self) -> FilesFetchView {
        FilesFetchView {
            fallback: match self.fallback {
                Some(url) => Some(url@),
                None => None,
            },
            name: self.name@,
        }
    }
}

/// A file listing that was received, as JSON.
#[derive(Debug, PartialEq, Eq)]
pub struct Listing {
    /// Where the listing is from.
    pub url: String,
    /// The name of the file to save the listing to.
    pub name: String,
    pub contents: Vec<u8>,
}

/// What to do next about a file listing.
#[derive(Debug, PartialEq, Eq)]
pub enum FilesStep {
    /// Fetch something else.
    Fetch(FetchRequest, FilesFetch),
    /// There is no listing.
    Absent,
    /// Parse the listing.
    Parse(Listing),
}

/// What a [`FilesStep`] stands for.
pub enum FilesStepView {
    Fetch(FetchRequestView, FilesFetchView),
    Absent,
    Parse { url: Seq<char>, name: Seq<char>, contents: Seq<u8> },
}

impl View for FilesStep {
    type V = FilesStepView;

    open spec fn view(&self) -> FilesStepView {
        match *self {
            FilesStep::Fetch(request, fetch) => FilesStepView::Fetch(request@, fetch@),
            FilesStep::Absent => FilesStepView::Absent,
            FilesStep::Parse(listing) => FilesStepView::Parse {
                url: listing.url@,
                name: listing.name@,
                contents: listing.contents@,
            },
        }
    }
}

impl FilesFetchView {
    /// What to do after `data` was received from `url`. What there is gets parsed; where there is
    /// nothing, the fallback, which is compressed with xz, is tried once.
    pub open spec fn next(self, url: Seq<char>, data: Option<Seq<u8>>) -> FilesStepView {
        match data {
            Some(contents) => FilesStepView::Parse { url, name: self.name, contents },
            None => match self.fallback {
                Some(fallback) => FilesStepView::Fetch(
                    FetchRequestView { url: fallback, encoding: Some(SupportedEncoding::Xz) },
                    FilesFetchView { fallback: None, ..self },
                ),
                None => FilesStepView::Absent,
            },
        }
    }
}

impl FilesFetch {
    /// Decides what to do after `data` was received from `url` (see [`FilesFetchView::next`]).
    pub fn received(self, url: String, data: Option<Vec<u8>>) -> (step: FilesStep)
        ensures
            step@ == self@.next(url@, data_view(data)),
    {
        match data {
            Some(contents) => FilesStep::Parse(Listing { url, name: self.name, contents }),
            None => match self.fallback {
                Some(fallback) => FilesStep::Fetch(
                    FetchRequest { url: fallback, encoding: Some(SupportedEncoding::Xz) },
                    FilesFetch { fallback: None, name: self.name },
                ),
                None => FilesStep::Absent,
            },
        }
    }
}

/// The longest time that parsing a listing takes without a warning, in milliseconds.
pub const SLOW_PARSE_MS: u64 = 2000;

/// Whether a duration of `secs` seconds and `nanos` nanoseconds is too long for parsing a listing.
pub open spec fn is_slow(secs: u64, nanos: u32) -> bool {
    secs * 1_000_000_000 + nanos > SLOW_PARSE_MS * 1_000_000
}

/// The warning about a duration of `secs` seconds and `nanos` nanoseconds.
pub open spec fn slow_text(secs: u64, nanos: u32) -> Seq<char> {
    "warning: took a long time to parse: "@ + decimal(secs as nat) + "s:"@ + decimal_padded(
        nanos as nat / 1_000_000,
    ) + "ms"@
}

impl Listing {
    /// The name of the file that a listing is saved to which does not parse.
    pub fn failed_name() -> (name: &'static str)
        ensures
            name@ == "file_listing.json"@,
    {
        "file_listing.json"
    }

    /// The error for a listing that does not parse because of `cause`, and that was saved to `file`,
    /// if it was saved.
    pub fn parse_error(self, file: Option<String>, cause: String) -> (error: Error)
        ensures
            error@ == ErrorView::ParseResponse(
                self.url@,
                match file {
                    Some(file) => Some(file@),
                    None => None,
                },
                cause@,
            ),
    {
        Error::ParseResponse(self.url, file, cause)
    }

    /// The warning that parsing took `secs` seconds and `nanos` nanoseconds, if that is too long.
    pub fn slow_warning(secs: u64, nanos: u32) -> (warning: Option<String>)
        requires
            nanos < 1_000_000_000,
        ensures
            match warning {
                Some(text) => is_slow(secs, nanos) && text@ == slow_text(secs, nanos),
                None => !is_slow(secs, nanos),
            },
    {
        let limit: u64 = SLOW_PARSE_MS / 1000;
        if secs < limit || (secs == limit && nanos == 0) {
            return None;
        }
        let mut text = String::new();
        text.append("warning: took a long time to parse: ");
        push_decimal(&mut text, secs);
        text.append("s:");
        push_decimal_padded(&mut text, (nanos / 1_000_000) as u64);
        text.append("ms");
        assert(text@ =~= slow_text(secs, nanos));
        Some(text)
    }

    /// The message that a listing was saved to `file`.
    pub fn saved_message(file: &str) -> (text: String)
        ensures
            text@ == "saved response to file: "@ + file@,
    {
        let mut text = String::new();
        text.append("saved response to file: ");
        text.append(file);
        assert(text@ =~= "saved response to file: "@ + file@);
        text
    }
}

impl Fetcher {
    /// Makes a fetcher for the binary cache at `cache_url`, such as `https://cache.nixos.org`.
    /// `http_proxy` is the URL of the proxy to use, if there is one. It fails as [`Client::new`] does.
    pub fn new(cache_url: String, http_proxy: Option<String>) -> (result: Result<Fetcher, Error>)
        ensures
            fetcher_result_view(result) == fetcher_for(cache_url@, http_proxy),
            result matches Ok(fetcher) ==> (fetcher@.client is Proxy ==> names_no_user(http_proxy)),
            result matches Ok(fetcher) ==> fetcher@.cache_url == cache_url@ && client_for(
                http_proxy,
            ) == Ok::<_, ErrorView>(fetcher@.client),
    {
        match Client::new(http_proxy) {
            Ok(client) => Ok(Fetcher { client, cache_url }),
            Err(error) => Err(error),
        }
    }

    /// How requests are sent.
    pub fn client(&self) -> (client: &Client)
        ensures
            client@ == self@.client,
    {
        &self.client
    }

    /// Starts to fetch the references of a store path.
    ///
    /// Only the hash of the path is needed. The path that comes with the references is the full one,
    /// so hashes can be resolved to store paths in this way.
    ///
    /// There are no references where nothing is known about the path.
    pub fn fetch_references(&self, path: StorePath) -> (start: (FetchRequest, ReferencesFetch))
        ensures
            start.0@ == (FetchRequestView {
                url: cache_entry(self@.cache_url, path@.hash, ".narinfo"@),
                encoding: None,
            }),
            start.1@ == path@,
    {
        let url = entry_url(self.cache_url.as_str(), path.hash(), ".narinfo");
        (FetchRequest { url, encoding: None }, ReferencesFetch { path })
    }

    /// Starts to fetch the tree of the files that a store path holds.
    pub fn fetch_files(&self, path: &StorePath) -> (start: (FetchRequest, FilesFetch))
        ensures
            start.0@ == (FetchRequestView {
                url: cache_entry(self@.cache_url, path@.hash, ".ls"@),
                encoding: None,
            }),
            start.1@ == (FilesFetchView {
                fallback: Some(cache_entry(self@.cache_url, path@.hash, ".ls.xz"@)),
                name: path@.hash + ".json"@,
            }),
    {
        let url = entry_url(self.cache_url.as_str(), path.hash(), ".ls");
        let fallback = entry_url(self.cache_url.as_str(), path.hash(), ".ls.xz");
        let mut name = String::new();
        name.append(path.hash());
        name.append(".json");
        assert(name@ =~= path@.hash + ".json"@);
        (FetchRequest { url, encoding: None }, FilesFetch { fallback: Some(fallback), name })
    }
}

/// References are missing exactly where nothing was found, and the path is then the one that was
/// asked for.
pub proof fn law_references_are_missing_if_not_found(
    url: Seq<char>,
    path: StorePathView,
    data: Option<Seq<u8>>,
)
    ensures
        references(url, path, data) matches Ok(found) ==> (found.references is None
            <==> data is None),
        data is None ==> references(url, path, data) == Ok::<_, ErrorView>(
            ReferencesView { path, references: None },
        ),
{
}

/// An answer of a cache: its status, what its header fields say, the chunks of its body, and the
/// error with which the body breaks off, if it does.
pub struct Answer {
    pub status: u16,
    pub codings: ContentCodingsView,
    pub chunks: Seq<Seq<u8>>,
    pub failure: Option<ErrorView>,
}

impl Answer {
    /// What fetching `url` gives with this answer.
    pub open spec fn fetched(self, url: Seq<char>, encoding: Option<SupportedEncoding>) -> Result<
        (Seq<char>, Option<Seq<u8>>),
        ErrorView,
    > {
        fetched(url, encoding, self.status, self.codings, self.chunks, self.failure)
    }
}

/// What asking the cache at `cache_url` for the references of `path` gives, where it gives this
/// answer.
pub open spec fn references_from(
    cache_url: Seq<char>,
    path: StorePathView,
    answer: Answer,
) -> Result<ReferencesView, ErrorView> {
    match answer.fetched(cache_entry(cache_url, path.hash, ".narinfo"@), None) {
        Ok((from, data)) => references(from, path, data),
        Err(error) => Err(error),
    }
}

/// References are missing, without an error, exactly where the cache answers that there is nothing.
/// Any other status but success is an error. A narinfo that is not compressed is read as it is.
pub proof fn law_answer_decides_about_references(
    cache_url: Seq<char>,
    path: StorePathView,
    answer: Answer,
)
    ensures
        ({
            let url = cache_entry(cache_url, path.hash, ".narinfo"@);
            let result = references_from(cache_url, path, answer);
            &&& answer.status == 404 <==> (result matches Ok(found) && found.references is None)
            &&& answer.status == 404 ==> result == Ok::<_, ErrorView>(
                ReferencesView { path, references: None },
            )
            &&& !is_success(answer.status) && answer.status != 404 ==> result == Err::<
                ReferencesView,
                _,
            >(ErrorView::Http(url, answer.status))
            &&& is_success(answer.status) && answer.codings is Absent && answer.failure is None
                ==> result == references(url, path, Some(answer.chunks.flatten()))
        }),
{
    let url = cache_entry(cache_url, path.hash, ".narinfo"@);
    law_status_decides(
        url,
        None,
        answer.status,
        answer.codings,
        answer.chunks,
        answer.failure,
    );
    if is_success(answer.status) {
        law_plain_body_is_its_bytes(url, answer.status, answer.chunks);
    }
}

/// The first question about a listing is never the last where it finds nothing, and the second one
/// always is. So at most two requests are made, the second one only if the first finds nothing; a
/// listing is absent exactly if both find nothing, and what is parsed is what was found first.
pub proof fn law_fallback_is_tried_once(
    start: FilesFetchView,
    url: Seq<char>,
    first: Option<Seq<u8>>,
    second: Option<Seq<u8>>,
)
    requires
        start.fallback is Some,
    ensures
        first matches Some(contents) ==> start.next(url, first) == (FilesStepView::Parse {
            url,
            name: start.name,
            contents,
        }),
        first is None ==> (start.next(url, first) matches FilesStepView::Fetch(request, then)
            && request.url == start.fallback->0 && request.encoding == Some(SupportedEncoding::Xz)
            && then.next(request.url, second) == (match second {
            Some(contents) => FilesStepView::Parse { url: request.url, name: start.name, contents },
            None => FilesStepView::Absent,
        })),
{
}

/// What asking a cache for the listing of a hash leads to, where it gives these answers, the second
/// one only if it is asked.
pub open spec fn files_from(
    cache_url: Seq<char>,
    hash: Seq<char>,
    first: Answer,
    second: Answer,
) -> Result<FilesStepView, ErrorView> {
    let start = FilesFetchView {
        fallback: Some(cache_entry(cache_url, hash, ".ls.xz"@)),
        name: hash + ".json"@,
    };
    match first.fetched(cache_entry(cache_url, hash, ".ls"@), None) {
        Err(error) => Err(error),
        Ok((from, data)) => match start.next(from, data) {
            FilesStepView::Fetch(request, then) => match second.fetched(
                request.url,
                request.encoding,
            ) {
                Err(error) => Err(error),
                Ok((from, data)) => Ok(then.next(from, data)),
            },
            step => Ok(step),
        },
    }
}

/// A listing is absent exactly if the cache answers twice that there is nothing. The second answer
/// counts only after such a first one, and its body is taken to be compressed with xz whatever its
/// header fields say. Two answers always settle the matter.
pub proof fn law_answers_decide_about_files(
    cache_url: Seq<char>,
    hash: Seq<char>,
    first: Answer,
    second: Answer,
    other: Answer,
)
    ensures
        ({
            let result = files_from(cache_url, hash, first, second);
            let url = cache_entry(cache_url, hash, ".ls.xz"@);
            &&& result == Ok::<_, ErrorView>(FilesStepView::Absent) <==> first.status == 404
                && second.status == 404
            &&& !(result matches Ok(FilesStepView::Fetch(_, _)))
            &&& first.status != 404 ==> result == files_from(cache_url, hash, first, other)
            &&& first.status == 404 && is_success(second.status) && second.failure is None
                ==> result == (match decoded(SupportedEncoding::Xz, second.chunks) {
                Ok(contents) => Ok(
                    FilesStepView::Parse { url, name: hash + ".json"@, contents },
                ),
                Err(cause) => Err(ErrorView::Decode(url, cause)),
            })
        }),
{
    law_status_decides(
        cache_entry(cache_url, hash, ".ls"@),
        None,
        first.status,
        first.codings,
        first.chunks,
        first.failure,
    );
    law_status_decides(
        cache_entry(cache_url, hash, ".ls.xz"@),
        Some(SupportedEncoding::Xz),
        second.status,
        second.codings,
        second.chunks,
        second.failure,
    );
}

/// Whether a listing is served at once, in whatever encoding its header fields tell, or compressed
/// with xz after an answer that there is nothing: the same contents get parsed, under the same name.
pub proof fn law_listings_agree(
    cache_url: Seq<char>,
    hash: Seq<char>,
    contents: Seq<u8>,
    encoding: SupportedEncoding,
    found: Answer,
    missing: Answer,
    packed: Answer,
)
    requires
        is_success(found.status),
        found.failure is None,
        encoding_for(found.codings) == Some(encoding),
        decoded(encoding, found.chunks) == Ok::<_, Seq<char>>(contents),
        missing.status == 404,
        is_success(packed.status),
        packed.failure is None,
        decoded(SupportedEncoding::Xz, packed.chunks) == Ok::<_, Seq<char>>(contents),
    ensures
        files_from(cache_url, hash, found, packed) == Ok::<_, ErrorView>(
            FilesStepView::Parse {
                url: cache_entry(cache_url, hash, ".ls"@),
                name: hash + ".json"@,
                contents,
            },
        ),
        files_from(cache_url, hash, missing, packed) == Ok::<_, ErrorView>(
            FilesStepView::Parse {
                url: cache_entry(cache_url, hash, ".ls.xz"@),
                name: hash + ".json"@,
                contents,
            },
        ),
{
}

/// What is received for a narinfo that is there is all that it says: the path, and every reference, in
/// order. Where it cannot be read, that is the error.
pub proof fn law_every_reference_is_received(
    url: Seq<char>,
    path: StorePathView,
    data: Seq<u8>,
    info: NarinfoView,
    error: ErrorView,
)
    ensures
        narinfo(url, path, data) == Ok::<_, ErrorView>(info) ==> (references(url, path, Some(data))
            matches Ok(found) && found.path == info.path && (found.references matches Some(
            received,
        ) && received.len() == info.references.len() && forall|i: int|
            0 <= i < received.len() ==> #[trigger] received[i] == info.references[i])),
        narinfo(url, path, data) == Err::<NarinfoView, _>(error) ==> references(
            url,
            path,
            Some(data),
        ) == Err::<ReferencesView, _>(error),
{
}

/// A narinfo that was written for a store path and any number of references gives that path and as
/// many references when it is received, each of them the one that was written.
pub proof fn law_written_references_are_received(
    url: Seq<char>,
    asked: StorePathView,
    blank: Seq<char>,
    path: Seq<char>,
    names: Seq<Seq<char>>,
)
    requires
        is_blank(blank),
        is_word(path),
        path.contains('-'),
        forall|i: int|
            0 <= i < names.len() ==> is_word(#[trigger] names[i]) && names[i].contains('-'),
    ensures
        references(url, asked, Some(written(blank, path, names))) matches Ok(found) && parsed_path(
            asked.origin,
            path,
        ) == Some(found.path) && (found.references matches Some(received) && received.len()
            == names.len() && forall|i: int|
            0 <= i < names.len() ==> parsed_path(asked.origin.of_reference(), names[i]) == Some(
                #[trigger] received[i],
            )),
{
    law_a_path_needs_a_dash(asked.origin, path);
    assert forall|i: int| 0 <= i < names.len() implies is_word(#[trigger] names[i]) && parsed_path(
        asked.origin.of_reference(),
        names[i],
    ) is Some by {
        law_a_path_needs_a_dash(asked.origin.of_reference(), names[i]);
    }
    law_written_narinfo_is_read_back(url, asked, blank, path, names);
}

/// A fetcher is made with exactly the client that the proxy calls for, and for exactly the cache that
/// is asked for; where there is no such client, there is no fetcher.
pub proof fn law_fetchers_use_the_proxy(
    cache_url: Seq<char>,
    http_proxy: Option<String>,
    client: ClientView,
    error: ErrorView,
)
    ensures
        client_for(http_proxy) == Ok::<_, ErrorView>(client) ==> (fetcher_for(cache_url, http_proxy)
            matches Ok(fetcher) && fetcher.client == client && fetcher.cache_url == cache_url),
        client_for(http_proxy) == Err::<ClientView, _>(error) ==> fetcher_for(cache_url, http_proxy)
            == Err::<FetcherView, _>(error),
{
}

/// Where the URL of the proxy names a user, the fetcher goes through that proxy with credentials for
/// that user and their password.
pub proof fn law_fetchers_authorize_the_user(
    cache_url: Seq<char>,
    proxy_url: String,
    full: Seq<char>,
    partial: Seq<char>,
    text: Seq<char>,
    uri: Seq<char>,
    password: Seq<char>,
)
    requires
        parsed_url(proxy_url@) == Some(full),
        url_without_username(full) == Some(partial),
        url_without_password(partial) == Some(text),
        parsed_uri(text) == Ok::<_, Seq<char>>(uri),
        url_username(full).len() > 0,
        url_password(full) == Some(password) || (url_password(full) is None && password.len() == 0),
        is_printable(url_username(full)),
        is_printable(password),
        !url_username(full).contains(':'),
    ensures
        fetcher_for(cache_url, Some(proxy_url)) matches Ok(fetcher) && fetcher.cache_url
            == cache_url && (fetcher.client matches ClientView::Proxy(proxy) && proxy.uri == uri
            && proxy.authorization == Some("Basic "@ + basic_token(url_username(full), password))),
{
    if url_password(full) is None {
        assert(password =~= Seq::empty());
    }
    law_the_proxy_is_that_of_the_url(proxy_url, full, partial, text, uri);
}

/// What a cache holds about a hash is found below the URL of the cache, under the hash.
pub proof fn law_entries_are_below_the_cache(
    cache_url: Seq<char>,
    hash: Seq<char>,
    suffix: Seq<char>,
)
    ensures
        cache_entry(cache_url, hash, suffix) == cache_url + "/"@ + hash + suffix,
{
}

/// What was found is parsed, all of it, under the name that was chosen at the start; where nothing is
/// left to try and nothing was found, there is nothing.
pub proof fn law_what_is_found_is_parsed(
    fetch: FilesFetchView,
    url: Seq<char>,
    contents: Seq<u8>,
)
    ensures
        fetch.next(url, Some(contents)) matches FilesStepView::Parse {
            url: from,
            name,
            contents: found,
        } && from == url && name == fetch.name && found == contents,
        fetch.fallback is None ==> fetch.next(url, None) == FilesStepView::Absent,
{
}

/// Parsing is slow exactly if it takes longer than two seconds. The warning tells the seconds, and
/// the milliseconds with three digits.
pub proof fn law_slow_parsing_is_told(secs: u64, nanos: u32)
    requires
        nanos < 1_000_000_000,
    ensures
        is_slow(secs, nanos) <==> secs > 2 || (secs == 2 && nanos > 0),
        slow_text(secs, nanos) == "warning: took a long time to parse: "@ + decimal(secs as nat)
            + "s:"@ + decimal_padded((nanos / 1_000_000) as nat) + "ms"@,
        decimal_padded((nanos / 1_000_000) as nat).len() == 3,
{
    law_padding_keeps_the_number((nanos / 1_000_000) as nat);
}

/// Requests, data, steps and results stand for what they hold.
pub proof fn law_questions_are_what_they_hold(
    request: FetchRequest,
    data: Vec<u8>,
    fetch: FilesFetch,
    listing: Listing,
    path: StorePath,
    found: Vec<StorePath>,
    error: Error,
    made: Result<Fetcher, Error>,
)
    ensures
        request@.url == request.url@,
        request@.encoding == request.encoding,
        data_view(None) is None,
        data_view(Some(data)) == Some(data@),
        FilesStep::Fetch(request, fetch)@ == FilesStepView::Fetch(request@, fetch@),
        FilesStep::Absent@ == FilesStepView::Absent,
        FilesStep::Parse(listing)@ == (FilesStepView::Parse {
            url: listing.url@,
            name: listing.name@,
            contents: listing.contents@,
        }),
        references_view(Ok((path, None))) == Ok::<_, ErrorView>(
            ReferencesView { path: path@, references: None },
        ),
        references_view(Ok((path, Some(found)))) == Ok::<_, ErrorView>(
            ReferencesView { path: path@, references: Some(paths_view(found@)) },
        ),
        references_view(Err(error)) == Err::<ReferencesView, _>(error@),
        fetcher_result_view(made) == (match made {
            Ok(fetcher) => Ok(fetcher@),
            Err(error) => Err(error@),
        }),
{
}

} // verus!
