//! What a response means.
use crate::encoding::{
    body_content, body_failure, codings_of, content_codings, decoded, encoding_for,
    select_encoding, BodyDecoder, BodyDecoderView, ContentCodings, ContentCodingsView,
    SupportedEncoding,
};
use crate::error::{Error, ErrorView, TimeoutError};
use hyper::header::HeaderMap;
use vstd::prelude::*;
use vstd::string::*;

verus! {

/// Why a request got no response, or a response broke off.
#[derive(Debug, PartialEq, Eq)]
pub enum TransportFailure {
    /// Connecting and getting a response took too long.
    Elapsed,
    /// The timer that watches over this failed.
    Timer(TimeoutError),
    /// The HTTP client failed; its message, and the cause, if it has one.
    Client(String, Option<String>),
}

impl TransportFailure {
    /// The error for a request that got no response, or for a response that broke off.
    pub open spec fn error(self) -> ErrorView {
        match self {
            TransportFailure::Elapsed => ErrorView::Timeout,
            TransportFailure::Timer(error) => ErrorView::TimerError(error.0@),
            TransportFailure::Client(message, cause) => ErrorView::Hyper(
                message@,
                match cause {
                    Some(cause) => Some(cause@),
                    None => None,
                },
            ),
        }
    }
}

/// The error for a request that got no response, or for a response that broke off.
pub fn transport_error(failure: TransportFailure) -> (error: Error)
    ensures
        error@ == failure.error(),
{
    match failure {
        TransportFailure::Elapsed => Error::Timeout,
        TransportFailure::Timer(error) => Error::from(error),
        TransportFailure::Client(message, cause) => Error::Hyper(message, cause),
    }
}

/// Whether a status code reports success.
pub open spec fn is_success(status: u16) -> bool {
    200 <= status < 300
}

/// A body that is being received from a URL.
pub struct Download {
    url: String,
    decoder: BodyDecoder,
}

/// What a [`Download`] stands for.
pub struct DownloadView {
    pub url: Seq<char>,
    pub body: BodyDecoderView,
}

impl View for Download {
    type V = DownloadView;

    closed spec fn view(&self) -> DownloadView {
        DownloadView { url: self.url@, body: self.decoder@ }
    }
}

/// What the head of a response announces.
pub enum Reply {
    /// There is nothing at the URL.
    NotFound(String),
    /// The body follows.
    Found(Download),
}

/// What a [`Reply`] stands for.
pub enum ReplyView {
    NotFound(Seq<char>),
    Found(Seq<char>, SupportedEncoding),
}

impl View for Reply {
    type V = ReplyView;

    open spec fn view(&self) -> ReplyView {
        match *self {
            Reply::NotFound(url) => ReplyView::NotFound(url@),
            Reply::Found(download) => ReplyView::Found(download@.url, download@.body.encoding),
        }
    }
}

/// What a response to the request for `url` means. A status of 404 means that there is nothing; any
/// other status but success is an error. The body is compressed with `encoding`, or, where that is
/// not given, as the header fields say.
pub open spec fn reply_to(
    url: Seq<char>,
    encoding: Option<SupportedEncoding>,
    status: u16,
    codings: ContentCodingsView,
) -> Result<ReplyView, ErrorView> {
    if status == 404 {
        Ok(ReplyView::NotFound(url))
    } else if !is_success(status) {
        Err(ErrorView::Http(url, status))
    } else {
        match encoding {
            Some(encoding) => Ok(ReplyView::Found(url, encoding)),
            None => match encoding_for(codings) {
                Some(encoding) => Ok(ReplyView::Found(url, encoding)),
                None => Err(
                    ErrorView::UnsupportedEncoding(
                        url,
                        match codings {
                            ContentCodingsView::Listed(list) => Some(list),
                            _ => None,
                        },
                    ),
                ),
            },
        }
    }
}

/// Whether `result` is what `expected` says, with no part of a body received yet.
pub open spec fn is_reply(
    result: Result<Reply, Error>,
    expected: Result<ReplyView, ErrorView>,
) -> bool {
    match result {
        Ok(reply) => expected == Ok::<_, ErrorView>(reply@) && (reply matches Reply::Found(
            download,
        ) ==> download@.body.body.len() == 0),
        Err(error) => expected == Err::<ReplyView, _>(error@) && error@.wf(),
    }
}

/// Decides what a response means (see [`reply_to`]), given what its `Content-Encoding` fields say.
pub fn judge_response(
    url: String,
    encoding: Option<SupportedEncoding>,
    status: u16,
    codings: ContentCodings,
) -> (result: Result<Reply, Error>)
    requires
        100 <= status < 1000,
    ensures
        is_reply(result, reply_to(url@, encoding, status, codings@)),
        result matches Ok(Reply::NotFound(from)) ==> status == 404 && from@ == url@,
        result matches Ok(Reply::Found(download)) ==> 200 <= status <= 299 && download@.url == url@
            && (match encoding {
            Some(encoding) => download@.body.encoding == encoding,
            None => encoding_for(codings@) == Some(download@.body.encoding),
        }),
{
    if status == 404 {
        return Ok(Reply::NotFound(url));
    }
    if !(200 <= status && status < 300) {
        return Err(Error::Http(url, status));
    }
    let encoding = match encoding {
        Some(encoding) => encoding,
        None => match select_encoding(&codings) {
            Some(encoding) => encoding,
            None => {
                let list = match codings {
                    ContentCodings::Listed(list) => Some(list),
                    _ => None,
                };
                return Err(Error::UnsupportedEncoding(url, list));
            },
        },
    };
    Ok(Reply::Found(Download { url, decoder: BodyDecoder::new(encoding) }))
}

/// Decides what a response means (see [`reply_to`]).
pub fn process_response(
    url: String,
    encoding: Option<SupportedEncoding>,
    status: u16,
    headers: &HeaderMap,
) -> (result: Result<Reply, Error>)
    requires
        100 <= status < 1000,
    ensures
        is_reply(result, reply_to(url@, encoding, status, codings_of(*headers))),
{
    judge_response(url, encoding, status, content_codings(headers))
}

/// What a body holds that arrives as `chunks`, as the content at `url`. Where the body breaks off with
/// `failure`, that is the error, unless what had arrived was refused before.
pub open spec fn content(
    url: Seq<char>,
    encoding: SupportedEncoding,
    chunks: Seq<Seq<u8>>,
    failure: Option<ErrorView>,
) -> Result<Seq<u8>, ErrorView> {
    match failure {
        None => match decoded(encoding, chunks) {
            Ok(content) => Ok(content),
            Err(cause) => Err(ErrorView::Decode(url, cause)),
        },
        Some(error) => match body_failure(encoding, chunks.flatten()) {
            Some(cause) => Err(ErrorView::Decode(url, cause)),
            None => Err(error),
        },
    }
}

/// The bytes of each of `chunks`.
pub open spec fn chunks_view(chunks: Seq<Vec<u8>>) -> Seq<Seq<u8>> {
    chunks.map_values(|chunk: Vec<u8>| chunk@)
}

/// The error with which a body breaks off, if it does.
pub open spec fn failure_view(failure: Option<TransportFailure>) -> Option<ErrorView> {
    match failure {
        Some(failure) => Some(failure.error()),
        None => None,
    }
}

impl Download {
    /// Takes the next chunk of the body.
    pub fn feed(self, chunk: &[u8]) -> (next: Download)
        ensures
            next@ == (DownloadView {
                url: self@.url,
                body: BodyDecoderView {
                    encoding: self@.body.encoding,
                    body: self@.body.body + chunk@,
                },
            }),
    {
        Download { url: self.url, decoder: self.decoder.feed(chunk) }
    }

    /// Why what has arrived is refused, though more may follow; `None` where it is not. A body that is
    /// refused need not be waited for: [`Download::finish`] gives the error.
    pub fn refused(&self) -> (cause: Option<String>)
        ensures
            match cause {
                Some(cause) => body_failure(self@.body.encoding, self@.body.body) == Some(cause@),
                None => body_failure(self@.body.encoding, self@.body.body) is None,
            },
    {
        self.decoder.failure()
    }

    /// Ends the body. The content comes with the URL that it was received from.
    pub fn finish(self) -> (result: Result<(String, Option<Vec<u8>>), Error>)
        ensures
            fetch_view(result) == (match body_content(self@.body.encoding, self@.body.body) {
                Ok(content) => Ok((self@.url, Some(content))),
                Err(cause) => Err(ErrorView::Decode(self@.url, cause)),
            }),
    {
        match self.decoder.finish(&self.url) {
            Ok(content) => Ok((self.url, Some(content))),
            Err(error) => Err(error),
        }
    }

    /// The error for a body that breaks off with `failure`. If what had arrived was refused, then
    /// that counts, since it came first.
    pub fn broken_off(self, failure: TransportFailure) -> (error: Error)
        ensures
            error@ == (match body_failure(self@.body.encoding, self@.body.body) {
                Some(cause) => ErrorView::Decode(self@.url, cause),
                None => failure.error(),
            }),
    {
        match self.decoder.failure() {
            Some(cause) => Error::Decode(self.url, cause),
            None => transport_error(failure),
        }
    }

    /// Takes a whole body, which breaks off with `failure` if there is one.
    pub fn read_all(self, chunks: &Vec<Vec<u8>>, failure: Option<TransportFailure>) -> (result:
        Result<(String, Option<Vec<u8>>), Error>)
        requires
            self@.body.body.len() == 0,
        ensures
            fetch_view(result) == (match content(
                self@.url,
                self@.body.encoding,
                chunks_view(chunks@),
                failure_view(failure),
            ) {
                Ok(content) => Ok((self@.url, Some(content))),
                Err(error) => Err(error),
            }),
    {
        let ghost all = chunks_view(chunks@);
        let ghost start = self@;
        let mut download = self;
        let mut i: usize = 0;
        assert(all.take(0) =~= Seq::empty());
        assert(download@.body.body =~= all.take(0).flatten());
        while i < chunks.len()
            invariant
                i <= chunks.len(),
                all == chunks_view(chunks@),
                download@.url == start.url,
                download@.body.encoding == start.body.encoding,
                download@.body.body == all.take(i as int).flatten(),
            decreases chunks.len() - i,
        {
            proof {
                assert(all[i as int] == chunks@[i as int]@);
                assert(all.take(i as int).push(all[i as int]) =~= all.take(i + 1));
                lemma_flatten_push(all.take(i as int), all[i as int]);
            }
            download = download.feed(chunks[i].as_slice());
            i += 1;
        }
        assert(all.take(chunks.len() as int) =~= all);
        match failure {
            Some(failure) => Err(download.broken_off(failure)),
            None => download.finish(),
        }
    }
}

proof fn lemma_flatten_push(chunks: Seq<Seq<u8>>, chunk: Seq<u8>)
    ensures
        chunks.push(chunk).flatten() == chunks.flatten() + chunk,
    decreases chunks.len(),
{
    if chunks.len() == 0 {
        assert(chunks =~= Seq::empty());
        assert(chunks.push(chunk).drop_first() =~= Seq::empty());
        assert(chunks.push(chunk).first() == chunk);
        assert(chunks.push(chunk).flatten() =~= chunk + chunks.flatten());
        assert(chunks.flatten() =~= Seq::empty());
    } else {
        assert(chunks.push(chunk).drop_first() =~= chunks.drop_first().push(chunk));
        lemma_flatten_push(chunks.drop_first(), chunk);
        assert(chunks.push(chunk).flatten() =~= chunks.flatten() + chunk);
    }
}

/// What a result of fetching stands for.
pub open spec fn fetch_view(result: Result<(String, Option<Vec<u8>>), Error>) -> Result<
    (Seq<char>, Option<Seq<u8>>),
    ErrorView,
> {
    match result {
        Ok((url, content)) => Ok(
            (
                url@,
                match content {
                    Some(content) => Some(content@),
                    None => None,
                },
            ),
        ),
        Err(error) => Err(error@),
    }
}

/// What one attempt to fetch `url` gives, where the server answers with `status`, with header fields
/// that say `codings`, and with a body that arrives as `chunks` and breaks off with `failure`, if
/// there is one.
pub open spec fn fetched(
    url: Seq<char>,
    encoding: Option<SupportedEncoding>,
    status: u16,
    codings: ContentCodingsView,
    chunks: Seq<Seq<u8>>,
    failure: Option<ErrorView>,
) -> Result<(Seq<char>, Option<Seq<u8>>), ErrorView> {
    match reply_to(url, encoding, status, codings) {
        Err(error) => Err(error),
        Ok(ReplyView::NotFound(url)) => Ok((url, None)),
        Ok(ReplyView::Found(url, encoding)) => match content(url, encoding, chunks, failure) {
            Ok(content) => Ok((url, Some(content))),
            Err(error) => Err(error),
        },
    }
}

/// Reads a whole response (see [`fetched`]).
pub fn read_response(
    url: String,
    encoding: Option<SupportedEncoding>,
    status: u16,
    headers: &HeaderMap,
    chunks: &Vec<Vec<u8>>,
    failure: Option<TransportFailure>,
) -> (result: Result<(String, Option<Vec<u8>>), Error>)
    requires
        100 <= status < 1000,
    ensures
        fetch_view(result) == fetched(
            url@,
            encoding,
            status,
            codings_of(*headers),
            chunks_view(chunks@),
            failure_view(failure),
        ),
{
    match process_response(url, encoding, status, headers) {
        Ok(Reply::NotFound(url)) => Ok((url, None)),
        Ok(Reply::Found(download)) => download.read_all(chunks, failure),
        Err(error) => Err(error),
    }
}

/// A fetch gives the URL without content exactly where the server says that there is nothing. Any
/// other status but success is an error. A success gives the content that the body decodes to.
pub proof fn law_status_decides(
    url: Seq<char>,
    encoding: Option<SupportedEncoding>,
    status: u16,
    codings: ContentCodingsView,
    chunks: Seq<Seq<u8>>,
    failure: Option<ErrorView>,
)
    ensures
        ({
            let result = fetched(url, encoding, status, codings, chunks, failure);
            &&& status == 404 <==> (result matches Ok((_, None)))
            &&& status == 404 ==> result == Ok::<_, ErrorView>((url, None::<Seq<u8>>))
            &&& result matches Ok((from, _)) ==> from == url
            &&& result matches Ok((_, Some(_))) ==> is_success(status) && failure is None
            &&& !is_success(status) && status != 404 ==> result == Err::<
                (Seq<char>, Option<Seq<u8>>),
                _,
            >(ErrorView::Http(url, status))
        }),
{
}

/// An encoding that is given takes the place of what the header fields say.
pub proof fn law_given_encoding_wins(
    url: Seq<char>,
    encoding: SupportedEncoding,
    status: u16,
    codings: ContentCodingsView,
    other: ContentCodingsView,
    chunks: Seq<Seq<u8>>,
    failure: Option<ErrorView>,
)
    ensures
        fetched(url, Some(encoding), status, codings, chunks, failure) == fetched(
            url,
            Some(encoding),
            status,
            other,
            chunks,
            failure,
        ),
        is_success(status) && failure is None ==> fetched(
            url,
            Some(encoding),
            status,
            codings,
            chunks,
            failure,
        ) == (match decoded(encoding, chunks) {
            Ok(content) => Ok((url, Some(content))),
            Err(cause) => Err(ErrorView::Decode(url, cause)),
        }),
{
}

/// How the body was cut into chunks has no influence on what a fetch gives, in any encoding, and
/// whether the body ends or breaks off.
pub proof fn law_chunks_have_no_influence(
    url: Seq<char>,
    encoding: Option<SupportedEncoding>,
    status: u16,
    codings: ContentCodingsView,
    chunks: Seq<Seq<u8>>,
    others: Seq<Seq<u8>>,
    failure: Option<ErrorView>,
)
    requires
        chunks.flatten() == others.flatten(),
    ensures
        fetched(url, encoding, status, codings, chunks, failure) == fetched(
            url,
            encoding,
            status,
            codings,
            others,
            failure,
        ),
{
}

/// A successful response without a `Content-Encoding` field gives the bytes of its body.
pub proof fn law_plain_body_is_its_bytes(url: Seq<char>, status: u16, chunks: Seq<Seq<u8>>)
    requires
        is_success(status),
    ensures
        fetched(url, None, status, ContentCodingsView::Absent, chunks, None) == Ok::<_, ErrorView>(
            (url, Some(chunks.flatten())),
        ),
{
}

/// A response is a success exactly if its status is from 200 to 299.
pub proof fn law_success_is_two_hundred(status: u16)
    ensures
        is_success(status) <==> 200 <= status <= 299,
{
}

/// A successful response for which no encoding is given, and the header fields of which call for one
/// that is not supported, is an error that lists the codings. It never is content.
pub proof fn law_unsupported_encodings_are_errors(
    url: Seq<char>,
    status: u16,
    list: Seq<Seq<char>>,
    chunks: Seq<Seq<u8>>,
    failure: Option<ErrorView>,
)
    requires
        200 <= status <= 299,
        list.len() > 0,
        list[0] != "br"@,
        list[0] != "identity"@,
        list[0] != "xz"@,
    ensures
        fetched(url, None, status, ContentCodingsView::Listed(list), chunks, failure) == Err::<
            (Seq<char>, Option<Seq<u8>>),
            _,
        >(ErrorView::UnsupportedEncoding(url, Some(list))),
        reply_to(url, None, status, ContentCodingsView::Listed(list)) == Err::<ReplyView, _>(
            ErrorView::UnsupportedEncoding(url, Some(list)),
        ),
{
}

/// Where no encoding is given, a supported one that the header fields call for does as well as one
/// that is given.
pub proof fn law_header_fields_tell_the_encoding(
    url: Seq<char>,
    encoding: SupportedEncoding,
    status: u16,
    codings: ContentCodingsView,
    chunks: Seq<Seq<u8>>,
    failure: Option<ErrorView>,
)
    requires
        encoding_for(codings) == Some(encoding),
    ensures
        fetched(url, None, status, codings, chunks, failure) == fetched(
            url,
            Some(encoding),
            status,
            codings,
            chunks,
            failure,
        ),
        reply_to(url, None, status, codings) == reply_to(url, Some(encoding), status, codings),
{
}

/// A success whose encoding is known announces a body in that encoding; 404 announces that there is
/// nothing, and any other status is an error.
pub proof fn law_status_decides_about_the_reply(
    url: Seq<char>,
    encoding: SupportedEncoding,
    status: u16,
    codings: ContentCodingsView,
)
    ensures
        reply_to(url, Some(encoding), status, codings) == (if 200 <= status <= 299 {
            Ok(ReplyView::Found(url, encoding))
        } else if status == 404 {
            Ok(ReplyView::NotFound(url))
        } else {
            Err(ErrorView::Http(url, status))
        }),
        reply_to(url, None, 404, codings) == Ok::<_, ErrorView>(ReplyView::NotFound(url)),
        status != 404 && !(200 <= status <= 299) ==> reply_to(url, None, status, codings)
            == Err::<ReplyView, _>(ErrorView::Http(url, status)),
{
}

/// A body that breaks off is the error of the transport, unless what had arrived was refused: then
/// that is the error, as it is where the body ends there.
pub proof fn law_broken_bodies_are_errors(
    url: Seq<char>,
    encoding: SupportedEncoding,
    status: u16,
    codings: ContentCodingsView,
    chunks: Seq<Seq<u8>>,
    failure: ErrorView,
)
    requires
        200 <= status <= 299,
    ensures
        body_failure(encoding, chunks.flatten()) is None ==> fetched(
            url,
            Some(encoding),
            status,
            codings,
            chunks,
            Some(failure),
        ) == Err::<(Seq<char>, Option<Seq<u8>>), _>(failure),
        body_failure(encoding, chunks.flatten()) matches Some(cause) ==> fetched(
            url,
            Some(encoding),
            status,
            codings,
            chunks,
            Some(failure),
        ) == Err::<(Seq<char>, Option<Seq<u8>>), _>(ErrorView::Decode(url, cause)),
{
}

/// What a fetch gives is everything that the body holds, in whatever encoding it came.
pub proof fn law_everything_is_fetched(
    url: Seq<char>,
    encoding: SupportedEncoding,
    status: u16,
    codings: ContentCodingsView,
    chunks: Seq<Seq<u8>>,
)
    requires
        200 <= status <= 299,
    ensures
        fetched(url, Some(encoding), status, codings, chunks, None) == (match body_content(
            encoding,
            chunks.flatten(),
        ) {
            Ok(content) => Ok((url, Some(content))),
            Err(cause) => Err(ErrorView::Decode(url, cause)),
        }),
{
}

/// A failure of the transport is a timeout, a failure of the timer with its cause, or a failure of
/// the HTTP client with its message and its cause.
pub proof fn law_failures_keep_their_cause(
    error: TimeoutError,
    message: String,
    cause: String,
)
    ensures
        TransportFailure::Elapsed.error() == ErrorView::Timeout,
        TransportFailure::Timer(error).error() == ErrorView::TimerError(error.0@),
        TransportFailure::Client(message, None).error() == ErrorView::Hyper(message@, None),
        TransportFailure::Client(message, Some(cause)).error() == ErrorView::Hyper(
            message@,
            Some(cause@),
        ),
{
}

/// Chunks, failures and results stand for what they hold.
pub proof fn law_results_are_what_they_hold(
    chunks: Seq<Vec<u8>>,
    failure: TransportFailure,
    url: String,
    content: Vec<u8>,
    error: Error,
    download: Download,
)
    ensures
        chunks_view(chunks).len() == chunks.len(),
        forall|i: int| 0 <= i < chunks.len() ==> #[trigger] chunks_view(chunks)[i] == chunks[i]@,
        failure_view(None) is None,
        failure_view(Some(failure)) == Some(failure.error()),
        fetch_view(Ok((url, Some(content)))) == Ok::<_, ErrorView>((url@, Some(content@))),
        fetch_view(Ok((url, None))) == Ok::<_, ErrorView>((url@, None::<Seq<u8>>)),
        fetch_view(Err(error)) == Err::<(Seq<char>, Option<Seq<u8>>), _>(error@),
        Reply::NotFound(url)@ == ReplyView::NotFound(url@),
        Reply::Found(download)@ == ReplyView::Found(download@.url, download@.body.encoding),
        is_reply(Ok(Reply::NotFound(url)), Ok(ReplyView::NotFound(url@))),
        is_reply(
            Ok(Reply::Found(download)),
            Ok(ReplyView::Found(download@.url, download@.body.encoding)),
        ) <==> download@.body.body.len() == 0,
        is_reply(Err(error), Err(error@)) <==> error@.wf(),
{
}

/// A result is one reply only.
pub proof fn law_replies_are_told_apart(
    result: Result<Reply, Error>,
    one: Result<ReplyView, ErrorView>,
    other: Result<ReplyView, ErrorView>,
)
    ensures
        is_reply(result, one) && is_reply(result, other) ==> one == other,
{
}

} // verus!
