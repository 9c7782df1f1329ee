//! How the body of a response is compressed, and undoing it.
use crate::error::{Error, ErrorView};
use crate::text::{str_eq, texts};
use brotli2::bufread::BrotliDecoder;
use brotli2::write::BrotliDecoder as BrotliWriter;
use hyper::header::{HeaderMap, HeaderValue};
use std::io::{Read, Write};
use typed_headers::{ContentEncoding, Error as HeaderError, HeaderMapExt};
use vstd::prelude::*;
use vstd::string::*;
use xz2::write::XzDecoder;

verus! {

/// The ways to compress a response that are supported.
#[derive(Debug, Copy, Clone, PartialEq, Eq, PartialOrd, Ord, Structural)]
pub enum SupportedEncoding {
    /// File listings used to be compressed with xz, and archives still are.
    Xz,
    /// File listings are compressed with brotli.
    Brotli,
    /// No compression at all, as for `.narinfo` files.
    Identity,
}

/// The header fields of a request or a response, [`hyper::header::HeaderMap`].
#[verifier::external_type_specification]
#[verifier::external_body]
#[verifier::reject_recursive_types(T)]
pub struct ExHeaderMap<T>(HeaderMap<T>);

/// The value of a header field, [`hyper::header::HeaderValue`].
#[verifier::external_type_specification]
#[verifier::external_body]
pub struct ExHeaderValue(HeaderValue);

/// Why a header field has no typed value, [`typed_headers::Error`].
#[verifier::external_type_specification]
#[verifier::external_body]
pub struct ExHeaderError(HeaderError);

/// The values of the fields that `headers` holds, in order, under the name of the field in lower
/// case.
pub uninterp spec fn header_fields(headers: HeaderMap) -> Map<Seq<char>, Seq<Seq<u8>>>;

/// The values of the fields called `name`.
pub open spec fn field_values(
    fields: Map<Seq<char>, Seq<Seq<u8>>>,
    name: Seq<char>,
) -> Seq<Seq<u8>> {
    if fields.contains_key(name) {
        fields[name]
    } else {
        Seq::empty()
    }
}

/// The content codings that the values of `Content-Encoding` fields list, each by its canonical
/// name, as [`typed_headers::ContentEncoding`] reads them. `None` where the values are malformed.
pub uninterp spec fn listed_codings(values: Seq<Seq<u8>>) -> Option<Seq<Seq<char>>>;

/// Calls [`typed_headers::HeaderMapExt::typed_get`] for [`typed_headers::ContentEncoding`] and takes
/// the codings by their names. There is no value without a field of that name; with one, the result
/// is a function of the values of these fields, and a list is never empty.
#[verifier::external_body]
fn typed_content_encoding(headers: &HeaderMap) -> (result: Result<
    Option<Vec<String>>,
    HeaderError,
>)
    ensures
        result matches Ok(None) <==> field_values(
            header_fields(*headers),
            "content-encoding"@,
        ).len() == 0,
        result matches Ok(Some(codings)) ==> codings@.len() > 0 && listed_codings(
            field_values(header_fields(*headers), "content-encoding"@),
        ) == Some(texts(codings@)),
        result is Err ==> listed_codings(
            field_values(header_fields(*headers), "content-encoding"@),
        ) is None,
{
    let codings = headers.typed_get::<ContentEncoding>()?;
    Ok(codings.map(|list| list.iter().map(|coding| coding.as_str().to_string()).collect()))
}

/// What the `Content-Encoding` fields of a response say.
#[derive(Debug, PartialEq, Eq)]
pub enum ContentCodings {
    /// There is no such field.
    Absent,
    /// There are such fields, but they are not well-formed.
    Malformed,
    /// The codings, in the order in which they were applied.
    Listed(Vec<String>),
}

/// What [`ContentCodings`] stand for.
pub enum ContentCodingsView {
    Absent,
    Malformed,
    Listed(Seq<Seq<char>>),
}

impl View for ContentCodings {
    type V = ContentCodingsView;

    open spec fn view(&self) -> ContentCodingsView {
        match *self {
            ContentCodings::Absent => ContentCodingsView::Absent,
            ContentCodings::Malformed => ContentCodingsView::Malformed,
            ContentCodings::Listed(codings) => ContentCodingsView::Listed(texts(codings@)),
        }
    }
}

/// What `headers` say about the content codings.
pub open spec fn codings_of(headers: HeaderMap) -> ContentCodingsView {
    let values = field_values(header_fields(headers), "content-encoding"@);
    if values.len() == 0 {
        ContentCodingsView::Absent
    } else {
        match listed_codings(values) {
            Some(codings) => ContentCodingsView::Listed(codings),
            None => ContentCodingsView::Malformed,
        }
    }
}

/// Reads the `Content-Encoding` fields of a response.
pub fn content_codings(headers: &HeaderMap) -> (codings: ContentCodings)
    ensures
        codings@ == codings_of(*headers),
        codings matches ContentCodings::Listed(list) ==> list@.len() > 0,
{
    match typed_content_encoding(headers) {
        Ok(None) => ContentCodings::Absent,
        Ok(Some(codings)) => ContentCodings::Listed(codings),
        Err(_) => ContentCodings::Malformed,
    }
}

/// How a body is compressed: by the first coding that is listed, or not at all where none is. `None`
/// where that is not supported.
pub open spec fn encoding_for(codings: ContentCodingsView) -> Option<SupportedEncoding> {
    match codings {
        ContentCodingsView::Listed(list) if list.len() > 0 => {
            if list[0] == "br"@ {
                Some(SupportedEncoding::Brotli)
            } else if list[0] == "identity"@ {
                Some(SupportedEncoding::Identity)
            } else if list[0] == "xz"@ {
                Some(SupportedEncoding::Xz)
            } else {
                None
            }
        },
        _ => Some(SupportedEncoding::Identity),
    }
}

/// Picks the encoding that the `Content-Encoding` fields call for (see [`encoding_for`]).
pub fn select_encoding(codings: &ContentCodings) -> (encoding: Option<SupportedEncoding>)
    ensures
        encoding == encoding_for(codings@),
{
    match codings {
        ContentCodings::Listed(list) => {
            if list.len() == 0 {
                return Some(SupportedEncoding::Identity);
            }
            let first = list[0].as_str();
            if str_eq(first, "br") {
                Some(SupportedEncoding::Brotli)
            } else if str_eq(first, "identity") {
                Some(SupportedEncoding::Identity)
            } else if str_eq(first, "xz") {
                Some(SupportedEncoding::Xz)
            } else {
                None
            }
        },
        _ => Some(SupportedEncoding::Identity),
    }
}

/// Reads the encoding of a response from its headers.
///
/// The result is `None` where the headers indicate an encoding that is not supported. Where there is
/// no `Content-Encoding` field, the content is not compressed at all.
pub fn compute_encoding(headers: &HeaderMap) -> (encoding: Option<SupportedEncoding>)
    ensures
        encoding == encoding_for(codings_of(*headers)),
        field_values(header_fields(*headers), "content-encoding"@).len() == 0 ==> encoding == Some(
            SupportedEncoding::Identity,
        ),
{
    select_encoding(&content_codings(headers))
}

/// A [`xz2::write::XzDecoder`] that collects what it decodes.
#[verifier::external_body]
pub struct XzSink {
    decoder: XzDecoder<Vec<u8>>,
}

/// The chunks that were written to `sink`, in order.
pub uninterp spec fn xz_written(sink: XzSink) -> Seq<Seq<u8>>;

/// What the error prints with which a decoder that was given `written` refuses `chunk`; `None` where
/// it takes the chunk.
pub uninterp spec fn xz_refusal(written: Seq<Seq<u8>>, chunk: Seq<u8>) -> Option<Seq<char>>;

/// What a decoder has decoded when it is finished after `written`, or what its error prints.
pub uninterp spec fn xz_output(written: Seq<Seq<u8>>) -> Result<Seq<u8>, Seq<char>>;

/// Calls [`xz2::write::XzDecoder::new`]: nothing was written to the new decoder.
#[verifier::external_body]
fn xz_new() -> (sink: XzSink)
    ensures
        xz_written(sink) == Seq::<Seq<u8>>::empty(),
{
    XzSink { decoder: XzDecoder::new(Vec::new()) }
}

/// Calls `write_all` of a [`xz2::write::XzDecoder`] and prints its error. Whether and with what it
/// fails is a function of the chunk and of what was written before.
#[verifier::external_body]
fn xz_write_all(sink: &mut XzSink, chunk: &[u8]) -> (result: Result<(), String>)
    ensures
        match result {
            Ok(_) => xz_refusal(xz_written(*old(sink)), chunk@) is None,
            Err(cause) => xz_refusal(xz_written(*old(sink)), chunk@) == Some(cause@),
        },
        result is Ok ==> xz_written(*final(sink)) == xz_written(*old(sink)).push(chunk@),
{
    sink.decoder.write_all(chunk).map_err(|error| error.to_string())
}

/// Calls [`xz2::write::XzDecoder::finish`] and prints its error. What was decoded, or the error, is a
/// function of what was written.
#[verifier::external_body]
fn xz_finish(sink: XzSink) -> (result: Result<Vec<u8>, String>)
    ensures
        match result {
            Ok(output) => xz_output(xz_written(sink)) == Ok::<_, Seq<char>>(output@),
            Err(cause) => xz_output(xz_written(sink)) == Err::<Seq<u8>, _>(cause@),
        },
{
    let mut sink = sink;
    sink.decoder.finish().map_err(|error| error.to_string())
}

/// Why `body` is refused as the beginning of an xz body; `None` where it is not.
pub open spec fn xz_failure(body: Seq<u8>) -> Option<Seq<char>> {
    xz_refusal(Seq::empty(), body)
}

/// What an xz body holds, or why it cannot be decoded.
pub open spec fn xz_decoded(body: Seq<u8>) -> Result<Seq<u8>, Seq<char>> {
    match xz_failure(body) {
        Some(cause) => Err(cause),
        None => xz_output(seq![body]),
    }
}

/// A decoder that was given the beginning of an xz body (see [`xz_failure`]).
fn xz_begin(body: &[u8]) -> (result: Result<XzSink, String>)
    ensures
        match result {
            Ok(sink) => xz_failure(body@) is None && xz_written(sink) == seq![body@],
            Err(cause) => xz_failure(body@) == Some(cause@),
        },
{
    let mut sink = xz_new();
    match xz_write_all(&mut sink, body) {
        Ok(_) => {
            assert(xz_written(sink) =~= seq![body@]);
            Ok(sink)
        },
        Err(cause) => Err(cause),
    }
}

/// What reading a [`brotli2::bufread::BrotliDecoder`] over `body` to its end gives: what was decoded,
/// and how many bytes follow the end of the compressed stream; or what the error prints.
pub uninterp spec fn brotli_read(body: Seq<u8>) -> Result<(Seq<u8>, nat), Seq<char>>;

/// Makes a [`brotli2::bufread::BrotliDecoder`], calls its `read_to_end` and prints its error. What it
/// gives is a function of the body.
///
/// The decoder that is written to, [`brotli2::write::BrotliDecoder`], decodes the same bodies, but it
/// asserts that every write uses up some of the input, which does not hold where a little input
/// stands for much output.
#[verifier::external_body]
fn brotli_read_to_end(body: &[u8]) -> (result: Result<(Vec<u8>, usize), String>)
    ensures
        match result {
            Ok((content, left)) => brotli_read(body@) == Ok::<_, Seq<char>>(
                (content@, left as nat),
            ),
            Err(cause) => brotli_read(body@) == Err::<(Seq<u8>, nat), _>(cause@),
        },
{
    let mut decoder = BrotliDecoder::new(body);
    let mut content = Vec::new();
    decoder.read_to_end(&mut content).map_err(|error| error.to_string())?;
    Ok((content, decoder.get_ref().len()))
}

/// Finishes a [`brotli2::write::BrotliDecoder`] that nothing was written to, and prints its error. It
/// is the error that this decoder has for every stream that ends too early.
#[verifier::external_body]
fn brotli_finish_nothing() -> (cause: String)
    ensures
        cause@ == "brotli compressed stream is truncated or otherwise corrupt"@,
{
    let mut decoder = BrotliWriter::new(Vec::<u8>::new());
    decoder.finish().unwrap_err().to_string()
}

/// What is said of a brotli stream that ends too early.
pub open spec fn brotli_truncated() -> Seq<char> {
    "brotli compressed stream is truncated or otherwise corrupt"@
}

/// What the error of [`brotli2::bufread::BrotliDecoder`] prints for a stream that ends too early. A
/// stream that is corrupt gives an error that prints otherwise.
pub open spec fn brotli_cut_off() -> Seq<char> {
    "corrupted brotli stream"@
}

/// What is said where something follows the end of a compressed stream.
pub open spec fn left_over() -> Seq<char> {
    "failed to write whole buffer"@
}

/// Why `body` is refused as the beginning of a brotli body: the stream is corrupt, or something
/// follows it. `None` where it is not refused.
pub open spec fn brotli_failure(body: Seq<u8>) -> Option<Seq<char>> {
    match brotli_read(body) {
        Ok((_, left)) => if left == 0 {
            None
        } else {
            Some(left_over())
        },
        Err(cause) => if cause == brotli_cut_off() {
            None
        } else {
            Some(cause)
        },
    }
}

/// What a brotli body holds: one compressed stream, and nothing after it; or why it cannot be
/// decoded.
pub open spec fn brotli_decoded(body: Seq<u8>) -> Result<Seq<u8>, Seq<char>> {
    match brotli_failure(body) {
        Some(cause) => Err(cause),
        None => match brotli_read(body) {
            Ok((content, _)) => Ok(content),
            Err(_) => Err(brotli_truncated()),
        },
    }
}

/// What a body of `encoding` holds, or why it cannot be decoded.
pub open spec fn body_content(encoding: SupportedEncoding, body: Seq<u8>) -> Result<
    Seq<u8>,
    Seq<char>,
> {
    match encoding {
        SupportedEncoding::Xz => xz_decoded(body),
        SupportedEncoding::Brotli => brotli_decoded(body),
        SupportedEncoding::Identity => Ok(body),
    }
}

/// Why `body` is refused as the beginning of a body of `encoding`; `None` where it is not.
pub open spec fn body_failure(encoding: SupportedEncoding, body: Seq<u8>) -> Option<Seq<char>> {
    match encoding {
        SupportedEncoding::Xz => xz_failure(body),
        SupportedEncoding::Brotli => brotli_failure(body),
        SupportedEncoding::Identity => None,
    }
}

/// What a body of `encoding` holds that arrives as `chunks`, or why it cannot be decoded.
pub open spec fn decoded(encoding: SupportedEncoding, chunks: Seq<Seq<u8>>) -> Result<
    Seq<u8>,
    Seq<char>,
> {
    body_content(encoding, chunks.flatten())
}

/// What a brotli body is, as far as it has arrived.
#[derive(Debug, PartialEq, Eq)]
pub enum BrotliBody {
    /// A whole compressed stream, and nothing after it; what it holds.
    Whole(Vec<u8>),
    /// The beginning of a compressed stream.
    Begun,
    /// Something else; why it is refused.
    Refused(String),
}

/// Tells what a brotli body is, given what reading it to its end gave.
pub fn judge_brotli(read: Result<(Vec<u8>, usize), String>) -> (body: BrotliBody)
    ensures
        match read {
            Ok((content, left)) => if left == 0 {
                body == BrotliBody::Whole(content)
            } else {
                body matches BrotliBody::Refused(cause) && cause@ == left_over()
            },
            Err(cause) => if cause@ == brotli_cut_off() {
                body is Begun
            } else {
                body == BrotliBody::Refused(cause)
            },
        },
{
    match read {
        Ok((content, left)) => if left == 0 {
            BrotliBody::Whole(content)
        } else {
            BrotliBody::Refused("failed to write whole buffer".to_owned())
        },
        Err(cause) => if str_eq(cause.as_str(), "corrupted brotli stream") {
            BrotliBody::Begun
        } else {
            BrotliBody::Refused(cause)
        },
    }
}

/// A body that arrives chunk by chunk.
#[derive(Debug, PartialEq, Eq)]
pub struct BodyDecoder {
    encoding: SupportedEncoding,
    body: Vec<u8>,
}

/// What a [`BodyDecoder`] stands for: what has arrived so far.
pub struct BodyDecoderView {
    pub encoding: SupportedEncoding,
    pub body: Seq<u8>,
}

impl View for BodyDecoder {
    type V = BodyDecoderView;

    closed spec fn view(&self) -> BodyDecoderView {
        BodyDecoderView { encoding: self.encoding, body: self.body@ }
    }
}

impl BodyDecoder {
    /// A body of which nothing has arrived yet.
    pub fn new(encoding: SupportedEncoding) -> (decoder: BodyDecoder)
        ensures
            decoder@ == (BodyDecoderView { encoding, body: Seq::empty() }),
    {
        BodyDecoder { encoding, body: Vec::new() }
    }

    /// Takes the next chunk of the body.
    pub fn feed(self, chunk: &[u8]) -> (next: BodyDecoder)
        ensures
            next@ == (BodyDecoderView { body: self@.body + chunk@, ..self@ }),
    {
        let mut body = self.body;
        body.extend_from_slice(chunk);
        assert(body@ =~= self@.body + chunk@);
        BodyDecoder { encoding: self.encoding, body }
    }

    /// Why what has arrived is refused, though more may follow; `None` where it is not.
    pub fn failure(&self) -> (failure: Option<String>)
        ensures
            match failure {
                Some(cause) => body_failure(self@.encoding, self@.body) == Some(cause@),
                None => body_failure(self@.encoding, self@.body) is None,
            },
    {
        match self.encoding {
            SupportedEncoding::Xz => match xz_begin(self.body.as_slice()) {
                Ok(_) => None,
                Err(cause) => Some(cause),
            },
            SupportedEncoding::Brotli => match judge_brotli(
                brotli_read_to_end(self.body.as_slice()),
            ) {
                BrotliBody::Refused(cause) => Some(cause),
                _ => None,
            },
            SupportedEncoding::Identity => None,
        }
    }

    /// Ends the body that `url` answered with.
    pub fn finish(self, url: &String) -> (result: Result<Vec<u8>, Error>)
        ensures
            match body_content(self@.encoding, self@.body) {
                Ok(content) => result matches Ok(found) && found@ == content,
                Err(cause) => result matches Err(error) && error@ == ErrorView::Decode(url@, cause),
            },
            self@.encoding == SupportedEncoding::Identity ==> (result matches Ok(found) && found@
                == self@.body),
            self@.encoding == SupportedEncoding::Brotli ==> (result matches Ok(found)
                ==> brotli_read(self@.body) == Ok::<_, Seq<char>>((found@, 0nat))),
            self@.encoding == SupportedEncoding::Xz ==> (result matches Ok(found) ==> xz_output(
                seq![self@.body],
            ) == Ok::<_, Seq<char>>(found@)),
    {
        let content = match self.encoding {
            SupportedEncoding::Xz => match xz_begin(self.body.as_slice()) {
                Ok(sink) => xz_finish(sink),
                Err(cause) => Err(cause),
            },
            SupportedEncoding::Brotli => match judge_brotli(
                brotli_read_to_end(self.body.as_slice()),
            ) {
                BrotliBody::Whole(content) => Ok(content),
                BrotliBody::Begun => Err(brotli_finish_nothing()),
                BrotliBody::Refused(cause) => Err(cause),
            },
            SupportedEncoding::Identity => Ok(self.body),
        };
        match content {
            Ok(content) => Ok(content),
            Err(cause) => Err(Error::Decode(url.clone(), cause)),
        }
    }
}

/// A body without compression is always decoded, to the concatenation of its chunks.
pub proof fn law_identity_concatenates(chunks: Seq<Seq<u8>>)
    ensures
        decoded(SupportedEncoding::Identity, chunks) == Ok::<_, Seq<char>>(chunks.flatten()),
{
}

/// What a body holds does not depend on how it was cut into chunks.
pub proof fn law_chunks_are_joined(
    encoding: SupportedEncoding,
    chunks: Seq<Seq<u8>>,
    others: Seq<Seq<u8>>,
)
    requires
        chunks.flatten() == others.flatten(),
    ensures
        decoded(encoding, chunks) == decoded(encoding, others),
{
}

/// What is refused as the beginning of a body is refused as a whole body too, for the same reason.
pub proof fn law_failures_stay(encoding: SupportedEncoding, body: Seq<u8>)
    ensures
        body_failure(encoding, body) matches Some(cause) ==> body_content(encoding, body) == Err::<
            Seq<u8>,
            _,
        >(cause),
{
}

/// Without a `Content-Encoding` field nothing is decompressed, whatever else the headers hold.
pub proof fn law_no_header_means_identity(headers: HeaderMap)
    requires
        !header_fields(headers).contains_key("content-encoding"@),
    ensures
        encoding_for(codings_of(headers)) == Some(SupportedEncoding::Identity),
{
}

/// Only the first coding that is listed counts, and a supported encoding is never confused with
/// another.
pub proof fn law_first_coding_decides(list: Seq<Seq<char>>, other: Seq<Seq<char>>)
    requires
        list.len() > 0,
        other.len() > 0,
    ensures
        list[0] == other[0] ==> encoding_for(ContentCodingsView::Listed(list)) == encoding_for(
            ContentCodingsView::Listed(other),
        ),
        encoding_for(ContentCodingsView::Listed(list)) == Some(SupportedEncoding::Brotli)
            <==> list[0] == "br"@,
        encoding_for(ContentCodingsView::Listed(list)) == Some(SupportedEncoding::Identity)
            <==> list[0] == "identity"@,
        encoding_for(ContentCodingsView::Listed(list)) == Some(SupportedEncoding::Xz) <==> list[0]
            == "xz"@,
{
    reveal_strlit("br");
    reveal_strlit("identity");
    reveal_strlit("xz");
    assert("br"@[0] != "xz"@[0]);
}

/// A brotli body that is one whole stream holds everything that the stream holds, however long that
/// is. Where something follows the stream, where it ends too early and where it is corrupt, that is
/// an error; only what ends too early is not refused as the beginning of a body.
pub proof fn law_brotli_bodies_hold_their_stream(
    body: Seq<u8>,
    content: Seq<u8>,
    left: nat,
    cause: Seq<char>,
)
    ensures
        brotli_read(body) == Ok::<_, Seq<char>>((content, 0nat)) ==> body_content(
            SupportedEncoding::Brotli,
            body,
        ) == Ok::<_, Seq<char>>(content) && body_failure(SupportedEncoding::Brotli, body) is None,
        brotli_read(body) == Ok::<_, Seq<char>>((content, left)) && left > 0 ==> body_content(
            SupportedEncoding::Brotli,
            body,
        ) == Err::<Seq<u8>, _>("failed to write whole buffer"@) && body_failure(
            SupportedEncoding::Brotli,
            body,
        ) == Some("failed to write whole buffer"@),
        brotli_read(body) == Err::<(Seq<u8>, nat), _>("corrupted brotli stream"@) ==> body_content(
            SupportedEncoding::Brotli,
            body,
        ) == Err::<Seq<u8>, _>("brotli compressed stream is truncated or otherwise corrupt"@)
            && body_failure(SupportedEncoding::Brotli, body) is None,
        brotli_read(body) == Err::<(Seq<u8>, nat), _>(cause) && cause
            != "corrupted brotli stream"@ ==> body_content(SupportedEncoding::Brotli, body)
            == Err::<Seq<u8>, _>(cause) && body_failure(SupportedEncoding::Brotli, body) == Some(
            cause,
        ),
{
}

/// An xz body holds what the decoder gives that the whole body was written to, however long that is;
/// it is an error where the decoder refuses the body or cannot be finished.
pub proof fn law_xz_bodies_hold_their_stream(body: Seq<u8>)
    ensures
        body_failure(SupportedEncoding::Xz, body) == xz_refusal(Seq::empty(), body),
        xz_refusal(Seq::empty(), body) is None ==> body_content(SupportedEncoding::Xz, body)
            == xz_output(seq![body]),
        xz_refusal(Seq::empty(), body) matches Some(cause) ==> body_content(
            SupportedEncoding::Xz,
            body,
        ) == Err::<Seq<u8>, _>(cause),
{
}

/// A body without compression holds its bytes, and nothing of it is ever refused.
pub proof fn law_plain_bodies_hold_their_bytes(body: Seq<u8>)
    ensures
        body_content(SupportedEncoding::Identity, body) == Ok::<_, Seq<char>>(body),
        body_failure(SupportedEncoding::Identity, body) is None,
{
}

/// A body that arrives in one chunk holds what that chunk holds.
pub proof fn law_one_chunk_is_the_body(encoding: SupportedEncoding, body: Seq<u8>)
    ensures
        decoded(encoding, seq![body]) == body_content(encoding, body),
{
    assert(seq![body].drop_first() =~= Seq::empty());
    assert(seq![body].drop_first().flatten() =~= Seq::empty());
    assert(seq![body].flatten() =~= body);
}

/// The codings are those that the fields called `content-encoding` list, all of them and in order.
pub proof fn law_codings_are_those_of_the_fields(headers: HeaderMap, list: Seq<Seq<char>>)
    ensures
        !header_fields(headers).contains_key("content-encoding"@) ==> codings_of(headers)
            == ContentCodingsView::Absent,
        header_fields(headers).contains_key("content-encoding"@) ==> ({
            let values = header_fields(headers)["content-encoding"@];
            &&& values.len() == 0 ==> codings_of(headers) == ContentCodingsView::Absent
            &&& values.len() > 0 && listed_codings(values) is None ==> codings_of(headers)
                == ContentCodingsView::Malformed
            &&& values.len() > 0 && listed_codings(values) == Some(list) ==> codings_of(headers)
                == ContentCodingsView::Listed(list)
        }),
{
}

/// Where no coding is listed, for whatever reason, nothing is decompressed.
pub proof fn law_nothing_listed_means_identity()
    ensures
        encoding_for(ContentCodingsView::Absent) == Some(SupportedEncoding::Identity),
        encoding_for(ContentCodingsView::Malformed) == Some(SupportedEncoding::Identity),
        encoding_for(ContentCodingsView::Listed(Seq::empty())) == Some(
            SupportedEncoding::Identity,
        ),
{
}

/// Codings stand for each of them, in order.
pub proof fn law_codings_are_what_they_hold(codings: ContentCodings)
    ensures
        match codings {
            ContentCodings::Absent => codings@ == ContentCodingsView::Absent,
            ContentCodings::Malformed => codings@ == ContentCodingsView::Malformed,
            ContentCodings::Listed(list) => codings@ == ContentCodingsView::Listed(
                list@.map_values(|s: String| s@),
            ),
        },
{
}

} // verus!
