//! The requests that are sent.
use crate::client::{parse_uri, parsed_uri};
use crate::error::{listed, Error, ErrorView};
use crate::encoding::header_fields;
use crate::text::decimal_padded;
use hyper::header::HeaderMap;
use typed_headers::{AcceptEncoding, ContentCoding, HeaderMapExt, Quality, QualityItem};
use vstd::prelude::*;
use vstd::string::*;
use vstd::utf8::*;

verus! {

/// How long connecting and getting a response may take, in milliseconds.
pub const CONNECT_TIMEOUT_MS: u64 = 10000;

/// A content coding that a response may have.
#[derive(Debug, Copy, Clone, PartialEq, Eq)]
pub enum OfferedCoding {
    Brotli,
    Gzip,
    Deflate,
}

impl OfferedCoding {
    /// The name of the coding in a header.
    pub open spec fn name(self) -> Seq<char> {
        match self {
            OfferedCoding::Brotli => "br"@,
            OfferedCoding::Gzip => "gzip"@,
            OfferedCoding::Deflate => "deflate"@,
        }
    }
}

/// `digits` without the zeros at its end.
pub open spec fn without_zeros(digits: Seq<char>) -> Seq<char>
    decreases digits.len(),
{
    if digits.len() > 0 && digits.last() == '0' {
        without_zeros(digits.drop_last())
    } else {
        digits
    }
}

/// How a header states the weight of an item, in thousandths; nothing is stated for a full weight.
pub open spec fn weight(quality: u16) -> Seq<char> {
    if quality == 1000 {
        Seq::empty()
    } else if quality == 0 {
        "; q=0"@
    } else {
        "; q=0."@ + without_zeros(decimal_padded(quality as nat))
    }
}

/// What a header says for each of `offers`.
pub open spec fn offer_texts(offers: Seq<(OfferedCoding, u16)>) -> Seq<Seq<char>> {
    offers.map_values(|offer: (OfferedCoding, u16)| offer.0.name() + weight(offer.1))
}

/// Header fields that hold a single field.
pub open spec fn one_field(name: Seq<char>, value: Seq<char>) -> Map<Seq<char>, Seq<Seq<u8>>> {
    Map::empty().insert(name, seq![encode_utf8(value)])
}

/// Makes a [`typed_headers::AcceptEncoding`] of the codings and their qualities and puts it into new
/// header fields with [`typed_headers::HeaderMapExt::typed_insert`]. They then hold one field, which
/// lists the codings with their weights, in order.
#[verifier::external_body]
fn accept_encoding(offers: &[(OfferedCoding, u16)]) -> (headers: HeaderMap)
    requires
        forall|i: int| 0 <= i < offers@.len() ==> (#[trigger] offers@[i]).1 <= 1000,
    ensures
        header_fields(headers) == one_field("accept-encoding"@, listed(offer_texts(offers@))),
{
    let item = |offer: &(OfferedCoding, u16)| {
        let coding = match offer.0 {
            OfferedCoding::Brotli => ContentCoding::BROTLI,
            OfferedCoding::Gzip => ContentCoding::GZIP,
            OfferedCoding::Deflate => ContentCoding::DEFLATE,
        };
        QualityItem::new(coding, Quality::from_u16(offer.1))
    };
    let mut headers = HeaderMap::new();
    headers.typed_insert(&AcceptEncoding(offers.iter().map(item).collect()));
    headers
}

/// A GET request without a body.
#[derive(Debug)]
pub struct RequestHead {
    /// Where the request goes.
    pub uri: String,
    /// The header fields of the request.
    pub headers: HeaderMap,
}

/// The header fields of every request.
pub open spec fn request_fields() -> Map<Seq<char>, Seq<Seq<u8>>> {
    one_field("accept-encoding"@, "br, gzip, deflate"@)
}

/// The request to a URL, given what parsing the URL as a URI gave.
pub fn request_to(parsed: Result<String, String>) -> (result: Result<RequestHead, Error>)
    ensures
        match parsed {
            Ok(uri) => result matches Ok(head) && head.uri@ == uri@ && header_fields(head.headers)
                == request_fields(),
            Err(message) => result matches Err(error) && error@ == ErrorView::Url(message@),
        },
{
    match parsed {
        Ok(uri) => {
            let offers = [
                (OfferedCoding::Brotli, 1000u16),
                (OfferedCoding::Gzip, 1000u16),
                (OfferedCoding::Deflate, 1000u16),
            ];
            proof {
                lemma_offers(offers@);
            }
            Ok(RequestHead { uri, headers: accept_encoding(&offers) })
        },
        Err(message) => Err(Error::Url(message)),
    }
}

proof fn lemma_offers(offers: Seq<(OfferedCoding, u16)>)
    requires
        offers == seq![
            (OfferedCoding::Brotli, 1000u16),
            (OfferedCoding::Gzip, 1000u16),
            (OfferedCoding::Deflate, 1000u16),
        ],
    ensures
        listed(offer_texts(offers)) == "br, gzip, deflate"@,
{
    let texts = offer_texts(offers);
    let rest = texts.drop_first();
    assert(texts[0] =~= "br"@);
    assert(rest.len() == 2);
    assert(rest.last() =~= "deflate"@);
    assert(rest.drop_last().last() =~= "gzip"@);
    assert(rest.drop_last().drop_last().len() == 0);
    reveal_with_fuel(crate::error::with_commas, 3);
    reveal_strlit("br");
    reveal_strlit("gzip");
    reveal_strlit("deflate");
    reveal_strlit(", ");
    reveal_strlit("br, gzip, deflate");
    assert(listed(texts) =~= "br, gzip, deflate"@);
}

/// The request to `url`. It fails where `url` is not a URI.
pub fn make_request(url: &String) -> (result: Result<RequestHead, Error>)
    ensures
        match parsed_uri(url@) {
            Ok(uri) => result matches Ok(head) && head.uri@ == uri && header_fields(head.headers)
                == request_fields(),
            Err(message) => result matches Err(error) && error@ == ErrorView::Url(message),
        },
{
    request_to(parse_uri(url.as_str()))
}

/// Every request has one header field: it accepts brotli, gzip and deflate, in this order and each
/// with full weight.
pub proof fn law_requests_accept_three_codings(name: Seq<char>)
    ensures
        request_fields().contains_key(name) <==> name == "accept-encoding"@,
        request_fields()["accept-encoding"@].len() == 1,
        request_fields()["accept-encoding"@][0] == encode_utf8("br, gzip, deflate"@),
{
}

} // verus!
