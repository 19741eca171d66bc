//! Request addresses and credentials: the base address of a pack on the
//! backend, the addresses derived from it, and the key sent with every
//! request.

use vstd::prelude::*;
use vstd::utf8::encode_utf8;
use url::ParseError;
use url::Url;
use crate::error::SyncError;

verus! {

#[verifier::external_type_specification]
#[verifier::external_body]
pub struct ExParseError(ParseError);

/// The serialisation of the URL that the `url` crate reads from a text, or
/// `None` where it refuses the text.
pub uninterp spec fn parsed_url(text: Seq<char>) -> Option<Seq<char>>;

/// The serialisation of the URL read from a text after the segments were
/// appended to its path, or `None` where the text is refused or the URL
/// cannot be a base.
pub uninterp spec fn extended_url(text: Seq<char>, segments: Seq<Seq<char>>) -> Option<Seq<char>>;

/// The number of bytes of a text in UTF-8.
pub open spec fn byte_len(text: Seq<char>) -> nat {
    encode_utf8(text).len()
}

/// An upper bound on the bytes by which appending the segments lengthens
/// a URL: each byte of a segment may be percent-encoded into three, and
/// each segment brings at most two separators.
pub open spec fn growth(segments: Seq<Seq<char>>) -> nat
    decreases segments.len(),
{
    if segments.len() == 0 {
        0
    } else {
        growth(segments.drop_last()) + 3 * byte_len(segments.last()) + 2
    }
}

/// Whether a URL of this serialisation stays within the length that the
/// `url` crate can index once the segments are appended.
pub open spec fn fits(canonical: Seq<char>, segments: Seq<Seq<char>>) -> bool {
    byte_len(canonical) + growth(segments) <= u32::MAX
}

/// `Url::parse`, then the serialisation of the URL read. Succeeds exactly
/// where the crate accepts the text as an absolute URL.
#[verifier::external_body]
fn parse_url(text: &str) -> (r: Result<String, ParseError>)
    ensures
        match r {
            Ok(canonical) => parsed_url(text@) == Some(canonical@),
            Err(_) => parsed_url(text@) is None,
        },
{
    Url::parse(text).map(String::from)
}

/// `Url::parse`, `Url::path_segments_mut` and `PathSegmentsMut::extend`,
/// then the serialisation of the result. The crate indexes a URL with
/// 32-bit positions and stops the program on a longer one, so the caller
/// keeps the URL within that length.
#[verifier::external_body]
fn extend_url(text: &str, segments: &Vec<String>) -> (r: Option<String>)
    requires
        parsed_url(text@) matches Some(canonical) ==> fits(canonical, segments.deep_view()),
    ensures
        match r {
            Some(url) => extended_url(text@, segments.deep_view()) == Some(url@),
            None => extended_url(text@, segments.deep_view()) is None,
        },
{
    let mut url = match Url::parse(text) {
        Ok(url) => url,
        Err(_) => return None,
    };
    match url.path_segments_mut() {
        Ok(mut path) => {
            path.extend(segments);
        },
        Err(_) => return None,
    }
    Some(String::from(url))
}

/// Appending more segments never lowers the bound.
proof fn lemma_growth_monotone(segments: Seq<Seq<char>>, n: int)
    requires
        0 <= n <= segments.len(),
    ensures
        growth(segments.take(n)) <= growth(segments),
    decreases segments.len(),
{
    if n == segments.len() {
        assert(segments.take(n) =~= segments);
    } else {
        lemma_growth_monotone(segments.drop_last(), n);
        assert(segments.drop_last().take(n) =~= segments.take(n));
    }
}

/// Decides whether the segments can be appended to a URL of this
/// serialisation.
fn within_budget(canonical: &str, segments: &Vec<String>) -> (ok: bool)
    ensures
        ok == fits(canonical@, segments.deep_view()),
{
    let ghost all = segments.deep_view();
    let limit: u64 = 0xFFFF_FFFF;
    let base: usize = canonical.as_bytes().len();
    if base > 0xFFFF_FFFF {
        return false;
    }
    let mut total: u64 = base as u64;
    let mut i: usize = 0;
    assert(all.take(0) =~= Seq::<Seq<char>>::empty());
    while i < segments.len()
        invariant
            all == segments.deep_view(),
            limit == u32::MAX,
            i <= segments.len(),
            total == byte_len(canonical@) + growth(all.take(i as int)),
            total <= limit,
        decreases segments.len() - i,
    {
        let len: usize = segments[i].as_str().as_bytes().len();
        proof {
            assert(all.take(i as int + 1).drop_last() =~= all.take(i as int));
            assert(all.take(i as int + 1).last() == segments@[i as int]@);
            lemma_growth_monotone(all, i as int + 1);
        }
        if len > 0xFFFF_FFFF {
            return false;
        }
        total = total + 3 * (len as u64) + 2;
        if total > limit {
            return false;
        }
        i = i + 1;
    }
    assert(all.take(i as int) =~= all);
    true
}

/// The name of the header that carries the key.
pub const KEY_HEADER: &'static str = "X-EPU-Key";

/// One authenticated GET request, ready to be sent.
#[derive(Clone, Debug, PartialEq, Eq)]
pub struct Request {
    /// The address to fetch.
    pub url: String,
    /// The value of the key header.
    pub key: String,
}

/// The mathematical value of a `Request`.
pub ghost struct RequestModel {
    pub url: Seq<char>,
    pub key: Seq<char>,
}

impl View for Request {
    type V = RequestModel;

    open spec fn view(&self) -> RequestModel {
        RequestModel { url: self.url@, key: self.key@ }
    }
}

/// The mathematical value of an `HttpClient`.
pub ghost struct ClientModel {
    /// The base address as it was given.
    pub base: Seq<char>,
    /// The base address as the URL parser writes it.
    pub canonical: Seq<char>,
    /// The key sent with every request.
    pub key: Seq<char>,
}

impl ClientModel {
    /// A base address that the URL parser accepts, beside what it reads
    /// from it.
    pub open spec fn wf(self) -> bool {
        parsed_url(self.base) == Some(self.canonical)
    }

    /// The address of the resource that the components lead to below the
    /// base, or `None` where there is none: the base cannot carry a path,
    /// or the result would be longer than a URL can be.
    pub open spec fn url(self, components: Seq<Seq<char>>) -> Option<Seq<char>> {
        if fits(self.canonical, components) {
            extended_url(self.base, components)
        } else {
            None
        }
    }

    /// The request for the resource that the components lead to.
    pub open spec fn request(self, components: Seq<Seq<char>>) -> Option<RequestModel> {
        match self.url(components) {
            Some(url) => Some(RequestModel { url, key: self.key }),
            None => None,
        }
    }
}

/// The addresses and the key of one pack on one backend.
#[allow(non_snake_case)]
pub struct HttpClient {
    baseUrl: String,
    canonical: String,
    apiKey: String,
}

impl View for HttpClient {
    type V = ClientModel;

    closed spec fn view(&self) -> ClientModel {
        ClientModel { base: self.baseUrl@, canonical: self.canonical@, key: self.apiKey@ }
    }
}

impl HttpClient {
    #[verifier::type_invariant]
    pub open spec fn valid(&self) -> bool {
        self@.wf()
    }

    /// A client for the pack at `baseUrl`, or `InvalidUrl` where that is
    /// no absolute URL.
    #[allow(non_snake_case)]
    pub fn new(baseUrl: String, apiKey: String) -> (r: Result<HttpClient, SyncError>)
        ensures
            match r {
                Ok(client) => {
                    &&& parsed_url(baseUrl@) is Some
                    &&& client@ == (ClientModel {
                        base: baseUrl@,
                        canonical: parsed_url(baseUrl@)->0,
                        key: apiKey@,
                    })
                },
                Err(e) => parsed_url(baseUrl@) is None && e@ == crate::error::Fault::InvalidUrl,
            },
    {
        match parse_url(baseUrl.as_str()) {
            Ok(canonical) => Ok(HttpClient { baseUrl, canonical, apiKey }),
            Err(_) => Err(SyncError::InvalidUrl),
        }
    }

    /// The address below the base that the components lead to, each
    /// component one path segment, or `None` where there is none.
    pub fn build_url(&self, components: &Vec<String>) -> (r: Option<String>)
        ensures
            match r {
                Some(url) => self@.url(components.deep_view()) == Some(url@),
                None => self@.url(components.deep_view()) is None,
            },
    {
        proof {
            use_type_invariant(self);
        }
        if within_budget(self.canonical.as_str(), components) {
            extend_url(self.baseUrl.as_str(), components)
        } else {
            None
        }
    }

    /// The request for an address: a GET that carries the key.
    pub fn request(&self, url: String) -> (request: Request)
        ensures
            request@ == (RequestModel { url: url@, key: self@.key }),
    {
        Request { url, key: self.apiKey.clone() }
    }
}

} // verus!
