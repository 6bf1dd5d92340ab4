//! The part of an HTTP request that routing reads, and what a request line
//! asks for: the method, the path before the query, and the pairs of the query.

use crate::text::{chars_of, is_unsigned, parse_unsigned, same_text, unsigned_value};
use url::form_urlencoded;
use vstd::prelude::*;

verus! {

/// The head of a request: its method and its URL as the client sent it, with
/// the query and without any decoding.
#[derive(Debug, PartialEq, Eq)]
pub struct Request {
    pub method: String,
    pub url: String,
}

/// What came of reading and decoding the body of a request.
#[derive(Debug, PartialEq, Eq)]
pub enum Body<N, P> {
    /// The request has no body to read.
    Missing,
    /// The body is not of the form that the request line calls for.
    Malformed,
    /// The body describes a new entity.
    New(N),
    /// The body names the fields of an entity to overwrite.
    Partial(P),
}

impl<N: View, P: View> View for Body<N, P> {
    type V = Body<N::V, P::V>;

    open spec fn view(&self) -> Body<N::V, P::V> {
        match self {
            Body::Missing => Body::Missing,
            Body::Malformed => Body::Malformed,
            Body::New(entity) => Body::New(entity@),
            Body::Partial(fields) => Body::Partial(fields@),
        }
    }
}

/// What an HTTP response carries.
#[derive(Debug, PartialEq, Eq)]
pub enum Content<E, L> {
    /// No body at all.
    Empty,
    /// One entity, to be written as a bare JSON object.
    Entity(E),
    /// A list in its wrapper, to be written as a JSON object that holds the list.
    List(L),
}

impl<E: View, L: View> View for Content<E, L> {
    type V = Content<E::V, L::V>;

    open spec fn view(&self) -> Content<E::V, L::V> {
        match self {
            Content::Empty => Content::Empty,
            Content::Entity(entity) => Content::Entity(entity@),
            Content::List(list) => Content::List(list@),
        }
    }
}

/// An HTTP response before it is put on the wire: its status and what it carries.
#[derive(Debug, PartialEq, Eq)]
pub struct Response<E, L> {
    pub status_code: u16,
    pub content: Content<E, L>,
}

impl<E: View, L: View> View for Response<E, L> {
    type V = Response<E::V, L::V>;

    open spec fn view(&self) -> Response<E::V, L::V> {
        Response { status_code: self.status_code, content: self.content@ }
    }
}

/// Which body a request line calls for.
#[derive(Clone, Copy, Debug, PartialEq, Eq, Structural)]
pub enum BodyKind {
    Nothing,
    New,
    Partial,
}

/// What the path of a request names.
#[derive(Clone, Copy, Debug, PartialEq, Eq, Structural)]
pub enum PathShape {
    /// The path `/`: the resource as a whole.
    Collection,
    /// A slash and one segment that writes an id.
    Item(u64),
    /// Anything else.
    Other,
}

/// The number of characters of `text` that stand before the first `mark`,
/// or the length of `text` where it holds none.
pub open spec fn position(text: Seq<char>, mark: char) -> nat
    decreases text.len(),
{
    if text.len() == 0 || text[0] == mark {
        0
    } else {
        1 + position(text.skip(1), mark)
    }
}

/// The path of a URL: what stands before the first `?`.
pub open spec fn path_of(url: Seq<char>) -> Seq<char> {
    url.take(position(url, '?') as int)
}

/// The raw query of a URL: what stands after the first `?`, and nothing
/// where there is none.
pub open spec fn query_of(url: Seq<char>) -> Seq<char> {
    if position(url, '?') < url.len() {
        url.skip(position(url, '?') as int + 1)
    } else {
        Seq::empty()
    }
}

/// A segment of a path with its percent-escapes resolved, as
/// `percent_decode` and `decode_utf8_lossy` of the crate `percent_encoding` give it.
pub uninterp spec fn percent_decoded(segment: Seq<char>) -> Seq<char>;

/// The name and value pairs of a raw query, as `form_urlencoded::parse` yields them.
pub uninterp spec fn form_pairs(query: Seq<char>) -> Seq<(Seq<char>, Seq<char>)>;

/// The views of a list of pairs.
pub open spec fn pair_views(pairs: Seq<(String, String)>) -> Seq<(Seq<char>, Seq<char>)> {
    Seq::new(pairs.len(), |i: int| (pairs[i].0@, pairs[i].1@))
}

/// What a path names, given what its one segment decodes to.
pub open spec fn shape_with(path: Seq<char>, decoded: Seq<char>) -> PathShape {
    if path == seq!['/'] {
        PathShape::Collection
    } else if path.len() > 0 && path[0] == '/' && !path.skip(1).contains('/') && is_unsigned(
        decoded,
        u64::MAX as nat,
    ) {
        PathShape::Item(unsigned_value(decoded) as u64)
    } else {
        PathShape::Other
    }
}

/// What a path names. An id is one segment whose decoded text is an
/// unsigned decimal literal that fits 64 bits.
pub open spec fn path_shape(path: Seq<char>) -> PathShape {
    shape_with(path, percent_decoded(path.skip(1)))
}

/// Which body a request line calls for: a new entity where it posts to the
/// collection, fields to overwrite where it posts to an item.
pub open spec fn body_kind_of(method: Seq<char>, shape: PathShape) -> BodyKind {
    if method == "POST"@ {
        match shape {
            PathShape::Collection => BodyKind::New,
            PathShape::Item(_) => BodyKind::Partial,
            PathShape::Other => BodyKind::Nothing,
        }
    } else {
        BodyKind::Nothing
    }
}

proof fn lemma_position(text: Seq<char>, mark: char, at: int)
    requires
        0 <= at <= text.len(),
        forall|k: int| 0 <= k < at ==> text[k] != mark,
        at < text.len() ==> text[at] == mark,
    ensures
        position(text, mark) == at,
    decreases at,
{
    if at > 0 {
        let rest = text.skip(1);
        assert forall|k: int| 0 <= k < at - 1 implies rest[k] != mark by {
            assert(rest[k] == text[k + 1]);
        }
        lemma_position(rest, mark, at - 1);
    }
}

/// Resolves the percent-escapes of a path segment. Calls `percent_decode`
/// on the bytes of the segment and `decode_utf8_lossy` on what it gives;
/// the result is named, not described.
#[verifier::external_body]
fn percent_decode(segment: &str) -> (decoded: String)
    ensures
        decoded@ == percent_decoded(segment@),
{
    rouille::percent_encoding::percent_decode(segment.as_bytes()).decode_utf8_lossy().into_owned()
}

/// Splits a raw query into its pairs, names and values decoded. Calls
/// `form_urlencoded::parse` on the bytes of the query; the result is named,
/// not described.
#[verifier::external_body]
fn parse_form(query: &str) -> (pairs: Vec<(String, String)>)
    ensures
        pair_views(pairs@) == form_pairs(query@),
{
    form_urlencoded::parse(query.as_bytes()).into_owned().collect()
}

/// Says what a path names, given what its one segment decodes to.
pub fn shape_of_path(path: &str, decoded: &str) -> (shape: PathShape)
    ensures
        shape == shape_with(path@, decoded@),
{
    let chars = chars_of(path);
    let n = chars.len();
    if n == 0 || chars[0] != '/' {
        return PathShape::Other;
    }
    if n == 1 {
        assert(path@ =~= seq!['/']);
        return PathShape::Collection;
    }
    let mut i: usize = 1;
    while i < n
        invariant
            1 <= i <= n,
            n == chars.len(),
            chars@ == path@,
            forall|k: int| 1 <= k < i ==> chars@[k] != '/',
        decreases n - i,
    {
        if chars[i] == '/' {
            assert(path@.skip(1)[i as int - 1] == '/');
            return PathShape::Other;
        }
        i += 1;
    }
    assert(!path@.skip(1).contains('/')) by {
        if path@.skip(1).contains('/') {
            let k = choose|k: int| 0 <= k < path@.skip(1).len() && path@.skip(1)[k] == '/';
            assert(chars@[k + 1] == '/');
        }
    }
    let digits = chars_of(decoded);
    match parse_unsigned(&digits, u64::MAX) {
        Some(id) => PathShape::Item(id),
        None => PathShape::Other,
    }
}

impl Request {
    /// The path of the request: its URL up to the query.
    pub fn path(&self) -> (path: String)
        ensures
            path@ == path_of(self.url@),
    {
        let chars = chars_of(self.url.as_str());
        let at = find(&chars, '?');
        self.url.as_str().substring_char(0, at).to_owned()
    }

    /// The raw query of the request: what follows the first `?` of its URL.
    pub fn raw_query_string(&self) -> (query: String)
        ensures
            query@ == query_of(self.url@),
    {
        let chars = chars_of(self.url.as_str());
        let at = find(&chars, '?');
        if at < chars.len() {
            self.url.as_str().substring_char(at + 1, chars.len()).to_owned()
        } else {
            String::new()
        }
    }

    /// What the path of the request names.
    pub fn shape(&self) -> (shape: PathShape)
        ensures
            shape == path_shape(path_of(self.url@)),
    {
        let path = self.path();
        let chars = chars_of(path.as_str());
        if chars.len() == 0 {
            assert(path_shape(path@) == PathShape::Other);
            return PathShape::Other;
        }
        let segment = path.as_str().substring_char(1, chars.len());
        assert(segment@ =~= path@.skip(1));
        let decoded = percent_decode(segment);
        shape_of_path(path.as_str(), decoded.as_str())
    }

    /// The pairs of the query of the request.
    pub fn query_pairs(&self) -> (pairs: Vec<(String, String)>)
        ensures
            pair_views(pairs@) == form_pairs(query_of(self.url@)),
    {
        let query = self.raw_query_string();
        parse_form(query.as_str())
    }

    /// Which body the request line calls for.
    pub fn body_kind(&self) -> (kind: BodyKind)
        ensures
            kind == body_kind_of(self.method@, path_shape(path_of(self.url@))),
    {
        if same_text(self.method.as_str(), "POST") {
            match self.shape() {
                PathShape::Collection => BodyKind::New,
                PathShape::Item(_) => BodyKind::Partial,
                PathShape::Other => BodyKind::Nothing,
            }
        } else {
            BodyKind::Nothing
        }
    }
}

/// Finds the first `mark` in `chars`.
fn find(chars: &Vec<char>, mark: char) -> (at: usize)
    ensures
        at == position(chars@, mark),
        at <= chars.len(),
{
    let mut i: usize = 0;
    while i < chars.len()
        invariant
            i <= chars.len(),
            forall|k: int| 0 <= k < i ==> chars@[k] != mark,
        decreases chars.len() - i,
    {
        if chars[i] == mark {
            proof {
                lemma_position(chars@, mark, i as int);
            }
            return i;
        }
        i += 1;
    }
    proof {
        lemma_position(chars@, mark, i as int);
    }
    i
}

} // verus!
