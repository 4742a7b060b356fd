//! The client of the frontend: where its requests go and what they hold.

use vstd::prelude::*;
use vstd::string::StrSliceExecFns;

use crate::messages::{GetRequest, PutRequest, Value};
use crate::text::{lemma_separator_from, same, separator_from, split, split_text, texts};

verus! {

/// The error of hyper for a URI that cannot be built.
#[verifier::external_type_specification]
#[verifier::external_body]
pub struct ExHttpError(hyper::http::Error);

/// The error of hyper for a text that is no URI.
#[verifier::external_type_specification]
#[verifier::external_body]
pub struct ExInvalidUri(hyper::http::uri::InvalidUri);

/// Why a client could not be built.
#[derive(Debug)]
pub enum ClientBuilderError {
    MissingRootCertPath,
    MissingBaseUri(String),
    InvalidActionUri(hyper::http::Error),
}

/// Why a text is no base URI.
#[derive(Debug)]
pub enum BaseUriError {
    InvalidUri(hyper::http::uri::InvalidUri),
}

/// The parts of a URI.
#[derive(Debug)]
pub struct BaseUri {
    pub scheme: Option<String>,
    pub authority: Option<String>,
    pub path_and_query: Option<String>,
}

/// An optional text.
pub open spec fn optional_text(text: Option<String>) -> Option<Seq<char>> {
    match text {
        Some(text) => Some(text@),
        None => None,
    }
}

/// The scheme, the authority and the path and query of a URI, if the text is one.
pub uninterp spec fn uri_parts(text: Seq<char>) -> Option<
    (Option<Seq<char>>, Option<Seq<char>>, Option<Seq<char>>),
>;

/// Whether a URI can be built of a scheme, an authority and a path.
pub uninterp spec fn uri_builds(scheme: Seq<char>, authority: Seq<char>, path: Seq<char>) -> bool;

/// Takes the text of a URI apart.
///
/// Calls `str::parse` for `hyper::Uri` and `Uri::into_parts`. The grammar of URIs is not
/// stated: the parts only have a name. What is stated is that a scheme and an authority
/// that came out can be built together again, with either of the paths of this client: the
/// builder checks them the same way.
#[verifier::external_body]
fn parse_uri(text: &str) -> (result: Result<BaseUri, hyper::http::uri::InvalidUri>)
    ensures
        match result {
            Ok(uri) => uri_parts(text@) == Some(
                (
                    optional_text(uri.scheme),
                    optional_text(uri.authority),
                    optional_text(uri.path_and_query),
                ),
            ),
            Err(_) => uri_parts(text@) is None,
        },
        result matches Ok(uri) ==> uri.buildable(),
{
    let parts = text.parse::<hyper::Uri>()?.into_parts();
    Ok(BaseUri {
        scheme: parts.scheme.map(|scheme| scheme.as_str().to_owned()),
        authority: parts.authority.map(|authority| authority.as_str().to_owned()),
        path_and_query: parts.path_and_query.map(|path| path.as_str().to_owned()),
    })
}

/// Builds a URI of a scheme, an authority and one of the paths of this client.
///
/// Calls `hyper::Uri::builder` with its methods `scheme`, `authority`, `path_and_query` and
/// `build`, and shows the URI as a text. Which schemes and authorities are valid is not
/// stated: that a URI is built only has a name. The text is stated.
#[verifier::external_body]
fn build_uri(scheme: &str, authority: &str, path: &str) -> (result: Result<
    String,
    hyper::http::Error,
>)
    requires
        path@ == "/get"@ || path@ == "/put"@,
    ensures
        result is Ok <==> uri_builds(scheme@, authority@, path@),
        result matches Ok(uri) ==> uri@ == scheme@ + "://"@ + authority@ + path@,
{
    let builder = hyper::Uri::builder().scheme(scheme).authority(authority);
    Ok(builder.path_and_query(path).build()?.to_string())
}

/// A new identifier for a request.
///
/// Calls `uuid::Uuid::new_v4` and shows the identifier as a text: thirty-two digits to the
/// base sixteen in five groups, of which one is always a four and one is from eight to eleven.
/// The other digits are up to chance and not stated.
#[verifier::external_body]
fn new_request_id() -> (id: String)
    ensures
        is_request_id(id@),
{
    uuid::Uuid::new_v4().to_string()
}

/// Whether a character is a digit to the base sixteen, in lower case.
pub open spec fn is_hex_digit(character: char) -> bool {
    ('0' <= character && character <= '9') || ('a' <= character && character <= 'f')
}

/// Whether a text has the form of a random identifier.
pub open spec fn is_request_id(id: Seq<char>) -> bool {
    &&& id.len() == 36
    &&& id[8] == '-' && id[13] == '-' && id[18] == '-' && id[23] == '-'
    &&& id[14] == '4'
    &&& id[19] == '8' || id[19] == '9' || id[19] == 'a' || id[19] == 'b'
    &&& forall|i: int|
        0 <= i < 36 && i != 8 && i != 13 && i != 18 && i != 23 ==> is_hex_digit(#[trigger] id[i])
}

impl BaseUri {
    /// Whether the requests of a client can go to this URI.
    pub open spec fn buildable(self) -> bool {
        self.scheme matches Some(scheme) ==> self.authority matches Some(authority) ==> uri_builds(
            scheme@,
            authority@,
            "/get"@,
        ) && uri_builds(scheme@, authority@, "/put"@)
    }

    /// Reads a URI.
    pub fn parse(text: &str) -> (result: Result<BaseUri, BaseUriError>)
        ensures
            match result {
                Ok(uri) => uri_parts(text@) == Some(
                    (
                        optional_text(uri.scheme),
                        optional_text(uri.authority),
                        optional_text(uri.path_and_query),
                    ),
                ) && uri.buildable(),
                Err(_) => uri_parts(text@) is None,
            },
    {
        match parse_uri(text) {
            Ok(uri) => Ok(uri),
            Err(error) => Err(BaseUriError::InvalidUri(error)),
        }
    }
}

/// What a client needs of its base URI.
#[derive(Debug)]
pub struct ParsedUri {
    pub authority: String,
    pub scheme: String,
}

impl ClientBuilderError {
    /// Whether this is [`ClientBuilderError::MissingBaseUri`] with the given text.
    pub open spec fn is_missing_base_uri(self, text: Seq<char>) -> bool {
        self matches ClientBuilderError::MissingBaseUri(message) && message@ == text
    }
}

impl ParsedUri {
    /// The text of the error for a base URI, if there is one.
    pub open spec fn base_uri_failure(uri: BaseUri) -> Option<Seq<char>> {
        if uri.path_and_query is Some && uri.path_and_query->0@ != "/"@ {
            Some("Provided Base URI can not have a path and query section"@)
        } else if uri.authority is None {
            Some("Provided Base URI has no Authority"@)
        } else if uri.scheme is None {
            Some("Provided Base URI must have a scheme"@)
        } else {
            None
        }
    }

    /// Takes what a client needs from its base URI: it needs a scheme and an authority, and
    /// nothing but the root as its path.
    pub fn parse_base_uri(uri: BaseUri) -> (result: Result<ParsedUri, ClientBuilderError>)
        ensures
            match result {
                Ok(parsed) => {
                    &&& Self::base_uri_failure(uri) is None
                    &&& uri.authority == Some(parsed.authority)
                    &&& uri.scheme == Some(parsed.scheme)
                },
                Err(error) => Self::base_uri_failure(uri) matches Some(text)
                    && error.is_missing_base_uri(text),
            },
    {
        if let Some(path_and_query) = uri.path_and_query {
            if !same(path_and_query.as_str(), "/") {
                return Err(
                    ClientBuilderError::MissingBaseUri(
                        "Provided Base URI can not have a path and query section".to_owned(),
                    ),
                );
            }
        }
        match (uri.authority, uri.scheme) {
            (None, _) => Err(
                ClientBuilderError::MissingBaseUri("Provided Base URI has no Authority".to_owned()),
            ),
            (Some(_), None) => Err(
                ClientBuilderError::MissingBaseUri(
                    "Provided Base URI must have a scheme".to_owned(),
                ),
            ),
            (Some(authority), Some(scheme)) => Ok(ParsedUri { authority, scheme }),
        }
    }
}

/// Where the requests of a client go.
#[derive(Debug)]
pub struct Endpoints {
    /// The authority of all the endpoints.
    pub authority: String,
    /// Where values are read.
    pub get_uri: String,
    /// Where values are written.
    pub put_uri: String,
}

impl Endpoints {
    /// The endpoints under a base URI.
    pub fn initialize(uri: Option<BaseUri>) -> (result: Result<Endpoints, ClientBuilderError>)
        ensures
            match result {
                Ok(endpoints) => {
                    &&& uri matches Some(base)
                    &&& ParsedUri::base_uri_failure(base) is None
                    &&& endpoints.authority == base.authority->0
                    &&& endpoints.get_uri@ == base.scheme->0@ + "://"@ + base.authority->0@
                        + "/get"@
                    &&& endpoints.put_uri@ == base.scheme->0@ + "://"@ + base.authority->0@
                        + "/put"@
                    &&& base.buildable()
                },
                Err(ClientBuilderError::MissingBaseUri(message)) => match uri {
                    None => message@ == "Required to provide a Base URI"@,
                    Some(base) => ParsedUri::base_uri_failure(base) == Some(message@),
                },
                Err(ClientBuilderError::InvalidActionUri(_)) => {
                    &&& uri matches Some(base)
                    &&& ParsedUri::base_uri_failure(base) is None
                    &&& !base.buildable()
                },
                Err(ClientBuilderError::MissingRootCertPath) => false,
            },
    {
        let uri_to_parse = match uri {
            Some(uri) => uri,
            None => {
                return Err(
                    ClientBuilderError::MissingBaseUri("Required to provide a Base URI".to_owned()),
                );
            },
        };
        let parsed_uri = match ParsedUri::parse_base_uri(uri_to_parse) {
            Ok(parsed_uri) => parsed_uri,
            Err(error) => {
                return Err(error);
            },
        };
        let scheme = parsed_uri.scheme.as_str();
        let get_uri = match build_uri(scheme, parsed_uri.authority.as_str(), "/get") {
            Ok(get_uri) => get_uri,
            Err(error) => {
                return Err(ClientBuilderError::InvalidActionUri(error));
            },
        };
        let put_uri = match build_uri(scheme, parsed_uri.authority.as_str(), "/put") {
            Ok(put_uri) => put_uri,
            Err(error) => {
                return Err(ClientBuilderError::InvalidActionUri(error));
            },
        };
        Ok(Endpoints { authority: parsed_uri.authority, get_uri, put_uri })
    }
}

/// Gathers what a client needs. `P` is the path of a file.
#[derive(Debug)]
pub struct ClientBuilder<P> {
    /// The path of the certificate that the client trusts.
    pub ca_cert_path: Option<P>,
    /// The URI under which the requests go.
    pub base_uri: Option<BaseUri>,
}

impl<P> ClientBuilder<P> {
    /// Nothing gathered yet.
    pub fn new() -> (builder: Self)
        ensures
            builder.ca_cert_path is None,
            builder.base_uri is None,
    {
        ClientBuilder { ca_cert_path: None, base_uri: None }
    }

    /// Sets the path of the certificate that the client trusts.
    pub fn with_root_cert_path(self, root_cert_path: P) -> (builder: Self)
        ensures
            builder.ca_cert_path == Some(root_cert_path),
            builder.base_uri == self.base_uri,
    {
        ClientBuilder { ca_cert_path: Some(root_cert_path), base_uri: self.base_uri }
    }

    /// Sets the URI under which the requests go.
    pub fn with_base_uri(self, base_uri: BaseUri) -> (builder: Self)
        ensures
            builder.ca_cert_path == self.ca_cert_path,
            builder.base_uri == Some(base_uri),
    {
        ClientBuilder { ca_cert_path: self.ca_cert_path, base_uri: Some(base_uri) }
    }

    /// Starts to build the client: it needs a certificate. Once that is loaded,
    /// [`RisDbClient::new`] ends it with the base URI.
    pub fn build(self) -> (result: Result<(P, Option<BaseUri>), ClientBuilderError>)
        ensures
            match result {
                Ok((path, uri)) => self.ca_cert_path == Some(path) && uri == self.base_uri,
                Err(error) => self.ca_cert_path is None && error is MissingRootCertPath,
            },
    {
        match self.ca_cert_path {
            Some(path) => Ok((path, self.base_uri)),
            None => Err(ClientBuilderError::MissingRootCertPath),
        }
    }
}

/// What stands in front of the body of a request.
#[derive(Debug)]
pub struct RequestHead {
    pub method: String,
    pub uri: String,
    /// The value of the host header.
    pub host: String,
}

impl RequestHead {
    /// Whether this posts to a URI of a host.
    pub open spec fn posts_to(self, uri: Seq<char>, host: Seq<char>) -> bool {
        self.method@ == "POST"@ && self.uri@ == uri && self.host@ == host
    }
}

/// A client of the frontend.
#[derive(Debug)]
pub struct RisDbClient {
    pub endpoints: Endpoints,
}

impl RisDbClient {
    /// A client of what is served under a base URI.
    pub fn new(uri: Option<BaseUri>) -> (result: Result<RisDbClient, ClientBuilderError>)
        ensures
            match result {
                Ok(client) => {
                    &&& uri matches Some(base)
                    &&& ParsedUri::base_uri_failure(base) is None
                    &&& client.endpoints.authority == base.authority->0
                    &&& client.endpoints.get_uri@ == base.scheme->0@ + "://"@ + base.authority->0@
                        + "/get"@
                    &&& client.endpoints.put_uri@ == base.scheme->0@ + "://"@ + base.authority->0@
                        + "/put"@
                    &&& base.buildable()
                },
                Err(ClientBuilderError::MissingBaseUri(message)) => match uri {
                    None => message@ == "Required to provide a Base URI"@,
                    Some(base) => ParsedUri::base_uri_failure(base) == Some(message@),
                },
                Err(ClientBuilderError::InvalidActionUri(_)) => {
                    &&& uri matches Some(base)
                    &&& ParsedUri::base_uri_failure(base) is None
                    &&& !base.buildable()
                },
                Err(ClientBuilderError::MissingRootCertPath) => false,
            },
    {
        match Endpoints::initialize(uri) {
            Ok(endpoints) => Ok(RisDbClient { endpoints }),
            Err(error) => Err(error),
        }
    }

    /// The request that reads the values of keys, under a new identifier.
    pub fn get(&self, keys: Vec<String>) -> (request: (RequestHead, GetRequest))
        ensures
            request.0.posts_to(self.endpoints.get_uri@, self.endpoints.authority@),
            is_request_id(request.1.request_id@),
            request.1.keys == keys,
    {
        (
            self.create_hyper_request(&self.endpoints.get_uri),
            GetRequest { request_id: new_request_id(), keys },
        )
    }

    /// The request that writes values, under a new identifier.
    pub fn put(&self, values: Vec<Value>) -> (request: (RequestHead, PutRequest))
        ensures
            request.0.posts_to(self.endpoints.put_uri@, self.endpoints.authority@),
            is_request_id(request.1.request_id@),
            request.1.values == values,
    {
        (
            self.create_hyper_request(&self.endpoints.put_uri),
            PutRequest { request_id: new_request_id(), values },
        )
    }

    /// The head of a request to one of the endpoints.
    fn create_hyper_request(&self, uri: &String) -> (head: RequestHead)
        ensures
            head.posts_to(uri@, self.endpoints.authority@),
    {
        RequestHead {
            method: "POST".to_owned(),
            uri: uri.clone(),
            host: self.endpoints.authority.clone(),
        }
    }
}

/// Reads keys with commas between them.
pub fn parse_keys(input: &str) -> (keys: Vec<String>)
    ensures
        texts(keys@) == split_text(input@, ','),
{
    split(input, ',')
}

/// The text in front of the first semicolon and the text behind it, if there is one.
pub open spec fn key_and_value(pair: Seq<char>) -> Option<(Seq<char>, Seq<char>)> {
    let end = separator_from(pair, ';', 0);
    if end < pair.len() {
        Some((pair.take(end), pair.skip(end + 1)))
    } else {
        None
    }
}

/// Reads values with commas between them, each with a semicolon between key and value. There is
/// no result if a semicolon is missing.
pub fn parse_values(input: &str) -> (values: Option<Vec<Value>>)
    ensures
        ({
            let pairs = split_text(input@, ',');
            match values {
                Some(values) => {
                    &&& values@.len() == pairs.len()
                    &&& forall|i: int|
                        0 <= i < pairs.len() ==> key_and_value(pairs[i]) == Some(
                            (#[trigger] values@[i]).text(),
                        )
                },
                None => exists|i: int|
                    0 <= i < pairs.len() && key_and_value(#[trigger] pairs[i]) is None,
            }
        }),
{
    let parts = split(input, ',');
    let ghost pairs = split_text(input@, ',');
    let mut values: Vec<Value> = Vec::new();
    let mut i: usize = 0;
    while i < parts.len()
        invariant
            i <= parts@.len(),
            pairs == texts(parts@),
            pairs == split_text(input@, ','),
            values@.len() == i,
            forall|j: int|
                0 <= j < i ==> key_and_value(pairs[j]) == Some((#[trigger] values@[j]).text()),
        decreases parts.len() - i,
    {
        let pair = parts[i].as_str();
        assert(pairs[i as int] == pair@);
        match find(pair, ';') {
            Some(end) => {
                let length: usize = pair.unicode_len();
                let key = pair.substring_char(0, end);
                let value = pair.substring_char(end + 1, length);
                assert(key@ =~= pair@.take(end as int));
                assert(value@ =~= pair@.skip(end + 1));
                values.push(Value { key: key.to_owned(), value: value.to_owned() });
            },
            None => {
                assert(key_and_value(pairs[i as int]) is None);
                return None;
            },
        }
        i = i + 1;
    }
    Some(values)
}

/// The position of the first separator.
fn find(text: &str, separator: char) -> (position: Option<usize>)
    ensures
        match position {
            Some(position) => position == separator_from(text@, separator, 0) && position
                < text@.len(),
            None => separator_from(text@, separator, 0) >= text@.len(),
        },
{
    let length: usize = text.unicode_len();
    let mut i: usize = 0;
    while i < length
        invariant
            length == text@.len(),
            i <= length,
            separator_from(text@, separator, 0) == separator_from(text@, separator, i as int),
        decreases length - i,
    {
        if text.get_char(i) == separator {
            return Some(i);
        }
        i = i + 1;
    }
    None
}

/// A key without a semicolon, a semicolon and a value are read back, whatever the value holds.
pub proof fn law_pairs_read_back(key: Seq<char>, value: Seq<char>)
    requires
        !key.contains(';'),
    ensures
        key_and_value(key + seq![';'] + value) == Some((key, value)),
{
    let pair = key + seq![';'] + value;
    lemma_separator_from(pair, ';', 0);
    let end = separator_from(pair, ';', 0);
    assert(pair[key.len() as int] == ';');
    assert(end == key.len()) by {
        if end < key.len() {
            assert(pair[end] == key[end]);
            assert(key.contains(key[end]));
        }
    }
    assert(pair.take(end) =~= key);
    assert(pair.skip(end + 1) =~= value);
}

/// A text is no pair exactly if it holds no semicolon. The key of a pair holds none, and the key, a
/// semicolon and the value are the text.
pub proof fn law_pairs_are_cut_at_the_first_semicolon(pair: Seq<char>)
    ensures
        key_and_value(pair) is None <==> !pair.contains(';'),
        key_and_value(pair) matches Some((key, value)) ==> !key.contains(';') && key + seq![';']
            + value == pair,
{
    lemma_separator_from(pair, ';', 0);
    let end = separator_from(pair, ';', 0);
    if end < pair.len() {
        assert(pair.contains(pair[end]));
        let key = pair.take(end);
        assert forall|i: int| 0 <= i < key.len() implies key[i] != ';' by {
            assert(pair[i] != ';');
        }
        assert(key + seq![';'] + pair.skip(end + 1) =~= pair);
    }
}

/// A base URI is good exactly if it has an authority and a scheme and no path but the root. The error
/// names the path first, and of the other two the authority.
pub proof fn law_base_uris_need_scheme_and_authority(uri: BaseUri)
    ensures
        ParsedUri::base_uri_failure(uri) is None <==> uri.authority is Some && uri.scheme is Some
            && (uri.path_and_query is Some ==> uri.path_and_query->0@ == "/"@),
        uri.path_and_query is Some && uri.path_and_query->0@ != "/"@
            ==> ParsedUri::base_uri_failure(uri) == Some(
            "Provided Base URI can not have a path and query section"@,
        ),
        (uri.path_and_query is None || uri.path_and_query->0@ == "/"@) && uri.authority is None
            ==> ParsedUri::base_uri_failure(uri) == Some("Provided Base URI has no Authority"@),
        (uri.path_and_query is None || uri.path_and_query->0@ == "/"@) && uri.authority is Some
            && uri.scheme is None ==> ParsedUri::base_uri_failure(uri) == Some(
            "Provided Base URI must have a scheme"@,
        ),
{
}

/// Requests can go to a base URI exactly if URIs can be built for both of its endpoints, where it has
/// a scheme and an authority.
pub proof fn law_buildable_means_both_endpoints(uri: BaseUri)
    requires
        uri.scheme is Some,
        uri.authority is Some,
    ensures
        uri.buildable() <==> uri_builds(uri.scheme->0@, uri.authority->0@, "/get"@) && uri_builds(
            uri.scheme->0@,
            uri.authority->0@,
            "/put"@,
        ),
{
}

/// Every request is a post with its URI and the authority as its host.
pub proof fn law_requests_are_posts(head: RequestHead, uri: Seq<char>, host: Seq<char>)
    ensures
        head.posts_to(uri, host) <==> head.method@ == "POST"@ && head.uri@ == uri && head.host@
            == host,
{
}

/// The text of a value is its key and what is stored there.
pub proof fn law_values_are_keys_with_contents(value: Value)
    ensures
        value.text().0 == value.key@,
        value.text().1 == value.value@,
{
}

/// Optional texts are the same only where both are missing or both are there and equal.
pub proof fn law_optional_texts_are_told_apart(first: Option<String>, second: Option<String>)
    requires
        optional_text(first) == optional_text(second),
    ensures
        first is Some <==> second is Some,
        first is Some ==> first->0@ == second->0@,
{
}

/// Only a text for a missing base URI is taken for one, with the text that it holds.
pub proof fn law_missing_base_uris_keep_their_text(error: ClientBuilderError, text: Seq<char>)
    ensures
        error.is_missing_base_uri(text) <==> error is MissingBaseUri && error->MissingBaseUri_0@
            == text,
{
}

} // verus!
