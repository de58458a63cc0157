use vstd::prelude::*;

use core::time::Duration;
use std::collections::HashMap;

use crate::options::{
    find_key, lemma_find_key_range, lemma_put_entry_lookup, put_entry, Entry, OptionValue,
    RequestOptions, Scalar,
};
use crate::query::{
    contains, entry_piece, lemma_contains_in_concat, lemma_contains_trans, lemma_piece_in_query,
    percent_encode, query_of, space_is_percent_encoded, to_query_string,
};
use crate::request_type::RequestType;
use crate::request_type::segment_of;
use crate::signing::{base_host, is_token, compose_url, generate_token, token_of, url_with_token};
use crate::structured::{
    content_request, metadata_request, pdf_request, screenshot_request, ContentOptions,
    MetadataOptions, PdfOptions, ScreenshotOptions,
};

verus! {

#[verifier::external_type_specification]
#[verifier::external_body]
pub struct ExClient(reqwest::Client);

#[verifier::external_type_specification]
#[verifier::external_body]
pub struct ExClientBuilder(reqwest::ClientBuilder);

#[verifier::external_type_specification]
#[verifier::external_body]
pub struct ExReqwestError(reqwest::Error);

#[verifier::external_type_specification]
#[verifier::external_body]
pub struct ExParseError(url::ParseError);

#[verifier::external_type_specification]
#[verifier::external_body]
pub struct ExJsonValue(serde_json::Value);

/// Relies on reqwest::Client::builder: a builder with the default settings.
pub assume_specification[ reqwest::Client::builder ]() -> reqwest::ClientBuilder;

/// Relies on reqwest::ClientBuilder::timeout: the builder with a total request timeout set.
pub assume_specification[ reqwest::ClientBuilder::timeout ](
    b: reqwest::ClientBuilder,
    timeout: Duration,
) -> reqwest::ClientBuilder;

/// Relies on reqwest::ClientBuilder::build: the client, or the error that kept it from being built.
pub assume_specification[ reqwest::ClientBuilder::build ](b: reqwest::ClientBuilder) -> Result<
    reqwest::Client,
    reqwest::Error,
>;

/// Relies on `Clone` for reqwest::Client, which is derived over its one field,
/// an `Arc`: the copy points to the same shared client, so it is the same value.
pub assume_specification[ <reqwest::Client as Clone>::clone ](c: &reqwest::Client) -> (r:
    reqwest::Client)
    ensures
        r == *c,
;

/// What can go wrong when building a request URL or fetching a capture.
#[derive(Debug)]
pub enum CaptureError {
    /// The HTTP transport failed, or the response body could not be decoded.
    HttpError(reqwest::Error),
    /// A URL could not be parsed.
    UrlError(url::ParseError),
    /// The key or the secret is empty.
    MissingCredentials,
    /// The target URL is empty.
    MissingUrl,
    /// The target URL is not a string.
    InvalidUrl,
}

/// Settings of a client: the endpoint, a request timeout and an HTTP client to use.
#[derive(Debug, Clone, Default)]
pub struct CaptureOptions {
    pub use_edge: bool,
    pub timeout: Option<Duration>,
    pub client: Option<reqwest::Client>,
}

impl CaptureOptions {
    /// The default settings: default endpoint, no timeout, no HTTP client given.
    pub fn new() -> (r: CaptureOptions)
        ensures
            !r.use_edge,
            r.timeout is None,
            r.client is None,
    {
        CaptureOptions { use_edge: false, timeout: None, client: None }
    }

    /// The same settings with the edge endpoint selected.
    pub fn with_edge(self) -> (r: CaptureOptions)
        ensures
            r.use_edge,
            r.timeout == self.timeout,
            r.client == self.client,
    {
        let mut s = self;
        s.use_edge = true;
        s
    }

    /// The same settings with a request timeout.
    pub fn with_timeout(self, timeout: Duration) -> (r: CaptureOptions)
        ensures
            r.use_edge == self.use_edge,
            r.timeout == Some(timeout),
            r.client == self.client,
    {
        let mut s = self;
        s.timeout = Some(timeout);
        s
    }

    /// The same settings with an HTTP client to use.
    pub fn with_client(self, client: reqwest::Client) -> (r: CaptureOptions)
        ensures
            r.use_edge == self.use_edge,
            r.timeout == self.timeout,
            r.client == Some(client),
    {
        let mut s = self;
        s.client = Some(client);
        s
    }
}

/// The body of a page-content capture.
#[derive(Debug, Clone)]
pub struct ContentResponse {
    pub success: bool,
    pub html: String,
    pub text_content: String,
    pub markdown: String,
}

/// The body of a metadata capture.
#[derive(Debug, Clone)]
pub struct MetadataResponse {
    pub success: bool,
    pub metadata: HashMap<String, serde_json::Value>,
}

/// A client of the capture service: credentials, settings and the HTTP client
/// that requests go through (none where no client was supplied and building
/// one failed).
pub struct Capture {
    key: String,
    secret: String,
    options: CaptureOptions,
    client: Option<reqwest::Client>,
}

/// The HTTP client that a set of settings calls for: the one they give, else
/// one built with their timeout, if any.
fn client_for(options: &CaptureOptions) -> (r: Option<reqwest::Client>)
    ensures
        options.client matches Some(c) ==> r == Some(c),
{
    match &options.client {
        Some(c) => Some(c.clone()),
        None => client_with(options.timeout),
    }
}

/// A new HTTP client, with a timeout where one is given; none where the builder
/// fails.
fn client_with(timeout: Option<Duration>) -> Option<reqwest::Client> {
    let builder = match timeout {
        Some(t) => reqwest::Client::builder().timeout(t),
        None => reqwest::Client::builder(),
    };
    match builder.build() {
        Ok(c) => Some(c),
        Err(_) => None,
    }
}

/// The entries of optional caller options; none where they are absent.
pub open spec fn given_entries(o: Option<&RequestOptions>) -> Seq<Entry> {
    match o {
        Some(r) => r@,
        None => seq![],
    }
}

/// The entries that are sent: the caller's, with `url` set to the target last.
pub open spec fn with_target(es: Seq<Entry>, url: Seq<char>) -> Seq<Entry> {
    put_entry(es, "url"@, Scalar::Text(url))
}

/// The signed request URL: the query of the entries, signed with the secret.
pub open spec fn signed_url(
    use_edge: bool,
    key: Seq<char>,
    secret: Seq<char>,
    request_type: RequestType,
    entries: Seq<Entry>,
) -> Seq<char> {
    let query = query_of(entries);
    url_with_token(use_edge, key, token_of(secret, query), request_type, query)
}

/// What building a URL gives: `MissingCredentials` where the key or the secret
/// is empty, else `MissingUrl` where the target is empty, else the signed URL,
/// whose token is 32 lowercase hexadecimal digits.
pub open spec fn build_outcome(
    use_edge: bool,
    key: Seq<char>,
    secret: Seq<char>,
    request_type: RequestType,
    url: Seq<char>,
    entries: Seq<Entry>,
    r: Result<String, CaptureError>,
) -> bool {
    if key.len() == 0 || secret.len() == 0 {
        r is Err && r->Err_0 is MissingCredentials
    } else if url.len() == 0 {
        r is Err && r->Err_0 is MissingUrl
    } else {
        r is Ok && r->Ok_0@ == signed_url(
            use_edge,
            key,
            secret,
            request_type,
            with_target(entries, url),
        ) && is_token(token_of(secret, query_of(with_target(entries, url))))
    }
}

/// A signed URL starts with the host that the edge flag selects and not with
/// the other one, and holds the key as it is and the path segment of its
/// request type.
pub proof fn signed_url_shape(
    use_edge: bool,
    key: Seq<char>,
    secret: Seq<char>,
    request_type: RequestType,
    entries: Seq<Entry>,
)
    ensures
        signed_url(use_edge, key, secret, request_type, entries).subrange(
            0,
            base_host(use_edge).len() as int,
        ) == base_host(use_edge),
        signed_url(use_edge, key, secret, request_type, entries).subrange(
            0,
            base_host(!use_edge).len() as int,
        ) != base_host(!use_edge),
        contains(signed_url(use_edge, key, secret, request_type, entries), key),
        contains(signed_url(use_edge, key, secret, request_type, entries), segment_of(request_type)),
{
    let u = signed_url(use_edge, key, secret, request_type, entries);
    let h = base_host(use_edge);
    let query = query_of(entries);
    let tok = token_of(secret, query);
    let seg = segment_of(request_type);
    reveal_strlit("https://cdn.capture.page");
    reveal_strlit("https://edge.capture.page");
    assert(u.subrange(0, h.len() as int) =~= h);
    let ki: int = h.len() as int + 1;
    assert(u.subrange(ki, ki + key.len() as int) =~= key);
    let si: int = ki + key.len() as int + 1 + tok.len() as int + 1;
    assert(u.subrange(si, si + seg.len() as int) =~= seg);
    let other = base_host(!use_edge);
    assert(u[8] == h[8]);
    assert(h[8] != other[8]);
    assert(u.subrange(0, other.len() as int)[8] == u[8]);
}

/// The request type changes only the path segment of a signed URL: the host,
/// key and token before it and the `?` and query after it are the same.
pub proof fn signed_url_differs_only_in_segment(
    use_edge: bool,
    key: Seq<char>,
    secret: Seq<char>,
    t1: RequestType,
    t2: RequestType,
    entries: Seq<Entry>,
)
    ensures
        exists|pre: Seq<char>, post: Seq<char>|
            #![trigger pre + segment_of(t1) + post, pre + segment_of(t2) + post]
            signed_url(use_edge, key, secret, t1, entries) == pre + segment_of(t1) + post
                && signed_url(use_edge, key, secret, t2, entries) == pre + segment_of(t2) + post
                && post.len() > 0 && post[0] == '?',
{
    let query = query_of(entries);
    let pre = base_host(use_edge) + seq!['/'] + key + seq!['/'] + token_of(secret, query) + seq![
        '/',
    ];
    let post = seq!['?'] + query;
    assert(signed_url(use_edge, key, secret, t1, entries) =~= pre + segment_of(t1) + post);
    assert(signed_url(use_edge, key, secret, t2, entries) =~= pre + segment_of(t2) + post);
    assert(post[0] == '?');
}

/// A target URL that holds a space puts `%20` in the query string of the
/// request, and so in the signed URL.
pub proof fn space_in_target_is_encoded(
    use_edge: bool,
    key: Seq<char>,
    secret: Seq<char>,
    request_type: RequestType,
    entries: Seq<Entry>,
    url: Seq<char>,
    i: int,
)
    requires
        0 <= i < url.len(),
        url[i] == ' ',
    ensures
        contains(query_of(with_target(entries, url)), seq!['%', '2', '0']),
        contains(
            signed_url(use_edge, key, secret, request_type, with_target(entries, url)),
            seq!['%', '2', '0'],
        ),
{
    let es = with_target(entries, url);
    let k = "url"@;
    let space = seq!['%', '2', '0'];
    lemma_put_entry_lookup(entries, k, Scalar::Text(url));
    lemma_find_key_range(es, k);
    let j = find_key(es, k);
    assert(es[j] == (k, Scalar::Text(url)));
    let p = percent_encode(k) + seq!['='] + percent_encode(url);
    assert(entry_piece(es[j]) == Some(p));
    lemma_piece_in_query(es, j);
    space_is_percent_encoded(url, i);
    lemma_contains_in_concat(percent_encode(k) + seq!['='], percent_encode(url), space);
    lemma_contains_trans(query_of(es), p, space);
    let query = query_of(es);
    let u = signed_url(use_edge, key, secret, request_type, es);
    let prefix = base_host(use_edge) + seq!['/'] + key + seq!['/'] + token_of(secret, query) + seq!['/']
        + segment_of(request_type) + seq!['?'];
    assert(u == prefix + query);
    lemma_contains_in_concat(prefix, query, space);
}

impl Capture {
    /// The key of this client.
    pub closed spec fn spec_key(&self) -> Seq<char> {
        self.key@
    }

    /// The secret of this client.
    pub closed spec fn spec_secret(&self) -> Seq<char> {
        self.secret@
    }

    /// Whether this client uses the edge endpoint.
    pub closed spec fn spec_use_edge(&self) -> bool {
        self.options.use_edge
    }

    /// The timeout this client was given.
    pub closed spec fn spec_timeout(&self) -> Option<Duration> {
        self.options.timeout
    }

    /// The HTTP client that was supplied in the settings, if any.
    pub closed spec fn spec_custom_client(&self) -> Option<reqwest::Client> {
        self.options.client
    }

    /// The HTTP client that requests go through, if there is one.
    pub closed spec fn spec_client(&self) -> Option<reqwest::Client> {
        self.client
    }

    /// A client with the default settings: default endpoint, no timeout and no
    /// HTTP client supplied.
    pub fn new(key: String, secret: String) -> (r: Capture)
        ensures
            r.spec_key() == key@,
            r.spec_secret() == secret@,
            !r.spec_use_edge(),
            r.spec_timeout() is None,
            r.spec_custom_client() is None,
    {
        let options = CaptureOptions::new();
        let client = client_for(&options);
        Capture { key, secret, options, client }
    }

    /// A client with the given settings; its HTTP client is the one they give,
    /// else one built with their timeout (none where that build fails).
    pub fn with_options(key: String, secret: String, options: CaptureOptions) -> (r: Capture)
        ensures
            r.spec_key() == key@,
            r.spec_secret() == secret@,
            r.spec_use_edge() == options.use_edge,
            r.spec_timeout() == options.timeout,
            r.spec_custom_client() == options.client,
            options.client matches Some(c) ==> r.spec_client() == Some(c),
    {
        let client = client_for(&options);
        Capture { key, secret, options, client }
    }

    /// The same client with the edge endpoint selected.
    pub fn with_edge(self) -> (r: Capture)
        ensures
            r.spec_key() == self.spec_key(),
            r.spec_secret() == self.spec_secret(),
            r.spec_use_edge(),
            r.spec_timeout() == self.spec_timeout(),
            r.spec_custom_client() == self.spec_custom_client(),
            r.spec_client() == self.spec_client(),
    {
        let mut s = self;
        s.options.use_edge = true;
        s
    }

    /// The same client with a request timeout. An HTTP client supplied in the
    /// settings is kept; otherwise the HTTP client is built anew with that timeout
    /// (none where that build fails).
    pub fn with_timeout(self, timeout: Duration) -> (r: Capture)
        ensures
            r.spec_key() == self.spec_key(),
            r.spec_secret() == self.spec_secret(),
            r.spec_use_edge() == self.spec_use_edge(),
            r.spec_timeout() == Some(timeout),
            r.spec_custom_client() == self.spec_custom_client(),
            self.spec_custom_client() is Some ==> r.spec_client() == self.spec_client(),
    {
        let mut s = self;
        s.options.timeout = Some(timeout);
        if s.options.client.is_none() {
            s.client = client_with(Some(timeout));
        }
        s
    }

    /// The same client, sending its requests through `client`, which the
    /// settings record as supplied, so that a later timeout keeps it.
    pub fn with_client(self, client: reqwest::Client) -> (r: Capture)
        ensures
            r.spec_key() == self.spec_key(),
            r.spec_secret() == self.spec_secret(),
            r.spec_use_edge() == self.spec_use_edge(),
            r.spec_timeout() == self.spec_timeout(),
            r.spec_client() == Some(client),
            r.spec_custom_client() == Some(client),
    {
        let mut s = self;
        s.options.client = Some(client.clone());
        s.client = Some(client);
        s
    }

    /// The key.
    pub fn key(&self) -> (r: &str)
        ensures
            r@ == self.spec_key(),
    {
        self.key.as_str()
    }

    /// The secret.
    pub fn secret(&self) -> (r: &str)
        ensures
            r@ == self.spec_secret(),
    {
        self.secret.as_str()
    }

    /// The settings.
    pub fn options(&self) -> (r: &CaptureOptions)
        ensures
            r.use_edge == self.spec_use_edge(),
            r.timeout == self.spec_timeout(),
            r.client == self.spec_custom_client(),
    {
        &self.options
    }

    /// The HTTP client that requests go through; none where no client was
    /// supplied and building one failed.
    pub fn http_client(&self) -> (r: Option<&reqwest::Client>)
        ensures
            match r {
                Some(c) => self.spec_client() == Some(*c),
                None => self.spec_client() is None,
            },
    {
        match &self.client {
            Some(c) => Some(c),
            None => None,
        }
    }

    /// Builds the signed URL of a request: the caller's options with `url` set
    /// to the target, as a query string, signed with the secret.
    pub fn build_url(
        &self,
        request_type: RequestType,
        url: &str,
        request_options: Option<&RequestOptions>,
    ) -> (r: Result<String, CaptureError>)
        ensures
            build_outcome(
                self.spec_use_edge(),
                self.spec_key(),
                self.spec_secret(),
                request_type,
                url@,
                given_entries(request_options),
                r,
            ),
    {
        if self.key.as_str().is_empty() || self.secret.as_str().is_empty() {
            return Err(CaptureError::MissingCredentials);
        }
        if url.is_empty() {
            return Err(CaptureError::MissingUrl);
        }
        let mut options = match request_options {
            Some(o) => o.duplicate(),
            None => RequestOptions::new(),
        };
        assert(options@ == given_entries(request_options));
        options.insert("url".to_string(), OptionValue::Str(url.to_string()));
        let query = to_query_string(&options);
        let token = generate_token(self.secret.as_str(), query.as_str());
        Ok(
            compose_url(
                self.options.use_edge,
                self.key.as_str(),
                token.as_str(),
                request_type,
                query.as_str(),
            ),
        )
    }

    /// The signed URL of a screenshot image.
    pub fn build_image_url(&self, url: &str, options: Option<&RequestOptions>) -> (r: Result<String, CaptureError>)
        ensures
            build_outcome(
                self.spec_use_edge(),
                self.spec_key(),
                self.spec_secret(),
                RequestType::Image,
                url@,
                given_entries(options),
                r,
            ),
    {
        self.build_url(RequestType::Image, url, options)
    }

    /// The signed URL of a PDF.
    pub fn build_pdf_url(&self, url: &str, options: Option<&RequestOptions>) -> (r: Result<String, CaptureError>)
        ensures
            build_outcome(
                self.spec_use_edge(),
                self.spec_key(),
                self.spec_secret(),
                RequestType::Pdf,
                url@,
                given_entries(options),
                r,
            ),
    {
        self.build_url(RequestType::Pdf, url, options)
    }

    /// The signed URL of the page content.
    pub fn build_content_url(&self, url: &str, options: Option<&RequestOptions>) -> (r: Result<String, CaptureError>)
        ensures
            build_outcome(
                self.spec_use_edge(),
                self.spec_key(),
                self.spec_secret(),
                RequestType::Content,
                url@,
                given_entries(options),
                r,
            ),
    {
        self.build_url(RequestType::Content, url, options)
    }

    /// The signed URL of the page metadata.
    pub fn build_metadata_url(&self, url: &str, options: Option<&RequestOptions>) -> (r: Result<String, CaptureError>)
        ensures
            build_outcome(
                self.spec_use_edge(),
                self.spec_key(),
                self.spec_secret(),
                RequestType::Metadata,
                url@,
                given_entries(options),
                r,
            ),
    {
        self.build_url(RequestType::Metadata, url, options)
    }

    /// The signed URL of an animated capture.
    pub fn build_animated_url(&self, url: &str, options: Option<&RequestOptions>) -> (r: Result<String, CaptureError>)
        ensures
            build_outcome(
                self.spec_use_edge(),
                self.spec_key(),
                self.spec_secret(),
                RequestType::Animated,
                url@,
                given_entries(options),
                r,
            ),
    {
        self.build_url(RequestType::Animated, url, options)
    }

    /// The signed URL of a screenshot image, from structured options.
    pub fn build_screenshot_url(&self, url: &str, options: Option<&ScreenshotOptions>) -> (r: Result<String, CaptureError>)
        ensures
            build_outcome(
                self.spec_use_edge(),
                self.spec_key(),
                self.spec_secret(),
                RequestType::Image,
                url@,
                match options {
                    Some(o) => screenshot_request(*o),
                    None => seq![],
                },
                r,
            ),
    {
        match options {
            Some(o) => {
                let request_options = o.to_request_options();
                self.build_url(RequestType::Image, url, Some(&request_options))
            },
            None => self.build_url(RequestType::Image, url, None),
        }
    }

    /// The signed URL of a PDF, from structured options.
    pub fn build_pdf_url_structured(&self, url: &str, options: Option<&PdfOptions>) -> (r: Result<String, CaptureError>)
        ensures
            build_outcome(
                self.spec_use_edge(),
                self.spec_key(),
                self.spec_secret(),
                RequestType::Pdf,
                url@,
                match options {
                    Some(o) => pdf_request(*o),
                    None => seq![],
                },
                r,
            ),
    {
        match options {
            Some(o) => {
                let request_options = o.to_request_options();
                self.build_url(RequestType::Pdf, url, Some(&request_options))
            },
            None => self.build_url(RequestType::Pdf, url, None),
        }
    }

    /// The signed URL of the page content, from structured options.
    pub fn build_content_url_structured(&self, url: &str, options: Option<&ContentOptions>) -> (r: Result<String, CaptureError>)
        ensures
            build_outcome(
                self.spec_use_edge(),
                self.spec_key(),
                self.spec_secret(),
                RequestType::Content,
                url@,
                match options {
                    Some(o) => content_request(*o),
                    None => seq![],
                },
                r,
            ),
    {
        match options {
            Some(o) => {
                let request_options = o.to_request_options();
                self.build_url(RequestType::Content, url, Some(&request_options))
            },
            None => self.build_url(RequestType::Content, url, None),
        }
    }

    /// The signed URL of the page metadata, from structured options.
    pub fn build_metadata_url_structured(&self, url: &str, options: Option<&MetadataOptions>) -> (r: Result<String, CaptureError>)
        ensures
            build_outcome(
                self.spec_use_edge(),
                self.spec_key(),
                self.spec_secret(),
                RequestType::Metadata,
                url@,
                match options {
                    Some(o) => metadata_request(*o),
                    None => seq![],
                },
                r,
            ),
    {
        match options {
            Some(o) => {
                let request_options = o.to_request_options();
                self.build_url(RequestType::Metadata, url, Some(&request_options))
            },
            None => self.build_url(RequestType::Metadata, url, None),
        }
    }
}

} // verus!
