//! One request of a test: what is sent, and what is made of the answer.
//!
//! The request is planned here as plain values. Parsing of URLs, encoding
//! of query pairs, of credentials and of JSON bodies is done by the crates
//! that the engine is built on; what they return is named, and the plan is
//! stated over those names.

use crate::models::dsl_model::{Auth, Body, DslConfig, HttpMethod};
use crate::models::metrics::{Classification, RequestOutcome};
use crate::text::str_eq;
use vstd::prelude::*;
use vstd::string::{StrSliceExecFns, StringExecFns};

verus! {

/// What `Url::parse` makes of `text`: the serialization of the URL, or the
/// text of the parse error.
pub uninterp spec fn url_parse(text: Seq<char>) -> Result<Seq<char>, Seq<char>>;

/// What `Url::parse_with_params` makes of `text` and `pairs`: the
/// serialization of the URL with the pairs appended to its query, or the text
/// of the parse error.
pub uninterp spec fn url_parse_with_params(
    text: Seq<char>,
    pairs: Seq<(Seq<char>, Seq<char>)>,
) -> Result<Seq<char>, Seq<char>>;

/// What parsing `text` as a `hyper::Uri` gives: nothing where it is
/// accepted, else the text of the error.
pub uninterp spec fn uri_refusal(text: Seq<char>) -> Option<Seq<char>>;

/// The standard base64 encoding, with padding, of the bytes of `text`.
pub uninterp spec fn base64_standard(text: Seq<char>) -> Seq<char>;

/// What `serde_json::to_string` makes of a JSON value: its compact encoding,
/// or the text of the error.
pub uninterp spec fn json_compact_text(value: serde_json::Value) -> Result<Seq<char>, Seq<char>>;

/// A result of two strings, by their characters.
pub open spec fn text_result(r: Result<String, String>) -> Result<Seq<char>, Seq<char>> {
    match r {
        Ok(s) => Ok(s@),
        Err(e) => Err(e@),
    }
}

/// Pairs of strings, by their characters.
pub open spec fn pairs_view(pairs: Seq<(String, String)>) -> Seq<(Seq<char>, Seq<char>)> {
    Seq::new(pairs.len(), |i: int| (pairs[i].0@, pairs[i].1@))
}

/// The material that a target and the pairs for its query bring to a URL:
/// the characters of each string, and two more for each pair.
pub open spec fn url_material(target: Seq<char>, pairs: Seq<(String, String)>) -> nat
    decreases pairs.len(),
{
    if pairs.len() == 0 {
        target.len()
    } else {
        url_material(target, pairs.drop_last()) + pairs.last().0@.len() + pairs.last().1@.len()
            + 2
    }
}

/// The most material that a URL is built from. A character has at most four
/// bytes and encoding makes at most three bytes of one, so a URL within this
/// limit stays far below the four gigabytes that a `Url` can hold.
pub const MAX_URL_MATERIAL: usize = 0x100_0000;

/// The most characters that credentials are encoded from; their encoding
/// then fits in `usize` on every machine.
pub const MAX_CREDENTIALS: usize = 0x100_0000;

/// `Url::parse` parses an absolute URL; the wrapper hands back its
/// serialization, or the text of the error.
#[verifier::external_body]
pub(crate) fn parse_url(text: &str) -> (r: Result<String, String>)
    ensures
        text_result(r) == url_parse(text@),
{
    match url::Url::parse(text) {
        Ok(url) => Ok(String::from(url)),
        Err(e) => Err(e.to_string()),
    }
}

/// `Url::parse_with_params` parses an absolute URL and appends the pairs to
/// its query, each name and value form-encoded; it fails where `Url::parse`
/// fails, and with the same error. The wrapper hands back the serialization,
/// or the text of the error. A URL that outgrows four gigabytes makes the
/// call panic, so the material is bounded.
#[verifier::external_body]
fn parse_url_with_params(text: &str, pairs: &Vec<(String, String)>) -> (r: Result<String, String>)
    requires
        url_material(text@, pairs@) <= MAX_URL_MATERIAL,
    ensures
        text_result(r) == url_parse_with_params(text@, pairs_view(pairs@)),
        url_parse(text@) is Ok ==> r is Ok,
        url_parse(text@) is Err ==> text_result(r) == url_parse(text@),
{
    match url::Url::parse_with_params(text, pairs.iter()) {
        Ok(url) => Ok(String::from(url)),
        Err(e) => Err(e.to_string()),
    }
}

/// Parsing a string as a `hyper::Uri` accepts or refuses it; the wrapper
/// hands back the text of the error where it is refused.
#[verifier::external_body]
fn refuse_uri(text: &str) -> (refusal: Option<String>)
    ensures
        refusal matches Some(e) ==> uri_refusal(text@) == Some(e@),
        refusal is None ==> uri_refusal(text@) is None,
{
    match text.parse::<hyper::Uri>() {
        Ok(_) => None,
        Err(e) => Some(e.to_string()),
    }
}

/// `Engine::encode` of the standard engine encodes the bytes of `text` in
/// base64 with padding. It panics where the length of the result does not
/// fit in `usize`, so the text is bounded.
#[verifier::external_body]
fn base64_encode(text: &str) -> (encoded: String)
    requires
        text@.len() <= MAX_CREDENTIALS,
    ensures
        encoded@ == base64_standard(text@),
{
    base64::Engine::encode(&base64::engine::general_purpose::STANDARD, text)
}

/// `serde_json::to_string` writes a JSON value in its compact encoding,
/// which the value alone decides. The wrapper hands back the text, or the
/// text of the error.
#[verifier::external_body]
fn json_compact(value: &serde_json::Value) -> (r: Result<String, String>)
    ensures
        text_result(r) == json_compact_text(*value),
{
    match serde_json::to_string(value) {
        Ok(text) => Ok(text),
        Err(e) => Err(e.to_string()),
    }
}


/// Why a request could not be put together.
#[derive(Debug)]
pub enum BuildError {
    /// The target is no absolute URL; the text says why.
    InvalidTarget(String),
    /// The target and the pairs for its query are more than a URL is built
    /// from.
    UrlTooLong,
    /// The URL is none that can be sent; the text says why.
    InvalidUri(String),
    /// The body could not be encoded; the text says why.
    Body(String),
    /// The credentials are longer than can be encoded.
    CredentialsTooLong,
}

/// What a [`BuildError`] says.
pub enum BuildErrorView {
    InvalidTarget(Seq<char>),
    UrlTooLong,
    InvalidUri(Seq<char>),
    Body(Seq<char>),
    CredentialsTooLong,
}

impl View for BuildError {
    type V = BuildErrorView;

    open spec fn view(&self) -> BuildErrorView {
        match self {
            BuildError::InvalidTarget(e) => BuildErrorView::InvalidTarget(e@),
            BuildError::UrlTooLong => BuildErrorView::UrlTooLong,
            BuildError::InvalidUri(e) => BuildErrorView::InvalidUri(e@),
            BuildError::Body(e) => BuildErrorView::Body(e@),
            BuildError::CredentialsTooLong => BuildErrorView::CredentialsTooLong,
        }
    }
}

/// The pairs that go into the query of the target: those of the operator in
/// their order, then the API key where it is to go into the query.
pub open spec fn planned_pairs(config: &DslConfig) -> Seq<(String, String)> {
    let given = match config.query_params {
        Some(pairs) => pairs@,
        None => Seq::empty(),
    };
    match config.auth {
        Some(Auth::ApiKey { key_name, key_value, add_to }) if add_to@ == "query"@ => given.push(
            (key_name, key_value),
        ),
        _ => given,
    }
}

/// A URL that was built, provided that it is one that can be sent.
pub open spec fn sendable(url: Seq<char>) -> Result<Seq<char>, BuildErrorView> {
    match uri_refusal(url) {
        Some(e) => Err(BuildErrorView::InvalidUri(e)),
        None => Ok(url),
    }
}

/// The URL that the requests of a test go to. A target that `Url::parse`
/// refuses is invalid, whatever the pairs. Else the URL is the target as
/// `Url::parse` writes it, with the planned pairs appended to its query
/// where there are any, provided that the material is within its limit and
/// that the URL is one that can be sent.
pub open spec fn planned_url(config: &DslConfig) -> Result<Seq<char>, BuildErrorView> {
    let pairs = planned_pairs(config);
    match url_parse(config.target@) {
        Err(e) => Err(BuildErrorView::InvalidTarget(e)),
        Ok(plain) => if pairs.len() == 0 {
            sendable(plain)
        } else if url_material(config.target@, pairs) > MAX_URL_MATERIAL {
            Err(BuildErrorView::UrlTooLong)
        } else {
            match url_parse_with_params(config.target@, pairs_view(pairs)) {
                Err(e) => Err(BuildErrorView::InvalidTarget(e)),
                Ok(url) => sendable(url),
            }
        },
    }
}

/// A target that is no absolute URL gives no URL, with or without pairs
/// for its query: the error is the parser's.
pub proof fn lemma_refused_target_is_invalid(config: &DslConfig)
    requires
        url_parse(config.target@) is Err,
    ensures
        planned_url(config) == Err::<Seq<char>, BuildErrorView>(
            BuildErrorView::InvalidTarget(url_parse(config.target@)->Err_0),
        ),
{
}

/// The material of a part of the pairs is no more than that of all of them.
proof fn lemma_url_material_grows(target: Seq<char>, pairs: Seq<(String, String)>, n: int)
    requires
        0 <= n <= pairs.len(),
    ensures
        url_material(target, pairs.take(n)) <= url_material(target, pairs),
    decreases pairs.len(),
{
    if n == pairs.len() {
        assert(pairs.take(n) =~= pairs);
    } else {
        assert(pairs.drop_last().take(n) =~= pairs.take(n));
        lemma_url_material_grows(target, pairs.drop_last(), n);
    }
}

/// Whether a target and the pairs for its query are within the material
/// that a URL is built from.
pub fn material_fits(target: &str, pairs: &Vec<(String, String)>) -> (fits: bool)
    ensures
        fits == (url_material(target@, pairs@) <= MAX_URL_MATERIAL),
{
    let mut total: usize = target.unicode_len();
    if total > MAX_URL_MATERIAL {
        proof {
            lemma_url_material_grows(target@, pairs@, 0);
            assert(pairs@.take(0).len() == 0);
        }
        return false;
    }
    let mut i: usize = 0;
    assert(pairs@.take(0).len() == 0);
    while i < pairs.len()
        invariant
            0 <= i <= pairs.len(),
            total == url_material(target@, pairs@.take(i as int)),
            total <= MAX_URL_MATERIAL,
        decreases pairs.len() - i,
    {
        let name_len: usize = pairs[i].0.as_str().unicode_len();
        let value_len: usize = pairs[i].1.as_str().unicode_len();
        proof {
            assert(pairs@.take(i + 1).drop_last() =~= pairs@.take(i as int));
            assert(pairs@.take(i + 1).last() == pairs@[i as int]);
            lemma_url_material_grows(target@, pairs@, i + 1);
        }
        if name_len > MAX_URL_MATERIAL - total {
            return false;
        }
        total = total + name_len;
        if value_len > MAX_URL_MATERIAL - total {
            return false;
        }
        total = total + value_len;
        if 2 > MAX_URL_MATERIAL - total {
            return false;
        }
        total = total + 2;
        i = i + 1;
    }
    assert(pairs@.take(pairs@.len() as int) =~= pairs@);
    true
}

/// The pairs that go into the query of the target.
pub fn query_pairs(config: &DslConfig) -> (pairs: Vec<(String, String)>)
    ensures
        pairs@ == planned_pairs(config),
{
    let mut pairs: Vec<(String, String)> = Vec::new();
    if let Some(given) = &config.query_params {
        let mut i: usize = 0;
        while i < given.len()
            invariant
                0 <= i <= given.len(),
                pairs@ == given@.take(i as int),
            decreases given.len() - i,
        {
            pairs.push((given[i].0.clone(), given[i].1.clone()));
            assert(pairs@ =~= given@.take(i + 1));
            i = i + 1;
        }
        assert(given@.take(given@.len() as int) =~= given@);
    }
    if let Some(Auth::ApiKey { key_name, key_value, add_to }) = &config.auth {
        if str_eq(add_to.as_str(), "query") {
            pairs.push((key_name.clone(), key_value.clone()));
        }
    }
    pairs
}

/// The URL that the requests of a test go to. Only a target that the
/// parser refuses is invalid.
pub fn request_url(config: &DslConfig) -> (r: Result<String, BuildError>)
    ensures
        match r {
            Ok(url) => planned_url(config) == Ok::<Seq<char>, BuildErrorView>(url@),
            Err(e) => planned_url(config) == Err::<Seq<char>, BuildErrorView>(e@),
        },
        r matches Err(e) && e@ is InvalidTarget ==> url_parse(config.target@) is Err,
{
    let pairs = query_pairs(config);
    let target = config.target.as_str();
    let built = if pairs.len() == 0 {
        parse_url(target)
    } else if material_fits(target, &pairs) {
        parse_url_with_params(target, &pairs)
    } else {
        return match parse_url(target) {
            Err(e) => Err(BuildError::InvalidTarget(e)),
            Ok(_) => Err(BuildError::UrlTooLong),
        };
    };
    match built {
        Err(e) => Err(BuildError::InvalidTarget(e)),
        Ok(url) => match refuse_uri(url.as_str()) {
            Some(e) => Err(BuildError::InvalidUri(e)),
            None => Ok(url),
        },
    }
}

/// A character with the upper-case Latin letters taken to lower case.
pub open spec fn lower_char(c: char) -> char {
    if 'A' <= c && c <= 'Z' {
        ((c as u8) + 32) as char
    } else {
        c
    }
}

/// A text with its upper-case Latin letters taken to lower case.
pub open spec fn lower(text: Seq<char>) -> Seq<char> {
    Seq::new(text.len(), |i: int| lower_char(text[i]))
}

/// Two header names are the same where they differ in the case of Latin
/// letters only.
pub open spec fn same_name(a: Seq<char>, b: Seq<char>) -> bool {
    lower(a) == lower(b)
}

fn to_lower(c: char) -> (l: char)
    ensures
        l == lower_char(c),
{
    if 'A' <= c && c <= 'Z' {
        ((c as u8) + 32) as char
    } else {
        c
    }
}

/// A text with its upper-case Latin letters taken to lower case.
pub fn lowercase(text: &str) -> (out: String)
    ensures
        out@ == lower(text@),
{
    let mut out = String::new();
    for c in it: text.chars()
        invariant
            it.seq() == text@,
            out@ == lower(text@.take(it.index() as int)),
    {
        assert(c == text@[it.index() as int]);
        out.push(to_lower(c));
        assert(out@ =~= lower(text@.take(it.index() + 1)));
    }
    assert(text@.take(text@.len() as int) =~= text@);
    out
}

/// Whether two header names are the same.
pub fn same_header_name(a: &str, b: &str) -> (same: bool)
    ensures
        same == same_name(a@, b@),
{
    let la = lowercase(a);
    let lb = lowercase(b);
    str_eq(la.as_str(), lb.as_str())
}

/// Whether the test sets `Content-Type` itself: it does for every body.
pub open spec fn sets_content_type(config: &DslConfig) -> bool {
    config.body is Some
}

/// Whether the test sets `Authorization` itself: it does for basic and for
/// bearer authentication, and for an API key that goes into a header of
/// that name.
pub open spec fn sets_authorization(config: &DslConfig) -> bool {
    match config.auth {
        Some(Auth::Basic { .. }) => true,
        Some(Auth::Bearer { .. }) => true,
        Some(Auth::ApiKey { key_name, add_to, .. }) => add_to@ == "header"@ && same_name(
            key_name@,
            "Authorization"@,
        ),
        _ => false,
    }
}

/// Whether a header of the operator gives way to one that the test sets.
pub open spec fn overridden(name: Seq<char>, config: &DslConfig) -> bool {
    ||| sets_content_type(config) && same_name(name, "Content-Type"@)
    ||| sets_authorization(config) && same_name(name, "Authorization"@)
}

/// The headers of the operator that are sent: all but the overridden ones,
/// in their order.
pub open spec fn kept_headers(headers: Seq<(String, String)>, config: &DslConfig) -> Seq<
    (Seq<char>, Seq<char>),
>
    decreases headers.len(),
{
    if headers.len() == 0 {
        Seq::empty()
    } else {
        let rest = kept_headers(headers.drop_last(), config);
        if overridden(headers.last().0@, config) {
            rest
        } else {
            rest.push((headers.last().0@, headers.last().1@))
        }
    }
}

/// No header of the operator that is sent bears a name that the test sets
/// itself.
pub proof fn lemma_kept_headers_override_nothing(headers: Seq<(String, String)>, config: &DslConfig)
    ensures
        forall|i: int|
            0 <= i < kept_headers(headers, config).len() ==> !overridden(
                (#[trigger] kept_headers(headers, config)[i]).0,
                config,
            ),
    decreases headers.len(),
{
    if headers.len() > 0 {
        lemma_kept_headers_override_nothing(headers.drop_last(), config);
        let rest = kept_headers(headers.drop_last(), config);
        let kept = kept_headers(headers, config);
        assert forall|i: int| 0 <= i < kept.len() implies !overridden((#[trigger] kept[i]).0, config) by {
            if i < rest.len() {
                assert(kept[i] == rest[i]);
            }
        }
    }
}

/// The media type that a body is sent with.
pub open spec fn content_type_of(body: &Body) -> Seq<char> {
    match body {
        Body::Json(_) => "application/json"@,
        Body::Xml(_) => "application/xml"@,
    }
}

/// The text that basic authentication encodes.
pub open spec fn credentials(username: Seq<char>, password: Seq<char>) -> Seq<char> {
    username + seq![':'] + password
}

/// The header that authenticates the requests, if the test has one.
pub open spec fn auth_header(auth: &Option<Auth>) -> Option<(Seq<char>, Seq<char>)> {
    match auth {
        Some(Auth::Basic { username, password }) => Some(
            ("Authorization"@, "Basic "@ + base64_standard(credentials(username@, password@))),
        ),
        Some(Auth::Bearer { token }) => Some(("Authorization"@, "Bearer "@ + token@)),
        Some(Auth::ApiKey { key_name, key_value, add_to }) if add_to@ == "header"@ => Some(
            (key_name@, key_value@),
        ),
        _ => None,
    }
}

/// Whether the credentials of the test can be encoded.
pub open spec fn credentials_fit(auth: &Option<Auth>) -> bool {
    match auth {
        Some(Auth::Basic { username, password }) => credentials(username@, password@).len()
            <= MAX_CREDENTIALS,
        _ => true,
    }
}

/// The headers of a request, in the order in which they are set: the
/// operator's, then `Content-Type` for the body, then the header that
/// authenticates.
pub open spec fn planned_headers(config: &DslConfig) -> Seq<(Seq<char>, Seq<char>)> {
    let given = match config.headers {
        Some(headers) => kept_headers(headers@, config),
        None => Seq::empty(),
    };
    let typed = match config.body {
        Some(body) => given.push(("Content-Type"@, content_type_of(&body))),
        None => given,
    };
    match auth_header(&config.auth) {
        Some(header) => typed.push(header),
        None => typed,
    }
}

/// The header that authenticates the requests, if the test has one.
pub fn authentication(auth: &Option<Auth>) -> (r: Result<Option<(String, String)>, BuildError>)
    ensures
        r is Ok <==> credentials_fit(auth),
        r matches Err(e) ==> e@ == BuildErrorView::CredentialsTooLong,
        r matches Ok(Some(header)) ==> auth_header(auth) == Some((header.0@, header.1@)),
        r matches Ok(None) ==> auth_header(auth) is None,
{
    match auth {
        Some(Auth::Basic { username, password }) => {
            let mut plain = username.clone();
            plain.push(':');
            plain.append(password.as_str());
            assert(plain@ =~= credentials(username@, password@));
            if plain.as_str().unicode_len() > MAX_CREDENTIALS {
                return Err(BuildError::CredentialsTooLong);
            }
            let mut value = String::from_str("Basic ");
            let encoded = base64_encode(plain.as_str());
            value.append(encoded.as_str());
            Ok(Some((String::from_str("Authorization"), value)))
        },
        Some(Auth::Bearer { token }) => {
            let mut value = String::from_str("Bearer ");
            value.append(token.as_str());
            Ok(Some((String::from_str("Authorization"), value)))
        },
        Some(Auth::ApiKey { key_name, key_value, add_to }) => {
            if str_eq(add_to.as_str(), "header") {
                Ok(Some((key_name.clone(), key_value.clone())))
            } else {
                Ok(None)
            }
        },
        _ => Ok(None),
    }
}


/// One request, planned: everything that is sent, as plain values.
#[derive(Debug)]
pub struct RequestPlan {
    pub method: HttpMethod,
    pub url: String,
    /// The headers in the order in which they are set.
    pub headers: Vec<(String, String)>,
    /// The body; empty where the request has none.
    pub body: String,
}

/// What a [`RequestPlan`] says.
pub struct RequestPlanView {
    pub method: HttpMethod,
    pub url: Seq<char>,
    pub headers: Seq<(Seq<char>, Seq<char>)>,
    pub body: Seq<char>,
}

impl View for RequestPlan {
    type V = RequestPlanView;

    open spec fn view(&self) -> RequestPlanView {
        RequestPlanView {
            method: self.method,
            url: self.url@,
            headers: pairs_view(self.headers@),
            body: self.body@,
        }
    }
}

/// A plan or the reason why there is none, by what they say.
pub open spec fn plan_result_view(r: Result<RequestPlan, BuildError>) -> Result<
    RequestPlanView,
    BuildErrorView,
> {
    match r {
        Ok(plan) => Ok(plan@),
        Err(e) => Err(e@),
    }
}

/// The body of a request as text: none is empty, XML is sent as it is
/// written, JSON in its compact encoding.
pub open spec fn encoded_body(body: &Option<Body>) -> Result<Seq<char>, Seq<char>> {
    match body {
        None => Ok(Seq::empty()),
        Some(Body::Xml(text)) => Ok(text@),
        Some(Body::Json(value)) => json_compact_text(*value),
    }
}

/// The plan of a request whose body was encoded as `body`, or the first
/// reason why there is none: the URL, then the body, then the credentials.
pub open spec fn finish_plan(config: &DslConfig, body: Result<Seq<char>, Seq<char>>) -> Result<
    RequestPlanView,
    BuildErrorView,
> {
    match planned_url(config) {
        Err(e) => Err(e),
        Ok(url) => match body {
            Err(e) => Err(BuildErrorView::Body(e)),
            Ok(text) => if !credentials_fit(&config.auth) {
                Err(BuildErrorView::CredentialsTooLong)
            } else {
                Ok(
                    RequestPlanView {
                        method: config.method,
                        url,
                        headers: planned_headers(config),
                        body: text,
                    },
                )
            },
        },
    }
}

/// The headers of the operator that are sent.
fn operator_headers(config: &DslConfig) -> (kept: Vec<(String, String)>)
    ensures
        pairs_view(kept@) == match config.headers {
            Some(headers) => kept_headers(headers@, config),
            None => Seq::empty(),
        },
{
    let mut kept: Vec<(String, String)> = Vec::new();
    let typed: bool = config.body.is_some();
    let authorized: bool = match &config.auth {
        Some(Auth::Basic { .. }) => true,
        Some(Auth::Bearer { .. }) => true,
        Some(Auth::ApiKey { key_name, add_to, .. }) => str_eq(add_to.as_str(), "header")
            && same_header_name(key_name.as_str(), "Authorization"),
        _ => false,
    };
    if let Some(headers) = &config.headers {
        let mut i: usize = 0;
        assert(headers@.take(0) =~= Seq::empty());
        assert(pairs_view(kept@) =~= Seq::empty());
        while i < headers.len()
            invariant
                0 <= i <= headers.len(),
                typed == sets_content_type(config),
                authorized == sets_authorization(config),
                pairs_view(kept@) == kept_headers(headers@.take(i as int), config),
            decreases headers.len() - i,
        {
            let name = &headers[i].0;
            let ghost before = pairs_view(kept@);
            proof {
                assert(headers@.take(i + 1).drop_last() =~= headers@.take(i as int));
                assert(headers@.take(i + 1).last() == headers@[i as int]);
            }
            let gives_way = (typed && same_header_name(name.as_str(), "Content-Type")) || (
            authorized && same_header_name(name.as_str(), "Authorization"));
            if !gives_way {
                kept.push((name.clone(), headers[i].1.clone()));
                assert(pairs_view(kept@) =~= before.push((headers@[i as int].0@, headers@[i as int].1@)));
            }
            i = i + 1;
        }
        assert(headers@.take(headers@.len() as int) =~= headers@);
    } else {
        assert(pairs_view(kept@) =~= Seq::empty());
    }
    kept
}

/// The body of a request as text.
pub fn encode_body(body: &Option<Body>) -> (r: Result<String, String>)
    ensures
        text_result(r) == encoded_body(body),
{
    match body {
        None => Ok(String::new()),
        Some(Body::Xml(text)) => Ok(text.clone()),
        Some(Body::Json(value)) => json_compact(value),
    }
}

/// The plan of a request whose body was encoded as `body`.
pub fn plan_request_with(config: &DslConfig, body: Result<String, String>) -> (r: Result<
    RequestPlan,
    BuildError,
>)
    ensures
        plan_result_view(r) == finish_plan(config, text_result(body)),
        r matches Err(e) && e@ is InvalidTarget ==> url_parse(config.target@) is Err,
{
    let url = match request_url(config) {
        Ok(url) => url,
        Err(e) => {
            return Err(e);
        },
    };
    let text = match body {
        Ok(text) => text,
        Err(e) => {
            return Err(BuildError::Body(e));
        },
    };
    let auth = match authentication(&config.auth) {
        Ok(auth) => auth,
        Err(e) => {
            return Err(e);
        },
    };
    let mut headers = operator_headers(config);
    if let Some(body) = &config.body {
        let ghost before = pairs_view(headers@);
        let media = match body {
            Body::Json(_) => "application/json",
            Body::Xml(_) => "application/xml",
        };
        headers.push((String::from_str("Content-Type"), String::from_str(media)));
        assert(pairs_view(headers@) =~= before.push(("Content-Type"@, content_type_of(body))));
    }
    if let Some(header) = auth {
        let ghost before = pairs_view(headers@);
        let ghost added = (header.0@, header.1@);
        headers.push(header);
        assert(pairs_view(headers@) =~= before.push(added));
    }
    Ok(RequestPlan { method: config.method, url, headers, body: text })
}

/// The plan of one request of the test: the URL with the query pairs, the
/// method, the headers and the body as it is encoded; or the first reason
/// why there is none.
pub fn plan_request(config: &DslConfig) -> (r: Result<RequestPlan, BuildError>)
    ensures
        plan_result_view(r) == finish_plan(config, encoded_body(&config.body)),
        r matches Err(e) && e@ is InvalidTarget ==> url_parse(config.target@) is Err,
{
    let body = encode_body(&config.body);
    plan_request_with(config, body)
}


impl BuildError {
    /// The text that tells the operator why no request was sent.
    pub open spec fn detail_text(&self) -> Seq<char> {
        match self {
            BuildError::InvalidTarget(e) => e@,
            BuildError::UrlTooLong => "URL too long"@,
            BuildError::InvalidUri(e) => e@,
            BuildError::Body(e) => e@,
            BuildError::CredentialsTooLong => "Credentials too long"@,
        }
    }

    /// The text that tells the operator why no request was sent.
    pub fn detail(&self) -> (text: String)
        ensures
            text@ == self.detail_text(),
    {
        match self {
            BuildError::InvalidTarget(e) => e.clone(),
            BuildError::UrlTooLong => String::from_str("URL too long"),
            BuildError::InvalidUri(e) => e.clone(),
            BuildError::Body(e) => e.clone(),
            BuildError::CredentialsTooLong => String::from_str("Credentials too long"),
        }
    }
}

/// How the attempt to send one request ended, as the transport tells it.
#[derive(Debug)]
pub enum Attempt {
    /// A response arrived, with this status.
    Response { status: u16 },
    /// The time allowed to the request ran out.
    TimedOut,
    /// The transport failed. The flags say what its error answers to: a
    /// failure to connect, a timeout of its own, a closed connection.
    Failed { connect: bool, timeout: bool, closed: bool },
    /// The request could not be put together and was never sent.
    NotSent(BuildError),
    /// The request was put together, but the transport refused to send it;
    /// the text says why.
    Refused(String),
}

/// How an attempt is classified. Of the flags of a failed transport the
/// first that is set decides: connect, timeout, closed.
pub open spec fn classification_of(attempt: &Attempt) -> Classification {
    match attempt {
        Attempt::Response { status } => Classification::HttpStatus(*status),
        Attempt::TimedOut => Classification::Timeout,
        Attempt::Failed { connect, timeout, closed } => if *connect {
            Classification::ConnectFailure
        } else if *timeout {
            Classification::Timeout
        } else if *closed {
            Classification::ConnectionClosed
        } else {
            Classification::UnknownNetworkError
        },
        Attempt::NotSent(_) => Classification::UnknownNetworkError,
        Attempt::Refused(_) => Classification::UnknownNetworkError,
    }
}

/// The time that an attempt is counted with, in milliseconds: the time
/// allowed where it ran out, nothing where no request was sent, else the
/// time measured, as far as it can be counted.
pub open spec fn elapsed_of(attempt: &Attempt, measured_ms: u128, timeout_ms: u64) -> u64 {
    match attempt {
        Attempt::TimedOut => timeout_ms,
        Attempt::NotSent(_) => 0,
        Attempt::Refused(_) => 0,
        _ => if measured_ms > u64::MAX {
            u64::MAX
        } else {
            measured_ms as u64
        },
    }
}

/// The text that tells the operator how a request failed.
pub open spec fn failure_text(c: Classification) -> Seq<char> {
    match c {
        Classification::HttpStatus(_) => Seq::empty(),
        Classification::Timeout => "Timeout"@,
        Classification::ConnectFailure => "Connection refused or host unreachable"@,
        Classification::ConnectionClosed => "Connection closed unexpectedly"@,
        Classification::UnknownNetworkError => "Unknown network error"@,
    }
}

/// The text for the operator that goes with an attempt: none for a
/// response, the reason where no request was sent, else the text of the
/// classification.
pub open spec fn detail_of(attempt: &Attempt) -> Option<Seq<char>> {
    match attempt {
        Attempt::Response { .. } => None,
        Attempt::NotSent(e) => Some(e.detail_text()),
        Attempt::Refused(text) => Some(text@),
        _ => Some(failure_text(classification_of(attempt))),
    }
}

/// The outcome of one attempt, measured at `measured_ms` milliseconds under
/// a timeout of `timeout_ms`.
pub fn conclude(attempt: &Attempt, measured_ms: u128, timeout_ms: u64) -> (outcome: RequestOutcome)
    ensures
        outcome.classification == classification_of(attempt),
        outcome.elapsed_ms == elapsed_of(attempt, measured_ms, timeout_ms),
        match outcome.error_detail {
            Some(text) => detail_of(attempt) == Some(text@),
            None => detail_of(attempt) is None,
        },
{
    let counted: u64 = if measured_ms > u64::MAX as u128 {
        u64::MAX
    } else {
        measured_ms as u64
    };
    match attempt {
        Attempt::Response { status } => RequestOutcome {
            classification: Classification::HttpStatus(*status),
            elapsed_ms: counted,
            error_detail: None,
        },
        Attempt::TimedOut => RequestOutcome {
            classification: Classification::Timeout,
            elapsed_ms: timeout_ms,
            error_detail: Some(String::from_str("Timeout")),
        },
        Attempt::Failed { connect, timeout, closed } => {
            if *connect {
                RequestOutcome {
                    classification: Classification::ConnectFailure,
                    elapsed_ms: counted,
                    error_detail: Some(String::from_str("Connection refused or host unreachable")),
                }
            } else if *timeout {
                RequestOutcome {
                    classification: Classification::Timeout,
                    elapsed_ms: counted,
                    error_detail: Some(String::from_str("Timeout")),
                }
            } else if *closed {
                RequestOutcome {
                    classification: Classification::ConnectionClosed,
                    elapsed_ms: counted,
                    error_detail: Some(String::from_str("Connection closed unexpectedly")),
                }
            } else {
                RequestOutcome {
                    classification: Classification::UnknownNetworkError,
                    elapsed_ms: counted,
                    error_detail: Some(String::from_str("Unknown network error")),
                }
            }
        },
        Attempt::NotSent(e) => RequestOutcome {
            classification: Classification::UnknownNetworkError,
            elapsed_ms: 0,
            error_detail: Some(e.detail()),
        },
        Attempt::Refused(text) => RequestOutcome {
            classification: Classification::UnknownNetworkError,
            elapsed_ms: 0,
            error_detail: Some(text.clone()),
        },
    }
}

} // verus!
