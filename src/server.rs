use crate::response::{
    clone_headers, header_lines, headers_view, lemma_configured_headers_first, response_bytes,
    status_line, Header, HeaderView, HttpResponse,
};
use vstd::prelude::*;
use vstd::utf8::{decode_utf8, encode_utf8, valid_utf8};

verus! {

/// Why a request could not be turned into a method and a target.
#[derive(Debug, PartialEq, Eq, Structural)]
pub enum RequestError {
    Internal,
    MethodNotAllowed,
    BadRequest,
}

/// What reading the file at a resolved path gave.
pub enum FileRead {
    Contents(Vec<u8>),
    NotFound,
    Failed,
}

/// What to do with a connection once its request has been read.
pub enum Step {
    /// Send these bytes and close.
    Respond(Vec<u8>),
    /// Read the file at `path`, then answer with `HttpServer::handle_request`.
    Read { method: String, target: String, path: String },
}

/// Characters with the Unicode `White_Space` property.
pub open spec fn is_white_space(c: char) -> bool {
    ('\u{9}' <= c && c <= '\u{d}') || c == ' ' || c == '\u{85}' || c == '\u{a0}' || c == '\u{1680}'
        || ('\u{2000}' <= c && c <= '\u{200a}') || c == '\u{2028}' || c == '\u{2029}' || c
        == '\u{202f}' || c == '\u{205f}' || c == '\u{3000}'
}

/// `pending` as a token list: one token if it is not empty, none if it is.
pub open spec fn flush_token(pending: Seq<char>) -> Seq<Seq<char>> {
    if pending.len() == 0 {
        Seq::empty()
    } else {
        seq![pending]
    }
}

/// The maximal runs of non-white-space characters of `s`, in order, the first
/// of them extending `pending`.
pub open spec fn tokens_after(pending: Seq<char>, s: Seq<char>) -> Seq<Seq<char>>
    decreases s.len(),
{
    if s.len() == 0 {
        flush_token(pending)
    } else if is_white_space(s[0]) {
        flush_token(pending) + tokens_after(Seq::empty(), s.skip(1))
    } else {
        tokens_after(pending.push(s[0]), s.skip(1))
    }
}

/// The tokens of `s` between runs of white space, in order.
pub open spec fn whitespace_tokens(s: Seq<char>) -> Seq<Seq<char>> {
    tokens_after(Seq::empty(), s)
}

/// The MIME type guessed from the extension of `path`.
pub uninterp spec fn guessed_mime(path: Seq<char>) -> Seq<char>;

/// Relies on `String::from_utf8`: it succeeds exactly on valid UTF-8, and the
/// string then holds the decoded characters.
#[verifier::external_body]
fn decode_text(buf: Vec<u8>) -> (r: Option<String>)
    ensures
        r is Some <==> valid_utf8(buf@),
        r matches Some(s) ==> s@ == decode_utf8(buf@),
{
    String::from_utf8(buf).ok()
}

/// Relies on `str::split_whitespace`: the substrings of `s` separated by any
/// amount of Unicode white space, in order, none of them empty.
#[verifier::external_body]
fn split_tokens(s: &str) -> (r: Vec<String>)
    ensures
        r@.map_values(|t: String| t@) == whitespace_tokens(s@),
{
    s.split_whitespace().map(|t| t.to_string()).collect()
}

/// Relies on `str::starts_with` with a string pattern.
#[verifier::external_body]
fn has_prefix(s: &str, prefix: &str) -> (r: bool)
    ensures
        r == prefix@.is_prefix_of(s@),
{
    s.starts_with(prefix)
}

/// Relies on `str::replacen` with a count of one: the first match of `from`,
/// which is at the start when `s` begins with it, is replaced by `to`.
#[verifier::external_body]
fn replace_leading(s: &str, from: &str, to: &str) -> (r: String)
    requires
        from@.is_prefix_of(s@),
    ensures
        r@ == to@ + s@.skip(from@.len() as int),
{
    s.replacen(from, to, 1)
}

/// Relies on `mime_guess::from_path` and `MimeGuess::first_or_text_plain`: the
/// first MIME type known for the extension of `path` (`text/plain` when none
/// is), which depends on the path alone.
#[verifier::external_body]
fn guess_mime(path: &str) -> (r: String)
    ensures
        r@ == guessed_mime(path@),
{
    mime_guess::from_path(path).first_or_text_plain().to_string()
}

/// The path a request target names: a target that begins with `prefix` has
/// that prefix replaced once by `base`; any other target is kept.
pub open spec fn resolve(prefix: Seq<char>, base: Seq<char>, target: Seq<char>) -> Seq<char> {
    if prefix.is_prefix_of(target) {
        base + target.skip(prefix.len() as int)
    } else {
        target
    }
}

/// Method and target from the tokens of a request: the method token must be
/// `GET`, and a target must follow it.
pub open spec fn parse_tokens(tokens: Seq<Seq<char>>) -> Result<(Seq<char>, Seq<char>), RequestError> {
    if tokens.len() == 0 {
        Err(RequestError::BadRequest)
    } else if tokens[0] != "GET"@ {
        Err(RequestError::MethodNotAllowed)
    } else if tokens.len() < 2 {
        Err(RequestError::BadRequest)
    } else {
        Ok((tokens[0], tokens[1]))
    }
}

/// Method and target of the request held in `buf`.
pub open spec fn request_outcome(buf: Seq<u8>) -> Result<(Seq<char>, Seq<char>), RequestError> {
    if !valid_utf8(buf) {
        Err(RequestError::Internal)
    } else {
        parse_tokens(whitespace_tokens(decode_utf8(buf)))
    }
}

pub open spec fn request_view(r: Result<(String, String), RequestError>) -> Result<(Seq<char>, Seq<char>), RequestError> {
    match r {
        Ok((m, t)) => Ok((m@, t@)),
        Err(e) => Err(e),
    }
}

pub open spec fn error_status(e: RequestError) -> u16 {
    match e {
        RequestError::BadRequest => 400,
        RequestError::MethodNotAllowed => 405,
        RequestError::Internal => 500,
    }
}

pub open spec fn error_message(e: RequestError) -> Seq<char> {
    match e {
        RequestError::BadRequest => "BadRequest"@,
        RequestError::MethodNotAllowed => "Method not allowed"@,
        RequestError::Internal => "Internal server error"@,
    }
}

/// The answer to a request that could not be parsed: its status, and no body.
pub open spec fn error_reply(headers: Seq<HeaderView>, e: RequestError) -> Seq<u8> {
    response_bytes(error_status(e), error_message(e), headers, Seq::empty())
}

/// The answer to a request whose file was read: status 200 and the file's
/// bytes, with a `Content-Type` header after the configured ones.
pub open spec fn found_reply(headers: Seq<HeaderView>, mime: Seq<char>, contents: Seq<u8>) -> Seq<u8> {
    response_bytes(200, "OK"@, headers + seq![("Content-Type"@, mime)], contents)
}

pub open spec fn not_found_reply(headers: Seq<HeaderView>) -> Seq<u8> {
    response_bytes(404, "Not found"@, headers, encode_utf8("Resource not found"@))
}

pub open spec fn failed_reply(headers: Seq<HeaderView>) -> Seq<u8> {
    response_bytes(
        500,
        "Internal server error."@,
        headers,
        encode_utf8("Failed to process the request."@),
    )
}

/// Every answer the server gives, whatever its kind, carries the configured
/// headers first, in the order they were configured, before any header of its own.
pub proof fn lemma_replies_lead_with_configured_headers(
    headers: Seq<HeaderView>,
    e: RequestError,
    mime: Seq<char>,
    contents: Seq<u8>,
)
    ensures
        (status_line(error_status(e), error_message(e)) + header_lines(headers)).is_prefix_of(
            error_reply(headers, e),
        ),
        (status_line(200, "OK"@) + header_lines(headers)).is_prefix_of(
            found_reply(headers, mime, contents),
        ),
        (status_line(404, "Not found"@) + header_lines(headers)).is_prefix_of(
            not_found_reply(headers),
        ),
        (status_line(500, "Internal server error."@) + header_lines(headers)).is_prefix_of(
            failed_reply(headers),
        ),
{
    let none = Seq::<HeaderView>::empty();
    assert(headers + none =~= headers);
    lemma_configured_headers_first(error_status(e), error_message(e), headers, none, Seq::empty());
    lemma_configured_headers_first(200, "OK"@, headers, seq![("Content-Type"@, mime)], contents);
    lemma_configured_headers_first(
        404,
        "Not found"@,
        headers,
        none,
        encode_utf8("Resource not found"@),
    );
    lemma_configured_headers_first(
        500,
        "Internal server error."@,
        headers,
        none,
        encode_utf8("Failed to process the request."@),
    );
}

/// A request whose method token is not `GET` is answered with status 405 and
/// an empty body.
pub proof fn lemma_other_methods_not_allowed(headers: Seq<HeaderView>, buf: Seq<u8>)
    requires
        valid_utf8(buf),
        whitespace_tokens(decode_utf8(buf)).len() > 0,
        whitespace_tokens(decode_utf8(buf))[0] != "GET"@,
    ensures
        request_outcome(buf) == Err::<(Seq<char>, Seq<char>), RequestError>(
            RequestError::MethodNotAllowed,
        ),
        error_reply(headers, RequestError::MethodNotAllowed) == response_bytes(
            405,
            "Method not allowed"@,
            headers,
            Seq::empty(),
        ),
{
}

/// A request line with fewer than two tokens is answered with status 400,
/// unless its one token is a method other than `GET`, which is refused first.
pub proof fn lemma_short_request_is_bad(headers: Seq<HeaderView>, buf: Seq<u8>)
    requires
        valid_utf8(buf),
        whitespace_tokens(decode_utf8(buf)).len() < 2,
        whitespace_tokens(decode_utf8(buf)).len() == 1 ==> whitespace_tokens(decode_utf8(buf))[0]
            == "GET"@,
    ensures
        request_outcome(buf) == Err::<(Seq<char>, Seq<char>), RequestError>(
            RequestError::BadRequest,
        ),
        error_reply(headers, RequestError::BadRequest) == response_bytes(
            400,
            "BadRequest"@,
            headers,
            Seq::empty(),
        ),
{
}

/// Method and target from the white-space separated tokens of a request.
pub fn parse_request_tokens(tokens: &Vec<String>) -> (r: Result<(String, String), RequestError>)
    ensures
        request_view(r) == parse_tokens(tokens@.map_values(|t: String| t@)),
{
    let ghost toks = tokens@.map_values(|t: String| t@);
    if tokens.len() == 0 {
        return Err(RequestError::BadRequest);
    }
    let get = "GET".to_owned();
    if tokens[0] != get {
        assert(toks[0] == tokens@[0]@);
        return Err(RequestError::MethodNotAllowed);
    }
    if tokens.len() < 2 {
        return Err(RequestError::BadRequest);
    }
    assert(toks[0] == tokens@[0]@ && toks[1] == tokens@[1]@);
    Ok((tokens[0].clone(), tokens[1].clone()))
}

/// The headers every response carries: `X-Server: Rust WebServer`, then the
/// configured ones in their order.
pub fn server_headers(configured: Vec<Header>) -> (r: Vec<Header>)
    ensures
        headers_view(r@) == seq![("X-Server"@, "Rust WebServer"@)] + headers_view(configured@),
{
    let mut r: Vec<Header> = vec![("X-Server".to_owned(), "Rust WebServer".to_owned())];
    let mut rest = configured;
    let ghost before = r@;
    r.append(&mut rest);
    assert(headers_view(r@) =~= headers_view(before) + headers_view(configured@));
    assert(headers_view(before) =~= seq![("X-Server"@, "Rust WebServer"@)]);
    r
}

pub struct ServerView {
    pub prefix: Seq<char>,
    pub path: Seq<char>,
    pub headers: Seq<HeaderView>,
}

/// A static file server: request targets that begin with `prefix` are looked
/// up under `path`, and every response starts with `headers`.
pub struct HttpServer {
    headers: Vec<Header>,
    prefix: String,
    path: String,
}

impl View for HttpServer {
    type V = ServerView;

    closed spec fn view(&self) -> ServerView {
        ServerView { prefix: self.prefix@, path: self.path@, headers: headers_view(self.headers@) }
    }
}

impl HttpServer {
    pub fn new(prefix: String, path: String, headers: Vec<Header>) -> (r: Self)
        ensures
            r@ == (ServerView { prefix: prefix@, path: path@, headers: headers_view(headers@) }),
    {
        Self { prefix, path, headers }
    }

    /// A fresh response draft carrying the configured headers.
    fn draft(&self) -> (r: HttpResponse)
        ensures
            r@.status == 200,
            r@.message == "OK"@,
            r@.headers == self@.headers,
    {
        let mut hs = clone_headers(&self.headers);
        let r = HttpResponse::new().headers(&mut hs);
        assert(r@.headers =~= self@.headers);
        r
    }

    /// The filesystem path that `target` names.
    pub fn resolve_path(&self, target: &String) -> (r: String)
        ensures
            r@ == resolve(self@.prefix, self@.path, target@),
    {
        if has_prefix(target.as_str(), self.prefix.as_str()) {
            replace_leading(target.as_str(), self.prefix.as_str(), self.path.as_str())
        } else {
            target.clone()
        }
    }

    /// Method and target of the request whose first bytes are `buf`.
    pub fn get_req_data(&self, buf: Vec<u8>) -> (r: Result<(String, String), RequestError>)
        ensures
            request_view(r) == request_outcome(buf@),
    {
        match decode_text(buf) {
            Some(text) => {
                let tokens = split_tokens(text.as_str());
                parse_request_tokens(&tokens)
            },
            None => Err(RequestError::Internal),
        }
    }

    /// The answer to a request that could not be parsed.
    pub fn error_response(&self, e: RequestError) -> (r: Vec<u8>)
        ensures
            r@ == error_reply(self@.headers, e),
    {
        let res = self.draft();
        let body = String::new();
        match e {
            RequestError::MethodNotAllowed => res.status(405).message("Method not allowed").send_from_str(
                body,
                None,
            ),
            RequestError::BadRequest => res.status(400).message("BadRequest").send_from_str(body, None),
            RequestError::Internal => res.status(500).message("Internal server error").send_from_str(
                body,
                None,
            ),
        }
    }

    /// The answer for a resolved path that names no file.
    pub fn send_not_found(&self) -> (r: Vec<u8>)
        ensures
            r@ == not_found_reply(self@.headers),
    {
        self.draft().status(404).message("Not found").send_from_str("Resource not found".to_owned(), None)
    }

    /// The answer for a file whose bytes are `contents` and whose MIME type is `mime`.
    pub fn found_response(&self, contents: Vec<u8>, mime: String) -> (r: Vec<u8>)
        ensures
            r@ == found_reply(self@.headers, mime@, contents@),
    {
        let extra: Vec<Header> = vec![("Content-Type".to_owned(), mime)];
        let r = self.draft().send_bytes(contents, Some(extra));
        assert(headers_view(extra@) =~= seq![("Content-Type"@, mime@)]);
        r
    }

    /// The answer for the file at `path`, given what reading it gave.
    pub fn handle_request(&self, path: &String, read: FileRead) -> (r: Vec<u8>)
        ensures
            r@ == match read {
                FileRead::Contents(c) => found_reply(self@.headers, guessed_mime(path@), c@),
                FileRead::NotFound => not_found_reply(self@.headers),
                FileRead::Failed => failed_reply(self@.headers),
            },
    {
        match read {
            FileRead::Contents(contents) => {
                let mime = guess_mime(path.as_str());
                self.found_response(contents, mime)
            },
            FileRead::NotFound => self.send_not_found(),
            FileRead::Failed => self.draft().status(500).message("Internal server error.").send_from_str(
                "Failed to process the request.".to_owned(),
                None,
            ),
        }
    }

    /// What to do with a connection whose request starts with `buf`: answer an
    /// unparsable request at once, or read the file that its target names.
    pub fn begin_request(&self, buf: Vec<u8>) -> (r: Step)
        ensures
            match request_outcome(buf@) {
                Err(e) => r matches Step::Respond(bytes) && bytes@ == error_reply(self@.headers, e),
                Ok((m, t)) => r matches Step::Read { method, target, path } && method@ == m
                    && target@ == t && path@ == resolve(self@.prefix, self@.path, t),
            },
    {
        match self.get_req_data(buf) {
            Ok((method, target)) => {
                let path = self.resolve_path(&target);
                Step::Read { method, target, path }
            },
            Err(e) => Step::Respond(self.error_response(e)),
        }
    }
}

} // verus!
