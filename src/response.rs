use vstd::prelude::*;
use vstd::utf8::encode_utf8;

verus! {

/// A response header: its name and its value.
pub type Header = (String, String);

/// The mathematical value of a header: the characters of its name and value.
pub type HeaderView = (Seq<char>, Seq<char>);

pub open spec fn header_view(h: Header) -> HeaderView {
    (h.0@, h.1@)
}

pub open spec fn headers_view(hs: Seq<Header>) -> Seq<HeaderView> {
    hs.map_values(|h: Header| header_view(h))
}

/// The ASCII digits of `n` in base ten, most significant first.
pub open spec fn decimal(n: nat) -> Seq<u8>
    decreases n,
{
    if n < 10 {
        seq![(48 + n) as u8]
    } else {
        decimal(n / 10).push((48 + n % 10) as u8)
    }
}

/// `HTTP/1.1 ` as bytes.
pub open spec fn version_prefix() -> Seq<u8> {
    seq![72u8, 84u8, 84u8, 80u8, 47u8, 49u8, 46u8, 49u8, 32u8]
}

/// `HTTP/1.1 <status> <message>\n`
pub open spec fn status_line(status: u16, message: Seq<char>) -> Seq<u8> {
    version_prefix() + decimal(status as nat) + seq![32u8] + encode_utf8(message) + seq![10u8]
}

/// `<name>: <value>\n`
pub open spec fn header_line(h: HeaderView) -> Seq<u8> {
    encode_utf8(h.0) + seq![58u8, 32u8] + encode_utf8(h.1) + seq![10u8]
}

/// The header lines of `hs`, one after another in sequence order.
pub open spec fn header_lines(hs: Seq<HeaderView>) -> Seq<u8>
    decreases hs.len(),
{
    if hs.len() == 0 {
        Seq::empty()
    } else {
        header_lines(hs.drop_last()) + header_line(hs.last())
    }
}

/// The full serialized response: status line, header lines, a blank line, the body.
pub open spec fn response_bytes(
    status: u16,
    message: Seq<char>,
    headers: Seq<HeaderView>,
    body: Seq<u8>,
) -> Seq<u8> {
    status_line(status, message) + header_lines(headers) + seq![10u8] + body
}

/// Serializing a header sequence made of two parts emits the lines of the first
/// part, then those of the second.
pub proof fn lemma_header_lines_concat(a: Seq<HeaderView>, b: Seq<HeaderView>)
    ensures
        header_lines(a + b) == header_lines(a) + header_lines(b),
    decreases b.len(),
{
    if b.len() == 0 {
        assert(a + b =~= a);
        assert(header_lines(b) =~= Seq::<u8>::empty());
        assert(header_lines(a) + header_lines(b) =~= header_lines(a));
    } else {
        lemma_header_lines_concat(a, b.drop_last());
        assert((a + b).drop_last() =~= a + b.drop_last());
        assert((a + b).last() == b.last());
        assert(header_lines(a) + header_lines(b) =~= header_lines(a) + header_lines(b.drop_last())
            + header_line(b.last()));
    }
}

/// Every response starts with its status line followed by the lines of the
/// configured headers, in the order they were configured, before any header added for
/// that one response.
pub proof fn lemma_configured_headers_first(
    status: u16,
    message: Seq<char>,
    configured: Seq<HeaderView>,
    extra: Seq<HeaderView>,
    body: Seq<u8>,
)
    ensures
        response_bytes(status, message, configured + extra, body) == status_line(status, message)
            + header_lines(configured) + header_lines(extra) + seq![10u8] + body,
        (status_line(status, message) + header_lines(configured)).is_prefix_of(
            response_bytes(status, message, configured + extra, body),
        ),
{
    lemma_header_lines_concat(configured, extra);
    let r = response_bytes(status, message, configured + extra, body);
    let p = status_line(status, message) + header_lines(configured);
    assert(r =~= p + (header_lines(extra) + seq![10u8] + body));
    assert(r.subrange(0, p.len() as int) =~= p);
}

/// Appends the bytes of `s` to `out`.
fn push_str(out: &mut Vec<u8>, s: &str)
    ensures
        final(out)@ == old(out)@ + encode_utf8(s@),
{
    let b = s.as_bytes();
    let mut i: usize = 0;
    while i < b.len()
        invariant
            i <= b@.len(),
            b@ == encode_utf8(s@),
            out@ == old(out)@ + b@.subrange(0, i as int),
        decreases b@.len() - i,
    {
        out.push(b[i]);
        i = i + 1;
        assert(out@ =~= old(out)@ + b@.subrange(0, i as int));
    }
    assert(b@.subrange(0, i as int) =~= b@);
}

/// Appends the decimal digits of `n` to `out`.
fn push_decimal(out: &mut Vec<u8>, n: u16)
    ensures
        final(out)@ == old(out)@ + decimal(n as nat),
    decreases n,
{
    if n < 10 {
        out.push(48u8 + n as u8);
        assert(out@ =~= old(out)@ + decimal(n as nat));
    } else {
        push_decimal(out, n / 10);
        out.push(48u8 + (n % 10) as u8);
        assert(out@ =~= old(out)@ + decimal(n as nat));
    }
}


/// Appends one line per header of `hs`, in sequence order.
fn append_headers(res: &mut Vec<u8>, hs: &Vec<Header>)
    ensures
        final(res)@ == old(res)@ + header_lines(headers_view(hs@)),
{
    let mut i: usize = 0;
    while i < hs.len()
        invariant
            i <= hs@.len(),
            res@ == old(res)@ + header_lines(headers_view(hs@.subrange(0, i as int))),
        decreases hs@.len() - i,
    {
        let h = &hs[i];
        push_str(res, h.0.as_str());
        res.push(58u8);
        res.push(32u8);
        push_str(res, h.1.as_str());
        res.push(10u8);
        proof {
            let prev = headers_view(hs@.subrange(0, i as int));
            let next = headers_view(hs@.subrange(0, i + 1));
            assert(next.drop_last() =~= prev);
            assert(next.last() == header_view(hs@[i as int]));
        }
        i = i + 1;
        proof {
            let prev = headers_view(hs@.subrange(0, i - 1));
            let next = headers_view(hs@.subrange(0, i as int));
            assert(res@ =~= old(res)@ + header_lines(prev) + header_line(next.last()));
        }
    }
    assert(hs@.subrange(0, i as int) =~= hs@);
}

/// Copies a header sequence, header by header.
pub fn clone_headers(hs: &Vec<Header>) -> (r: Vec<Header>)
    ensures
        headers_view(r@) == headers_view(hs@),
{
    let mut r: Vec<Header> = Vec::new();
    let mut i: usize = 0;
    while i < hs.len()
        invariant
            i <= hs@.len(),
            r@.len() == i,
            headers_view(r@) =~= headers_view(hs@.subrange(0, i as int)),
        decreases hs@.len() - i,
    {
        let h = &hs[i];
        let name = h.0.clone();
        let value = h.1.clone();
        let ghost prev = r@;
        r.push((name, value));
        proof {
            let done = hs@.subrange(0, i + 1);
            assert forall|j: int| 0 <= j < i + 1 implies #[trigger] headers_view(r@)[j] == headers_view(
                done,
            )[j] by {
                if j < i {
                    assert(headers_view(prev)[j] == headers_view(hs@.subrange(0, i as int))[j]);
                }
            }
            assert(headers_view(r@) =~= headers_view(done));
        }
        i = i + 1;
    }
    assert(hs@.subrange(0, i as int) =~= hs@);
    r
}

/// The headers of an optional sequence; none when it is absent.
pub open spec fn optional_view(hs: Option<Vec<Header>>) -> Seq<HeaderView> {
    match hs {
        Some(h) => headers_view(h@),
        None => Seq::empty(),
    }
}

/// The parts of a response that are fixed before its body is known.
pub struct ResponseView {
    pub status: u16,
    pub message: Seq<char>,
    pub headers: Seq<HeaderView>,
}

/// A response being drafted: status, message and headers, set independently
/// and then serialized together with a body.
pub struct HttpResponse {
    status: u16,
    message: &'static str,
    headers: Vec<Header>,
}

impl View for HttpResponse {
    type V = ResponseView;

    closed spec fn view(&self) -> ResponseView {
        ResponseView { status: self.status, message: self.message@, headers: headers_view(self.headers@) }
    }
}

impl HttpResponse {
    /// A draft with status 200, message `OK` and no headers.
    pub fn new() -> (r: Self)
        ensures
            r@.status == 200,
            r@.message == "OK"@,
            r@.headers == Seq::<HeaderView>::empty(),
    {
        let r = HttpResponse { status: 200, message: "OK", headers: Vec::new() };
        assert(r@.headers =~= Seq::<HeaderView>::empty());
        r
    }

    pub fn message(self, message: &'static str) -> (r: Self)
        ensures
            r@ == (ResponseView { message: message@, ..self@ }),
    {
        let mut r = self;
        r.message = message;
        r
    }

    pub fn status(self, status: u16) -> (r: Self)
        ensures
            r@ == (ResponseView { status, ..self@ }),
    {
        let mut r = self;
        r.status = status;
        r
    }

    /// Moves the headers of `appended` after those already in the draft.
    pub fn headers(self, appended: &mut Vec<Header>) -> (r: Self)
        ensures
            r@ == (ResponseView { headers: self@.headers + headers_view(old(appended)@), ..self@ }),
            final(appended)@ == Seq::<Header>::empty(),
    {
        let mut r = self;
        r.headers.append(appended);
        assert(headers_view(r.headers@) =~= headers_view(self.headers@) + headers_view(old(appended)@));
        r
    }

    /// The bytes of the response: the draft's headers first, then `additional_headers`.
    pub fn build_response(&self, body: Vec<u8>, additional_headers: Option<Vec<Header>>) -> (r: Vec<u8>)
        ensures
            r@ == response_bytes(
                self@.status,
                self@.message,
                self@.headers + optional_view(additional_headers),
                body@,
            ),
    {
        let ghost extra = optional_view(additional_headers);
        let ghost body_bytes = body@;
        let mut res: Vec<u8> = Vec::new();
        res.push(72u8);
        res.push(84u8);
        res.push(84u8);
        res.push(80u8);
        res.push(47u8);
        res.push(49u8);
        res.push(46u8);
        res.push(49u8);
        res.push(32u8);
        assert(res@ =~= version_prefix());
        push_decimal(&mut res, self.status);
        res.push(32u8);
        push_str(&mut res, self.message);
        res.push(10u8);
        assert(res@ =~= status_line(self@.status, self@.message));
        append_headers(&mut res, &self.headers);
        match &additional_headers {
            Some(h) => {
                append_headers(&mut res, &h);
            },
            None => {
                assert(res@ =~= res@ + header_lines(Seq::<HeaderView>::empty()));
            },
        }
        res.push(10u8);
        let mut body = body;
        res.append(&mut body);
        proof {
            lemma_header_lines_concat(self@.headers, extra);
            assert(res@ =~= response_bytes(self@.status, self@.message, self@.headers + extra, body_bytes));
        }
        res
    }

    /// The bytes to send for a text body.
    pub fn send_from_str(&self, body: String, headers: Option<Vec<Header>>) -> (r: Vec<u8>)
        ensures
            r@ == response_bytes(
                self@.status,
                self@.message,
                self@.headers + optional_view(headers),
                encode_utf8(body@),
            ),
    {
        let mut b: Vec<u8> = Vec::new();
        push_str(&mut b, body.as_str());
        self.send_bytes(b, headers)
    }

    /// The bytes to send for a raw body.
    pub fn send_bytes(&self, body: Vec<u8>, headers: Option<Vec<Header>>) -> (r: Vec<u8>)
        ensures
            r@ == response_bytes(
                self@.status,
                self@.message,
                self@.headers + optional_view(headers),
                body@,
            ),
    {
        self.build_response(body, headers)
    }
}

} // verus!
