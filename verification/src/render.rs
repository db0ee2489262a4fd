//! The response renderer: from a received response to the styled pieces of
//! text that are printed, in their order.

use crate::text::{decimal, decimal_digits, eq_ignore_ascii_case, same_ignoring_case, str_eq};
use vstd::prelude::*;

verus! {

/// The protocol version of a response.
#[derive(Debug, Clone, Copy, PartialEq, Eq)]
pub enum HttpVersion {
    Http09,
    Http10,
    Http11,
    H2,
    H3,
}

/// One header of a response: its name and its value, as text.
#[derive(Debug, Clone, PartialEq, Eq)]
pub struct Header {
    pub name: String,
    pub value: String,
}

impl DeepView for Header {
    type V = (Seq<char>, Seq<char>);

    open spec fn deep_view(&self) -> (Seq<char>, Seq<char>) {
        (self.name@, self.value@)
    }
}

/// Headers as mathematical texts: names with their values, in receipt order.
pub type Headers = Seq<(Seq<char>, Seq<char>)>;

/// What was received: protocol version, status code, the headers in receipt
/// order, and the body as text.
#[derive(Debug, Clone, PartialEq, Eq)]
pub struct ResponseView {
    pub version: HttpVersion,
    pub status: u16,
    pub headers: Vec<Header>,
    pub body: String,
}

/// How a piece of output is set off from the rest.
#[derive(Debug, Clone, Copy, PartialEq, Eq)]
pub enum Style {
    Plain,
    Blue,
    Green,
    Cyan,
}

/// A piece of output in one style.
#[derive(Debug, Clone, PartialEq, Eq)]
pub struct Span {
    pub style: Style,
    pub text: String,
}

/// The mathematical value of a [`Span`].
pub struct SpanView {
    pub style: Style,
    pub text: Seq<char>,
}

impl DeepView for Span {
    type V = SpanView;

    open spec fn deep_view(&self) -> SpanView {
        SpanView { style: self.style, text: self.text@ }
    }
}

/// A media type in its parts, as `type/subtype+suffix; name=value`. Type,
/// subtype, suffix and parameter names are in lower case.
#[derive(Debug, Clone, PartialEq, Eq)]
pub struct MediaType {
    pub type_: String,
    pub subtype: String,
    pub suffix: Option<String>,
    pub params: Vec<(String, String)>,
}

/// The mathematical value of a [`MediaType`].
pub struct MediaTypeView {
    pub type_: Seq<char>,
    pub subtype: Seq<char>,
    pub suffix: Option<Seq<char>>,
    pub params: Seq<(Seq<char>, Seq<char>)>,
}

impl DeepView for MediaType {
    type V = MediaTypeView;

    open spec fn deep_view(&self) -> MediaTypeView {
        MediaTypeView {
            type_: self.type_@,
            subtype: self.subtype@,
            suffix: self.suffix.deep_view(),
            params: self.params.deep_view(),
        }
    }
}

/// Why a response could not be rendered.
#[derive(Debug, Clone, PartialEq, Eq)]
pub enum FormattingError {
    /// The `Content-Type` header's value, `value`, is no media type.
    ContentType { value: String },
    /// The body was declared as JSON and could not be formatted as JSON;
    /// `reason` is the formatter's description of the fault.
    Json { reason: String },
}

/// The mathematical value of a [`FormattingError`].
pub enum FormattingErrorView {
    ContentType { value: Seq<char> },
    Json { reason: Seq<char> },
}

impl DeepView for FormattingError {
    type V = FormattingErrorView;

    open spec fn deep_view(&self) -> FormattingErrorView {
        match self {
            FormattingError::ContentType { value } => FormattingErrorView::ContentType {
                value: value@,
            },
            FormattingError::Json { reason } => FormattingErrorView::Json { reason: reason@ },
        }
    }
}

impl FormattingError {
    /// The text that reports this error.
    pub open spec fn spec_message(self) -> Seq<char> {
        match self {
            FormattingError::ContentType { value } => "invalid content type: "@ + value@,
            FormattingError::Json { reason } => "invalid JSON body: "@ + reason@,
        }
    }

    /// The text that reports this error.
    pub fn message(&self) -> (m: String)
        ensures
            m@ == self.spec_message(),
    {
        match self {
            FormattingError::ContentType { value } => {
                let mut m = "invalid content type: ".to_owned();
                m.append(value.as_str());
                m
            },
            FormattingError::Json { reason } => {
                let mut m = "invalid JSON body: ".to_owned();
                m.append(reason.as_str());
                m
            },
        }
    }
}

/// The reason phrase that belongs to the status code `code`, where one is known.
pub uninterp spec fn canonical_reason(code: u16) -> Option<Seq<char>>;

/// The media type that the text `s` parses into, or `None` where `s` is none.
pub uninterp spec fn media_type_of(s: Seq<char>) -> Option<MediaTypeView>;

/// The text `s` reformatted as indented JSON, or the formatter's description
/// of why it could not be.
pub uninterp spec fn pretty_json(s: Seq<char>) -> Result<Seq<char>, Seq<char>>;

/// Looks the reason phrase of `code` up: `reqwest::StatusCode::from_u16`, then
/// `canonical_reason` on the status code. `None` for a number that is no
/// status code, and for a status code without a phrase.
///
/// Trusted: the answer depends on `code` alone.
#[verifier::external_body]
fn reason_of(code: u16) -> (r: Option<String>)
    ensures
        r.deep_view() == canonical_reason(code),
{
    match reqwest::StatusCode::from_u16(code) {
        Ok(status) => match status.canonical_reason() {
            Some(phrase) => Some(phrase.to_string()),
            None => None,
        },
        Err(_) => None,
    }
}

/// Parses `s` with `mime::Mime`'s `FromStr` and copies out what the accessors
/// `type_`, `subtype`, `suffix` and `params` give.
///
/// Trusted: the answer depends on `s` alone.
#[verifier::external_body]
fn parse_media_type(s: &str) -> (m: Option<MediaType>)
    ensures
        m.deep_view() == media_type_of(s@),
{
    match s.parse::<mime::Mime>() {
        Ok(m) => Some(MediaType {
            type_: m.type_().as_str().to_string(),
            subtype: m.subtype().as_str().to_string(),
            suffix: m.suffix().map(|n| n.as_str().to_string()),
            params: m
                .params()
                .map(|(n, v)| (n.as_str().to_string(), v.as_str().to_string()))
                .collect(),
        }),
        Err(_) => None,
    }
}

/// The view of a text or a description of a fault.
pub open spec fn text_result_view(r: Result<String, String>) -> Result<Seq<char>, Seq<char>> {
    match r {
        Ok(t) => Ok(t@),
        Err(e) => Err(e@),
    }
}

/// Reformats `body` with `jsonxf::pretty_print`.
///
/// Trusted: the answer depends on `body` alone.
#[verifier::external_body]
fn pretty_print(body: &str) -> (r: Result<String, String>)
    ensures
        text_result_view(r) == pretty_json(body@),
{
    jsonxf::pretty_print(body)
}

/// A span as a mathematical value.
pub open spec fn span(style: Style, text: Seq<char>) -> SpanView {
    SpanView { style, text }
}

/// The name of a protocol version, as a status line shows it.
pub open spec fn version_name(v: HttpVersion) -> Seq<char> {
    match v {
        HttpVersion::Http09 => "HTTP/0.9"@,
        HttpVersion::Http10 => "HTTP/1.0"@,
        HttpVersion::Http11 => "HTTP/1.1"@,
        HttpVersion::H2 => "HTTP/2.0"@,
        HttpVersion::H3 => "HTTP/3.0"@,
    }
}

/// The status line: version, status code and reason phrase, with one space
/// between them. A code without a known phrase shows `<unknown status code>`.
pub open spec fn status_text(v: HttpVersion, code: u16, reason: Option<Seq<char>>) -> Seq<char> {
    version_name(v) + " "@ + decimal_digits(code as nat) + " "@ + match reason {
        Some(phrase) => phrase,
        None => "<unknown status code>"@,
    }
}

/// The status part of the output: the status line in blue, then a line break
/// and an empty line.
pub open spec fn status_spans(line: Seq<char>) -> Seq<SpanView> {
    seq![span(Style::Blue, line), span(Style::Plain, "\n\n"@)]
}

/// The output for one header: its name in green, then a colon, a space, the
/// value as it is, and a line break.
pub open spec fn header_line(h: (Seq<char>, Seq<char>)) -> Seq<SpanView> {
    seq![span(Style::Green, h.0), span(Style::Plain, ": "@ + h.1 + "\n"@)]
}

/// The output for the headers `hs`, one after the other.
pub open spec fn header_lines(hs: Headers) -> Seq<SpanView>
    decreases hs.len(),
{
    if hs.len() == 0 {
        Seq::empty()
    } else {
        header_lines(hs.drop_last()) + header_line(hs.last())
    }
}

/// The header part of the output: every header in receipt order, then an
/// empty line.
pub open spec fn headers_spans(hs: Headers) -> Seq<SpanView> {
    header_lines(hs) + seq![span(Style::Plain, "\n"@)]
}

/// `name` is the header name `content-type`, in whatever case.
pub open spec fn is_content_type(name: Seq<char>) -> bool {
    same_ignoring_case(name, "content-type"@)
}

/// `i` is the place of the first `Content-Type` header among `hs`.
pub open spec fn is_first_content_type(hs: Headers, i: int) -> bool {
    &&& 0 <= i < hs.len()
    &&& is_content_type(hs[i].0)
    &&& forall|j: int| 0 <= j < i ==> !is_content_type(#[trigger] hs[j].0)
}

/// The value of the first `Content-Type` header among `hs`, if there is one.
pub open spec fn content_type_value(hs: Headers) -> Option<Seq<char>> {
    if exists|i: int| is_first_content_type(hs, i) {
        Some(hs[choose|i: int| is_first_content_type(hs, i)].1)
    } else {
        None
    }
}

/// The content type of a response with the headers `hs`, where `parsed` is
/// what the value of its first `Content-Type` header parses into: none
/// without such a header, an error where the value is no media type.
pub open spec fn content_type_outcome(
    value: Option<Seq<char>>,
    parsed: Option<MediaTypeView>,
) -> Result<Option<MediaTypeView>, FormattingErrorView> {
    match value {
        None => Ok(None),
        Some(v) => match parsed {
            Some(m) => Ok(Some(m)),
            None => Err(FormattingErrorView::ContentType { value: v }),
        },
    }
}

/// The content type that the headers `hs` declare.
pub open spec fn declared_content_type(hs: Headers) -> Result<
    Option<MediaTypeView>,
    FormattingErrorView,
> {
    match content_type_value(hs) {
        None => Ok(None),
        Some(v) => content_type_outcome(Some(v), media_type_of(v)),
    }
}

/// The media type is `application/json`: that type and that subtype, without
/// a suffix, whatever the parameters.
pub open spec fn is_json(m: MediaTypeView) -> bool {
    m.type_ == "application"@ && m.subtype == "json"@ && m.suffix is None
}

/// A body is formatted as JSON where a content type is declared and it is
/// `application/json`.
pub open spec fn wants_json(m: Option<MediaTypeView>) -> bool {
    m matches Some(t) && is_json(t)
}

/// The body part of the output for a body that was declared as JSON, where
/// `pretty` is what the formatter made of it: the formatted text in cyan and a
/// line break, or the formatting error.
pub open spec fn json_body_spans(pretty: Result<Seq<char>, Seq<char>>) -> Result<
    Seq<SpanView>,
    FormattingErrorView,
> {
    match pretty {
        Ok(text) => Ok(seq![span(Style::Cyan, text), span(Style::Plain, "\n"@)]),
        Err(reason) => Err(FormattingErrorView::Json { reason }),
    }
}

/// The body part of the output for any other body: the text as it is, and a
/// line break.
pub open spec fn raw_body_spans(body: Seq<char>) -> Seq<SpanView> {
    seq![span(Style::Plain, body), span(Style::Plain, "\n"@)]
}

/// The body part of the output for the body `body` of a response with the
/// content type `m`.
pub open spec fn body_spans(m: Option<MediaTypeView>, body: Seq<char>) -> Result<
    Seq<SpanView>,
    FormattingErrorView,
> {
    if wants_json(m) {
        json_body_spans(pretty_json(body))
    } else {
        Ok(raw_body_spans(body))
    }
}

/// The whole output for a response: status part, header part, body part, in
/// this order; or the error that stopped it.
pub open spec fn response_spans(
    v: HttpVersion,
    code: u16,
    hs: Headers,
    body: Seq<char>,
) -> Result<Seq<SpanView>, FormattingErrorView> {
    match declared_content_type(hs) {
        Err(e) => Err(e),
        Ok(m) => match body_spans(m, body) {
            Err(e) => Err(e),
            Ok(b) => Ok(
                status_spans(status_text(v, code, canonical_reason(code))) + headers_spans(hs) + b,
            ),
        },
    }
}

/// The view of rendered output or of the error in its place.
pub open spec fn spans_result_view(r: Result<Vec<Span>, FormattingError>) -> Result<
    Seq<SpanView>,
    FormattingErrorView,
> {
    match r {
        Ok(spans) => Ok(spans.deep_view()),
        Err(e) => Err(e.deep_view()),
    }
}

/// The view of a content type or of the error in its place.
pub open spec fn content_type_result_view(
    r: Result<Option<MediaType>, FormattingError>,
) -> Result<Option<MediaTypeView>, FormattingErrorView> {
    match r {
        Ok(m) => Ok(m.deep_view()),
        Err(e) => Err(e.deep_view()),
    }
}

/// The text of all `spans` in their order, without the styles.
pub open spec fn plain_text(spans: Seq<SpanView>) -> Seq<char>
    decreases spans.len(),
{
    if spans.len() == 0 {
        Seq::empty()
    } else {
        plain_text(spans.drop_last()) + spans.last().text
    }
}

/// The name of a protocol version: see [`version_name`].
pub fn version_text(v: HttpVersion) -> (name: &'static str)
    ensures
        name@ == version_name(v),
{
    match v {
        HttpVersion::Http09 => "HTTP/0.9",
        HttpVersion::Http10 => "HTTP/1.0",
        HttpVersion::Http11 => "HTTP/1.1",
        HttpVersion::H2 => "HTTP/2.0",
        HttpVersion::H3 => "HTTP/3.0",
    }
}

/// The status line for a version, a status code and the code's reason phrase.
pub fn status_line(v: HttpVersion, code: u16, reason: Option<String>) -> (line: String)
    ensures
        line@ == status_text(v, code, reason.deep_view()),
{
    let mut line = version_text(v).to_owned();
    line.append(" ");
    let digits = decimal(code);
    line.append(digits.as_str());
    line.append(" ");
    match reason {
        Some(phrase) => {
            line.append(phrase.as_str());
        },
        None => {
            line.append("<unknown status code>");
        },
    }
    line
}

/// Renders the status part: the status line with the reason phrase that
/// belongs to `code`.
pub fn render_status(v: HttpVersion, code: u16) -> (spans: Vec<Span>)
    ensures
        spans.deep_view() == status_spans(status_text(v, code, canonical_reason(code))),
{
    let reason = reason_of(code);
    let line = status_line(v, code, reason);
    let mut spans: Vec<Span> = Vec::new();
    spans.push(Span { style: Style::Blue, text: line });
    spans.push(Span { style: Style::Plain, text: "\n\n".to_owned() });
    assert(spans.deep_view() =~= status_spans(status_text(v, code, canonical_reason(code))));
    spans
}

/// Renders the header part: see [`headers_spans`].
pub fn render_headers(headers: &Vec<Header>) -> (spans: Vec<Span>)
    ensures
        spans.deep_view() == headers_spans(headers.deep_view()),
{
    let ghost hs = headers.deep_view();
    let mut spans: Vec<Span> = Vec::new();
    let n = headers.len();
    let mut i: usize = 0;
    assert(hs.take(0) =~= Headers::empty());
    assert(spans.deep_view() =~= header_lines(hs.take(0)));
    while i < n
        invariant
            0 <= i <= n,
            n == headers.len(),
            hs == headers.deep_view(),
            spans.deep_view() == header_lines(hs.take(i as int)),
        decreases n - i,
    {
        let ghost before = spans.deep_view();
        let mut rest = ": ".to_owned();
        rest.append(headers[i].value.as_str());
        rest.append("\n");
        spans.push(Span { style: Style::Green, text: headers[i].name.clone() });
        spans.push(Span { style: Style::Plain, text: rest });
        proof {
            let now = hs.take(i + 1);
            assert(now.drop_last() =~= hs.take(i as int));
            assert(now.last() == (headers[i as int].name@, headers[i as int].value@));
            assert(spans.deep_view() =~= before + header_line(now.last()));
        }
        i = i + 1;
    }
    assert(hs.take(n as int) =~= hs);
    let ghost lines = spans.deep_view();
    spans.push(Span { style: Style::Plain, text: "\n".to_owned() });
    assert(spans.deep_view() =~= lines + seq![span(Style::Plain, "\n"@)]);
    spans
}

/// A list of headers has at most one first `Content-Type` header.
pub proof fn lemma_first_content_type_unique(hs: Headers, i: int, j: int)
    requires
        is_first_content_type(hs, i),
        is_first_content_type(hs, j),
    ensures
        i == j,
{
    if i < j {
        assert(!is_content_type(hs[i].0));
    } else if j < i {
        assert(!is_content_type(hs[j].0));
    }
}

/// The place of the first `Content-Type` header.
pub fn find_content_type(headers: &Vec<Header>) -> (r: Option<usize>)
    ensures
        match r {
            Some(i) => is_first_content_type(headers.deep_view(), i as int),
            None => forall|j: int|
                0 <= j < headers.len() ==> !is_content_type(#[trigger] headers.deep_view()[j].0),
        },
{
    let n = headers.len();
    let mut i: usize = 0;
    while i < n
        invariant
            0 <= i <= n,
            n == headers.len(),
            forall|j: int| 0 <= j < i ==> !is_content_type(#[trigger] headers.deep_view()[j].0),
        decreases n - i,
    {
        if eq_ignore_ascii_case(headers[i].name.as_str(), "content-type") {
            assert(headers.deep_view()[i as int].0 == headers[i as int].name@);
            return Some(i);
        }
        assert(headers.deep_view()[i as int].0 == headers[i as int].name@);
        i = i + 1;
    }
    None
}

/// The content type, given the value of the `Content-Type` header and what it
/// parsed into.
pub fn content_type_from(value: &str, parsed: Option<MediaType>) -> (r: Result<
    Option<MediaType>,
    FormattingError,
>)
    ensures
        content_type_result_view(r) == content_type_outcome(Some(value@), parsed.deep_view()),
{
    match parsed {
        Some(m) => Ok(Some(m)),
        None => Err(FormattingError::ContentType { value: value.to_owned() }),
    }
}

/// The content type that the headers declare: the value of the first
/// `Content-Type` header, parsed into a media type. None without such a
/// header; an error where the value is no media type.
pub fn get_content_type(headers: &Vec<Header>) -> (r: Result<Option<MediaType>, FormattingError>)
    ensures
        content_type_result_view(r) == declared_content_type(headers.deep_view()),
{
    let ghost hs = headers.deep_view();
    match find_content_type(headers) {
        Some(i) => {
            proof {
                let c = choose|c: int| is_first_content_type(hs, c);
                lemma_first_content_type_unique(hs, i as int, c);
                assert(hs[i as int].1 == headers[i as int].value@);
            }
            let value = headers[i].value.as_str();
            let parsed = parse_media_type(value);
            content_type_from(value, parsed)
        },
        None => {
            proof {
                if exists|c: int| is_first_content_type(hs, c) {
                    let c = choose|c: int| is_first_content_type(hs, c);
                    assert(!is_content_type(hs[c].0));
                }
            }
            Ok(None)
        },
    }
}

/// Whether a media type is `application/json`: see [`is_json`].
pub fn media_type_is_json(m: &MediaType) -> (json: bool)
    ensures
        json == is_json(m.deep_view()),
{
    str_eq(m.type_.as_str(), "application") && str_eq(m.subtype.as_str(), "json")
        && m.suffix.is_none()
}

/// The body part for a body that was declared as JSON, given what the
/// formatter made of it.
pub fn render_json_body(pretty: Result<String, String>) -> (r: Result<Vec<Span>, FormattingError>)
    ensures
        spans_result_view(r) == json_body_spans(text_result_view(pretty)),
{
    match pretty {
        Ok(text) => {
            let ghost shown = text@;
            let mut spans: Vec<Span> = Vec::new();
            spans.push(Span { style: Style::Cyan, text });
            spans.push(Span { style: Style::Plain, text: "\n".to_owned() });
            assert(spans.deep_view() =~= seq![
                span(Style::Cyan, shown),
                span(Style::Plain, "\n"@),
            ]);
            Ok(spans)
        },
        Err(reason) => Err(FormattingError::Json { reason }),
    }
}

/// The body part for a body that is shown as it is.
pub fn render_raw_body(body: &str) -> (spans: Vec<Span>)
    ensures
        spans.deep_view() == raw_body_spans(body@),
{
    let mut spans: Vec<Span> = Vec::new();
    spans.push(Span { style: Style::Plain, text: body.to_owned() });
    spans.push(Span { style: Style::Plain, text: "\n".to_owned() });
    assert(spans.deep_view() =~= raw_body_spans(body@));
    spans
}

/// Renders the body part. A body declared as `application/json` is
/// reformatted with indentation and shown in cyan, and it is an error if that
/// cannot be done; any other body is shown as it is.
pub fn render_body(m: &Option<MediaType>, body: &str) -> (r: Result<Vec<Span>, FormattingError>)
    ensures
        spans_result_view(r) == body_spans(m.deep_view(), body@),
{
    let json = match m {
        Some(t) => media_type_is_json(t),
        None => false,
    };
    if json {
        render_json_body(pretty_print(body))
    } else {
        Ok(render_raw_body(body))
    }
}

/// Renders a whole response: the status part, the header part and the body
/// part, in this order. An error of the content type or of the body's
/// formatting takes the place of the whole output.
pub fn render_resp(resp: &ResponseView) -> (r: Result<Vec<Span>, FormattingError>)
    ensures
        spans_result_view(r) == response_spans(
            resp.version,
            resp.status,
            resp.headers.deep_view(),
            resp.body@,
        ),
{
    let mut spans = render_status(resp.version, resp.status);
    let mut head = render_headers(&resp.headers);
    let content_type = match get_content_type(&resp.headers) {
        Ok(m) => m,
        Err(e) => {
            return Err(e);
        },
    };
    let mut tail = match render_body(&content_type, resp.body.as_str()) {
        Ok(b) => b,
        Err(e) => {
            return Err(e);
        },
    };
    let ghost a = spans.deep_view();
    let ghost b = head.deep_view();
    let ghost c = tail.deep_view();
    spans.append(&mut head);
    assert(spans.deep_view() =~= a + b);
    spans.append(&mut tail);
    assert(spans.deep_view() =~= a + b + c);
    Ok(spans)
}

/// The text of all `spans` in their order, without the styles: what is seen
/// where styles are not shown.
pub fn text_of(spans: &Vec<Span>) -> (text: String)
    ensures
        text@ == plain_text(spans.deep_view()),
{
    let ghost all = spans.deep_view();
    let mut text = String::new();
    let n = spans.len();
    let mut i: usize = 0;
    assert(all.take(0) =~= Seq::<SpanView>::empty());
    while i < n
        invariant
            0 <= i <= n,
            n == spans.len(),
            all == spans.deep_view(),
            text@ == plain_text(all.take(i as int)),
        decreases n - i,
    {
        text.append(spans[i].text.as_str());
        proof {
            let now = all.take(i + 1);
            assert(now.drop_last() =~= all.take(i as int));
            assert(now.last().text == spans[i as int].text@);
        }
        i = i + 1;
    }
    assert(all.take(n as int) =~= all);
    text
}

/// The text of the headers `hs` as it is shown: for each header its name, a
/// colon, a space, its value and a line break.
pub open spec fn headers_text(hs: Headers) -> Seq<char>
    decreases hs.len(),
{
    if hs.len() == 0 {
        Seq::empty()
    } else {
        headers_text(hs.drop_last()) + hs.last().0 + ": "@ + hs.last().1 + "\n"@
    }
}

/// The body as it is shown under the content type `m`: reformatted where it
/// was declared as JSON, as it is otherwise.
pub open spec fn shown_body(m: Option<MediaTypeView>, body: Seq<char>) -> Seq<char> {
    if wants_json(m) {
        match pretty_json(body) {
            Ok(text) => text,
            Err(_) => body,
        }
    } else {
        body
    }
}

/// The text of two runs of spans is the text of the first, then that of the second.
pub proof fn lemma_plain_text_concat(a: Seq<SpanView>, b: Seq<SpanView>)
    ensures
        plain_text(a + b) == plain_text(a) + plain_text(b),
    decreases b.len(),
{
    if b.len() == 0 {
        assert(a + b =~= a);
        assert(plain_text(a) + plain_text(b) =~= plain_text(a));
    } else {
        lemma_plain_text_concat(a, b.drop_last());
        assert((a + b).drop_last() =~= a + b.drop_last());
        assert((a + b).last() == b.last());
        assert(plain_text(a + b) =~= plain_text(a) + plain_text(b));
    }
}

/// The text of the lines of the headers is the headers' text.
pub proof fn lemma_header_lines_text(hs: Headers)
    ensures
        plain_text(header_lines(hs)) == headers_text(hs),
    decreases hs.len(),
{
    if hs.len() > 0 {
        lemma_header_lines_text(hs.drop_last());
        lemma_plain_text_concat(header_lines(hs.drop_last()), header_line(hs.last()));
        lemma_plain_text_pair(
            span(Style::Green, hs.last().0),
            span(Style::Plain, ": "@ + hs.last().1 + "\n"@),
        );
        assert(plain_text(header_lines(hs)) =~= headers_text(hs));
    }
}

/// The text of two spans is the text of the first, then that of the second.
pub proof fn lemma_plain_text_pair(a: SpanView, b: SpanView)
    ensures
        plain_text(seq![a, b]) == a.text + b.text,
{
    let s = seq![a, b];
    reveal_with_fuel(plain_text, 3);
    assert(s.drop_last() =~= seq![a]);
    assert(s.drop_last().drop_last() =~= Seq::<SpanView>::empty());
    assert(plain_text(s) =~= a.text + b.text);
}

/// The order of the output: where a response is rendered, its text is the
/// status line and an empty line, then one line for each header in receipt
/// order and an empty line, then the body as it is shown and a line break.
pub proof fn law_output_order(v: HttpVersion, code: u16, hs: Headers, body: Seq<char>)
    requires
        response_spans(v, code, hs, body) is Ok,
    ensures
        declared_content_type(hs) is Ok,
        plain_text(response_spans(v, code, hs, body)->Ok_0) == status_text(
            v,
            code,
            canonical_reason(code),
        ) + "\n\n"@ + headers_text(hs) + "\n"@ + shown_body(
            declared_content_type(hs)->Ok_0,
            body,
        ) + "\n"@,
{
    let m = declared_content_type(hs)->Ok_0;
    let line = status_text(v, code, canonical_reason(code));
    let a = status_spans(line);
    let b = headers_spans(hs);
    let c = body_spans(m, body)->Ok_0;
    lemma_plain_text_concat(a + b, c);
    lemma_plain_text_concat(a, b);
    lemma_plain_text_pair(span(Style::Blue, line), span(Style::Plain, "\n\n"@));
    lemma_header_lines_text(hs);
    let last = seq![span(Style::Plain, "\n"@)];
    lemma_plain_text_concat(header_lines(hs), last);
    assert(plain_text(last) =~= "\n"@) by {
        reveal_with_fuel(plain_text, 2);
        assert(last.drop_last() =~= Seq::<SpanView>::empty());
    }
    lemma_plain_text_pair(span(Style::Cyan, shown_body(m, body)), span(Style::Plain, "\n"@));
    lemma_plain_text_pair(span(Style::Plain, body), span(Style::Plain, "\n"@));
    assert(plain_text(c) == shown_body(m, body) + "\n"@);
    assert(plain_text(a + b + c) =~= line + "\n\n"@ + headers_text(hs) + "\n"@ + shown_body(
        m,
        body,
    ) + "\n"@);
}

/// A body that was not declared as `application/json` is shown as it is,
/// and rendering it cannot fail.
pub proof fn law_other_body_is_verbatim(m: Option<MediaTypeView>, body: Seq<char>)
    requires
        !wants_json(m),
    ensures
        body_spans(m, body) == Ok::<Seq<SpanView>, FormattingErrorView>(raw_body_spans(body)),
        raw_body_spans(body)[0] == span(Style::Plain, body),
{
}

} // verus!
