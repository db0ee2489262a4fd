use httpie::render::{
    content_type_from, find_content_type, media_type_is_json, render_json_body, render_raw_body,
    status_line, version_text,
};
use httpie::text::{decimal, digit_str, eq_ignore_ascii_case, str_eq, to_ascii_lower};
use httpie::{
    get_content_type, render_body, render_headers, render_resp, render_status, text_of,
    FormattingError, Header, HttpVersion, MediaType, ResponseView, Span, Style,
};

fn header(name: &str, value: &str) -> Header {
    Header {
        name: name.to_string(),
        value: value.to_string(),
    }
}

fn span(style: Style, text: &str) -> Span {
    Span {
        style,
        text: text.to_string(),
    }
}

fn json_type() -> MediaType {
    MediaType {
        type_: "application".to_string(),
        subtype: "json".to_string(),
        suffix: None,
        params: vec![],
    }
}

fn response(content_type: Option<&str>, body: &str) -> ResponseView {
    let mut headers = vec![header("date", "Wed, 28 Oct 2026 00:00:00 GMT")];
    if let Some(value) = content_type {
        headers.push(header("Content-Type", value));
    }
    ResponseView {
        version: HttpVersion::Http11,
        status: 200,
        headers,
        body: body.to_string(),
    }
}

#[test]
fn json_response_is_pretty_printed() {
    let spans = render_resp(&response(Some("application/json"), "{\"a\":1}")).unwrap();
    let text = text_of(&spans);
    assert!(text.contains("{\n  \"a\": 1\n}"));
    assert!(!text.contains("{\"a\":1}"));
    assert_eq!(
        &spans[spans.len() - 2..],
        &[span(Style::Cyan, "{\n  \"a\": 1\n}"), span(Style::Plain, "\n")]
    );
}

#[test]
fn plain_response_is_shown_verbatim() {
    let spans = render_resp(&response(Some("text/plain"), "hello")).unwrap();
    let text = text_of(&spans);
    assert!(text.contains("hello"));
    assert!(text.ends_with("\n\nhello\n"));
    assert_eq!(
        &spans[spans.len() - 2..],
        &[span(Style::Plain, "hello"), span(Style::Plain, "\n")]
    );
}

#[test]
fn whole_response_in_order() {
    let spans = render_resp(&response(Some("application/json"), "{\"a\":1}")).unwrap();
    assert_eq!(
        spans,
        vec![
            span(Style::Blue, "HTTP/1.1 200 OK"),
            span(Style::Plain, "\n\n"),
            span(Style::Green, "date"),
            span(Style::Plain, ": Wed, 28 Oct 2026 00:00:00 GMT\n"),
            span(Style::Green, "Content-Type"),
            span(Style::Plain, ": application/json\n"),
            span(Style::Plain, "\n"),
            span(Style::Cyan, "{\n  \"a\": 1\n}"),
            span(Style::Plain, "\n"),
        ]
    );
    assert_eq!(
        text_of(&spans),
        "HTTP/1.1 200 OK\n\ndate: Wed, 28 Oct 2026 00:00:00 GMT\nContent-Type: application/json\n\n{\n  \"a\": 1\n}\n"
    );
}

#[test]
fn whole_response_is_its_three_parts() {
    let resp = response(Some("text/plain; charset=utf-8"), "a\nb");
    let mut parts = render_status(resp.version, resp.status);
    parts.extend(render_headers(&resp.headers));
    let content_type = get_content_type(&resp.headers).unwrap();
    parts.extend(render_body(&content_type, &resp.body).unwrap());
    assert_eq!(render_resp(&resp), Ok(parts));
}

#[test]
fn response_without_content_type_is_shown_verbatim() {
    let spans = render_resp(&response(None, "{\"a\":1}")).unwrap();
    assert_eq!(
        text_of(&spans),
        "HTTP/1.1 200 OK\n\ndate: Wed, 28 Oct 2026 00:00:00 GMT\n\n{\"a\":1}\n"
    );
}

#[test]
fn status_lines() {
    assert_eq!(
        render_status(HttpVersion::Http11, 200),
        vec![span(Style::Blue, "HTTP/1.1 200 OK"), span(Style::Plain, "\n\n")]
    );
    assert_eq!(
        render_status(HttpVersion::H2, 404)[0].text,
        "HTTP/2.0 404 Not Found"
    );
    assert_eq!(
        render_status(HttpVersion::Http10, 500)[0].text,
        "HTTP/1.0 500 Internal Server Error"
    );
    assert_eq!(
        render_status(HttpVersion::H3, 299)[0].text,
        "HTTP/3.0 299 <unknown status code>"
    );
    assert_eq!(
        render_status(HttpVersion::Http09, 7)[0].text,
        "HTTP/0.9 7 <unknown status code>"
    );
}

#[test]
fn status_line_from_given_reason() {
    assert_eq!(
        status_line(HttpVersion::Http11, 418, Some("I'm a teapot".to_string())),
        "HTTP/1.1 418 I'm a teapot"
    );
    assert_eq!(
        status_line(HttpVersion::Http11, 65535, None),
        "HTTP/1.1 65535 <unknown status code>"
    );
}

#[test]
fn version_names() {
    assert_eq!(version_text(HttpVersion::Http09), "HTTP/0.9");
    assert_eq!(version_text(HttpVersion::Http10), "HTTP/1.0");
    assert_eq!(version_text(HttpVersion::Http11), "HTTP/1.1");
    assert_eq!(version_text(HttpVersion::H2), "HTTP/2.0");
    assert_eq!(version_text(HttpVersion::H3), "HTTP/3.0");
}

#[test]
fn headers_in_receipt_order_with_values_as_received() {
    let headers = vec![
        header("b", "2"),
        header("a", " \"quoted\"  and\ttabbed "),
        header("b", ""),
    ];
    assert_eq!(
        render_headers(&headers),
        vec![
            span(Style::Green, "b"),
            span(Style::Plain, ": 2\n"),
            span(Style::Green, "a"),
            span(Style::Plain, ":  \"quoted\"  and\ttabbed \n"),
            span(Style::Green, "b"),
            span(Style::Plain, ": \n"),
            span(Style::Plain, "\n"),
        ]
    );
    assert_eq!(render_headers(&vec![]), vec![span(Style::Plain, "\n")]);
}

#[test]
fn content_type_is_the_first_such_header_in_any_case() {
    let headers = vec![
        header("content-length", "5"),
        header("CONTENT-type", "Text/HTML; Charset=UTF-8"),
        header("content-type", "application/json"),
    ];
    assert_eq!(find_content_type(&headers), Some(1));
    assert_eq!(
        get_content_type(&headers),
        Ok(Some(MediaType {
            type_: "text".to_string(),
            subtype: "html".to_string(),
            suffix: None,
            params: vec![("charset".to_string(), "utf-8".to_string())],
        }))
    );
    assert_eq!(find_content_type(&headers[..1].to_vec()), None);
    assert_eq!(get_content_type(&headers[..1].to_vec()), Ok(None));
    assert_eq!(get_content_type(&vec![]), Ok(None));
}

#[test]
fn media_type_parts() {
    assert_eq!(
        get_content_type(&vec![header("content-type", "image/svg+xml")]),
        Ok(Some(MediaType {
            type_: "image".to_string(),
            subtype: "svg".to_string(),
            suffix: Some("xml".to_string()),
            params: vec![],
        }))
    );
    assert_eq!(
        get_content_type(&vec![header(
            "content-type",
            "multipart/form-data; boundary=ABCDEFG; x=\"y z\""
        )]),
        Ok(Some(MediaType {
            type_: "multipart".to_string(),
            subtype: "form-data".to_string(),
            suffix: None,
            params: vec![
                ("boundary".to_string(), "ABCDEFG".to_string()),
                ("x".to_string(), "y z".to_string()),
            ],
        }))
    );
}

#[test]
fn unparseable_content_type_is_an_error() {
    let headers = vec![header("content-type", "not a media type")];
    let expected = FormattingError::ContentType {
        value: "not a media type".to_string(),
    };
    assert_eq!(get_content_type(&headers), Err(expected.clone()));
    let resp = ResponseView {
        version: HttpVersion::Http11,
        status: 200,
        headers,
        body: "hello".to_string(),
    };
    assert_eq!(render_resp(&resp), Err(expected.clone()));
    assert_eq!(expected.message(), "invalid content type: not a media type");
    assert_eq!(
        get_content_type(&vec![header("content-type", "")]),
        Err(FormattingError::ContentType {
            value: "".to_string()
        })
    );
}

#[test]
fn content_type_from_follows_the_parse() {
    assert_eq!(
        content_type_from("x", Some(json_type())),
        Ok(Some(json_type()))
    );
    assert_eq!(
        content_type_from("x", None),
        Err(FormattingError::ContentType {
            value: "x".to_string()
        })
    );
}

#[test]
fn json_is_decided_by_type_and_subtype() {
    assert!(media_type_is_json(&json_type()));
    let mut with_params = json_type();
    with_params.params = vec![("charset".to_string(), "utf-8".to_string())];
    assert!(media_type_is_json(&with_params));
    let mut with_suffix = json_type();
    with_suffix.suffix = Some("xml".to_string());
    assert!(!media_type_is_json(&with_suffix));
    let mut text = json_type();
    text.type_ = "text".to_string();
    assert!(!media_type_is_json(&text));
    let mut ld = json_type();
    ld.subtype = "ld".to_string();
    ld.suffix = Some("json".to_string());
    assert!(!media_type_is_json(&ld));
}

#[test]
fn body_rendering() {
    assert_eq!(
        render_body(&Some(json_type()), "{\"a\":1,\"b\":[true,null]}"),
        Ok(vec![
            span(
                Style::Cyan,
                "{\n  \"a\": 1,\n  \"b\": [\n    true,\n    null\n  ]\n}"
            ),
            span(Style::Plain, "\n"),
        ])
    );
    assert_eq!(
        render_body(&None, "{\"a\":1}"),
        Ok(vec![span(Style::Plain, "{\"a\":1}"), span(Style::Plain, "\n")])
    );
    let html = get_content_type(&vec![header("content-type", "text/html")]).unwrap();
    assert_eq!(
        render_body(&html, "<p>  hi </p>"),
        Ok(vec![
            span(Style::Plain, "<p>  hi </p>"),
            span(Style::Plain, "\n")
        ])
    );
    let json = get_content_type(&vec![header("content-type", "APPLICATION/JSON; charset=utf-8")])
        .unwrap();
    assert_eq!(
        render_body(&json, "[ ]"),
        Ok(vec![span(Style::Cyan, "[]"), span(Style::Plain, "\n")])
    );
    assert_eq!(render_raw_body(""), vec![span(Style::Plain, ""), span(Style::Plain, "\n")]);
}

#[test]
fn json_body_from_given_formatter_answer() {
    assert_eq!(
        render_json_body(Ok("[\n  1\n]".to_string())),
        Ok(vec![span(Style::Cyan, "[\n  1\n]"), span(Style::Plain, "\n")])
    );
    let failed = render_json_body(Err("stream did not contain valid UTF-8".to_string()));
    assert_eq!(
        failed,
        Err(FormattingError::Json {
            reason: "stream did not contain valid UTF-8".to_string()
        })
    );
    assert_eq!(
        failed.unwrap_err().message(),
        "invalid JSON body: stream did not contain valid UTF-8"
    );
}

#[test]
fn text_of_joins_the_spans() {
    assert_eq!(text_of(&vec![]), "");
    assert_eq!(
        text_of(&vec![
            span(Style::Green, "a"),
            span(Style::Plain, ": b\n"),
            span(Style::Cyan, "ç")
        ]),
        "a: b\nç"
    );
}

#[test]
fn decimal_numbers() {
    assert_eq!(decimal(0), "0");
    assert_eq!(decimal(7), "7");
    assert_eq!(decimal(10), "10");
    assert_eq!(decimal(200), "200");
    assert_eq!(decimal(404), "404");
    assert_eq!(decimal(65535), "65535");
    for d in 0..10u16 {
        assert_eq!(digit_str(d), d.to_string());
    }
    for n in [0u16, 9, 10, 99, 100, 101, 999, 1000, 12345, 65535] {
        assert_eq!(decimal(n), n.to_string());
    }
}

#[test]
fn text_comparisons() {
    assert!(str_eq("", ""));
    assert!(str_eq("json", "json"));
    assert!(!str_eq("json", "JSON"));
    assert!(!str_eq("json", "jso"));
    assert!(!str_eq("jso", "json"));
    assert!(eq_ignore_ascii_case("Content-Type", "content-type"));
    assert!(eq_ignore_ascii_case("CONTENT-TYPE", "content-type"));
    assert!(!eq_ignore_ascii_case("content_type", "content-type"));
    assert!(!eq_ignore_ascii_case("content-type ", "content-type"));
    assert!(!eq_ignore_ascii_case("É", "é"));
    assert!(eq_ignore_ascii_case("É", "É"));
    assert_eq!(to_ascii_lower('A'), 'a');
    assert_eq!(to_ascii_lower('Z'), 'z');
    assert_eq!(to_ascii_lower('a'), 'a');
    assert_eq!(to_ascii_lower('@'), '@');
    assert_eq!(to_ascii_lower('['), '[');
    assert_eq!(to_ascii_lower('É'), 'É');
}
