use httpie::request::frame_object;
use httpie::{
    get_request, parse_kv_pair, plan, post_request, Get, KvPair, Method, Post, RequestBody,
    SubCommand,
};

fn pair(k: &str, v: &str) -> KvPair {
    KvPair {
        k: k.to_string(),
        v: v.to_string(),
    }
}

fn members(body: &RequestBody) -> Vec<(String, String)> {
    let mut out = Vec::new();
    let mut i = 0;
    while let Some(p) = body.get(i) {
        out.push((p.k.clone(), p.v.clone()));
        i += 1;
    }
    assert_eq!(out.len(), body.len());
    out
}

fn owned(items: &[(&str, &str)]) -> Vec<(String, String)> {
    items
        .iter()
        .map(|(k, v)| (k.to_string(), v.to_string()))
        .collect()
}

#[test]
fn post_sends_pairs_as_json_object() {
    let args = Post {
        url: "https://httpbin.org/post".to_string(),
        body: vec![parse_kv_pair("a=1").unwrap(), parse_kv_pair("b=2").unwrap()],
    };
    let request = post_request(&args);
    assert_eq!(request.method, Method::Post);
    assert_eq!(request.url, "https://httpbin.org/post");
    assert_eq!(request.body, Some("{\"a\":\"1\",\"b\":\"2\"}".to_string()));
    let sent: serde_json::Value = serde_json::from_str(request.body.as_ref().unwrap()).unwrap();
    let mut expected = serde_json::Map::new();
    expected.insert("a".to_string(), serde_json::Value::String("1".to_string()));
    expected.insert("b".to_string(), serde_json::Value::String("2".to_string()));
    assert_eq!(sent, serde_json::Value::Object(expected));
}

#[test]
fn post_without_pairs_sends_empty_object() {
    let args = Post {
        url: "http://abc.xyz".to_string(),
        body: vec![],
    };
    assert_eq!(post_request(&args).body, Some("{}".to_string()));
}

#[test]
fn get_has_no_body() {
    let args = Get {
        url: "http://abc.xyz".to_string(),
    };
    let request = get_request(&args);
    assert_eq!(request.method, Method::Get);
    assert_eq!(request.url, "http://abc.xyz");
    assert_eq!(request.body, None);
}

#[test]
fn plan_follows_the_subcommand() {
    let get = Get {
        url: "http://abc.xyz".to_string(),
    };
    let post = Post {
        url: "http://abc.xyz/p".to_string(),
        body: vec![pair("k", "v")],
    };
    assert_eq!(plan(&SubCommand::Get(get.clone())), get_request(&get));
    assert_eq!(plan(&SubCommand::Post(post.clone())), post_request(&post));
    assert_eq!(
        plan(&SubCommand::Post(post)).body,
        Some("{\"k\":\"v\"}".to_string())
    );
}

#[test]
fn last_write_wins_and_keeps_the_first_place() {
    let body = RequestBody::from_pairs(&vec![
        pair("a", "1"),
        pair("b", "2"),
        pair("a", "3"),
        pair("c", "4"),
        pair("b", "5"),
    ]);
    assert_eq!(
        members(&body),
        owned(&[("a", "3"), ("b", "5"), ("c", "4")])
    );
    assert_eq!(body.to_json(), "{\"a\":\"3\",\"b\":\"5\",\"c\":\"4\"}");
}

#[test]
fn body_keys_are_unique() {
    let body = RequestBody::from_pairs(&vec![
        pair("x", "1"),
        pair("x", "2"),
        pair("", "3"),
        pair("x", "4"),
        pair("", "5"),
    ]);
    let got = members(&body);
    for i in 0..got.len() {
        for j in (i + 1)..got.len() {
            assert_ne!(got[i].0, got[j].0);
        }
    }
    assert_eq!(got, owned(&[("x", "4"), ("", "5")]));
}

#[test]
fn insert_updates_or_appends() {
    let mut body = RequestBody::new();
    assert_eq!(body.len(), 0);
    assert!(body.get(0).is_none());
    assert_eq!(body.position("a"), None);
    body.insert("a".to_string(), "1".to_string());
    body.insert("b".to_string(), "2".to_string());
    assert_eq!(body.position("a"), Some(0));
    assert_eq!(body.position("b"), Some(1));
    assert_eq!(body.position("c"), None);
    body.insert("a".to_string(), "9".to_string());
    assert_eq!(body.len(), 2);
    assert_eq!(members(&body), owned(&[("a", "9"), ("b", "2")]));
    assert_eq!(body.get(1), Some(&pair("b", "2")));
    assert_eq!(body.get(2), None);
}

#[test]
fn json_strings_are_escaped() {
    let body = RequestBody::from_pairs(&vec![pair("q\"k", "line\nbreak\\ tab\t"), pair("é", "")]);
    let text = body.to_json();
    assert_eq!(
        text,
        "{\"q\\\"k\":\"line\\nbreak\\\\ tab\\t\",\"é\":\"\"}"
    );
    let parsed: serde_json::Value = serde_json::from_str(&text).unwrap();
    let object = parsed.as_object().unwrap();
    assert_eq!(object.len(), 2);
    assert_eq!(
        object.get("q\"k").unwrap().as_str(),
        Some("line\nbreak\\ tab\t")
    );
    assert_eq!(object.get("é").unwrap().as_str(), Some(""));
}

#[test]
fn frame_object_frames_given_literals() {
    assert_eq!(frame_object(&vec![]), "{}");
    assert_eq!(frame_object(&owned(&[("\"a\"", "\"1\"")])), "{\"a\":\"1\"}");
    assert_eq!(
        frame_object(&owned(&[("K", "V"), ("", ""), ("x", "y")])),
        "{K:V,:,x:y}"
    );
}
