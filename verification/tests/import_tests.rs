use rivet::config::StatusExpectation;
use rivet::import::{
    convert_postman_request_to_rivet, create_expectation_from_responses, sanitize_filename,
    sanitize_path, PostmanBody, PostmanFormData, PostmanHeader, PostmanQuery, PostmanRequest,
    PostmanUrl, PostmanUrlObject,
};
use rivet::json::Json;
use rivet::performance::patterns::LoadPattern;

fn request(method: &str, url: PostmanUrl) -> PostmanRequest {
    PostmanRequest {
        method: method.to_string(),
        header: None,
        url,
        body: None,
    }
}

fn parts() -> PostmanUrlObject {
    PostmanUrlObject {
        raw: None,
        protocol: None,
        host: None,
        path: None,
        query: None,
    }
}

fn strings(items: &[&str]) -> Vec<String> {
    items.iter().map(|s| s.to_string()).collect()
}

fn field(key: &str, value: Option<&str>, disabled: Option<bool>) -> PostmanFormData {
    PostmanFormData {
        key: key.to_string(),
        value: value.map(|v| v.to_string()),
        disabled,
    }
}

#[test]
fn a_url_given_as_text_is_taken_as_it_is() {
    let converted = convert_postman_request_to_rivet(&request(
        "get",
        PostmanUrl::String("{{baseUrl}}/users?x=1".to_string()),
    ));
    assert_eq!(converted.method, "GET");
    assert_eq!(converted.url, "{{baseUrl}}/users?x=1");
    assert!(converted.headers.is_none());
    assert!(converted.params.is_none());
    assert_eq!(converted.body, None);
    let raw = PostmanUrlObject {
        raw: Some("https://raw.example/x".to_string()),
        protocol: Some("http".to_string()),
        host: Some(strings(&["ignored"])),
        ..parts()
    };
    let converted = convert_postman_request_to_rivet(&request("Post", PostmanUrl::Object(raw)));
    assert_eq!(converted.url, "https://raw.example/x");
    assert_eq!(converted.method, "POST");
    let odd = convert_postman_request_to_rivet(&request(
        "stra\u{df}e",
        PostmanUrl::String(String::new()),
    ));
    assert_eq!(odd.method, "STRASSE");
}

#[test]
fn a_url_in_parts_is_put_together() {
    let url = |object: PostmanUrlObject| {
        convert_postman_request_to_rivet(&request("GET", PostmanUrl::Object(object))).url
    };
    assert_eq!(url(parts()), "https://localhost/");
    assert_eq!(
        url(PostmanUrlObject {
            protocol: Some("http".to_string()),
            host: Some(strings(&["api", "example", "com"])),
            path: Some(strings(&["v1", "users", ":id"])),
            query: Some(vec![
                PostmanQuery {
                    key: "a".to_string(),
                    value: "1".to_string(),
                    disabled: None,
                },
                PostmanQuery {
                    key: "b".to_string(),
                    value: "2".to_string(),
                    disabled: Some(true),
                },
                PostmanQuery {
                    key: "c".to_string(),
                    value: "".to_string(),
                    disabled: Some(false),
                },
            ]),
            ..parts()
        }),
        "http://api.example.com/v1/users/:id?a=1&c="
    );
    assert_eq!(
        url(PostmanUrlObject {
            host: Some(Vec::new()),
            path: Some(Vec::new()),
            query: Some(Vec::new()),
            ..parts()
        }),
        "https:///"
    );
    assert_eq!(
        url(PostmanUrlObject {
            host: Some(strings(&["h"])),
            path: Some(strings(&["", "x", ""])),
            query: Some(vec![PostmanQuery {
                key: "off".to_string(),
                value: "1".to_string(),
                disabled: Some(true),
            }]),
            ..parts()
        }),
        "https://h//x/"
    );
}

#[test]
fn enabled_headers_make_the_table() {
    let header = |key: &str, value: &str, disabled: Option<bool>| PostmanHeader {
        key: key.to_string(),
        value: value.to_string(),
        disabled,
    };
    let mut source = request("GET", PostmanUrl::String("u".to_string()));
    source.header = Some(vec![
        header("Accept", "text/plain", None),
        header("X-Off", "1", Some(true)),
        header("Accept", "application/json", Some(false)),
        header("X-On", "2", None),
    ]);
    let table = convert_postman_request_to_rivet(&source).headers.unwrap();
    assert_eq!(table.len(), 2);
    assert_eq!(table.get("Accept"), Some(&"application/json".to_string()));
    assert_eq!(table.get("X-On"), Some(&"2".to_string()));
    assert_eq!(table.get("X-Off"), None);
    source.header = Some(vec![header("X-Off", "1", Some(true))]);
    assert!(convert_postman_request_to_rivet(&source).headers.is_none());
    source.header = Some(Vec::new());
    assert!(convert_postman_request_to_rivet(&source).headers.is_none());
}

#[test]
fn the_mode_decides_the_body() {
    let body = |mode: Option<&str>, fields: PostmanBody| {
        let mut source = request("POST", PostmanUrl::String("u".to_string()));
        source.body = Some(PostmanBody {
            mode: mode.map(|m| m.to_string()),
            ..fields
        });
        convert_postman_request_to_rivet(&source).body
    };
    let all = || PostmanBody {
        mode: None,
        raw: Some("{\"raw\":true}".to_string()),
        formdata: Some(vec![
            field("name", Some("ann"), None),
            field("skip", Some("x"), Some(true)),
            field("empty", None, Some(false)),
        ]),
        urlencoded: Some(vec![field("q", Some("a b"), None)]),
    };
    assert_eq!(body(Some("raw"), all()), Some("{\"raw\":true}".to_string()));
    assert_eq!(body(Some("formdata"), all()), Some("name=ann&empty=".to_string()));
    assert_eq!(body(Some("urlencoded"), all()), Some("q=a b".to_string()));
    assert_eq!(body(Some("graphql"), all()), Some("{\"raw\":true}".to_string()));
    assert_eq!(body(Some("FormData"), all()), Some("{\"raw\":true}".to_string()));
    assert_eq!(body(None, all()), Some("{\"raw\":true}".to_string()));
    let none = || PostmanBody {
        mode: None,
        raw: None,
        formdata: None,
        urlencoded: Some(vec![field("off", Some("1"), Some(true))]),
    };
    assert_eq!(body(Some("raw"), none()), None);
    assert_eq!(body(Some("formdata"), none()), None);
    assert_eq!(body(Some("urlencoded"), none()), None);
    assert_eq!(body(None, none()), None);
}

#[test]
fn example_responses_give_the_expected_status() {
    let status = |responses: Option<Vec<Json>>| {
        let expectation = create_expectation_from_responses(&responses).unwrap();
        assert!(expectation.jsonpath.is_none());
        assert!(expectation.schema.is_none());
        assert!(expectation.headers.is_none());
        match expectation.status {
            Some(StatusExpectation::Number(code)) => code,
            _ => panic!("a status is expected"),
        }
    };
    let parse = |text: &str| Json::parse(text).unwrap();
    assert_eq!(status(None), 200);
    assert_eq!(status(Some(Vec::new())), 200);
    assert_eq!(status(Some(vec![parse(r#"{"code":201}"#), parse(r#"{"code":404}"#)])), 201);
    assert_eq!(status(Some(vec![parse(r#"{"name":"x"}"#)])), 200);
    assert_eq!(status(Some(vec![parse(r#"{"code":"201"}"#)])), 200);
    assert_eq!(status(Some(vec![parse(r#"{"code":-1}"#)])), 200);
    assert_eq!(status(Some(vec![parse(r#"{"code":404.0}"#)])), 200);
    assert_eq!(status(Some(vec![parse(r#"[201]"#)])), 200);
    assert_eq!(status(Some(vec![parse(r#"{"code":65736}"#)])), 200);
    assert_eq!(status(Some(vec![parse(r#"{"code":65537}"#)])), 1);
}

#[test]
fn file_names_keep_letters_digits_dash_and_underscore() {
    assert_eq!(sanitize_filename("Get User"), "get_user");
    assert_eq!(sanitize_filename("  Create / Update (v2)! "), "create___update__v2");
    assert_eq!(sanitize_filename("already-ok_1"), "already-ok_1");
    assert_eq!(sanitize_filename("___"), "");
    assert_eq!(sanitize_filename(""), "");
    assert_eq!(sanitize_filename("!!!"), "");
    assert_eq!(sanitize_filename("_a_"), "a");
    assert_eq!(sanitize_filename("Caf\u{e9} \u{c9}t\u{e9}"), "caf___t");
    assert_eq!(sanitize_filename("ABCxyzXYZ019"), "abcxyzxyz019");
    for name in ["Get User", "  x  ", "A/B", "\u{130}stanbul", "a__b", "-x-"] {
        let theirs: String = name
            .chars()
            .map(|c| match c {
                'a'..='z' | 'A'..='Z' | '0'..='9' | '-' | '_' => c,
                _ => '_',
            })
            .collect::<String>()
            .trim_matches('_')
            .to_lowercase();
        assert_eq!(sanitize_filename(name), theirs);
    }
}

#[test]
fn paths_name_operations() {
    assert_eq!(sanitize_path("/users/{id}"), "users_id");
    assert_eq!(sanitize_path("/Users/{userId}/Posts/"), "users_userid_posts");
    assert_eq!(sanitize_path("/"), "");
    assert_eq!(sanitize_path(""), "");
    assert_eq!(sanitize_path("{}"), "");
    assert_eq!(sanitize_path("_/x/_"), "x");
    assert_eq!(sanitize_path("/a b/\u{c9}t\u{e9}"), "a b_\u{e9}t\u{e9}");
    for path in ["/pets/{petId}/toys", "//x//", "/{a}/{b}", "/\u{130}/K"] {
        let theirs = path
            .replace('/', "_")
            .replace(['{', '}'], "")
            .trim_matches('_')
            .to_lowercase();
        assert_eq!(sanitize_path(path), theirs);
    }
}

#[test]
fn patterns_have_names() {
    assert_eq!(LoadPattern::from_name("constant"), Some(LoadPattern::Constant));
    assert_eq!(LoadPattern::from_name("ramp-up"), Some(LoadPattern::RampUp));
    assert_eq!(LoadPattern::from_name("spike"), Some(LoadPattern::Spike));
    assert_eq!(LoadPattern::from_name("Constant"), None);
    assert_eq!(LoadPattern::from_name("rampup"), None);
    assert_eq!(LoadPattern::from_name(""), None);
    assert_eq!(
        LoadPattern::invalid_name_message("burst"),
        "Invalid load pattern 'burst'. Use: constant, ramp-up, spike"
    );
}
