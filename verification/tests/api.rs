use clash_tray::api::{Api, Outcome, TIMEOUT};
use clash_tray::command::{Call, Command, Method};
use clash_tray::error::{Error, HttpFailure, Status};
use clash_tray::kernel::Mode;
use clash_tray::snapshot::Progress;

fn refused(result: Result<http::Request<Vec<u8>>, Error>) -> String {
    match result {
        Err(Error::Transport(message)) => message,
        Err(error) => panic!("{}", error.message()),
        Ok(_) => panic!("the request was built"),
    }
}

fn uri(address: &str) -> String {
    let call = Call {
        method: Method::Get,
        path: "/version".to_owned(),
        body: None,
    };
    Api::new(address, None).request(call).uri
}

#[test]
fn host_and_port_become_a_url() {
    assert_eq!(uri("127.0.0.1:9090"), "http://127.0.0.1:9090/version");
    assert_eq!(uri("kernel.local:80"), "http://kernel.local:80/version");
    assert_eq!(uri("localhost"), "http://localhost/version");
    assert_eq!(uri("[::1]:9090"), "http://[::1]:9090/version");
}

#[test]
fn a_full_url_loses_its_trailing_slashes() {
    assert_eq!(uri("http://127.0.0.1:9090"), "http://127.0.0.1:9090/version");
    assert_eq!(uri("http://127.0.0.1:9090/"), "http://127.0.0.1:9090/version");
    assert_eq!(uri("http://host/below///"), "http://host/below/version");
    assert_eq!(uri("https://host:443/"), "https://host:443/version");
}

#[test]
fn a_host_may_be_named_like_the_scheme() {
    assert_eq!(uri("httpd:9090"), "http://httpd:9090/version");
    assert_eq!(uri("http:9090"), "http://http:9090/version");
    assert_eq!(uri("http://httpd:9090"), "http://httpd:9090/version");
}

#[test]
fn what_begins_with_http_is_a_url_otherwise() {
    assert_eq!(uri("http"), "http/version");
    assert_eq!(uri("httpd/"), "httpd/version");
    assert_eq!(uri("httpd:"), "httpd:/version");
    assert_eq!(uri("httpd:9x"), "httpd:9x/version");
}

#[test]
fn both_forms_of_an_address_agree() {
    for address in ["127.0.0.1:9090", "httpd:1", "a:65535"] {
        assert_eq!(uri(address), uri(&format!("http://{address}")));
    }
}

#[test]
fn a_read_is_a_get_without_body() {
    let api = Api::new("127.0.0.1:9090", None);
    let request = api.get("/proxies").ok().unwrap();
    assert_eq!(request.method(), http::Method::GET);
    assert_eq!(request.uri(), "http://127.0.0.1:9090/proxies");
    assert!(request.headers().is_empty());
    assert!(request.body().is_empty());
}

#[test]
fn the_secret_is_sent_as_a_bearer_token() {
    let api = Api::new("127.0.0.1:9090", Some("s3cret".to_owned()));
    let request = api.get("/version").ok().unwrap();
    assert_eq!(request.headers().len(), 1);
    assert_eq!(request.headers()["authorization"], "Bearer s3cret");
}

#[test]
fn a_body_is_sent_as_json() {
    let api = Api::new("127.0.0.1:9090", Some("s".to_owned()));
    let request = api
        .send(Method::Patch, "/configs", Some("{\"mode\":\"é\"}".to_owned()))
        .ok()
        .unwrap();
    assert_eq!(request.method(), http::Method::PATCH);
    assert_eq!(request.headers().len(), 2);
    assert_eq!(request.headers()["authorization"], "Bearer s");
    assert_eq!(request.headers()["content-type"], "application/json");
    assert_eq!(request.body(), "{\"mode\":\"é\"}".as_bytes());
}

#[test]
fn the_header_lines_of_a_call_keep_their_order() {
    let api = Api::new("h:1", Some("x".to_owned()));
    let request = api.request(Call {
        method: Method::Put,
        path: "/p".to_owned(),
        body: Some(String::new()),
    });
    assert_eq!(
        request.headers,
        vec![
            ("authorization".to_owned(), "Bearer x".to_owned()),
            ("content-type".to_owned(), "application/json".to_owned()),
        ]
    );
    assert!(request.body.is_empty());
}

#[test]
fn a_command_becomes_a_request() {
    let api = Api::new("http://127.0.0.1:9090/", None);
    let request = api
        .run(Command::Select {
            group: "Auto Select".to_owned(),
            node: "tokyo".to_owned(),
        })
        .ok()
        .unwrap()
        .unwrap();
    assert_eq!(request.method(), http::Method::PUT);
    assert_eq!(request.uri(), "http://127.0.0.1:9090/proxies/Auto%20Select");
    assert_eq!(request.body(), b"{\"name\":\"tokyo\"}");
    let request = api.run(Command::SetMode(Mode::Direct)).ok().unwrap().unwrap();
    assert_eq!(request.method(), http::Method::PATCH);
    assert_eq!(request.body(), b"{\"mode\":\"direct\"}");
    let request = api.run(Command::FlushDns).ok().unwrap().unwrap();
    assert_eq!(request.method(), http::Method::POST);
    assert!(request.headers().is_empty());
}

#[test]
fn refreshing_needs_no_request() {
    let api = Api::new("not a host", None);
    assert!(matches!(api.run(Command::Refresh), Ok(None)));
}

#[test]
fn a_request_that_cannot_be_built_says_why() {
    let expected = http::Request::builder()
        .uri("http://not a host/version")
        .body(())
        .unwrap_err()
        .to_string();
    assert_eq!(refused(Api::new("not a host", None).get("/version")), expected);
    let expected = http::Request::builder()
        .header("authorization", "Bearer a\nb")
        .body(())
        .unwrap_err()
        .to_string();
    let api = Api::new("h:1", Some("a\nb".to_owned()));
    assert_eq!(refused(api.get("/version")), expected);
    let result = api.run(Command::FlushDns);
    assert!(matches!(result, Err(Error::Transport(message)) if message == expected));
}

#[test]
fn an_address_that_is_refused_is_reported_before_the_secret() {
    let expected = refused(Api::new("not a host", None).get("/"));
    let api = Api::new("not a host", Some("a\nb".to_owned()));
    assert_eq!(refused(api.get("/")), expected);
}

#[test]
fn a_snapshot_asks_for_its_documents() {
    let api = Api::new("h:1", None);
    let request = api.snapshot(&Progress::Configs).ok().unwrap();
    assert_eq!(request.method(), http::Method::GET);
    assert_eq!(request.uri(), "http://h:1/configs");
}

fn answer(code: u16) -> Result<(), Error> {
    Api::judge(Outcome::Answered(Status::new(code).unwrap()))
}

#[test]
fn only_a_success_status_is_one() {
    for code in [200, 204, 299] {
        assert!(answer(code).is_ok());
    }
    for code in [100, 199, 300, 404, 500, 999] {
        let Err(Error::Status(status)) = answer(code) else {
            panic!("{code} is no success");
        };
        assert_eq!(Some(status), Status::new(code));
    }
}

#[test]
fn a_status_has_three_digits() {
    assert!(Status::new(99).is_none());
    assert!(Status::new(1000).is_none());
    assert!(Status::new(100).is_some());
    assert!(Status::new(999).is_some());
}

#[test]
fn errors_have_messages() {
    assert_eq!(
        answer(404).unwrap_err().message(),
        "controller answered HTTP 404 Not Found"
    );
    assert_eq!(
        answer(599).unwrap_err().message(),
        "controller answered HTTP 599 <unknown status code>"
    );
    assert_eq!(
        Api::judge(Outcome::TimedOut).unwrap_err().message(),
        "controller did not answer within 3s"
    );
    assert_eq!(TIMEOUT, 3);
    assert_eq!(Error::Transport("gone".to_owned()).message(), "gone");
}

#[test]
fn a_failed_connection_is_told_plainly() {
    let cause = "Connection refused (os error 111)";
    let report = "connect error: TcpConnect(Os { code: 111 })";
    for failure in [
        HttpFailure::TcpConnect {
            cause: cause.to_owned(),
            report: report.to_owned(),
        },
        HttpFailure::TlsConnect {
            cause: cause.to_owned(),
            report: report.to_owned(),
        },
    ] {
        let result = Api::judge(Outcome::Failed(failure));
        assert!(matches!(result, Err(Error::Transport(message)) if message == cause));
    }
    let other = HttpFailure::Other {
        report: "redirect".to_owned(),
    };
    assert_eq!(Error::from(other).message(), "redirect");
}
