use std::cell::RefCell;
use std::rc::Rc;

use dot_http::script_engine::inject;
use dot_http::script_engine::session::{Evaluation, Interpreter, Session};
use dot_http::{Response, Version};

/// An interpreter that writes down what it is handed and evaluates nothing.
struct Listening {
    heard: Rc<RefCell<Vec<String>>>,
}

impl Interpreter for Listening {
    fn fresh(&self) -> Listening {
        Listening { heard: self.heard.clone() }
    }

    fn evaluate(&mut self, src: &str) -> Evaluation {
        self.heard.borrow_mut().push(src.to_string());
        Evaluation::Value(String::new())
    }
}

/// The scripts by which a response is handed to a scope.
fn injected(headers: Vec<(String, String)>, body: Option<&str>) -> Vec<String> {
    let heard = Rc::new(RefCell::new(Vec::new()));
    let mut session = Session::open(&Listening { heard: heard.clone() });
    let response = Response {
        version: Version::Http11,
        status_code: 200,
        status: "200 OK".to_string(),
        headers,
        body: body.map(|body| body.to_string()),
    };
    inject(&mut session, &response).unwrap();
    let scripts = heard.borrow().clone();
    scripts
}

#[test]
fn a_body_is_bound_as_a_string_literal() {
    assert_eq!(
        injected(Vec::new(), Some("plain")),
        vec!["var response = {\"body\":\"plain\",\"headers\":{},\"status\":200};".to_string()]
    );
}

#[test]
fn a_body_is_escaped_inside_its_literal() {
    let scripts = injected(Vec::new(), Some("a\"b\\c\u{8}\t\n\u{c}\r\u{1}\u{1f}\u{7f} /é😀"));
    assert_eq!(
        scripts,
        vec![
            "var response = {\"body\":\"a\\\"b\\\\c\\b\\t\\n\\f\\r\\u0001\\u001f\u{7f} /é😀\",\"headers\":{},\"status\":200};"
                .to_string()
        ]
    );
}

#[test]
fn an_empty_body_is_the_empty_literal_and_no_body_is_null() {
    assert_eq!(
        injected(Vec::new(), Some("")),
        vec!["var response = {\"body\":\"\",\"headers\":{},\"status\":200};".to_string()]
    );
    assert_eq!(
        injected(Vec::new(), None),
        vec!["var response = {\"body\":null,\"headers\":{},\"status\":200};".to_string()]
    );
}

#[test]
fn a_body_that_is_an_object_is_bound_a_second_time() {
    let scripts = injected(
        vec![("content-type".to_string(), "application/json".to_string())],
        Some("{ \"b\": [1, 2],\n \"a\": \"x\" }"),
    );
    assert_eq!(
        scripts,
        vec![
            "var response = {\"body\":\"{ \\\"b\\\": [1, 2],\\n \\\"a\\\": \\\"x\\\" }\",\"headers\":{\"content-type\":\"application/json\"},\"status\":200};"
                .to_string(),
            "response.body = {\"a\":\"x\",\"b\":[1,2]};".to_string(),
        ]
    );
}

#[test]
fn headers_are_bound_by_name_and_the_last_of_a_name_stays() {
    let scripts = injected(
        vec![
            ("b".to_string(), "1".to_string()),
            ("a".to_string(), "\"2\"".to_string()),
            ("b".to_string(), "3".to_string()),
        ],
        None,
    );
    assert_eq!(
        scripts,
        vec!["var response = {\"body\":null,\"headers\":{\"a\":\"\\\"2\\\"\",\"b\":\"3\"},\"status\":200};".to_string()]
    );
}
