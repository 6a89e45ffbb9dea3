use dot_http::model::{Method, Position, Selection, Unprocessed};
use dot_http::parser::{parse, parse_request, parse_request_script, parse_response_handler};

fn at(line: usize, col: usize) -> Position {
    Position { line, col }
}

fn point(line: usize, col: usize) -> Selection {
    Selection {
        filename: "f".to_string(),
        start: at(line, col),
        end: at(line, col),
    }
}

/// Line and column of a byte offset, as pest counts them.
fn line_col(source: &str, offset: usize) -> Position {
    let (line, col) = pest::Position::new(source, offset).unwrap().line_col();
    Position { line, col }
}

#[test]
fn each_method_has_its_token() {
    for (token, expected) in [
        ("GET", "Get"),
        ("POST", "Post"),
        ("PUT", "Put"),
        ("PATCH", "Patch"),
        ("DELETE", "Delete"),
        ("OPTIONS", "Options"),
    ] {
        let source = format!("{} http://example.com", token);
        let request = parse_request(String::new(), &source).unwrap();
        assert!(format!("{:?}", request.method).starts_with(expected));
        assert_eq!(request.method.selection().start, at(1, 1));
        assert_eq!(request.method.selection().end, at(1, token.len() + 1));
    }
}

#[test]
fn what_is_no_method_is_refused() {
    for source in [
        "get http://example.com",
        "GETS http://example.com",
        "GET",
        "GET\nhttp://example.com",
        "HEAD http://example.com",
        "http://example.com",
    ] {
        let error = parse("f".to_string(), source).unwrap_err();
        assert_eq!(
            error.message,
            "unsupported method: expected GET, POST, PUT, PATCH, DELETE or OPTIONS and a space"
        );
        assert_eq!(error.selection, point(1, 1));
    }
}

#[test]
fn a_request_line_needs_a_target() {
    let error = parse("f".to_string(), "# first\n\nGET   \nAccept: a").unwrap_err();
    assert_eq!(error.message, "expected the target of the request");
    assert_eq!(error.selection, point(3, 7));
}

#[test]
fn a_request_line_ends_with_the_version() {
    let error = parse("f".to_string(), "GET http://a HTTP/1.1 more\n").unwrap_err();
    assert_eq!(
        error.message,
        "expected HTTP/ and a version number, or the end of the line"
    );
    assert_eq!(error.selection, point(1, 23));

    let error = parse("f".to_string(), "GET http://a http/1.1\n").unwrap_err();
    assert_eq!(error.selection, point(1, 14));

    let error = parse("f".to_string(), "GET http://a HTTP/\n").unwrap_err();
    assert_eq!(error.selection, point(1, 14));

    for line in [
        "GET http://a HTTP/2",
        "GET http://a HTTP/1.1",
        "GET http://a   HTTP/10.15  ",
        "GET\thttp://a\tHTTP/1.0\t",
        "GET http://a   ",
    ] {
        let request = parse_request(String::new(), line).unwrap();
        assert_eq!(request.target.state.text(), "http://a");
    }
    // A dot without digits behind it is no part of the version.
    assert!(parse(String::new(), "GET http://a HTTP/1.").is_err());
}

#[test]
fn a_handler_has_to_be_closed() {
    let error = parse("f".to_string(), "GET http://a\n\n> {%\n  open();\n").unwrap_err();
    assert_eq!(error.message, "the handler is not closed: expected %}");
    assert_eq!(error.selection, point(3, 1));

    let error = parse_response_handler("f".to_string(), ">{% x %}").unwrap_err();
    assert_eq!(error.message, "expected the start of a handler: > {%");
    assert_eq!(error.selection, point(1, 1));
}

#[test]
fn a_line_that_is_neither_header_nor_body_is_refused() {
    let error = parse("f".to_string(), "GET http://a\nno colon here\n").unwrap_err();
    assert_eq!(error.selection, point(2, 1));
    assert!(error.message.contains("unsupported method"));
}

#[test]
fn nothing_is_a_file_without_requests() {
    for source in ["", "\n\n", "# only a comment", "###\n# x\n   \n###", "  \t \r\n"] {
        assert_eq!(parse(String::new(), source).unwrap().request_scripts.len(), 0);
    }
}

#[test]
fn positions_count_characters_and_not_bytes() {
    let source = "# caf\u{e9} \u{1f600}\r\nGET http://\u{e9}x/{{ \u{e9} }}?q=1\r\nX-\u{e9}: v\u{e9}{{a}}\r\n\r\nb\u{e9}dy";
    let file = parse(String::new(), source).unwrap();
    let script = &file.request_scripts[0];

    let offset = |needle: &str| source.find(needle).unwrap();
    assert_eq!(script.selection.start, line_col(source, offset("GET")));
    assert_eq!(script.selection.start, at(2, 1));
    assert_eq!(script.selection.end, line_col(source, source.len()));
    assert_eq!(script.selection.end, at(5, 5));

    let target = &script.request.target.state;
    assert_eq!(target.text(), "http://\u{e9}x/{{ \u{e9} }}?q=1");
    assert_eq!(target.selection().start, line_col(source, offset("http")));
    assert_eq!(target.selection().end, line_col(source, offset("\r\nX-")));
    assert_eq!(target.selection().end, at(2, 26));
    match target {
        Unprocessed::WithInline { inline_scripts, .. } => {
            assert_eq!(inline_scripts.len(), 1);
            assert_eq!(inline_scripts[0].script, "\u{e9}");
            assert_eq!(inline_scripts[0].placeholder, "{{ \u{e9} }}");
            assert_eq!(
                inline_scripts[0].selection.start,
                line_col(source, offset("{{ "))
            );
            assert_eq!(
                inline_scripts[0].selection.end,
                line_col(source, offset("?q=1"))
            );
        }
        other => panic!("the target has a placeholder: {:?}", other),
    }

    let header = &script.request.headers[0];
    assert_eq!(header.field_name, "X-\u{e9}");
    assert_eq!(header.field_value.state.text(), "v\u{e9}{{a}}");
    assert_eq!(header.selection.start, line_col(source, offset("X-")));
    assert_eq!(header.selection.end, line_col(source, offset("\r\n\r\n")));
    assert_eq!(
        header.field_value.state.selection().start,
        line_col(source, offset("v\u{e9}"))
    );

    let body = script.request.body.as_ref().unwrap();
    assert_eq!(body.state.text(), "b\u{e9}dy");
    assert_eq!(body.state.selection().start, line_col(source, offset("b\u{e9}dy")));
    assert_eq!(body.state.selection().end, line_col(source, source.len()));
}

#[test]
fn a_carriage_return_alone_is_a_character_of_its_line() {
    let source = "GET http://a\nX: a\rb\n";
    let request = parse_request(String::new(), source).unwrap();
    assert_eq!(request.headers[0].field_value.state.text(), "a\rb");
    assert_eq!(
        request.headers[0].field_value.state.selection().end,
        line_col(source, source.len() - 1)
    );
    assert_eq!(request.selection.end, line_col(source, source.len()));
    assert_eq!(request.selection.end, at(3, 1));
}

#[test]
fn placeholders_are_found_from_left_to_right() {
    let request = parse_request(
        String::new(),
        "GET http://{{host}}/{{ path }}/{{}}/{{{a}}}/{{b\nX: {{ a b }}{{ }}{{c}} {{ open\n\n{{x}}\n{{ y\n}}",
    )
    .unwrap();
    let found = |value: &Unprocessed| match value {
        Unprocessed::WithInline { inline_scripts, .. } => inline_scripts
            .iter()
            .map(|inline| (inline.placeholder.clone(), inline.script.clone()))
            .collect::<Vec<_>>(),
        Unprocessed::WithoutInline(..) => vec![],
    };
    let pair = |placeholder: &str, script: &str| (placeholder.to_string(), script.to_string());
    assert_eq!(
        found(&request.target.state),
        vec![
            pair("{{host}}", "host"),
            pair("{{ path }}", "path"),
            pair("{{{a}}", "{a"),
        ]
    );
    assert_eq!(
        request.target.state.text(),
        "http://{{host}}/{{ path }}/{{}}/{{{a}}}/{{b"
    );
    assert_eq!(
        request.headers[0].field_value.state.text(),
        "{{ a b }}{{ }}{{c}} {{ open"
    );
    assert_eq!(
        found(&request.headers[0].field_value.state),
        vec![pair("{{ a b }}", "a b"), pair("{{c}}", "c")]
    );
    let body = request.body.unwrap();
    assert_eq!(body.state.text(), "{{x}}\n{{ y\n}}");
    assert_eq!(found(&body.state), vec![pair("{{x}}", "x")]);
}

#[test]
fn a_blank_inside_a_placeholder_does_not_end_the_target() {
    let request = parse_request(String::new(), "GET http://a/{{ b + c }}/d HTTP/1.1").unwrap();
    assert_eq!(request.target.state.text(), "http://a/{{ b + c }}/d");
    let request = parse_request(String::new(), "GET http://a/{{ b");
    assert!(request.is_err());
}

#[test]
fn headers_end_at_the_first_line_that_is_none() {
    let source = "\
GET http://a
# a comment
A: 1
B:2
C:
D:   spaced  \n\
# another
E: {{e}}

F: body";
    let request = parse_request(String::new(), source).unwrap();
    let headers: Vec<(&str, &str)> = request
        .headers
        .iter()
        .map(|header| {
            (
                header.field_name.as_str(),
                header.field_value.state.text().as_str(),
            )
        })
        .collect();
    assert_eq!(
        headers,
        vec![
            ("A", "1"),
            ("B", "2"),
            ("C", ""),
            ("D", "spaced  "),
            ("E", "{{e}}")
        ]
    );
    assert_eq!(request.body.unwrap().state.text(), "F: body");
}

#[test]
fn a_body_needs_a_blank_line_before_it() {
    let script = parse_request_script(String::new(), "POST http://a\n\t \n\n  {}  \n\n\n").unwrap();
    let body = script.request.body.unwrap();
    assert_eq!(body.state.text(), "  {}  ");
    assert_eq!(body.state.selection().start, at(4, 1));
    assert_eq!(body.state.selection().end, at(4, 7));
    assert_eq!(script.selection.end, at(4, 7));

    let request = parse_request(String::new(), "POST http://a\n\n###\n").unwrap();
    assert!(request.body.is_none());
    assert_eq!(request.selection.end, at(2, 1));

    let request = parse_request(String::new(), "POST http://a\n\n> {% %}").unwrap();
    assert!(request.body.is_none());
}

#[test]
fn a_body_ends_before_the_separator_and_before_the_handler() {
    let source = "\
POST http://a

one
 ### no separator, it is not at the start of a line: ###
>{% no handler

two

###
GET http://b

# a comment is a part of the body

  > {% no handler, it is not at the start of a line %}
> {% a(); %}
###
GET http://c";
    let file = parse(String::new(), source).unwrap();
    assert_eq!(file.request_scripts.len(), 3);
    assert_eq!(
        file.request_scripts[0].request.body.as_ref().unwrap().state.text(),
        "one\n ### no separator, it is not at the start of a line: ###\n>{% no handler\n\ntwo"
    );
    assert_eq!(
        file.request_scripts[1].request.body.as_ref().unwrap().state.text(),
        "# a comment is a part of the body\n\n  > {% no handler, it is not at the start of a line %}"
    );
    assert_eq!(
        file.request_scripts[1].handler.as_ref().unwrap().script,
        "a();"
    );
    assert!(matches!(file.request_scripts[2].request.method, Method::Get(_)));
}

#[test]
fn the_first_separator_line_ends_the_body() {
    let file = parse(String::new(), "POST http://a\n\none\n### two\nGET http://b").unwrap();
    assert_eq!(file.request_scripts.len(), 2);
    assert_eq!(
        file.request_scripts[0].request.body.as_ref().unwrap().state.text(),
        "one"
    );
}

#[test]
fn a_handler_is_taken_without_the_space_around_it() {
    let handler = parse_response_handler("f".to_string(), "> {%\r\n\t a();\n\n b(); \n\n%} rest").unwrap();
    assert_eq!(handler.script, "a();\n\n b();");
    assert_eq!(handler.selection.start, at(1, 1));
    assert_eq!(handler.selection.end, at(6, 3));

    let handler = parse_response_handler(String::new(), "> {%%}").unwrap();
    assert_eq!(handler.script, "");
    let handler = parse_response_handler(String::new(), "> {% \n %}").unwrap();
    assert_eq!(handler.script, "");
    let handler = parse_response_handler(String::new(), "> {% a %} b %}").unwrap();
    assert_eq!(handler.script, "a");
}

#[test]
fn requests_follow_each_other_with_or_without_a_separator() {
    let file = parse(
        String::new(),
        "GET http://a\nGET http://b\n###\nGET http://c\n\n\n### \n\n# c\nGET http://d",
    )
    .unwrap();
    let targets: Vec<&str> = file
        .request_scripts
        .iter()
        .map(|script| script.request.target.state.text().as_str())
        .collect();
    assert_eq!(targets, vec!["http://a", "http://b", "http://c", "http://d"]);
}

#[test]
fn where_a_selection_begins() {
    let file = parse("dir/requests.http".to_string(), "\n\n   GET http://a").unwrap();
    assert_eq!(file.request_scripts[0].selection.text(), "dir/requests.http:3:4");
    assert_eq!(Selection::none().text(), ":0:0");
}

#[test]
fn a_request_without_body_takes_the_lines_of_blanks_behind_its_headers() {
    // Lines of spaces and tabs directly behind the last header line belong
    // to the request.
    let request = parse_request(String::new(), "GET http://a\nA: b\n \t\n  \n\n \n").unwrap();
    assert!(request.body.is_none());
    assert_eq!(request.selection.end, at(5, 1));

    // An empty line does not, whatever follows it.
    let request = parse_request(String::new(), "GET http://a\nA: b\n\n \n").unwrap();
    assert_eq!(request.selection.end, at(3, 1));
    let request = parse_request(String::new(), "GET http://a\nA: b\n\n").unwrap();
    assert_eq!(request.selection.end, at(3, 1));
    let file = parse(String::new(), "GET http://a\nA: b\n\n###\nGET http://b\n").unwrap();
    assert_eq!(file.request_scripts[0].selection.end, at(3, 1));
    assert_eq!(file.request_scripts[1].selection.start, at(5, 1));

    // Neither do they where a body follows: the body ends the request.
    let request = parse_request(String::new(), "GET http://a\nA: b\n  \nbody\n  \n").unwrap();
    assert_eq!(request.body.as_ref().unwrap().state.text(), "body");
    assert_eq!(request.selection.end, at(4, 5));

    // A last line of blanks without a line break is taken too.
    let script = parse_request_script(String::new(), "GET http://a\n  ").unwrap();
    assert_eq!(script.selection.end, at(2, 3));

    // A handler may follow behind them.
    let script = parse_request_script(String::new(), "GET http://a\n  \n> {% a %}").unwrap();
    assert_eq!(script.request.selection.end, at(3, 10));
    assert_eq!(script.handler.unwrap().selection.start, at(3, 1));
}
