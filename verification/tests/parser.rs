use dot_http::model::{
    File, Handler, Header, InlineScript, Method, Position, Processed, Request, RequestScript,
    Selection, Unprocessed, Value,
};
use dot_http::parser::{parse, parse_request, parse_request_script, parse_response_handler};
use dot_http::process::Processable;
use dot_http::script_engine::engine::create_script_engine;
use dot_http::script_engine::session::{Evaluation, Interpreter};
/// The Boa interpreter, as the engine asks for one.
struct Boa(boa::exec::Interpreter);

impl Boa {
    fn new() -> Boa {
        Boa(boa::exec::Executor::new(boa::realm::Realm::create()))
    }
}

impl Interpreter for Boa {
    fn fresh(&self) -> Boa {
        Boa::new()
    }

    fn evaluate(&mut self, src: &str) -> Evaluation {
        let mut lexer = boa::syntax::lexer::Lexer::new(src);
        if let Err(refusal) = lexer.lex() {
            return Evaluation::Refused(refusal.to_string());
        }
        let node = match boa::syntax::parser::Parser::new(&lexer.tokens).parse_all() {
            Ok(node) => node,
            Err(refusal) => return Evaluation::Refused(refusal.to_string()),
        };
        match boa::exec::Executor::run(&mut self.0, &node) {
            Ok(value) => Evaluation::Value(value.to_string()),
            Err(thrown) => Evaluation::Thrown(thrown.to_string()),
        }
    }
}


/// The text of the source that a selection spans.
fn text_of(source: &str, selection: &Selection) -> String {
    let mut line = 1;
    let mut col = 1;
    let mut text = String::new();
    let mut inside = false;
    for c in source.chars() {
        if line == selection.start.line && col == selection.start.col {
            inside = true;
        }
        if line == selection.end.line && col == selection.end.col {
            inside = false;
        }
        if inside {
            text.push(c);
        }
        if c == '\n' {
            line += 1;
            col = 1;
        } else {
            col += 1;
        }
    }
    text
}

fn value_text(value: &Value<Unprocessed>) -> &str {
    match &value.state {
        Unprocessed::WithInline { value, .. } => value,
        Unprocessed::WithoutInline(value, _) => value,
    }
}

fn value_selection(value: &Value<Unprocessed>) -> &Selection {
    match &value.state {
        Unprocessed::WithInline { selection, .. } => selection,
        Unprocessed::WithoutInline(_, selection) => selection,
    }
}

fn method_selection(method: &Method) -> &Selection {
    match method {
        Method::Get(selection)
        | Method::Post(selection)
        | Method::Delete(selection)
        | Method::Put(selection)
        | Method::Patch(selection)
        | Method::Options(selection) => selection,
    }
}

fn selection(start: (usize, usize), end: (usize, usize)) -> Selection {
    Selection {
        filename: String::new(),
        start: Position {
            line: start.0,
            col: start.1,
        },
        end: Position {
            line: end.0,
            col: end.1,
        },
    }
}

#[test]
fn tests_test() {
    let test = "\
# Comment 1
# Comment 2
# Comment 3
GET http://{{host}}.com HTTP/1.1
Accept: *#/*
# Commented Header
Content-Type: {{ content_type }}

{
    \"fieldA\": \"value1\"
}

> {%
    console.log('Success!');
%}

###

# Request Comment 2
#
GET http://example.com/{{url_param}}
Accept: */*

###

";
    let files = parse(String::new(), test);
    if let Err(e) = &files {
        println!("{}", e.message);
    }
    assert!(files.is_ok());

    let file = files.unwrap();
    let mut request_scripts = file.request_scripts.iter();

    let request_script = request_scripts.next().unwrap();

    assert_eq!(
        text_of(test, &request_script.selection),
        "\
GET http://{{host}}.com HTTP/1.1
Accept: *#/*
# Commented Header
Content-Type: {{ content_type }}

{
    \"fieldA\": \"value1\"
}

> {%
    console.log('Success!');
%}"
    );

    let method = &request_script.request.method;

    assert_eq!(text_of(test, method_selection(method)), "GET");

    let request_target = &request_script.request.target;

    assert_eq!(value_text(request_target), "http://{{host}}.com");
    assert_eq!(
        text_of(test, value_selection(request_target)),
        "http://{{host}}.com"
    );

    let mut headers = request_script.request.headers.iter();
    let header_field = headers.next().unwrap();
    assert_eq!(text_of(test, &header_field.selection), "Accept: *#/*");
    let other_header_field = headers.next().unwrap();
    assert_eq!(
        text_of(test, &other_header_field.selection),
        "Content-Type: {{ content_type }}"
    );

    let request_script = request_scripts.next().unwrap();

    assert_eq!(
        text_of(test, &request_script.selection),
        "\
GET http://example.com/{{url_param}}
Accept: */*
"
    );

    assert_eq!(request_script.request.headers.len(), 1);
    let body = &request_script.request.body;
    assert_eq!(*body, None);
}

#[test]
fn script_parser_parse() {
    let test = "\
# Comment 1
# Comment 2
# Comment 3
GET http://{{host}}.com HTTP/1.1
Accept: *#/*
# Commented Header
Content-Type: {{ content_type }}

{
    \"fieldA\": \"value1\"
}

> {%
    console.log('Success!');
%}

###

# Request Comment 2
#
GET http://example.com/{{url_param}}
Accept: */*

###

";
    let files = parse(String::new(), test);
    if let Err(e) = &files {
        println!("{}", e.message);
    }
    assert!(files.is_ok());

    let file = files.unwrap();
    let mut request_scripts = file.request_scripts.iter();

    let request_script = request_scripts.next().unwrap();

    assert_eq!(
        text_of(test, &request_script.selection),
        "\
GET http://{{host}}.com HTTP/1.1
Accept: *#/*
# Commented Header
Content-Type: {{ content_type }}

{
    \"fieldA\": \"value1\"
}

> {%
    console.log('Success!');
%}"
    );

    assert_eq!(
        text_of(test, method_selection(&request_script.request.method)),
        "GET"
    );
    assert_eq!(
        text_of(test, value_selection(&request_script.request.target)),
        "http://{{host}}.com"
    );

    let mut headers = request_script.request.headers.iter();
    let header_field = headers.next().unwrap();
    assert_eq!(text_of(test, &header_field.selection), "Accept: *#/*");
    let other_header_field = headers.next().unwrap();
    assert_eq!(
        text_of(test, &other_header_field.selection),
        "Content-Type: {{ content_type }}"
    );

    let request_script = request_scripts.next().unwrap();

    // A request script without body and handler ends with the line of its
    // last header. The empty line behind it stands between the scripts.
    assert_eq!(
        text_of(test, &request_script.selection),
        "\
GET http://example.com/{{url_param}}
Accept: */*
"
    );
    assert_eq!(request_script.selection.end, Position { line: 23, col: 1 });

    assert_eq!(request_script.request.headers.len(), 1);
    let body = &request_script.request.body;
    assert_eq!(*body, None);
    assert!(request_scripts.next().is_none());
}

#[test]
fn test_min_file() {
    let test = "POST http://example.com HTTP/1.1\n";

    let file = parse(String::new(), test);
    if let Err(e) = &file {
        println!("{:?}", e);
    }

    assert!(file.is_ok());
}

#[test]
fn test_new_line_in_request_body_file() {
    let test = "\
POST http://example.com HTTP/1.1
Accept: */*

{
    \"test\": \"a\",
    \"what\": [

    ]
}


> {%
    console.log('cool');
%}

###
";

    let file = parse(String::new(), test);
    if let Err(e) = &file {
        println!("{:?}", e);
    }

    assert!(file.is_ok());
}

#[test]
fn test_request_script() {
    let test = "\
GET http://{{host}}.com HTTP/1.1
Accept: *#/*
# Commented Header
Content-Type: {{ content_type }}

{
    \"fieldA\": \"value1\"
}

> {%
    console.log('Success!');
%}";
    let request_script = parse_request_script(String::new(), test);
    if let Err(e) = &request_script {
        println!("{}", e.message);
    }

    assert!(request_script.is_ok());
}

#[test]
fn test_request() {
    let test = "\
GET http://{{host}}.com HTTP/1.1
Accept: */*
Content-Type: {{ content_type }}
Content-Type2: {{ content_type2 }}
";
    let request = parse_request(String::new(), test);
    if let Err(e) = &request {
        println!("{:?}", e);
    }

    assert!(request.is_ok());
}

#[test]
fn test_request_handler() {
    let test = "\
> {%
 console.log('hi');
%}
";
    let handler = parse_response_handler(String::new(), test);
    if let Err(e) = &handler {
        println!("{:?}", e);
    }

    assert!(handler.is_ok());
}

#[test]
fn test_parse() {
    let (_, test, expected, _) = test_file();
    let file = parse(String::new(), test);
    if let Err(e) = &file {
        println!("{}", e.message);
    }
    assert!(file.is_ok(), "{:?}", file);

    let file = file.unwrap();

    assert_eq!(format!("{:#?}", file), format!("{:#?}", expected));
    assert_eq!(file, expected);
}

fn test_file() -> (
    &'static str,
    &'static str,
    File,
    Vec<RequestScript<Processed>>,
) {
    (
        "\
{
    \"host\": \"example\",
    \"content_type\": \"application/json\",
    \"url_param\": \"?query=id\"
}
        ",
        "\
# Comment 1
# Comment 2
# Comment 3
POST http://{{host}}.com HTTP/1.1
Accept: *#/*
# Commented Header
Content-Type: {{ content_type }}

{
    \"fieldA\": \"value1\"
}

> {%
    console.log('Success!');

    var a = \"what\"
%}

###
# Request Comment 2
#
GET http://example.com/{{url_param}}
Accept: */*

",
        File {
            request_scripts: vec![
                RequestScript {
                    request: Request {
                        method: Method::Post(selection((4, 1), (4, 5))),
                        target: Value {
                            state: Unprocessed::WithInline {
                                value: "http://{{host}}.com".to_string(),
                                inline_scripts: vec![InlineScript {
                                    script: "host".to_string(),
                                    placeholder: "{{host}}".to_string(),
                                    selection: selection((4, 13), (4, 21)),
                                }],
                                selection: selection((4, 6), (4, 25)),
                            },
                        },
                        headers: vec![
                            Header {
                                field_name: "Accept".to_string(),
                                field_value: Value {
                                    state: Unprocessed::WithoutInline(
                                        "*#/*".to_string(),
                                        selection((5, 9), (5, 13)),
                                    ),
                                },
                                selection: selection((5, 1), (5, 13)),
                            },
                            Header {
                                field_name: "Content-Type".to_string(),
                                field_value: Value {
                                    state: Unprocessed::WithInline {
                                        value: "{{ content_type }}".to_string(),
                                        inline_scripts: vec![InlineScript {
                                            script: "content_type".to_string(),
                                            placeholder: "{{ content_type }}".to_string(),
                                            selection: selection((7, 15), (7, 33)),
                                        }],
                                        selection: selection((7, 15), (7, 33)),
                                    },
                                },
                                selection: selection((7, 1), (7, 33)),
                            },
                        ],
                        body: Some(Value {
                            state: Unprocessed::WithoutInline(
                                "{\n    \"fieldA\": \"value1\"\n}".to_string(),
                                selection((9, 1), (11, 2)),
                            ),
                        }),
                        selection: selection((4, 1), (17, 3)),
                    },
                    handler: Some(Handler {
                        script: "console.log(\'Success!\');\n\n    var a = \"what\"".to_string(),
                        selection: selection((13, 1), (17, 3)),
                    }),
                    selection: selection((4, 1), (17, 3)),
                },
                RequestScript {
                    request: Request {
                        method: Method::Get(selection((22, 1), (22, 4))),
                        target: Value {
                            state: Unprocessed::WithInline {
                                value: "http://example.com/{{url_param}}".to_string(),
                                inline_scripts: vec![InlineScript {
                                    script: "url_param".to_string(),
                                    placeholder: "{{url_param}}".to_string(),
                                    selection: selection((22, 24), (22, 37)),
                                }],
                                selection: selection((22, 5), (22, 37)),
                            },
                        },
                        headers: vec![Header {
                            field_name: "Accept".to_string(),
                            field_value: Value {
                                state: Unprocessed::WithoutInline(
                                    "*/*".to_string(),
                                    selection((23, 9), (23, 12)),
                                ),
                            },
                            selection: selection((23, 1), (23, 12)),
                        }],
                        body: None,
                        selection: selection((22, 1), (24, 1)),
                    },
                    handler: None,
                    selection: selection((22, 1), (24, 1)),
                },
            ],
        },
        vec![
            RequestScript {
                request: Request {
                    method: Method::Post(selection((4, 1), (4, 5))),
                    target: Value {
                        state: Processed {
                            value: "http://example.com".to_string(),
                        },
                    },
                    headers: vec![
                        Header {
                            field_name: "Accept".to_string(),
                            field_value: Value {
                                state: Processed {
                                    value: "*#/*".to_string(),
                                },
                            },
                            selection: selection((5, 1), (5, 13)),
                        },
                        Header {
                            field_name: "Content-Type".to_string(),
                            field_value: Value {
                                state: Processed {
                                    value: "application/json".to_string(),
                                },
                            },
                            selection: selection((7, 1), (7, 33)),
                        },
                    ],
                    body: Some(Value {
                        state: Processed {
                            value: "{\n    \"fieldA\": \"value1\"\n}".to_string(),
                        },
                    }),
                    selection: selection((4, 1), (17, 3)),
                },
                handler: Some(Handler {
                    script: "console.log(\'Success!\');\n\n    var a = \"what\"".to_string(),
                    selection: selection((13, 1), (17, 3)),
                }),
                selection: selection((4, 1), (17, 3)),
            },
            RequestScript {
                request: Request {
                    method: Method::Get(selection((22, 1), (22, 4))),
                    target: Value {
                        state: Processed {
                            value: "http://example.com/?query=id".to_string(),
                        },
                    },
                    headers: vec![Header {
                        field_name: "Accept".to_string(),
                        field_value: Value {
                            state: Processed {
                                value: "*/*".to_string(),
                            },
                        },
                        selection: selection((23, 1), (23, 12)),
                    }],
                    body: None,
                    selection: selection((22, 1), (24, 1)),
                },
                handler: None,
                selection: selection((22, 1), (24, 1)),
            },
        ],
    )
}

#[test]
fn test_process_file() {
    let (init, test, _, expected) = test_file();
    let env_file = format!("{{\"dev\": {}}}", init);
    let mut engine = create_script_engine(Boa::new(), &env_file, "dev", "{}").unwrap();
    let file = parse(String::new(), test).unwrap();
    let request_scripts: Vec<RequestScript<Processed>> = file
        .request_scripts
        .iter()
        .map(|script| script.process(&mut engine).unwrap())
        .collect();
    assert_eq!(
        format!("{:#?}", request_scripts),
        format!("{:#?}", expected)
    );
}

#[test]
fn min_file() {
    let test = "POST http://example.com HTTP/1.1\n";

    let file = parse(String::new(), test);
    if let Err(e) = &file {
        println!("{:?}", e);
    }

    assert!(file.is_ok());
}

#[test]
fn weird_file() {
    let test = "\
POST http://example.com HTTP/1.1

{}

> {% console.log('no'); %}";

    let file = parse(String::default(), test);
    if let Err(e) = &file {
        println!("{:?}", e);
    }

    assert!(file.is_ok());
}

#[test]
fn empty_body_with_handler() {
    let test = "\
POST http://example.com HTTP/1.1
Accept: */*

> {%
    console.log('cool');
%}
###
";

    let file = parse(String::default(), test);
    if let Err(e) = &file {
        println!("{:?}", e);
    }

    assert!(file.is_ok());
}

#[test]
fn new_line_in_request_body_file() {
    let test = "\
POST http://example.com HTTP/1.1
Accept: */*

{
    \"test\": \"a\",
    \"what\": [

    ]
}


> {%
    console.log('cool');
%}

###
";

    let file = parse(String::default(), test);
    if let Err(e) = &file {
        println!("{:?}", e);
    }

    assert!(file.is_ok());
}

#[test]
fn request_script() {
    let test = "\
GET http://{{host}}.com HTTP/1.1
Accept: *#/*
# Commented Header
Content-Type: {{ content_type }}

{
    \"fieldA\": {{
    content_type
    }}
}

> {%
    console.log('Success!');
%}";
    let request_script = parse_request_script(String::new(), test);
    if let Err(e) = &request_script {
        println!("{}", e.message);
    }

    assert!(request_script.is_ok());
}

#[test]
fn request() {
    let test = "\
GET http://{{host}}.com HTTP/1.1
Accept: */*
Content-Type: {{ content_type }}
Content-Type2: {{ content_type2 }}
";
    let request = parse_request(String::new(), test);
    if let Err(e) = &request {
        println!("{:?}", e);
    }

    assert!(request.is_ok());
}

#[test]
fn response_handler() {
    let test = "\
> {%
 console.log('hi');
%}
";
    let handler = parse_response_handler(String::new(), test);
    if let Err(e) = &handler {
        println!("{:?}", e);
    }

    assert!(handler.is_ok());
}

#[test]
fn response_handler_with_comment() {
    let test = "\
POST http://httpbin.org/post

{}

# should be fine > {% %}
> {%
  console.log('hi');
%}
";
    let file = parse(String::new(), test);
    if let Err(e) = &file {
        println!("{:?}", e);
    }

    assert!(file.is_ok());
}

#[test]
fn mixing_body_and_headers() {
    let test = "\
GET http://example.com HTTP/1.1
header: some-value";

    let file = parse(String::default(), test);
    if let Err(e) = &file {
        println!("{:?}", e);
    }

    assert!(file.is_ok());

    let request = &file.unwrap().request_scripts[0].request;

    assert!(&request.headers[0].field_name == "header");
    assert!(&request.body.is_none());
}
