use proto_index::file::{extract_package, parse_file, parse_with_package};
use proto_index::model::{ParsedMethod, ParsedService};
use proto_index::parser::{is_ident_char, parse_methods, parse_services};

fn method(m: &ParsedMethod) -> (String, String, String, bool) {
    (m.name.clone(), m.input_type.clone(), m.output_type.clone(), m.streaming)
}

fn only_method(services: &[ParsedService]) -> (String, String, String, bool) {
    assert_eq!(services.len(), 1);
    assert_eq!(services[0].methods.len(), 1);
    method(&services[0].methods[0])
}

#[test]
fn package_and_single_method() {
    let text = "package p.q; service S { rpc M(Req) returns (Resp); }";
    let services = parse_file("a.proto", text);
    assert_eq!(services.len(), 1);
    assert_eq!(services[0].fq_service, "p.q.S");
    assert_eq!(services[0].file, "a.proto");
    assert_eq!(
        only_method(&services),
        ("M".to_string(), "Req".to_string(), "Resp".to_string(), false)
    );
}

#[test]
fn no_package_gives_bare_name() {
    let services = parse_file("b.proto", "service Greeter { rpc Hi(A) returns (B); }");
    assert_eq!(services.len(), 1);
    assert_eq!(services[0].fq_service, "Greeter");
}

#[test]
fn input_streaming_only() {
    let methods = parse_methods(" rpc Sub(stream Req) returns (Resp); ");
    assert_eq!(methods.len(), 1);
    assert_eq!(
        method(&methods[0]),
        ("Sub".to_string(), "Req".to_string(), "Resp".to_string(), true)
    );
}

#[test]
fn output_streaming_only() {
    let methods = parse_methods(" rpc Watch(Req) returns (stream Resp); ");
    assert_eq!(
        method(&methods[0]),
        ("Watch".to_string(), "Req".to_string(), "Resp".to_string(), true)
    );
}

#[test]
fn both_directions_streaming() {
    let methods = parse_methods(" rpc Chat(stream Req) returns (stream Resp); ");
    assert_eq!(methods.len(), 1);
    assert_eq!(
        method(&methods[0]),
        ("Chat".to_string(), "Req".to_string(), "Resp".to_string(), true)
    );
}

#[test]
fn option_block_same_as_semicolon() {
    let with_block = parse_methods(" rpc Get(Req) returns (Resp) { option (x)=true; } ");
    let with_semi = parse_methods(" rpc Get(Req) returns (Resp); ");
    assert_eq!(with_block.len(), 1);
    assert_eq!(method(&with_block[0]), method(&with_semi[0]));
    assert_eq!(
        method(&with_block[0]),
        ("Get".to_string(), "Req".to_string(), "Resp".to_string(), false)
    );
}

#[test]
fn option_block_then_next_method() {
    let methods = parse_methods(
        " rpc A(X) returns (Y) { option (a) = { b: 1 }; } rpc B(Z) returns (W); ",
    );
    let names: Vec<String> = methods.iter().map(|m| m.name.clone()).collect();
    assert_eq!(names, vec!["A".to_string(), "B".to_string()]);
}

#[test]
fn two_sibling_services() {
    let text = "package pk;\nservice One { rpc A(X) returns (Y); }\nservice Two { rpc B(Z) returns (W); rpc C(Z) returns (W); }\n";
    let services = parse_file("c.proto", text);
    assert_eq!(services.len(), 2);
    assert_eq!(services[0].fq_service, "pk.One");
    assert_eq!(services[1].fq_service, "pk.Two");
    let first: Vec<String> = services[0].methods.iter().map(|m| m.name.clone()).collect();
    let second: Vec<String> = services[1].methods.iter().map(|m| m.name.clone()).collect();
    assert_eq!(first, vec!["A".to_string()]);
    assert_eq!(second, vec!["B".to_string(), "C".to_string()]);
}

#[test]
fn malformed_method_skipped() {
    let body = " rpc First(A) returns (B); rpc Broken A returns (B); rpc Last(C) returns (D); ";
    let methods = parse_methods(body);
    let names: Vec<String> = methods.iter().map(|m| m.name.clone()).collect();
    assert_eq!(names, vec!["First".to_string(), "Last".to_string()]);
    assert_eq!(methods[1].input_type, "C");
}

#[test]
fn missing_returns_skipped() {
    let methods = parse_methods(" rpc One(A) yields (B); rpc Two(C) returns (D); ");
    assert_eq!(methods.len(), 1);
    assert_eq!(methods[0].name, "Two");
}

#[test]
fn missing_second_paren_skipped() {
    let methods = parse_methods(" rpc One(A) returns B; rpc Two(C) returns (D); ");
    assert_eq!(methods.len(), 1);
    assert_eq!(methods[0].name, "Two");
}

#[test]
fn unbalanced_block_keeps_earlier_services() {
    let text = "service Good { rpc A(X) returns (Y); }\nservice Bad { rpc B(X) returns (Y);\n";
    let services = parse_file("d.proto", text);
    assert_eq!(services.len(), 1);
    assert_eq!(services[0].fq_service, "Good");
}

#[test]
fn word_boundary_required() {
    let pairs = parse_services("myservice Hidden { } service Shown { }");
    assert_eq!(pairs.len(), 1);
    assert_eq!(pairs[0].0, "Shown");
}

#[test]
fn nested_braces_in_body() {
    let pairs = parse_services("service S { rpc A(X) returns (Y) { option (o) = { k: 1 }; } } tail");
    assert_eq!(pairs.len(), 1);
    assert_eq!(pairs[0].1, " rpc A(X) returns (Y) { option (o) = { k: 1 }; } ");
}

#[test]
fn empty_text_has_no_services() {
    assert!(parse_file("e.proto", "").is_empty());
    assert!(parse_services("").is_empty());
    assert!(parse_methods("").is_empty());
}

#[test]
fn multibyte_text_is_handled() {
    let text = "// é ü 日本\nservice Ünï { rpc Größe(Ä) returns (Ö); }";
    let services = parse_file("f.proto", text);
    assert_eq!(services.len(), 1);
    assert_eq!(services[0].fq_service, "Ünï");
    assert_eq!(
        only_method(&services),
        ("Größe".to_string(), "Ä".to_string(), "Ö".to_string(), false)
    );
}

#[test]
fn whitespace_around_tokens() {
    let methods = parse_methods("\n\trpc \t Spaced\t(In)\n returns\t(Out) ;");
    assert_eq!(methods.len(), 1);
    assert_eq!(methods[0].name, "Spaced");
    assert_eq!(methods[0].input_type, "In");
    assert_eq!(methods[0].output_type, "Out");
    let tabbed = parse_methods("rpc\tTabbed(In) returns (Out);");
    assert_eq!(tabbed.len(), 1);
    assert_eq!(tabbed[0].name, "Tabbed");
}

#[test]
fn package_extraction() {
    assert_eq!(extract_package("syntax = \"proto3\";\n  package a.b_c.d ;\n"), "a.b_c.d");
    assert_eq!(extract_package("service S {}"), "");
    assert_eq!(extract_package("x package y;"), "");
}

#[test]
fn explicit_package_is_used() {
    let services = parse_with_package("service S { }", "given.pkg", "g.proto");
    assert_eq!(services.len(), 1);
    assert_eq!(services[0].fq_service, "given.pkg.S");
    assert!(services[0].methods.is_empty());
}

#[test]
fn identifier_characters() {
    assert!(is_ident_char('a'));
    assert!(is_ident_char('Z'));
    assert!(is_ident_char('7'));
    assert!(is_ident_char('_'));
    assert!(is_ident_char('.'));
    assert!(is_ident_char('é'));
    assert!(!is_ident_char(' '));
    assert!(!is_ident_char('('));
    assert!(!is_ident_char('{'));
}

#[test]
fn tab_after_service_keyword() {
    let pairs = parse_services("service\tS { }");
    assert_eq!(pairs, vec![("S".to_string(), " ".to_string())]);
}

#[test]
fn newline_after_service_keyword() {
    let pairs = parse_services("service\nS { rpc M(A) returns (B); }");
    assert_eq!(pairs.len(), 1);
    assert_eq!(pairs[0].0, "S");
}

#[test]
fn tab_and_newline_after_rpc_keyword() {
    let methods = parse_methods(" rpc\tM(A) returns (B); rpc\nN(C) returns (D); ");
    let names: Vec<String> = methods.iter().map(|m| m.name.clone()).collect();
    assert_eq!(names, vec!["M".to_string(), "N".to_string()]);
}

#[test]
fn tab_and_newline_after_stream_keyword() {
    let methods = parse_methods(" rpc Up(stream\tReq) returns (Resp); rpc Down(Req) returns (stream\nResp); ");
    assert_eq!(methods.len(), 2);
    assert_eq!(
        method(&methods[0]),
        ("Up".to_string(), "Req".to_string(), "Resp".to_string(), true)
    );
    assert_eq!(
        method(&methods[1]),
        ("Down".to_string(), "Req".to_string(), "Resp".to_string(), true)
    );
}

#[test]
fn keyword_needs_following_whitespace() {
    assert!(parse_services("service{ }").is_empty());
    assert!(parse_methods("rpcM(A) returns (B);").is_empty());
    let methods = parse_methods("rpc M(streamReq) returns (Resp);");
    assert_eq!(methods[0].input_type, "streamReq");
    assert!(!methods[0].streaming);
}

#[test]
fn signature_without_block_skips_to_semicolon() {
    let methods = parse_methods("rpc A(X) returns (Y) x { rpc B(P) returns (Q); }");
    assert_eq!(methods.len(), 1);
    assert_eq!(methods[0].name, "A");
}
