use builder::emit::expand_record;
use builder::record::{Member, SourceRecord};
use builder::derive_source;
use proc_macro2::TokenStream;

const DIAG: &str = "derive(Builder) only supports structs with named fields";

fn tokens(src: &str) -> TokenStream {
    src.parse::<TokenStream>().unwrap()
}

fn member(name: &str, ty: &str) -> Member {
    Member { name: name.to_string(), ty: ty.to_string() }
}

#[test]
fn derive_source_single_member() {
    let out = derive_source(tokens("struct Config { host: String }")).unwrap();
    let rec = SourceRecord { name: "Config".to_string(), members: vec![member("host", "String")] };
    assert_eq!(out, expand_record(&rec));
}

#[test]
fn derive_source_two_members_in_declaration_order() {
    let out = derive_source(tokens("struct Server { host: String, port: u16 }")).unwrap();
    let rec = SourceRecord {
        name: "Server".to_string(),
        members: vec![member("host", "String"), member("port", "u16")],
    };
    assert_eq!(out, expand_record(&rec));
}

#[test]
fn derive_source_compound_type_text() {
    // A member type is carried over as its token text, spaced token by token.
    let out = derive_source(tokens("struct Args { names: Vec<String> }")).unwrap();
    let rec = SourceRecord {
        name: "Args".to_string(),
        members: vec![member("names", "Vec < String >")],
    };
    assert_eq!(out, expand_record(&rec));
}

#[test]
fn derive_source_ignores_visibility_and_attributes() {
    let plain = derive_source(tokens("struct Config { host: String }")).unwrap();
    let decorated = derive_source(tokens(
        "#[allow(dead_code)] pub struct Config { #[allow(dead_code)] pub host: String }",
    ))
    .unwrap();
    assert_eq!(plain, decorated);
}

#[test]
fn derive_tokens_match_source_text() {
    let src = "struct Server { host: String, port: u16 }";
    let out = builder::derive(tokens(src)).unwrap();
    let text = derive_source(tokens(src)).unwrap();
    assert_eq!(out.to_string(), text.parse::<TokenStream>().unwrap().to_string());
}

#[test]
fn derive_empty_record_still_expands() {
    let out = derive_source(tokens("struct Nothing {}")).unwrap();
    assert!(out.starts_with("pub struct NothingBuilder {"));
    assert!(builder::derive(tokens("struct Nothing {}")).is_ok());
}

#[test]
fn derive_rejects_tuple_struct() {
    assert_eq!(derive_source(tokens("struct Tup(i32, i32);")).unwrap_err(), DIAG);
    assert_eq!(builder::derive(tokens("struct Tup(i32, i32);")).unwrap_err(), DIAG);
}

#[test]
fn derive_rejects_unit_struct() {
    assert_eq!(derive_source(tokens("struct Unit;")).unwrap_err(), DIAG);
}

#[test]
fn derive_rejects_sum_type() {
    assert_eq!(derive_source(tokens("enum Choice { A, B }")).unwrap_err(), DIAG);
}

#[test]
fn derive_rejects_union() {
    assert_eq!(derive_source(tokens("union Raw { x: u32 }")).unwrap_err(), DIAG);
}

#[test]
fn derive_rejects_non_declaration() {
    assert_eq!(derive_source(tokens("fn run() {}")).unwrap_err(), DIAG);
}
