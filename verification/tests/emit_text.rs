use builder::emit::{
    build_field, expand_record, field_decl, field_default, missing_message, presence_check,
    setter_method, unsupported_diagnostic,
};
use builder::record::{Member, SourceRecord};

fn member(name: &str, ty: &str) -> Member {
    Member { name: name.to_string(), ty: ty.to_string() }
}

#[test]
fn missing_message_exact() {
    assert_eq!(missing_message("host"), "host was not set");
    assert_eq!(missing_message("a"), "a was not set");
}

#[test]
fn unsupported_diagnostic_exact() {
    assert_eq!(
        unsupported_diagnostic(),
        "derive(Builder) only supports structs with named fields"
    );
}

#[test]
fn fragments_exact() {
    let m = member("host", "String");
    assert_eq!(field_decl(&m), "host: std::option::Option<String>");
    assert_eq!(field_default(&m), "host: std::option::Option::None");
    assert_eq!(
        setter_method(&m),
        "pub fn host(&mut self, value: String) -> &mut Self { \
         self.host = std::option::Option::Some(value); self } "
    );
    assert_eq!(
        presence_check(&m),
        "if self.host.is_none() { return std::result::Result::Err(\
         \"host was not set\".to_owned().into()); } "
    );
    assert_eq!(build_field(&m), "host: self.host.clone().unwrap()");
}

#[test]
fn expand_single_member_exact() {
    let rec = SourceRecord { name: "Config".to_string(), members: vec![member("host", "String")] };
    let expected = "pub struct ConfigBuilder { host: std::option::Option<String> } \
         impl ConfigBuilder { \
         pub fn host(&mut self, value: String) -> &mut Self { \
         self.host = std::option::Option::Some(value); self } \
         pub fn build(&mut self) -> std::result::Result<Config, \
         std::boxed::Box<dyn std::error::Error>> { \
         if self.host.is_none() { return std::result::Result::Err(\
         \"host was not set\".to_owned().into()); } \
         std::result::Result::Ok(Config { host: self.host.clone().unwrap() }) } } \
         impl Config { pub fn builder() -> ConfigBuilder { \
         ConfigBuilder { host: std::option::Option::None } } }";
    assert_eq!(expand_record(&rec), expected);
}

#[test]
fn expand_two_members_order_kept() {
    let rec = SourceRecord {
        name: "Server".to_string(),
        members: vec![member("host", "String"), member("port", "u16")],
    };
    let out = expand_record(&rec);
    assert!(out.starts_with(
        "pub struct ServerBuilder { host: std::option::Option<String>, \
         port: std::option::Option<u16> } "
    ));
    // The presence checks keep declaration order: host is tested before port,
    // so an all-absent builder reports host first.
    let host_check = out.find("if self.host.is_none()").unwrap();
    let port_check = out.find("if self.port.is_none()").unwrap();
    assert!(host_check < port_check);
    assert!(out.contains("\"host was not set\""));
    assert!(out.contains("\"port was not set\""));
    assert!(out.ends_with(
        "impl Server { pub fn builder() -> ServerBuilder { \
         ServerBuilder { host: std::option::Option::None, \
         port: std::option::Option::None } } }"
    ));
}

#[test]
fn expand_empty_record() {
    let rec = SourceRecord { name: "Nothing".to_string(), members: vec![] };
    let out = expand_record(&rec);
    assert!(out.starts_with("pub struct NothingBuilder {  } "));
    assert!(out.contains("std::result::Result::Ok(Nothing {  })"));
}
