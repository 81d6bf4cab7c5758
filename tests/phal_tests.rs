use phal::config::ConfigRecord;
use phal::http_status_code::HTTPStatusCode;
use phal::limb::{ConfigError, Error, Limb, LimbBindings, LimbKind, LimbTypes};
use phal::response_data::ResponseData;
use phal::server::{Method, PHALServer};

struct MockLimb(String);

impl Limb for MockLimb {
    fn builds_as(_config: ConfigRecord, result: Option<Self>) -> bool {
        matches!(result, Some(MockLimb(s)) if s.is_empty())
    }

    fn writes_as(self, value: String, after: Self, result: Result<(), Error>) -> bool {
        after.0 == value && result.is_ok()
    }

    fn reads_as(self, after: Self, result: Result<String, Error>) -> bool {
        result == Ok(self.0.clone()) && after.0 == self.0
    }

    fn from_json(_config: &ConfigRecord) -> Option<Self> {
        Some(MockLimb(String::new()))
    }

    fn get(&mut self) -> Result<String, Error> {
        Ok(self.0.clone())
    }

    fn set(&mut self, value: String) -> Result<(), Error> {
        self.0 = value;
        Ok(())
    }

    fn kind_name(&self) -> &'static str {
        "mock-limb"
    }
}

fn mock_server() -> PHALServer<LimbKind<MockLimb>> {
    let mut types = LimbTypes::new();
    types.register("foo".to_string(), LimbKind::new());
    PHALServer::new(types)
}

fn post(server: &mut PHALServer<LimbKind<MockLimb>>, url: &str, body: &str) -> ResponseData {
    server.handle_request(Method::Post, url, Some(body.to_string()))
}

fn get(server: &mut PHALServer<LimbKind<MockLimb>>, url: &str) -> ResponseData {
    server.handle_request(Method::Get, url, Some(String::new()))
}

#[test]
fn server_has_endpoints_for_limbs_in_config() {
    let mut server = mock_server();
    let config = r#"{"bar":{"type":"foo"},"baz":{"type":"foo"}}"#;
    post(&mut server, "/config", config);
    assert!(get(&mut server, "/limb/bar").code == HTTPStatusCode::OK);
    assert!(post(&mut server, "/limb/bar", "foo").code == HTTPStatusCode::OK);
    assert!(get(&mut server, "/limb/baz").code == HTTPStatusCode::OK);
    assert!(post(&mut server, "/limb/baz", "foo").code == HTTPStatusCode::OK);
}

#[test]
fn get_and_post_requests_call_get_and_set_on_a_limb() {
    let mut server = mock_server();
    let config = r#"{"bar":{"type": "foo"}}"#;
    post(&mut server, "/config", config);
    post(&mut server, "/limb/bar", "baz");
    assert_eq!(get(&mut server, "/limb/bar").content, "baz".to_string());
    post(&mut server, "/limb/bar", "quux");
    assert_eq!(get(&mut server, "/limb/bar").content, "quux".to_string());
}

#[test]
fn a_limb_is_set_to_its_init_config_property_on_start_up_if_it_exists() {
    let mut server = mock_server();
    let config = r#"{"bar":{"type":"foo","init":"baz"}}"#;
    post(&mut server, "/config", config);
    assert_eq!(get(&mut server, "/limb/bar").content, "baz".to_string());
}

#[test]
fn configuration_lists_exactly_the_document_names() {
    let mut server = mock_server();
    let r = post(&mut server, "/config", r#"{"b":{"type":"foo"},"a":{"type":"foo"}}"#);
    assert!(r.code == HTTPStatusCode::OK);
    assert_eq!(r.content, "Configuration completed successfullly.");
    assert_eq!(server.limbs.names(), vec!["a".to_string(), "b".to_string()]);
    assert!(get(&mut server, "/limb/a").code == HTTPStatusCode::OK);
    assert!(get(&mut server, "/limb/c").code == HTTPStatusCode::NotFound);
}

#[test]
fn failed_reconfiguration_keeps_the_previous_table() {
    let mut server = mock_server();
    post(&mut server, "/config", r#"{"a":{"type":"foo","init":"kept"}}"#);
    let r = post(&mut server, "/config", r#"{"b":{"type":"foo"},"c":{"type":"nope"}}"#);
    assert!(r.code == HTTPStatusCode::BadRequest);
    assert_eq!(r.content, "The provided configuration names an unknown limb type.");
    assert_eq!(server.limbs.names(), vec!["a".to_string()]);
    assert_eq!(get(&mut server, "/limb/a").content, "kept");
    assert!(get(&mut server, "/limb/b").code == HTTPStatusCode::NotFound);
}

#[test]
fn malformed_documents_are_refused() {
    let mut server = mock_server();
    for doc in ["not json", "[1,2]", r#"{"a":5}"#, r#"{"a":{"init":"x"}}"#, r#"{"a":{"type":3}}"#] {
        let r = post(&mut server, "/config", doc);
        assert!(r.code == HTTPStatusCode::BadRequest);
        assert_eq!(r.content, "The provided configuration was ill-formed.");
    }
}

#[test]
fn round_trip_through_a_limb() {
    let mut server = mock_server();
    post(&mut server, "/config", r#"{"bar":{"type":"foo"}}"#);
    let r = post(&mut server, "/limb/bar", "baz");
    assert!(r.code == HTTPStatusCode::OK);
    assert_eq!(r.content, "Limb successfully updated.");
    let r = get(&mut server, "/limb/bar");
    assert!(r.code == HTTPStatusCode::OK);
    assert_eq!(r.content, "baz");
}

#[test]
fn unknown_limb_is_not_found() {
    let mut server = mock_server();
    let r = get(&mut server, "/limb/missing");
    assert!(r.code == HTTPStatusCode::NotFound);
    assert_eq!(r.content, "That limb does not exist.");
    let r = post(&mut server, "/limb/missing", "x");
    assert!(r.code == HTTPStatusCode::NotFound);
}

#[test]
fn routes_without_a_limb() {
    let mut server = mock_server();
    let r = get(&mut server, "/");
    assert!(r.code == HTTPStatusCode::OK);
    assert_eq!(r.content, "PHAL Server");
    assert!(get(&mut server, "/limb").code == HTTPStatusCode::Forbidden);
    assert!(get(&mut server, "/info").code == HTTPStatusCode::Forbidden);
    assert!(get(&mut server, "/info/other").code == HTTPStatusCode::NotFound);
    assert!(get(&mut server, "/elsewhere").code == HTTPStatusCode::NotFound);
    let r = get(&mut server, "/config");
    assert!(r.code == HTTPStatusCode::NotImplemented);
    assert_eq!(r.content, "Configuration retrieval is not yet implemented.");
    let r = server.handle_request(Method::Other, "/config", Some(String::new()));
    assert!(r.code == HTTPStatusCode::BadRequest);
    assert_eq!(r.content, "Allowed: GET, POST");
    let r = server.handle_request(Method::Post, "/config", None);
    assert!(r.code == HTTPStatusCode::BadRequest);
    assert_eq!(r.content, "Failed to read request");
}

#[test]
fn limb_requests_by_method() {
    let mut server = mock_server();
    post(&mut server, "/config", r#"{"bar":{"type":"foo"}}"#);
    let r = server.handle_request(Method::Other, "/limb/bar", Some(String::new()));
    assert!(r.code == HTTPStatusCode::MethodNotAllowed);
    assert_eq!(r.content, "Allowed: GET, POST");
    let r = server.handle_request(Method::Post, "/limb/bar", None);
    assert!(r.code == HTTPStatusCode::BadRequest);
    assert_eq!(r.content, "Failed to read request");
    assert_eq!(post(&mut server, "//limb//bar/", "slashes").code, HTTPStatusCode::OK);
    assert_eq!(get(&mut server, "/limb/bar").content, "slashes");
}

#[test]
fn info_lists_types_and_limbs() {
    let mut types = LimbTypes::new();
    types.register("foo".to_string(), LimbKind::<MockLimb>::new());
    types.register("bar".to_string(), LimbKind::<MockLimb>::new());
    types.register("foo".to_string(), LimbKind::<MockLimb>::new());
    let mut server = PHALServer::new(types);
    let r = get(&mut server, "/info/types");
    assert!(r.code == HTTPStatusCode::OK);
    assert_eq!(r.content, "foo\nbar\n");
    post(&mut server, "/config", r#"{"q\"x":{"type":"foo"},"p":{"type":"bar"}}"#);
    let r = get(&mut server, "/info/limbs");
    assert!(r.code == HTTPStatusCode::OK);
    assert_eq!(r.content, "\"p\": mock-limb\n\"q\\\"x\": mock-limb\n");
}

struct PickyLimb;

impl Limb for PickyLimb {
    fn builds_as(config: ConfigRecord, result: Option<Self>) -> bool {
        result.is_some() == config.text("device").is_some()
    }

    fn writes_as(self, value: String, _after: Self, result: Result<(), Error>) -> bool {
        result.is_err() == (value == "bad")
    }

    fn reads_as(self, _after: Self, result: Result<String, Error>) -> bool {
        result == Err(Error::InvalidOperation)
    }

    fn from_json(config: &ConfigRecord) -> Option<Self> {
        config.text("device").map(|_| PickyLimb)
    }

    fn get(&mut self) -> Result<String, Error> {
        Err(Error::InvalidOperation)
    }

    fn set(&mut self, value: String) -> Result<(), Error> {
        if value == "bad" {
            Err(Error::InvalidValue)
        } else {
            Ok(())
        }
    }

    fn kind_name(&self) -> &'static str {
        "picky"
    }
}

fn picky_server() -> PHALServer<LimbKind<PickyLimb>> {
    let mut types = LimbTypes::new();
    types.register("picky".to_string(), LimbKind::new());
    PHALServer::new(types)
}

#[test]
fn factory_and_init_failures_refuse_the_document() {
    let mut server = picky_server();
    let ok = server.handle_request(Method::Post, "/config", Some(r#"{"a":{"type":"picky","device":"d"}}"#.to_string()));
    assert!(ok.code == HTTPStatusCode::OK);
    let doc = r#"{"a":{"type":"picky","device":"d"},"b":{"type":"picky"}}"#;
    let r = server.handle_request(Method::Post, "/config", Some(doc.to_string()));
    assert!(r.code == HTTPStatusCode::BadRequest);
    assert_eq!(r.content, "A limb could not be created from the provided configuration.");
    let doc = r#"{"a":{"type":"picky","device":"d","init":"bad"}}"#;
    let r = server.handle_request(Method::Post, "/config", Some(doc.to_string()));
    assert!(r.code == HTTPStatusCode::BadRequest);
    assert_eq!(server.limbs.names(), vec!["a".to_string()]);
}

#[test]
fn limb_errors_become_bad_requests() {
    let mut server = picky_server();
    server.handle_request(Method::Post, "/config", Some(r#"{"a":{"type":"picky","device":"d"}}"#.to_string()));
    let r = server.handle_request(Method::Get, "/limb/a", Some(String::new()));
    assert!(r.code == HTTPStatusCode::BadRequest);
    assert_eq!(r.content, "Invalid operation");
    let r = server.handle_request(Method::Post, "/limb/a", Some("bad".to_string()));
    assert!(r.code == HTTPStatusCode::BadRequest);
    assert_eq!(r.content, "Invalid value");
}

#[test]
fn responses_by_outcome() {
    let r = PHALServer::<LimbKind<MockLimb>>::handle_limb_get_request(Err(Error::Timeout));
    assert!(r.code == HTTPStatusCode::BadRequest);
    assert_eq!(r.content, "Timeout");
    let r = PHALServer::<LimbKind<MockLimb>>::set_limb_value(Err(Error::BrokenLimb));
    assert_eq!(r.content, "Broken limb");
    let r = PHALServer::<LimbKind<MockLimb>>::set_limb_value(Ok(()));
    assert!(r.code == HTTPStatusCode::OK);
}

#[test]
fn status_codes_and_names() {
    let all = [
        (HTTPStatusCode::OK, 200, "OK"),
        (HTTPStatusCode::BadRequest, 400, "Bad request"),
        (HTTPStatusCode::Forbidden, 403, "Forbidden"),
        (HTTPStatusCode::NotFound, 404, "Not found"),
        (HTTPStatusCode::MethodNotAllowed, 405, "Method not allowed"),
        (HTTPStatusCode::NotImplemented, 501, "Not implemented"),
    ];
    for (code, number, name) in all {
        assert_eq!(code.status_code(), number);
        assert_eq!(code.name(), name);
    }
}

#[test]
fn response_constructors() {
    let r = ResponseData::not_found();
    assert!(r.code == HTTPStatusCode::NotFound && r.content.is_empty());
    let r = ResponseData::forbidden();
    assert!(r.code == HTTPStatusCode::Forbidden && r.content.is_empty());
    let r = ResponseData::method_not_allowed("m");
    assert!(r.code == HTTPStatusCode::MethodNotAllowed && r.content == "m");
    let r = ResponseData::not_implemented("n");
    assert!(r.code == HTTPStatusCode::NotImplemented && r.content == "n");
    let r = ResponseData::site_index();
    assert!(r.code == HTTPStatusCode::OK && r.content == "PHAL Server");
}

#[test]
fn error_messages() {
    assert_eq!(Error::BrokenLimb.message(), "Broken limb");
    assert_eq!(Error::InvalidValue.message(), "Invalid value");
    assert_eq!(Error::InvalidOperation.message(), "Invalid operation");
    assert_eq!(Error::WriteFailed.message(), "Write failed");
    assert_eq!(Error::ReadFailed.message(), "Read failed");
    assert_eq!(Error::Timeout.message(), "Timeout");
}

#[test]
fn registry_from_a_list_keeps_first_registration_order() {
    let types = LimbTypes::from(vec![
        ("b".to_string(), LimbKind::<MockLimb>::new()),
        ("a".to_string(), LimbKind::<MockLimb>::new()),
        ("b".to_string(), LimbKind::<MockLimb>::new()),
    ]);
    assert_eq!(types.names(), vec!["b".to_string(), "a".to_string()]);
    assert!(types.contains("a"));
    assert!(!types.contains("c"));
    let record = ConfigRecord { fields: Vec::new() };
    assert!(types.resolve("a", &record).is_some());
    assert!(types.resolve("c", &record).is_none());
}

#[test]
fn table_lookups_and_clear() {
    let mut server = mock_server();
    post(&mut server, "/config", r#"{"x":{"type":"foo","init":"v"}}"#);
    assert_eq!(server.limbs.len(), 1);
    assert!(server.limbs.contains("x"));
    assert!(server.limbs.get("x").is_some());
    assert!(server.limbs.get("y").is_none());
    assert_eq!(server.limbs.get_value("x"), Some(Ok("v".to_string())));
    assert_eq!(server.limbs.set_value("x", "w".to_string()), Some(Ok(())));
    assert_eq!(server.limbs.get_value("x"), Some(Ok("w".to_string())));
    assert_eq!(server.limbs.set_value("y", "w".to_string()), None);
    server.limbs.clear();
    assert_eq!(server.limbs.len(), 0);
}

#[test]
fn repeated_instance_names_are_malformed() {
    let mut types = LimbTypes::new();
    types.register("foo".to_string(), LimbKind::<MockLimb>::new());
    let entry = |name: &str| {
        let fields = vec![("type".to_string(), phal::config::ConfigValue::Text("foo".to_string()))];
        (name.to_string(), ConfigRecord { fields })
    };
    let r = LimbBindings::from_document(vec![entry("a"), entry("b"), entry("a")], &types);
    assert!(matches!(r, Err(ConfigError::MalformedDocument)));
    let r = LimbBindings::from_document(vec![entry("a"), entry("b")], &types);
    assert_eq!(r.ok().map(|t| t.names()), Some(vec!["a".to_string(), "b".to_string()]));
}

#[test]
fn limb_listing_lines() {
    let entries = vec![("a".to_string(), "k1"), ("b\\\"".to_string(), "k2")];
    assert_eq!(
        PHALServer::<LimbKind<MockLimb>>::limb_listing(&entries),
        "\"a\": k1\n\"b\\\"\": k2\n"
    );
    assert_eq!(PHALServer::<LimbKind<MockLimb>>::limb_listing(&Vec::new()), "");
}

#[test]
fn binding_a_built_limb() {
    let table: LimbBindings<MockLimb> = LimbBindings::new();
    let table = table.bind_built("a".to_string(), Some(MockLimb("x".to_string())), None).ok().unwrap();
    assert_eq!(table.names(), vec!["a".to_string()]);
    assert_eq!(table.get("a").map(|l| l.0.clone()), Some("x".to_string()));
    let refused = table.bind_built("b".to_string(), None, None);
    assert!(matches!(refused, Err(ConfigError::FactoryRejected)));
    let table: LimbBindings<MockLimb> = LimbBindings::new();
    let refused = table.bind_built("b".to_string(), Some(MockLimb(String::new())), Some(Err(Error::InvalidValue)));
    assert!(matches!(refused, Err(ConfigError::FactoryRejected)));
    let table: LimbBindings<MockLimb> = LimbBindings::new();
    let kept = table.bind_built("c".to_string(), Some(MockLimb(String::new())), Some(Ok(())));
    assert_eq!(kept.ok().map(|t| t.len()), Some(1));
}

#[test]
fn empty_document_builds_an_empty_table() {
    let mut server = mock_server();
    post(&mut server, "/config", r#"{"a":{"type":"foo"}}"#);
    let r = post(&mut server, "/config", "{}");
    assert!(r.code == HTTPStatusCode::OK);
    assert_eq!(server.limbs.len(), 0);
}

#[test]
fn rendered_bodies() {
    assert_eq!(ResponseData::ok("hi").rendered(), "hi");
    assert_eq!(ResponseData::limb_not_found().rendered(), "404 Not found\nThat limb does not exist.");
    assert_eq!(ResponseData::bad_request("x").rendered(), "400 Bad request\nx");
    assert_eq!(ResponseData::not_implemented("").rendered(), "501 Not implemented\n");
    assert_eq!(HTTPStatusCode::MethodNotAllowed.digits(), "405");
    assert_eq!(HTTPStatusCode::Forbidden.digits(), "403");
}

#[test]
fn limb_names_are_escaped_in_the_listing() {
    let mut server = mock_server();
    post(&mut server, "/config", "{\"\u{e9}\\t\":{\"type\":\"foo\"}}");
    let r = get(&mut server, "/info/limbs");
    assert_eq!(r.content, "\"\\u{e9}\\t\": mock-limb\n");
}
