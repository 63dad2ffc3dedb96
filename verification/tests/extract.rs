//! Method signatures of the API client.
use waldur_cli_generator::extract::{
    classify_type, extract_methods, is_simple_type_name, select_methods, ExtractError, ImplMember,
    MethodInput, ParamKind, SourceItem,
};

const CLIENT: &str = r#"
pub struct HttpClient;
pub fn things_list() {}
impl Default for HttpClient {
    fn things_list(&self, hidden: bool) {}
}
impl Other {
    pub fn things_create(&self) {}
}
impl HttpClient {
    pub const LIMIT: i64 = 3;
    pub async fn things_list(
        &self,
        uuid: impl AsRef<str>,
        name: Option<impl AsRef<str>>,
        active: bool,
        blocked: Option<bool>,
        page: i64,
        size: Option<i64>,
        body: CustomerRequest,
        extra: Option<RoleRequest>,
        fields: Option<Vec<FieldEnum>>,
        raw: Vec<u8>,
        (a, b): (bool, bool),
    ) -> Result<(), Error> {
        Ok(())
    }
    pub fn unwanted(&self) {}
}
impl HttpClient {
    pub fn things_retrieve(&self, r#type: &str) {}
}
"#;

fn names(wanted: &[&str]) -> Vec<String> {
    wanted.iter().map(|s| s.to_string()).collect()
}

#[test]
fn exactly_the_wanted_methods_are_extracted() {
    let found = extract_methods(CLIENT, &names(&["things_retrieve", "things_list"])).unwrap();
    assert_eq!(found.len(), 2);
    assert!(!found.contains_key("unwanted"));
    let method = found.get("things_list").unwrap();
    assert_eq!(method.name, "things_list");
    let kinds: Vec<(&str, &ParamKind)> =
        method.params.iter().map(|p| (p.name.as_str(), &p.kind)).collect();
    assert_eq!(
        kinds,
        vec![
            ("uuid", &ParamKind::RequiredStr),
            ("name", &ParamKind::OptionalStr),
            ("active", &ParamKind::RequiredBool),
            ("blocked", &ParamKind::OptionalBool),
            ("page", &ParamKind::RequiredI64),
            ("size", &ParamKind::OptionalI64),
            ("body", &ParamKind::JsonBody("CustomerRequest".to_string())),
            ("extra", &ParamKind::OptionalJsonBody("RoleRequest".to_string())),
            ("fields", &ParamKind::SkippedOptional),
            ("raw", &ParamKind::SkippedRequired),
        ]
    );
    let retrieve = found.get("things_retrieve").unwrap();
    assert_eq!(retrieve.params[0].name, "r#type");
    assert_eq!(retrieve.params[0].kind, ParamKind::SkippedRequired);
}

#[test]
fn missing_methods_are_all_named() {
    let error =
        extract_methods(CLIENT, &names(&["nope", "things_list", "things_create"])).unwrap_err();
    assert_eq!(
        error.message(),
        "commands.toml references method(s) not found on HttpClient in rs-client's client.rs \
         (typo, or rs-client's API surface changed): nope, things_create"
    );
}

#[test]
fn a_source_that_does_not_parse_is_an_error() {
    let error = extract_methods("impl {", &[]).unwrap_err();
    assert_eq!(error.message(), "failed to parse rs-client's client.rs");
    assert!(matches!(error, ExtractError::Unparsable { reason } if !reason.is_empty()));
}

#[test]
fn types_are_classified_by_their_tokens() {
    assert_eq!(classify_type("impl AsRef < str >"), ParamKind::RequiredStr);
    assert_eq!(classify_type("Option < bool >"), ParamKind::OptionalBool);
    assert_eq!(
        classify_type("Option < Thing >"),
        ParamKind::OptionalJsonBody("Thing".to_string())
    );
    assert_eq!(classify_type("Option < Vec < Thing > >"), ParamKind::SkippedOptional);
    assert_eq!(classify_type("Option < >"), ParamKind::SkippedOptional);
    assert_eq!(classify_type("Option"), ParamKind::JsonBody("Option".to_string()));
    assert_eq!(classify_type("a :: B"), ParamKind::SkippedRequired);
    assert_eq!(classify_type(""), ParamKind::SkippedRequired);
}

#[test]
fn simple_type_names() {
    assert!(is_simple_type_name("CustomerRequest"));
    assert!(is_simple_type_name("A_1"));
    assert!(!is_simple_type_name("customer"));
    assert!(!is_simple_type_name("Vec<A>"));
    assert!(!is_simple_type_name(""));
    assert!(!is_simple_type_name("\u{c4}b"));
}

#[test]
fn a_later_definition_replaces_an_earlier_one() {
    let method = |argument_type: &str| ImplMember::Method {
        name: "m".to_string(),
        inputs: vec![
            MethodInput::Receiver,
            MethodInput::Argument { name: None, argument_type: "u8".to_string() },
            MethodInput::Argument {
                name: Some("p".to_string()),
                argument_type: argument_type.to_string(),
            },
        ],
    };
    let items = vec![
        SourceItem::Other,
        SourceItem::Impl {
            of_trait: false,
            self_type: "HttpClient".to_string(),
            members: vec![ImplMember::Other, method("bool"), method("i64")],
        },
        SourceItem::Impl {
            of_trait: true,
            self_type: "HttpClient".to_string(),
            members: vec![method("T")],
        },
    ];
    let found = select_methods(&items, &names(&["m"])).unwrap();
    assert_eq!(found.get("m").unwrap().params.len(), 1);
    assert_eq!(found.get("m").unwrap().params[0].kind, ParamKind::RequiredI64);
}
