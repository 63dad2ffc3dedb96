//! The machine-readable command schema.
use serde_json::Value;
use waldur_cli_generator::manifest::{Group, Manifest, OrderConfig, Resource};
use waldur_cli_generator::schema::{ExtractedOperation, ExtractedParam, ParamKind};
use waldur_cli_generator::schema_codegen::{build_schema_json, describe_verb, render_schema_rs};
use waldur_cli_generator::table::Table;

fn parsed(text: &str) -> Value {
    serde_json::from_str(text).unwrap()
}

fn operation(id: &str, verb: &str, path_param: Option<&str>, body: Option<&str>) -> ExtractedOperation {
    ExtractedOperation {
        operation_id: id.to_string(),
        path: "/api/things/".to_string(),
        http_verb: verb.to_string(),
        path_param: path_param.map(|s| s.to_string()),
        query_params: Vec::new(),
        field_enum_name: None,
        has_order: false,
        order_enum_name: None,
        request_body_type: body.map(|s| s.to_string()),
    }
}

fn resource() -> Resource {
    let mut commands = Table::new();
    for (verb, id) in [
        ("list", "things_list"),
        ("get", "things_retrieve"),
        ("create", "things_create"),
        ("update", "things_update"),
        ("delete", "things_destroy"),
    ] {
        commands.insert(verb.to_string(), id.to_string());
    }
    Resource {
        name: "big-thing".to_string(),
        about: "Big Things".to_string(),
        columns: vec!["uuid".to_string(), "name".to_string()],
        commands,
        order: Some(OrderConfig { offering_type: None }),
        actions: None,
        web: None,
    }
}

fn manifest() -> Manifest {
    Manifest {
        group: vec![Group {
            name: "zoo".to_string(),
            about: "Zoo".to_string(),
            resource: vec![resource()],
        }],
    }
}

fn operations() -> Table<ExtractedOperation> {
    let mut operations = Table::new();
    let mut list = operation("things_list", "get", None, None);
    list.query_params = vec![
        ExtractedParam { name: "cores".to_string(), kind: ParamKind::RequiredI64 },
        ExtractedParam { name: "shape".to_string(), kind: ParamKind::SkippedOptional },
    ];
    list.field_enum_name = Some("F".to_string());
    operations.insert("things_list".to_string(), list);
    for (id, http, path_param, body) in [
        ("things_retrieve", "get", Some("uuid"), None),
        ("things_create", "post", None, Some("ThingRequest")),
        ("things_update", "put", Some("uuid"), Some("ThingRequest")),
        ("things_destroy", "delete", Some("uuid"), None),
    ] {
        operations.insert(id.to_string(), operation(id, http, path_param, body));
    }
    operations
}

fn texts(rows: &[(&str, &str)]) -> Table<String> {
    let mut table = Table::new();
    for (name, text) in rows {
        table.insert(name.to_string(), text.to_string());
    }
    table
}

fn fields() -> Table<Vec<String>> {
    let mut fields = Table::new();
    fields.insert("F".to_string(), vec!["uuid".to_string(), "cores".to_string()]);
    fields
}

fn built() -> Value {
    build_schema_json(
        &manifest(),
        &operations(),
        &fields(),
        &texts(&[("ThingRequest", "{\n  \"name\": \"\"\n}")]),
        &texts(&[("big-thing", "{\n  \"offering\": \"\"\n}")]),
        "1.2.3",
    )
    .unwrap()
}

const FORMAT: &str = r#"{"name": "--format", "type": "string", "global": true,
    "description": "Output format", "valid_values": ["table", "json", "tsv", "toon", "ndjson"]}"#;

#[test]
fn the_summary_has_version_groups_and_commands() {
    let schema = built();
    assert_eq!(schema["version"], parsed("\"1.2.3\""));
    assert_eq!(
        schema["groups"],
        parsed(
            r#"[{"name": "zoo", "description": "Zoo", "resources": [
                {"name": "big-thing", "description": "Big Things",
                 "verbs": ["list", "get", "create", "update", "delete", "provision", "terminate"],
                 "default_columns": ["uuid", "name"]}]}]"#
        )
    );
    let paths: Vec<String> = schema["commands"]
        .as_array()
        .unwrap()
        .iter()
        .map(|c| {
            let path: Vec<&str> =
                c["path"].as_array().unwrap().iter().map(|p| p.as_str().unwrap()).collect();
            path.join(" ")
        })
        .collect();
    assert_eq!(
        paths,
        vec![
            "zoo big-thing list",
            "zoo big-thing get",
            "zoo big-thing create",
            "zoo big-thing update",
            "zoo big-thing delete",
            "zoo big-thing provision",
            "zoo big-thing terminate",
            "schema",
            "completions",
            "login",
            "logout",
            "whoami",
            "set-project",
            "unset-project",
        ]
    );
}

#[test]
fn list_in_full() {
    let mut expected = parsed(
        r#"{"path": ["zoo", "big-thing", "list"], "description": "List big things",
            "type": "list", "api_endpoint": "/api/things/", "http_method": "GET",
            "output": {"type": "array", "default_columns": ["uuid", "name"]},
            "parameters": [
              {"name": "--filter", "type": "KEY=VALUE", "repeatable": true,
               "description": "Server-side filter",
               "valid_keys": [{"key": "cores", "type": "integer"}]},
              {"name": "--fields", "type": "string", "repeatable": true,
               "description": "Fetch only these fields from the API",
               "valid_values": ["uuid", "cores"]},
              {"name": "--jmespath", "type": "string",
               "description": "JMESPath expression for client-side output reshaping"},
              {"name": "--limit", "type": "integer",
               "description": "Maximum number of items to return"}
            ]}"#,
    );
    expected["parameters"].as_array_mut().unwrap().push(parsed(FORMAT));
    assert_eq!(built()["commands"][0], expected);
}

#[test]
fn update_embeds_its_template() {
    let mut expected = parsed(
        r#"{"path": ["zoo", "big-thing", "update"], "description": "Update big things",
            "type": "update", "api_endpoint": "/api/things/", "http_method": "PUT",
            "request_skeleton": {"name": ""},
            "parameters": [
              {"name": "uuid", "type": "string", "positional": true, "required": false,
               "description": "uuid of the resource (required unless --generate-skeleton)"},
              {"name": "--request", "type": "json", "description": "Request body as inline JSON"},
              {"name": "--request-file", "type": "path",
               "description": "Read the request body from a JSON or YAML file"},
              {"name": "--generate-skeleton", "type": "enum",
               "description": "Print a fillable request-body template and exit",
               "valid_values": ["json", "yaml"]}
            ]}"#,
    );
    expected["parameters"].as_array_mut().unwrap().push(parsed(FORMAT));
    assert_eq!(built()["commands"][3], expected);
}

#[test]
fn get_delete_and_order_commands() {
    let schema = built();
    assert_eq!(
        schema["commands"][1]["parameters"][0],
        parsed(
            r#"{"name": "uuid", "type": "string", "positional": true, "required": true,
                "description": "uuid of the resource"}"#
        )
    );
    assert_eq!(schema["commands"][4]["http_method"], parsed("\"DELETE\""));
    assert_eq!(
        schema["commands"][5]["description"],
        parsed("\"Provision big things via a marketplace order\"")
    );
    assert_eq!(schema["commands"][5]["request_skeleton"], parsed(r#"{"offering": ""}"#));
    assert_eq!(
        schema["commands"][6]["parameters"][0]["description"],
        parsed("\"Marketplace resource UUID\"")
    );
    assert!(schema["commands"][6].get("api_endpoint").is_none());
}

#[test]
fn optional_parts_are_left_out() {
    let mut bare = manifest();
    bare.group[0].resource[0].columns = Vec::new();
    let mut operations = operations();
    operations.insert("things_list".to_string(), operation("things_list", "get", None, None));
    let schema = build_schema_json(
        &bare,
        &operations,
        &Table::new(),
        &texts(&[("ThingRequest", "not json")]),
        &Table::new(),
        "",
    )
    .unwrap();
    let list = &schema["commands"][0];
    assert!(list.get("output").is_none());
    assert_eq!(list["parameters"][0]["name"], parsed("\"--fields\""));
    assert!(list["parameters"][0].get("valid_values").is_none());
    assert!(schema["commands"][2].get("request_skeleton").is_none());
    assert!(schema["commands"][5].get("request_skeleton").is_none());
}

#[test]
fn a_verb_described_alone_is_the_same() {
    let manifest = manifest();
    let operations = operations();
    let group = &manifest.group[0];
    let described = describe_verb(
        group.name.as_str(),
        &group.resource[0],
        "list",
        operations.get("things_list").unwrap(),
        &fields(),
        &Table::new(),
    );
    assert_eq!(described, built()["commands"][0]);
}

#[test]
fn a_missing_operation_stops_the_schema() {
    let none: Table<String> = Table::new();
    let error =
        build_schema_json(&manifest(), &Table::new(), &Table::new(), &none, &none, "1").unwrap_err();
    assert_eq!(
        error.message("schema_codegen"),
        "schema_codegen: operation `things_list` (group `zoo`, resource `big-thing`, verb `list`) not extracted"
    );
}

#[test]
fn the_rendered_source_holds_the_schema() {
    let schema = built();
    let source = render_schema_rs(&schema);
    let file = syn::parse_file(&source).unwrap();
    let constants: Vec<&syn::ItemConst> = file
        .items
        .iter()
        .filter_map(|item| match item {
            syn::Item::Const(item) => Some(item),
            _ => None,
        })
        .collect();
    assert_eq!(constants.len(), 1);
    assert_eq!(constants[0].ident.to_string(), "CLI_SCHEMA_JSON");
    match &*constants[0].expr {
        syn::Expr::Lit(literal) => match &literal.lit {
            syn::Lit::Str(text) => assert_eq!(parsed(&text.value()), schema),
            _ => panic!("not a text"),
        },
        _ => panic!("not a literal"),
    }
}

#[test]
fn the_rendered_source_in_full() {
    assert_eq!(
        render_schema_rs(&parsed("{\"b\": [1], \"a\": {}}")),
        r####"//! Generated by waldur-cli-generator from `commands.toml`. Do not edit by hand.
//!
//! Contains the full CLI command schema as an embedded JSON string, used by the
//! `schema` subcommand to serve a machine-readable tool specification.

/// The full CLI schema as a JSON string — command paths, descriptions,
/// parameters, valid values, filter keys, request skeletons, and group
/// metadata. Parsed at runtime by the hand-written `schema` subcommand
/// in `main.rs`.
pub const CLI_SCHEMA_JSON: &str = r###"{
  "a": {},
  "b": [
    1
  ]
}"###;
"####
    );
}

fn embedded(source: &str) -> String {
    let file = syn::parse_file(source).unwrap();
    let value = match &file.items[0] {
        syn::Item::Const(item) => &item.expr,
        _ => panic!("not a constant"),
    };
    match &**value {
        syn::Expr::Lit(literal) => match &literal.lit {
            syn::Lit::Str(text) => text.value(),
            _ => panic!("not a text"),
        },
        _ => panic!("not a literal"),
    }
}

#[test]
fn the_raw_literal_has_enough_marks_for_any_schema() {
    for (json, marks) in [
        ("\"##\"", "###"),
        ("\"###\"", "####"),
        ("{\"a\": \"####\", \"#####b\": \"x#######\"}", "######"),
    ] {
        let value = parsed(json);
        let source = render_schema_rs(&value);
        assert!(source.contains(&format!("= r{marks}\"")));
        assert!(!source.contains(&format!("= r{marks}#")));
        assert_eq!(embedded(&source), serde_json::to_string_pretty(&value).unwrap());
    }
}

#[test]
fn the_raw_literal_has_no_more_marks_than_rust_takes() {
    for (length, raw) in [(253, true), (254, true), (255, false), (256, false), (300, false)] {
        let value = parsed(&format!("\"{}\"", "#".repeat(length)));
        let source = render_schema_rs(&value);
        let row = "#".repeat(length + 1);
        assert_eq!(source.contains(&format!("= r{row}\"\"")), raw);
        assert_eq!(source.contains("= \"\\\"#"), !raw);
        assert_eq!(embedded(&source), serde_json::to_string_pretty(&value).unwrap());
    }
}
