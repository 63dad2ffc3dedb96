//! From a manifest and a schema to the inputs of generation.
use waldur_cli_generator::manifest::{Group, Manifest, OrderConfig, Resource};
use waldur_cli_generator::pipeline::{
    build_order_skeletons, build_request_skeletons, cli_version, extract_operations, prepare,
    resolve_field_values, version_or_default, wanted_operations, PipelineError, VersionError,
};
use waldur_cli_generator::schema::{
    Components, OpenApiDoc, RawMediaType, RawOperation, RawParamOrRef, RawParameter,
    RawRequestBody, RawSchema,
};
use waldur_cli_generator::schema_codegen::build_schema_json;
use waldur_cli_generator::table::Table;

fn table<V>(rows: Vec<(&str, V)>) -> Table<V> {
    let mut table = Table::new();
    for (name, value) in rows {
        table.insert(name.to_string(), value);
    }
    table
}

fn resource(name: &str, commands: &[(&str, &str)], order: bool) -> Resource {
    Resource {
        name: name.to_string(),
        about: name.to_string(),
        columns: vec!["uuid".to_string()],
        commands: table(commands.iter().map(|(v, o)| (*v, o.to_string())).collect()),
        order: if order { Some(OrderConfig { offering_type: None }) } else { None },
        actions: None,
        web: None,
    }
}

fn manifest() -> Manifest {
    Manifest {
        group: vec![
            Group {
                name: "g".to_string(),
                about: "G".to_string(),
                resource: vec![resource(
                    "thing",
                    &[("list", "things_list"), ("create", "things_create")],
                    true,
                )],
            },
            Group {
                name: "h".to_string(),
                about: "H".to_string(),
                resource: vec![resource("other", &[("list", "things_list")], false)],
            },
        ],
    }
}

fn typed(name: &str) -> RawSchema {
    RawSchema { schema_type: Some(name.to_string()), ..RawSchema::default() }
}

fn pointing(name: &str) -> RawSchema {
    RawSchema {
        reference: Some(format!("#/components/schemas/{name}")),
        ..RawSchema::default()
    }
}

fn doc() -> OpenApiDoc {
    let field = RawParameter {
        name: "field".to_string(),
        location: "query".to_string(),
        required: false,
        schema: RawSchema {
            schema_type: Some("array".to_string()),
            items: Some(Box::new(pointing("ThingFieldEnum"))),
            ..RawSchema::default()
        },
    };
    let list = RawOperation {
        operation_id: "things_list".to_string(),
        parameters: vec![RawParamOrRef::Inline(field)],
        request_body: None,
    };
    let create = RawOperation {
        operation_id: "things_create".to_string(),
        parameters: Vec::new(),
        request_body: Some(RawRequestBody {
            content: table(vec![(
                "application/json",
                RawMediaType { schema: pointing("ThingRequest") },
            )]),
        }),
    };
    OpenApiDoc {
        paths: table(vec![("/api/things/", table(vec![("get", list), ("post", create)]))]),
        components: Components {
            parameters: Table::new(),
            schemas: table(vec![
                (
                    "ThingFieldEnum",
                    RawSchema {
                        enum_values: Some(vec!["uuid".to_string(), "name".to_string()]),
                        ..typed("string")
                    },
                ),
                ("ThingRequest", RawSchema { required: None, ..typed("object") }),
                ("OrderCreateRequest", typed("object")),
                ("GenericOrderAttributes", typed("object")),
            ]),
        },
    }
}

#[test]
fn wanted_operations_are_sorted_and_unique() {
    assert_eq!(wanted_operations(&manifest()), vec!["things_create", "things_list"]);
}

#[test]
fn everything_is_prepared() {
    let prepared = prepare(&manifest(), &doc()).unwrap();
    assert_eq!(prepared.operations.len(), 2);
    assert_eq!(prepared.operations.get("things_list").unwrap().http_verb, "get");
    assert_eq!(
        prepared.operations.get("things_create").unwrap().request_body_type.as_deref(),
        Some("ThingRequest")
    );
    assert_eq!(prepared.field_enum_values.get("ThingFieldEnum").unwrap(), &vec!["uuid", "name"]);
    assert_eq!(prepared.field_enum_values.len(), 1);
    assert_eq!(prepared.request_skeletons.get("ThingRequest").unwrap(), "{}");
    assert_eq!(
        prepared.order_skeletons.get("thing").unwrap(),
        "{\n  \"accepting_terms_of_service\": true,\n  \"attributes\": {}\n}"
    );
    assert_eq!(prepared.order_skeletons.len(), 1);
}

#[test]
fn prepared_inputs_always_have_a_command_schema() {
    let manifest = manifest();
    let prepared = prepare(&manifest, &doc()).unwrap();
    assert!(build_schema_json(
        &manifest,
        &prepared.operations,
        &prepared.field_enum_values,
        &prepared.request_skeletons,
        &prepared.order_skeletons,
        "1",
    )
    .is_ok());
}

#[test]
fn a_missing_operation_is_named() {
    let mut doc = doc();
    doc.paths = Table::new();
    let error = prepare(&manifest(), &doc).unwrap_err();
    assert_eq!(
        error.message(),
        "extracting operation `things_create` from OpenAPI schema"
    );
    match error {
        PipelineError::ExtractingOperation { cause, .. } => assert_eq!(
            cause.message(),
            "operationId `things_create` not found in OpenAPI schema"
        ),
        _ => panic!("another error"),
    }
    assert!(extract_operations(&doc, &Vec::new()).unwrap().len() == 0);
}

#[test]
fn fields_without_values_are_an_error() {
    let mut doc = doc();
    let operations = extract_operations(&doc, &vec!["things_list".to_string()]).unwrap();
    doc.components.schemas.insert("ThingFieldEnum".to_string(), typed("string"));
    let error = resolve_field_values(&doc, &operations).unwrap_err();
    assert_eq!(error.message(), "resolving --fields values for operation `things_list`");
    match error {
        PipelineError::ResolvingFields { cause, .. } => {
            assert_eq!(cause.message(), "schema `ThingFieldEnum` has no `enum` values")
        }
        _ => panic!("another error"),
    }
}

#[test]
fn a_body_without_a_schema_is_an_error() {
    let mut doc = doc();
    let operations = extract_operations(&doc, &vec!["things_create".to_string()]).unwrap();
    doc.components.schemas = Table::new();
    let error = build_request_skeletons(&doc, &operations).unwrap_err();
    assert_eq!(error.message(), "building request skeleton for operation `things_create`");
    match error {
        PipelineError::BuildingSkeleton { cause, .. } => {
            assert_eq!(cause.message(), "schema `ThingRequest` not found")
        }
        _ => panic!("another error"),
    }
}

#[test]
fn an_order_without_a_schema_is_an_error() {
    let mut doc = doc();
    doc.components.schemas = Table::new();
    let error = build_order_skeletons(&doc, &manifest()).unwrap_err();
    assert_eq!(error.message(), "building order skeleton for resource `thing`");
    match error {
        PipelineError::BuildingOrderSkeleton { cause, .. } => {
            assert_eq!(cause.message(), "schema `OrderCreateRequest` not found")
        }
        _ => panic!("another error"),
    }
}

#[test]
fn the_version_is_read_from_the_package() {
    assert_eq!(cli_version("[package]\nversion = \"1.2.3\"\n").unwrap(), "1.2.3");
    assert_eq!(cli_version("[package]\nversion.workspace = true\n").unwrap(), "0.0.0");
    assert!(matches!(cli_version("[package]\n"), Err(VersionError::NoVersion)));
    assert!(matches!(cli_version(""), Err(VersionError::NoVersion)));
    assert!(matches!(
        cli_version("[package"),
        Err(VersionError::Unparsable { reason }) if !reason.is_empty()
    ));
}

#[test]
fn a_version_that_is_no_text_is_the_default() {
    assert_eq!(version_or_default(Some(None)).unwrap(), "0.0.0");
    assert_eq!(version_or_default(Some(Some("2".to_string()))).unwrap(), "2");
    assert!(matches!(version_or_default(None), Err(VersionError::NoVersion)));
}
