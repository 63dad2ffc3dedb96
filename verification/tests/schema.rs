//! Extraction from an OpenAPI schema, request templates and validation schemas.
use serde_yaml::Value as Yaml;
use waldur_cli_generator::json_schema::{build_request_json_schema, json_schema_value};
use waldur_cli_generator::schema::{
    classify_param, discover_actions, extract_enum_values, extract_operation, resolve_param,
    Components, OpenApiDoc, ParamKind, RawMediaType, RawOperation, RawParamOrRef, RawParameter,
    RawRequestBody, RawSchema,
};
use waldur_cli_generator::skeleton::{
    build_order_skeleton, build_request_skeleton, skeleton_value, SKELETON_MAX_DEPTH,
};
use waldur_cli_generator::table::{NameSet, Table};

fn parsed(text: &str) -> serde_json::Value {
    serde_json::from_str(text).unwrap()
}

// -- fixtures --------------------------------------------------------------

fn text(node: &Yaml) -> String {
    node.as_str().unwrap().to_string()
}

fn texts(node: &Yaml) -> Vec<String> {
    node.as_sequence().unwrap().iter().map(text).collect()
}

fn table<V>(node: Option<&Yaml>, read: fn(&Yaml) -> V) -> Table<V> {
    let mut table = Table::new();
    if let Some(mapping) = node.and_then(|n| n.as_mapping()) {
        for (name, value) in mapping {
            table.insert(text(name), read(value));
        }
    }
    table
}

fn schemas(node: Option<&Yaml>) -> Option<Vec<RawSchema>> {
    node.map(|n| n.as_sequence().unwrap().iter().map(schema).collect())
}

fn schema(node: &Yaml) -> RawSchema {
    RawSchema {
        schema_type: node.get("type").map(text),
        items: node.get("items").map(|items| Box::new(schema(items))),
        reference: node.get("$ref").map(text),
        enum_values: node.get("enum").map(texts),
        properties: node.get("properties").map(|p| table(Some(p), schema)),
        required: node.get("required").map(texts),
        read_only: node.get("readOnly").and_then(|b| b.as_bool()).unwrap_or(false),
        all_of: schemas(node.get("allOf")),
        one_of: schemas(node.get("oneOf")),
        any_of: schemas(node.get("anyOf")),
        format: node.get("format").map(text),
    }
}

fn parameter(node: &Yaml) -> RawParameter {
    RawParameter {
        name: text(&node["name"]),
        location: text(&node["in"]),
        required: node.get("required").and_then(|b| b.as_bool()).unwrap_or(false),
        schema: schema(&node["schema"]),
    }
}

fn parameter_or_ref(node: &Yaml) -> RawParamOrRef {
    match node.get("$ref") {
        Some(reference) => RawParamOrRef::Ref { reference: text(reference) },
        None => RawParamOrRef::Inline(parameter(node)),
    }
}

fn media_type(node: &Yaml) -> RawMediaType {
    RawMediaType { schema: schema(&node["schema"]) }
}

fn operation(node: &Yaml) -> RawOperation {
    RawOperation {
        operation_id: text(&node["operationId"]),
        parameters: match node.get("parameters") {
            Some(list) => list.as_sequence().unwrap().iter().map(parameter_or_ref).collect(),
            None => Vec::new(),
        },
        request_body: node
            .get("requestBody")
            .map(|body| RawRequestBody { content: table(body.get("content"), media_type) }),
    }
}

fn methods(node: &Yaml) -> Table<RawOperation> {
    table(Some(node), operation)
}

fn doc(yaml: &str) -> OpenApiDoc {
    let node: Yaml = serde_yaml::from_str(yaml).expect("test fixture YAML should parse");
    OpenApiDoc {
        paths: table(node.get("paths"), methods),
        components: Components {
            parameters: table(node["components"].get("parameters"), parameter),
            schemas: table(node["components"].get("schemas"), schema),
        },
    }
}

fn param(schema_type: &str, required: bool) -> RawParameter {
    RawParameter {
        name: "x".to_string(),
        location: "query".to_string(),
        required,
        schema: RawSchema { schema_type: Some(schema_type.to_string()), ..Default::default() },
    }
}

// -- classify_param -------------------------------------------------

#[test]
fn classify_param_maps_scalar_types() {
    assert!(matches!(classify_param(&param("string", true)), ParamKind::RequiredStr));
    assert!(matches!(classify_param(&param("string", false)), ParamKind::OptionalStr));
    assert!(matches!(classify_param(&param("boolean", true)), ParamKind::RequiredBool));
    assert!(matches!(classify_param(&param("boolean", false)), ParamKind::OptionalBool));
    assert!(matches!(classify_param(&param("integer", true)), ParamKind::RequiredI64));
    assert!(matches!(classify_param(&param("integer", false)), ParamKind::OptionalI64));
}

#[test]
fn classify_param_treats_array_as_str_since_filter_repeats_the_key() {
    assert!(matches!(classify_param(&param("array", true)), ParamKind::RequiredStr));
    assert!(matches!(classify_param(&param("array", false)), ParamKind::OptionalStr));
}

#[test]
fn classify_param_skips_unrecognized_types() {
    assert!(matches!(classify_param(&param("object", true)), ParamKind::SkippedRequired));
    assert!(matches!(classify_param(&param("object", false)), ParamKind::SkippedOptional));
}

// -- resolve_param ----------------------------------------------------

#[test]
fn resolve_param_finds_a_shared_component_parameter() {
    let d = doc(
        r#"
paths: {}
components:
  parameters:
    Page:
      name: page
      in: query
      schema:
        type: integer
  schemas: {}
"#,
    );
    let resolved = resolve_param(&d, "#/components/parameters/Page").unwrap();
    assert_eq!(resolved.name, "page");
}

#[test]
fn resolve_param_rejects_unsupported_ref_shape() {
    let d = doc("paths: {}\ncomponents: {}\n");
    let err = resolve_param(&d, "#/definitions/Page").unwrap_err();
    assert!(err.message().contains("unsupported parameter $ref shape"));
}

#[test]
fn resolve_param_errors_on_unknown_name() {
    let d = doc("paths: {}\ncomponents: {}\n");
    let err = resolve_param(&d, "#/components/parameters/Nope").unwrap_err();
    assert!(err.message().contains("does not resolve to a known parameter"));
}

// -- extract_operation --------------------------------------------------

#[test]
fn extract_operation_full_shape() {
    let d = doc(
        r#"
paths:
  /api/things/{uuid}/:
    get:
      operationId: things_retrieve
      parameters:
        - name: uuid
          in: path
          required: true
          schema: {type: string}
        - $ref: '#/components/parameters/Page'
        - $ref: '#/components/parameters/PageSize'
        - name: name
          in: query
          required: false
          schema: {type: string}
        - name: field
          in: query
          required: false
          schema:
            type: array
            items:
              $ref: '#/components/schemas/ThingFieldEnum'
      requestBody:
        content:
          application/json:
            schema:
              $ref: '#/components/schemas/ThingRequest'
components:
  parameters:
    Page:
      name: page
      in: query
      schema: {type: integer}
    PageSize:
      name: page_size
      in: query
      schema: {type: integer}
  schemas:
    ThingFieldEnum:
      type: string
      enum: [uuid, name]
    ThingRequest:
      type: object
      properties:
        name: {type: string}
"#,
    );
    let op = extract_operation(&d, "things_retrieve").unwrap();
    assert_eq!(op.path, "/api/things/{uuid}/");
    assert_eq!(op.http_verb, "get");
    assert_eq!(op.path_param.as_deref(), Some("uuid"));
    // page/page_size (resolved via $ref) are filtered out; field is
    // pulled into field_enum_name separately -- only "name" remains.
    assert_eq!(op.query_params.len(), 1);
    assert_eq!(op.query_params[0].name, "name");
    assert_eq!(op.field_enum_name.as_deref(), Some("ThingFieldEnum"));
    assert_eq!(op.request_body_type.as_deref(), Some("ThingRequest"));
}

#[test]
fn extract_operation_bails_on_multiple_path_params() {
    let d = doc(
        r#"
paths:
  /api/things/{a}/{b}/:
    get:
      operationId: multi_path
      parameters:
        - {name: a, in: path, required: true, schema: {type: string}}
        - {name: b, in: path, required: true, schema: {type: string}}
components: {}
"#,
    );
    let err = extract_operation(&d, "multi_path").unwrap_err();
    assert!(err.message().contains("more than one"));
}

#[test]
fn extract_operation_not_found_is_a_clear_error() {
    let d = doc("paths: {}\ncomponents: {}\n");
    let err = extract_operation(&d, "nope").unwrap_err();
    assert!(err.message().contains("not found in OpenAPI schema"));
}

#[test]
fn extract_operation_without_request_body_or_path_param_has_none() {
    let d = doc(
        r#"
paths:
  /api/things/:
    get:
      operationId: things_list
components: {}
"#,
    );
    let op = extract_operation(&d, "things_list").unwrap();
    assert_eq!(op.request_body_type, None);
    assert_eq!(op.path_param, None);
    assert!(op.query_params.is_empty());
}

// -- discover_actions -----------------------------------------------------

fn actions_doc() -> OpenApiDoc {
    doc(
        r#"
paths:
  /api/things/{uuid}/:
    get:
      operationId: things_retrieve
  /api/things/{uuid}/start/:
    post:
      operationId: things_start
  /api/things/{uuid}/pull/:
    post:
      operationId: things_pull
  /api/things/{uuid}/history/at/:
    get:
      operationId: things_history_at
  /api/other/{uuid}/detach/:
    post:
      operationId: other_detach
components: {}
"#,
    )
}

#[test]
fn discover_actions_finds_direct_children_of_the_base_path() {
    let d = actions_doc();
    let actions = discover_actions(&d, "/api/things/{uuid}/", &[]).unwrap();
    let names: Vec<&str> = actions.iter().map(|a| a.name.as_str()).collect();
    assert_eq!(names, vec!["pull", "start"]);
}

#[test]
fn discover_actions_skips_deeper_nested_paths() {
    let d = actions_doc();
    let actions = discover_actions(&d, "/api/things/{uuid}/", &[]).unwrap();
    assert!(actions.iter().all(|a| a.name != "history/at"));
}

#[test]
fn discover_actions_ignores_paths_outside_the_base() {
    let d = actions_doc();
    let actions = discover_actions(&d, "/api/things/{uuid}/", &[]).unwrap();
    assert!(actions.iter().all(|a| a.name != "detach"));
}

#[test]
fn discover_actions_respects_the_exclude_list() {
    let d = actions_doc();
    let actions =
        discover_actions(&d, "/api/things/{uuid}/", &["pull".to_string()]).unwrap();
    let names: Vec<&str> = actions.iter().map(|a| a.name.as_str()).collect();
    assert_eq!(names, vec!["start"]);
}

#[test]
fn discover_actions_sorts_by_name_deterministically() {
    let d = actions_doc();
    let actions = discover_actions(&d, "/api/things/{uuid}/", &[]).unwrap();
    let names: Vec<&str> = actions.iter().map(|a| a.name.as_str()).collect();
    let mut sorted = names.clone();
    sorted.sort();
    assert_eq!(names, sorted);
}

// -- extract_enum_values ------------------------------------------------

#[test]
fn extract_enum_values_returns_the_list() {
    let d = doc(
        r#"
paths: {}
components:
  schemas:
    Color:
      type: string
      enum: [red, green, blue]
"#,
    );
    assert_eq!(extract_enum_values(&d, "Color").unwrap(), vec!["red", "green", "blue"]);
}

#[test]
fn extract_enum_values_errors_when_schema_has_no_enum() {
    let d = doc(
        r#"
paths: {}
components:
  schemas:
    Plain:
      type: string
"#,
    );
    let err = extract_enum_values(&d, "Plain").unwrap_err();
    assert!(err.message().contains("has no `enum` values"));
}

#[test]
fn extract_enum_values_errors_when_schema_not_found() {
    let d = doc("paths: {}\ncomponents: {}\n");
    let err = extract_enum_values(&d, "Nope").unwrap_err();
    assert!(err.message().contains("not found in OpenAPI schema"));
}

// -- skeleton_value / build_request_skeleton -----------------------------

#[test]
fn skeleton_required_field_gets_typed_placeholder_optional_gets_null() {
    let d = doc(
        r#"
paths: {}
components:
  schemas:
    Thing:
      type: object
      required: [name]
      properties:
        name: {type: string}
        age: {type: integer}
        active: {type: boolean}
"#,
    );
    let json = build_request_skeleton(&d, "Thing").unwrap();
    let value: serde_json::Value = serde_json::from_str(&json).unwrap();
    assert_eq!(value["name"], parsed(r#""""#));
    assert_eq!(value["age"], serde_json::Value::Null);
    assert_eq!(value["active"], serde_json::Value::Null);
}

#[test]
fn skeleton_array_field_has_one_sample_element() {
    let d = doc(
        r#"
paths: {}
components:
  schemas:
    Thing:
      type: object
      required: [tags]
      properties:
        tags:
          type: array
          items: {type: string}
"#,
    );
    let json = build_request_skeleton(&d, "Thing").unwrap();
    let value: serde_json::Value = serde_json::from_str(&json).unwrap();
    assert_eq!(value["tags"], parsed(r#"[""]"#));
}

#[test]
fn skeleton_enum_field_uses_first_value() {
    let d = doc(
        r#"
paths: {}
components:
  schemas:
    Thing:
      type: object
      required: [color]
      properties:
        color:
          type: string
          enum: [red, green]
"#,
    );
    let json = build_request_skeleton(&d, "Thing").unwrap();
    let value: serde_json::Value = serde_json::from_str(&json).unwrap();
    assert_eq!(value["color"], parsed(r#""red""#));
}

#[test]
fn skeleton_ref_field_resolves_and_recurses() {
    let d = doc(
        r#"
paths: {}
components:
  schemas:
    Thing:
      type: object
      required: [owner]
      properties:
        owner:
          $ref: '#/components/schemas/Owner'
    Owner:
      type: object
      required: [name]
      properties:
        name: {type: string}
"#,
    );
    let json = build_request_skeleton(&d, "Thing").unwrap();
    let value: serde_json::Value = serde_json::from_str(&json).unwrap();
    assert_eq!(value["owner"]["name"], parsed(r#""""#));
}

#[test]
fn skeleton_allof_wrapping_a_ref_takes_that_member() {
    let d = doc(
        r#"
paths: {}
components:
  schemas:
    Thing:
      type: object
      required: [status]
      properties:
        status:
          allOf:
            - $ref: '#/components/schemas/Status'
          description: "wrapped for a sibling description, drf-spectacular style"
    Status:
      type: string
      enum: [active, inactive]
"#,
    );
    let json = build_request_skeleton(&d, "Thing").unwrap();
    let value: serde_json::Value = serde_json::from_str(&json).unwrap();
    assert_eq!(value["status"], parsed(r#""active""#));
}

#[test]
fn skeleton_read_only_field_is_excluded_entirely() {
    let d = doc(
        r#"
paths: {}
components:
  schemas:
    Thing:
      type: object
      required: [name]
      properties:
        name: {type: string}
        uuid: {type: string, readOnly: true}
"#,
    );
    let json = build_request_skeleton(&d, "Thing").unwrap();
    let value: serde_json::Value = serde_json::from_str(&json).unwrap();
    assert!(value.get("uuid").is_none());
}

#[test]
fn skeleton_self_referential_ref_stops_at_the_cycle() {
    let d = doc(
        r#"
paths: {}
components:
  schemas:
    Node:
      type: object
      required: [parent]
      properties:
        parent:
          $ref: '#/components/schemas/Node'
"#,
    );
    // The real assertion is that this returns at all (proving the `seen`
    // cycle guard works) rather than recursing until the depth cutoff on
    // every test run.
    let json = build_request_skeleton(&d, "Node").unwrap();
    let value: serde_json::Value = serde_json::from_str(&json).unwrap();
    assert_eq!(value["parent"], serde_json::Value::Null);
}

#[test]
fn skeleton_depth_cutoff_returns_null() {
    let d = doc("paths: {}\ncomponents: {}\n");
    let schema = RawSchema { schema_type: Some("string".to_string()), ..Default::default() };
    let mut seen = NameSet::new();
    let value = skeleton_value(&d, &schema, &mut seen, SKELETON_MAX_DEPTH + 1);
    assert_eq!(value, serde_json::Value::Null);
}

// -- build_order_skeleton ------------------------------------------------

#[test]
fn order_skeleton_typed_offering_uses_the_naming_convention() {
    let d = doc(
        r#"
paths: {}
components:
  schemas:
    OrderCreateRequest:
      type: object
      properties:
        offering: {type: string}
    OpenStackInstanceCreateOrderAttributes:
      type: object
      required: [name]
      properties:
        name: {type: string}
"#,
    );
    let json = build_order_skeleton(&d, Some("OpenStack.Instance")).unwrap();
    let value: serde_json::Value = serde_json::from_str(&json).unwrap();
    assert_eq!(value["attributes"]["name"], parsed(r#""""#));
    assert_eq!(value["accepting_terms_of_service"], parsed(r#"true"#));
}

#[test]
fn order_skeleton_generic_uses_generic_attributes() {
    let d = doc(
        r#"
paths: {}
components:
  schemas:
    OrderCreateRequest:
      type: object
      properties: {}
    GenericOrderAttributes:
      type: object
      required: [name]
      properties:
        name: {type: string}
"#,
    );
    let json = build_order_skeleton(&d, None).unwrap();
    let value: serde_json::Value = serde_json::from_str(&json).unwrap();
    assert_eq!(value["attributes"]["name"], parsed(r#""""#));
}

#[test]
fn order_skeleton_missing_attrs_schema_is_a_clear_error() {
    let d = doc(
        r#"
paths: {}
components:
  schemas:
    OrderCreateRequest:
      type: object
      properties: {}
"#,
    );
    let err = build_order_skeleton(&d, Some("Nonexistent.Type")).unwrap_err();
    let msg = err.message();
    assert!(msg.contains("attributes schema"));
    assert!(msg.contains("NonexistentType"));
}

// -- json_schema_value / build_request_json_schema -----------------------

#[test]
fn json_schema_required_field_appears_in_properties_and_required() {
    let d = doc(
        r#"
paths: {}
components:
  schemas:
    Thing:
      type: object
      required: [name]
      properties:
        name: {type: string}
        age: {type: integer}
"#,
    );
    let json = build_request_json_schema(&d, "Thing").unwrap();
    let value: serde_json::Value = serde_json::from_str(&json).unwrap();
    assert_eq!(value["properties"]["name"], parsed(r#"{"type": "string"}"#));
    assert_eq!(value["properties"]["age"], parsed(r#"{"type": "integer"}"#));
    assert_eq!(value["required"], parsed(r#"["name"]"#));
}

#[test]
fn json_schema_format_is_preserved() {
    let d = doc(
        r#"
paths: {}
components:
  schemas:
    Thing:
      type: object
      properties:
        created:
          type: string
          format: date-time
"#,
    );
    let json = build_request_json_schema(&d, "Thing").unwrap();
    let value: serde_json::Value = serde_json::from_str(&json).unwrap();
    assert_eq!(
        value["properties"]["created"],
        parsed(r#"{"type": "string", "format": "date-time"}"#)
    );
}

#[test]
fn json_schema_read_only_field_excluded_from_properties_and_required() {
    let d = doc(
        r#"
paths: {}
components:
  schemas:
    Thing:
      type: object
      required: [uuid, name]
      properties:
        uuid: {type: string, readOnly: true}
        name: {type: string}
"#,
    );
    let json = build_request_json_schema(&d, "Thing").unwrap();
    let value: serde_json::Value = serde_json::from_str(&json).unwrap();
    assert!(value["properties"].get("uuid").is_none());
    // uuid was in the schema's own `required` list -- dropping the
    // read-only property without also filtering `required` would leave
    // the schema demanding a field it no longer describes at all,
    // rejecting every request.
    assert_eq!(value["required"], parsed(r#"["name"]"#));
}

#[test]
fn json_schema_preserves_every_allof_member_not_just_the_first() {
    let d = doc(
        r#"
paths: {}
components:
  schemas:
    Thing:
      allOf:
        - $ref: '#/components/schemas/Base'
        - $ref: '#/components/schemas/Extra'
    Base:
      type: object
      properties:
        name: {type: string}
    Extra:
      type: object
      properties:
        age: {type: integer}
"#,
    );
    let json = build_request_json_schema(&d, "Thing").unwrap();
    let value: serde_json::Value = serde_json::from_str(&json).unwrap();
    let members = value["allOf"].as_array().unwrap();
    assert_eq!(members.len(), 2, "skeleton_value would take only the first member -- json schema must keep both");
    assert_eq!(members[0]["properties"]["name"], parsed(r#"{"type": "string"}"#));
    assert_eq!(members[1]["properties"]["age"], parsed(r#"{"type": "integer"}"#));
}

#[test]
fn json_schema_enum_field() {
    let d = doc(
        r#"
paths: {}
components:
  schemas:
    Thing:
      type: object
      properties:
        color:
          type: string
          enum: [red, green]
"#,
    );
    let json = build_request_json_schema(&d, "Thing").unwrap();
    let value: serde_json::Value = serde_json::from_str(&json).unwrap();
    assert_eq!(value["properties"]["color"], parsed(r#"{"enum": ["red", "green"]}"#));
}

#[test]
fn json_schema_self_referential_ref_becomes_permissive_true() {
    let d = doc(
        r#"
paths: {}
components:
  schemas:
    Node:
      type: object
      properties:
        parent:
          $ref: '#/components/schemas/Node'
"#,
    );
    let json = build_request_json_schema(&d, "Node").unwrap();
    let value: serde_json::Value = serde_json::from_str(&json).unwrap();
    // Unlike skeleton_value's Null, a cycle here must stay a *valid*
    // schema node -- JSON Schema's `true` means "anything passes," so
    // validation doesn't reject legitimately recursive data it can't
    // fully describe.
    assert_eq!(value["properties"]["parent"], parsed(r#"true"#));
}

#[test]
fn json_schema_depth_cutoff_is_permissive_true_not_null() {
    let d = doc("paths: {}\ncomponents: {}\n");
    let schema = RawSchema { schema_type: Some("string".to_string()), ..Default::default() };
    let mut seen = NameSet::new();
    let value = json_schema_value(&d, &schema, &mut seen, SKELETON_MAX_DEPTH + 1);
    assert_eq!(value, serde_json::Value::Bool(true));
}

#[test]
fn json_schema_array_field() {
    let d = doc(
        r#"
paths: {}
components:
  schemas:
    Thing:
      type: object
      properties:
        tags:
          type: array
          items: {type: string}
"#,
    );
    let json = build_request_json_schema(&d, "Thing").unwrap();
    let value: serde_json::Value = serde_json::from_str(&json).unwrap();
    assert_eq!(
        value["properties"]["tags"],
        parsed(r#"{"type": "array", "items": {"type": "string"}}"#)
    );
}

#[test]
fn json_schema_object_without_properties_is_a_permissive_object() {
    let d = doc(
        r#"
paths: {}
components:
  schemas:
    Thing:
      type: object
      properties:
        metadata:
          type: object
"#,
    );
    let json = build_request_json_schema(&d, "Thing").unwrap();
    let value: serde_json::Value = serde_json::from_str(&json).unwrap();
    assert_eq!(value["properties"]["metadata"], parsed(r#"{"type": "object"}"#));
}

// -- beyond the basics -------------------------------------------------------

#[test]
fn classify_param_without_a_type_is_skipped() {
    let mut untyped = param("string", true);
    untyped.schema.schema_type = None;
    assert!(matches!(classify_param(&untyped), ParamKind::SkippedRequired));
    untyped.required = false;
    assert!(matches!(classify_param(&untyped), ParamKind::SkippedOptional));
}

#[test]
fn extraction_keeps_filters_in_schema_order_and_their_kinds() {
    let d = doc(
        r#"
paths:
  /api/things/:
    get:
      operationId: things_list
      parameters:
        - {name: zone, in: query, schema: {type: string}}
        - {name: page, in: query, schema: {type: integer}}
        - {name: active, in: query, required: true, schema: {type: boolean}}
        - {name: o, in: query, schema: {type: array, items: {$ref: '#/components/schemas/ThingOEnum'}}}
        - {name: X-Header, in: header, schema: {type: string}}
        - {name: amount, in: query, schema: {type: number}}
components: {}
"#,
    );
    let op = extract_operation(&d, "things_list").unwrap();
    let names: Vec<&str> = op.query_params.iter().map(|p| p.name.as_str()).collect();
    assert_eq!(names, vec!["zone", "active", "amount"]);
    assert_eq!(op.query_params[0].kind, ParamKind::OptionalStr);
    assert_eq!(op.query_params[1].kind, ParamKind::RequiredBool);
    assert_eq!(op.query_params[2].kind, ParamKind::SkippedOptional);
    assert!(op.has_order);
    assert_eq!(op.order_enum_name.as_deref(), Some("ThingOEnum"));
    assert_eq!(op.field_enum_name, None);
}

#[test]
fn an_ordering_without_an_enum_is_still_an_ordering() {
    let d = doc(
        r#"
paths:
  /api/customers/:
    get:
      operationId: customers_list
      parameters:
        - {name: o, in: query, schema: {type: string}}
components: {}
"#,
    );
    let op = extract_operation(&d, "customers_list").unwrap();
    assert!(op.has_order);
    assert_eq!(op.order_enum_name, None);
}

#[test]
fn an_unresolvable_parameter_stops_extraction() {
    let d = doc(
        r##"
paths:
  /api/things/:
    get:
      operationId: things_list
      parameters:
        - $ref: '#/components/parameters/Nope'
components: {}
"##,
    );
    let err = extract_operation(&d, "things_list").unwrap_err();
    assert_eq!(
        err.message(),
        "$ref `#/components/parameters/Nope` does not resolve to a known parameter"
    );
}

#[test]
fn error_messages_are_exact() {
    let d = doc("paths: {}\ncomponents: {}\n");
    assert_eq!(
        resolve_param(&d, "#/definitions/Page").unwrap_err().message(),
        "unsupported parameter $ref shape: `#/definitions/Page`"
    );
    assert_eq!(
        extract_operation(&d, "nope").unwrap_err().message(),
        "operationId `nope` not found in OpenAPI schema"
    );
    assert_eq!(
        extract_enum_values(&d, "Nope").unwrap_err().message(),
        "schema `Nope` not found in OpenAPI schema"
    );
    assert_eq!(
        build_request_skeleton(&d, "Nope").unwrap_err().message(),
        "schema `Nope` not found"
    );
    assert_eq!(
        build_request_json_schema(&d, "Nope").unwrap_err().message(),
        "schema `Nope` not found"
    );
    assert_eq!(
        build_order_skeleton(&d, None).unwrap_err().message(),
        "schema `OrderCreateRequest` not found"
    );
}

#[test]
fn multiple_path_params_message_is_exact() {
    let d = doc(
        r#"
paths:
  /api/things/{a}/{b}/:
    get:
      operationId: multi_path
      parameters:
        - {name: a, in: path, required: true, schema: {type: string}}
        - {name: b, in: path, required: true, schema: {type: string}}
components: {}
"#,
    );
    assert_eq!(
        extract_operation(&d, "multi_path").unwrap_err().message(),
        "operation `multi_path` has more than one `in: path` parameter -- this generator only \
         supports a single path parameter per operation"
    );
}

#[test]
fn a_failing_action_names_itself_and_its_path() {
    let d = doc(
        r##"
paths:
  /api/things/{uuid}/start/:
    post:
      operationId: things_start
      parameters:
        - $ref: '#/elsewhere'
components: {}
"##,
    );
    let err = discover_actions(&d, "/api/things/{uuid}/", &[]).unwrap_err();
    assert_eq!(err.message(), "discovering action `start` at `/api/things/{uuid}/start/`");
}

#[test]
fn discovery_skips_nested_resources_and_the_base_itself() {
    let d = doc(
        r#"
paths:
  /api/things/{uuid}/:
    get: {operationId: things_retrieve}
  /api/things/{uuid}/networks/{network_uuid}/:
    get: {operationId: things_networks_retrieve}
  /api/things/{uuid}//:
    post: {operationId: things_slash}
  /api/things/{uuid}/restart:
    post: {operationId: things_restart}
components: {}
"#,
    );
    let actions = discover_actions(&d, "/api/things/{uuid}/", &[]).unwrap();
    let names: Vec<&str> = actions.iter().map(|a| a.name.as_str()).collect();
    assert_eq!(names, vec!["restart"]);
    assert_eq!(actions[0].operation.http_verb, "post");
}

#[test]
fn an_operation_is_found_where_others_share_an_id() {
    for paths in [
        ["/api/a/: {get: {operationId: same}}", "/api/b/: {post: {operationId: one}}"],
        ["/api/b/: {post: {operationId: one}}", "/api/a/: {get: {operationId: same}}"],
    ] {
        let d = doc(&format!(
            "paths:\n  {}\n  {}\n  /api/c/: {{put: {{operationId: same}}}}\ncomponents: {{}}\n",
            paths[0], paths[1]
        ));
        let op = extract_operation(&d, "one").unwrap();
        assert_eq!((op.path.as_str(), op.http_verb.as_str()), ("/api/b/", "post"));
    }
}

#[test]
fn discovery_does_not_depend_on_the_order_of_paths() {
    let forwards = doc(
        r#"
paths:
  /api/t/{uuid}/a/: {post: {operationId: one}}
  /api/t/{uuid}/b/: {post: {operationId: two}}
  /api/t/{uuid}/c/: {post: {operationId: three}}
components: {}
"#,
    );
    let backwards = doc(
        r#"
paths:
  /api/t/{uuid}/c/: {post: {operationId: three}}
  /api/t/{uuid}/b/: {post: {operationId: two}}
  /api/t/{uuid}/a/: {post: {operationId: one}}
components: {}
"#,
    );
    let ids = |d: &OpenApiDoc| -> Vec<String> {
        let actions = discover_actions(d, "/api/t/{uuid}/", &[]).unwrap();
        actions.into_iter().map(|a| a.operation.operation_id).collect()
    };
    assert_eq!(ids(&forwards), vec!["one", "two", "three"]);
    assert_eq!(ids(&forwards), ids(&backwards));
}

#[test]
fn skeleton_text_is_pretty_printed_and_sorted() {
    let d = doc(
        r#"
paths: {}
components:
  schemas:
    Thing:
      type: object
      required: [count, name]
      properties:
        name: {type: string}
        count: {type: integer}
        note: {type: string}
"#,
    );
    assert_eq!(
        build_request_skeleton(&d, "Thing").unwrap(),
        "{\n  \"count\": 0,\n  \"name\": \"\",\n  \"note\": null\n}"
    );
    assert_eq!(
        build_request_json_schema(&d, "Thing").unwrap(),
        "{\"properties\":{\"count\":{\"type\":\"integer\"},\"name\":{\"type\":\"string\"},\
         \"note\":{\"type\":\"string\"}},\"required\":[\"count\",\"name\"],\"type\":\"object\"}"
    );
}

#[test]
fn skeleton_placeholders_of_every_type() {
    let d = doc("paths: {}\ncomponents: {}\n");
    let placeholder = |yaml: &str| {
        let node: Yaml = serde_yaml::from_str(yaml).unwrap();
        skeleton_value(&d, &schema(&node), &mut NameSet::new(), 0)
    };
    assert_eq!(placeholder("{type: string}"), parsed(r#""""#));
    assert_eq!(placeholder("{type: number}"), parsed("0"));
    assert_eq!(placeholder("{type: boolean}"), parsed("false"));
    assert_eq!(placeholder("{type: array}"), parsed("[]"));
    assert_eq!(placeholder("{type: object}"), parsed("{}"));
    assert_eq!(placeholder("{type: nonsense}"), parsed("null"));
    assert_eq!(placeholder("{}"), parsed("null"));
    assert_eq!(placeholder("{$ref: '#/components/schemas/Nope'}"), parsed("null"));
    assert_eq!(placeholder("{oneOf: [{type: boolean}, {type: string}]}"), parsed("false"));
    assert_eq!(placeholder("{allOf: [], anyOf: [{type: string}]}"), parsed(r#""""#));
    assert_eq!(placeholder("{type: string, enum: []}"), parsed(r#""""#));
}

#[test]
fn json_schema_nodes_of_every_type() {
    let d = doc("paths: {}\ncomponents: {}\n");
    let node = |yaml: &str| {
        let node: Yaml = serde_yaml::from_str(yaml).unwrap();
        json_schema_value(&d, &schema(&node), &mut NameSet::new(), 0)
    };
    assert_eq!(node("{type: number}"), parsed(r#"{"type": "number"}"#));
    assert_eq!(node("{type: boolean}"), parsed(r#"{"type": "boolean"}"#));
    assert_eq!(node("{type: array}"), parsed(r#"{"type": "array", "items": true}"#));
    assert_eq!(node("{type: nonsense}"), parsed("true"));
    assert_eq!(node("{}"), parsed("true"));
    assert_eq!(node("{oneOf: [{type: string}]}"), parsed(r#"{"oneOf": [{"type": "string"}]}"#));
    assert_eq!(
        node("{anyOf: [{type: string}, {type: integer}]}"),
        parsed(r#"{"anyOf": [{"type": "string"}, {"type": "integer"}]}"#)
    );
    assert_eq!(node("{allOf: []}"), parsed(r#"{"allOf": []}"#));
}

#[test]
fn templates_and_validation_schemas_describe_the_same_fields() {
    let d = doc(
        r#"
paths: {}
components:
  schemas:
    Thing:
      type: object
      required: [uuid, name]
      properties:
        uuid: {type: string, readOnly: true}
        name: {type: string}
        tags: {type: array, items: {type: string}}
"#,
    );
    let template = parsed(&build_request_skeleton(&d, "Thing").unwrap());
    let described = parsed(&build_request_json_schema(&d, "Thing").unwrap());
    let keys = |value: &serde_json::Value| -> Vec<String> {
        value.as_object().unwrap().keys().cloned().collect()
    };
    assert_eq!(keys(&template), vec!["name", "tags"]);
    assert_eq!(keys(&template), keys(&described["properties"]));
}

#[test]
fn a_reference_can_be_used_twice_side_by_side() {
    let d = doc(
        r#"
paths: {}
components:
  schemas:
    Pair:
      type: object
      required: [left, right]
      properties:
        left: {$ref: '#/components/schemas/Side'}
        right: {$ref: '#/components/schemas/Side'}
    Side:
      type: object
      required: [size]
      properties:
        size: {type: integer}
"#,
    );
    let template = parsed(&build_request_skeleton(&d, "Pair").unwrap());
    assert_eq!(template, parsed(r#"{"left": {"size": 0}, "right": {"size": 0}}"#));
}

#[test]
fn order_skeleton_keeps_the_rest_of_the_envelope() {
    let d = doc(
        r#"
paths: {}
components:
  schemas:
    OrderCreateRequest:
      type: object
      required: [offering]
      properties:
        offering: {type: string}
        attributes: {type: object}
        plan: {type: string}
    GenericOrderAttributes:
      type: object
      properties: {}
"#,
    );
    let template = parsed(&build_order_skeleton(&d, None).unwrap());
    assert_eq!(
        template,
        parsed(
            r#"{"offering": "", "attributes": {}, "plan": null, "accepting_terms_of_service": true}"#
        )
    );
}

#[test]
fn order_skeleton_needs_an_object() {
    let d = doc(
        r#"
paths: {}
components:
  schemas:
    OrderCreateRequest: {type: string}
    GenericOrderAttributes: {type: object}
"#,
    );
    assert_eq!(
        build_order_skeleton(&d, None).unwrap_err().message(),
        "OrderCreateRequest skeleton is not a JSON object"
    );
}

#[test]
fn missing_attributes_message_shows_the_offering_type() {
    let d = doc(
        r#"
paths: {}
components:
  schemas:
    OrderCreateRequest: {type: object, properties: {}}
"#,
    );
    assert_eq!(
        build_order_skeleton(&d, Some("A.B")).unwrap_err().message(),
        "no attributes schema `ABCreateOrderAttributes` for offering type `Some(\"A.B\")`"
    );
    assert_eq!(
        build_order_skeleton(&d, None).unwrap_err().message(),
        "no attributes schema `GenericOrderAttributes` for offering type `None`"
    );
}

#[test]
fn seen_names_are_restored_after_a_walk() {
    let d = doc(
        r#"
paths: {}
components:
  schemas:
    Side: {type: string}
"#,
    );
    let node: Yaml = serde_yaml::from_str("{$ref: '#/components/schemas/Side'}").unwrap();
    let mut seen = NameSet::new();
    seen.insert("Other");
    assert_eq!(skeleton_value(&d, &schema(&node), &mut seen, 0), parsed(r#""""#));
    assert!(seen.contains("Other"));
    assert!(!seen.contains("Side"));
    assert_eq!(
        json_schema_value(&d, &schema(&node), &mut seen, 0),
        parsed(r#"{"type": "string"}"#)
    );
    assert!(!seen.contains("Side"));
}

#[test]
fn templates_do_not_depend_on_the_order_of_names() {
    let forwards = doc(
        r#"
paths: {}
components:
  schemas:
    Thing:
      type: object
      required: [a, b]
      properties:
        a: {$ref: '#/components/schemas/Other'}
        b: {type: integer}
    Other:
      type: object
      required: [x]
      properties:
        x: {type: string}
        y: {type: string}
"#,
    );
    let backwards = doc(
        r#"
paths: {}
components:
  schemas:
    Other:
      type: object
      required: [x]
      properties:
        y: {type: string}
        x: {type: string}
    Thing:
      type: object
      required: [a, b]
      properties:
        b: {type: integer}
        a: {$ref: '#/components/schemas/Other'}
"#,
    );
    assert_eq!(
        build_request_skeleton(&forwards, "Thing").unwrap(),
        build_request_skeleton(&backwards, "Thing").unwrap()
    );
    assert_eq!(
        build_request_json_schema(&forwards, "Thing").unwrap(),
        build_request_json_schema(&backwards, "Thing").unwrap()
    );
}

#[test]
fn a_raw_template_gives_every_required_field() {
    let d = doc(
        r#"
paths: {}
components:
  schemas:
    Thing:
      type: object
      required: [kind, name, uuid]
      properties:
        uuid: {type: string, readOnly: true}
        kind: {allOf: [{$ref: '#/components/schemas/Kind'}]}
        name: {type: string}
        note: {type: string, format: date}
    Kind:
      enum: [small, large]
"#,
    );
    let template = parsed(&build_request_skeleton(&d, "Thing").unwrap());
    let described = parsed(&build_request_json_schema(&d, "Thing").unwrap());
    for name in described["required"].as_array().unwrap() {
        assert!(!template[name.as_str().unwrap()].is_null());
    }
    assert_eq!(template, parsed(r#"{"kind": "small", "name": "", "note": null}"#));
    assert_eq!(
        described,
        parsed(
            r#"{"type": "object", "required": ["kind", "name"], "properties": {
                "kind": {"allOf": [{"enum": ["small", "large"]}]},
                "name": {"type": "string"},
                "note": {"type": "string", "format": "date"}}}"#
        )
    );
}

#[test]
fn actions_of_one_name_are_ordered_by_path_and_verb() {
    let forwards = doc(
        r#"
paths:
  /api/t/{uuid}/go: {put: {operationId: bare}}
  /api/t/{uuid}/go/: {get: {operationId: read}, post: {operationId: write}}
components: {}
"#,
    );
    let backwards = doc(
        r#"
paths:
  /api/t/{uuid}/go/: {post: {operationId: write}, get: {operationId: read}}
  /api/t/{uuid}/go: {put: {operationId: bare}}
components: {}
"#,
    );
    for d in [forwards, backwards] {
        let actions = discover_actions(&d, "/api/t/{uuid}/", &[]).unwrap();
        let ids: Vec<&str> =
            actions.iter().map(|a| a.operation.operation_id.as_str()).collect();
        assert_eq!(ids, vec!["bare", "read", "write"]);
    }
}

#[test]
fn combinators_side_by_side_are_all_kept() {
    let d = doc("paths: {}\ncomponents: {}\n");
    let node: Yaml = serde_yaml::from_str(
        "{allOf: [{type: string}], oneOf: [{enum: [a]}, {enum: [b]}], anyOf: [{type: integer}, {}]}",
    )
    .unwrap();
    assert_eq!(
        json_schema_value(&d, &schema(&node), &mut NameSet::new(), 0),
        parsed(
            r#"{"allOf": [{"type": "string"}], "oneOf": [{"enum": ["a"]}, {"enum": ["b"]}],
                "anyOf": [{"type": "integer"}, true]}"#
        )
    );
}
