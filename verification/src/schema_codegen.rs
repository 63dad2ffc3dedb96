//! The command schema: every command of waldur-cli as JSON, with its path, description,
//! parameters, output columns and request template, so that the `schema` command can
//! serve it without access to the API schema.
use crate::codegen;
use crate::codegen::Inputs;
use crate::error::NotExtracted;
use crate::json;
use crate::json::{array, boolean, no_members, object, put, read, string, strings, write_pretty, Json};
use crate::manifest;
use crate::manifest::{own_verb_names, Group, Manifest, Resource, KNOWN_VERBS};
use crate::rust_text;
use crate::rust_text::string_literal;
use crate::schema;
use crate::schema::{filter_kind_str, ExtractedOperation, ExtractedParam, Operation, Param};
use crate::table::Table;
use crate::text;
use crate::text::{capitalize, same};
use crate::verb_codegen;
use vstd::prelude::*;
use vstd::string::*;

verus! {

/// No members.
pub open spec fn empty() -> Map<Seq<char>, Json> {
    Map::<Seq<char>, Json>::empty()
}

/// The members that every parameter of a command has.
pub open spec fn parameter(name: Seq<char>, kind: Seq<char>, description: Seq<char>) -> Map<
    Seq<char>,
    Json,
> {
    empty().insert("name"@, Json::Str(name)).insert("type"@, Json::Str(kind)).insert(
        "description"@,
        Json::Str(description),
    )
}

fn parameter_members(name: &str, kind: &str, description: &str) -> (members: serde_json::Map<
    String,
    serde_json::Value,
>)
    ensures
        json::members_of(members) == parameter(name@, kind@, description@),
{
    let mut members = no_members();
    put(&mut members, "name", string(name));
    put(&mut members, "type", string(kind));
    put(&mut members, "description", string(description));
    members
}

/// A flag without anything special.
pub open spec fn plain_flag(name: Seq<char>, kind: Seq<char>, description: Seq<char>) -> Json {
    Json::Object(parameter(name, kind, description))
}

fn plain_flag_value(name: &str, kind: &str, description: &str) -> (value: serde_json::Value)
    ensures
        json::json_of(value) == plain_flag(name@, kind@, description@),
{
    object(parameter_members(name, kind, description))
}

/// A flag with a fixed list of values.
pub open spec fn choice_flag(
    name: Seq<char>,
    kind: Seq<char>,
    description: Seq<char>,
    values: Seq<Seq<char>>,
) -> Json {
    Json::Object(
        parameter(name, kind, description).insert("valid_values"@, json::json_strings(values)),
    )
}

fn choice_flag_value(
    name: &str,
    kind: &str,
    description: &str,
    values: &Vec<String>,
) -> (value: serde_json::Value)
    ensures
        json::json_of(value) == choice_flag(name@, kind@, description@, text::texts(values@)),
{
    let mut members = parameter_members(name, kind, description);
    put(&mut members, "valid_values", strings(values));
    object(members)
}

/// A positional argument.
pub open spec fn positional(name: Seq<char>, required: bool, description: Seq<char>) -> Map<
    Seq<char>,
    Json,
> {
    parameter(name, "string"@, description).insert("positional"@, Json::Bool(true)).insert(
        "required"@,
        Json::Bool(required),
    )
}

fn positional_members(name: &str, required: bool, description: &str) -> (members: serde_json::Map<
    String,
    serde_json::Value,
>)
    ensures
        json::members_of(members) == positional(name@, required, description@),
{
    let mut members = parameter_members(name, "string", description);
    put(&mut members, "positional", boolean(true));
    put(&mut members, "required", boolean(required));
    members
}

/// Adds a value to a list of values.
fn append_value(values: &mut Vec<serde_json::Value>, value: serde_json::Value)
    ensures
        json::jsons_of(final(values)@) == json::jsons_of(old(values)@).push(json::json_of(value)),
{
    let ghost before = json::jsons_of(values@);
    values.push(value);
    assert(json::jsons_of(values@) =~= before.push(json::json_of(value)));
}

/// The formats of a request template.
pub open spec fn skeleton_formats() -> Seq<Seq<char>> {
    seq!["json"@, "yaml"@]
}

fn skeleton_format_names() -> (names: Vec<String>)
    ensures
        text::texts(names@) == skeleton_formats(),
{
    let mut names: Vec<String> = Vec::new();
    names.push("json".to_string());
    names.push("yaml".to_string());
    assert(text::texts(names@) =~= skeleton_formats());
    names
}

/// The output formats.
pub open spec fn output_formats() -> Seq<Seq<char>> {
    seq!["table"@, "json"@, "tsv"@, "toon"@, "ndjson"@]
}

fn output_format_names() -> (names: Vec<String>)
    ensures
        text::texts(names@) == output_formats(),
{
    let mut names: Vec<String> = Vec::new();
    names.push("table".to_string());
    names.push("json".to_string());
    names.push("tsv".to_string());
    names.push("toon".to_string());
    names.push("ndjson".to_string());
    assert(text::texts(names@) =~= output_formats());
    names
}

/// The `--format` flag, which every command has.
pub open spec fn format_flag() -> Json {
    Json::Object(
        parameter("--format"@, "string"@, "Output format"@).insert(
            "valid_values"@,
            json::json_strings(output_formats()),
        ).insert("global"@, Json::Bool(true)),
    )
}

fn format_flag_value() -> (value: serde_json::Value)
    ensures
        json::json_of(value) == format_flag(),
{
    let mut members = parameter_members("--format", "string", "Output format");
    put(&mut members, "valid_values", strings(&output_format_names()));
    put(&mut members, "global", boolean(true));
    object(members)
}

/// A filter key and the type of its values.
pub open spec fn filter_key(param: Param) -> Json {
    Json::Object(
        empty().insert("key"@, Json::Str(param.name)).insert(
            "type"@,
            Json::Str(schema::filter_type(param.kind)->0),
        ),
    )
}

/// The filter keys of a list of parameters.
pub open spec fn filter_keys(params: Seq<Param>) -> Seq<Json> {
    schema::filter_params(params).map_values(|param: Param| filter_key(param))
}

fn filter_key_values(params: &Vec<ExtractedParam>) -> (keys: Vec<serde_json::Value>)
    ensures
        json::jsons_of(keys@) == filter_keys(schema::params_of(params@)),
{
    let ghost all = schema::params_of(params@);
    let mut keys: Vec<serde_json::Value> = Vec::new();
    proof {
        reveal(Seq::filter);
        assert(json::jsons_of(keys@) =~= filter_keys(all.take(0)));
    }
    for i in 0..params.len()
        invariant
            all == schema::params_of(params@),
            json::jsons_of(keys@) == filter_keys(all.take(i as int)),
    {
        let param = &params[i];
        let ghost before = json::jsons_of(keys@);
        proof {
            reveal(Seq::filter);
            assert(all.take(i + 1).drop_last() =~= all.take(i as int));
            assert(all.take(i + 1).last() == param@);
        }
        match filter_kind_str(param.kind) {
            Some(kind) => {
                let mut members = no_members();
                put(&mut members, "key", string(param.name.as_str()));
                put(&mut members, "type", string(kind));
                append_value(&mut keys, object(members));
                assert(filter_keys(all.take(i + 1)) =~= before.push(filter_key(param@)));
            },
            None => {
                assert(filter_keys(all.take(i + 1)) =~= before);
            },
        }
    }
    assert(all.take(all.len() as int) =~= all);
    keys
}

/// The `--filter` flag: nothing where there is no key to filter by.
pub open spec fn filter_flag(params: Seq<Param>) -> Seq<Json> {
    if filter_keys(params).len() == 0 {
        Seq::empty()
    } else {
        Seq::<Json>::empty().push(
            Json::Object(
                parameter("--filter"@, "KEY=VALUE"@, "Server-side filter"@).insert(
                    "repeatable"@,
                    Json::Bool(true),
                ).insert("valid_keys"@, Json::Array(filter_keys(params))),
            ),
        )
    }
}

/// The `--fields` flag, with its valid values where they are known.
pub open spec fn fields_flag(values: Option<Seq<Seq<char>>>) -> Json {
    let members = parameter(
        "--fields"@,
        "string"@,
        "Fetch only these fields from the API"@,
    ).insert("repeatable"@, Json::Bool(true));
    match values {
        Some(names) => Json::Object(members.insert("valid_values"@, json::json_strings(names))),
        None => Json::Object(members),
    }
}

fn fields_flag_value(
    op: &ExtractedOperation,
    field_enum_values: &Table<Vec<String>>,
) -> (value: serde_json::Value)
    ensures
        json::json_of(value) == fields_flag(
            verb_codegen::known_fields(op@, field_enum_values@),
        ),
{
    let mut members = parameter_members(
        "--fields",
        "string",
        "Fetch only these fields from the API",
    );
    put(&mut members, "repeatable", boolean(true));
    let values = match &op.field_enum_name {
        Some(name) => field_enum_values.get(name.as_str()),
        None => None,
    };
    if let Some(names) = values {
        put(&mut members, "valid_values", strings(names));
    }
    object(members)
}

/// How `--jmespath` is described.
pub const JMESPATH_HELP: &'static str = "JMESPath expression for client-side output reshaping";

/// The parameters of `list`.
pub open spec fn list_params(
    op: Operation,
    field_values: Map<Seq<char>, Vec<String>>,
) -> Seq<Json> {
    filter_flag(op.query_params).push(
        fields_flag(verb_codegen::known_fields(op, field_values)),
    ).push(plain_flag("--jmespath"@, "string"@, JMESPATH_HELP@)).push(
        plain_flag("--limit"@, "integer"@, "Maximum number of items to return"@),
    )
}

fn list_param_values(
    op: &ExtractedOperation,
    field_enum_values: &Table<Vec<String>>,
) -> (params: Vec<serde_json::Value>)
    ensures
        json::jsons_of(params@) == list_params(op@, field_enum_values@),
{
    let mut params: Vec<serde_json::Value> = Vec::new();
    assert(json::jsons_of(params@) =~= Seq::<Json>::empty());
    let keys = filter_key_values(&op.query_params);
    if keys.len() > 0 {
        let mut members = parameter_members("--filter", "KEY=VALUE", "Server-side filter");
        put(&mut members, "repeatable", boolean(true));
        put(&mut members, "valid_keys", array(keys));
        append_value(&mut params, object(members));
    } else {
        assert(json::jsons_of(keys@).len() == 0);
    }
    append_value(&mut params, fields_flag_value(op, field_enum_values));
    append_value(&mut params, plain_flag_value("--jmespath", "string", JMESPATH_HELP));
    append_value(
        &mut params,
        plain_flag_value("--limit", "integer", "Maximum number of items to return"),
    );
    params
}

/// The parameters of `get` and `delete`: the path parameter, where there is one.
pub open spec fn uuid_params(op: Operation) -> Seq<Json> {
    match op.path_param {
        Some(name) => Seq::<Json>::empty().push(
            Json::Object(positional(name, true, name + " of the resource"@)),
        ),
        None => Seq::empty(),
    }
}

fn uuid_param_values(op: &ExtractedOperation) -> (params: Vec<serde_json::Value>)
    ensures
        json::jsons_of(params@) == uuid_params(op@),
{
    let mut params: Vec<serde_json::Value> = Vec::new();
    assert(json::jsons_of(params@) =~= Seq::<Json>::empty());
    if let Some(name) = &op.path_param {
        let description = name.clone().concat(" of the resource");
        append_value(
            &mut params,
            object(positional_members(name.as_str(), true, description.as_str())),
        );
    }
    params
}

/// The parameters of `create` and `update`: the three ways to give a request body, and
/// for `update` the path parameter before them.
pub open spec fn body_params(verb: Seq<char>, op: Operation) -> Seq<Json> {
    let first = if verb == "update"@ && op.path_param is Some {
        Seq::<Json>::empty().push(
            Json::Object(
                positional(
                    op.path_param->0,
                    false,
                    op.path_param->0 + " of the resource (required unless --generate-skeleton)"@,
                ),
            ),
        )
    } else {
        Seq::empty()
    };
    first.push(plain_flag("--request"@, "json"@, "Request body as inline JSON"@)).push(
        plain_flag(
            "--request-file"@,
            "path"@,
            "Read the request body from a JSON or YAML file"@,
        ),
    ).push(
        choice_flag(
            "--generate-skeleton"@,
            "enum"@,
            "Print a fillable request-body template and exit"@,
            skeleton_formats(),
        ),
    )
}

fn body_param_values(verb: &str, op: &ExtractedOperation) -> (params: Vec<serde_json::Value>)
    ensures
        json::jsons_of(params@) == body_params(verb@, op@),
{
    let mut params: Vec<serde_json::Value> = Vec::new();
    assert(json::jsons_of(params@) =~= Seq::<Json>::empty());
    if same(verb, "update") {
        if let Some(name) = &op.path_param {
            let description = name.clone().concat(
                " of the resource (required unless --generate-skeleton)",
            );
            append_value(
                &mut params,
                object(positional_members(name.as_str(), false, description.as_str())),
            );
        }
    }
    append_value(&mut params, plain_flag_value("--request", "json", "Request body as inline JSON"));
    append_value(
        &mut params,
        plain_flag_value(
            "--request-file",
            "path",
            "Read the request body from a JSON or YAML file",
        ),
    );
    append_value(
        &mut params,
        choice_flag_value(
            "--generate-skeleton",
            "enum",
            "Print a fillable request-body template and exit",
            &skeleton_format_names(),
        ),
    );
    params
}

/// The parameters of a verb.
pub open spec fn verb_params(
    verb: Seq<char>,
    op: Operation,
    field_values: Map<Seq<char>, Vec<String>>,
) -> Seq<Json> {
    if verb == "list"@ {
        list_params(op, field_values).push(format_flag())
    } else if verb_codegen::has_body(verb) {
        body_params(verb, op).push(format_flag())
    } else {
        uuid_params(op).push(format_flag())
    }
}

fn verb_param_values(
    verb: &str,
    op: &ExtractedOperation,
    field_enum_values: &Table<Vec<String>>,
) -> (params: Vec<serde_json::Value>)
    ensures
        json::jsons_of(params@) == verb_params(verb@, op@, field_enum_values@),
{
    let mut params = if same(verb, "list") {
        list_param_values(op, field_enum_values)
    } else if same(verb, "create") || same(verb, "update") {
        body_param_values(verb, op)
    } else {
        uuid_param_values(op)
    };
    append_value(&mut params, format_flag_value());
    params
}

/// What a command prints: the columns of a list.
pub open spec fn output_info(columns: Seq<Seq<char>>) -> Json {
    Json::Object(
        empty().insert("type"@, Json::Str("array"@)).insert(
            "default_columns"@,
            json::json_strings(columns),
        ),
    )
}

/// The path of a command.
pub open spec fn command_path(group: Seq<char>, resource: Seq<char>, verb: Seq<char>) -> Json {
    json::json_strings(seq![group, resource, verb])
}

fn command_path_value(group: &str, resource: &str, verb: &str) -> (value: serde_json::Value)
    ensures
        json::json_of(value) == command_path(group@, resource@, verb@),
{
    let mut path: Vec<String> = Vec::new();
    path.push(group.to_string());
    path.push(resource.to_string());
    path.push(verb.to_string());
    assert(text::texts(path@) =~= seq![group@, resource@, verb@]);
    strings(&path)
}

/// The template of a request body as JSON: what the template of that name reads as,
/// where there is one and it reads as JSON.
pub open spec fn embedded_template(
    name: Option<Seq<char>>,
    skeletons: Map<Seq<char>, String>,
) -> Option<Json> {
    match name {
        Some(key) => if skeletons.contains_key(key) {
            json::parsed_json(skeletons[key]@)
        } else {
            None
        },
        None => None,
    }
}

fn embed_template(name: &Option<String>, skeletons: &Table<String>) -> (value: Option<
    serde_json::Value,
>)
    ensures
        match value {
            Some(template) => embedded_template(text::opt_text(*name), skeletons@) == Some(
                json::json_of(template),
            ),
            None => embedded_template(text::opt_text(*name), skeletons@) is None,
        },
{
    match name {
        Some(key) => match skeletons.get(key.as_str()) {
            Some(skeleton) => read(skeleton.as_str()),
            None => None,
        },
        None => None,
    }
}

/// The description of a verb of a resource.
pub open spec fn verb_command(
    group: Seq<char>,
    resource: Resource,
    verb: Seq<char>,
    op: Operation,
    field_values: Map<Seq<char>, Vec<String>>,
    skeletons: Map<Seq<char>, String>,
) -> Map<Seq<char>, Json> {
    let members = empty().insert("path"@, command_path(group, resource.name@, verb)).insert(
        "description"@,
        Json::Str(text::capitalized(verb) + " "@ + text::lowercase(resource.about@)),
    ).insert("type"@, Json::Str(verb)).insert("api_endpoint"@, Json::Str(op.path)).insert(
        "http_method"@,
        Json::Str(text::uppercase(op.http_verb)),
    ).insert("parameters"@, Json::Array(verb_params(verb, op, field_values)));
    let template = embedded_template(op.request_body_type, skeletons);
    if verb == "list"@ && resource.columns@.len() > 0 {
        members.insert("output"@, output_info(text::texts(resource.columns@)))
    } else if verb_codegen::has_body(verb) && template is Some {
        members.insert("request_skeleton"@, template->0)
    } else {
        members
    }
}

/// Describes a verb of a resource.
pub fn describe_verb(
    group: &str,
    resource: &Resource,
    verb: &str,
    op: &ExtractedOperation,
    field_enum_values: &Table<Vec<String>>,
    request_skeletons: &Table<String>,
) -> (value: serde_json::Value)
    ensures
        json::json_of(value) == Json::Object(
            verb_command(
                group@,
                *resource,
                verb@,
                op@,
                field_enum_values@,
                request_skeletons@,
            ),
        ),
{
    proof {
        manifest::known_verbs_differ();
    }
    let mut members = no_members();
    put(&mut members, "path", command_path_value(group, resource.name.as_str(), verb));
    let description = capitalize(verb).concat(" ").concat(
        resource.about.as_str().to_lowercase().as_str(),
    );
    put(&mut members, "description", string(description.as_str()));
    put(&mut members, "type", string(verb));
    put(&mut members, "api_endpoint", string(op.path.as_str()));
    put(&mut members, "http_method", string(op.http_verb.as_str().to_uppercase().as_str()));
    put(&mut members, "parameters", array(verb_param_values(verb, op, field_enum_values)));
    if same(verb, "list") && resource.columns.len() > 0 {
        let mut output = no_members();
        put(&mut output, "type", string("array"));
        put(&mut output, "default_columns", strings(&resource.columns));
        put(&mut members, "output", object(output));
    }
    if same(verb, "create") || same(verb, "update") {
        if let Some(template) = embed_template(&op.request_body_type, request_skeletons) {
            put(&mut members, "request_skeleton", template);
        }
    }
    object(members)
}

/// How the waiting time of an order is described.
pub const ORDER_TIMEOUT: &'static str = "Seconds to wait for the order to complete (default: 600)";

/// The parameters of `provision`.
pub open spec fn provision_params() -> Seq<Json> {
    Seq::<Json>::empty().push(
        plain_flag("--request"@, "json"@, "The marketplace order body as inline JSON"@),
    ).push(
        plain_flag("--request-file"@, "path"@, "Read the order body from a JSON or YAML file"@),
    ).push(
        choice_flag(
            "--generate-skeleton"@,
            "enum"@,
            "Print a fillable order template and exit"@,
            skeleton_formats(),
        ),
    ).push(
        plain_flag("--no-wait"@, "boolean"@, "Submit the order and return immediately"@),
    ).push(plain_flag("--timeout"@, "integer"@, ORDER_TIMEOUT@)).push(format_flag())
}

fn provision_param_values() -> (params: Vec<serde_json::Value>)
    ensures
        json::jsons_of(params@) == provision_params(),
{
    let mut params: Vec<serde_json::Value> = Vec::new();
    assert(json::jsons_of(params@) =~= Seq::<Json>::empty());
    append_value(
        &mut params,
        plain_flag_value("--request", "json", "The marketplace order body as inline JSON"),
    );
    append_value(
        &mut params,
        plain_flag_value("--request-file", "path", "Read the order body from a JSON or YAML file"),
    );
    append_value(
        &mut params,
        choice_flag_value(
            "--generate-skeleton",
            "enum",
            "Print a fillable order template and exit",
            &skeleton_format_names(),
        ),
    );
    append_value(
        &mut params,
        plain_flag_value("--no-wait", "boolean", "Submit the order and return immediately"),
    );
    append_value(&mut params, plain_flag_value("--timeout", "integer", ORDER_TIMEOUT));
    append_value(&mut params, format_flag_value());
    params
}

/// The parameters of `terminate`.
pub open spec fn terminate_params() -> Seq<Json> {
    Seq::<Json>::empty().push(
        Json::Object(positional("uuid"@, true, "Marketplace resource UUID"@)),
    ).push(
        plain_flag("--request"@, "json"@, "Optional termination attributes as inline JSON"@),
    ).push(plain_flag("--no-wait"@, "boolean"@, "Submit and return immediately"@)).push(
        plain_flag("--timeout"@, "integer"@, "Seconds to wait for termination (default: 600)"@),
    ).push(format_flag())
}

fn terminate_param_values() -> (params: Vec<serde_json::Value>)
    ensures
        json::jsons_of(params@) == terminate_params(),
{
    let mut params: Vec<serde_json::Value> = Vec::new();
    assert(json::jsons_of(params@) =~= Seq::<Json>::empty());
    append_value(
        &mut params,
        object(positional_members("uuid", true, "Marketplace resource UUID")),
    );
    append_value(
        &mut params,
        plain_flag_value("--request", "json", "Optional termination attributes as inline JSON"),
    );
    append_value(
        &mut params,
        plain_flag_value("--no-wait", "boolean", "Submit and return immediately"),
    );
    append_value(
        &mut params,
        plain_flag_value("--timeout", "integer", "Seconds to wait for termination (default: 600)"),
    );
    append_value(&mut params, format_flag_value());
    params
}

/// The members of a command that has no API endpoint of its own.
pub open spec fn command_members(
    path: Json,
    description: Seq<char>,
    kind: Seq<char>,
    params: Seq<Json>,
) -> Map<Seq<char>, Json> {
    empty().insert("path"@, path).insert("description"@, Json::Str(description)).insert(
        "type"@,
        Json::Str(kind),
    ).insert("parameters"@, Json::Array(params))
}

fn command_member_values(
    path: serde_json::Value,
    description: &str,
    kind: &str,
    params: Vec<serde_json::Value>,
) -> (members: serde_json::Map<String, serde_json::Value>)
    ensures
        json::members_of(members) == command_members(
            json::json_of(path),
            description@,
            kind@,
            json::jsons_of(params@),
        ),
{
    let mut members = no_members();
    put(&mut members, "path", path);
    put(&mut members, "description", string(description));
    put(&mut members, "type", string(kind));
    put(&mut members, "parameters", array(params));
    members
}

/// The description of `provision`, with the order template where it reads as JSON.
pub open spec fn provision_command(
    group: Seq<char>,
    resource: Resource,
    order_skeletons: Map<Seq<char>, String>,
) -> Map<Seq<char>, Json> {
    let members = command_members(
        command_path(group, resource.name@, "provision"@),
        "Provision "@ + text::lowercase(resource.about@) + " via a marketplace order"@,
        "provision"@,
        provision_params(),
    );
    match embedded_template(Some(resource.name@), order_skeletons) {
        Some(template) => members.insert("request_skeleton"@, template),
        None => members,
    }
}

/// The description of `terminate`.
pub open spec fn terminate_command(group: Seq<char>, resource: Resource) -> Map<Seq<char>, Json> {
    command_members(
        command_path(group, resource.name@, "terminate"@),
        "Terminate "@ + text::lowercase(resource.about@) + " via a marketplace order"@,
        "terminate"@,
        terminate_params(),
    )
}

fn describe_provision(
    group: &str,
    resource: &Resource,
    order_skeletons: &Table<String>,
) -> (value: serde_json::Value)
    ensures
        json::json_of(value) == Json::Object(
            provision_command(group@, *resource, order_skeletons@),
        ),
{
    let description = "Provision ".to_string().concat(
        resource.about.as_str().to_lowercase().as_str(),
    ).concat(" via a marketplace order");
    let mut members = command_member_values(
        command_path_value(group, resource.name.as_str(), "provision"),
        description.as_str(),
        "provision",
        provision_param_values(),
    );
    if let Some(template) = embed_template(&Some(resource.name.clone()), order_skeletons) {
        put(&mut members, "request_skeleton", template);
    }
    object(members)
}

fn describe_terminate(group: &str, resource: &Resource) -> (value: serde_json::Value)
    ensures
        json::json_of(value) == Json::Object(terminate_command(group@, *resource)),
{
    let description = "Terminate ".to_string().concat(
        resource.about.as_str().to_lowercase().as_str(),
    ).concat(" via a marketplace order");
    object(
        command_member_values(
            command_path_value(group, resource.name.as_str(), "terminate"),
            description.as_str(),
            "terminate",
            terminate_param_values(),
        ),
    )
}

/// The descriptions of the first `n` known verbs of a resource, or the first operation
/// that was not extracted.
pub open spec fn verb_commands(
    group: Seq<char>,
    resource: Resource,
    inputs: Inputs,
    n: nat,
) -> Result<Seq<Json>, NotExtracted<Seq<char>>>
    decreases n,
{
    if n == 0 {
        Ok(Seq::empty())
    } else {
        let verb = manifest::verb_at(n - 1);
        match verb_commands(group, resource, inputs, (n - 1) as nat) {
            Err(error) => Err(error),
            Ok(before) => if !resource.commands@.contains_key(verb) {
                Ok(before)
            } else {
                let operation_id = resource.commands@[verb]@;
                if !inputs.operations.contains_key(operation_id) {
                    Err(NotExtracted { operation_id, group, resource: resource.name@, verb })
                } else {
                    Ok(
                        before.push(
                            Json::Object(
                                verb_command(
                                    group,
                                    resource,
                                    verb,
                                    inputs.operations[operation_id]@,
                                    inputs.field_values,
                                    inputs.request_skeletons,
                                ),
                            ),
                        ),
                    )
                }
            },
        }
    }
}

/// The descriptions of the commands of a resource.
pub open spec fn resource_commands(group: Seq<char>, resource: Resource, inputs: Inputs) -> Result<
    Seq<Json>,
    NotExtracted<Seq<char>>,
> {
    match verb_commands(group, resource, inputs, 5) {
        Err(error) => Err(error),
        Ok(verbs) => if resource.order is Some {
            Ok(
                verbs.push(
                    Json::Object(provision_command(group, resource, inputs.order_skeletons)),
                ).push(Json::Object(terminate_command(group, resource))),
            )
        } else {
            Ok(verbs)
        },
    }
}

/// The descriptions of the commands of the resources of a group.
pub open spec fn group_commands(
    group: Seq<char>,
    resources: Seq<Resource>,
    inputs: Inputs,
) -> Result<Seq<Json>, NotExtracted<Seq<char>>>
    decreases resources.len(),
{
    if resources.len() == 0 {
        Ok(Seq::empty())
    } else {
        match group_commands(group, resources.drop_last(), inputs) {
            Err(error) => Err(error),
            Ok(before) => match resource_commands(group, resources.last(), inputs) {
                Err(error) => Err(error),
                Ok(commands) => Ok(before + commands),
            },
        }
    }
}

/// The descriptions of the commands of all groups.
pub open spec fn all_commands(groups: Seq<Group>, inputs: Inputs) -> Result<
    Seq<Json>,
    NotExtracted<Seq<char>>,
>
    decreases groups.len(),
{
    if groups.len() == 0 {
        Ok(Seq::empty())
    } else {
        match all_commands(groups.drop_last(), inputs) {
            Err(error) => Err(error),
            Ok(before) => match group_commands(
                groups.last().name@,
                groups.last().resource@,
                inputs,
            ) {
                Err(error) => Err(error),
                Ok(commands) => Ok(before + commands),
            },
        }
    }
}

proof fn lemma_verb_failure_stays(
    group: Seq<char>,
    resource: Resource,
    inputs: Inputs,
    few: nat,
    many: nat,
)
    requires
        few <= many,
        verb_commands(group, resource, inputs, few) is Err,
    ensures
        verb_commands(group, resource, inputs, many) == verb_commands(
            group,
            resource,
            inputs,
            few,
        ),
    decreases many,
{
    if few < many {
        lemma_verb_failure_stays(group, resource, inputs, few, (many - 1) as nat);
    }
}

proof fn lemma_resource_failure_stays(
    group: Seq<char>,
    resources: Seq<Resource>,
    inputs: Inputs,
    i: int,
)
    requires
        0 <= i <= resources.len(),
        group_commands(group, resources.take(i), inputs) is Err,
    ensures
        group_commands(group, resources, inputs) == group_commands(
            group,
            resources.take(i),
            inputs,
        ),
    decreases resources.len() - i,
{
    if i < resources.len() {
        assert(resources.take(i + 1).drop_last() =~= resources.take(i));
        lemma_resource_failure_stays(group, resources, inputs, i + 1);
    } else {
        assert(resources.take(i) =~= resources);
    }
}

proof fn lemma_group_failure_stays(groups: Seq<Group>, inputs: Inputs, i: int)
    requires
        0 <= i <= groups.len(),
        all_commands(groups.take(i), inputs) is Err,
    ensures
        all_commands(groups, inputs) == all_commands(groups.take(i), inputs),
    decreases groups.len() - i,
{
    if i < groups.len() {
        assert(groups.take(i + 1).drop_last() =~= groups.take(i));
        lemma_group_failure_stays(groups, inputs, i + 1);
    } else {
        assert(groups.take(i) =~= groups);
    }
}

/// Adds the descriptions of a resource's commands to `commands`.
fn describe_resource(
    group: &str,
    resource: &Resource,
    operations: &Table<ExtractedOperation>,
    field_enum_values: &Table<Vec<String>>,
    request_skeletons: &Table<String>,
    order_skeletons: &Table<String>,
    commands: &mut Vec<serde_json::Value>,
) -> (result: Result<(), NotExtracted>)
    ensures
        ({
            let inputs = codegen::inputs_of(
                *operations,
                *field_enum_values,
                *request_skeletons,
                *order_skeletons,
            );
            let made = resource_commands(group@, *resource, inputs);
            match result {
                Ok(()) => made is Ok && json::jsons_of(final(commands)@) == json::jsons_of(
                    old(commands)@,
                ) + made->Ok_0,
                Err(error) => made == Err::<Seq<Json>, NotExtracted<Seq<char>>>(error.model()),
            }
        }),
{
    let ghost inputs = codegen::inputs_of(
        *operations,
        *field_enum_values,
        *request_skeletons,
        *order_skeletons,
    );
    let ghost start = json::jsons_of(commands@);
    assert(json::jsons_of(commands@) =~= start + Seq::<Json>::empty());
    for i in 0..5usize
        invariant
            inputs == codegen::inputs_of(
                *operations,
                *field_enum_values,
                *request_skeletons,
                *order_skeletons,
            ),
            start == json::jsons_of(old(commands)@),
            verb_commands(group@, *resource, inputs, i as nat) is Ok,
            json::jsons_of(commands@) == start + verb_commands(
                group@,
                *resource,
                inputs,
                i as nat,
            )->Ok_0,
    {
        let verb = KNOWN_VERBS[i];
        assert(verb@ == manifest::verb_at(i as int));
        if let Some(operation_id) = resource.commands.get(verb) {
            match operations.get(operation_id.as_str()) {
                Some(op) => {
                    append_value(
                        commands,
                        describe_verb(
                            group,
                            resource,
                            verb,
                            op,
                            field_enum_values,
                            request_skeletons,
                        ),
                    );
                    assert(json::jsons_of(commands@) =~= start + verb_commands(
                        group@,
                        *resource,
                        inputs,
                        (i + 1) as nat,
                    )->Ok_0);
                },
                None => {
                    proof {
                        lemma_verb_failure_stays(group@, *resource, inputs, (i + 1) as nat, 5);
                    }
                    return Err(
                        NotExtracted {
                            operation_id: operation_id.clone(),
                            group: group.to_string(),
                            resource: resource.name.clone(),
                            verb: verb.to_string(),
                        },
                    );
                },
            }
        }
    }
    if resource.order.is_some() {
        append_value(commands, describe_provision(group, resource, order_skeletons));
        append_value(commands, describe_terminate(group, resource));
        assert(json::jsons_of(commands@) =~= start + resource_commands(
            group@,
            *resource,
            inputs,
        )->Ok_0);
    }
    Ok(())
}

/// Adds the descriptions of a group's commands to `commands`.
fn describe_group(
    group: &Group,
    operations: &Table<ExtractedOperation>,
    field_enum_values: &Table<Vec<String>>,
    request_skeletons: &Table<String>,
    order_skeletons: &Table<String>,
    commands: &mut Vec<serde_json::Value>,
) -> (result: Result<(), NotExtracted>)
    ensures
        ({
            let inputs = codegen::inputs_of(
                *operations,
                *field_enum_values,
                *request_skeletons,
                *order_skeletons,
            );
            let made = group_commands(group.name@, group.resource@, inputs);
            match result {
                Ok(()) => made is Ok && json::jsons_of(final(commands)@) == json::jsons_of(
                    old(commands)@,
                ) + made->Ok_0,
                Err(error) => made == Err::<Seq<Json>, NotExtracted<Seq<char>>>(error.model()),
            }
        }),
{
    let ghost inputs = codegen::inputs_of(
        *operations,
        *field_enum_values,
        *request_skeletons,
        *order_skeletons,
    );
    let ghost resources = group.resource@;
    let ghost start = json::jsons_of(commands@);
    assert(json::jsons_of(commands@) =~= start + Seq::<Json>::empty());
    for i in 0..group.resource.len()
        invariant
            inputs == codegen::inputs_of(
                *operations,
                *field_enum_values,
                *request_skeletons,
                *order_skeletons,
            ),
            resources == group.resource@,
            start == json::jsons_of(old(commands)@),
            group_commands(group.name@, resources.take(i as int), inputs) is Ok,
            json::jsons_of(commands@) == start + group_commands(
                group.name@,
                resources.take(i as int),
                inputs,
            )->Ok_0,
    {
        proof {
            assert(resources.take(i + 1).drop_last() =~= resources.take(i as int));
        }
        match describe_resource(
            group.name.as_str(),
            &group.resource[i],
            operations,
            field_enum_values,
            request_skeletons,
            order_skeletons,
            commands,
        ) {
            Ok(()) => {
                assert(json::jsons_of(commands@) =~= start + group_commands(
                    group.name@,
                    resources.take(i + 1),
                    inputs,
                )->Ok_0);
            },
            Err(error) => {
                proof {
                    lemma_resource_failure_stays(group.name@, resources, inputs, i + 1);
                }
                return Err(error);
            },
        }
    }
    assert(resources.take(resources.len() as int) =~= resources);
    Ok(())
}

/// A command that is not generated: it needs no API operation.
pub open spec fn meta_command(name: Seq<char>, description: Seq<char>, params: Seq<Json>) -> Json {
    Json::Object(
        command_members(json::json_strings(seq![name]), description, "meta"@, params),
    )
}

fn meta_command_value(
    name: &str,
    description: &str,
    params: Vec<serde_json::Value>,
) -> (value: serde_json::Value)
    ensures
        json::json_of(value) == meta_command(name@, description@, json::jsons_of(params@)),
{
    let mut path: Vec<String> = Vec::new();
    path.push(name.to_string());
    assert(text::texts(path@) =~= seq![name@]);
    object(command_member_values(strings(&path), description, "meta", params))
}

/// How `schema --compact` is described.
pub const COMPACT_HELP: &'static str = "Print only command paths and descriptions (minimal output for context budgets)";

/// The parameters of `schema`.
pub open spec fn schema_params() -> Seq<Json> {
    Seq::<Json>::empty().push(
        plain_flag("--group"@, "string"@, "Only include commands from this group"@),
    ).push(plain_flag("--compact"@, "boolean"@, COMPACT_HELP@))
}

/// The shells that completions can be generated for.
pub open spec fn shells() -> Seq<Seq<char>> {
    seq!["bash"@, "zsh"@, "fish"@, "powershell"@, "elvish"@]
}

/// The parameters of `completions`.
pub open spec fn completions_params() -> Seq<Json> {
    Seq::<Json>::empty().push(
        Json::Object(
            positional("shell"@, true, "Shell to generate completions for"@).insert(
                "valid_values"@,
                json::json_strings(shells()),
            ),
        ),
    )
}

/// The parameters of `set-project`.
pub open spec fn set_project_params() -> Seq<Json> {
    Seq::<Json>::empty().push(Json::Object(positional("uuid"@, true, "Project UUID"@)))
}

/// `commands`, and behind them the commands that are not generated but exist all the
/// same.
pub open spec fn with_meta_commands(commands: Seq<Json>) -> Seq<Json> {
    commands.push(
        meta_command("schema"@, "Print the CLI command schema as JSON"@, schema_params()),
    ).push(
        meta_command(
            "completions"@,
            "Generate a shell completion script"@,
            completions_params(),
        ),
    ).push(
        meta_command(
            "login"@,
            "Log in and save API credentials to a local config file"@,
            Seq::empty(),
        ),
    ).push(
        meta_command(
            "logout"@,
            "Remove saved credentials for the selected profile"@,
            Seq::empty(),
        ),
    ).push(
        meta_command(
            "whoami"@,
            "Show the current user, verifying the active credentials"@,
            Seq::empty(),
        ),
    ).push(
        meta_command(
            "set-project"@,
            "Save a default project (UUID) for the selected profile"@,
            set_project_params(),
        ),
    ).push(
        meta_command(
            "unset-project"@,
            "Clear the selected profile's saved default project"@,
            Seq::empty(),
        ),
    )
}

fn no_params() -> (params: Vec<serde_json::Value>)
    ensures
        json::jsons_of(params@) == Seq::<Json>::empty(),
{
    let params: Vec<serde_json::Value> = Vec::new();
    assert(json::jsons_of(params@) =~= Seq::<Json>::empty());
    params
}

/// Adds the commands that are not generated.
fn describe_meta_commands(commands: &mut Vec<serde_json::Value>)
    ensures
        json::jsons_of(final(commands)@) == with_meta_commands(json::jsons_of(old(commands)@)),
{
    let mut params = no_params();
    append_value(
        &mut params,
        plain_flag_value("--group", "string", "Only include commands from this group"),
    );
    append_value(&mut params, plain_flag_value("--compact", "boolean", COMPACT_HELP));
    append_value(
        commands,
        meta_command_value("schema", "Print the CLI command schema as JSON", params),
    );

    let mut names: Vec<String> = Vec::new();
    names.push("bash".to_string());
    names.push("zsh".to_string());
    names.push("fish".to_string());
    names.push("powershell".to_string());
    names.push("elvish".to_string());
    assert(text::texts(names@) =~= shells());
    let mut shell = positional_members("shell", true, "Shell to generate completions for");
    put(&mut shell, "valid_values", strings(&names));
    let mut params = no_params();
    append_value(&mut params, object(shell));
    append_value(
        commands,
        meta_command_value("completions", "Generate a shell completion script", params),
    );

    append_value(
        commands,
        meta_command_value(
            "login",
            "Log in and save API credentials to a local config file",
            no_params(),
        ),
    );
    append_value(
        commands,
        meta_command_value(
            "logout",
            "Remove saved credentials for the selected profile",
            no_params(),
        ),
    );
    append_value(
        commands,
        meta_command_value(
            "whoami",
            "Show the current user, verifying the active credentials",
            no_params(),
        ),
    );

    let mut params = no_params();
    append_value(&mut params, object(positional_members("uuid", true, "Project UUID")));
    append_value(
        commands,
        meta_command_value(
            "set-project",
            "Save a default project (UUID) for the selected profile",
            params,
        ),
    );
    append_value(
        commands,
        meta_command_value(
            "unset-project",
            "Clear the selected profile's saved default project",
            no_params(),
        ),
    );
}

/// All verbs of a resource that have generated commands.
pub open spec fn resource_verbs(resource: Resource) -> Seq<Seq<char>> {
    if resource.order is Some {
        manifest::own_verbs(resource, 5).push("provision"@).push("terminate"@)
    } else {
        manifest::own_verbs(resource, 5)
    }
}

fn resource_verb_names(resource: &Resource) -> (verbs: Vec<String>)
    ensures
        text::texts(verbs@) == resource_verbs(*resource),
{
    let mut verbs = own_verb_names(resource);
    if resource.order.is_some() {
        let ghost before = text::texts(verbs@);
        verbs.push("provision".to_string());
        verbs.push("terminate".to_string());
        assert(text::texts(verbs@) =~= before.push("provision"@).push("terminate"@));
    }
    verbs
}

/// A resource in the summary.
pub open spec fn resource_summary(resource: Resource) -> Json {
    Json::Object(
        empty().insert("name"@, Json::Str(resource.name@)).insert(
            "description"@,
            Json::Str(resource.about@),
        ).insert("verbs"@, json::json_strings(resource_verbs(resource))).insert(
            "default_columns"@,
            json::json_strings(text::texts(resource.columns@)),
        ),
    )
}

/// A group in the summary, with its resources in manifest order.
pub open spec fn group_summary(group: Group) -> Json {
    Json::Object(
        empty().insert("name"@, Json::Str(group.name@)).insert(
            "description"@,
            Json::Str(group.about@),
        ).insert(
            "resources"@,
            Json::Array(
                group.resource@.map_values(|resource: Resource| resource_summary(resource)),
            ),
        ),
    )
}

fn summarize_resource(resource: &Resource) -> (value: serde_json::Value)
    ensures
        json::json_of(value) == resource_summary(*resource),
{
    let mut members = no_members();
    put(&mut members, "name", string(resource.name.as_str()));
    put(&mut members, "description", string(resource.about.as_str()));
    put(&mut members, "verbs", strings(&resource_verb_names(resource)));
    put(&mut members, "default_columns", strings(&resource.columns));
    object(members)
}

fn summarize_group(group: &Group) -> (value: serde_json::Value)
    ensures
        json::json_of(value) == group_summary(*group),
{
    let mut resources: Vec<serde_json::Value> = Vec::new();
    for i in 0..group.resource.len()
        invariant
            resources@.len() == i,
            forall|j: int|
                0 <= j < i ==> json::json_of(#[trigger] resources@[j]) == resource_summary(
                    group.resource@[j],
                ),
    {
        resources.push(summarize_resource(&group.resource[i]));
    }
    assert(json::jsons_of(resources@) =~= group.resource@.map_values(
        |resource: Resource| resource_summary(resource),
    ));
    let mut members = no_members();
    put(&mut members, "name", string(group.name.as_str()));
    put(&mut members, "description", string(group.about.as_str()));
    put(&mut members, "resources", array(resources));
    object(members)
}

/// The groups of a manifest in the summary.
pub open spec fn group_summaries(groups: Seq<Group>) -> Seq<Json> {
    groups.map_values(|group: Group| group_summary(group))
}

fn summarize_groups(manifest: &Manifest) -> (groups: Vec<serde_json::Value>)
    ensures
        json::jsons_of(groups@) == group_summaries(manifest.group@),
{
    let mut groups: Vec<serde_json::Value> = Vec::new();
    for i in 0..manifest.group.len()
        invariant
            groups@.len() == i,
            forall|j: int|
                0 <= j < i ==> json::json_of(#[trigger] groups@[j]) == group_summary(
                    manifest.group@[j],
                ),
    {
        groups.push(summarize_group(&manifest.group[i]));
    }
    assert(json::jsons_of(groups@) =~= group_summaries(manifest.group@));
    groups
}

/// The whole command schema.
pub open spec fn schema_json(manifest: Manifest, inputs: Inputs, cli_version: Seq<char>) -> Result<
    Json,
    NotExtracted<Seq<char>>,
> {
    match all_commands(manifest.group@, inputs) {
        Err(error) => Err(error),
        Ok(commands) => Ok(
            Json::Object(
                empty().insert("version"@, Json::Str(cli_version)).insert(
                    "groups"@,
                    Json::Array(group_summaries(manifest.group@)),
                ).insert("commands"@, Json::Array(with_meta_commands(commands))),
            ),
        ),
    }
}

/// Builds the command schema from the data that the sources are generated from.
pub fn build_schema_json(
    manifest: &Manifest,
    operations: &Table<ExtractedOperation>,
    field_enum_values: &Table<Vec<String>>,
    request_skeletons: &Table<String>,
    order_skeletons: &Table<String>,
    cli_version: &str,
) -> (result: Result<serde_json::Value, NotExtracted>)
    ensures
        ({
            let inputs = codegen::inputs_of(
                *operations,
                *field_enum_values,
                *request_skeletons,
                *order_skeletons,
            );
            let made = schema_json(*manifest, inputs, cli_version@);
            match result {
                Ok(value) => made == Ok::<Json, NotExtracted<Seq<char>>>(json::json_of(value)),
                Err(error) => made == Err::<Json, NotExtracted<Seq<char>>>(error.model()),
            }
        }),
{
    let ghost inputs = codegen::inputs_of(
        *operations,
        *field_enum_values,
        *request_skeletons,
        *order_skeletons,
    );
    let ghost groups = manifest.group@;
    let mut commands = no_params();
    for i in 0..manifest.group.len()
        invariant
            inputs == codegen::inputs_of(
                *operations,
                *field_enum_values,
                *request_skeletons,
                *order_skeletons,
            ),
            groups == manifest.group@,
            all_commands(groups.take(i as int), inputs) == Ok::<
                Seq<Json>,
                NotExtracted<Seq<char>>,
            >(json::jsons_of(commands@)),
    {
        proof {
            assert(groups.take(i + 1).drop_last() =~= groups.take(i as int));
        }
        match describe_group(
            &manifest.group[i],
            operations,
            field_enum_values,
            request_skeletons,
            order_skeletons,
            &mut commands,
        ) {
            Ok(()) => {},
            Err(error) => {
                proof {
                    lemma_group_failure_stays(groups, inputs, i + 1);
                }
                return Err(error);
            },
        }
    }
    assert(groups.take(groups.len() as int) =~= groups);
    describe_meta_commands(&mut commands);
    let mut members = no_members();
    put(&mut members, "version", string(cli_version));
    put(&mut members, "groups", array(summarize_groups(manifest)));
    put(&mut members, "commands", array(commands));
    Ok(object(members))
}

/// The generated `schema.rs` up to the command schema.
pub const SCHEMA_RS_HEAD: &'static str = r####"//! Generated by waldur-cli-generator from `commands.toml`. Do not edit by hand.
//!
//! Contains the full CLI command schema as an embedded JSON string, used by the
//! `schema` subcommand to serve a machine-readable tool specification.

/// The full CLI schema as a JSON string — command paths, descriptions,
/// parameters, valid values, filter keys, request skeletons, and group
/// metadata. Parsed at runtime by the hand-written `schema` subcommand
/// in `main.rs`.
pub const CLI_SCHEMA_JSON: &str = "####;

/// The most marks that Rust takes around a raw string literal.
pub const MOST_MARKS: usize = 255;

/// The number of marks in a row from position `i` on.
pub open spec fn marks_from(text: Seq<char>, i: int) -> nat
    decreases text.len() - i,
{
    if 0 <= i < text.len() && text[i] == '#' {
        marks_from(text, i + 1) + 1
    } else {
        0
    }
}

/// The longest row of marks directly behind a quote, from position `i` on.
pub open spec fn longest_marks(text: Seq<char>, i: int) -> nat
    decreases text.len() - i,
{
    if 0 <= i < text.len() {
        let behind = longest_marks(text, i + 1);
        if text[i] == '"' && marks_from(text, i + 1) > behind {
            marks_from(text, i + 1)
        } else {
            behind
        }
    } else {
        0
    }
}

/// The number of marks of a raw string literal for a text: more than ever follow a quote
/// in it, and at least three.
pub open spec fn mark_count(text: Seq<char>) -> nat {
    if longest_marks(text, 0) < 3 {
        3
    } else {
        longest_marks(text, 0) + 1
    }
}

/// A row of marks.
pub open spec fn marks(count: nat) -> Seq<char> {
    Seq::new(count, |i: int| '#')
}

/// A string literal for a text: a raw one, or one with escapes where the text would need
/// more marks than Rust takes.
pub open spec fn embedded_literal(content: Seq<char>) -> Seq<char> {
    let row = marks(mark_count(content));
    if mark_count(content) <= MOST_MARKS {
        "r"@ + row + "\""@ + content + "\""@ + row
    } else {
        rust_text::literal_text(content)
    }
}

/// The contents of the generated `schema.rs`.
pub open spec fn schema_rs_text(schema: Json) -> Seq<char> {
    SCHEMA_RS_HEAD@ + embedded_literal(json::pretty_text(schema)) + ";\n"@
}

fn count_marks(text: &str) -> (count: usize)
    ensures
        count == mark_count(text@),
{
    let chars = text::chars_of(text);
    let length: usize = chars.len();
    let mut i: usize = length;
    let mut row: usize = 0;
    let mut longest: usize = 0;
    while i > 0
        invariant
            chars@ == text@,
            length == chars@.len(),
            i <= length,
            row == marks_from(text@, i as int),
            longest == longest_marks(text@, i as int),
            row + i <= length,
            longest == 0 || longest + i < length,
        decreases i,
    {
        i = i - 1;
        if chars[i] == '"' && row > longest {
            longest = row;
        }
        if chars[i] == '#' {
            row = row + 1;
        } else {
            row = 0;
        }
    }
    if longest < 3 {
        3
    } else {
        longest + 1
    }
}

fn mark_row(count: usize) -> (row: String)
    ensures
        row@ == marks(count as nat),
{
    let mut row = String::new();
    assert(row@ =~= marks(0));
    for i in 0..count
        invariant
            row@ == marks(i as nat),
    {
        row.push('#');
        assert(row@ =~= marks((i + 1) as nat));
    }
    row
}

fn embed(content: &str) -> (literal: String)
    ensures
        literal@ == embedded_literal(content@),
{
    let count: usize = count_marks(content);
    if count <= MOST_MARKS {
        let row = mark_row(count);
        "r".to_string().concat(row.as_str()).concat("\"").concat(content).concat("\"").concat(
            row.as_str(),
        )
    } else {
        string_literal(content)
    }
}

/// Renders the generated `schema.rs`: the command schema, pretty-printed, in a string
/// literal that takes whatever the schema holds.
pub fn render_schema_rs(schema_json: &serde_json::Value) -> (source: String)
    ensures
        source@ == schema_rs_text(json::json_of(*schema_json)),
{
    let content = write_pretty(schema_json);
    let literal = embed(content.as_str());
    SCHEMA_RS_HEAD.to_string().concat(literal.as_str()).concat(";\n")
}

} // verus!
