//! Generated command sources.
use waldur_cli_generator::codegen::{
    generate_all, generate_cli_file, generate_resource_module, snake_ident, GeneratedOutput,
};
use waldur_cli_generator::codegen_error::CodegenError;
use waldur_cli_generator::manifest::{
    own_verb_names, ActionsConfig, Group, Manifest, OrderConfig, Resource, KNOWN_VERBS,
};
use waldur_cli_generator::rust_text::{
    field_ident, literal_list, pascal_case, snake_name, valid_ident,
};
use waldur_cli_generator::schema::{ExtractedOperation, ExtractedParam, ParamKind};
use waldur_cli_generator::table::Table;
use waldur_cli_generator::verb_codegen::{
    body_path_stmts, build_path_expr, can_print, filter_kind_expr, filter_spec_entries,
    http_method_expr, lists_by_project,
};

fn param(name: &str, kind: ParamKind) -> ExtractedParam {
    ExtractedParam { name: name.to_string(), kind }
}

fn operation(id: &str, verb: &str, path_param: Option<&str>, body: Option<&str>) -> ExtractedOperation {
    ExtractedOperation {
        operation_id: id.to_string(),
        path: match path_param {
            Some(name) => format!("/api/things/{{{name}}}/"),
            None => "/api/things/".to_string(),
        },
        http_verb: verb.to_string(),
        path_param: path_param.map(|s| s.to_string()),
        query_params: Vec::new(),
        field_enum_name: None,
        has_order: false,
        order_enum_name: None,
        request_body_type: body.map(|s| s.to_string()),
    }
}

struct Fixture {
    manifest: Manifest,
    operations: Table<ExtractedOperation>,
    fields: Table<Vec<String>>,
    request_skeletons: Table<String>,
    order_skeletons: Table<String>,
}

fn resource(name: &str, commands: &[(&str, &str)]) -> Resource {
    let mut table = Table::new();
    for (verb, id) in commands {
        table.insert(verb.to_string(), id.to_string());
    }
    Resource {
        name: name.to_string(),
        about: format!("{name}s"),
        columns: vec!["uuid".to_string(), "name".to_string()],
        commands: table,
        order: None,
        actions: None,
        web: None,
    }
}

fn fixture() -> Fixture {
    let mut operations = Table::new();
    let mut list = operation("things_list", "get", None, None);
    list.query_params = vec![
        param("type", ParamKind::OptionalStr),
        param("project_uuid", ParamKind::OptionalStr),
        param("cores", ParamKind::RequiredI64),
        param("is_active", ParamKind::OptionalBool),
        param("shape", ParamKind::SkippedOptional),
    ];
    list.field_enum_name = Some("ThingFieldEnum".to_string());
    operations.insert("things_list".to_string(), list);
    for (id, http, path_param, body) in [
        ("things_retrieve", "get", Some("uuid"), None),
        ("things_create", "post", None, Some("ThingRequest")),
        ("things_update", "put", Some("uuid"), Some("ThingRequest")),
        ("things_destroy", "delete", Some("type"), None),
    ] {
        operations.insert(id.to_string(), operation(id, http, path_param, body));
    }
    let mut fields = Table::new();
    fields.insert(
        "ThingFieldEnum".to_string(),
        vec!["uuid".to_string(), "name".to_string(), "state".to_string()],
    );
    let mut request_skeletons = Table::new();
    request_skeletons.insert("ThingRequest".to_string(), "{\n  \"name\": \"\"\n}".to_string());
    let mut order_skeletons = Table::new();
    order_skeletons.insert("big-thing".to_string(), "{\n  \"offering\": \"\"\n}".to_string());
    let mut big = resource(
        "big-thing",
        &[
            ("list", "things_list"),
            ("get", "things_retrieve"),
            ("create", "things_create"),
            ("update", "things_update"),
            ("delete", "things_destroy"),
        ],
    );
    big.order = Some(OrderConfig { offering_type: None });
    let group = Group {
        name: "open-zoo".to_string(),
        about: "Zoo".to_string(),
        resource: vec![big, resource("atom", &[("get", "things_retrieve")])],
    };
    let air = Group { name: "air".to_string(), about: "Air".to_string(), resource: Vec::new() };
    Fixture {
        manifest: Manifest { group: vec![group, air] },
        operations,
        fields,
        request_skeletons,
        order_skeletons,
    }
}

fn generated(f: &Fixture) -> Result<GeneratedOutput, CodegenError> {
    generate_all(
        &f.manifest,
        &f.operations,
        &f.fields,
        &f.request_skeletons,
        &f.order_skeletons,
    )
}

fn squeezed(text: &str) -> String {
    text.chars().filter(|c| !c.is_whitespace()).collect()
}

fn has(source: &str, snippet: &str) -> bool {
    squeezed(source).contains(&squeezed(snippet))
}

fn cause(error: CodegenError) -> CodegenError {
    match error {
        CodegenError::InResource { cause, .. } | CodegenError::InVerb { cause, .. } => *cause,
        _ => panic!("no cause"),
    }
}

#[test]
fn a_module_in_full() {
    let output = generated(&fixture()).unwrap();
    assert_eq!(
        output.resources[1].source,
        r##"//! Generated by waldur-cli-generator from `commands.toml`. Do not edit by hand;
//! see that repo's README for how to regenerate.
#![allow(clippy::too_many_arguments)]
const COLUMNS: &[&str; 2usize] = &["uuid", "name"];
///atoms
#[derive(clap::Subcommand, Debug)]
pub enum AtomCommand {
    ///Get atoms
    Get(AtomGetArgs),
}
#[derive(clap::Args, Debug)]
pub struct AtomGetArgs {
    pub uuid: String,
}
pub async fn run(
    _client: &waldur_client::HttpClient,
    base_url: &str,
    token: Option<&str>,
    _project: Option<&str>,
    _dry_run: bool,
    command: AtomCommand,
    format: crate::output::OutputFormat,
) -> anyhow::Result<()> {
    match command {
        AtomCommand::Get(args) => {
            let path = format!("{}{}{}", "/api/things/", args.uuid, "/");
            let result = crate::http::call_one(
                    base_url,
                    token,
                    reqwest::Method::GET,
                    &path,
                    None,
                )
                .await?;
            crate::output::print_result(&result, COLUMNS, format)?;
        }
    }
    Ok(())
}
"##
    );
}

#[test]
fn list_has_filters_fields_and_the_project_scope() {
    let source = generated(&fixture()).unwrap().resources[0].source.clone();
    assert!(has(
        &source,
        r#"const FILTER_SPEC: &[(&str, crate::filter::FilterKind)] = &[
            ("type", crate::filter::FilterKind::Str),
            ("project_uuid", crate::filter::FilterKind::Str),
            ("cores", crate::filter::FilterKind::I64),
            ("is_active", crate::filter::FilterKind::Bool),
        ];"#
    ));
    assert!(has(&source, r#"PossibleValuesParser::new(["uuid", "name", "state"])"#));
    assert!(has(&source, "if let Some(project) = project {"));
    assert!(has(&source, "pub limit: Option<i64>,"));
    assert!(!has(&source, "\"shape\""));
}

#[test]
fn create_and_update_take_a_request_body() {
    let source = generated(&fixture()).unwrap().resources[0].source.clone();
    assert!(has(&source, r#"const CREATE_SKELETON: &str = "{\n  \"name\": \"\"\n}";"#));
    assert!(has(&source, r#"const UPDATE_SKELETON: &str = "{\n  \"name\": \"\"\n}";"#));
    assert!(has(&source, r#"clap::ArgGroup::new("big_thing_update_body").required(true)"#));
    assert!(has(&source, "serde_json::from_str::<waldur_client::ThingRequest>(&body)"));
    assert!(has(
        &source,
        r#"let uuid = args.uuid.as_deref().context("this command requires a <uuid> argument")?;
           let path = format!("{}{}{}", "/api/things/", uuid, "/");"#
    ));
    assert!(has(&source, "pub struct BigThingUpdateArgs { pub uuid: Option<String>,"));
    assert!(has(&source, r#"print_dry_run("PUT", &path, Some(&body), format);"#));
    assert!(has(&source, "use anyhow::Context;"));
}

#[test]
fn a_keyword_path_parameter_is_raw_escaped() {
    let source = generated(&fixture()).unwrap().resources[0].source.clone();
    assert!(has(&source, "pub struct BigThingDeleteArgs { pub r#type: String, }"));
    assert!(has(&source, r#"format!("{}{}{}", "/api/things/", args.r#type, "/")"#));
    assert!(has(&source, r#"println!("Deleted {}", args.r#type);"#));
}

#[test]
fn an_order_adds_provision_and_terminate() {
    let source = generated(&fixture()).unwrap().resources[0].source.clone();
    assert!(has(&source, r#"const PROVISION_SKELETON: &str = "{\n  \"offering\": \"\"\n}";"#));
    assert!(has(&source, "Provision(BigThingProvisionArgs),"));
    assert!(has(&source, "///Terminate big-things via a marketplace order"));
    assert!(has(&source, "BigThingCommand::Terminate(args) => { crate::order::terminate("));
}

#[test]
fn every_group_and_resource_gets_a_file() {
    let output = generated(&fixture()).unwrap();
    let files: Vec<(&str, &str)> = output
        .resources
        .iter()
        .map(|r| (r.group_name.as_str(), r.resource_name.as_str()))
        .collect();
    assert_eq!(files, vec![("open-zoo", "big-thing"), ("open-zoo", "atom")]);
    assert_eq!(output.commands_mod_decls, "pub mod open_zoo;\npub mod air;");
    assert_eq!(output.group_mod_decls.len(), 2);
    assert_eq!(
        output.group_mod_decls.get("open-zoo").unwrap(),
        "pub mod big_thing;\npub mod atom;"
    );
    assert_eq!(output.group_mod_decls.get("air").unwrap(), "");
}

#[test]
fn generated_sources_are_rust() {
    let output = generated(&fixture()).unwrap();
    for resource in &output.resources {
        assert!(syn::parse_file(&resource.source).is_ok());
    }
    assert!(syn::parse_file(&output.cli_source).is_ok());
    assert_eq!(output.cli_source, generate_cli_file(&fixture().manifest).unwrap());
}

#[test]
fn the_cli_file_dispatches_to_every_resource() {
    let source = generate_cli_file(&fixture().manifest).unwrap();
    assert!(source.starts_with(
        "//! Generated by waldur-cli-generator from `commands.toml`. Do not edit by hand.\n\
         #[derive(clap::Subcommand, Debug)]\npub enum GroupCommand {\n    ///Zoo\n    \
         #[command(subcommand)]\n    OpenZoo(OpenZooCommand),\n    ///Air\n    \
         #[command(subcommand)]\n    Air(AirCommand),\n}\n"
    ));
    assert!(has(&source, "BigThing(crate::commands::open_zoo::big_thing::BigThingCommand),"));
    assert!(has(&source, "pub enum AirCommand {}"));
    assert!(has(&source, "GroupCommand::Air(cmd) => match cmd {}"));
    assert!(has(
        &source,
        "OpenZooCommand::Atom(cmd) => { crate::commands::open_zoo::atom::run(\
         client, base_url, token, project, dry_run, cmd, format,).await }"
    ));
}

#[test]
fn one_module_alone() {
    let f = fixture();
    let source = generate_resource_module(
        &f.manifest.group[0].resource[1],
        &f.operations,
        &f.fields,
        &f.request_skeletons,
        &f.order_skeletons,
    )
    .unwrap();
    assert!(has(&source, "pub enum AtomCommand { #[doc = \"Get atoms\"] Get(AtomGetArgs), }"));
    assert!(syn::parse_file(&source).is_ok());
}

#[test]
fn a_required_filter_without_a_kind_is_an_error() {
    let mut f = fixture();
    let mut list = operation("things_list", "get", None, None);
    list.query_params = vec![param("shape", ParamKind::SkippedRequired)];
    f.operations.insert("things_list".to_string(), list);
    let error = generated(&f).unwrap_err();
    assert_eq!(error.message(), "generating group `open-zoo` resource `big-thing`");
    let error = cause(error);
    assert_eq!(error.message(), "in resource `big-thing`, verb `list` (things_list)");
    assert_eq!(
        cause(error).message(),
        "parameter `shape` has a type this generator can't map to a --filter value (not a \
         string/bool/i64 shape) -- either extend classify_param() in schema.rs, or drop this \
         method from commands.toml"
    );
}

#[test]
fn a_missing_operation_is_an_error() {
    let mut f = fixture();
    f.operations = Table::new();
    assert_eq!(
        cause(generated(&f).unwrap_err()).message(),
        "internal error: operation `things_list` (resource `big-thing`, verb `list`) was not extracted"
    );
}

#[test]
fn only_list_has_query_parameters() {
    let mut f = fixture();
    let mut get = operation("things_retrieve", "get", Some("uuid"), None);
    get.query_params =
        vec![param("a", ParamKind::OptionalStr), param("b\"", ParamKind::OptionalStr)];
    f.operations.insert("things_retrieve".to_string(), get);
    assert_eq!(
        cause(generated(&f).unwrap_err()).message(),
        "resource `big-thing`, verb `get` (things_retrieve) has query parameter(s) \
         [\"a\", \"b\\\"\"] -- this generator only supports query filters on `list`, extend \
         codegen.rs if a non-list verb genuinely needs one"
    );
}

#[test]
fn a_body_needs_a_schema_and_a_template() {
    let mut f = fixture();
    f.request_skeletons = Table::new();
    assert_eq!(
        cause(generated(&f).unwrap_err()).message(),
        "internal error: no skeleton built for request type `ThingRequest`"
    );
    f.operations.insert("things_create".to_string(), operation("things_create", "post", None, None));
    assert_eq!(
        cause(generated(&f).unwrap_err()).message(),
        "resource `big-thing`, verb `create` (things_create): no request body schema to build a \
         --generate-skeleton template from"
    );
}

#[test]
fn a_body_type_has_to_be_a_type() {
    let error = cause(with_body_type("Not-A-Type").unwrap_err());
    assert_eq!(error.message(), "invalid generated type name `Not-A-Type`");
    assert!(matches!(
        error,
        CodegenError::InvalidTypeName { reason, .. } if reason == "unexpected token"
    ));
}

#[test]
fn a_body_type_may_have_type_arguments() {
    let mut f = fixture();
    f.request_skeletons.insert("Vec<Thing>".to_string(), "{}".to_string());
    f.operations.insert(
        "things_create".to_string(),
        operation("things_create", "post", None, Some("Vec<Thing>")),
    );
    let source = generated(&f).unwrap().resources[0].source.clone();
    assert!(has(&source, "serde_json::from_str::<waldur_client::Vec<Thing>>(&body)"));
}

#[test]
fn an_order_needs_a_template() {
    let mut f = fixture();
    f.order_skeletons = Table::new();
    assert_eq!(
        cause(generated(&f).unwrap_err()).message(),
        "internal error: no order skeleton built for resource `big-thing`"
    );
}

#[test]
fn names_have_to_become_identifiers() {
    let mut f = fixture();
    f.manifest.group[0].resource[1].name = "no atom".to_string();
    assert_eq!(
        cause(generated(&f).unwrap_err()).message(),
        "`No atomCommand` is not a valid identifier"
    );
    let mut g = fixture();
    g.manifest.group[1].name = "1st".to_string();
    assert_eq!(generated(&g).unwrap_err().message(), "`1st` is not a valid identifier");
}

#[test]
fn keywords_make_no_module_sources() {
    let mut f = fixture();
    f.manifest.group[1].name = "type".to_string();
    f.manifest.group[1].resource = vec![resource("atom", &[])];
    let error = generated(&f).unwrap_err();
    assert!(error.message().starts_with("generated cli.rs is not valid Rust:\n"));
    assert!(error.message().contains("GroupCommand :: Type (cmd) => match cmd {"));
    assert!(error.message().contains("crate :: commands :: type :: atom :: AtomCommand"));
    assert!(matches!(error, CodegenError::InvalidCliSource { .. }));
}

#[test]
fn source_errors_have_words() {
    let error: CodegenError = CodegenError::InvalidResourceSource {
        group: "g".to_string(),
        resource: "r".to_string(),
        tokens: "t".to_string(),
        reason: "why".to_string(),
    };
    assert_eq!(
        error.message(),
        "generated code for group `g` resource `r` is not valid Rust:\nt"
    );
}

#[test]
fn a_path_has_to_hold_its_parameter() {
    let mut op = operation("things_retrieve", "get", Some("uuid"), None);
    assert_eq!(
        build_path_expr(&op).unwrap(),
        "format!(\"{}{}{}\", \"/api/things/\", args.uuid, \"/\")"
    );
    op.path = "/api/things/".to_string();
    let words = "operation `things_retrieve`: path `/api/things/` doesn't contain its own path \
                 param `{uuid}`";
    assert_eq!(build_path_expr(&op).unwrap_err().message(), words);
    assert_eq!(body_path_stmts(&op).unwrap_err().message(), words);
    op.path_param = None;
    assert_eq!(build_path_expr(&op).unwrap(), "\"/api/things/\".to_string()");
    assert_eq!(body_path_stmts(&op).unwrap(), "let path = \"/api/things/\".to_string();\n");
}

#[test]
fn a_path_is_split_at_the_first_placeholder() {
    let mut op = operation("x", "get", Some("u"), None);
    op.path = "/a/{u}/b/{u}/\"".to_string();
    assert_eq!(
        build_path_expr(&op).unwrap(),
        "format!(\"{}{}{}\", \"/a/\", args.u, \"/b/{u}/\\\"\")"
    );
}

#[test]
fn a_path_parameter_has_to_become_an_identifier() {
    let op = operation("x", "get", Some("a b"), None);
    assert_eq!(
        build_path_expr(&op).unwrap_err().message(),
        "`r#a b` is not a valid identifier"
    );
    assert_eq!(
        body_path_stmts(&op).unwrap_err().message(),
        "`r#a b` is not a valid identifier"
    );
}

#[test]
fn http_methods() {
    for (verb, method) in [
        ("get", "reqwest::Method::GET"),
        ("post", "reqwest::Method::POST"),
        ("put", "reqwest::Method::PUT"),
        ("patch", "reqwest::Method::PATCH"),
        ("delete", "reqwest::Method::DELETE"),
    ] {
        assert_eq!(http_method_expr(&operation("x", verb, None, None)).unwrap(), method);
    }
    assert_eq!(
        http_method_expr(&operation("x", "head", None, None)).unwrap_err().message(),
        "operation `x` uses HTTP verb `head`, which this generator doesn't know how to map"
    );
}

#[test]
fn filter_kinds() {
    let kind = |kind| filter_kind_expr(&param("p", kind)).unwrap();
    assert_eq!(kind(ParamKind::RequiredStr).unwrap(), "crate::filter::FilterKind::Str");
    assert_eq!(kind(ParamKind::OptionalBool).unwrap(), "crate::filter::FilterKind::Bool");
    assert_eq!(kind(ParamKind::RequiredI64).unwrap(), "crate::filter::FilterKind::I64");
    assert_eq!(kind(ParamKind::SkippedOptional), None);
    assert!(filter_kind_expr(&param("p", ParamKind::SkippedRequired)).is_err());
}

#[test]
fn filter_tables() {
    let params = vec![
        param("a\"", ParamKind::OptionalStr),
        param("skipped", ParamKind::SkippedOptional),
        param("b", ParamKind::RequiredBool),
    ];
    assert_eq!(
        filter_spec_entries(&params).unwrap(),
        vec![
            "(\"a\\\"\", crate::filter::FilterKind::Str)",
            "(\"b\", crate::filter::FilterKind::Bool)",
        ]
    );
    let params = vec![
        param("first", ParamKind::SkippedRequired),
        param("second", ParamKind::SkippedRequired),
    ];
    assert!(matches!(
        filter_spec_entries(&params),
        Err(CodegenError::UnmappedFilter { param }) if param == "first"
    ));
}

#[test]
fn the_project_scope_needs_a_project_filter() {
    let f = fixture();
    assert!(lists_by_project(&f.manifest.group[0].resource[0], &f.operations));
    assert!(!lists_by_project(&f.manifest.group[0].resource[1], &f.operations));
}

#[test]
fn names_change_their_case() {
    assert_eq!(pascal_case("big-thing"), "BigThing");
    assert_eq!(pascal_case("a_b-c"), "ABC");
    assert_eq!(pascal_case("-x--y_"), "XY");
    assert_eq!(pascal_case("BIG"), "BIG");
    assert_eq!(pascal_case(""), "");
    assert_eq!(pascal_case("\u{df}-x"), "SSX");
    assert_eq!(snake_name("big-fat-thing"), "big_fat_thing");
    assert_eq!(snake_ident("big-thing").unwrap(), "big_thing");
    assert_eq!(
        snake_ident("big thing").unwrap_err().message(),
        "`big thing` is not a valid identifier"
    );
}

#[test]
fn identifiers() {
    assert!(valid_ident("abc"));
    assert!(valid_ident("type"));
    assert!(valid_ident("r#type"));
    assert!(!valid_ident("r#self"));
    assert!(!valid_ident("a b"));
    assert!(!valid_ident(" a"));
    assert!(!valid_ident("1a"));
    assert!(!valid_ident(""));
    assert_eq!(field_ident("uuid"), "uuid");
    assert_eq!(field_ident("type"), "r#type");
    assert_eq!(literal_list(&vec!["a\"".to_string(), "b".to_string()]), "\"a\\\"\", \"b\"");
    assert_eq!(literal_list(&Vec::new()), "");
}

#[test]
fn known_verbs_keep_their_order() {
    assert_eq!(KNOWN_VERBS, ["list", "get", "create", "update", "delete"]);
    let r = resource("x", &[("delete", "d"), ("frob", "f"), ("list", "l")]);
    assert_eq!(own_verb_names(&r), vec!["list", "delete"]);
    assert!(ActionsConfig::default().exclude.is_empty());
}

#[test]
fn subcommands_come_in_the_order_of_the_known_verbs() {
    let source = generated(&fixture()).unwrap().resources[0].source.clone();
    let at = |verb: &str| source.find(&format!("    {verb}(BigThing{verb}Args),")).unwrap();
    let verbs = ["List", "Get", "Create", "Update", "Delete", "Provision", "Terminate"];
    for pair in verbs.windows(2) {
        assert!(at(pair[0]) < at(pair[1]));
    }
}

fn with_body_type(name: &str) -> Result<GeneratedOutput, CodegenError> {
    let mut f = fixture();
    f.request_skeletons.insert(name.to_string(), "{}".to_string());
    f.operations.insert(
        "things_create".to_string(),
        operation("things_create", "post", None, Some(name)),
    );
    generated(&f)
}

#[test]
fn a_body_type_may_be_any_type() {
    for (name, printed) in [
        ("Foo<a::B,C>", "Foo<a::B, C>"),
        ("Foo< Bar >", "Foo<Bar>"),
        ("Foo<[u8;4]>", "Foo<[u8; 4]>"),
        ("Foo<'a>", "Foo<'a>"),
        ("Foo<&'a mut (A, B)>", "Foo<&'a mut (A, B)>"),
        ("Foo<A:B>", "Foo<A: B>"),
        ("Foo<*const A>", "Foo<*const A>"),
        ("Foo<{ N + 1 }>", "Foo<{ N + 1 }>"),
        ("Foo<{ ; 1 }>", "Foo<{ 1 }>"),
        ("Foo<fn(A) -> B>", "Foo<fn(A) -> B>"),
        ("Foo<dyn A + 'a>", "Foo<dyn A + 'a>"),
        ("Foo<\"x\">", "Foo<\"x\">"),
        ("Foo<r#const::Verbatim>", "Foo<r#const::Verbatim>"),
    ] {
        let source = with_body_type(name).unwrap().resources[0].source.clone();
        let squeezed =
            |text: &str| text.split_whitespace().collect::<String>().replace(",>", ">");
        let wanted = format!("serde_json::from_str::<waldur_client::{printed}>(&body)");
        assert!(squeezed(&source).contains(&squeezed(&wanted)), "{name}");
    }
}

#[test]
fn a_body_type_has_to_be_printable() {
    for name in [
        "Foo<A: const B>",
        "Foo<impl [const] A>",
        "Foo<dyn *A>",
        "Foo<fn(mut self)>",
        "Foo<[u8; become f()]>",
        "Foo<{ builtin # offset_of(A, b) }>",
        "Foo<{ macro_rules! m { bad } 0 }>",
    ] {
        let error = cause(with_body_type(name).unwrap_err());
        assert_eq!(
            error.message(),
            format!("generated type name `{name}` has syntax that cannot be printed")
        );
        assert!(matches!(error, CodegenError::UnprintableType { .. }));
    }
}

#[test]
fn bare_tokens_and_macros_are_found_in_a_tree() {
    assert!(can_print("Type::Path { qself: None }"));
    assert!(can_print("Expr::Verbatim(TokenStream [])"));
    assert!(can_print("Lit::Verbatim(Literal { lit: 1 })"));
    assert!(can_print("Verbatim(TokenStream ["));
    assert!(can_print(""));
    assert!(!can_print("Type::Verbatim(TokenStream [Ident { sym: dyn }])"));
    assert!(!can_print("Verbatim(TokenStream [] Verbatim(TokenStream [P"));
    assert!(!can_print("[PathSegment { ident: Ident(macro_rules) }]"));
}

#[test]
fn a_body_type_may_have_any_letters() {
    let source = with_body_type("Gr\u{f6}\u{df}e").unwrap().resources[0].source.clone();
    assert!(has(&source, "serde_json::from_str::<waldur_client::Gr\u{f6}\u{df}e>(&body)"));
}
