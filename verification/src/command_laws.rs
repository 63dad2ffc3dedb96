//! What the commands of a generated module do: what each of them asks of the API, with
//! what, and what it reports.
use crate::codegen;
use crate::codegen::Inputs;
use crate::manifest;
use crate::manifest::Resource;
use crate::rust_text;
use crate::schema::{Operation, Param, ParamKind};
use crate::text;
use crate::verb_codegen;
use crate::verb_codegen::Parts;
use vstd::prelude::*;

verus! {

/// A command of a generated module, in the pieces that its source is made of.
pub struct Command {
    /// The variant in the command enum.
    pub name: Seq<char>,
    /// The literal of its help text.
    pub doc: Seq<char>,
    /// The struct of its arguments.
    pub args: Seq<char>,
    /// The attribute of that struct.
    pub attr: Seq<char>,
    /// The fields of that struct.
    pub flags: Seq<char>,
    /// The statements of its arm in `run`.
    pub body: Seq<char>,
    /// Its filter table.
    pub table: Seq<char>,
    /// Its template constant.
    pub template: Seq<char>,
}

/// The variant of a command in the enum.
pub open spec fn variant_text(command: Command) -> Seq<char> {
    "#[doc = "@ + command.doc + "]\n"@ + command.name + "("@ + command.args + "),\n"@
}

/// The argument struct of a command.
pub open spec fn struct_text(command: Command) -> Seq<char> {
    "#[derive(clap::Args, Debug)]\n"@ + command.attr + "pub struct "@ + command.args + " {\n"@
        + command.flags + "}\n"@
}

/// The arm of a command of a resource in `run`.
pub open spec fn arm_text(resource: Resource, command: Command) -> Seq<char> {
    rust_text::pascal(resource.name@) + "Command"@ + "::"@ + command.name + "(args) => {\n"@
        + command.body + "}\n"@
}

/// Pieces of source one after the other, one for every command.
pub open spec fn of_each(commands: Seq<Command>, piece: spec_fn(Command) -> Seq<char>) -> Seq<char>
    decreases commands.len(),
{
    if commands.len() == 0 {
        ""@
    } else {
        of_each(commands.drop_last(), piece) + piece(commands.last())
    }
}

/// The verbs that can be commands, in the order in which they stand in the enum.
pub open spec fn verb_text(i: int) -> Seq<char> {
    if i == 0 {
        "list"@
    } else if i == 1 {
        "get"@
    } else if i == 2 {
        "create"@
    } else if i == 3 {
        "update"@
    } else {
        "delete"@
    }
}

/// The verbs among the first `n` that the manifest gives a resource.
pub open spec fn given_verbs(resource: Resource, n: nat) -> Seq<Seq<char>>
    decreases n,
{
    if n == 0 {
        Seq::empty()
    } else {
        let before = given_verbs(resource, (n - 1) as nat);
        if resource.commands@.contains_key(verb_text(n - 1)) {
            before.push(verb_text(n - 1))
        } else {
            before
        }
    }
}

/// The operation that the manifest gives a verb of a resource.
pub open spec fn operation_for(resource: Resource, verb: Seq<char>, inputs: Inputs) -> Operation {
    inputs.operations[resource.commands@[verb]@]@
}

/// Whether a text is the expression of the HTTP method that the API schema has for an
/// operation.
pub open spec fn is_method_of(op: Operation, method: Seq<char>) -> bool {
    ||| op.http_verb == "get"@ && method == "reqwest::Method::GET"@
    ||| op.http_verb == "post"@ && method == "reqwest::Method::POST"@
    ||| op.http_verb == "put"@ && method == "reqwest::Method::PUT"@
    ||| op.http_verb == "patch"@ && method == "reqwest::Method::PATCH"@
    ||| op.http_verb == "delete"@ && method == "reqwest::Method::DELETE"@
}

/// Whether two texts are what stands around the first placeholder of a parameter in a path.
pub open spec fn surround(
    path: Seq<char>,
    param: Seq<char>,
    before: Seq<char>,
    behind: Seq<char>,
) -> bool {
    let placeholder = "{"@ + param + "}"@;
    &&& before + placeholder + behind == path
    &&& forall|at: int| at < before.len() ==> !(#[trigger] text::occurs_at(path, placeholder, at))
}

/// Whether an expression gives the path of an operation, with the argument of the command
/// line in the place of the path parameter.
pub open spec fn gives_path(op: Operation, expr: Seq<char>) -> bool {
    match op.path_param {
        None => expr == rust_text::literal_text(op.path) + ".to_string()"@,
        Some(param) => exists|before: Seq<char>, behind: Seq<char>|
            #![trigger surround(op.path, param, before, behind)]
            surround(op.path, param, before, behind) && expr == "format!(\"{}{}{}\", "@
                + rust_text::literal_text(before) + ", args."@ + rust_text::field_name(param)
                + ", "@ + rust_text::literal_text(behind) + ")"@,
    }
}

/// Whether statements bind `path` to the path of an operation, and refuse to go on where
/// the argument for the path parameter is missing.
pub open spec fn binds_path(op: Operation, statements: Seq<char>) -> bool {
    match op.path_param {
        None => statements == "let path = "@ + rust_text::literal_text(op.path)
            + ".to_string();\n"@,
        Some(param) => {
            let ident = rust_text::field_name(param);
            exists|before: Seq<char>, behind: Seq<char>|
                #![trigger surround(op.path, param, before, behind)]
                surround(op.path, param, before, behind) && statements == "let "@ + ident
                    + " = args."@ + ident + ".as_deref().context("@ + rust_text::literal_text(
                    "this command requires a <"@ + param + "> argument"@,
                ) + ")?;\nlet path = format!(\"{}{}{}\", "@ + rust_text::literal_text(before)
                    + ", "@ + ident + ", "@ + rust_text::literal_text(behind) + ");\n"@
        },
    }
}

/// Whether the ambient project narrows an operation: it has a filter for the project.
pub open spec fn scoped(op: Operation) -> bool {
    exists|i: int|
        0 <= i < op.query_params.len() && (#[trigger] op.query_params[i]).name
            == "project_uuid"@
}

/// `list` reads the filters, adds the project where the operation can be narrowed to one
/// and no filter does, asks for the wanted fields, and fetches every page of the REST path
/// of the operation, whether it streams the items or prints them together.
pub open spec fn lists(op: Operation, body: Seq<char>) -> bool {
    let path = rust_text::literal_text(op.path);
    let project = if scoped(op) {
        r##"
if let Some(project) = project {
    if !query_params.iter().any(|(k, _)| k == "project_uuid") {
        query_params.push(("project_uuid".to_string(), project.to_string()));
    }
}
"##@
    } else {
        ""@
    };
    body == r##"
let mut query_params: Vec<(String, String)> = crate::filter::parse_filters(&args.filter, FILTER_SPEC)?;
"##@ + project + r##"
match &args.fields {
    Some(fields) => {
        for f in fields {
            query_params.push(("field".to_string(), f.clone()));
        }
    }
    None => {
        if matches!(format, crate::output::OutputFormat::Table) {
            for f in COLUMNS {
                query_params.push(("field".to_string(), (*f).to_string()));
            }
        }
    }
}
if matches!(format, crate::output::OutputFormat::Ndjson) && args.jmespath.is_none() {
    crate::pagination::fetch_all_streaming(
        base_url,
        token,
"##@ + path + r##",
        &query_params,
        args.limit,
        |item| crate::output::print_ndjson_line(&item),
    )
    .await?;
} else {
    let result = crate::pagination::fetch_all(base_url, token, "##@ + path
        + r##", &query_params, args.limit).await?;
    let display_columns: Vec<&str> = match &args.fields {
        Some(fields) => fields.iter().map(String::as_str).collect(),
        None => COLUMNS.to_vec(),
    };
    let result: serde_json::Value = serde_json::Value::Array(result);
    let result = match &args.jmespath {
        Some(expr) => crate::query::apply(result, expr)?,
        None => result,
    };
    crate::output::print_result(&result, &display_columns, format)?;
}
"##@
}

/// `get` makes one call, without a body, and prints what comes back.
pub open spec fn gets(op: Operation, body: Seq<char>) -> bool {
    exists|path: Seq<char>, method: Seq<char>|
        #![trigger gives_path(op, path), is_method_of(op, method)]
        gives_path(op, path) && is_method_of(op, method) && body == "let path = "@ + path
            + ";\n"@ + "let result = crate::http::call_one(base_url, token, "@ + method + ", &path, None).await?;\n"@ + "crate::output::print_result(&result, COLUMNS, format)?;\n"@
}

/// `create` and `update` print the template where that is asked for; else they load the
/// body, hold it against the type of the request, and either show the request under
/// `--dry-run` or make one call that sends that body.
pub open spec fn sends_a_body(op: Operation, template: Seq<char>, body: Seq<char>) -> bool {
    exists|checked: Seq<char>, path: Seq<char>, method: Seq<char>|
        #![trigger is_type_of(op, checked), binds_path(op, path), is_method_of(op, method)]
        is_type_of(op, checked) && binds_path(op, path) && is_method_of(op, method) && body
            == "if let Some(fmt) = args.generate_skeleton {\ncrate::request::print_skeleton("@
            + template + r##", fmt)?;
    return Ok(());
}
let body = crate::request::load_body(args.request.as_deref(), args.request_file.as_deref())?;
serde_json::from_str::<"##@ + checked + r##">(&body)
    .with_context(|| "the request body is not valid JSON for this resource's request schema".to_string())?;
"##@ + path + "if dry_run { return crate::output::print_dry_run("@
            + rust_text::literal_text(text::uppercase(op.http_verb))
            + ", &path, Some(&body), format);\n}\n"@ + "let result = crate::http::call_one(base_url, token, "@ + method
            + ", &path, Some(&body)).await?;\n"@ + "crate::output::print_result(&result, COLUMNS, format)?;\n"@
}

/// Whether a text is the client's type for the request body of an operation.
pub open spec fn is_type_of(op: Operation, shown: Seq<char>) -> bool {
    op.request_body_type is Some && rust_text::type_tokens(
        "waldur_client::"@ + op.request_body_type->0,
    ) == Ok::<Seq<char>, Seq<char>>(shown)
}

/// `delete` shows the request under `--dry-run`, else makes one call without a body, and
/// reports the argument that named what was deleted, in every output format.
pub open spec fn deletes(op: Operation, body: Seq<char>) -> bool {
    let uuid = match op.path_param {
        Some(param) => rust_text::field_name(param),
        None => "uuid"@,
    };
    exists|path: Seq<char>, method: Seq<char>|
        #![trigger gives_path(op, path), is_method_of(op, method)]
        gives_path(op, path) && is_method_of(op, method) && body == "let path = "@ + path
            + ";\n"@ + "if dry_run { return crate::output::print_dry_run("@ + rust_text::literal_text(text::uppercase(op.http_verb))
            + ", &path, None, format);\n}\nlet _ = crate::http::call_one(base_url, token, "@
            + method + r##", &path, None).await?;
match format {
    crate::output::OutputFormat::Json | crate::output::OutputFormat::Ndjson => {
        println!("{}", serde_json::json!({"deleted": true, "uuid": args."##@ + uuid + r##"}));
    }
    crate::output::OutputFormat::Table => {
        println!("Deleted {}", args."##@ + uuid + r##");
    }
    crate::output::OutputFormat::Tsv => {
        println!("true\t{}", args."##@ + uuid
            + r##");
    }
    crate::output::OutputFormat::Toon => {
        println!(
            "{}",
            serde_toon::to_string(
                &serde_json::json!({"deleted": true, "uuid": args."##@ + uuid + r##"}),
            )?
        );
    }
}
"##@
}

/// The field for the path parameter, with the type that it has on the command line.
pub open spec fn path_field(op: Operation, kind: Seq<char>) -> Seq<char> {
    match op.path_param {
        Some(param) => "pub "@ + rust_text::field_name(param) + kind,
        None => ""@,
    }
}

/// The names that `--fields` takes: where they are known, it takes no others.
pub open spec fn takes_fields(op: Operation, inputs: Inputs, flag: Seq<char>) -> bool {
    let help = "#[doc = "@ + rust_text::literal_text(crate::templates::FIELDS_HELP@);
    if op.field_enum_name is Some && inputs.field_values.contains_key(op.field_enum_name->0) {
        let names = text::texts(inputs.field_values[op.field_enum_name->0]@);
        flag == help
            + "]\n#[arg(long, value_delimiter = ',', value_parser = clap::builder::PossibleValuesParser::new(["@
            + text::joined(names.map_values(|name: Seq<char>| rust_text::literal_text(name)), ", "@)
            + "]),)]\npub fields: Option<Vec<String>>,\n"@
    } else {
        flag == help
            + "]\n#[arg(long, value_delimiter = ',')]\npub fields: Option<Vec<String>>,\n"@
    }
}

/// The entry of a parameter in a filter table: its name, and the kind of its values.
pub open spec fn is_entry(param: Param, entry: Seq<char>) -> bool {
    exists|kind: Seq<char>|
        #![trigger value_kind(param.kind, kind)]
        value_kind(param.kind, kind) && entry == "("@ + rust_text::literal_text(param.name)
            + ", "@ + kind + ")"@
}

/// Whether a text is the filter kind for values of that kind.
pub open spec fn value_kind(kind: ParamKind, shown: Seq<char>) -> bool {
    match kind {
        ParamKind::RequiredStr | ParamKind::OptionalStr => shown
            == "crate::filter::FilterKind::Str"@,
        ParamKind::RequiredBool | ParamKind::OptionalBool => shown
            == "crate::filter::FilterKind::Bool"@,
        ParamKind::RequiredI64 | ParamKind::OptionalI64 => shown
            == "crate::filter::FilterKind::I64"@,
        ParamKind::SkippedOptional | ParamKind::SkippedRequired => false,
    }
}

/// The parameters that can be filters, in their order.
pub open spec fn usable(params: Seq<Param>) -> Seq<Param> {
    params.filter(
        |param: Param|
            param.kind != ParamKind::SkippedOptional && param.kind != ParamKind::SkippedRequired,
    )
}

/// The filter table has one entry for every parameter that can be a filter, in their order.
pub open spec fn filters_by(op: Operation, table: Seq<char>) -> bool {
    exists|entries: Seq<Seq<char>>|
        #![trigger text::joined(entries, ", "@)]
        {
            &&& entries.len() == usable(op.query_params).len()
            &&& forall|i: int|
                0 <= i < entries.len() ==> is_entry(
                    usable(op.query_params)[i],
                    #[trigger] entries[i],
                )
            &&& table == "const FILTER_SPEC: &[(&str, crate::filter::FilterKind)] = &["@
                + text::joined(entries, ", "@) + "];\n"@
        }
}

/// The ways to give a request body, of which exactly one has to be taken.
pub open spec fn one_body(group: Seq<char>) -> Seq<char> {
    "#[command(group(clap::ArgGroup::new("@ + rust_text::literal_text(group) + ").required(true).args([\"request\", \"request_file\", \"generate_skeleton\"])))]\n"@
}

/// What a command with a request body has besides its arm: the flags for the body, and the
/// template that belongs to the type of the body.
pub open spec fn has_body_parts(
    resource: Resource,
    verb: Seq<char>,
    op: Operation,
    inputs: Inputs,
    constant: Seq<char>,
    command: Command,
) -> bool {
    &&& op.request_body_type is Some
    &&& inputs.request_skeletons.contains_key(op.request_body_type->0)
    &&& command.template == "const "@ + constant + ": &str = "@ + rust_text::literal_text(
        inputs.request_skeletons[op.request_body_type->0]@,
    ) + ";\n"@
    &&& command.flags == path_field(op, ": Option<String>,\n"@) + r##"
#[doc = r" Request body as inline JSON. Use --generate-skeleton for a"]
#[doc = r" template, or --request-file to read it from a file."]
#[arg(long)]
pub request: Option<String>,
#[doc = r" Read the request body from a JSON or YAML file (e.g. a"]
#[doc = r" filled-in --generate-skeleton template)."]
#[arg(long, value_name = "PATH")]
pub request_file: Option<std::path::PathBuf>,
#[doc = r" Print a fillable request-body template and exit, instead of"]
#[doc = r" sending a request (json or yaml; default json)."]
#[arg(long, value_enum, num_args = 0..=1, default_missing_value = "json", value_name = "FORMAT")]
pub generate_skeleton: Option<crate::request::SkeletonFormat>,
"##@
    &&& command.attr == one_body(
        rust_text::module_name(resource.name@) + "_"@ + verb + "_body"@,
    )
    &&& command.table == ""@
}

/// Whether a command does what its verb says, with the operation that the manifest gives
/// it.
pub open spec fn does(resource: Resource, verb: Seq<char>, inputs: Inputs, command: Command) -> bool {
    let op = operation_for(resource, verb, inputs);
    &&& inputs.operations.contains_key(resource.commands@[verb]@)
    &&& command.name == rust_text::pascal(verb)
    &&& command.args == rust_text::pascal(resource.name@) + rust_text::pascal(verb) + "Args"@
    &&& command.doc == rust_text::literal_text(
        rust_text::pascal(verb) + " "@ + text::lowercase(resource.about@),
    )
    &&& verb != "list"@ ==> op.query_params.len() == 0
    &&& if verb == "list"@ {
        &&& lists(op, command.body)
        &&& filters_by(op, command.table)
        &&& command.template == ""@
        &&& command.attr == ""@
        &&& exists|fields: Seq<char>|
            #![trigger takes_fields(op, inputs, fields)]
            takes_fields(op, inputs, fields) && command.flags == path_field(op, ": String,\n"@)
                + r##"
#[doc = r" Filter results server-side, KEY=VALUE (repeatable). See"]
#[doc = r" --help's error on an unknown key for the valid keys."]
#[arg(long = "filter", value_name = "KEY=VALUE")]
pub filter: Vec<String>,
#[doc = r" Reshape/narrow the already-fetched result with a JMESPath"]
#[doc = r" expression (https://jmespath.org), client-side -- e.g."]
#[doc = r" [].name or [?blocked==`true`]. Applied after fetching,"]
#[doc = r" before rendering in --format. (Named distinctly from"]
#[doc = r" --filter's own `query` key, several resources' own"]
#[doc = r" full-text search field.)"]
#[arg(long)]
pub jmespath: Option<String>,
"##@ + r##"
#[doc = r" Stop after this many items (across however many pages that"]
#[doc = r" takes), instead of fetching the complete result"]
#[arg(long)]
pub limit: Option<i64>,
"##@ + fields
    } else if verb == "create"@ {
        &&& sends_a_body(op, "CREATE_SKELETON"@, command.body)
        &&& has_body_parts(resource, verb, op, inputs, "CREATE_SKELETON"@, command)
    } else if verb == "update"@ {
        &&& sends_a_body(op, "UPDATE_SKELETON"@, command.body)
        &&& has_body_parts(resource, verb, op, inputs, "UPDATE_SKELETON"@, command)
    } else {
        &&& verb == "get"@ ==> gets(op, command.body)
        &&& verb == "delete"@ ==> deletes(op, command.body)
        &&& command.flags == path_field(op, ": String,\n"@)
        &&& command.attr == ""@
        &&& command.table == ""@
        &&& command.template == ""@
    }
}

proof fn lemma_found_at(source: Seq<char>, needle: Seq<char>, from: int)
    requires
        text::first_occurrence(source, needle, from) is Some,
    ensures
        text::occurs_at(source, needle, text::first_occurrence(source, needle, from)->0),
        forall|at: int|
            from <= at < text::first_occurrence(source, needle, from)->0 ==> !(
            #[trigger] text::occurs_at(source, needle, at)),
    decreases source.len() + 1 - from,
{
    if !text::occurs_at(source, needle, from) {
        lemma_found_at(source, needle, from + 1);
        assert forall|at: int|
            from <= at < text::first_occurrence(source, needle, from)->0 implies !(
        #[trigger] text::occurs_at(source, needle, at)) by {
            if at > from {
                assert(from + 1 <= at);
            }
        }
    }
}

proof fn lemma_surround(op: Operation, param: Seq<char>)
    requires
        verb_codegen::split_path(op, param) is Ok,
    ensures
        ({
            let (before, ident, behind) = verb_codegen::split_path(op, param)->Ok_0;
            surround(op.path, param, before, behind) && ident == rust_text::field_name(param)
        }),
{
    let needle = "{"@ + param + "}"@;
    lemma_found_at(op.path, needle, 0);
    let at = text::first_occurrence(op.path, needle, 0)->0;
    assert(op.path.take(at) + needle + op.path.skip(at + needle.len()) =~= op.path);
}

proof fn lemma_gives_path(op: Operation)
    requires
        verb_codegen::path_expr(op) is Ok,
    ensures
        gives_path(op, verb_codegen::path_expr(op)->Ok_0),
{
    if op.path_param is Some {
        lemma_surround(op, op.path_param->0);
    }
}

proof fn lemma_binds_path(op: Operation)
    requires
        verb_codegen::body_path(op) is Ok,
    ensures
        binds_path(op, verb_codegen::body_path(op)->Ok_0),
{
    if op.path_param is Some {
        lemma_surround(op, op.path_param->0);
    }
}

proof fn lemma_method(op: Operation)
    requires
        verb_codegen::http_method(op) is Ok,
    ensures
        is_method_of(op, verb_codegen::http_method(op)->Ok_0),
{
}

proof fn lemma_filters_by(op: Operation)
    ensures
        filters_by(op, verb_codegen::filter_table("list"@, op)),
{
    let kept = |param: Param| verb_codegen::filter_kind(param.kind) is Some;
    let wanted = |param: Param|
        param.kind != ParamKind::SkippedOptional && param.kind != ParamKind::SkippedRequired;
    lemma_same_filter(op.query_params, kept, wanted);
    let entries = verb_codegen::filter_entries(op.query_params);
    assert forall|i: int| 0 <= i < entries.len() implies is_entry(
        usable(op.query_params)[i],
        #[trigger] entries[i],
    ) by {
        let param = usable(op.query_params)[i];
        lemma_filtered(op.query_params, wanted, i);
        assert(value_kind(param.kind, verb_codegen::filter_kind(param.kind)->0));
    }
    assert(text::joined(entries, ", "@) == text::joined(entries, ", "@));
}

pub(crate) proof fn lemma_same_filter(
    params: Seq<Param>,
    one: spec_fn(Param) -> bool,
    other: spec_fn(Param) -> bool,
)
    requires
        forall|param: Param| #[trigger] one(param) == other(param),
    ensures
        params.filter(one) == params.filter(other),
    decreases params.len(),
{
    reveal(Seq::filter);
    if params.len() > 0 {
        lemma_same_filter(params.drop_last(), one, other);
        assert(one(params.last()) == other(params.last()));
    }
}

pub(crate) proof fn lemma_filtered(params: Seq<Param>, wanted: spec_fn(Param) -> bool, i: int)
    requires
        0 <= i < params.filter(wanted).len(),
    ensures
        wanted(params.filter(wanted)[i]),
    decreases params.len(),
{
    reveal(Seq::filter);
    if params.len() > 0 && i < params.drop_last().filter(wanted).len() {
        lemma_filtered(params.drop_last(), wanted, i);
    }
}

/// The command that a verb adds to the module of its resource.
spec fn command_from(
    resource: Resource,
    verb: Seq<char>,
    op: Operation,
    inputs: Inputs,
    body: Seq<char>,
) -> Command {
    Command {
        name: rust_text::pascal(verb),
        doc: rust_text::literal_text(
            rust_text::pascal(verb) + " "@ + text::lowercase(resource.about@),
        ),
        args: rust_text::pascal(resource.name@) + rust_text::pascal(verb) + "Args"@,
        attr: verb_codegen::struct_attr(resource.name@, verb),
        flags: verb_codegen::flags(verb, op, inputs.field_values),
        body,
        table: verb_codegen::filter_table(verb, op),
        template: verb_codegen::skeleton_item(verb, op, inputs.request_skeletons),
    }
}

proof fn lemma_verb_does(resource: Resource, v: int, inputs: Inputs) -> (command: Command)
    requires
        0 <= v < 5,
        resource.commands@.contains_key(verb_text(v)),
        inputs.operations.contains_key(resource.commands@[verb_text(v)]@),
        verb_codegen::verb_parts(
            resource,
            verb_text(v),
            resource.commands@[verb_text(v)]@,
            operation_for(resource, verb_text(v), inputs),
            inputs.field_values,
            inputs.request_skeletons,
            verb_codegen::list_has_project(resource, inputs.operations),
        ) is Ok,
    ensures
        does(resource, verb_text(v), inputs, command),
        ({
            let parts = verb_codegen::verb_parts(
                resource,
                verb_text(v),
                resource.commands@[verb_text(v)]@,
                operation_for(resource, verb_text(v), inputs),
                inputs.field_values,
                inputs.request_skeletons,
                verb_codegen::list_has_project(resource, inputs.operations),
            )->Ok_0;
            &&& parts.variants == variant_text(command)
            &&& parts.structs == struct_text(command)
            &&& parts.arms == arm_text(resource, command)
            &&& parts.filter_specs == command.table
            &&& parts.skeletons == command.template
        }),
{
    manifest::known_verbs_differ();
    let verb = verb_text(v);
    let op = operation_for(resource, verb, inputs);
    let with_project = verb_codegen::list_has_project(resource, inputs.operations);
    let body = verb_codegen::verb_body(verb, op, with_project)->Ok_0;
    let command = command_from(resource, verb, op, inputs, body);
    lemma_gives_path(op);
    if verb == "list"@ {
        assert(with_project == scoped(op));
        lemma_filters_by(op);
        let fields = verb_codegen::fields_flag(
            verb_codegen::known_fields(op, inputs.field_values),
        );
        assert(takes_fields(op, inputs, fields)) by {
            if verb_codegen::known_fields(op, inputs.field_values) is Some {
                let names = text::texts(inputs.field_values[op.field_enum_name->0]@);
                assert(names.map_values(|name: Seq<char>| rust_text::literal_text(name))
                    =~= rust_text::literal_texts(names));
            }
        }
    } else {
        lemma_method(op);
        if verb_codegen::has_body(verb) {
            lemma_binds_path(op);
            assert(is_type_of(op, verb_codegen::request_type(op.request_body_type->0)->Ok_0));
        }
    }
    command
}

proof fn lemma_commands(resource: Resource, inputs: Inputs, n: nat) -> (commands: Seq<Command>)
    requires
        n <= 5,
        verb_codegen::first_verbs(
            resource,
            inputs.operations,
            inputs.field_values,
            inputs.request_skeletons,
            n,
        ) is Ok,
    ensures
        commands.len() == given_verbs(resource, n).len(),
        forall|i: int|
            0 <= i < commands.len() ==> does(
                resource,
                given_verbs(resource, n)[i],
                inputs,
                #[trigger] commands[i],
            ),
        verb_codegen::first_verbs(
            resource,
            inputs.operations,
            inputs.field_values,
            inputs.request_skeletons,
            n,
        )->Ok_0 == (Parts {
            variants: of_each(commands, |command: Command| variant_text(command)),
            arms: of_each(commands, |command: Command| arm_text(resource, command)),
            structs: of_each(commands, |command: Command| struct_text(command)),
            filter_specs: of_each(commands, |command: Command| command.table),
            skeletons: of_each(commands, |command: Command| command.template),
        }),
    decreases n,
{
    if n == 0 {
        Seq::empty()
    } else {
        manifest::known_verbs_differ();
        let few = (n - 1) as nat;
        let before = lemma_commands(resource, inputs, few);
        let verb = verb_text(n - 1);
        assert(verb == manifest::verb_at(n - 1));
        if resource.commands@.contains_key(verb) {
            let command = lemma_verb_does(resource, n - 1, inputs);
            let commands = before.push(command);
            assert(commands.drop_last() =~= before);
            assert forall|i: int| 0 <= i < commands.len() implies does(
                resource,
                given_verbs(resource, n)[i],
                inputs,
                #[trigger] commands[i],
            ) by {
                if i < before.len() {
                    assert(commands[i] == before[i]);
                }
            }
            commands
        } else {
            before
        }
    }
}

/// Whether the manifest gives a resource that verb.
pub open spec fn given(resource: Resource, verb: Seq<char>) -> bool {
    resource.commands@.contains_key(verb)
}

/// The variants of `provision` and `terminate`, each with its argument struct.
pub open spec fn order_variants(resource: Resource) -> Seq<char> {
    let about = text::lowercase(resource.about@);
    "#[doc = "@ + rust_text::literal_text("Provision "@ + about + " via a marketplace order"@)
        + "]\nProvision("@ + (rust_text::pascal(resource.name@) + "ProvisionArgs"@)
        + "),\n#[doc = "@ + rust_text::literal_text(
        "Terminate "@ + about + " via a marketplace order"@,
    ) + "]\nTerminate("@ + (rust_text::pascal(resource.name@) + "TerminateArgs"@) + "),\n"@
}

/// The arms of `provision`, which prints the order template or submits the order that it
/// loaded, and of `terminate`.
pub open spec fn order_arms(resource: Resource) -> Seq<char> {
    let command = rust_text::pascal(resource.name@) + "Command"@;
    command + r##"::Provision(args) => {
    if let Some(fmt) = args.generate_skeleton {
        crate::request::print_skeleton(PROVISION_SKELETON, fmt)?;
        return Ok(());
    }
    let body = crate::request::load_body(args.request.as_deref(), args.request_file.as_deref())?;
    crate::order::provision(base_url, token, &body, project, dry_run, !args.no_wait, args.timeout, format).await?;
}
"##@ + command + r##"::Terminate(args) => {
    crate::order::terminate(base_url, token, &args.uuid, args.request.as_deref(), dry_run, !args.no_wait, args.timeout, format).await?;
}
"##@
}

/// The argument structs of `provision` and `terminate`.
pub open spec fn order_structs(resource: Resource) -> Seq<char> {
    "#[derive(clap::Args, Debug)]\n"@ + one_body(
        rust_text::module_name(resource.name@) + "_provision_body"@,
    ) + "pub struct "@ + (rust_text::pascal(resource.name@) + "ProvisionArgs"@)
        + r##" {
    #[doc = r" The marketplace order body as inline JSON. Use"]
    #[doc = r" --generate-skeleton for a template (offering/project plus"]
    #[doc = r" this resource's typed attributes), or --request-file to"]
    #[doc = r" read it from a file."]
    #[arg(long)]
    pub request: Option<String>,
    #[doc = r" Read the order body from a JSON or YAML file."]
    #[arg(long, value_name = "PATH")]
    pub request_file: Option<std::path::PathBuf>,
    #[doc = r" Print a fillable order template and exit, instead of"]
    #[doc = r" submitting (json or yaml; default json)."]
    #[arg(long, value_enum, num_args = 0..=1, default_missing_value = "json", value_name = "FORMAT")]
    pub generate_skeleton: Option<crate::request::SkeletonFormat>,
    #[doc = r" Submit the order and return immediately, without polling"]
    #[doc = r" it to completion."]
    #[arg(long)]
    pub no_wait: bool,
    #[doc = r" Seconds to wait for the order to reach a terminal state"]
    #[doc = r" before giving up (ignored with --no-wait)."]
    #[arg(long, default_value_t = 600)]
    pub timeout: u64,
}
"##@ + "#[derive(clap::Args, Debug)]\npub struct "@ + (
    rust_text::pascal(resource.name@) + "TerminateArgs"@) + r##" {
    #[doc = r" The marketplace resource UUID (a resource's"]
    #[doc = r" `marketplace_resource_uuid` field, from get/list) -- not"]
    #[doc = r" the plugin resource's own UUID."]
    pub uuid: String,
    #[doc = r" Optional termination attributes as inline JSON, e.g."]
    #[doc = r#" '{"delete_volumes": true}'."#]
    #[arg(long)]
    pub request: Option<String>,
    #[doc = r" Submit the termination and return immediately, without"]
    #[doc = r" polling the order to completion."]
    #[arg(long)]
    pub no_wait: bool,
    #[doc = r" Seconds to wait for the termination order before giving"]
    #[doc = r" up (ignored with --no-wait)."]
    #[arg(long, default_value_t = 600)]
    pub timeout: u64,
}
"##@
}

/// The order template of a resource.
pub open spec fn order_constant(resource: Resource, inputs: Inputs) -> Seq<char> {
    "const PROVISION_SKELETON: &str = "@ + rust_text::literal_text(
        inputs.order_skeletons[resource.name@]@,
    ) + ";\n"@
}

/// A text where a resource has a marketplace order, else nothing.
pub open spec fn if_ordered(resource: Resource, text: Seq<char>) -> Seq<char> {
    if resource.order is Some {
        text
    } else {
        ""@
    }
}

/// A module of commands: the columns, the filter tables and the templates, then the enum
/// of the commands, their argument structs, and `run` with one arm for each of them.
pub open spec fn module_of(resource: Resource, inputs: Inputs, commands: Seq<Command>) -> Seq<char> {
    module_start(resource, inputs, commands) + (of_each(
        commands,
        |command: Command| arm_text(resource, command),
    ) + if_ordered(resource, order_arms(resource))) + "} Ok(()) }\n"@
}

/// A module of commands, up to the arms of `run`.
pub open spec fn module_start(resource: Resource, inputs: Inputs, commands: Seq<Command>) -> Seq<
    char,
> {
    let command = rust_text::pascal(resource.name@) + "Command"@;
    let with_body = given(resource, "create"@) || given(resource, "update"@);
    let changing = with_body || given(resource, "delete"@) || resource.order is Some;
    let projects = (given(resource, "list"@) && scoped(operation_for(resource, "list"@, inputs)))
        || resource.order is Some;
    r##"
#![doc = r" Generated by waldur-cli-generator from `commands.toml`. Do not edit by hand;"]
#![doc = r" see that repo's README for how to regenerate."]
#![allow(clippy::too_many_arguments)]
"##@ + (if with_body {
        "use anyhow::Context;\n"@
    } else {
        ""@
    }) + "const COLUMNS: &[&str; "@ + text::decimal(resource.columns@.len())
        + "usize] = &["@ + text::joined(
        text::texts(resource.columns@).map_values(
            |column: Seq<char>| rust_text::literal_text(column),
        ),
        ", "@,
    ) + "];\n"@ + of_each(commands, |command: Command| command.table) + (of_each(
        commands,
        |command: Command| command.template,
    ) + if_ordered(resource, order_constant(resource, inputs))) + "#[doc = "@
        + rust_text::literal_text(resource.about@)
        + "]\n#[derive(clap::Subcommand, Debug)]\npub enum "@ + command + " {\n"@ + (of_each(
        commands,
        |command: Command| variant_text(command),
    ) + if_ordered(resource, order_variants(resource))) + "}\n"@ + (of_each(
        commands,
        |command: Command| struct_text(command),
    ) + if_ordered(resource, order_structs(resource))) + r##"
pub async fn run(
    _client: &waldur_client::HttpClient,
    base_url: &str,
    token: Option<&str>,
"##@ + (if projects {
        "project: Option<&str>,\n"@
    } else {
        "_project: Option<&str>,\n"@
    }) + (if changing {
        "dry_run: bool,\n"@
    } else {
        "_dry_run: bool,\n"@
    }) + "command: "@ + command + r##",
    format: crate::output::OutputFormat,
) -> anyhow::Result<()> {
    match command {
"##@
}

/// A generated module holds exactly the commands that the manifest gives its resource, and
/// `provision` and `terminate` where it has a marketplace order. Every variant of the
/// command enum has exactly one argument struct and one arm, and every command does what
/// its verb says with the operation that the manifest gives it.
pub proof fn a_module_holds_its_commands(resource: Resource, inputs: Inputs) -> (commands: Seq<
    Command,
>)
    requires
        codegen::module_text(
            resource,
            inputs.operations,
            inputs.field_values,
            inputs.request_skeletons,
            inputs.order_skeletons,
        ) is Ok,
    ensures
        commands.len() == given_verbs(resource, 5).len(),
        forall|i: int|
            0 <= i < commands.len() ==> does(
                resource,
                given_verbs(resource, 5)[i],
                inputs,
                #[trigger] commands[i],
            ),
        resource.order is Some ==> inputs.order_skeletons.contains_key(resource.name@),
        codegen::module_text(
            resource,
            inputs.operations,
            inputs.field_values,
            inputs.request_skeletons,
            inputs.order_skeletons,
        )->Ok_0 == module_of(resource, inputs, commands),
{
    let commands = lemma_commands(resource, inputs, 5);
    let parts = verb_codegen::first_verbs(
        resource,
        inputs.operations,
        inputs.field_values,
        inputs.request_skeletons,
        5,
    )->Ok_0;
    let order = codegen::order_parts(resource, inputs.order_skeletons)->Ok_0;
    reveal_strlit("");
    assert(parts.filter_specs + order.filter_specs =~= parts.filter_specs);
    assert(order.arms == if_ordered(resource, order_arms(resource)));
    assert(order.variants == if_ordered(resource, order_variants(resource)));
    assert(order.structs == if_ordered(resource, order_structs(resource)));
    assert(order.skeletons == if_ordered(resource, order_constant(resource, inputs)));
    let columns = text::texts(resource.columns@);
    assert(columns.map_values(|column: Seq<char>| rust_text::literal_text(column))
        =~= rust_text::literal_texts(columns));
    if given(resource, "list"@) {
        lemma_given(resource, inputs, commands);
    }
    commands
}

proof fn lemma_given(resource: Resource, inputs: Inputs, commands: Seq<Command>)
    requires
        given(resource, "list"@),
        commands.len() == given_verbs(resource, 5).len(),
        forall|i: int|
            0 <= i < commands.len() ==> does(
                resource,
                given_verbs(resource, 5)[i],
                inputs,
                #[trigger] commands[i],
            ),
    ensures
        inputs.operations.contains_key(resource.commands@["list"@]@),
{
    reveal_with_fuel(given_verbs, 6);
    assert(given_verbs(resource, 5)[0] == "list"@);
    assert(does(resource, given_verbs(resource, 5)[0], inputs, commands[0]));
}

/// Whether the type of a request body can stand in the source.
pub open spec fn has_usable_type(op: Operation) -> bool {
    let tokens = rust_text::type_tokens("waldur_client::"@ + op.request_body_type->0);
    &&& op.request_body_type is Some
    &&& tokens is Ok
    &&& rust_text::type_tree(tokens->Ok_0) is Some
    &&& only_known_syntax(rust_text::type_tree(tokens->Ok_0)->0)
}

/// Whether the tree of a type is made of known syntax alone: none of it is kept as a row of
/// tokens, unless the row is empty, and no macro is defined in it.
pub open spec fn only_known_syntax(tree: Seq<char>) -> bool {
    &&& forall|at: int|
        text::occurs_at(tree, "Verbatim(TokenStream ["@, at) ==> {
            let first = at + "Verbatim(TokenStream ["@.len();
            first == tree.len() || tree[first] == ']'
        }
    &&& forall|at: int| !(#[trigger] text::occurs_at(tree, "Ident(macro_rules)"@, at))
}

pub(crate) proof fn lemma_known_syntax(tree: Seq<char>)
    ensures
        verb_codegen::printable(tree) == only_known_syntax(tree),
{
    if verb_codegen::printable(tree) {
        assert forall|at: int|
            text::occurs_at(tree, "Verbatim(TokenStream ["@, at) implies {
            let first = at + "Verbatim(TokenStream ["@.len();
            first == tree.len() || tree[first] == ']'
        } by {
            assert(!verb_codegen::bare_tokens_at(tree, at));
        }
    }
}

/// Whether the path of an operation has a place for its path parameter, which can be a
/// field.
pub open spec fn has_place(op: Operation) -> bool {
    op.path_param is Some ==> text::occurs(op.path, "{"@ + op.path_param->0 + "}"@)
        && rust_text::is_ident(rust_text::field_name(op.path_param->0))
}

/// Whether the HTTP verb of an operation is a known one.
pub open spec fn has_method(op: Operation) -> bool {
    op.http_verb == "get"@ || op.http_verb == "post"@ || op.http_verb == "put"@ || op.http_verb
        == "patch"@ || op.http_verb == "delete"@
}

/// Whether a verb can be a command with the operation that the manifest gives it.
pub open spec fn can_be(resource: Resource, verb: Seq<char>, inputs: Inputs) -> bool {
    let op = operation_for(resource, verb, inputs);
    &&& inputs.operations.contains_key(resource.commands@[verb]@)
    &&& has_place(op)
    &&& rust_text::is_ident(
        rust_text::pascal(resource.name@) + rust_text::pascal(verb) + "Args"@,
    )
    &&& if verb == "list"@ {
        forall|i: int|
            0 <= i < op.query_params.len() ==> (#[trigger] op.query_params[i]).kind
                != ParamKind::SkippedRequired
    } else {
        op.query_params.len() == 0 && has_method(op)
    }
    &&& verb == "create"@ || verb == "update"@ ==> has_usable_type(op)
        && inputs.request_skeletons.contains_key(op.request_body_type->0)
}

/// Whether a resource can be generated: each of its verbs can be a command, its order has a
/// template, and its names are identifiers.
pub open spec fn can_be_generated(resource: Resource, inputs: Inputs) -> bool {
    let name = rust_text::pascal(resource.name@);
    &&& rust_text::is_ident(name + "Command"@)
    &&& forall|v: int|
        0 <= v < 5 && given(resource, #[trigger] verb_text(v)) ==> can_be(
            resource,
            verb_text(v),
            inputs,
        )
    &&& resource.order is Some ==> inputs.order_skeletons.contains_key(resource.name@)
        && rust_text::is_ident(name + "ProvisionArgs"@) && rust_text::is_ident(
        name + "TerminateArgs"@,
    )
}

pub(crate) proof fn lemma_occurs_first(source: Seq<char>, needle: Seq<char>, from: int, at: int)
    requires
        0 <= from <= at,
        text::occurs_at(source, needle, at),
    ensures
        text::first_occurrence(source, needle, from) is Some,
    decreases at - from,
{
    if from < at {
        lemma_occurs_first(source, needle, from + 1, at);
    }
}

proof fn lemma_place(op: Operation)
    ensures
        verb_codegen::path_expr(op) is Ok <==> has_place(op),
        verb_codegen::body_path(op) is Ok <==> has_place(op),
{
    if op.path_param is Some {
        let needle = "{"@ + op.path_param->0 + "}"@;
        if text::occurs(op.path, needle) {
            let at = choose|at: int| text::occurs_at(op.path, needle, at);
            lemma_occurs_first(op.path, needle, 0, at);
        } else if text::first_occurrence(op.path, needle, 0) is Some {
            lemma_found_at(op.path, needle, 0);
        }
    }
}

proof fn lemma_all_mapped(params: Seq<Param>)
    ensures
        verb_codegen::first_unmapped(params) is None <==> forall|i: int|
            0 <= i < params.len() ==> (#[trigger] params[i]).kind != ParamKind::SkippedRequired,
    decreases params.len(),
{
    if params.len() > 0 {
        let before = params.drop_last();
        lemma_all_mapped(before);
        assert(forall|i: int| 0 <= i < before.len() ==> #[trigger] params[i] == before[i]);
        assert(params[params.len() - 1] == params.last());
        if verb_codegen::first_unmapped(before) is Some {
            let i = choose|i: int|
                0 <= i < before.len() && (#[trigger] before[i]).kind == ParamKind::SkippedRequired;
            assert(params[i].kind == ParamKind::SkippedRequired);
        } else {
            assert forall|i: int| 0 <= i < before.len() implies (#[trigger] params[i]).kind
                != ParamKind::SkippedRequired by {
                assert(before[i].kind != ParamKind::SkippedRequired);
            }
        }
    }
}

proof fn lemma_verb_can_be(resource: Resource, v: int, inputs: Inputs)
    requires
        0 <= v < 5,
        inputs.operations.contains_key(resource.commands@[verb_text(v)]@),
    ensures
        verb_codegen::verb_parts(
            resource,
            verb_text(v),
            resource.commands@[verb_text(v)]@,
            operation_for(resource, verb_text(v), inputs),
            inputs.field_values,
            inputs.request_skeletons,
            verb_codegen::list_has_project(resource, inputs.operations),
        ) is Ok <==> can_be(resource, verb_text(v), inputs),
{
    manifest::known_verbs_differ();
    let verb = verb_text(v);
    let op = operation_for(resource, verb, inputs);
    lemma_place(op);
    lemma_all_mapped(op.query_params);
    let tokens = rust_text::type_tokens("waldur_client::"@ + op.request_body_type->0);
    lemma_known_syntax(rust_text::type_tree(tokens->Ok_0)->0);
}

proof fn lemma_verbs_can_be(resource: Resource, inputs: Inputs, n: nat)
    requires
        n <= 5,
    ensures
        verb_codegen::first_verbs(
            resource,
            inputs.operations,
            inputs.field_values,
            inputs.request_skeletons,
            n,
        ) is Ok <==> forall|v: int|
            0 <= v < n && given(resource, #[trigger] verb_text(v)) ==> can_be(
                resource,
                verb_text(v),
                inputs,
            ),
    decreases n,
{
    if n > 0 {
        manifest::known_verbs_differ();
        let last = n - 1;
        let few = last as nat;
        lemma_verbs_can_be(resource, inputs, few);
        assert(verb_text(last) == manifest::verb_at(last));
        if given(resource, verb_text(last)) && inputs.operations.contains_key(
            resource.commands@[verb_text(last)]@,
        ) {
            lemma_verb_can_be(resource, last, inputs);
        }
    }
}

/// A resource is generated exactly where it can be: nothing else makes generation fail.
pub proof fn a_resource_is_generated_where_it_can_be(resource: Resource, inputs: Inputs)
    ensures
        codegen::module_text(
            resource,
            inputs.operations,
            inputs.field_values,
            inputs.request_skeletons,
            inputs.order_skeletons,
        ) is Ok <==> can_be_generated(resource, inputs),
{
    lemma_verbs_can_be(resource, inputs, 5);
}

proof fn lemma_occurs_inside(
    before: Seq<char>,
    content: Seq<char>,
    behind: Seq<char>,
    piece: Seq<char>,
)
    requires
        text::occurs(content, piece),
    ensures
        text::occurs(before + content + behind, piece),
{
    let at = choose|at: int| text::occurs_at(content, piece, at);
    let all = before + content + behind;
    let from = before.len() + at;
    assert(all.subrange(from, from + piece.len()) =~= content.subrange(at, at + piece.len()));
    assert(text::occurs_at(all, piece, from));
}

proof fn lemma_piece_of_each(
    commands: Seq<Command>,
    piece: spec_fn(Command) -> Seq<char>,
    k: int,
)
    requires
        0 <= k < commands.len(),
    ensures
        text::occurs(of_each(commands, piece), piece(commands[k])),
    decreases commands.len(),
{
    let before = of_each(commands.drop_last(), piece);
    let last = piece(commands.last());
    if k < commands.len() - 1 {
        lemma_piece_of_each(commands.drop_last(), piece, k);
        lemma_occurs_inside(Seq::empty(), before, last, piece(commands[k]));
        assert(Seq::<char>::empty() + before + last =~= before + last);
    } else {
        let all = before + last;
        let at = before.len() as int;
        assert(all.subrange(at, at + last.len()) =~= last);
        assert(text::occurs_at(all, last, at));
    }
}

pub(crate) proof fn lemma_arm_is_there(
    resource: Resource,
    inputs: Inputs,
    commands: Seq<Command>,
    k: int,
)
    requires
        0 <= k < commands.len(),
    ensures
        text::occurs(module_of(resource, inputs, commands), arm_text(resource, commands[k])),
{
    let arm = |command: Command| arm_text(resource, command);
    let arms = of_each(commands, arm);
    let order = if_ordered(resource, order_arms(resource));
    let start = module_start(resource, inputs, commands);
    let piece = arm_text(resource, commands[k]);
    lemma_piece_of_each(commands, arm, k);
    lemma_occurs_inside(Seq::empty(), arms, order, piece);
    assert(Seq::<char>::empty() + arms + order =~= arms + order);
    lemma_occurs_inside(start, arms + order, "} Ok(()) }\n"@, piece);
}

} // verus!
