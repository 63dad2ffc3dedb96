//! What a single verb of a resource adds to the generated source: its flags, its checks
//! and the statements that carry it out.
use crate::codegen_error::CodegenError;
use crate::manifest;
use crate::manifest::{Resource, KNOWN_VERBS};
use crate::rust_text;
use crate::rust_text::{
    field_ident, literal_list, pascal_case, read_type, read_type_tree, snake_name, string_literal,
    valid_ident,
};
use crate::schema;
use crate::schema::{ExtractedOperation, ExtractedParam, Operation, Param, ParamKind};
use crate::table::Table;
use crate::templates;
use crate::text;
use crate::text::{debug_quoted, has_text, join, same, split_once};
use vstd::prelude::*;
use vstd::string::*;

verus! {

/// The filter kind of a parameter, where it has one.
pub open spec fn filter_kind(kind: ParamKind) -> Option<Seq<char>> {
    match kind {
        ParamKind::RequiredStr | ParamKind::OptionalStr => Some(
            "crate::filter::FilterKind::Str"@,
        ),
        ParamKind::RequiredBool | ParamKind::OptionalBool => Some(
            "crate::filter::FilterKind::Bool"@,
        ),
        ParamKind::RequiredI64 | ParamKind::OptionalI64 => Some(
            "crate::filter::FilterKind::I64"@,
        ),
        ParamKind::SkippedOptional | ParamKind::SkippedRequired => None,
    }
}

/// The filter kind of a query parameter, so that a `--filter` value can be checked on
/// the client. `None` for an optional parameter that cannot be a filter at all; a
/// required one of these is an error, since it cannot be dropped silently.
pub fn filter_kind_expr(param: &ExtractedParam) -> (result: Result<Option<String>, CodegenError>)
    ensures
        match result {
            Ok(kind) => !(param.kind is SkippedRequired) && text::opt_text(kind) == filter_kind(
                param.kind,
            ),
            Err(error) => param.kind is SkippedRequired && error.model()
                == (CodegenError::UnmappedFilter { param: param.name@ }),
        },
{
    match param.kind {
        ParamKind::RequiredStr | ParamKind::OptionalStr => Ok(
            Some("crate::filter::FilterKind::Str".to_string()),
        ),
        ParamKind::RequiredBool | ParamKind::OptionalBool => Ok(
            Some("crate::filter::FilterKind::Bool".to_string()),
        ),
        ParamKind::RequiredI64 | ParamKind::OptionalI64 => Ok(
            Some("crate::filter::FilterKind::I64".to_string()),
        ),
        ParamKind::SkippedOptional => Ok(None),
        ParamKind::SkippedRequired => Err(
            CodegenError::UnmappedFilter { param: param.name.clone() },
        ),
    }
}

/// One entry of a filter table.
pub open spec fn filter_entry(param: Param) -> Seq<char> {
    "("@ + rust_text::literal_text(param.name) + ", "@ + filter_kind(param.kind)->0 + ")"@
}

/// The entries of a filter table: one for every parameter that has a filter kind.
pub open spec fn filter_entries(params: Seq<Param>) -> Seq<Seq<char>> {
    params.filter(|param: Param| filter_kind(param.kind) is Some).map_values(
        |param: Param| filter_entry(param),
    )
}

/// The first required parameter without a filter kind.
pub open spec fn first_unmapped(params: Seq<Param>) -> Option<Seq<char>>
    decreases params.len(),
{
    if params.len() == 0 {
        None
    } else if first_unmapped(params.drop_last()) is Some {
        first_unmapped(params.drop_last())
    } else if params.last().kind is SkippedRequired {
        Some(params.last().name)
    } else {
        None
    }
}

proof fn lemma_unmapped_stays(params: Seq<Param>, i: int)
    requires
        0 <= i <= params.len(),
        first_unmapped(params.take(i)) is Some,
    ensures
        first_unmapped(params) == first_unmapped(params.take(i)),
    decreases params.len() - i,
{
    if i < params.len() {
        assert(params.take(i + 1).drop_last() =~= params.take(i));
        lemma_unmapped_stays(params, i + 1);
    } else {
        assert(params.take(i) =~= params);
    }
}

/// The filter table of a list of parameters.
pub fn filter_spec_entries(params: &Vec<ExtractedParam>) -> (result: Result<
    Vec<String>,
    CodegenError,
>)
    ensures
        match result {
            Ok(entries) => first_unmapped(schema::params_of(params@)) is None
                && text::texts(entries@) == filter_entries(schema::params_of(params@)),
            Err(error) => first_unmapped(schema::params_of(params@)) is Some
                && error.model() == (CodegenError::UnmappedFilter {
                param: first_unmapped(schema::params_of(params@))->0,
            }),
        },
{
    let ghost all = schema::params_of(params@);
    let mut entries: Vec<String> = Vec::new();
    proof {
        reveal(Seq::filter);
        assert(text::texts(entries@) =~= filter_entries(all.take(0)));
    }
    for i in 0..params.len()
        invariant
            all == schema::params_of(params@),
            first_unmapped(all.take(i as int)) is None,
            text::texts(entries@) == filter_entries(all.take(i as int)),
    {
        let param = &params[i];
        proof {
            reveal(Seq::filter);
            assert(all.take(i + 1).drop_last() =~= all.take(i as int));
            assert(all.take(i + 1).last() == param@);
        }
        let ghost before = text::texts(entries@);
        match filter_kind_expr(param) {
            Ok(Some(kind)) => {
                let entry = "(".to_string().concat(
                    string_literal(param.name.as_str()).as_str(),
                ).concat(", ").concat(kind.as_str()).concat(")");
                entries.push(entry);
                assert(text::texts(entries@) =~= before.push(filter_entry(param@)));
                assert(filter_entries(all.take(i + 1)) =~= before.push(filter_entry(param@)));
            },
            Ok(None) => {
                assert(filter_entries(all.take(i + 1)) =~= before);
            },
            Err(error) => {
                proof {
                    lemma_unmapped_stays(all, i + 1);
                }
                return Err(error);
            },
        }
    }
    assert(all.take(all.len() as int) =~= all);
    Ok(entries)
}

/// The HTTP method of an operation, by the schema and not by the command's verb.
pub open spec fn http_method(op: Operation) -> Result<Seq<char>, CodegenError<Seq<char>>> {
    if op.http_verb == "get"@ {
        Ok("reqwest::Method::GET"@)
    } else if op.http_verb == "post"@ {
        Ok("reqwest::Method::POST"@)
    } else if op.http_verb == "put"@ {
        Ok("reqwest::Method::PUT"@)
    } else if op.http_verb == "patch"@ {
        Ok("reqwest::Method::PATCH"@)
    } else if op.http_verb == "delete"@ {
        Ok("reqwest::Method::DELETE"@)
    } else {
        Err(
            CodegenError::UnknownHttpVerb {
                operation: op.operation_id,
                http_verb: op.http_verb,
            },
        )
    }
}

/// Whether a result in values is a result in contracts.
pub open spec fn agrees(
    result: Result<String, CodegenError>,
    wanted: Result<Seq<char>, CodegenError<Seq<char>>>,
) -> bool {
    match result {
        Ok(made) => wanted == Ok::<Seq<char>, CodegenError<Seq<char>>>(made@),
        Err(error) => wanted == Err::<Seq<char>, CodegenError<Seq<char>>>(error.model()),
    }
}

/// The `reqwest::Method` expression of an operation.
pub fn http_method_expr(op: &ExtractedOperation) -> (result: Result<String, CodegenError>)
    ensures
        agrees(result, http_method(op@)),
{
    let verb = op.http_verb.as_str();
    if same(verb, "get") {
        Ok("reqwest::Method::GET".to_string())
    } else if same(verb, "post") {
        Ok("reqwest::Method::POST".to_string())
    } else if same(verb, "put") {
        Ok("reqwest::Method::PUT".to_string())
    } else if same(verb, "patch") {
        Ok("reqwest::Method::PATCH".to_string())
    } else if same(verb, "delete") {
        Ok("reqwest::Method::DELETE".to_string())
    } else {
        Err(
            CodegenError::UnknownHttpVerb {
                operation: op.operation_id.clone(),
                http_verb: op.http_verb.clone(),
            },
        )
    }
}

/// The placeholder of a path parameter in a path.
pub open spec fn path_placeholder(param: Seq<char>) -> Seq<char> {
    "{"@ + param + "}"@
}

/// The path of an operation split around its path parameter: what stands before it, the
/// identifier for it and what stands behind it.
pub open spec fn split_path(op: Operation, param: Seq<char>) -> Result<
    (Seq<char>, Seq<char>, Seq<char>),
    CodegenError<Seq<char>>,
> {
    match text::split_around(op.path, path_placeholder(param)) {
        None => Err(
            CodegenError::NoPathPlaceholder { operation: op.operation_id, path: op.path, param },
        ),
        Some((before, behind)) => {
            let ident = rust_text::field_name(param);
            if rust_text::is_ident(ident) {
                Ok((before, ident, behind))
            } else {
                Err(CodegenError::NotAnIdentifier { name: ident })
            }
        },
    }
}

fn split_path_around(op: &ExtractedOperation, param: &str) -> (result: Result<
    (String, String, String),
    CodegenError,
>)
    ensures
        match result {
            Ok((before, ident, behind)) => split_path(op@, param@) == Ok::<
                (Seq<char>, Seq<char>, Seq<char>),
                CodegenError<Seq<char>>,
            >((before@, ident@, behind@)),
            Err(error) => split_path(op@, param@) == Err::<
                (Seq<char>, Seq<char>, Seq<char>),
                CodegenError<Seq<char>>,
            >(error.model()),
        },
{
    let placeholder = "{".to_string().concat(param).concat("}");
    match split_once(op.path.as_str(), placeholder.as_str()) {
        None => Err(
            CodegenError::NoPathPlaceholder {
                operation: op.operation_id.clone(),
                path: op.path.clone(),
                param: param.to_string(),
            },
        ),
        Some((before, behind)) => {
            let ident = field_ident(param);
            if valid_ident(ident.as_str()) {
                Ok((before, ident, behind))
            } else {
                Err(CodegenError::NotAnIdentifier { name: ident })
            }
        },
    }
}

/// The expression for the request path.
pub open spec fn path_expr(op: Operation) -> Result<Seq<char>, CodegenError<Seq<char>>> {
    match op.path_param {
        Some(param) => match split_path(op, param) {
            Ok((before, ident, behind)) => Ok(
                "format!(\"{}{}{}\", "@ + rust_text::literal_text(before) + ", args."@ + ident
                    + ", "@ + rust_text::literal_text(behind) + ")"@,
            ),
            Err(error) => Err(error),
        },
        None => Ok(rust_text::literal_text(op.path) + ".to_string()"@),
    }
}

/// Builds the expression for the request path, with the path split around its parameter
/// at generation time.
pub fn build_path_expr(op: &ExtractedOperation) -> (result: Result<String, CodegenError>)
    ensures
        agrees(result, path_expr(op@)),
{
    match &op.path_param {
        Some(param) => match split_path_around(op, param.as_str()) {
            Ok((before, ident, behind)) => Ok(
                "format!(\"{}{}{}\", ".to_string().concat(
                    string_literal(before.as_str()).as_str(),
                ).concat(", args.").concat(ident.as_str()).concat(", ").concat(
                    string_literal(behind.as_str()).as_str(),
                ).concat(")"),
            ),
            Err(error) => Err(error),
        },
        None => Ok(string_literal(op.path.as_str()).concat(".to_string()")),
    }
}

/// The statements that bind `path` for a command with a request body.
pub open spec fn body_path(op: Operation) -> Result<Seq<char>, CodegenError<Seq<char>>> {
    match op.path_param {
        None => Ok("let path = "@ + rust_text::literal_text(op.path) + ".to_string();\n"@),
        Some(param) => match split_path(op, param) {
            Ok((before, ident, behind)) => Ok(
                "let "@ + ident + " = args."@ + ident + ".as_deref().context("@
                    + rust_text::literal_text(
                    "this command requires a <"@ + param + "> argument"@,
                ) + ")?;\nlet path = format!(\"{}{}{}\", "@ + rust_text::literal_text(before)
                    + ", "@ + ident + ", "@ + rust_text::literal_text(behind) + ");\n"@,
            ),
            Err(error) => Err(error),
        },
    }
}

/// The statements that bind `path` for create and update. There the path parameter is
/// optional on the command line, so that `--generate-skeleton` works without it, and its
/// presence is enforced here.
pub fn body_path_stmts(op: &ExtractedOperation) -> (result: Result<String, CodegenError>)
    ensures
        agrees(result, body_path(op@)),
{
    match &op.path_param {
        None => Ok(
            "let path = ".to_string().concat(string_literal(op.path.as_str()).as_str()).concat(
                ".to_string();\n",
            ),
        ),
        Some(param) => match split_path_around(op, param.as_str()) {
            Ok((before, ident, behind)) => {
                let missing = "this command requires a <".to_string().concat(
                    param.as_str(),
                ).concat("> argument");
                Ok(
                    "let ".to_string().concat(ident.as_str()).concat(" = args.").concat(
                        ident.as_str(),
                    ).concat(".as_deref().context(").concat(
                        string_literal(missing.as_str()).as_str(),
                    ).concat(")?;\nlet path = format!(\"{}{}{}\", ").concat(
                        string_literal(before.as_str()).as_str(),
                    ).concat(", ").concat(ident.as_str()).concat(", ").concat(
                        string_literal(behind.as_str()).as_str(),
                    ).concat(");\n"),
                )
            },
            Err(error) => Err(error),
        },
    }
}

/// The pieces that a verb, or several of them one after the other, adds to a resource
/// module.
pub struct Parts<S = String> {
    /// Variants of the resource's command enum.
    pub variants: S,
    /// Arms of `run`.
    pub arms: S,
    /// Argument structs.
    pub structs: S,
    /// The filter table.
    pub filter_specs: S,
    /// Template constants.
    pub skeletons: S,
}

impl Parts<String> {
    pub open spec fn model(self) -> Parts<Seq<char>> {
        Parts {
            variants: self.variants@,
            arms: self.arms@,
            structs: self.structs@,
            filter_specs: self.filter_specs@,
            skeletons: self.skeletons@,
        }
    }
}

/// No pieces.
pub open spec fn no_parts() -> Parts<Seq<char>> {
    Parts {
        variants: ""@,
        arms: ""@,
        structs: ""@,
        filter_specs: ""@,
        skeletons: ""@,
    }
}

/// Pieces, and more of them behind.
pub open spec fn both_parts(first: Parts<Seq<char>>, then: Parts<Seq<char>>) -> Parts<Seq<char>> {
    Parts {
        variants: first.variants + then.variants,
        arms: first.arms + then.arms,
        structs: first.structs + then.structs,
        filter_specs: first.filter_specs + then.filter_specs,
        skeletons: first.skeletons + then.skeletons,
    }
}

pub fn append_parts(first: &mut Parts, then: &Parts)
    ensures
        final(first).model() == both_parts(old(first).model(), then.model()),
{
    first.variants.append(then.variants.as_str());
    first.arms.append(then.arms.as_str());
    first.structs.append(then.structs.as_str());
    first.filter_specs.append(then.filter_specs.as_str());
    first.skeletons.append(then.skeletons.as_str());
}

/// Whether a verb has a request body.
pub open spec fn has_body(verb: Seq<char>) -> bool {
    verb == "create"@ || verb == "update"@
}

fn takes_body(verb: &str) -> (result: bool)
    ensures
        result == has_body(verb@),
{
    same(verb, "create") || same(verb, "update")
}

/// The flag of the path parameter, which every verb that has one takes. A verb with a
/// request body takes it as an optional one.
pub open spec fn path_flag(verb: Seq<char>, op: Operation) -> Seq<char> {
    match op.path_param {
        Some(param) => if has_body(verb) {
            "pub "@ + rust_text::field_name(param) + ": Option<String>,\n"@
        } else {
            "pub "@ + rust_text::field_name(param) + ": String,\n"@
        },
        None => ""@,
    }
}

fn path_flag_def(verb: &str, op: &ExtractedOperation) -> (result: String)
    ensures
        result@ == path_flag(verb@, op@),
{
    match &op.path_param {
        Some(param) => if takes_body(verb) {
            "pub ".to_string().concat(field_ident(param.as_str()).as_str()).concat(
                ": Option<String>,\n",
            )
        } else {
            "pub ".to_string().concat(field_ident(param.as_str()).as_str()).concat(": String,\n")
        },
        None => "".to_string(),
    }
}

/// The known values of an operation's `field` parameter.
pub open spec fn known_fields(
    op: Operation,
    field_values: Map<Seq<char>, Vec<String>>,
) -> Option<Seq<Seq<char>>> {
    match op.field_enum_name {
        Some(name) => if field_values.contains_key(name) {
            Some(text::texts(field_values[name]@))
        } else {
            None
        },
        None => None,
    }
}

/// The `--fields` flag of `list`. Where the valid field names are known, others are
/// refused on the client: the server would silently ignore them.
pub open spec fn fields_flag(values: Option<Seq<Seq<char>>>) -> Seq<char> {
    match values {
        Some(names) => "#[doc = "@ + rust_text::literal_text(templates::FIELDS_HELP@)
            + "]\n#[arg(long, value_delimiter = ',', value_parser = clap::builder::PossibleValuesParser::new(["@
            + text::joined(rust_text::literal_texts(names), ", "@)
            + "]),)]\npub fields: Option<Vec<String>>,\n"@,
        None => "#[doc = "@ + rust_text::literal_text(templates::FIELDS_HELP@)
            + "]\n#[arg(long, value_delimiter = ',')]\npub fields: Option<Vec<String>>,\n"@,
    }
}

fn fields_flag_def(op: &ExtractedOperation, field_enum_values: &Table<Vec<String>>) -> (result:
    String)
    ensures
        result@ == fields_flag(known_fields(op@, field_enum_values@)),
{
    let help = string_literal(templates::FIELDS_HELP);
    let values = match &op.field_enum_name {
        Some(name) => field_enum_values.get(name.as_str()),
        None => None,
    };
    match values {
        Some(names) => "#[doc = ".to_string().concat(help.as_str()).concat(
            "]\n#[arg(long, value_delimiter = ',', value_parser = clap::builder::PossibleValuesParser::new([",
        ).concat(literal_list(names).as_str()).concat(
            "]),)]\npub fields: Option<Vec<String>>,\n",
        ),
        None => "#[doc = ".to_string().concat(help.as_str()).concat(
            "]\n#[arg(long, value_delimiter = ',')]\npub fields: Option<Vec<String>>,\n",
        ),
    }
}

/// All flags of a verb.
pub open spec fn flags(
    verb: Seq<char>,
    op: Operation,
    field_values: Map<Seq<char>, Vec<String>>,
) -> Seq<char> {
    if verb == "list"@ {
        path_flag(verb, op) + templates::LIST_FILTER_FLAGS@ + templates::LIST_LIMIT_FLAG@
            + fields_flag(known_fields(op, field_values))
    } else if has_body(verb) {
        path_flag(verb, op) + templates::BODY_FLAGS@
    } else {
        path_flag(verb, op)
    }
}

fn flag_defs(
    verb: &str,
    op: &ExtractedOperation,
    field_enum_values: &Table<Vec<String>>,
) -> (result: String)
    ensures
        result@ == flags(verb@, op@, field_enum_values@),
{
    let path_flag = path_flag_def(verb, op);
    if same(verb, "list") {
        path_flag.concat(templates::LIST_FILTER_FLAGS).concat(templates::LIST_LIMIT_FLAG).concat(
            fields_flag_def(op, field_enum_values).as_str(),
        )
    } else if takes_body(verb) {
        path_flag.concat(templates::BODY_FLAGS)
    } else {
        path_flag
    }
}

/// The attribute that makes exactly one way to give the request body mandatory.
pub open spec fn body_group(group: Seq<char>) -> Seq<char> {
    "#[command(group(clap::ArgGroup::new("@ + rust_text::literal_text(group)
        + templates::BODY_GROUP_TAIL@
}

pub fn body_group_attr(group: &str) -> (result: String)
    ensures
        result@ == body_group(group@),
{
    "#[command(group(clap::ArgGroup::new(".to_string().concat(
        string_literal(group).as_str(),
    ).concat(templates::BODY_GROUP_TAIL)
}

/// The attribute of a verb's argument struct.
pub open spec fn struct_attr(resource: Seq<char>, verb: Seq<char>) -> Seq<char> {
    if has_body(verb) {
        body_group(rust_text::module_name(resource) + "_"@ + verb + "_body"@)
    } else {
        ""@
    }
}

fn struct_attr_of(resource: &str, verb: &str) -> (result: String)
    ensures
        result@ == struct_attr(resource@, verb@),
{
    if takes_body(verb) {
        let group = snake_name(resource).concat("_").concat(verb).concat("_body");
        body_group_attr(group.as_str())
    } else {
        "".to_string()
    }
}

/// What `list` does.
pub open spec fn list_body(op: Operation, with_project: bool) -> Seq<char> {
    let scope = if with_project {
        templates::PROJECT_SCOPE@
    } else {
        ""@
    };
    templates::LIST_QUERY@ + scope + templates::LIST_STREAM@ + rust_text::literal_text(op.path)
        + templates::LIST_FETCH@ + rust_text::literal_text(op.path) + templates::LIST_PRINT@
}

fn list_stmts(op: &ExtractedOperation, with_project: bool) -> (result: String)
    ensures
        result@ == list_body(op@, with_project),
{
    let scope = if with_project {
        templates::PROJECT_SCOPE
    } else {
        ""
    };
    let path = string_literal(op.path.as_str());
    templates::LIST_QUERY.to_string().concat(scope).concat(templates::LIST_STREAM).concat(
        path.as_str(),
    ).concat(templates::LIST_FETCH).concat(path.as_str()).concat(templates::LIST_PRINT)
}

/// What `get` does.
pub open spec fn get_body(path: Seq<char>, method: Seq<char>) -> Seq<char> {
    "let path = "@ + path + ";\n"@ + templates::CALL@ + method + ", &path, None).await?;\n"@
        + templates::PRINT_RESULT@
}

/// What a verb with a request body does. The body is checked under `--dry-run` too.
pub open spec fn body_verb_body(
    skeleton: Seq<char>,
    body_type: Seq<char>,
    path_stmts: Seq<char>,
    op: Operation,
    method: Seq<char>,
) -> Seq<char> {
    "if let Some(fmt) = args.generate_skeleton {\ncrate::request::print_skeleton("@ + skeleton
        + templates::BODY_LOAD@ + body_type + templates::BODY_VALIDATE@ + path_stmts
        + templates::DRY_RUN@ + rust_text::literal_text(text::uppercase(op.http_verb))
        + ", &path, Some(&body), format);\n}\n"@ + templates::CALL@ + method
        + ", &path, Some(&body)).await?;\n"@ + templates::PRINT_RESULT@
}

/// What `delete` does.
pub open spec fn delete_body(path: Seq<char>, op: Operation, method: Seq<char>) -> Seq<char> {
    let uuid = match op.path_param {
        Some(param) => rust_text::field_name(param),
        None => "uuid"@,
    };
    "let path = "@ + path + ";\n"@ + templates::DRY_RUN@ + rust_text::literal_text(
        text::uppercase(op.http_verb),
    ) + ", &path, None, format);\n}\nlet _ = crate::http::call_one(base_url, token, "@ + method
        + templates::DELETE_REPORT@ + uuid + templates::DELETE_TABLE@ + uuid
        + templates::DELETE_TSV@ + uuid + templates::DELETE_TOON@ + uuid + templates::DELETE_TAIL@
}

fn delete_stmts(path: &str, op: &ExtractedOperation, method: &str) -> (result: String)
    ensures
        result@ == delete_body(path@, op@, method@),
{
    let uuid = match &op.path_param {
        Some(param) => field_ident(param.as_str()),
        None => "uuid".to_string(),
    };
    let shown = op.http_verb.as_str().to_uppercase();
    "let path = ".to_string().concat(path).concat(";\n").concat(templates::DRY_RUN).concat(
        string_literal(shown.as_str()).as_str(),
    ).concat(
        ", &path, None, format);\n}\nlet _ = crate::http::call_one(base_url, token, ",
    ).concat(method).concat(templates::DELETE_REPORT).concat(uuid.as_str()).concat(
        templates::DELETE_TABLE,
    ).concat(uuid.as_str()).concat(templates::DELETE_TSV).concat(uuid.as_str()).concat(
        templates::DELETE_TOON,
    ).concat(uuid.as_str()).concat(templates::DELETE_TAIL)
}

/// The template constant of a verb with a request body.
pub open spec fn skeleton_name(verb: Seq<char>) -> Seq<char> {
    if verb == "create"@ {
        "CREATE_SKELETON"@
    } else {
        "UPDATE_SKELETON"@
    }
}

fn skeleton_const(verb: &str) -> (name: &'static str)
    ensures
        name@ == skeleton_name(verb@),
{
    if same(verb, "create") {
        "CREATE_SKELETON"
    } else {
        "UPDATE_SKELETON"
    }
}

/// What stands in the tree of a type before syntax that is kept as tokens.
pub const BARE_TOKENS: &'static str = "Verbatim(TokenStream [";

/// What stands in the tree of a type where a macro is defined.
pub const MACRO_RULES: &'static str = "Ident(macro_rules)";

/// Whether a row of tokens that is kept as it is starts at position `at`, and is not empty.
pub open spec fn bare_tokens_at(tree: Seq<char>, at: int) -> bool {
    let first = at + BARE_TOKENS@.len();
    text::occurs_at(tree, BARE_TOKENS@, at) && first < tree.len() && tree[first] != ']'
}

/// Whether the tree of a type can be printed as source: it has no syntax that is kept as
/// tokens, and defines no macro.
pub open spec fn printable(tree: Seq<char>) -> bool {
    &&& forall|at: int| !(#[trigger] bare_tokens_at(tree, at))
    &&& !text::occurs(tree, MACRO_RULES@)
}

/// Whether the tree of a type, as `syn` shows it, can be printed as source.
pub fn can_print(tree: &str) -> (fits: bool)
    ensures
        fits == printable(tree@),
{
    let chars = text::chars_of(tree);
    let mark = text::chars_of(BARE_TOKENS);
    let length: usize = chars.len();
    for at in 0..length
        invariant
            chars@ == tree@,
            mark@ == BARE_TOKENS@,
            length == chars@.len(),
            forall|i: int| i < at ==> !(#[trigger] bare_tokens_at(tree@, i)),
    {
        if mark.len() < length - at && text::stands_at(&chars, &mark, at) && chars[at + mark.len()]
            != ']' {
            assert(bare_tokens_at(tree@, at as int));
            return false;
        }
    }
    !has_text(tree, MACRO_RULES)
}

/// The Rust type of a request body schema.
pub open spec fn request_type(body_type: Seq<char>) -> Result<
    Seq<char>,
    CodegenError<Seq<char>>,
> {
    match rust_text::type_tokens("waldur_client::"@ + body_type) {
        Err(reason) => Err(CodegenError::InvalidTypeName { body_type, reason }),
        Ok(tokens) => match rust_text::type_tree(tokens) {
            Some(tree) if printable(tree) => Ok(tokens),
            _ => Err(CodegenError::UnprintableType { body_type }),
        },
    }
}

fn request_type_of(body_type: &str) -> (result: Result<String, CodegenError>)
    ensures
        agrees(result, request_type(body_type@)),
{
    let path = "waldur_client::".to_string().concat(body_type);
    match read_type(path.as_str()) {
        Err(reason) => Err(
            CodegenError::InvalidTypeName { body_type: body_type.to_string(), reason },
        ),
        Ok(tokens) => {
            let fits = match read_type_tree(tokens.as_str()) {
                Some(tree) => can_print(tree.as_str()),
                None => false,
            };
            if fits {
                Ok(tokens)
            } else {
                Err(CodegenError::UnprintableType { body_type: body_type.to_string() })
            }
        },
    }
}

/// What a verb does: the statements of its arm of `run`.
pub open spec fn verb_body(verb: Seq<char>, op: Operation, with_project: bool) -> Result<
    Seq<char>,
    CodegenError<Seq<char>>,
> {
    match path_expr(op) {
        Err(error) => Err(error),
        Ok(path) => if verb == "list"@ {
            Ok(list_body(op, with_project))
        } else if verb == "get"@ {
            match http_method(op) {
                Err(error) => Err(error),
                Ok(method) => Ok(get_body(path, method)),
            }
        } else if has_body(verb) {
            match request_type(op.request_body_type->0) {
                Err(error) => Err(error),
                Ok(body_type) => match http_method(op) {
                    Err(error) => Err(error),
                    Ok(method) => match body_path(op) {
                        Err(error) => Err(error),
                        Ok(path_stmts) => Ok(
                            body_verb_body(
                                skeleton_name(verb),
                                body_type,
                                path_stmts,
                                op,
                                method,
                            ),
                        ),
                    },
                },
            }
        } else {
            match http_method(op) {
                Err(error) => Err(error),
                Ok(method) => Ok(delete_body(path, op, method)),
            }
        },
    }
}

fn verb_stmts(verb: &str, op: &ExtractedOperation, with_project: bool) -> (result: Result<
    String,
    CodegenError,
>)
    requires
        has_body(verb@) ==> op.request_body_type is Some,
    ensures
        agrees(result, verb_body(verb@, op@, with_project)),
{
    let path = build_path_expr(op)?;
    if same(verb, "list") {
        return Ok(list_stmts(op, with_project));
    }
    if same(verb, "get") {
        let method = http_method_expr(op)?;
        return Ok(
            "let path = ".to_string().concat(path.as_str()).concat(";\n").concat(
                templates::CALL,
            ).concat(method.as_str()).concat(", &path, None).await?;\n").concat(
                templates::PRINT_RESULT,
            ),
        );
    }
    if let (true, Some(schema_name)) = (takes_body(verb), &op.request_body_type) {
        let body_type = request_type_of(schema_name.as_str())?;
        let method = http_method_expr(op)?;
        let path_stmts = body_path_stmts(op)?;
        let shown = op.http_verb.as_str().to_uppercase();
        return Ok(
            "if let Some(fmt) = args.generate_skeleton {\ncrate::request::print_skeleton(".to_string().concat(
                skeleton_const(verb),
            ).concat(templates::BODY_LOAD).concat(body_type.as_str()).concat(
                templates::BODY_VALIDATE,
            ).concat(path_stmts.as_str()).concat(templates::DRY_RUN).concat(
                string_literal(shown.as_str()).as_str(),
            ).concat(", &path, Some(&body), format);\n}\n").concat(templates::CALL).concat(
                method.as_str(),
            ).concat(", &path, Some(&body)).await?;\n").concat(templates::PRINT_RESULT),
        );
    }
    let method = http_method_expr(op)?;
    Ok(delete_stmts(path.as_str(), op, method.as_str()))
}

/// The names of parameters as a list in the `Debug` format.
pub open spec fn shown_names(params: Seq<Param>) -> Seq<char> {
    "["@ + text::joined(params.map_values(|param: Param| text::debug_format(param.name)), ", "@)
        + "]"@
}

fn show_names(params: &Vec<ExtractedParam>) -> (shown: String)
    ensures
        shown@ == shown_names(schema::params_of(params@)),
{
    let mut names: Vec<String> = Vec::new();
    for i in 0..params.len()
        invariant
            names@.len() == i,
            forall|j: int|
                0 <= j < i ==> (#[trigger] names@[j])@ == text::debug_format(params@[j].name@),
    {
        names.push(debug_quoted(params[i].name.as_str()));
    }
    assert(text::texts(names@) =~= schema::params_of(params@).map_values(
        |param: Param| text::debug_format(param.name),
    ));
    "[".to_string().concat(join(&names, ", ").as_str()).concat("]")
}

/// The argument struct of a verb.
pub open spec fn args_name(resource: Seq<char>, verb: Seq<char>) -> Seq<char> {
    rust_text::pascal(resource) + rust_text::pascal(verb) + "Args"@
}

/// The command enum of a resource or of a group.
pub open spec fn command_name(name: Seq<char>) -> Seq<char> {
    rust_text::pascal(name) + "Command"@
}

/// What is wrong with a verb before anything is written for it.
pub open spec fn verb_problem(
    resource: Resource,
    verb: Seq<char>,
    operation: Seq<char>,
    op: Operation,
    skeletons: Map<Seq<char>, String>,
) -> Option<CodegenError<Seq<char>>> {
    let name = resource.name@;
    if verb != "list"@ && op.query_params.len() > 0 {
        Some(
            CodegenError::QueryOnVerb {
                resource: name,
                verb,
                operation,
                params: shown_names(op.query_params),
            },
        )
    } else if op.path_param is Some && !rust_text::is_ident(
        rust_text::field_name(op.path_param->0),
    ) {
        Some(CodegenError::NotAnIdentifier { name: rust_text::field_name(op.path_param->0) })
    } else if verb == "list"@ && first_unmapped(op.query_params) is Some {
        Some(
            CodegenError::InVerb {
                resource: name,
                verb,
                operation,
                cause: Box::new(
                    CodegenError::UnmappedFilter { param: first_unmapped(op.query_params)->0 },
                ),
            },
        )
    } else if has_body(verb) && op.request_body_type is None {
        Some(CodegenError::NoRequestBody { resource: name, verb, operation })
    } else if has_body(verb) && !skeletons.contains_key(op.request_body_type->0) {
        Some(CodegenError::NoSkeleton { body_type: op.request_body_type->0 })
    } else if !rust_text::is_ident(args_name(name, verb)) {
        Some(CodegenError::NotAnIdentifier { name: args_name(name, verb) })
    } else {
        None
    }
}

/// The filter table of `list`; other verbs have none.
pub open spec fn filter_table(verb: Seq<char>, op: Operation) -> Seq<char> {
    if verb == "list"@ {
        "const FILTER_SPEC: &[(&str, crate::filter::FilterKind)] = &["@ + text::joined(
            filter_entries(op.query_params),
            ", "@,
        ) + "];\n"@
    } else {
        ""@
    }
}

/// The template constant of a verb with a request body; other verbs have none.
pub open spec fn skeleton_item(
    verb: Seq<char>,
    op: Operation,
    skeletons: Map<Seq<char>, String>,
) -> Seq<char> {
    if has_body(verb) {
        "const "@ + skeleton_name(verb) + ": &str = "@ + rust_text::literal_text(
            skeletons[op.request_body_type->0]@,
        ) + ";\n"@
    } else {
        ""@
    }
}

/// What a verb adds to the module of its resource.
pub open spec fn verb_parts(
    resource: Resource,
    verb: Seq<char>,
    operation: Seq<char>,
    op: Operation,
    field_values: Map<Seq<char>, Vec<String>>,
    skeletons: Map<Seq<char>, String>,
    with_project: bool,
) -> Result<Parts<Seq<char>>, CodegenError<Seq<char>>> {
    match verb_problem(resource, verb, operation, op, skeletons) {
        Some(error) => Err(error),
        None => match verb_body(verb, op, with_project) {
            Err(error) => Err(error),
            Ok(body) => Ok(
                Parts {
                    variants: "#[doc = "@ + rust_text::literal_text(
                        rust_text::pascal(verb) + " "@ + text::lowercase(resource.about@),
                    ) + "]\n"@ + rust_text::pascal(verb) + "("@ + args_name(resource.name@, verb)
                        + "),\n"@,
                    arms: command_name(resource.name@) + "::"@ + rust_text::pascal(verb)
                        + "(args) => {\n"@ + body + "}\n"@,
                    structs: "#[derive(clap::Args, Debug)]\n"@ + struct_attr(resource.name@, verb)
                        + "pub struct "@ + args_name(resource.name@, verb) + " {\n"@ + flags(
                        verb,
                        op,
                        field_values,
                    ) + "}\n"@,
                    filter_specs: filter_table(verb, op),
                    skeletons: skeleton_item(verb, op, skeletons),
                },
            ),
        },
    }
}

pub fn generate_verb(
    resource: &Resource,
    verb: &str,
    operation: &str,
    op: &ExtractedOperation,
    field_enum_values: &Table<Vec<String>>,
    request_skeletons: &Table<String>,
    with_project: bool,
) -> (result: Result<Parts, CodegenError>)
    ensures
        match result {
            Ok(parts) => verb_parts(
                *resource,
                verb@,
                operation@,
                op@,
                field_enum_values@,
                request_skeletons@,
                with_project,
            ) == Ok::<Parts<Seq<char>>, CodegenError<Seq<char>>>(parts.model()),
            Err(error) => verb_parts(
                *resource,
                verb@,
                operation@,
                op@,
                field_enum_values@,
                request_skeletons@,
                with_project,
            ) == Err::<Parts<Seq<char>>, CodegenError<Seq<char>>>(error.model()),
        },
{
    let is_list = same(verb, "list");
    if !is_list && op.query_params.len() > 0 {
        return Err(
            CodegenError::QueryOnVerb {
                resource: resource.name.clone(),
                verb: verb.to_string(),
                operation: operation.to_string(),
                params: show_names(&op.query_params),
            },
        );
    }
    if let Some(param) = &op.path_param {
        let ident = field_ident(param.as_str());
        if !valid_ident(ident.as_str()) {
            return Err(CodegenError::NotAnIdentifier { name: ident });
        }
    }
    let mut filter_specs = "".to_string();
    if is_list {
        match filter_spec_entries(&op.query_params) {
            Ok(entries) => {
                filter_specs =
                "const FILTER_SPEC: &[(&str, crate::filter::FilterKind)] = &[".to_string().concat(
                    join(&entries, ", ").as_str(),
                ).concat("];\n");
            },
            Err(cause) => {
                return Err(
                    CodegenError::InVerb {
                        resource: resource.name.clone(),
                        verb: verb.to_string(),
                        operation: operation.to_string(),
                        cause: Box::new(cause),
                    },
                );
            },
        }
    }
    let mut skeletons = "".to_string();
    if takes_body(verb) {
        match &op.request_body_type {
            None => {
                return Err(
                    CodegenError::NoRequestBody {
                        resource: resource.name.clone(),
                        verb: verb.to_string(),
                        operation: operation.to_string(),
                    },
                );
            },
            Some(body_type) => match request_skeletons.get(body_type.as_str()) {
                None => {
                    return Err(CodegenError::NoSkeleton { body_type: body_type.clone() });
                },
                Some(skeleton) => {
                    skeletons = "const ".to_string().concat(skeleton_const(verb)).concat(
                        ": &str = ",
                    ).concat(string_literal(skeleton.as_str()).as_str()).concat(";\n");
                },
            },
        }
    }
    let resource_pascal = pascal_case(resource.name.as_str());
    let verb_pascal = pascal_case(verb);
    let args_ident = resource_pascal.clone().concat(verb_pascal.as_str()).concat("Args");
    if !valid_ident(args_ident.as_str()) {
        return Err(CodegenError::NotAnIdentifier { name: args_ident });
    }
    let body = verb_stmts(verb, op, with_project)?;
    let about = verb_pascal.clone().concat(" ").concat(
        resource.about.as_str().to_lowercase().as_str(),
    );
    let variants = "#[doc = ".to_string().concat(string_literal(about.as_str()).as_str()).concat(
        "]\n",
    ).concat(verb_pascal.as_str()).concat("(").concat(args_ident.as_str()).concat("),\n");
    let arms = resource_pascal.concat("Command").concat("::").concat(verb_pascal.as_str()).concat(
        "(args) => {\n",
    ).concat(body.as_str()).concat("}\n");
    let structs = "#[derive(clap::Args, Debug)]\n".to_string().concat(
        struct_attr_of(resource.name.as_str(), verb).as_str(),
    ).concat("pub struct ").concat(args_ident.as_str()).concat(" {\n").concat(
        flag_defs(verb, op, field_enum_values).as_str(),
    ).concat("}\n");
    Ok(Parts { variants, arms, structs, filter_specs, skeletons })
}

/// Whether some parameter has that name.
pub open spec fn has_param(params: Seq<Param>, name: Seq<char>) -> bool {
    exists|i: int| 0 <= i < params.len() && (#[trigger] params[i]).name == name
}

pub fn takes_param(params: &Vec<ExtractedParam>, name: &str) -> (result: bool)
    ensures
        result == has_param(schema::params_of(params@), name@),
{
    let ghost all = schema::params_of(params@);
    for i in 0..params.len()
        invariant
            all == schema::params_of(params@),
            forall|j: int| 0 <= j < i ==> (#[trigger] all[j]).name != name@,
    {
        if same(params[i].name.as_str(), name) {
            assert(all[i as int].name == name@);
            return true;
        }
    }
    false
}

/// Whether the ambient `--project` scope applies to a resource's `list`.
pub open spec fn list_has_project(
    resource: Resource,
    operations: Map<Seq<char>, ExtractedOperation>,
) -> bool {
    resource.commands@.contains_key("list"@) && operations.contains_key(
        resource.commands@["list"@]@,
    ) && has_param(operations[resource.commands@["list"@]@]@.query_params, "project_uuid"@)
}

pub fn lists_by_project(resource: &Resource, operations: &Table<ExtractedOperation>) -> (result: bool)
    ensures
        result == list_has_project(*resource, operations@),
{
    match resource.commands.get("list") {
        Some(operation_id) => match operations.get(operation_id.as_str()) {
            Some(op) => takes_param(&op.query_params, "project_uuid"),
            None => false,
        },
        None => false,
    }
}

/// What the first `n` known verbs add to the module of a resource, or the first failure.
pub open spec fn first_verbs(
    resource: Resource,
    operations: Map<Seq<char>, ExtractedOperation>,
    field_values: Map<Seq<char>, Vec<String>>,
    skeletons: Map<Seq<char>, String>,
    n: nat,
) -> Result<Parts<Seq<char>>, CodegenError<Seq<char>>>
    decreases n,
{
    if n == 0 {
        Ok(no_parts())
    } else {
        let verb = manifest::verb_at(n - 1);
        match first_verbs(resource, operations, field_values, skeletons, (n - 1) as nat) {
            Err(error) => Err(error),
            Ok(before) => if !resource.commands@.contains_key(verb) {
                Ok(before)
            } else {
                let operation = resource.commands@[verb]@;
                if !operations.contains_key(operation) {
                    Err(
                        CodegenError::NotExtracted { operation, resource: resource.name@, verb },
                    )
                } else {
                    match verb_parts(
                        resource,
                        verb,
                        operation,
                        operations[operation]@,
                        field_values,
                        skeletons,
                        list_has_project(resource, operations),
                    ) {
                        Err(error) => Err(error),
                        Ok(parts) => Ok(both_parts(before, parts)),
                    }
                }
            },
        }
    }
}

proof fn lemma_verb_failure_stays(
    resource: Resource,
    operations: Map<Seq<char>, ExtractedOperation>,
    field_values: Map<Seq<char>, Vec<String>>,
    skeletons: Map<Seq<char>, String>,
    few: nat,
    many: nat,
)
    requires
        few <= many,
        first_verbs(resource, operations, field_values, skeletons, few) is Err,
    ensures
        first_verbs(resource, operations, field_values, skeletons, many) == first_verbs(
            resource,
            operations,
            field_values,
            skeletons,
            few,
        ),
    decreases many,
{
    if few < many {
        lemma_verb_failure_stays(
            resource,
            operations,
            field_values,
            skeletons,
            few,
            (many - 1) as nat,
        );
    }
}

pub fn generate_verbs(
    resource: &Resource,
    operations: &Table<ExtractedOperation>,
    field_enum_values: &Table<Vec<String>>,
    request_skeletons: &Table<String>,
    with_project: bool,
) -> (result: Result<Parts, CodegenError>)
    requires
        with_project == list_has_project(*resource, operations@),
    ensures
        match result {
            Ok(parts) => first_verbs(
                *resource,
                operations@,
                field_enum_values@,
                request_skeletons@,
                5,
            ) == Ok::<Parts<Seq<char>>, CodegenError<Seq<char>>>(parts.model()),
            Err(error) => first_verbs(
                *resource,
                operations@,
                field_enum_values@,
                request_skeletons@,
                5,
            ) == Err::<Parts<Seq<char>>, CodegenError<Seq<char>>>(error.model()),
        },
{
    let mut parts = Parts {
        variants: "".to_string(),
        arms: "".to_string(),
        structs: "".to_string(),
        filter_specs: "".to_string(),
        skeletons: "".to_string(),
    };
    let ghost values = field_enum_values@;
    let ghost skeletons = request_skeletons@;
    for i in 0..5usize
        invariant
            with_project == list_has_project(*resource, operations@),
            values == field_enum_values@,
            skeletons == request_skeletons@,
            first_verbs(*resource, operations@, values, skeletons, i as nat) == Ok::<
                Parts<Seq<char>>,
                CodegenError<Seq<char>>,
            >(parts.model()),
    {
        let verb = KNOWN_VERBS[i];
        assert(verb@ == manifest::verb_at(i as int));
        if let Some(operation) = resource.commands.get(verb) {
            let added = match operations.get(operation.as_str()) {
                Some(op) => generate_verb(
                    resource,
                    verb,
                    operation.as_str(),
                    op,
                    field_enum_values,
                    request_skeletons,
                    with_project,
                ),
                None => Err(
                    CodegenError::NotExtracted {
                        operation: operation.clone(),
                        resource: resource.name.clone(),
                        verb: verb.to_string(),
                    },
                ),
            };
            match added {
                Ok(more) => {
                    append_parts(&mut parts, &more);
                },
                Err(error) => {
                    proof {
                        lemma_verb_failure_stays(
                            *resource,
                            operations@,
                            values,
                            skeletons,
                            (i + 1) as nat,
                            5,
                        );
                    }
                    return Err(error);
                },
            }
        }
    }
    Ok(parts)
}

} // verus!
