//! The parts of an OpenAPI schema that the generator reads, and what it extracts from
//! them: the operations that the command manifest names, and the custom actions that
//! live beneath a resource's own path.
use crate::error::SchemaError;
use crate::order;
use crate::order::at_most;
use crate::table::Table;
use crate::text;
use crate::text::{copy_strings, has_char, has_name, same, strip_prefix, trim_end};
use vstd::prelude::*;
use vstd::string::*;

verus! {

#[derive(Debug)]
pub struct OpenApiDoc {
    pub paths: Table<Table<RawOperation>>,
    pub components: Components,
}

#[derive(Debug)]
pub struct Components {
    pub parameters: Table<RawParameter>,
    pub schemas: Table<RawSchema>,
}

#[derive(Debug)]
pub struct RawOperation {
    pub operation_id: String,
    pub parameters: Vec<RawParamOrRef>,
    pub request_body: Option<RawRequestBody>,
}

/// A parameter entry is either inline or a bare reference (Waldur's schema uses this
/// for the shared `page`/`page_size` parameters).
#[derive(Debug)]
pub enum RawParamOrRef {
    Ref { reference: String },
    Inline(RawParameter),
}

#[derive(Debug)]
pub struct RawParameter {
    pub name: String,
    /// The schema's `in` keyword: `path`, `query`, ...
    pub location: String,
    pub required: bool,
    pub schema: RawSchema,
}

#[derive(Debug)]
pub struct RawSchema {
    pub schema_type: Option<String>,
    pub items: Option<Box<RawSchema>>,
    pub reference: Option<String>,
    pub enum_values: Option<Vec<String>>,
    pub properties: Option<Table<RawSchema>>,
    pub required: Option<Vec<String>>,
    pub read_only: bool,
    pub all_of: Option<Vec<RawSchema>>,
    pub one_of: Option<Vec<RawSchema>>,
    pub any_of: Option<Vec<RawSchema>>,
    /// JSON Schema's `format` keyword (`date-time`, `uuid`, ...). Only the validation
    /// schema of a request body carries it; templates and flags do not need it.
    pub format: Option<String>,
}

impl Default for RawSchema {
    fn default() -> (schema: RawSchema)
        ensures
            schema.schema_type is None,
            schema.items is None,
            schema.reference is None,
            schema.enum_values is None,
            schema.properties is None,
            schema.required is None,
            !schema.read_only,
            schema.all_of is None,
            schema.one_of is None,
            schema.any_of is None,
            schema.format is None,
    {
        RawSchema {
            schema_type: None,
            items: None,
            reference: None,
            enum_values: None,
            properties: None,
            required: None,
            read_only: false,
            all_of: None,
            one_of: None,
            any_of: None,
            format: None,
        }
    }
}

#[derive(Debug)]
pub struct RawRequestBody {
    pub content: Table<RawMediaType>,
}

#[derive(Debug)]
pub struct RawMediaType {
    pub schema: RawSchema,
}

/// How a query or path parameter is represented as a command-line flag: a handful of
/// scalar kinds, not the whole JSON Schema type system.
#[derive(Debug, Clone, Copy, PartialEq, Eq, Structural)]
pub enum ParamKind {
    RequiredStr,
    OptionalStr,
    RequiredBool,
    OptionalBool,
    RequiredI64,
    OptionalI64,
    /// An optional parameter whose type has no flag.
    SkippedOptional,
    /// A required parameter whose type has no flag.
    SkippedRequired,
}

#[derive(Debug)]
pub struct ExtractedParam {
    pub name: String,
    pub kind: ParamKind,
}

#[derive(Debug)]
pub struct ExtractedOperation {
    pub operation_id: String,
    /// The literal REST path, e.g. `/api/customers/{uuid}/`.
    pub path: String,
    /// `"get"` / `"post"` / `"put"` / `"delete"`.
    pub http_verb: String,
    /// The `in: path` parameter, if any (e.g. `"uuid"`). An operation has at most one.
    pub path_param: Option<String>,
    /// Query parameters in schema order, without `page`/`page_size` and without the
    /// `field`/`o` parameters, which have fields of their own below.
    pub query_params: Vec<ExtractedParam>,
    /// The schema that the items of the `field` query parameter resolve to (e.g.
    /// `"CustomerFieldEnum"`), if there is one.
    pub field_enum_name: Option<String>,
    /// Whether there is an `o` (ordering) query parameter at all. Some operations
    /// declare it as a bare `string`, so its values may still be unknown.
    pub has_order: bool,
    /// The schema that the items of the `o` query parameter resolve to (e.g.
    /// `"OpenStackFlavorOEnum"`, with every field once bare for ascending and once
    /// `-`-prefixed for descending), if there is one.
    pub order_enum_name: Option<String>,
    /// The request body schema (e.g. `"CustomerRequest"`), never guessed from the name
    /// of the resource.
    pub request_body_type: Option<String>,
}

/// A discovered custom action: its own name, which becomes the command's verb, and its
/// operation.
#[derive(Debug)]
pub struct ExtractedAction {
    pub name: String,
    pub operation: ExtractedOperation,
}

/// An `ExtractedParam` as contracts see it.
#[verifier::ext_equal]
pub struct Param {
    pub name: Seq<char>,
    pub kind: ParamKind,
}

/// An `ExtractedOperation` as contracts see it.
#[verifier::ext_equal]
pub struct Operation {
    pub operation_id: Seq<char>,
    pub path: Seq<char>,
    pub http_verb: Seq<char>,
    pub path_param: Option<Seq<char>>,
    pub query_params: Seq<Param>,
    pub field_enum_name: Option<Seq<char>>,
    pub has_order: bool,
    pub order_enum_name: Option<Seq<char>>,
    pub request_body_type: Option<Seq<char>>,
}

/// An `ExtractedAction` as contracts see it.
#[verifier::ext_equal]
pub struct Action {
    pub name: Seq<char>,
    pub operation: Operation,
}

impl View for ExtractedParam {
    type V = Param;

    open spec fn view(&self) -> Param {
        Param { name: self.name@, kind: self.kind }
    }
}

pub open spec fn params_of(params: Seq<ExtractedParam>) -> Seq<Param> {
    params.map_values(|param: ExtractedParam| param@)
}

impl View for ExtractedOperation {
    type V = Operation;

    open spec fn view(&self) -> Operation {
        Operation {
            operation_id: self.operation_id@,
            path: self.path@,
            http_verb: self.http_verb@,
            path_param: text::opt_text(self.path_param),
            query_params: params_of(self.query_params@),
            field_enum_name: text::opt_text(self.field_enum_name),
            has_order: self.has_order,
            order_enum_name: text::opt_text(self.order_enum_name),
            request_body_type: text::opt_text(self.request_body_type),
        }
    }
}

impl View for ExtractedAction {
    type V = Action;

    open spec fn view(&self) -> Action {
        Action { name: self.name@, operation: self.operation@ }
    }
}

pub open spec fn actions_of(actions: Seq<ExtractedAction>) -> Seq<Action> {
    actions.map_values(|action: ExtractedAction| action@)
}

/// The kind of a parameter of that type. An array is repeated on the wire
/// (`?type=A&type=B`), exactly as a repeated string filter is.
pub open spec fn kind_of(schema_type: Option<Seq<char>>, required: bool) -> ParamKind {
    if schema_type == Some("string"@) || schema_type == Some("array"@) {
        if required {
            ParamKind::RequiredStr
        } else {
            ParamKind::OptionalStr
        }
    } else if schema_type == Some("boolean"@) {
        if required {
            ParamKind::RequiredBool
        } else {
            ParamKind::OptionalBool
        }
    } else if schema_type == Some("integer"@) {
        if required {
            ParamKind::RequiredI64
        } else {
            ParamKind::OptionalI64
        }
    } else if required {
        ParamKind::SkippedRequired
    } else {
        ParamKind::SkippedOptional
    }
}

/// Classifies a parameter by its type and by whether it is required.
pub fn classify_param(param: &RawParameter) -> (kind: ParamKind)
    ensures
        kind == kind_of(text::opt_text(param.schema.schema_type), param.required),
{
    let required = param.required;
    match &param.schema.schema_type {
        Some(name) => {
            let name = name.as_str();
            if same(name, "string") || same(name, "array") {
                if required {
                    ParamKind::RequiredStr
                } else {
                    ParamKind::OptionalStr
                }
            } else if same(name, "boolean") {
                if required {
                    ParamKind::RequiredBool
                } else {
                    ParamKind::OptionalBool
                }
            } else if same(name, "integer") {
                if required {
                    ParamKind::RequiredI64
                } else {
                    ParamKind::OptionalI64
                }
            } else if required {
                ParamKind::SkippedRequired
            } else {
                ParamKind::SkippedOptional
            }
        },
        None => if required {
            ParamKind::SkippedRequired
        } else {
            ParamKind::SkippedOptional
        },
    }
}

/// The type of a filter value in words; `None` where the parameter is no filter.
pub open spec fn filter_type(kind: ParamKind) -> Option<Seq<char>> {
    match kind {
        ParamKind::RequiredStr | ParamKind::OptionalStr => Some("string"@),
        ParamKind::RequiredBool | ParamKind::OptionalBool => Some("boolean"@),
        ParamKind::RequiredI64 | ParamKind::OptionalI64 => Some("integer"@),
        ParamKind::SkippedOptional | ParamKind::SkippedRequired => None,
    }
}

/// The type of a filter value in words.
pub fn filter_kind_str(kind: ParamKind) -> (name: Option<&'static str>)
    ensures
        match name {
            Some(words) => filter_type(kind) == Some(words@),
            None => filter_type(kind) is None,
        },
{
    match kind {
        ParamKind::RequiredStr | ParamKind::OptionalStr => Some("string"),
        ParamKind::RequiredBool | ParamKind::OptionalBool => Some("boolean"),
        ParamKind::RequiredI64 | ParamKind::OptionalI64 => Some("integer"),
        ParamKind::SkippedOptional | ParamKind::SkippedRequired => None,
    }
}

/// The parameters that are filters, in order.
pub open spec fn filter_params(params: Seq<Param>) -> Seq<Param> {
    params.filter(|param: Param| filter_type(param.kind) is Some)
}

/// The parameter that a reference like `#/components/parameters/Page` stands for.
pub open spec fn referenced_param(doc: OpenApiDoc, reference: Seq<char>) -> Result<
    RawParameter,
    SchemaError<Seq<char>>,
> {
    match text::without_prefix(reference, "#/components/parameters/"@) {
        None => Err(SchemaError::UnsupportedParameterRef { reference }),
        Some(name) => if doc.components.parameters@.contains_key(name) {
            Ok(doc.components.parameters@[name])
        } else {
            Err(SchemaError::UnknownParameter { reference })
        },
    }
}

/// Resolves a parameter reference.
pub fn resolve_param<'a>(doc: &'a OpenApiDoc, reference: &str) -> (result: Result<
    &'a RawParameter,
    SchemaError,
>)
    ensures
        match result {
            Ok(param) => referenced_param(*doc, reference@) == Ok::<
                RawParameter,
                SchemaError<Seq<char>>,
            >(*param),
            Err(error) => referenced_param(*doc, reference@) == Err::<
                RawParameter,
                SchemaError<Seq<char>>,
            >(error.model()),
        },
{
    match strip_prefix(reference, "#/components/parameters/") {
        None => Err(SchemaError::UnsupportedParameterRef { reference: reference.to_string() }),
        Some(name) => match doc.components.parameters.get(name.as_str()) {
            Some(param) => Ok(param),
            None => Err(SchemaError::UnknownParameter { reference: reference.to_string() }),
        },
    }
}

/// The schema that an optional reference like `#/components/schemas/CustomerRequest`
/// names.
pub open spec fn schema_name(reference: Option<Seq<char>>) -> Option<Seq<char>> {
    match reference {
        Some(path) => text::without_prefix(path, "#/components/schemas/"@),
        None => None,
    }
}

/// Strips `#/components/schemas/` off a reference: what is left is the bare name of the
/// schema.
pub fn schema_ref_name(reference: &str) -> (name: Option<String>)
    ensures
        text::opt_text(name) == schema_name(Some(reference@)),
{
    strip_prefix(reference, "#/components/schemas/")
}

fn opt_ref_name(reference: &Option<String>) -> (name: Option<String>)
    ensures
        text::opt_text(name) == schema_name(text::opt_text(*reference)),
{
    match reference {
        Some(path) => schema_ref_name(path.as_str()),
        None => None,
    }
}

/// The schema that the items of an array refer to.
pub open spec fn items_schema_name(schema: RawSchema) -> Option<Seq<char>> {
    match schema.items {
        Some(items) => schema_name(text::opt_text(items.reference)),
        None => None,
    }
}

fn items_ref_name(schema: &RawSchema) -> (name: Option<String>)
    ensures
        text::opt_text(name) == items_schema_name(*schema),
{
    match &schema.items {
        Some(items) => opt_ref_name(&items.reference),
        None => None,
    }
}

/// The schema of an operation's JSON request body.
pub open spec fn body_schema_name(op: RawOperation) -> Option<Seq<char>> {
    match op.request_body {
        Some(body) => if body.content@.contains_key("application/json"@) {
            schema_name(text::opt_text(body.content@["application/json"@].schema.reference))
        } else {
            None
        },
        None => None,
    }
}

fn body_ref_name(op: &RawOperation) -> (name: Option<String>)
    ensures
        text::opt_text(name) == body_schema_name(*op),
{
    match &op.request_body {
        Some(body) => match body.content.get("application/json") {
            Some(media) => opt_ref_name(&media.schema.reference),
            None => None,
        },
        None => None,
    }
}

/// The parameter that an entry stands for.
pub open spec fn resolved(doc: OpenApiDoc, entry: RawParamOrRef) -> Result<
    RawParameter,
    SchemaError<Seq<char>>,
> {
    match entry {
        RawParamOrRef::Inline(param) => Ok(param),
        RawParamOrRef::Ref { reference } => referenced_param(doc, reference@),
    }
}

fn resolve_entry<'a>(doc: &'a OpenApiDoc, entry: &'a RawParamOrRef) -> (result: Result<
    &'a RawParameter,
    SchemaError,
>)
    ensures
        match result {
            Ok(param) => resolved(*doc, *entry) == Ok::<RawParameter, SchemaError<Seq<char>>>(
                *param,
            ),
            Err(error) => resolved(*doc, *entry) == Err::<RawParameter, SchemaError<Seq<char>>>(
                error.model(),
            ),
        },
{
    match entry {
        RawParamOrRef::Inline(param) => Ok(param),
        RawParamOrRef::Ref { reference } => resolve_param(doc, reference.as_str()),
    }
}

/// The parameters that entries stand for, where each of them resolves.
pub open spec fn parameters(doc: OpenApiDoc, entries: Seq<RawParamOrRef>) -> Seq<RawParameter> {
    entries.map_values(|entry: RawParamOrRef| resolved(doc, entry)->Ok_0)
}

pub open spec fn in_path(param: RawParameter) -> bool {
    param.location@ == "path"@
}

pub open spec fn in_query(param: RawParameter) -> bool {
    param.location@ == "query"@
}

/// Whether a parameter is the query parameter of that name.
pub open spec fn query_named(param: RawParameter, name: Seq<char>) -> bool {
    in_query(param) && param.name@ == name
}

/// Whether a parameter filters a list: a query parameter other than the paging
/// parameters and the `field` and `o` parameters.
pub open spec fn is_filter(param: RawParameter) -> bool {
    &&& in_query(param)
    &&& param.name@ != "page"@
    &&& param.name@ != "page_size"@
    &&& param.name@ != "field"@
    &&& param.name@ != "o"@
}

/// What is kept of a parameter.
pub open spec fn kept_param(param: RawParameter) -> Param {
    Param {
        name: param.name@,
        kind: kind_of(text::opt_text(param.schema.schema_type), param.required),
    }
}

/// The filters among the parameters, in schema order.
pub open spec fn filters(params: Seq<RawParameter>) -> Seq<Param> {
    params.filter(|param: RawParameter| is_filter(param)).map_values(
        |param: RawParameter| kept_param(param),
    )
}

/// The name of the last path parameter.
pub open spec fn path_param_name(params: Seq<RawParameter>) -> Option<Seq<char>>
    decreases params.len(),
{
    if params.len() == 0 {
        None
    } else if in_path(params.last()) {
        Some(params.last().name@)
    } else {
        path_param_name(params.drop_last())
    }
}

/// Whether there is a query parameter of that name.
pub open spec fn has_query(params: Seq<RawParameter>, name: Seq<char>) -> bool {
    exists|i: int| 0 <= i < params.len() && query_named(#[trigger] params[i], name)
}

/// The schema that the items of the last query parameter of that name refer to.
pub open spec fn query_items_schema(params: Seq<RawParameter>, name: Seq<char>) -> Option<Seq<char>>
    decreases params.len(),
{
    if params.len() == 0 {
        None
    } else if query_named(params.last(), name) {
        items_schema_name(params.last().schema)
    } else {
        query_items_schema(params.drop_last(), name)
    }
}

/// What goes wrong first in a list of parameter entries: an entry that does not
/// resolve, or a second path parameter.
pub open spec fn first_failure(
    doc: OpenApiDoc,
    operation_id: Seq<char>,
    entries: Seq<RawParamOrRef>,
) -> Option<SchemaError<Seq<char>>>
    decreases entries.len(),
{
    if entries.len() == 0 {
        None
    } else {
        let before = entries.drop_last();
        if first_failure(doc, operation_id, before) is Some {
            first_failure(doc, operation_id, before)
        } else {
            match resolved(doc, entries.last()) {
                Err(error) => Some(error),
                Ok(param) => if in_path(param) && path_param_name(parameters(doc, before)) is Some {
                    Some(SchemaError::MultiplePathParams { operation_id })
                } else {
                    None
                },
            }
        }
    }
}

/// What is extracted from the operation at a path and an HTTP verb.
pub open spec fn extracted(
    doc: OpenApiDoc,
    path: Seq<char>,
    http_verb: Seq<char>,
    op: RawOperation,
) -> Result<Operation, SchemaError<Seq<char>>> {
    match first_failure(doc, op.operation_id@, op.parameters@) {
        Some(error) => Err(error),
        None => {
            let params = parameters(doc, op.parameters@);
            Ok(
                Operation {
                    operation_id: op.operation_id@,
                    path,
                    http_verb,
                    path_param: path_param_name(params),
                    query_params: filters(params),
                    field_enum_name: query_items_schema(params, "field"@),
                    has_order: has_query(params, "o"@),
                    order_enum_name: query_items_schema(params, "o"@),
                    request_body_type: body_schema_name(op),
                },
            )
        },
    }
}

/// An entry that does not fail makes the parameters one longer.
proof fn lemma_next_param(doc: OpenApiDoc, entries: Seq<RawParamOrRef>, i: int)
    requires
        0 <= i < entries.len(),
    ensures
        ({
            let before = parameters(doc, entries.take(i));
            let now = parameters(doc, entries.take(i + 1));
            let param = resolved(doc, entries[i])->Ok_0;
            &&& now.drop_last() == before
            &&& now.last() == param
            &&& entries.take(i + 1).drop_last() == entries.take(i)
            &&& entries.take(i + 1).last() == entries[i]
            &&& filters(now) == if is_filter(param) {
                filters(before).push(kept_param(param))
            } else {
                filters(before)
            }
            &&& forall|name: Seq<char>| #[trigger]
                has_query(now, name) == (has_query(before, name) || query_named(param, name))
        }),
{
    let before = parameters(doc, entries.take(i));
    let now = parameters(doc, entries.take(i + 1));
    let param = resolved(doc, entries[i])->Ok_0;
    assert(entries.take(i + 1).drop_last() =~= entries.take(i));
    assert(now.drop_last() =~= before);
    reveal(Seq::filter);
    if is_filter(param) {
        assert(filters(now) =~= filters(before).push(kept_param(param)));
    } else {
        assert(filters(now) =~= filters(before));
    }
    assert forall|name: Seq<char>| #[trigger]
        has_query(now, name) == (has_query(before, name) || query_named(param, name)) by {
        if has_query(before, name) {
            let k = choose|k: int| 0 <= k < before.len() && query_named(#[trigger] before[k], name);
            assert(query_named(now[k], name));
        }
        if query_named(param, name) {
            assert(query_named(now[i], name));
        }
        if has_query(now, name) && !query_named(param, name) {
            let k = choose|k: int| 0 <= k < now.len() && query_named(#[trigger] now[k], name);
            assert(query_named(before[k], name));
        }
    }
}

/// A failure among the first entries is the failure of all of them.
proof fn lemma_failure_stays(
    doc: OpenApiDoc,
    operation_id: Seq<char>,
    entries: Seq<RawParamOrRef>,
    i: int,
)
    requires
        0 <= i <= entries.len(),
        first_failure(doc, operation_id, entries.take(i)) is Some,
    ensures
        first_failure(doc, operation_id, entries) == first_failure(
            doc,
            operation_id,
            entries.take(i),
        ),
    decreases entries.len() - i,
{
    if i < entries.len() {
        assert(entries.take(i + 1).drop_last() =~= entries.take(i));
        lemma_failure_stays(doc, operation_id, entries, i + 1);
    } else {
        assert(entries.take(i) =~= entries);
    }
}

/// Extracts everything that the generator needs from the operation at a path and an
/// HTTP verb.
pub fn extract_from_found(
    doc: &OpenApiDoc,
    path: &str,
    http_verb: &str,
    op: &RawOperation,
) -> (result: Result<ExtractedOperation, SchemaError>)
    ensures
        match result {
            Ok(operation) => extracted(*doc, path@, http_verb@, *op) == Ok::<
                Operation,
                SchemaError<Seq<char>>,
            >(operation@),
            Err(error) => extracted(*doc, path@, http_verb@, *op) == Err::<
                Operation,
                SchemaError<Seq<char>>,
            >(error.model()),
        },
{
    let ghost id = op.operation_id@;
    let ghost entries = op.parameters@;
    let mut path_param: Option<String> = None;
    let mut query_params: Vec<ExtractedParam> = Vec::new();
    let mut field_enum_name: Option<String> = None;
    let mut has_order = false;
    let mut order_enum_name: Option<String> = None;
    proof {
        reveal(Seq::filter);
        assert(params_of(query_params@) =~= filters(parameters(*doc, entries.take(0))));
    }
    for i in 0..op.parameters.len()
        invariant
            id == op.operation_id@,
            entries == op.parameters@,
            first_failure(*doc, id, entries.take(i as int)) is None,
            text::opt_text(path_param) == path_param_name(parameters(*doc, entries.take(i as int))),
            params_of(query_params@) == filters(parameters(*doc, entries.take(i as int))),
            text::opt_text(field_enum_name) == query_items_schema(
                parameters(*doc, entries.take(i as int)),
                "field"@,
            ),
            has_order == has_query(parameters(*doc, entries.take(i as int)), "o"@),
            text::opt_text(order_enum_name) == query_items_schema(
                parameters(*doc, entries.take(i as int)),
                "o"@,
            ),
    {
        proof {
            lemma_next_param(*doc, entries, i as int);
            lemma_location_names();
        }
        let param = match resolve_entry(doc, &op.parameters[i]) {
            Ok(param) => param,
            Err(error) => {
                proof {
                    lemma_failure_stays(*doc, id, entries, i + 1);
                }
                return Err(error);
            },
        };
        if same(param.location.as_str(), "path") {
            if path_param.is_some() {
                proof {
                    lemma_failure_stays(*doc, id, entries, i + 1);
                }
                return Err(
                    SchemaError::MultiplePathParams { operation_id: op.operation_id.clone() },
                );
            }
            path_param = Some(param.name.clone());
        } else if same(param.location.as_str(), "query") {
            let name = param.name.as_str();
            if same(name, "page") || same(name, "page_size") {
            } else if same(name, "field") {
                field_enum_name = items_ref_name(&param.schema);
            } else if same(name, "o") {
                has_order = true;
                order_enum_name = items_ref_name(&param.schema);
            } else {
                let ghost before = params_of(query_params@);
                query_params.push(
                    ExtractedParam { name: param.name.clone(), kind: classify_param(param) },
                );
                assert(params_of(query_params@) =~= before.push(kept_param(*param)));
            }
        }
    }
    assert(entries.take(entries.len() as int) =~= entries);
    Ok(
        ExtractedOperation {
            operation_id: op.operation_id.clone(),
            path: path.to_string(),
            http_verb: http_verb.to_string(),
            path_param,
            query_params,
            field_enum_name,
            has_order,
            order_enum_name,
            request_body_type: body_ref_name(op),
        },
    )
}

/// The names that are compared with one another are different.
proof fn lemma_location_names()
    ensures
        "path"@ != "query"@,
        "page"@ != "field"@,
        "page"@ != "o"@,
        "page_size"@ != "field"@,
        "page_size"@ != "o"@,
        "field"@ != "o"@,
{
    reveal_strlit("path");
    reveal_strlit("query");
    reveal_strlit("page");
    reveal_strlit("page_size");
    reveal_strlit("field");
    reveal_strlit("o");
    assert("path"@.len() != "query"@.len());
    assert("page"@.len() != "field"@.len());
    assert("page"@.len() != "o"@.len());
    assert("page_size"@.len() != "field"@.len());
    assert("page_size"@.len() != "o"@.len());
    assert("field"@.len() != "o"@.len());
}

/// The last operation with that id among the HTTP verbs of one path.
pub open spec fn last_in_methods(
    methods: Seq<(Seq<char>, RawOperation)>,
    operation_id: Seq<char>,
) -> Option<(Seq<char>, RawOperation)>
    decreases methods.len(),
{
    if methods.len() == 0 {
        None
    } else if methods.last().1.operation_id@ == operation_id {
        Some(methods.last())
    } else {
        last_in_methods(methods.drop_last(), operation_id)
    }
}

/// The last operation with that id among all paths: its path, its HTTP verb and itself.
pub open spec fn last_in_paths(
    paths: Seq<(Seq<char>, Table<RawOperation>)>,
    operation_id: Seq<char>,
) -> Option<(Seq<char>, Seq<char>, RawOperation)>
    decreases paths.len(),
{
    if paths.len() == 0 {
        None
    } else {
        match last_in_methods(paths.last().1.rows(), operation_id) {
            Some((verb, op)) => Some((paths.last().0, verb, op)),
            None => last_in_paths(paths.drop_last(), operation_id),
        }
    }
}

/// What `extract_operation` gives for an operation id.
pub open spec fn operation_by_id(doc: OpenApiDoc, operation_id: Seq<char>) -> Result<
    Operation,
    SchemaError<Seq<char>>,
> {
    match last_in_paths(doc.paths.rows(), operation_id) {
        Some((path, verb, op)) => extracted(doc, path, verb, op),
        None => Err(SchemaError::OperationNotFound { operation_id }),
    }
}

fn find_in_methods(methods: &Table<RawOperation>, operation_id: &str) -> (found: Option<usize>)
    ensures
        match found {
            Some(i) => i < methods.rows().len() && last_in_methods(methods.rows(), operation_id@)
                == Some(methods.rows()[i as int]),
            None => last_in_methods(methods.rows(), operation_id@) is None,
        },
{
    let ghost rows = methods.rows();
    let mut left: usize = methods.len();
    assert(rows.take(left as int) =~= rows);
    while left > 0
        invariant
            rows == methods.rows(),
            left <= rows.len(),
            last_in_methods(rows.take(left as int), operation_id@) == last_in_methods(
                rows,
                operation_id@,
            ),
        decreases left,
    {
        assert(rows.take(left as int).drop_last() =~= rows.take(left - 1));
        if same(methods.value_at(left - 1).operation_id.as_str(), operation_id) {
            return Some(left - 1);
        }
        left = left - 1;
    }
    None
}

/// Finds the operation with the given id anywhere in the schema's paths, and extracts
/// everything that the generator needs from it.
pub fn extract_operation(doc: &OpenApiDoc, operation_id: &str) -> (result: Result<
    ExtractedOperation,
    SchemaError,
>)
    ensures
        match result {
            Ok(operation) => operation_by_id(*doc, operation_id@) == Ok::<
                Operation,
                SchemaError<Seq<char>>,
            >(operation@),
            Err(error) => operation_by_id(*doc, operation_id@) == Err::<
                Operation,
                SchemaError<Seq<char>>,
            >(error.model()),
        },
{
    let ghost rows = doc.paths.rows();
    let mut left: usize = doc.paths.len();
    assert(rows.take(left as int) =~= rows);
    while left > 0
        invariant
            rows == doc.paths.rows(),
            left <= rows.len(),
            last_in_paths(rows.take(left as int), operation_id@) == last_in_paths(
                rows,
                operation_id@,
            ),
        decreases left,
    {
        assert(rows.take(left as int).drop_last() =~= rows.take(left - 1));
        let methods = doc.paths.value_at(left - 1);
        if let Some(j) = find_in_methods(methods, operation_id) {
            return extract_from_found(
                doc,
                doc.paths.name_at(left - 1),
                methods.name_at(j),
                methods.value_at(j),
            );
        }
        left = left - 1;
    }
    Err(SchemaError::OperationNotFound { operation_id: operation_id.to_string() })
}

/// The action that a path stands for, if it is one: one segment beneath `base_path`,
/// without a path parameter of its own, and not excluded.
pub open spec fn action_name(
    path: Seq<char>,
    base_path: Seq<char>,
    exclude: Seq<Seq<char>>,
) -> Option<Seq<char>> {
    match text::without_prefix(path, base_path) {
        None => None,
        Some(rest) => {
            let name = text::trimmed_end(rest, '/');
            if rest.contains('{') || name.len() == 0 || name.contains('/') || exclude.contains(
                name,
            ) {
                None
            } else {
                Some(name)
            }
        },
    }
}

fn action_at(path: &str, base_path: &str, exclude: &[String]) -> (name: Option<String>)
    ensures
        text::opt_text(name) == action_name(path@, base_path@, text::texts(exclude@)),
{
    let rest = match strip_prefix(path, base_path) {
        Some(rest) => rest,
        None => {
            return None;
        },
    };
    if has_char(rest.as_str(), '{') {
        return None;
    }
    let name = trim_end(rest.as_str(), '/');
    if name.as_str().unicode_len() == 0 || has_char(name.as_str(), '/') || has_name(
        exclude,
        name.as_str(),
    ) {
        return None;
    }
    Some(name)
}

/// The actions at one path, one for every HTTP verb, or the first failure.
pub open spec fn actions_at(
    doc: OpenApiDoc,
    path: Seq<char>,
    name: Seq<char>,
    methods: Seq<(Seq<char>, RawOperation)>,
) -> Result<Seq<Action>, SchemaError<Seq<char>>>
    decreases methods.len(),
{
    if methods.len() == 0 {
        Ok(Seq::empty())
    } else {
        match actions_at(doc, path, name, methods.drop_last()) {
            Err(error) => Err(error),
            Ok(before) => match extracted(doc, path, methods.last().0, methods.last().1) {
                Ok(operation) => Ok(before.push(Action { name, operation })),
                Err(cause) => Err(
                    SchemaError::DiscoveringAction { name, path, cause: Box::new(cause) },
                ),
            },
        }
    }
}

/// The actions beneath `base_path`, path by path, or the first failure.
pub open spec fn actions_beneath(
    doc: OpenApiDoc,
    base_path: Seq<char>,
    exclude: Seq<Seq<char>>,
    paths: Seq<(Seq<char>, Table<RawOperation>)>,
) -> Result<Seq<Action>, SchemaError<Seq<char>>>
    decreases paths.len(),
{
    if paths.len() == 0 {
        Ok(Seq::empty())
    } else {
        match actions_beneath(doc, base_path, exclude, paths.drop_last()) {
            Err(error) => Err(error),
            Ok(before) => {
                let (path, methods) = paths.last();
                match action_name(path, base_path, exclude) {
                    None => Ok(before),
                    Some(name) => match actions_at(doc, path, name, methods.rows()) {
                        Ok(actions) => Ok(before + actions),
                        Err(error) => Err(error),
                    },
                }
            },
        }
    }
}

/// Whether an action stands no later than another: by name, then by path, then by HTTP
/// verb.
pub open spec fn action_le(a: Action, b: Action) -> bool {
    if a.name != b.name {
        order::text_le(a.name, b.name)
    } else if a.operation.path != b.operation.path {
        order::text_le(a.operation.path, b.operation.path)
    } else {
        order::text_le(a.operation.http_verb, b.operation.http_verb)
    }
}

/// Whether no action stands behind a later one.
pub open spec fn ordered_actions(actions: Seq<Action>) -> bool {
    forall|i: int, j: int|
        0 <= i <= j < actions.len() ==> action_le(#[trigger] actions[i], #[trigger] actions[j])
}

/// `sorted` holds the actions of `found` in order.
pub open spec fn sorted_by_action(found: Seq<Action>, sorted: Seq<Action>) -> bool {
    ordered_actions(sorted) && sorted.to_multiset() == found.to_multiset()
}

/// Any two actions are comparable.
pub proof fn action_le_total(a: Action, b: Action)
    ensures
        action_le(a, b) || action_le(b, a),
{
    order::text_le_total(a.name, b.name);
    order::text_le_total(a.operation.path, b.operation.path);
    order::text_le_total(a.operation.http_verb, b.operation.http_verb);
}

/// The order of actions is transitive.
pub proof fn action_le_transitive(a: Action, b: Action, c: Action)
    requires
        action_le(a, b),
        action_le(b, c),
    ensures
        action_le(a, c),
{
    if order::text_le(a.name, b.name) && order::text_le(b.name, c.name) {
        order::text_le_transitive(a.name, b.name, c.name);
        if a.name == c.name {
            order::text_le_antisymmetric(a.name, b.name);
        }
    }
    let (p, q, r) = (a.operation.path, b.operation.path, c.operation.path);
    if order::text_le(p, q) && order::text_le(q, r) {
        order::text_le_transitive(p, q, r);
        if p == r {
            order::text_le_antisymmetric(p, q);
        }
    }
    let (u, v, w) = (a.operation.http_verb, b.operation.http_verb, c.operation.http_verb);
    if order::text_le(u, v) && order::text_le(v, w) {
        order::text_le_transitive(u, v, w);
    }
}

fn comes_first(a: &ExtractedAction, b: &ExtractedAction) -> (first: bool)
    ensures
        first == action_le(a@, b@),
{
    if !same(a.name.as_str(), b.name.as_str()) {
        at_most(a.name.as_str(), b.name.as_str())
    } else if !same(a.operation.path.as_str(), b.operation.path.as_str()) {
        at_most(a.operation.path.as_str(), b.operation.path.as_str())
    } else {
        at_most(a.operation.http_verb.as_str(), b.operation.http_verb.as_str())
    }
}

proof fn lemma_insert_keeps_order(actions: Seq<Action>, at: int, action: Action)
    requires
        ordered_actions(actions),
        0 <= at <= actions.len(),
        at == 0 || action_le(actions[at - 1], action),
        forall|i: int| at <= i < actions.len() ==> !action_le(#[trigger] actions[i], action),
    ensures
        ordered_actions(actions.insert(at, action)),
{
    let grown = actions.insert(at, action);
    assert forall|i: int, j: int| 0 <= i <= j < grown.len() implies action_le(
        #[trigger] grown[i],
        #[trigger] grown[j],
    ) by {
        action_le_total(action, action);
        if i == at && j > at {
            assert(grown[j] == actions[j - 1]);
            action_le_total(actions[j - 1], action);
        } else if j == at && i < at {
            assert(action_le(actions[i], actions[at - 1]));
            action_le_transitive(actions[i], actions[at - 1], action);
        } else if i != at && j != at {
            let a = if i < at { i } else { i - 1 };
            let b = if j < at { j } else { j - 1 };
            assert(grown[i] == actions[a]);
            assert(grown[j] == actions[b]);
        }
    }
}

/// Puts actions in order.
fn sort_actions(actions: Vec<ExtractedAction>) -> (sorted: Vec<ExtractedAction>)
    ensures
        sorted_by_action(actions_of(actions@), actions_of(sorted@)),
{
    let ghost input = actions_of(actions@);
    let mut rest = actions;
    let mut sorted: Vec<ExtractedAction> = Vec::new();
    let ghost mut taken: int = 0;
    assert(actions_of(rest@) =~= input.skip(0));
    assert(actions_of(sorted@) =~= input.take(0));
    while rest.len() > 0
        invariant
            0 <= taken <= input.len(),
            actions_of(rest@) == input.skip(taken),
            sorted_by_action(input.take(taken), actions_of(sorted@)),
        decreases rest@.len(),
    {
        assert(actions_of(rest@).len() == rest@.len());
        assert(actions_of(rest@)[0] == rest@[0]@);
        let ghost all = actions_of(rest@);
        let item = rest.remove(0);
        let mut at: usize = sorted.len();
        while at > 0 && !comes_first(&sorted[at - 1], &item)
            invariant
                at <= sorted@.len(),
                forall|i: int|
                    at <= i < sorted@.len() ==> !action_le(#[trigger] actions_of(sorted@)[i], item@),
            ensures
                at <= sorted@.len(),
                at == 0 || action_le(actions_of(sorted@)[at - 1], item@),
                forall|i: int|
                    at <= i < sorted@.len() ==> !action_le(#[trigger] actions_of(sorted@)[i], item@),
            decreases at,
        {
            at = at - 1;
        }
        let ghost before = actions_of(sorted@);
        sorted.insert(at, item);
        proof {
            lemma_insert_keeps_order(before, at as int, item@);
            assert(actions_of(sorted@) =~= before.insert(at as int, item@));
            assert(input.take(taken + 1) =~= input.take(taken).push(item@));
            vstd::seq_lib::to_multiset_insert(before, at as int, item@);
            vstd::seq_lib::to_multiset_build(input.take(taken), item@);
            assert(actions_of(rest@) =~= all.remove(0));
            assert(all.remove(0) =~= input.skip(taken + 1));
            taken = taken + 1;
        }
    }
    assert(actions_of(rest@).len() == 0);
    assert(input.take(taken) =~= input);
    sorted
}

/// A failure among the first methods is the failure of all of them.
proof fn lemma_methods_failure_stays(
    doc: OpenApiDoc,
    path: Seq<char>,
    name: Seq<char>,
    methods: Seq<(Seq<char>, RawOperation)>,
    i: int,
)
    requires
        0 <= i <= methods.len(),
        actions_at(doc, path, name, methods.take(i)) is Err,
    ensures
        actions_at(doc, path, name, methods) == actions_at(doc, path, name, methods.take(i)),
    decreases methods.len() - i,
{
    if i < methods.len() {
        assert(methods.take(i + 1).drop_last() =~= methods.take(i));
        lemma_methods_failure_stays(doc, path, name, methods, i + 1);
    } else {
        assert(methods.take(i) =~= methods);
    }
}

/// A failure beneath the first paths is the failure of all of them.
proof fn lemma_paths_failure_stays(
    doc: OpenApiDoc,
    base_path: Seq<char>,
    exclude: Seq<Seq<char>>,
    paths: Seq<(Seq<char>, Table<RawOperation>)>,
    i: int,
)
    requires
        0 <= i <= paths.len(),
        actions_beneath(doc, base_path, exclude, paths.take(i)) is Err,
    ensures
        actions_beneath(doc, base_path, exclude, paths) == actions_beneath(
            doc,
            base_path,
            exclude,
            paths.take(i),
        ),
    decreases paths.len() - i,
{
    if i < paths.len() {
        assert(paths.take(i + 1).drop_last() =~= paths.take(i));
        lemma_paths_failure_stays(doc, base_path, exclude, paths, i + 1);
    } else {
        assert(paths.take(i) =~= paths);
    }
}

/// Adds the actions at one path to `actions`.
fn collect_actions(
    doc: &OpenApiDoc,
    path: &str,
    name: &str,
    methods: &Table<RawOperation>,
    actions: &mut Vec<ExtractedAction>,
) -> (result: Result<(), SchemaError>)
    ensures
        match result {
            Ok(()) => actions_at(*doc, path@, name@, methods.rows()) is Ok && actions_of(
                final(actions)@,
            ) == actions_of(old(actions)@) + actions_at(*doc, path@, name@, methods.rows())->Ok_0,
            Err(error) => actions_at(*doc, path@, name@, methods.rows()) == Err::<
                Seq<Action>,
                SchemaError<Seq<char>>,
            >(error.model()),
        },
{
    let ghost rows = methods.rows();
    let ghost start = actions_of(actions@);
    let count: usize = methods.len();
    assert(actions_of(actions@) =~= start + Seq::<Action>::empty());
    for i in 0..count
        invariant
            rows == methods.rows(),
            count == rows.len(),
            start == actions_of(old(actions)@),
            actions_at(*doc, path@, name@, rows.take(i as int)) is Ok,
            actions_of(actions@) == start + actions_at(
                *doc,
                path@,
                name@,
                rows.take(i as int),
            )->Ok_0,
    {
        proof {
            assert(rows.take(i + 1).drop_last() =~= rows.take(i as int));
        }
        match extract_from_found(doc, path, methods.name_at(i), methods.value_at(i)) {
            Ok(operation) => {
                let ghost before = actions_of(actions@);
                actions.push(ExtractedAction { name: name.to_string(), operation });
                assert(actions_of(actions@) =~= before.push(actions@.last()@));
                assert(actions_of(actions@) =~= start + actions_at(
                    *doc,
                    path@,
                    name@,
                    rows.take(i + 1),
                )->Ok_0);
            },
            Err(cause) => {
                let error = SchemaError::DiscoveringAction {
                    name: name.to_string(),
                    path: path.to_string(),
                    cause: Box::new(cause),
                };
                proof {
                    lemma_methods_failure_stays(*doc, path@, name@, rows, i + 1);
                }
                return Err(error);
            },
        }
    }
    assert(rows.take(rows.len() as int) =~= rows);
    Ok(())
}

/// Discovers a resource's custom actions: the operations at `{base_path}{action}/`, one
/// path segment beyond the resource's own uuid-scoped path, ordered by name, path and HTTP
/// verb.
///
/// Only paths beneath `base_path` are looked at, so no other resource's actions can slip
/// in, and a path with a further path parameter is a nested resource and no action.
pub fn discover_actions(doc: &OpenApiDoc, base_path: &str, exclude: &[String]) -> (result:
    Result<Vec<ExtractedAction>, SchemaError>)
    ensures
        match result {
            Ok(actions) => {
                let found = actions_beneath(
                    *doc,
                    base_path@,
                    text::texts(exclude@),
                    doc.paths.rows(),
                );
                found is Ok && sorted_by_action(found->Ok_0, actions_of(actions@))
            },
            Err(error) => actions_beneath(
                *doc,
                base_path@,
                text::texts(exclude@),
                doc.paths.rows(),
            ) == Err::<Seq<Action>, SchemaError<Seq<char>>>(error.model()),
        },
{
    let ghost rows = doc.paths.rows();
    let ghost unwanted = text::texts(exclude@);
    let mut actions: Vec<ExtractedAction> = Vec::new();
    let count: usize = doc.paths.len();
    assert(actions_of(actions@) =~= Seq::<Action>::empty());
    for i in 0..count
        invariant
            rows == doc.paths.rows(),
            unwanted == text::texts(exclude@),
            count == rows.len(),
            actions_beneath(*doc, base_path@, unwanted, rows.take(i as int)) == Ok::<
                Seq<Action>,
                SchemaError<Seq<char>>,
            >(actions_of(actions@)),
    {
        proof {
            assert(rows.take(i + 1).drop_last() =~= rows.take(i as int));
        }
        let path = doc.paths.name_at(i);
        if let Some(name) = action_at(path, base_path, exclude) {
            let methods = doc.paths.value_at(i);
            match collect_actions(doc, path, name.as_str(), methods, &mut actions) {
                Ok(()) => {},
                Err(error) => {
                    proof {
                        lemma_paths_failure_stays(*doc, base_path@, unwanted, rows, i + 1);
                    }
                    return Err(error);
                },
            }
        }
    }
    assert(rows.take(rows.len() as int) =~= rows);
    Ok(sort_actions(actions))
}

/// The values of a flat enumeration schema.
pub open spec fn enum_values_of(doc: OpenApiDoc, schema: Seq<char>) -> Result<
    Seq<Seq<char>>,
    SchemaError<Seq<char>>,
> {
    if !doc.components.schemas@.contains_key(schema) {
        Err(SchemaError::EnumNotFound { schema })
    } else {
        match doc.components.schemas@[schema].enum_values {
            Some(values) => Ok(text::texts(values@)),
            None => Err(SchemaError::NoEnumValues { schema }),
        }
    }
}

/// Resolves the values of a flat `{type: string, enum: [...]}` schema by its name (e.g.
/// `"CustomerFieldEnum"`).
pub fn extract_enum_values(doc: &OpenApiDoc, schema_name: &str) -> (result: Result<
    Vec<String>,
    SchemaError,
>)
    ensures
        match result {
            Ok(values) => enum_values_of(*doc, schema_name@) == Ok::<
                Seq<Seq<char>>,
                SchemaError<Seq<char>>,
            >(text::texts(values@)),
            Err(error) => enum_values_of(*doc, schema_name@) == Err::<
                Seq<Seq<char>>,
                SchemaError<Seq<char>>,
            >(error.model()),
        },
{
    match doc.components.schemas.get(schema_name) {
        Some(schema) => match &schema.enum_values {
            Some(values) => Ok(copy_strings(values)),
            None => Err(SchemaError::NoEnumValues { schema: schema_name.to_string() }),
        },
        None => Err(SchemaError::EnumNotFound { schema: schema_name.to_string() }),
    }
}

} // verus!
