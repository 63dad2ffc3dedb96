//! What is read of an operation of an API schema, entry by entry.
use crate::error::SchemaError;
use crate::schema;
use crate::schema::{
    ExtractedOperation, OpenApiDoc, Operation, ParamKind, RawOperation, RawParamOrRef,
    RawParameter, RawSchema,
};
use crate::schema_laws;
use crate::text;
use vstd::prelude::*;

verus! {

/// Whether an entry stands for a parameter: it is the parameter itself, or refers to it by
/// its name among the shared ones.
pub open spec fn stands_for(doc: OpenApiDoc, entry: RawParamOrRef, param: RawParameter) -> bool {
    match entry {
        RawParamOrRef::Inline(own) => own == param,
        RawParamOrRef::Ref { reference } => exists|name: Seq<char>|
            #![trigger doc.components.parameters@.contains_key(name)]
            reference@ == "#/components/parameters/"@ + name
                && doc.components.parameters@.contains_key(name)
                && doc.components.parameters@[name] == param,
    }
}

/// Whether a reference names a schema.
pub open spec fn names_schema(reference: Option<String>, name: Seq<char>) -> bool {
    reference is Some && reference->0@ == "#/components/schemas/"@ + name
}

/// Whether the items of a schema refer to a schema of that name.
pub open spec fn has_items_of(schema: RawSchema, name: Seq<char>) -> bool {
    schema.items is Some && names_schema(schema.items->0.reference, name)
}

/// Whether a parameter is a query parameter of that name.
pub open spec fn asks(param: RawParameter, name: Seq<char>) -> bool {
    param.location@ == "query"@ && param.name@ == name
}

/// Whether a parameter narrows a list: a query parameter, but for paging, the wanted fields
/// and the ordering.
pub open spec fn narrows(param: RawParameter) -> bool {
    &&& param.location@ == "query"@
    &&& !(param.name@ == "page"@ || param.name@ == "page_size"@ || param.name@ == "field"@
        || param.name@ == "o"@)
}

/// Whether a type is that one.
pub open spec fn has_type(param: RawParameter, name: Seq<char>) -> bool {
    param.schema.schema_type is Some && param.schema.schema_type->0@ == name
}

/// Whether a kind is the one that the type of a parameter says, and whether it is required:
/// texts and lists of them, truth values and whole numbers have a kind, whatever else the
/// parameter says, and no other type has one.
pub open spec fn is_kind_of(param: RawParameter, kind: ParamKind) -> bool {
    let required = param.required;
    match kind {
        ParamKind::RequiredStr => required && (has_type(param, "string"@) || has_type(
            param,
            "array"@,
        )),
        ParamKind::OptionalStr => !required && (has_type(param, "string"@) || has_type(
            param,
            "array"@,
        )),
        ParamKind::RequiredBool => required && has_type(param, "boolean"@),
        ParamKind::OptionalBool => !required && has_type(param, "boolean"@),
        ParamKind::RequiredI64 => required && has_type(param, "integer"@),
        ParamKind::OptionalI64 => !required && has_type(param, "integer"@),
        ParamKind::SkippedRequired => required && !has_kind(param),
        ParamKind::SkippedOptional => !required && !has_kind(param),
    }
}

/// Whether the type of a parameter has a kind.
pub open spec fn has_kind(param: RawParameter) -> bool {
    has_type(param, "string"@) || has_type(param, "array"@) || has_type(param, "boolean"@)
        || has_type(param, "integer"@)
}

/// Whether `i` is the last place of a query parameter of that name.
pub open spec fn last_asking(params: Seq<RawParameter>, name: Seq<char>, i: int) -> bool {
    &&& 0 <= i < params.len()
    &&& asks(params[i], name)
    &&& forall|k: int| i < k < params.len() ==> !asks(#[trigger] params[k], name)
}

/// Whether a name is that of the schema whose values the query parameter of a name takes:
/// the one that its items refer to.
pub open spec fn takes_values_of(
    params: Seq<RawParameter>,
    name: Seq<char>,
    schema: Option<Seq<char>>,
) -> bool {
    match schema {
        Some(known) => exists|i: int| #[trigger] last_asking(params, name, i) && has_items_of(
            params[i].schema,
            known,
        ),
        None => forall|i: int, known: Seq<char>|
            #![trigger last_asking(params, name, i), has_items_of(params[i].schema, known)]
            last_asking(params, name, i) ==> !has_items_of(params[i].schema, known),
    }
}

/// Whether a name is that of the schema of an operation's JSON request body.
pub open spec fn takes_body(op: RawOperation, name: Seq<char>) -> bool {
    &&& op.request_body is Some
    &&& op.request_body->0.content@.contains_key("application/json"@)
    &&& names_schema(op.request_body->0.content@["application/json"@].schema.reference, name)
}

/// Whether parameters are those that the entries of an operation stand for.
pub open spec fn parameters_of(
    doc: OpenApiDoc,
    op: RawOperation,
    params: Seq<RawParameter>,
) -> bool {
    &&& params.len() == op.parameters@.len()
    &&& forall|i: int|
        0 <= i < params.len() ==> stands_for(doc, op.parameters@[i], #[trigger] params[i])
}

/// Whether at most one of the parameters stands in the path.
pub open spec fn one_in_path(params: Seq<RawParameter>) -> bool {
    forall|i: int, j: int|
        0 <= i < j < params.len() ==> !((#[trigger] params[i]).location@ == "path"@ && (
        #[trigger] params[j]).location@ == "path"@)
}

/// Whether what was extracted says what an operation of the API schema says.
pub open spec fn says_what_it_says(
    path: Seq<char>,
    http_verb: Seq<char>,
    op: RawOperation,
    params: Seq<RawParameter>,
    found: Operation,
) -> bool {
    let filters = params.filter(|param: RawParameter| narrows(param));
    &&& found.operation_id == op.operation_id@
    &&& found.path == path
    &&& found.http_verb == http_verb
    &&& forall|i: int|
        0 <= i < params.len() && (#[trigger] params[i]).location@ == "path"@ ==> found.path_param
            == Some(params[i].name@)
    &&& found.path_param is Some ==> exists|i: int|
        0 <= i < params.len() && (#[trigger] params[i]).location@ == "path"@
    &&& found.query_params.len() == filters.len()
    &&& forall|k: int|
        0 <= k < filters.len() ==> (#[trigger] found.query_params[k]).name == filters[k].name@
            && is_kind_of(filters[k], found.query_params[k].kind)
    &&& takes_values_of(params, "field"@, found.field_enum_name)
    &&& found.has_order == exists|i: int|
        0 <= i < params.len() && asks(#[trigger] params[i], "o"@)
    &&& takes_values_of(params, "o"@, found.order_enum_name)
    &&& forall|name: Seq<char>|
        found.request_body_type == Some(name) <==> #[trigger] takes_body(op, name)
}

proof fn lemma_without_prefix(all: Seq<char>, prefix: Seq<char>, rest: Seq<char>)
    ensures
        text::without_prefix(all, prefix) == Some(rest) <==> all == prefix + rest,
{
    if all == prefix + rest {
        assert(all.skip(prefix.len() as int) =~= rest);
        assert(prefix.is_prefix_of(all));
    }
    if text::without_prefix(all, prefix) == Some(rest) {
        assert(all =~= prefix + rest);
    }
}

proof fn lemma_schema_name(reference: Option<String>)
    ensures
        forall|name: Seq<char>|
            schema::schema_name(text::opt_text(reference)) == Some(name) <==> #[trigger]
            names_schema(reference, name),
{
    assert forall|name: Seq<char>|
        schema::schema_name(text::opt_text(reference)) == Some(name) <==> #[trigger] names_schema(
            reference,
            name,
        ) by {
        if reference is Some {
            lemma_without_prefix(reference->0@, "#/components/schemas/"@, name);
        }
    }
}

pub(crate) proof fn lemma_resolved(doc: OpenApiDoc, entry: RawParamOrRef, param: RawParameter)
    ensures
        schema::resolved(doc, entry) == Ok::<RawParameter, SchemaError<Seq<char>>>(param)
            <==> stands_for(doc, entry, param),
{
    if let RawParamOrRef::Ref { reference } = entry {
        let prefix = "#/components/parameters/"@;
        if schema::resolved(doc, entry) is Ok {
            let name = text::without_prefix(reference@, prefix)->0;
            lemma_without_prefix(reference@, prefix, name);
            assert(doc.components.parameters@.contains_key(name));
        }
        if stands_for(doc, entry, param) {
            let name = choose|name: Seq<char>|
                #![trigger doc.components.parameters@.contains_key(name)]
                reference@ == prefix + name && doc.components.parameters@.contains_key(name)
                    && doc.components.parameters@[name] == param;
            lemma_without_prefix(reference@, prefix, name);
        }
    }
}

proof fn lemma_filters(params: Seq<RawParameter>)
    ensures
        ({
            let kept = params.filter(|param: RawParameter| narrows(param));
            let made = schema::filters(params);
            &&& made.len() == kept.len()
            &&& forall|k: int|
                0 <= k < kept.len() ==> (#[trigger] made[k]).name == kept[k].name@ && is_kind_of(
                    kept[k],
                    made[k].kind,
                )
        }),
    decreases params.len(),
{
    reveal(Seq::filter);
    let wanted = |param: RawParameter| narrows(param);
    let is_wanted = |param: RawParameter| schema::is_filter(param);
    let kept = params.filter(wanted);
    let made = schema::filters(params);
    if params.len() > 0 {
        let last = params.last();
        lemma_filters(params.drop_last());
        let before = params.drop_last().filter(wanted);
        let earlier = schema::filters(params.drop_last());
        assert(is_wanted(last) == wanted(last));
        if wanted(last) {
            assert(made =~= earlier.push(schema::kept_param(last)));
            assert(kept =~= before.push(last));
            lemma_types_differ();
            assert(is_kind_of(last, schema::kept_param(last).kind));
        } else {
            assert(made =~= earlier);
            assert(kept =~= before);
        }
    }
}

proof fn lemma_types_differ()
    ensures
        "string"@ != "boolean"@,
        "string"@ != "integer"@,
        "array"@ != "boolean"@,
        "array"@ != "integer"@,
        "boolean"@ != "integer"@,
{
    reveal_strlit("string");
    reveal_strlit("array");
    reveal_strlit("boolean");
    reveal_strlit("integer");
    assert("string"@[0] == 's');
    assert("array"@[0] == 'a');
    assert("boolean"@[0] == 'b');
    assert("integer"@[0] == 'i');
}

proof fn lemma_takes_values(params: Seq<RawParameter>, name: Seq<char>)
    ensures
        takes_values_of(params, name, schema::query_items_schema(params, name)),
    decreases params.len(),
{
    let found = schema::query_items_schema(params, name);
    if params.len() > 0 {
        let last = params.len() - 1;
        let before = params.drop_last();
        if schema::query_named(params.last(), name) {
            assert(last_asking(params, name, last));
            let items = params[last].schema.items;
            if items is Some {
                lemma_schema_name(items->0.reference);
                if found is Some {
                    assert(has_items_of(params[last].schema, found->0));
                }
            }
            if found is None {
                assert forall|i: int, known: Seq<char>|
                    #![trigger last_asking(params, name, i), has_items_of(params[i].schema, known)]
                    last_asking(params, name, i) implies !has_items_of(params[i].schema, known) by {
                    if i < last {
                        assert(!asks(params[last], name));
                    }
                    if items is Some {
                        assert(!names_schema(items->0.reference, known));
                    }
                }
            }
        } else {
            lemma_takes_values(before, name);
            assert forall|i: int| last_asking(params, name, i) == #[trigger] last_asking(
                before,
                name,
                i,
            ) by {
                assert(!asks(params[last], name));
                if last_asking(before, name, i) {
                    assert(before[i] == params[i]);
                    assert forall|k: int| i < k < params.len() implies !asks(
                        #[trigger] params[k],
                        name,
                    ) by {
                        if k < last {
                            assert(before[k] == params[k]);
                        }
                    }
                }
                if last_asking(params, name, i) {
                    assert(i != last);
                    assert(before[i] == params[i]);
                    assert forall|k: int| i < k < before.len() implies !asks(
                        #[trigger] before[k],
                        name,
                    ) by {
                        assert(before[k] == params[k]);
                    }
                }
            }
            match found {
                Some(known) => {
                    let i = choose|i: int| #[trigger] last_asking(before, name, i) && has_items_of(
                        before[i].schema,
                        known,
                    );
                    assert(last_asking(params, name, i));
                },
                None => {
                    assert forall|i: int, known: Seq<char>|
                        #![trigger last_asking(params, name, i), has_items_of(params[i].schema, known)]
                        last_asking(params, name, i) implies !has_items_of(
                        params[i].schema,
                        known,
                    ) by {
                        assert(last_asking(before, name, i));
                        assert(!has_items_of(before[i].schema, known));
                    }
                },
            }
        }
    }
}

proof fn lemma_path_param(params: Seq<RawParameter>)
    requires
        one_in_path(params),
    ensures
        forall|i: int|
            0 <= i < params.len() && (#[trigger] params[i]).location@ == "path"@
                ==> schema::path_param_name(params) == Some(params[i].name@),
        schema::path_param_name(params) is Some ==> exists|i: int|
            0 <= i < params.len() && (#[trigger] params[i]).location@ == "path"@,
    decreases params.len(),
{
    if params.len() > 0 {
        let last = params.len() - 1;
        let before = params.drop_last();
        assert(one_in_path(before)) by {
            assert forall|i: int, j: int| 0 <= i < j < before.len() implies !((
            #[trigger] before[i]).location@ == "path"@ && (#[trigger] before[j]).location@
                == "path"@) by {
                assert(before[i] == params[i] && before[j] == params[j]);
            }
        }
        lemma_path_param(before);
        if params[last].location@ == "path"@ {
            assert forall|i: int|
                0 <= i < params.len() && (#[trigger] params[i]).location@ == "path"@ implies i
                == last by {}
        } else {
            assert forall|i: int|
                0 <= i < params.len() && (#[trigger] params[i]).location@
                    == "path"@ implies schema::path_param_name(params) == Some(params[i].name@) by {
                assert(before[i] == params[i]);
            }
            if schema::path_param_name(params) is Some {
                let i = choose|i: int|
                    0 <= i < before.len() && (#[trigger] before[i]).location@ == "path"@;
                assert(params[i].location@ == "path"@);
            }
        }
    }
}

/// The parameters of entries can be read exactly where each entry stands for one and at
/// most one of them stands in the path.
proof fn lemma_no_failure(doc: OpenApiDoc, operation_id: Seq<char>, entries: Seq<RawParamOrRef>)
    ensures
        schema::first_failure(doc, operation_id, entries) is None <==> {
            &&& forall|i: int|
                0 <= i < entries.len() ==> schema::resolved(doc, #[trigger] entries[i]) is Ok
            &&& one_in_path(schema::parameters(doc, entries))
        },
    decreases entries.len(),
{
    if entries.len() > 0 {
        let before = entries.drop_last();
        let last = entries.len() - 1;
        lemma_no_failure(doc, operation_id, before);
        let params = schema::parameters(doc, entries);
        let earlier = schema::parameters(doc, before);
        assert(params.drop_last() =~= earlier);
        assert(forall|i: int| 0 <= i < last ==> before[i] == #[trigger] entries[i]);
        assert(forall|i: int| 0 <= i < last ==> earlier[i] == #[trigger] params[i]);
        if schema::first_failure(doc, operation_id, before) is None {
            lemma_path_param(earlier);
            if schema::first_failure(doc, operation_id, entries) is None {
                assert forall|i: int, j: int| 0 <= i < j < params.len() implies !((
                #[trigger] params[i]).location@ == "path"@ && (#[trigger] params[j]).location@
                    == "path"@) by {
                    if j < last {
                        assert(earlier[i] == params[i] && earlier[j] == params[j]);
                    } else if params[i].location@ == "path"@ {
                        assert(earlier[i].location@ == "path"@);
                    }
                }
            } else if schema::resolved(doc, entries.last()) is Ok {
                let i = choose|i: int|
                    0 <= i < earlier.len() && (#[trigger] earlier[i]).location@ == "path"@;
                assert(params[i].location@ == "path"@ && params[last].location@ == "path"@);
            } else {
                assert(schema::resolved(doc, entries[last]) is Err);
            }
        } else {
            if one_in_path(params) {
                assert(one_in_path(earlier)) by {
                    assert forall|i: int, j: int| 0 <= i < j < earlier.len() implies !((
                    #[trigger] earlier[i]).location@ == "path"@ && (
                    #[trigger] earlier[j]).location@ == "path"@) by {
                        assert(earlier[i] == params[i] && earlier[j] == params[j]);
                    }
                }
            }
            if forall|i: int|
                0 <= i < entries.len() ==> schema::resolved(doc, #[trigger] entries[i]) is Ok {
                assert forall|i: int| 0 <= i < before.len() implies schema::resolved(
                    doc,
                    #[trigger] before[i],
                ) is Ok by {
                    assert(before[i] == entries[i]);
                }
            }
        }
    }
}

/// What is extracted of an operation says what the API schema says of it: where it stands,
/// its path parameter, every filter with the kind of its type, where the valid fields and
/// orderings are listed, and the type of its request body.
pub proof fn extraction_says_what_the_schema_says(
    doc: OpenApiDoc,
    path: Seq<char>,
    http_verb: Seq<char>,
    op: RawOperation,
) -> (params: Seq<RawParameter>)
    requires
        schema::extracted(doc, path, http_verb, op) is Ok,
    ensures
        parameters_of(doc, op, params),
        one_in_path(params),
        says_what_it_says(
            path,
            http_verb,
            op,
            params,
            schema::extracted(doc, path, http_verb, op)->Ok_0,
        ),
{
    let entries = op.parameters@;
    let params = schema::parameters(doc, entries);
    let found = schema::extracted(doc, path, http_verb, op)->Ok_0;
    lemma_no_failure(doc, op.operation_id@, entries);
    assert forall|i: int| 0 <= i < params.len() implies stands_for(
        doc,
        entries[i],
        #[trigger] params[i],
    ) by {
        lemma_resolved(doc, entries[i], params[i]);
    }
    lemma_path_param(params);
    lemma_filters(params);
    lemma_takes_values(params, "field"@);
    lemma_takes_values(params, "o"@);
    assert forall|name: Seq<char>|
        found.request_body_type == Some(name) <==> #[trigger] takes_body(op, name) by {
        if op.request_body is Some && op.request_body->0.content@.contains_key(
            "application/json"@,
        ) {
            lemma_schema_name(
                op.request_body->0.content@["application/json"@].schema.reference,
            );
            assert(names_schema(
                op.request_body->0.content@["application/json"@].schema.reference,
                name,
            ) == takes_body(op, name));
        }
    }
    assert(found.has_order == exists|i: int|
        0 <= i < params.len() && asks(#[trigger] params[i], "o"@)) by {
        if found.has_order {
            let i = choose|i: int|
                0 <= i < params.len() && schema::query_named(#[trigger] params[i], "o"@);
            assert(asks(params[i], "o"@));
        }
        if exists|i: int| 0 <= i < params.len() && asks(#[trigger] params[i], "o"@) {
            let i = choose|i: int| 0 <= i < params.len() && asks(#[trigger] params[i], "o"@);
            assert(schema::query_named(params[i], "o"@));
        }
    }
    params
}

/// An operation can be extracted exactly where each of its entries stands for a parameter
/// and at most one of them stands in the path.
pub proof fn extraction_succeeds_where_it_can(
    doc: OpenApiDoc,
    path: Seq<char>,
    http_verb: Seq<char>,
    op: RawOperation,
    params: Seq<RawParameter>,
)
    requires
        parameters_of(doc, op, params),
    ensures
        schema::extracted(doc, path, http_verb, op) is Ok <==> one_in_path(params),
{
    let entries = op.parameters@;
    assert forall|i: int| 0 <= i < entries.len() implies schema::resolved(
        doc,
        #[trigger] entries[i],
    ) == Ok::<RawParameter, SchemaError<Seq<char>>>(params[i]) by {
        assert(stands_for(doc, entries[i], params[i]));
        lemma_resolved(doc, entries[i], params[i]);
    }
    assert(schema::parameters(doc, entries) =~= params);
    lemma_no_failure(doc, op.operation_id@, entries);
}

/// An operation is read at a place of the API schema that has its id: its path is the one
/// that it stands under there, and its HTTP verb the one that it stands at.
pub proof fn an_operation_is_read_where_it_stands(doc: OpenApiDoc, operation_id: Seq<char>) -> (place:
    (int, int))
    requires
        schema::operation_by_id(doc, operation_id) is Ok,
    ensures
        0 <= place.0 < doc.paths.rows().len(),
        0 <= place.1 < doc.paths.rows()[place.0].1.rows().len(),
        ({
            let (path, methods) = doc.paths.rows()[place.0];
            let (http_verb, op) = methods.rows()[place.1];
            let found = schema::operation_by_id(doc, operation_id)->Ok_0;
            &&& op.operation_id@ == operation_id
            &&& found.operation_id == operation_id
            &&& found.path == path
            &&& found.http_verb == http_verb
            &&& schema::extracted(doc, path, http_verb, op) == Ok::<
                Operation,
                SchemaError<Seq<char>>,
            >(found)
        }),
{
    let paths = doc.paths.rows();
    schema_laws::lemma_last_in_paths(paths, operation_id);
    let (path, verb, op) = schema::last_in_paths(paths, operation_id)->0;
    let (i, j) = choose|i: int, j: int|
        0 <= i < paths.len() && 0 <= j < paths[i].1.rows().len() && paths[i].0 == path
            && #[trigger] paths[i].1.rows()[j] == (verb, op) && op.operation_id@ == operation_id;
    (i, j)
}

/// An operation is missing exactly where nothing in the API schema has its id.
pub proof fn only_an_absent_operation_is_missing(doc: OpenApiDoc, operation_id: Seq<char>)
    ensures
        (schema::operation_by_id(doc, operation_id) matches Err(
            SchemaError::OperationNotFound { operation_id: missing },
        ) && missing == operation_id) <==> forall|i: int, j: int|
            0 <= i < doc.paths.rows().len() && 0 <= j < doc.paths.rows()[i].1.rows().len() ==> (
            #[trigger] doc.paths.rows()[i].1.rows()[j]).1.operation_id@ != operation_id,
{
    let paths = doc.paths.rows();
    schema_laws::lemma_last_in_paths(paths, operation_id);
    if let Some((path, verb, op)) = schema::last_in_paths(paths, operation_id) {
        let (i, j) = choose|i: int, j: int|
            0 <= i < paths.len() && 0 <= j < paths[i].1.rows().len() && paths[i].0 == path
                && #[trigger] paths[i].1.rows()[j] == (verb, op) && op.operation_id@
                == operation_id;
        assert(paths[i].1.rows()[j].1.operation_id@ == operation_id);
        lemma_other_failures(doc, op.operation_id@, op.parameters@);
    }
}

proof fn lemma_other_failures(doc: OpenApiDoc, operation_id: Seq<char>, entries: Seq<RawParamOrRef>)
    ensures
        !(schema::first_failure(doc, operation_id, entries) matches Some(
            SchemaError::OperationNotFound { .. },
        )),
    decreases entries.len(),
{
    if entries.len() > 0 {
        lemma_other_failures(doc, operation_id, entries.drop_last());
    }
}

/// The valid values of a flat enumeration are the ones that the API schema lists, in the
/// order in which it lists them; without a list, there are none to tell.
pub proof fn enum_values_are_the_listed_ones(doc: OpenApiDoc, name: Seq<char>)
    ensures
        ({
            let found = schema::enum_values_of(doc, name);
            let listed = doc.components.schemas@[name].enum_values;
            &&& found is Ok <==> doc.components.schemas@.contains_key(name) && listed is Some
            &&& found matches Ok(values) ==> values.len() == listed->0@.len() && forall|i: int|
                0 <= i < values.len() ==> #[trigger] values[i] == listed->0@[i]@
        }),
{
}

/// Whether a path is one segment beneath another, with or without slashes at its end, and
/// the segment is neither a placeholder nor excluded.
pub open spec fn is_child(
    path: Seq<char>,
    base_path: Seq<char>,
    exclude: Seq<Seq<char>>,
    name: Seq<char>,
    slashes: nat,
) -> bool {
    &&& path == base_path + name + Seq::new(slashes, |i: int| '/')
    &&& name.len() > 0
    &&& !name.contains('/')
    &&& !name.contains('{')
    &&& !exclude.contains(name)
}

proof fn lemma_trimmed(rest: Seq<char>) -> (slashes: nat)
    ensures
        rest == text::trimmed_end(rest, '/') + Seq::new(slashes, |i: int| '/'),
    decreases rest.len(),
{
    if rest.len() > 0 && rest.last() == '/' {
        let fewer = lemma_trimmed(rest.drop_last());
        assert(rest =~= rest.drop_last().push('/'));
        assert(rest =~= text::trimmed_end(rest, '/') + Seq::new(fewer + 1, |i: int| '/'));
        fewer + 1
    } else {
        assert(rest =~= rest + Seq::new(0, |i: int| '/'));
        0
    }
}

proof fn lemma_trims_to(name: Seq<char>, slashes: nat)
    requires
        name.len() > 0,
        !name.contains('/'),
    ensures
        text::trimmed_end(name + Seq::new(slashes, |i: int| '/'), '/') == name,
    decreases slashes,
{
    let rest = name + Seq::new(slashes, |i: int| '/');
    if slashes > 0 {
        let fewer = (slashes - 1) as nat;
        assert(rest.drop_last() =~= name + Seq::new(fewer, |i: int| '/'));
        lemma_trims_to(name, fewer);
    } else {
        assert(rest =~= name);
        assert(name.contains(name.last()));
    }
}

/// A path stands for an action exactly where it is one segment beneath the base path: the
/// action is that segment.
pub proof fn an_action_is_one_segment(
    path: Seq<char>,
    base_path: Seq<char>,
    exclude: Seq<Seq<char>>,
    name: Seq<char>,
)
    ensures
        schema::action_name(path, base_path, exclude) == Some(name) <==> exists|slashes: nat|
            is_child(path, base_path, exclude, name, slashes),
{
    if schema::action_name(path, base_path, exclude) == Some(name) {
        let rest = text::without_prefix(path, base_path)->0;
        lemma_without_prefix(path, base_path, rest);
        let slashes = lemma_trimmed(rest);
        assert(path =~= base_path + name + Seq::new(slashes, |i: int| '/'));
        if name.contains('{') {
            let i = choose|i: int| 0 <= i < name.len() && name[i] == '{';
            assert(rest[i] == '{');
        }
        assert(is_child(path, base_path, exclude, name, slashes));
    }
    if exists|slashes: nat| is_child(path, base_path, exclude, name, slashes) {
        let slashes = choose|slashes: nat| is_child(path, base_path, exclude, name, slashes);
        let rest = name + Seq::new(slashes, |i: int| '/');
        assert(path =~= base_path + rest);
        lemma_without_prefix(path, base_path, rest);
        lemma_trims_to(name, slashes);
        if rest.contains('{') {
            let i = choose|i: int| 0 <= i < rest.len() && rest[i] == '{';
            assert(i < name.len());
            assert(name[i] == '{');
        }
    }
}

/// What contracts see of an extracted operation is what it holds, field by field.
pub proof fn an_operation_is_seen_as_it_is(op: ExtractedOperation, i: int)
    ensures
        op@.operation_id == op.operation_id@,
        op@.path == op.path@,
        op@.http_verb == op.http_verb@,
        op@.path_param == text::opt_text(op.path_param),
        op@.query_params.len() == op.query_params@.len(),
        0 <= i < op.query_params@.len() ==> op@.query_params[i].name == op.query_params@[i].name@
            && op@.query_params[i].kind == op.query_params@[i].kind,
        op@.field_enum_name == text::opt_text(op.field_enum_name),
        op@.has_order == op.has_order,
        op@.order_enum_name == text::opt_text(op.order_enum_name),
        op@.request_body_type == text::opt_text(op.request_body_type),
{
}

} // verus!
