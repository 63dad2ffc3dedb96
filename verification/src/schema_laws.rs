//! What holds of extraction and discovery as a whole.
use crate::determinism_laws;
use crate::error::SchemaError;
use crate::order;
use crate::schema;
use crate::schema::{
    Action, OpenApiDoc, Operation, Param, RawOperation, RawParamOrRef, RawParameter,
    RawRequestBody, RawSchema,
};
use crate::table;
use crate::table::Table;
use crate::text;
use vstd::prelude::*;

verus! {

proof fn lemma_one_path_param(
    doc: OpenApiDoc,
    operation_id: Seq<char>,
    entries: Seq<RawParamOrRef>,
)
    requires
        schema::first_failure(doc, operation_id, entries) is None,
    ensures
        forall|i: int| 0 <= i < entries.len() ==> schema::resolved(doc, #[trigger] entries[i]) is Ok,
        forall|i: int|
            0 <= i < entries.len() && schema::in_path(schema::resolved(doc, #[trigger] entries[i])->Ok_0)
                ==> schema::path_param_name(schema::parameters(doc, entries)) == Some(
                schema::resolved(doc, entries[i])->Ok_0.name@,
            ),
        forall|i: int, j: int|
            0 <= i < entries.len() && 0 <= j < entries.len() && schema::in_path(
                schema::resolved(doc, #[trigger] entries[i])->Ok_0,
            ) && schema::in_path(schema::resolved(doc, #[trigger] entries[j])->Ok_0) ==> i == j,
        schema::path_param_name(schema::parameters(doc, entries)) is Some ==> exists|i: int|
            0 <= i < entries.len() && schema::in_path(schema::resolved(doc, #[trigger] entries[i])->Ok_0),
    decreases entries.len(),
{
    if entries.len() > 0 {
        let before = entries.drop_last();
        lemma_one_path_param(doc, operation_id, before);
        assert(schema::parameters(doc, entries).drop_last() =~= schema::parameters(doc, before));
        assert forall|i: int| 0 <= i < entries.len() - 1 implies #[trigger] entries[i]
            == before[i] by {}
        let last = entries.len() - 1;
        if schema::path_param_name(schema::parameters(doc, entries)) is Some {
            if schema::in_path(schema::resolved(doc, entries.last())->Ok_0) {
                assert(schema::in_path(schema::resolved(doc, entries[last])->Ok_0));
            } else {
                let i = choose|i: int|
                    0 <= i < before.len() && schema::in_path(schema::resolved(doc, #[trigger] before[i])->Ok_0);
                assert(schema::in_path(schema::resolved(doc, entries[i])->Ok_0));
            }
        }
    }
}

/// Every entry of an extracted operation resolves, and at most one of them is a path
/// parameter: the one that the operation then names.
pub proof fn an_operation_has_at_most_one_path_param(
    doc: OpenApiDoc,
    path: Seq<char>,
    http_verb: Seq<char>,
    op: RawOperation,
    i: int,
    j: int,
)
    requires
        schema::extracted(doc, path, http_verb, op) is Ok,
        0 <= i < op.parameters@.len(),
        0 <= j < op.parameters@.len(),
    ensures
        schema::resolved(doc, op.parameters@[i]) is Ok,
        schema::resolved(doc, op.parameters@[j]) is Ok,
        schema::in_path(schema::resolved(doc, op.parameters@[i])->Ok_0) ==> schema::extracted(
            doc,
            path,
            http_verb,
            op,
        )->Ok_0.path_param == Some(schema::resolved(doc, op.parameters@[i])->Ok_0.name@),
        schema::in_path(schema::resolved(doc, op.parameters@[i])->Ok_0) && schema::in_path(
            schema::resolved(doc, op.parameters@[j])->Ok_0,
        ) ==> i == j,
{
    lemma_one_path_param(doc, op.operation_id@, op.parameters@);
}

proof fn lemma_filters_contain(params: Seq<RawParameter>)
    ensures
        forall|i: int|
            0 <= i < params.len() && schema::is_filter(#[trigger] params[i]) ==> schema::filters(params).contains(
                schema::kept_param(params[i]),
            ),
        forall|k: int|
            0 <= k < schema::filters(params).len() ==> exists|i: int|
                0 <= i < params.len() && schema::is_filter(#[trigger] params[i]) && schema::kept_param(params[i])
                    == #[trigger] schema::filters(params)[k],
    decreases params.len(),
{
    reveal(Seq::filter);
    if params.len() > 0 {
        let before = params.drop_last();
        lemma_filters_contain(before);
        let last = params.last();
        if schema::is_filter(last) {
            assert(schema::filters(params) =~= schema::filters(before).push(schema::kept_param(last)));
            assert(schema::filters(params)[schema::filters(before).len() as int] == schema::kept_param(last));
        } else {
            assert(schema::filters(params) =~= schema::filters(before));
        }
        assert forall|i: int|
            0 <= i < params.len() && schema::is_filter(#[trigger] params[i]) implies schema::filters(
            params,
        ).contains(schema::kept_param(params[i])) by {
            if i < before.len() {
                assert(before[i] == params[i]);
                let k = choose|k: int|
                    0 <= k < schema::filters(before).len() && schema::filters(before)[k] == schema::kept_param(params[i]);
                assert(schema::filters(params)[k] == schema::kept_param(params[i]));
            }
        }
        assert forall|k: int| 0 <= k < schema::filters(params).len() implies exists|i: int|
            0 <= i < params.len() && schema::is_filter(#[trigger] params[i]) && schema::kept_param(params[i])
                == #[trigger] schema::filters(params)[k] by {
            if k < schema::filters(before).len() {
                let i = choose|i: int|
                    0 <= i < before.len() && schema::is_filter(#[trigger] before[i]) && schema::kept_param(
                        before[i],
                    ) == schema::filters(before)[k];
                assert(schema::is_filter(params[i]));
            } else {
                assert(schema::is_filter(params[params.len() - 1]));
            }
        }
    }
}

/// The filters of an extracted operation are its query parameters but for the paging
/// parameters, `field` and `o`: every one of these is kept, and nothing else.
pub proof fn filters_are_the_other_query_params(
    doc: OpenApiDoc,
    path: Seq<char>,
    http_verb: Seq<char>,
    op: RawOperation,
    param: Param,
)
    requires
        schema::extracted(doc, path, http_verb, op) is Ok,
    ensures
        schema::extracted(doc, path, http_verb, op)->Ok_0.query_params.contains(param) <==> exists|i: int|
            0 <= i < op.parameters@.len() && schema::is_filter(
                schema::resolved(doc, #[trigger] op.parameters@[i])->Ok_0,
            ) && schema::kept_param(schema::resolved(doc, op.parameters@[i])->Ok_0) == param,
        schema::extracted(doc, path, http_verb, op)->Ok_0.query_params.contains(param) ==> param.name
            != "page"@ && param.name != "page_size"@ && param.name != "field"@ && param.name
            != "o"@,
{
    let entries = op.parameters@;
    let params = schema::parameters(doc, entries);
    let kept = schema::filters(params);
    lemma_filters_contain(params);
    if kept.contains(param) {
        let k = choose|k: int| 0 <= k < kept.len() && kept[k] == param;
        let i = choose|i: int|
            0 <= i < params.len() && schema::is_filter(#[trigger] params[i]) && schema::kept_param(params[i])
                == kept[k];
        assert(params[i] == schema::resolved(doc, entries[i])->Ok_0);
    }
    if exists|i: int|
        0 <= i < entries.len() && schema::is_filter(schema::resolved(doc, #[trigger] entries[i])->Ok_0)
            && schema::kept_param(schema::resolved(doc, entries[i])->Ok_0) == param {
        let i = choose|i: int|
            0 <= i < entries.len() && schema::is_filter(schema::resolved(doc, #[trigger] entries[i])->Ok_0)
                && schema::kept_param(schema::resolved(doc, entries[i])->Ok_0) == param;
        assert(params[i] == schema::resolved(doc, entries[i])->Ok_0);
        assert(schema::is_filter(params[i]));
    }
}

/// No other operation of a schema has the id of the operation at path `i` and method `j`.
pub open spec fn only_one_with_its_id(
    paths: Seq<(Seq<char>, Table<RawOperation>)>,
    i: int,
    j: int,
) -> bool {
    forall|k: int, l: int|
        0 <= k < paths.len() && 0 <= l < paths[k].1.rows().len() && (
        #[trigger] paths[k].1.rows()[l]).1.operation_id@ == paths[i].1.rows()[j].1.operation_id@
            ==> k == i && l == j
}

proof fn lemma_last_in_methods(
    methods: Seq<(Seq<char>, RawOperation)>,
    operation_id: Seq<char>,
)
    ensures
        match schema::last_in_methods(methods, operation_id) {
            Some(row) => exists|j: int|
                0 <= j < methods.len() && #[trigger] methods[j] == row && row.1.operation_id@
                    == operation_id,
            None => forall|j: int|
                0 <= j < methods.len() ==> (#[trigger] methods[j]).1.operation_id@ != operation_id,
        },
    decreases methods.len(),
{
    if methods.len() > 0 {
        let before = methods.drop_last();
        lemma_last_in_methods(before, operation_id);
        if methods.last().1.operation_id@ == operation_id {
            assert(methods[methods.len() - 1] == methods.last());
        } else {
            match schema::last_in_methods(before, operation_id) {
                Some(row) => {
                    let j = choose|j: int| 0 <= j < before.len() && #[trigger] before[j] == row;
                    assert(methods[j] == row);
                },
                None => {
                    assert forall|j: int| 0 <= j < methods.len() implies (
                    #[trigger] methods[j]).1.operation_id@ != operation_id by {
                        if j < before.len() {
                            assert(before[j] == methods[j]);
                        }
                    }
                },
            }
        }
    }
}

pub(crate) proof fn lemma_last_in_paths(
    paths: Seq<(Seq<char>, Table<RawOperation>)>,
    operation_id: Seq<char>,
)
    ensures
        match schema::last_in_paths(paths, operation_id) {
            Some((path, verb, op)) => exists|i: int, j: int|
                0 <= i < paths.len() && 0 <= j < paths[i].1.rows().len() && paths[i].0 == path
                    && #[trigger] paths[i].1.rows()[j] == (verb, op) && op.operation_id@
                    == operation_id,
            None => forall|i: int, j: int|
                0 <= i < paths.len() && 0 <= j < paths[i].1.rows().len() ==> (
                #[trigger] paths[i].1.rows()[j]).1.operation_id@ != operation_id,
        },
    decreases paths.len(),
{
    if paths.len() > 0 {
        let before = paths.drop_last();
        let methods = paths.last().1.rows();
        lemma_last_in_paths(before, operation_id);
        lemma_last_in_methods(methods, operation_id);
        match schema::last_in_methods(methods, operation_id) {
            Some(row) => {
                let j = choose|j: int| 0 <= j < methods.len() && #[trigger] methods[j] == row;
                assert(paths[paths.len() - 1].1.rows()[j] == row);
            },
            None => match schema::last_in_paths(before, operation_id) {
                Some((path, verb, op)) => {
                    let (i, j) = choose|i: int, j: int|
                        0 <= i < before.len() && 0 <= j < before[i].1.rows().len() && before[i].0
                            == path && #[trigger] before[i].1.rows()[j] == (verb, op);
                    assert(paths[i].1.rows()[j] == (verb, op));
                },
                None => {
                    assert forall|i: int, j: int|
                        0 <= i < paths.len() && 0 <= j < paths[i].1.rows().len() implies (
                    #[trigger] paths[i].1.rows()[j]).1.operation_id@ != operation_id by {
                        if i < before.len() {
                            assert(before[i].1.rows()[j].1.operation_id@ != operation_id);
                        } else {
                            assert(methods[j].1.operation_id@ != operation_id);
                        }
                    }
                },
            },
        }
    }
}

/// An operation is found wherever it stands in the schema: where no other operation has
/// its id, the order in which paths and verbs are walked makes no difference.
pub proof fn an_operation_is_found_wherever_it_stands(doc: OpenApiDoc, i: int, j: int)
    requires
        0 <= i < doc.paths.rows().len(),
        0 <= j < doc.paths.rows()[i].1.rows().len(),
        only_one_with_its_id(doc.paths.rows(), i, j),
    ensures
        ({
            let (path, methods) = doc.paths.rows()[i];
            let (verb, op) = methods.rows()[j];
            schema::operation_by_id(doc, op.operation_id@) == schema::extracted(doc, path, verb, op)
        }),
{
    let paths = doc.paths.rows();
    let id = paths[i].1.rows()[j].1.operation_id@;
    lemma_last_in_paths(paths, id);
    let (path, verb, op) = schema::last_in_paths(paths, id)->0;
    let (k, l) = choose|k: int, l: int|
        0 <= k < paths.len() && 0 <= l < paths[k].1.rows().len() && paths[k].0 == path
            && #[trigger] paths[k].1.rows()[l] == (verb, op) && op.operation_id@ == id;
    assert(paths[k].1.rows()[l].1.operation_id@ == id);
}

/// An operation that was found has the id that was asked for.
pub proof fn a_found_operation_has_the_id(doc: OpenApiDoc, operation_id: Seq<char>)
    ensures
        schema::operation_by_id(doc, operation_id) matches Ok(operation) ==> operation.operation_id
            == operation_id,
{
    lemma_last_in_paths(doc.paths.rows(), operation_id);
}

/// Whether an action stands at a path: the path is one of an action beneath
/// `base_path`, and one of its methods is the action's operation.
pub open spec fn stands_at(
    doc: OpenApiDoc,
    base_path: Seq<char>,
    exclude: Seq<Seq<char>>,
    action: Action,
    row: (Seq<char>, Table<RawOperation>),
) -> bool {
    &&& schema::action_name(row.0, base_path, exclude) == Some(action.name)
    &&& exists|j: int|
        0 <= j < row.1.rows().len() && schema::extracted(
            doc,
            row.0,
            (#[trigger] row.1.rows()[j]).0,
            row.1.rows()[j].1,
        ) == Ok::<Operation, SchemaError<Seq<char>>>(action.operation)
}

proof fn lemma_actions_at(
    doc: OpenApiDoc,
    path: Seq<char>,
    name: Seq<char>,
    methods: Seq<(Seq<char>, RawOperation)>,
    action: Action,
)
    requires
        schema::actions_at(doc, path, name, methods) is Ok,
    ensures
        schema::actions_at(doc, path, name, methods)->Ok_0.contains(action) <==> action.name == name
            && exists|j: int|
            0 <= j < methods.len() && schema::extracted(
                doc,
                path,
                (#[trigger] methods[j]).0,
                methods[j].1,
            ) == Ok::<Operation, SchemaError<Seq<char>>>(action.operation),
    decreases methods.len(),
{
    if methods.len() > 0 {
        let before = methods.drop_last();
        lemma_actions_at(doc, path, name, before, action);
        let earlier = schema::actions_at(doc, path, name, before)->Ok_0;
        let all = schema::actions_at(doc, path, name, methods)->Ok_0;
        let last = methods.len() - 1;
        assert(all == earlier.push(all.last()));
        assert(methods[last] == methods.last());
        if all.contains(action) {
            let k = choose|k: int| 0 <= k < all.len() && all[k] == action;
            if k < earlier.len() {
                assert(earlier[k] == action);
                let j = choose|j: int|
                    0 <= j < before.len() && schema::extracted(
                        doc,
                        path,
                        (#[trigger] before[j]).0,
                        before[j].1,
                    ) == Ok::<Operation, SchemaError<Seq<char>>>(action.operation);
                assert(methods[j] == before[j]);
            }
        }
        if action.name == name && exists|j: int|
            0 <= j < methods.len() && schema::extracted(
                doc,
                path,
                (#[trigger] methods[j]).0,
                methods[j].1,
            ) == Ok::<Operation, SchemaError<Seq<char>>>(action.operation) {
            let j = choose|j: int|
                0 <= j < methods.len() && schema::extracted(
                    doc,
                    path,
                    (#[trigger] methods[j]).0,
                    methods[j].1,
                ) == Ok::<Operation, SchemaError<Seq<char>>>(action.operation);
            if j < last {
                assert(before[j] == methods[j]);
                let k = choose|k: int| 0 <= k < earlier.len() && earlier[k] == action;
                assert(all[k] == action);
            } else {
                assert(all[earlier.len() as int] == action);
            }
        }
    }
}

proof fn lemma_actions_beneath(
    doc: OpenApiDoc,
    base_path: Seq<char>,
    exclude: Seq<Seq<char>>,
    paths: Seq<(Seq<char>, Table<RawOperation>)>,
    action: Action,
)
    requires
        schema::actions_beneath(doc, base_path, exclude, paths) is Ok,
    ensures
        schema::actions_beneath(doc, base_path, exclude, paths)->Ok_0.contains(action) <==> exists|i: int|
            0 <= i < paths.len() && stands_at(
                doc,
                base_path,
                exclude,
                action,
                #[trigger] paths[i],
            ),
    decreases paths.len(),
{
    if paths.len() > 0 {
        let before = paths.drop_last();
        let (path, methods) = paths.last();
        lemma_actions_beneath(doc, base_path, exclude, before, action);
        let earlier = schema::actions_beneath(doc, base_path, exclude, before)->Ok_0;
        let all = schema::actions_beneath(doc, base_path, exclude, paths)->Ok_0;
        let last = paths.len() - 1;
        assert(paths[last] == paths.last());
        if schema::action_name(path, base_path, exclude) is Some {
            let name = schema::action_name(path, base_path, exclude)->0;
            lemma_actions_at(doc, path, name, methods.rows(), action);
            let here = schema::actions_at(doc, path, name, methods.rows())->Ok_0;
            assert(all == earlier + here);
            if earlier.contains(action) {
                let k = choose|k: int| 0 <= k < earlier.len() && earlier[k] == action;
                assert(all[k] == action);
            }
            if here.contains(action) {
                let k = choose|k: int| 0 <= k < here.len() && here[k] == action;
                assert(all[earlier.len() + k] == action);
            }
            if all.contains(action) {
                let k = choose|k: int| 0 <= k < all.len() && all[k] == action;
                if k < earlier.len() {
                    assert(earlier[k] == action);
                } else {
                    assert(here[k - earlier.len()] == action);
                }
            }
        }
        if earlier.contains(action) {
            let i = choose|i: int|
                0 <= i < before.len() && stands_at(
                    doc,
                    base_path,
                    exclude,
                    action,
                    #[trigger] before[i],
                );
            assert(paths[i] == before[i]);
        }
        if exists|i: int|
            0 <= i < paths.len() && stands_at(
                doc,
                base_path,
                exclude,
                action,
                #[trigger] paths[i],
            ) {
            let i = choose|i: int|
                0 <= i < paths.len() && stands_at(
                    doc,
                    base_path,
                    exclude,
                    action,
                    #[trigger] paths[i],
                );
            if i < last {
                assert(before[i] == paths[i]);
            }
        }
    }
}

/// Discovery finds exactly the operations one segment beneath the base path: a found
/// action stands at such a path and every such operation is found. Its name has no `/`,
/// is not excluded, and no path parameter follows the base path.
pub proof fn discovery_finds_the_direct_children(
    doc: OpenApiDoc,
    base_path: Seq<char>,
    exclude: Seq<Seq<char>>,
    action: Action,
)
    requires
        schema::actions_beneath(doc, base_path, exclude, doc.paths.rows()) is Ok,
    ensures
        ({
            let found = schema::actions_beneath(doc, base_path, exclude, doc.paths.rows())->Ok_0;
            &&& found.contains(action) <==> exists|i: int|
                0 <= i < doc.paths.rows().len() && stands_at(
                    doc,
                    base_path,
                    exclude,
                    action,
                    #[trigger] doc.paths.rows()[i],
                )
            &&& found.contains(action) ==> action.name.len() > 0 && !action.name.contains('/')
                && !action.name.contains('{') && !exclude.contains(action.name)
        }),
{
    let rows = doc.paths.rows();
    lemma_actions_beneath(doc, base_path, exclude, rows, action);
    if schema::actions_beneath(doc, base_path, exclude, rows)->Ok_0.contains(action) {
        let i = choose|i: int|
            0 <= i < rows.len() && stands_at(doc, base_path, exclude, action, #[trigger] rows[i]);
        let rest = text::without_prefix(rows[i].0, base_path)->0;
        text::trimming_adds_nothing(rest, '/');
        if action.name.contains('{') {
            let k = choose|k: int| 0 <= k < action.name.len() && action.name[k] == '{';
            assert(rest[k] == '{');
        }
    }
}

/// Sorting keeps exactly the actions that were found.
pub proof fn sorting_keeps_the_actions(found: Seq<Action>, sorted: Seq<Action>, action: Action)
    requires
        schema::sorted_by_action(found, sorted),
    ensures
        sorted.contains(action) <==> found.contains(action),
        sorted.len() == found.len(),
{
    vstd::seq_lib::to_multiset_contains(found, action);
    vstd::seq_lib::to_multiset_contains(sorted, action);
    vstd::seq_lib::to_multiset_len(found);
    vstd::seq_lib::to_multiset_len(sorted);
}

/// Whether two schemas say the same, whatever order the names in them come in.
pub open spec fn same_schema(a: RawSchema, b: RawSchema) -> bool {
    forall|levels: nat| #[trigger] determinism_laws::alike(a, b, levels)
}

/// Whether two parameters say the same.
pub open spec fn same_parameter(a: RawParameter, b: RawParameter) -> bool {
    &&& a.name@ == b.name@
    &&& a.location@ == b.location@
    &&& a.required == b.required
    &&& same_schema(a.schema, b.schema)
}

/// Whether two parameter entries say the same.
pub open spec fn same_entry(a: RawParamOrRef, b: RawParamOrRef) -> bool {
    match (a, b) {
        (RawParamOrRef::Ref { reference: x }, RawParamOrRef::Ref { reference: y }) => x@ == y@,
        (RawParamOrRef::Inline(x), RawParamOrRef::Inline(y)) => same_parameter(x, y),
        _ => false,
    }
}

/// Whether two request bodies say the same.
pub open spec fn same_body(a: Option<RawRequestBody>, b: Option<RawRequestBody>) -> bool {
    &&& a is Some <==> b is Some
    &&& a is Some ==> {
        &&& a->0.content@.dom() == b->0.content@.dom()
        &&& forall|name: Seq<char>|
            a->0.content@.contains_key(name) ==> same_schema(
                (#[trigger] a->0.content@[name]).schema,
                b->0.content@[name].schema,
            )
    }
}

/// Whether two operations say the same.
pub open spec fn same_operation(a: RawOperation, b: RawOperation) -> bool {
    &&& a.operation_id@ == b.operation_id@
    &&& a.parameters@.len() == b.parameters@.len()
    &&& forall|i: int|
        0 <= i < a.parameters@.len() ==> same_entry(#[trigger] a.parameters@[i], b.parameters@[i])
    &&& same_body(a.request_body, b.request_body)
}

/// Whether two tables have the same parameters by name.
pub open spec fn same_parameters(a: Table<RawParameter>, b: Table<RawParameter>) -> bool {
    &&& a@.dom() == b@.dom()
    &&& forall|name: Seq<char>|
        a@.contains_key(name) ==> same_parameter(#[trigger] a@[name], b@[name])
}

/// Whether two tables have the same operations by HTTP verb.
pub open spec fn same_methods(a: Table<RawOperation>, b: Table<RawOperation>) -> bool {
    &&& a@.dom() == b@.dom()
    &&& forall|verb: Seq<char>|
        a@.contains_key(verb) ==> same_operation(#[trigger] a@[verb], b@[verb])
}

/// Whether two API schemas have the same paths and the same shared parameters, in whatever
/// order.
pub open spec fn same_paths(a: OpenApiDoc, b: OpenApiDoc) -> bool {
    &&& same_parameters(a.components.parameters, b.components.parameters)
    &&& a.paths@.dom() == b.paths@.dom()
    &&& forall|path: Seq<char>|
        a.paths@.contains_key(path) ==> same_methods(#[trigger] a.paths@[path], b.paths@[path])
}

/// Whether the tables of an API schema's paths are tables: no name occurs twice.
pub open spec fn valid_paths(doc: OpenApiDoc) -> bool {
    doc.paths.well_formed() && forall|i: int|
        0 <= i < doc.paths.rows().len() ==> (#[trigger] doc.paths.rows()[i]).1.well_formed()
}

proof fn lemma_same_params(a: Seq<RawParameter>, b: Seq<RawParameter>)
    requires
        a.len() == b.len(),
        forall|i: int| 0 <= i < a.len() ==> same_parameter(#[trigger] a[i], b[i]),
    ensures
        schema::filters(a) == schema::filters(b),
        schema::path_param_name(a) == schema::path_param_name(b),
        forall|name: Seq<char>| #[trigger]
            schema::query_items_schema(a, name) == schema::query_items_schema(b, name),
        forall|name: Seq<char>| #[trigger] schema::has_query(a, name) == schema::has_query(b, name),
    decreases a.len(),
{
    reveal(Seq::filter);
    if a.len() > 0 {
        let last = a.len() - 1;
        assert(same_parameter(a[last], b[last]));
        assert(determinism_laws::alike(a[last].schema, b[last].schema, 1));
        reveal_with_fuel(determinism_laws::alike, 2);
        assert forall|i: int| 0 <= i < a.drop_last().len() implies same_parameter(
            #[trigger] a.drop_last()[i],
            b.drop_last()[i],
        ) by {
            assert(same_parameter(a[i], b[i]));
        }
        lemma_same_params(a.drop_last(), b.drop_last());
        assert(schema::items_schema_name(a[last].schema) == schema::items_schema_name(
            b[last].schema,
        ));
        assert forall|name: Seq<char>| #[trigger]
            schema::query_items_schema(a, name) == schema::query_items_schema(b, name) by {
            assert(schema::query_items_schema(a.drop_last(), name)
                == schema::query_items_schema(b.drop_last(), name));
        }
        if schema::is_filter(a[last]) {
            let kept = schema::kept_param(a[last]);
            assert(schema::filters(a) =~= schema::filters(a.drop_last()).push(kept));
            assert(schema::filters(b) =~= schema::filters(b.drop_last()).push(kept));
        }
    }
    assert forall|name: Seq<char>| #[trigger] schema::has_query(a, name) == schema::has_query(
        b,
        name,
    ) by {
        if schema::has_query(a, name) {
            let i = choose|i: int|
                0 <= i < a.len() && schema::query_named(#[trigger] a[i], name);
            assert(schema::query_named(b[i], name));
        }
        if schema::has_query(b, name) {
            let i = choose|i: int|
                0 <= i < b.len() && schema::query_named(#[trigger] b[i], name);
            assert(same_parameter(a[i], b[i]));
            assert(schema::query_named(a[i], name));
        }
    }
}

proof fn lemma_same_resolution(one: OpenApiDoc, other: OpenApiDoc, a: RawParamOrRef, b: RawParamOrRef)
    requires
        same_parameters(one.components.parameters, other.components.parameters),
        same_entry(a, b),
    ensures
        match schema::resolved(one, a) {
            Ok(param) => schema::resolved(other, b) is Ok && same_parameter(
                param,
                schema::resolved(other, b)->Ok_0,
            ),
            Err(error) => schema::resolved(other, b) == Err::<RawParameter, _>(error),
        },
{
    if a is Ref {
        let name = text::without_prefix(a->reference@, "#/components/parameters/"@);
        if name is Some {
            let params = one.components.parameters@;
            assert(params.contains_key(name->0) == other.components.parameters@.contains_key(
                name->0,
            ));
            if params.contains_key(name->0) {
                assert(same_parameter(
                    params[name->0],
                    other.components.parameters@[name->0],
                ));
            }
        }
    }
}

proof fn lemma_same_entries(
    one: OpenApiDoc,
    other: OpenApiDoc,
    operation_id: Seq<char>,
    a: Seq<RawParamOrRef>,
    b: Seq<RawParamOrRef>,
)
    requires
        same_parameters(one.components.parameters, other.components.parameters),
        a.len() == b.len(),
        forall|i: int| 0 <= i < a.len() ==> same_entry(#[trigger] a[i], b[i]),
    ensures
        schema::first_failure(one, operation_id, a) == schema::first_failure(
            other,
            operation_id,
            b,
        ),
        schema::first_failure(one, operation_id, a) is None ==> forall|i: int|
            0 <= i < a.len() ==> same_parameter(
                #[trigger] schema::parameters(one, a)[i],
                schema::parameters(other, b)[i],
            ),
    decreases a.len(),
{
    if a.len() > 0 {
        let fewer_a = a.drop_last();
        let fewer_b = b.drop_last();
        let last = a.len() - 1;
        assert forall|i: int| 0 <= i < fewer_a.len() implies same_entry(
            #[trigger] fewer_a[i],
            fewer_b[i],
        ) by {
            assert(same_entry(a[i], b[i]));
        }
        lemma_same_entries(one, other, operation_id, fewer_a, fewer_b);
        assert(same_entry(a[last], b[last]));
        lemma_same_resolution(one, other, a[last], b[last]);
        if schema::first_failure(one, operation_id, fewer_a) is None {
            lemma_same_params(
                schema::parameters(one, fewer_a),
                schema::parameters(other, fewer_b),
            );
            assert forall|i: int|
                0 <= i < a.len() && schema::first_failure(one, operation_id, a) is None implies
                same_parameter(
                    #[trigger] schema::parameters(one, a)[i],
                    schema::parameters(other, b)[i],
                ) by {
                if i < last {
                    assert(schema::parameters(one, fewer_a)[i] == schema::parameters(one, a)[i]);
                    assert(schema::parameters(other, fewer_b)[i] == schema::parameters(
                        other,
                        b,
                    )[i]);
                }
            }
        }
    }
}

/// What is extracted depends on what the operation and the shared parameters say.
proof fn lemma_same_extraction(
    one: OpenApiDoc,
    other: OpenApiDoc,
    path: Seq<char>,
    http_verb: Seq<char>,
    a: RawOperation,
    b: RawOperation,
)
    requires
        same_parameters(one.components.parameters, other.components.parameters),
        same_operation(a, b),
    ensures
        schema::extracted(one, path, http_verb, a) == schema::extracted(other, path, http_verb, b),
{
    lemma_same_entries(one, other, a.operation_id@, a.parameters@, b.parameters@);
    if schema::first_failure(one, a.operation_id@, a.parameters@) is None {
        lemma_same_params(
            schema::parameters(one, a.parameters@),
            schema::parameters(other, b.parameters@),
        );
    }
    if a.request_body is Some {
        let content_a = a.request_body->0.content@;
        let content_b = b.request_body->0.content@;
        let kind = "application/json"@;
        assert(content_a.contains_key(kind) == content_b.contains_key(kind));
        if content_a.contains_key(kind) {
            assert(same_schema(content_a[kind].schema, content_b[kind].schema));
            assert(determinism_laws::alike(content_a[kind].schema, content_b[kind].schema, 0));
        }
    }
}

/// The row of the other schema that has the same path, and the row of its methods that has
/// the same HTTP verb.
proof fn lemma_same_place(one: OpenApiDoc, other: OpenApiDoc, i: int, j: int) -> (at: (int, int))
    requires
        same_paths(one, other),
        valid_paths(one),
        valid_paths(other),
        0 <= i < one.paths.rows().len(),
        0 <= j < one.paths.rows()[i].1.rows().len(),
    ensures
        0 <= at.0 < other.paths.rows().len(),
        0 <= at.1 < other.paths.rows()[at.0].1.rows().len(),
        other.paths.rows()[at.0].0 == one.paths.rows()[i].0,
        ({
            let here = one.paths.rows()[i].1.rows()[j];
            let there = other.paths.rows()[at.0].1.rows()[at.1];
            here.0 == there.0 && same_operation(here.1, there.1)
        }),
{
    let (path, methods) = one.paths.rows()[i];
    table::lemma_row_found(one.paths.rows(), i);
    assert(other.paths@.contains_key(path));
    let k = table::row_of(other.paths.rows(), path);
    table::lemma_row_found(other.paths.rows(), k);
    let other_methods = other.paths.rows()[k].1;
    assert(same_methods(one.paths@[path], other.paths@[path]));
    let (verb, op) = methods.rows()[j];
    table::lemma_row_found(methods.rows(), j);
    assert(other_methods@.contains_key(verb));
    let m = table::row_of(other_methods.rows(), verb);
    table::lemma_row_found(other_methods.rows(), m);
    assert(same_operation(methods@[verb], other_methods@[verb]));
    (k, m)
}

/// Whether every operation of an action extracts.
spec fn extracts(
    doc: OpenApiDoc,
    base_path: Seq<char>,
    exclude: Seq<Seq<char>>,
    paths: Seq<(Seq<char>, Table<RawOperation>)>,
) -> bool {
    forall|i: int, j: int|
        0 <= i < paths.len() && 0 <= j < paths[i].1.rows().len() && schema::action_name(
            paths[i].0,
            base_path,
            exclude,
        ) is Some ==> schema::extracted(
            doc,
            paths[i].0,
            (#[trigger] paths[i].1.rows()[j]).0,
            paths[i].1.rows()[j].1,
        ) is Ok
}

proof fn lemma_methods_extract(
    doc: OpenApiDoc,
    path: Seq<char>,
    name: Seq<char>,
    methods: Seq<(Seq<char>, RawOperation)>,
)
    ensures
        schema::actions_at(doc, path, name, methods) is Ok <==> forall|j: int|
            0 <= j < methods.len() ==> schema::extracted(
                doc,
                path,
                (#[trigger] methods[j]).0,
                methods[j].1,
            ) is Ok,
        schema::actions_at(doc, path, name, methods) is Ok ==> {
            let actions = schema::actions_at(doc, path, name, methods)->Ok_0;
            &&& actions.len() == methods.len()
            &&& forall|j: int|
                0 <= j < actions.len() ==> (#[trigger] actions[j]).operation.path == path
                    && actions[j].operation.http_verb == methods[j].0
        },
    decreases methods.len(),
{
    if methods.len() > 0 {
        let before = methods.drop_last();
        let last = methods.len() - 1;
        lemma_methods_extract(doc, path, name, before);
        assert(methods[last] == methods.last());
        assert forall|j: int| 0 <= j < before.len() implies before[j] == #[trigger] methods[j] by {}
        if schema::actions_at(doc, path, name, before) is Ok {
            assert forall|j: int| 0 <= j < before.len() implies schema::extracted(
                doc,
                path,
                (#[trigger] methods[j]).0,
                methods[j].1,
            ) is Ok by {
                assert(before[j] == methods[j]);
            }
        } else {
            let j = choose|j: int|
                0 <= j < before.len() && schema::extracted(
                    doc,
                    path,
                    (#[trigger] before[j]).0,
                    before[j].1,
                ) is Err;
            assert(methods[j] == before[j]);
        }
    }
}

proof fn lemma_paths_extract(
    doc: OpenApiDoc,
    base_path: Seq<char>,
    exclude: Seq<Seq<char>>,
    paths: Seq<(Seq<char>, Table<RawOperation>)>,
)
    ensures
        schema::actions_beneath(doc, base_path, exclude, paths) is Ok <==> extracts(
            doc,
            base_path,
            exclude,
            paths,
        ),
    decreases paths.len(),
{
    if paths.len() > 0 {
        let before = paths.drop_last();
        let last = paths.len() - 1;
        let (path, methods) = paths.last();
        lemma_paths_extract(doc, base_path, exclude, before);
        assert(paths[last] == paths.last());
        let name = schema::action_name(path, base_path, exclude);
        if name is Some {
            lemma_methods_extract(doc, path, name->0, methods.rows());
        }
        if extracts(doc, base_path, exclude, paths) {
            assert forall|i: int, j: int|
                0 <= i < before.len() && 0 <= j < before[i].1.rows().len() && schema::action_name(
                    before[i].0,
                    base_path,
                    exclude,
                ) is Some implies schema::extracted(
                doc,
                before[i].0,
                (#[trigger] before[i].1.rows()[j]).0,
                before[i].1.rows()[j].1,
            ) is Ok by {
                assert(paths[i].1.rows()[j] == before[i].1.rows()[j]);
            }
            if name is Some {
                assert forall|j: int| 0 <= j < methods.rows().len() implies schema::extracted(
                    doc,
                    path,
                    (#[trigger] methods.rows()[j]).0,
                    methods.rows()[j].1,
                ) is Ok by {
                    assert(paths[last].1.rows()[j] == methods.rows()[j]);
                }
            }
        }
        if schema::actions_beneath(doc, base_path, exclude, paths) is Ok {
            assert forall|i: int, j: int|
                0 <= i < paths.len() && 0 <= j < paths[i].1.rows().len() && schema::action_name(
                    paths[i].0,
                    base_path,
                    exclude,
                ) is Some implies schema::extracted(
                doc,
                paths[i].0,
                (#[trigger] paths[i].1.rows()[j]).0,
                paths[i].1.rows()[j].1,
            ) is Ok by {
                if i < last {
                    assert(before[i].1.rows()[j] == paths[i].1.rows()[j]);
                }
            }
        }
    }
}

/// Whether no two actions stand at the same path and HTTP verb.
pub open spec fn distinct_places(actions: Seq<Action>) -> bool {
    forall|i: int, j: int|
        0 <= i < actions.len() && 0 <= j < actions.len() && (#[trigger] actions[i]).operation.path
            == (#[trigger] actions[j]).operation.path && actions[i].operation.http_verb
            == actions[j].operation.http_verb ==> i == j
}

proof fn lemma_places(
    doc: OpenApiDoc,
    base_path: Seq<char>,
    exclude: Seq<Seq<char>>,
    paths: Seq<(Seq<char>, Table<RawOperation>)>,
)
    requires
        schema::actions_beneath(doc, base_path, exclude, paths) is Ok,
        table::distinct_names(paths),
        forall|i: int| 0 <= i < paths.len() ==> (#[trigger] paths[i]).1.well_formed(),
    ensures
        ({
            let found = schema::actions_beneath(doc, base_path, exclude, paths)->Ok_0;
            &&& distinct_places(found)
            &&& forall|k: int|
                0 <= k < found.len() ==> table::has_row(
                    paths,
                    (#[trigger] found[k]).operation.path,
                )
        }),
    decreases paths.len(),
{
    if paths.len() > 0 {
        let before = paths.drop_last();
        let (path, methods) = paths.last();
        let last = paths.len() - 1;
        assert(paths[last] == paths.last());
        assert forall|i: int| 0 <= i < before.len() implies (
        #[trigger] before[i]).1.well_formed() by {
            assert(before[i] == paths[i]);
        }
        assert forall|i: int, j: int|
            0 <= i < before.len() && 0 <= j < before.len() && (#[trigger] before[i]).0 == (
            #[trigger] before[j]).0 implies i == j by {
            assert(paths[i].0 == paths[j].0);
        }
        lemma_places(doc, base_path, exclude, before);
        let earlier = schema::actions_beneath(doc, base_path, exclude, before)->Ok_0;
        let found = schema::actions_beneath(doc, base_path, exclude, paths)->Ok_0;
        assert forall|k: int| 0 <= k < earlier.len() implies table::has_row(
            paths,
            (#[trigger] earlier[k]).operation.path,
        ) && earlier[k].operation.path != path by {
            let i = choose|i: int|
                0 <= i < before.len() && (#[trigger] before[i]).0 == earlier[k].operation.path;
            assert(paths[i].0 == earlier[k].operation.path);
            assert(paths[last].0 == path);
        }
        if schema::action_name(path, base_path, exclude) is Some {
            let name = schema::action_name(path, base_path, exclude)->0;
            let here = schema::actions_at(doc, path, name, methods.rows())->Ok_0;
            lemma_methods_extract(doc, path, name, methods.rows());
            assert(found =~= earlier + here);
            assert forall|k: int| 0 <= k < found.len() implies table::has_row(
                paths,
                (#[trigger] found[k]).operation.path,
            ) by {
                if k < earlier.len() {
                    assert(found[k] == earlier[k]);
                } else {
                    assert(found[k] == here[k - earlier.len()]);
                    assert(paths[last].0 == path);
                }
            }
            assert forall|i: int, j: int|
                0 <= i < found.len() && 0 <= j < found.len() && (
                #[trigger] found[i]).operation.path == (#[trigger] found[j]).operation.path
                    && found[i].operation.http_verb == found[j].operation.http_verb implies i
                == j by {
                let split = earlier.len() as int;
                if i < split {
                    assert(found[i] == earlier[i]);
                } else {
                    assert(found[i] == here[i - split]);
                }
                if j < split {
                    assert(found[j] == earlier[j]);
                } else {
                    assert(found[j] == here[j - split]);
                }
                if i >= split && j >= split {
                    assert(methods.well_formed());
                    assert(methods.rows()[i - split].0 == methods.rows()[j - split].0);
                }
            }
        }
    }
}

proof fn lemma_sorted_places(found: Seq<Action>, sorted: Seq<Action>)
    requires
        schema::sorted_by_action(found, sorted),
        distinct_places(found),
    ensures
        distinct_places(sorted),
{
    assert(found.no_duplicates());
    found.lemma_multiset_has_no_duplicates();
    sorted.lemma_multiset_has_no_duplicates_conv();
    assert forall|i: int, j: int|
        0 <= i < sorted.len() && 0 <= j < sorted.len() && (#[trigger] sorted[i]).operation.path
            == (#[trigger] sorted[j]).operation.path && sorted[i].operation.http_verb
            == sorted[j].operation.http_verb implies i == j by {
        sorting_keeps_the_actions(found, sorted, sorted[i]);
        sorting_keeps_the_actions(found, sorted, sorted[j]);
        assert(sorted.contains(sorted[i]) && sorted.contains(sorted[j]));
        let k = choose|k: int| 0 <= k < found.len() && found[k] == sorted[i];
        let m = choose|m: int| 0 <= m < found.len() && found[m] == sorted[j];
        assert(found[k].operation.path == found[m].operation.path);
    }
}

/// There is one way to put actions of different places in order.
proof fn lemma_one_order(a: Seq<Action>, b: Seq<Action>)
    requires
        schema::ordered_actions(a),
        schema::ordered_actions(b),
        distinct_places(a),
        distinct_places(b),
        forall|action: Action| #[trigger] a.contains(action) <==> b.contains(action),
    ensures
        a == b,
    decreases a.len(),
{
    if a.len() == 0 {
        if b.len() > 0 {
            assert(b.contains(b[0]));
            assert(a.contains(b[0]));
        }
        assert(a =~= b);
    } else {
        let end = a.len() - 1;
        assert(a.contains(a[end]));
        let k = choose|k: int| 0 <= k < b.len() && b[k] == a[end];
        let stop = b.len() - 1;
        assert(b.len() > 0);
        assert(b.contains(b[stop]));
        assert(a.contains(b[stop]));
        let m = choose|m: int| 0 <= m < a.len() && a[m] == b[stop];
        assert(schema::action_le(b[k], b[stop]));
        assert(schema::action_le(a[m], a[end]));
        lemma_same_key(a[end], b[stop]);
        assert(b[k].operation.path == b[stop].operation.path);
        assert(k == stop);
        let fewer_a = a.drop_last();
        let fewer_b = b.drop_last();
        assert forall|action: Action| #[trigger] fewer_a.contains(action) <==> fewer_b.contains(
            action,
        ) by {
            lemma_without_last(a, action);
            lemma_without_last(b, action);
        }
        assert forall|i: int, j: int| 0 <= i <= j < fewer_a.len() implies schema::action_le(
            #[trigger] fewer_a[i],
            #[trigger] fewer_a[j],
        ) by {
            assert(schema::action_le(a[i], a[j]));
        }
        assert forall|i: int, j: int| 0 <= i <= j < fewer_b.len() implies schema::action_le(
            #[trigger] fewer_b[i],
            #[trigger] fewer_b[j],
        ) by {
            assert(schema::action_le(b[i], b[j]));
        }
        lemma_fewer_places(a);
        lemma_fewer_places(b);
        lemma_one_order(fewer_a, fewer_b);
        assert(a =~= fewer_a.push(a[end]));
        assert(b =~= fewer_b.push(b[stop]));
    }
}

/// Actions that each stand no later than the other stand at the same place.
proof fn lemma_same_key(a: Action, b: Action)
    requires
        schema::action_le(a, b),
        schema::action_le(b, a),
    ensures
        a.name == b.name,
        a.operation.path == b.operation.path,
        a.operation.http_verb == b.operation.http_verb,
{
    if a.name != b.name {
        order::text_le_antisymmetric(a.name, b.name);
    } else if a.operation.path != b.operation.path {
        order::text_le_antisymmetric(a.operation.path, b.operation.path);
    } else {
        order::text_le_antisymmetric(a.operation.http_verb, b.operation.http_verb);
    }
}

proof fn lemma_fewer_places(actions: Seq<Action>)
    requires
        actions.len() > 0,
        distinct_places(actions),
    ensures
        distinct_places(actions.drop_last()),
{
    let fewer = actions.drop_last();
    assert forall|i: int, j: int|
        0 <= i < fewer.len() && 0 <= j < fewer.len() && (#[trigger] fewer[i]).operation.path == (
        #[trigger] fewer[j]).operation.path && fewer[i].operation.http_verb
            == fewer[j].operation.http_verb implies i == j by {
        assert(actions[i].operation.path == actions[j].operation.path);
    }
}

proof fn lemma_without_last(actions: Seq<Action>, action: Action)
    requires
        actions.len() > 0,
        distinct_places(actions),
    ensures
        actions.drop_last().contains(action) <==> actions.contains(action) && action
            != actions.last(),
{
    let fewer = actions.drop_last();
    let last = actions.len() - 1;
    if fewer.contains(action) {
        let i = choose|i: int| 0 <= i < fewer.len() && fewer[i] == action;
        assert(actions[i] == action);
        if action == actions.last() {
            assert(actions[i].operation.path == actions[last].operation.path);
        }
    }
    if actions.contains(action) && action != actions.last() {
        let i = choose|i: int| 0 <= i < actions.len() && actions[i] == action;
        assert(fewer[i] == action);
    }
}

/// An action that stands in one schema stands in the other.
proof fn lemma_same_found(
    one: OpenApiDoc,
    other: OpenApiDoc,
    base_path: Seq<char>,
    exclude: Seq<Seq<char>>,
    action: Action,
)
    requires
        same_paths(one, other),
        valid_paths(one),
        valid_paths(other),
        schema::actions_beneath(one, base_path, exclude, one.paths.rows()) is Ok,
        schema::actions_beneath(other, base_path, exclude, other.paths.rows()) is Ok,
        schema::actions_beneath(one, base_path, exclude, one.paths.rows())->Ok_0.contains(action),
    ensures
        schema::actions_beneath(other, base_path, exclude, other.paths.rows())->Ok_0.contains(
            action,
        ),
{
    let rows = one.paths.rows();
    let other_rows = other.paths.rows();
    lemma_actions_beneath(one, base_path, exclude, rows, action);
    lemma_actions_beneath(other, base_path, exclude, other_rows, action);
    let i = choose|i: int|
        0 <= i < rows.len() && stands_at(one, base_path, exclude, action, #[trigger] rows[i]);
    let (path, methods) = rows[i];
    let j = choose|j: int|
        0 <= j < methods.rows().len() && schema::extracted(
            one,
            path,
            (#[trigger] methods.rows()[j]).0,
            methods.rows()[j].1,
        ) == Ok::<Operation, SchemaError<Seq<char>>>(action.operation);
    let (k, m) = lemma_same_place(one, other, i, j);
    let there = other_rows[k].1.rows()[m];
    lemma_same_extraction(one, other, path, there.0, methods.rows()[j].1, there.1);
    assert(stands_at(other, base_path, exclude, action, other_rows[k]));
}

proof fn lemma_same_success(
    one: OpenApiDoc,
    other: OpenApiDoc,
    base_path: Seq<char>,
    exclude: Seq<Seq<char>>,
)
    requires
        same_paths(one, other),
        valid_paths(one),
        valid_paths(other),
        schema::actions_beneath(other, base_path, exclude, other.paths.rows()) is Ok,
    ensures
        schema::actions_beneath(one, base_path, exclude, one.paths.rows()) is Ok,
{
    let paths = one.paths.rows();
    let other_paths = other.paths.rows();
    lemma_paths_extract(one, base_path, exclude, paths);
    lemma_paths_extract(other, base_path, exclude, other_paths);
    assert forall|i: int, j: int|
        0 <= i < paths.len() && 0 <= j < paths[i].1.rows().len() && schema::action_name(
            paths[i].0,
            base_path,
            exclude,
        ) is Some implies schema::extracted(
        one,
        paths[i].0,
        (#[trigger] paths[i].1.rows()[j]).0,
        paths[i].1.rows()[j].1,
    ) is Ok by {
        let (k, m) = lemma_same_place(one, other, i, j);
        let here = paths[i].1.rows()[j];
        let there = other_paths[k].1.rows()[m];
        assert(schema::extracted(other, other_paths[k].0, there.0, there.1) is Ok);
        lemma_same_extraction(one, other, paths[i].0, here.0, here.1, there.1);
    }
}

proof fn lemma_same_paths_back(a: OpenApiDoc, b: OpenApiDoc)
    requires
        same_paths(a, b),
    ensures
        same_paths(b, a),
{
    let params_a = a.components.parameters@;
    let params_b = b.components.parameters@;
    assert forall|name: Seq<char>| params_b.contains_key(name) implies same_parameter(
        #[trigger] params_b[name],
        params_a[name],
    ) by {
        assert(params_a.contains_key(name));
        lemma_same_parameter_back(params_a[name], params_b[name]);
    }
    assert forall|path: Seq<char>| b.paths@.contains_key(path) implies same_methods(
        #[trigger] b.paths@[path],
        a.paths@[path],
    ) by {
        assert(a.paths@.contains_key(path));
        let methods_a = a.paths@[path]@;
        let methods_b = b.paths@[path]@;
        assert(same_methods(a.paths@[path], b.paths@[path]));
        assert forall|verb: Seq<char>| methods_b.contains_key(verb) implies same_operation(
            #[trigger] methods_b[verb],
            methods_a[verb],
        ) by {
            assert(methods_a.contains_key(verb));
            lemma_same_operation_back(methods_a[verb], methods_b[verb]);
        }
    }
}

proof fn lemma_same_schema_back(a: RawSchema, b: RawSchema)
    requires
        same_schema(a, b),
    ensures
        same_schema(b, a),
{
    assert forall|levels: nat| #[trigger] determinism_laws::alike(b, a, levels) by {
        assert(determinism_laws::alike(a, b, levels));
        determinism_laws::alike_both_ways(a, b, levels);
    }
}

proof fn lemma_same_parameter_back(a: RawParameter, b: RawParameter)
    requires
        same_parameter(a, b),
    ensures
        same_parameter(b, a),
{
    lemma_same_schema_back(a.schema, b.schema);
}

proof fn lemma_same_operation_back(a: RawOperation, b: RawOperation)
    requires
        same_operation(a, b),
    ensures
        same_operation(b, a),
{
    assert forall|i: int| 0 <= i < b.parameters@.len() implies same_entry(
        #[trigger] b.parameters@[i],
        a.parameters@[i],
    ) by {
        assert(same_entry(a.parameters@[i], b.parameters@[i]));
        if a.parameters@[i] is Inline {
            lemma_same_parameter_back(a.parameters@[i]->Inline_0, b.parameters@[i]->Inline_0);
        }
    }
    if a.request_body is Some {
        let content_a = a.request_body->0.content@;
        let content_b = b.request_body->0.content@;
        assert forall|name: Seq<char>| content_b.contains_key(name) implies same_schema(
            (#[trigger] content_b[name]).schema,
            content_a[name].schema,
        ) by {
            assert(content_a.contains_key(name));
            assert(same_schema(content_a[name].schema, content_b[name].schema));
            lemma_same_schema_back(content_a[name].schema, content_b[name].schema);
        }
    }
}

/// Discovery does not depend on the order in which names are walked: two API schemas that
/// say the same, in whatever order, have the same actions in the same order.
pub proof fn discovery_is_deterministic(
    one: OpenApiDoc,
    other: OpenApiDoc,
    base_path: Seq<char>,
    exclude: Seq<Seq<char>>,
    sorted_one: Seq<Action>,
    sorted_other: Seq<Action>,
)
    requires
        same_paths(one, other),
        valid_paths(one),
        valid_paths(other),
    ensures
        ({
            let found_one = schema::actions_beneath(one, base_path, exclude, one.paths.rows());
            let found_other = schema::actions_beneath(
                other,
                base_path,
                exclude,
                other.paths.rows(),
            );
            &&& found_one is Ok <==> found_other is Ok
            &&& found_one is Ok && schema::sorted_by_action(found_one->Ok_0, sorted_one)
                && schema::sorted_by_action(found_other->Ok_0, sorted_other) ==> sorted_one
                == sorted_other
        }),
{
    lemma_same_paths_back(one, other);
    let found_one = schema::actions_beneath(one, base_path, exclude, one.paths.rows());
    let found_other = schema::actions_beneath(other, base_path, exclude, other.paths.rows());
    if found_one is Ok {
        lemma_same_success(other, one, base_path, exclude);
    }
    if found_other is Ok {
        lemma_same_success(one, other, base_path, exclude);
    }
    if found_one is Ok && schema::sorted_by_action(found_one->Ok_0, sorted_one)
        && schema::sorted_by_action(found_other->Ok_0, sorted_other) {
        assert forall|action: Action| #[trigger]
            sorted_one.contains(action) <==> sorted_other.contains(action) by {
            sorting_keeps_the_actions(found_one->Ok_0, sorted_one, action);
            sorting_keeps_the_actions(found_other->Ok_0, sorted_other, action);
            if found_one->Ok_0.contains(action) {
                lemma_same_found(one, other, base_path, exclude, action);
            }
            if found_other->Ok_0.contains(action) {
                lemma_same_found(other, one, base_path, exclude, action);
            }
        }
        lemma_places(one, base_path, exclude, one.paths.rows());
        lemma_places(other, base_path, exclude, other.paths.rows());
        lemma_sorted_places(found_one->Ok_0, sorted_one);
        lemma_sorted_places(found_other->Ok_0, sorted_other);
        lemma_one_order(sorted_one, sorted_other);
    }
}

} // verus!
