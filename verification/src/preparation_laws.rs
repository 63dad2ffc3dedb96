//! What is prepared from a manifest and an API schema before anything is generated, and why
//! preparing it fails where it does.
use crate::error::SchemaError;
use crate::json;
use crate::json::Json;
use crate::manifest::{Group, Manifest, Resource};
use crate::order;
use crate::pipeline;
use crate::pipeline::{PipelineError, Prepared};
use crate::schema;
use crate::schema::{ExtractedOperation, OpenApiDoc, Operation};
use crate::schema_laws;
use crate::skeleton;
use crate::table;
use crate::table::Table;
use crate::text;
use vstd::prelude::*;

verus! {

/// Whether a command of a resource names an operation.
pub open spec fn names_operation(resource: Resource, id: Seq<char>) -> bool {
    exists|i: int|
        0 <= i < resource.commands.rows().len() && (#[trigger] resource.commands.rows()[i]).1@
            == id
}

/// Whether a command of some resource names an operation.
pub open spec fn is_named(groups: Seq<Group>, id: Seq<char>) -> bool {
    exists|g: int, r: int|
        0 <= g < groups.len() && 0 <= r < groups[g].resource@.len() && names_operation(
            #[trigger] groups[g].resource@[r],
            id,
        )
}

proof fn lemma_resource_names(resource: Resource, id: Seq<char>)
    ensures
        pipeline::resource_operations(resource).contains(id) == names_operation(resource, id),
{
    let ids = pipeline::resource_operations(resource);
    let rows = resource.commands.rows();
    if ids.contains(id) {
        let i = choose|i: int| 0 <= i < ids.len() && ids[i] == id;
        assert(rows[i].1@ == id);
    }
    if names_operation(resource, id) {
        let i = choose|i: int| 0 <= i < rows.len() && (#[trigger] rows[i]).1@ == id;
        assert(ids[i] == id);
    }
}

proof fn lemma_joined_contains(first: Seq<Seq<char>>, then: Seq<Seq<char>>, id: Seq<char>)
    ensures
        (first + then).contains(id) <==> first.contains(id) || then.contains(id),
{
    let all = first + then;
    if all.contains(id) {
        let i = choose|i: int| 0 <= i < all.len() && all[i] == id;
        if i < first.len() {
            assert(first[i] == id);
        } else {
            assert(then[i - first.len()] == id);
        }
    }
    if first.contains(id) {
        let i = choose|i: int| 0 <= i < first.len() && first[i] == id;
        assert(all[i] == id);
    }
    if then.contains(id) {
        let i = choose|i: int| 0 <= i < then.len() && then[i] == id;
        assert(all[first.len() + i] == id);
    }
}

proof fn lemma_resources_name(resources: Seq<Resource>, id: Seq<char>)
    ensures
        pipeline::operations_in(resources).contains(id) <==> exists|r: int|
            0 <= r < resources.len() && names_operation(#[trigger] resources[r], id),
    decreases resources.len(),
{
    if resources.len() > 0 {
        let before = resources.drop_last();
        let last = resources.len() - 1;
        lemma_resources_name(before, id);
        lemma_resource_names(resources.last(), id);
        lemma_joined_contains(
            pipeline::operations_in(before),
            pipeline::resource_operations(resources.last()),
            id,
        );
        if exists|r: int| 0 <= r < before.len() && names_operation(#[trigger] before[r], id) {
            let r = choose|r: int| 0 <= r < before.len() && names_operation(
                #[trigger] before[r],
                id,
            );
            assert(names_operation(resources[r], id));
        }
        if names_operation(resources.last(), id) {
            assert(names_operation(resources[last], id));
        }
        if exists|r: int| 0 <= r < resources.len() && names_operation(#[trigger] resources[r], id) {
            let r = choose|r: int|
                0 <= r < resources.len() && names_operation(#[trigger] resources[r], id);
            if r < last {
                assert(names_operation(before[r], id));
            }
        }
    }
}

proof fn lemma_groups_name(groups: Seq<Group>, id: Seq<char>)
    ensures
        pipeline::all_operations(groups).contains(id) <==> is_named(groups, id),
    decreases groups.len(),
{
    if groups.len() > 0 {
        let before = groups.drop_last();
        let last = groups.len() - 1;
        let resources = groups.last().resource@;
        lemma_groups_name(before, id);
        lemma_resources_name(resources, id);
        lemma_joined_contains(
            pipeline::all_operations(before),
            pipeline::operations_in(resources),
            id,
        );
        if is_named(before, id) {
            let (g, r) = choose|g: int, r: int|
                0 <= g < before.len() && 0 <= r < before[g].resource@.len() && names_operation(
                    #[trigger] before[g].resource@[r],
                    id,
                );
            assert(names_operation(groups[g].resource@[r], id));
        }
        if exists|r: int| 0 <= r < resources.len() && names_operation(#[trigger] resources[r], id) {
            let r = choose|r: int|
                0 <= r < resources.len() && names_operation(#[trigger] resources[r], id);
            assert(names_operation(groups[last].resource@[r], id));
        }
        if is_named(groups, id) {
            let (g, r) = choose|g: int, r: int|
                0 <= g < groups.len() && 0 <= r < groups[g].resource@.len() && names_operation(
                    #[trigger] groups[g].resource@[r],
                    id,
                );
            if g < last {
                assert(names_operation(before[g].resource@[r], id));
            } else {
                assert(names_operation(resources[r], id));
            }
        }
    }
}

proof fn lemma_wanted(groups: Seq<Group>, id: Seq<char>)
    ensures
        order::ascending(pipeline::all_operations(groups)).contains(id) <==> is_named(groups, id),
{
    let names = pipeline::all_operations(groups);
    order::ascending_exists(names);
    lemma_groups_name(groups, id);
    assert(order::is_ascending_of(names, order::ascending(names)));
}

/// The prepared operations are exactly those that the manifest names, each as the API
/// schema has it.
pub proof fn the_named_operations_are_prepared(
    manifest: Manifest,
    doc: OpenApiDoc,
    prepared: Prepared,
    id: Seq<char>,
)
    requires
        pipeline::is_prepared(manifest, doc, prepared),
    ensures
        prepared.operations@.contains_key(id) <==> is_named(manifest.group@, id),
        prepared.operations@.contains_key(id) ==> schema::operation_by_id(doc, id) == Ok::<
            Operation,
            SchemaError<Seq<char>>,
        >(prepared.operations@[id]@),
{
    lemma_wanted(manifest.group@, id);
}

proof fn lemma_row(operations: Seq<(Seq<char>, ExtractedOperation)>, i: int)
    requires
        table::distinct_names(operations),
        0 <= i < operations.len(),
    ensures
        table::map_of(operations).contains_key(operations[i].0),
        table::map_of(operations)[operations[i].0] == operations[i].1,
{
    let name = operations[i].0;
    assert(table::has_row(operations, name));
    let k = table::row_of(operations, name);
    assert(operations[k].0 == name);
}

/// The valid field names are prepared for exactly the enumerations that the prepared
/// operations take them from, each as the API schema lists it.
pub proof fn the_used_field_names_are_prepared(
    manifest: Manifest,
    doc: OpenApiDoc,
    prepared: Prepared,
    name: Seq<char>,
)
    requires
        pipeline::is_prepared(manifest, doc, prepared),
    ensures
        prepared.field_enum_values@.contains_key(name) <==> exists|id: Seq<char>|
            prepared.operations@.contains_key(id) && (
            #[trigger] prepared.operations@[id])@.field_enum_name == Some(name),
        prepared.field_enum_values@.contains_key(name) ==> schema::enum_values_of(doc, name)
            == Ok::<Seq<Seq<char>>, SchemaError<Seq<char>>>(
            text::texts(prepared.field_enum_values@[name]@),
        ),
{
    let rows = prepared.operations.rows();
    if pipeline::uses_fields(rows, name) {
        let i = choose|i: int|
            0 <= i < rows.len() && (#[trigger] rows[i]).1@.field_enum_name == Some(name);
        lemma_row(rows, i);
        assert(prepared.operations@[rows[i].0]@.field_enum_name == Some(name));
    }
    if exists|id: Seq<char>|
        prepared.operations@.contains_key(id) && (
        #[trigger] prepared.operations@[id])@.field_enum_name == Some(name) {
        let id = choose|id: Seq<char>|
            prepared.operations@.contains_key(id) && (
            #[trigger] prepared.operations@[id])@.field_enum_name == Some(name);
        let i = table::row_of(rows, id);
        assert(table::has_row(rows, id));
        assert(rows[i].1@.field_enum_name == Some(name));
    }
}

/// Templates are prepared for exactly the request bodies that the prepared operations have,
/// and each of them reads back as the template of its schema.
pub proof fn the_used_templates_are_prepared(
    manifest: Manifest,
    doc: OpenApiDoc,
    prepared: Prepared,
    name: Seq<char>,
)
    requires
        pipeline::is_prepared(manifest, doc, prepared),
    ensures
        prepared.request_skeletons@.contains_key(name) <==> exists|id: Seq<char>|
            prepared.operations@.contains_key(id) && (
            #[trigger] prepared.operations@[id])@.request_body_type == Some(name),
        prepared.request_skeletons@.contains_key(name) ==> doc.components.schemas@.contains_key(
            name,
        ) && ({
            let template = skeleton::skeleton(
                doc,
                doc.components.schemas@[name],
                Set::empty().insert(name),
                0,
            );
            let printed = prepared.request_skeletons@[name]@;
            printed == json::pretty_text(template) && json::parsed_json(printed) == Some(template)
        }),
{
    let rows = prepared.operations.rows();
    if pipeline::uses_body(rows, name) {
        let i = choose|i: int|
            0 <= i < rows.len() && (#[trigger] rows[i]).1@.request_body_type == Some(name);
        lemma_row(rows, i);
        assert(prepared.operations@[rows[i].0]@.request_body_type == Some(name));
    }
    if exists|id: Seq<char>|
        prepared.operations@.contains_key(id) && (
        #[trigger] prepared.operations@[id])@.request_body_type == Some(name) {
        let id = choose|id: Seq<char>|
            prepared.operations@.contains_key(id) && (
            #[trigger] prepared.operations@[id])@.request_body_type == Some(name);
        let i = table::row_of(rows, id);
        assert(table::has_row(rows, id));
        assert(rows[i].1@.request_body_type == Some(name));
    }
}

/// The order template of a resource.
pub open spec fn ordered_template(doc: OpenApiDoc, resource: Resource) -> Result<
    Json,
    SchemaError<Seq<char>>,
> {
    skeleton::order_skeleton(doc, text::opt_text(resource.order->0.offering_type))
}

/// Whether `k` is the last resource of that name that has an order.
pub open spec fn last_ordered(resources: Seq<Resource>, name: Seq<char>, k: int) -> bool {
    &&& 0 <= k < resources.len()
    &&& resources[k].order is Some
    &&& resources[k].name@ == name
    &&& forall|j: int|
        k < j < resources.len() ==> !((#[trigger] resources[j]).order is Some && resources[j].name@
            == name)
}

/// Whether no resource of that name has an order.
pub open spec fn never_ordered(resources: Seq<Resource>, name: Seq<char>) -> bool {
    forall|j: int|
        0 <= j < resources.len() ==> !((#[trigger] resources[j]).order is Some && resources[j].name@
            == name)
}

proof fn lemma_order_fold(
    doc: OpenApiDoc,
    before: Map<Seq<char>, Json>,
    resources: Seq<Resource>,
    name: Seq<char>,
)
    requires
        pipeline::order_templates(doc, before, resources) is Ok,
    ensures
        ({
            let after = pipeline::order_templates(doc, before, resources)->Ok_0;
            &&& never_ordered(resources, name) ==> after.contains_key(name) == before.contains_key(
                name,
            ) && (before.contains_key(name) ==> after[name] == before[name])
            &&& forall|k: int| #[trigger]
                last_ordered(resources, name, k) ==> after.contains_key(name) && ordered_template(
                    doc,
                    resources[k],
                ) == Ok::<Json, SchemaError<Seq<char>>>(after[name])
        }),
    decreases resources.len(),
{
    if resources.len() > 0 {
        let fewer = resources.drop_last();
        let last = resources.len() - 1;
        lemma_order_fold(doc, before, fewer, name);
        let after = pipeline::order_templates(doc, before, resources)->Ok_0;
        if never_ordered(resources, name) {
            assert(never_ordered(fewer, name)) by {
                assert forall|j: int| 0 <= j < fewer.len() implies !((#[trigger] fewer[j]).order
                    is Some && fewer[j].name@ == name) by {
                    assert(fewer[j] == resources[j]);
                }
            }
            assert(!(resources[last].order is Some && resources[last].name@ == name));
        }
        assert forall|k: int| #[trigger]
            last_ordered(resources, name, k) implies after.contains_key(name) && ordered_template(
            doc,
            resources[k],
        ) == Ok::<Json, SchemaError<Seq<char>>>(after[name]) by {
            if k < last {
                assert(last_ordered(fewer, name, k)) by {
                    assert(fewer[k] == resources[k]);
                    assert forall|j: int| k < j < fewer.len() implies !((
                    #[trigger] fewer[j]).order is Some && fewer[j].name@ == name) by {
                        assert(fewer[j] == resources[j]);
                    }
                }
                assert(!(resources[last].order is Some && resources[last].name@ == name));
            }
        }
    }
}

/// The resources of groups, in manifest order.
pub open spec fn all_resources(groups: Seq<Group>) -> Seq<Resource>
    decreases groups.len(),
{
    if groups.len() == 0 {
        Seq::empty()
    } else {
        all_resources(groups.drop_last()) + groups.last().resource@
    }
}

proof fn lemma_fold_joins(
    doc: OpenApiDoc,
    before: Map<Seq<char>, Json>,
    first: Seq<Resource>,
    then: Seq<Resource>,
)
    ensures
        pipeline::order_templates(doc, before, first + then) == match pipeline::order_templates(
            doc,
            before,
            first,
        ) {
            Ok(middle) => pipeline::order_templates(doc, middle, then),
            Err(error) => Err(error),
        },
    decreases then.len(),
{
    if then.len() == 0 {
        assert(first + then =~= first);
    } else {
        lemma_fold_joins(doc, before, first, then.drop_last());
        assert((first + then).drop_last() =~= first + then.drop_last());
        assert((first + then).last() == then.last());
    }
}

proof fn lemma_all_orders(doc: OpenApiDoc, groups: Seq<Group>)
    ensures
        pipeline::all_order_templates(doc, groups) == pipeline::order_templates(
            doc,
            Map::empty(),
            all_resources(groups),
        ),
    decreases groups.len(),
{
    if groups.len() > 0 {
        let before = groups.drop_last();
        lemma_all_orders(doc, before);
        lemma_fold_joins(doc, Map::empty(), all_resources(before), groups.last().resource@);
    }
}

/// Order templates are prepared for exactly the resources that have a marketplace order:
/// where a name repeats, for the last of them. Each reads back as the template of an order
/// for the offering type of the resource.
pub proof fn the_order_templates_are_prepared(
    manifest: Manifest,
    doc: OpenApiDoc,
    prepared: Prepared,
    name: Seq<char>,
)
    requires
        pipeline::is_prepared(manifest, doc, prepared),
    ensures
        ({
            let resources = all_resources(manifest.group@);
            &&& never_ordered(resources, name) ==> !prepared.order_skeletons@.contains_key(name)
            &&& forall|k: int| #[trigger]
                last_ordered(resources, name, k) ==> {
                    &&& ordered_template(doc, resources[k]) is Ok
                    &&& prepared.order_skeletons@.contains_key(name)
                    &&& json::parsed_json(prepared.order_skeletons@[name]@) == Some(
                        ordered_template(doc, resources[k])->Ok_0,
                    )
                    &&& prepared.order_skeletons@[name]@ == json::pretty_text(
                        ordered_template(doc, resources[k])->Ok_0,
                    )
                }
        }),
{
    let resources = all_resources(manifest.group@);
    lemma_all_orders(doc, manifest.group@);
    lemma_order_fold(doc, Map::empty(), resources, name);
    let templates = pipeline::all_order_templates(doc, manifest.group@)->Ok_0;
    assert(prepared.order_skeletons@.dom().contains(name) == templates.dom().contains(name));
}

/// Whether preparing has a reason to fail with an error: what the error names is asked for,
/// and it is what the API schema cannot give.
pub open spec fn has_reason(
    manifest: Manifest,
    doc: OpenApiDoc,
    error: PipelineError<Seq<char>>,
) -> bool {
    let groups = manifest.group@;
    match error {
        PipelineError::ExtractingOperation { operation_id, cause } => is_named(
            groups,
            operation_id,
        ) && schema::operation_by_id(doc, operation_id) == Err::<
            Operation,
            SchemaError<Seq<char>>,
        >(cause),
        PipelineError::ResolvingFields { operation_id, cause } => is_named(groups, operation_id)
            && ({
            let op = schema::operation_by_id(doc, operation_id);
            op is Ok && op->Ok_0.field_enum_name is Some && schema::enum_values_of(
                doc,
                op->Ok_0.field_enum_name->0,
            ) == Err::<Seq<Seq<char>>, SchemaError<Seq<char>>>(cause)
        }),
        PipelineError::BuildingSkeleton { operation_id, cause } => is_named(groups, operation_id)
            && ({
            let op = schema::operation_by_id(doc, operation_id);
            op is Ok && op->Ok_0.request_body_type is Some && skeleton::request_skeleton(
                doc,
                op->Ok_0.request_body_type->0,
            ) == Err::<Json, SchemaError<Seq<char>>>(cause)
        }),
        PipelineError::BuildingOrderSkeleton { resource, cause } => exists|k: int|
            0 <= k < all_resources(groups).len() && (#[trigger] all_resources(groups)[k]).order
                is Some && all_resources(groups)[k].name@ == resource && ordered_template(
                doc,
                all_resources(groups)[k],
            ) == Err::<Json, SchemaError<Seq<char>>>(cause),
    }
}

proof fn lemma_extraction_reason(doc: OpenApiDoc, ids: Seq<Seq<char>>)
    requires
        pipeline::first_extraction_failure(doc, ids) is Some,
    ensures
        pipeline::first_extraction_failure(doc, ids)->0 matches PipelineError::ExtractingOperation {
            operation_id,
            cause,
        } && ids.contains(operation_id) && schema::operation_by_id(doc, operation_id) == Err::<
            Operation,
            SchemaError<Seq<char>>,
        >(cause),
    decreases ids.len(),
{
    let before = ids.drop_last();
    if pipeline::first_extraction_failure(doc, before) is Some {
        lemma_extraction_reason(doc, before);
        if let PipelineError::ExtractingOperation { operation_id, cause } =
            pipeline::first_extraction_failure(doc, before)->0 {
            let i = choose|i: int| 0 <= i < before.len() && before[i] == operation_id;
            assert(ids[i] == operation_id);
        }
    } else {
        assert(ids[ids.len() - 1] == ids.last());
    }
}

proof fn lemma_field_reason(doc: OpenApiDoc, rows: Seq<(Seq<char>, ExtractedOperation)>) -> (i: int)
    requires
        pipeline::first_field_failure(doc, rows) is Some,
    ensures
        0 <= i < rows.len(),
        pipeline::first_field_failure(doc, rows)->0 matches PipelineError::ResolvingFields {
            operation_id,
            cause,
        } && operation_id == rows[i].1@.operation_id && rows[i].1@.field_enum_name is Some
            && schema::enum_values_of(doc, rows[i].1@.field_enum_name->0) == Err::<
            Seq<Seq<char>>,
            SchemaError<Seq<char>>,
        >(cause),
    decreases rows.len(),
{
    let before = rows.drop_last();
    if pipeline::first_field_failure(doc, before) is Some {
        let i = lemma_field_reason(doc, before);
        assert(before[i] == rows[i]);
        i
    } else {
        rows.len() - 1
    }
}

proof fn lemma_template_reason(doc: OpenApiDoc, rows: Seq<(Seq<char>, ExtractedOperation)>) -> (i:
    int)
    requires
        pipeline::first_skeleton_failure(doc, rows) is Some,
    ensures
        0 <= i < rows.len(),
        pipeline::first_skeleton_failure(doc, rows)->0 matches PipelineError::BuildingSkeleton {
            operation_id,
            cause,
        } && operation_id == rows[i].1@.operation_id && rows[i].1@.request_body_type is Some
            && skeleton::request_skeleton(doc, rows[i].1@.request_body_type->0) == Err::<
            Json,
            SchemaError<Seq<char>>,
        >(cause),
    decreases rows.len(),
{
    let before = rows.drop_last();
    if pipeline::first_skeleton_failure(doc, before) is Some {
        let i = lemma_template_reason(doc, before);
        assert(before[i] == rows[i]);
        i
    } else {
        rows.len() - 1
    }
}

proof fn lemma_order_reason(
    doc: OpenApiDoc,
    before: Map<Seq<char>, Json>,
    resources: Seq<Resource>,
) -> (k: int)
    requires
        pipeline::order_templates(doc, before, resources) is Err,
    ensures
        0 <= k < resources.len(),
        resources[k].order is Some,
        pipeline::order_templates(
            doc,
            before,
            resources,
        )->Err_0 matches PipelineError::BuildingOrderSkeleton { resource, cause } && resource
            == resources[k].name@ && ordered_template(doc, resources[k]) == Err::<
            Json,
            SchemaError<Seq<char>>,
        >(cause),
    decreases resources.len(),
{
    let fewer = resources.drop_last();
    if pipeline::order_templates(doc, before, fewer) is Err {
        let k = lemma_order_reason(doc, before, fewer);
        assert(fewer[k] == resources[k]);
        k
    } else {
        resources.len() - 1
    }
}

proof fn lemma_row_is_named(
    manifest: Manifest,
    doc: OpenApiDoc,
    operations: Table<ExtractedOperation>,
    i: int,
)
    requires
        pipeline::holds_operations(
            doc,
            order::ascending(pipeline::all_operations(manifest.group@)),
            operations@,
        ),
        operations.well_formed(),
        0 <= i < operations.rows().len(),
    ensures
        ({
            let op = operations.rows()[i].1@;
            is_named(manifest.group@, op.operation_id) && schema::operation_by_id(
                doc,
                op.operation_id,
            ) == Ok::<Operation, SchemaError<Seq<char>>>(op)
        }),
{
    let rows = operations.rows();
    let id = rows[i].0;
    lemma_row(rows, i);
    assert(operations@.contains_key(id));
    assert(operations@[id] == rows[i].1);
    lemma_wanted(manifest.group@, id);
    schema_laws::a_found_operation_has_the_id(doc, id);
}

/// Preparing only fails for a reason: an operation that the manifest names is not in the API
/// schema or cannot be read, the valid field names or the request body of such an operation
/// cannot be resolved, or the order template of a resource cannot be built. The error names
/// which, and says what the API schema lacks.
pub proof fn preparing_fails_for_a_reason(
    manifest: Manifest,
    doc: OpenApiDoc,
    error: PipelineError<Seq<char>>,
)
    requires
        pipeline::is_failure(manifest, doc, error),
    ensures
        has_reason(manifest, doc, error),
{
    let groups = manifest.group@;
    let ids = order::ascending(pipeline::all_operations(groups));
    if pipeline::first_extraction_failure(doc, ids) is Some {
        lemma_extraction_reason(doc, ids);
        if let PipelineError::ExtractingOperation { operation_id, cause } = error {
            lemma_wanted(groups, operation_id);
        }
    } else {
        let operations = choose|operations: Table<ExtractedOperation>|
            {
                let rows = operations.rows();
                &&& #[trigger] pipeline::holds_operations(doc, ids, operations@)
                &&& operations.well_formed()
                &&& if pipeline::first_field_failure(doc, rows) is Some {
                    pipeline::first_field_failure(doc, rows) == Some(error)
                } else if pipeline::first_skeleton_failure(doc, rows) is Some {
                    pipeline::first_skeleton_failure(doc, rows) == Some(error)
                } else {
                    pipeline::all_order_templates(doc, manifest.group@) == Err::<
                        Map<Seq<char>, Json>,
                        PipelineError<Seq<char>>,
                    >(error)
                }
            };
        let rows = operations.rows();
        if pipeline::first_field_failure(doc, rows) is Some {
            let i = lemma_field_reason(doc, rows);
            lemma_row_is_named(manifest, doc, operations, i);
        } else if pipeline::first_skeleton_failure(doc, rows) is Some {
            let i = lemma_template_reason(doc, rows);
            lemma_row_is_named(manifest, doc, operations, i);
        } else {
            lemma_all_orders(doc, groups);
            let k = lemma_order_reason(doc, Map::empty(), all_resources(groups));
            assert(all_resources(groups)[k].order is Some);
        }
    }
}

} // verus!
