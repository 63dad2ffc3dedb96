//! From a manifest and an API schema to everything that generation needs: the operations
//! that the manifest names, the valid field names, and the request and order templates.
use crate::error::SchemaError;
use crate::json;
use crate::json::Json;
use crate::manifest::{Group, Manifest, Resource};
use crate::order;
use crate::order::sorted_unique;
use crate::schema;
use crate::schema::{
    extract_enum_values, extract_operation, ExtractedOperation, OpenApiDoc, Operation,
};
use crate::skeleton;
use crate::skeleton::{build_order_skeleton, build_request_skeleton};
use crate::table::Table;
use crate::text;
use vstd::prelude::*;
use vstd::string::*;

verus! {

/// What went wrong, and where. `S` is how a text is held.
#[derive(Debug)]
pub enum PipelineError<S = String> {
    ExtractingOperation { operation_id: S, cause: SchemaError<S> },
    ResolvingFields { operation_id: S, cause: SchemaError<S> },
    BuildingSkeleton { operation_id: S, cause: SchemaError<S> },
    BuildingOrderSkeleton { resource: S, cause: SchemaError<S> },
}

impl PipelineError<String> {
    pub open spec fn model(self) -> PipelineError<Seq<char>> {
        match self {
            PipelineError::ExtractingOperation { operation_id, cause } => {
                PipelineError::ExtractingOperation {
                    operation_id: operation_id@,
                    cause: cause.model(),
                }
            },
            PipelineError::ResolvingFields { operation_id, cause } => {
                PipelineError::ResolvingFields {
                    operation_id: operation_id@,
                    cause: cause.model(),
                }
            },
            PipelineError::BuildingSkeleton { operation_id, cause } => {
                PipelineError::BuildingSkeleton {
                    operation_id: operation_id@,
                    cause: cause.model(),
                }
            },
            PipelineError::BuildingOrderSkeleton { resource, cause } => {
                PipelineError::BuildingOrderSkeleton { resource: resource@, cause: cause.model() }
            },
        }
    }

    /// The error in words; what caused it has words of its own.
    pub fn message(&self) -> (message: String)
        ensures
            message@ == pipeline_error_text(self.model()),
    {
        match self {
            PipelineError::ExtractingOperation { operation_id, .. } => {
                "extracting operation `".to_string().concat(operation_id.as_str()).concat(
                    "` from OpenAPI schema",
                )
            },
            PipelineError::ResolvingFields { operation_id, .. } => {
                "resolving --fields values for operation `".to_string().concat(
                    operation_id.as_str(),
                ).concat("`")
            },
            PipelineError::BuildingSkeleton { operation_id, .. } => {
                "building request skeleton for operation `".to_string().concat(
                    operation_id.as_str(),
                ).concat("`")
            },
            PipelineError::BuildingOrderSkeleton { resource, .. } => {
                "building order skeleton for resource `".to_string().concat(
                    resource.as_str(),
                ).concat("`")
            },
        }
    }
}

/// An error in words.
pub open spec fn pipeline_error_text(error: PipelineError<Seq<char>>) -> Seq<char> {
    match error {
        PipelineError::ExtractingOperation { operation_id, .. } => {
            "extracting operation `"@ + operation_id + "` from OpenAPI schema"@
        },
        PipelineError::ResolvingFields { operation_id, .. } => {
            "resolving --fields values for operation `"@ + operation_id + "`"@
        },
        PipelineError::BuildingSkeleton { operation_id, .. } => {
            "building request skeleton for operation `"@ + operation_id + "`"@
        },
        PipelineError::BuildingOrderSkeleton { resource, .. } => {
            "building order skeleton for resource `"@ + resource + "`"@
        },
    }
}

/// The operation ids of a resource's commands.
pub open spec fn resource_operations(resource: Resource) -> Seq<Seq<char>> {
    resource.commands.rows().map_values(|row: (Seq<char>, String)| row.1@)
}

/// The operation ids of the commands of resources, one after the other.
pub open spec fn operations_in(resources: Seq<Resource>) -> Seq<Seq<char>>
    decreases resources.len(),
{
    if resources.len() == 0 {
        Seq::empty()
    } else {
        operations_in(resources.drop_last()) + resource_operations(resources.last())
    }
}

/// The operation ids of the commands of groups, one after the other.
pub open spec fn all_operations(groups: Seq<Group>) -> Seq<Seq<char>>
    decreases groups.len(),
{
    if groups.len() == 0 {
        Seq::empty()
    } else {
        all_operations(groups.drop_last()) + operations_in(groups.last().resource@)
    }
}

fn collect_operations(resource: &Resource, ids: &mut Vec<String>)
    ensures
        text::texts(final(ids)@) == text::texts(old(ids)@) + resource_operations(*resource),
{
    let ghost own = resource_operations(*resource);
    let ghost start = text::texts(ids@);
    let count: usize = resource.commands.len();
    assert(text::texts(ids@) =~= start + own.take(0));
    for i in 0..count
        invariant
            own == resource_operations(*resource),
            count == resource.commands.rows().len(),
            start == text::texts(old(ids)@),
            text::texts(ids@) == start + own.take(i as int),
    {
        let ghost before = text::texts(ids@);
        ids.push(resource.commands.value_at(i).clone());
        assert(text::texts(ids@) =~= before.push(own[i as int]));
        assert(text::texts(ids@) =~= start + own.take(i + 1));
    }
    assert(own.take(own.len() as int) =~= own);
}

/// The operations that a manifest names, in ascending order, each of them once.
pub fn wanted_operations(manifest: &Manifest) -> (ids: Vec<String>)
    ensures
        text::texts(ids@) == order::ascending(all_operations(manifest.group@)),
        order::strictly_sorted(text::texts(ids@)),
{
    let ghost groups = manifest.group@;
    let mut ids: Vec<String> = Vec::new();
    assert(text::texts(ids@) =~= all_operations(groups.take(0)));
    for i in 0..manifest.group.len()
        invariant
            groups == manifest.group@,
            text::texts(ids@) == all_operations(groups.take(i as int)),
    {
        let group = &manifest.group[i];
        let ghost resources = group.resource@;
        let ghost start = text::texts(ids@);
        assert(text::texts(ids@) =~= start + operations_in(resources.take(0)));
        for j in 0..group.resource.len()
            invariant
                resources == group.resource@,
                text::texts(ids@) == start + operations_in(resources.take(j as int)),
        {
            assert(resources.take(j + 1).drop_last() =~= resources.take(j as int));
            collect_operations(&group.resource[j], &mut ids);
            assert(text::texts(ids@) =~= start + operations_in(resources.take(j + 1)));
        }
        assert(resources.take(resources.len() as int) =~= resources);
        assert(groups.take(i + 1).drop_last() =~= groups.take(i as int));
        assert(groups.take(i + 1).last() == *group);
    }
    assert(groups.take(groups.len() as int) =~= groups);
    let sorted = sorted_unique(&ids);
    proof {
        order::ascending_is_unique(text::texts(ids@), text::texts(sorted@));
    }
    sorted
}

/// The first wanted operation that cannot be extracted.
pub open spec fn first_extraction_failure(doc: OpenApiDoc, ids: Seq<Seq<char>>) -> Option<
    PipelineError<Seq<char>>,
>
    decreases ids.len(),
{
    if ids.len() == 0 {
        None
    } else if first_extraction_failure(doc, ids.drop_last()) is Some {
        first_extraction_failure(doc, ids.drop_last())
    } else {
        match schema::operation_by_id(doc, ids.last()) {
            Ok(_) => None,
            Err(cause) => Some(
                PipelineError::ExtractingOperation { operation_id: ids.last(), cause },
            ),
        }
    }
}

proof fn lemma_extraction_failure_stays(doc: OpenApiDoc, ids: Seq<Seq<char>>, i: int)
    requires
        0 <= i <= ids.len(),
        first_extraction_failure(doc, ids.take(i)) is Some,
    ensures
        first_extraction_failure(doc, ids) == first_extraction_failure(doc, ids.take(i)),
    decreases ids.len() - i,
{
    if i < ids.len() {
        assert(ids.take(i + 1).drop_last() =~= ids.take(i));
        lemma_extraction_failure_stays(doc, ids, i + 1);
    } else {
        assert(ids.take(i) =~= ids);
    }
}

/// Whether a table holds what is extracted for each of the ids, and nothing else.
pub open spec fn holds_operations(
    doc: OpenApiDoc,
    ids: Seq<Seq<char>>,
    operations: Map<Seq<char>, ExtractedOperation>,
) -> bool {
    &&& forall|id: Seq<char>| #[trigger] operations.contains_key(id) <==> ids.contains(id)
    &&& forall|id: Seq<char>|
        operations.contains_key(id) ==> schema::operation_by_id(doc, id) == Ok::<
            Operation,
            SchemaError<Seq<char>>,
        >((#[trigger] operations[id])@)
}

/// Extracts the wanted operations from an API schema.
pub fn extract_operations(doc: &OpenApiDoc, wanted: &Vec<String>) -> (result: Result<
    Table<ExtractedOperation>,
    PipelineError,
>)
    ensures
        match result {
            Ok(operations) => operations.well_formed() && first_extraction_failure(
                *doc,
                text::texts(wanted@),
            ) is None && holds_operations(*doc, text::texts(wanted@), operations@),
            Err(error) => first_extraction_failure(*doc, text::texts(wanted@)) == Some(
                error.model(),
            ),
        },
{
    let ghost ids = text::texts(wanted@);
    let mut operations: Table<ExtractedOperation> = Table::new();
    for i in 0..wanted.len()
        invariant
            ids == text::texts(wanted@),
            first_extraction_failure(*doc, ids.take(i as int)) is None,
            holds_operations(*doc, ids.take(i as int), operations@),
            operations.well_formed(),
    {
        let id = wanted[i].as_str();
        proof {
            assert(ids.take(i + 1).drop_last() =~= ids.take(i as int));
            assert(ids.take(i + 1) =~= ids.take(i as int).push(id@));
            text::lemma_push_contains(ids.take(i as int), id@);
        }
        match extract_operation(doc, id) {
            Ok(op) => {
                operations.insert(id.to_string(), op);
            },
            Err(cause) => {
                proof {
                    lemma_extraction_failure_stays(*doc, ids, i + 1);
                }
                return Err(
                    PipelineError::ExtractingOperation { operation_id: id.to_string(), cause },
                );
            },
        }
    }
    assert(ids.take(ids.len() as int) =~= ids);
    Ok(operations)
}

/// The first operation, in the order of the table, whose valid field names cannot be
/// resolved.
pub open spec fn first_field_failure(
    doc: OpenApiDoc,
    operations: Seq<(Seq<char>, ExtractedOperation)>,
) -> Option<PipelineError<Seq<char>>>
    decreases operations.len(),
{
    if operations.len() == 0 {
        None
    } else if first_field_failure(doc, operations.drop_last()) is Some {
        first_field_failure(doc, operations.drop_last())
    } else {
        let op = operations.last().1@;
        match op.field_enum_name {
            None => None,
            Some(name) => match schema::enum_values_of(doc, name) {
                Ok(_) => None,
                Err(cause) => Some(
                    PipelineError::ResolvingFields { operation_id: op.operation_id, cause },
                ),
            },
        }
    }
}

proof fn lemma_field_failure_stays(
    doc: OpenApiDoc,
    operations: Seq<(Seq<char>, ExtractedOperation)>,
    i: int,
)
    requires
        0 <= i <= operations.len(),
        first_field_failure(doc, operations.take(i)) is Some,
    ensures
        first_field_failure(doc, operations) == first_field_failure(doc, operations.take(i)),
    decreases operations.len() - i,
{
    if i < operations.len() {
        assert(operations.take(i + 1).drop_last() =~= operations.take(i));
        lemma_field_failure_stays(doc, operations, i + 1);
    } else {
        assert(operations.take(i) =~= operations);
    }
}

/// Whether some operation takes its field names from that schema.
pub open spec fn uses_fields(
    operations: Seq<(Seq<char>, ExtractedOperation)>,
    name: Seq<char>,
) -> bool {
    exists|i: int|
        0 <= i < operations.len() && (#[trigger] operations[i]).1@.field_enum_name == Some(name)
}

proof fn lemma_uses_fields_push(
    operations: Seq<(Seq<char>, ExtractedOperation)>,
    i: int,
    name: Seq<char>,
)
    requires
        0 <= i < operations.len(),
    ensures
        uses_fields(operations.take(i + 1), name) <==> uses_fields(operations.take(i), name)
            || operations[i].1@.field_enum_name == Some(name),
{
    let before = operations.take(i);
    let now = operations.take(i + 1);
    if uses_fields(before, name) {
        let k = choose|k: int|
            0 <= k < before.len() && (#[trigger] before[k]).1@.field_enum_name == Some(name);
        assert(now[k].1@.field_enum_name == Some(name));
    }
    if operations[i].1@.field_enum_name == Some(name) {
        assert(now[i].1@.field_enum_name == Some(name));
    }
    if uses_fields(now, name) {
        let k = choose|k: int|
            0 <= k < now.len() && (#[trigger] now[k]).1@.field_enum_name == Some(name);
        if k < i {
            assert(before[k].1@.field_enum_name == Some(name));
        }
    }
}

/// Whether a table holds the values of every schema that operations take their field
/// names from, and nothing else.
pub open spec fn holds_field_values(
    doc: OpenApiDoc,
    operations: Seq<(Seq<char>, ExtractedOperation)>,
    values: Map<Seq<char>, Vec<String>>,
) -> bool {
    &&& forall|name: Seq<char>| #[trigger]
        values.contains_key(name) <==> uses_fields(operations, name)
    &&& forall|name: Seq<char>|
        values.contains_key(name) ==> schema::enum_values_of(doc, name) == Ok::<
            Seq<Seq<char>>,
            SchemaError<Seq<char>>,
        >(text::texts((#[trigger] values[name])@))
}

/// Resolves the valid `--fields` values of every operation that has them, so that a bad
/// name is refused instead of silently ignored.
pub fn resolve_field_values(doc: &OpenApiDoc, operations: &Table<ExtractedOperation>) -> (result:
    Result<Table<Vec<String>>, PipelineError>)
    ensures
        match result {
            Ok(values) => first_field_failure(*doc, operations.rows()) is None
                && holds_field_values(*doc, operations.rows(), values@),
            Err(error) => first_field_failure(*doc, operations.rows()) == Some(error.model()),
        },
{
    let ghost rows = operations.rows();
    let mut values: Table<Vec<String>> = Table::new();
    let count: usize = operations.len();
    for i in 0..count
        invariant
            rows == operations.rows(),
            count == rows.len(),
            first_field_failure(*doc, rows.take(i as int)) is None,
            holds_field_values(*doc, rows.take(i as int), values@),
    {
        let op = operations.value_at(i);
        proof {
            assert(rows.take(i + 1).drop_last() =~= rows.take(i as int));
            assert forall|name: Seq<char>| #[trigger]
                uses_fields(rows.take(i + 1), name) <==> uses_fields(rows.take(i as int), name)
                    || op@.field_enum_name == Some(name) by {
                lemma_uses_fields_push(rows, i as int, name);
            }
        }
        if let Some(name) = &op.field_enum_name {
            if values.contains_key(name.as_str()) {
                assert(schema::enum_values_of(*doc, name@) == Ok::<
                    Seq<Seq<char>>,
                    SchemaError<Seq<char>>,
                >(text::texts(values@[name@]@)));
            } else {
                match extract_enum_values(doc, name.as_str()) {
                    Ok(names) => {
                        values.insert(name.clone(), names);
                    },
                    Err(cause) => {
                        proof {
                            lemma_field_failure_stays(*doc, rows, i + 1);
                        }
                        return Err(
                            PipelineError::ResolvingFields {
                                operation_id: op.operation_id.clone(),
                                cause,
                            },
                        );
                    },
                }
            }
        }
    }
    assert(rows.take(rows.len() as int) =~= rows);
    Ok(values)
}

/// The first operation, in the order of the table, whose request template cannot be
/// built.
pub open spec fn first_skeleton_failure(
    doc: OpenApiDoc,
    operations: Seq<(Seq<char>, ExtractedOperation)>,
) -> Option<PipelineError<Seq<char>>>
    decreases operations.len(),
{
    if operations.len() == 0 {
        None
    } else if first_skeleton_failure(doc, operations.drop_last()) is Some {
        first_skeleton_failure(doc, operations.drop_last())
    } else {
        let op = operations.last().1@;
        match op.request_body_type {
            None => None,
            Some(name) => match skeleton::request_skeleton(doc, name) {
                Ok(_) => None,
                Err(cause) => Some(
                    PipelineError::BuildingSkeleton { operation_id: op.operation_id, cause },
                ),
            },
        }
    }
}

proof fn lemma_skeleton_failure_stays(
    doc: OpenApiDoc,
    operations: Seq<(Seq<char>, ExtractedOperation)>,
    i: int,
)
    requires
        0 <= i <= operations.len(),
        first_skeleton_failure(doc, operations.take(i)) is Some,
    ensures
        first_skeleton_failure(doc, operations) == first_skeleton_failure(
            doc,
            operations.take(i),
        ),
    decreases operations.len() - i,
{
    if i < operations.len() {
        assert(operations.take(i + 1).drop_last() =~= operations.take(i));
        lemma_skeleton_failure_stays(doc, operations, i + 1);
    } else {
        assert(operations.take(i) =~= operations);
    }
}

/// Whether some operation has a request body of that schema.
pub open spec fn uses_body(
    operations: Seq<(Seq<char>, ExtractedOperation)>,
    name: Seq<char>,
) -> bool {
    exists|i: int|
        0 <= i < operations.len() && (#[trigger] operations[i]).1@.request_body_type == Some(name)
}

proof fn lemma_uses_body_push(
    operations: Seq<(Seq<char>, ExtractedOperation)>,
    i: int,
    name: Seq<char>,
)
    requires
        0 <= i < operations.len(),
    ensures
        uses_body(operations.take(i + 1), name) <==> uses_body(operations.take(i), name)
            || operations[i].1@.request_body_type == Some(name),
{
    let before = operations.take(i);
    let now = operations.take(i + 1);
    if uses_body(before, name) {
        let k = choose|k: int|
            0 <= k < before.len() && (#[trigger] before[k]).1@.request_body_type == Some(name);
        assert(now[k].1@.request_body_type == Some(name));
    }
    if operations[i].1@.request_body_type == Some(name) {
        assert(now[i].1@.request_body_type == Some(name));
    }
    if uses_body(now, name) {
        let k = choose|k: int|
            0 <= k < now.len() && (#[trigger] now[k]).1@.request_body_type == Some(name);
        if k < i {
            assert(before[k].1@.request_body_type == Some(name));
        }
    }
}

/// Whether a text is the printed template of a request body schema: it reads back as the
/// template.
pub open spec fn is_template(doc: OpenApiDoc, name: Seq<char>, printed: Seq<char>) -> bool {
    &&& skeleton::request_skeleton(doc, name) is Ok
    &&& printed == json::pretty_text(skeleton::request_skeleton(doc, name)->Ok_0)
    &&& json::parsed_json(printed) == Some(skeleton::request_skeleton(doc, name)->Ok_0)
}

/// Whether a table holds the template of every request body that operations have, and
/// nothing else.
pub open spec fn holds_skeletons(
    doc: OpenApiDoc,
    operations: Seq<(Seq<char>, ExtractedOperation)>,
    skeletons: Map<Seq<char>, String>,
) -> bool {
    &&& forall|name: Seq<char>| #[trigger]
        skeletons.contains_key(name) <==> uses_body(operations, name)
    &&& forall|name: Seq<char>|
        skeletons.contains_key(name) ==> is_template(doc, name, (#[trigger] skeletons[name])@)
}

/// Builds a fillable template for every request body that operations have, by the name
/// of its schema: several operations can share one.
pub fn build_request_skeletons(
    doc: &OpenApiDoc,
    operations: &Table<ExtractedOperation>,
) -> (result: Result<Table<String>, PipelineError>)
    ensures
        match result {
            Ok(skeletons) => first_skeleton_failure(*doc, operations.rows()) is None
                && holds_skeletons(*doc, operations.rows(), skeletons@),
            Err(error) => first_skeleton_failure(*doc, operations.rows()) == Some(error.model()),
        },
{
    let ghost rows = operations.rows();
    let mut skeletons: Table<String> = Table::new();
    let count: usize = operations.len();
    for i in 0..count
        invariant
            rows == operations.rows(),
            count == rows.len(),
            first_skeleton_failure(*doc, rows.take(i as int)) is None,
            holds_skeletons(*doc, rows.take(i as int), skeletons@),
    {
        let op = operations.value_at(i);
        proof {
            assert(rows.take(i + 1).drop_last() =~= rows.take(i as int));
            assert forall|name: Seq<char>| #[trigger]
                uses_body(rows.take(i + 1), name) <==> uses_body(rows.take(i as int), name)
                    || op@.request_body_type == Some(name) by {
                lemma_uses_body_push(rows, i as int, name);
            }
        }
        if let Some(name) = &op.request_body_type {
            if skeletons.contains_key(name.as_str()) {
                assert(is_template(*doc, name@, skeletons@[name@]@));
            } else {
                match build_request_skeleton(doc, name.as_str()) {
                    Ok(skeleton) => {
                        skeletons.insert(name.clone(), skeleton);
                    },
                    Err(cause) => {
                        proof {
                            lemma_skeleton_failure_stays(*doc, rows, i + 1);
                        }
                        return Err(
                            PipelineError::BuildingSkeleton {
                                operation_id: op.operation_id.clone(),
                                cause,
                            },
                        );
                    },
                }
            }
        }
    }
    assert(rows.take(rows.len() as int) =~= rows);
    Ok(skeletons)
}

/// The order templates of resources by name, behind those that there are, or the
/// first failure. Where a name repeats, the last resource's template stands.
pub open spec fn order_templates(
    doc: OpenApiDoc,
    before: Map<Seq<char>, Json>,
    resources: Seq<Resource>,
) -> Result<Map<Seq<char>, Json>, PipelineError<Seq<char>>>
    decreases resources.len(),
{
    if resources.len() == 0 {
        Ok(before)
    } else {
        let resource = resources.last();
        match order_templates(doc, before, resources.drop_last()) {
            Err(error) => Err(error),
            Ok(earlier) => match resource.order {
                None => Ok(earlier),
                Some(config) => match skeleton::order_skeleton(
                    doc,
                    text::opt_text(config.offering_type),
                ) {
                    Ok(template) => Ok(
                        earlier.insert(resource.name@, template),
                    ),
                    Err(cause) => Err(
                        PipelineError::BuildingOrderSkeleton { resource: resource.name@, cause },
                    ),
                },
            },
        }
    }
}

/// The order templates of all resources by name, or the first failure.
pub open spec fn all_order_templates(doc: OpenApiDoc, groups: Seq<Group>) -> Result<
    Map<Seq<char>, Json>,
    PipelineError<Seq<char>>,
>
    decreases groups.len(),
{
    if groups.len() == 0 {
        Ok(Map::empty())
    } else {
        match all_order_templates(doc, groups.drop_last()) {
            Err(error) => Err(error),
            Ok(earlier) => order_templates(doc, earlier, groups.last().resource@),
        }
    }
}

proof fn lemma_order_failure_stays(
    doc: OpenApiDoc,
    before: Map<Seq<char>, Json>,
    resources: Seq<Resource>,
    i: int,
)
    requires
        0 <= i <= resources.len(),
        order_templates(doc, before, resources.take(i)) is Err,
    ensures
        order_templates(doc, before, resources) == order_templates(doc, before, resources.take(i)),
    decreases resources.len() - i,
{
    if i < resources.len() {
        assert(resources.take(i + 1).drop_last() =~= resources.take(i));
        lemma_order_failure_stays(doc, before, resources, i + 1);
    } else {
        assert(resources.take(i) =~= resources);
    }
}

proof fn lemma_all_orders_failure_stays(doc: OpenApiDoc, groups: Seq<Group>, i: int)
    requires
        0 <= i <= groups.len(),
        all_order_templates(doc, groups.take(i)) is Err,
    ensures
        all_order_templates(doc, groups) == all_order_templates(doc, groups.take(i)),
    decreases groups.len() - i,
{
    if i < groups.len() {
        assert(groups.take(i + 1).drop_last() =~= groups.take(i));
        lemma_all_orders_failure_stays(doc, groups, i + 1);
    } else {
        assert(groups.take(i) =~= groups);
    }
}

/// Whether a text is the printed form of a template, which it reads back as.
pub open spec fn is_printed(template: Json, printed: Seq<char>) -> bool {
    printed == json::pretty_text(template) && json::parsed_json(printed) == Some(template)
}

/// Whether a table holds the printed form of every template by its name, and nothing else.
pub open spec fn holds_printed(
    templates: Map<Seq<char>, Json>,
    skeletons: Map<Seq<char>, String>,
) -> bool {
    &&& skeletons.dom() == templates.dom()
    &&& forall|name: Seq<char>|
        skeletons.contains_key(name) ==> is_printed(
            templates[name],
            (#[trigger] skeletons[name])@,
        )
}

/// Builds the order template of a resource, where it has an order.
fn build_resource_order(doc: &OpenApiDoc, resource: &Resource) -> (result: Result<
    Option<String>,
    PipelineError,
>)
    ensures
        match result {
            Ok(None) => resource.order is None,
            Ok(Some(printed)) => resource.order is Some && {
                let template = skeleton::order_skeleton(
                    *doc,
                    text::opt_text(resource.order->0.offering_type),
                );
                template is Ok && is_printed(template->Ok_0, printed@)
            },
            Err(error) => resource.order is Some && {
                let template = skeleton::order_skeleton(
                    *doc,
                    text::opt_text(resource.order->0.offering_type),
                );
                template is Err && error.model() == (PipelineError::BuildingOrderSkeleton {
                    resource: resource.name@,
                    cause: template->Err_0,
                })
            },
        },
{
    match &resource.order {
        None => Ok(None),
        Some(config) => {
            let offering_type = match &config.offering_type {
                Some(name) => Some(name.as_str()),
                None => None,
            };
            match build_order_skeleton(doc, offering_type) {
                Ok(printed) => Ok(Some(printed)),
                Err(cause) => Err(
                    PipelineError::BuildingOrderSkeleton { resource: resource.name.clone(), cause },
                ),
            }
        },
    }
}

/// Builds the order template of every resource that has an order, by resource name.
pub fn build_order_skeletons(doc: &OpenApiDoc, manifest: &Manifest) -> (result: Result<
    Table<String>,
    PipelineError,
>)
    ensures
        match result {
            Ok(skeletons) => {
                let templates = all_order_templates(*doc, manifest.group@);
                templates is Ok && holds_printed(templates->Ok_0, skeletons@)
            },
            Err(error) => all_order_templates(*doc, manifest.group@) == Err::<
                Map<Seq<char>, Json>,
                PipelineError<Seq<char>>,
            >(error.model()),
        },
{
    let ghost groups = manifest.group@;
    let mut skeletons: Table<String> = Table::new();
    for i in 0..manifest.group.len()
        invariant
            groups == manifest.group@,
            all_order_templates(*doc, groups.take(i as int)) is Ok,
            holds_printed(
                all_order_templates(*doc, groups.take(i as int))->Ok_0,
                skeletons@,
            ),
    {
        let group = &manifest.group[i];
        let ghost resources = group.resource@;
        let ghost earlier = all_order_templates(*doc, groups.take(i as int))->Ok_0;
        proof {
            assert(groups.take(i + 1).drop_last() =~= groups.take(i as int));
            assert(groups.take(i + 1).last() == *group);
        }
        for j in 0..group.resource.len()
            invariant
                groups == manifest.group@,
                0 <= i < groups.len(),
                resources == group.resource@,
                groups.take(i + 1).drop_last() == groups.take(i as int),
                groups.take(i + 1).last() == *group,
                all_order_templates(*doc, groups.take(i as int)) == Ok::<
                    Map<Seq<char>, Json>,
                    PipelineError<Seq<char>>,
                >(earlier),
                order_templates(*doc, earlier, resources.take(j as int)) is Ok,
                holds_printed(
                    order_templates(*doc, earlier, resources.take(j as int))->Ok_0,
                    skeletons@,
                ),
        {
            proof {
                assert(resources.take(j + 1).drop_last() =~= resources.take(j as int));
            }
            match build_resource_order(doc, &group.resource[j]) {
                Ok(None) => {},
                Ok(Some(printed)) => {
                    skeletons.insert(group.resource[j].name.clone(), printed);
                    assert(skeletons@.dom() =~= order_templates(
                        *doc,
                        earlier,
                        resources.take(j + 1),
                    )->Ok_0.dom());
                },
                Err(error) => {
                    proof {
                        lemma_order_failure_stays(*doc, earlier, resources, j + 1);
                        lemma_all_orders_failure_stays(*doc, groups, i + 1);
                    }
                    return Err(error);
                },
            }
        }
        assert(resources.take(resources.len() as int) =~= resources);
    }
    assert(groups.take(groups.len() as int) =~= groups);
    Ok(skeletons)
}

/// Everything that generation reads besides the manifest.
#[derive(Debug)]
pub struct Prepared {
    pub operations: Table<ExtractedOperation>,
    pub field_enum_values: Table<Vec<String>>,
    pub request_skeletons: Table<String>,
    pub order_skeletons: Table<String>,
}

/// Whether that is what a manifest and an API schema give.
pub open spec fn is_prepared(manifest: Manifest, doc: OpenApiDoc, prepared: Prepared) -> bool {
    let ids = order::ascending(all_operations(manifest.group@));
    let rows = prepared.operations.rows();
    &&& prepared.operations.well_formed()
    &&& first_extraction_failure(doc, ids) is None
    &&& holds_operations(doc, ids, prepared.operations@)
    &&& holds_field_values(doc, rows, prepared.field_enum_values@)
    &&& holds_skeletons(doc, rows, prepared.request_skeletons@)
    &&& all_order_templates(doc, manifest.group@) is Ok
    &&& holds_printed(
        all_order_templates(doc, manifest.group@)->Ok_0,
        prepared.order_skeletons@,
    )
}

/// Whether an error is one that a manifest and an API schema give.
pub open spec fn is_failure(
    manifest: Manifest,
    doc: OpenApiDoc,
    error: PipelineError<Seq<char>>,
) -> bool {
    let ids = order::ascending(all_operations(manifest.group@));
    if first_extraction_failure(doc, ids) is Some {
        first_extraction_failure(doc, ids) == Some(error)
    } else {
        exists|operations: Table<ExtractedOperation>|
            {
                let rows = operations.rows();
                &&& #[trigger] holds_operations(doc, ids, operations@)
                &&& operations.well_formed()
                &&& if first_field_failure(doc, rows) is Some {
                    first_field_failure(doc, rows) == Some(error)
                } else if first_skeleton_failure(doc, rows) is Some {
                    first_skeleton_failure(doc, rows) == Some(error)
                } else {
                    all_order_templates(doc, manifest.group@) == Err::<
                        Map<Seq<char>, Json>,
                        PipelineError<Seq<char>>,
                    >(error)
                }
            }
    }
}

/// Extracts and builds everything that generation reads besides the manifest.
pub fn prepare(manifest: &Manifest, doc: &OpenApiDoc) -> (result: Result<Prepared, PipelineError>)
    ensures
        match result {
            Ok(prepared) => is_prepared(*manifest, *doc, prepared),
            Err(error) => is_failure(*manifest, *doc, error.model()),
        },
{
    let wanted = wanted_operations(manifest);
    let operations = extract_operations(doc, &wanted)?;
    let field_enum_values = resolve_field_values(doc, &operations)?;
    let request_skeletons = build_request_skeletons(doc, &operations)?;
    let order_skeletons = build_order_skeletons(doc, manifest)?;
    Ok(Prepared { operations, field_enum_values, request_skeletons, order_skeletons })
}

/// A text value of a TOML document, as `toml` reads it: `None` where the table or the key
/// is not there, `Some(None)` where the value is no text; else what the parser says is
/// wrong.
pub uninterp spec fn toml_text(
    source: Seq<char>,
    table: Seq<char>,
    key: Seq<char>,
) -> Result<Option<Option<Seq<char>>>, Seq<char>>;

/// Two nested optional texts.
pub open spec fn nested_text(value: Option<Option<String>>) -> Option<Option<Seq<char>>> {
    match value {
        Some(inner) => Some(text::opt_text(inner)),
        None => None,
    }
}

/// `str::parse` into a `toml::Value`, then `Value::get` of the table, `Value::get` of the
/// key and `Value::as_str`; else the words of the parser's error. The result depends on
/// the three texts alone.
#[verifier::external_body]
fn read_toml_text(source: &str, table: &str, key: &str) -> (result: Result<
    Option<Option<String>>,
    String,
>)
    ensures
        match result {
            Ok(value) => toml_text(source@, table@, key@) == Ok::<
                Option<Option<Seq<char>>>,
                Seq<char>,
            >(nested_text(value)),
            Err(reason) => toml_text(source@, table@, key@) == Err::<
                Option<Option<Seq<char>>>,
                Seq<char>,
            >(reason@),
        },
{
    match source.parse::<toml::Value>() {
        Ok(document) => Ok(document.get(table).and_then(|t| t.get(key)).map(|v| v.as_str().map(|s| s.to_string()))),
        Err(error) => Err(error.to_string()),
    }
}

/// An error in reading the version of waldur-cli.
#[derive(Debug)]
pub enum VersionError<S = String> {
    /// The manifest does not parse; `reason` is what the parser says.
    Unparsable { reason: S },
    /// The manifest has no package version at all.
    NoVersion,
}

impl VersionError<String> {
    pub open spec fn model(self) -> VersionError<Seq<char>> {
        match self {
            VersionError::Unparsable { reason } => VersionError::Unparsable { reason: reason@ },
            VersionError::NoVersion => VersionError::NoVersion,
        }
    }
}

/// The version that was found; `0.0.0` where it is no text, as when it is inherited.
pub open spec fn version_found(found: Option<Option<Seq<char>>>) -> Result<
    Seq<char>,
    VersionError<Seq<char>>,
> {
    match found {
        None => Err(VersionError::NoVersion),
        Some(None) => Ok("0.0.0"@),
        Some(Some(version)) => Ok(version),
    }
}

/// Decides which version a package has.
pub fn version_or_default(found: Option<Option<String>>) -> (result: Result<String, VersionError>)
    ensures
        match result {
            Ok(version) => version_found(nested_text(found)) == Ok::<
                Seq<char>,
                VersionError<Seq<char>>,
            >(version@),
            Err(error) => version_found(nested_text(found)) == Err::<
                Seq<char>,
                VersionError<Seq<char>>,
            >(error.model()),
        },
{
    match found {
        None => Err(VersionError::NoVersion),
        Some(None) => Ok("0.0.0".to_string()),
        Some(Some(version)) => Ok(version),
    }
}

/// Reads the version of waldur-cli from its `Cargo.toml`.
pub fn cli_version(cargo_toml: &str) -> (result: Result<String, VersionError>)
    ensures
        match toml_text(cargo_toml@, "package"@, "version"@) {
            Err(reason) => result is Err && result->Err_0.model() == (VersionError::Unparsable {
                reason,
            }),
            Ok(found) => match result {
                Ok(version) => version_found(found) == Ok::<Seq<char>, VersionError<Seq<char>>>(
                    version@,
                ),
                Err(error) => version_found(found) == Err::<Seq<char>, VersionError<Seq<char>>>(
                    error.model(),
                ),
            },
        },
{
    match read_toml_text(cargo_toml, "package", "version") {
        Ok(found) => version_or_default(found),
        Err(reason) => Err(VersionError::Unparsable { reason }),
    }
}

} // verus!
