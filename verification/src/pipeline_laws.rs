//! What holds of prepared inputs: nothing that generation looks up is missing.
use crate::codegen;
use crate::codegen::Inputs;
use crate::json::Json;
use crate::manifest;
use crate::manifest::{Group, Manifest, Resource};
use crate::order;
use crate::pipeline;
use crate::pipeline::Prepared;
use crate::schema::OpenApiDoc;
use crate::schema_codegen;
use crate::table;
use vstd::prelude::*;

verus! {

/// The prepared inputs, as contracts of the generators see them.
pub open spec fn prepared_inputs(prepared: Prepared) -> Inputs {
    codegen::inputs_of(
        prepared.operations,
        prepared.field_enum_values,
        prepared.request_skeletons,
        prepared.order_skeletons,
    )
}

proof fn lemma_command_is_listed(resource: Resource, verb: Seq<char>)
    requires
        resource.commands@.contains_key(verb),
    ensures
        pipeline::resource_operations(resource).contains(resource.commands@[verb]@),
{
    let rows = resource.commands.rows();
    let i = table::row_of(rows, verb);
    assert(rows[i].0 == verb);
    assert(pipeline::resource_operations(resource)[i] == resource.commands@[verb]@);
}

proof fn lemma_in_resources(resources: Seq<Resource>, r: int, verb: Seq<char>)
    requires
        0 <= r < resources.len(),
        resources[r].commands@.contains_key(verb),
    ensures
        pipeline::operations_in(resources).contains(resources[r].commands@[verb]@),
    decreases resources.len(),
{
    let id = resources[r].commands@[verb]@;
    let before = pipeline::operations_in(resources.drop_last());
    let here = pipeline::resource_operations(resources.last());
    let all = pipeline::operations_in(resources);
    if r < resources.len() - 1 {
        lemma_in_resources(resources.drop_last(), r, verb);
        let k = choose|k: int| 0 <= k < before.len() && before[k] == id;
        assert(all[k] == id);
    } else {
        lemma_command_is_listed(resources[r], verb);
        let k = choose|k: int| 0 <= k < here.len() && here[k] == id;
        assert(all[before.len() + k] == id);
    }
}

proof fn lemma_in_groups(groups: Seq<Group>, g: int, r: int, verb: Seq<char>)
    requires
        0 <= g < groups.len(),
        0 <= r < groups[g].resource@.len(),
        groups[g].resource@[r].commands@.contains_key(verb),
    ensures
        pipeline::all_operations(groups).contains(groups[g].resource@[r].commands@[verb]@),
    decreases groups.len(),
{
    let id = groups[g].resource@[r].commands@[verb]@;
    let before = pipeline::all_operations(groups.drop_last());
    let here = pipeline::operations_in(groups.last().resource@);
    let all = pipeline::all_operations(groups);
    if g < groups.len() - 1 {
        lemma_in_groups(groups.drop_last(), g, r, verb);
        let k = choose|k: int| 0 <= k < before.len() && before[k] == id;
        assert(all[k] == id);
    } else {
        lemma_in_resources(groups[g].resource@, r, verb);
        let k = choose|k: int| 0 <= k < here.len() && here[k] == id;
        assert(all[before.len() + k] == id);
    }
}

/// Every operation that a manifest command names is prepared, and so is the template of
/// its request body, where it has one.
pub proof fn every_command_is_prepared(
    manifest: Manifest,
    doc: OpenApiDoc,
    prepared: Prepared,
    g: int,
    r: int,
    verb: Seq<char>,
)
    requires
        pipeline::is_prepared(manifest, doc, prepared),
        0 <= g < manifest.group@.len(),
        0 <= r < manifest.group@[g].resource@.len(),
        manifest.group@[g].resource@[r].commands@.contains_key(verb),
    ensures
        ({
            let id = manifest.group@[g].resource@[r].commands@[verb]@;
            let body = prepared.operations@[id]@.request_body_type;
            &&& prepared.operations@.contains_key(id)
            &&& body is Some ==> prepared.request_skeletons@.contains_key(body->0)
        }),
{
    let groups = manifest.group@;
    let names = pipeline::all_operations(groups);
    let id = groups[g].resource@[r].commands@[verb]@;
    lemma_in_groups(groups, g, r, verb);
    order::ascending_exists(names);
    assert(order::ascending(names).contains(id));
    assert(prepared.operations@.contains_key(id));
    let rows = prepared.operations.rows();
    let body = prepared.operations@[id]@.request_body_type;
    if body is Some {
        assert(table::has_row(rows, id));
        let i = table::row_of(rows, id);
        assert(rows[i].0 == id);
        assert(rows[i].1@.request_body_type == Some(body->0));
        assert(pipeline::uses_body(rows, body->0));
    }
}

proof fn lemma_order_templates_keep(
    doc: OpenApiDoc,
    before: Map<Seq<char>, Json>,
    resources: Seq<Resource>,
    name: Seq<char>,
)
    requires
        pipeline::order_templates(doc, before, resources) is Ok,
        before.contains_key(name) || exists|r: int|
            0 <= r < resources.len() && (#[trigger] resources[r]).order is Some
                && resources[r].name@ == name,
    ensures
        pipeline::order_templates(doc, before, resources)->Ok_0.contains_key(name),
    decreases resources.len(),
{
    if resources.len() > 0 {
        let fewer = resources.drop_last();
        let last = resources.last();
        if before.contains_key(name) {
            lemma_order_templates_keep(doc, before, fewer, name);
        } else {
            let r = choose|r: int|
                0 <= r < resources.len() && (#[trigger] resources[r]).order is Some
                    && resources[r].name@ == name;
            if r < fewer.len() {
                assert(fewer[r].order is Some && fewer[r].name@ == name);
                lemma_order_templates_keep(doc, before, fewer, name);
            }
        }
    }
}

proof fn lemma_all_order_templates(doc: OpenApiDoc, groups: Seq<Group>, g: int, r: int)
    requires
        pipeline::all_order_templates(doc, groups) is Ok,
        0 <= g < groups.len(),
        0 <= r < groups[g].resource@.len(),
        groups[g].resource@[r].order is Some,
    ensures
        pipeline::all_order_templates(doc, groups)->Ok_0.contains_key(
            groups[g].resource@[r].name@,
        ),
    decreases groups.len(),
{
    let name = groups[g].resource@[r].name@;
    let earlier = pipeline::all_order_templates(doc, groups.drop_last())->Ok_0;
    let resources = groups.last().resource@;
    if g < groups.len() - 1 {
        lemma_all_order_templates(doc, groups.drop_last(), g, r);
    } else {
        assert(resources[r].order is Some && resources[r].name@ == name);
    }
    lemma_order_templates_keep(doc, earlier, resources, name);
}

/// Every resource with an order has a prepared order template.
pub proof fn every_order_is_prepared(
    manifest: Manifest,
    doc: OpenApiDoc,
    prepared: Prepared,
    g: int,
    r: int,
)
    requires
        pipeline::is_prepared(manifest, doc, prepared),
        0 <= g < manifest.group@.len(),
        0 <= r < manifest.group@[g].resource@.len(),
        manifest.group@[g].resource@[r].order is Some,
    ensures
        prepared.order_skeletons@.contains_key(manifest.group@[g].resource@[r].name@),
{
    lemma_all_order_templates(doc, manifest.group@, g, r);
}

pub(crate) proof fn lemma_verb_commands_succeed(
    manifest: Manifest,
    doc: OpenApiDoc,
    prepared: Prepared,
    g: int,
    r: int,
    n: nat,
)
    requires
        pipeline::is_prepared(manifest, doc, prepared),
        0 <= g < manifest.group@.len(),
        0 <= r < manifest.group@[g].resource@.len(),
        n <= 5,
    ensures
        schema_codegen::verb_commands(
            manifest.group@[g].name@,
            manifest.group@[g].resource@[r],
            prepared_inputs(prepared),
            n,
        ) is Ok,
    decreases n,
{
    if n > 0 {
        lemma_verb_commands_succeed(manifest, doc, prepared, g, r, (n - 1) as nat);
        let verb = manifest::verb_at(n - 1);
        if manifest.group@[g].resource@[r].commands@.contains_key(verb) {
            every_command_is_prepared(manifest, doc, prepared, g, r, verb);
        }
    }
}

proof fn lemma_group_commands_succeed(
    manifest: Manifest,
    doc: OpenApiDoc,
    prepared: Prepared,
    g: int,
    n: int,
)
    requires
        pipeline::is_prepared(manifest, doc, prepared),
        0 <= g < manifest.group@.len(),
        0 <= n <= manifest.group@[g].resource@.len(),
    ensures
        schema_codegen::group_commands(
            manifest.group@[g].name@,
            manifest.group@[g].resource@.take(n),
            prepared_inputs(prepared),
        ) is Ok,
    decreases n,
{
    if n > 0 {
        let resources = manifest.group@[g].resource@;
        lemma_group_commands_succeed(manifest, doc, prepared, g, n - 1);
        lemma_verb_commands_succeed(manifest, doc, prepared, g, n - 1, 5);
        assert(resources.take(n).drop_last() =~= resources.take(n - 1));
        assert(resources.take(n).last() == resources[n - 1]);
    }
}

proof fn lemma_all_commands_succeed(
    manifest: Manifest,
    doc: OpenApiDoc,
    prepared: Prepared,
    n: int,
)
    requires
        pipeline::is_prepared(manifest, doc, prepared),
        0 <= n <= manifest.group@.len(),
    ensures
        schema_codegen::all_commands(
            manifest.group@.take(n),
            prepared_inputs(prepared),
        ) is Ok,
    decreases n,
{
    if n > 0 {
        let groups = manifest.group@;
        let resources = groups[n - 1].resource@;
        lemma_all_commands_succeed(manifest, doc, prepared, n - 1);
        lemma_group_commands_succeed(
            manifest,
            doc,
            prepared,
            n - 1,
            resources.len() as int,
        );
        assert(resources.take(resources.len() as int) =~= resources);
        assert(groups.take(n).drop_last() =~= groups.take(n - 1));
        assert(groups.take(n).last() == groups[n - 1]);
    }
}

/// The command schema of prepared inputs can always be built.
pub proof fn prepared_inputs_have_a_command_schema(
    manifest: Manifest,
    doc: OpenApiDoc,
    prepared: Prepared,
    cli_version: Seq<char>,
)
    requires
        pipeline::is_prepared(manifest, doc, prepared),
    ensures
        schema_codegen::schema_json(manifest, prepared_inputs(prepared), cli_version) is Ok,
{
    let groups = manifest.group@;
    lemma_all_commands_succeed(manifest, doc, prepared, groups.len() as int);
    assert(groups.take(groups.len() as int) =~= groups);
}

} // verus!
