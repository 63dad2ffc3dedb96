//! What holds of the generated sources as a whole.
use crate::codegen;
use crate::codegen::{Inputs, ResourceFile};
use crate::manifest;
use crate::manifest::{Group, Manifest, Resource};
use crate::rust_text;
use crate::schema::{ExtractedOperation, Param};
use crate::text;
use crate::verb_codegen;
use vstd::prelude::*;

verus! {

/// The resources of groups, each with the name of its group, in manifest order.
pub open spec fn resources_of(groups: Seq<Group>) -> Seq<(Seq<char>, Seq<char>)>
    decreases groups.len(),
{
    if groups.len() == 0 {
        Seq::empty()
    } else {
        let group = groups.last();
        resources_of(groups.drop_last()) + group.resource@.map_values(
            |resource: Resource| (group.name@, resource.name@),
        )
    }
}

/// The group and the resource that each file belongs to.
pub open spec fn file_names(files: Seq<ResourceFile>) -> Seq<(Seq<char>, Seq<char>)> {
    files.map_values(|file: ResourceFile| (file.group_name, file.resource_name))
}

proof fn lemma_group_files(group: Seq<char>, resources: Seq<Resource>, inputs: Inputs)
    requires
        codegen::group_files(group, resources, inputs) is Ok,
    ensures
        file_names(codegen::group_files(group, resources, inputs)->Ok_0) == resources.map_values(
            |resource: Resource| (group, resource.name@),
        ),
    decreases resources.len(),
{
    let files = codegen::group_files(group, resources, inputs)->Ok_0;
    let names = |resource: Resource| (group, resource.name@);
    if resources.len() > 0 {
        let before = resources.drop_last();
        lemma_group_files(group, before, inputs);
        let earlier = codegen::group_files(group, before, inputs)->Ok_0;
        assert(files.drop_last() =~= earlier);
        reveal(codegen::resource_file);
        assert(file_names(files) =~= file_names(earlier).push(
            (group, resources.last().name@),
        ));
        assert(resources.map_values(names) =~= before.map_values(names).push(
            (group, resources.last().name@),
        ));
    } else {
        assert(file_names(files) =~= resources.map_values(names));
    }
}

proof fn lemma_all_files(groups: Seq<Group>, inputs: Inputs)
    requires
        codegen::all_files(groups, inputs) is Ok,
    ensures
        file_names(codegen::all_files(groups, inputs)->Ok_0) == resources_of(groups),
    decreases groups.len(),
{
    let files = codegen::all_files(groups, inputs)->Ok_0;
    if groups.len() > 0 {
        let group = groups.last();
        lemma_all_files(groups.drop_last(), inputs);
        lemma_group_files(group.name@, group.resource@, inputs);
        let earlier = codegen::all_files(groups.drop_last(), inputs)->Ok_0;
        let here = codegen::group_files(group.name@, group.resource@, inputs)->Ok_0;
        assert(files =~= earlier + here);
        assert(file_names(files) =~= file_names(earlier) + file_names(here));
    } else {
        assert(file_names(files) =~= resources_of(groups));
    }
}

/// Generation makes one file for every resource of the manifest, in manifest order, and
/// no other.
pub proof fn one_file_per_resource(manifest: Manifest, inputs: Inputs)
    requires
        codegen::all_output(manifest, inputs) is Ok,
    ensures
        file_names(codegen::all_output(manifest, inputs)->Ok_0.resources) == resources_of(
            manifest.group@,
        ),
{
    lemma_all_files(manifest.group@, inputs);
}

/// Every group of a manifest has a module list.
pub proof fn every_group_has_a_module_list(manifest: Manifest, inputs: Inputs, i: int)
    requires
        codegen::all_output(manifest, inputs) is Ok,
        0 <= i < manifest.group@.len(),
    ensures
        codegen::all_output(manifest, inputs)->Ok_0.group_mod_decls.contains_key(
            manifest.group@[i].name@,
        ),
{
    lemma_group_decls(manifest.group@, i);
}

proof fn lemma_group_decls(groups: Seq<Group>, i: int)
    requires
        0 <= i < groups.len(),
    ensures
        codegen::all_group_decls(groups).contains_key(groups[i].name@),
    decreases groups.len(),
{
    if i < groups.len() - 1 {
        lemma_group_decls(groups.drop_last(), i);
    }
}

/// The variant of a verb in the command enum of its resource.
pub open spec fn variant(resource: Resource, verb: Seq<char>) -> Seq<char> {
    "#[doc = "@ + rust_text::literal_text(
        rust_text::pascal(verb) + " "@ + text::lowercase(resource.about@),
    ) + "]\n"@ + rust_text::pascal(verb) + "("@ + verb_codegen::args_name(resource.name@, verb)
        + "),\n"@
}

/// The variants of verbs, one after the other.
pub open spec fn variants(resource: Resource, verbs: Seq<Seq<char>>) -> Seq<char>
    decreases verbs.len(),
{
    if verbs.len() == 0 {
        ""@
    } else {
        variants(resource, verbs.drop_last()) + variant(resource, verbs.last())
    }
}

proof fn lemma_variants(
    resource: Resource,
    operations: Map<Seq<char>, ExtractedOperation>,
    field_values: Map<Seq<char>, Vec<String>>,
    skeletons: Map<Seq<char>, String>,
    n: nat,
)
    requires
        verb_codegen::first_verbs(resource, operations, field_values, skeletons, n) is Ok,
    ensures
        verb_codegen::first_verbs(
            resource,
            operations,
            field_values,
            skeletons,
            n,
        )->Ok_0.variants == variants(resource, manifest::own_verbs(resource, n)),
    decreases n,
{
    if n > 0 {
        lemma_variants(resource, operations, field_values, skeletons, (n - 1) as nat);
        let before = manifest::own_verbs(resource, (n - 1) as nat);
        let verb = manifest::verb_at(n - 1);
        if resource.commands@.contains_key(verb) {
            assert(before.push(verb).drop_last() =~= before);
        }
    }
}

/// The subcommands of a resource are its known verbs, each of them once, in the order of
/// the known verbs.
pub proof fn subcommands_follow_the_known_verbs(resource: Resource, inputs: Inputs)
    requires
        verb_codegen::first_verbs(
            resource,
            inputs.operations,
            inputs.field_values,
            inputs.request_skeletons,
            5,
        ) is Ok,
    ensures
        verb_codegen::first_verbs(
            resource,
            inputs.operations,
            inputs.field_values,
            inputs.request_skeletons,
            5,
        )->Ok_0.variants == variants(resource, manifest::own_verbs(resource, 5)),
{
    lemma_variants(
        resource,
        inputs.operations,
        inputs.field_values,
        inputs.request_skeletons,
        5,
    );
}

/// Where one verb of a resource fails, its whole module fails.
proof fn lemma_verb_fails(
    resource: Resource,
    operations: Map<Seq<char>, ExtractedOperation>,
    field_values: Map<Seq<char>, Vec<String>>,
    skeletons: Map<Seq<char>, String>,
    v: int,
    n: nat,
)
    requires
        0 <= v < n <= 5,
        resource.commands@.contains_key(manifest::verb_at(v)),
        ({
            let operation = resource.commands@[manifest::verb_at(v)]@;
            !operations.contains_key(operation) || verb_codegen::verb_parts(
                resource,
                manifest::verb_at(v),
                operation,
                operations[operation]@,
                field_values,
                skeletons,
                verb_codegen::list_has_project(resource, operations),
            ) is Err
        }),
    ensures
        verb_codegen::first_verbs(resource, operations, field_values, skeletons, n) is Err,
    decreases n,
{
    if v < n - 1 {
        lemma_verb_fails(resource, operations, field_values, skeletons, v, (n - 1) as nat);
    }
}

proof fn lemma_unmapped(params: Seq<Param>, i: int)
    requires
        0 <= i < params.len(),
        params[i].kind is SkippedRequired,
    ensures
        verb_codegen::first_unmapped(params) is Some,
    decreases params.len(),
{
    if i < params.len() - 1 {
        lemma_unmapped(params.drop_last(), i);
    }
}

/// A required filter is never dropped silently: where `list` has a required parameter of
/// a type without a filter kind, generating the resource fails.
pub proof fn a_required_filter_is_never_dropped(resource: Resource, inputs: Inputs, i: int)
    requires
        resource.commands@.contains_key("list"@),
        inputs.operations.contains_key(resource.commands@["list"@]@),
        0 <= i < inputs.operations[resource.commands@["list"@]@]@.query_params.len(),
        inputs.operations[resource.commands@["list"@]@]@.query_params[i].kind is SkippedRequired,
    ensures
        codegen::module_text(
            resource,
            inputs.operations,
            inputs.field_values,
            inputs.request_skeletons,
            inputs.order_skeletons,
        ) is Err,
{
    manifest::known_verbs_differ();
    lemma_unmapped(inputs.operations[resource.commands@["list"@]@]@.query_params, i);
    lemma_verb_fails(
        resource,
        inputs.operations,
        inputs.field_values,
        inputs.request_skeletons,
        0,
        5,
    );
}

/// A generated resource has every one of its known verbs: where the operation of a verb
/// was not extracted, generating the resource fails.
pub proof fn every_verb_needs_its_operation(resource: Resource, inputs: Inputs, v: int)
    requires
        0 <= v < 5,
        resource.commands@.contains_key(manifest::verb_at(v)),
        !inputs.operations.contains_key(resource.commands@[manifest::verb_at(v)]@),
    ensures
        codegen::module_text(
            resource,
            inputs.operations,
            inputs.field_values,
            inputs.request_skeletons,
            inputs.order_skeletons,
        ) is Err,
{
    lemma_verb_fails(
        resource,
        inputs.operations,
        inputs.field_values,
        inputs.request_skeletons,
        v,
        5,
    );
}

/// Query parameters are only supported on `list`: any other verb that has some makes
/// generating the resource fail.
pub proof fn only_list_takes_query_params(resource: Resource, inputs: Inputs, v: int)
    requires
        0 <= v < 5,
        manifest::verb_at(v) != "list"@,
        resource.commands@.contains_key(manifest::verb_at(v)),
        inputs.operations.contains_key(resource.commands@[manifest::verb_at(v)]@),
        inputs.operations[resource.commands@[manifest::verb_at(v)]@]@.query_params.len() > 0,
    ensures
        codegen::module_text(
            resource,
            inputs.operations,
            inputs.field_values,
            inputs.request_skeletons,
            inputs.order_skeletons,
        ) is Err,
{
    lemma_verb_fails(
        resource,
        inputs.operations,
        inputs.field_values,
        inputs.request_skeletons,
        v,
        5,
    );
}

} // verus!
