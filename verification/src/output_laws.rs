//! What the generated sources are made of: a module for every resource, the lists that
//! declare the modules, and the `cli.rs` that hands every command to its module.
use crate::codegen;
use crate::codegen::{CliParts, GeneratedOutput, Inputs, ResourceFile};
use crate::description_laws;
use crate::manifest::{Group, Manifest, Resource};
use crate::rust_text;
use crate::text;
use vstd::prelude::*;

verus! {

/// The variant of a resource in the command enum of its group: it carries the command enum
/// of the resource's own module.
pub open spec fn resource_variant(group: Group, resource: Resource) -> Seq<char> {
    "#[doc = "@ + rust_text::literal_text(resource.about@) + "]\n#[command(subcommand)]\n"@
        + rust_text::pascal(resource.name@) + "(crate::commands::"@ + rust_text::module_name(
        group.name@,
    ) + "::"@ + rust_text::module_name(resource.name@) + "::"@ + (rust_text::pascal(resource.name@)
        + "Command"@) + ",),\n"@
}

/// The arm of a resource in `dispatch`: it runs the resource's own module.
pub open spec fn resource_arm(group: Group, resource: Resource) -> Seq<char> {
    rust_text::pascal(group.name@) + "Command"@ + "::"@ + rust_text::pascal(resource.name@)
        + "(cmd) => {\ncrate::commands::"@ + rust_text::module_name(group.name@) + "::"@
        + rust_text::module_name(resource.name@) + "::run(client, base_url, token, project, dry_run, cmd, format).await }\n"@
}

/// Texts one after the other, one for every resource.
pub open spec fn for_each_resource(
    resources: Seq<Resource>,
    piece: spec_fn(Resource) -> Seq<char>,
) -> Seq<char>
    decreases resources.len(),
{
    if resources.len() == 0 {
        ""@
    } else {
        for_each_resource(resources.drop_last(), piece) + piece(resources.last())
    }
}

/// Texts one after the other, one for every group.
pub open spec fn for_each_group(groups: Seq<Group>, piece: spec_fn(Group) -> Seq<char>) -> Seq<char>
    decreases groups.len(),
{
    if groups.len() == 0 {
        ""@
    } else {
        for_each_group(groups.drop_last(), piece) + piece(groups.last())
    }
}

/// The variant of a group in the top command enum.
pub open spec fn group_variant(group: Group) -> Seq<char> {
    "#[doc = "@ + rust_text::literal_text(group.about@) + "]\n"@ + "#[command(subcommand)]\n"@
        + rust_text::pascal(group.name@) + "("@ + (rust_text::pascal(group.name@) + "Command"@)
        + ",),\n"@
}

/// The command enum of a group: one variant for every resource.
pub open spec fn group_enum(group: Group) -> Seq<char> {
    "#[doc = "@ + rust_text::literal_text(group.about@) + "]\n"@
        + "#[derive(clap::Subcommand, Debug)]\npub enum "@ + (rust_text::pascal(group.name@)
        + "Command"@) + " {\n"@ + for_each_resource(
        group.resource@,
        |resource: Resource| resource_variant(group, resource),
    ) + "}\n"@
}

/// The arm of a group in `dispatch`: one arm for every resource.
pub open spec fn group_arm(group: Group) -> Seq<char> {
    "GroupCommand::"@ + rust_text::pascal(group.name@) + "(cmd) => match cmd {\n"@
        + for_each_resource(
        group.resource@,
        |resource: Resource| resource_arm(group, resource),
    ) + "}\n"@
}

proof fn lemma_resource_entries(group: Group, resources: Seq<Resource>)
    requires
        codegen::resource_entries(group.name@, resources) is Ok,
    ensures
        codegen::resource_entries(group.name@, resources)->Ok_0 == (
            for_each_resource(resources, |resource: Resource| resource_variant(group, resource)),
            for_each_resource(resources, |resource: Resource| resource_arm(group, resource)),
        ),
    decreases resources.len(),
{
    if resources.len() > 0 {
        lemma_resource_entries(group, resources.drop_last());
    }
}

proof fn lemma_group_entries(groups: Seq<Group>)
    requires
        codegen::group_entries(groups) is Ok,
    ensures
        codegen::group_entries(groups)->Ok_0 == (CliParts {
            variants: for_each_group(groups, |group: Group| group_variant(group)),
            enums: for_each_group(groups, |group: Group| group_enum(group)),
            arms: for_each_group(groups, |group: Group| group_arm(group)),
        }),
    decreases groups.len(),
{
    if groups.len() > 0 {
        lemma_group_entries(groups.drop_last());
        reveal(codegen::group_entry);
        lemma_resource_entries(groups.last(), groups.last().resource@);
    }
}

/// `cli.rs` has a variant for every group and every resource of the manifest, and
/// `dispatch` hands each of them to the module of that very resource: no variant is without
/// its arm.
pub proof fn every_command_is_dispatched(manifest: Manifest)
    requires
        codegen::cli_text(manifest) is Ok,
    ensures
        codegen::cli_text(manifest)->Ok_0 == r##"
#![doc = r" Generated by waldur-cli-generator from `commands.toml`. Do not edit by hand."]
#[derive(clap::Subcommand, Debug)]
pub enum GroupCommand {
"##@ + for_each_group(
            manifest.group@,
            |group: Group| group_variant(group),
        ) + "}\n"@ + for_each_group(manifest.group@, |group: Group| group_enum(group))
            + r##"
pub async fn dispatch(
    client: &waldur_client::HttpClient,
    base_url: &str,
    token: Option<&str>,
    project: Option<&str>,
    dry_run: bool,
    command: GroupCommand,
    format: crate::output::OutputFormat,
) -> anyhow::Result<()> {
    match command {
"##@ + for_each_group(
            manifest.group@,
            |group: Group| group_arm(group),
        ) + "}\n}\n"@,
{
    lemma_group_entries(manifest.group@);
}

/// Whether a file is the module of a resource, as it is laid out.
pub open spec fn is_file_of(
    group: Seq<char>,
    resource: Resource,
    inputs: Inputs,
    file: ResourceFile,
) -> bool {
    &&& file.group_name == group
    &&& file.resource_name == resource.name@
    &&& codegen::module_text(
        resource,
        inputs.operations,
        inputs.field_values,
        inputs.request_skeletons,
        inputs.order_skeletons,
    ) is Ok
    &&& codegen::formatted(
        codegen::module_text(
            resource,
            inputs.operations,
            inputs.field_values,
            inputs.request_skeletons,
            inputs.order_skeletons,
        )->Ok_0,
    ) == Ok::<Seq<char>, Seq<char>>(file.source)
}

/// Whether files are those of resources, one for each of them in their order.
pub open spec fn are_files_of(
    resources: Seq<(Seq<char>, Resource)>,
    inputs: Inputs,
    files: Seq<ResourceFile>,
) -> bool {
    &&& files.len() == resources.len()
    &&& forall|i: int|
        0 <= i < files.len() ==> is_file_of(
            resources[i].0,
            resources[i].1,
            inputs,
            #[trigger] files[i],
        )
}

proof fn lemma_group_files(group: Seq<char>, resources: Seq<Resource>, inputs: Inputs)
    requires
        codegen::group_files(group, resources, inputs) is Ok,
    ensures
        are_files_of(
            resources.map_values(|resource: Resource| (group, resource)),
            inputs,
            codegen::group_files(group, resources, inputs)->Ok_0,
        ),
    decreases resources.len(),
{
    if resources.len() > 0 {
        lemma_group_files(group, resources.drop_last(), inputs);
        reveal(codegen::resource_file);
        let files = codegen::group_files(group, resources, inputs)->Ok_0;
        let before = codegen::group_files(group, resources.drop_last(), inputs)->Ok_0;
        let earlier = resources.drop_last().map_values(|resource: Resource| (group, resource));
        let all = resources.map_values(|resource: Resource| (group, resource));
        assert forall|i: int| 0 <= i < files.len() implies is_file_of(
            all[i].0,
            all[i].1,
            inputs,
            #[trigger] files[i],
        ) by {
            if i < before.len() {
                assert(files[i] == before[i]);
                assert(all[i] == earlier[i]);
            }
        }
    }
}

proof fn lemma_all_files(groups: Seq<Group>, inputs: Inputs)
    requires
        codegen::all_files(groups, inputs) is Ok,
    ensures
        are_files_of(
            description_laws::placed(groups),
            inputs,
            codegen::all_files(groups, inputs)->Ok_0,
        ),
    decreases groups.len(),
{
    if groups.len() > 0 {
        let group = groups.last();
        lemma_all_files(groups.drop_last(), inputs);
        lemma_group_files(group.name@, group.resource@, inputs);
        let files = codegen::all_files(groups, inputs)->Ok_0;
        let before = codegen::all_files(groups.drop_last(), inputs)->Ok_0;
        let here = codegen::group_files(group.name@, group.resource@, inputs)->Ok_0;
        let earlier = description_laws::placed(groups.drop_last());
        let own = group.resource@.map_values(|resource: Resource| (group.name@, resource));
        let all = description_laws::placed(groups);
        assert forall|i: int| 0 <= i < files.len() implies is_file_of(
            all[i].0,
            all[i].1,
            inputs,
            #[trigger] files[i],
        ) by {
            if i < before.len() {
                assert(files[i] == before[i]);
                assert(all[i] == earlier[i]);
            } else {
                assert(files[i] == here[i - before.len()]);
                assert(all[i] == own[i - before.len()]);
            }
        }
    }
}

/// The declarations of modules, one line each.
pub open spec fn declared(names: Seq<Seq<char>>) -> Seq<char> {
    text::joined(
        names.map_values(
            |name: Seq<char>| "pub mod "@ + rust_text::module_name(name) + ";"@,
        ),
        "\n"@,
    )
}

/// The names of resources.
pub open spec fn resource_names(resources: Seq<Resource>) -> Seq<Seq<char>> {
    resources.map_values(|resource: Resource| resource.name@)
}

/// The names of groups.
pub open spec fn group_names(groups: Seq<Group>) -> Seq<Seq<char>> {
    groups.map_values(|group: Group| group.name@)
}

proof fn lemma_group_list(groups: Seq<Group>, i: int)
    requires
        0 <= i < groups.len(),
        forall|j: int| i < j < groups.len() ==> (#[trigger] groups[j]).name@ != groups[i].name@,
    ensures
        codegen::all_group_decls(groups).contains_key(groups[i].name@),
        codegen::all_group_decls(groups)[groups[i].name@] == declared(
            resource_names(groups[i].resource@),
        ),
    decreases groups.len(),
{
    let before = groups.drop_last();
    if i < groups.len() - 1 {
        assert(before[i] == groups[i]);
        assert forall|j: int| i < j < before.len() implies (#[trigger] before[j]).name@
            != before[i].name@ by {
            assert(before[j] == groups[j]);
        }
        lemma_group_list(before, i);
        assert(groups[groups.len() - 1].name@ != groups[i].name@);
    } else {
        let resources = groups[i].resource@;
        assert(resources.map_values(|resource: Resource| codegen::module_decl(resource.name@))
            =~= resource_names(resources).map_values(
            |name: Seq<char>| "pub mod "@ + rust_text::module_name(name) + ";"@,
        ));
    }
}

/// Generation lays out the module of every resource in manifest order and the `cli.rs` of
/// the manifest; every group's list declares the module of each of its resources, and the
/// top list the module of each group.
pub proof fn everything_is_generated(manifest: Manifest, inputs: Inputs, i: int)
    requires
        codegen::all_output(manifest, inputs) is Ok,
        0 <= i < manifest.group@.len(),
        forall|j: int|
            i < j < manifest.group@.len() ==> (#[trigger] manifest.group@[j]).name@
                != manifest.group@[i].name@,
    ensures
        ({
            let output = codegen::all_output(manifest, inputs)->Ok_0;
            let groups = manifest.group@;
            &&& are_files_of(description_laws::placed(groups), inputs, output.resources)
            &&& codegen::cli_text(manifest) is Ok
            &&& codegen::formatted(codegen::cli_text(manifest)->Ok_0) == Ok::<
                Seq<char>,
                Seq<char>,
            >(output.cli_source)
            &&& output.commands_mod_decls == declared(group_names(groups))
            &&& output.group_mod_decls.contains_key(groups[i].name@)
            &&& output.group_mod_decls[groups[i].name@] == declared(
                resource_names(groups[i].resource@),
            )
        }),
{
    let groups = manifest.group@;
    lemma_all_files(groups, inputs);
    lemma_group_list(groups, i);
    assert(groups.map_values(|group: Group| codegen::module_decl(group.name@)) =~= group_names(
        groups,
    ).map_values(|name: Seq<char>| "pub mod "@ + rust_text::module_name(name) + ";"@));
}

/// Whether every group and every resource has names that can stand in `cli.rs`.
pub open spec fn nameable(groups: Seq<Group>) -> bool {
    forall|i: int|
        0 <= i < groups.len() ==> {
            let name = (#[trigger] groups[i]).name@;
            &&& rust_text::is_ident(rust_text::module_name(name))
            &&& rust_text::is_ident(rust_text::pascal(name) + "Command"@)
            &&& rust_text::is_ident(rust_text::pascal(name))
            &&& nameable_in(groups[i].resource@)
        }
}

/// Whether every resource has names that can stand in `cli.rs`.
pub open spec fn nameable_in(resources: Seq<Resource>) -> bool {
    forall|i: int|
        0 <= i < resources.len() ==> {
            let name = (#[trigger] resources[i]).name@;
            &&& rust_text::is_ident(rust_text::module_name(name))
            &&& rust_text::is_ident(rust_text::pascal(name))
            &&& rust_text::is_ident(rust_text::pascal(name) + "Command"@)
        }
}

proof fn lemma_resources_nameable(group: Seq<char>, resources: Seq<Resource>)
    ensures
        codegen::resource_entries(group, resources) is Ok <==> nameable_in(resources),
    decreases resources.len(),
{
    if resources.len() > 0 {
        let before = resources.drop_last();
        let last = resources.len() - 1;
        lemma_resources_nameable(group, before);
        assert(forall|i: int| 0 <= i < last ==> #[trigger] resources[i] == before[i]);
        if nameable_in(resources) {
            assert(resources[last] == resources.last());
            assert forall|i: int| 0 <= i < before.len() implies {
                let name = (#[trigger] before[i]).name@;
                &&& rust_text::is_ident(rust_text::module_name(name))
                &&& rust_text::is_ident(rust_text::pascal(name))
                &&& rust_text::is_ident(rust_text::pascal(name) + "Command"@)
            } by {
                assert(before[i] == resources[i]);
            }
        }
    }
}

proof fn lemma_groups_nameable(groups: Seq<Group>)
    ensures
        codegen::group_entries(groups) is Ok <==> nameable(groups),
    decreases groups.len(),
{
    if groups.len() > 0 {
        let before = groups.drop_last();
        let last = groups.len() - 1;
        lemma_groups_nameable(before);
        reveal(codegen::group_entry);
        lemma_resources_nameable(groups.last().name@, groups.last().resource@);
        assert(forall|i: int| 0 <= i < last ==> #[trigger] groups[i] == before[i]);
        if nameable(groups) {
            assert(groups[last] == groups.last());
            assert forall|i: int| 0 <= i < before.len() implies {
                let name = (#[trigger] before[i]).name@;
                &&& rust_text::is_ident(rust_text::module_name(name))
                &&& rust_text::is_ident(rust_text::pascal(name) + "Command"@)
                &&& rust_text::is_ident(rust_text::pascal(name))
                &&& nameable_in(before[i].resource@)
            } by {
                assert(before[i] == groups[i]);
            }
        }
    }
}

/// `cli.rs` can be written exactly where the name of every group and every resource gives
/// identifiers.
pub proof fn names_decide_the_dispatch(manifest: Manifest)
    ensures
        codegen::cli_text(manifest) is Ok <==> nameable(manifest.group@),
{
    lemma_groups_nameable(manifest.group@);
}

/// What contracts see of the generated sources is what they hold.
pub proof fn output_is_seen_as_it_is(output: GeneratedOutput, i: int, name: Seq<char>)
    ensures
        output@.resources.len() == output.resources@.len(),
        0 <= i < output.resources@.len() ==> {
            &&& output@.resources[i].group_name == output.resources@[i].group_name@
            &&& output@.resources[i].resource_name == output.resources@[i].resource_name@
            &&& output@.resources[i].source == output.resources@[i].source@
        },
        output@.group_mod_decls.contains_key(name) <==> output.group_mod_decls@.contains_key(name),
        output.group_mod_decls@.contains_key(name) ==> output@.group_mod_decls[name]
            == output.group_mod_decls@[name]@,
        output@.commands_mod_decls == output.commands_mod_decls@,
        output@.cli_source == output.cli_source@,
{
}

} // verus!
