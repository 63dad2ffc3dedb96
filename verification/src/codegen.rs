//! The sources of the generated commands: one module per resource, the module lists, and
//! the `cli.rs` that dispatches to them.
use crate::codegen_error::CodegenError;
use crate::manifest::{Group, Manifest, Resource};
use crate::rust_text;
use crate::rust_text::{
    literal_list, pascal_case, show_source, snake_name, string_literal, valid_ident,
};
use crate::schema::ExtractedOperation;
use crate::table::Table;
use crate::templates;
use crate::text;
use crate::text::{decimal_text, join};
use crate::verb_codegen;
use crate::verb_codegen::{
    append_parts, body_group_attr, generate_verbs, lists_by_project, Parts,
};
use vstd::prelude::*;
use vstd::string::*;

verus! {

pub open spec fn provision_name(resource: Seq<char>) -> Seq<char> {
    rust_text::pascal(resource) + "ProvisionArgs"@
}

pub open spec fn terminate_name(resource: Seq<char>) -> Seq<char> {
    rust_text::pascal(resource) + "TerminateArgs"@
}

/// What a marketplace order adds to the module of a resource: `provision`, which submits
/// an order and polls it, and `terminate`.
pub open spec fn order_parts(resource: Resource, order_skeletons: Map<Seq<char>, String>) -> Result<
    Parts<Seq<char>>,
    CodegenError<Seq<char>>,
> {
    let name = resource.name@;
    let about = text::lowercase(resource.about@);
    let provision = provision_name(name);
    let terminate = terminate_name(name);
    let command = verb_codegen::command_name(name);
    if resource.order is None {
        Ok(verb_codegen::no_parts())
    } else if !order_skeletons.contains_key(name) {
        Err(CodegenError::NoOrderSkeleton { resource: name })
    } else if !rust_text::is_ident(provision) {
        Err(CodegenError::NotAnIdentifier { name: provision })
    } else if !rust_text::is_ident(terminate) {
        Err(CodegenError::NotAnIdentifier { name: terminate })
    } else {
        Ok(
            Parts {
                variants: "#[doc = "@ + rust_text::literal_text(
                    "Provision "@ + about + " via a marketplace order"@,
                ) + "]\nProvision("@ + provision + "),\n#[doc = "@ + rust_text::literal_text(
                    "Terminate "@ + about + " via a marketplace order"@,
                ) + "]\nTerminate("@ + terminate + "),\n"@,
                arms: command + templates::PROVISION_ARM@ + command + templates::TERMINATE_ARM@,
                structs: "#[derive(clap::Args, Debug)]\n"@ + verb_codegen::body_group(
                    rust_text::module_name(name) + "_provision_body"@,
                ) + "pub struct "@ + provision + templates::PROVISION_FIELDS@
                    + "#[derive(clap::Args, Debug)]\npub struct "@ + terminate
                    + templates::TERMINATE_FIELDS@,
                filter_specs: ""@,
                skeletons: "const PROVISION_SKELETON: &str = "@ + rust_text::literal_text(
                    order_skeletons[name]@,
                ) + ";\n"@,
            },
        )
    }
}

fn generate_order(resource: &Resource, order_skeletons: &Table<String>) -> (result: Result<
    Parts,
    CodegenError,
>)
    ensures
        match result {
            Ok(parts) => order_parts(*resource, order_skeletons@) == Ok::<
                Parts<Seq<char>>,
                CodegenError<Seq<char>>,
            >(parts.model()),
            Err(error) => order_parts(*resource, order_skeletons@) == Err::<
                Parts<Seq<char>>,
                CodegenError<Seq<char>>,
            >(error.model()),
        },
{
    if resource.order.is_none() {
        return Ok(
            Parts {
                variants: "".to_string(),
                arms: "".to_string(),
                structs: "".to_string(),
                filter_specs: "".to_string(),
                skeletons: "".to_string(),
            },
        );
    }
    let skeleton = match order_skeletons.get(resource.name.as_str()) {
        Some(skeleton) => skeleton,
        None => {
            return Err(CodegenError::NoOrderSkeleton { resource: resource.name.clone() });
        },
    };
    let name = pascal_case(resource.name.as_str());
    let provision = name.clone().concat("ProvisionArgs");
    if !valid_ident(provision.as_str()) {
        return Err(CodegenError::NotAnIdentifier { name: provision });
    }
    let terminate = name.clone().concat("TerminateArgs");
    if !valid_ident(terminate.as_str()) {
        return Err(CodegenError::NotAnIdentifier { name: terminate });
    }
    let command = name.concat("Command");
    let about = resource.about.as_str().to_lowercase();
    let provision_about = "Provision ".to_string().concat(about.as_str()).concat(
        " via a marketplace order",
    );
    let terminate_about = "Terminate ".to_string().concat(about.as_str()).concat(
        " via a marketplace order",
    );
    let variants = "#[doc = ".to_string().concat(
        string_literal(provision_about.as_str()).as_str(),
    ).concat("]\nProvision(").concat(provision.as_str()).concat("),\n#[doc = ").concat(
        string_literal(terminate_about.as_str()).as_str(),
    ).concat("]\nTerminate(").concat(terminate.as_str()).concat("),\n");
    let arms = command.clone().concat(templates::PROVISION_ARM).concat(command.as_str()).concat(
        templates::TERMINATE_ARM,
    );
    let group = snake_name(resource.name.as_str()).concat("_provision_body");
    let structs = "#[derive(clap::Args, Debug)]\n".to_string().concat(
        body_group_attr(group.as_str()).as_str(),
    ).concat("pub struct ").concat(provision.as_str()).concat(templates::PROVISION_FIELDS).concat(
        "#[derive(clap::Args, Debug)]\npub struct ",
    ).concat(terminate.as_str()).concat(templates::TERMINATE_FIELDS);
    let skeletons = "const PROVISION_SKELETON: &str = ".to_string().concat(
        string_literal(skeleton.as_str()).as_str(),
    ).concat(";\n");
    Ok(Parts { variants, arms, structs, filter_specs: "".to_string(), skeletons })
}

/// Whether `run` uses the ambient project.
pub open spec fn uses_project(
    resource: Resource,
    operations: Map<Seq<char>, ExtractedOperation>,
) -> bool {
    verb_codegen::list_has_project(resource, operations) || resource.order is Some
}

/// Whether some command of the resource changes something, and so honours `--dry-run`.
pub open spec fn mutates(resource: Resource) -> bool {
    resource.commands@.contains_key("create"@) || resource.commands@.contains_key("update"@)
        || resource.commands@.contains_key("delete"@) || resource.order is Some
}

/// Whether some command of the resource takes a request body of its own.
pub open spec fn uses_context(resource: Resource) -> bool {
    resource.commands@.contains_key("create"@) || resource.commands@.contains_key("update"@)
}

/// The module of a resource, made of its pieces.
pub open spec fn module_source(
    resource: Resource,
    operations: Map<Seq<char>, ExtractedOperation>,
    parts: Parts<Seq<char>>,
) -> Seq<char> {
    let command = verb_codegen::command_name(resource.name@);
    let context = if uses_context(resource) {
        "use anyhow::Context;\n"@
    } else {
        ""@
    };
    let project = if uses_project(resource, operations) {
        "project: Option<&str>,\n"@
    } else {
        "_project: Option<&str>,\n"@
    };
    let dry_run = if mutates(resource) {
        "dry_run: bool,\n"@
    } else {
        "_dry_run: bool,\n"@
    };
    templates::MODULE_HEAD@ + context + "const COLUMNS: &[&str; "@ + text::decimal(
        resource.columns@.len(),
    ) + "usize] = &["@ + text::joined(
        rust_text::literal_texts(text::texts(resource.columns@)),
        ", "@,
    ) + "];\n"@ + parts.filter_specs + parts.skeletons + "#[doc = "@ + rust_text::literal_text(
        resource.about@,
    ) + "]\n#[derive(clap::Subcommand, Debug)]\npub enum "@ + command + " {\n"@ + parts.variants
        + "}\n"@ + parts.structs + templates::RUN_HEAD@ + project + dry_run + "command: "@ + command
        + templates::RUN_BODY@ + parts.arms + templates::RUN_TAIL@
}

/// The source of a resource's module, as it is before formatting: the argument structs,
/// the command enum and `run`.
pub open spec fn module_text(
    resource: Resource,
    operations: Map<Seq<char>, ExtractedOperation>,
    field_values: Map<Seq<char>, Vec<String>>,
    request_skeletons: Map<Seq<char>, String>,
    order_skeletons: Map<Seq<char>, String>,
) -> Result<Seq<char>, CodegenError<Seq<char>>> {
    let command = verb_codegen::command_name(resource.name@);
    if !rust_text::is_ident(command) {
        Err(CodegenError::NotAnIdentifier { name: command })
    } else {
        match verb_codegen::first_verbs(
            resource,
            operations,
            field_values,
            request_skeletons,
            5,
        ) {
            Err(error) => Err(error),
            Ok(verbs) => match order_parts(resource, order_skeletons) {
                Err(error) => Err(error),
                Ok(order) => Ok(
                    module_source(resource, operations, verb_codegen::both_parts(verbs, order)),
                ),
            },
        }
    }
}

/// Generates the module of one resource.
pub fn generate_resource_module(
    resource: &Resource,
    operations: &Table<ExtractedOperation>,
    field_enum_values: &Table<Vec<String>>,
    request_skeletons: &Table<String>,
    order_skeletons: &Table<String>,
) -> (result: Result<String, CodegenError>)
    ensures
        verb_codegen::agrees(
            result,
            module_text(
                *resource,
                operations@,
                field_enum_values@,
                request_skeletons@,
                order_skeletons@,
            ),
        ),
{
    let command = pascal_case(resource.name.as_str()).concat("Command");
    if !valid_ident(command.as_str()) {
        return Err(CodegenError::NotAnIdentifier { name: command });
    }
    let with_project = lists_by_project(resource, operations);
    let has_order = resource.order.is_some();
    let has_request = resource.commands.contains_key("create") || resource.commands.contains_key(
        "update",
    );
    let has_mutating_verb = has_request || resource.commands.contains_key("delete") || has_order;
    let mut parts = generate_verbs(
        resource,
        operations,
        field_enum_values,
        request_skeletons,
        with_project,
    )?;
    let order = generate_order(resource, order_skeletons)?;
    append_parts(&mut parts, &order);
    let context = if has_request {
        "use anyhow::Context;\n"
    } else {
        ""
    };
    let project = if with_project || has_order {
        "project: Option<&str>,\n"
    } else {
        "_project: Option<&str>,\n"
    };
    let dry_run = if has_mutating_verb {
        "dry_run: bool,\n"
    } else {
        "_dry_run: bool,\n"
    };
    Ok(
        templates::MODULE_HEAD.to_string().concat(context).concat("const COLUMNS: &[&str; ").concat(
            decimal_text(resource.columns.len()).as_str(),
        ).concat("usize] = &[").concat(literal_list(&resource.columns).as_str()).concat(
            "];\n",
        ).concat(parts.filter_specs.as_str()).concat(parts.skeletons.as_str()).concat(
            "#[doc = ",
        ).concat(string_literal(resource.about.as_str()).as_str()).concat(
            "]\n#[derive(clap::Subcommand, Debug)]\npub enum ",
        ).concat(command.as_str()).concat(" {\n").concat(parts.variants.as_str()).concat(
            "}\n",
        ).concat(parts.structs.as_str()).concat(templates::RUN_HEAD).concat(project).concat(
            dry_run,
        ).concat("command: ").concat(command.as_str()).concat(templates::RUN_BODY).concat(
            parts.arms.as_str(),
        ).concat(templates::RUN_TAIL),
    )
}

/// The identifier that a name is, or an error where it is none.
pub open spec fn ident(name: Seq<char>) -> Result<Seq<char>, CodegenError<Seq<char>>> {
    if rust_text::is_ident(name) {
        Ok(name)
    } else {
        Err(CodegenError::NotAnIdentifier { name })
    }
}

fn checked_ident(name: String) -> (result: Result<String, CodegenError>)
    ensures
        verb_codegen::agrees(result, ident(name@)),
{
    if valid_ident(name.as_str()) {
        Ok(name)
    } else {
        Err(CodegenError::NotAnIdentifier { name })
    }
}

/// The module identifier of a name.
pub fn snake_ident(kebab_or_snake: &str) -> (result: Result<String, CodegenError>)
    ensures
        verb_codegen::agrees(result, ident(rust_text::module_name(kebab_or_snake@))),
{
    checked_ident(snake_name(kebab_or_snake))
}

/// The variant and the dispatch arm of one resource of a group.
pub open spec fn resource_entry(group: Seq<char>, resource: Resource) -> Result<
    (Seq<char>, Seq<char>),
    CodegenError<Seq<char>>,
> {
    let name = resource.name@;
    let group_module = rust_text::module_name(group);
    match ident(rust_text::module_name(name)) {
        Err(error) => Err(error),
        Ok(module) => match ident(rust_text::pascal(name)) {
            Err(error) => Err(error),
            Ok(variant) => match ident(verb_codegen::command_name(name)) {
                Err(error) => Err(error),
                Ok(command) => Ok(
                    (
                        "#[doc = "@ + rust_text::literal_text(resource.about@)
                            + "]\n#[command(subcommand)]\n"@ + variant + "(crate::commands::"@
                            + group_module + "::"@ + module + "::"@ + command + ",),\n"@,
                        verb_codegen::command_name(group) + "::"@ + variant
                            + "(cmd) => {\ncrate::commands::"@ + group_module + "::"@ + module
                            + templates::RUN_RESOURCE@,
                    ),
                ),
            },
        },
    }
}

/// The variants and the dispatch arms of the resources of a group, or the first failure.
pub open spec fn resource_entries(group: Seq<char>, resources: Seq<Resource>) -> Result<
    (Seq<char>, Seq<char>),
    CodegenError<Seq<char>>,
>
    decreases resources.len(),
{
    if resources.len() == 0 {
        Ok((""@, ""@))
    } else {
        match resource_entries(group, resources.drop_last()) {
            Err(error) => Err(error),
            Ok((variants, arms)) => match resource_entry(group, resources.last()) {
                Err(error) => Err(error),
                Ok((variant, arm)) => Ok((variants + variant, arms + arm)),
            },
        }
    }
}

proof fn lemma_resource_failure_stays(group: Seq<char>, resources: Seq<Resource>, i: int)
    requires
        0 <= i <= resources.len(),
        resource_entries(group, resources.take(i)) is Err,
    ensures
        resource_entries(group, resources) == resource_entries(group, resources.take(i)),
    decreases resources.len() - i,
{
    if i < resources.len() {
        assert(resources.take(i + 1).drop_last() =~= resources.take(i));
        lemma_resource_failure_stays(group, resources, i + 1);
    } else {
        assert(resources.take(i) =~= resources);
    }
}

fn generate_resource_entry(group: &str, resource: &Resource) -> (result: Result<
    (String, String),
    CodegenError,
>)
    ensures
        match result {
            Ok((variant, arm)) => resource_entry(group@, *resource) == Ok::<
                (Seq<char>, Seq<char>),
                CodegenError<Seq<char>>,
            >((variant@, arm@)),
            Err(error) => resource_entry(group@, *resource) == Err::<
                (Seq<char>, Seq<char>),
                CodegenError<Seq<char>>,
            >(error.model()),
        },
{
    let module = snake_ident(resource.name.as_str())?;
    let name = pascal_case(resource.name.as_str());
    let variant = checked_ident(name.clone())?;
    let command = checked_ident(name.concat("Command"))?;
    let group_module = snake_name(group);
    let group_command = pascal_case(group).concat("Command");
    let variants = "#[doc = ".to_string().concat(
        string_literal(resource.about.as_str()).as_str(),
    ).concat("]\n#[command(subcommand)]\n").concat(variant.as_str()).concat(
        "(crate::commands::",
    ).concat(group_module.as_str()).concat("::").concat(module.as_str()).concat("::").concat(
        command.as_str(),
    ).concat(",),\n");
    let arms = group_command.concat("::").concat(variant.as_str()).concat(
        "(cmd) => {\ncrate::commands::",
    ).concat(group_module.as_str()).concat("::").concat(module.as_str()).concat(
        templates::RUN_RESOURCE,
    );
    Ok((variants, arms))
}

fn generate_resource_entries(group: &Group) -> (result: Result<(String, String), CodegenError>)
    ensures
        match result {
            Ok((variants, arms)) => resource_entries(group.name@, group.resource@) == Ok::<
                (Seq<char>, Seq<char>),
                CodegenError<Seq<char>>,
            >((variants@, arms@)),
            Err(error) => resource_entries(group.name@, group.resource@) == Err::<
                (Seq<char>, Seq<char>),
                CodegenError<Seq<char>>,
            >(error.model()),
        },
{
    let ghost resources = group.resource@;
    let mut variants = "".to_string();
    let mut arms = "".to_string();
    for i in 0..group.resource.len()
        invariant
            resources == group.resource@,
            resource_entries(group.name@, resources.take(i as int)) == Ok::<
                (Seq<char>, Seq<char>),
                CodegenError<Seq<char>>,
            >((variants@, arms@)),
    {
        proof {
            assert(resources.take(i + 1).drop_last() =~= resources.take(i as int));
        }
        match generate_resource_entry(group.name.as_str(), &group.resource[i]) {
            Ok((variant, arm)) => {
                variants.append(variant.as_str());
                arms.append(arm.as_str());
            },
            Err(error) => {
                proof {
                    lemma_resource_failure_stays(group.name@, resources, i + 1);
                }
                return Err(error);
            },
        }
    }
    assert(resources.take(resources.len() as int) =~= resources);
    Ok((variants, arms))
}

/// What groups add to `cli.rs`.
pub struct CliParts<S = String> {
    /// Variants of the top-level command enum.
    pub variants: S,
    /// The command enums of the groups.
    pub enums: S,
    /// Arms of `dispatch`.
    pub arms: S,
}

impl CliParts<String> {
    pub open spec fn model(self) -> CliParts<Seq<char>> {
        CliParts { variants: self.variants@, enums: self.enums@, arms: self.arms@ }
    }
}

/// What one group adds to `cli.rs`.
#[verifier::opaque]
pub open spec fn group_entry(group: Group) -> Result<CliParts<Seq<char>>, CodegenError<Seq<char>>> {
    let name = group.name@;
    let doc = "#[doc = "@ + rust_text::literal_text(group.about@) + "]\n"@;
    match ident(rust_text::module_name(name)) {
        Err(error) => Err(error),
        Ok(_) => match ident(verb_codegen::command_name(name)) {
            Err(error) => Err(error),
            Ok(command) => match ident(rust_text::pascal(name)) {
                Err(error) => Err(error),
                Ok(variant) => match resource_entries(name, group.resource@) {
                    Err(error) => Err(error),
                    Ok((variants, arms)) => Ok(
                        CliParts {
                            variants: doc + "#[command(subcommand)]\n"@ + variant + "("@ + command
                                + ",),\n"@,
                            enums: doc + "#[derive(clap::Subcommand, Debug)]\npub enum "@ + command
                                + " {\n"@ + variants + "}\n"@,
                            arms: "GroupCommand::"@ + variant + "(cmd) => match cmd {\n"@ + arms
                                + "}\n"@,
                        },
                    ),
                },
            },
        },
    }
}

fn generate_group_entry(group: &Group) -> (result: Result<CliParts, CodegenError>)
    ensures
        match result {
            Ok(parts) => group_entry(*group) == Ok::<CliParts<Seq<char>>, CodegenError<Seq<char>>>(
                parts.model(),
            ),
            Err(error) => group_entry(*group) == Err::<
                CliParts<Seq<char>>,
                CodegenError<Seq<char>>,
            >(error.model()),
        },
{
    reveal(group_entry);
    let _module = snake_ident(group.name.as_str())?;
    let name = pascal_case(group.name.as_str());
    let command = checked_ident(name.clone().concat("Command"))?;
    let variant = checked_ident(name)?;
    let (variants, arms) = generate_resource_entries(group)?;
    let doc = "#[doc = ".to_string().concat(string_literal(group.about.as_str()).as_str()).concat(
        "]\n",
    );
    Ok(
        CliParts {
            variants: doc.clone().concat("#[command(subcommand)]\n").concat(
                variant.as_str(),
            ).concat("(").concat(command.as_str()).concat(",),\n"),
            enums: doc.concat("#[derive(clap::Subcommand, Debug)]\npub enum ").concat(
                command.as_str(),
            ).concat(" {\n").concat(variants.as_str()).concat("}\n"),
            arms: "GroupCommand::".to_string().concat(variant.as_str()).concat(
                "(cmd) => match cmd {\n",
            ).concat(arms.as_str()).concat("}\n"),
        },
    )
}

/// What groups add to `cli.rs`, one after the other, or the first failure.
pub open spec fn group_entries(groups: Seq<Group>) -> Result<
    CliParts<Seq<char>>,
    CodegenError<Seq<char>>,
>
    decreases groups.len(),
{
    if groups.len() == 0 {
        Ok(CliParts { variants: ""@, enums: ""@, arms: ""@ })
    } else {
        match group_entries(groups.drop_last()) {
            Err(error) => Err(error),
            Ok(before) => match group_entry(groups.last()) {
                Err(error) => Err(error),
                Ok(parts) => Ok(
                    CliParts {
                        variants: before.variants + parts.variants,
                        enums: before.enums + parts.enums,
                        arms: before.arms + parts.arms,
                    },
                ),
            },
        }
    }
}

proof fn lemma_group_failure_stays(groups: Seq<Group>, i: int)
    requires
        0 <= i <= groups.len(),
        group_entries(groups.take(i)) is Err,
    ensures
        group_entries(groups) == group_entries(groups.take(i)),
    decreases groups.len() - i,
{
    if i < groups.len() {
        assert(groups.take(i + 1).drop_last() =~= groups.take(i));
        lemma_group_failure_stays(groups, i + 1);
    } else {
        assert(groups.take(i) =~= groups);
    }
}

/// The source of `cli.rs`, as it is before formatting.
pub open spec fn cli_text(manifest: Manifest) -> Result<Seq<char>, CodegenError<Seq<char>>> {
    match group_entries(manifest.group@) {
        Err(error) => Err(error),
        Ok(parts) => Ok(
            templates::CLI_HEAD@ + parts.variants + "}\n"@ + parts.enums
                + templates::DISPATCH_HEAD@ + parts.arms + "}\n}\n"@,
        ),
    }
}

fn generate_cli_text(manifest: &Manifest) -> (result: Result<String, CodegenError>)
    ensures
        verb_codegen::agrees(result, cli_text(*manifest)),
{
    let ghost groups = manifest.group@;
    let mut parts = CliParts {
        variants: "".to_string(),
        enums: "".to_string(),
        arms: "".to_string(),
    };
    for i in 0..manifest.group.len()
        invariant
            groups == manifest.group@,
            group_entries(groups.take(i as int)) == Ok::<
                CliParts<Seq<char>>,
                CodegenError<Seq<char>>,
            >(parts.model()),
    {
        proof {
            assert(groups.take(i + 1).drop_last() =~= groups.take(i as int));
        }
        match generate_group_entry(&manifest.group[i]) {
            Ok(more) => {
                parts.variants.append(more.variants.as_str());
                parts.enums.append(more.enums.as_str());
                parts.arms.append(more.arms.as_str());
            },
            Err(error) => {
                proof {
                    lemma_group_failure_stays(groups, i + 1);
                }
                return Err(error);
            },
        }
    }
    assert(groups.take(groups.len() as int) =~= groups);
    Ok(
        templates::CLI_HEAD.to_string().concat(parts.variants.as_str()).concat("}\n").concat(
            parts.enums.as_str(),
        ).concat(templates::DISPATCH_HEAD).concat(parts.arms.as_str()).concat("}\n}\n"),
    )
}

/// Whether a text is the source of some resource's module, as this library writes it.
pub open spec fn is_module_text(source: Seq<char>) -> bool {
    exists|
        resource: Resource,
        operations: Map<Seq<char>, ExtractedOperation>,
        field_values: Map<Seq<char>, Vec<String>>,
        request_skeletons: Map<Seq<char>, String>,
        order_skeletons: Map<Seq<char>, String>,
    | #[trigger]
        module_text(resource, operations, field_values, request_skeletons, order_skeletons) == Ok::<
            Seq<char>,
            CodegenError<Seq<char>>,
        >(source)
}

/// Whether a text is the source of some `cli.rs`, as this library writes it.
pub open spec fn is_cli_text(source: Seq<char>) -> bool {
    exists|manifest: Manifest| #[trigger]
        cli_text(manifest) == Ok::<Seq<char>, CodegenError<Seq<char>>>(source)
}

/// A Rust source file as `prettyplease` lays it out; else what `syn` says is wrong.
pub uninterp spec fn formatted(source: Seq<char>) -> Result<Seq<char>, Seq<char>>;

/// `syn::parse_str` into a `syn::File`, and `prettyplease::unparse` of the file; else the
/// words of the parser's error. The result depends on the text alone. The printer stops
/// only at syntax that `syn` keeps as bare tokens and at ill-formed rules of a macro. The
/// sources that this library writes have neither: what varies in them are literals,
/// identifiers, and types whose trees were searched for both.
#[verifier::external_body]
fn format_source(source: &str) -> (result: Result<String, String>)
    requires
        is_module_text(source@) || is_cli_text(source@),
    ensures
        match result {
            Ok(printed) => formatted(source@) == Ok::<Seq<char>, Seq<char>>(printed@),
            Err(reason) => formatted(source@) == Err::<Seq<char>, Seq<char>>(reason@),
        },
{
    match syn::parse_str::<syn::File>(source) {
        Ok(file) => Ok(prettyplease::unparse(&file)),
        Err(error) => Err(error.to_string()),
    }
}

/// The contents of `src/cli.rs`.
pub open spec fn cli_file(manifest: Manifest) -> Result<Seq<char>, CodegenError<Seq<char>>> {
    match cli_text(manifest) {
        Err(error) => Err(error),
        Ok(source) => match formatted(source) {
            Ok(printed) => Ok(printed),
            Err(reason) => Err(
                CodegenError::InvalidCliSource {
                    tokens: rust_text::shown_source(source),
                    reason,
                },
            ),
        },
    }
}

/// Generates `src/cli.rs`: the command enums of the groups, and the dispatch to the
/// modules of their resources.
pub fn generate_cli_file(manifest: &Manifest) -> (result: Result<String, CodegenError>)
    ensures
        verb_codegen::agrees(result, cli_file(*manifest)),
{
    let source = generate_cli_text(manifest)?;
    assert(cli_text(*manifest) == Ok::<Seq<char>, CodegenError<Seq<char>>>(source@));
    match format_source(source.as_str()) {
        Ok(printed) => Ok(printed),
        Err(reason) => Err(
            CodegenError::InvalidCliSource { tokens: show_source(source.as_str()), reason },
        ),
    }
}

/// The generated module of one resource.
#[derive(Debug)]
pub struct GeneratedResource {
    pub group_name: String,
    pub resource_name: String,
    pub source: String,
}

/// Everything that the generator produces, ready to be written to disk.
#[derive(Debug)]
pub struct GeneratedOutput {
    /// One entry per manifest resource: its `src/commands/<group>/<resource>.rs`.
    pub resources: Vec<GeneratedResource>,
    /// The contents of `src/commands/<group>/mod.rs`, by group.
    pub group_mod_decls: Table<String>,
    /// The contents of `src/commands/mod.rs`.
    pub commands_mod_decls: String,
    /// The contents of `src/cli.rs`.
    pub cli_source: String,
}

/// A `GeneratedResource` as contracts see it.
#[verifier::ext_equal]
pub struct ResourceFile {
    pub group_name: Seq<char>,
    pub resource_name: Seq<char>,
    pub source: Seq<char>,
}

/// A `GeneratedOutput` as contracts see it.
#[verifier::ext_equal]
pub struct OutputFiles {
    pub resources: Seq<ResourceFile>,
    pub group_mod_decls: Map<Seq<char>, Seq<char>>,
    pub commands_mod_decls: Seq<char>,
    pub cli_source: Seq<char>,
}

impl View for GeneratedResource {
    type V = ResourceFile;

    open spec fn view(&self) -> ResourceFile {
        ResourceFile {
            group_name: self.group_name@,
            resource_name: self.resource_name@,
            source: self.source@,
        }
    }
}

pub open spec fn resource_files(resources: Seq<GeneratedResource>) -> Seq<ResourceFile> {
    resources.map_values(|resource: GeneratedResource| resource@)
}

/// The texts of a map.
pub open spec fn text_map(map: Map<Seq<char>, String>) -> Map<Seq<char>, Seq<char>> {
    map.map_values(|value: String| value@)
}

impl View for GeneratedOutput {
    type V = OutputFiles;

    open spec fn view(&self) -> OutputFiles {
        OutputFiles {
            resources: resource_files(self.resources@),
            group_mod_decls: text_map(self.group_mod_decls@),
            commands_mod_decls: self.commands_mod_decls@,
            cli_source: self.cli_source@,
        }
    }
}

/// Everything that generation reads besides the manifest.
pub struct Inputs {
    pub operations: Map<Seq<char>, ExtractedOperation>,
    pub field_values: Map<Seq<char>, Vec<String>>,
    pub request_skeletons: Map<Seq<char>, String>,
    pub order_skeletons: Map<Seq<char>, String>,
}

/// The generated module of a resource.
#[verifier::opaque]
pub open spec fn resource_file(group: Seq<char>, resource: Resource, inputs: Inputs) -> Result<
    ResourceFile,
    CodegenError<Seq<char>>,
> {
    let name = resource.name@;
    match module_text(
        resource,
        inputs.operations,
        inputs.field_values,
        inputs.request_skeletons,
        inputs.order_skeletons,
    ) {
        Err(error) => Err(
            CodegenError::InResource { group, resource: name, cause: Box::new(error) },
        ),
        Ok(source) => match formatted(source) {
            Err(reason) => Err(
                CodegenError::InvalidResourceSource {
                    group,
                    resource: name,
                    tokens: rust_text::shown_source(source),
                    reason,
                },
            ),
            Ok(printed) => match ident(rust_text::module_name(name)) {
                Err(error) => Err(error),
                Ok(_) => Ok(
                    ResourceFile { group_name: group, resource_name: name, source: printed },
                ),
            },
        },
    }
}

/// The generated modules of the resources of a group, one after the other, or the first
/// failure.
pub open spec fn group_files(group: Seq<char>, resources: Seq<Resource>, inputs: Inputs) -> Result<
    Seq<ResourceFile>,
    CodegenError<Seq<char>>,
>
    decreases resources.len(),
{
    if resources.len() == 0 {
        Ok(Seq::empty())
    } else {
        match group_files(group, resources.drop_last(), inputs) {
            Err(error) => Err(error),
            Ok(before) => match resource_file(group, resources.last(), inputs) {
                Err(error) => Err(error),
                Ok(file) => Ok(before.push(file)),
            },
        }
    }
}

/// The generated modules of all groups, one after the other, or the first failure.
pub open spec fn all_files(groups: Seq<Group>, inputs: Inputs) -> Result<
    Seq<ResourceFile>,
    CodegenError<Seq<char>>,
>
    decreases groups.len(),
{
    if groups.len() == 0 {
        Ok(Seq::empty())
    } else {
        match all_files(groups.drop_last(), inputs) {
            Err(error) => Err(error),
            Ok(before) => match group_files(groups.last().name@, groups.last().resource@, inputs) {
                Err(error) => Err(error),
                Ok(files) => Ok(before + files),
            },
        }
    }
}

/// A module declaration.
pub open spec fn module_decl(name: Seq<char>) -> Seq<char> {
    "pub mod "@ + rust_text::module_name(name) + ";"@
}

/// The module list of a group: its resources in manifest order.
pub open spec fn group_decls(group: Group) -> Seq<char> {
    text::joined(
        group.resource@.map_values(|resource: Resource| module_decl(resource.name@)),
        "\n"@,
    )
}

/// The module lists of groups by name; where a name repeats, the last group's.
pub open spec fn all_group_decls(groups: Seq<Group>) -> Map<Seq<char>, Seq<char>>
    decreases groups.len(),
{
    if groups.len() == 0 {
        Map::empty()
    } else {
        all_group_decls(groups.drop_last()).insert(
            groups.last().name@,
            group_decls(groups.last()),
        )
    }
}

/// The module list of the groups in manifest order, or the first failure.
pub open spec fn commands_decls(groups: Seq<Group>) -> Result<Seq<char>, CodegenError<Seq<char>>> {
    match first_bad_group(groups) {
        Some(name) => Err(CodegenError::NotAnIdentifier { name }),
        None => Ok(
            text::joined(groups.map_values(|group: Group| module_decl(group.name@)), "\n"@),
        ),
    }
}

/// The first group whose module name is no identifier.
pub open spec fn first_bad_group(groups: Seq<Group>) -> Option<Seq<char>>
    decreases groups.len(),
{
    if groups.len() == 0 {
        None
    } else if first_bad_group(groups.drop_last()) is Some {
        first_bad_group(groups.drop_last())
    } else if rust_text::is_ident(rust_text::module_name(groups.last().name@)) {
        None
    } else {
        Some(rust_text::module_name(groups.last().name@))
    }
}

/// Everything that is generated from a manifest.
pub open spec fn all_output(manifest: Manifest, inputs: Inputs) -> Result<
    OutputFiles,
    CodegenError<Seq<char>>,
> {
    match all_files(manifest.group@, inputs) {
        Err(error) => Err(error),
        Ok(resources) => match commands_decls(manifest.group@) {
            Err(error) => Err(error),
            Ok(commands_mod_decls) => match cli_file(manifest) {
                Err(error) => Err(error),
                Ok(cli_source) => Ok(
                    OutputFiles {
                        resources,
                        group_mod_decls: all_group_decls(manifest.group@),
                        commands_mod_decls,
                        cli_source,
                    },
                ),
            },
        },
    }
}

proof fn lemma_group_files_step(
    group: Seq<char>,
    resources: Seq<Resource>,
    inputs: Inputs,
    i: int,
)
    requires
        0 <= i < resources.len(),
        group_files(group, resources.take(i), inputs) is Ok,
    ensures
        match resource_file(group, resources[i], inputs) {
            Ok(file) => group_files(group, resources.take(i + 1), inputs) == Ok::<
                Seq<ResourceFile>,
                CodegenError<Seq<char>>,
            >(group_files(group, resources.take(i), inputs)->Ok_0.push(file)),
            Err(error) => group_files(group, resources, inputs) == Err::<
                Seq<ResourceFile>,
                CodegenError<Seq<char>>,
            >(error),
        },
{
    assert(resources.take(i + 1).drop_last() =~= resources.take(i));
    assert(resources.take(i + 1).last() == resources[i]);
    if resource_file(group, resources[i], inputs) is Err {
        lemma_group_files_failure_stays(group, resources, inputs, i + 1);
    }
}

proof fn lemma_group_files_failure_stays(
    group: Seq<char>,
    resources: Seq<Resource>,
    inputs: Inputs,
    i: int,
)
    requires
        0 <= i <= resources.len(),
        group_files(group, resources.take(i), inputs) is Err,
    ensures
        group_files(group, resources, inputs) == group_files(group, resources.take(i), inputs),
    decreases resources.len() - i,
{
    if i < resources.len() {
        assert(resources.take(i + 1).drop_last() =~= resources.take(i));
        lemma_group_files_failure_stays(group, resources, inputs, i + 1);
    } else {
        assert(resources.take(i) =~= resources);
    }
}

proof fn lemma_all_files_failure_stays(groups: Seq<Group>, inputs: Inputs, i: int)
    requires
        0 <= i <= groups.len(),
        all_files(groups.take(i), inputs) is Err,
    ensures
        all_files(groups, inputs) == all_files(groups.take(i), inputs),
    decreases groups.len() - i,
{
    if i < groups.len() {
        assert(groups.take(i + 1).drop_last() =~= groups.take(i));
        lemma_all_files_failure_stays(groups, inputs, i + 1);
    } else {
        assert(groups.take(i) =~= groups);
    }
}

proof fn lemma_bad_group_stays(groups: Seq<Group>, i: int)
    requires
        0 <= i <= groups.len(),
        first_bad_group(groups.take(i)) is Some,
    ensures
        first_bad_group(groups) == first_bad_group(groups.take(i)),
    decreases groups.len() - i,
{
    if i < groups.len() {
        assert(groups.take(i + 1).drop_last() =~= groups.take(i));
        lemma_bad_group_stays(groups, i + 1);
    } else {
        assert(groups.take(i) =~= groups);
    }
}

/// What the tables hold, for contracts.
pub open spec fn inputs_of(
    operations: Table<ExtractedOperation>,
    field_enum_values: Table<Vec<String>>,
    request_skeletons: Table<String>,
    order_skeletons: Table<String>,
) -> Inputs {
    Inputs {
        operations: operations@,
        field_values: field_enum_values@,
        request_skeletons: request_skeletons@,
        order_skeletons: order_skeletons@,
    }
}

/// Generates and formats the module of one resource.
fn generate_resource_file(
    group: &str,
    resource: &Resource,
    operations: &Table<ExtractedOperation>,
    field_enum_values: &Table<Vec<String>>,
    request_skeletons: &Table<String>,
    order_skeletons: &Table<String>,
) -> (result: Result<GeneratedResource, CodegenError>)
    ensures
        match result {
            Ok(file) => resource_file(
                group@,
                *resource,
                inputs_of(
                    *operations,
                    *field_enum_values,
                    *request_skeletons,
                    *order_skeletons,
                ),
            ) == Ok::<ResourceFile, CodegenError<Seq<char>>>(file@),
            Err(error) => resource_file(
                group@,
                *resource,
                inputs_of(
                    *operations,
                    *field_enum_values,
                    *request_skeletons,
                    *order_skeletons,
                ),
            ) == Err::<ResourceFile, CodegenError<Seq<char>>>(error.model()),
        },
{
    reveal(resource_file);
    let source = match generate_resource_module(
        resource,
        operations,
        field_enum_values,
        request_skeletons,
        order_skeletons,
    ) {
        Ok(source) => source,
        Err(cause) => {
            return Err(
                CodegenError::InResource {
                    group: group.to_string(),
                    resource: resource.name.clone(),
                    cause: Box::new(cause),
                },
            );
        },
    };
    assert(module_text(
        *resource,
        operations@,
        field_enum_values@,
        request_skeletons@,
        order_skeletons@,
    ) == Ok::<Seq<char>, CodegenError<Seq<char>>>(source@));
    let printed = match format_source(source.as_str()) {
        Ok(printed) => printed,
        Err(reason) => {
            return Err(
                CodegenError::InvalidResourceSource {
                    group: group.to_string(),
                    resource: resource.name.clone(),
                    tokens: show_source(source.as_str()),
                    reason,
                },
            );
        },
    };
    let _module = snake_ident(resource.name.as_str())?;
    Ok(
        GeneratedResource {
            group_name: group.to_string(),
            resource_name: resource.name.clone(),
            source: printed,
        },
    )
}

/// A list of module declarations, for the names of resources.
fn group_decl_text(group: &Group) -> (decls: String)
    ensures
        decls@ == group_decls(*group),
{
    let mut decls: Vec<String> = Vec::new();
    for i in 0..group.resource.len()
        invariant
            decls@.len() == i,
            forall|j: int|
                0 <= j < i ==> (#[trigger] decls@[j])@ == module_decl(group.resource@[j].name@),
    {
        decls.push(
            "pub mod ".to_string().concat(
                snake_name(group.resource[i].name.as_str()).as_str(),
            ).concat(";"),
        );
    }
    assert(text::texts(decls@) =~= group.resource@.map_values(
        |resource: Resource| module_decl(resource.name@),
    ));
    join(&decls, "\n")
}

/// Generates the modules of the resources of a group, behind those that there are.
fn generate_group_files(
    group: &Group,
    operations: &Table<ExtractedOperation>,
    field_enum_values: &Table<Vec<String>>,
    request_skeletons: &Table<String>,
    order_skeletons: &Table<String>,
    files: &mut Vec<GeneratedResource>,
) -> (result: Result<(), CodegenError>)
    ensures
        ({
            let inputs = inputs_of(
                *operations,
                *field_enum_values,
                *request_skeletons,
                *order_skeletons,
            );
            let made = group_files(group.name@, group.resource@, inputs);
            match result {
                Ok(()) => made is Ok && resource_files(final(files)@) == resource_files(
                    old(files)@,
                ) + made->Ok_0,
                Err(error) => made == Err::<Seq<ResourceFile>, CodegenError<Seq<char>>>(
                    error.model(),
                ),
            }
        }),
{
    let ghost inputs = inputs_of(
        *operations,
        *field_enum_values,
        *request_skeletons,
        *order_skeletons,
    );
    let ghost resources = group.resource@;
    let ghost start = resource_files(files@);
    assert(resource_files(files@) =~= start + Seq::<ResourceFile>::empty());
    for i in 0..group.resource.len()
        invariant
            inputs == inputs_of(
                *operations,
                *field_enum_values,
                *request_skeletons,
                *order_skeletons,
            ),
            resources == group.resource@,
            start == resource_files(old(files)@),
            group_files(group.name@, resources.take(i as int), inputs) is Ok,
            resource_files(files@) == start + group_files(
                group.name@,
                resources.take(i as int),
                inputs,
            )->Ok_0,
    {
        proof {
            lemma_group_files_step(group.name@, resources, inputs, i as int);
        }
        match generate_resource_file(
            group.name.as_str(),
            &group.resource[i],
            operations,
            field_enum_values,
            request_skeletons,
            order_skeletons,
        ) {
            Ok(file) => {
                let ghost before = resource_files(files@);
                files.push(file);
                assert(resource_files(files@) =~= before.push(file@));
                assert(resource_files(files@) =~= start + group_files(
                    group.name@,
                    resources.take(i + 1),
                    inputs,
                )->Ok_0);
            },
            Err(error) => {
                return Err(error);
            },
        }
    }
    assert(resources.take(resources.len() as int) =~= resources);
    Ok(())
}

/// The module list of the groups.
fn commands_decl_text(manifest: &Manifest) -> (result: Result<String, CodegenError>)
    ensures
        verb_codegen::agrees(result, commands_decls(manifest.group@)),
{
    let ghost groups = manifest.group@;
    let mut decls: Vec<String> = Vec::new();
    for i in 0..manifest.group.len()
        invariant
            groups == manifest.group@,
            first_bad_group(groups.take(i as int)) is None,
            decls@.len() == i,
            forall|j: int| 0 <= j < i ==> (#[trigger] decls@[j])@ == module_decl(groups[j].name@),
    {
        proof {
            assert(groups.take(i + 1).drop_last() =~= groups.take(i as int));
        }
        match snake_ident(manifest.group[i].name.as_str()) {
            Ok(module) => {
                decls.push("pub mod ".to_string().concat(module.as_str()).concat(";"));
            },
            Err(error) => {
                proof {
                    lemma_bad_group_stays(groups, i + 1);
                }
                return Err(error);
            },
        }
    }
    assert(groups.take(groups.len() as int) =~= groups);
    assert(text::texts(decls@) =~= groups.map_values(|group: Group| module_decl(group.name@)));
    Ok(join(&decls, "\n"))
}

/// Generates all sources of a manifest.
pub fn generate_all(
    manifest: &Manifest,
    operations: &Table<ExtractedOperation>,
    field_enum_values: &Table<Vec<String>>,
    request_skeletons: &Table<String>,
    order_skeletons: &Table<String>,
) -> (result: Result<GeneratedOutput, CodegenError>)
    ensures
        ({
            let made = all_output(
                *manifest,
                inputs_of(
                    *operations,
                    *field_enum_values,
                    *request_skeletons,
                    *order_skeletons,
                ),
            );
            match result {
                Ok(output) => made == Ok::<OutputFiles, CodegenError<Seq<char>>>(output@),
                Err(error) => made == Err::<OutputFiles, CodegenError<Seq<char>>>(error.model()),
            }
        }),
{
    let ghost inputs = inputs_of(
        *operations,
        *field_enum_values,
        *request_skeletons,
        *order_skeletons,
    );
    let ghost groups = manifest.group@;
    let mut resources: Vec<GeneratedResource> = Vec::new();
    let mut group_mod_decls: Table<String> = Table::new();
    proof {
        assert(resource_files(resources@) =~= Seq::<ResourceFile>::empty());
        assert(text_map(group_mod_decls@) =~= all_group_decls(groups.take(0)));
    }
    for i in 0..manifest.group.len()
        invariant
            inputs == inputs_of(
                *operations,
                *field_enum_values,
                *request_skeletons,
                *order_skeletons,
            ),
            groups == manifest.group@,
            all_files(groups.take(i as int), inputs) == Ok::<
                Seq<ResourceFile>,
                CodegenError<Seq<char>>,
            >(resource_files(resources@)),
            text_map(group_mod_decls@) == all_group_decls(groups.take(i as int)),
    {
        let group = &manifest.group[i];
        proof {
            assert(groups.take(i + 1).drop_last() =~= groups.take(i as int));
        }
        match generate_group_files(
            group,
            operations,
            field_enum_values,
            request_skeletons,
            order_skeletons,
            &mut resources,
        ) {
            Ok(()) => {},
            Err(error) => {
                proof {
                    lemma_all_files_failure_stays(groups, inputs, i + 1);
                }
                return Err(error);
            },
        }
        let decls = group_decl_text(group);
        let ghost before = group_mod_decls@;
        group_mod_decls.insert(group.name.clone(), decls);
        assert(text_map(group_mod_decls@) =~= text_map(before).insert(group.name@, decls@));
    }
    assert(groups.take(groups.len() as int) =~= groups);
    let commands_mod_decls = commands_decl_text(manifest)?;
    let cli_source = generate_cli_file(manifest)?;
    Ok(GeneratedOutput { resources, group_mod_decls, commands_mod_decls, cli_source })
}

} // verus!
