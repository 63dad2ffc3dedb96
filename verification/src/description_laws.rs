//! What the command schema says of every command: where it is, what it asks of the API,
//! and what it takes.
use crate::codegen::Inputs;
use crate::command_laws;
use crate::error::NotExtracted;
use crate::json::Json;
use crate::manifest;
use crate::manifest::{Group, Manifest, Resource};
use crate::schema;
use crate::schema::{ExtractedOperation, Operation, Param, ParamKind};
use crate::schema_codegen;
use crate::text;
use vstd::prelude::*;

verus! {

/// A list of texts.
pub open spec fn texts_json(values: Seq<Seq<char>>) -> Json {
    Json::Array(values.map_values(|value: Seq<char>| Json::Str(value)))
}

/// An object with these three members.
pub open spec fn described(name: Seq<char>, kind: Seq<char>, description: Seq<char>) -> Map<
    Seq<char>,
    Json,
> {
    Map::<Seq<char>, Json>::empty().insert("name"@, Json::Str(name)).insert(
        "type"@,
        Json::Str(kind),
    ).insert("description"@, Json::Str(description))
}

/// A flag.
pub open spec fn flag(name: Seq<char>, kind: Seq<char>, description: Seq<char>) -> Json {
    Json::Object(described(name, kind, description))
}

/// A flag that takes one of a list of values.
pub open spec fn choice(
    name: Seq<char>,
    kind: Seq<char>,
    description: Seq<char>,
    values: Seq<Seq<char>>,
) -> Json {
    Json::Object(described(name, kind, description).insert("valid_values"@, texts_json(values)))
}

/// A positional argument.
pub open spec fn argument(name: Seq<char>, required: bool, description: Seq<char>) -> Map<
    Seq<char>,
    Json,
> {
    described(name, "string"@, description).insert("positional"@, Json::Bool(true)).insert(
        "required"@,
        Json::Bool(required),
    )
}

/// The output format, which every generated command takes.
pub open spec fn format_choice() -> Json {
    Json::Object(
        described("--format"@, "string"@, "Output format"@).insert(
            "valid_values"@,
            texts_json(seq!["table"@, "json"@, "tsv"@, "toon"@, "ndjson"@]),
        ).insert("global"@, Json::Bool(true)),
    )
}

/// The type of the values of a filter, in words.
pub open spec fn value_type(kind: ParamKind, words: Seq<char>) -> bool {
    match kind {
        ParamKind::RequiredStr | ParamKind::OptionalStr => words == "string"@,
        ParamKind::RequiredBool | ParamKind::OptionalBool => words == "boolean"@,
        ParamKind::RequiredI64 | ParamKind::OptionalI64 => words == "integer"@,
        ParamKind::SkippedOptional | ParamKind::SkippedRequired => false,
    }
}

/// Whether a filter key is described by its name and the type of its values.
pub open spec fn is_key(param: Param, key: Json) -> bool {
    exists|words: Seq<char>|
        #![trigger value_type(param.kind, words)]
        value_type(param.kind, words) && key == Json::Object(
            Map::<Seq<char>, Json>::empty().insert("key"@, Json::Str(param.name)).insert(
                "type"@,
                Json::Str(words),
            ),
        )
}

/// Whether there is one key for every parameter, in their order.
pub open spec fn are_keys(params: Seq<Param>, keys: Seq<Json>) -> bool {
    &&& keys.len() == params.len()
    &&& forall|i: int| 0 <= i < keys.len() ==> is_key(params[i], #[trigger] keys[i])
}

/// Whether `--filter` is described by exactly the filters that an operation has, and left
/// out where it has none.
pub open spec fn is_filter_flag(op: Operation, flags: Seq<Json>) -> bool {
    let params = command_laws::usable(op.query_params);
    if params.len() == 0 {
        flags.len() == 0
    } else {
        exists|keys: Seq<Json>|
            #![trigger are_keys(params, keys)]
            {
                &&& are_keys(params, keys)
                &&& flags == seq![
                    Json::Object(
                        described("--filter"@, "KEY=VALUE"@, "Server-side filter"@).insert(
                            "repeatable"@,
                            Json::Bool(true),
                        ).insert("valid_keys"@, Json::Array(keys)),
                    ),
                ]
            }
    }
}

/// `--fields`, with the valid names where they are known.
pub open spec fn fields_choice(op: Operation, inputs: Inputs) -> Json {
    let members = described(
        "--fields"@,
        "string"@,
        "Fetch only these fields from the API"@,
    ).insert("repeatable"@, Json::Bool(true));
    if op.field_enum_name is Some && inputs.field_values.contains_key(op.field_enum_name->0) {
        Json::Object(
            members.insert(
                "valid_values"@,
                texts_json(text::texts(inputs.field_values[op.field_enum_name->0]@)),
            ),
        )
    } else {
        Json::Object(members)
    }
}

/// What names the one that a command is about: the path parameter of its operation.
pub open spec fn about_one(op: Operation, required: bool, behind: Seq<char>) -> Seq<Json> {
    match op.path_param {
        Some(name) => seq![Json::Object(argument(name, required, name + behind))],
        None => Seq::empty(),
    }
}

/// The ways to give a request body, one of which prints the template for it.
pub open spec fn body_flags(what: Seq<char>, file: Seq<char>, template: Seq<char>) -> Seq<Json> {
    seq![
        flag("--request"@, "json"@, what),
        flag("--request-file"@, "path"@, file),
        choice("--generate-skeleton"@, "enum"@, template, seq!["json"@, "yaml"@]),
    ]
}

/// Whether parameters are those of a verb: `list` takes filters, fields, a query and a
/// limit; `get`, `update` and `delete` take what their path names, which only `update` can
/// do without; `create` and `update` take a body; and all of them an output format.
pub open spec fn takes(verb: Seq<char>, op: Operation, inputs: Inputs, params: Seq<Json>) -> bool {
    if verb == "list"@ {
        exists|filters: Seq<Json>|
            #![trigger is_filter_flag(op, filters)]
            is_filter_flag(op, filters) && params == filters + seq![
                fields_choice(op, inputs),
                flag("--jmespath"@, "string"@, "JMESPath expression for client-side output reshaping"@),
                flag("--limit"@, "integer"@, "Maximum number of items to return"@),
                format_choice(),
            ]
    } else if verb == "create"@ || verb == "update"@ {
        params == (if verb == "update"@ {
            about_one(op, false, " of the resource (required unless --generate-skeleton)"@)
        } else {
            Seq::empty()
        }) + body_flags(
            "Request body as inline JSON"@,
            "Read the request body from a JSON or YAML file"@,
            "Print a fillable request-body template and exit"@,
        ) + seq![format_choice()]
    } else {
        params == about_one(op, true, " of the resource"@) + seq![format_choice()]
    }
}

/// The members that every command has.
pub open spec fn command_start(path: Seq<Seq<char>>, about: Seq<char>, kind: Seq<char>) -> Map<
    Seq<char>,
    Json,
> {
    Map::<Seq<char>, Json>::empty().insert("path"@, texts_json(path)).insert(
        "description"@,
        Json::Str(about),
    ).insert("type"@, Json::Str(kind))
}

/// Whether a command is described: by its path, its verb and what it is about, by the REST
/// path and the HTTP method of its operation, by what it takes, by the columns that `list`
/// shows and by the template that `create` and `update` start from.
pub open spec fn describes(
    group: Seq<char>,
    resource: Resource,
    verb: Seq<char>,
    inputs: Inputs,
    command: Json,
) -> bool {
    let op = command_laws::operation_for(resource, verb, inputs);
    let columns = text::texts(resource.columns@);
    let template = op.request_body_type;
    let has_template = template is Some && inputs.request_skeletons.contains_key(template->0)
        && crate::json::parsed_json(inputs.request_skeletons[template->0]@) is Some;
    exists|params: Seq<Json>|
        #![trigger takes(verb, op, inputs, params)]
        {
            let members = command_start(
                seq![group, resource.name@, verb],
                text::capitalized(verb) + " "@ + text::lowercase(resource.about@),
                verb,
            ).insert("api_endpoint"@, Json::Str(op.path)).insert(
                "http_method"@,
                Json::Str(text::uppercase(op.http_verb)),
            ).insert("parameters"@, Json::Array(params));
            &&& takes(verb, op, inputs, params)
            &&& command == Json::Object(
                if verb == "list"@ && columns.len() > 0 {
                    members.insert(
                        "output"@,
                        Json::Object(
                            Map::<Seq<char>, Json>::empty().insert(
                                "type"@,
                                Json::Str("array"@),
                            ).insert("default_columns"@, texts_json(columns)),
                        ),
                    )
                } else if (verb == "create"@ || verb == "update"@) && has_template {
                    members.insert(
                        "request_skeleton"@,
                        crate::json::parsed_json(inputs.request_skeletons[template->0]@)->0,
                    )
                } else {
                    members
                },
            )
        }
}

proof fn lemma_filter_flag(op: Operation)
    ensures
        is_filter_flag(op, schema_codegen::filter_flag(op.query_params)),
{
    let params = op.query_params;
    let kept = |param: Param| schema::filter_type(param.kind) is Some;
    let wanted = |param: Param|
        param.kind != ParamKind::SkippedOptional && param.kind != ParamKind::SkippedRequired;
    command_laws::lemma_same_filter(params, kept, wanted);
    let keys = schema_codegen::filter_keys(params);
    assert forall|i: int| 0 <= i < keys.len() implies is_key(
        command_laws::usable(params)[i],
        #[trigger] keys[i],
    ) by {
        let param = command_laws::usable(params)[i];
        command_laws::lemma_filtered(params, wanted, i);
        assert(value_type(param.kind, schema::filter_type(param.kind)->0));
    }
    if keys.len() > 0 {
        assert(are_keys(command_laws::usable(params), keys));
        assert(schema_codegen::filter_flag(params) =~= seq![
            Json::Object(
                described("--filter"@, "KEY=VALUE"@, "Server-side filter"@).insert(
                    "repeatable"@,
                    Json::Bool(true),
                ).insert("valid_keys"@, Json::Array(keys)),
            ),
        ]);
    }
}

proof fn lemma_takes(verb: Seq<char>, op: Operation, inputs: Inputs)
    requires
        verb == "list"@ || verb == "get"@ || verb == "create"@ || verb == "update"@ || verb
            == "delete"@,
    ensures
        takes(verb, op, inputs, schema_codegen::verb_params(verb, op, inputs.field_values)),
{
    manifest::known_verbs_differ();
    let params = schema_codegen::verb_params(verb, op, inputs.field_values);
    if verb == "list"@ {
        lemma_filter_flag(op);
        let filters = schema_codegen::filter_flag(op.query_params);
        assert(params =~= filters + seq![
            fields_choice(op, inputs),
            flag("--jmespath"@, "string"@, "JMESPath expression for client-side output reshaping"@),
            flag("--limit"@, "integer"@, "Maximum number of items to return"@),
            format_choice(),
        ]);
    } else if verb == "create"@ || verb == "update"@ {
        assert(params =~= (if verb == "update"@ {
            about_one(op, false, " of the resource (required unless --generate-skeleton)"@)
        } else {
            Seq::empty()
        }) + body_flags(
            "Request body as inline JSON"@,
            "Read the request body from a JSON or YAML file"@,
            "Print a fillable request-body template and exit"@,
        ) + seq![format_choice()]);
    } else {
        assert(params =~= about_one(op, true, " of the resource"@) + seq![format_choice()]);
    }
}

proof fn lemma_verb_described(group: Seq<char>, resource: Resource, v: int, inputs: Inputs)
    requires
        0 <= v < 5,
    ensures
        describes(
            group,
            resource,
            command_laws::verb_text(v),
            inputs,
            Json::Object(
                schema_codegen::verb_command(
                    group,
                    resource,
                    command_laws::verb_text(v),
                    command_laws::operation_for(resource, command_laws::verb_text(v), inputs),
                    inputs.field_values,
                    inputs.request_skeletons,
                ),
            ),
        ),
{
    manifest::known_verbs_differ();
    let verb = command_laws::verb_text(v);
    lemma_takes(verb, command_laws::operation_for(resource, verb, inputs), inputs);
}

proof fn lemma_verbs_described(group: Seq<char>, resource: Resource, inputs: Inputs, n: nat)
    requires
        n <= 5,
        schema_codegen::verb_commands(group, resource, inputs, n) is Ok,
    ensures
        ({
            let commands = schema_codegen::verb_commands(group, resource, inputs, n)->Ok_0;
            let verbs = command_laws::given_verbs(resource, n);
            &&& commands.len() == verbs.len()
            &&& forall|i: int|
                0 <= i < commands.len() ==> describes(
                    group,
                    resource,
                    verbs[i],
                    inputs,
                    #[trigger] commands[i],
                )
        }),
    decreases n,
{
    if n > 0 {
        manifest::known_verbs_differ();
        lemma_verbs_described(group, resource, inputs, (n - 1) as nat);
        assert(command_laws::verb_text(n - 1) == manifest::verb_at(n - 1));
        lemma_verb_described(group, resource, n - 1, inputs);
    }
}

/// `provision`, with the order template where there is one to show.
pub open spec fn describes_provision(
    group: Seq<char>,
    resource: Resource,
    inputs: Inputs,
    command: Json,
) -> bool {
    let members = command_start(
        seq![group, resource.name@, "provision"@],
        "Provision "@ + text::lowercase(resource.about@) + " via a marketplace order"@,
        "provision"@,
    ).insert(
        "parameters"@,
        Json::Array(
            body_flags(
                "The marketplace order body as inline JSON"@,
                "Read the order body from a JSON or YAML file"@,
                "Print a fillable order template and exit"@,
            ) + seq![
                flag("--no-wait"@, "boolean"@, "Submit the order and return immediately"@),
                flag("--timeout"@, "integer"@, "Seconds to wait for the order to complete (default: 600)"@),
                format_choice(),
            ],
        ),
    );
    let template = inputs.order_skeletons[resource.name@]@;
    command == Json::Object(
        if inputs.order_skeletons.contains_key(resource.name@) && crate::json::parsed_json(
            template,
        ) is Some {
            members.insert("request_skeleton"@, crate::json::parsed_json(template)->0)
        } else {
            members
        },
    )
}

/// `terminate`, which takes the uuid of the marketplace resource.
pub open spec fn describes_terminate(group: Seq<char>, resource: Resource, command: Json) -> bool {
    command == Json::Object(
        command_start(
            seq![group, resource.name@, "terminate"@],
            "Terminate "@ + text::lowercase(resource.about@) + " via a marketplace order"@,
            "terminate"@,
        ).insert(
            "parameters"@,
            Json::Array(
                seq![
                    Json::Object(argument("uuid"@, true, "Marketplace resource UUID"@)),
                    flag(
                        "--request"@,
                        "json"@,
                        "Optional termination attributes as inline JSON"@,
                    ),
                    flag("--no-wait"@, "boolean"@, "Submit and return immediately"@),
                    flag(
                        "--timeout"@,
                        "integer"@,
                        "Seconds to wait for termination (default: 600)"@,
                    ),
                    format_choice(),
                ],
            ),
        ),
    )
}

/// The command schema describes exactly the commands that the manifest gives a resource, in
/// the order of the verbs, and behind them `provision` and `terminate` where it has a
/// marketplace order.
pub proof fn every_command_is_described(group: Seq<char>, resource: Resource, inputs: Inputs)
    requires
        schema_codegen::resource_commands(group, resource, inputs) is Ok,
    ensures
        ({
            let commands = schema_codegen::resource_commands(group, resource, inputs)->Ok_0;
            let verbs = command_laws::given_verbs(resource, 5);
            let n = verbs.len() as int;
            &&& forall|i: int|
                0 <= i < n ==> describes(group, resource, verbs[i], inputs, #[trigger] commands[i])
            &&& if resource.order is Some {
                &&& commands.len() == n + 2
                &&& describes_provision(group, resource, inputs, commands[n])
                &&& describes_terminate(group, resource, commands[n + 1])
            } else {
                commands.len() == n
            }
        }),
{
    lemma_verbs_described(group, resource, inputs, 5);
    if resource.order is Some {
        let commands = schema_codegen::resource_commands(group, resource, inputs)->Ok_0;
        let before = schema_codegen::verb_commands(group, resource, inputs, 5)->Ok_0;
        let n = before.len() as int;
        assert forall|i: int| 0 <= i < n implies before[i] == #[trigger] commands[i] by {}
        assert(schema_codegen::provision_params() =~= body_flags(
            "The marketplace order body as inline JSON"@,
            "Read the order body from a JSON or YAML file"@,
            "Print a fillable order template and exit"@,
        ) + seq![
            flag("--no-wait"@, "boolean"@, "Submit the order and return immediately"@),
            flag("--timeout"@, "integer"@, "Seconds to wait for the order to complete (default: 600)"@),
            format_choice(),
        ]);
        assert(schema_codegen::terminate_params() =~= seq![
            Json::Object(argument("uuid"@, true, "Marketplace resource UUID"@)),
            flag("--request"@, "json"@, "Optional termination attributes as inline JSON"@),
            flag("--no-wait"@, "boolean"@, "Submit and return immediately"@),
            flag("--timeout"@, "integer"@, "Seconds to wait for termination (default: 600)"@),
            format_choice(),
        ]);
    }
}

/// The resources of groups, each with the name of its group, in manifest order.
pub open spec fn placed(groups: Seq<Group>) -> Seq<(Seq<char>, Resource)>
    decreases groups.len(),
{
    if groups.len() == 0 {
        Seq::empty()
    } else {
        let group = groups.last();
        placed(groups.drop_last()) + group.resource@.map_values(
            |resource: Resource| (group.name@, resource),
        )
    }
}

/// Lists one after the other.
pub open spec fn chained(lists: Seq<Seq<Json>>) -> Seq<Json>
    decreases lists.len(),
{
    if lists.len() == 0 {
        Seq::empty()
    } else {
        chained(lists.drop_last()) + lists.last()
    }
}

/// Whether lists of commands are those of resources, one list for each of them.
pub open spec fn are_commands_of(
    resources: Seq<(Seq<char>, Resource)>,
    inputs: Inputs,
    lists: Seq<Seq<Json>>,
) -> bool {
    &&& lists.len() == resources.len()
    &&& forall|i: int|
        0 <= i < lists.len() ==> schema_codegen::resource_commands(
            resources[i].0,
            resources[i].1,
            inputs,
        ) == Ok::<Seq<Json>, NotExtracted<Seq<char>>>(#[trigger] lists[i])
}

proof fn lemma_group_lists(group: Seq<char>, resources: Seq<Resource>, inputs: Inputs) -> (lists: Seq<
    Seq<Json>,
>)
    requires
        schema_codegen::group_commands(group, resources, inputs) is Ok,
    ensures
        are_commands_of(
            resources.map_values(|resource: Resource| (group, resource)),
            inputs,
            lists,
        ),
        schema_codegen::group_commands(group, resources, inputs)->Ok_0 == chained(lists),
    decreases resources.len(),
{
    if resources.len() == 0 {
        Seq::empty()
    } else {
        let before = lemma_group_lists(group, resources.drop_last(), inputs);
        let last = schema_codegen::resource_commands(group, resources.last(), inputs)->Ok_0;
        let lists = before.push(last);
        assert(lists.drop_last() =~= before);
        let earlier = resources.drop_last().map_values(|resource: Resource| (group, resource));
        let all = resources.map_values(|resource: Resource| (group, resource));
        assert forall|i: int|
            0 <= i < lists.len() implies schema_codegen::resource_commands(
            all[i].0,
            all[i].1,
            inputs,
        ) == Ok::<Seq<Json>, NotExtracted<Seq<char>>>(#[trigger] lists[i]) by {
            if i < before.len() {
                assert(lists[i] == before[i]);
                assert(all[i] == earlier[i]);
            }
        }
        lists
    }
}

proof fn lemma_chained(first: Seq<Seq<Json>>, then: Seq<Seq<Json>>)
    ensures
        chained(first + then) == chained(first) + chained(then),
    decreases then.len(),
{
    if then.len() == 0 {
        assert(first + then =~= first);
        assert(chained(first) + chained(then) =~= chained(first));
    } else {
        lemma_chained(first, then.drop_last());
        assert((first + then).drop_last() =~= first + then.drop_last());
        assert(chained(first + then) =~= chained(first) + chained(then));
    }
}

proof fn lemma_all_lists(groups: Seq<Group>, inputs: Inputs) -> (lists: Seq<Seq<Json>>)
    requires
        schema_codegen::all_commands(groups, inputs) is Ok,
    ensures
        are_commands_of(placed(groups), inputs, lists),
        schema_codegen::all_commands(groups, inputs)->Ok_0 == chained(lists),
    decreases groups.len(),
{
    if groups.len() == 0 {
        Seq::empty()
    } else {
        let before = lemma_all_lists(groups.drop_last(), inputs);
        let group = groups.last();
        let here = lemma_group_lists(group.name@, group.resource@, inputs);
        let lists = before + here;
        lemma_chained(before, here);
        let earlier = placed(groups.drop_last());
        let own = group.resource@.map_values(|resource: Resource| (group.name@, resource));
        assert forall|i: int|
            0 <= i < lists.len() implies schema_codegen::resource_commands(
            placed(groups)[i].0,
            placed(groups)[i].1,
            inputs,
        ) == Ok::<Seq<Json>, NotExtracted<Seq<char>>>(#[trigger] lists[i]) by {
            if i < before.len() {
                assert(lists[i] == before[i]);
                assert(placed(groups)[i] == earlier[i]);
            } else {
                assert(lists[i] == here[i - before.len()]);
                assert(placed(groups)[i] == own[i - before.len()]);
            }
        }
        lists
    }
}

/// A resource in the summary: its name, what it is about, its verbs and its columns.
pub open spec fn summed_resource(resource: Resource) -> Json {
    let verbs = command_laws::given_verbs(resource, 5) + (if resource.order is Some {
        seq!["provision"@, "terminate"@]
    } else {
        Seq::empty()
    });
    Json::Object(
        Map::<Seq<char>, Json>::empty().insert("name"@, Json::Str(resource.name@)).insert(
            "description"@,
            Json::Str(resource.about@),
        ).insert("verbs"@, texts_json(verbs)).insert(
            "default_columns"@,
            texts_json(text::texts(resource.columns@)),
        ),
    )
}

/// A group in the summary: its name, what it is about and its resources.
pub open spec fn summed_group(group: Group) -> Json {
    Json::Object(
        Map::<Seq<char>, Json>::empty().insert("name"@, Json::Str(group.name@)).insert(
            "description"@,
            Json::Str(group.about@),
        ).insert(
            "resources"@,
            Json::Array(
                group.resource@.map_values(|resource: Resource| summed_resource(resource)),
            ),
        ),
    )
}

/// A command that no resource has.
pub open spec fn lone_command(name: Seq<char>, about: Seq<char>, params: Seq<Json>) -> Json {
    Json::Object(
        command_start(seq![name], about, "meta"@).insert("parameters"@, Json::Array(params)),
    )
}

/// The commands that no resource has.
pub open spec fn lone_commands() -> Seq<Json> {
    let nothing = Seq::<Json>::empty();
    seq![
        lone_command(
            "schema"@,
            "Print the CLI command schema as JSON"@,
            seq![
                flag("--group"@, "string"@, "Only include commands from this group"@),
                flag("--compact"@, "boolean"@, "Print only command paths and descriptions (minimal output for context budgets)"@),
            ],
        ),
        lone_command(
            "completions"@,
            "Generate a shell completion script"@,
            seq![
                Json::Object(
                    argument("shell"@, true, "Shell to generate completions for"@).insert(
                        "valid_values"@,
                        texts_json(seq!["bash"@, "zsh"@, "fish"@, "powershell"@, "elvish"@]),
                    ),
                ),
            ],
        ),
        lone_command(
            "login"@,
            "Log in and save API credentials to a local config file"@,
            nothing,
        ),
        lone_command("logout"@, "Remove saved credentials for the selected profile"@, nothing),
        lone_command(
            "whoami"@,
            "Show the current user, verifying the active credentials"@,
            nothing,
        ),
        lone_command(
            "set-project"@,
            "Save a default project (UUID) for the selected profile"@,
            seq![Json::Object(argument("uuid"@, true, "Project UUID"@))],
        ),
        lone_command(
            "unset-project"@,
            "Clear the selected profile's saved default project"@,
            nothing,
        ),
    ]
}

pub(crate) proof fn lemma_verbs(resource: Resource, n: nat)
    requires
        n <= 5,
    ensures
        manifest::own_verbs(resource, n) == command_laws::given_verbs(resource, n),
    decreases n,
{
    if n > 0 {
        manifest::known_verbs_differ();
        lemma_verbs(resource, (n - 1) as nat);
        assert(command_laws::verb_text(n - 1) == manifest::verb_at(n - 1));
    }
}

/// The command schema says which version it is of, sums up every group with its resources,
/// and lists the commands of every resource in manifest order, then those that no resource
/// has.
pub proof fn the_schema_lists_every_resource(
    manifest: Manifest,
    inputs: Inputs,
    cli_version: Seq<char>,
) -> (lists: Seq<Seq<Json>>)
    requires
        schema_codegen::schema_json(manifest, inputs, cli_version) is Ok,
    ensures
        are_commands_of(placed(manifest.group@), inputs, lists),
        schema_codegen::schema_json(manifest, inputs, cli_version)->Ok_0 == Json::Object(
            Map::<Seq<char>, Json>::empty().insert("version"@, Json::Str(cli_version)).insert(
                "groups"@,
                Json::Array(manifest.group@.map_values(|group: Group| summed_group(group))),
            ).insert("commands"@, Json::Array(chained(lists) + lone_commands())),
        ),
{
    let lists = lemma_all_lists(manifest.group@, inputs);
    let commands = chained(lists);
    assert(schema_codegen::schema_params() =~= seq![
        flag("--group"@, "string"@, "Only include commands from this group"@),
        flag("--compact"@, "boolean"@, "Print only command paths and descriptions (minimal output for context budgets)"@),
    ]);
    assert(schema_codegen::completions_params() =~= seq![
        Json::Object(
            argument("shell"@, true, "Shell to generate completions for"@).insert(
                "valid_values"@,
                texts_json(seq!["bash"@, "zsh"@, "fish"@, "powershell"@, "elvish"@]),
            ),
        ),
    ]);
    assert(schema_codegen::set_project_params() =~= seq![
        Json::Object(argument("uuid"@, true, "Project UUID"@)),
    ]);
    assert(schema_codegen::with_meta_commands(commands) =~= commands + lone_commands());
    assert forall|resource: Resource| #[trigger]
        schema_codegen::resource_summary(resource) == summed_resource(resource) by {
        lemma_verbs(resource, 5);
        assert(schema_codegen::resource_verbs(resource) =~= command_laws::given_verbs(resource, 5)
            + (if resource.order is Some {
            seq!["provision"@, "terminate"@]
        } else {
            Seq::empty()
        }));
    }
    assert forall|group: Group| #[trigger]
        schema_codegen::group_summary(group) == summed_group(group) by {
        assert(group.resource@.map_values(
            |resource: Resource| schema_codegen::resource_summary(resource),
        ) =~= group.resource@.map_values(|resource: Resource| summed_resource(resource)));
    }
    assert(schema_codegen::group_summaries(manifest.group@) =~= manifest.group@.map_values(
        |group: Group| summed_group(group),
    ));
    lists
}

/// Whether the operation of every verb that the manifest gives a resource is there.
pub open spec fn is_complete(
    resource: Resource,
    operations: Map<Seq<char>, ExtractedOperation>,
    n: nat,
) -> bool {
    forall|v: int|
        0 <= v < n && resource.commands@.contains_key(#[trigger] command_laws::verb_text(v))
            ==> operations.contains_key(resource.commands@[command_laws::verb_text(v)]@)
}

proof fn lemma_verbs_complete(group: Seq<char>, resource: Resource, inputs: Inputs, n: nat)
    requires
        n <= 5,
    ensures
        schema_codegen::verb_commands(group, resource, inputs, n) is Ok <==> is_complete(
            resource,
            inputs.operations,
            n,
        ),
    decreases n,
{
    if n > 0 {
        manifest::known_verbs_differ();
        lemma_verbs_complete(group, resource, inputs, (n - 1) as nat);
        assert(command_laws::verb_text(n - 1) == manifest::verb_at(n - 1));
    }
}

proof fn lemma_group_complete(group: Seq<char>, resources: Seq<Resource>, inputs: Inputs)
    ensures
        schema_codegen::group_commands(group, resources, inputs) is Ok <==> forall|i: int|
            0 <= i < resources.len() ==> is_complete(#[trigger] resources[i], inputs.operations, 5),
    decreases resources.len(),
{
    if resources.len() > 0 {
        let before = resources.drop_last();
        lemma_group_complete(group, before, inputs);
        lemma_verbs_complete(group, resources.last(), inputs, 5);
        assert(forall|i: int| 0 <= i < before.len() ==> #[trigger] resources[i] == before[i]);
        assert(forall|i: int| 0 <= i < before.len() ==> #[trigger] before[i] == resources[i]);
        assert(resources[resources.len() - 1] == resources.last());
    }
}

/// The command schema can be built exactly where every operation that the manifest names is
/// there.
pub proof fn the_schema_needs_every_operation(
    manifest: Manifest,
    inputs: Inputs,
    cli_version: Seq<char>,
)
    ensures
        schema_codegen::schema_json(manifest, inputs, cli_version) is Ok <==> forall|i: int, j: int|
            0 <= i < manifest.group@.len() && 0 <= j < manifest.group@[i].resource@.len()
                ==> is_complete(
                #[trigger] manifest.group@[i].resource@[j],
                inputs.operations,
                5,
            ),
{
    lemma_groups_complete(manifest.group@, inputs);
}

proof fn lemma_groups_complete(groups: Seq<Group>, inputs: Inputs)
    ensures
        schema_codegen::all_commands(groups, inputs) is Ok <==> forall|i: int, j: int|
            0 <= i < groups.len() && 0 <= j < groups[i].resource@.len() ==> is_complete(
                #[trigger] groups[i].resource@[j],
                inputs.operations,
                5,
            ),
    decreases groups.len(),
{
    if groups.len() > 0 {
        let before = groups.drop_last();
        let last = groups.len() - 1;
        let resources = groups.last().resource@;
        lemma_groups_complete(before, inputs);
        lemma_group_complete(groups.last().name@, resources, inputs);
        if schema_codegen::all_commands(groups, inputs) is Ok {
            assert forall|i: int, j: int|
                0 <= i < groups.len() && 0 <= j < groups[i].resource@.len() implies is_complete(
                #[trigger] groups[i].resource@[j],
                inputs.operations,
                5,
            ) by {
                if i < last {
                    assert(is_complete(before[i].resource@[j], inputs.operations, 5));
                } else {
                    assert(is_complete(resources[j], inputs.operations, 5));
                }
            }
        }
        if forall|i: int, j: int|
            0 <= i < groups.len() && 0 <= j < groups[i].resource@.len() ==> is_complete(
                #[trigger] groups[i].resource@[j],
                inputs.operations,
                5,
            ) {
            assert forall|i: int, j: int|
                0 <= i < before.len() && 0 <= j < before[i].resource@.len() implies is_complete(
                #[trigger] before[i].resource@[j],
                inputs.operations,
                5,
            ) by {
                assert(is_complete(groups[i].resource@[j], inputs.operations, 5));
            }
            assert forall|j: int| 0 <= j < resources.len() implies is_complete(
                #[trigger] resources[j],
                inputs.operations,
                5,
            ) by {
                assert(is_complete(groups[last].resource@[j], inputs.operations, 5));
            }
        }
    }
}

/// A command that is about one thing asks for it first: the path parameter of its operation
/// is a positional argument, which only `update` can do without.
pub proof fn what_a_command_is_about_comes_first(
    verb: Seq<char>,
    op: Operation,
    inputs: Inputs,
    name: Seq<char>,
)
    requires
        verb == "get"@ || verb == "update"@ || verb == "delete"@,
        op.path_param == Some(name),
    ensures
        ({
            let params = schema_codegen::verb_params(verb, op, inputs.field_values);
            &&& params.len() > 1
            &&& params[0] is Object
            &&& params[0]->Object_0["name"@] == Json::Str(name)
            &&& params[0]->Object_0["positional"@] == Json::Bool(true)
            &&& params[0]->Object_0["required"@] == Json::Bool(verb != "update"@)
        }),
{
    manifest::known_verbs_differ();
    lemma_takes(verb, op, inputs);
    reveal_strlit("name");
    reveal_strlit("type");
    reveal_strlit("description");
    reveal_strlit("positional");
    reveal_strlit("required");
    assert("name"@[0] == 'n');
    assert("type"@[0] == 't');
    assert("description"@[0] == 'd');
    assert("positional"@[0] == 'p');
    assert("required"@[0] == 'r');
}

} // verus!
