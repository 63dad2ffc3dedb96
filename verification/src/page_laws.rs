//! What the reference page of every command says: how the command is typed, what it takes,
//! and examples that work.
use crate::command_laws;
use crate::description_laws;
use crate::json;
use crate::manifest;
use crate::manifest::Resource;
use crate::reference_docs;
use crate::reference_docs::{DocInputs, Page};
use crate::reference_pages;
use crate::reference_pages::OptionRow;
use crate::schema;
use crate::schema::{Action, Operation, Param, ParamKind};
use crate::text;
use crate::verb_codegen;
use vstd::prelude::*;

verus! {

/// A row of an options table.
pub open spec fn option(flag: Seq<char>, kind: Seq<char>, description: Seq<char>) -> OptionRow<
    Seq<char>,
> {
    OptionRow { flag, kind, description }
}

/// The line of a row.
pub open spec fn line(row: OptionRow<Seq<char>>) -> Seq<char> {
    "| `"@ + row.flag + "` | "@ + row.kind + " | "@ + row.description + " |\n"@
}

/// The lines of rows, one for every row in their order.
pub open spec fn lines(rows: Seq<OptionRow<Seq<char>>>) -> Seq<char>
    decreases rows.len(),
{
    if rows.len() == 0 {
        ""@
    } else {
        lines(rows.drop_last()) + line(rows.last())
    }
}

/// An options table.
pub open spec fn table(rows: Seq<OptionRow<Seq<char>>>) -> Seq<char> {
    "\n| Flag | Type | Description |\n| --- | --- | --- |\n"@ + lines(rows)
}

/// How a command is typed.
pub open spec fn typed(group: Seq<char>, resource: Resource, verb: Seq<char>) -> Seq<char> {
    "waldur-cli "@ + group + " "@ + resource.name@ + " "@ + verb
}

/// The top of a page: the command as its title, what it does, and how it is used.
pub open spec fn top(cmd: Seq<char>, does: Seq<char>, arguments: Seq<char>) -> Seq<char> {
    "# `"@ + cmd + "`\n\n"@ + does + ".\n\n## Usage\n\n```bash\n"@ + cmd + arguments + "\n```\n"@
}

/// The end of every page.
pub open spec fn bottom() -> Seq<char> {
    "\n## Global options\n\n\
    Every command also accepts `--api-url`, `--token`, `--profile`, `--format`, and `--debug`; \
    mutating commands additionally accept `--dry-run`. See \
    [Getting started](../../1-getting-started.md) for what each does.\n"@
}

/// What a resource is about, inside a sentence.
pub open spec fn about(resource: Resource) -> Seq<char> {
    text::lowercase(resource.about@)
}

proof fn lemma_lines(rows: Seq<OptionRow<Seq<char>>>)
    ensures
        reference_pages::row_lines(rows) == lines(rows),
    decreases rows.len(),
{
    if rows.len() > 0 {
        lemma_lines(rows.drop_last());
    }
}

proof fn lemma_table(rows: Seq<OptionRow<Seq<char>>>)
    requires
        rows.len() > 0,
    ensures
        reference_pages::options_text(rows) == table(rows),
{
    lemma_lines(rows);
}

/// Whether a filter key is shown with the type of its values.
pub open spec fn shows_key(param: Param, shown: Seq<char>) -> bool {
    exists|words: Seq<char>|
        #![trigger description_laws::value_type(param.kind, words)]
        description_laws::value_type(param.kind, words) && shown == "`"@ + param.name + "` ("@
            + words + ")"@
}

/// Whether there is one shown key for every filter, in their order.
pub open spec fn shows_keys(params: Seq<Param>, shown: Seq<Seq<char>>) -> bool {
    &&& shown.len() == params.len()
    &&& forall|i: int| 0 <= i < shown.len() ==> shows_key(params[i], #[trigger] shown[i])
}

/// Whether `--filter` is described with exactly the filters that the operation has, and
/// left out where it has none.
pub open spec fn filter_rows(op: Operation, rows: Seq<OptionRow<Seq<char>>>) -> bool {
    let params = command_laws::usable(op.query_params);
    if params.len() == 0 {
        rows.len() == 0
    } else {
        exists|shown: Seq<Seq<char>>|
            #![trigger shows_keys(params, shown)]
            shows_keys(params, shown) && rows == seq![
                option(
                    "--filter KEY=VALUE"@,
                    "repeatable"@,
                    "Server-side filter. Valid keys: "@ + text::joined(shown, ", "@) + "."@,
                ),
            ]
    }
}

/// The values of an enumeration, where they are known.
pub open spec fn listed(name: Option<Seq<char>>, values: Map<Seq<char>, Vec<String>>) -> Option<
    Seq<Seq<char>>,
> {
    if name is Some && values.contains_key(name->0) {
        Some(text::texts(values[name->0]@))
    } else {
        None
    }
}

/// A sentence, and the valid values behind it where they are known.
pub open spec fn sentence_with(sentence: Seq<char>, values: Option<Seq<Seq<char>>>) -> Seq<char> {
    if values is Some {
        sentence + " Valid: "@ + text::joined(values->0, ", "@) + "."@
    } else {
        sentence
    }
}

/// Whether rows are those of `list`: its filters, the fields with their valid names, the
/// ordering where the operation has one, the query, the limit and the format.
pub open spec fn list_options(
    op: Operation,
    inputs: DocInputs,
    rows: Seq<OptionRow<Seq<char>>>,
) -> bool {
    exists|filters: Seq<OptionRow<Seq<char>>>|
        #![trigger filter_rows(op, filters)]
        filter_rows(op, filters) && rows == filters + seq![
            option(
                "--fields FIELDS"@,
                "string"@,
                sentence_with(
                    "Fetch only these fields from the server (comma-separated)."@,
                    listed(op.field_enum_name, inputs.field_values),
                ),
            ),
        ] + (if op.has_order {
            seq![
                option(
                    "--order FIELDS"@,
                    "string"@,
                    sentence_with(
                        "Sort server-side (comma-separated, `-` prefix for descending)."@,
                        listed(op.order_enum_name, inputs.order_values),
                    ),
                ),
            ]
        } else {
            Seq::empty()
        }) + seq![
            option("--jmespath EXPR"@, "string"@, "Reshape the already-fetched result client-side (https://jmespath.org)."@),
            option("--limit N"@, "integer"@, "Stop after this many items."@),
            option("--format FORMAT"@, "string"@, "table, json, tsv, toon, or ndjson."@),
        ]
}

/// Whether a filter of that name can be used.
pub open spec fn can_filter_by(op: Operation, name: Seq<char>) -> bool {
    exists|i: int|
        0 <= i < command_laws::usable(op.query_params).len() && (
        #[trigger] command_laws::usable(op.query_params)[i]).name == name
}

/// Whether an example filter is a good one: `state`, `name_exact` or `is_active` where the
/// operation has them, since their values can be guessed, else the first filter with a
/// value of its type; and none only where there is no filter.
pub open spec fn good_example(op: Operation, example: Option<(Seq<char>, Seq<char>)>) -> bool {
    let params = command_laws::usable(op.query_params);
    if can_filter_by(op, "state"@) {
        example == Some(("state"@, "OK"@))
    } else if can_filter_by(op, "name_exact"@) {
        example == Some(("name_exact"@, "example"@))
    } else if can_filter_by(op, "is_active"@) {
        example == Some(("is_active"@, "true"@))
    } else if params.len() > 0 {
        example == Some(
            (
                params[0].name,
                match params[0].kind {
                    ParamKind::RequiredBool | ParamKind::OptionalBool => "true"@,
                    ParamKind::RequiredI64 | ParamKind::OptionalI64 => "1"@,
                    _ => "example"@,
                },
            ),
        )
    } else {
        example is None
    }
}

/// Whether an order value is a good one for an example: the first known one that sorts
/// upwards, or the first column where none is known.
pub open spec fn good_order(
    op: Operation,
    inputs: DocInputs,
    column: Seq<char>,
    field: Option<Seq<char>>,
) -> bool {
    match listed(op.order_enum_name, inputs.order_values) {
        None => field == Some(column),
        Some(values) => match field {
            Some(value) => exists|i: int|
                0 <= i < values.len() && #[trigger] values[i] == value && !(value.len() > 0
                    && value[0] == '-') && forall|j: int|
                    0 <= j < i ==> (#[trigger] values[j]).len() > 0 && values[j][0] == '-',
            None => forall|j: int|
                0 <= j < values.len() ==> (#[trigger] values[j]).len() > 0 && values[j][0] == '-',
        },
    }
}

/// The column at a place, or a stand-in.
pub open spec fn column(resource: Resource, i: int, otherwise: Seq<char>) -> Seq<char> {
    if i < resource.columns@.len() {
        resource.columns@[i]@
    } else {
        otherwise
    }
}

/// The page of `list`.
pub open spec fn list_page(
    group: Seq<char>,
    resource: Resource,
    op: Operation,
    inputs: DocInputs,
    content: Seq<char>,
) -> bool {
    let cmd = typed(group, resource, "list"@);
    let first = column(resource, 0, "uuid"@);
    let second = column(resource, 1, "name"@);
    exists|
        rows: Seq<OptionRow<Seq<char>>>,
        example: Option<(Seq<char>, Seq<char>)>,
        field: Option<Seq<char>>,
    |
        #![trigger list_options(op, inputs, rows), good_example(op, example), good_order(op, inputs, first, field)]
        {
            &&& list_options(op, inputs, rows)
            &&& good_example(op, example)
            &&& good_order(op, inputs, first, field)
            &&& content == top(cmd, "List "@ + about(resource), " [OPTIONS]"@) + table(rows)
                + "\n## Examples\n\n"@ + (match example {
                Some((key, value)) => "```bash\n"@ + cmd + " --filter "@ + key + "="@ + value
                    + " --fields "@ + first + ","@ + second + " --format json\n```\n"@,
                None => "```bash\n"@ + cmd + " --fields "@ + first + ","@ + second
                    + " --format json\n```\n"@,
            }) + "\nProject just the columns you need, client-side:\n\n```bash\n"@ + cmd
                + " --jmespath '[].["@ + first + ", "@ + second + "]'\n```\n"@ + (
            if op.has_order && field is Some {
                "\nSmallest/first result matching a filter, sorted server-side:\n\n```bash\n"@
                    + cmd + " --order "@ + field->0 + " --limit 1\n```\n"@
            } else {
                ""@
            }) + bottom()
        }
}

/// How the one that a command is about is called.
pub open spec fn one(op: Operation) -> Seq<char> {
    if op.path_param is Some {
        op.path_param->0
    } else {
        "uuid"@
    }
}

/// The page of `get`, which can open the web page of a resource that has one.
pub open spec fn get_page(
    group: Seq<char>,
    resource: Resource,
    op: Operation,
    content: Seq<char>,
) -> bool {
    let cmd = typed(group, resource, "get"@);
    content == top(cmd, "Get "@ + about(resource), " <UUID> [OPTIONS]"@) + table(
        seq![option("<UUID>"@, "positional, required"@, one(op) + " of the resource."@)] + (
        if resource.web is Some {
            seq![option("--web"@, "flag"@, "Open this resource's page in Waldur's web UI (HomePort) instead of printing it."@)]
        } else {
            Seq::empty()
        }) + seq![option("--format FORMAT"@, "string"@, "table, json, tsv, toon, or ndjson."@)],
    ) + "\n## Examples\n\n```bash\n"@ + cmd + " <uuid> --format json\n```\n"@ + (
    if resource.web is Some {
        "\nOpen it in the browser instead:\n\n```bash\n"@ + cmd + " <uuid> --web\n```\n"@
    } else {
        ""@
    }) + bottom()
}

/// A template as one line; as it is where it is no JSON.
pub open spec fn on_one_line(template: Seq<char>) -> Seq<char> {
    if json::parsed_json(template) is Some {
        json::compact_text(json::parsed_json(template)->0)
    } else {
        template
    }
}

/// The template of that name, where there is one.
pub open spec fn found_template(name: Option<Seq<char>>, templates: Map<Seq<char>, String>) -> Option<
    Seq<char>,
> {
    if name is Some && templates.contains_key(name->0) {
        Some(templates[name->0]@)
    } else {
        None
    }
}

/// Examples that print the template, and submit it where there is one.
pub open spec fn template_examples(
    cmd: Seq<char>,
    template: Option<Seq<char>>,
    remark: Seq<char>,
    arguments: Seq<char>,
) -> Seq<char> {
    "\n## Examples\n\nSee the fillable template first:\n\n```bash\n"@ + cmd
        + " --generate-skeleton\n```\n"@ + (match template {
        Some(shown) => "\nThen fill it in and submit"@ + remark + ":\n\n```bash\n"@ + cmd
            + arguments + " --request '"@ + on_one_line(shown) + "'\n```\n"@,
        None => ""@,
    })
}

/// The rows for a request body.
pub open spec fn body_options(template: Seq<char>) -> Seq<OptionRow<Seq<char>>> {
    seq![
        option("--request JSON"@, "string"@, "Request body as inline JSON."@),
        option(
            "--request-file PATH"@,
            "path"@,
            "Read the request body from a JSON or YAML file."@,
        ),
        option("--generate-skeleton [FORMAT]"@, "json|yaml"@, template),
    ]
}

/// The page of `create`.
pub open spec fn create_page(
    group: Seq<char>,
    resource: Resource,
    op: Operation,
    inputs: DocInputs,
    content: Seq<char>,
) -> bool {
    let cmd = typed(group, resource, "create"@);
    content == top(cmd, "Create "@ + about(resource), " (--request JSON | --request-file PATH | --generate-skeleton)"@) + table(
        body_options("Print a fillable template and exit, instead of sending a request."@),
    ) + template_examples(
        cmd,
        found_template(op.request_body_type, inputs.request_skeletons),
        ""@,
        ""@,
    ) + bottom()
}

/// The page of `update`.
pub open spec fn update_page(
    group: Seq<char>,
    resource: Resource,
    op: Operation,
    inputs: DocInputs,
    content: Seq<char>,
) -> bool {
    let cmd = typed(group, resource, "update"@);
    content == top(cmd, "Update "@ + about(resource), " <UUID> (--request JSON | --request-file PATH | --generate-skeleton)"@) + table(
        seq![option("<UUID>"@, "positional"@, "Required unless --generate-skeleton (the template doesn't need a specific resource)."@)] + body_options(
            "Print a fillable template and exit, instead of sending a request."@,
        ),
    ) + template_examples(
        cmd,
        found_template(op.request_body_type, inputs.request_skeletons),
        " (only the fields you're changing need a value -- \
    `null` fields in the template are omitted, not sent literally)"@,
        " <uuid>"@,
    ) + bottom()
}

/// The page of `delete`.
pub open spec fn delete_page(
    group: Seq<char>,
    resource: Resource,
    op: Operation,
    content: Seq<char>,
) -> bool {
    let cmd = typed(group, resource, "delete"@);
    content == top(cmd, "Delete "@ + about(resource), " <UUID>"@) + table(
        seq![option("<UUID>"@, "positional, required"@, one(op) + " of the resource."@)],
    ) + "\n## Examples\n\n```bash\n"@ + cmd
        + " <uuid>\n```\n\nPreview without deleting:\n\n```bash\n"@ + cmd
        + " <uuid> --dry-run\n```\n"@ + bottom()
}

/// The page of `provision`.
pub open spec fn provision_page(
    group: Seq<char>,
    resource: Resource,
    inputs: DocInputs,
    content: Seq<char>,
) -> bool {
    let cmd = typed(group, resource, "provision"@);
    content == top(
        cmd,
        "Provision "@ + about(resource) + " via a marketplace order"@,
        " (--request JSON | --request-file PATH | --generate-skeleton)"@,
    ) + table(
        seq![
            option("--request JSON"@, "string"@, "The order body as inline JSON."@),
            option(
                "--request-file PATH"@,
                "path"@,
                "Read the order body from a JSON or YAML file."@,
            ),
            option(
                "--generate-skeleton [FORMAT]"@,
                "json|yaml"@,
                "Print a fillable order template and exit."@,
            ),
            option("--no-wait"@, "flag"@, "Submit and return immediately, without polling the order to completion."@),
            option("--timeout N"@, "integer"@, "Seconds to wait for the order to complete before giving up (default 600)."@),
            option("--interval N"@, "integer"@, "Seconds between polls (default 3)."@),
        ],
    ) + template_examples(
        cmd,
        found_template(Some(resource.name@), inputs.order_skeletons),
        ""@,
        ""@,
    ) + "\nFire-and-forget, checking on it later from the printed order UUID:\n\n```bash\n"@ + cmd
        + " --request-file order.yaml --no-wait --format json\n```\n"@ + bottom()
}

/// The page of `terminate`.
pub open spec fn terminate_page(group: Seq<char>, resource: Resource, content: Seq<char>) -> bool {
    let cmd = typed(group, resource, "terminate"@);
    content == top(
        cmd,
        "Terminate "@ + about(resource) + " via a marketplace order"@,
        " <MARKETPLACE_RESOURCE_UUID> [OPTIONS]"@,
    ) + table(
        seq![
            option(
                "<MARKETPLACE_RESOURCE_UUID>"@,
                "positional, required"@,
                "The resource's `marketplace_resource_uuid` field (from get/list) -- not its own uuid."@,
            ),
            option(
                "--request JSON"@,
                "string"@,
                "Optional termination attributes as inline JSON."@,
            ),
            option("--no-wait"@, "flag"@, "Submit and return immediately, without polling the order to completion."@),
            option("--timeout N"@, "integer"@, "Seconds to wait for termination before giving up (default 600)."@),
            option("--interval N"@, "integer"@, "Seconds between polls (default 3)."@),
        ],
    ) + "\n## Examples\n\n```bash\n"@ + cmd
        + " <marketplace-resource-uuid>\n```\n\nWith termination attributes:\n\n```bash\n"@ + cmd
        + " <marketplace-resource-uuid> --request '{\"delete_volumes\": true}'\n```\n"@ + bottom()
}

/// Whether a field is one to wait for: `state` where it is shown, else the second column,
/// else the first one that is not the uuid.
pub open spec fn worth_waiting_for(columns: Seq<Seq<char>>, field: Seq<char>) -> bool {
    if columns.contains("state"@) {
        field == "state"@
    } else if columns.len() > 1 && columns[1] != "uuid"@ {
        field == columns[1]
    } else if forall|i: int| 0 <= i < columns.len() ==> #[trigger] columns[i] == "uuid"@ {
        field == "state"@
    } else {
        field != "uuid"@ && exists|i: int|
            0 <= i < columns.len() && #[trigger] columns[i] == field && forall|j: int|
                0 <= j < i ==> #[trigger] columns[j] == "uuid"@
    }
}

/// The page of `wait`.
pub open spec fn wait_page(group: Seq<char>, resource: Resource, content: Seq<char>) -> bool {
    let cmd = typed(group, resource, "wait"@);
    exists|field: Seq<char>|
        #![trigger worth_waiting_for(text::texts(resource.columns@), field)]
        worth_waiting_for(text::texts(resource.columns@), field) && content == top(
            cmd,
            "Poll "@ + about(resource) + " until a `--jmespath` condition against it stops evaluating to \
    `false`/`null`, or error on timeout. Client-side polling -- Waldur's API has no \
    server-side watch/push mechanism"@,
            " <UUID> --jmespath EXPR [OPTIONS]"@,
        ) + table(
            seq![
                option("<UUID>"@, "positional, required"@, "uuid of the resource."@),
                option("--jmespath EXPR"@, "string, required"@, "Condition to poll for, evaluated against the fetched object on every poll."@),
                option("--timeout N"@, "integer"@, "Seconds to wait for the condition before giving up (default 600)."@),
                option("--interval N"@, "integer"@, "Seconds between polls (default 3)."@),
            ],
        ) + "\n## Examples\n\n```bash\n"@ + cmd + " <uuid> --jmespath \""@ + field
            + "=='OK'\"\n```\n"@ + bottom()
}

/// A text with every character turned into another.
pub open spec fn with_for(name: Seq<char>, from: char, to: char) -> Seq<char> {
    Seq::new(
        name.len(),
        |i: int|
            if name[i] == from {
                to
            } else {
                name[i]
            },
    )
}

/// The page of an action: with a request body it has the flags for one, else it says which
/// request it sends.
pub open spec fn action_page(
    group: Seq<char>,
    resource: Resource,
    action: Action,
    inputs: DocInputs,
    content: Seq<char>,
) -> bool {
    let cmd = typed(group, resource, with_for(action.name, '_', '-'));
    let words = text::capitalized(with_for(action.name, '_', ' ')) + " "@ + about(resource);
    let uuid = seq![option("<UUID>"@, "positional, required"@, "uuid of the resource."@)];
    let op = action.operation;
    if op.request_body_type is Some {
        let template = found_template(op.request_body_type, inputs.request_skeletons);
        content == top(cmd, words, " <UUID> (--request JSON | --request-file PATH | --generate-skeleton)"@) + table(
            uuid + body_options("Print a fillable template and exit."@),
        ) + "\n## Examples\n\n```bash\n"@ + cmd + " <uuid> --generate-skeleton\n```\n"@ + (
        if template is Some {
            "\n```bash\n"@ + cmd + " <uuid> --request '"@ + on_one_line(template->0)
                + "'\n```\n"@
        } else {
            ""@
        }) + bottom()
    } else {
        content == top(cmd, words, " <UUID>"@) + table(uuid) + "\n## Examples\n\n```bash\n"@ + cmd
            + " <uuid>\n```\n\n(sends a bodyless "@ + text::uppercase(op.http_verb) + " to `"@
            + op.path + "`)\n"@ + bottom()
    }
}

proof fn lemma_filter_rows(op: Operation) -> (rows: Seq<OptionRow<Seq<char>>>)
    ensures
        filter_rows(op, rows),
        ({
            let keys = reference_pages::all_key_words(op.query_params);
            rows == if keys.len() > 0 {
                reference_pages::no_rows().push(
                    reference_pages::row(
                        "--filter KEY=VALUE"@,
                        "repeatable"@,
                        "Server-side filter. Valid keys: "@ + text::joined(keys, ", "@) + "."@,
                    ),
                )
            } else {
                reference_pages::no_rows()
            }
        }),
{
    let params = op.query_params;
    let kept = |param: Param| schema::filter_type(param.kind) is Some;
    let wanted = |param: Param|
        param.kind != ParamKind::SkippedOptional && param.kind != ParamKind::SkippedRequired;
    command_laws::lemma_same_filter(params, kept, wanted);
    let keys = reference_pages::all_key_words(params);
    assert(shows_keys(command_laws::usable(params), keys)) by {
        assert forall|i: int| 0 <= i < keys.len() implies shows_key(
            command_laws::usable(params)[i],
            #[trigger] keys[i],
        ) by {
            let param = command_laws::usable(params)[i];
            command_laws::lemma_filtered(params, wanted, i);
            assert(description_laws::value_type(
                param.kind,
                schema::filter_type(param.kind)->0,
            ));
        }
    }
    let rows = if keys.len() > 0 {
        reference_pages::no_rows().push(
            reference_pages::row(
                "--filter KEY=VALUE"@,
                "repeatable"@,
                "Server-side filter. Valid keys: "@ + text::joined(keys, ", "@) + "."@,
            ),
        )
    } else {
        reference_pages::no_rows()
    };
    if keys.len() > 0 {
        assert(rows =~= seq![
            option(
                "--filter KEY=VALUE"@,
                "repeatable"@,
                "Server-side filter. Valid keys: "@ + text::joined(keys, ", "@) + "."@,
            ),
        ]);
    }
    rows
}

proof fn lemma_list_options(op: Operation, inputs: DocInputs)
    ensures
        list_options(
            op,
            inputs,
            reference_pages::list_rows(op, inputs.field_values, inputs.order_values),
        ),
{
    let filters = lemma_filter_rows(op);
    let rows = reference_pages::list_rows(op, inputs.field_values, inputs.order_values);
    assert(rows =~= filters + seq![
        option(
            "--fields FIELDS"@,
            "string"@,
            sentence_with("Fetch only these fields from the server (comma-separated)."@, listed(op.field_enum_name, inputs.field_values)),
        ),
    ] + (if op.has_order {
        seq![
            option(
                "--order FIELDS"@,
                "string"@,
                sentence_with(
                    "Sort server-side (comma-separated, `-` prefix for descending)."@,
                    listed(op.order_enum_name, inputs.order_values),
                ),
            ),
        ]
    } else {
        Seq::empty()
    }) + seq![
        option("--jmespath EXPR"@, "string"@, "Reshape the already-fetched result client-side (https://jmespath.org)."@),
        option("--limit N"@, "integer"@, "Stop after this many items."@),
        option("--format FORMAT"@, "string"@, "table, json, tsv, toon, or ndjson."@),
    ]);
}

proof fn lemma_good_example(op: Operation)
    ensures
        good_example(op, reference_pages::example_filter(op.query_params)),
{
    let params = op.query_params;
    let kept = |param: Param| schema::filter_type(param.kind) is Some;
    let wanted = |param: Param|
        param.kind != ParamKind::SkippedOptional && param.kind != ParamKind::SkippedRequired;
    command_laws::lemma_same_filter(params, kept, wanted);
    let keys = schema::filter_params(params);
    assert(keys == command_laws::usable(params));
    assert forall|name: Seq<char>| #[trigger]
        verb_codegen::has_param(keys, name) == can_filter_by(op, name) by {
        if verb_codegen::has_param(keys, name) {
            let i = choose|i: int| 0 <= i < keys.len() && (#[trigger] keys[i]).name == name;
            assert(command_laws::usable(params)[i].name == name);
        }
        if can_filter_by(op, name) {
            let i = choose|i: int|
                0 <= i < command_laws::usable(params).len() && (
                #[trigger] command_laws::usable(params)[i]).name == name;
            assert(keys[i].name == name);
        }
    }
    assert(verb_codegen::has_param(keys, "state"@) == can_filter_by(op, "state"@));
    assert(verb_codegen::has_param(keys, "name_exact"@) == can_filter_by(op, "name_exact"@));
    assert(verb_codegen::has_param(keys, "is_active"@) == can_filter_by(op, "is_active"@));
    if keys.len() > 0 {
        command_laws::lemma_filtered(params, wanted, 0);
        reveal_strlit("boolean");
        reveal_strlit("integer");
        reveal_strlit("string");
        assert("boolean"@[0] == 'b');
        assert("integer"@[0] == 'i');
        assert("string"@[0] == 's');
    }
}

proof fn lemma_first_upwards(values: Seq<Seq<char>>)
    ensures
        match reference_pages::first_upwards(values) {
            Some(value) => exists|i: int|
                0 <= i < values.len() && #[trigger] values[i] == value && !(value.len() > 0
                    && value[0] == '-') && forall|j: int|
                    0 <= j < i ==> (#[trigger] values[j]).len() > 0 && values[j][0] == '-',
            None => forall|j: int|
                0 <= j < values.len() ==> (#[trigger] values[j]).len() > 0 && values[j][0] == '-',
        },
    decreases values.len(),
{
    if values.len() > 0 {
        let before = values.drop_last();
        let last = values.len() - 1;
        lemma_first_upwards(before);
        match reference_pages::first_upwards(before) {
            Some(value) => {
                let i = choose|i: int|
                    0 <= i < before.len() && #[trigger] before[i] == value && !(value.len() > 0
                        && value[0] == '-') && forall|j: int|
                        0 <= j < i ==> (#[trigger] before[j]).len() > 0 && before[j][0] == '-';
                assert(values[i] == value);
                assert forall|j: int| 0 <= j < i implies (#[trigger] values[j]).len() > 0
                    && values[j][0] == '-' by {
                    assert(before[j] == values[j]);
                }
            },
            None => {
                assert forall|j: int| 0 <= j < last implies (#[trigger] values[j]).len() > 0
                    && values[j][0] == '-' by {
                    assert(before[j] == values[j]);
                }
                assert(values[last] == values.last());
            },
        }
    }
}

proof fn lemma_list_page(group: Seq<char>, resource: Resource, op: Operation, inputs: DocInputs)
    ensures
        list_page(
            group,
            resource,
            op,
            inputs,
            reference_pages::list_text(
                group,
                resource,
                op,
                inputs.field_values,
                inputs.order_values,
            ),
        ),
{
    let first = column(resource, 0, "uuid"@);
    let rows = reference_pages::list_rows(op, inputs.field_values, inputs.order_values);
    let example = reference_pages::example_filter(op.query_params);
    let field = reference_pages::order_field(op, inputs.order_values, first);
    lemma_list_options(op, inputs);
    lemma_good_example(op);
    assert(good_order(op, inputs, first, field)) by {
        if let Some(values) = listed(op.order_enum_name, inputs.order_values) {
            lemma_first_upwards(values);
        }
    }
    lemma_table(rows);
}

proof fn lemma_get_page(group: Seq<char>, resource: Resource, op: Operation)
    ensures
        get_page(group, resource, op, reference_pages::get_text(group, resource, op)),
{
    let rows = reference_pages::get_rows(resource, op);
    lemma_table(rows);
    assert(rows =~= seq![
        option("<UUID>"@, "positional, required"@, one(op) + " of the resource."@),
    ] + (if resource.web is Some {
        seq![option("--web"@, "flag"@, "Open this resource's page in Waldur's web UI (HomePort) instead of printing it."@)]
    } else {
        Seq::empty()
    }) + seq![option("--format FORMAT"@, "string"@, "table, json, tsv, toon, or ndjson."@)]);
}

proof fn lemma_create_page(group: Seq<char>, resource: Resource, op: Operation, inputs: DocInputs)
    ensures
        create_page(
            group,
            resource,
            op,
            inputs,
            reference_pages::create_text(group, resource, op, inputs.request_skeletons),
        ),
{
    let rows = reference_pages::body_rows(reference_pages::no_rows(), "Print a fillable template and exit, instead of sending a request."@);
    lemma_table(rows);
    assert(rows =~= body_options("Print a fillable template and exit, instead of sending a request."@));
}

proof fn lemma_update_page(group: Seq<char>, resource: Resource, op: Operation, inputs: DocInputs)
    ensures
        update_page(
            group,
            resource,
            op,
            inputs,
            reference_pages::update_text(group, resource, op, inputs.request_skeletons),
        ),
{
    let first = reference_pages::no_rows().push(
        reference_pages::row("<UUID>"@, "positional"@, "Required unless --generate-skeleton (the template doesn't need a specific resource)."@),
    );
    let rows = reference_pages::body_rows(first, "Print a fillable template and exit, instead of sending a request."@);
    lemma_table(rows);
    assert(rows =~= seq![option("<UUID>"@, "positional"@, "Required unless --generate-skeleton (the template doesn't need a specific resource)."@)]
        + body_options("Print a fillable template and exit, instead of sending a request."@));
}

proof fn lemma_delete_page(group: Seq<char>, resource: Resource, op: Operation)
    ensures
        delete_page(group, resource, op, reference_pages::delete_text(group, resource, op)),
{
    let rows = reference_pages::no_rows().push(
        reference_pages::row(
            "<UUID>"@,
            "positional, required"@,
            reference_pages::uuid_word(op) + " of the resource."@,
        ),
    );
    lemma_table(rows);
    assert(rows =~= seq![
        option("<UUID>"@, "positional, required"@, one(op) + " of the resource."@),
    ]);
}

proof fn lemma_order_pages(group: Seq<char>, resource: Resource, inputs: DocInputs)
    ensures
        provision_page(
            group,
            resource,
            inputs,
            reference_pages::provision_text(group, resource, inputs.order_skeletons),
        ),
        terminate_page(group, resource, reference_pages::terminate_text(group, resource)),
{
    let rows = reference_pages::provision_rows();
    lemma_table(rows);
    assert(rows =~= seq![
        option("--request JSON"@, "string"@, "The order body as inline JSON."@),
        option(
            "--request-file PATH"@,
            "path"@,
            "Read the order body from a JSON or YAML file."@,
        ),
        option(
            "--generate-skeleton [FORMAT]"@,
            "json|yaml"@,
            "Print a fillable order template and exit."@,
        ),
        option("--no-wait"@, "flag"@, "Submit and return immediately, without polling the order to completion."@),
        option("--timeout N"@, "integer"@, "Seconds to wait for the order to complete before giving up (default 600)."@),
        option("--interval N"@, "integer"@, "Seconds between polls (default 3)."@),
    ]);
    let last = reference_pages::terminate_rows();
    lemma_table(last);
    assert(last =~= seq![
        option(
            "<MARKETPLACE_RESOURCE_UUID>"@,
            "positional, required"@,
            "The resource's `marketplace_resource_uuid` field (from get/list) -- not its own uuid."@,
        ),
        option(
            "--request JSON"@,
            "string"@,
            "Optional termination attributes as inline JSON."@,
        ),
        option("--no-wait"@, "flag"@, "Submit and return immediately, without polling the order to completion."@),
        option("--timeout N"@, "integer"@, "Seconds to wait for termination before giving up (default 600)."@),
        option("--interval N"@, "integer"@, "Seconds between polls (default 3)."@),
    ]);
}

proof fn lemma_first_other(columns: Seq<Seq<char>>)
    ensures
        match reference_pages::first_other_column(columns) {
            Some(field) => field != "uuid"@ && exists|i: int|
                0 <= i < columns.len() && #[trigger] columns[i] == field && forall|j: int|
                    0 <= j < i ==> #[trigger] columns[j] == "uuid"@,
            None => forall|i: int| 0 <= i < columns.len() ==> #[trigger] columns[i] == "uuid"@,
        },
    decreases columns.len(),
{
    if columns.len() > 0 {
        let before = columns.drop_last();
        let last = columns.len() - 1;
        lemma_first_other(before);
        match reference_pages::first_other_column(before) {
            Some(field) => {
                let i = choose|i: int|
                    0 <= i < before.len() && #[trigger] before[i] == field && forall|j: int|
                        0 <= j < i ==> #[trigger] before[j] == "uuid"@;
                assert(columns[i] == field);
                assert forall|j: int| 0 <= j < i implies #[trigger] columns[j] == "uuid"@ by {
                    assert(before[j] == columns[j]);
                }
            },
            None => {
                assert forall|j: int| 0 <= j < last implies #[trigger] columns[j] == "uuid"@ by {
                    assert(before[j] == columns[j]);
                }
                assert(columns[last] == columns.last());
            },
        }
    }
}

proof fn lemma_wait_page(group: Seq<char>, resource: Resource)
    ensures
        wait_page(group, resource, reference_pages::wait_text(group, resource)),
{
    let columns = text::texts(resource.columns@);
    let field = reference_pages::condition_field(columns);
    lemma_first_other(columns);
    assert(worth_waiting_for(columns, field));
    let rows = reference_pages::wait_rows();
    lemma_table(rows);
    assert(rows =~= seq![
        option("<UUID>"@, "positional, required"@, "uuid of the resource."@),
        option("--jmespath EXPR"@, "string, required"@, "Condition to poll for, evaluated against the fetched object on every poll."@),
        option("--timeout N"@, "integer"@, "Seconds to wait for the condition before giving up (default 600)."@),
        option("--interval N"@, "integer"@, "Seconds between polls (default 3)."@),
    ]);
}

proof fn lemma_action_page(
    group: Seq<char>,
    resource: Resource,
    action: Action,
    inputs: DocInputs,
)
    ensures
        action_page(
            group,
            resource,
            action,
            inputs,
            reference_pages::action_text(group, resource, action, inputs.request_skeletons),
        ),
{
    assert(text::replaced(action.name, '_', '-') =~= with_for(action.name, '_', '-'));
    assert(text::replaced(action.name, '_', ' ') =~= with_for(action.name, '_', ' '));
    let uuid = reference_pages::no_rows().push(
        reference_pages::row("<UUID>"@, "positional, required"@, "uuid of the resource."@),
    );
    assert(uuid =~= seq![option("<UUID>"@, "positional, required"@, "uuid of the resource."@)]);
    lemma_table(uuid);
    let rows = reference_pages::body_rows(uuid, "Print a fillable template and exit."@);
    lemma_table(rows);
    assert(rows =~= uuid + body_options("Print a fillable template and exit."@));
}

/// Whether a page stands where the page of that command belongs.
pub open spec fn stands_right(
    group: Seq<char>,
    resource: Resource,
    verb: Seq<char>,
    page: Page,
) -> bool {
    page.relative_path == group + "/"@ + resource.name@ + "-"@ + with_for(verb, '_', '-') + ".md"@
}

/// The operation that the manifest gives a verb of a resource.
pub open spec fn operation_of(resource: Resource, verb: Seq<char>, inputs: DocInputs) -> Operation {
    inputs.operations[resource.commands@[verb]@]@
}

/// Whether a page is the one of a verb, with the operation that the manifest gives it.
pub open spec fn is_page_of(
    group: Seq<char>,
    resource: Resource,
    verb: Seq<char>,
    inputs: DocInputs,
    page: Page,
) -> bool {
    let op = operation_of(resource, verb, inputs);
    &&& stands_right(group, resource, verb, page)
    &&& if verb == "list"@ {
        list_page(group, resource, op, inputs, page.content)
    } else if verb == "get"@ {
        get_page(group, resource, op, page.content)
    } else if verb == "create"@ {
        create_page(group, resource, op, inputs, page.content)
    } else if verb == "update"@ {
        update_page(group, resource, op, inputs, page.content)
    } else {
        delete_page(group, resource, op, page.content)
    }
}

/// The actions that were discovered for a resource.
pub open spec fn actions_of(resource: Resource, inputs: DocInputs) -> Seq<Action> {
    if inputs.actions.contains_key(resource.name@) {
        schema::actions_of(inputs.actions[resource.name@]@)
    } else {
        Seq::empty()
    }
}

/// Whether pages are those of a resource: one for every verb that the manifest gives it,
/// then `provision` and `terminate` where it has a marketplace order, then `wait` where it
/// has `get`, then one for every action.
pub open spec fn are_pages_of(
    group: Seq<char>,
    resource: Resource,
    inputs: DocInputs,
    pages: Seq<Page>,
) -> bool {
    let verbs = command_laws::given_verbs(resource, 5);
    let actions = actions_of(resource, inputs);
    let n = verbs.len() as int;
    let orders: int = if resource.order is Some {
        2
    } else {
        0
    };
    let waits: int = if resource.commands@.contains_key("get"@) {
        1
    } else {
        0
    };
    &&& pages.len() == n + orders + waits + actions.len()
    &&& forall|i: int|
        0 <= i < n ==> is_page_of(group, resource, verbs[i], inputs, #[trigger] pages[i])
    &&& resource.order is Some ==> {
        &&& stands_right(group, resource, "provision"@, pages[n])
        &&& provision_page(group, resource, inputs, pages[n].content)
        &&& stands_right(group, resource, "terminate"@, pages[n + 1])
        &&& terminate_page(group, resource, pages[n + 1].content)
    }
    &&& waits == 1 ==> {
        &&& stands_right(group, resource, "wait"@, pages[n + orders])
        &&& wait_page(group, resource, pages[n + orders].content)
    }
    &&& forall|k: int|
        0 <= k < actions.len() ==> {
            let page = pages[n + orders + waits + k];
            &&& stands_right(group, resource, (#[trigger] actions[k]).name, page)
            &&& action_page(group, resource, actions[k], inputs, page.content)
        }
}

proof fn lemma_stands_right(
    group: Seq<char>,
    resource: Resource,
    verb: Seq<char>,
    content: Seq<char>,
)
    ensures
        stands_right(
            group,
            resource,
            verb,
            reference_pages::command_page(group, resource.name@, verb, content),
        ),
{
    assert(text::replaced(verb, '_', '-') =~= with_for(verb, '_', '-'));
}

proof fn lemma_verb_pages(group: Seq<char>, resource: Resource, inputs: DocInputs, n: nat)
    requires
        n <= 5,
    ensures
        reference_docs::verb_pages(group, resource, inputs, n) is Ok
            <==> description_laws::is_complete(resource, inputs.operations, n),
        reference_docs::verb_pages(group, resource, inputs, n) matches Ok(pages) ==> {
            let verbs = command_laws::given_verbs(resource, n);
            &&& pages.len() == verbs.len()
            &&& forall|i: int|
                0 <= i < pages.len() ==> is_page_of(
                    group,
                    resource,
                    verbs[i],
                    inputs,
                    #[trigger] pages[i],
                )
        },
    decreases n,
{
    if n > 0 {
        manifest::known_verbs_differ();
        lemma_verb_pages(group, resource, inputs, (n - 1) as nat);
        let verb = command_laws::verb_text(n - 1);
        assert(verb == manifest::verb_at(n - 1));
        let op = operation_of(resource, verb, inputs);
        lemma_list_page(group, resource, op, inputs);
        lemma_get_page(group, resource, op);
        lemma_create_page(group, resource, op, inputs);
        lemma_update_page(group, resource, op, inputs);
        lemma_delete_page(group, resource, op);
        let page = reference_docs::verb_page(group, resource, verb, op, inputs);
        lemma_stands_right(group, resource, verb, page.content);
        assert(is_page_of(group, resource, verb, inputs, page));
    }
}

/// Every command of a resource has its page, in the order of the commands: the page stands
/// where it belongs and says how the command is typed, what it takes and what it is for.
pub proof fn every_command_has_its_page(group: Seq<char>, resource: Resource, inputs: DocInputs)
    ensures
        reference_docs::resource_pages(group, resource, inputs) is Ok
            <==> description_laws::is_complete(resource, inputs.operations, 5),
        reference_docs::resource_pages(group, resource, inputs) matches Ok(pages) ==> are_pages_of(
            group,
            resource,
            inputs,
            pages,
        ),
{
    reveal(reference_docs::resource_pages);
    lemma_verb_pages(group, resource, inputs, 5);
    if let Ok(pages) = reference_docs::resource_pages(group, resource, inputs) {
        let verbs = reference_docs::verb_pages(group, resource, inputs, 5)->Ok_0;
        let orders = reference_docs::order_pages(group, resource, inputs);
        let waits = reference_docs::wait_pages(group, resource);
        let others = reference_docs::action_pages(group, resource, inputs);
        let actions = actions_of(resource, inputs);
        let n = verbs.len() as int;
        assert forall|i: int| 0 <= i < n implies verbs[i] == #[trigger] pages[i] by {}
        lemma_order_pages(group, resource, inputs);
        lemma_wait_page(group, resource);
        if resource.order is Some {
            assert(pages[n] == orders[0]);
            assert(pages[n + 1] == orders[1]);
            lemma_stands_right(group, resource, "provision"@, orders[0].content);
            lemma_stands_right(group, resource, "terminate"@, orders[1].content);
        }
        if resource.commands@.contains_key("get"@) {
            assert(pages[n + orders.len()] == waits[0]);
            lemma_stands_right(group, resource, "wait"@, waits[0].content);
        }
        assert forall|k: int| 0 <= k < actions.len() implies {
            let page = pages[n + orders.len() + waits.len() + k];
            &&& stands_right(group, resource, (#[trigger] actions[k]).name, page)
            &&& action_page(group, resource, actions[k], inputs, page.content)
        } by {
            let page = pages[n + orders.len() + waits.len() + k];
            assert(page == others[k]);
            lemma_action_page(group, resource, actions[k], inputs);
            lemma_stands_right(group, resource, actions[k].name, page.content);
        }
    }
}

} // verus!
