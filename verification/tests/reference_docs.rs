//! Reference pages.
use waldur_cli_generator::manifest::{
    ActionsConfig, Group, Manifest, OrderConfig, Resource, WebConfig,
};
use waldur_cli_generator::reference_docs::{generate, ReferencePage};
use waldur_cli_generator::reference_pages::{
    compact_json, list_page, pick_example_filter, wait_page,
};
use waldur_cli_generator::schema::{
    ExtractedAction, ExtractedOperation, ExtractedParam, ParamKind,
};
use waldur_cli_generator::table::Table;

fn resource(name: &str, columns: &[&str]) -> Resource {
    Resource {
        name: name.to_string(),
        about: format!("{name}s"),
        columns: columns.iter().map(|s| s.to_string()).collect(),
        commands: Table::new(),
        order: None,
        actions: None,
        web: None,
    }
}

fn param(name: &str, kind: ParamKind) -> ExtractedParam {
    ExtractedParam { name: name.to_string(), kind }
}

fn op_with_params(params: Vec<ExtractedParam>) -> ExtractedOperation {
    ExtractedOperation {
        operation_id: "thing_list".to_string(),
        path: "/api/things/".to_string(),
        http_verb: "get".to_string(),
        path_param: None,
        query_params: params,
        field_enum_name: None,
        has_order: false,
        order_enum_name: None,
        request_body_type: None,
    }
}

// -- pick_example_filter -----------------------------------------------

#[test]
fn pick_example_filter_prefers_state_when_present() {
    let op = op_with_params(vec![
        param("cores__gte", ParamKind::RequiredI64),
        param("state", ParamKind::OptionalStr),
        param("name_exact", ParamKind::OptionalStr),
    ]);
    assert_eq!(pick_example_filter(&op), Some(("state", "OK")));
}

#[test]
fn pick_example_filter_falls_back_to_name_exact() {
    let op = op_with_params(vec![
        param("cores__gte", ParamKind::RequiredI64),
        param("name_exact", ParamKind::OptionalStr),
    ]);
    assert_eq!(pick_example_filter(&op), Some(("name_exact", "example")));
}

#[test]
fn pick_example_filter_falls_back_to_first_param_when_no_preferred_key_matches() {
    let op = op_with_params(vec![param("cores__gte", ParamKind::RequiredI64)]);
    assert_eq!(pick_example_filter(&op), Some(("cores__gte", "1")));
}

#[test]
fn pick_example_filter_none_when_no_filters_at_all() {
    let op = op_with_params(vec![]);
    assert_eq!(pick_example_filter(&op), None);
}

#[test]
fn pick_example_filter_knows_every_kind_of_value() {
    let active = op_with_params(vec![param("is_active", ParamKind::OptionalBool)]);
    assert_eq!(pick_example_filter(&active), Some(("is_active", "true")));
    let flag = op_with_params(vec![param("shared", ParamKind::OptionalBool)]);
    assert_eq!(pick_example_filter(&flag), Some(("shared", "true")));
    let word = op_with_params(vec![param("query", ParamKind::OptionalStr)]);
    assert_eq!(pick_example_filter(&word), Some(("query", "example")));
}

#[test]
fn pick_example_filter_only_uses_filter_keys() {
    // A parameter that cannot be a filter is no example, and does not hide one.
    let op = op_with_params(vec![
        param("state", ParamKind::SkippedOptional),
        param("geometry", ParamKind::SkippedOptional),
        param("cores__gte", ParamKind::OptionalI64),
    ]);
    assert_eq!(pick_example_filter(&op), Some(("cores__gte", "1")));
}

// -- wait_page: never conditions the example on the resource's own uuid

#[test]
fn wait_page_example_prefers_state_column() {
    let resource = resource("thing", &["uuid", "name", "state", "project_name"]);
    let rendered = wait_page("openstack", &resource).content;
    assert!(rendered.contains("--jmespath \"state=='OK'\""));
}

#[test]
fn wait_page_example_never_conditions_on_uuid_even_without_a_state_column() {
    // A resource like `flavor` has no "state" column at all -- the
    // example must still not become the nonsensical `uuid=='OK'`.
    let resource = resource("flavor", &["uuid", "name", "cores"]);
    let rendered = wait_page("openstack", &resource).content;
    assert!(!rendered.contains("uuid=='OK'"));
    assert!(rendered.contains("--jmespath \"name=='OK'\""));
}

#[test]
fn wait_page_example_never_conditions_on_uuid_wherever_it_stands() {
    let second = wait_page("openstack", &resource("key", &["name", "uuid"])).content;
    assert!(second.contains("--jmespath \"name=='OK'\""));
    let only = wait_page("openstack", &resource("key", &["uuid"])).content;
    assert!(only.contains("--jmespath \"state=='OK'\""));
    let none = wait_page("openstack", &resource("key", &[])).content;
    assert!(none.contains("--jmespath \"state=='OK'\""));
}

// -- list_page: --order example must be an actual valid order value ----

#[test]
fn list_page_order_example_uses_a_real_enum_value_not_an_arbitrary_column() {
    let resource = resource("flavor", &["uuid", "name", "cores"]);
    let mut op = op_with_params(vec![]);
    op.has_order = true;
    op.order_enum_name = Some("FlavorOEnum".to_string());
    let mut order_enum_values: Table<Vec<String>> = Table::new();
    order_enum_values
        .insert("FlavorOEnum".to_string(), vec!["-cores".to_string(), "cores".to_string()]);
    let empty: Table<Vec<String>> = Table::new();

    let rendered = list_page("openstack", &resource, &op, &empty, &order_enum_values).content;

    // "uuid" (the resource's own first column) is not a valid --order
    // value for flavor -- the example must use "cores" instead.
    assert!(rendered.contains("--order cores --limit 1"));
    assert!(!rendered.contains("--order uuid"));
}

#[test]
fn list_page_order_example_falls_back_to_first_column_without_a_resolvable_enum() {
    let resource = resource("customer", &["uuid", "name"]);
    let mut op = op_with_params(vec![]);
    op.has_order = true;
    op.order_enum_name = None; // e.g. customers' bare `string` "o" param
    let empty: Table<Vec<String>> = Table::new();

    let rendered = list_page("team", &resource, &op, &empty, &empty).content;

    assert!(rendered.contains("--order uuid --limit 1"));
}

#[test]
fn list_page_in_full() {
    let resource = resource("flavor", &["uuid", "name"]);
    let mut op = op_with_params(vec![
        param("name_exact", ParamKind::OptionalStr),
        param("shape", ParamKind::SkippedOptional),
        param("cores", ParamKind::OptionalI64),
    ]);
    op.field_enum_name = Some("FlavorFieldEnum".to_string());
    let mut fields: Table<Vec<String>> = Table::new();
    fields.insert("FlavorFieldEnum".to_string(), vec!["uuid".to_string(), "name".to_string()]);
    let page = list_page("openstack", &resource, &op, &fields, &Table::new());
    assert_eq!(page.relative_path, "openstack/flavor-list.md");
    assert_eq!(
        page.content,
        "# `waldur-cli openstack flavor list`\n\nList flavors.\n\n## Usage\n\n```bash\n\
         waldur-cli openstack flavor list [OPTIONS]\n```\n\n\
         | Flag | Type | Description |\n| --- | --- | --- |\n\
         | `--filter KEY=VALUE` | repeatable | Server-side filter. Valid keys: `name_exact` (string), `cores` (integer). |\n\
         | `--fields FIELDS` | string | Fetch only these fields from the server (comma-separated). Valid: uuid, name. |\n\
         | `--jmespath EXPR` | string | Reshape the already-fetched result client-side (https://jmespath.org). |\n\
         | `--limit N` | integer | Stop after this many items. |\n\
         | `--format FORMAT` | string | table, json, tsv, toon, or ndjson. |\n\
         \n## Examples\n\n```bash\nwaldur-cli openstack flavor list --filter name_exact=example --fields uuid,name --format json\n```\n\
         \nProject just the columns you need, client-side:\n\n```bash\n\
         waldur-cli openstack flavor list --jmespath '[].[uuid, name]'\n```\n\
         \n## Global options\n\n\
         Every command also accepts `--api-url`, `--token`, `--profile`, `--format`, and `--debug`; \
         mutating commands additionally accept `--dry-run`. See \
         [Getting started](../../1-getting-started.md) for what each does.\n"
    );
}

// -- compact_json --------------------------------------------------

#[test]
fn compact_json_minifies_pretty_printed_input() {
    let pretty = "{\n  \"name\": \"\",\n  \"count\": 0\n}";
    assert_eq!(compact_json(pretty), r#"{"count":0,"name":""}"#);
}

#[test]
fn compact_json_falls_back_to_raw_text_on_invalid_json() {
    assert_eq!(compact_json("not json"), "not json");
}

// -- generate ---------------------------------------------------------------

fn operation(id: &str, verb: &str, path_param: Option<&str>, body: Option<&str>) -> ExtractedOperation {
    ExtractedOperation {
        operation_id: id.to_string(),
        path: match path_param {
            Some(name) => format!("/api/things/{{{name}}}/"),
            None => "/api/things/".to_string(),
        },
        http_verb: verb.to_string(),
        path_param: path_param.map(|s| s.to_string()),
        query_params: Vec::new(),
        field_enum_name: None,
        has_order: false,
        order_enum_name: None,
        request_body_type: body.map(|s| s.to_string()),
    }
}

struct Fixture {
    manifest: Manifest,
    operations: Table<ExtractedOperation>,
    request_skeletons: Table<String>,
    order_skeletons: Table<String>,
    actions: Table<Vec<ExtractedAction>>,
}

fn fixture() -> Fixture {
    let mut operations = Table::new();
    let mut commands = Table::new();
    for (verb, id, http, param, body) in [
        ("list", "things_list", "get", None, None),
        ("get", "things_retrieve", "get", Some("uuid"), None),
        ("create", "things_create", "post", None, Some("ThingRequest")),
        ("update", "things_update", "put", Some("uuid"), Some("ThingRequest")),
        ("delete", "things_destroy", "delete", Some("uuid"), None),
    ] {
        commands.insert(verb.to_string(), id.to_string());
        operations.insert(id.to_string(), operation(id, http, param, body));
    }
    let mut request_skeletons = Table::new();
    request_skeletons.insert("ThingRequest".to_string(), "{\n  \"name\": \"\"\n}".to_string());
    let mut order_skeletons = Table::new();
    order_skeletons.insert("big-thing".to_string(), "{\n  \"offering\": \"\"\n}".to_string());
    let mut actions = Table::new();
    actions.insert(
        "big-thing".to_string(),
        vec![
            ExtractedAction {
                name: "change_flavor".to_string(),
                operation: operation("t1", "post", Some("uuid"), Some("ThingRequest")),
            },
            ExtractedAction {
                name: "start".to_string(),
                operation: operation("t2", "post", Some("uuid"), None),
            },
        ],
    );
    let mut big = resource("big-thing", &["uuid", "name", "state"]);
    big.commands = commands;
    big.order = Some(OrderConfig { offering_type: None });
    big.web = Some(WebConfig { path: "/t/{uuid}/".to_string(), uuid_field: None });
    big.actions = Some(ActionsConfig { exclude: Vec::new() });
    let mut small = resource("atom", &["uuid"]);
    small.commands.insert("list".to_string(), "things_list".to_string());
    let idle = resource("idle", &["uuid"]);
    Fixture {
        manifest: Manifest {
            group: vec![
                Group {
                    name: "zoo".to_string(),
                    about: "Zoo".to_string(),
                    resource: vec![big, small],
                },
                Group { name: "air".to_string(), about: "Air".to_string(), resource: vec![idle] },
            ],
        },
        operations,
        request_skeletons,
        order_skeletons,
        actions,
    }
}

fn pages(f: &Fixture) -> Vec<ReferencePage> {
    let none: Table<Vec<String>> = Table::new();
    generate(
        &f.manifest,
        &f.operations,
        &none,
        &none,
        &f.request_skeletons,
        &Table::new(),
        &f.order_skeletons,
        &f.actions,
    )
    .unwrap()
}

#[test]
fn one_page_per_command_then_the_indexes() {
    let f = fixture();
    let paths: Vec<String> = pages(&f).into_iter().map(|p| p.relative_path).collect();
    assert_eq!(
        paths,
        vec![
            "zoo/big-thing-list.md",
            "zoo/big-thing-get.md",
            "zoo/big-thing-create.md",
            "zoo/big-thing-update.md",
            "zoo/big-thing-delete.md",
            "zoo/big-thing-provision.md",
            "zoo/big-thing-terminate.md",
            "zoo/big-thing-wait.md",
            "zoo/big-thing-change-flavor.md",
            "zoo/big-thing-start.md",
            "zoo/atom-list.md",
            "README.md",
            "zoo/README.md",
        ]
    );
}

#[test]
fn the_group_index_sorts_resources_and_links_every_page() {
    let f = fixture();
    let all = pages(&f);
    assert_eq!(
        all.last().unwrap().content,
        "# `waldur-cli zoo`\n\n## atom\n\n- [list](./atom-list.md)\n\n## big-thing\n\n\
         - [list](./big-thing-list.md)\n- [get](./big-thing-get.md)\n\
         - [create](./big-thing-create.md)\n- [update](./big-thing-update.md)\n\
         - [delete](./big-thing-delete.md)\n- [provision](./big-thing-provision.md)\n\
         - [terminate](./big-thing-terminate.md)\n- [wait](./big-thing-wait.md)\n\
         - [change-flavor](./big-thing-change-flavor.md)\n- [start](./big-thing-start.md)\n\n"
    );
    let paths: Vec<String> = all.iter().map(|p| p.relative_path.clone()).collect();
    for line in all.last().unwrap().content.lines().filter(|l| l.starts_with("- [")) {
        let target = line.split("](./").nth(1).unwrap().trim_end_matches(')');
        assert!(paths.contains(&format!("zoo/{target}")));
    }
}

#[test]
fn the_top_index_lists_groups_with_pages_in_order() {
    let f = fixture();
    let all = pages(&f);
    let top = all.iter().find(|p| p.relative_path == "README.md").unwrap();
    assert_eq!(
        top.content,
        "# waldur-cli command reference\n\nOne page per command. Generated from the same schema data the CLI itself is built from -- see [Development](../development.md) for how.\n\n- [zoo](./zoo/)\n"
    );
}

fn page_at(all: &[ReferencePage], path: &str) -> String {
    all.iter().find(|p| p.relative_path == path).unwrap().content.clone()
}

#[test]
fn get_page_offers_the_web_ui_where_it_is_configured() {
    let f = fixture();
    let page = page_at(&pages(&f), "zoo/big-thing-get.md");
    assert!(page.starts_with(
        "# `waldur-cli zoo big-thing get`\n\nGet big-things.\n\n## Usage\n\n```bash\n\
         waldur-cli zoo big-thing get <UUID> [OPTIONS]\n```\n\n\
         | Flag | Type | Description |\n| --- | --- | --- |\n\
         | `<UUID>` | positional, required | uuid of the resource. |\n\
         | `--web` | flag | Open this resource's page in Waldur's web UI (HomePort) instead of printing it. |\n\
         | `--format FORMAT` | string | table, json, tsv, toon, or ndjson. |\n\
         \n## Examples\n\n```bash\nwaldur-cli zoo big-thing get <uuid> --format json\n```\n\
         \nOpen it in the browser instead:\n\n```bash\nwaldur-cli zoo big-thing get <uuid> --web\n```\n\
         \n## Global options\n"
    ));
}

#[test]
fn create_and_update_pages_show_a_one_line_request() {
    let f = fixture();
    let all = pages(&f);
    let create = page_at(&all, "zoo/big-thing-create.md");
    assert!(create.contains(
        "\nThen fill it in and submit:\n\n```bash\nwaldur-cli zoo big-thing create --request '{\"name\":\"\"}'\n```\n"
    ));
    let update = page_at(&all, "zoo/big-thing-update.md");
    assert!(update.contains(
        "\nThen fill it in and submit (only the fields you're changing need a value -- `null` fields in the template are omitted, not sent literally):\n\n```bash\nwaldur-cli zoo big-thing update <uuid> --request '{\"name\":\"\"}'\n```\n"
    ));
    assert!(update.contains(
        "| `<UUID>` | positional | Required unless --generate-skeleton (the template doesn't need a specific resource). |\n"
    ));
}

#[test]
fn delete_provision_and_terminate_pages_have_their_examples() {
    let f = fixture();
    let all = pages(&f);
    assert!(page_at(&all, "zoo/big-thing-delete.md").contains(
        "\n## Examples\n\n```bash\nwaldur-cli zoo big-thing delete <uuid>\n```\n\nPreview without deleting:\n\n```bash\nwaldur-cli zoo big-thing delete <uuid> --dry-run\n```\n"
    ));
    let provision = page_at(&all, "zoo/big-thing-provision.md");
    assert!(provision.contains("Provision big-things via a marketplace order.\n"));
    assert!(provision.contains("--request '{\"offering\":\"\"}'"));
    assert!(provision.contains(" --request-file order.yaml --no-wait --format json\n"));
    assert!(page_at(&all, "zoo/big-thing-terminate.md")
        .contains("<marketplace-resource-uuid> --request '{\"delete_volumes\": true}'\n"));
}

#[test]
fn action_pages_depend_on_the_request_body() {
    let f = fixture();
    let all = pages(&f);
    let with_body = page_at(&all, "zoo/big-thing-change-flavor.md");
    assert!(with_body.starts_with(
        "# `waldur-cli zoo big-thing change-flavor`\n\nChange flavor big-things.\n\n## Usage\n"
    ));
    assert!(with_body.contains("change-flavor <uuid> --request '{\"name\":\"\"}'\n"));
    let bodyless = page_at(&all, "zoo/big-thing-start.md");
    assert!(bodyless.contains("\n(sends a bodyless POST to `/api/things/{uuid}/`)\n"));
}

#[test]
fn an_operation_that_was_not_extracted_stops_the_pages() {
    let mut f = fixture();
    f.operations = Table::new();
    let none: Table<Vec<String>> = Table::new();
    let err = generate(
        &f.manifest,
        &f.operations,
        &none,
        &none,
        &f.request_skeletons,
        &Table::new(),
        &f.order_skeletons,
        &f.actions,
    )
    .unwrap_err();
    assert_eq!(
        err.message("reference_docs"),
        "reference_docs: operation `things_list` (group `zoo`, resource `big-thing`, verb `list`) not extracted"
    );
}

fn in_full(verb: &str, expected: &str) {
    let f = fixture();
    assert_eq!(page_at(&pages(&f), &format!("zoo/big-thing-{verb}.md")), expected);
}

#[test]
fn create_page_in_full() {
    in_full(
        "create",
        r##"# `waldur-cli zoo big-thing create`

Create big-things.

## Usage

```bash
waldur-cli zoo big-thing create (--request JSON | --request-file PATH | --generate-skeleton)
```

| Flag | Type | Description |
| --- | --- | --- |
| `--request JSON` | string | Request body as inline JSON. |
| `--request-file PATH` | path | Read the request body from a JSON or YAML file. |
| `--generate-skeleton [FORMAT]` | json|yaml | Print a fillable template and exit, instead of sending a request. |

## Examples

See the fillable template first:

```bash
waldur-cli zoo big-thing create --generate-skeleton
```

Then fill it in and submit:

```bash
waldur-cli zoo big-thing create --request '{"name":""}'
```

## Global options

Every command also accepts `--api-url`, `--token`, `--profile`, `--format`, and `--debug`; mutating commands additionally accept `--dry-run`. See [Getting started](../../1-getting-started.md) for what each does.
"##,
    );
}

#[test]
fn update_page_in_full() {
    in_full(
        "update",
        r##"# `waldur-cli zoo big-thing update`

Update big-things.

## Usage

```bash
waldur-cli zoo big-thing update <UUID> (--request JSON | --request-file PATH | --generate-skeleton)
```

| Flag | Type | Description |
| --- | --- | --- |
| `<UUID>` | positional | Required unless --generate-skeleton (the template doesn't need a specific resource). |
| `--request JSON` | string | Request body as inline JSON. |
| `--request-file PATH` | path | Read the request body from a JSON or YAML file. |
| `--generate-skeleton [FORMAT]` | json|yaml | Print a fillable template and exit, instead of sending a request. |

## Examples

See the fillable template first:

```bash
waldur-cli zoo big-thing update --generate-skeleton
```

Then fill it in and submit (only the fields you're changing need a value -- `null` fields in the template are omitted, not sent literally):

```bash
waldur-cli zoo big-thing update <uuid> --request '{"name":""}'
```

## Global options

Every command also accepts `--api-url`, `--token`, `--profile`, `--format`, and `--debug`; mutating commands additionally accept `--dry-run`. See [Getting started](../../1-getting-started.md) for what each does.
"##,
    );
}

#[test]
fn delete_page_in_full() {
    in_full(
        "delete",
        r##"# `waldur-cli zoo big-thing delete`

Delete big-things.

## Usage

```bash
waldur-cli zoo big-thing delete <UUID>
```

| Flag | Type | Description |
| --- | --- | --- |
| `<UUID>` | positional, required | uuid of the resource. |

## Examples

```bash
waldur-cli zoo big-thing delete <uuid>
```

Preview without deleting:

```bash
waldur-cli zoo big-thing delete <uuid> --dry-run
```

## Global options

Every command also accepts `--api-url`, `--token`, `--profile`, `--format`, and `--debug`; mutating commands additionally accept `--dry-run`. See [Getting started](../../1-getting-started.md) for what each does.
"##,
    );
}

#[test]
fn provision_page_in_full() {
    in_full(
        "provision",
        r##"# `waldur-cli zoo big-thing provision`

Provision big-things via a marketplace order.

## Usage

```bash
waldur-cli zoo big-thing provision (--request JSON | --request-file PATH | --generate-skeleton)
```

| Flag | Type | Description |
| --- | --- | --- |
| `--request JSON` | string | The order body as inline JSON. |
| `--request-file PATH` | path | Read the order body from a JSON or YAML file. |
| `--generate-skeleton [FORMAT]` | json|yaml | Print a fillable order template and exit. |
| `--no-wait` | flag | Submit and return immediately, without polling the order to completion. |
| `--timeout N` | integer | Seconds to wait for the order to complete before giving up (default 600). |
| `--interval N` | integer | Seconds between polls (default 3). |

## Examples

See the fillable template first:

```bash
waldur-cli zoo big-thing provision --generate-skeleton
```

Then fill it in and submit:

```bash
waldur-cli zoo big-thing provision --request '{"offering":""}'
```

Fire-and-forget, checking on it later from the printed order UUID:

```bash
waldur-cli zoo big-thing provision --request-file order.yaml --no-wait --format json
```

## Global options

Every command also accepts `--api-url`, `--token`, `--profile`, `--format`, and `--debug`; mutating commands additionally accept `--dry-run`. See [Getting started](../../1-getting-started.md) for what each does.
"##,
    );
}

#[test]
fn terminate_page_in_full() {
    in_full(
        "terminate",
        r##"# `waldur-cli zoo big-thing terminate`

Terminate big-things via a marketplace order.

## Usage

```bash
waldur-cli zoo big-thing terminate <MARKETPLACE_RESOURCE_UUID> [OPTIONS]
```

| Flag | Type | Description |
| --- | --- | --- |
| `<MARKETPLACE_RESOURCE_UUID>` | positional, required | The resource's `marketplace_resource_uuid` field (from get/list) -- not its own uuid. |
| `--request JSON` | string | Optional termination attributes as inline JSON. |
| `--no-wait` | flag | Submit and return immediately, without polling the order to completion. |
| `--timeout N` | integer | Seconds to wait for termination before giving up (default 600). |
| `--interval N` | integer | Seconds between polls (default 3). |

## Examples

```bash
waldur-cli zoo big-thing terminate <marketplace-resource-uuid>
```

With termination attributes:

```bash
waldur-cli zoo big-thing terminate <marketplace-resource-uuid> --request '{"delete_volumes": true}'
```

## Global options

Every command also accepts `--api-url`, `--token`, `--profile`, `--format`, and `--debug`; mutating commands additionally accept `--dry-run`. See [Getting started](../../1-getting-started.md) for what each does.
"##,
    );
}

#[test]
fn wait_page_in_full() {
    in_full(
        "wait",
        r##"# `waldur-cli zoo big-thing wait`

Poll big-things until a `--jmespath` condition against it stops evaluating to `false`/`null`, or error on timeout. Client-side polling -- Waldur's API has no server-side watch/push mechanism.

## Usage

```bash
waldur-cli zoo big-thing wait <UUID> --jmespath EXPR [OPTIONS]
```

| Flag | Type | Description |
| --- | --- | --- |
| `<UUID>` | positional, required | uuid of the resource. |
| `--jmespath EXPR` | string, required | Condition to poll for, evaluated against the fetched object on every poll. |
| `--timeout N` | integer | Seconds to wait for the condition before giving up (default 600). |
| `--interval N` | integer | Seconds between polls (default 3). |

## Examples

```bash
waldur-cli zoo big-thing wait <uuid> --jmespath "state=='OK'"
```

## Global options

Every command also accepts `--api-url`, `--token`, `--profile`, `--format`, and `--debug`; mutating commands additionally accept `--dry-run`. See [Getting started](../../1-getting-started.md) for what each does.
"##,
    );
}

#[test]
fn change_flavor_page_in_full() {
    in_full(
        "change-flavor",
        r##"# `waldur-cli zoo big-thing change-flavor`

Change flavor big-things.

## Usage

```bash
waldur-cli zoo big-thing change-flavor <UUID> (--request JSON | --request-file PATH | --generate-skeleton)
```

| Flag | Type | Description |
| --- | --- | --- |
| `<UUID>` | positional, required | uuid of the resource. |
| `--request JSON` | string | Request body as inline JSON. |
| `--request-file PATH` | path | Read the request body from a JSON or YAML file. |
| `--generate-skeleton [FORMAT]` | json|yaml | Print a fillable template and exit. |

## Examples

```bash
waldur-cli zoo big-thing change-flavor <uuid> --generate-skeleton
```

```bash
waldur-cli zoo big-thing change-flavor <uuid> --request '{"name":""}'
```

## Global options

Every command also accepts `--api-url`, `--token`, `--profile`, `--format`, and `--debug`; mutating commands additionally accept `--dry-run`. See [Getting started](../../1-getting-started.md) for what each does.
"##,
    );
}

#[test]
fn start_page_in_full() {
    in_full(
        "start",
        r##"# `waldur-cli zoo big-thing start`

Start big-things.

## Usage

```bash
waldur-cli zoo big-thing start <UUID>
```

| Flag | Type | Description |
| --- | --- | --- |
| `<UUID>` | positional, required | uuid of the resource. |

## Examples

```bash
waldur-cli zoo big-thing start <uuid>
```

(sends a bodyless POST to `/api/things/{uuid}/`)

## Global options

Every command also accepts `--api-url`, `--token`, `--profile`, `--format`, and `--debug`; mutating commands additionally accept `--dry-run`. See [Getting started](../../1-getting-started.md) for what each does.
"##,
    );
}

#[test]
fn list_page_has_no_order_example_where_no_value_sorts_upwards() {
    let resource = resource("flavor", &["uuid", "name"]);
    let mut op = op_with_params(vec![]);
    op.has_order = true;
    op.order_enum_name = Some("FlavorOEnum".to_string());
    for values in [vec!["-cores".to_string()], vec![]] {
        let mut order_enum_values: Table<Vec<String>> = Table::new();
        order_enum_values.insert("FlavorOEnum".to_string(), values);
        let rendered =
            list_page("openstack", &resource, &op, &Table::new(), &order_enum_values).content;
        assert!(!rendered.contains("list --order"));
        assert!(rendered.contains("`--order FIELDS`"));
    }
}
