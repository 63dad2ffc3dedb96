//! The markdown page of every kind of command.
use crate::json;
use crate::json::{read, write_compact};
use crate::manifest::Resource;
use crate::reference_docs::{Page, ReferencePage};
use crate::schema;
use crate::schema::{
    filter_kind_str, Action, ExtractedAction, ExtractedOperation, ExtractedParam, Operation, Param,
};
use crate::table::Table;
use crate::text;
use crate::text::{capitalize, join, replace_char, same};
use crate::verb_codegen;
use vstd::prelude::*;
use vstd::string::*;

verus! {

/// The flags that almost every command has, in one short pointer.
pub const GLOBAL_OPTIONS: &'static str = "\n## Global options\n\n\
    Every command also accepts `--api-url`, `--token`, `--profile`, `--format`, and `--debug`; \
    mutating commands additionally accept `--dry-run`. See \
    [Getting started](../../1-getting-started.md) for what each does.\n";

/// The verb as it is typed: an action like `change_flavor` is invoked as `change-flavor`.
pub open spec fn typed_verb(name: Seq<char>) -> Seq<char> {
    text::replaced(name, '_', '-')
}

/// The verb as it is typed.
pub fn cli_verb(name: &str) -> (verb: String)
    ensures
        verb@ == typed_verb(name@),
{
    replace_char(name, '_', '-')
}

/// A row of an options table.
#[derive(Debug)]
pub struct OptionRow<S = String> {
    pub flag: S,
    pub kind: S,
    pub description: S,
}

impl OptionRow<String> {
    pub open spec fn model(self) -> OptionRow<Seq<char>> {
        OptionRow { flag: self.flag@, kind: self.kind@, description: self.description@ }
    }
}

pub open spec fn rows_of(rows: Seq<OptionRow>) -> Seq<OptionRow<Seq<char>>> {
    rows.map_values(|row: OptionRow| row.model())
}

/// A row made of its three texts.
pub open spec fn row(flag: Seq<char>, kind: Seq<char>, description: Seq<char>) -> OptionRow<
    Seq<char>,
> {
    OptionRow { flag, kind, description }
}

/// No rows.
pub open spec fn no_rows() -> Seq<OptionRow<Seq<char>>> {
    Seq::empty()
}

fn append_row(rows: &mut Vec<OptionRow>, flag: &str, kind: &str, description: &str)
    ensures
        rows_of(final(rows)@) == rows_of(old(rows)@).push(row(flag@, kind@, description@)),
{
    let ghost before = rows_of(rows@);
    rows.push(
        OptionRow {
            flag: flag.to_string(),
            kind: kind.to_string(),
            description: description.to_string(),
        },
    );
    assert(rows_of(rows@) =~= before.push(row(flag@, kind@, description@)));
}

fn start_rows() -> (rows: Vec<OptionRow>)
    ensures
        rows_of(rows@) == no_rows(),
{
    let rows: Vec<OptionRow> = Vec::new();
    assert(rows_of(rows@) =~= no_rows());
    rows
}

/// The rows of an options table, one line each.
pub open spec fn row_lines(rows: Seq<OptionRow<Seq<char>>>) -> Seq<char>
    decreases rows.len(),
{
    if rows.len() == 0 {
        ""@
    } else {
        row_lines(rows.drop_last()) + ("| `"@ + rows.last().flag + "` | "@ + rows.last().kind
            + " | "@ + rows.last().description + " |\n"@)
    }
}

/// An options table; nothing where there are no rows.
pub open spec fn options_text(rows: Seq<OptionRow<Seq<char>>>) -> Seq<char> {
    if rows.len() == 0 {
        ""@
    } else {
        "\n| Flag | Type | Description |\n| --- | --- | --- |\n"@ + row_lines(rows)
    }
}

/// Renders a `| Flag | Type | Description |` table. Without rows it renders nothing.
pub fn options_table(rows: &Vec<OptionRow>) -> (table: String)
    ensures
        table@ == options_text(rows_of(rows@)),
{
    let ghost all = rows_of(rows@);
    if rows.len() == 0 {
        return "".to_string();
    }
    let mut lines = "".to_string();
    for i in 0..rows.len()
        invariant
            all == rows_of(rows@),
            lines@ == row_lines(all.take(i as int)),
    {
        proof {
            assert(all.take(i + 1).drop_last() =~= all.take(i as int));
            assert(all.take(i + 1).last() == rows@[i as int].model());
        }
        let line = "| `".to_string().concat(rows[i].flag.as_str()).concat("` | ").concat(
            rows[i].kind.as_str(),
        ).concat(" | ").concat(rows[i].description.as_str()).concat(" |\n");
        lines.append(line.as_str());
    }
    assert(all.take(all.len() as int) =~= all);
    "\n| Flag | Type | Description |\n| --- | --- | --- |\n".to_string().concat(lines.as_str())
}

/// An example value for a filter of that type.
pub open spec fn example_value(kind: Seq<char>) -> Seq<char> {
    if kind == "boolean"@ {
        "true"@
    } else if kind == "integer"@ {
        "1"@
    } else {
        "example"@
    }
}

/// The example filter of a list of parameters: one of the keys for which a believable
/// value is easy to guess, else the first filter key that there is. An operation with
/// any filter has an example.
pub open spec fn example_filter(params: Seq<Param>) -> Option<(Seq<char>, Seq<char>)> {
    let keys = schema::filter_params(params);
    if verb_codegen::has_param(keys, "state"@) {
        Some(("state"@, "OK"@))
    } else if verb_codegen::has_param(keys, "name_exact"@) {
        Some(("name_exact"@, "example"@))
    } else if verb_codegen::has_param(keys, "is_active"@) {
        Some(("is_active"@, "true"@))
    } else if keys.len() > 0 {
        Some((keys[0].name, example_value(schema::filter_type(keys[0].kind)->0)))
    } else {
        None
    }
}

fn has_filter(params: &Vec<ExtractedParam>, name: &str) -> (found: bool)
    ensures
        found == verb_codegen::has_param(
            schema::filter_params(schema::params_of(params@)),
            name@,
        ),
{
    let ghost all = schema::params_of(params@);
    proof {
        reveal(Seq::filter);
    }
    for i in 0..params.len()
        invariant
            all == schema::params_of(params@),
            !verb_codegen::has_param(schema::filter_params(all.take(i as int)), name@),
    {
        let ghost before = schema::filter_params(all.take(i as int));
        let ghost now = schema::filter_params(all.take(i + 1));
        let param = &params[i];
        proof {
            reveal(Seq::filter);
            assert(all.take(i + 1).drop_last() =~= all.take(i as int));
            assert(all.take(i + 1).last() == param@);
        }
        if filter_kind_str(param.kind).is_some() {
            assert(now == before.push(param@));
            if same(param.name.as_str(), name) {
                proof {
                    assert(now[before.len() as int].name == name@);
                    lemma_filter_stays(all, i + 1, name@);
                }
                return true;
            }
            assert forall|k: int| 0 <= k < now.len() implies (#[trigger] now[k]).name != name@ by {
                if k < before.len() {
                    assert(before[k].name != name@);
                }
            }
        }
    }
    assert(all.take(all.len() as int) =~= all);
    false
}

proof fn lemma_filter_stays(params: Seq<Param>, i: int, name: Seq<char>)
    requires
        0 <= i <= params.len(),
        verb_codegen::has_param(schema::filter_params(params.take(i)), name),
    ensures
        verb_codegen::has_param(schema::filter_params(params), name),
    decreases params.len() - i,
{
    if i < params.len() {
        reveal(Seq::filter);
        let before = schema::filter_params(params.take(i));
        let now = schema::filter_params(params.take(i + 1));
        assert(params.take(i + 1).drop_last() =~= params.take(i));
        let k = choose|k: int| 0 <= k < before.len() && (#[trigger] before[k]).name == name;
        assert(now[k].name == name);
        lemma_filter_stays(params, i + 1, name);
    } else {
        assert(params.take(i) =~= params);
    }
}

proof fn lemma_first_filter_stays(params: Seq<Param>, i: int)
    requires
        0 <= i <= params.len(),
        schema::filter_params(params.take(i)).len() > 0,
    ensures
        schema::filter_params(params).len() > 0,
        schema::filter_params(params)[0] == schema::filter_params(params.take(i))[0],
    decreases params.len() - i,
{
    if i < params.len() {
        reveal(Seq::filter);
        assert(params.take(i + 1).drop_last() =~= params.take(i));
        lemma_first_filter_stays(params, i + 1);
    } else {
        assert(params.take(i) =~= params);
    }
}

/// Picks a filter and a value for it, for an example.
pub fn pick_example_filter<'a>(op: &'a ExtractedOperation) -> (example: Option<
    (&'a str, &'static str),
>)
    ensures
        match example {
            Some((key, value)) => example_filter(op@.query_params) == Some((key@, value@)),
            None => example_filter(op@.query_params) is None,
        },
{
    let ghost all = op@.query_params;
    if has_filter(&op.query_params, "state") {
        return Some(("state", "OK"));
    }
    if has_filter(&op.query_params, "name_exact") {
        return Some(("name_exact", "example"));
    }
    if has_filter(&op.query_params, "is_active") {
        return Some(("is_active", "true"));
    }
    proof {
        reveal(Seq::filter);
    }
    for i in 0..op.query_params.len()
        invariant
            all == op@.query_params,
            schema::filter_params(all.take(i as int)).len() == 0,
            !verb_codegen::has_param(schema::filter_params(all), "state"@),
            !verb_codegen::has_param(schema::filter_params(all), "name_exact"@),
            !verb_codegen::has_param(schema::filter_params(all), "is_active"@),
    {
        let param = &op.query_params[i];
        proof {
            reveal(Seq::filter);
            assert(all.take(i + 1).drop_last() =~= all.take(i as int));
            assert(all.take(i + 1).last() == param@);
        }
        if let Some(kind) = filter_kind_str(param.kind) {
            proof {
                lemma_first_filter_stays(all, i + 1);
            }
            let value = if same(kind, "boolean") {
                "true"
            } else if same(kind, "integer") {
                "1"
            } else {
                "example"
            };
            return Some((param.name.as_str(), value));
        }
    }
    assert(all.take(all.len() as int) =~= all);
    None
}

/// The path of a page.
pub open spec fn page_path(group: Seq<char>, resource: Seq<char>, verb: Seq<char>) -> Seq<char> {
    group + "/"@ + resource + "-"@ + verb + ".md"@
}

/// The page of a command.
pub open spec fn command_page(
    group: Seq<char>,
    resource: Seq<char>,
    verb: Seq<char>,
    content: Seq<char>,
) -> Page {
    Page { relative_path: page_path(group, resource, typed_verb(verb)), content }
}

fn page(group: &str, resource: &str, verb: &str, body: String) -> (result: ReferencePage)
    ensures
        result@ == command_page(group@, resource@, verb@, body@),
{
    let relative_path = group.to_string().concat("/").concat(resource).concat("-").concat(
        cli_verb(verb).as_str(),
    ).concat(".md");
    ReferencePage { relative_path, content: body }
}

/// A command as it is typed, without its arguments.
pub open spec fn command_line(group: Seq<char>, resource: Seq<char>, verb: Seq<char>) -> Seq<char> {
    "waldur-cli "@ + group + " "@ + resource + " "@ + verb
}

fn command_text(group: &str, resource: &str, verb: &str) -> (cmd: String)
    ensures
        cmd@ == command_line(group@, resource@, verb@),
{
    "waldur-cli ".to_string().concat(group).concat(" ").concat(resource).concat(" ").concat(verb)
}

/// The top of a page: title, sentence and usage.
pub open spec fn page_head(cmd: Seq<char>, sentence: Seq<char>, usage: Seq<char>) -> Seq<char> {
    "# `"@ + cmd + "`\n\n"@ + sentence + ".\n\n## Usage\n\n```bash\n"@ + cmd + usage + "\n```\n"@
}

fn page_head_text(cmd: &str, sentence: &str, usage: &str) -> (head: String)
    ensures
        head@ == page_head(cmd@, sentence@, usage@),
{
    "# `".to_string().concat(cmd).concat("`\n\n").concat(sentence).concat(
        ".\n\n## Usage\n\n```bash\n",
    ).concat(cmd).concat(usage).concat("\n```\n")
}

/// A filter key and its type, as `--filter` describes it.
pub open spec fn key_words(param: Param) -> Seq<char> {
    "`"@ + param.name + "` ("@ + schema::filter_type(param.kind)->0 + ")"@
}

/// The filter keys of a list of parameters, as `--filter` describes them.
pub open spec fn all_key_words(params: Seq<Param>) -> Seq<Seq<char>> {
    schema::filter_params(params).map_values(|param: Param| key_words(param))
}

fn filter_key_words(params: &Vec<ExtractedParam>) -> (keys: Vec<String>)
    ensures
        text::texts(keys@) == all_key_words(schema::params_of(params@)),
{
    let ghost all = schema::params_of(params@);
    let mut keys: Vec<String> = Vec::new();
    proof {
        reveal(Seq::filter);
        assert(text::texts(keys@) =~= all_key_words(all.take(0)));
    }
    for i in 0..params.len()
        invariant
            all == schema::params_of(params@),
            text::texts(keys@) == all_key_words(all.take(i as int)),
    {
        let param = &params[i];
        let ghost before = text::texts(keys@);
        proof {
            reveal(Seq::filter);
            assert(all.take(i + 1).drop_last() =~= all.take(i as int));
            assert(all.take(i + 1).last() == param@);
        }
        match filter_kind_str(param.kind) {
            Some(kind) => {
                keys.push(
                    "`".to_string().concat(param.name.as_str()).concat("` (").concat(kind).concat(
                        ")",
                    ),
                );
                assert(text::texts(keys@) =~= before.push(key_words(param@)));
                assert(all_key_words(all.take(i + 1)) =~= before.push(key_words(param@)));
            },
            None => {
                assert(all_key_words(all.take(i + 1)) =~= before);
            },
        }
    }
    assert(all.take(all.len() as int) =~= all);
    keys
}

/// The values of an enumeration that an operation refers to, where they are known.
pub open spec fn known_values(
    name: Option<Seq<char>>,
    values: Map<Seq<char>, Vec<String>>,
) -> Option<Seq<Seq<char>>> {
    match name {
        Some(key) => if values.contains_key(key) {
            Some(text::texts(values[key]@))
        } else {
            None
        },
        None => None,
    }
}

fn values_of<'a>(name: &Option<String>, values: &'a Table<Vec<String>>) -> (found: Option<
    &'a Vec<String>,
>)
    ensures
        match found {
            Some(names) => known_values(text::opt_text(*name), values@) == Some(
                text::texts(names@),
            ),
            None => known_values(text::opt_text(*name), values@) is None,
        },
{
    match name {
        Some(key) => values.get(key.as_str()),
        None => None,
    }
}

/// A description, with the valid values where they are known.
pub open spec fn with_valid(sentence: Seq<char>, values: Option<Seq<Seq<char>>>) -> Seq<char> {
    match values {
        Some(names) => sentence + " Valid: "@ + text::joined(names, ", "@) + "."@,
        None => sentence,
    }
}

fn describe_valid(sentence: &str, values: Option<&Vec<String>>) -> (result: String)
    ensures
        match values {
            Some(names) => result@ == with_valid(sentence@, Some(text::texts(names@))),
            None => result@ == with_valid(sentence@, None),
        },
{
    match values {
        Some(names) => sentence.to_string().concat(" Valid: ").concat(
            join(names, ", ").as_str(),
        ).concat("."),
        None => sentence.to_string(),
    }
}

pub const FIELDS_SENTENCE: &'static str =
    "Fetch only these fields from the server (comma-separated).";

pub const ORDER_SENTENCE: &'static str =
    "Sort server-side (comma-separated, `-` prefix for descending).";

pub const JMESPATH_SENTENCE: &'static str =
    "Reshape the already-fetched result client-side (https://jmespath.org).";

pub const FORMAT_SENTENCE: &'static str = "table, json, tsv, toon, or ndjson.";

/// The options of `list`.
pub open spec fn list_rows(
    op: Operation,
    field_values: Map<Seq<char>, Vec<String>>,
    order_values: Map<Seq<char>, Vec<String>>,
) -> Seq<OptionRow<Seq<char>>> {
    let keys = all_key_words(op.query_params);
    let filter = if keys.len() > 0 {
        no_rows().push(
            row(
                "--filter KEY=VALUE"@,
                "repeatable"@,
                "Server-side filter. Valid keys: "@ + text::joined(keys, ", "@) + "."@,
            ),
        )
    } else {
        no_rows()
    };
    let fields = filter.push(
        row(
            "--fields FIELDS"@,
            "string"@,
            with_valid(FIELDS_SENTENCE@, known_values(op.field_enum_name, field_values)),
        ),
    );
    let ordered = if op.has_order {
        fields.push(
            row(
                "--order FIELDS"@,
                "string"@,
                with_valid(ORDER_SENTENCE@, known_values(op.order_enum_name, order_values)),
            ),
        )
    } else {
        fields
    };
    ordered.push(row("--jmespath EXPR"@, "string"@, JMESPATH_SENTENCE@)).push(
        row("--limit N"@, "integer"@, "Stop after this many items."@),
    ).push(row("--format FORMAT"@, "string"@, FORMAT_SENTENCE@))
}

fn list_option_rows(
    op: &ExtractedOperation,
    field_enum_values: &Table<Vec<String>>,
    order_enum_values: &Table<Vec<String>>,
) -> (rows: Vec<OptionRow>)
    ensures
        rows_of(rows@) == list_rows(op@, field_enum_values@, order_enum_values@),
{
    let mut rows = start_rows();
    let keys = filter_key_words(&op.query_params);
    assert(keys@.len() == text::texts(keys@).len());
    if keys.len() > 0 {
        let valid = "Server-side filter. Valid keys: ".to_string().concat(
            join(&keys, ", ").as_str(),
        ).concat(".");
        append_row(&mut rows, "--filter KEY=VALUE", "repeatable", valid.as_str());
    }
    let fields = describe_valid(FIELDS_SENTENCE, values_of(&op.field_enum_name, field_enum_values));
    append_row(&mut rows, "--fields FIELDS", "string", fields.as_str());
    if op.has_order {
        let ordering = describe_valid(
            ORDER_SENTENCE,
            values_of(&op.order_enum_name, order_enum_values),
        );
        append_row(&mut rows, "--order FIELDS", "string", ordering.as_str());
    }
    append_row(&mut rows, "--jmespath EXPR", "string", JMESPATH_SENTENCE);
    append_row(&mut rows, "--limit N", "integer", "Stop after this many items.");
    append_row(&mut rows, "--format FORMAT", "string", FORMAT_SENTENCE);
    rows
}

/// The column at `i`, or a stand-in where there are not that many.
pub open spec fn column_or(
    columns: Seq<Seq<char>>,
    i: int,
    fallback: Seq<char>,
) -> Seq<char> {
    if i < columns.len() {
        columns[i]
    } else {
        fallback
    }
}

fn column_at<'a>(columns: &'a Vec<String>, i: usize, fallback: &'a str) -> (column: &'a str)
    ensures
        column@ == column_or(text::texts(columns@), i as int, fallback@),
{
    if i < columns.len() {
        columns[i].as_str()
    } else {
        fallback
    }
}

/// Whether an order value sorts downwards.
pub open spec fn descends(value: Seq<char>) -> bool {
    value.len() > 0 && value[0] == '-'
}

/// The first order value that sorts upwards.
pub open spec fn first_upwards(values: Seq<Seq<char>>) -> Option<Seq<char>>
    decreases values.len(),
{
    if values.len() == 0 {
        None
    } else if first_upwards(values.drop_last()) is Some {
        first_upwards(values.drop_last())
    } else if descends(values.last()) {
        None
    } else {
        Some(values.last())
    }
}

proof fn lemma_upwards_stays(values: Seq<Seq<char>>, i: int)
    requires
        0 <= i <= values.len(),
        first_upwards(values.take(i)) is Some,
    ensures
        first_upwards(values) == first_upwards(values.take(i)),
    decreases values.len() - i,
{
    if i < values.len() {
        assert(values.take(i + 1).drop_last() =~= values.take(i));
        lemma_upwards_stays(values, i + 1);
    } else {
        assert(values.take(i) =~= values);
    }
}

fn find_upwards(values: &Vec<String>) -> (found: Option<&str>)
    ensures
        match found {
            Some(value) => first_upwards(text::texts(values@)) == Some(value@),
            None => first_upwards(text::texts(values@)) is None,
        },
{
    let ghost all = text::texts(values@);
    for i in 0..values.len()
        invariant
            all == text::texts(values@),
            first_upwards(all.take(i as int)) is None,
    {
        proof {
            assert(all.take(i + 1).drop_last() =~= all.take(i as int));
            assert(all.take(i + 1).last() == values@[i as int]@);
        }
        let value = values[i].as_str();
        if value.unicode_len() == 0 || value.get_char(0) != '-' {
            proof {
                lemma_upwards_stays(all, i + 1);
            }
            return Some(value);
        }
    }
    assert(all.take(all.len() as int) =~= all);
    None
}

/// The field of the ordering example: where the order values are known, one of them that
/// sorts upwards, if there is one, since a column is not always a valid value; where they
/// are not, `column`.
pub open spec fn order_field(
    op: Operation,
    order_values: Map<Seq<char>, Vec<String>>,
    column: Seq<char>,
) -> Option<Seq<char>> {
    match known_values(op.order_enum_name, order_values) {
        Some(values) => first_upwards(values),
        None => Some(column),
    }
}

fn order_field_text<'a>(
    op: &ExtractedOperation,
    order_enum_values: &'a Table<Vec<String>>,
    column: &'a str,
) -> (field: Option<&'a str>)
    ensures
        match field {
            Some(value) => order_field(op@, order_enum_values@, column@) == Some(value@),
            None => order_field(op@, order_enum_values@, column@) is None,
        },
{
    match values_of(&op.order_enum_name, order_enum_values) {
        Some(values) => find_upwards(values),
        None => Some(column),
    }
}

/// The first example of `list`.
pub open spec fn filter_example(
    cmd: Seq<char>,
    filter: Option<(Seq<char>, Seq<char>)>,
    first: Seq<char>,
    second: Seq<char>,
) -> Seq<char> {
    match filter {
        Some((key, value)) => "```bash\n"@ + cmd + " --filter "@ + key + "="@ + value
            + " --fields "@ + first + ","@ + second + " --format json\n```\n"@,
        None => "```bash\n"@ + cmd + " --fields "@ + first + ","@ + second
            + " --format json\n```\n"@,
    }
}

/// The ordering example of `list`; nothing where it has no ordering, or no value to order
/// by is known to be valid.
pub open spec fn order_example(
    op: Operation,
    cmd: Seq<char>,
    field: Option<Seq<char>>,
) -> Seq<char> {
    if op.has_order && field is Some {
        "\nSmallest/first result matching a filter, sorted server-side:\n\n```bash\n"@ + cmd
            + " --order "@ + field->0 + " --limit 1\n```\n"@
    } else {
        ""@
    }
}

/// The page of `list`.
pub open spec fn list_text(
    group: Seq<char>,
    resource: Resource,
    op: Operation,
    field_values: Map<Seq<char>, Vec<String>>,
    order_values: Map<Seq<char>, Vec<String>>,
) -> Seq<char> {
    let cmd = command_line(group, resource.name@, "list"@);
    let first = column_or(text::texts(resource.columns@), 0, "uuid"@);
    let second = column_or(text::texts(resource.columns@), 1, "name"@);
    page_head(cmd, "List "@ + text::lowercase(resource.about@), " [OPTIONS]"@) + options_text(
        list_rows(op, field_values, order_values),
    ) + "\n## Examples\n\n"@ + filter_example(
        cmd,
        example_filter(op.query_params),
        first,
        second,
    ) + "\nProject just the columns you need, client-side:\n\n```bash\n"@ + cmd
        + " --jmespath '[].["@ + first + ", "@ + second + "]'\n```\n"@ + order_example(
        op,
        cmd,
        order_field(op, order_values, first),
    ) + GLOBAL_OPTIONS@
}

/// The page of `list`.
pub fn list_page(
    group: &str,
    resource: &Resource,
    op: &ExtractedOperation,
    field_enum_values: &Table<Vec<String>>,
    order_enum_values: &Table<Vec<String>>,
) -> (result: ReferencePage)
    ensures
        result@ == command_page(
            group@,
            resource.name@,
            "list"@,
            list_text(group@, *resource, op@, field_enum_values@, order_enum_values@),
        ),
{
    let cmd = command_text(group, resource.name.as_str(), "list");
    let sentence = "List ".to_string().concat(resource.about.as_str().to_lowercase().as_str());
    let rows = list_option_rows(op, field_enum_values, order_enum_values);
    let first = column_at(&resource.columns, 0, "uuid");
    let second = column_at(&resource.columns, 1, "name");
    let example = match pick_example_filter(op) {
        Some((key, value)) => "```bash\n".to_string().concat(cmd.as_str()).concat(
            " --filter ",
        ).concat(key).concat("=").concat(value).concat(" --fields ").concat(first).concat(
            ",",
        ).concat(second).concat(" --format json\n```\n"),
        None => "```bash\n".to_string().concat(cmd.as_str()).concat(" --fields ").concat(
            first,
        ).concat(",").concat(second).concat(" --format json\n```\n"),
    };
    let ordering = match order_field_text(op, order_enum_values, first) {
        Some(field) => if op.has_order {
            "\nSmallest/first result matching a filter, sorted server-side:\n\n```bash\n".to_string().concat(
                cmd.as_str(),
            ).concat(" --order ").concat(field).concat(" --limit 1\n```\n")
        } else {
            "".to_string()
        },
        None => "".to_string(),
    };
    let body = page_head_text(cmd.as_str(), sentence.as_str(), " [OPTIONS]").concat(
        options_table(&rows).as_str(),
    ).concat("\n## Examples\n\n").concat(example.as_str()).concat(
        "\nProject just the columns you need, client-side:\n\n```bash\n",
    ).concat(cmd.as_str()).concat(" --jmespath '[].[").concat(first).concat(", ").concat(
        second,
    ).concat("]'\n```\n").concat(ordering.as_str()).concat(GLOBAL_OPTIONS);
    page(group, resource.name.as_str(), "list", body)
}

/// The name of a path parameter in words.
pub open spec fn uuid_word(op: Operation) -> Seq<char> {
    match op.path_param {
        Some(name) => name,
        None => "uuid"@,
    }
}

fn uuid_word_of(op: &ExtractedOperation) -> (word: &str)
    ensures
        word@ == uuid_word(op@),
{
    match &op.path_param {
        Some(name) => name.as_str(),
        None => "uuid",
    }
}

pub const WEB_SENTENCE: &'static str =
    "Open this resource's page in Waldur's web UI (HomePort) instead of printing it.";

/// The options of `get`.
pub open spec fn get_rows(resource: Resource, op: Operation) -> Seq<OptionRow<Seq<char>>> {
    let uuid = no_rows().push(
        row("<UUID>"@, "positional, required"@, uuid_word(op) + " of the resource."@),
    );
    let web = if resource.web is Some {
        uuid.push(row("--web"@, "flag"@, WEB_SENTENCE@))
    } else {
        uuid
    };
    web.push(row("--format FORMAT"@, "string"@, FORMAT_SENTENCE@))
}

/// The page of `get`.
pub open spec fn get_text(group: Seq<char>, resource: Resource, op: Operation) -> Seq<char> {
    let cmd = command_line(group, resource.name@, "get"@);
    let web = if resource.web is Some {
        "\nOpen it in the browser instead:\n\n```bash\n"@ + cmd + " <uuid> --web\n```\n"@
    } else {
        ""@
    };
    page_head(cmd, "Get "@ + text::lowercase(resource.about@), " <UUID> [OPTIONS]"@) + options_text(
        get_rows(resource, op),
    ) + "\n## Examples\n\n```bash\n"@ + cmd + " <uuid> --format json\n```\n"@ + web
        + GLOBAL_OPTIONS@
}

pub fn get_page(group: &str, resource: &Resource, op: &ExtractedOperation) -> (result: ReferencePage)
    ensures
        result@ == command_page(
            group@,
            resource.name@,
            "get"@,
            get_text(group@, *resource, op@),
        ),
{
    let cmd = command_text(group, resource.name.as_str(), "get");
    let sentence = "Get ".to_string().concat(resource.about.as_str().to_lowercase().as_str());
    let uuid = uuid_word_of(op).to_string().concat(" of the resource.");
    let mut rows = start_rows();
    append_row(&mut rows, "<UUID>", "positional, required", uuid.as_str());
    let mut web = "".to_string();
    if resource.web.is_some() {
        append_row(&mut rows, "--web", "flag", WEB_SENTENCE);
        web =
        "\nOpen it in the browser instead:\n\n```bash\n".to_string().concat(cmd.as_str()).concat(
            " <uuid> --web\n```\n",
        );
    }
    append_row(&mut rows, "--format FORMAT", "string", FORMAT_SENTENCE);
    let body = page_head_text(cmd.as_str(), sentence.as_str(), " <UUID> [OPTIONS]").concat(
        options_table(&rows).as_str(),
    ).concat("\n## Examples\n\n```bash\n").concat(cmd.as_str()).concat(
        " <uuid> --format json\n```\n",
    ).concat(web.as_str()).concat(GLOBAL_OPTIONS);
    page(group, resource.name.as_str(), "get", body)
}

/// A template as one line of JSON; the template itself where it does not read as JSON.
pub open spec fn one_line(skeleton: Seq<char>) -> Seq<char> {
    match json::parsed_json(skeleton) {
        Some(value) => json::compact_text(value),
        None => skeleton,
    }
}

/// Renders a template as one line of JSON, for an example. A template that is not JSON
/// stays as it is, so that no page is left without an example.
pub fn compact_json(skeleton: &str) -> (line: String)
    ensures
        line@ == one_line(skeleton@),
{
    match read(skeleton) {
        Some(value) => write_compact(&value),
        None => skeleton.to_string(),
    }
}

/// The template of that name, where there is one.
pub open spec fn template_of(
    name: Option<Seq<char>>,
    skeletons: Map<Seq<char>, String>,
) -> Option<Seq<char>> {
    match name {
        Some(key) => if skeletons.contains_key(key) {
            Some(skeletons[key]@)
        } else {
            None
        },
        None => None,
    }
}

fn find_template<'a>(name: Option<&str>, skeletons: &'a Table<String>) -> (found: Option<&'a str>)
    ensures
        match found {
            Some(skeleton) => name is Some && template_of(Some(name->0@), skeletons@) == Some(
                skeleton@,
            ),
            None => name is Some ==> template_of(Some(name->0@), skeletons@) is None,
        },
{
    match name {
        Some(key) => match skeletons.get(key) {
            Some(skeleton) => Some(skeleton.as_str()),
            None => None,
        },
        None => None,
    }
}

fn body_template<'a>(op: &ExtractedOperation, skeletons: &'a Table<String>) -> (found: Option<
    &'a str,
>)
    ensures
        match found {
            Some(skeleton) => template_of(op@.request_body_type, skeletons@) == Some(skeleton@),
            None => template_of(op@.request_body_type, skeletons@) is None,
        },
{
    match &op.request_body_type {
        Some(name) => find_template(Some(name.as_str()), skeletons),
        None => None,
    }
}

/// The examples of a command with a request body: print the template, then submit it.
pub open spec fn body_examples(
    cmd: Seq<char>,
    skeleton: Option<Seq<char>>,
    submit: Seq<char>,
    arguments: Seq<char>,
) -> Seq<char> {
    let filled = match skeleton {
        Some(template) => "\nThen fill it in and submit"@ + submit + ":\n\n```bash\n"@ + cmd
            + arguments + " --request '"@ + one_line(template) + "'\n```\n"@,
        None => ""@,
    };
    "\n## Examples\n\nSee the fillable template first:\n\n```bash\n"@ + cmd
        + " --generate-skeleton\n```\n"@ + filled
}

fn body_verb_examples(
    cmd: &str,
    skeleton: Option<&str>,
    submit: &str,
    arguments: &str,
) -> (examples: String)
    ensures
        match skeleton {
            Some(template) => examples@ == body_examples(
                cmd@,
                Some(template@),
                submit@,
                arguments@,
            ),
            None => examples@ == body_examples(cmd@, None, submit@, arguments@),
        },
{
    let filled = match skeleton {
        Some(template) => "\nThen fill it in and submit".to_string().concat(submit).concat(
            ":\n\n```bash\n",
        ).concat(cmd).concat(arguments).concat(" --request '").concat(
            compact_json(template).as_str(),
        ).concat("'\n```\n"),
        None => "".to_string(),
    };
    "\n## Examples\n\nSee the fillable template first:\n\n```bash\n".to_string().concat(cmd).concat(
        " --generate-skeleton\n```\n",
    ).concat(filled.as_str())
}

pub const BODY_USAGE: &'static str =
    " (--request JSON | --request-file PATH | --generate-skeleton)";

pub const UUID_BODY_USAGE: &'static str =
    " <UUID> (--request JSON | --request-file PATH | --generate-skeleton)";

pub const TEMPLATE_SENTENCE: &'static str =
    "Print a fillable template and exit, instead of sending a request.";

/// The options that give a request body, behind other rows.
pub open spec fn body_rows(rows: Seq<OptionRow<Seq<char>>>, template: Seq<char>) -> Seq<
    OptionRow<Seq<char>>,
> {
    rows.push(row("--request JSON"@, "string"@, "Request body as inline JSON."@)).push(
        row(
            "--request-file PATH"@,
            "path"@,
            "Read the request body from a JSON or YAML file."@,
        ),
    ).push(row("--generate-skeleton [FORMAT]"@, "json|yaml"@, template))
}

fn append_body_rows(rows: &mut Vec<OptionRow>, template: &str)
    ensures
        rows_of(final(rows)@) == body_rows(rows_of(old(rows)@), template@),
{
    append_row(rows, "--request JSON", "string", "Request body as inline JSON.");
    append_row(
        rows,
        "--request-file PATH",
        "path",
        "Read the request body from a JSON or YAML file.",
    );
    append_row(rows, "--generate-skeleton [FORMAT]", "json|yaml", template);
}

/// The page of `create`.
pub open spec fn create_text(
    group: Seq<char>,
    resource: Resource,
    op: Operation,
    skeletons: Map<Seq<char>, String>,
) -> Seq<char> {
    let cmd = command_line(group, resource.name@, "create"@);
    page_head(cmd, "Create "@ + text::lowercase(resource.about@), BODY_USAGE@) + options_text(
        body_rows(no_rows(), TEMPLATE_SENTENCE@),
    ) + body_examples(cmd, template_of(op.request_body_type, skeletons), ""@, ""@)
        + GLOBAL_OPTIONS@
}

pub fn create_page(
    group: &str,
    resource: &Resource,
    op: &ExtractedOperation,
    request_skeletons: &Table<String>,
) -> (result: ReferencePage)
    ensures
        result@ == command_page(
            group@,
            resource.name@,
            "create"@,
            create_text(group@, *resource, op@, request_skeletons@),
        ),
{
    let cmd = command_text(group, resource.name.as_str(), "create");
    let sentence = "Create ".to_string().concat(resource.about.as_str().to_lowercase().as_str());
    let mut rows = start_rows();
    append_body_rows(&mut rows, TEMPLATE_SENTENCE);
    let skeleton = body_template(op, request_skeletons);
    let body = page_head_text(cmd.as_str(), sentence.as_str(), BODY_USAGE).concat(
        options_table(&rows).as_str(),
    ).concat(body_verb_examples(cmd.as_str(), skeleton, "", "").as_str()).concat(GLOBAL_OPTIONS);
    page(group, resource.name.as_str(), "create", body)
}

pub const UPDATE_UUID_SENTENCE: &'static str =
    "Required unless --generate-skeleton (the template doesn't need a specific resource).";

pub const UPDATE_SUBMIT: &'static str =
    " (only the fields you're changing need a value -- \
    `null` fields in the template are omitted, not sent literally)";

/// The page of `update`.
pub open spec fn update_text(
    group: Seq<char>,
    resource: Resource,
    op: Operation,
    skeletons: Map<Seq<char>, String>,
) -> Seq<char> {
    let cmd = command_line(group, resource.name@, "update"@);
    page_head(cmd, "Update "@ + text::lowercase(resource.about@), UUID_BODY_USAGE@) + options_text(
        body_rows(
            no_rows().push(row("<UUID>"@, "positional"@, UPDATE_UUID_SENTENCE@)),
            TEMPLATE_SENTENCE@,
        ),
    ) + body_examples(
        cmd,
        template_of(op.request_body_type, skeletons),
        UPDATE_SUBMIT@,
        " <uuid>"@,
    ) + GLOBAL_OPTIONS@
}

pub fn update_page(
    group: &str,
    resource: &Resource,
    op: &ExtractedOperation,
    request_skeletons: &Table<String>,
) -> (result: ReferencePage)
    ensures
        result@ == command_page(
            group@,
            resource.name@,
            "update"@,
            update_text(group@, *resource, op@, request_skeletons@),
        ),
{
    let cmd = command_text(group, resource.name.as_str(), "update");
    let sentence = "Update ".to_string().concat(resource.about.as_str().to_lowercase().as_str());
    let mut rows = start_rows();
    append_row(&mut rows, "<UUID>", "positional", UPDATE_UUID_SENTENCE);
    append_body_rows(&mut rows, TEMPLATE_SENTENCE);
    let skeleton = body_template(op, request_skeletons);
    let examples = body_verb_examples(cmd.as_str(), skeleton, UPDATE_SUBMIT, " <uuid>");
    let body = page_head_text(cmd.as_str(), sentence.as_str(), UUID_BODY_USAGE).concat(
        options_table(&rows).as_str(),
    ).concat(examples.as_str()).concat(GLOBAL_OPTIONS);
    page(group, resource.name.as_str(), "update", body)
}

/// The page of `delete`.
pub open spec fn delete_text(group: Seq<char>, resource: Resource, op: Operation) -> Seq<char> {
    let cmd = command_line(group, resource.name@, "delete"@);
    page_head(cmd, "Delete "@ + text::lowercase(resource.about@), " <UUID>"@) + options_text(
        no_rows().push(
            row("<UUID>"@, "positional, required"@, uuid_word(op) + " of the resource."@),
        ),
    ) + "\n## Examples\n\n```bash\n"@ + cmd
        + " <uuid>\n```\n\nPreview without deleting:\n\n```bash\n"@ + cmd
        + " <uuid> --dry-run\n```\n"@ + GLOBAL_OPTIONS@
}

pub fn delete_page(
    group: &str,
    resource: &Resource,
    op: &ExtractedOperation,
) -> (result: ReferencePage)
    ensures
        result@ == command_page(
            group@,
            resource.name@,
            "delete"@,
            delete_text(group@, *resource, op@),
        ),
{
    let cmd = command_text(group, resource.name.as_str(), "delete");
    let sentence = "Delete ".to_string().concat(resource.about.as_str().to_lowercase().as_str());
    let uuid = uuid_word_of(op).to_string().concat(" of the resource.");
    let mut rows = start_rows();
    append_row(&mut rows, "<UUID>", "positional, required", uuid.as_str());
    let body = page_head_text(cmd.as_str(), sentence.as_str(), " <UUID>").concat(
        options_table(&rows).as_str(),
    ).concat("\n## Examples\n\n```bash\n").concat(cmd.as_str()).concat(
        " <uuid>\n```\n\nPreview without deleting:\n\n```bash\n",
    ).concat(cmd.as_str()).concat(" <uuid> --dry-run\n```\n").concat(GLOBAL_OPTIONS);
    page(group, resource.name.as_str(), "delete", body)
}

pub const NO_WAIT_SENTENCE: &'static str =
    "Submit and return immediately, without polling the order to completion.";

pub const ORDER_TIMEOUT_SENTENCE: &'static str =
    "Seconds to wait for the order to complete before giving up (default 600).";

pub const INTERVAL_SENTENCE: &'static str = "Seconds between polls (default 3).";

/// The options of `provision`.
pub open spec fn provision_rows() -> Seq<OptionRow<Seq<char>>> {
    no_rows().push(row("--request JSON"@, "string"@, "The order body as inline JSON."@)).push(
        row("--request-file PATH"@, "path"@, "Read the order body from a JSON or YAML file."@),
    ).push(
        row(
            "--generate-skeleton [FORMAT]"@,
            "json|yaml"@,
            "Print a fillable order template and exit."@,
        ),
    ).push(row("--no-wait"@, "flag"@, NO_WAIT_SENTENCE@)).push(
        row("--timeout N"@, "integer"@, ORDER_TIMEOUT_SENTENCE@),
    ).push(row("--interval N"@, "integer"@, INTERVAL_SENTENCE@))
}

/// The page of `provision`.
pub open spec fn provision_text(
    group: Seq<char>,
    resource: Resource,
    order_skeletons: Map<Seq<char>, String>,
) -> Seq<char> {
    let cmd = command_line(group, resource.name@, "provision"@);
    page_head(
        cmd,
        "Provision "@ + text::lowercase(resource.about@) + " via a marketplace order"@,
        BODY_USAGE@,
    ) + options_text(provision_rows()) + body_examples(
        cmd,
        template_of(Some(resource.name@), order_skeletons),
        ""@,
        ""@,
    ) + "\nFire-and-forget, checking on it later from the printed order UUID:\n\n```bash\n"@ + cmd
        + " --request-file order.yaml --no-wait --format json\n```\n"@ + GLOBAL_OPTIONS@
}

pub fn provision_page(
    group: &str,
    resource: &Resource,
    order_skeletons: &Table<String>,
) -> (result: ReferencePage)
    ensures
        result@ == command_page(
            group@,
            resource.name@,
            "provision"@,
            provision_text(group@, *resource, order_skeletons@),
        ),
{
    let cmd = command_text(group, resource.name.as_str(), "provision");
    let sentence = "Provision ".to_string().concat(
        resource.about.as_str().to_lowercase().as_str(),
    ).concat(" via a marketplace order");
    let mut rows = start_rows();
    append_row(&mut rows, "--request JSON", "string", "The order body as inline JSON.");
    append_row(
        &mut rows,
        "--request-file PATH",
        "path",
        "Read the order body from a JSON or YAML file.",
    );
    append_row(
        &mut rows,
        "--generate-skeleton [FORMAT]",
        "json|yaml",
        "Print a fillable order template and exit.",
    );
    append_row(&mut rows, "--no-wait", "flag", NO_WAIT_SENTENCE);
    append_row(&mut rows, "--timeout N", "integer", ORDER_TIMEOUT_SENTENCE);
    append_row(&mut rows, "--interval N", "integer", INTERVAL_SENTENCE);
    let skeleton = find_template(Some(resource.name.as_str()), order_skeletons);
    let body = page_head_text(cmd.as_str(), sentence.as_str(), BODY_USAGE).concat(
        options_table(&rows).as_str(),
    ).concat(body_verb_examples(cmd.as_str(), skeleton, "", "").as_str()).concat(
        "\nFire-and-forget, checking on it later from the printed order UUID:\n\n```bash\n",
    ).concat(cmd.as_str()).concat(
        " --request-file order.yaml --no-wait --format json\n```\n",
    ).concat(GLOBAL_OPTIONS);
    page(group, resource.name.as_str(), "provision", body)
}

pub const MARKETPLACE_UUID_SENTENCE: &'static str =
    "The resource's `marketplace_resource_uuid` field (from get/list) -- not its own uuid.";

pub const TERMINATION_TIMEOUT_SENTENCE: &'static str =
    "Seconds to wait for termination before giving up (default 600).";

/// The options of `terminate`.
pub open spec fn terminate_rows() -> Seq<OptionRow<Seq<char>>> {
    no_rows().push(
        row(
            "<MARKETPLACE_RESOURCE_UUID>"@,
            "positional, required"@,
            MARKETPLACE_UUID_SENTENCE@,
        ),
    ).push(
        row(
            "--request JSON"@,
            "string"@,
            "Optional termination attributes as inline JSON."@,
        ),
    ).push(row("--no-wait"@, "flag"@, NO_WAIT_SENTENCE@)).push(
        row("--timeout N"@, "integer"@, TERMINATION_TIMEOUT_SENTENCE@),
    ).push(row("--interval N"@, "integer"@, INTERVAL_SENTENCE@))
}

pub const TERMINATE_ATTRIBUTES: &'static str =
    " <marketplace-resource-uuid> --request '{\"delete_volumes\": true}'\n```\n";

/// The page of `terminate`.
pub open spec fn terminate_text(group: Seq<char>, resource: Resource) -> Seq<char> {
    let cmd = command_line(group, resource.name@, "terminate"@);
    page_head(
        cmd,
        "Terminate "@ + text::lowercase(resource.about@) + " via a marketplace order"@,
        " <MARKETPLACE_RESOURCE_UUID> [OPTIONS]"@,
    ) + options_text(terminate_rows()) + "\n## Examples\n\n```bash\n"@ + cmd
        + " <marketplace-resource-uuid>\n```\n\nWith termination attributes:\n\n```bash\n"@ + cmd
        + TERMINATE_ATTRIBUTES@ + GLOBAL_OPTIONS@
}

pub fn terminate_page(group: &str, resource: &Resource) -> (result: ReferencePage)
    ensures
        result@ == command_page(
            group@,
            resource.name@,
            "terminate"@,
            terminate_text(group@, *resource),
        ),
{
    let cmd = command_text(group, resource.name.as_str(), "terminate");
    let sentence = "Terminate ".to_string().concat(
        resource.about.as_str().to_lowercase().as_str(),
    ).concat(" via a marketplace order");
    let mut rows = start_rows();
    append_row(
        &mut rows,
        "<MARKETPLACE_RESOURCE_UUID>",
        "positional, required",
        MARKETPLACE_UUID_SENTENCE,
    );
    append_row(
        &mut rows,
        "--request JSON",
        "string",
        "Optional termination attributes as inline JSON.",
    );
    append_row(&mut rows, "--no-wait", "flag", NO_WAIT_SENTENCE);
    append_row(&mut rows, "--timeout N", "integer", TERMINATION_TIMEOUT_SENTENCE);
    append_row(&mut rows, "--interval N", "integer", INTERVAL_SENTENCE);
    let body = page_head_text(
        cmd.as_str(),
        sentence.as_str(),
        " <MARKETPLACE_RESOURCE_UUID> [OPTIONS]",
    ).concat(options_table(&rows).as_str()).concat("\n## Examples\n\n```bash\n").concat(
        cmd.as_str(),
    ).concat(
        " <marketplace-resource-uuid>\n```\n\nWith termination attributes:\n\n```bash\n",
    ).concat(cmd.as_str()).concat(TERMINATE_ATTRIBUTES).concat(GLOBAL_OPTIONS);
    page(group, resource.name.as_str(), "terminate", body)
}

/// The first column other than `uuid`.
pub open spec fn first_other_column(columns: Seq<Seq<char>>) -> Option<Seq<char>>
    decreases columns.len(),
{
    if columns.len() == 0 {
        None
    } else if first_other_column(columns.drop_last()) is Some {
        first_other_column(columns.drop_last())
    } else if columns.last() == "uuid"@ {
        None
    } else {
        Some(columns.last())
    }
}

proof fn lemma_other_column_stays(columns: Seq<Seq<char>>, i: int)
    requires
        0 <= i <= columns.len(),
        first_other_column(columns.take(i)) is Some,
    ensures
        first_other_column(columns) == first_other_column(columns.take(i)),
    decreases columns.len() - i,
{
    if i < columns.len() {
        assert(columns.take(i + 1).drop_last() =~= columns.take(i));
        lemma_other_column_stays(columns, i + 1);
    } else {
        assert(columns.take(i) =~= columns);
    }
}

fn find_other_column(columns: &Vec<String>) -> (found: Option<&str>)
    ensures
        match found {
            Some(column) => first_other_column(text::texts(columns@)) == Some(column@),
            None => first_other_column(text::texts(columns@)) is None,
        },
{
    let ghost all = text::texts(columns@);
    for i in 0..columns.len()
        invariant
            all == text::texts(columns@),
            first_other_column(all.take(i as int)) is None,
    {
        proof {
            assert(all.take(i + 1).drop_last() =~= all.take(i as int));
            assert(all.take(i + 1).last() == columns@[i as int]@);
        }
        if !same(columns[i].as_str(), "uuid") {
            proof {
                lemma_other_column_stays(all, i + 1);
            }
            return Some(columns[i].as_str());
        }
    }
    assert(all.take(all.len() as int) =~= all);
    None
}

/// The field that the waiting example is about: `state` where it is a column, else the
/// second column, else any other column. It is never the uuid, which nobody waits for.
pub open spec fn condition_field(columns: Seq<Seq<char>>) -> Seq<char> {
    if columns.contains("state"@) {
        "state"@
    } else if columns.len() > 1 && columns[1] != "uuid"@ {
        columns[1]
    } else {
        match first_other_column(columns) {
            Some(column) => column,
            None => "state"@,
        }
    }
}

fn condition_field_of(columns: &Vec<String>) -> (field: &str)
    ensures
        field@ == condition_field(text::texts(columns@)),
{
    if text::has_name(columns.as_slice(), "state") {
        return "state";
    }
    if columns.len() > 1 && !same(columns[1].as_str(), "uuid") {
        return columns[1].as_str();
    }
    match find_other_column(columns) {
        Some(column) => column,
        None => "state",
    }
}

pub const WAIT_SENTENCE: &'static str =
    " until a `--jmespath` condition against it stops evaluating to \
    `false`/`null`, or error on timeout. Client-side polling -- Waldur's API has no \
    server-side watch/push mechanism";

pub const CONDITION_SENTENCE: &'static str =
    "Condition to poll for, evaluated against the fetched object on every poll.";

pub const CONDITION_TIMEOUT_SENTENCE: &'static str =
    "Seconds to wait for the condition before giving up (default 600).";

/// The options of `wait`.
pub open spec fn wait_rows() -> Seq<OptionRow<Seq<char>>> {
    no_rows().push(row("<UUID>"@, "positional, required"@, "uuid of the resource."@)).push(
        row("--jmespath EXPR"@, "string, required"@, CONDITION_SENTENCE@),
    ).push(row("--timeout N"@, "integer"@, CONDITION_TIMEOUT_SENTENCE@)).push(
        row("--interval N"@, "integer"@, INTERVAL_SENTENCE@),
    )
}

/// The page of `wait`.
pub open spec fn wait_text(group: Seq<char>, resource: Resource) -> Seq<char> {
    let cmd = command_line(group, resource.name@, "wait"@);
    page_head(
        cmd,
        "Poll "@ + text::lowercase(resource.about@) + WAIT_SENTENCE@,
        " <UUID> --jmespath EXPR [OPTIONS]"@,
    ) + options_text(wait_rows()) + "\n## Examples\n\n```bash\n"@ + cmd
        + " <uuid> --jmespath \""@ + condition_field(text::texts(resource.columns@))
        + "=='OK'\"\n```\n"@ + GLOBAL_OPTIONS@
}

/// The page of `wait`.
pub fn wait_page(group: &str, resource: &Resource) -> (result: ReferencePage)
    ensures
        result@ == command_page(group@, resource.name@, "wait"@, wait_text(group@, *resource)),
{
    let cmd = command_text(group, resource.name.as_str(), "wait");
    let field = condition_field_of(&resource.columns);
    let sentence = "Poll ".to_string().concat(
        resource.about.as_str().to_lowercase().as_str(),
    ).concat(WAIT_SENTENCE);
    let mut rows = start_rows();
    append_row(&mut rows, "<UUID>", "positional, required", "uuid of the resource.");
    append_row(&mut rows, "--jmespath EXPR", "string, required", CONDITION_SENTENCE);
    append_row(&mut rows, "--timeout N", "integer", CONDITION_TIMEOUT_SENTENCE);
    append_row(&mut rows, "--interval N", "integer", INTERVAL_SENTENCE);
    let body = page_head_text(
        cmd.as_str(),
        sentence.as_str(),
        " <UUID> --jmespath EXPR [OPTIONS]",
    ).concat(options_table(&rows).as_str()).concat("\n## Examples\n\n```bash\n").concat(
        cmd.as_str(),
    ).concat(" <uuid> --jmespath \"").concat(field).concat("=='OK'\"\n```\n").concat(
        GLOBAL_OPTIONS,
    );
    page(group, resource.name.as_str(), "wait", body)
}

/// What an action does, in words.
pub open spec fn action_about(action: Seq<char>, resource: Resource) -> Seq<char> {
    text::capitalized(text::replaced(action, '_', ' ')) + " "@ + text::lowercase(resource.about@)
}

/// The page of a custom action.
pub open spec fn action_text(
    group: Seq<char>,
    resource: Resource,
    action: Action,
    skeletons: Map<Seq<char>, String>,
) -> Seq<char> {
    let cmd = command_line(group, resource.name@, typed_verb(action.name));
    let about = action_about(action.name, resource);
    let uuid = no_rows().push(
        row("<UUID>"@, "positional, required"@, "uuid of the resource."@),
    );
    let op = action.operation;
    match op.request_body_type {
        Some(name) => {
            let filled = match template_of(Some(name), skeletons) {
                Some(template) => "\n```bash\n"@ + cmd + " <uuid> --request '"@ + one_line(template)
                    + "'\n```\n"@,
                None => ""@,
            };
            page_head(cmd, about, UUID_BODY_USAGE@) + options_text(
                body_rows(uuid, "Print a fillable template and exit."@),
            ) + "\n## Examples\n\n```bash\n"@ + cmd + " <uuid> --generate-skeleton\n```\n"@ + filled
                + GLOBAL_OPTIONS@
        },
        None => page_head(cmd, about, " <UUID>"@) + options_text(uuid)
            + "\n## Examples\n\n```bash\n"@ + cmd + " <uuid>\n```\n\n(sends a bodyless "@
            + text::uppercase(op.http_verb) + " to `"@ + op.path + "`)\n"@ + GLOBAL_OPTIONS@,
    }
}

pub fn action_page(
    group: &str,
    resource: &Resource,
    action: &ExtractedAction,
    request_skeletons: &Table<String>,
) -> (result: ReferencePage)
    ensures
        result@ == command_page(
            group@,
            resource.name@,
            action.name@,
            action_text(group@, *resource, action@, request_skeletons@),
        ),
{
    let verb = cli_verb(action.name.as_str());
    let cmd = command_text(group, resource.name.as_str(), verb.as_str());
    let words = replace_char(action.name.as_str(), '_', ' ');
    let about = capitalize(words.as_str()).concat(" ").concat(
        resource.about.as_str().to_lowercase().as_str(),
    );
    let op = &action.operation;
    let mut rows = start_rows();
    append_row(&mut rows, "<UUID>", "positional, required", "uuid of the resource.");
    let body = match &op.request_body_type {
        Some(name) => {
            append_body_rows(&mut rows, "Print a fillable template and exit.");
            let filled = match find_template(Some(name.as_str()), request_skeletons) {
                Some(template) => "\n```bash\n".to_string().concat(cmd.as_str()).concat(
                    " <uuid> --request '",
                ).concat(compact_json(template).as_str()).concat("'\n```\n"),
                None => "".to_string(),
            };
            page_head_text(cmd.as_str(), about.as_str(), UUID_BODY_USAGE).concat(
                options_table(&rows).as_str(),
            ).concat("\n## Examples\n\n```bash\n").concat(cmd.as_str()).concat(
                " <uuid> --generate-skeleton\n```\n",
            ).concat(filled.as_str()).concat(GLOBAL_OPTIONS)
        },
        None => {
            let method = op.http_verb.as_str().to_uppercase();
            page_head_text(cmd.as_str(), about.as_str(), " <UUID>").concat(
                options_table(&rows).as_str(),
            ).concat("\n## Examples\n\n```bash\n").concat(cmd.as_str()).concat(
                " <uuid>\n```\n\n(sends a bodyless ",
            ).concat(method.as_str()).concat(" to `").concat(op.path.as_str()).concat(
                "`)\n",
            ).concat(GLOBAL_OPTIONS)
        },
    };
    page(group, resource.name.as_str(), action.name.as_str(), body)
}

} // verus!
