//! What holds of the command schema as a whole.
use crate::codegen::Inputs;
use crate::json;
use crate::json::Json;
use crate::manifest;
use crate::manifest::Resource;
use crate::reference_pages;
use crate::rust_text;
use crate::schema;
use crate::schema::{Operation, Param};
use crate::schema_codegen;
use crate::text;
use crate::verb_codegen;
use vstd::prelude::*;

verus! {

/// What ends a raw string literal with that many marks.
pub open spec fn raw_end(count: nat) -> Seq<char> {
    seq!['"'] + schema_codegen::marks(count)
}

/// What a raw string literal holds whose marks start at position `start`: everything
/// behind the quote that follows them, up to the first quote with as many marks.
pub open spec fn raw_literal(source: Seq<char>, start: int) -> Option<Seq<char>> {
    let count = schema_codegen::marks_from(source, start);
    match text::split_around(source.skip(start + count + 1), raw_end(count)) {
        Some((content, _)) => Some(content),
        None => None,
    }
}

proof fn lemma_marks_counted(source: Seq<char>, from: int, count: nat)
    requires
        0 <= from,
        from + count <= source.len(),
        forall|i: int| from <= i < from + count ==> source[i] == '#',
    ensures
        schema_codegen::marks_from(source, from) >= count,
        from + count < source.len() && source[from + count] != '#' ==> schema_codegen::marks_from(
            source,
            from,
        ) == count,
    decreases count,
{
    if count > 0 {
        lemma_marks_counted(source, from + 1, (count - 1) as nat);
    }
}

proof fn lemma_longest(content: Seq<char>, from: int, at: int)
    requires
        0 <= from <= at < content.len(),
        content[at] == '"',
    ensures
        schema_codegen::longest_marks(content, from) >= schema_codegen::marks_from(
            content,
            at + 1,
        ),
    decreases at - from,
{
    if from < at {
        lemma_longest(content, from + 1, at);
    }
}

proof fn lemma_no_earlier_end(content: Seq<char>, tail: Seq<char>, from: int)
    requires
        0 <= from <= content.len(),
    ensures
        text::first_occurrence(
            content + raw_end(schema_codegen::mark_count(content)) + tail,
            raw_end(schema_codegen::mark_count(content)),
            from,
        ) == Some(content.len() as int),
    decreases content.len() - from,
{
    let count = schema_codegen::mark_count(content);
    let end = raw_end(count);
    let all = content + end + tail;
    assert(end.len() == count + 1);
    assert(end[0] == '"');
    if from == content.len() {
        assert(all.subrange(from, from + end.len()) =~= end);
        assert(text::occurs_at(all, end, from));
    } else {
        assert(!text::occurs_at(all, end, from)) by {
            if text::occurs_at(all, end, from) {
                let found = all.subrange(from, from + end.len());
                assert(found == end);
                assert(found[0] == all[from]);
                if from + end.len() <= content.len() {
                    assert forall|i: int| from + 1 <= i < from + 1 + count implies content[i]
                        == '#' by {
                        assert(found[i - from] == all[i]);
                        assert(end[i - from] == '#');
                    }
                    lemma_marks_counted(content, from + 1, count);
                    lemma_longest(content, 0, from);
                } else {
                    let k = content.len() - from;
                    assert(found[k] == all[content.len() as int]);
                    assert(all[content.len() as int] == end[0]);
                    assert(end[k] == '#');
                }
            }
        }
        lemma_no_earlier_end(content, tail, from + 1);
    }
}

/// The generated `schema.rs` holds exactly the printed command schema: in a raw string
/// literal that ends where the JSON ends, or, where Rust takes no raw literal with as many
/// marks as that needs, in the literal with escapes that stands for the JSON.
pub proof fn the_literal_holds_the_schema(schema: Json)
    ensures
        ({
            let source = schema_codegen::schema_rs_text(schema);
            let head = schema_codegen::SCHEMA_RS_HEAD@;
            let start = head.len() as int;
            let content = json::pretty_text(schema);
            if schema_codegen::mark_count(content) <= schema_codegen::MOST_MARKS {
                &&& source[start] == 'r'
                &&& schema_codegen::marks_from(source, start + 1) <= schema_codegen::MOST_MARKS
                &&& raw_literal(source, start + 1) == Some(content)
            } else {
                source == head + rust_text::literal_text(content) + ";\n"@
            }
        }),
{
    let head = schema_codegen::SCHEMA_RS_HEAD@;
    let content = json::pretty_text(schema);
    let count = schema_codegen::mark_count(content);
    if count <= schema_codegen::MOST_MARKS {
        let row = schema_codegen::marks(count);
        let end = raw_end(count);
        let source = schema_codegen::schema_rs_text(schema);
        let start = head.len() as int + 1;
        reveal_strlit("r");
        reveal_strlit("\"");
        assert("\""@ =~= seq!['"']);
        assert(source[start - 1] == 'r');
        assert(source[start + count] == '"');
        assert forall|i: int| start <= i < start + count implies source[i] == '#' by {
            assert(source[i] == row[i - start]);
        }
        lemma_marks_counted(source, start, count);
        let rest = source.skip(start + count + 1);
        assert(rest =~= content + end + ";\n"@);
        lemma_no_earlier_end(content, ";\n"@, 0);
        assert(rest.take(content.len() as int) =~= content);
    }
}

/// The `type` member of a described command.
pub open spec fn command_type(command: Json) -> Seq<char> {
    command->Object_0["type"@]->Str_0
}

proof fn lemma_members_differ()
    ensures
        "type"@ != "api_endpoint"@,
        "type"@ != "http_method"@,
        "type"@ != "parameters"@,
        "type"@ != "output"@,
        "type"@ != "request_skeleton"@,
        "list"@ != "create"@,
        "list"@ != "update"@,
{
    reveal_strlit("type");
    reveal_strlit("api_endpoint");
    reveal_strlit("http_method");
    reveal_strlit("parameters");
    reveal_strlit("output");
    reveal_strlit("request_skeleton");
    assert("type"@[0] == 't');
    assert("api_endpoint"@[0] == 'a');
    assert("http_method"@[0] == 'h');
    assert("parameters"@[0] == 'p');
    assert("output"@[0] == 'o');
    assert("request_skeleton"@[0] == 'r');
    manifest::known_verbs_differ();
}

pub open spec fn command_types(commands: Seq<Json>) -> Seq<Seq<char>> {
    commands.map_values(|command: Json| command_type(command))
}

proof fn lemma_verb_types(group: Seq<char>, resource: Resource, inputs: Inputs, n: nat)
    requires
        n <= 5,
        schema_codegen::verb_commands(group, resource, inputs, n) is Ok,
    ensures
        command_types(schema_codegen::verb_commands(group, resource, inputs, n)->Ok_0)
            == manifest::own_verbs(resource, n),
    decreases n,
{
    lemma_members_differ();
    let commands = schema_codegen::verb_commands(group, resource, inputs, n)->Ok_0;
    if n > 0 {
        lemma_verb_types(group, resource, inputs, (n - 1) as nat);
        let before = schema_codegen::verb_commands(
            group,
            resource,
            inputs,
            (n - 1) as nat,
        )->Ok_0;
        let verb = manifest::verb_at(n - 1);
        if resource.commands@.contains_key(verb) {
            assert(command_type(commands.last()) == verb);
            assert(command_types(commands) =~= command_types(before).push(verb));
        }
    } else {
        assert(command_types(commands) =~= manifest::own_verbs(resource, 0));
    }
}

/// The verbs that the summary lists for a resource are the types of its commands, in the
/// same order.
pub proof fn the_summary_lists_the_commands(group: Seq<char>, resource: Resource, inputs: Inputs)
    requires
        schema_codegen::resource_commands(group, resource, inputs) is Ok,
    ensures
        command_types(schema_codegen::resource_commands(group, resource, inputs)->Ok_0)
            == schema_codegen::resource_verbs(resource),
{
    lemma_members_differ();
    lemma_verb_types(group, resource, inputs, 5);
    let verbs = schema_codegen::verb_commands(group, resource, inputs, 5)->Ok_0;
    let commands = schema_codegen::resource_commands(group, resource, inputs)->Ok_0;
    if resource.order is Some {
        let provision = Json::Object(
            schema_codegen::provision_command(group, resource, inputs.order_skeletons),
        );
        let terminate = Json::Object(schema_codegen::terminate_command(group, resource));
        assert(command_type(provision) == "provision"@);
        assert(command_type(terminate) == "terminate"@);
        assert(commands =~= verbs.push(provision).push(terminate));
        assert(command_types(commands) =~= command_types(verbs).push("provision"@).push(
            "terminate"@,
        ));
    }
}

/// The command schema carries the request template itself: what the template's text reads
/// as stands under `request_skeleton`.
pub proof fn the_template_is_embedded(
    group: Seq<char>,
    resource: Resource,
    verb: Seq<char>,
    op: Operation,
    inputs: Inputs,
    template: Json,
)
    requires
        verb_codegen::has_body(verb),
        op.request_body_type is Some,
        inputs.request_skeletons.contains_key(op.request_body_type->0),
        json::parsed_json(inputs.request_skeletons[op.request_body_type->0]@) == Some(template),
    ensures
        schema_codegen::verb_command(
            group,
            resource,
            verb,
            op,
            inputs.field_values,
            inputs.request_skeletons,
        ).contains_key("request_skeleton"@),
        schema_codegen::verb_command(
            group,
            resource,
            verb,
            op,
            inputs.field_values,
            inputs.request_skeletons,
        )["request_skeleton"@] == template,
{
    lemma_members_differ();
}

proof fn lemma_same_filters(params: Seq<Param>)
    ensures
        params.filter(|param: Param| verb_codegen::filter_kind(param.kind) is Some)
            == schema::filter_params(params),
    decreases params.len(),
{
    reveal(Seq::filter);
    if params.len() > 0 {
        lemma_same_filters(params.drop_last());
    }
}

/// The filter keys agree everywhere: the filter table of the generated command, the
/// command schema and the reference page list the same parameters in the same order.
pub proof fn filter_keys_agree(params: Seq<Param>, i: int)
    requires
        0 <= i < schema::filter_params(params).len(),
    ensures
        verb_codegen::filter_entries(params).len() == schema::filter_params(params).len(),
        schema_codegen::filter_keys(params).len() == schema::filter_params(params).len(),
        reference_pages::all_key_words(params).len() == schema::filter_params(params).len(),
        verb_codegen::filter_entries(params)[i] == verb_codegen::filter_entry(
            schema::filter_params(params)[i],
        ),
        schema_codegen::filter_keys(params)[i] == schema_codegen::filter_key(
            schema::filter_params(params)[i],
        ),
        reference_pages::all_key_words(params)[i] == reference_pages::key_words(
            schema::filter_params(params)[i],
        ),
{
    lemma_same_filters(params);
}

} // verus!
