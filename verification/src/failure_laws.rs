//! Why things fail where they do, and what is said then.
use crate::codegen;
use crate::codegen::Inputs;
use crate::codegen_error;
use crate::codegen_error::CodegenError;
use crate::command_laws;
use crate::error;
use crate::error::{NotExtracted, SchemaError};
use crate::extraction_laws;
use crate::manifest;
use crate::manifest::{Group, Manifest, Resource};
use crate::order;
use crate::output_laws;
use crate::pipeline;
use crate::pipeline::{PipelineError, VersionError};
use crate::reference_docs;
use crate::reference_docs::DocInputs;
use crate::rust_text;
use crate::schema;
use crate::schema::{
    Action, ExtractedOperation, OpenApiDoc, Operation, Param, ParamKind, RawParamOrRef,
    RawParameter,
};
use crate::schema_codegen;
use crate::skeleton;
use crate::text;
use crate::verb_codegen;
use vstd::prelude::*;

verus! {

/// Whether a verb of a resource has a reason to fail with an error: what the error says is
/// true of the operation that the manifest gives the verb.
pub open spec fn verb_has_reason(
    resource: Resource,
    verb: Seq<char>,
    inputs: Inputs,
    error: CodegenError<Seq<char>>,
) -> bool {
    let id = resource.commands@[verb]@;
    let op = command_laws::operation_for(resource, verb, inputs);
    let with_body = verb == "create"@ || verb == "update"@;
    match error {
        CodegenError::NotExtracted { operation, resource: name, verb: named } => operation == id
            && name == resource.name@ && named == verb && !inputs.operations.contains_key(id),
        CodegenError::QueryOnVerb { resource: name, verb: named, operation, params } => {
            &&& name == resource.name@ && named == verb && operation == id
            &&& verb != "list"@ && op.query_params.len() > 0
            &&& params == "["@ + text::joined(
                op.query_params.map_values(|param: Param| text::debug_format(param.name)),
                ", "@,
            ) + "]"@
        },
        CodegenError::InVerb { resource: name, verb: named, operation, cause } => {
            &&& name == resource.name@ && named == verb && operation == id
            &&& verb == "list"@
            &&& (*cause matches CodegenError::UnmappedFilter { param } && exists|i: int|
                0 <= i < op.query_params.len() && (#[trigger] op.query_params[i]).name == param
                    && op.query_params[i].kind == ParamKind::SkippedRequired)
        },
        CodegenError::NotAnIdentifier { name } => !rust_text::is_ident(name) && (name
            == rust_text::pascal(resource.name@) + rust_text::pascal(verb) + "Args"@ || (
        op.path_param is Some && name == rust_text::field_name(op.path_param->0))),
        CodegenError::NoRequestBody { resource: name, verb: named, operation } => name
            == resource.name@ && named == verb && operation == id && with_body
            && op.request_body_type is None,
        CodegenError::NoSkeleton { body_type } => with_body && op.request_body_type == Some(
            body_type,
        ) && !inputs.request_skeletons.contains_key(body_type),
        CodegenError::InvalidTypeName { body_type, reason } => with_body && op.request_body_type
            == Some(body_type) && rust_text::type_tokens("waldur_client::"@ + body_type) == Err::<
            Seq<char>,
            Seq<char>,
        >(reason),
        CodegenError::UnprintableType { body_type } => with_body && op.request_body_type == Some(
            body_type,
        ) && !command_laws::has_usable_type(op),
        CodegenError::UnknownHttpVerb { operation, http_verb } => operation == op.operation_id
            && http_verb == op.http_verb && !command_laws::has_method(op),
        CodegenError::NoPathPlaceholder { operation, path, param } => operation == op.operation_id
            && path == op.path && op.path_param == Some(param) && !text::occurs(
            op.path,
            "{"@ + param + "}"@,
        ),
        _ => false,
    }
}

/// Whether a resource has a reason to fail with an error.
pub open spec fn has_reason(
    resource: Resource,
    inputs: Inputs,
    error: CodegenError<Seq<char>>,
) -> bool {
    let name = rust_text::pascal(resource.name@);
    ||| exists|v: int|
        0 <= v < 5 && command_laws::given(resource, #[trigger] command_laws::verb_text(v))
            && verb_has_reason(resource, command_laws::verb_text(v), inputs, error)
    ||| error == (CodegenError::NoOrderSkeleton { resource: resource.name@ }) && resource.order
        is Some && !inputs.order_skeletons.contains_key(resource.name@)
    ||| (error matches CodegenError::NotAnIdentifier { name: bad } && !rust_text::is_ident(bad)
        && (bad == name + "Command"@ || resource.order is Some && (bad == name + "ProvisionArgs"@
        || bad == name + "TerminateArgs"@)))
}

proof fn lemma_path_reason(op: Operation, param: Seq<char>)
    requires
        verb_codegen::split_path(op, param) is Err,
    ensures
        match verb_codegen::split_path(op, param)->Err_0 {
            CodegenError::NoPathPlaceholder { operation, path, param: named } => operation
                == op.operation_id && path == op.path && named == param && !text::occurs(
                op.path,
                "{"@ + param + "}"@,
            ),
            CodegenError::NotAnIdentifier { name } => !rust_text::is_ident(name) && name
                == rust_text::field_name(param),
            _ => false,
        },
{
    let needle = "{"@ + param + "}"@;
    if text::occurs(op.path, needle) {
        let at = choose|at: int| text::occurs_at(op.path, needle, at);
        command_laws::lemma_occurs_first(op.path, needle, 0, at);
    }
}

proof fn lemma_unmapped_reason(params: Seq<Param>)
    requires
        verb_codegen::first_unmapped(params) is Some,
    ensures
        exists|i: int|
            0 <= i < params.len() && (#[trigger] params[i]).name == verb_codegen::first_unmapped(
                params,
            )->0 && params[i].kind == ParamKind::SkippedRequired,
    decreases params.len(),
{
    let before = params.drop_last();
    if verb_codegen::first_unmapped(before) is Some {
        lemma_unmapped_reason(before);
        let name = verb_codegen::first_unmapped(before)->0;
        let i = choose|i: int|
            0 <= i < before.len() && (#[trigger] before[i]).name == name && before[i].kind
                == ParamKind::SkippedRequired;
        assert(params[i].name == name);
    } else {
        assert(params[params.len() - 1] == params.last());
    }
}

proof fn lemma_verb_reason(resource: Resource, v: int, inputs: Inputs)
    requires
        0 <= v < 5,
        inputs.operations.contains_key(resource.commands@[command_laws::verb_text(v)]@),
        verb_codegen::verb_parts(
            resource,
            command_laws::verb_text(v),
            resource.commands@[command_laws::verb_text(v)]@,
            command_laws::operation_for(resource, command_laws::verb_text(v), inputs),
            inputs.field_values,
            inputs.request_skeletons,
            verb_codegen::list_has_project(resource, inputs.operations),
        ) is Err,
    ensures
        verb_has_reason(
            resource,
            command_laws::verb_text(v),
            inputs,
            verb_codegen::verb_parts(
                resource,
                command_laws::verb_text(v),
                resource.commands@[command_laws::verb_text(v)]@,
                command_laws::operation_for(resource, command_laws::verb_text(v), inputs),
                inputs.field_values,
                inputs.request_skeletons,
                verb_codegen::list_has_project(resource, inputs.operations),
            )->Err_0,
        ),
{
    manifest::known_verbs_differ();
    let verb = command_laws::verb_text(v);
    let op = command_laws::operation_for(resource, verb, inputs);
    if verb_codegen::first_unmapped(op.query_params) is Some {
        lemma_unmapped_reason(op.query_params);
    }
    if op.path_param is Some && verb_codegen::split_path(op, op.path_param->0) is Err {
        lemma_path_reason(op, op.path_param->0);
    }
    let tokens = rust_text::type_tokens("waldur_client::"@ + op.request_body_type->0);
    command_laws::lemma_known_syntax(rust_text::type_tree(tokens->Ok_0)->0);
}

proof fn lemma_verbs_reason(resource: Resource, inputs: Inputs, n: nat) -> (v: int)
    requires
        n <= 5,
        verb_codegen::first_verbs(
            resource,
            inputs.operations,
            inputs.field_values,
            inputs.request_skeletons,
            n,
        ) is Err,
    ensures
        0 <= v < n,
        command_laws::given(resource, command_laws::verb_text(v)),
        verb_has_reason(
            resource,
            command_laws::verb_text(v),
            inputs,
            verb_codegen::first_verbs(
                resource,
                inputs.operations,
                inputs.field_values,
                inputs.request_skeletons,
                n,
            )->Err_0,
        ),
    decreases n,
{
    manifest::known_verbs_differ();
    let last = n - 1;
    assert(command_laws::verb_text(last) == manifest::verb_at(last));
    if verb_codegen::first_verbs(
        resource,
        inputs.operations,
        inputs.field_values,
        inputs.request_skeletons,
        last as nat,
    ) is Err {
        lemma_verbs_reason(resource, inputs, last as nat)
    } else {
        if inputs.operations.contains_key(resource.commands@[command_laws::verb_text(last)]@) {
            lemma_verb_reason(resource, last, inputs);
        }
        last
    }
}

/// Generating a resource only fails for a reason: the error says something that is true of
/// one of its verbs, of its order or of its name.
pub proof fn generating_fails_for_a_reason(resource: Resource, inputs: Inputs)
    requires
        codegen::module_text(
            resource,
            inputs.operations,
            inputs.field_values,
            inputs.request_skeletons,
            inputs.order_skeletons,
        ) is Err,
    ensures
        has_reason(
            resource,
            inputs,
            codegen::module_text(
                resource,
                inputs.operations,
                inputs.field_values,
                inputs.request_skeletons,
                inputs.order_skeletons,
            )->Err_0,
        ),
{
    if rust_text::is_ident(rust_text::pascal(resource.name@) + "Command"@)
        && verb_codegen::first_verbs(
        resource,
        inputs.operations,
        inputs.field_values,
        inputs.request_skeletons,
        5,
    ) is Err {
        let v = lemma_verbs_reason(resource, inputs, 5);
        assert(command_laws::given(resource, command_laws::verb_text(v)));
    }
}

/// Whether a resource can be generated and laid out.
pub open spec fn can_be_laid_out(resource: Resource, inputs: Inputs) -> bool {
    let source = codegen::module_text(
        resource,
        inputs.operations,
        inputs.field_values,
        inputs.request_skeletons,
        inputs.order_skeletons,
    );
    &&& command_laws::can_be_generated(resource, inputs)
    &&& codegen::formatted(source->Ok_0) is Ok
    &&& rust_text::is_ident(rust_text::module_name(resource.name@))
}

proof fn lemma_group_laid_out(group: Seq<char>, resources: Seq<Resource>, inputs: Inputs)
    ensures
        codegen::group_files(group, resources, inputs) is Ok <==> forall|i: int|
            0 <= i < resources.len() ==> can_be_laid_out(#[trigger] resources[i], inputs),
    decreases resources.len(),
{
    if resources.len() > 0 {
        let before = resources.drop_last();
        lemma_group_laid_out(group, before, inputs);
        reveal(codegen::resource_file);
        command_laws::a_resource_is_generated_where_it_can_be(resources.last(), inputs);
        assert(forall|i: int| 0 <= i < before.len() ==> #[trigger] resources[i] == before[i]);
        assert(forall|i: int| 0 <= i < before.len() ==> #[trigger] before[i] == resources[i]);
        assert(resources[resources.len() - 1] == resources.last());
    }
}

proof fn lemma_all_laid_out(groups: Seq<Group>, inputs: Inputs)
    ensures
        codegen::all_files(groups, inputs) is Ok <==> forall|g: int, r: int|
            0 <= g < groups.len() && 0 <= r < groups[g].resource@.len() ==> can_be_laid_out(
                #[trigger] groups[g].resource@[r],
                inputs,
            ),
    decreases groups.len(),
{
    if groups.len() > 0 {
        let before = groups.drop_last();
        let last = groups.len() - 1;
        let resources = groups.last().resource@;
        lemma_all_laid_out(before, inputs);
        lemma_group_laid_out(groups.last().name@, resources, inputs);
        if codegen::all_files(groups, inputs) is Ok {
            assert forall|g: int, r: int|
                0 <= g < groups.len() && 0 <= r < groups[g].resource@.len() implies can_be_laid_out(
                #[trigger] groups[g].resource@[r],
                inputs,
            ) by {
                if g < last {
                    assert(can_be_laid_out(before[g].resource@[r], inputs));
                } else {
                    assert(can_be_laid_out(resources[r], inputs));
                }
            }
        }
        if forall|g: int, r: int|
            0 <= g < groups.len() && 0 <= r < groups[g].resource@.len() ==> can_be_laid_out(
                #[trigger] groups[g].resource@[r],
                inputs,
            ) {
            assert forall|g: int, r: int|
                0 <= g < before.len() && 0 <= r < before[g].resource@.len() implies can_be_laid_out(
                #[trigger] before[g].resource@[r],
                inputs,
            ) by {
                assert(can_be_laid_out(groups[g].resource@[r], inputs));
            }
            assert forall|r: int| 0 <= r < resources.len() implies can_be_laid_out(
                #[trigger] resources[r],
                inputs,
            ) by {
                assert(can_be_laid_out(groups[last].resource@[r], inputs));
            }
        }
    }
}

proof fn lemma_no_bad_group(groups: Seq<Group>)
    ensures
        codegen::first_bad_group(groups) is None <==> forall|g: int|
            0 <= g < groups.len() ==> rust_text::is_ident(
                rust_text::module_name((#[trigger] groups[g]).name@),
            ),
    decreases groups.len(),
{
    if groups.len() > 0 {
        let before = groups.drop_last();
        lemma_no_bad_group(before);
        assert(forall|g: int| 0 <= g < before.len() ==> #[trigger] groups[g] == before[g]);
        assert(forall|g: int| 0 <= g < before.len() ==> #[trigger] before[g] == groups[g]);
        assert(groups[groups.len() - 1] == groups.last());
    }
}

/// Everything is generated exactly where every resource can be generated and laid out, and
/// the names of the groups and the resources fit into a `cli.rs` that can be laid out.
pub proof fn everything_is_generated_where_it_can_be(manifest: Manifest, inputs: Inputs)
    ensures
        codegen::all_output(manifest, inputs) is Ok <==> {
            &&& forall|g: int, r: int|
                0 <= g < manifest.group@.len() && 0 <= r < manifest.group@[g].resource@.len()
                    ==> can_be_laid_out(#[trigger] manifest.group@[g].resource@[r], inputs)
            &&& output_laws::nameable(manifest.group@)
            &&& codegen::formatted(codegen::cli_text(manifest)->Ok_0) is Ok
        },
{
    let groups = manifest.group@;
    lemma_all_laid_out(groups, inputs);
    lemma_no_bad_group(groups);
    output_laws::names_decide_the_dispatch(manifest);
    if output_laws::nameable(groups) {
        assert forall|g: int| 0 <= g < groups.len() implies rust_text::is_ident(
            rust_text::module_name((#[trigger] groups[g]).name@),
        ) by {}
    }
}

/// The version of the command line is the one that its package names; one that is no text
/// stands for `0.0.0`, and without any there is none.
pub proof fn the_version_is_the_one_named(found: Option<Option<Seq<char>>>)
    ensures
        ({
            let version = pipeline::version_found(found);
            &&& version is Ok <==> found is Some
            &&& found is Some && found->0 is Some ==> version->Ok_0 == found->0->0
            &&& found is Some && found->0 is None ==> version->Ok_0 == "0.0.0"@
            &&& found is None ==> version->Err_0 == VersionError::<Seq<char>>::NoVersion
        }),
{
}

/// Sorted actions stand in the order of their names, actions of one name in the order of
/// their paths, and those of one path in the order of their HTTP verbs.
pub proof fn sorted_actions_stand_in_order(found: Seq<Action>, sorted: Seq<Action>, i: int, j: int)
    requires
        schema::sorted_by_action(found, sorted),
        0 <= i < j < sorted.len(),
    ensures
        order::text_le(sorted[i].name, sorted[j].name),
        sorted[i].name == sorted[j].name ==> order::text_le(
            sorted[i].operation.path,
            sorted[j].operation.path,
        ),
        sorted[i].name == sorted[j].name && sorted[i].operation.path == sorted[j].operation.path
            ==> order::text_le(sorted[i].operation.http_verb, sorted[j].operation.http_verb),
{
    assert(schema::action_le(sorted[i], sorted[j]));
    order::text_le_reflexive(sorted[i].name);
    order::text_le_reflexive(sorted[i].operation.path);
}

proof fn lemma_at_end(before: Seq<char>, piece: Seq<char>)
    ensures
        text::occurs(before + piece, piece),
{
    let all = before + piece;
    let at = before.len() as int;
    assert(all.subrange(at, at + piece.len()) =~= piece);
    assert(text::occurs_at(all, piece, at));
}

proof fn lemma_still_there(before: Seq<char>, behind: Seq<char>, piece: Seq<char>)
    requires
        text::occurs(before, piece),
    ensures
        text::occurs(before + behind, piece),
{
    let at = choose|at: int| text::occurs_at(before, piece, at);
    let all = before + behind;
    assert(all.subrange(at, at + piece.len()) =~= before.subrange(at, at + piece.len()));
    assert(text::occurs_at(all, piece, at));
}

/// A piece that stands between others is in the text.
proof fn lemma_inside(before: Seq<char>, piece: Seq<char>, behind: Seq<char>)
    ensures
        text::occurs(before + piece + behind, piece),
{
    lemma_at_end(before, piece);
    lemma_still_there(before + piece, behind, piece);
}

/// What a schema error says names what it is about.
pub proof fn a_schema_error_names_its_subject(error: SchemaError<Seq<char>>)
    ensures
        ({
            let said = error::schema_error_text(error);
            match error {
                SchemaError::UnsupportedParameterRef { reference }
                | SchemaError::UnknownParameter { reference } => text::occurs(said, reference),
                SchemaError::OperationNotFound { operation_id }
                | SchemaError::MultiplePathParams { operation_id } => text::occurs(
                    said,
                    operation_id,
                ),
                SchemaError::DiscoveringAction { name, path, .. } => text::occurs(said, name)
                    && text::occurs(said, path),
                SchemaError::EnumNotFound { schema }
                | SchemaError::NoEnumValues { schema }
                | SchemaError::SchemaNotFound { schema } => text::occurs(said, schema),
                SchemaError::NoAttributesSchema { schema, .. } => text::occurs(said, schema),
                SchemaError::OrderNotAnObject => text::occurs(said, said),
            }
        }),
{
    let said = error::schema_error_text(error);
    match error {
        SchemaError::UnsupportedParameterRef { reference } => {
            lemma_inside("unsupported parameter $ref shape: `"@, reference, "`"@);
        },
        SchemaError::UnknownParameter { reference } => {
            lemma_inside("$ref `"@, reference, "` does not resolve to a known parameter"@);
        },
        SchemaError::OperationNotFound { operation_id } => {
            lemma_inside("operationId `"@, operation_id, "` not found in OpenAPI schema"@);
        },
        SchemaError::MultiplePathParams { operation_id } => {
            lemma_inside("operation `"@, operation_id, error::MULTIPLE_PATH_PARAMS@);
        },
        SchemaError::DiscoveringAction { name, path, .. } => {
            let start = "discovering action `"@ + name + "` at `"@;
            lemma_inside("discovering action `"@, name, "` at `"@);
            lemma_still_there(start, path, name);
            lemma_still_there(start + path, "`"@, name);
            lemma_inside(start, path, "`"@);
        },
        SchemaError::EnumNotFound { schema } => {
            lemma_inside("schema `"@, schema, "` not found in OpenAPI schema"@);
        },
        SchemaError::NoEnumValues { schema } => {
            lemma_inside("schema `"@, schema, "` has no `enum` values"@);
        },
        SchemaError::SchemaNotFound { schema } => {
            lemma_inside("schema `"@, schema, "` not found"@);
        },
        SchemaError::NoAttributesSchema { schema, offering_type, .. } => {
            let start = "no attributes schema `"@ + schema + "` for offering type `"@;
            let shown = error::debug_option_text(offering_type);
            lemma_inside("no attributes schema `"@, schema, "` for offering type `"@);
            lemma_still_there(start, shown, schema);
            lemma_still_there(start + shown, "`"@, schema);
        },
        SchemaError::OrderNotAnObject => {
            assert(Seq::<char>::empty() + said =~= said);
            lemma_at_end(Seq::empty(), said);
        },
    }
}

/// What is said of a missing operation names the step, the operation, and the command that
/// needs it.
pub proof fn a_missing_operation_is_named(missing: NotExtracted<Seq<char>>, step: Seq<char>)
    ensures
        ({
            let said = error::not_extracted_text(missing, step);
            &&& step.is_prefix_of(said)
            &&& text::occurs(said, missing.operation_id)
            &&& text::occurs(said, missing.group)
            &&& text::occurs(said, missing.resource)
            &&& text::occurs(said, missing.verb)
        }),
{
    let one = step + ": operation `"@ + missing.operation_id;
    let two = one + "` (group `"@ + missing.group;
    let three = two + "`, resource `"@ + missing.resource;
    let four = three + "`, verb `"@ + missing.verb;
    let said = error::not_extracted_text(missing, step);
    lemma_at_end(step + ": operation `"@, missing.operation_id);
    lemma_at_end(one + "` (group `"@, missing.group);
    lemma_at_end(two + "`, resource `"@, missing.resource);
    lemma_at_end(three + "`, verb `"@, missing.verb);
    let end = "`) not extracted"@;
    lemma_still_there(four, end, missing.verb);
    lemma_still_there(three, "`, verb `"@, missing.resource);
    lemma_still_there(three + "`, verb `"@, missing.verb, missing.resource);
    lemma_still_there(four, end, missing.resource);
    lemma_still_there(two, "`, resource `"@, missing.group);
    lemma_still_there(two + "`, resource `"@, missing.resource, missing.group);
    lemma_still_there(three, "`, verb `"@, missing.group);
    lemma_still_there(three + "`, verb `"@, missing.verb, missing.group);
    lemma_still_there(four, end, missing.group);
    lemma_still_there(one, "` (group `"@, missing.operation_id);
    lemma_still_there(one + "` (group `"@, missing.group, missing.operation_id);
    lemma_still_there(two, "`, resource `"@, missing.operation_id);
    lemma_still_there(two + "`, resource `"@, missing.resource, missing.operation_id);
    lemma_still_there(three, "`, verb `"@, missing.operation_id);
    lemma_still_there(three + "`, verb `"@, missing.verb, missing.operation_id);
    lemma_still_there(four, end, missing.operation_id);
}

/// What is said of a failed step names the operation or the resource that it failed for.
pub proof fn a_failed_step_is_named(failed: PipelineError<Seq<char>>)
    ensures
        ({
            let said = pipeline::pipeline_error_text(failed);
            match failed {
                PipelineError::ExtractingOperation { operation_id, .. }
                | PipelineError::ResolvingFields { operation_id, .. }
                | PipelineError::BuildingSkeleton { operation_id, .. } => text::occurs(
                    said,
                    operation_id,
                ),
                PipelineError::BuildingOrderSkeleton { resource, .. } => text::occurs(
                    said,
                    resource,
                ),
            }
        }),
{
    match failed {
        PipelineError::ExtractingOperation { operation_id, .. } => {
            lemma_inside("extracting operation `"@, operation_id, "` from OpenAPI schema"@);
        },
        PipelineError::ResolvingFields { operation_id, .. } => {
            lemma_inside("resolving --fields values for operation `"@, operation_id, "`"@);
        },
        PipelineError::BuildingSkeleton { operation_id, .. } => {
            lemma_inside("building request skeleton for operation `"@, operation_id, "`"@);
        },
        PipelineError::BuildingOrderSkeleton { resource, .. } => {
            lemma_inside("building order skeleton for resource `"@, resource, "`"@);
        },
    }
}

proof fn lemma_two(a: Seq<char>, x: Seq<char>, b: Seq<char>, y: Seq<char>, c: Seq<char>)
    ensures
        text::occurs(a + x + b + y + c, x),
        text::occurs(a + x + b + y + c, y),
{
    lemma_inside(a, x, b);
    lemma_still_there(a + x + b, y, x);
    lemma_still_there(a + x + b + y, c, x);
    lemma_inside(a + x + b, y, c);
}

proof fn lemma_three(
    a: Seq<char>,
    x: Seq<char>,
    b: Seq<char>,
    y: Seq<char>,
    c: Seq<char>,
    z: Seq<char>,
    d: Seq<char>,
)
    ensures
        text::occurs(a + x + b + y + c + z + d, x),
        text::occurs(a + x + b + y + c + z + d, y),
        text::occurs(a + x + b + y + c + z + d, z),
{
    let start = a + x + b + y + c;
    lemma_two(a, x, b, y, c);
    lemma_still_there(start, z, x);
    lemma_still_there(start, z, y);
    lemma_still_there(start + z, d, x);
    lemma_still_there(start + z, d, y);
    lemma_inside(start, z, d);
}

/// What a generation error says names what it is about.
pub proof fn a_generation_error_names_its_subject(failed: CodegenError<Seq<char>>)
    ensures
        ({
            let said = codegen_error::codegen_error_text(failed);
            match failed {
                CodegenError::NotAnIdentifier { name } => text::occurs(said, name),
                CodegenError::UnmappedFilter { param } => text::occurs(said, param),
                CodegenError::InVerb { resource, verb, operation, .. } => text::occurs(
                    said,
                    resource,
                ) && text::occurs(said, verb) && text::occurs(said, operation),
                CodegenError::UnknownHttpVerb { operation, http_verb } => text::occurs(
                    said,
                    operation,
                ) && text::occurs(said, http_verb),
                CodegenError::NoPathPlaceholder { operation, path, param } => text::occurs(
                    said,
                    operation,
                ) && text::occurs(said, path) && text::occurs(said, param),
                CodegenError::NotExtracted { operation, resource, verb } => text::occurs(
                    said,
                    operation,
                ) && text::occurs(said, resource) && text::occurs(said, verb),
                CodegenError::QueryOnVerb { resource, verb, operation, params } => text::occurs(
                    said,
                    resource,
                ) && text::occurs(said, verb) && text::occurs(said, operation) && text::occurs(
                    said,
                    params,
                ),
                CodegenError::NoRequestBody { resource, verb, operation } => text::occurs(
                    said,
                    resource,
                ) && text::occurs(said, verb) && text::occurs(said, operation),
                CodegenError::NoSkeleton { body_type }
                | CodegenError::InvalidTypeName { body_type, .. }
                | CodegenError::UnprintableType { body_type } => text::occurs(said, body_type),
                CodegenError::NoOrderSkeleton { resource } => text::occurs(said, resource),
                CodegenError::InResource { group, resource, .. } => text::occurs(said, group)
                    && text::occurs(said, resource),
                CodegenError::InvalidResourceSource { group, resource, tokens, .. } => text::occurs(
                    said,
                    group,
                ) && text::occurs(said, resource) && text::occurs(said, tokens),
                CodegenError::InvalidCliSource { tokens, .. } => text::occurs(said, tokens),
            }
        }),
{
    match failed {
        CodegenError::NotAnIdentifier { name } => {
            lemma_inside("`"@, name, "` is not a valid identifier"@);
        },
        CodegenError::UnmappedFilter { param } => {
            lemma_inside("parameter `"@, param, codegen_error::UNMAPPED_FILTER@);
        },
        CodegenError::InVerb { resource, verb, operation, .. } => {
            lemma_three(
                "in resource `"@,
                resource,
                "`, verb `"@,
                verb,
                "` ("@,
                operation,
                ")"@,
            );
        },
        CodegenError::UnknownHttpVerb { operation, http_verb } => {
            lemma_two(
                "operation `"@,
                operation,
                "` uses HTTP verb `"@,
                http_verb,
                codegen_error::UNKNOWN_HTTP_VERB@,
            );
        },
        CodegenError::NoPathPlaceholder { operation, path, param } => {
            lemma_three(
                "operation `"@,
                operation,
                "`: path `"@,
                path,
                "` doesn't contain its own path param `{"@,
                param,
                "}`"@,
            );
        },
        CodegenError::NotExtracted { operation, resource, verb } => {
            lemma_three(
                "internal error: operation `"@,
                operation,
                "` (resource `"@,
                resource,
                "`, verb `"@,
                verb,
                "`) was not extracted"@,
            );
        },
        CodegenError::QueryOnVerb { resource, verb, operation, params } => {
            let middle = ") has query parameter(s) "@;
            let end = codegen_error::QUERY_ON_VERB@;
            let start = "resource `"@ + resource + "`, verb `"@ + verb + "` ("@ + operation
                + middle;
            lemma_three("resource `"@, resource, "`, verb `"@, verb, "` ("@, operation, middle);
            lemma_still_there(start, params, resource);
            lemma_still_there(start, params, verb);
            lemma_still_there(start, params, operation);
            lemma_still_there(start + params, end, resource);
            lemma_still_there(start + params, end, verb);
            lemma_still_there(start + params, end, operation);
            lemma_inside(start, params, end);
        },
        CodegenError::NoRequestBody { resource, verb, operation } => {
            lemma_three(
                "resource `"@,
                resource,
                "`, verb `"@,
                verb,
                "` ("@,
                operation,
                codegen_error::NO_REQUEST_BODY@,
            );
        },
        CodegenError::NoSkeleton { body_type } => {
            lemma_inside(
                "internal error: no skeleton built for request type `"@,
                body_type,
                "`"@,
            );
        },
        CodegenError::InvalidTypeName { body_type, .. } => {
            lemma_inside("invalid generated type name `"@, body_type, "`"@);
        },
        CodegenError::UnprintableType { body_type } => {
            lemma_inside(
                "generated type name `"@,
                body_type,
                "` has syntax that cannot be printed"@,
            );
        },
        CodegenError::NoOrderSkeleton { resource } => {
            lemma_inside(
                "internal error: no order skeleton built for resource `"@,
                resource,
                "`"@,
            );
        },
        CodegenError::InResource { group, resource, .. } => {
            lemma_two("generating group `"@, group, "` resource `"@, resource, "`"@);
        },
        CodegenError::InvalidResourceSource { group, resource, tokens, .. } => {
            let start = "generated code for group `"@ + group + "` resource `"@ + resource
                + "` is not valid Rust:\n"@;
            lemma_two(
                "generated code for group `"@,
                group,
                "` resource `"@,
                resource,
                "` is not valid Rust:\n"@,
            );
            lemma_still_there(start, tokens, group);
            lemma_still_there(start, tokens, resource);
            lemma_at_end(start, tokens);
        },
        CodegenError::InvalidCliSource { tokens, .. } => {
            lemma_at_end("generated cli.rs is not valid Rust:\n"@, tokens);
        },
    }
}

/// Whether reading the entries of an operation has a reason to fail with an error.
pub open spec fn extraction_has_reason(
    doc: OpenApiDoc,
    operation_id: Seq<char>,
    entries: Seq<RawParamOrRef>,
    error: SchemaError<Seq<char>>,
) -> bool {
    let prefix = "#/components/parameters/"@;
    match error {
        SchemaError::UnsupportedParameterRef { reference } => !prefix.is_prefix_of(reference)
            && exists|i: int| 0 <= i < entries.len() && refers(#[trigger] entries[i], reference),
        SchemaError::UnknownParameter { reference } => {
            &&& prefix.is_prefix_of(reference)
            &&& !doc.components.parameters@.contains_key(reference.skip(prefix.len() as int))
            &&& exists|i: int| 0 <= i < entries.len() && refers(#[trigger] entries[i], reference)
        },
        SchemaError::MultiplePathParams { operation_id: named } => named == operation_id
            && exists|i: int, j: int|
            0 <= i < j < entries.len() && stands_in_path(doc, #[trigger] entries[i])
                && stands_in_path(doc, #[trigger] entries[j]),
        _ => false,
    }
}

/// Whether an entry is that reference.
pub open spec fn refers(entry: RawParamOrRef, reference: Seq<char>) -> bool {
    entry matches RawParamOrRef::Ref { reference: own } && own@ == reference
}

/// Whether an entry stands for a path parameter.
pub open spec fn stands_in_path(doc: OpenApiDoc, entry: RawParamOrRef) -> bool {
    exists|param: RawParameter| #[trigger]
        extraction_laws::stands_for(doc, entry, param) && param.location@ == "path"@
}

proof fn lemma_path_param_stands(doc: OpenApiDoc, entries: Seq<RawParamOrRef>) -> (i: int)
    requires
        forall|i: int|
            0 <= i < entries.len() ==> schema::resolved(doc, #[trigger] entries[i]) is Ok,
        schema::path_param_name(schema::parameters(doc, entries)) is Some,
    ensures
        0 <= i < entries.len(),
        stands_in_path(doc, entries[i]),
    decreases entries.len(),
{
    let last = entries.len() - 1;
    let params = schema::parameters(doc, entries);
    assert(entries.len() > 0);
    if schema::in_path(params.last()) {
        let param = schema::resolved(doc, entries[last])->Ok_0;
        extraction_laws::lemma_resolved(doc, entries[last], param);
        assert(extraction_laws::stands_for(doc, entries[last], param));
        last
    } else {
        let before = entries.drop_last();
        assert(params.drop_last() =~= schema::parameters(doc, before));
        assert forall|i: int| 0 <= i < before.len() implies schema::resolved(
            doc,
            #[trigger] before[i],
        ) is Ok by {
            assert(before[i] == entries[i]);
        }
        let i = lemma_path_param_stands(doc, before);
        assert(before[i] == entries[i]);
        i
    }
}

proof fn lemma_all_resolve(doc: OpenApiDoc, operation_id: Seq<char>, entries: Seq<RawParamOrRef>)
    requires
        schema::first_failure(doc, operation_id, entries) is None,
    ensures
        forall|i: int|
            0 <= i < entries.len() ==> schema::resolved(doc, #[trigger] entries[i]) is Ok,
    decreases entries.len(),
{
    if entries.len() > 0 {
        let before = entries.drop_last();
        lemma_all_resolve(doc, operation_id, before);
        assert(forall|i: int| 0 <= i < before.len() ==> #[trigger] entries[i] == before[i]);
        assert(entries[entries.len() - 1] == entries.last());
    }
}

/// Extracting an operation only fails for a reason: an entry refers to something that is no
/// shared parameter, or two of them stand in the path. The error names which.
pub proof fn extracting_fails_for_a_reason(
    doc: OpenApiDoc,
    operation_id: Seq<char>,
    entries: Seq<RawParamOrRef>,
)
    requires
        schema::first_failure(doc, operation_id, entries) is Some,
    ensures
        extraction_has_reason(
            doc,
            operation_id,
            entries,
            schema::first_failure(doc, operation_id, entries)->0,
        ),
    decreases entries.len(),
{
    let before = entries.drop_last();
    let last = entries.len() - 1;
    let error = schema::first_failure(doc, operation_id, entries)->0;
    assert(entries[last] == entries.last());
    if schema::first_failure(doc, operation_id, before) is Some {
        extracting_fails_for_a_reason(doc, operation_id, before);
        match error {
            SchemaError::UnsupportedParameterRef { reference }
            | SchemaError::UnknownParameter { reference } => {
                let i = choose|i: int|
                    0 <= i < before.len() && refers(#[trigger] before[i], reference);
                assert(refers(entries[i], reference));
            },
            SchemaError::MultiplePathParams { .. } => {
                let (i, j) = choose|i: int, j: int|
                    0 <= i < j < before.len() && stands_in_path(doc, #[trigger] before[i])
                        && stands_in_path(doc, #[trigger] before[j]);
                assert(stands_in_path(doc, entries[i]) && stands_in_path(doc, entries[j]));
            },
            _ => {},
        }
    } else {
        lemma_all_resolve(doc, operation_id, before);
        match schema::resolved(doc, entries.last()) {
            Err(_) => {
                if let RawParamOrRef::Ref { reference } = entries.last() {
                    assert(refers(entries[last], reference@));
                }
            },
            Ok(param) => {
                let i = lemma_path_param_stands(doc, before);
                extraction_laws::lemma_resolved(doc, entries[last], param);
                assert(extraction_laws::stands_for(doc, entries[last], param));
                assert(stands_in_path(doc, entries[i]) && stands_in_path(doc, entries[last]));
            },
        }
    }
}

/// The values of an enumeration are missing because there is no such schema, or because it
/// lists none; a template is missing because there is no such schema; and an order template
/// because one of its two schemas is missing, or the order is no object.
pub proof fn missing_schemas_are_named(
    doc: OpenApiDoc,
    name: Seq<char>,
    offering_type: Option<Seq<char>>,
)
    ensures
        schema::enum_values_of(doc, name) matches Err(error) ==> error == (
        if doc.components.schemas@.contains_key(name) {
            SchemaError::NoEnumValues { schema: name }
        } else {
            SchemaError::EnumNotFound { schema: name }
        }),
        skeleton::request_skeleton(doc, name) matches Err(error) ==> error
            == (SchemaError::SchemaNotFound { schema: name }),
        skeleton::order_skeleton(doc, offering_type) matches Err(error) ==> match error {
            SchemaError::SchemaNotFound { schema } => schema == "OrderCreateRequest"@
                && !doc.components.schemas@.contains_key(schema),
            SchemaError::NoAttributesSchema { schema, offering_type: asked, cause } => {
                &&& asked == offering_type
                &&& !doc.components.schemas@.contains_key(schema)
                &&& *cause == (SchemaError::SchemaNotFound { schema })
                &&& doc.components.schemas@.contains_key("OrderCreateRequest"@)
            },
            SchemaError::OrderNotAnObject => !(skeleton::request_skeleton(
                doc,
                "OrderCreateRequest"@,
            )->Ok_0 is Object),
            _ => false,
        },
{
}

/// Whether a missing operation is rightly reported: the manifest gives a verb of the
/// resource that operation, and it is not there.
pub open spec fn is_missing(
    group: Seq<char>,
    resource: Resource,
    operations: Map<Seq<char>, ExtractedOperation>,
    missing: NotExtracted<Seq<char>>,
) -> bool {
    &&& missing.group == group
    &&& missing.resource == resource.name@
    &&& resource.commands@.contains_key(missing.verb)
    &&& missing.operation_id == resource.commands@[missing.verb]@
    &&& !operations.contains_key(missing.operation_id)
}

proof fn lemma_description_missing(
    group: Seq<char>,
    resource: Resource,
    inputs: Inputs,
    n: nat,
)
    ensures
        schema_codegen::verb_commands(group, resource, inputs, n) matches Err(missing)
            ==> is_missing(group, resource, inputs.operations, missing),
    decreases n,
{
    if n > 0 {
        lemma_description_missing(group, resource, inputs, (n - 1) as nat);
    }
}

proof fn lemma_page_missing(group: Seq<char>, resource: Resource, inputs: DocInputs, n: nat)
    ensures
        reference_docs::verb_pages(group, resource, inputs, n) matches Err(missing) ==> is_missing(
            group,
            resource,
            inputs.operations,
            missing,
        ),
    decreases n,
{
    if n > 0 {
        lemma_page_missing(group, resource, inputs, (n - 1) as nat);
    }
}

/// Where the commands of a resource cannot be described or have no pages, the operation
/// that is missing is named, with the command that needs it.
pub proof fn a_missing_operation_is_rightly_reported(
    group: Seq<char>,
    resource: Resource,
    inputs: Inputs,
    tables: DocInputs,
)
    ensures
        schema_codegen::resource_commands(group, resource, inputs) matches Err(missing)
            ==> is_missing(group, resource, inputs.operations, missing),
        reference_docs::resource_pages(group, resource, tables) matches Err(missing) ==> is_missing(
            group,
            resource,
            tables.operations,
            missing,
        ),
{
    reveal(reference_docs::resource_pages);
    lemma_description_missing(group, resource, inputs, 5);
    lemma_page_missing(group, resource, tables, 5);
}

/// Where a resource cannot be generated and laid out, the error names the resource, and says
/// why its source could not be made or what is wrong with it.
pub proof fn a_failed_resource_is_named(group: Seq<char>, resource: Resource, inputs: Inputs)
    ensures
        ({
            let source = codegen::module_text(
                resource,
                inputs.operations,
                inputs.field_values,
                inputs.request_skeletons,
                inputs.order_skeletons,
            );
            codegen::resource_file(group, resource, inputs) matches Err(error) ==> match error {
                CodegenError::InResource { group: of, resource: name, cause } => of == group
                    && name == resource.name@ && source == Err::<
                    Seq<char>,
                    CodegenError<Seq<char>>,
                >(*cause),
                CodegenError::InvalidResourceSource { group: of, resource: name, tokens, reason } => {
                    &&& of == group && name == resource.name@
                    &&& source is Ok
                    &&& codegen::formatted(source->Ok_0) == Err::<Seq<char>, Seq<char>>(reason)
                    &&& tokens == if rust_text::tokens_in(source->Ok_0) is Some {
                        rust_text::tokens_in(source->Ok_0)->0
                    } else {
                        source->Ok_0
                    }
                },
                CodegenError::NotAnIdentifier { name } => name == rust_text::module_name(
                    resource.name@,
                ) && !rust_text::is_ident(name),
                _ => false,
            }
        }),
{
    reveal(codegen::resource_file);
}

/// A `cli.rs` that is no Rust is shown, with what is wrong with it.
pub proof fn a_failed_dispatch_is_shown(manifest: Manifest)
    ensures
        ({
            let source = codegen::cli_text(manifest);
            &&& source matches Err(error) ==> codegen::cli_file(manifest) == Err::<
                Seq<char>,
                CodegenError<Seq<char>>,
            >(error)
            &&& source is Ok ==> match codegen::cli_file(manifest) {
                Ok(printed) => codegen::formatted(source->Ok_0) == Ok::<Seq<char>, Seq<char>>(
                    printed,
                ),
                Err(error) => (error matches CodegenError::InvalidCliSource { tokens, reason }
                    && codegen::formatted(source->Ok_0) == Err::<Seq<char>, Seq<char>>(reason)
                    && tokens == if rust_text::tokens_in(source->Ok_0) is Some {
                    rust_text::tokens_in(source->Ok_0)->0
                } else {
                    source->Ok_0
                }),
            }
        }),
{
}

} // verus!
