//! What a generated command does, from the manifest and the API schema to the call that it
//! makes.
use crate::codegen;
use crate::command_laws;
use crate::command_laws::Command;
use crate::description_laws;
use crate::extraction_laws;
use crate::json::Json;
use crate::manifest::{Manifest, Resource};
use crate::pipeline;
use crate::pipeline::Prepared;
use crate::pipeline_laws;
use crate::preparation_laws;
use crate::schema::{OpenApiDoc, Operation, RawParameter};
use crate::schema_codegen;
use crate::table;
use vstd::prelude::*;

verus! {

/// A place in an API schema: the number of a path, and that of a method at it.
pub struct Place {
    pub path: int,
    pub method: int,
}

/// Whether a place of an API schema has an operation with that id.
pub open spec fn has_operation(doc: OpenApiDoc, place: Place, id: Seq<char>) -> bool {
    &&& 0 <= place.path < doc.paths.rows().len()
    &&& 0 <= place.method < doc.paths.rows()[place.path].1.rows().len()
    &&& doc.paths.rows()[place.path].1.rows()[place.method].1.operation_id@ == id
}

/// Whether an operation says what stands at a place of an API schema.
pub open spec fn is_as_it_stands(doc: OpenApiDoc, place: Place, op: Operation) -> bool {
    let (path, methods) = doc.paths.rows()[place.path];
    let (http_verb, raw) = methods.rows()[place.method];
    exists|params: Seq<RawParameter>|
        #![trigger extraction_laws::parameters_of(doc, raw, params)]
        extraction_laws::parameters_of(doc, raw, params) && extraction_laws::says_what_it_says(
            path,
            http_verb,
            raw,
            params,
            op,
        )
}

proof fn lemma_given(resource: Resource, n: nat, k: int)
    requires
        0 <= k < command_laws::given_verbs(resource, n).len(),
    ensures
        resource.commands@.contains_key(command_laws::given_verbs(resource, n)[k]),
    decreases n,
{
    if n > 0 && k < command_laws::given_verbs(resource, (n - 1) as nat).len() {
        lemma_given(resource, (n - 1) as nat, k);
    }
}

proof fn lemma_operation(
    manifest: Manifest,
    doc: OpenApiDoc,
    prepared: Prepared,
    g: int,
    r: int,
    k: int,
) -> (place: Place)
    requires
        pipeline::is_prepared(manifest, doc, prepared),
        0 <= g < manifest.group@.len(),
        0 <= r < manifest.group@[g].resource@.len(),
        0 <= k < command_laws::given_verbs(manifest.group@[g].resource@[r], 5).len(),
    ensures
        ({
            let resource = manifest.group@[g].resource@[r];
            let verb = command_laws::given_verbs(resource, 5)[k];
            let inputs = pipeline_laws::prepared_inputs(prepared);
            &&& has_operation(doc, place, resource.commands@[verb]@)
            &&& is_as_it_stands(
                doc,
                place,
                command_laws::operation_for(resource, verb, inputs),
            )
        }),
{
    let resource = manifest.group@[g].resource@[r];
    let verb = command_laws::given_verbs(resource, 5)[k];
    let id = resource.commands@[verb]@;
    let rows = resource.commands.rows();
    lemma_given(resource, 5, k);
    let row = table::row_of(rows, verb);
    assert(rows[row].0 == verb);
    assert(rows[row].1@ == id);
    assert(preparation_laws::names_operation(resource, id));
    assert(preparation_laws::names_operation(manifest.group@[g].resource@[r], id));
    preparation_laws::the_named_operations_are_prepared(manifest, doc, prepared, id);
    let (path, method) = extraction_laws::an_operation_is_read_where_it_stands(doc, id);
    let place = Place { path, method };
    let (shown, methods) = doc.paths.rows()[path];
    let (http_verb, raw) = methods.rows()[method];
    let params = extraction_laws::extraction_says_what_the_schema_says(doc, shown, http_verb, raw);
    assert(extraction_laws::parameters_of(doc, raw, params));
    place
}

/// Every command of a generated module makes its call to the operation that the manifest
/// names for it: to the path and with the HTTP verb under which the API schema has that
/// operation, and with its filters, its path parameter and its request body.
pub proof fn a_command_calls_what_the_schema_has(
    manifest: Manifest,
    doc: OpenApiDoc,
    prepared: Prepared,
    g: int,
    r: int,
    k: int,
) -> (called: (Place, Command))
    requires
        pipeline::is_prepared(manifest, doc, prepared),
        0 <= g < manifest.group@.len(),
        0 <= r < manifest.group@[g].resource@.len(),
        0 <= k < command_laws::given_verbs(manifest.group@[g].resource@[r], 5).len(),
        command_laws::can_be_generated(
            manifest.group@[g].resource@[r],
            pipeline_laws::prepared_inputs(prepared),
        ),
    ensures
        ({
            let resource = manifest.group@[g].resource@[r];
            let verb = command_laws::given_verbs(resource, 5)[k];
            let inputs = pipeline_laws::prepared_inputs(prepared);
            let (place, command) = called;
            &&& has_operation(doc, place, resource.commands@[verb]@)
            &&& is_as_it_stands(
                doc,
                place,
                command_laws::operation_for(resource, verb, inputs),
            )
            &&& command_laws::operation_for(resource, verb, inputs).path
                == doc.paths.rows()[place.path].0
            &&& command_laws::operation_for(resource, verb, inputs).http_verb
                == doc.paths.rows()[place.path].1.rows()[place.method].0
            &&& command_laws::does(resource, verb, inputs, command)
            &&& crate::text::occurs(
                codegen::module_text(
                    resource,
                    inputs.operations,
                    inputs.field_values,
                    inputs.request_skeletons,
                    inputs.order_skeletons,
                )->Ok_0,
                command_laws::arm_text(resource, command),
            )
        }),
{
    let resource = manifest.group@[g].resource@[r];
    let inputs = pipeline_laws::prepared_inputs(prepared);
    let place = lemma_operation(manifest, doc, prepared, g, r, k);
    command_laws::a_resource_is_generated_where_it_can_be(resource, inputs);
    let commands = command_laws::a_module_holds_its_commands(resource, inputs);
    command_laws::lemma_arm_is_there(resource, inputs, commands, k);
    (place, commands[k])
}

/// The command schema describes every command with the path and the HTTP verb under which
/// the API schema has the operation that the manifest names for it.
pub proof fn a_description_names_what_the_schema_has(
    manifest: Manifest,
    doc: OpenApiDoc,
    prepared: Prepared,
    g: int,
    r: int,
    k: int,
) -> (place: Place)
    requires
        pipeline::is_prepared(manifest, doc, prepared),
        0 <= g < manifest.group@.len(),
        0 <= r < manifest.group@[g].resource@.len(),
        0 <= k < command_laws::given_verbs(manifest.group@[g].resource@[r], 5).len(),
    ensures
        ({
            let resource = manifest.group@[g].resource@[r];
            let group = manifest.group@[g].name@;
            let verb = command_laws::given_verbs(resource, 5)[k];
            let inputs = pipeline_laws::prepared_inputs(prepared);
            let described = schema_codegen::resource_commands(group, resource, inputs);
            &&& described is Ok
            &&& has_operation(doc, place, resource.commands@[verb]@)
            &&& description_laws::describes(group, resource, verb, inputs, described->Ok_0[k])
            &&& described->Ok_0[k] is Object
            &&& described->Ok_0[k]->Object_0["api_endpoint"@] == Json::Str(
                doc.paths.rows()[place.path].0,
            )
            &&& described->Ok_0[k]->Object_0["http_method"@] == Json::Str(
                crate::text::uppercase(doc.paths.rows()[place.path].1.rows()[place.method].0),
            )
        }),
{
    let resource = manifest.group@[g].resource@[r];
    let group = manifest.group@[g].name@;
    let inputs = pipeline_laws::prepared_inputs(prepared);
    let place = lemma_operation(manifest, doc, prepared, g, r, k);
    pipeline_laws::lemma_verb_commands_succeed(manifest, doc, prepared, g, r, 5);
    description_laws::every_command_is_described(group, resource, inputs);
    reveal_strlit("api_endpoint");
    reveal_strlit("http_method");
    reveal_strlit("parameters");
    reveal_strlit("output");
    reveal_strlit("request_skeleton");
    assert("api_endpoint"@[0] == 'a');
    assert("http_method"@[0] == 'h');
    assert("parameters"@[0] == 'p');
    assert("output"@[0] == 'o');
    assert("request_skeleton"@[0] == 'r');
    place
}

} // verus!
