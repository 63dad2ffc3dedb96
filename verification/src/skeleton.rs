//! Fillable request-body templates, built from a request schema.
use crate::error::SchemaError;
use crate::json;
use crate::json::{
    array, boolean, into_members, no_members, null, number, object, put, string, write_pretty, Json,
};
use crate::schema::{OpenApiDoc, RawSchema};
use crate::table;
use crate::table::{NameSet, Table};
use crate::text;
use crate::text::{has_name, last_segment, remove_char, same};
use vstd::prelude::*;
use vstd::string::*;

verus! {

/// Recursion cap for templates and validation schemas: guards against a schema that
/// refers to itself in a way that the set of seen names does not cover.
pub const SKELETON_MAX_DEPTH: usize = 12;

/// The first member of a list of schemas.
pub open spec fn first_of(members: Option<Vec<RawSchema>>) -> Option<RawSchema> {
    match members {
        Some(list) => if list@.len() > 0 {
            Some(list@[0])
        } else {
            None
        },
        None => None,
    }
}

/// The member that stands for a combined schema in a template: the first one of
/// `allOf`, else of `oneOf`, else of `anyOf`.
pub open spec fn leading_member(schema: RawSchema) -> Option<RawSchema> {
    if first_of(schema.all_of) is Some {
        first_of(schema.all_of)
    } else if first_of(schema.one_of) is Some {
        first_of(schema.one_of)
    } else {
        first_of(schema.any_of)
    }
}

/// The names that a schema requires.
pub open spec fn required_names(schema: RawSchema) -> Seq<Seq<char>> {
    match schema.required {
        Some(names) => text::texts(names@),
        None => Seq::empty(),
    }
}

/// Whether a property can be written: it exists and is not read-only.
pub open spec fn writable(properties: Map<Seq<char>, RawSchema>, name: Seq<char>) -> bool {
    properties.contains_key(name) && !properties[name].read_only
}

/// The template of a schema node.
///
/// A node is resolved through its reference, unless the reference is already being
/// resolved; a combined schema is its leading member; an enumeration is its first
/// value; else the type decides. An object has its writable properties: a required one
/// with its own template, any other one with `null`.
pub open spec fn skeleton(
    doc: OpenApiDoc,
    schema: RawSchema,
    seen: Set<Seq<char>>,
    depth: nat,
) -> Json
    decreases SKELETON_MAX_DEPTH + 1 - depth, 2int,
{
    if depth > SKELETON_MAX_DEPTH {
        Json::Null
    } else if schema.reference is Some {
        let name = text::after_last(schema.reference->0@, '/');
        if seen.contains(name) || !doc.components.schemas@.contains_key(name) {
            Json::Null
        } else {
            skeleton(doc, doc.components.schemas@[name], seen.insert(name), depth + 1)
        }
    } else if leading_member(schema) is Some {
        skeleton(doc, leading_member(schema)->0, seen, depth + 1)
    } else if schema.enum_values is Some && schema.enum_values->0@.len() > 0 {
        Json::Str(schema.enum_values->0@[0]@)
    } else {
        let kind = text::opt_text(schema.schema_type);
        if kind == Some("string"@) {
            Json::Str(Seq::empty())
        } else if kind == Some("integer"@) || kind == Some("number"@) {
            Json::Number(text::decimal(0))
        } else if kind == Some("boolean"@) {
            Json::Bool(false)
        } else if kind == Some("array"@) {
            match schema.items {
                Some(items) => Json::Array(seq![skeleton(doc, *items, seen, depth + 1)]),
                None => Json::Array(Seq::empty()),
            }
        } else if kind == Some("object"@) || kind is None {
            match schema.properties {
                Some(properties) => Json::Object(
                    Map::new(
                        |name: Seq<char>| writable(properties@, name),
                        |name: Seq<char>|
                            placeholder(doc, schema, properties@[name], name, seen, depth),
                    ),
                ),
                None => if kind is None {
                    Json::Null
                } else {
                    Json::Object(Map::empty())
                },
            }
        } else {
            Json::Null
        }
    }
}

/// The template of a property: its own where the object requires it, else `null`.
pub open spec fn placeholder(
    doc: OpenApiDoc,
    owner: RawSchema,
    property: RawSchema,
    name: Seq<char>,
    seen: Set<Seq<char>>,
    depth: nat,
) -> Json
    decreases SKELETON_MAX_DEPTH + 1 - depth, 1int,
{
    if depth <= SKELETON_MAX_DEPTH && required_names(owner).contains(name) {
        skeleton(doc, property, seen, depth + 1)
    } else {
        Json::Null
    }
}

fn first_member(members: &Option<Vec<RawSchema>>) -> (first: Option<&RawSchema>)
    ensures
        match first {
            Some(schema) => first_of(*members) == Some(*schema),
            None => first_of(*members) is None,
        },
{
    match members {
        Some(list) => if list.len() > 0 {
            Some(&list[0])
        } else {
            None
        },
        None => None,
    }
}

fn leading(schema: &RawSchema) -> (member: Option<&RawSchema>)
    ensures
        match member {
            Some(first) => leading_member(*schema) == Some(*first),
            None => leading_member(*schema) is None,
        },
{
    match first_member(&schema.all_of) {
        Some(first) => Some(first),
        None => match first_member(&schema.one_of) {
            Some(first) => Some(first),
            None => first_member(&schema.any_of),
        },
    }
}

/// Whether a schema has the type `kind`.
pub(crate) fn has_type(schema: &RawSchema, kind: &str) -> (result: bool)
    ensures
        result == (text::opt_text(schema.schema_type) == Some(kind@)),
{
    match &schema.schema_type {
        Some(name) => same(name.as_str(), kind),
        None => false,
    }
}

/// Whether a schema requires `name`.
fn requires_name(schema: &RawSchema, name: &str) -> (result: bool)
    ensures
        result == required_names(*schema).contains(name@),
{
    match &schema.required {
        Some(names) => has_name(names.as_slice(), name),
        None => false,
    }
}

/// The placeholder of one schema node: an empty typed value (`""`, `0`, `false`), a
/// single sample array element, an object with its writable properties.
pub fn skeleton_value(
    doc: &OpenApiDoc,
    schema: &RawSchema,
    seen: &mut NameSet,
    depth: usize,
) -> (value: serde_json::Value)
    ensures
        json::json_of(value) == skeleton(*doc, *schema, old(seen)@, depth as nat),
        final(seen)@ == old(seen)@,
    decreases SKELETON_MAX_DEPTH + 1 - depth, 1int,
{
    if depth > SKELETON_MAX_DEPTH {
        return null();
    }
    if let Some(reference) = &schema.reference {
        let name = last_segment(reference.as_str(), '/');
        if seen.contains(name.as_str()) {
            return null();
        }
        return match doc.components.schemas.get(name.as_str()) {
            Some(resolved) => {
                seen.insert(name.as_str());
                let value = skeleton_value(doc, resolved, seen, depth + 1);
                seen.remove(name.as_str());
                assert(seen@ =~= old(seen)@);
                value
            },
            None => null(),
        };
    }
    if let Some(first) = leading(schema) {
        return skeleton_value(doc, first, seen, depth + 1);
    }
    if let Some(values) = &schema.enum_values {
        if values.len() > 0 {
            return string(values[0].as_str());
        }
    }
    if has_type(schema, "string") {
        proof {
            reveal_strlit("");
            assert(""@ =~= Seq::<char>::empty());
        }
        string("")
    } else if has_type(schema, "integer") || has_type(schema, "number") {
        number(0)
    } else if has_type(schema, "boolean") {
        boolean(false)
    } else if has_type(schema, "array") {
        let mut elements: Vec<serde_json::Value> = Vec::new();
        if let Some(items) = &schema.items {
            elements.push(skeleton_value(doc, items, seen, depth + 1));
        }
        proof {
            if schema.items is Some {
                assert(json::jsons_of(elements@) =~= seq![
                    skeleton(*doc, *schema.items->0, old(seen)@, (depth + 1) as nat),
                ]);
            } else {
                assert(json::jsons_of(elements@) =~= Seq::<Json>::empty());
            }
        }
        array(elements)
    } else if has_type(schema, "object") || schema.schema_type.is_none() {
        match &schema.properties {
            Some(properties) => {
                let value = skeleton_object(doc, schema, properties, seen, depth);
                assert(json::json_of(value)->Object_0 =~= skeleton(
                    *doc,
                    *schema,
                    old(seen)@,
                    depth as nat,
                )->Object_0);
                value
            },
            None => if schema.schema_type.is_none() {
                null()
            } else {
                object(no_members())
            },
        }
    } else {
        null()
    }
}

/// The template of an object: every writable property of it.
fn skeleton_object(
    doc: &OpenApiDoc,
    schema: &RawSchema,
    properties: &Table<RawSchema>,
    seen: &mut NameSet,
    depth: usize,
) -> (value: serde_json::Value)
    requires
        depth <= SKELETON_MAX_DEPTH,
    ensures
        json::json_of(value) is Object,
        json::json_of(value)->Object_0 =~= Map::new(
            |name: Seq<char>| writable(properties@, name),
            |name: Seq<char>|
                placeholder(
                    *doc,
                    *schema,
                    properties@[name],
                    name,
                    old(seen)@,
                    depth as nat,
                ),
        ),
        final(seen)@ == old(seen)@,
    decreases SKELETON_MAX_DEPTH + 1 - depth, 0int,
{
    let ghost rows = properties.rows();
    let mut members = no_members();
    let count: usize = properties.len();
    for i in 0..count
        invariant
            depth <= SKELETON_MAX_DEPTH,
            rows == properties.rows(),
            properties.well_formed(),
            count == rows.len(),
            seen@ == old(seen)@,
            forall|name: Seq<char>| #[trigger]
                json::members_of(members).contains_key(name) <==> table::has_row(
                    rows.take(i as int),
                    name,
                ) && writable(properties@, name),
            forall|name: Seq<char>|
                json::members_of(members).contains_key(name) ==> #[trigger] json::members_of(
                    members,
                )[name] == placeholder(
                    *doc,
                    *schema,
                    properties@[name],
                    name,
                    old(seen)@,
                    depth as nat,
                ),
    {
        let name = properties.name_at(i);
        let property = properties.value_at(i);
        proof {
            table::lemma_row_found(rows, i as int);
            assert(rows.take(i + 1) =~= rows.take(i as int).push(rows[i as int]));
            assert forall|other: Seq<char>| #[trigger]
                table::has_row(rows.take(i + 1), other) == (table::has_row(
                    rows.take(i as int),
                    other,
                ) || other == name@) by {
                table::lemma_has_row_push(rows.take(i as int), rows[i as int], other);
            }
        }
        if !property.read_only {
            let value = if requires_name(schema, name) {
                skeleton_value(doc, property, seen, depth + 1)
            } else {
                null()
            };
            put(&mut members, name, value);
        }
    }
    assert(rows.take(count as int) =~= rows);
    object(members)
}

/// The template of a named schema.
pub open spec fn request_skeleton(doc: OpenApiDoc, name: Seq<char>) -> Result<
    Json,
    SchemaError<Seq<char>>,
> {
    if doc.components.schemas@.contains_key(name) {
        Ok(skeleton(doc, doc.components.schemas@[name], Set::empty().insert(name), 0))
    } else {
        Err(SchemaError::SchemaNotFound { schema: name })
    }
}

/// The template of a named schema as a JSON value, for templates that are put together
/// from several.
pub fn skeleton_for(doc: &OpenApiDoc, schema_name: &str) -> (result: Result<
    serde_json::Value,
    SchemaError,
>)
    ensures
        match result {
            Ok(value) => request_skeleton(*doc, schema_name@) == Ok::<_, SchemaError<Seq<char>>>(
                json::json_of(value),
            ),
            Err(error) => request_skeleton(*doc, schema_name@) == Err::<Json, _>(error.model()),
        },
{
    match doc.components.schemas.get(schema_name) {
        Some(schema) => {
            let mut seen = NameSet::new();
            seen.insert(schema_name);
            Ok(skeleton_value(doc, schema, &mut seen, 0))
        },
        None => Err(SchemaError::SchemaNotFound { schema: schema_name.to_string() }),
    }
}

/// Builds a fillable request-body template: every writable field of `schema_name` with
/// a placeholder, as pretty-printed JSON. The text reads back as the template.
pub fn build_request_skeleton(doc: &OpenApiDoc, schema_name: &str) -> (result: Result<
    String,
    SchemaError,
>)
    ensures
        result is Ok <==> doc.components.schemas@.contains_key(schema_name@),
        match result {
            Ok(text) => {
                let template = request_skeleton(*doc, schema_name@)->Ok_0;
                text@ == json::pretty_text(template) && json::parsed_json(text@) == Some(template)
            },
            Err(error) => error.model() == (SchemaError::SchemaNotFound { schema: schema_name@ }),
        },
{
    match skeleton_for(doc, schema_name) {
        Ok(value) => {
            proof {
                lemma_request_skeleton_reads_back(*doc, schema_name@);
            }
            Ok(write_pretty(&value))
        },
        Err(error) => Err(error),
    }
}

/// The name of the schema that describes what an order of an offering type carries;
/// without a type, the one that fits any offering.
pub open spec fn attributes_schema(offering_type: Option<Seq<char>>) -> Seq<char> {
    match offering_type {
        Some(name) => text::without_char(name, '.') + "CreateOrderAttributes"@,
        None => "GenericOrderAttributes"@,
    }
}

/// An order envelope with its attributes and with the terms of service accepted.
pub open spec fn filled_order(
    envelope: Map<Seq<char>, Json>,
    attributes: Json,
) -> Map<Seq<char>, Json> {
    envelope.insert("attributes"@, attributes).insert(
        "accepting_terms_of_service"@,
        Json::Bool(true),
    )
}

/// The template of a marketplace order.
pub open spec fn order_skeleton(doc: OpenApiDoc, offering_type: Option<Seq<char>>) -> Result<
    Json,
    SchemaError<Seq<char>>,
> {
    let schema = attributes_schema(offering_type);
    match request_skeleton(doc, "OrderCreateRequest"@) {
        Err(error) => Err(error),
        Ok(envelope) => match request_skeleton(doc, schema) {
            Err(error) => Err(
                SchemaError::NoAttributesSchema { schema, offering_type, cause: Box::new(error) },
            ),
            Ok(attributes) => match envelope {
                Json::Object(members) => Ok(Json::Object(filled_order(members, attributes))),
                _ => Err(SchemaError::OrderNotAnObject),
            },
        },
    }
}

/// Builds the template of a `provision` command: the `OrderCreateRequest` envelope with
/// the attributes schema of the offering type in its `attributes` slot. The terms of
/// service are accepted: an order from the command line is an explicit action, and
/// leaving them open can leave the order pending. The text reads back as the template.
pub fn build_order_skeleton(doc: &OpenApiDoc, offering_type: Option<&str>) -> (result: Result<
    String,
    SchemaError,
>)
    ensures
        match result {
            Ok(text) => {
                let template = order_skeleton(*doc, opt_str(offering_type))->Ok_0;
                order_skeleton(*doc, opt_str(offering_type)) is Ok && text@ == json::pretty_text(
                    template,
                ) && json::parsed_json(text@) == Some(template)
            },
            Err(error) => order_skeleton(*doc, opt_str(offering_type)) == Err::<Json, _>(
                error.model(),
            ),
        },
{
    let envelope = match skeleton_for(doc, "OrderCreateRequest") {
        Ok(value) => value,
        Err(error) => return Err(error),
    };
    let schema = match offering_type {
        Some(name) => remove_char(name, '.').concat("CreateOrderAttributes"),
        None => "GenericOrderAttributes".to_string(),
    };
    let attributes = match skeleton_for(doc, schema.as_str()) {
        Ok(value) => value,
        Err(error) => {
            let offering_type = match offering_type {
                Some(name) => Some(name.to_string()),
                None => None,
            };
            return Err(
                SchemaError::NoAttributesSchema { schema, offering_type, cause: Box::new(error) },
            );
        },
    };
    match into_members(envelope) {
        Some(mut members) => {
            put(&mut members, "attributes", attributes);
            put(&mut members, "accepting_terms_of_service", boolean(true));
            let value = object(members);
            proof {
                lemma_order_skeleton_reads_back(*doc, opt_str(offering_type));
            }
            Ok(write_pretty(&value))
        },
        None => Err(SchemaError::OrderNotAnObject),
    }
}

/// The text of an optional `str`.
pub open spec fn opt_str(value: Option<&str>) -> Option<Seq<char>> {
    match value {
        Some(s) => Some(s@),
        None => None,
    }
}

/// A template reads back: its only number is zero, and it nests no deeper than the
/// recursion cap lets it.
proof fn lemma_skeleton_reads_back(
    doc: OpenApiDoc,
    schema: RawSchema,
    seen: Set<Seq<char>>,
    depth: nat,
)
    requires
        depth <= SKELETON_MAX_DEPTH + 1,
    ensures
        json::reads_back(
            skeleton(doc, schema, seen, depth),
            (SKELETON_MAX_DEPTH + 1 - depth) as nat,
        ),
    decreases SKELETON_MAX_DEPTH + 1 - depth,
{
    let result = skeleton(doc, schema, seen, depth);
    let levels = (SKELETON_MAX_DEPTH + 1 - depth) as nat;
    if depth > SKELETON_MAX_DEPTH {
    } else {
        let below = (levels - 1) as nat;
        if schema.reference is Some {
            let name = text::after_last(schema.reference->0@, '/');
            if !seen.contains(name) && doc.components.schemas@.contains_key(name) {
                let resolved = doc.components.schemas@[name];
                lemma_skeleton_reads_back(doc, resolved, seen.insert(name), depth + 1);
                json::lemma_reads_back_grows(result, below, levels);
            }
        } else if leading_member(schema) is Some {
            lemma_skeleton_reads_back(doc, leading_member(schema)->0, seen, depth + 1);
            json::lemma_reads_back_grows(result, below, levels);
        } else {
            assert(json::reads_back(Json::Number(text::decimal(0)), levels));
            if schema.items is Some {
                lemma_skeleton_reads_back(doc, *schema.items->0, seen, depth + 1);
            }
            if result is Object {
                let members = result->Object_0;
                assert forall|name: Seq<char>| members.contains_key(name) implies json::reads_back(
                    #[trigger] members[name],
                    below,
                ) by {
                    let property = schema.properties->0@[name];
                    lemma_skeleton_reads_back(doc, property, seen, depth + 1);
                    reveal_with_fuel(placeholder, 2);
                    assert(members[name] == placeholder(doc, schema, property, name, seen, depth));
                }
            }
        }
    }
}

proof fn lemma_request_skeleton_reads_back(doc: OpenApiDoc, name: Seq<char>)
    requires
        doc.components.schemas@.contains_key(name),
    ensures
        json::reads_back(request_skeleton(doc, name)->Ok_0, 13),
        json::reads_back(request_skeleton(doc, name)->Ok_0, 127),
{
    let schema = doc.components.schemas@[name];
    lemma_skeleton_reads_back(doc, schema, Set::empty().insert(name), 0);
    json::lemma_reads_back_grows(request_skeleton(doc, name)->Ok_0, 13, 127);
}

proof fn lemma_order_skeleton_reads_back(doc: OpenApiDoc, offering_type: Option<Seq<char>>)
    requires
        order_skeleton(doc, offering_type) is Ok,
    ensures
        json::reads_back(order_skeleton(doc, offering_type)->Ok_0, 127),
{
    let order = order_skeleton(doc, offering_type)->Ok_0;
    let envelope = request_skeleton(doc, "OrderCreateRequest"@)->Ok_0->Object_0;
    lemma_request_skeleton_reads_back(doc, "OrderCreateRequest"@);
    lemma_request_skeleton_reads_back(doc, attributes_schema(offering_type));
    assert forall|name: Seq<char>| order->Object_0.contains_key(name) implies json::reads_back(
        #[trigger] order->Object_0[name],
        126,
    ) by {
        if name == "accepting_terms_of_service"@ {
        } else if name == "attributes"@ {
            json::lemma_reads_back_grows(order->Object_0[name], 13, 126);
        } else {
            assert(json::reads_back(envelope[name], 12));
            json::lemma_reads_back_grows(order->Object_0[name], 12, 126);
        }
    }
}

/// A schema that is an object by its own properties: no reference, no combined schema,
/// no enumeration.
pub open spec fn is_plain_object(schema: RawSchema) -> bool {
    &&& schema.reference is None
    &&& schema.all_of is None
    &&& schema.one_of is None
    &&& schema.any_of is None
    &&& schema.enum_values is None
    &&& schema.schema_type is None || schema.schema_type->0@ == "object"@
    &&& schema.properties is Some
}

/// The type `object` is none of the types that are handled before it.
pub proof fn object_is_no_scalar()
    ensures
        "object"@ != "string"@,
        "object"@ != "integer"@,
        "object"@ != "number"@,
        "object"@ != "boolean"@,
        "object"@ != "array"@,
{
    reveal_strlit("object");
    reveal_strlit("string");
    reveal_strlit("integer");
    reveal_strlit("number");
    reveal_strlit("boolean");
    reveal_strlit("array");
    assert("object"@[0] != "string"@[0]);
    assert("object"@[0] != "integer"@[0]);
    assert("object"@[0] != "number"@[0]);
    assert("object"@[0] != "boolean"@[0]);
    assert("object"@[0] != "array"@[0]);
}

/// The template of an object has exactly its writable properties. A required one has
/// its own template, an optional one is `null`, and a read-only one is not there.
pub proof fn object_template_has_the_writable_properties(
    doc: OpenApiDoc,
    schema: RawSchema,
    seen: Set<Seq<char>>,
    depth: nat,
    name: Seq<char>,
)
    requires
        depth <= SKELETON_MAX_DEPTH,
        is_plain_object(schema),
    ensures
        skeleton(doc, schema, seen, depth) is Object,
        ({
            let members = skeleton(doc, schema, seen, depth)->Object_0;
            let properties = schema.properties->0@;
            let required = required_names(schema).contains(name);
            &&& members.contains_key(name) <==> properties.contains_key(name)
                && !properties[name].read_only
            &&& members.contains_key(name) && required ==> members[name] == skeleton(
                doc,
                properties[name],
                seen,
                depth + 1,
            )
            &&& members.contains_key(name) && !required ==> members[name] == Json::Null
        }),
{
    object_is_no_scalar();
    reveal_with_fuel(placeholder, 2);
    let property = schema.properties->0@[name];
    let members = skeleton(doc, schema, seen, depth)->Object_0;
    assert(members.contains_key(name) ==> members[name] == placeholder(
        doc,
        schema,
        property,
        name,
        seen,
        depth,
    ));
}

/// A reference that is already being resolved ends the template at `null`: a schema
/// that refers to itself does not recurse.
pub proof fn template_stops_at_a_cycle(
    doc: OpenApiDoc,
    schema: RawSchema,
    seen: Set<Seq<char>>,
    depth: nat,
)
    requires
        schema.reference is Some,
        seen.contains(text::after_last(schema.reference->0@, '/')),
    ensures
        skeleton(doc, schema, seen, depth) == Json::Null,
{
}

/// A template always ends: below the recursion cap there is only `null`, whatever the
/// schema refers to.
pub proof fn template_stops_at_the_cap(
    doc: OpenApiDoc,
    schema: RawSchema,
    seen: Set<Seq<char>>,
    depth: nat,
)
    requires
        depth > SKELETON_MAX_DEPTH,
    ensures
        skeleton(doc, schema, seen, depth) == Json::Null,
{
}

/// An order template has the template of its attributes schema under `attributes`, has
/// accepted the terms of service, and keeps every other member of the order envelope.
pub proof fn order_template_is_the_filled_envelope(
    doc: OpenApiDoc,
    offering_type: Option<Seq<char>>,
    name: Seq<char>,
)
    requires
        order_skeleton(doc, offering_type) is Ok,
    ensures
        order_skeleton(doc, offering_type)->Ok_0 is Object,
        ({
            let order = order_skeleton(doc, offering_type)->Ok_0->Object_0;
            let envelope = request_skeleton(doc, "OrderCreateRequest"@)->Ok_0->Object_0;
            &&& order.contains_key("attributes"@)
            &&& order["attributes"@] == request_skeleton(
                doc,
                attributes_schema(offering_type),
            )->Ok_0
            &&& order.contains_key("accepting_terms_of_service"@)
            &&& order["accepting_terms_of_service"@] == Json::Bool(true)
            &&& name != "attributes"@ && name != "accepting_terms_of_service"@ ==> {
                &&& order.contains_key(name) <==> envelope.contains_key(name)
                &&& envelope.contains_key(name) ==> order[name] == envelope[name]
            }
        }),
{
    reveal_strlit("attributes");
    reveal_strlit("accepting_terms_of_service");
    assert("attributes"@.len() != "accepting_terms_of_service"@.len());
}

} // verus!
