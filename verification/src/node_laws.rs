//! What templates and validation schemas say, node by node of the schema that they follow.
use crate::json::Json;
use crate::json_schema;
use crate::schema::{OpenApiDoc, RawSchema};
use crate::skeleton;
use crate::text;
use vstd::prelude::*;

verus! {

/// Whether a name is the last segment of a reference.
pub open spec fn is_last_segment(reference: Seq<char>, name: Seq<char>) -> bool {
    let rest = reference.len() - name.len();
    &&& rest >= 0
    &&& reference.skip(rest) == name
    &&& !name.contains('/')
    &&& rest > 0 ==> reference[rest - 1] == '/'
}

proof fn lemma_last_segment(reference: Seq<char>)
    ensures
        is_last_segment(reference, text::after_last(reference, '/')),
    decreases reference.len(),
{
    let name = text::after_last(reference, '/');
    if reference.len() == 0 {
        assert(reference.skip(0) =~= name);
    } else if reference.last() == '/' {
        assert(reference.skip(reference.len() as int) =~= name);
    } else {
        let before = reference.drop_last();
        let shorter = text::after_last(before, '/');
        lemma_last_segment(before);
        let rest = reference.len() - name.len();
        assert(before.skip(rest) =~= shorter);
        assert(reference.skip(rest) =~= shorter.push(reference.last()));
        if name.contains('/') {
            let i = choose|i: int| 0 <= i < name.len() && name[i] == '/';
            assert(i < shorter.len());
            assert(shorter[i] == '/');
        }
        if rest > 0 {
            assert(before[rest - 1] == reference[rest - 1]);
        }
    }
}

proof fn lemma_segment_is_unique(reference: Seq<char>, one: Seq<char>, other: Seq<char>)
    requires
        is_last_segment(reference, one),
        is_last_segment(reference, other),
    ensures
        one == other,
{
    if one.len() < other.len() {
        let rest = reference.len() - one.len();
        let at = rest - 1 - (reference.len() - other.len());
        assert(other[at] == reference[rest - 1]);
        assert(other.contains('/'));
    } else if other.len() < one.len() {
        let rest = reference.len() - other.len();
        let at = rest - 1 - (reference.len() - one.len());
        assert(one[at] == reference[rest - 1]);
        assert(one.contains('/'));
    }
}

/// The first member of a list of schemas, if it has one.
pub open spec fn has_first(members: Option<Vec<RawSchema>>) -> bool {
    members is Some && members->0@.len() > 0
}

/// Whether a schema has that type.
pub open spec fn is_of_type(schema: RawSchema, name: Seq<char>) -> bool {
    schema.schema_type is Some && schema.schema_type->0@ == name
}

/// Whether a schema requires a property.
pub open spec fn requires_property(schema: RawSchema, name: Seq<char>) -> bool {
    schema.required is Some && exists|i: int|
        0 <= i < schema.required->0@.len() && (#[trigger] schema.required->0@[i])@ == name
}

/// Whether a schema has a property that a request can carry.
pub open spec fn carries(schema: RawSchema, name: Seq<char>) -> bool {
    &&& schema.properties is Some
    &&& schema.properties->0@.contains_key(name)
    &&& !schema.properties->0@[name].read_only
}

/// Whether a schema may have properties: it is an object, or says no type.
pub open spec fn may_have_properties(schema: RawSchema) -> bool {
    is_of_type(schema, "object"@) || schema.schema_type is None
}

/// Whether a template is the right one for a schema, given the templates of the schemas
/// inside it.
pub open spec fn is_template_of(
    doc: OpenApiDoc,
    schema: RawSchema,
    seen: Set<Seq<char>>,
    depth: nat,
    made: Json,
) -> bool {
    let known = doc.components.schemas@;
    if depth > 12 {
        made == Json::Null
    } else if schema.reference is Some {
        forall|name: Seq<char>| #[trigger]
            is_last_segment(schema.reference->0@, name) ==> made == if known.contains_key(name)
                && !seen.contains(name) {
                skeleton::skeleton(doc, known[name], seen.insert(name), depth + 1)
            } else {
                Json::Null
            }
    } else if has_first(schema.all_of) {
        made == skeleton::skeleton(doc, schema.all_of->0@[0], seen, depth + 1)
    } else if has_first(schema.one_of) {
        made == skeleton::skeleton(doc, schema.one_of->0@[0], seen, depth + 1)
    } else if has_first(schema.any_of) {
        made == skeleton::skeleton(doc, schema.any_of->0@[0], seen, depth + 1)
    } else if schema.enum_values is Some && schema.enum_values->0@.len() > 0 {
        made == Json::Str(schema.enum_values->0@[0]@)
    } else if is_of_type(schema, "string"@) {
        made == Json::Str(Seq::empty())
    } else if is_of_type(schema, "integer"@) || is_of_type(schema, "number"@) {
        made == Json::Number(seq!['0'])
    } else if is_of_type(schema, "boolean"@) {
        made == Json::Bool(false)
    } else if is_of_type(schema, "array"@) {
        &&& made is Array
        &&& schema.items is None ==> made->Array_0.len() == 0
        &&& schema.items is Some ==> made->Array_0.len() == 1 && made->Array_0[0]
            == skeleton::skeleton(doc, *schema.items->0, seen, depth + 1)
    } else if may_have_properties(schema) && (schema.properties is Some || schema.schema_type is Some) {
        &&& made is Object
        &&& forall|name: Seq<char>| #[trigger]
            made->Object_0.contains_key(name) <==> carries(schema, name)
        &&& forall|name: Seq<char>|
            made->Object_0.contains_key(name) ==> (#[trigger] made->Object_0[name])
                == if requires_property(schema, name) {
                skeleton::skeleton(doc, schema.properties->0@[name], seen, depth + 1)
            } else {
                Json::Null
            }
    } else {
        made == Json::Null
    }
}

proof fn lemma_required(schema: RawSchema, name: Seq<char>)
    ensures
        skeleton::required_names(schema).contains(name) == requires_property(schema, name),
{
    if schema.required is Some {
        let names = skeleton::required_names(schema);
        if names.contains(name) {
            let i = choose|i: int| 0 <= i < names.len() && names[i] == name;
            assert(schema.required->0@[i]@ == name);
        }
        if requires_property(schema, name) {
            let i = choose|i: int|
                0 <= i < schema.required->0@.len() && (#[trigger] schema.required->0@[i])@ == name;
            assert(names[i] == name);
        }
    }
}

/// A template follows its schema at every node: a reference is what it refers to, a
/// combined schema its first member, an enumeration its first value, and every type has its
/// own placeholder; an object has exactly the properties that a request can carry, filled
/// where they are required.
pub proof fn a_template_follows_its_schema(
    doc: OpenApiDoc,
    schema: RawSchema,
    seen: Set<Seq<char>>,
    depth: nat,
)
    ensures
        is_template_of(doc, schema, seen, depth, skeleton::skeleton(doc, schema, seen, depth)),
{
    let made = skeleton::skeleton(doc, schema, seen, depth);
    reveal_with_fuel(skeleton::skeleton, 2);
    reveal_with_fuel(skeleton::placeholder, 2);
    assert(text::decimal(0) =~= seq!['0']);
    if depth <= 12 {
        if schema.reference is Some {
            let reference = schema.reference->0@;
            lemma_last_segment(reference);
            assert forall|name: Seq<char>| #[trigger]
                is_last_segment(reference, name) implies name == text::after_last(
                reference,
                '/',
            ) by {
                lemma_segment_is_unique(reference, name, text::after_last(reference, '/'));
            }
        } else if skeleton::leading_member(schema) is None && !(schema.enum_values is Some
            && schema.enum_values->0@.len() > 0) && may_have_properties(schema)
            && schema.properties is Some {
            skeleton::object_is_no_scalar();
            assert forall|name: Seq<char>|
                made->Object_0.contains_key(name) implies (#[trigger] made->Object_0[name])
                == if requires_property(schema, name) {
                skeleton::skeleton(doc, schema.properties->0@[name], seen, depth + 1)
            } else {
                Json::Null
            } by {
                lemma_required(schema, name);
                let property = schema.properties->0@[name];
                assert(made->Object_0[name] == skeleton::placeholder(
                    doc,
                    schema,
                    property,
                    name,
                    seen,
                    depth,
                ));
            }
        }
    }
}

/// The template of a named schema is that of the schema, which is itself not resolved
/// again; there is one exactly where there is such a schema.
pub proof fn a_named_template_is_of_its_schema(doc: OpenApiDoc, name: Seq<char>)
    ensures
        ({
            let made = skeleton::request_skeleton(doc, name);
            &&& made is Ok <==> doc.components.schemas@.contains_key(name)
            &&& made is Ok ==> made->Ok_0 == skeleton::skeleton(
                doc,
                doc.components.schemas@[name],
                set![name],
                0,
            )
        }),
{
    assert(Set::empty().insert(name) =~= set![name]);
}

/// A text without its dots.
pub open spec fn dotless(all: Seq<char>) -> Seq<char>
    decreases all.len(),
{
    if all.len() == 0 {
        all
    } else if all.last() == '.' {
        dotless(all.drop_last())
    } else {
        dotless(all.drop_last()).push(all.last())
    }
}

proof fn lemma_dotless(all: Seq<char>)
    ensures
        text::without_char(all, '.') == dotless(all),
    decreases all.len(),
{
    reveal(Seq::filter);
    if all.len() > 0 {
        lemma_dotless(all.drop_last());
    } else {
        assert(text::without_char(all, '.') =~= dotless(all));
    }
}

/// An order template can be built exactly where there is an order schema that is an object,
/// and a schema for the attributes: the one that is named after the offering type, without
/// its dots, or the generic one.
pub proof fn an_order_template_needs_its_schemas(
    doc: OpenApiDoc,
    offering_type: Option<Seq<char>>,
)
    ensures
        ({
            let attributes = if offering_type is Some {
                dotless(offering_type->0) + "CreateOrderAttributes"@
            } else {
                "GenericOrderAttributes"@
            };
            let envelope = skeleton::request_skeleton(doc, "OrderCreateRequest"@);
            let made = skeleton::order_skeleton(doc, offering_type);
            &&& made is Ok <==> envelope is Ok && envelope->Ok_0 is Object
                && doc.components.schemas@.contains_key(attributes)
            &&& made is Ok ==> made->Ok_0 is Object && made->Ok_0->Object_0.contains_key(
                "attributes"@,
            ) && made->Ok_0->Object_0["attributes"@] == skeleton::skeleton(
                doc,
                doc.components.schemas@[attributes],
                set![attributes],
                0,
            )
        }),
{
    let attributes = skeleton::attributes_schema(offering_type);
    if offering_type is Some {
        lemma_dotless(offering_type->0);
    }
    a_named_template_is_of_its_schema(doc, attributes);
    reveal_strlit("attributes");
    reveal_strlit("accepting_terms_of_service");
    assert("attributes"@.len() != "accepting_terms_of_service"@.len());
}

/// The texts of a list.
pub open spec fn lists_texts(node: Json, values: Seq<String>) -> bool {
    &&& node is Array
    &&& node->Array_0.len() == values.len()
    &&& forall|i: int|
        0 <= i < values.len() ==> #[trigger] node->Array_0[i] == Json::Str(values[i]@)
}

/// Whether a node has exactly these keywords.
pub open spec fn has_only(node: Json, keywords: Set<Seq<char>>) -> bool {
    node is Object && forall|word: Seq<char>| #[trigger]
        node->Object_0.contains_key(word) <==> keywords.contains(word)
}

/// Whether a node says that type.
pub open spec fn says_type(node: Json, name: Seq<char>) -> bool {
    node->Object_0["type"@] == Json::Str(name)
}

/// Whether a validation schema is the right one for a schema that is neither a reference nor
/// combined, given the validation schemas of the schemas inside it.
pub open spec fn is_validation_of(
    doc: OpenApiDoc,
    schema: RawSchema,
    seen: Set<Seq<char>>,
    depth: nat,
    made: Json,
) -> bool {
    if schema.enum_values is Some {
        has_only(made, set!["enum"@]) && lists_texts(
            made->Object_0["enum"@],
            schema.enum_values->0@,
        )
    } else if is_of_type(schema, "string"@) {
        if schema.format is Some {
            has_only(made, set!["type"@, "format"@]) && says_type(made, "string"@)
                && made->Object_0["format"@] == Json::Str(schema.format->0@)
        } else {
            has_only(made, set!["type"@]) && says_type(made, "string"@)
        }
    } else if is_of_type(schema, "integer"@) {
        has_only(made, set!["type"@]) && says_type(made, "integer"@)
    } else if is_of_type(schema, "number"@) {
        has_only(made, set!["type"@]) && says_type(made, "number"@)
    } else if is_of_type(schema, "boolean"@) {
        has_only(made, set!["type"@]) && says_type(made, "boolean"@)
    } else if is_of_type(schema, "array"@) {
        has_only(made, set!["type"@, "items"@]) && says_type(made, "array"@)
            && made->Object_0["items"@] == if schema.items is Some {
            json_schema::json_schema(doc, *schema.items->0, seen, depth + 1)
        } else {
            Json::Bool(true)
        }
    } else if may_have_properties(schema) && schema.properties is Some {
        &&& has_only(made, set!["type"@, "properties"@, "required"@])
        &&& says_type(made, "object"@)
        &&& made->Object_0["properties"@] is Object
        &&& forall|name: Seq<char>| #[trigger]
            made->Object_0["properties"@]->Object_0.contains_key(name) <==> carries(schema, name)
        &&& forall|name: Seq<char>|
            carries(schema, name) ==> (#[trigger] made->Object_0["properties"@]->Object_0[name])
                == json_schema::json_schema(doc, schema.properties->0@[name], seen, depth + 1)
    } else if is_of_type(schema, "object"@) {
        has_only(made, set!["type"@]) && says_type(made, "object"@)
    } else {
        made == Json::Bool(true)
    }
}

/// A validation schema follows its schema at every node: a reference is what it refers to,
/// an enumeration all of its values, and every type says itself; an object describes exactly
/// the properties that a request can carry. What it cannot describe accepts anything.
pub proof fn a_validation_schema_follows_its_schema(
    doc: OpenApiDoc,
    schema: RawSchema,
    seen: Set<Seq<char>>,
    depth: nat,
    name: Seq<char>,
)
    ensures
        ({
            let made = json_schema::json_schema(doc, schema, seen, depth);
            let known = doc.components.schemas@;
            &&& depth > 12 ==> made == Json::Bool(true)
            &&& depth <= 12 && schema.reference is Some && is_last_segment(
                schema.reference->0@,
                name,
            ) ==> made == if known.contains_key(name) && !seen.contains(name) {
                json_schema::json_schema(doc, known[name], seen.insert(name), depth + 1)
            } else {
                Json::Bool(true)
            }
            &&& depth <= 12 && schema.reference is None && schema.all_of is None
                && schema.one_of is None && schema.any_of is None ==> is_validation_of(
                doc,
                schema,
                seen,
                depth,
                made,
            )
        }),
{
    let made = json_schema::json_schema(doc, schema, seen, depth);
    reveal_with_fuel(json_schema::json_schema, 2);
    json_schema::keywords_differ();
    skeleton::object_is_no_scalar();
    if schema.reference is Some {
        let reference = schema.reference->0@;
        lemma_last_segment(reference);
        if is_last_segment(reference, name) {
            lemma_segment_is_unique(reference, name, text::after_last(reference, '/'));
        }
    } else if depth <= 12 && !json_schema::is_combined(schema) {
        if made is Object && schema.enum_values is None && schema.properties is Some {
            let properties = schema.properties->0@;
            let described = json_schema::property_schemas(doc, properties, seen, depth);
            assert forall|other: Seq<char>| carries(schema, other) implies (
            #[trigger] described[other]) == json_schema::json_schema(
                doc,
                properties[other],
                seen,
                depth + 1,
            ) by {
                assert(described.contains_key(other));
            }
        }
    }
}

/// The validation schema of a named schema is that of the schema, which is itself not
/// resolved again.
pub proof fn a_named_validation_schema_is_of_its_schema(doc: OpenApiDoc, name: Seq<char>)
    ensures
        json_schema::request_json_schema(doc, name) == json_schema::json_schema(
            doc,
            doc.components.schemas@[name],
            set![name],
            0,
        ),
{
    assert(Set::empty().insert(name) =~= set![name]);
}

} // verus!
