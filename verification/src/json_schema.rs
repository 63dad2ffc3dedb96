//! Self-contained JSON Schemas for request bodies: every reference is inlined, so that
//! a request can be checked without looking anything up.
use crate::error::SchemaError;
use crate::json;
use crate::json::{
    array, boolean, has_member, no_members, object, put, string, strings, write_compact, Json,
};
use crate::schema::{OpenApiDoc, RawSchema};
use crate::skeleton;
use crate::skeleton::{has_type, SKELETON_MAX_DEPTH};
use crate::table;
use crate::table::{NameSet, Table};
use crate::text;
use crate::text::last_segment;
use vstd::prelude::*;

verus! {

/// Whether a schema is combined of others.
pub open spec fn is_combined(schema: RawSchema) -> bool {
    schema.all_of is Some || schema.one_of is Some || schema.any_of is Some
}

/// The schema node that accepts anything.
pub open spec fn anything() -> Json {
    Json::Bool(true)
}

/// A schema node that only names a type.
pub open spec fn typed(name: Seq<char>) -> Map<Seq<char>, Json> {
    Map::<Seq<char>, Json>::empty().insert("type"@, Json::Str(name))
}

/// The required names of an object that it still describes.
pub open spec fn enforced_names(
    schema: RawSchema,
    properties: Map<Seq<char>, Json>,
) -> Seq<Seq<char>> {
    skeleton::required_names(schema).filter(|name: Seq<char>| properties.contains_key(name))
}

/// The validation schema of a node.
///
/// Where a template only needs one example, a validation schema keeps every combinator with
/// every member of it. What cannot be described, because it is a cycle, too deep or of an unknown
/// shape, accepts anything: rejecting valid data would be worse than checking too little.
/// Read-only properties are never part of a request, so they are neither described nor
/// required.
pub open spec fn json_schema(
    doc: OpenApiDoc,
    schema: RawSchema,
    seen: Set<Seq<char>>,
    depth: nat,
) -> Json
    decreases SKELETON_MAX_DEPTH + 1 - depth, 1int,
{
    if depth > SKELETON_MAX_DEPTH {
        anything()
    } else if schema.reference is Some {
        let name = text::after_last(schema.reference->0@, '/');
        if seen.contains(name) || !doc.components.schemas@.contains_key(name) {
            anything()
        } else {
            json_schema(doc, doc.components.schemas@[name], seen.insert(name), depth + 1)
        }
    } else if is_combined(schema) {
        let none = Map::<Seq<char>, Json>::empty();
        let all = match schema.all_of {
            Some(members) => none.insert(
                "allOf"@,
                Json::Array(all_schemas(doc, members@, seen, depth)),
            ),
            None => none,
        };
        let one = match schema.one_of {
            Some(members) => all.insert(
                "oneOf"@,
                Json::Array(all_schemas(doc, members@, seen, depth)),
            ),
            None => all,
        };
        let any = match schema.any_of {
            Some(members) => one.insert(
                "anyOf"@,
                Json::Array(all_schemas(doc, members@, seen, depth)),
            ),
            None => one,
        };
        Json::Object(any)
    } else if schema.enum_values is Some {
        Json::Object(
            Map::<Seq<char>, Json>::empty().insert(
                "enum"@,
                json::json_strings(text::texts(schema.enum_values->0@)),
            ),
        )
    } else {
        let kind = text::opt_text(schema.schema_type);
        if kind == Some("string"@) {
            match schema.format {
                Some(format) => Json::Object(
                    typed("string"@).insert("format"@, Json::Str(format@)),
                ),
                None => Json::Object(typed("string"@)),
            }
        } else if kind == Some("integer"@) {
            Json::Object(typed("integer"@))
        } else if kind == Some("number"@) {
            Json::Object(typed("number"@))
        } else if kind == Some("boolean"@) {
            Json::Object(typed("boolean"@))
        } else if kind == Some("array"@) {
            let items = match schema.items {
                Some(items) => json_schema(doc, *items, seen, depth + 1),
                None => anything(),
            };
            Json::Object(typed("array"@).insert("items"@, items))
        } else if kind == Some("object"@) || kind is None {
            match schema.properties {
                Some(properties) => {
                    let described = property_schemas(doc, properties@, seen, depth);
                    Json::Object(
                        typed("object"@).insert("properties"@, Json::Object(described)).insert(
                            "required"@,
                            json::json_strings(enforced_names(schema, described)),
                        ),
                    )
                },
                None => if kind is None {
                    anything()
                } else {
                    Json::Object(typed("object"@))
                },
            }
        } else {
            anything()
        }
    }
}

/// The validation schemas of the members of a combinator, all of them in their order.
pub open spec fn all_schemas(
    doc: OpenApiDoc,
    members: Seq<RawSchema>,
    seen: Set<Seq<char>>,
    depth: nat,
) -> Seq<Json>
    decreases SKELETON_MAX_DEPTH + 1 - depth, 0int,
{
    Seq::new(
        members.len(),
        |i: int|
            if depth <= SKELETON_MAX_DEPTH {
                json_schema(doc, members[i], seen, depth + 1)
            } else {
                anything()
            },
    )
}

/// The validation schemas of the writable properties of an object.
pub open spec fn property_schemas(
    doc: OpenApiDoc,
    properties: Map<Seq<char>, RawSchema>,
    seen: Set<Seq<char>>,
    depth: nat,
) -> Map<Seq<char>, Json>
    decreases SKELETON_MAX_DEPTH + 1 - depth, 0int,
{
    Map::new(
        |name: Seq<char>| skeleton::writable(properties, name),
        |name: Seq<char>|
            if depth <= SKELETON_MAX_DEPTH {
                json_schema(doc, properties[name], seen, depth + 1)
            } else {
                anything()
            },
    )
}

/// An object node with one member.
fn node(keyword: &str, value: serde_json::Value) -> (result: serde_json::Value)
    ensures
        json::json_of(result) == Json::Object(
            Map::<Seq<char>, Json>::empty().insert(keyword@, json::json_of(value)),
        ),
{
    let mut members = no_members();
    put(&mut members, keyword, value);
    object(members)
}

/// A node that names the type `name`.
fn type_node(name: &str) -> (result: serde_json::Value)
    ensures
        json::json_of(result) == Json::Object(typed(name@)),
{
    node("type", string(name))
}

/// The JSON Schema of one schema node.
pub fn json_schema_value(
    doc: &OpenApiDoc,
    schema: &RawSchema,
    seen: &mut NameSet,
    depth: usize,
) -> (value: serde_json::Value)
    ensures
        json::json_of(value) == json_schema(*doc, *schema, old(seen)@, depth as nat),
        final(seen)@ == old(seen)@,
    decreases SKELETON_MAX_DEPTH + 1 - depth, 1int,
{
    if depth > SKELETON_MAX_DEPTH {
        return boolean(true);
    }
    if let Some(reference) = &schema.reference {
        let name = last_segment(reference.as_str(), '/');
        if seen.contains(name.as_str()) {
            return boolean(true);
        }
        return match doc.components.schemas.get(name.as_str()) {
            Some(resolved) => {
                seen.insert(name.as_str());
                let value = json_schema_value(doc, resolved, seen, depth + 1);
                seen.remove(name.as_str());
                assert(seen@ =~= old(seen)@);
                value
            },
            None => boolean(true),
        };
    }
    if schema.all_of.is_some() || schema.one_of.is_some() || schema.any_of.is_some() {
        let mut members = no_members();
        if let Some(list) = &schema.all_of {
            put(&mut members, "allOf", member_schemas(doc, list, seen, depth));
        }
        if let Some(list) = &schema.one_of {
            put(&mut members, "oneOf", member_schemas(doc, list, seen, depth));
        }
        if let Some(list) = &schema.any_of {
            put(&mut members, "anyOf", member_schemas(doc, list, seen, depth));
        }
        return object(members);
    }
    if let Some(values) = &schema.enum_values {
        return node("enum", strings(values));
    }
    if has_type(schema, "string") {
        let mut members = no_members();
        put(&mut members, "type", string("string"));
        if let Some(format) = &schema.format {
            put(&mut members, "format", string(format.as_str()));
        }
        object(members)
    } else if has_type(schema, "integer") {
        type_node("integer")
    } else if has_type(schema, "number") {
        type_node("number")
    } else if has_type(schema, "boolean") {
        type_node("boolean")
    } else if has_type(schema, "array") {
        let items = match &schema.items {
            Some(items) => json_schema_value(doc, items, seen, depth + 1),
            None => boolean(true),
        };
        let mut members = no_members();
        put(&mut members, "type", string("array"));
        put(&mut members, "items", items);
        object(members)
    } else if has_type(schema, "object") || schema.schema_type.is_none() {
        match &schema.properties {
            Some(properties) => {
                let described = described_properties(doc, properties, seen, depth);
                let required = enforced(schema, &described);
                let mut members = no_members();
                put(&mut members, "type", string("object"));
                put(&mut members, "properties", object(described));
                put(&mut members, "required", strings(&required));
                object(members)
            },
            None => if schema.schema_type.is_none() {
                boolean(true)
            } else {
                type_node("object")
            },
        }
    } else {
        boolean(true)
    }
}

/// Describes the members of a combinator.
fn member_schemas(
    doc: &OpenApiDoc,
    members: &Vec<RawSchema>,
    seen: &mut NameSet,
    depth: usize,
) -> (value: serde_json::Value)
    requires
        depth <= SKELETON_MAX_DEPTH,
    ensures
        json::json_of(value) == Json::Array(
            all_schemas(*doc, members@, old(seen)@, depth as nat),
        ),
        final(seen)@ == old(seen)@,
    decreases SKELETON_MAX_DEPTH + 1 - depth, 0int,
{
    let mut values: Vec<serde_json::Value> = Vec::new();
    for i in 0..members.len()
        invariant
            depth <= SKELETON_MAX_DEPTH,
            seen@ == old(seen)@,
            values@.len() == i,
            forall|j: int|
                0 <= j < i ==> json::json_of(#[trigger] values@[j]) == json_schema(
                    *doc,
                    members@[j],
                    old(seen)@,
                    (depth + 1) as nat,
                ),
    {
        values.push(json_schema_value(doc, &members[i], seen, depth + 1));
    }
    assert(json::jsons_of(values@) =~= all_schemas(*doc, members@, old(seen)@, depth as nat));
    array(values)
}

/// The writable properties of an object with their validation schemas.
fn described_properties(
    doc: &OpenApiDoc,
    properties: &Table<RawSchema>,
    seen: &mut NameSet,
    depth: usize,
) -> (members: serde_json::Map<String, serde_json::Value>)
    requires
        depth <= SKELETON_MAX_DEPTH,
    ensures
        json::members_of(members) == property_schemas(
            *doc,
            properties@,
            old(seen)@,
            depth as nat,
        ),
        final(seen)@ == old(seen)@,
    decreases SKELETON_MAX_DEPTH + 1 - depth, 0int,
{
    let ghost rows = properties.rows();
    let mut members = no_members();
    let count: usize = properties.len();
    for i in 0..count
        invariant
            depth <= SKELETON_MAX_DEPTH,
            rows == properties.rows(),
            properties.well_formed(),
            count == rows.len(),
            seen@ == old(seen)@,
            forall|name: Seq<char>| #[trigger]
                json::members_of(members).contains_key(name) <==> table::has_row(
                    rows.take(i as int),
                    name,
                ) && skeleton::writable(properties@, name),
            forall|name: Seq<char>|
                json::members_of(members).contains_key(name) ==> #[trigger] json::members_of(
                    members,
                )[name] == json_schema(*doc, properties@[name], old(seen)@, (depth + 1) as nat),
    {
        let name = properties.name_at(i);
        let property = properties.value_at(i);
        proof {
            table::lemma_row_found(rows, i as int);
            assert(rows.take(i + 1) =~= rows.take(i as int).push(rows[i as int]));
            assert forall|other: Seq<char>| #[trigger]
                table::has_row(rows.take(i + 1), other) == (table::has_row(
                    rows.take(i as int),
                    other,
                ) || other == name@) by {
                table::lemma_has_row_push(rows.take(i as int), rows[i as int], other);
            }
        }
        if !property.read_only {
            let value = json_schema_value(doc, property, seen, depth + 1);
            put(&mut members, name, value);
        }
    }
    assert(rows.take(count as int) =~= rows);
    assert(json::members_of(members) =~= property_schemas(
        *doc,
        properties@,
        old(seen)@,
        depth as nat,
    ));
    members
}

/// The required names that are still described.
fn enforced(
    schema: &RawSchema,
    described: &serde_json::Map<String, serde_json::Value>,
) -> (names: Vec<String>)
    ensures
        text::texts(names@) == enforced_names(*schema, json::members_of(*described)),
{
    let mut kept: Vec<String> = Vec::new();
    let ghost is_described = |name: Seq<char>| json::members_of(*described).contains_key(name);
    match &schema.required {
        Some(names) => {
            let ghost all = text::texts(names@);
            assert(all.take(0).filter(is_described) =~= Seq::<Seq<char>>::empty()) by {
                reveal(Seq::filter);
            }
            for i in 0..names.len()
                invariant
                    all == text::texts(names@),
                    is_described == (|name: Seq<char>|
                        json::members_of(*described).contains_key(name)),
                    text::texts(kept@) == all.take(i as int).filter(is_described),
            {
                let ghost before = text::texts(kept@);
                proof {
                    reveal(Seq::filter);
                    assert(all.take(i + 1).drop_last() =~= all.take(i as int));
                    assert(all.take(i + 1).last() == names@[i as int]@);
                }
                if has_member(described, names[i].as_str()) {
                    kept.push(names[i].clone());
                    assert(text::texts(kept@) =~= before.push(names@[i as int]@));
                }
            }
            assert(all.take(names@.len() as int) =~= all);
        },
        None => {
            reveal(Seq::filter);
            assert(text::texts(kept@) =~= Seq::<Seq<char>>::empty());
        },
    }
    kept
}

/// The validation schema of a named schema.
pub open spec fn request_json_schema(doc: OpenApiDoc, name: Seq<char>) -> Json {
    json_schema(doc, doc.components.schemas@[name], Set::empty().insert(name), 0)
}

/// A validation schema reads back: it has no numbers, and it nests no deeper than the
/// recursion cap lets it.
proof fn lemma_schema_reads_back(
    doc: OpenApiDoc,
    schema: RawSchema,
    seen: Set<Seq<char>>,
    depth: nat,
)
    requires
        depth <= SKELETON_MAX_DEPTH + 1,
    ensures
        json::reads_back(
            json_schema(doc, schema, seen, depth),
            (2 * (SKELETON_MAX_DEPTH + 1 - depth)) as nat,
        ),
    decreases SKELETON_MAX_DEPTH + 1 - depth, 1int,
{
    if depth <= SKELETON_MAX_DEPTH {
        let node = json_schema(doc, schema, seen, depth);
        let levels = (2 * (SKELETON_MAX_DEPTH + 1 - depth)) as nat;
        let below = (levels - 2) as nat;
        keywords_differ();
        reveal_with_fuel(json_schema, 2);
        reveal_with_fuel(json::reads_back, 3);
        if schema.reference is Some {
            let name = text::after_last(schema.reference->0@, '/');
            if !seen.contains(name) && doc.components.schemas@.contains_key(name) {
                let resolved = doc.components.schemas@[name];
                lemma_schema_reads_back(doc, resolved, seen.insert(name), depth + 1);
                json::lemma_reads_back_grows(node, below, levels);
            }
        } else if is_combined(schema) {
            lemma_members_read_back(doc, schema.all_of, seen, depth);
            lemma_members_read_back(doc, schema.one_of, seen, depth);
            lemma_members_read_back(doc, schema.any_of, seen, depth);
        } else if schema.enum_values is Some {
        } else {
            if schema.items is Some {
                lemma_schema_reads_back(doc, *schema.items->0, seen, depth + 1);
                json::lemma_reads_back_grows(
                    json_schema(doc, *schema.items->0, seen, depth + 1),
                    below,
                    (levels - 1) as nat,
                );
            }
            if schema.properties is Some {
                let properties = schema.properties->0@;
                let described = property_schemas(doc, properties, seen, depth);
                assert forall|name: Seq<char>| described.contains_key(name) implies json::reads_back(
                    #[trigger] described[name],
                    below,
                ) by {
                    lemma_schema_reads_back(doc, properties[name], seen, depth + 1);
                }
                assert(json::reads_back(Json::Object(described), (levels - 1) as nat));
            }
        }
    }
}

proof fn lemma_members_read_back(
    doc: OpenApiDoc,
    members: Option<Vec<RawSchema>>,
    seen: Set<Seq<char>>,
    depth: nat,
)
    requires
        depth <= SKELETON_MAX_DEPTH,
    ensures
        members matches Some(list) ==> json::reads_back(
            Json::Array(all_schemas(doc, list@, seen, depth)),
            (2 * (SKELETON_MAX_DEPTH + 1 - depth) - 1) as nat,
        ),
    decreases SKELETON_MAX_DEPTH + 1 - depth, 0int,
{
    if members is Some {
        let list = members->0@;
        let described = all_schemas(doc, list, seen, depth);
        assert forall|i: int| 0 <= i < described.len() implies json::reads_back(
            #[trigger] described[i],
            (2 * (SKELETON_MAX_DEPTH - depth)) as nat,
        ) by {
            lemma_schema_reads_back(doc, list[i], seen, depth + 1);
        }
    }
}

/// Builds a self-contained JSON Schema for `schema_name`, as compact JSON, to validate
/// request bodies against. The text reads back as the schema.
pub fn build_request_json_schema(doc: &OpenApiDoc, schema_name: &str) -> (result: Result<
    String,
    SchemaError,
>)
    ensures
        result is Ok <==> doc.components.schemas@.contains_key(schema_name@),
        match result {
            Ok(text) => {
                let described = request_json_schema(*doc, schema_name@);
                text@ == json::compact_text(described) && json::parsed_json(text@) == Some(
                    described,
                )
            },
            Err(error) => error.model() == (SchemaError::SchemaNotFound { schema: schema_name@ }),
        },
{
    match doc.components.schemas.get(schema_name) {
        Some(schema) => {
            let mut seen = NameSet::new();
            seen.insert(schema_name);
            let value = json_schema_value(doc, schema, &mut seen, 0);
            proof {
                lemma_schema_reads_back(*doc, *schema, Set::empty().insert(schema_name@), 0);
                json::lemma_reads_back_grows(
                    request_json_schema(*doc, schema_name@),
                    (2 * (SKELETON_MAX_DEPTH + 1)) as nat,
                    127,
                );
            }
            Ok(write_compact(&value))
        },
        None => Err(SchemaError::SchemaNotFound { schema: schema_name.to_string() }),
    }
}

/// No two keywords of a validation schema are the same.
pub proof fn keywords_differ()
    ensures
        "$ref"@ != "allOf"@,
        "$ref"@ != "oneOf"@,
        "$ref"@ != "anyOf"@,
        "$ref"@ != "enum"@,
        "$ref"@ != "type"@,
        "$ref"@ != "format"@,
        "$ref"@ != "items"@,
        "$ref"@ != "properties"@,
        "$ref"@ != "required"@,
        "allOf"@ != "oneOf"@,
        "allOf"@ != "anyOf"@,
        "allOf"@ != "enum"@,
        "allOf"@ != "type"@,
        "allOf"@ != "format"@,
        "allOf"@ != "items"@,
        "allOf"@ != "properties"@,
        "allOf"@ != "required"@,
        "oneOf"@ != "anyOf"@,
        "oneOf"@ != "enum"@,
        "oneOf"@ != "type"@,
        "oneOf"@ != "format"@,
        "oneOf"@ != "items"@,
        "oneOf"@ != "properties"@,
        "oneOf"@ != "required"@,
        "anyOf"@ != "enum"@,
        "anyOf"@ != "type"@,
        "anyOf"@ != "format"@,
        "anyOf"@ != "items"@,
        "anyOf"@ != "properties"@,
        "anyOf"@ != "required"@,
        "enum"@ != "type"@,
        "enum"@ != "format"@,
        "enum"@ != "items"@,
        "enum"@ != "properties"@,
        "enum"@ != "required"@,
        "type"@ != "format"@,
        "type"@ != "items"@,
        "type"@ != "properties"@,
        "type"@ != "required"@,
        "format"@ != "items"@,
        "format"@ != "properties"@,
        "format"@ != "required"@,
        "items"@ != "properties"@,
        "items"@ != "required"@,
        "properties"@ != "required"@,
{
    reveal_strlit("$ref");
    reveal_strlit("allOf");
    reveal_strlit("oneOf");
    reveal_strlit("anyOf");
    reveal_strlit("enum");
    reveal_strlit("type");
    reveal_strlit("format");
    reveal_strlit("items");
    reveal_strlit("properties");
    reveal_strlit("required");
    assert("$ref"@[0] == '$');
    assert("allOf"@[0] == 'a' && "allOf"@[1] == 'l');
    assert("oneOf"@[0] == 'o');
    assert("anyOf"@[0] == 'a' && "anyOf"@[1] == 'n');
    assert("enum"@[0] == 'e');
    assert("type"@[0] == 't');
    assert("format"@[0] == 'f');
    assert("items"@[0] == 'i');
    assert("properties"@[0] == 'p');
    assert("required"@[0] == 'r');
}

/// Whether every member of a combinator `keyword`, where `node` has it, satisfies
/// `self_contained`.
pub open spec fn members_self_contained(
    node: Map<Seq<char>, Json>,
    keyword: Seq<char>,
    levels: nat,
) -> bool
    decreases levels, 0int,
{
    node.contains_key(keyword) ==> {
        &&& node[keyword] is Array
        &&& forall|i: int|
            0 <= i < node[keyword]->Array_0.len() ==> levels > 0 && self_contained(
                #[trigger] node[keyword]->Array_0[i],
                (levels - 1) as nat,
            )
    }
}

/// Whether a schema node needs nothing from outside: neither it nor any schema node
/// inside it has a `$ref`. The nodes inside it are the members of a combinator, the
/// items of an array and the properties of an object, up to `levels` inside one another.
pub open spec fn self_contained(node: Json, levels: nat) -> bool
    decreases levels, 1int,
{
    match node {
        Json::Bool(_) => true,
        Json::Object(keywords) => {
            &&& !keywords.contains_key("$ref"@)
            &&& members_self_contained(keywords, "allOf"@, levels)
            &&& members_self_contained(keywords, "oneOf"@, levels)
            &&& members_self_contained(keywords, "anyOf"@, levels)
            &&& keywords.contains_key("items"@) ==> levels > 0 && self_contained(
                keywords["items"@],
                (levels - 1) as nat,
            )
            &&& keywords.contains_key("properties"@) ==> {
                &&& keywords["properties"@] is Object
                &&& forall|name: Seq<char>|
                    keywords["properties"@]->Object_0.contains_key(name) ==> levels > 0
                        && self_contained(
                        #[trigger] keywords["properties"@]->Object_0[name],
                        (levels - 1) as nat,
                    )
            }
        },
        _ => false,
    }
}

proof fn lemma_self_contained_grows(node: Json, few: nat, many: nat)
    requires
        self_contained(node, few),
        few <= many,
    ensures
        self_contained(node, many),
    decreases few, 1int,
{
    if node is Object {
        let keywords = node->Object_0;
        lemma_members_grow(keywords, "allOf"@, few, many);
        lemma_members_grow(keywords, "oneOf"@, few, many);
        lemma_members_grow(keywords, "anyOf"@, few, many);
        if keywords.contains_key("items"@) {
            lemma_self_contained_grows(
                keywords["items"@],
                (few - 1) as nat,
                (many - 1) as nat,
            );
        }
        if keywords.contains_key("properties"@) {
            let properties = keywords["properties"@]->Object_0;
            assert forall|name: Seq<char>| properties.contains_key(name) implies many > 0
                && self_contained(#[trigger] properties[name], (many - 1) as nat) by {
                lemma_self_contained_grows(properties[name], (few - 1) as nat, (many - 1) as nat);
            }
        }
    }
}

proof fn lemma_members_grow(
    keywords: Map<Seq<char>, Json>,
    keyword: Seq<char>,
    few: nat,
    many: nat,
)
    requires
        members_self_contained(keywords, keyword, few),
        few <= many,
    ensures
        members_self_contained(keywords, keyword, many),
    decreases few, 0int,
{
    if keywords.contains_key(keyword) {
        let members = keywords[keyword]->Array_0;
        assert forall|i: int| 0 <= i < members.len() implies many > 0 && self_contained(
            #[trigger] members[i],
            (many - 1) as nat,
        ) by {
            lemma_self_contained_grows(members[i], (few - 1) as nat, (many - 1) as nat);
        }
    }
}

/// A validation schema is self-contained: every reference is inlined, and no `$ref` is
/// left to look up.
pub proof fn validation_schema_is_self_contained(
    doc: OpenApiDoc,
    schema: RawSchema,
    seen: Set<Seq<char>>,
    depth: nat,
)
    requires
        depth <= SKELETON_MAX_DEPTH + 1,
    ensures
        self_contained(
            json_schema(doc, schema, seen, depth),
            (SKELETON_MAX_DEPTH + 1 - depth) as nat,
        ),
    decreases SKELETON_MAX_DEPTH + 1 - depth, 1int,
{
    let node = json_schema(doc, schema, seen, depth);
    let levels = (SKELETON_MAX_DEPTH + 1 - depth) as nat;
    keywords_differ();
    reveal_with_fuel(json_schema, 2);
    reveal_with_fuel(self_contained, 2);
    if depth <= SKELETON_MAX_DEPTH {
        let below = (levels - 1) as nat;
        if schema.reference is Some {
            let name = text::after_last(schema.reference->0@, '/');
            if !seen.contains(name) && doc.components.schemas@.contains_key(name) {
                let resolved = doc.components.schemas@[name];
                validation_schema_is_self_contained(doc, resolved, seen.insert(name), depth + 1);
                lemma_self_contained_grows(node, below, levels);
            }
        } else if is_combined(schema) {
            lemma_members_self_contained(doc, schema.all_of, seen, depth);
            lemma_members_self_contained(doc, schema.one_of, seen, depth);
            lemma_members_self_contained(doc, schema.any_of, seen, depth);
            let keywords = node->Object_0;
            assert(schema.all_of is Some ==> keywords["allOf"@] == Json::Array(
                all_schemas(doc, schema.all_of->0@, seen, depth),
            ));
            assert(schema.one_of is Some ==> keywords["oneOf"@] == Json::Array(
                all_schemas(doc, schema.one_of->0@, seen, depth),
            ));
            assert(schema.any_of is Some ==> keywords["anyOf"@] == Json::Array(
                all_schemas(doc, schema.any_of->0@, seen, depth),
            ));
            assert(members_self_contained(keywords, "allOf"@, levels));
            assert(members_self_contained(keywords, "oneOf"@, levels));
            assert(members_self_contained(keywords, "anyOf"@, levels));
        } else if schema.enum_values is Some {
        } else {
            if schema.items is Some {
                validation_schema_is_self_contained(doc, *schema.items->0, seen, depth + 1);
            }
            if schema.properties is Some {
                let properties = schema.properties->0@;
                let described = property_schemas(doc, properties, seen, depth);
                assert forall|name: Seq<char>| described.contains_key(name) implies self_contained(
                    #[trigger] described[name],
                    below,
                ) by {
                    validation_schema_is_self_contained(doc, properties[name], seen, depth + 1);
                }
            }
        }
    }
}

proof fn lemma_members_self_contained(
    doc: OpenApiDoc,
    members: Option<Vec<RawSchema>>,
    seen: Set<Seq<char>>,
    depth: nat,
)
    requires
        depth <= SKELETON_MAX_DEPTH,
    ensures
        members matches Some(list) ==> forall|i: int|
            0 <= i < list@.len() ==> self_contained(
                #[trigger] all_schemas(doc, list@, seen, depth)[i],
                (SKELETON_MAX_DEPTH - depth) as nat,
            ),
    decreases SKELETON_MAX_DEPTH + 1 - depth, 0int,
{
    if members is Some {
        let list = members->0@;
        assert forall|i: int| 0 <= i < list.len() implies self_contained(
            #[trigger] all_schemas(doc, list, seen, depth)[i],
            (SKELETON_MAX_DEPTH - depth) as nat,
        ) by {
            validation_schema_is_self_contained(doc, list[i], seen, depth + 1);
        }
    }
}

/// Whether a node has a combinator exactly where the schema has it, with the validation
/// schema of every member in its order.
pub open spec fn keeps_members(
    node: Map<Seq<char>, Json>,
    keyword: Seq<char>,
    doc: OpenApiDoc,
    members: Option<Vec<RawSchema>>,
    seen: Set<Seq<char>>,
    depth: nat,
) -> bool {
    &&& node.contains_key(keyword) <==> members is Some
    &&& members matches Some(list) ==> {
        &&& node[keyword] is Array
        &&& node[keyword]->Array_0.len() == list@.len()
        &&& forall|i: int|
            0 <= i < list@.len() ==> #[trigger] node[keyword]->Array_0[i] == json_schema(
                doc,
                list@[i],
                seen,
                depth + 1,
            )
    }
}

/// A combined schema keeps every combinator that it has, and every member of each: the
/// members have their own validation schemas, in order, under the keyword of the
/// combinator.
pub proof fn combinators_keep_every_member(
    doc: OpenApiDoc,
    schema: RawSchema,
    seen: Set<Seq<char>>,
    depth: nat,
)
    requires
        depth <= SKELETON_MAX_DEPTH,
        schema.reference is None,
        is_combined(schema),
    ensures
        json_schema(doc, schema, seen, depth) is Object,
        ({
            let node = json_schema(doc, schema, seen, depth)->Object_0;
            &&& keeps_members(node, "allOf"@, doc, schema.all_of, seen, depth)
            &&& keeps_members(node, "oneOf"@, doc, schema.one_of, seen, depth)
            &&& keeps_members(node, "anyOf"@, doc, schema.any_of, seen, depth)
        }),
{
    keywords_differ();
    reveal_with_fuel(json_schema, 2);
}

/// The validation schema of an object describes exactly the properties that its
/// template has, and requires exactly those of the required names that are described: a
/// read-only field is in neither, so it can never make every request fail.
pub proof fn template_and_validation_schema_agree(
    doc: OpenApiDoc,
    schema: RawSchema,
    seen: Set<Seq<char>>,
    depth: nat,
    name: Seq<char>,
)
    requires
        depth <= SKELETON_MAX_DEPTH,
        skeleton::is_plain_object(schema),
    ensures
        ({
            let node = json_schema(doc, schema, seen, depth)->Object_0;
            let template = skeleton::skeleton(doc, schema, seen, depth)->Object_0;
            let described = node["properties"@]->Object_0;
            let required = enforced_names(schema, described);
            &&& json_schema(doc, schema, seen, depth) is Object
            &&& skeleton::skeleton(doc, schema, seen, depth) is Object
            &&& node["properties"@] is Object
            &&& described.contains_key(name) <==> template.contains_key(name)
            &&& node["required"@] == json::json_strings(required)
            &&& required.contains(name) <==> skeleton::required_names(schema).contains(name)
                && template.contains_key(name)
        }),
{
    skeleton::object_is_no_scalar();
    keywords_differ();
    reveal_with_fuel(json_schema, 2);
    skeleton::object_template_has_the_writable_properties(doc, schema, seen, depth, name);
    let node = json_schema(doc, schema, seen, depth)->Object_0;
    let described = node["properties"@]->Object_0;
    let all = skeleton::required_names(schema);
    let keep = |n: Seq<char>| described.contains_key(n);
    lemma_filter_contains(all, keep, name);
}

proof fn lemma_filter_contains(
    names: Seq<Seq<char>>,
    keep: spec_fn(Seq<char>) -> bool,
    name: Seq<char>,
)
    ensures
        names.filter(keep).contains(name) <==> names.contains(name) && keep(name),
    decreases names.len(),
{
    reveal(Seq::filter);
    if names.len() > 0 {
        let shorter = names.drop_last();
        lemma_filter_contains(shorter, keep, name);
        let kept = shorter.filter(keep);
        if names.contains(name) {
            let i = choose|i: int| 0 <= i < names.len() && names[i] == name;
            if i < shorter.len() {
                assert(shorter[i] == name);
            }
        }
        if shorter.contains(name) {
            let i = choose|i: int| 0 <= i < shorter.len() && shorter[i] == name;
            assert(names[i] == name);
        }
        assert(names[names.len() - 1] == names.last());
        if keep(names.last()) {
            assert(names.filter(keep) =~= kept.push(names.last()));
            if kept.contains(name) {
                let i = choose|i: int| 0 <= i < kept.len() && kept[i] == name;
                assert(kept.push(names.last())[i] == name);
            }
            assert(kept.push(names.last())[kept.len() as int] == names.last());
        }
    }
}

} // verus!
