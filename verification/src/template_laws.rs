//! A raw template is valid input: it passes the validation schema of the same request
//! body once its `null` members are dropped, exactly where one placeholder can be enough.
use crate::json;
use crate::json::Json;
use crate::json_schema;
use crate::schema::{OpenApiDoc, RawSchema};
use crate::skeleton;
use crate::skeleton::SKELETON_MAX_DEPTH;
use crate::text;
use vstd::prelude::*;

verus! {

/// A value without the members that are `null`, up to `levels` inside one another: an
/// optional field that was left alone counts as absent.
pub open spec fn without_nulls(value: Json, levels: nat) -> Json
    decreases levels,
{
    match value {
        Json::Object(members) => Json::Object(
            Map::new(
                |name: Seq<char>| members.contains_key(name) && members[name] != Json::Null,
                |name: Seq<char>|
                    if levels > 0 {
                        without_nulls(members[name], (levels - 1) as nat)
                    } else {
                        members[name]
                    },
            ),
        ),
        Json::Array(items) => Json::Array(
            Seq::new(
                items.len(),
                |i: int|
                    if levels > 0 {
                        without_nulls(items[i], (levels - 1) as nat)
                    } else {
                        items[i]
                    },
            ),
        ),
        _ => value,
    }
}

/// Whether a value has the type of that name.
pub open spec fn has_json_type(name: Json, value: Json) -> bool {
    ||| name == Json::Str("string"@) && value is Str
    ||| name == Json::Str("integer"@) && value is Number
    ||| name == Json::Str("number"@) && value is Number
    ||| name == Json::Str("boolean"@) && value is Bool
    ||| name == Json::Str("array"@) && value is Array
    ||| name == Json::Str("object"@) && value is Object
}

/// Whether a value satisfies the member `node` of a schema, with levels to spare.
pub open spec fn accepted_below(
    formats: spec_fn(Seq<char>, Seq<char>) -> bool,
    node: Json,
    value: Json,
    levels: nat,
) -> bool
    decreases levels, 0int,
{
    levels > 0 && accepted(formats, node, value, (levels - 1) as nat)
}

/// Whether a value satisfies a schema node, by the keywords that validation schemas
/// have. Which texts a format accepts is left to `formats`: the name of the format, then
/// the text.
pub open spec fn accepted(
    formats: spec_fn(Seq<char>, Seq<char>) -> bool,
    node: Json,
    value: Json,
    levels: nat,
) -> bool
    decreases levels, 1int,
{
    match node {
        Json::Bool(all) => all,
        Json::Object(keywords) => {
            &&& keywords.contains_key("format"@) && value is Str ==> formats(
                keywords["format"@]->Str_0,
                value->Str_0,
            )
            &&& keywords.contains_key("type"@) ==> has_json_type(keywords["type"@], value)
            &&& keywords.contains_key("enum"@) ==> keywords["enum"@]->Array_0.contains(value)
            &&& keywords.contains_key("items"@) && value is Array ==> forall|i: int|
                0 <= i < value->Array_0.len() ==> accepted_below(
                    formats,
                    keywords["items"@],
                    #[trigger] value->Array_0[i],
                    levels,
                )
            &&& keywords.contains_key("properties"@) && value is Object ==> forall|name: Seq<char>|
                keywords["properties"@]->Object_0.contains_key(name)
                    && value->Object_0.contains_key(name) ==> accepted_below(
                    formats,
                    keywords["properties"@]->Object_0[name],
                    #[trigger] value->Object_0[name],
                    levels,
                )
            &&& keywords.contains_key("required"@) && value is Object ==> forall|i: int|
                0 <= i < keywords["required"@]->Array_0.len() ==> value->Object_0.contains_key(
                    (#[trigger] keywords["required"@]->Array_0[i])->Str_0,
                )
            &&& keywords.contains_key("allOf"@) ==> forall|i: int|
                0 <= i < keywords["allOf"@]->Array_0.len() ==> accepted_below(
                    formats,
                    #[trigger] keywords["allOf"@]->Array_0[i],
                    value,
                    levels,
                )
            &&& keywords.contains_key("anyOf"@) ==> exists|i: int|
                0 <= i < keywords["anyOf"@]->Array_0.len() && accepted_below(
                    formats,
                    #[trigger] keywords["anyOf"@]->Array_0[i],
                    value,
                    levels,
                )
            &&& keywords.contains_key("oneOf"@) ==> exists|i: int|
                0 <= i < keywords["oneOf"@]->Array_0.len() && accepted_below(
                    formats,
                    #[trigger] keywords["oneOf"@]->Array_0[i],
                    value,
                    levels,
                ) && forall|j: int|
                    0 <= j < keywords["oneOf"@]->Array_0.len() && accepted_below(
                        formats,
                        #[trigger] keywords["oneOf"@]->Array_0[j],
                        value,
                        levels,
                    ) ==> i == j
        },
        _ => false,
    }
}

/// The template of a schema as it is sent: without its `null` members.
pub open spec fn sent_template(
    doc: OpenApiDoc,
    schema: RawSchema,
    seen: Set<Seq<char>>,
    depth: nat,
    stripped: nat,
) -> Json {
    without_nulls(skeleton::skeleton(doc, schema, seen, depth), stripped)
}

/// Whether a member of a combined schema takes the template, which is that of the leading
/// member `first`.
pub open spec fn member_takes(
    formats: spec_fn(Seq<char>, Seq<char>) -> bool,
    doc: OpenApiDoc,
    first: RawSchema,
    member: RawSchema,
    leads: bool,
    seen: Set<Seq<char>>,
    depth: nat,
    stripped: nat,
    levels: nat,
) -> bool
    decreases SKELETON_MAX_DEPTH + 1 - depth, 0int,
{
    if depth > SKELETON_MAX_DEPTH || levels == 0 {
        false
    } else if leads {
        one_placeholder_fits(
            formats,
            doc,
            member,
            seen,
            depth + 1,
            stripped,
            (levels - 1) as nat,
        )
    } else {
        accepted(
            formats,
            json_schema::json_schema(doc, member, seen, depth + 1),
            sent_template(doc, first, seen, depth + 1, stripped),
            (levels - 1) as nat,
        )
    }
}

/// Whether one placeholder is enough to satisfy a schema: the members of every combinator
/// take the placeholder of the leading member as the combinator demands, no enumeration is
/// empty, the format of a text accepts the empty text, and every required field has a
/// fitting placeholder other than `null`.
pub open spec fn one_placeholder_fits(
    formats: spec_fn(Seq<char>, Seq<char>) -> bool,
    doc: OpenApiDoc,
    schema: RawSchema,
    seen: Set<Seq<char>>,
    depth: nat,
    stripped: nat,
    levels: nat,
) -> bool
    decreases SKELETON_MAX_DEPTH + 1 - depth, 1int,
{
    let below = (levels - 1) as nat;
    let inside = (stripped - 1) as nat;
    if depth > SKELETON_MAX_DEPTH {
        true
    } else if schema.reference is Some {
        let name = text::after_last(schema.reference->0@, '/');
        if seen.contains(name) || !doc.components.schemas@.contains_key(name) {
            true
        } else {
            one_placeholder_fits(
                formats,
                doc,
                doc.components.schemas@[name],
                seen.insert(name),
                depth + 1,
                stripped,
                levels,
            )
        }
    } else if json_schema::is_combined(schema) {
        let first = skeleton::leading_member(schema)->0;
        let all_leads = skeleton::first_of(schema.all_of) is Some;
        let one_leads = !all_leads && skeleton::first_of(schema.one_of) is Some;
        let any_leads = !all_leads && !one_leads;
        let all = schema.all_of->0@;
        let one = schema.one_of->0@;
        let any = schema.any_of->0@;
        &&& schema.all_of is Some ==> forall|i: int|
            0 <= i < all.len() ==> member_takes(
                formats,
                doc,
                first,
                #[trigger] all[i],
                all_leads && i == 0,
                seen,
                depth,
                stripped,
                levels,
            )
        &&& schema.one_of is Some ==> exists|i: int|
            0 <= i < one.len() && member_takes(
                formats,
                doc,
                first,
                #[trigger] one[i],
                one_leads && i == 0,
                seen,
                depth,
                stripped,
                levels,
            ) && forall|j: int|
                0 <= j < one.len() && member_takes(
                    formats,
                    doc,
                    first,
                    #[trigger] one[j],
                    one_leads && j == 0,
                    seen,
                    depth,
                    stripped,
                    levels,
                ) ==> i == j
        &&& schema.any_of is Some ==> exists|i: int|
            0 <= i < any.len() && member_takes(
                formats,
                doc,
                first,
                #[trigger] any[i],
                any_leads && i == 0,
                seen,
                depth,
                stripped,
                levels,
            )
    } else if schema.enum_values is Some {
        schema.enum_values->0@.len() > 0
    } else {
        let kind = text::opt_text(schema.schema_type);
        if kind == Some("string"@) {
            schema.format is Some ==> formats(schema.format->0@, Seq::empty())
        } else if kind == Some("array"@) && schema.items is Some {
            one_placeholder_fits(
                formats,
                doc,
                *schema.items->0,
                seen,
                depth + 1,
                inside,
                below,
            )
        } else if (kind == Some("object"@) || kind is None) && schema.properties is Some {
            let properties = schema.properties->0@;
            forall|name: Seq<char>|
                skeleton::writable(properties, name) && skeleton::required_names(schema).contains(
                    name,
                ) ==> one_placeholder_fits(
                    formats,
                    doc,
                    #[trigger] properties[name],
                    seen,
                    depth + 1,
                    inside,
                    below,
                ) && skeleton::skeleton(doc, properties[name], seen, depth + 1) != Json::Null
        } else {
            true
        }
    }
}

/// A raw template is valid input: it satisfies the validation schema of the same request
/// body, once its `null` members are dropped, wherever one placeholder can be enough.
pub proof fn a_raw_template_is_valid_input(
    formats: spec_fn(Seq<char>, Seq<char>) -> bool,
    doc: OpenApiDoc,
    schema: RawSchema,
    seen: Set<Seq<char>>,
    depth: nat,
    stripped: nat,
    levels: nat,
)
    requires
        one_placeholder_fits(formats, doc, schema, seen, depth, stripped, levels),
        depth + stripped > SKELETON_MAX_DEPTH,
        depth + levels > SKELETON_MAX_DEPTH,
    ensures
        accepted(
            formats,
            json_schema::json_schema(doc, schema, seen, depth),
            sent_template(doc, schema, seen, depth, stripped),
            levels,
        ),
{
    lemma_valid_where_it_fits(formats, doc, schema, seen, depth, stripped, levels);
}

/// Where one placeholder cannot be enough, the raw template is refused.
pub proof fn another_template_is_refused(
    formats: spec_fn(Seq<char>, Seq<char>) -> bool,
    doc: OpenApiDoc,
    schema: RawSchema,
    seen: Set<Seq<char>>,
    depth: nat,
    stripped: nat,
    levels: nat,
)
    requires
        !one_placeholder_fits(formats, doc, schema, seen, depth, stripped, levels),
        depth + stripped > SKELETON_MAX_DEPTH,
        depth + levels > SKELETON_MAX_DEPTH,
    ensures
        !accepted(
            formats,
            json_schema::json_schema(doc, schema, seen, depth),
            sent_template(doc, schema, seen, depth, stripped),
            levels,
        ),
{
    lemma_valid_where_it_fits(formats, doc, schema, seen, depth, stripped, levels);
}

proof fn lemma_valid_where_it_fits(
    formats: spec_fn(Seq<char>, Seq<char>) -> bool,
    doc: OpenApiDoc,
    schema: RawSchema,
    seen: Set<Seq<char>>,
    depth: nat,
    stripped: nat,
    levels: nat,
)
    requires
        depth + stripped > SKELETON_MAX_DEPTH,
        depth + levels > SKELETON_MAX_DEPTH,
    ensures
        accepted(
            formats,
            json_schema::json_schema(doc, schema, seen, depth),
            sent_template(doc, schema, seen, depth, stripped),
            levels,
        ) == one_placeholder_fits(formats, doc, schema, seen, depth, stripped, levels),
    decreases SKELETON_MAX_DEPTH + 1 - depth, 2int,
{
    let node = json_schema::json_schema(doc, schema, seen, depth);
    let template = skeleton::skeleton(doc, schema, seen, depth);
    let value = without_nulls(template, stripped);
    json_schema::keywords_differ();
    skeleton::object_is_no_scalar();
    lemma_types_differ();
    reveal_with_fuel(json_schema::json_schema, 2);
    reveal_with_fuel(accepted, 2);
    reveal_with_fuel(one_placeholder_fits, 2);
    if depth > SKELETON_MAX_DEPTH {
    } else if schema.reference is Some {
        let name = text::after_last(schema.reference->0@, '/');
        if !seen.contains(name) && doc.components.schemas@.contains_key(name) {
            lemma_valid_where_it_fits(
                formats,
                doc,
                doc.components.schemas@[name],
                seen.insert(name),
                depth + 1,
                stripped,
                levels,
            );
        }
    } else if json_schema::is_combined(schema) {
        lemma_combined_where_it_fits(formats, doc, schema, seen, depth, stripped, levels);
    } else if schema.enum_values is Some {
        let values = text::texts(schema.enum_values->0@);
        let listed = node->Object_0["enum"@]->Array_0;
        if values.len() > 0 {
            assert(listed[0] == Json::Str(values[0]));
            assert(listed[0] == value);
        } else {
            assert(listed.len() == 0);
        }
    } else {
        let kind = text::opt_text(schema.schema_type);
        if kind == Some("array"@) && schema.items is Some {
            lemma_valid_where_it_fits(
                formats,
                doc,
                *schema.items->0,
                seen,
                depth + 1,
                (stripped - 1) as nat,
                (levels - 1) as nat,
            );
            assert(value->Array_0[0] == sent_template(
                doc,
                *schema.items->0,
                seen,
                depth + 1,
                (stripped - 1) as nat,
            ));
        } else if (kind == Some("object"@) || kind is None) && schema.properties is Some {
            lemma_object_where_it_fits(formats, doc, schema, seen, depth, stripped, levels);
        }
    }
}

proof fn lemma_types_differ()
    ensures
        "string"@ != "integer"@ && "string"@ != "number"@ && "string"@ != "boolean"@,
        "string"@ != "array"@ && "integer"@ != "number"@ && "integer"@ != "boolean"@,
        "integer"@ != "array"@ && "number"@ != "boolean"@ && "number"@ != "array"@,
        "boolean"@ != "array"@,
{
    reveal_strlit("string");
    reveal_strlit("integer");
    reveal_strlit("number");
    reveal_strlit("boolean");
    reveal_strlit("array");
    assert("string"@[0] == 's');
    assert("integer"@[0] == 'i');
    assert("number"@[0] == 'n');
    assert("boolean"@[0] == 'b');
    assert("array"@[0] == 'a');
}

/// A member takes the template where its validation schema accepts it.
proof fn lemma_member_takes(
    formats: spec_fn(Seq<char>, Seq<char>) -> bool,
    doc: OpenApiDoc,
    schema: RawSchema,
    member: RawSchema,
    leads: bool,
    seen: Set<Seq<char>>,
    depth: nat,
    stripped: nat,
    levels: nat,
)
    requires
        depth <= SKELETON_MAX_DEPTH,
        depth + stripped > SKELETON_MAX_DEPTH,
        depth + levels > SKELETON_MAX_DEPTH,
        schema.reference is None,
        skeleton::leading_member(schema) is Some,
        leads ==> member == skeleton::leading_member(schema)->0,
    ensures
        accepted_below(
            formats,
            json_schema::json_schema(doc, member, seen, depth + 1),
            sent_template(doc, schema, seen, depth, stripped),
            levels,
        ) == member_takes(
            formats,
            doc,
            skeleton::leading_member(schema)->0,
            member,
            leads,
            seen,
            depth,
            stripped,
            levels,
        ),
    decreases SKELETON_MAX_DEPTH + 1 - depth, 0int,
{
    reveal_with_fuel(accepted, 2);
    reveal_with_fuel(one_placeholder_fits, 2);
    if leads {
        lemma_valid_where_it_fits(
            formats,
            doc,
            member,
            seen,
            depth + 1,
            stripped,
            (levels - 1) as nat,
        );
    }
}

proof fn lemma_combined_where_it_fits(
    formats: spec_fn(Seq<char>, Seq<char>) -> bool,
    doc: OpenApiDoc,
    schema: RawSchema,
    seen: Set<Seq<char>>,
    depth: nat,
    stripped: nat,
    levels: nat,
)
    requires
        depth <= SKELETON_MAX_DEPTH,
        depth + stripped > SKELETON_MAX_DEPTH,
        depth + levels > SKELETON_MAX_DEPTH,
        schema.reference is None,
        json_schema::is_combined(schema),
    ensures
        accepted(
            formats,
            json_schema::json_schema(doc, schema, seen, depth),
            sent_template(doc, schema, seen, depth, stripped),
            levels,
        ) == one_placeholder_fits(formats, doc, schema, seen, depth, stripped, levels),
    decreases SKELETON_MAX_DEPTH + 1 - depth, 1int,
{
    let node = json_schema::json_schema(doc, schema, seen, depth)->Object_0;
    let value = sent_template(doc, schema, seen, depth, stripped);
    let first = skeleton::leading_member(schema)->0;
    let all_leads = skeleton::first_of(schema.all_of) is Some;
    let one_leads = !all_leads && skeleton::first_of(schema.one_of) is Some;
    let any_leads = !all_leads && !one_leads;
    let all = schema.all_of->0@;
    let one = schema.one_of->0@;
    let any = schema.any_of->0@;
    json_schema::keywords_differ();
    json_schema::combinators_keep_every_member(doc, schema, seen, depth);
    reveal_with_fuel(json_schema::json_schema, 2);
    reveal_with_fuel(accepted, 2);
    reveal_with_fuel(one_placeholder_fits, 2);
    if schema.all_of is Some {
        assert forall|i: int| 0 <= i < all.len() implies accepted_below(
            formats,
            node["allOf"@]->Array_0[i],
            value,
            levels,
        ) == member_takes(
            formats,
            doc,
            first,
            #[trigger] all[i],
            all_leads && i == 0,
            seen,
            depth,
            stripped,
            levels,
        ) by {
            lemma_member_takes(
                formats,
                doc,
                schema,
                all[i],
                all_leads && i == 0,
                seen,
                depth,
                stripped,
                levels,
            );
        }
    }
    if schema.one_of is Some {
        assert forall|i: int| 0 <= i < one.len() implies accepted_below(
            formats,
            node["oneOf"@]->Array_0[i],
            value,
            levels,
        ) == member_takes(
            formats,
            doc,
            first,
            #[trigger] one[i],
            one_leads && i == 0,
            seen,
            depth,
            stripped,
            levels,
        ) by {
            lemma_member_takes(
                formats,
                doc,
                schema,
                one[i],
                one_leads && i == 0,
                seen,
                depth,
                stripped,
                levels,
            );
        }
    }
    if schema.any_of is Some {
        assert forall|i: int| 0 <= i < any.len() implies accepted_below(
            formats,
            node["anyOf"@]->Array_0[i],
            value,
            levels,
        ) == member_takes(
            formats,
            doc,
            first,
            #[trigger] any[i],
            any_leads && i == 0,
            seen,
            depth,
            stripped,
            levels,
        ) by {
            lemma_member_takes(
                formats,
                doc,
                schema,
                any[i],
                any_leads && i == 0,
                seen,
                depth,
                stripped,
                levels,
            );
        }
    }
    let fits = one_placeholder_fits(formats, doc, schema, seen, depth, stripped, levels);
    let valid = accepted(formats, Json::Object(node), value, levels);
    if valid {
        if schema.all_of is Some {
            assert forall|i: int| 0 <= i < all.len() implies member_takes(
                formats,
                doc,
                first,
                #[trigger] all[i],
                all_leads && i == 0,
                seen,
                depth,
                stripped,
                levels,
            ) by {
                assert(accepted_below(formats, node["allOf"@]->Array_0[i], value, levels));
            }
        }
        if schema.one_of is Some {
            let listed = node["oneOf"@]->Array_0;
            let i = choose|i: int|
                0 <= i < listed.len() && accepted_below(
                    formats,
                    #[trigger] listed[i],
                    value,
                    levels,
                );
            assert(member_takes(
                formats,
                doc,
                first,
                one[i],
                one_leads && i == 0,
                seen,
                depth,
                stripped,
                levels,
            ));
            assert forall|j: int|
                0 <= j < one.len() && member_takes(
                    formats,
                    doc,
                    first,
                    #[trigger] one[j],
                    one_leads && j == 0,
                    seen,
                    depth,
                    stripped,
                    levels,
                ) implies i == j by {
                assert(accepted_below(formats, node["oneOf"@]->Array_0[j], value, levels));
            }
        }
        if schema.any_of is Some {
            let listed = node["anyOf"@]->Array_0;
            let i = choose|i: int|
                0 <= i < listed.len() && accepted_below(
                    formats,
                    #[trigger] listed[i],
                    value,
                    levels,
                );
            assert(member_takes(
                formats,
                doc,
                first,
                any[i],
                any_leads && i == 0,
                seen,
                depth,
                stripped,
                levels,
            ));
        }
        assert(fits);
    }
    if fits {
        if schema.all_of is Some {
            assert forall|i: int| 0 <= i < node["allOf"@]->Array_0.len() implies accepted_below(
                formats,
                #[trigger] node["allOf"@]->Array_0[i],
                value,
                levels,
            ) by {
                assert(member_takes(
                    formats,
                    doc,
                    first,
                    all[i],
                    all_leads && i == 0,
                    seen,
                    depth,
                    stripped,
                    levels,
                ));
            }
        }
        if schema.one_of is Some {
            let i = choose|i: int|
                0 <= i < one.len() && member_takes(
                    formats,
                    doc,
                    first,
                    #[trigger] one[i],
                    one_leads && i == 0,
                    seen,
                    depth,
                    stripped,
                    levels,
                );
            assert(accepted_below(formats, node["oneOf"@]->Array_0[i], value, levels));
            assert forall|j: int|
                0 <= j < node["oneOf"@]->Array_0.len() && accepted_below(
                    formats,
                    #[trigger] node["oneOf"@]->Array_0[j],
                    value,
                    levels,
                ) implies i == j by {
                assert(member_takes(
                    formats,
                    doc,
                    first,
                    one[j],
                    one_leads && j == 0,
                    seen,
                    depth,
                    stripped,
                    levels,
                ));
            }
        }
        if schema.any_of is Some {
            let i = choose|i: int|
                0 <= i < any.len() && member_takes(
                    formats,
                    doc,
                    first,
                    #[trigger] any[i],
                    any_leads && i == 0,
                    seen,
                    depth,
                    stripped,
                    levels,
                );
            assert(accepted_below(formats, node["anyOf"@]->Array_0[i], value, levels));
        }
        assert(valid);
    }
}

proof fn lemma_object_where_it_fits(
    formats: spec_fn(Seq<char>, Seq<char>) -> bool,
    doc: OpenApiDoc,
    schema: RawSchema,
    seen: Set<Seq<char>>,
    depth: nat,
    stripped: nat,
    levels: nat,
)
    requires
        depth <= SKELETON_MAX_DEPTH,
        depth + stripped > SKELETON_MAX_DEPTH,
        depth + levels > SKELETON_MAX_DEPTH,
        skeleton::is_plain_object(schema),
    ensures
        accepted(
            formats,
            json_schema::json_schema(doc, schema, seen, depth),
            sent_template(doc, schema, seen, depth, stripped),
            levels,
        ) == one_placeholder_fits(formats, doc, schema, seen, depth, stripped, levels),
    decreases SKELETON_MAX_DEPTH + 1 - depth, 0int,
{
    let properties = schema.properties->0@;
    let node = json_schema::json_schema(doc, schema, seen, depth)->Object_0;
    let template = skeleton::skeleton(doc, schema, seen, depth)->Object_0;
    let value = without_nulls(Json::Object(template), stripped)->Object_0;
    let described = json_schema::property_schemas(doc, properties, seen, depth);
    let required = json_schema::enforced_names(schema, described);
    let below = (levels - 1) as nat;
    let inside = (stripped - 1) as nat;
    json_schema::keywords_differ();
    skeleton::object_is_no_scalar();
    lemma_types_differ();
    reveal_with_fuel(json_schema::json_schema, 2);
    reveal_with_fuel(accepted, 2);
    reveal_with_fuel(one_placeholder_fits, 2);
    assert(node["properties"@] == Json::Object(described));
    assert(node["required"@] == json::json_strings(required));
    let listed = node["required"@]->Array_0;
    assert forall|name: Seq<char>| skeleton::writable(properties, name) implies {
        &&& #[trigger] described.contains_key(name)
        &&& value.contains_key(name) <==> skeleton::required_names(schema).contains(name)
            && skeleton::skeleton(doc, properties[name], seen, depth + 1) != Json::Null
        &&& value.contains_key(name) ==> accepted_below(
            formats,
            described[name],
            value[name],
            levels,
        ) == one_placeholder_fits(
            formats,
            doc,
            properties[name],
            seen,
            depth + 1,
            inside,
            below,
        )
    } by {
        skeleton::object_template_has_the_writable_properties(doc, schema, seen, depth, name);
        lemma_valid_where_it_fits(
            formats,
            doc,
            properties[name],
            seen,
            depth + 1,
            inside,
            below,
        );
    }
    assert forall|name: Seq<char>| #[trigger] value.contains_key(name) implies skeleton::writable(
        properties,
        name,
    ) by {
        skeleton::object_template_has_the_writable_properties(doc, schema, seen, depth, name);
    }
    assert forall|name: Seq<char>| #[trigger] required.contains(name) <==> skeleton::writable(
        properties,
        name,
    ) && skeleton::required_names(schema).contains(name) by {
        json_schema::template_and_validation_schema_agree(doc, schema, seen, depth, name);
        skeleton::object_template_has_the_writable_properties(doc, schema, seen, depth, name);
    }
    assert(listed.len() == required.len());
    assert forall|i: int| 0 <= i < listed.len() implies (#[trigger] listed[i])->Str_0
        == required[i] by {
        assert(listed[i] == Json::Str(required[i]));
    }
    let fits = one_placeholder_fits(formats, doc, schema, seen, depth, stripped, levels);
    let valid = accepted(formats, Json::Object(node), Json::Object(value), levels);
    if fits {
        assert forall|i: int| 0 <= i < listed.len() implies value.contains_key(
            (#[trigger] listed[i])->Str_0,
        ) by {
            assert(required.contains(required[i]));
            assert(skeleton::writable(properties, required[i]));
        }
        assert(valid);
    }
    if valid {
        assert forall|name: Seq<char>|
            skeleton::writable(properties, name) && skeleton::required_names(schema).contains(
                name,
            ) implies one_placeholder_fits(
            formats,
            doc,
            #[trigger] properties[name],
            seen,
            depth + 1,
            inside,
            below,
        ) && skeleton::skeleton(doc, properties[name], seen, depth + 1) != Json::Null by {
            assert(required.contains(name));
            let i = choose|i: int| 0 <= i < required.len() && required[i] == name;
            assert(value.contains_key(listed[i]->Str_0));
            assert(described.contains_key(name));
            assert(accepted_below(formats, described[name], value[name], levels));
        }
        assert(fits);
    }
}

} // verus!
