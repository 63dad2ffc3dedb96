//! Templates and validation schemas are the same in every run: they do not depend on the
//! order in which the names of an API schema are walked.
use crate::json_schema;
use crate::schema::{OpenApiDoc, RawSchema};
use crate::skeleton;
use crate::skeleton::SKELETON_MAX_DEPTH;
use crate::text;
use vstd::prelude::*;

verus! {

/// The texts of an optional list.
pub open spec fn opt_texts(strings: Option<Vec<String>>) -> Option<Seq<Seq<char>>> {
    match strings {
        Some(list) => Some(text::texts(list@)),
        None => None,
    }
}

/// Whether two optional lists of schemas are alike, member by member.
pub open spec fn lists_alike(
    a: Option<Vec<RawSchema>>,
    b: Option<Vec<RawSchema>>,
    levels: nat,
) -> bool
    decreases levels, 0int,
{
    &&& a is Some <==> b is Some
    &&& a is Some ==> a->0@.len() == b->0@.len() && forall|i: int|
        0 <= i < a->0@.len() ==> levels > 0 && alike(
            #[trigger] a->0@[i],
            b->0@[i],
            (levels - 1) as nat,
        )
}

/// Whether two schemas say the same, up to `levels` schemas inside one another. Their
/// properties are the same by name; the order of the names is left out.
pub open spec fn alike(a: RawSchema, b: RawSchema, levels: nat) -> bool
    decreases levels, 1int,
{
    &&& text::opt_text(a.schema_type) == text::opt_text(b.schema_type)
    &&& text::opt_text(a.reference) == text::opt_text(b.reference)
    &&& text::opt_text(a.format) == text::opt_text(b.format)
    &&& opt_texts(a.enum_values) == opt_texts(b.enum_values)
    &&& opt_texts(a.required) == opt_texts(b.required)
    &&& a.read_only == b.read_only
    &&& levels > 0 ==> {
        &&& lists_alike(a.all_of, b.all_of, levels)
        &&& lists_alike(a.one_of, b.one_of, levels)
        &&& lists_alike(a.any_of, b.any_of, levels)
        &&& a.items is Some <==> b.items is Some
        &&& a.items is Some ==> alike(*a.items->0, *b.items->0, (levels - 1) as nat)
        &&& a.properties is Some <==> b.properties is Some
        &&& a.properties is Some ==> a.properties->0@.dom() == b.properties->0@.dom()
            && forall|name: Seq<char>|
            a.properties->0@.contains_key(name) ==> alike(
                #[trigger] a.properties->0@[name],
                b.properties->0@[name],
                (levels - 1) as nat,
            )
    }
}

/// Schemas that say the same do so both ways.
pub proof fn alike_both_ways(a: RawSchema, b: RawSchema, levels: nat)
    requires
        alike(a, b, levels),
    ensures
        alike(b, a, levels),
    decreases levels, 1int,
{
    if levels > 0 {
        lemma_lists_both_ways(a.all_of, b.all_of, levels);
        lemma_lists_both_ways(a.one_of, b.one_of, levels);
        lemma_lists_both_ways(a.any_of, b.any_of, levels);
        let below = (levels - 1) as nat;
        if a.items is Some {
            alike_both_ways(*a.items->0, *b.items->0, below);
        }
        if a.properties is Some {
            let props_a = a.properties->0@;
            let props_b = b.properties->0@;
            assert forall|name: Seq<char>| props_b.contains_key(name) implies alike(
                #[trigger] props_b[name],
                props_a[name],
                below,
            ) by {
                assert(props_a.contains_key(name));
                alike_both_ways(props_a[name], props_b[name], below);
            }
        }
    }
}

proof fn lemma_lists_both_ways(a: Option<Vec<RawSchema>>, b: Option<Vec<RawSchema>>, levels: nat)
    requires
        levels > 0,
        lists_alike(a, b, levels),
    ensures
        lists_alike(b, a, levels),
    decreases levels, 0int,
{
    if a is Some {
        assert forall|i: int| 0 <= i < b->0@.len() implies alike(
            #[trigger] b->0@[i],
            a->0@[i],
            (levels - 1) as nat,
        ) by {
            assert(alike(a->0@[i], b->0@[i], (levels - 1) as nat));
            alike_both_ways(a->0@[i], b->0@[i], (levels - 1) as nat);
        }
    }
}

/// Whether two API schemas have the same named schemas, in whatever order.
pub open spec fn same_schemas(a: OpenApiDoc, b: OpenApiDoc) -> bool {
    &&& a.components.schemas@.dom() == b.components.schemas@.dom()
    &&& forall|name: Seq<char>, levels: nat|
        a.components.schemas@.contains_key(name) ==> #[trigger] alike(
            a.components.schemas@[name],
            b.components.schemas@[name],
            levels,
        )
}

proof fn lemma_same_template(
    doc_a: OpenApiDoc,
    doc_b: OpenApiDoc,
    a: RawSchema,
    b: RawSchema,
    seen: Set<Seq<char>>,
    depth: nat,
)
    requires
        same_schemas(doc_a, doc_b),
        depth <= SKELETON_MAX_DEPTH ==> alike(a, b, (SKELETON_MAX_DEPTH + 1 - depth) as nat),
    ensures
        skeleton::skeleton(doc_a, a, seen, depth) == skeleton::skeleton(doc_b, b, seen, depth),
    decreases SKELETON_MAX_DEPTH + 1 - depth,
{
    if depth <= SKELETON_MAX_DEPTH {
        let levels = (SKELETON_MAX_DEPTH + 1 - depth) as nat;
        let below = (levels - 1) as nat;
        reveal_with_fuel(alike, 2);
        reveal_with_fuel(skeleton::placeholder, 2);
        let all_a = doc_a.components.schemas@;
        let all_b = doc_b.components.schemas@;
        if a.reference is Some {
            let name = text::after_last(a.reference->0@, '/');
            if all_a.contains_key(name) {
                assert(all_b.contains_key(name));
                assert(alike(all_a[name], all_b[name], below));
                lemma_same_template(
                    doc_a,
                    doc_b,
                    all_a[name],
                    all_b[name],
                    seen.insert(name),
                    depth + 1,
                );
            } else {
                assert(!all_b.contains_key(name));
            }
        } else if skeleton::leading_member(a) is Some {
            let first_a = skeleton::leading_member(a)->0;
            let first_b = skeleton::leading_member(b)->0;
            assert(alike(first_a, first_b, below));
            lemma_same_template(doc_a, doc_b, first_a, first_b, seen, depth + 1);
        } else {
            if a.enum_values is Some && a.enum_values->0@.len() > 0 {
                assert(text::texts(a.enum_values->0@)[0] == text::texts(b.enum_values->0@)[0]);
            }
            if a.enum_values is Some {
                assert(text::texts(a.enum_values->0@).len() == text::texts(
                    b.enum_values->0@,
                ).len());
            }
            if a.items is Some {
                lemma_same_template(doc_a, doc_b, *a.items->0, *b.items->0, seen, depth + 1);
            }
            if a.properties is Some {
                let props_a = a.properties->0@;
                let props_b = b.properties->0@;
                assert(skeleton::required_names(a) == skeleton::required_names(b));
                assert forall|name: Seq<char>| #[trigger] skeleton::writable(props_a, name)
                    == skeleton::writable(props_b, name) by {
                    assert(props_a.contains_key(name) == props_b.contains_key(name));
                    if props_a.contains_key(name) {
                        assert(alike(props_a[name], props_b[name], below));
                    }
                }
                assert forall|name: Seq<char>| props_a.contains_key(name) implies
                    skeleton::placeholder(doc_a, a, #[trigger] props_a[name], name, seen, depth)
                    == skeleton::placeholder(doc_b, b, props_b[name], name, seen, depth) by {
                    lemma_same_template(
                        doc_a,
                        doc_b,
                        props_a[name],
                        props_b[name],
                        seen,
                        depth + 1,
                    );
                }
                let made_a = skeleton::skeleton(doc_a, a, seen, depth);
                let made_b = skeleton::skeleton(doc_b, b, seen, depth);
                if made_a is Object {
                    let members_a = made_a->Object_0;
                    let members_b = made_b->Object_0;
                    assert forall|name: Seq<char>| #[trigger] members_a.contains_key(
                        name,
                    ) implies members_a[name] == members_b[name] by {
                        assert(skeleton::writable(props_a, name));
                        assert(members_a[name] == skeleton::placeholder(
                            doc_a,
                            a,
                            props_a[name],
                            name,
                            seen,
                            depth,
                        ));
                        assert(members_b[name] == skeleton::placeholder(
                            doc_b,
                            b,
                            props_b[name],
                            name,
                            seen,
                            depth,
                        ));
                    }
                    assert(members_a =~= members_b);
                }
            }
        }
    }
}

/// The template of a named schema is the same whatever order names come in.
pub proof fn templates_do_not_depend_on_order(a: OpenApiDoc, b: OpenApiDoc, name: Seq<char>)
    requires
        same_schemas(a, b),
    ensures
        skeleton::request_skeleton(a, name) == skeleton::request_skeleton(b, name),
{
    assert(a.components.schemas@.contains_key(name) == b.components.schemas@.contains_key(name));
    if a.components.schemas@.contains_key(name) {
        let schema_a = a.components.schemas@[name];
        let schema_b = b.components.schemas@[name];
        assert(alike(schema_a, schema_b, (SKELETON_MAX_DEPTH + 1) as nat));
        lemma_same_template(a, b, schema_a, schema_b, Set::empty().insert(name), 0);
    }
}

/// An order template is the same whatever order names come in.
pub proof fn order_templates_do_not_depend_on_order(
    a: OpenApiDoc,
    b: OpenApiDoc,
    offering_type: Option<Seq<char>>,
)
    requires
        same_schemas(a, b),
    ensures
        skeleton::order_skeleton(a, offering_type) == skeleton::order_skeleton(b, offering_type),
{
    templates_do_not_depend_on_order(a, b, "OrderCreateRequest"@);
    templates_do_not_depend_on_order(a, b, skeleton::attributes_schema(offering_type));
}

proof fn lemma_same_validation(
    doc_a: OpenApiDoc,
    doc_b: OpenApiDoc,
    a: RawSchema,
    b: RawSchema,
    seen: Set<Seq<char>>,
    depth: nat,
)
    requires
        same_schemas(doc_a, doc_b),
        depth <= SKELETON_MAX_DEPTH ==> alike(a, b, (SKELETON_MAX_DEPTH + 1 - depth) as nat),
    ensures
        json_schema::json_schema(doc_a, a, seen, depth) == json_schema::json_schema(
            doc_b,
            b,
            seen,
            depth,
        ),
    decreases SKELETON_MAX_DEPTH + 1 - depth, 1int,
{
    if depth <= SKELETON_MAX_DEPTH {
        let levels = (SKELETON_MAX_DEPTH + 1 - depth) as nat;
        let below = (levels - 1) as nat;
        reveal_with_fuel(alike, 2);
        reveal_with_fuel(json_schema::json_schema, 2);
        let all_a = doc_a.components.schemas@;
        let all_b = doc_b.components.schemas@;
        if a.reference is Some {
            let name = text::after_last(a.reference->0@, '/');
            if all_a.contains_key(name) {
                assert(all_b.contains_key(name));
                assert(alike(all_a[name], all_b[name], below));
                lemma_same_validation(
                    doc_a,
                    doc_b,
                    all_a[name],
                    all_b[name],
                    seen.insert(name),
                    depth + 1,
                );
            } else {
                assert(!all_b.contains_key(name));
            }
        } else if json_schema::is_combined(a) {
            lemma_same_members(doc_a, doc_b, a.all_of, b.all_of, seen, depth);
            lemma_same_members(doc_a, doc_b, a.one_of, b.one_of, seen, depth);
            lemma_same_members(doc_a, doc_b, a.any_of, b.any_of, seen, depth);
        } else if a.enum_values is Some {
        } else {
            if a.items is Some {
                lemma_same_validation(doc_a, doc_b, *a.items->0, *b.items->0, seen, depth + 1);
            }
            if a.properties is Some {
                let props_a = a.properties->0@;
                let props_b = b.properties->0@;
                let described_a = json_schema::property_schemas(doc_a, props_a, seen, depth);
                let described_b = json_schema::property_schemas(doc_b, props_b, seen, depth);
                assert(skeleton::required_names(a) == skeleton::required_names(b));
                assert forall|name: Seq<char>|
                    described_a.contains_key(name) == described_b.contains_key(name) && (
                    described_a.contains_key(name) ==> #[trigger] described_a[name]
                        == described_b[name]) by {
                    assert(props_a.contains_key(name) == props_b.contains_key(name));
                    if props_a.contains_key(name) {
                        assert(alike(props_a[name], props_b[name], below));
                        lemma_same_validation(
                            doc_a,
                            doc_b,
                            props_a[name],
                            props_b[name],
                            seen,
                            depth + 1,
                        );
                    }
                }
                assert(described_a =~= described_b);
            }
        }
    }
}

proof fn lemma_same_members(
    doc_a: OpenApiDoc,
    doc_b: OpenApiDoc,
    a: Option<Vec<RawSchema>>,
    b: Option<Vec<RawSchema>>,
    seen: Set<Seq<char>>,
    depth: nat,
)
    requires
        same_schemas(doc_a, doc_b),
        depth <= SKELETON_MAX_DEPTH,
        lists_alike(a, b, (SKELETON_MAX_DEPTH + 1 - depth) as nat),
    ensures
        a is Some ==> json_schema::all_schemas(doc_a, a->0@, seen, depth)
            == json_schema::all_schemas(doc_b, b->0@, seen, depth),
    decreases SKELETON_MAX_DEPTH + 1 - depth, 0int,
{
    if a is Some {
        let described_a = json_schema::all_schemas(doc_a, a->0@, seen, depth);
        let described_b = json_schema::all_schemas(doc_b, b->0@, seen, depth);
        assert forall|i: int| 0 <= i < a->0@.len() implies described_a[i] == described_b[i] by {
            assert(alike(a->0@[i], b->0@[i], (SKELETON_MAX_DEPTH - depth) as nat));
            lemma_same_validation(doc_a, doc_b, a->0@[i], b->0@[i], seen, depth + 1);
        }
        assert(described_a =~= described_b);
    }
}

/// The validation schema of a named schema is the same whatever order names come in.
pub proof fn validation_does_not_depend_on_order(a: OpenApiDoc, b: OpenApiDoc, name: Seq<char>)
    requires
        same_schemas(a, b),
        a.components.schemas@.contains_key(name),
    ensures
        json_schema::request_json_schema(a, name) == json_schema::request_json_schema(b, name),
{
    let schema_a = a.components.schemas@[name];
    let schema_b = b.components.schemas@[name];
    assert(alike(schema_a, schema_b, (SKELETON_MAX_DEPTH + 1) as nat));
    lemma_same_validation(a, b, schema_a, schema_b, Set::empty().insert(name), 0);
}

} // verus!
