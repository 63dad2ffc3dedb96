//! What holds of the reference pages as a whole.
use crate::manifest;
use crate::manifest::{Group, Manifest, Resource};
use crate::order;
use crate::reference_docs;
use crate::reference_docs::{DocInputs, Docs, Entry, Page};
use crate::reference_pages;
use crate::schema;
use crate::schema::{Action, Operation, Param};
use crate::schema_codegen;
use crate::text;
use crate::verb_codegen;
use vstd::prelude::*;

verus! {

/// The path of the page that the index links to for a verb.
pub open spec fn link_target(group: Seq<char>, resource: Seq<char>, verb: Seq<char>) -> Seq<char> {
    reference_pages::page_path(group, resource, reference_pages::typed_verb(verb))
}

/// Whether pages stand exactly at the link targets of verbs, one for each, in order.
pub open spec fn pages_match(
    group: Seq<char>,
    resource: Seq<char>,
    verbs: Seq<Seq<char>>,
    pages: Seq<Page>,
) -> bool {
    verbs.len() == pages.len() && forall|i: int|
        0 <= i < pages.len() ==> (#[trigger] pages[i]).relative_path == link_target(
            group,
            resource,
            verbs[i],
        )
}

proof fn lemma_match_both(
    group: Seq<char>,
    resource: Seq<char>,
    verbs: Seq<Seq<char>>,
    pages: Seq<Page>,
    more_verbs: Seq<Seq<char>>,
    more_pages: Seq<Page>,
)
    requires
        pages_match(group, resource, verbs, pages),
        pages_match(group, resource, more_verbs, more_pages),
    ensures
        pages_match(group, resource, verbs + more_verbs, pages + more_pages),
{
}

proof fn lemma_verb_pages_match(
    group: Seq<char>,
    resource: Resource,
    inputs: DocInputs,
    n: nat,
)
    requires
        n <= 5,
        reference_docs::verb_pages(group, resource, inputs, n) is Ok,
    ensures
        pages_match(
            group,
            resource.name@,
            manifest::own_verbs(resource, n),
            reference_docs::verb_pages(group, resource, inputs, n)->Ok_0,
        ),
    decreases n,
{
    if n > 0 {
        lemma_verb_pages_match(group, resource, inputs, (n - 1) as nat);
    }
}

/// A resource has one page for every verb that the index lists for it, in the same order,
/// at the path that the index links to.
pub proof fn every_verb_has_its_page(group: Seq<char>, resource: Resource, inputs: DocInputs)
    requires
        reference_docs::resource_pages(group, resource, inputs) is Ok,
    ensures
        pages_match(
            group,
            resource.name@,
            reference_docs::page_verbs(resource, inputs),
            reference_docs::resource_pages(group, resource, inputs)->Ok_0,
        ),
{
    let name = resource.name@;
    let own = manifest::own_verbs(resource, 5);
    let known = reference_docs::verb_pages(group, resource, inputs, 5)->Ok_0;
    reveal(reference_docs::resource_pages);
    lemma_verb_pages_match(group, resource, inputs, 5);
    let ordered_pages = known + reference_docs::order_pages(group, resource, inputs);
    let ordered = if resource.order is Some {
        own.push("provision"@).push("terminate"@)
    } else {
        own
    };
    if resource.order is Some {
        assert(ordered_pages =~= known.push(
            reference_docs::order_pages(group, resource, inputs)[0],
        ).push(reference_docs::order_pages(group, resource, inputs)[1]));
    } else {
        assert(ordered_pages =~= known);
    }
    assert(pages_match(group, name, ordered, ordered_pages));
    let waited_pages = ordered_pages + reference_docs::wait_pages(group, resource);
    let waited = if resource.commands@.contains_key("get"@) {
        ordered.push("wait"@)
    } else {
        ordered
    };
    if resource.commands@.contains_key("get"@) {
        assert(waited_pages =~= ordered_pages.push(
            reference_docs::wait_pages(group, resource)[0],
        ));
    } else {
        assert(waited_pages =~= ordered_pages);
    }
    assert(pages_match(group, name, waited, waited_pages));
    let actions = reference_docs::own_actions(resource, inputs);
    lemma_match_both(
        group,
        name,
        waited,
        waited_pages,
        actions.map_values(|action: Action| action.name),
        reference_docs::action_pages(group, resource, inputs),
    );
}

/// Every command that the command schema lists for a resource has a page: its verbs come
/// first among the verbs that have one, in the same order.
pub proof fn every_command_has_a_page(resource: Resource, inputs: DocInputs)
    ensures
        ({
            let listed = schema_codegen::resource_verbs(resource);
            let shown = reference_docs::page_verbs(resource, inputs);
            listed.len() <= shown.len() && shown.take(listed.len() as int) == listed
        }),
{
    let listed = schema_codegen::resource_verbs(resource);
    let shown = reference_docs::page_verbs(resource, inputs);
    assert(shown.take(listed.len() as int) =~= listed);
}

/// Whether a page stands at that path.
pub open spec fn has_page(pages: Seq<Page>, path: Seq<char>) -> bool {
    exists|p: int| 0 <= p < pages.len() && (#[trigger] pages[p]).relative_path == path
}

/// Whether some entry links to that path.
pub open spec fn is_linked(entries: Seq<Entry>, path: Seq<char>) -> bool {
    exists|e: int, v: int|
        0 <= e < entries.len() && 0 <= v < entries[e].verbs.len() && link_target(
            entries[e].group,
            entries[e].resource,
            #[trigger] entries[e].verbs[v],
        ) == path
}

/// Whether the pages are exactly those that the entries link to.
pub open spec fn index_matches(docs: Docs) -> bool {
    &&& forall|e: int, v: int|
        0 <= e < docs.entries.len() && 0 <= v < docs.entries[e].verbs.len() ==> has_page(
            docs.pages,
            link_target(
                docs.entries[e].group,
                docs.entries[e].resource,
                #[trigger] docs.entries[e].verbs[v],
            ),
        )
    &&& forall|p: int|
        0 <= p < docs.pages.len() ==> is_linked(
            docs.entries,
            (#[trigger] docs.pages[p]).relative_path,
        )
}

proof fn lemma_resource_keeps_match(
    docs: Docs,
    group: Seq<char>,
    resource: Resource,
    inputs: DocInputs,
)
    requires
        index_matches(docs),
        reference_docs::resource_pages(group, resource, inputs) is Ok,
    ensures
        index_matches(
            reference_docs::with_resource(
                docs,
                group,
                resource,
                reference_docs::resource_pages(group, resource, inputs)->Ok_0,
                reference_docs::page_verbs(resource, inputs),
            ),
        ),
{
    let pages = reference_docs::resource_pages(group, resource, inputs)->Ok_0;
    let verbs = reference_docs::page_verbs(resource, inputs);
    let after = reference_docs::with_resource(docs, group, resource, pages, verbs);
    every_verb_has_its_page(group, resource, inputs);
    assert forall|e: int, v: int|
        0 <= e < after.entries.len() && 0 <= v < after.entries[e].verbs.len() implies has_page(
        after.pages,
        link_target(
            after.entries[e].group,
            after.entries[e].resource,
            #[trigger] after.entries[e].verbs[v],
        ),
    ) by {
        let path = link_target(
            after.entries[e].group,
            after.entries[e].resource,
            after.entries[e].verbs[v],
        );
        if e < docs.entries.len() {
            assert(docs.entries[e].verbs[v] == after.entries[e].verbs[v]);
            let p = choose|p: int|
                0 <= p < docs.pages.len() && (#[trigger] docs.pages[p]).relative_path == path;
            assert(after.pages[p].relative_path == path);
        } else {
            assert(pages[v].relative_path == path);
            assert(after.pages[docs.pages.len() + v].relative_path == path);
        }
    }
    assert forall|p: int| 0 <= p < after.pages.len() implies is_linked(
        after.entries,
        (#[trigger] after.pages[p]).relative_path,
    ) by {
        let path = after.pages[p].relative_path;
        if p < docs.pages.len() {
            assert(docs.pages[p].relative_path == path);
            let (e, v) = choose|e: int, v: int|
                0 <= e < docs.entries.len() && 0 <= v < docs.entries[e].verbs.len() && link_target(
                    docs.entries[e].group,
                    docs.entries[e].resource,
                    #[trigger] docs.entries[e].verbs[v],
                ) == path;
            assert(after.entries[e].verbs[v] == docs.entries[e].verbs[v]);
        } else {
            let v = p - docs.pages.len();
            assert(pages[v].relative_path == path);
            let e = docs.entries.len() as int;
            assert(after.entries[e].verbs[v] == verbs[v]);
        }
    }
}

proof fn lemma_group_keeps_match(
    docs: Docs,
    group: Seq<char>,
    resources: Seq<Resource>,
    inputs: DocInputs,
)
    requires
        index_matches(docs),
        reference_docs::group_docs(docs, group, resources, inputs) is Ok,
    ensures
        index_matches(reference_docs::group_docs(docs, group, resources, inputs)->Ok_0),
    decreases resources.len(),
{
    if resources.len() > 0 {
        let before = resources.drop_last();
        lemma_group_keeps_match(docs, group, before, inputs);
        lemma_resource_keeps_match(
            reference_docs::group_docs(docs, group, before, inputs)->Ok_0,
            group,
            resources.last(),
            inputs,
        );
    }
}

proof fn lemma_all_match(groups: Seq<Group>, inputs: DocInputs)
    requires
        reference_docs::all_docs(groups, inputs) is Ok,
    ensures
        index_matches(reference_docs::all_docs(groups, inputs)->Ok_0),
    decreases groups.len(),
{
    if groups.len() > 0 {
        let before = groups.drop_last();
        lemma_all_match(before, inputs);
        lemma_group_keeps_match(
            reference_docs::all_docs(before, inputs)->Ok_0,
            groups.last().name@,
            groups.last().resource@,
            inputs,
        );
    }
}

/// There is one page per command and no page besides: every verb in the index links to a
/// page that exists, and every command page is linked from the index.
pub proof fn the_index_links_exactly_the_pages(manifest: Manifest, inputs: DocInputs)
    requires
        reference_docs::all_docs(manifest.group@, inputs) is Ok,
    ensures
        index_matches(reference_docs::all_docs(manifest.group@, inputs)->Ok_0),
{
    lemma_all_match(manifest.group@, inputs);
}

/// The line that links to the index of a group.
pub open spec fn group_link(group: Seq<char>) -> Seq<char> {
    "- ["@ + group + "](./"@ + group + "/)\n"@
}

/// Whether a text has a piece in it.
pub open spec fn has_piece(content: Seq<char>, piece: Seq<char>) -> bool {
    exists|at: int| #[trigger] text::occurs_at(content, piece, at)
}

proof fn lemma_piece_inside(
    before: Seq<char>,
    content: Seq<char>,
    behind: Seq<char>,
    piece: Seq<char>,
)
    requires
        has_piece(content, piece),
    ensures
        has_piece(before + content + behind, piece),
{
    let at = choose|at: int| #[trigger] text::occurs_at(content, piece, at);
    let all = before + content + behind;
    let from = before.len() + at;
    assert(all.subrange(from, from + piece.len()) =~= content.subrange(at, at + piece.len()));
    assert(text::occurs_at(all, piece, from));
}

proof fn lemma_group_is_linked(groups: Seq<Seq<char>>, g: int)
    requires
        0 <= g < groups.len(),
    ensures
        has_piece(reference_docs::group_links(groups), group_link(groups[g])),
    decreases groups.len(),
{
    let before = reference_docs::group_links(groups.drop_last());
    let last = group_link(groups.last());
    assert(reference_docs::group_links(groups) =~= before + last);
    if g < groups.len() - 1 {
        lemma_group_is_linked(groups.drop_last(), g);
        lemma_piece_inside(Seq::empty(), before, last, group_link(groups[g]));
        assert(Seq::<char>::empty() + before + last =~= before + last);
    } else {
        assert(last.subrange(0, last.len() as int) =~= last);
        assert(text::occurs_at(last, last, 0));
        lemma_piece_inside(before, last, Seq::empty(), last);
        assert(before + last + Seq::<char>::empty() =~= before + last);
    }
}

/// Every group that has pages has an index page, which the top page links to.
pub proof fn every_group_has_an_index(entries: Seq<Entry>, e: int)
    requires
        0 <= e < entries.len(),
    ensures
        has_page(reference_docs::index(entries), entries[e].group + "/README.md"@),
        reference_docs::index(entries)[0].relative_path == "README.md"@,
        has_piece(reference_docs::index(entries)[0].content, group_link(entries[e].group)),
{
    let names = reference_docs::entry_groups(entries);
    let groups = order::ascending(names);
    order::ascending_exists(names);
    assert(names[e] == entries[e].group);
    assert(names.contains(entries[e].group));
    assert(groups.contains(entries[e].group));
    let g = choose|g: int| 0 <= g < groups.len() && groups[g] == entries[e].group;
    let pages = reference_docs::index(entries);
    assert(pages[g + 1] == reference_docs::group_index(entries, groups[g]));
    assert(pages[g + 1].relative_path == entries[e].group + "/README.md"@);
    let links = reference_docs::group_links(groups);
    let head = reference_docs::INDEX_HEAD@;
    lemma_group_is_linked(groups, g);
    lemma_piece_inside(head, links, Seq::empty(), group_link(groups[g]));
    assert(head + links + Seq::<char>::empty() =~= head + links);
}

/// The waiting example is never about the resource's own uuid.
pub proof fn nobody_waits_for_a_uuid(columns: Seq<Seq<char>>)
    ensures
        reference_pages::condition_field(columns) != "uuid"@,
{
    reveal_strlit("uuid");
    reveal_strlit("state");
    assert("uuid"@.len() != "state"@.len());
    lemma_other_column(columns);
}

proof fn lemma_other_column(columns: Seq<Seq<char>>)
    ensures
        reference_pages::first_other_column(columns) is Some
            ==> reference_pages::first_other_column(columns)->0 != "uuid"@,
    decreases columns.len(),
{
    if columns.len() > 0 {
        lemma_other_column(columns.drop_last());
    }
}

proof fn lemma_upwards(values: Seq<Seq<char>>, i: int)
    requires
        0 <= i < values.len(),
        !reference_pages::descends(values[i]),
    ensures
        reference_pages::first_upwards(values) is Some,
    decreases values.len(),
{
    if i < values.len() - 1 {
        lemma_upwards(values.drop_last(), i);
    }
}

proof fn lemma_upwards_is_valid(values: Seq<Seq<char>>)
    ensures
        reference_pages::first_upwards(values) is Some ==> values.contains(
            reference_pages::first_upwards(values)->0,
        ) && !reference_pages::descends(reference_pages::first_upwards(values)->0),
    decreases values.len(),
{
    if values.len() > 0 {
        let before = values.drop_last();
        lemma_upwards_is_valid(before);
        if reference_pages::first_upwards(before) is Some {
            let value = reference_pages::first_upwards(before)->0;
            let i = choose|i: int| 0 <= i < before.len() && before[i] == value;
            assert(values[i] == value);
        } else if reference_pages::first_upwards(values) is Some {
            assert(values[values.len() - 1] == values.last());
        }
    }
}

/// The ordering example is valid: wherever the order values are known, it uses one of
/// them, which sorts upwards, and it is there exactly where one of them does.
pub proof fn the_order_example_is_valid(
    op: Operation,
    order_values: Map<Seq<char>, Vec<String>>,
    column: Seq<char>,
)
    requires
        reference_pages::known_values(op.order_enum_name, order_values) is Some,
    ensures
        ({
            let values = reference_pages::known_values(op.order_enum_name, order_values)->0;
            let field = reference_pages::order_field(op, order_values, column);
            &&& field matches Some(value) ==> values.contains(value) && !reference_pages::descends(
                value,
            )
            &&& field is Some <==> exists|i: int|
                0 <= i < values.len() && !reference_pages::descends(#[trigger] values[i])
        }),
{
    let values = reference_pages::known_values(op.order_enum_name, order_values)->0;
    lemma_upwards_is_valid(values);
    if exists|i: int| 0 <= i < values.len() && !reference_pages::descends(#[trigger] values[i]) {
        let i = choose|i: int|
            0 <= i < values.len() && !reference_pages::descends(#[trigger] values[i]);
        lemma_upwards(values, i);
    }
}

/// Every operation with a filter has an example, and the example uses one of its filter
/// keys.
pub proof fn every_filter_gives_an_example(params: Seq<Param>)
    ensures
        reference_pages::example_filter(params) is Some <==> schema::filter_params(params).len()
            > 0,
        reference_pages::example_filter(params) matches Some((key, _)) ==> verb_codegen::has_param(
            schema::filter_params(params),
            key,
        ),
{
    let keys = schema::filter_params(params);
    if keys.len() > 0 {
        assert(verb_codegen::has_param(keys, keys[0].name));
    }
}

} // verus!
