//! What the reference holds as a whole: the pages of every resource, and indexes that link
//! to each of them.
use crate::command_laws;
use crate::description_laws;
use crate::manifest::{Group, Manifest, Resource};
use crate::order;
use crate::page_laws;
use crate::reference_docs;
use crate::reference_docs::{DocInputs, Docs, Entry, Page};
use crate::schema::Action;
use vstd::prelude::*;

verus! {

/// The verbs of a resource that have pages.
pub open spec fn shown_verbs(resource: Resource, inputs: DocInputs) -> Seq<Seq<char>> {
    command_laws::given_verbs(resource, 5) + (if resource.order is Some {
        seq!["provision"@, "terminate"@]
    } else {
        Seq::empty()
    }) + (if resource.commands@.contains_key("get"@) {
        seq!["wait"@]
    } else {
        Seq::empty()
    }) + page_laws::actions_of(resource, inputs).map_values(|action: Action| action.name)
}

/// The entries of resources in the index: one for every resource that has pages.
pub open spec fn indexed(resources: Seq<(Seq<char>, Resource)>, inputs: DocInputs) -> Seq<Entry>
    decreases resources.len(),
{
    if resources.len() == 0 {
        Seq::empty()
    } else {
        let before = indexed(resources.drop_last(), inputs);
        let (group, resource) = resources.last();
        if shown_verbs(resource, inputs).len() == 0 {
            before
        } else {
            before.push(
                Entry { group, resource: resource.name@, verbs: shown_verbs(resource, inputs) },
            )
        }
    }
}

/// Pages one after the other.
pub open spec fn paged(lists: Seq<Seq<Page>>) -> Seq<Page>
    decreases lists.len(),
{
    if lists.len() == 0 {
        Seq::empty()
    } else {
        paged(lists.drop_last()) + lists.last()
    }
}

/// Whether lists of pages are those of resources, one list for each of them.
pub open spec fn are_lists_of(
    resources: Seq<(Seq<char>, Resource)>,
    inputs: DocInputs,
    lists: Seq<Seq<Page>>,
) -> bool {
    &&& lists.len() == resources.len()
    &&& forall|i: int|
        0 <= i < lists.len() ==> page_laws::are_pages_of(
            resources[i].0,
            resources[i].1,
            inputs,
            #[trigger] lists[i],
        )
}

proof fn lemma_shown_verbs(resource: Resource, inputs: DocInputs)
    ensures
        reference_docs::page_verbs(resource, inputs) == shown_verbs(resource, inputs),
{
    description_laws::lemma_verbs(resource, 5);
    assert(reference_docs::page_verbs(resource, inputs) =~= shown_verbs(resource, inputs));
}

/// The docs of the first resources, given their lists.
spec fn docs_of(
    resources: Seq<(Seq<char>, Resource)>,
    inputs: DocInputs,
    lists: Seq<Seq<Page>>,
) -> Docs {
    Docs { pages: paged(lists), entries: indexed(resources, inputs) }
}

proof fn lemma_group_docs(
    earlier: Seq<(Seq<char>, Resource)>,
    lists: Seq<Seq<Page>>,
    group: Seq<char>,
    resources: Seq<Resource>,
    inputs: DocInputs,
) -> (more: Seq<Seq<Page>>)
    requires
        are_lists_of(earlier, inputs, lists),
        reference_docs::group_docs(
            docs_of(earlier, inputs, lists),
            group,
            resources,
            inputs,
        ) is Ok,
    ensures
        ({
            let all = earlier + resources.map_values(|resource: Resource| (group, resource));
            &&& are_lists_of(all, inputs, more)
            &&& reference_docs::group_docs(
                docs_of(earlier, inputs, lists),
                group,
                resources,
                inputs,
            )->Ok_0 == docs_of(all, inputs, more)
        }),
    decreases resources.len(),
{
    let here = |resource: Resource| (group, resource);
    let all = earlier + resources.map_values(here);
    if resources.len() == 0 {
        assert(all =~= earlier);
        lists
    } else {
        let before = lemma_group_docs(earlier, lists, group, resources.drop_last(), inputs);
        let fewer = earlier + resources.drop_last().map_values(here);
        let resource = resources.last();
        assert(all.drop_last() =~= fewer);
        assert(all.last() == (group, resource));
        let pages = reference_docs::resource_pages(group, resource, inputs)->Ok_0;
        page_laws::every_command_has_its_page(group, resource, inputs);
        lemma_shown_verbs(resource, inputs);
        let more = before.push(pages);
        assert(more.drop_last() =~= before);
        assert forall|i: int| 0 <= i < more.len() implies page_laws::are_pages_of(
            all[i].0,
            all[i].1,
            inputs,
            #[trigger] more[i],
        ) by {
            if i < before.len() {
                assert(more[i] == before[i]);
                assert(all[i] == fewer[i]);
            }
        }
        more
    }
}

proof fn lemma_all_docs(groups: Seq<Group>, inputs: DocInputs) -> (lists: Seq<Seq<Page>>)
    requires
        reference_docs::all_docs(groups, inputs) is Ok,
    ensures
        are_lists_of(description_laws::placed(groups), inputs, lists),
        reference_docs::all_docs(groups, inputs)->Ok_0 == docs_of(
            description_laws::placed(groups),
            inputs,
            lists,
        ),
    decreases groups.len(),
{
    if groups.len() == 0 {
        Seq::empty()
    } else {
        let before = lemma_all_docs(groups.drop_last(), inputs);
        let group = groups.last();
        lemma_group_docs(
            description_laws::placed(groups.drop_last()),
            before,
            group.name@,
            group.resource@,
            inputs,
        )
    }
}

/// The reference has the pages of every resource in manifest order, and behind them the
/// indexes of the resources that have pages.
pub proof fn the_reference_has_every_page(manifest: Manifest, inputs: DocInputs) -> (lists: Seq<
    Seq<Page>,
>)
    requires
        reference_docs::reference_pages(manifest, inputs) is Ok,
    ensures
        are_lists_of(description_laws::placed(manifest.group@), inputs, lists),
        reference_docs::reference_pages(manifest, inputs)->Ok_0 == paged(lists)
            + reference_docs::index(indexed(description_laws::placed(manifest.group@), inputs)),
{
    lemma_all_docs(manifest.group@, inputs)
}

/// The line that links to a page beside the index.
pub open spec fn verb_line(resource: Seq<char>, verb: Seq<char>) -> Seq<char> {
    let shown = page_laws::with_for(verb, '_', '-');
    "- ["@ + shown + "](./"@ + resource + "-"@ + shown + ".md)\n"@
}

/// The lines that link to the pages of verbs.
pub open spec fn verb_lines(resource: Seq<char>, verbs: Seq<Seq<char>>) -> Seq<char>
    decreases verbs.len(),
{
    if verbs.len() == 0 {
        ""@
    } else {
        verb_lines(resource, verbs.drop_last()) + verb_line(resource, verbs.last())
    }
}

/// The sections of entries: each names its resource and links to the page of every verb.
pub open spec fn section_texts(entries: Seq<Entry>) -> Seq<char>
    decreases entries.len(),
{
    if entries.len() == 0 {
        ""@
    } else {
        section_texts(entries.drop_last()) + ("## "@ + entries.last().resource + "\n\n"@
            + verb_lines(entries.last().resource, entries.last().verbs) + "\n"@)
    }
}

/// The lines that link to the indexes of groups.
pub open spec fn group_lines(groups: Seq<Seq<char>>) -> Seq<char>
    decreases groups.len(),
{
    if groups.len() == 0 {
        ""@
    } else {
        group_lines(groups.drop_last()) + ("- ["@ + groups.last() + "](./"@ + groups.last()
            + "/)\n"@)
    }
}

proof fn lemma_verb_lines(resource: Seq<char>, verbs: Seq<Seq<char>>)
    ensures
        reference_docs::verb_links(resource, verbs) == verb_lines(resource, verbs),
    decreases verbs.len(),
{
    if verbs.len() > 0 {
        lemma_verb_lines(resource, verbs.drop_last());
        let verb = verbs.last();
        assert(crate::text::replaced(verb, '_', '-') =~= page_laws::with_for(verb, '_', '-'));
    }
}

proof fn lemma_section_texts(entries: Seq<Entry>)
    ensures
        reference_docs::sections(entries) == section_texts(entries),
    decreases entries.len(),
{
    if entries.len() > 0 {
        lemma_section_texts(entries.drop_last());
        lemma_verb_lines(entries.last().resource, entries.last().verbs);
    }
}

proof fn lemma_group_lines(groups: Seq<Seq<char>>)
    ensures
        reference_docs::group_links(groups) == group_lines(groups),
    decreases groups.len(),
{
    if groups.len() > 0 {
        lemma_group_lines(groups.drop_last());
    }
}

/// Whether groups are those of entries: each of them once, in ascending order.
pub open spec fn are_groups_of(entries: Seq<Entry>, groups: Seq<Seq<char>>) -> bool {
    &&& forall|i: int, j: int|
        0 <= i < j < groups.len() ==> order::text_le(#[trigger] groups[i], #[trigger] groups[j])
            && groups[i] != groups[j]
    &&& forall|name: Seq<char>| #[trigger]
        groups.contains(name) <==> exists|e: int|
            0 <= e < entries.len() && (#[trigger] entries[e]).group == name
}

proof fn lemma_groups(entries: Seq<Entry>)
    ensures
        are_groups_of(entries, order::ascending(reference_docs::entry_groups(entries))),
{
    let names = reference_docs::entry_groups(entries);
    let groups = order::ascending(names);
    order::ascending_exists(names);
    assert(order::is_ascending_of(names, groups));
    assert forall|i: int, j: int| 0 <= i < j < groups.len() implies order::text_le(
        #[trigger] groups[i],
        #[trigger] groups[j],
    ) && groups[i] != groups[j] by {
        assert(order::text_lt(groups[i], groups[j]));
    }
    assert forall|name: Seq<char>| #[trigger]
        groups.contains(name) <==> exists|e: int|
            0 <= e < entries.len() && (#[trigger] entries[e]).group == name by {
        if names.contains(name) {
            let e = choose|e: int| 0 <= e < names.len() && names[e] == name;
            assert(entries[e].group == name);
        }
        if exists|e: int| 0 <= e < entries.len() && (#[trigger] entries[e]).group == name {
            let e = choose|e: int| 0 <= e < entries.len() && (#[trigger] entries[e]).group == name;
            assert(names[e] == name);
        }
    }
}

/// The indexes are a top page that links to every group, and a page for every group that
/// links to the page of every verb of its resources: the groups and the resources in the
/// order of their names.
pub proof fn the_indexes_link_everything(
    entries: Seq<Entry>,
    group: int,
    sorted: Seq<Entry>,
) -> (groups: Seq<Seq<char>>)
    requires
        0 <= group < reference_docs::index(entries).len() - 1,
        order::sorts(
            entries.filter(
                |entry: Entry|
                    entry.group == order::ascending(reference_docs::entry_groups(entries))[group],
            ),
            sorted,
            |entry: Entry| entry.resource,
        ),
    ensures
        are_groups_of(entries, groups),
        ({
            let pages = reference_docs::index(entries);
            &&& pages.len() == groups.len() + 1
            &&& pages[0].relative_path == "README.md"@
            &&& pages[0].content == "# waldur-cli command reference\n\nOne page per command. Generated from the same schema data the CLI itself is built from -- see [Development](../development.md) for how.\n\n"@ + group_lines(groups)
            &&& pages[group + 1].relative_path == groups[group] + "/README.md"@
            &&& pages[group + 1].content == "# `waldur-cli "@ + groups[group] + "`\n\n"@
                + section_texts(sorted)
        }),
{
    let names = reference_docs::entry_groups(entries);
    let groups = order::ascending(names);
    let pages = reference_docs::index(entries);
    lemma_groups(entries);
    lemma_group_lines(groups);
    lemma_section_texts(sorted);
    let name = groups[group];
    assert(pages[group + 1] == reference_docs::group_index(entries, name));
    let own = reference_docs::entries_in(entries, name);
    let key = |entry: Entry| entry.resource;
    assert(reference_docs::entry_key() =~= key);
    order::sorting_is_unique(own, sorted, key);
    groups
}

} // verus!
