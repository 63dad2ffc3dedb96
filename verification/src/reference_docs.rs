//! The reference pages of waldur-cli: one markdown page per command, and an index per
//! group and at the top. They come from the same data as the commands themselves, so
//! they cannot drift apart.
use crate::error::NotExtracted;
use crate::manifest;
use crate::manifest::{Group, Manifest, Resource, KNOWN_VERBS};
use crate::order;
use crate::order::{sort_by_name, sorted_unique, Named};
use crate::reference_pages;
use crate::reference_pages::{cli_verb, list_page, get_page, create_page, update_page, delete_page, provision_page, terminate_page, wait_page, action_page};
use crate::schema;
use crate::schema::{Action, ExtractedAction, ExtractedOperation, Operation};
use crate::table::Table;
use crate::text;
use crate::text::{copy_strings, same};
use vstd::prelude::*;
use vstd::string::*;

verus! {

/// One generated page; its path is relative to `docs/reference/`.
#[derive(Debug)]
pub struct ReferencePage {
    pub relative_path: String,
    pub content: String,
}

/// A `ReferencePage` as contracts see it.
#[verifier::ext_equal]
pub struct Page {
    pub relative_path: Seq<char>,
    pub content: Seq<char>,
}

impl View for ReferencePage {
    type V = Page;

    open spec fn view(&self) -> Page {
        Page { relative_path: self.relative_path@, content: self.content@ }
    }
}

pub open spec fn pages_of(pages: Seq<ReferencePage>) -> Seq<Page> {
    pages.map_values(|page: ReferencePage| page@)
}

/// What the index says of a resource: the verbs that it has pages for.
#[derive(Debug)]
pub struct IndexEntry {
    pub group: String,
    pub resource: String,
    pub verbs: Vec<String>,
}

/// An `IndexEntry` as contracts see it.
#[verifier::ext_equal]
pub struct Entry {
    pub group: Seq<char>,
    pub resource: Seq<char>,
    pub verbs: Seq<Seq<char>>,
}

impl View for IndexEntry {
    type V = Entry;

    open spec fn view(&self) -> Entry {
        Entry { group: self.group@, resource: self.resource@, verbs: text::texts(self.verbs@) }
    }
}

impl Named for IndexEntry {
    open spec fn name_view(&self) -> Seq<char> {
        self.resource@
    }

    fn name_text(&self) -> (name: &str) {
        self.resource.as_str()
    }
}

/// How an entry is looked at.
pub open spec fn entry_view() -> spec_fn(IndexEntry) -> Entry {
    |entry: IndexEntry| entry@
}

/// What entries are sorted by.
pub open spec fn entry_key() -> spec_fn(Entry) -> Seq<char> {
    |entry: Entry| entry.resource
}

pub open spec fn entries_of(entries: Seq<IndexEntry>) -> Seq<Entry> {
    entries.map_values(entry_view())
}

/// The names of the groups of entries.
pub open spec fn entry_groups(entries: Seq<Entry>) -> Seq<Seq<char>> {
    entries.map_values(|entry: Entry| entry.group)
}

/// The links to the pages of a resource's verbs.
pub open spec fn verb_links(resource: Seq<char>, verbs: Seq<Seq<char>>) -> Seq<char>
    decreases verbs.len(),
{
    if verbs.len() == 0 {
        ""@
    } else {
        verb_links(resource, verbs.drop_last()) + ("- ["@ + reference_pages::typed_verb(verbs.last()) + "](./"@
            + resource + "-"@ + reference_pages::typed_verb(verbs.last()) + ".md)\n"@)
    }
}

/// The sections of resources in the index of their group.
pub open spec fn sections(entries: Seq<Entry>) -> Seq<char>
    decreases entries.len(),
{
    if entries.len() == 0 {
        ""@
    } else {
        sections(entries.drop_last()) + ("## "@ + entries.last().resource + "\n\n"@ + verb_links(
            entries.last().resource,
            entries.last().verbs,
        ) + "\n"@)
    }
}

/// The entries of a group, in their order.
pub open spec fn entries_in(entries: Seq<Entry>, group: Seq<char>) -> Seq<Entry> {
    entries.filter(|entry: Entry| entry.group == group)
}

/// The index of a group: its resources ordered by name.
pub open spec fn group_index(entries: Seq<Entry>, group: Seq<char>) -> Page {
    Page {
        relative_path: group + "/README.md"@,
        content: "# `waldur-cli "@ + group + "`\n\n"@ + sections(
            order::sorted_by_key(entries_in(entries, group), entry_key()),
        ),
    }
}

/// The links to the indexes of groups.
pub open spec fn group_links(groups: Seq<Seq<char>>) -> Seq<char>
    decreases groups.len(),
{
    if groups.len() == 0 {
        ""@
    } else {
        group_links(groups.drop_last()) + ("- ["@ + groups.last() + "](./"@ + groups.last()
            + "/)\n"@)
    }
}

pub const INDEX_HEAD: &'static str = "# waldur-cli command reference\n\nOne page per command. Generated from the same schema data the CLI itself is built from -- see [Development](../development.md) for how.\n\n";

/// The index pages: the top one, and one for every group in ascending order.
pub open spec fn index(entries: Seq<Entry>) -> Seq<Page> {
    let groups = order::ascending(entry_groups(entries));
    seq![
        Page { relative_path: "README.md"@, content: INDEX_HEAD@ + group_links(groups) },
    ] + groups.map_values(|group: Seq<char>| group_index(entries, group))
}

fn verb_link_text(entry: &IndexEntry) -> (links: String)
    ensures
        links@ == verb_links(entry.resource@, text::texts(entry.verbs@)),
{
    let ghost all = text::texts(entry.verbs@);
    let mut links = "".to_string();
    for i in 0..entry.verbs.len()
        invariant
            all == text::texts(entry.verbs@),
            links@ == verb_links(entry.resource@, all.take(i as int)),
    {
        proof {
            assert(all.take(i + 1).drop_last() =~= all.take(i as int));
            assert(all.take(i + 1).last() == entry.verbs@[i as int]@);
        }
        let verb = cli_verb(entry.verbs[i].as_str());
        let link = "- [".to_string().concat(verb.as_str()).concat("](./").concat(
            entry.resource.as_str(),
        ).concat("-").concat(verb.as_str()).concat(".md)\n");
        links.append(link.as_str());
    }
    assert(all.take(all.len() as int) =~= all);
    links
}

fn section_text(entries: &Vec<IndexEntry>) -> (result: String)
    ensures
        result@ == sections(entries_of(entries@)),
{
    let ghost all = entries_of(entries@);
    let mut result = "".to_string();
    for i in 0..entries.len()
        invariant
            all == entries_of(entries@),
            result@ == sections(all.take(i as int)),
    {
        proof {
            assert(all.take(i + 1).drop_last() =~= all.take(i as int));
            assert(all.take(i + 1).last() == entries@[i as int]@);
        }
        let section = "## ".to_string().concat(entries[i].resource.as_str()).concat("\n\n").concat(
            verb_link_text(&entries[i]).as_str(),
        ).concat("\n");
        result.append(section.as_str());
    }
    assert(all.take(all.len() as int) =~= all);
    result
}

/// The entries of a group, ordered by resource.
fn sorted_entries(entries: &Vec<IndexEntry>, group: &str) -> (sorted: Vec<IndexEntry>)
    ensures
        entries_of(sorted@) == order::sorted_by_key(
            entries_in(entries_of(entries@), group@),
            entry_key(),
        ),
{
    let ghost all = entries_of(entries@);
    let mut kept: Vec<IndexEntry> = Vec::new();
    proof {
        reveal(Seq::filter);
        assert(entries_of(kept@) =~= entries_in(all.take(0), group@));
    }
    for i in 0..entries.len()
        invariant
            all == entries_of(entries@),
            entries_of(kept@) == entries_in(all.take(i as int), group@),
    {
        let entry = &entries[i];
        let ghost before = entries_of(kept@);
        proof {
            reveal(Seq::filter);
            assert(all.take(i + 1).drop_last() =~= all.take(i as int));
            assert(all.take(i + 1).last() == entry@);
        }
        if same(entry.group.as_str(), group) {
            let copy = IndexEntry {
                group: entry.group.clone(),
                resource: entry.resource.clone(),
                verbs: copy_strings(&entry.verbs),
            };
            kept.push(copy);
            assert(entries_of(kept@) =~= before.push(entry@));
        }
    }
    assert(all.take(all.len() as int) =~= all);
    let ghost input = kept@;
    let sorted = sort_by_name(kept);
    proof {
        order::sorted_views(input, sorted@, entry_view(), entry_key());
    }
    sorted
}

fn group_names(entries: &Vec<IndexEntry>) -> (groups: Vec<String>)
    ensures
        text::texts(groups@) == order::ascending(entry_groups(entries_of(entries@))),
{
    let ghost all = entry_groups(entries_of(entries@));
    let mut names: Vec<String> = Vec::new();
    for i in 0..entries.len()
        invariant
            all == entry_groups(entries_of(entries@)),
            names@.len() == i,
            forall|j: int| 0 <= j < i ==> (#[trigger] names@[j])@ == all[j],
    {
        names.push(entries[i].group.clone());
    }
    assert(text::texts(names@) =~= all);
    let groups = sorted_unique(&names);
    proof {
        order::ascending_is_unique(all, text::texts(groups@));
    }
    groups
}

/// The index pages: one at the top, and one per group. Both are plain lists of links.
pub fn index_pages(entries: &Vec<IndexEntry>) -> (pages: Vec<ReferencePage>)
    ensures
        pages_of(pages@) == index(entries_of(entries@)),
{
    let ghost all = entries_of(entries@);
    let groups = group_names(entries);
    let ghost names = text::texts(groups@);
    let mut links = "".to_string();
    for i in 0..groups.len()
        invariant
            names == text::texts(groups@),
            links@ == group_links(names.take(i as int)),
    {
        proof {
            assert(names.take(i + 1).drop_last() =~= names.take(i as int));
            assert(names.take(i + 1).last() == groups@[i as int]@);
        }
        let link = "- [".to_string().concat(groups[i].as_str()).concat("](./").concat(
            groups[i].as_str(),
        ).concat("/)\n");
        links.append(link.as_str());
    }
    assert(names.take(names.len() as int) =~= names);
    let mut pages: Vec<ReferencePage> = Vec::new();
    pages.push(
        ReferencePage {
            relative_path: "README.md".to_string(),
            content: INDEX_HEAD.to_string().concat(links.as_str()),
        },
    );
    let ghost top = pages@[0]@;
    for i in 0..groups.len()
        invariant
            all == entries_of(entries@),
            names == text::texts(groups@),
            pages@.len() == i + 1,
            pages@[0]@ == top,
            forall|j: int|
                0 <= j < i ==> (#[trigger] pages@[j + 1])@ == group_index(all, names[j]),
    {
        let group = groups[i].as_str();
        let sorted = sorted_entries(entries, group);
        let content = "# `waldur-cli ".to_string().concat(group).concat("`\n\n").concat(
            section_text(&sorted).as_str(),
        );
        pages.push(
            ReferencePage { relative_path: group.to_string().concat("/README.md"), content },
        );
        assert forall|j: int| 0 <= j < i + 1 implies (#[trigger] pages@[j + 1])@ == group_index(
            all,
            names[j],
        ) by {}
    }
    proof {
        let wanted = index(all);
        assert(pages_of(pages@).len() == wanted.len());
        assert forall|k: int| 0 <= k < wanted.len() implies pages_of(pages@)[k] == wanted[k] by {
            if k > 0 {
                assert(pages@[(k - 1) + 1]@ == group_index(all, names[k - 1]));
            }
        }
        assert(pages_of(pages@) =~= wanted);
    }
    pages
}

/// Everything that the pages are made from besides the manifest.
pub struct DocInputs {
    pub operations: Map<Seq<char>, ExtractedOperation>,
    pub field_values: Map<Seq<char>, Vec<String>>,
    pub order_values: Map<Seq<char>, Vec<String>>,
    pub request_skeletons: Map<Seq<char>, String>,
    pub order_skeletons: Map<Seq<char>, String>,
    pub actions: Map<Seq<char>, Vec<ExtractedAction>>,
}

/// What the tables hold, for contracts.
pub open spec fn inputs_of(
    operations: Table<ExtractedOperation>,
    field_enum_values: Table<Vec<String>>,
    order_enum_values: Table<Vec<String>>,
    request_skeletons: Table<String>,
    order_skeletons: Table<String>,
    resource_actions: Table<Vec<ExtractedAction>>,
) -> DocInputs {
    DocInputs {
        operations: operations@,
        field_values: field_enum_values@,
        order_values: order_enum_values@,
        request_skeletons: request_skeletons@,
        order_skeletons: order_skeletons@,
        actions: resource_actions@,
    }
}

/// The page of a known verb.
pub open spec fn verb_page(
    group: Seq<char>,
    resource: Resource,
    verb: Seq<char>,
    op: Operation,
    inputs: DocInputs,
) -> Page {
    let content = if verb == "list"@ {
        reference_pages::list_text(group, resource, op, inputs.field_values, inputs.order_values)
    } else if verb == "get"@ {
        reference_pages::get_text(group, resource, op)
    } else if verb == "create"@ {
        reference_pages::create_text(group, resource, op, inputs.request_skeletons)
    } else if verb == "update"@ {
        reference_pages::update_text(group, resource, op, inputs.request_skeletons)
    } else {
        reference_pages::delete_text(group, resource, op)
    };
    reference_pages::command_page(group, resource.name@, verb, content)
}

/// The pages of the first `n` known verbs of a resource, or the first operation that was
/// not extracted.
pub open spec fn verb_pages(
    group: Seq<char>,
    resource: Resource,
    inputs: DocInputs,
    n: nat,
) -> Result<Seq<Page>, NotExtracted<Seq<char>>>
    decreases n,
{
    if n == 0 {
        Ok(Seq::empty())
    } else {
        let verb = manifest::verb_at(n - 1);
        match verb_pages(group, resource, inputs, (n - 1) as nat) {
            Err(error) => Err(error),
            Ok(before) => if !resource.commands@.contains_key(verb) {
                Ok(before)
            } else {
                let operation_id = resource.commands@[verb]@;
                if !inputs.operations.contains_key(operation_id) {
                    Err(NotExtracted { operation_id, group, resource: resource.name@, verb })
                } else {
                    Ok(
                        before.push(
                            verb_page(
                                group,
                                resource,
                                verb,
                                inputs.operations[operation_id]@,
                                inputs,
                            ),
                        ),
                    )
                }
            },
        }
    }
}

/// The pages of `provision` and `terminate`, where the resource has them.
pub open spec fn order_pages(group: Seq<char>, resource: Resource, inputs: DocInputs) -> Seq<Page> {
    if resource.order is Some {
        Seq::<Page>::empty().push(
            reference_pages::command_page(
                group,
                resource.name@,
                "provision"@,
                reference_pages::provision_text(group, resource, inputs.order_skeletons),
            ),
        ).push(
            reference_pages::command_page(
                group,
                resource.name@,
                "terminate"@,
                reference_pages::terminate_text(group, resource),
            ),
        )
    } else {
        Seq::empty()
    }
}

/// The page of `wait`, which a resource with `get` has.
pub open spec fn wait_pages(group: Seq<char>, resource: Resource) -> Seq<Page> {
    if resource.commands@.contains_key("get"@) {
        Seq::<Page>::empty().push(
            reference_pages::command_page(group, resource.name@, "wait"@, reference_pages::wait_text(group, resource)),
        )
    } else {
        Seq::empty()
    }
}

/// The discovered actions of a resource.
pub open spec fn own_actions(resource: Resource, inputs: DocInputs) -> Seq<Action> {
    if inputs.actions.contains_key(resource.name@) {
        schema::actions_of(inputs.actions[resource.name@]@)
    } else {
        Seq::empty()
    }
}

/// The pages of the discovered actions of a resource.
pub open spec fn action_pages(group: Seq<char>, resource: Resource, inputs: DocInputs) -> Seq<
    Page,
> {
    own_actions(resource, inputs).map_values(
        |action: Action|
            reference_pages::command_page(
                group,
                resource.name@,
                action.name,
                reference_pages::action_text(group, resource, action, inputs.request_skeletons),
            ),
    )
}

/// All pages of a resource: known verbs, then the order verbs, then `wait`, then the
/// discovered actions.
#[verifier::opaque]
pub open spec fn resource_pages(
    group: Seq<char>,
    resource: Resource,
    inputs: DocInputs,
) -> Result<Seq<Page>, NotExtracted<Seq<char>>> {
    match verb_pages(group, resource, inputs, 5) {
        Err(error) => Err(error),
        Ok(verbs) => Ok(
            verbs + order_pages(group, resource, inputs) + wait_pages(group, resource)
                + action_pages(group, resource, inputs),
        ),
    }
}

/// The verbs of a resource that have pages.
pub open spec fn page_verbs(resource: Resource, inputs: DocInputs) -> Seq<Seq<char>> {
    let ordered = if resource.order is Some {
        manifest::own_verbs(resource, 5).push("provision"@).push("terminate"@)
    } else {
        manifest::own_verbs(resource, 5)
    };
    let waited = if resource.commands@.contains_key("get"@) {
        ordered.push("wait"@)
    } else {
        ordered
    };
    waited + own_actions(resource, inputs).map_values(|action: Action| action.name)
}

/// Pages, and what the index says of them.
pub struct Docs {
    pub pages: Seq<Page>,
    pub entries: Seq<Entry>,
}

/// Docs, and behind them those of one more resource. A resource without pages is not in
/// the index.
pub open spec fn with_resource(
    docs: Docs,
    group: Seq<char>,
    resource: Resource,
    pages: Seq<Page>,
    verbs: Seq<Seq<char>>,
) -> Docs {
    Docs {
        pages: docs.pages + pages,
        entries: if verbs.len() == 0 {
            docs.entries
        } else {
            docs.entries.push(Entry { group, resource: resource.name@, verbs })
        },
    }
}

/// `docs`, and behind them the pages of the resources of a group.
pub open spec fn group_docs(
    docs: Docs,
    group: Seq<char>,
    resources: Seq<Resource>,
    inputs: DocInputs,
) -> Result<Docs, NotExtracted<Seq<char>>>
    decreases resources.len(),
{
    if resources.len() == 0 {
        Ok(docs)
    } else {
        match group_docs(docs, group, resources.drop_last(), inputs) {
            Err(error) => Err(error),
            Ok(before) => match resource_pages(group, resources.last(), inputs) {
                Err(error) => Err(error),
                Ok(pages) => Ok(
                    with_resource(
                        before,
                        group,
                        resources.last(),
                        pages,
                        page_verbs(resources.last(), inputs),
                    ),
                ),
            },
        }
    }
}

/// The pages of all groups.
pub open spec fn all_docs(groups: Seq<Group>, inputs: DocInputs) -> Result<
    Docs,
    NotExtracted<Seq<char>>,
>
    decreases groups.len(),
{
    if groups.len() == 0 {
        Ok(Docs { pages: Seq::empty(), entries: Seq::empty() })
    } else {
        match all_docs(groups.drop_last(), inputs) {
            Err(error) => Err(error),
            Ok(before) => group_docs(
                before,
                groups.last().name@,
                groups.last().resource@,
                inputs,
            ),
        }
    }
}

/// All pages of a manifest: one per command, then the indexes.
pub open spec fn reference_pages(manifest: Manifest, inputs: DocInputs) -> Result<
    Seq<Page>,
    NotExtracted<Seq<char>>,
> {
    match all_docs(manifest.group@, inputs) {
        Err(error) => Err(error),
        Ok(docs) => Ok(docs.pages + index(docs.entries)),
    }
}

proof fn lemma_verb_failure_stays(
    group: Seq<char>,
    resource: Resource,
    inputs: DocInputs,
    few: nat,
    many: nat,
)
    requires
        few <= many,
        verb_pages(group, resource, inputs, few) is Err,
    ensures
        verb_pages(group, resource, inputs, many) == verb_pages(group, resource, inputs, few),
    decreases many,
{
    if few < many {
        lemma_verb_failure_stays(group, resource, inputs, few, (many - 1) as nat);
    }
}

proof fn lemma_resource_failure_stays(
    docs: Docs,
    group: Seq<char>,
    resources: Seq<Resource>,
    inputs: DocInputs,
    i: int,
)
    requires
        0 <= i <= resources.len(),
        group_docs(docs, group, resources.take(i), inputs) is Err,
    ensures
        group_docs(docs, group, resources, inputs) == group_docs(
            docs,
            group,
            resources.take(i),
            inputs,
        ),
    decreases resources.len() - i,
{
    if i < resources.len() {
        assert(resources.take(i + 1).drop_last() =~= resources.take(i));
        lemma_resource_failure_stays(docs, group, resources, inputs, i + 1);
    } else {
        assert(resources.take(i) =~= resources);
    }
}

proof fn lemma_group_failure_stays(groups: Seq<Group>, inputs: DocInputs, i: int)
    requires
        0 <= i <= groups.len(),
        all_docs(groups.take(i), inputs) is Err,
    ensures
        all_docs(groups, inputs) == all_docs(groups.take(i), inputs),
    decreases groups.len() - i,
{
    if i < groups.len() {
        assert(groups.take(i + 1).drop_last() =~= groups.take(i));
        lemma_group_failure_stays(groups, inputs, i + 1);
    } else {
        assert(groups.take(i) =~= groups);
    }
}

fn append_page(pages: &mut Vec<ReferencePage>, next: ReferencePage)
    ensures
        pages_of(final(pages)@) == pages_of(old(pages)@).push(next@),
{
    let ghost before = pages_of(pages@);
    pages.push(next);
    assert(pages_of(pages@) =~= before.push(next@));
}

/// The tables that the pages are made from.
pub struct DocTables<'a> {
    pub operations: &'a Table<ExtractedOperation>,
    pub field_enum_values: &'a Table<Vec<String>>,
    pub order_enum_values: &'a Table<Vec<String>>,
    pub request_skeletons: &'a Table<String>,
    pub order_skeletons: &'a Table<String>,
    pub resource_actions: &'a Table<Vec<ExtractedAction>>,
}

impl<'a> DocTables<'a> {
    pub open spec fn inputs(&self) -> DocInputs {
        inputs_of(
            *self.operations,
            *self.field_enum_values,
            *self.order_enum_values,
            *self.request_skeletons,
            *self.order_skeletons,
            *self.resource_actions,
        )
    }
}

fn generate_verb_page(
    group: &str,
    resource: &Resource,
    verb: &str,
    op: &ExtractedOperation,
    tables: &DocTables,
) -> (result: ReferencePage)
    requires
        exists|i: int| 0 <= i < 5 && verb@ == manifest::verb_at(i),
    ensures
        result@ == verb_page(group@, *resource, verb@, op@, tables.inputs()),
{
    proof {
        manifest::known_verbs_differ();
    }
    if same(verb, "list") {
        list_page(group, resource, op, tables.field_enum_values, tables.order_enum_values)
    } else if same(verb, "get") {
        get_page(group, resource, op)
    } else if same(verb, "create") {
        create_page(group, resource, op, tables.request_skeletons)
    } else if same(verb, "update") {
        update_page(group, resource, op, tables.request_skeletons)
    } else {
        assert(verb@ == "delete"@);
        delete_page(group, resource, op)
    }
}

/// Adds the pages of a resource's known verbs.
fn generate_verb_pages(
    group: &str,
    resource: &Resource,
    tables: &DocTables,
    pages: &mut Vec<ReferencePage>,
) -> (result: Result<(), NotExtracted>)
    ensures
        ({
            let made = verb_pages(group@, *resource, tables.inputs(), 5);
            match result {
                Ok(()) => made is Ok && pages_of(final(pages)@) == pages_of(old(pages)@)
                    + made->Ok_0,
                Err(error) => made == Err::<Seq<Page>, NotExtracted<Seq<char>>>(error.model()),
            }
        }),
{
    let ghost inputs = tables.inputs();
    let ghost start = pages_of(pages@);
    assert(pages_of(pages@) =~= start + Seq::<Page>::empty());
    for i in 0..5usize
        invariant
            inputs == tables.inputs(),
            start == pages_of(old(pages)@),
            verb_pages(group@, *resource, inputs, i as nat) is Ok,
            pages_of(pages@) == start + verb_pages(group@, *resource, inputs, i as nat)->Ok_0,
    {
        let verb = KNOWN_VERBS[i];
        assert(verb@ == manifest::verb_at(i as int));
        if let Some(operation_id) = resource.commands.get(verb) {
            match tables.operations.get(operation_id.as_str()) {
                Some(op) => {
                    append_page(pages, generate_verb_page(group, resource, verb, op, tables));
                    assert(pages_of(pages@) =~= start + verb_pages(
                        group@,
                        *resource,
                        inputs,
                        (i + 1) as nat,
                    )->Ok_0);
                },
                None => {
                    proof {
                        lemma_verb_failure_stays(group@, *resource, inputs, (i + 1) as nat, 5);
                    }
                    return Err(
                        NotExtracted {
                            operation_id: operation_id.clone(),
                            group: group.to_string(),
                            resource: resource.name.clone(),
                            verb: verb.to_string(),
                        },
                    );
                },
            }
        }
    }
    Ok(())
}

/// Adds the pages of a resource's discovered actions, and their names to `verbs`.
fn generate_action_pages(
    group: &str,
    resource: &Resource,
    tables: &DocTables,
    pages: &mut Vec<ReferencePage>,
    verbs: &mut Vec<String>,
)
    ensures
        pages_of(final(pages)@) == pages_of(old(pages)@) + action_pages(
            group@,
            *resource,
            tables.inputs(),
        ),
        text::texts(final(verbs)@) == text::texts(old(verbs)@) + own_actions(
            *resource,
            tables.inputs(),
        ).map_values(|action: Action| action.name),
{
    let ghost inputs = tables.inputs();
    let ghost made = action_pages(group@, *resource, inputs);
    let ghost names = own_actions(*resource, inputs).map_values(|action: Action| action.name);
    let ghost first_pages = pages_of(pages@);
    let ghost first_verbs = text::texts(verbs@);
    if let Some(actions) = tables.resource_actions.get(resource.name.as_str()) {
        assert(pages_of(pages@) =~= first_pages + made.take(0));
        assert(text::texts(verbs@) =~= first_verbs + names.take(0));
        for i in 0..actions.len()
            invariant
                inputs == tables.inputs(),
                made == action_pages(group@, *resource, inputs),
                names == own_actions(*resource, inputs).map_values(|action: Action| action.name),
                own_actions(*resource, inputs) == schema::actions_of(actions@),
                first_pages == pages_of(old(pages)@),
                first_verbs == text::texts(old(verbs)@),
                pages_of(pages@) == first_pages + made.take(i as int),
                text::texts(verbs@) == first_verbs + names.take(i as int),
        {
            let action = &actions[i];
            let ghost before = text::texts(verbs@);
            verbs.push(action.name.clone());
            append_page(pages, action_page(group, resource, action, tables.request_skeletons));
            assert(text::texts(verbs@) =~= before.push(action.name@));
            assert(text::texts(verbs@) =~= first_verbs + names.take(i + 1));
            assert(pages_of(pages@) =~= first_pages + made.take(i + 1));
        }
        assert(made.take(made.len() as int) =~= made);
        assert(names.take(names.len() as int) =~= names);
    } else {
        assert(pages_of(pages@) =~= first_pages + made);
        assert(text::texts(verbs@) =~= first_verbs + names);
    }
}

proof fn lemma_resource_pages(group: Seq<char>, resource: Resource, inputs: DocInputs)
    ensures
        resource_pages(group, resource, inputs) == match verb_pages(group, resource, inputs, 5) {
            Err(error) => Err(error),
            Ok(verbs) => Ok(
                verbs + order_pages(group, resource, inputs) + wait_pages(group, resource)
                    + action_pages(group, resource, inputs),
            ),
        },
{
    reveal(resource_pages);
}

/// Adds the pages of the order verbs of a resource, and these verbs.
fn generate_order_pages(
    group: &str,
    resource: &Resource,
    tables: &DocTables,
    pages: &mut Vec<ReferencePage>,
    verbs: &mut Vec<String>,
)
    ensures
        pages_of(final(pages)@) == pages_of(old(pages)@) + order_pages(
            group@,
            *resource,
            tables.inputs(),
        ),
        text::texts(final(verbs)@) == if resource.order is Some {
            text::texts(old(verbs)@).push("provision"@).push("terminate"@)
        } else {
            text::texts(old(verbs)@)
        },
{
    let ghost own = text::texts(verbs@);
    let ghost start = pages_of(pages@);
    if resource.order.is_some() {
        verbs.push("provision".to_string());
        verbs.push("terminate".to_string());
        assert(text::texts(verbs@) =~= own.push("provision"@).push("terminate"@));
        append_page(pages, provision_page(group, resource, tables.order_skeletons));
        append_page(pages, terminate_page(group, resource));
    }
    assert(pages_of(pages@) =~= start + order_pages(group@, *resource, tables.inputs()));
}

/// Adds the page of `wait` where a resource has it, and that verb.
fn generate_wait_page(
    group: &str,
    resource: &Resource,
    pages: &mut Vec<ReferencePage>,
    verbs: &mut Vec<String>,
)
    ensures
        pages_of(final(pages)@) == pages_of(old(pages)@) + wait_pages(group@, *resource),
        text::texts(final(verbs)@) == if resource.commands@.contains_key("get"@) {
            text::texts(old(verbs)@).push("wait"@)
        } else {
            text::texts(old(verbs)@)
        },
{
    let ghost before = text::texts(verbs@);
    let ghost start = pages_of(pages@);
    if resource.commands.contains_key("get") {
        verbs.push("wait".to_string());
        assert(text::texts(verbs@) =~= before.push("wait"@));
        append_page(pages, wait_page(group, resource));
    }
    assert(pages_of(pages@) =~= start + wait_pages(group@, *resource));
}

/// Adds the pages of a resource, and its entry in the index.
fn generate_resource_pages(
    group: &str,
    resource: &Resource,
    tables: &DocTables,
    pages: &mut Vec<ReferencePage>,
    entries: &mut Vec<IndexEntry>,
) -> (result: Result<(), NotExtracted>)
    ensures
        ({
            let made = resource_pages(group@, *resource, tables.inputs());
            match result {
                Ok(()) => made is Ok && (Docs {
                    pages: pages_of(final(pages)@),
                    entries: entries_of(final(entries)@),
                }) == with_resource(
                    Docs { pages: pages_of(old(pages)@), entries: entries_of(old(entries)@) },
                    group@,
                    *resource,
                    made->Ok_0,
                    page_verbs(*resource, tables.inputs()),
                ),
                Err(error) => made == Err::<Seq<Page>, NotExtracted<Seq<char>>>(error.model()),
            }
        }),
{
    let ghost inputs = tables.inputs();
    let ghost start = pages_of(pages@);
    proof {
        lemma_resource_pages(group@, *resource, inputs);
    }
    generate_verb_pages(group, resource, tables, pages)?;
    let mut verbs = manifest::own_verb_names(resource);
    let ghost known = verb_pages(group@, *resource, inputs, 5)->Ok_0;
    generate_order_pages(group, resource, tables, pages, &mut verbs);
    generate_wait_page(group, resource, pages, &mut verbs);
    assert(pages_of(pages@) == start + known + order_pages(group@, *resource, inputs)
        + wait_pages(group@, *resource));
    generate_action_pages(group, resource, tables, pages, &mut verbs);
    assert(pages_of(pages@) =~= start + resource_pages(group@, *resource, inputs)->Ok_0);
    assert(text::texts(verbs@) == page_verbs(*resource, inputs));
    assert(verbs@.len() == text::texts(verbs@).len());
    if verbs.len() > 0 {
        let ghost before = entries_of(entries@);
        let entry = IndexEntry {
            group: group.to_string(),
            resource: resource.name.clone(),
            verbs,
        };
        entries.push(entry);
        assert(entries_of(entries@) =~= before.push(entry@));
    }
    Ok(())
}

/// Generates every reference page: one per command, and the indexes.
pub fn generate(
    manifest: &Manifest,
    operations: &Table<ExtractedOperation>,
    field_enum_values: &Table<Vec<String>>,
    order_enum_values: &Table<Vec<String>>,
    request_skeletons: &Table<String>,
    _request_json_schemas: &Table<String>,
    order_skeletons: &Table<String>,
    resource_actions: &Table<Vec<ExtractedAction>>,
) -> (result: Result<Vec<ReferencePage>, NotExtracted>)
    ensures
        ({
            let inputs = inputs_of(
                *operations,
                *field_enum_values,
                *order_enum_values,
                *request_skeletons,
                *order_skeletons,
                *resource_actions,
            );
            let made = reference_pages(*manifest, inputs);
            match result {
                Ok(pages) => made == Ok::<Seq<Page>, NotExtracted<Seq<char>>>(pages_of(pages@)),
                Err(error) => made == Err::<Seq<Page>, NotExtracted<Seq<char>>>(error.model()),
            }
        }),
{
    let tables = DocTables {
        operations,
        field_enum_values,
        order_enum_values,
        request_skeletons,
        order_skeletons,
        resource_actions,
    };
    let ghost inputs = tables.inputs();
    let ghost groups = manifest.group@;
    let mut pages: Vec<ReferencePage> = Vec::new();
    let mut entries: Vec<IndexEntry> = Vec::new();
    assert(pages_of(pages@) =~= Seq::<Page>::empty());
    assert(entries_of(entries@) =~= Seq::<Entry>::empty());
    for i in 0..manifest.group.len()
        invariant
            inputs == tables.inputs(),
            inputs == inputs_of(
                *operations,
                *field_enum_values,
                *order_enum_values,
                *request_skeletons,
                *order_skeletons,
                *resource_actions,
            ),
            groups == manifest.group@,
            all_docs(groups.take(i as int), inputs) == Ok::<Docs, NotExtracted<Seq<char>>>(
                Docs { pages: pages_of(pages@), entries: entries_of(entries@) },
            ),
    {
        let group = &manifest.group[i];
        let ghost resources = group.resource@;
        let ghost docs = Docs { pages: pages_of(pages@), entries: entries_of(entries@) };
        proof {
            assert(groups.take(i + 1).drop_last() =~= groups.take(i as int));
        }
        for j in 0..group.resource.len()
            invariant
                inputs == tables.inputs(),
                inputs == inputs_of(
                    *operations,
                    *field_enum_values,
                    *order_enum_values,
                    *request_skeletons,
                    *order_skeletons,
                    *resource_actions,
                ),
                groups == manifest.group@,
                0 <= i < groups.len(),
                *group == groups[i as int],
                resources == group.resource@,
                groups.take(i + 1).drop_last() == groups.take(i as int),
                all_docs(groups.take(i as int), inputs) == Ok::<Docs, NotExtracted<Seq<char>>>(
                    docs,
                ),
                group_docs(docs, group.name@, resources.take(j as int), inputs) == Ok::<
                    Docs,
                    NotExtracted<Seq<char>>,
                >(Docs { pages: pages_of(pages@), entries: entries_of(entries@) }),
        {
            proof {
                assert(resources.take(j + 1).drop_last() =~= resources.take(j as int));
            }
            match generate_resource_pages(
                group.name.as_str(),
                &group.resource[j],
                &tables,
                &mut pages,
                &mut entries,
            ) {
                Ok(()) => {},
                Err(error) => {
                    proof {
                        lemma_resource_failure_stays(
                            docs,
                            group.name@,
                            resources,
                            inputs,
                            j + 1,
                        );
                        assert(groups.take(i + 1).last() == *group);
                        lemma_group_failure_stays(groups, inputs, i + 1);
                    }
                    return Err(error);
                },
            }
        }
        assert(resources.take(resources.len() as int) =~= resources);
        assert(groups.take(i + 1).last() == *group);
    }
    assert(groups.take(groups.len() as int) =~= groups);
    let mut indexes = index_pages(&entries);
    let ghost before = pages_of(pages@);
    let ghost added = pages_of(indexes@);
    pages.append(&mut indexes);
    assert(pages_of(pages@) =~= before + added);
    Ok(pages)
}

} // verus!
