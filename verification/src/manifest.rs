//! The command manifest: which groups, resources and verbs waldur-cli has.
use crate::table::Table;
use crate::text;
use vstd::prelude::*;

verus! {

#[derive(Debug)]
pub struct Manifest {
    pub group: Vec<Group>,
}

#[derive(Debug)]
pub struct Group {
    pub name: String,
    pub about: String,
    pub resource: Vec<Resource>,
}

#[derive(Debug)]
pub struct Resource {
    pub name: String,
    pub about: String,
    pub columns: Vec<String>,
    /// The operation id of every verb that the resource has.
    pub commands: Table<String>,
    /// Set for resources that are provisioned through Waldur's marketplace order flow
    /// rather than a direct REST create: they also have `provision` and `terminate`.
    pub order: Option<OrderConfig>,
    /// Set to discover the custom actions of the resource; absent means none.
    pub actions: Option<ActionsConfig>,
    /// Set to give `get` a `--web` flag, which opens the resource in Waldur's web UI.
    pub web: Option<WebConfig>,
}

/// Where `get --web` finds a resource in HomePort, Waldur's web UI. `path` is a route
/// template with a literal `{uuid}` placeholder; `uuid_field` is the response field to
/// substitute into it, where that is not the uuid given on the command line.
#[derive(Debug)]
pub struct WebConfig {
    pub path: String,
    pub uuid_field: Option<String>,
}

/// Discovery of custom actions. Every action beneath the resource's own path becomes a
/// verb, except those in `exclude`, which are not meant for direct use.
#[derive(Debug)]
pub struct ActionsConfig {
    pub exclude: Vec<String>,
}

impl Default for ActionsConfig {
    fn default() -> (config: ActionsConfig)
        ensures
            text::texts(config.exclude@) == Seq::<Seq<char>>::empty(),
    {
        let config = ActionsConfig { exclude: Vec::new() };
        assert(text::texts(config.exclude@) =~= Seq::<Seq<char>>::empty());
        config
    }
}

/// Provisioning through a marketplace order. `offering_type` (e.g. `OpenStack.Instance`)
/// locates the typed attributes schema of the order template; without it the template
/// has generic attributes.
#[derive(Debug)]
pub struct OrderConfig {
    pub offering_type: Option<String>,
}

/// The verbs that have generated handling, in the order in which they are emitted.
pub const KNOWN_VERBS: [&'static str; 5] = ["list", "get", "create", "update", "delete"];

/// The text of the known verb at `i`.
pub open spec fn verb_at(i: int) -> Seq<char> {
    KNOWN_VERBS@[i]@
}

/// The known verbs are these five texts, all different.
pub proof fn known_verbs_differ()
    ensures
        verb_at(0) == "list"@,
        verb_at(1) == "get"@,
        verb_at(2) == "create"@,
        verb_at(3) == "update"@,
        verb_at(4) == "delete"@,
        "list"@ != "get"@ && "list"@ != "create"@ && "list"@ != "update"@ && "list"@ != "delete"@,
        "get"@ != "create"@ && "get"@ != "update"@ && "get"@ != "delete"@,
        "create"@ != "update"@ && "create"@ != "delete"@ && "update"@ != "delete"@,
{
    reveal_strlit("list");
    reveal_strlit("get");
    reveal_strlit("create");
    reveal_strlit("update");
    reveal_strlit("delete");
    assert("list"@[0] == 'l');
    assert("get"@[0] == 'g');
    assert("create"@[0] == 'c');
    assert("update"@[0] == 'u');
    assert("delete"@[0] == 'd');
}

/// The known verbs among the first `n` that a resource has.
pub open spec fn own_verbs(resource: Resource, n: nat) -> Seq<Seq<char>>
    decreases n,
{
    if n == 0 {
        Seq::empty()
    } else if resource.commands@.contains_key(verb_at(n - 1)) {
        own_verbs(resource, (n - 1) as nat).push(verb_at(n - 1))
    } else {
        own_verbs(resource, (n - 1) as nat)
    }
}

/// The known verbs that a resource has, in their order.
pub fn own_verb_names(resource: &Resource) -> (verbs: Vec<String>)
    ensures
        text::texts(verbs@) == own_verbs(*resource, 5),
{
    let mut verbs: Vec<String> = Vec::new();
    assert(text::texts(verbs@) =~= own_verbs(*resource, 0));
    for i in 0..5usize
        invariant
            text::texts(verbs@) == own_verbs(*resource, i as nat),
    {
        let verb = KNOWN_VERBS[i];
        assert(verb@ == verb_at(i as int));
        if resource.commands.contains_key(verb) {
            let ghost before = text::texts(verbs@);
            verbs.push(verb.to_string());
            assert(text::texts(verbs@) =~= before.push(verb@));
        }
    }
    verbs
}

} // verus!
