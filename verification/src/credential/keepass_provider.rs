//! KeePass credential provider: finds a secret in the groups and entries of a database.
use vstd::prelude::*;
use vstd::string::*;
use crate::credential::{CredentialError, CredentialProvider, ResolveAction};
use crate::name_map::NameMap;
use crate::settings;
use crate::text;

verus! {

/// KeePass credential provider with direct .kdbx access.
///
/// Reference format: `group/entry/field` or just `entry` (defaults to Password field).
/// - `entry`: root-level entry, Password field
/// - `group/entry`: entry in group, Password field
/// - `group/entry/Username`: specific field
#[derive(Debug)]
pub struct KeePassProvider {
    pub database_path: String,
    pub password_env: String,
    pub key_file: Option<String>,
}

impl KeePassProvider {
    /// The provider for a database.
    pub fn new(database_path: String, password_env: String, key_file: Option<String>) -> (r:
        KeePassProvider)
        ensures
            r.database_path == database_path,
            r.password_env == password_env,
            r.key_file == key_file,
    {
        KeePassProvider { database_path, password_env, key_file }
    }
}

impl CredentialProvider for KeePassProvider {
    open spec fn begins(
        &self,
        reference: Seq<char>,
        environment: Map<Seq<char>, Seq<char>>,
        action: ResolveAction,
    ) -> bool {
        if environment.contains_key(self.password_env@) {
            &&& action matches ResolveAction::OpenKeePass {
                database_path,
                master_password,
                key_file,
                reference: kept,
            }
            &&& database_path == self.database_path
            &&& master_password@ == environment[self.password_env@]
            &&& key_file == self.key_file
            &&& kept@ == reference
        } else {
            action == ResolveAction::Fail(
                CredentialError::KpNoPassword { variable: self.password_env },
            )
        }
    }

    fn resolve(&self, reference: &str, environment: &NameMap<String>) -> (r: ResolveAction) {
        match environment.get(self.password_env.as_str()) {
            Some(master_password) => ResolveAction::OpenKeePass {
                database_path: self.database_path.clone(),
                master_password: master_password.clone(),
                key_file: settings::duplicate_option(&self.key_file),
                reference: reference.to_owned(),
            },
            None => ResolveAction::Fail(
                CredentialError::KpNoPassword { variable: self.password_env.clone() },
            ),
        }
    }
}

/// An entry of a database: its fields that are texts.
#[derive(Debug)]
pub struct VaultEntry {
    pub fields: NameMap<String>,
}

/// A group of a database, with what stands in it, in order.
#[derive(Debug)]
pub struct VaultGroup {
    pub name: String,
    pub children: Vec<VaultNode>,
}

/// What stands in a group.
#[derive(Debug)]
pub enum VaultNode {
    Group(VaultGroup),
    Entry(VaultEntry),
}

/// What came of opening a database.
#[derive(Debug)]
pub enum VaultOutcome {
    Opened(VaultGroup),
    DatabaseNotOpened { path: String },
    KeyFileNotOpened { path: String },
    KeyFileNotRead,
    NotUnlocked,
    Panicked,
}

/// What a reference names: the groups on the way, the entry, and its field.
pub struct VaultPath {
    pub groups: Seq<Seq<char>>,
    pub entry: Seq<char>,
    pub field: Seq<char>,
}

/// What the parts of a reference name.
pub open spec fn vault_path(parts: Seq<Seq<char>>) -> VaultPath {
    if parts.len() == 1 {
        VaultPath { groups: Seq::empty(), entry: parts[0], field: "Password"@ }
    } else if parts.len() == 2 {
        VaultPath { groups: parts.take(1), entry: parts[1], field: "Password"@ }
    } else {
        VaultPath {
            groups: parts.take(parts.len() - 2),
            entry: parts[parts.len() - 2],
            field: parts[parts.len() - 1],
        }
    }
}

/// The first group of the name `name` among `children`.
pub open spec fn child_group(children: Seq<VaultNode>, name: Seq<char>) -> Option<VaultGroup>
    decreases children.len(),
{
    if children.len() == 0 {
        None
    } else {
        match children[0] {
            VaultNode::Group(g) => if g.name@ == name {
                Some(g)
            } else {
                child_group(children.drop_first(), name)
            },
            VaultNode::Entry(_) => child_group(children.drop_first(), name),
        }
    }
}

/// The group that the names `path` lead to from `group`.
pub open spec fn group_at(group: VaultGroup, path: Seq<Seq<char>>) -> Option<VaultGroup>
    decreases path.len(),
{
    if path.len() == 0 {
        Some(group)
    } else {
        match child_group(group.children@, path[0]) {
            Some(g) => group_at(g, path.drop_first()),
            None => None,
        }
    }
}

/// The entry has the title `title`.
pub open spec fn has_title(entry: VaultEntry, title: Seq<char>) -> bool {
    entry.fields@.contains_key("Title"@) && entry.fields@["Title"@] == title
}

/// The first entry of the title `title` among `children`.
pub open spec fn child_entry(children: Seq<VaultNode>, title: Seq<char>) -> Option<VaultEntry>
    decreases children.len(),
{
    if children.len() == 0 {
        None
    } else {
        match children[0] {
            VaultNode::Entry(e) => if has_title(e, title) {
                Some(e)
            } else {
                child_entry(children.drop_first(), title)
            },
            VaultNode::Group(_) => child_entry(children.drop_first(), title),
        }
    }
}

/// The name under which an entry keeps the field `field`.
pub open spec fn field_key(field: Seq<char>) -> Seq<char> {
    if field == "Username"@ {
        "UserName"@
    } else {
        field
    }
}

/// What a reference comes to in a database with the root group `root`.
pub open spec fn finds_secret(root: VaultGroup, path: VaultPath, action: ResolveAction) -> bool {
    match group_at(root, path.groups) {
        None => action matches ResolveAction::Fail(CredentialError::KpNoGroup { group }) && group@
            == text::joined(path.groups, "/"@),
        Some(group) => match child_entry(group.children@, path.entry) {
            None => action matches ResolveAction::Fail(CredentialError::KpNoEntry { entry })
                && entry@ == path.entry,
            Some(found) => if found.fields@.contains_key(field_key(path.field)) {
                action matches ResolveAction::Done { secret } && secret@
                    == found.fields@[field_key(path.field)]
            } else {
                action matches ResolveAction::Fail(CredentialError::KpNoField { entry, field })
                    && entry@ == path.entry && field@ == path.field
            },
        },
    }
}

/// The first group of the name `name` among `children`.
fn find_child_group<'a>(children: &'a Vec<VaultNode>, name: &str) -> (r: Option<&'a VaultGroup>)
    ensures
        match r {
            Some(g) => child_group(children@, name@) == Some(*g),
            None => child_group(children@, name@) is None,
        },
{
    let ghost all = children@;
    let mut i: usize = 0;
    assert(all.skip(0) =~= all);
    while i < children.len()
        invariant
            i <= children@.len(),
            all == children@,
            child_group(all, name@) == child_group(all.skip(i as int), name@),
        decreases children@.len() - i,
    {
        proof {
            assert(all.skip(i as int)[0] == all[i as int]);
            assert(all.skip(i as int).drop_first() =~= all.skip(i + 1));
        }
        if let VaultNode::Group(g) = &children[i] {
            if text::same_text(g.name.as_str(), name) {
                return Some(g);
            }
        }
        i += 1;
    }
    None
}

/// The group that the names `path` lead to from `group`.
pub fn find_group<'a>(group: &'a VaultGroup, path: &[String]) -> (r: Option<&'a VaultGroup>)
    ensures
        match r {
            Some(g) => group_at(*group, path@.map_values(|p: String| p@)) == Some(*g),
            None => group_at(*group, path@.map_values(|p: String| p@)) is None,
        },
{
    let ghost names = path@.map_values(|p: String| p@);
    let mut current = group;
    let mut i: usize = 0;
    assert(names.skip(0) =~= names);
    while i < path.len()
        invariant
            i <= path@.len(),
            names == path@.map_values(|p: String| p@),
            group_at(*group, names) == group_at(*current, names.skip(i as int)),
        decreases path@.len() - i,
    {
        proof {
            assert(names.skip(i as int)[0] == path@[i as int]@);
            assert(names.skip(i as int).drop_first() =~= names.skip(i + 1));
        }
        match find_child_group(&current.children, path[i].as_str()) {
            Some(g) => {
                current = g;
            },
            None => {
                return None;
            },
        }
        i += 1;
    }
    Some(current)
}

/// The first entry of the title `title` among `children`.
fn find_child_entry<'a>(children: &'a Vec<VaultNode>, title: &str) -> (r: Option<&'a VaultEntry>)
    ensures
        match r {
            Some(e) => child_entry(children@, title@) == Some(*e),
            None => child_entry(children@, title@) is None,
        },
{
    let ghost all = children@;
    let mut i: usize = 0;
    assert(all.skip(0) =~= all);
    while i < children.len()
        invariant
            i <= children@.len(),
            all == children@,
            child_entry(all, title@) == child_entry(all.skip(i as int), title@),
        decreases children@.len() - i,
    {
        proof {
            assert(all.skip(i as int)[0] == all[i as int]);
            assert(all.skip(i as int).drop_first() =~= all.skip(i + 1));
        }
        if let VaultNode::Entry(e) = &children[i] {
            if let Some(found) = e.fields.get("Title") {
                if text::same_text(found.as_str(), title) {
                    return Some(e);
                }
            }
        }
        i += 1;
    }
    None
}

/// Finds the secret of `reference` in a database with the root group `root`.
pub fn find_secret(root: &VaultGroup, reference: &str) -> (r: ResolveAction)
    ensures
        finds_secret(*root, vault_path(text::split(reference@, '/')), r),
{
    let parts = text::split_text(reference, '/');
    let ghost names = parts.deep_view();
    let count: usize = parts.len();
    let depth: usize = if count == 1 {
        0
    } else if count == 2 {
        1
    } else {
        count - 2
    };
    let entry_name = parts[depth].as_str();
    let field_name = if count > 2 {
        parts[count - 1].as_str()
    } else {
        "Password"
    };
    let path = vstd::slice::slice_subrange(parts.as_slice(), 0, depth);
    let ghost groups = path@.map_values(|p: String| p@);
    proof {
        assert(groups =~= vault_path(names).groups);
        assert(names[depth as int] == parts@[depth as int]@);
        assert(names[count - 1] == parts@[count - 1]@);
    }
    let group = match find_group(root, path) {
        Some(group) => group,
        None => {
            return ResolveAction::Fail(
                CredentialError::KpNoGroup { group: text::join(path, "/") },
            );
        },
    };
    match find_child_entry(&group.children, entry_name) {
        None => ResolveAction::Fail(CredentialError::KpNoEntry { entry: entry_name.to_owned() }),
        Some(found) => {
            let key = if text::same_text(field_name, "Username") {
                "UserName"
            } else {
                field_name
            };
            match found.fields.get(key) {
                Some(secret) => ResolveAction::Done { secret: secret.clone() },
                None => ResolveAction::Fail(
                    CredentialError::KpNoField {
                        entry: entry_name.to_owned(),
                        field: field_name.to_owned(),
                    },
                ),
            }
        },
    }
}

/// What comes after a database was to be opened.
pub open spec fn after_opening(
    outcome: VaultOutcome,
    reference: Seq<char>,
    action: ResolveAction,
) -> bool {
    match outcome {
        VaultOutcome::Opened(root) => finds_secret(
            root,
            vault_path(text::split(reference, '/')),
            action,
        ),
        VaultOutcome::DatabaseNotOpened { path } => action == ResolveAction::Fail(
            CredentialError::KpDatabaseNotOpened { path },
        ),
        VaultOutcome::KeyFileNotOpened { path } => action == ResolveAction::Fail(
            CredentialError::KpKeyFileNotOpened { path },
        ),
        VaultOutcome::KeyFileNotRead => action == ResolveAction::Fail(
            CredentialError::KpKeyFileNotRead,
        ),
        VaultOutcome::NotUnlocked => action == ResolveAction::Fail(CredentialError::KpNotUnlocked),
        VaultOutcome::Panicked => action == ResolveAction::Fail(CredentialError::KpPanicked),
    }
}

/// Goes on after a database was to be opened.
pub fn resolve_keepass(outcome: &VaultOutcome, reference: &str) -> (r: ResolveAction)
    ensures
        after_opening(*outcome, reference@, r),
{
    match outcome {
        VaultOutcome::Opened(root) => find_secret(root, reference),
        VaultOutcome::DatabaseNotOpened { path } => ResolveAction::Fail(
            CredentialError::KpDatabaseNotOpened { path: path.clone() },
        ),
        VaultOutcome::KeyFileNotOpened { path } => ResolveAction::Fail(
            CredentialError::KpKeyFileNotOpened { path: path.clone() },
        ),
        VaultOutcome::KeyFileNotRead => ResolveAction::Fail(CredentialError::KpKeyFileNotRead),
        VaultOutcome::NotUnlocked => ResolveAction::Fail(CredentialError::KpNotUnlocked),
        VaultOutcome::Panicked => ResolveAction::Fail(CredentialError::KpPanicked),
    }
}

/// The three forms of a reference: `entry`, `group/entry` and `group/entry/field`.
pub proof fn law_reference_forms(group: Seq<char>, entry: Seq<char>, field: Seq<char>)
    requires
        !group.contains('/'),
        !entry.contains('/'),
        !field.contains('/'),
    ensures
        vault_path(text::split(entry, '/')) == (VaultPath {
            groups: Seq::empty(),
            entry,
            field: "Password"@,
        }),
        vault_path(text::split(group.push('/') + entry, '/')) == (VaultPath {
            groups: seq![group],
            entry,
            field: "Password"@,
        }),
        vault_path(text::split((group.push('/') + entry).push('/') + field, '/')) == (VaultPath {
            groups: seq![group],
            entry,
            field,
        }),
{
    text::lemma_split_single(entry, '/');
    text::lemma_split_single(group, '/');
    text::lemma_split_last(group, '/', entry);
    text::lemma_split_last(group.push('/') + entry, '/', field);
    let two = seq![group].push(entry);
    let three = two.push(field);
    assert(two.take(1) =~= seq![group]);
    assert(three.take(1) =~= seq![group]);
}

/// Groups nest to any depth: the group of `path` and then `last` is the group `last` within the
/// group of `path`.
pub proof fn law_groups_nest(root: VaultGroup, path: Seq<Seq<char>>, last: Seq<char>)
    ensures
        group_at(root, path.push(last)) == match group_at(root, path) {
            Some(g) => child_group(g.children@, last),
            None => None,
        },
    decreases path.len(),
{
    if path.len() == 0 {
        assert(path.push(last).drop_first() =~= Seq::empty());
        match child_group(root.children@, last) {
            Some(g) => {
                assert(group_at(g, Seq::empty()) == Some(g));
            },
            None => {},
        }
    } else {
        assert(path.push(last)[0] == path[0]);
        assert(path.push(last).drop_first() =~= path.drop_first().push(last));
        match child_group(root.children@, path[0]) {
            Some(g) => {
                law_groups_nest(g, path.drop_first(), last);
            },
            None => {},
        }
    }
}

/// The entry that is found is the first one of its title, wherever it stands, and none is found
/// exactly when no entry has the title.
pub proof fn law_first_entry_is_found(children: Seq<VaultNode>, title: Seq<char>, i: int)
    ensures
        0 <= i < children.len() && (children[i] matches VaultNode::Entry(e)
            && e.fields@.contains_key("Title"@) && e.fields@["Title"@] == title) && (forall|j: int|
            0 <= j < i ==> !(#[trigger] children[j] matches VaultNode::Entry(e)
                && e.fields@.contains_key("Title"@) && e.fields@["Title"@] == title))
            ==> child_entry(children, title) == Some(children[i]->Entry_0),
        (forall|j: int|
            0 <= j < children.len() ==> !(#[trigger] children[j] matches VaultNode::Entry(e)
                && e.fields@.contains_key("Title"@) && e.fields@["Title"@] == title))
            <==> child_entry(children, title) is None,
    decreases children.len(),
{
    if children.len() > 0 {
        let rest = children.drop_first();
        law_first_entry_is_found(rest, title, i - 1);
        assert forall|j: int| 0 <= j < rest.len() implies #[trigger] rest[j] == children[j + 1] by {
        }
        let titled = |n: VaultNode|
            n matches VaultNode::Entry(e) && e.fields@.contains_key("Title"@)
                && e.fields@["Title"@] == title;
        if titled(children[0]) {
            assert(child_entry(children, title) == Some(children[0]->Entry_0));
        } else {
            assert(child_entry(children, title) == child_entry(rest, title));
            if child_entry(rest, title) is None {
                assert forall|j: int| 0 <= j < children.len() implies !titled(
                    #[trigger] children[j],
                ) by {
                    if j > 0 {
                        assert(rest[j - 1] == children[j]);
                    }
                }
            } else {
                let k = choose|k: int| 0 <= k < rest.len() && titled(#[trigger] rest[k]);
                assert(titled(children[k + 1]));
            }
            if 0 < i < children.len() {
                assert(rest[i - 1] == children[i]);
            }
        }
    }
}

/// The group that is found is the first one of its name, wherever it stands, and none is found
/// exactly when no group has the name.
pub proof fn law_first_group_is_found(children: Seq<VaultNode>, name: Seq<char>, i: int)
    ensures
        0 <= i < children.len() && (children[i] matches VaultNode::Group(g) && g.name@ == name) && (
        forall|j: int|
            0 <= j < i ==> !(#[trigger] children[j] matches VaultNode::Group(g) && g.name@ == name))
            ==> child_group(children, name) == Some(children[i]->Group_0),
        (forall|j: int|
            0 <= j < children.len() ==> !(#[trigger] children[j] matches VaultNode::Group(g)
                && g.name@ == name)) <==> child_group(children, name) is None,
    decreases children.len(),
{
    if children.len() > 0 {
        let rest = children.drop_first();
        law_first_group_is_found(rest, name, i - 1);
        assert forall|j: int| 0 <= j < rest.len() implies #[trigger] rest[j] == children[j + 1] by {
        }
        let named = |n: VaultNode| n matches VaultNode::Group(g) && g.name@ == name;
        if named(children[0]) {
            assert(child_group(children, name) == Some(children[0]->Group_0));
        } else {
            assert(child_group(children, name) == child_group(rest, name));
            if child_group(rest, name) is None {
                assert forall|j: int| 0 <= j < children.len() implies !named(
                    #[trigger] children[j],
                ) by {
                    if j > 0 {
                        assert(rest[j - 1] == children[j]);
                    }
                }
            } else {
                let k = choose|k: int| 0 <= k < rest.len() && named(#[trigger] rest[k]);
                assert(named(children[k + 1]));
            }
            if 0 < i < children.len() {
                assert(rest[i - 1] == children[i]);
            }
        }
    }
}

/// No names lead to the group itself, and one name to the group of that name within it.
pub proof fn law_group_path_starts(root: VaultGroup, name: Seq<char>)
    ensures
        group_at(root, Seq::empty()) == Some(root),
        group_at(root, seq![name]) == child_group(root.children@, name),
{
    law_groups_nest(root, Seq::empty(), name);
    assert(Seq::<Seq<char>>::empty().push(name) =~= seq![name]);
}

/// In a reference of three or more parts the last one is the field, the one before it the entry,
/// and those before are the groups on the way, however many they are.
pub proof fn law_deep_reference(groups: Seq<Seq<char>>, entry: Seq<char>, field: Seq<char>)
    requires
        groups.len() > 0,
        forall|i: int| 0 <= i < groups.len() ==> !(#[trigger] groups[i]).contains('/'),
        !entry.contains('/'),
        !field.contains('/'),
    ensures
        vault_path(
            text::split(text::joined(groups.push(entry).push(field), seq!['/']), '/'),
        ) == (VaultPath { groups, entry, field }),
{
    let parts = groups.push(entry).push(field);
    assert forall|i: int| 0 <= i < parts.len() implies !(#[trigger] parts[i]).contains('/') by {
        if i < groups.len() {
            assert(parts[i] == groups[i]);
        }
    }
    text::law_split_join(entry, parts, '/');
    assert(parts.take(parts.len() - 2) =~= groups);
}

/// Once its entry is found, a reference comes to the field that it names, where the entry has it;
/// the field Username stands under UserName. A secret comes from nowhere else.
pub proof fn law_secret_is_the_field(
    root: VaultGroup,
    path: VaultPath,
    group: VaultGroup,
    entry: VaultEntry,
    key: Seq<char>,
    action: ResolveAction,
)
    requires
        group_at(root, path.groups) == Some(group),
        child_entry(group.children@, path.entry) == Some(entry),
        path.field == "Username"@ ==> key == "UserName"@,
        path.field != "Username"@ ==> key == path.field,
        finds_secret(root, path, action),
    ensures
        action is Done <==> entry.fields@.contains_key(key),
        action matches ResolveAction::Done { secret } ==> secret@ == entry.fields@[key],
        !entry.fields@.contains_key(key) ==> (action matches ResolveAction::Fail(e) && e.words()
            == "KeePass entry '"@ + path.entry + "' has no field '"@ + path.field + "'"@),
{
}

/// A reference that leads nowhere is told by the groups, or by the entry, that are not there.
pub proof fn law_missing_is_told(root: VaultGroup, path: VaultPath, action: ResolveAction)
    requires
        finds_secret(root, path, action),
    ensures
        group_at(root, path.groups) is None ==> (action matches ResolveAction::Fail(e) && e.words()
            == "KeePass group '"@ + text::joined(path.groups, "/"@) + "' not found"@),
        group_at(root, path.groups) is Some && child_entry(
            group_at(root, path.groups)->0.children@,
            path.entry,
        ) is None ==> (action matches ResolveAction::Fail(e) && e.words() == "KeePass entry '"@
            + path.entry + "' not found"@),
{
}

/// The database is opened with the password that the environment holds, and a reference is looked
/// up only in a database that was opened; otherwise the reason is told.
pub proof fn law_database_is_opened(
    provider: KeePassProvider,
    reference: Seq<char>,
    environment: Map<Seq<char>, Seq<char>>,
    first: ResolveAction,
    outcome: VaultOutcome,
    next: ResolveAction,
)
    requires
        provider.begins(reference, environment, first),
        after_opening(outcome, reference, next),
    ensures
        environment.contains_key(provider.password_env@) ==> (
        first matches ResolveAction::OpenKeePass {
            database_path,
            master_password,
            key_file,
            reference: kept,
        } && database_path == provider.database_path && master_password@
            == environment[provider.password_env@] && key_file == provider.key_file && kept@
            == reference),
        !environment.contains_key(provider.password_env@) ==> (first matches ResolveAction::Fail(e)
            && e.words() == "KeePass master password env var '"@ + provider.password_env@
            + "' not set"@),
        next is Done ==> outcome is Opened,
        outcome matches VaultOutcome::DatabaseNotOpened { path } ==> (
        next matches ResolveAction::Fail(e) && e.words() == "failed to open KeePass database: "@
            + path@),
        outcome matches VaultOutcome::KeyFileNotOpened { path } ==> (
        next matches ResolveAction::Fail(e) && e.words() == "failed to open KeePass key file: "@
            + path@),
        outcome is KeyFileNotRead ==> next == ResolveAction::Fail(
            CredentialError::KpKeyFileNotRead,
        ),
        outcome is NotUnlocked ==> next == ResolveAction::Fail(CredentialError::KpNotUnlocked),
        outcome is Panicked ==> next == ResolveAction::Fail(CredentialError::KpPanicked),
        outcome matches VaultOutcome::Opened(root) ==> finds_secret(
            root,
            vault_path(text::split(reference, '/')),
            next,
        ),
{
}

} // verus!
