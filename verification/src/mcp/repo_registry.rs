//! The registry of indexed repositories, kept in `~/.synapse/repos.json`.
//! Paths are held as text; two paths are the same when std's `Path`
//! comparison says so.
use crate::text::{push_str, str_eq, string_from_chars};
use crate::paths::{paths_equal, same_path};
use vstd::prelude::*;

verus! {

/// Why a registry operation failed.
#[derive(Debug)]
pub enum RegistryError {
    NoHome,
    Io(String),
    Json(String),
    DuplicatePath { path: String, existing_name: String },
    DuplicateName { name: String, existing_path: String },
}

/// What a registry error displays.
pub open spec fn registry_error_message(e: RegistryError) -> Seq<char> {
    match e {
        RegistryError::NoHome => "HOME is unset; cannot locate ~/.synapse/repos.json"@,
        RegistryError::Io(m) => "registry I/O: "@ + m@,
        RegistryError::Json(m) => "registry JSON: "@ + m@,
        RegistryError::DuplicatePath { path, existing_name } => "repo path '"@ + path@ + "' is already registered as '"@
            + existing_name@ + "'; pass --force-register to overwrite"@,
        RegistryError::DuplicateName { name, existing_path } => "repo name '"@ + name@ + "' is already used by '"@
            + existing_path@ + "'"@,
    }
}

impl RegistryError {
    /// The error as text.
    pub fn message(&self) -> (m: String)
        ensures
            m@ == registry_error_message(*self),
    {
        let mut v: Vec<char> = Vec::new();
        match self {
            RegistryError::NoHome => push_str(&mut v, "HOME is unset; cannot locate ~/.synapse/repos.json"),
            RegistryError::Io(m) => {
                push_str(&mut v, "registry I/O: ");
                push_str(&mut v, m.as_str());
            },
            RegistryError::Json(m) => {
                push_str(&mut v, "registry JSON: ");
                push_str(&mut v, m.as_str());
            },
            RegistryError::DuplicatePath { path, existing_name } => {
                push_str(&mut v, "repo path '");
                push_str(&mut v, path.as_str());
                push_str(&mut v, "' is already registered as '");
                push_str(&mut v, existing_name.as_str());
                push_str(&mut v, "'; pass --force-register to overwrite");
            },
            RegistryError::DuplicateName { name, existing_path } => {
                push_str(&mut v, "repo name '");
                push_str(&mut v, name.as_str());
                push_str(&mut v, "' is already used by '");
                push_str(&mut v, existing_path.as_str());
                push_str(&mut v, "'");
            },
        }
        proof {
            assert(v@ =~= registry_error_message(*self));
        }
        string_from_chars(v.as_slice())
    }
}

/// One indexed repository.
#[derive(Debug, Clone, PartialEq, Eq)]
pub struct RepoEntry {
    pub name: String,
    pub path: String,
    pub db_path: String,
    pub indexed_at: String,
    pub indexed_commit: String,
}

/// The abstract value of a `RepoEntry`.
pub struct EntryView {
    pub name: Seq<char>,
    pub path: Seq<char>,
    pub db_path: Seq<char>,
    pub indexed_at: Seq<char>,
    pub indexed_commit: Seq<char>,
}

impl View for RepoEntry {
    type V = EntryView;

    open spec fn view(&self) -> EntryView {
        EntryView {
            name: self.name@,
            path: self.path@,
            db_path: self.db_path@,
            indexed_at: self.indexed_at@,
            indexed_commit: self.indexed_commit@,
        }
    }
}

/// All indexed repositories, in the order they were added.
#[derive(Debug, Default, Clone)]
pub struct RepoRegistry {
    pub entries: Vec<RepoEntry>,
}

/// The views of the registry's entries.
pub open spec fn entry_views(s: Seq<RepoEntry>) -> Seq<EntryView> {
    s.map_values(|e: RepoEntry| e@)
}

/// The first position in `es` whose entry satisfies `p`.
pub open spec fn first_where(es: Seq<EntryView>, p: spec_fn(EntryView) -> bool) -> Option<int> {
    if exists|i: int| 0 <= i < es.len() && p(es[i]) {
        Some(choose|i: int| 0 <= i < es.len() && p(es[i]) && forall|j: int| 0 <= j < i ==> !p(es[j]))
    } else {
        None
    }
}

proof fn lemma_first_where(es: Seq<EntryView>, p: spec_fn(EntryView) -> bool, i: int)
    requires
        0 <= i < es.len(),
        p(es[i]),
        forall|j: int| 0 <= j < i ==> !p(es[j]),
    ensures
        first_where(es, p) == Some(i),
{
    let k = choose|k: int| 0 <= k < es.len() && p(es[k]) && forall|j: int| 0 <= j < k ==> !p(es[j]);
    assert(0 <= k < es.len() && p(es[k]) && forall|j: int| 0 <= j < k ==> !p(es[j]));
    if k < i {
        assert(!p(es[k]));
    } else if k > i {
        assert(!p(es[i]));
    }
}

/// The first entry registered at `path`.
pub open spec fn position_of_path(es: Seq<EntryView>, path: Seq<char>) -> Option<int> {
    first_where(es, |e: EntryView| same_path(e.path, path))
}

/// The first entry named `name`.
pub open spec fn position_of_name(es: Seq<EntryView>, name: Seq<char>) -> Option<int> {
    first_where(es, |e: EntryView| e.name == name)
}

/// The outcome of adding `e` to a registry holding `es`, with or without
/// `force`: the entries afterwards, or the error.
pub enum AddOutcome {
    Added(Seq<EntryView>),
    PathTaken(Seq<char>, Seq<char>),
    NameTaken(Seq<char>, Seq<char>),
}

/// What adding `e` does: an entry at the same path is replaced when
/// `force` is given (keeping its name, unless that name is empty) and
/// refused otherwise; a new path with a name already in use is refused;
/// any other entry is appended.
pub open spec fn add_outcome(es: Seq<EntryView>, e: EntryView, force: bool) -> AddOutcome {
    match position_of_path(es, e.path) {
        Some(p) => if !force {
            AddOutcome::PathTaken(e.path, es[p].name)
        } else {
            let kept = if es[p].name.len() > 0 { EntryView { name: es[p].name, ..e } } else { e };
            AddOutcome::Added(es.update(p, kept))
        },
        None => match position_of_name(es, e.name) {
            Some(q) => AddOutcome::NameTaken(e.name, es[q].path),
            None => AddOutcome::Added(es.push(e)),
        },
    }
}

impl RepoRegistry {
    /// The position of the first entry at `path`.
    fn position_by_path(&self, path: &str) -> (r: Option<usize>)
        ensures
            r matches Some(i) ==> i < self.entries@.len() && position_of_path(entry_views(self.entries@), path@) == Some(i as int),
            r is None ==> position_of_path(entry_views(self.entries@), path@) is None,
    {
        let ghost es = entry_views(self.entries@);
        let ghost p = |e: EntryView| same_path(e.path, path@);
        let mut i: usize = 0;
        while i < self.entries.len()
            invariant
                i <= self.entries@.len(),
                es == entry_views(self.entries@),
                p == (|e: EntryView| same_path(e.path, path@)),
                forall|j: int| 0 <= j < i ==> !p(#[trigger] es[j]),
            decreases self.entries.len() - i,
        {
            if paths_equal(self.entries[i].path.as_str(), path) {
                proof {
                    assert(p(es[i as int]));
                    lemma_first_where(es, p, i as int);
                }
                return Some(i);
            }
            proof {
                assert(!p(es[i as int]));
            }
            i = i + 1;
        }
        proof {
            assert(!exists|k: int| 0 <= k < es.len() && p(es[k]));
        }
        None
    }

    /// The position of the first entry named `name`.
    fn position_by_name(&self, name: &str) -> (r: Option<usize>)
        ensures
            r matches Some(i) ==> i < self.entries@.len() && position_of_name(entry_views(self.entries@), name@) == Some(i as int),
            r is None ==> position_of_name(entry_views(self.entries@), name@) is None,
    {
        let ghost es = entry_views(self.entries@);
        let ghost p = |e: EntryView| e.name == name@;
        let mut i: usize = 0;
        while i < self.entries.len()
            invariant
                i <= self.entries@.len(),
                es == entry_views(self.entries@),
                p == (|e: EntryView| e.name == name@),
                forall|j: int| 0 <= j < i ==> !p(#[trigger] es[j]),
            decreases self.entries.len() - i,
        {
            if str_eq(self.entries[i].name.as_str(), name) {
                proof {
                    assert(p(es[i as int]));
                    lemma_first_where(es, p, i as int);
                }
                return Some(i);
            }
            proof {
                assert(!p(es[i as int]));
            }
            i = i + 1;
        }
        proof {
            assert(!exists|k: int| 0 <= k < es.len() && p(es[k]));
        }
        None
    }

    /// Adds `entry`, or with `force` replaces the entry at the same path
    /// (keeping its name when it has one). Refuses a path already
    /// registered without `force`, and a new path whose name is taken.
    pub fn add_or_update(&mut self, entry: RepoEntry, force: bool) -> (r: Result<(), RegistryError>)
        ensures
            match add_outcome(entry_views(old(self).entries@), entry@, force) {
                AddOutcome::Added(es) => r is Ok && entry_views(final(self).entries@) == es,
                AddOutcome::PathTaken(path, existing_name) => entry_views(final(self).entries@)
                    == entry_views(old(self).entries@) && (r matches Err(
                    RegistryError::DuplicatePath { path: p, existing_name: n },
                ) && p@ == path && n@ == existing_name),
                AddOutcome::NameTaken(name, existing_path) => entry_views(final(self).entries@)
                    == entry_views(old(self).entries@) && (r matches Err(
                    RegistryError::DuplicateName { name: nm, existing_path: ep },
                ) && nm@ == name && ep@ == existing_path),
            },
    {
        let ghost es = entry_views(self.entries@);
        let ghost ev = entry@;
        match self.position_by_path(entry.path.as_str()) {
            Some(position) => {
                if !force {
                    let existing_name = self.entries[position].name.clone();
                    proof {
                        assert(add_outcome(es, ev, force) == AddOutcome::PathTaken(ev.path, es[position as int].name));
                    }
                    return Err(RegistryError::DuplicatePath { path: entry.path.clone(), existing_name });
                }
                let mut updated = entry;
                if !self.entries[position].name.as_str().is_empty() {
                    updated.name = self.entries[position].name.clone();
                }
                let ghost u = updated@;
                proof {
                    let kept = if es[position as int].name.len() > 0 {
                        EntryView { name: es[position as int].name, ..ev }
                    } else {
                        ev
                    };
                    assert(u == kept);
                    assert(add_outcome(es, ev, force) == AddOutcome::Added(es.update(position as int, kept)));
                }
                self.entries.set(position, updated);
                proof {
                    assert(entry_views(self.entries@) =~= es.update(position as int, u));
                }
                Ok(())
            },
            None => {
                match self.position_by_name(entry.name.as_str()) {
                    Some(q) => {
                        let existing_path = self.entries[q].path.clone();
                        proof {
                            assert(add_outcome(es, ev, force) == AddOutcome::NameTaken(ev.name, es[q as int].path));
                        }
                        Err(RegistryError::DuplicateName { name: entry.name, existing_path })
                    },
                    None => {
                        proof {
                            assert(add_outcome(es, ev, force) == AddOutcome::Added(es.push(ev)));
                        }
                        self.entries.push(entry);
                        proof {
                            assert(entry_views(self.entries@) =~= es.push(ev));
                        }
                        Ok(())
                    },
                }
            },
        }
    }

    /// The first entry named `name`.
    pub fn find_by_name(&self, name: &str) -> (r: Option<&RepoEntry>)
        ensures
            match position_of_name(entry_views(self.entries@), name@) {
                Some(i) => r == Some(&self.entries@[i]),
                None => r is None,
            },
    {
        match self.position_by_name(name) {
            Some(i) => Some(&self.entries[i]),
            None => None,
        }
    }

    /// The first entry registered at `path`.
    pub fn find_by_path(&self, path: &str) -> (r: Option<&RepoEntry>)
        ensures
            match position_of_path(entry_views(self.entries@), path@) {
                Some(i) => r == Some(&self.entries@[i]),
                None => r is None,
            },
    {
        match self.position_by_path(path) {
            Some(i) => Some(&self.entries[i]),
            None => None,
        }
    }
}

proof fn lemma_first_exists(es: Seq<EntryView>, p: spec_fn(EntryView) -> bool, i: int)
    requires
        0 <= i < es.len(),
        p(es[i]),
    ensures
        exists|m: int| 0 <= m < es.len() && p(es[m]) && forall|j: int| 0 <= j < m ==> !p(es[j]),
    decreases i,
{
    if exists|j: int| 0 <= j < i && p(es[j]) {
        let j = choose|j: int| 0 <= j < i && p(es[j]);
        lemma_first_exists(es, p, j);
    } else {
        assert(forall|j: int| 0 <= j < i ==> !p(es[j]));
    }
}

proof fn lemma_first_where_range(es: Seq<EntryView>, p: spec_fn(EntryView) -> bool)
    ensures
        first_where(es, p) matches Some(i) ==> 0 <= i < es.len() && p(es[i]),
{
    if exists|i: int| 0 <= i < es.len() && p(es[i]) {
        let i = choose|i: int| 0 <= i < es.len() && p(es[i]);
        lemma_first_exists(es, p, i);
    }
}

/// No two entries share a name.
pub open spec fn names_distinct(es: Seq<EntryView>) -> bool {
    forall|i: int, j: int| 0 <= i < j < es.len() ==> es[i].name != es[j].name
}

proof fn lemma_position_of_name_none(es: Seq<EntryView>, name: Seq<char>, i: int)
    requires
        position_of_name(es, name) is None,
        0 <= i < es.len(),
    ensures
        es[i].name != name,
{
    let p = |e: EntryView| e.name == name;
    if es[i].name == name {
        assert(p(es[i]));
    }
}

/// An entry added at a new path is then the one found by its name, at
/// the end of the list.
pub proof fn lemma_added_entry_found_by_name(es: Seq<EntryView>, e: EntryView, force: bool)
    requires
        position_of_path(es, e.path) is None,
        add_outcome(es, e, force) is Added,
    ensures
        add_outcome(es, e, force) matches AddOutcome::Added(es2) && es2.len() == es.len() + 1 && es2[es.len() as int] == e
            && position_of_name(es2, e.name) == Some(es.len() as int),
{
    let es2 = es.push(e);
    assert forall|j: int| 0 <= j < es.len() implies !((|x: EntryView| x.name == e.name)(es2[j])) by {
        lemma_position_of_name_none(es, e.name, j);
    }
    lemma_first_where(es2, |x: EntryView| x.name == e.name, es.len() as int);
}

/// Adding an entry keeps the names distinct, unless it replaces, by force,
/// an entry whose name is empty (the added entry's name is then taken as
/// is, and may be in use already).
#[verifier::spinoff_prover]
pub proof fn lemma_add_keeps_names_distinct(es: Seq<EntryView>, e: EntryView, force: bool)
    requires
        names_distinct(es),
        add_outcome(es, e, force) is Added,
        !(position_of_path(es, e.path) matches Some(p) && es[p].name.len() == 0),
    ensures
        add_outcome(es, e, force) matches AddOutcome::Added(es2) && names_distinct(es2),
{
    match position_of_path(es, e.path) {
        Some(p) => {
            lemma_first_where_range(es, |x: EntryView| same_path(x.path, e.path));
            let kept = EntryView { name: es[p].name, ..e };
            let es2 = es.update(p, kept);
            assert forall|i: int, j: int| 0 <= i < j < es2.len() implies es2[i].name != es2[j].name by {
                assert(es2[i].name == es[i].name);
                assert(es2[j].name == es[j].name);
            }
        },
        None => {
            let es2 = es.push(e);
            assert forall|i: int, j: int| 0 <= i < j < es2.len() implies es2[i].name != es2[j].name by {
                if j == es.len() {
                    lemma_position_of_name_none(es, e.name, i);
                }
            }
        },
    }
}


/// No two entries are registered at the same path (std's `Path`
/// equality, later entry against earlier).
pub open spec fn paths_distinct(es: Seq<EntryView>) -> bool {
    forall|i: int, j: int| 0 <= i < j < es.len() ==> !same_path(#[trigger] es[i].path, #[trigger] es[j].path)
}

/// Adding an entry at a path where no entry is registered keeps the
/// paths distinct: the entry is appended, or refused for its name.
pub proof fn lemma_add_at_new_path_keeps_paths_distinct(es: Seq<EntryView>, e: EntryView, force: bool)
    requires
        paths_distinct(es),
        position_of_path(es, e.path) is None,
    ensures
        add_outcome(es, e, force) matches AddOutcome::Added(es2) ==> paths_distinct(es2),
{
    if add_outcome(es, e, force) is Added {
        let es2 = es.push(e);
        assert forall|i: int, j: int| 0 <= i < j < es2.len() implies !same_path(
            #[trigger] es2[i].path,
            #[trigger] es2[j].path,
        ) by {
            if j == es.len() {
                assert(es2[i] == es[i]);
                if same_path(es[i].path, e.path) {
                    lemma_first_exists(es, |x: EntryView| same_path(x.path, e.path), i);
                }
            } else {
                assert(es2[i] == es[i] && es2[j] == es[j]);
            }
        }
    }
}

} // verus!
