//! The register of known vaults, and which of them was used last.
use crate::text::{
    blank, chars_of, is_blank, law_blank_exact, to_lower, trim, trimmed, unicode_lower, white_space,
};
use vstd::prelude::*;

verus! {

/// A vault the user has created or opened.
pub struct VaultRecord {
    /// The name shown to the user.
    pub name: String,
    /// The path of the encrypted file.
    pub path: String,
    /// Unix time of the last unlock, or zero.
    pub last_opened: u64,
}

#[verifier::ext_equal]
pub struct RecordView {
    pub name: Seq<char>,
    pub path: Seq<char>,
    pub last_opened: u64,
}

impl View for VaultRecord {
    type V = RecordView;

    open spec fn view(&self) -> RecordView {
        RecordView { name: self.name@, path: self.path@, last_opened: self.last_opened }
    }
}

impl Clone for VaultRecord {
    fn clone(&self) -> (res: Self)
        ensures
            res@ == self@,
    {
        VaultRecord {
            name: self.name.clone(),
            path: self.path.clone(),
            last_opened: self.last_opened,
        }
    }
}

/// The records by their views.
pub open spec fn record_views(v: Seq<VaultRecord>) -> Seq<RecordView> {
    v.map_values(|r: VaultRecord| r@)
}

/// All known vaults.
pub struct VaultRegistry {
    pub vaults: Vec<VaultRecord>,
    /// The place in `vaults` of the vault used last.
    pub last_used_index: Option<usize>,
}

#[verifier::ext_equal]
pub struct RegistryView {
    pub vaults: Seq<RecordView>,
    pub last_used_index: Option<usize>,
}

impl View for VaultRegistry {
    type V = RegistryView;

    open spec fn view(&self) -> RegistryView {
        RegistryView {
            vaults: record_views(self.vaults@),
            last_used_index: self.last_used_index,
        }
    }
}

/// The register that knows no vault.
pub open spec fn empty_registry() -> RegistryView {
    RegistryView { vaults: Seq::empty(), last_used_index: None }
}

impl Default for VaultRegistry {
    fn default() -> (res: Self)
        ensures
            res@ == empty_registry(),
    {
        let res = VaultRegistry { vaults: Vec::new(), last_used_index: None };
        proof {
            assert(res@ =~= empty_registry());
        }
        res
    }
}

impl Clone for VaultRegistry {
    fn clone(&self) -> (res: Self)
        ensures
            res@ == self@,
    {
        let mut vaults: Vec<VaultRecord> = Vec::new();
        let mut i: usize = 0;
        while i < self.vaults.len()
            invariant
                i <= self.vaults@.len(),
                vaults@.len() == i,
                forall|k: int| 0 <= k < i ==> (#[trigger] vaults@[k])@ == self.vaults@[k]@,
            decreases self.vaults@.len() - i,
        {
            vaults.push(self.vaults[i].clone());
            i += 1;
        }
        let res = VaultRegistry { vaults, last_used_index: self.last_used_index };
        proof {
            assert(res@ =~= self@);
        }
        res
    }
}

// ---------------------------------------------------------------------------
// Model
// ---------------------------------------------------------------------------

/// `i` is the first place of a record with `path`.
pub open spec fn first_record(vaults: Seq<RecordView>, path: Seq<char>, i: int) -> bool {
    &&& 0 <= i < vaults.len()
    &&& vaults[i].path == path
    &&& forall|j: int| 0 <= j < i ==> vaults[j].path != path
}

/// The first place of a record with `path`, if there is one.
pub open spec fn record_place(vaults: Seq<RecordView>, path: Seq<char>) -> Option<int> {
    if exists|i: int| first_record(vaults, path, i) {
        Some(choose|i: int| first_record(vaults, path, i))
    } else {
        None
    }
}

impl RegistryView {
    /// The record of the vault used last, if there is one.
    pub open spec fn last_used(self) -> Option<RecordView> {
        match self.last_used_index {
            Some(i) => if i < self.vaults.len() {
                Some(self.vaults[i as int])
            } else {
                None
            },
            None => None,
        }
    }

    /// The register with one more record at its end.
    pub open spec fn with_record(self, r: RecordView) -> RegistryView {
        RegistryView { vaults: self.vaults.push(r), ..self }
    }

    /// The register at startup: an empty one learns of the default vault, if its
    /// file exists.
    pub open spec fn at_startup(self, default_path: Seq<char>, exists_there: bool) -> RegistryView {
        if self.vaults.len() == 0 && exists_there {
            self.with_record(
                RecordView { name: "Default Vault"@, path: default_path, last_opened: 0 },
            )
        } else {
            self
        }
    }

    /// The vault to open at startup: the one used last, or the default.
    pub open spec fn startup_path(self, default_path: Seq<char>) -> Seq<char> {
        match self.last_used() {
            Some(r) => r.path,
            None => default_path,
        }
    }

    /// The register after the vault at `path` was unlocked at a Unix time. A vault
    /// that is not known yet is added under the stem of its file name.
    pub open spec fn opened(
        self,
        path: Seq<char>,
        stem: Option<Seq<char>>,
        at: u64,
    ) -> RegistryView {
        match record_place(self.vaults, path) {
            Some(i) => RegistryView {
                vaults: self.vaults.update(
                    i,
                    RecordView { last_opened: at, ..self.vaults[i] },
                ),
                last_used_index: Some(i as usize),
            },
            None => RegistryView {
                vaults: self.vaults.push(
                    RecordView {
                        name: match stem {
                            Some(s) => s,
                            None => "Vault"@,
                        },
                        path,
                        last_opened: at,
                    },
                ),
                last_used_index: Some(self.vaults.len() as usize),
            },
        }
    }

    /// The register after the record at `index` was given a new name, if there is
    /// such a record.
    pub open spec fn renamed(self, index: int, name: Seq<char>) -> RegistryView {
        if 0 <= index < self.vaults.len() {
            RegistryView {
                vaults: self.vaults.update(
                    index,
                    RecordView { name: trimmed(name), ..self.vaults[index] },
                ),
                ..self
            }
        } else {
            self
        }
    }

    /// The register without the record at `index`; the record used last stays the
    /// same record, unless it is the one that was removed.
    pub open spec fn without_record(self, index: int) -> RegistryView {
        RegistryView {
            vaults: self.vaults.remove(index),
            last_used_index: match self.last_used_index {
                Some(i) => if i == index {
                    None
                } else if i > index {
                    Some((i - 1) as usize)
                } else {
                    Some(i)
                },
                None => None,
            },
        }
    }
}

// ---------------------------------------------------------------------------
// Operations
// ---------------------------------------------------------------------------

proof fn lemma_record_place(vaults: Seq<RecordView>, path: Seq<char>, i: int)
    requires
        first_record(vaults, path, i),
    ensures
        record_place(vaults, path) == Some(i),
{
    let k = choose|k: int| first_record(vaults, path, k);
    assert(first_record(vaults, path, k));
    if k < i {
        assert(vaults[k].path != path);
    } else if i < k {
        assert(vaults[i].path != path);
    }
}

impl VaultRegistry {
    /// Adds a record at the end.
    pub fn add_record(&mut self, name: String, path: String, last_opened: u64)
        ensures
            final(self)@ == old(self)@.with_record(
                (RecordView { name: name@, path: path@, last_opened }),
            ),
    {
        let ghost was = self@;
        let ghost r = RecordView { name: name@, path: path@, last_opened };
        self.vaults.push(VaultRecord { name, path, last_opened });
        proof {
            assert(self@ =~= was.with_record(r));
        }
    }

    /// Makes an empty register learn of the default vault, if its file exists; says
    /// whether the register changed.
    pub fn register_default(&mut self, default_path: &String, exists_there: bool) -> (changed: bool)
        ensures
            final(self)@ == old(self)@.at_startup(default_path@, exists_there),
            changed == (old(self)@.vaults.len() == 0 && exists_there),
    {
        proof {
            assert(self@.vaults.len() == self.vaults@.len());
        }
        if self.vaults.len() == 0 && exists_there {
            self.add_record("Default Vault".to_string(), default_path.clone(), 0);
            true
        } else {
            false
        }
    }

    /// The vault to open at startup.
    pub fn startup_path(&self, default_path: &String) -> (res: String)
        ensures
            res@ == self@.startup_path(default_path@),
    {
        match self.last_used_index {
            Some(i) => if i < self.vaults.len() {
                proof {
                    assert(self@.vaults[i as int] == self.vaults@[i as int]@);
                }
                self.vaults[i].path.clone()
            } else {
                default_path.clone()
            },
            None => default_path.clone(),
        }
    }

    /// The place of the first record with a path.
    pub fn find_path(&self, path: &String) -> (res: Option<usize>)
        ensures
            match res {
                Some(i) => i < self.vaults@.len() && record_place(self@.vaults, path@) == Some(
                    i as int,
                ),
                None => record_place(self@.vaults, path@) is None,
            },
    {
        let ghost all = self@.vaults;
        let mut i: usize = 0;
        while i < self.vaults.len()
            invariant
                i <= self.vaults@.len(),
                all == self@.vaults,
                forall|j: int| 0 <= j < i ==> (#[trigger] all[j]).path != path@,
            decreases self.vaults@.len() - i,
        {
            proof {
                assert(all[i as int] == self.vaults@[i as int]@);
            }
            if self.vaults[i].path == *path {
                proof {
                    assert(first_record(all, path@, i as int));
                    lemma_record_place(all, path@, i as int);
                }
                return Some(i);
            }
            i += 1;
        }
        None
    }

    /// Notes that the vault at `path` was unlocked at a Unix time.
    pub fn note_opened(&mut self, path: &String, stem: &Option<String>, at: u64)
        ensures
            final(self)@ == old(self)@.opened(path@, crate::model::opt_view(*stem), at),
    {
        let ghost was = self@;
        match self.find_path(path) {
            Some(i) => {
                proof {
                    assert(was.vaults[i as int] == self.vaults@[i as int]@);
                }
                self.vaults[i].last_opened = at;
                self.last_used_index = Some(i);
                proof {
                    assert(self@ =~= was.opened(path@, crate::model::opt_view(*stem), at));
                }
            },
            None => {
                let name: String = match stem {
                    Some(s) => s.clone(),
                    None => "Vault".to_string(),
                };
                let n: usize = self.vaults.len();
                self.vaults.push(VaultRecord { name, path: path.clone(), last_opened: at });
                self.last_used_index = Some(n);
                proof {
                    assert(was.vaults.len() == n);
                    assert(self@ =~= was.opened(path@, crate::model::opt_view(*stem), at));
                }
            },
        }
    }

    /// Gives the record at `index` a new name, if there is such a record.
    pub fn rename(&mut self, index: usize, name: &String)
        ensures
            final(self)@ == old(self)@.renamed(index as int, name@),
    {
        let ghost was = self@;
        proof {
            assert(was.vaults.len() == self.vaults@.len());
        }
        if index < self.vaults.len() {
            proof {
                assert(was.vaults[index as int] == self.vaults@[index as int]@);
            }
            self.vaults[index].name = trim(name.as_str());
            proof {
                assert(self@ =~= was.renamed(index as int, name@));
            }
        }
    }

    /// Removes the record at `index`.
    pub fn remove_record(&mut self, index: usize)
        requires
            index < old(self)@.vaults.len(),
        ensures
            final(self)@ == old(self)@.without_record(index as int),
    {
        let ghost was = self@;
        let _removed: VaultRecord = self.vaults.remove(index);
        self.last_used_index = match self.last_used_index {
            Some(i) => if i == index {
                None
            } else if i > index {
                Some(i - 1)
            } else {
                Some(i)
            },
            None => None,
        };
        proof {
            assert(self@ =~= was.without_record(index as int));
        }
    }
}

/// The register that was read, or an empty one if none could be.
pub fn registry_or_default(read: Option<VaultRegistry>) -> (res: VaultRegistry)
    ensures
        res@ == (match read {
            Some(r) => r@,
            None => empty_registry(),
        }),
{
    match read {
        Some(r) => r,
        None => VaultRegistry::default(),
    }
}

// ---------------------------------------------------------------------------
// Where a new vault goes
// ---------------------------------------------------------------------------

/// Where the file of a new vault goes.
pub enum NewVaultPath {
    /// Into the data directory, under this file name.
    InDataDir(String),
    /// To this path.
    At(String),
}

#[verifier::ext_equal]
pub enum NewVaultPathView {
    InDataDir(Seq<char>),
    At(Seq<char>),
}

impl View for NewVaultPath {
    type V = NewVaultPathView;

    open spec fn view(&self) -> NewVaultPathView {
        match self {
            NewVaultPath::InDataDir(s) => NewVaultPathView::InDataDir(s@),
            NewVaultPath::At(s) => NewVaultPathView::At(s@),
        }
    }
}

/// `s` with every space replaced by an underscore.
pub open spec fn underscored(s: Seq<char>) -> Seq<char> {
    s.map_values(
        |c: char|
            if c == ' ' {
                '_'
            } else {
                c
            },
    )
}

/// Where the file of a new vault goes: to the path that was typed, if one was;
/// else into the data directory, if there is one, under a name made of the
/// vault's; else to the vault's name itself.
pub open spec fn new_vault_path(
    name: Seq<char>,
    path_input: Seq<char>,
    has_data_dir: bool,
) -> NewVaultPathView {
    if !blank(path_input) {
        NewVaultPathView::At(trimmed(path_input))
    } else if has_data_dir {
        NewVaultPathView::InDataDir(underscored(unicode_lower(trimmed(name))) + ".enc"@)
    } else {
        NewVaultPathView::At(trimmed(name) + ".enc"@)
    }
}

fn underscore(s: &str) -> (res: String)
    ensures
        res@ == underscored(s@),
{
    let v: Vec<char> = chars_of(s);
    let mut out: String = String::new();
    let mut i: usize = 0;
    while i < v.len()
        invariant
            i <= v@.len(),
            out@ == underscored(v@).take(i as int),
        decreases v@.len() - i,
    {
        if v[i] == ' ' {
            out.push('_');
        } else {
            out.push(v[i]);
        }
        i += 1;
        proof {
            assert(out@ =~= underscored(v@).take(i as int));
        }
    }
    proof {
        assert(underscored(v@).take(i as int) =~= underscored(v@));
    }
    out
}

/// Where the file of a new vault goes.
pub fn resolve_new_vault_path(name: &String, path_input: &String, has_data_dir: bool) -> (res:
    NewVaultPath)
    ensures
        res@ == new_vault_path(name@, path_input@, has_data_dir),
{
    if !is_blank(path_input.as_str()) {
        NewVaultPath::At(trim(path_input.as_str()))
    } else {
        let n: String = trim(name.as_str());
        if has_data_dir {
            let lower: String = to_lower(n.as_str());
            NewVaultPath::InDataDir(underscore(lower.as_str()).concat(".enc"))
        } else {
            NewVaultPath::At(n.concat(".enc"))
        }
    }
}

// ---------------------------------------------------------------------------
// Laws
// ---------------------------------------------------------------------------

/// After an unlock the vault used last is the one that was unlocked, and it was
/// opened at that time.
pub proof fn law_opened_is_last_used(
    r: RegistryView,
    path: Seq<char>,
    stem: Option<Seq<char>>,
    at: u64,
)
    requires
        r.vaults.len() < usize::MAX,
    ensures
        r.opened(path, stem, at).last_used() is Some,
        r.opened(path, stem, at).last_used().unwrap().path == path,
        r.opened(path, stem, at).last_used().unwrap().last_opened == at,
{
    if record_place(r.vaults, path) is Some {
        let i = choose|i: int| first_record(r.vaults, path, i);
        assert(first_record(r.vaults, path, i));
    }
}

/// The vault that was unlocked last is the one opened at the next start.
pub proof fn law_next_start_opens_last_used(
    r: RegistryView,
    path: Seq<char>,
    stem: Option<Seq<char>>,
    at: u64,
    default_path: Seq<char>,
    exists_there: bool,
)
    requires
        r.vaults.len() < usize::MAX,
    ensures
        r.opened(path, stem, at).at_startup(default_path, exists_there).startup_path(default_path)
            == path,
{
    law_opened_is_last_used(r, path, stem, at);
}

/// Without any record the default vault is opened.
pub proof fn law_empty_register_opens_default(default_path: Seq<char>, exists_there: bool)
    ensures
        empty_registry().at_startup(default_path, exists_there).startup_path(default_path)
            == default_path,
{
}

/// Unlocking adds a record only for a vault that has none, and never loses one.
pub proof fn law_opened_keeps_records(
    r: RegistryView,
    path: Seq<char>,
    stem: Option<Seq<char>>,
    at: u64,
    i: int,
)
    requires
        0 <= i < r.vaults.len(),
    ensures
        r.opened(path, stem, at).vaults.len() == r.vaults.len() + (if record_place(
            r.vaults,
            path,
        ) is Some {
            0nat
        } else {
            1nat
        }),
        r.opened(path, stem, at).vaults[i].name == r.vaults[i].name,
        r.opened(path, stem, at).vaults[i].path == r.vaults[i].path,
{
    if record_place(r.vaults, path) is Some {
        let k = choose|k: int| first_record(r.vaults, path, k);
        assert(first_record(r.vaults, path, k));
    }
}

/// Removing a record leaves the record used last in place, unless it is the one
/// removed; then no vault counts as used last.
pub proof fn law_remove_keeps_last_used(r: RegistryView, index: int)
    requires
        0 <= index < r.vaults.len(),
        r.last_used() is Some,
    ensures
        r.last_used_index.unwrap() != index ==> r.without_record(index).last_used()
            == r.last_used(),
        r.last_used_index.unwrap() == index ==> r.without_record(index).last_used() is None,
{
}

/// An empty register takes in the default vault if its file exists, under its name and
/// as never opened; a register that knows a vault stays as it is.
pub proof fn law_startup_register_exact(r: RegistryView, default_path: Seq<char>)
    ensures
        r.vaults.len() == 0 ==> {
            let s = r.at_startup(default_path, true);
            &&& s.vaults.len() == 1
            &&& s.vaults[0].name == "Default Vault"@
            &&& s.vaults[0].path == default_path
            &&& s.vaults[0].last_opened == 0
            &&& s.last_used_index == r.last_used_index
        },
        r.vaults.len() > 0 ==> r.at_startup(default_path, true) == r,
        r.at_startup(default_path, false) == r,
{
}

/// The vault to open at the start is the one that the register names as last used, if
/// it names one it knows, and otherwise the default.
pub proof fn law_startup_path_exact(r: RegistryView, default_path: Seq<char>, i: usize)
    ensures
        r.last_used_index == Some(i) && i < r.vaults.len() ==> r.startup_path(default_path)
            == r.vaults[i as int].path,
        r.last_used_index == Some(i) && i >= r.vaults.len() ==> r.startup_path(default_path)
            == default_path,
        r.last_used_index is None ==> r.startup_path(default_path) == default_path,
{
}

/// Opening a known vault sets the time of its first record, and nothing else in any
/// record; opening an unknown one adds a record under the stem of its file.
pub proof fn law_opening_exact(
    r: RegistryView,
    path: Seq<char>,
    stem: Option<Seq<char>>,
    at: u64,
    i: int,
)
    requires
        r.vaults.len() < usize::MAX,
    ensures
        ({
            let s = r.opened(path, stem, at);
            &&& 0 <= i < r.vaults.len() && r.vaults[i].path == path && (forall|j: int|
                0 <= j < i ==> (#[trigger] r.vaults[j]).path != path) ==> {
                &&& s.vaults.len() == r.vaults.len()
                &&& s.last_used_index == Some(i as usize)
                &&& s.vaults[i].last_opened == at
                &&& s.vaults[i].name == r.vaults[i].name
                &&& s.vaults[i].path == r.vaults[i].path
            }
            &&& 0 <= i < r.vaults.len() && r.vaults[i].path != path ==> s.vaults[i] == r.vaults[i]
            &&& (forall|j: int| 0 <= j < r.vaults.len() ==> (#[trigger] r.vaults[j]).path != path)
                ==> {
                &&& s.vaults.len() == r.vaults.len() + 1
                &&& s.last_used_index == Some(r.vaults.len() as usize)
                &&& s.vaults.last().path == path
                &&& s.vaults.last().last_opened == at
                &&& s.vaults.last().name == (if stem is Some {
                    stem.unwrap()
                } else {
                    "Vault"@
                })
            }
        }),
{
    if 0 <= i < r.vaults.len() && r.vaults[i].path == path && (forall|j: int|
        0 <= j < i ==> (#[trigger] r.vaults[j]).path != path) {
        assert(first_record(r.vaults, path, i));
        lemma_record_place(r.vaults, path, i);
    }
    if exists|p: int| first_record(r.vaults, path, p) {
        let p = choose|p: int| first_record(r.vaults, path, p);
        assert(first_record(r.vaults, path, p));
        lemma_record_place(r.vaults, path, p);
    }
}

/// Renaming sets the name, without the white space around it, and nothing else; there
/// is nothing to rename where there is no record.
pub proof fn law_rename_exact(r: RegistryView, index: int, name: Seq<char>, i: int)
    ensures
        ({
            let s = r.renamed(index, name);
            &&& s.vaults.len() == r.vaults.len()
            &&& s.last_used_index == r.last_used_index
            &&& 0 <= i < r.vaults.len() ==> s.vaults[i].path == r.vaults[i].path
                && s.vaults[i].last_opened == r.vaults[i].last_opened
            &&& 0 <= i < r.vaults.len() && i != index ==> s.vaults[i].name == r.vaults[i].name
            &&& 0 <= index < r.vaults.len() ==> s.vaults[index].name == trimmed(name)
        }),
{
}

/// Removing a record takes out that one; those behind it move up by one place, and the
/// place of the last used vault moves with it.
pub proof fn law_remove_exact(r: RegistryView, index: int, i: int)
    requires
        0 <= index < r.vaults.len(),
    ensures
        ({
            let s = r.without_record(index);
            &&& s.vaults.len() == r.vaults.len() - 1
            &&& 0 <= i < index ==> s.vaults[i] == r.vaults[i]
            &&& index < i < r.vaults.len() ==> s.vaults[i - 1] == r.vaults[i]
            &&& r.last_used_index matches Some(u) ==> s.last_used_index == (if u < index {
                Some(u)
            } else if u == index {
                None
            } else {
                Some((u - 1) as usize)
            })
            &&& r.last_used_index is None ==> s.last_used_index is None
        }),
{
}

/// A new vault goes where its path says, if one was typed; otherwise into the data
/// directory, under its name in small letters with underscores for spaces and the
/// ending `.enc`; without a data directory under its name and that ending.
pub proof fn law_new_vault_path_exact(name: Seq<char>, path: Seq<char>)
    ensures
        (exists|i: int| 0 <= i < path.len() && !white_space(#[trigger] path[i])) ==> {
            &&& new_vault_path(name, path, true) == NewVaultPathView::At(trimmed(path))
            &&& new_vault_path(name, path, false) == NewVaultPathView::At(trimmed(path))
        },
        (forall|i: int| 0 <= i < path.len() ==> white_space(#[trigger] path[i])) ==> {
            &&& new_vault_path(name, path, true) == NewVaultPathView::InDataDir(
                unicode_lower(trimmed(name)).map_values(
                    |c: char|
                        if c == ' ' {
                            '_'
                        } else {
                            c
                        },
                ) + ".enc"@,
            )
            &&& new_vault_path(name, path, false) == NewVaultPathView::At(
                trimmed(name) + ".enc"@,
            )
        },
{
    law_blank_exact(path);
}

/// The views of the register and its records leave nothing out.
pub proof fn law_register_view_exact(r: VaultRegistry, v: VaultRecord, i: int)
    ensures
        v@.name == v.name@ && v@.path == v.path@ && v@.last_opened == v.last_opened,
        r@.vaults.len() == r.vaults@.len(),
        0 <= i < r.vaults@.len() ==> r@.vaults[i] == r.vaults@[i]@,
        r@.last_used_index == r.last_used_index,
        empty_registry().vaults.len() == 0,
        empty_registry().last_used_index is None,
{
}

/// A new record stands last; those before it and the last used vault stay.
pub proof fn law_record_added_exact(r: RegistryView, v: RecordView)
    ensures
        r.with_record(v).vaults.drop_last() == r.vaults,
        r.with_record(v).vaults.last() == v,
        r.with_record(v).last_used_index == r.last_used_index,
{
    assert(r.with_record(v).vaults.drop_last() =~= r.vaults);
}

} // verus!
