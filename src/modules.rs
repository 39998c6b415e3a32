use vstd::prelude::*;

verus! {

/// Identity of a compiled module, assigned by the engine. Zero stands for "no
/// module".
pub type ModuleId = i32;

/// The status of a module in the engine.
#[derive(Clone, Copy, Debug, PartialEq, Eq, Structural)]
pub enum ModuleStatus {
    Uninstantiated,
    Instantiating,
    Instantiated,
    Evaluating,
    Evaluated,
    Errored,
}

/// How evaluating a module ended, read from its status afterwards: success
/// when it is evaluated, an evaluation error when it is errored. No other
/// status can follow an evaluation.
pub fn evaluation_outcome(status: ModuleStatus) -> (r: Result<(), crate::error::ErrorKind>)
    requires
        status == ModuleStatus::Evaluated || status == ModuleStatus::Errored,
    ensures
        status == ModuleStatus::Evaluated ==> r is Ok,
        status == ModuleStatus::Errored ==> r == Err::<(), _>(crate::error::ErrorKind::Evaluation),
{
    if status == ModuleStatus::Evaluated {
        Ok(())
    } else {
        Err(crate::error::ErrorKind::Evaluation)
    }
}

/// What the registry knows of a module, as seen in contracts.
pub struct ModuleRecord<H> {
    pub main: bool,
    pub name: Seq<char>,
    pub handle: H,
    pub imports: Seq<Seq<char>>,
}

/// A registered module: its canonical URL, whether it is the main module,
/// the engine's handle to it and the resolved URLs of its imports, in the
/// order the source lists them.
pub struct ModuleInfo<H> {
    pub main: bool,
    pub name: String,
    pub handle: H,
    pub import_specifiers: Vec<String>,
}

impl<H> ModuleInfo<H> {
    pub open spec fn record(&self) -> ModuleRecord<H> {
        ModuleRecord {
            main: self.main,
            name: self.name@,
            handle: self.handle,
            imports: urls_of(self.import_specifiers@),
        }
    }
}

pub open spec fn urls_of(v: Seq<String>) -> Seq<Seq<char>> {
    v.map_values(|s: String| s@)
}

/// What a name stands for in contracts: another name, or a module.
pub enum NameEntry {
    Alias(Seq<char>),
    Module(ModuleId),
}

/// What a name stands for: another name it is an alias of, or a module.
pub enum SymbolicModule {
    Alias(String),
    Mod(ModuleId),
}

impl SymbolicModule {
    pub open spec fn entry(&self) -> NameEntry {
        match self {
            SymbolicModule::Alias(t) => NameEntry::Alias(t@),
            SymbolicModule::Mod(id) => NameEntry::Module(*id),
        }
    }
}

/// The module a name leads to, following at most `fuel` aliases. A chain of
/// aliases that ends at an unknown name, or that runs longer than `fuel`,
/// leads nowhere.
pub open spec fn lookup(names: Map<Seq<char>, NameEntry>, name: Seq<char>, fuel: nat) -> Option<
    ModuleId,
>
    decreases fuel,
{
    if !names.contains_key(name) {
        None
    } else {
        match names[name] {
            NameEntry::Module(id) => Some(id),
            NameEntry::Alias(target) => if fuel == 0 {
                None
            } else {
                lookup(names, target, (fuel - 1) as nat)
            },
        }
    }
}

/// Every name that stands for a module stands for a registered one.
pub open spec fn names_registered<H>(
    names: Map<Seq<char>, NameEntry>,
    table: Map<ModuleId, ModuleRecord<H>>,
) -> bool {
    forall|k: Seq<char>|
        #[trigger] names.contains_key(k) ==> (names[k] matches NameEntry::Module(id) ==> table.contains_key(id))
}

proof fn lemma_lookup_registered<H>(
    names: Map<Seq<char>, NameEntry>,
    table: Map<ModuleId, ModuleRecord<H>>,
    name: Seq<char>,
    fuel: nat,
)
    requires
        names_registered(names, table),
    ensures
        lookup(names, name, fuel) matches Some(id) ==> table.contains_key(id),
    decreases fuel,
{
    if names.contains_key(name) {
        if let NameEntry::Alias(target) = names[name] {
            if fuel > 0 {
                lemma_lookup_registered(names, table, target, (fuel - 1) as nat);
            }
        }
    }
}

/// The module graph: modules by id, and names (canonical URLs and their
/// aliases) leading to them.
pub struct Modules<H> {
    info: Vec<(ModuleId, ModuleInfo<H>)>,
    by_name: Vec<(String, SymbolicModule)>,
    table: Ghost<Map<ModuleId, ModuleRecord<H>>>,
    names_map: Ghost<Map<Seq<char>, NameEntry>>,
}

impl<H> Modules<H> {
    /// The registered modules by id.
    pub closed spec fn modules(&self) -> Map<ModuleId, ModuleRecord<H>> {
        self.table@
    }

    /// Every known name and what it stands for.
    pub closed spec fn names(&self) -> Map<Seq<char>, NameEntry> {
        self.names_map@
    }

    /// The module a name resolves to: aliases are followed, at most as many
    /// as there are names.
    pub open spec fn resolve(&self, name: Seq<char>) -> Option<ModuleId> {
        lookup(self.names(), name, self.names().dom().len())
    }

    pub closed spec fn wf(&self) -> bool {
        &&& forall|i: int, j: int|
            0 <= i < j < self.info@.len() ==> self.info@[i].0 != self.info@[j].0
        &&& forall|i: int|
            0 <= i < self.info@.len() ==> self.table@.contains_key(#[trigger] self.info@[i].0)
                && self.table@[self.info@[i].0] == self.info@[i].1.record()
        &&& forall|id: ModuleId|
            self.table@.contains_key(id) ==> exists|i: int|
                0 <= i < self.info@.len() && #[trigger] self.info@[i].0 == id
        &&& forall|i: int, j: int|
            0 <= i < j < self.by_name@.len() ==> self.by_name@[i].0@ != self.by_name@[j].0@
        &&& forall|i: int|
            0 <= i < self.by_name@.len() ==> self.names_map@.contains_key(
                #[trigger] self.by_name@[i].0@,
            ) && self.names_map@[self.by_name@[i].0@] == self.by_name@[i].1.entry()
        &&& forall|k: Seq<char>|
            self.names_map@.contains_key(k) ==> exists|i: int|
                0 <= i < self.by_name@.len() && #[trigger] self.by_name@[i].0@ == k
        &&& self.names_map@.dom().finite()
        &&& self.names_map@.dom().len() == self.by_name@.len()
        &&& names_registered(self.names_map@, self.table@)
    }

    /// A name that is an alias of the canonical URL of a module resolves to
    /// that module.
    pub proof fn lemma_alias_resolves(&self, name: Seq<char>, target: Seq<char>, id: ModuleId)
        requires
            self.wf(),
            self.names().contains_key(name),
            self.names()[name] == NameEntry::Alias(target),
            self.names().contains_key(target),
            self.names()[target] == NameEntry::Module(id),
        ensures
            self.resolve(name) == Some(id),
    {
        vstd::set::axiom_set_remove_len(self.names_map@.dom(), name);
        let fuel = self.names_map@.dom().len();
        assert(fuel >= 1);
        assert(lookup(self.names_map@, target, (fuel - 1) as nat) == Some(id));
    }

    /// A name that resolves leads to a registered module.
    pub proof fn lemma_resolved_is_registered(&self, name: Seq<char>)
        requires
            self.wf(),
        ensures
            self.resolve(name) matches Some(id) ==> self.modules().contains_key(id),
    {
        lemma_lookup_registered(self.names_map@, self.table@, name, self.names_map@.dom().len());
    }

    /// An empty registry.
    pub fn new() -> (m: Modules<H>)
        ensures
            m.wf(),
            m.modules() == Map::<ModuleId, ModuleRecord<H>>::empty(),
            m.names() == Map::<Seq<char>, NameEntry>::empty(),
    {
        Modules {
            info: Vec::new(),
            by_name: Vec::new(),
            table: Ghost(Map::empty()),
            names_map: Ghost(Map::empty()),
        }
    }

    fn find_info(&self, id: ModuleId) -> (r: Option<usize>)
        requires
            self.wf(),
        ensures
            match r {
                Some(i) => i < self.info@.len() && self.info@[i as int].0 == id,
                None => !self.table@.contains_key(id),
            },
    {
        let mut i: usize = 0;
        while i < self.info.len()
            invariant
                i <= self.info@.len(),
                forall|k: int| 0 <= k < i ==> self.info@[k].0 != id,
            decreases self.info@.len() - i,
        {
            if self.info[i].0 == id {
                return Some(i);
            }
            i += 1;
        }
        None
    }

    fn find_name(&self, name: &String) -> (r: Option<usize>)
        requires
            self.wf(),
        ensures
            match r {
                Some(i) => i < self.by_name@.len() && self.by_name@[i as int].0@ == name@,
                None => !self.names_map@.contains_key(name@),
            },
    {
        let mut i: usize = 0;
        while i < self.by_name.len()
            invariant
                i <= self.by_name@.len(),
                forall|k: int| 0 <= k < i ==> self.by_name@[k].0@ != name@,
            decreases self.by_name@.len() - i,
        {
            if self.by_name[i].0 == *name {
                return Some(i);
            }
            i += 1;
        }
        None
    }

    fn set_name(&mut self, name: String, entry: SymbolicModule)
        requires
            old(self).wf(),
            entry.entry() matches NameEntry::Module(id) ==> old(self).modules().contains_key(id),
        ensures
            final(self).wf(),
            final(self).names() == old(self).names().insert(name@, entry.entry()),
            final(self).modules() == old(self).modules(),
    {
        let ghost k = name@;
        let ghost e = entry.entry();
        let ghost old_names = self.names_map@;
        let ghost old_by = self.by_name@;
        let found = self.find_name(&name);
        let pos: usize = match found {
            Some(i) => i,
            None => self.by_name.len(),
        };
        if found.is_some() {
            self.by_name.set(pos, (name, entry));
        } else {
            self.by_name.push((name, entry));
        }
        self.names_map = Ghost(self.names_map@.insert(k, e));
        proof {
            assert(self.by_name@[pos as int].0@ == k);
            assert(forall|i: int| 0 <= i < old_by.len() && i != pos ==> self.by_name@[i] == old_by[i]);
            assert forall|k2: Seq<char>| self.names_map@.contains_key(k2) implies exists|i: int|
                0 <= i < self.by_name@.len() && #[trigger] self.by_name@[i].0@ == k2 by {
                if k2 == k {
                    assert(self.by_name@[pos as int].0@ == k2);
                } else {
                    assert(old_names.contains_key(k2));
                    let i0 = choose|i: int| 0 <= i < old_by.len() && #[trigger] old_by[i].0@ == k2;
                    assert(self.by_name@[i0].0@ == k2);
                }
            }
            if found.is_none() {
                assert(forall|i: int| 0 <= i < old_by.len() ==> old_by[i].0@ != k);
                assert(self.names_map@.dom() =~= old_names.dom().insert(k));
            } else {
                assert(self.names_map@.dom() =~= old_names.dom());
            }
            assert(forall|i: int, j: int|
                0 <= i < j < self.by_name@.len() ==> self.by_name@[i].0@ != self.by_name@[j].0@);
            assert(forall|i: int|
                0 <= i < self.by_name@.len() ==> self.names_map@.contains_key(
                    #[trigger] self.by_name@[i].0@,
                ) && self.names_map@[self.by_name@[i].0@] == self.by_name@[i].1.entry());
            assert(self.names_map@.dom().len() == self.by_name@.len());
            assert(self.names_map@.dom().finite());
            assert(self.info@ == old(self).info@);
            assert(self.table@ == old(self).table@);
        }
    }

    fn set_info(&mut self, id: ModuleId, info: ModuleInfo<H>)
        requires
            old(self).wf(),
        ensures
            final(self).wf(),
            final(self).modules() == old(self).modules().insert(id, info.record()),
            final(self).names() == old(self).names(),
    {
        let ghost rec = info.record();
        let ghost old_info = self.info@;
        let found = self.find_info(id);
        let pos: usize = match found {
            Some(i) => i,
            None => self.info.len(),
        };
        if found.is_some() {
            self.info.set(pos, (id, info));
        } else {
            self.info.push((id, info));
        }
        self.table = Ghost(self.table@.insert(id, rec));
        proof {
            assert(self.info@[pos as int].0 == id);
            assert(forall|i: int| 0 <= i < old_info.len() && i != pos ==> self.info@[i] == old_info[i]);
            assert forall|id2: ModuleId| self.table@.contains_key(id2) implies exists|i: int|
                0 <= i < self.info@.len() && #[trigger] self.info@[i].0 == id2 by {
                if id2 == id {
                    assert(self.info@[pos as int].0 == id2);
                } else {
                    let i0 = choose|i: int| 0 <= i < old_info.len() && #[trigger] old_info[i].0 == id2;
                    assert(self.info@[i0].0 == id2);
                }
            }
        }
    }

    /// Records module `id` under the canonical URL `name`, with the resolved
    /// URLs of its imports. A module or name registered before under the same
    /// id or URL is replaced.
    pub fn register(
        &mut self,
        id: ModuleId,
        name: &str,
        main: bool,
        handle: H,
        import_specifiers: Vec<String>,
    )
        requires
            old(self).wf(),
        ensures
            final(self).wf(),
            final(self).names() == old(self).names().insert(name@, NameEntry::Module(id)),
            final(self).modules() == old(self).modules().insert(
                id,
                ModuleRecord { main, name: name@, handle, imports: urls_of(import_specifiers@) },
            ),
    {
        let owned: String = name.to_owned();
        let info = ModuleInfo { main, name: owned.clone(), handle, import_specifiers };
        self.set_info(id, info);
        self.set_name(owned, SymbolicModule::Mod(id));
    }

    /// Makes `name` an alias of `target`: looking `name` up leads wherever
    /// `target` leads.
    pub fn alias(&mut self, name: &str, target: &str)
        requires
            old(self).wf(),
        ensures
            final(self).wf(),
            final(self).names() == old(self).names().insert(name@, NameEntry::Alias(target@)),
            final(self).modules() == old(self).modules(),
    {
        self.set_name(name.to_owned(), SymbolicModule::Alias(target.to_owned()));
    }

    /// Whether `name` is known as an alias.
    pub fn is_alias(&self, name: &str) -> (r: bool)
        requires
            self.wf(),
        ensures
            r == (self.names().contains_key(name@) && self.names()[name@] is Alias),
    {
        let owned: String = name.to_owned();
        match self.find_name(&owned) {
            Some(i) => match &self.by_name[i].1 {
                SymbolicModule::Alias(_) => true,
                SymbolicModule::Mod(_) => false,
            },
            None => false,
        }
    }

    /// The id of the module that `name` leads to, through its aliases.
    pub fn get_id(&self, name: &str) -> (r: Option<ModuleId>)
        requires
            self.wf(),
        ensures
            r == self.resolve(name@),
    {
        let mut cur: String = name.to_owned();
        let mut fuel: usize = self.by_name.len();
        loop
            invariant
                self.wf(),
                fuel <= self.by_name@.len(),
                self.resolve(name@) == lookup(self.names(), cur@, fuel as nat),
            decreases fuel,
        {
            match self.find_name(&cur) {
                None => {
                    return None;
                },
                Some(i) => match &self.by_name[i].1 {
                    SymbolicModule::Mod(id) => {
                        return Some(*id);
                    },
                    SymbolicModule::Alias(target) => {
                        if fuel == 0 {
                            return None;
                        }
                        fuel -= 1;
                        cur = target.clone();
                    },
                },
            }
        }
    }

    /// Whether `specifier` leads to a registered module.
    pub fn is_registered(&self, specifier: &str) -> (r: bool)
        requires
            self.wf(),
        ensures
            r == self.resolve(specifier@) is Some,
    {
        self.get_id(specifier).is_some()
    }

    /// The module `id`; zero, the sentinel, is never found.
    pub fn get_info(&self, id: ModuleId) -> (r: Option<&ModuleInfo<H>>)
        requires
            self.wf(),
        ensures
            r is Some == (id != 0 && self.modules().contains_key(id)),
            r is Some ==> r->0.record() == self.modules()[id],
    {
        if id == 0 {
            return None;
        }
        match self.find_info(id) {
            Some(i) => Some(&self.info[i].1),
            None => None,
        }
    }

    /// The handle of module `id`, to instantiate it; zero, the sentinel for an
    /// import that led nowhere, gives none, which makes instantiating it a
    /// no-op.
    pub fn instantiation_handle(&self, id: ModuleId) -> (r: Option<&H>)
        requires
            self.wf(),
            id == 0 || self.modules().contains_key(id),
        ensures
            id == 0 ==> r is None,
            id != 0 ==> r == Some(&self.modules()[id].handle),
    {
        match self.get_info(id) {
            Some(info) => Some(&info.handle),
            None => None,
        }
    }

    /// The id that the engine is given for an import found at `url`: the
    /// module it leads to, or zero when it leads nowhere, which makes linking
    /// fail at that import.
    pub fn id_for_link(&self, url: &str) -> (r: ModuleId)
        requires
            self.wf(),
        ensures
            r == match self.resolve(url@) {
                Some(id) => id,
                None => 0,
            },
    {
        match self.get_id(url) {
            Some(id) => id,
            None => 0,
        }
    }

    /// The resolved URLs of the imports of module `id`.
    pub fn get_children(&self, id: ModuleId) -> (r: Option<&Vec<String>>)
        requires
            self.wf(),
        ensures
            r is Some == self.modules().contains_key(id),
            r is Some ==> urls_of(r->0@) == self.modules()[id].imports,
    {
        match self.find_info(id) {
            Some(i) => Some(&self.info[i].1.import_specifiers),
            None => None,
        }
    }

    /// The canonical URL of module `id`.
    pub fn get_name(&self, id: ModuleId) -> (r: Option<&String>)
        requires
            self.wf(),
        ensures
            r is Some == self.modules().contains_key(id),
            r is Some ==> r->0@ == self.modules()[id].name,
    {
        match self.find_info(id) {
            Some(i) => Some(&self.info[i].1.name),
            None => None,
        }
    }
}

} // verus!
