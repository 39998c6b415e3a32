use vstd::prelude::*;
use crate::modules::{urls_of, ModuleId, Modules, NameEntry};

verus! {

/// Identity of one module-graph load.
pub type ModuleLoadId = i32;

/// Whether a load was started for the main module or by `import()`.
#[derive(Clone, Copy, Debug, PartialEq, Eq, Structural)]
pub enum LoadKind {
    Main,
    DynamicImport,
}

/// Progress of a load: the root is fetched first, then its imports.
#[derive(Clone, Copy, Debug, PartialEq, Eq, Structural)]
pub enum LoadState {
    LoadingRoot,
    LoadingImports,
    Done,
}

/// Position of a state in the order a load goes through.
pub open spec fn state_rank(s: LoadState) -> int {
    match s {
        LoadState::LoadingRoot => 0,
        LoadState::LoadingImports => 1,
        LoadState::Done => 2,
    }
}

/// A module to fetch, with the URL of the module that asked for it.
pub struct ModuleRequest {
    pub specifier: String,
    pub referrer: Option<String>,
}

pub open spec fn opt_str_view(s: Option<String>) -> Option<Seq<char>> {
    match s {
        Some(t) => Some(t@),
        None => None,
    }
}

impl ModuleRequest {
    pub open spec fn req(&self) -> (Seq<char>, Option<Seq<char>>) {
        (self.specifier@, opt_str_view(self.referrer))
    }
}

pub open spec fn reqs_of(v: Seq<ModuleRequest>) -> Seq<(Seq<char>, Option<Seq<char>>)> {
    v.map_values(|r: ModuleRequest| r.req())
}

/// Whether `spec` was already requested as an import: the root request, at
/// index zero, does not count.
pub open spec fn requested_import(reqs: Seq<(Seq<char>, Option<Seq<char>>)>, spec: Seq<char>) -> bool {
    exists|i: int| 1 <= i < reqs.len() && #[trigger] reqs[i].0 == spec
}

/// The requests after asking for `spec`, unless it was asked for before.
pub open spec fn with_import(
    reqs: Seq<(Seq<char>, Option<Seq<char>>)>,
    spec: Seq<char>,
    referrer: Seq<char>,
) -> Seq<(Seq<char>, Option<Seq<char>>)> {
    if requested_import(reqs, spec) {
        reqs
    } else {
        reqs.push((spec, Some(referrer)))
    }
}

/// The requests after going through the first `n` imports of a module found
/// at `referrer`: each one that leads to no registered module is asked for.
pub open spec fn with_imports<H>(
    reqs: Seq<(Seq<char>, Option<Seq<char>>)>,
    imports: Seq<Seq<char>>,
    n: int,
    referrer: Seq<char>,
    modules: Modules<H>,
) -> Seq<(Seq<char>, Option<Seq<char>>)>
    decreases n,
{
    if n <= 0 {
        reqs
    } else {
        let before = with_imports(reqs, imports, n - 1, referrer, modules);
        if modules.resolve(imports[n - 1]) is Some {
            before
        } else {
            with_import(before, imports[n - 1], referrer)
        }
    }
}

/// A module's source as the loader delivers it: the URL that was asked for,
/// the canonical URL it was found at, and the code.
pub struct ModuleSource {
    pub code: String,
    pub module_url_specified: String,
    pub module_url_found: String,
}

/// What registering a fetched module takes: nothing more when its canonical
/// URL already leads to a module, else compiling it, as the main module or
/// not.
#[derive(Clone, Copy, Debug, PartialEq, Eq, Structural)]
pub enum Registration {
    Existing(ModuleId),
    Compile { main: bool },
}

/// First half of registering a fetched module: when the loader was
/// redirected, the URL asked for becomes an alias of the canonical one; then
/// the canonical URL is looked up. A module found there is reused; otherwise
/// it is to be compiled, as the main module exactly when it is the root of a
/// main load.
pub fn prepare_registration<H>(
    modules: &mut Modules<H>,
    load: &RecursiveLoad,
    url_specified: &str,
    url_found: &str,
) -> (r: Registration)
    requires
        old(modules).wf(),
    ensures
        final(modules).wf(),
        final(modules).modules() == old(modules).modules(),
        final(modules).names() == if url_specified@ != url_found@ {
            old(modules).names().insert(url_specified@, NameEntry::Alias(url_found@))
        } else {
            old(modules).names()
        },
        match r {
            Registration::Existing(id) => final(modules).resolve(url_found@) == Some(id)
                && final(modules).modules().contains_key(id),
            Registration::Compile { main } => final(modules).resolve(url_found@) is None && main == (
            load.state == LoadState::LoadingRoot && load.kind == LoadKind::Main),
        },
{
    let specified: String = url_specified.to_owned();
    let found: String = url_found.to_owned();
    if specified != found {
        modules.alias(url_specified, url_found);
    }
    proof {
        modules.lemma_resolved_is_registered(url_found@);
    }
    match modules.get_id(url_found) {
        Some(id) => Registration::Existing(id),
        None => Registration::Compile {
            main: load.state == LoadState::LoadingRoot && !load.is_dynamic_import(),
        },
    }
}

/// The load of one module graph, static or dynamic, from its root specifier
/// until every module it reaches is registered.
pub struct RecursiveLoad {
    pub id: ModuleLoadId,
    pub kind: LoadKind,
    pub state: LoadState,
    pub root_module_id: Option<ModuleId>,
    /// Source given for the root module, which is then not fetched.
    pub code: Option<String>,
    /// Every request made, the root first.
    pub requests: Vec<ModuleRequest>,
    /// How many of `requests` were handed out to be fetched.
    pub started: usize,
    /// How many fetched modules were registered.
    pub completed: usize,
}

impl RecursiveLoad {
    /// Every request made so far, the root first.
    pub open spec fn requests(&self) -> Seq<(Seq<char>, Option<Seq<char>>)> {
        reqs_of(self.requests@)
    }

    /// How many requests were handed out to be fetched.
    pub open spec fn started(&self) -> int {
        self.started as int
    }

    /// How many fetched modules were registered.
    pub open spec fn completed(&self) -> int {
        self.completed as int
    }

    /// Requests whose module was not registered yet.
    pub open spec fn pending(&self) -> int {
        self.requests().len() - self.completed()
    }

    pub open spec fn wf(&self) -> bool {
        &&& 1 <= self.requests@.len()
        &&& self.completed <= self.started <= self.requests@.len()
        &&& (self.state == LoadState::LoadingRoot) == (self.root_module_id is None)
        &&& self.state == LoadState::Done ==> self.completed == self.requests@.len()
    }

    /// A finished load has its root module and nothing outstanding.
    pub proof fn lemma_done_is_complete(&self)
        requires
            self.wf(),
            self.state == LoadState::Done,
        ensures
            self.root_module_id is Some,
            self.pending() == 0,
            self.completed() == self.started(),
    {
    }

    fn start(id: ModuleLoadId, kind: LoadKind, request: ModuleRequest, code: Option<String>) -> (r:
        RecursiveLoad)
        ensures
            r.wf(),
            r.id == id,
            r.kind == kind,
            r.state == LoadState::LoadingRoot,
            r.root_module_id is None,
            r.code == code,
            r.requests() == seq![request.req()],
            r.started() == 0,
            r.completed() == 0,
    {
        let requests = vec![request];
        let r = RecursiveLoad {
            id,
            kind,
            state: LoadState::LoadingRoot,
            root_module_id: None,
            code,
            requests,
            started: 0,
            completed: 0,
        };
        assert(r.requests() =~= seq![request.req()]);
        r
    }

    /// A load of the main module `specifier`; with `code`, that source is used
    /// for it instead of fetching it.
    pub fn main(id: ModuleLoadId, specifier: &str, code: Option<String>) -> (r: RecursiveLoad)
        ensures
            r.wf(),
            r.id == id,
            r.kind == LoadKind::Main,
            r.state == LoadState::LoadingRoot,
            r.root_module_id is None,
            r.code == code,
            r.requests() == seq![(specifier@, None::<Seq<char>>)],
            r.started() == 0,
            r.completed() == 0,
    {
        let request = ModuleRequest { specifier: specifier.to_owned(), referrer: None };
        RecursiveLoad::start(id, LoadKind::Main, request, code)
    }

    /// A load for `import(specifier)` made by the module at `referrer`.
    pub fn dynamic_import(id: ModuleLoadId, specifier: &str, referrer: &str) -> (r: RecursiveLoad)
        ensures
            r.wf(),
            r.id == id,
            r.kind == LoadKind::DynamicImport,
            r.state == LoadState::LoadingRoot,
            r.root_module_id is None,
            r.code is None,
            r.requests() == seq![(specifier@, Some(referrer@))],
            r.started() == 0,
            r.completed() == 0,
    {
        let request = ModuleRequest {
            specifier: specifier.to_owned(),
            referrer: Some(referrer.to_owned()),
        };
        RecursiveLoad::start(id, LoadKind::DynamicImport, request, None)
    }

    pub fn is_dynamic_import(&self) -> (r: bool)
        ensures
            r == (self.kind == LoadKind::DynamicImport),
    {
        self.kind == LoadKind::DynamicImport
    }

    pub fn is_done(&self) -> (r: bool)
        ensures
            r == (self.state == LoadState::Done),
    {
        self.state == LoadState::Done
    }

    /// Hands out the requests made since the last call, to be fetched.
    pub fn take_new_requests(&mut self) -> (r: Vec<ModuleRequest>)
        requires
            old(self).wf(),
        ensures
            final(self).wf(),
            reqs_of(r@) == old(self).requests().subrange(old(self).started(), old(self).requests().len() as int),
            final(self).started() == final(self).requests().len(),
            final(self).requests() == old(self).requests(),
            final(self).completed() == old(self).completed(),
            final(self).state == old(self).state,
            final(self).root_module_id == old(self).root_module_id,
            final(self).id == old(self).id,
            final(self).kind == old(self).kind,
    {
        let mut out: Vec<ModuleRequest> = Vec::new();
        let mut i: usize = self.started;
        while i < self.requests.len()
            invariant
                *self == *old(self),
                self.started <= i <= self.requests@.len(),
                reqs_of(out@) == reqs_of(self.requests@).subrange(self.started as int, i as int),
            decreases self.requests@.len() - i,
        {
            let r = &self.requests[i];
            let referrer: Option<String> = match &r.referrer {
                Some(t) => Some(t.clone()),
                None => None,
            };
            let copy = ModuleRequest { specifier: r.specifier.clone(), referrer };
            proof {
                assert(copy.req() == r.req());
            }
            let ghost before = out@;
            out.push(copy);
            proof {
                assert(out@ == before.push(copy));
                assert(reqs_of(out@) =~= reqs_of(before).push(copy.req()));
                assert(reqs_of(out@) =~= reqs_of(self.requests@).subrange(self.started as int, i + 1));
            }
            i += 1;
        }
        self.started = self.requests.len();
        out
    }

    fn has_import(&self, spec: &String) -> (r: bool)
        requires
            self.wf(),
        ensures
            r == requested_import(self.requests(), spec@),
    {
        let mut i: usize = 1;
        while i < self.requests.len()
            invariant
                1 <= i <= self.requests@.len(),
                forall|k: int| 1 <= k < i ==> self.requests()[k].0 != spec@,
            decreases self.requests@.len() - i,
        {
            if self.requests[i].specifier == *spec {
                assert(self.requests()[i as int].0 == spec@);
                return true;
            }
            i += 1;
        }
        false
    }

    /// Second half of registering a fetched module, once it has the id
    /// `module_id`: asks for each import that leads to no registered module,
    /// takes the first registered module as the root, and finishes the load
    /// when nothing asked for is still outstanding.
    pub fn register_module<H>(&mut self, modules: &Modules<H>, module_id: ModuleId, url_found: &str)
        requires
            old(self).wf(),
            old(self).state != LoadState::Done,
            old(self).completed() < old(self).started(),
            modules.wf(),
            modules.modules().contains_key(module_id),
        ensures
            final(self).wf(),
            final(self).requests() == with_imports(
                old(self).requests(),
                modules.modules()[module_id].imports,
                modules.modules()[module_id].imports.len() as int,
                url_found@,
                *modules,
            ),
            final(self).completed() == old(self).completed() + 1,
            final(self).started() == old(self).started(),
            state_rank(final(self).state) > state_rank(old(self).state) || final(self).state
                == old(self).state,
            final(self).root_module_id == if old(self).state == LoadState::LoadingRoot {
                Some(module_id)
            } else {
                old(self).root_module_id
            },
            final(self).state == if final(self).pending() == 0 {
                LoadState::Done
            } else {
                LoadState::LoadingImports
            },
            final(self).id == old(self).id,
            final(self).kind == old(self).kind,
            final(self).code == old(self).code,
    {
        let children = modules.get_children(module_id).unwrap();
        let ghost imports = modules.modules()[module_id].imports;
        let mut i: usize = 0;
        while i < children.len()
            invariant
                self.wf(),
                self.state == old(self).state,
                self.state != LoadState::Done,
                self.started == old(self).started,
                self.completed == old(self).completed,
                self.root_module_id == old(self).root_module_id,
                self.id == old(self).id,
                self.kind == old(self).kind,
                self.code == old(self).code,
                modules.wf(),
                urls_of(children@) == imports,
                i <= children@.len(),
                self.requests() == with_imports(old(self).requests(), imports, i as int, url_found@, *modules),
            decreases children@.len() - i,
        {
            let spec = &children[i];
            assert(imports[i as int] == spec@);
            if !modules.is_registered(spec.as_str()) {
                self.add_import(spec.as_str(), url_found);
            }
            i += 1;
        }
        self.completed = self.completed + 1;
        if self.state == LoadState::LoadingRoot {
            self.root_module_id = Some(module_id);
            self.state = LoadState::LoadingImports;
        }
        if self.completed == self.requests.len() {
            self.state = LoadState::Done;
        }
    }

    /// Asks for `specifier`, found as an import of `referrer`, unless it was
    /// asked for as an import before.
    pub fn add_import(&mut self, specifier: &str, referrer: &str)
        requires
            old(self).wf(),
            old(self).state != LoadState::Done,
        ensures
            final(self).wf(),
            final(self).requests() == with_import(old(self).requests(), specifier@, referrer@),
            final(self).code == old(self).code,
            final(self).started() == old(self).started(),
            final(self).completed() == old(self).completed(),
            final(self).state == old(self).state,
            final(self).root_module_id == old(self).root_module_id,
            final(self).id == old(self).id,
            final(self).kind == old(self).kind,
    {
        let spec: String = specifier.to_owned();
        if self.has_import(&spec) {
            return;
        }
        let request = ModuleRequest { specifier: spec, referrer: Some(referrer.to_owned()) };
        self.requests.push(request);
        assert(self.requests() =~= old(self).requests().push((specifier@, Some(referrer@))));
    }
}

} // verus!
