use vstd::prelude::*;

verus! {

/// A script run once to initialize a runtime: its source and file name.
pub struct Script<'a> {
    pub source: &'a str,
    pub filename: &'a str,
}

/// A script kept by the runtime until it runs.
pub struct OwnedScript {
    pub source: String,
    pub filename: String,
}

impl OwnedScript {
    pub fn from(s: Script) -> (r: OwnedScript)
        ensures
            r.source@ == s.source@,
            r.filename@ == s.filename@,
    {
        OwnedScript { source: s.source.to_owned(), filename: s.filename.to_owned() }
    }
}

/// A startup snapshot: bytes built into the program, a blob just produced
/// by a snapshotting runtime, or bytes owned elsewhere.
pub enum Snapshot {
    Static(&'static [u8]),
    JustCreated(Vec<u8>),
    Boxed(Box<[u8]>),
}

/// What initializes a runtime at startup: a script, a snapshot, or nothing
/// beyond the built-in bootstrap.
pub enum StartupData<'a> {
    Script(Script<'a>),
    Snapshot(Snapshot),
    Empty,
}

/// Whether `script` and `snapshot` are what `data` holds: its script, kept
/// as owned strings, or its snapshot.
pub open spec fn splits_into(data: StartupData, script: Option<OwnedScript>, snapshot: Option<Snapshot>) -> bool {
    match data {
        StartupData::Script(s) => snapshot is None && (script matches Some(o) && o.source@ == s.source@
            && o.filename@ == s.filename@),
        StartupData::Snapshot(snap) => script is None && snapshot == Some(snap),
        StartupData::Empty => script is None && snapshot is None,
    }
}

impl StartupData<'_> {
    /// Splits the startup data into the script to run and the snapshot to
    /// start from; at most one of them is present.
    pub fn into_options(self) -> (r: (Option<OwnedScript>, Option<Snapshot>))
        ensures
            splits_into(self, r.0, r.1),
    {
        match self {
            StartupData::Script(script) => (Some(OwnedScript::from(script)), None),
            StartupData::Snapshot(snapshot) => (None, Some(snapshot)),
            StartupData::Empty => (None, None),
        }
    }
}

/// Minimum and maximum bytes of heap used in an isolate.
pub struct HeapLimits {
    /// Heap size to start with, which spares garbage collections at startup
    /// when the live set is large.
    pub initial: usize,
    /// Size near which the engine collects garbage and then calls the
    /// near-heap-limit callback.
    pub max: usize,
}

/// How the isolate of a new runtime comes to be.
#[derive(Clone, Copy, Debug, PartialEq, Eq, Structural)]
pub enum IsolateSetup {
    /// Owned by a snapshot builder; the bindings are installed on a fresh
    /// context, which becomes the builder's default context.
    SnapshotCreator,
    /// Started from a snapshot, whose context already holds the bindings.
    FromSnapshot,
    /// Started empty; the bindings are installed on a fresh context.
    Fresh,
}

/// Everything that decides how a runtime starts, but for the op router and
/// the module loader.
pub struct StartupOptions {
    pub startup_script: Option<OwnedScript>,
    pub startup_snapshot: Option<Snapshot>,
    pub will_snapshot: bool,
    pub heap_limits: Option<HeapLimits>,
}

impl StartupOptions {
    /// Options of a runtime without heap limits.
    pub fn new(startup_data: StartupData, will_snapshot: bool) -> (r: StartupOptions)
        ensures
            splits_into(startup_data, r.startup_script, r.startup_snapshot),
            r.will_snapshot == will_snapshot,
            r.heap_limits is None,
    {
        let (startup_script, startup_snapshot) = startup_data.into_options();
        StartupOptions { startup_script, startup_snapshot, will_snapshot, heap_limits: None }
    }

    /// Options of a runtime with heap limits, which never snapshots.
    pub fn with_heap_limits(startup_data: StartupData, heap_limits: HeapLimits) -> (r:
        StartupOptions)
        ensures
            splits_into(startup_data, r.startup_script, r.startup_snapshot),
            !r.will_snapshot,
            r.heap_limits == Some(heap_limits),
    {
        let (startup_script, startup_snapshot) = startup_data.into_options();
        StartupOptions {
            startup_script,
            startup_snapshot,
            will_snapshot: false,
            heap_limits: Some(heap_limits),
        }
    }

    /// How to build the isolate. A runtime that will snapshot cannot start
    /// from a snapshot.
    pub fn isolate_setup(&self) -> (r: IsolateSetup)
        requires
            !(self.will_snapshot && self.startup_snapshot is Some),
        ensures
            r == if self.will_snapshot {
                IsolateSetup::SnapshotCreator
            } else if self.startup_snapshot is Some {
                IsolateSetup::FromSnapshot
            } else {
                IsolateSetup::Fresh
            },
    {
        if self.will_snapshot {
            IsolateSetup::SnapshotCreator
        } else if self.startup_snapshot.is_some() {
            IsolateSetup::FromSnapshot
        } else {
            IsolateSetup::Fresh
        }
    }
}

/// The one-time bootstrap of a runtime: the built-in script, then the
/// optional startup script, both before the first script or module runs.
pub struct Bootstrap {
    pub needs_init: bool,
    pub startup_script: Option<OwnedScript>,
}

impl Bootstrap {
    pub fn new(startup_script: Option<OwnedScript>) -> (b: Bootstrap)
        ensures
            b.needs_init,
            b.startup_script == startup_script,
    {
        Bootstrap { needs_init: true, startup_script }
    }

    /// On the first call, marks the bootstrap done and returns the startup
    /// script to run after the built-in one; on later calls, returns `None`.
    pub fn begin(&mut self) -> (r: Option<Option<OwnedScript>>)
        ensures
            old(self).needs_init ==> r == Some(old(self).startup_script),
            old(self).needs_init ==> !final(self).needs_init,
            old(self).needs_init ==> final(self).startup_script is None,
            !old(self).needs_init ==> r is None && *final(self) == *old(self),
    {
        if self.needs_init {
            self.needs_init = false;
            Some(self.startup_script.take())
        } else {
            None
        }
    }
}

/// What tearing a runtime down does with the isolate and the snapshot
/// builder.
#[derive(Clone, Copy, Debug, PartialEq, Eq, Structural)]
pub struct Teardown {
    /// The isolate belongs to the builder and must be leaked, not dropped.
    pub leak_isolate: bool,
    /// The builder may be dropped: only once it produced a snapshot.
    pub drop_creator: bool,
}

/// Whether a runtime was built to snapshot, and whether it did.
pub struct SnapshotLifecycle {
    pub will_snapshot: bool,
    pub has_snapshotted: bool,
}

impl SnapshotLifecycle {
    pub fn new(will_snapshot: bool) -> (r: SnapshotLifecycle)
        ensures
            r.will_snapshot == will_snapshot,
            !r.has_snapshotted,
    {
        SnapshotLifecycle { will_snapshot, has_snapshotted: false }
    }

    /// Records that the snapshot was produced; only a runtime built to
    /// snapshot produces one.
    pub fn mark_snapshotted(&mut self)
        requires
            old(self).will_snapshot,
        ensures
            final(self).will_snapshot,
            final(self).has_snapshotted,
    {
        self.has_snapshotted = true;
    }

    pub fn teardown(&self) -> (r: Teardown)
        ensures
            r.leak_isolate == self.will_snapshot,
            r.drop_creator == (self.will_snapshot && self.has_snapshotted),
    {
        Teardown {
            leak_isolate: self.will_snapshot,
            drop_creator: self.will_snapshot && self.has_snapshotted,
        }
    }
}

/// The near-heap-limit callback registered on an isolate; a new one replaces
/// the one before.
pub struct NearHeapLimit<C> {
    pub callback: Option<C>,
}

impl<C> NearHeapLimit<C> {
    pub fn new() -> (r: NearHeapLimit<C>)
        ensures
            r.callback is None,
    {
        NearHeapLimit { callback: None }
    }

    /// Registers `cb` and returns the callback it replaces, to be removed
    /// from the isolate.
    pub fn add(&mut self, cb: C) -> (r: Option<C>)
        ensures
            r == old(self).callback,
            final(self).callback == Some(cb),
    {
        let prev = self.callback.take();
        self.callback = Some(cb);
        prev
    }

    /// Deregisters the callback and returns it, if there was one.
    pub fn remove(&mut self) -> (r: Option<C>)
        ensures
            r == old(self).callback,
            final(self).callback is None,
    {
        self.callback.take()
    }
}

} // verus!
