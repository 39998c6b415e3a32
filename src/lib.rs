//! Host core of a JavaScript runtime: the verified logic behind the event
//! loop, the shared response queue, the ES module graph and the startup and
//! snapshot lifecycle. The engine itself and the futures that back async ops
//! are driven by the embedding program, which hands this library plain values.

mod error;
mod event_loop;
mod id_map;
mod modules;
mod recursive_load;
mod shared_queue;
mod startup;

pub use error::{js_check, CoreError, ErrorKind};
pub use event_loop::{poll_outcome, termination_steps, DynImports, PollOutcome, ResponseBatch, TerminationSteps};
pub use id_map::IdMap;
pub use modules::{
    evaluation_outcome, urls_of, lookup, ModuleId, ModuleInfo, ModuleRecord, ModuleStatus, Modules, NameEntry,
    SymbolicModule,
};
pub use recursive_load::{
    prepare_registration, LoadKind, LoadState, ModuleLoadId, ModuleRequest, ModuleSource, RecursiveLoad,
    Registration,
};
pub use shared_queue::{OpId, SharedQueue, HEAD_INIT, MAX_RECORDS, RECOMMENDED_SIZE};
pub use startup::{
    Bootstrap, HeapLimits, IsolateSetup, NearHeapLimit, OwnedScript, Script, Snapshot, SnapshotLifecycle,
    StartupData, StartupOptions, Teardown,
};
