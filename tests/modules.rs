use deno_core::{
    evaluation_outcome, prepare_registration, ErrorKind, LoadKind, LoadState, ModuleStatus, Modules,
    RecursiveLoad, Registration,
};

fn urls(v: &[&str]) -> Vec<String> {
    v.iter().map(|s| s.to_string()).collect()
}

#[test]
fn register_and_look_up() {
    let mut m: Modules<u32> = Modules::new();
    m.register(42, "file:///a.js", true, 7, urls(&["file:///b.js"]));
    assert_eq!(m.get_id("file:///a.js"), Some(42));
    assert_eq!(m.get_id("file:///b.js"), None);
    assert!(m.is_registered("file:///a.js"));
    assert!(!m.is_registered("file:///b.js"));
    assert_eq!(m.get_name(42).map(|s| s.as_str()), Some("file:///a.js"));
    assert_eq!(m.get_children(42), Some(&urls(&["file:///b.js"])));
    let info = m.get_info(42).unwrap();
    assert!(info.main);
    assert_eq!(info.handle, 7);
    assert!(m.get_info(43).is_none());
    assert!(m.get_children(43).is_none());
}

#[test]
fn id_zero_is_never_found() {
    let mut m: Modules<u32> = Modules::new();
    m.register(0, "file:///zero.js", false, 1, vec![]);
    assert!(m.get_info(0).is_none());
    assert!(m.instantiation_handle(0).is_none());
}

#[test]
fn aliases_lead_to_the_module() {
    let mut m: Modules<u32> = Modules::new();
    m.alias("file:///short.js", "file:///long.js");
    assert!(m.is_alias("file:///short.js"));
    assert_eq!(m.get_id("file:///short.js"), None);
    m.register(43, "file:///long.js", false, 1, vec![]);
    assert_eq!(m.get_id("file:///short.js"), Some(43));
    m.alias("file:///shorter.js", "file:///short.js");
    assert_eq!(m.get_id("file:///shorter.js"), Some(43));
    assert!(!m.is_alias("file:///long.js"));
    assert!(!m.is_alias("file:///unknown.js"));
}

#[test]
fn alias_cycle_leads_nowhere() {
    let mut m: Modules<u32> = Modules::new();
    m.alias("file:///x.js", "file:///y.js");
    m.alias("file:///y.js", "file:///x.js");
    assert_eq!(m.get_id("file:///x.js"), None);
    assert_eq!(m.id_for_link("file:///y.js"), 0);
}

#[test]
fn link_ids() {
    let mut m: Modules<u32> = Modules::new();
    m.register(42, "file:///a.js", true, 1, urls(&["file:///b.js"]));
    assert_eq!(m.id_for_link("file:///b.js"), 0);
    m.register(43, "file:///b.js", false, 2, vec![]);
    assert_eq!(m.id_for_link("file:///b.js"), 43);
    assert_eq!(m.instantiation_handle(43), Some(&2));
}

#[test]
fn reregistering_replaces() {
    let mut m: Modules<u32> = Modules::new();
    m.register(1, "file:///a.js", false, 1, vec![]);
    m.register(1, "file:///a.js", true, 2, urls(&["file:///c.js"]));
    assert_eq!(m.get_info(1).unwrap().handle, 2);
    assert_eq!(m.get_children(1), Some(&urls(&["file:///c.js"])));
}

#[test]
fn evaluation_outcomes() {
    assert!(evaluation_outcome(ModuleStatus::Evaluated).is_ok());
    assert_eq!(evaluation_outcome(ModuleStatus::Errored), Err(ErrorKind::Evaluation));
}

#[test]
fn main_load_walks_the_graph() {
    let mut m: Modules<u32> = Modules::new();
    let mut load = RecursiveLoad::main(1, "file:///a.js", None);
    assert_eq!(load.state, LoadState::LoadingRoot);
    assert_eq!(load.kind, LoadKind::Main);
    let first = load.take_new_requests();
    assert_eq!(first.len(), 1);
    assert_eq!(first[0].specifier, "file:///a.js");
    assert!(first[0].referrer.is_none());

    // the root arrives and is compiled as the main module
    let step = prepare_registration(&mut m, &load, "file:///a.js", "file:///a.js");
    assert_eq!(step, Registration::Compile { main: true });
    m.register(10, "file:///a.js", true, 0, urls(&["file:///b.js", "file:///c.js", "file:///b.js"]));
    load.register_module(&m, 10, "file:///a.js");
    assert_eq!(load.state, LoadState::LoadingImports);
    assert_eq!(load.root_module_id, Some(10));

    let next = load.take_new_requests();
    let specs: Vec<&str> = next.iter().map(|r| r.specifier.as_str()).collect();
    assert_eq!(specs, vec!["file:///b.js", "file:///c.js"]);
    assert_eq!(next[0].referrer.as_deref(), Some("file:///a.js"));
    assert!(load.take_new_requests().is_empty());

    // b arrives from a redirect, then c
    let step = prepare_registration(&mut m, &load, "file:///b.js", "file:///real_b.js");
    assert_eq!(step, Registration::Compile { main: false });
    m.register(11, "file:///real_b.js", false, 0, vec![]);
    load.register_module(&m, 11, "file:///real_b.js");
    assert_eq!(load.state, LoadState::LoadingImports);
    assert_eq!(m.get_id("file:///b.js"), Some(11));

    let step = prepare_registration(&mut m, &load, "file:///c.js", "file:///c.js");
    assert_eq!(step, Registration::Compile { main: false });
    m.register(12, "file:///c.js", false, 0, urls(&["file:///real_b.js"]));
    load.register_module(&m, 12, "file:///c.js");
    assert_eq!(load.state, LoadState::Done);
    assert!(load.is_done());
    assert_eq!(load.root_module_id, Some(10));
}

#[test]
fn dynamic_load_reuses_registered_modules() {
    let mut m: Modules<u32> = Modules::new();
    m.register(20, "file:///b.js", false, 0, vec![]);
    let mut load = RecursiveLoad::dynamic_import(5, "./b.js", "file:///dyn.js");
    assert!(load.is_dynamic_import());
    let first = load.take_new_requests();
    assert_eq!(first[0].specifier, "./b.js");
    assert_eq!(first[0].referrer.as_deref(), Some("file:///dyn.js"));
    let step = prepare_registration(&mut m, &load, "file:///b.js", "file:///b.js");
    assert_eq!(step, Registration::Existing(20));
    load.register_module(&m, 20, "file:///b.js");
    assert_eq!(load.state, LoadState::Done);
    assert_eq!(load.root_module_id, Some(20));
}

#[test]
fn dynamic_root_is_never_main() {
    let mut m: Modules<u32> = Modules::new();
    let load = RecursiveLoad::dynamic_import(6, "file:///d.js", "file:///x.js");
    let step = prepare_registration(&mut m, &load, "file:///d.js", "file:///d.js");
    assert_eq!(step, Registration::Compile { main: false });
}

#[test]
fn add_import_asks_once() {
    let mut load = RecursiveLoad::main(2, "file:///a.js", Some("export {}".to_string()));
    assert_eq!(load.code.as_deref(), Some("export {}"));
    load.add_import("file:///b.js", "file:///a.js");
    load.add_import("file:///b.js", "file:///z.js");
    assert_eq!(load.take_new_requests().len(), 2);
}
