use givc_registry::{
    Query, Registry, RegistryEntry, RegistryError, ServiceType, UnitStatus, UnitType, VmType,
};

const APP: UnitType = UnitType { vm: VmType::AppVm, service: ServiceType::App };
const ADMIN: UnitType = UnitType { vm: VmType::AdmVm, service: ServiceType::Mgr };
const SYS: UnitType = UnitType { vm: VmType::SysVm, service: ServiceType::Svc };

fn entry(name: &str, unit_type: UnitType, status: UnitStatus, watch: bool) -> RegistryEntry {
    RegistryEntry { name: name.to_string(), unit_type, status, watch }
}

fn names(list: &[RegistryEntry]) -> Vec<String> {
    let mut v: Vec<String> = list.iter().map(|e| e.name.clone()).collect();
    v.sort();
    v
}

#[test]
fn new_registry_is_empty() {
    let r = Registry::new();
    assert!(!r.contains("a.service".to_string()));
    assert!(r.watch_list().is_empty());
    assert!(r.by_type_many(APP).is_empty());
}

#[test]
fn register_twice_keeps_newest_only() {
    let mut r = Registry::new();
    r.register(entry("a.service", APP, UnitStatus::Starting, false));
    r.register(entry("a.service", SYS, UnitStatus::Running, true));
    let all = r.by_name_many("a".to_string()).unwrap();
    assert_eq!(all.len(), 1);
    assert_eq!(all[0], entry("a.service", SYS, UnitStatus::Running, true));
    assert!(r.by_type_many(APP).is_empty());
}

#[test]
fn deregister_absent_fails_and_changes_nothing() {
    let mut r = Registry::new();
    r.register(entry("a.service", APP, UnitStatus::Running, true));
    assert_eq!(
        r.deregister("b.service".to_string()),
        Err(RegistryError::NotFound(Query::Name("b.service".to_string())))
    );
    assert_eq!(
        r.by_name("a.service".to_string()),
        Ok(entry("a.service", APP, UnitStatus::Running, true))
    );
    assert_eq!(r.watch_list().len(), 1);
}

#[test]
fn deregister_present_removes_only_that_entry() {
    let mut r = Registry::new();
    r.register(entry("a.service", APP, UnitStatus::Running, true));
    r.register(entry("b.service", APP, UnitStatus::Running, true));
    assert_eq!(r.deregister("a.service".to_string()), Ok(()));
    assert_eq!(
        r.by_name("a.service".to_string()),
        Err(RegistryError::NotFound(Query::Name("a.service".to_string())))
    );
    assert!(r.contains("b.service".to_string()));
    assert!(r.deregister("a.service".to_string()).is_err());
}

#[test]
fn by_name_returns_registered_entry() {
    let mut r = Registry::new();
    let e = entry("vm@0.service", ADMIN, UnitStatus::Failed, true);
    r.register(e.clone());
    assert_eq!(r.by_name("vm@0.service".to_string()), Ok(e));
    assert_eq!(
        r.by_name("vm".to_string()),
        Err(RegistryError::NotFound(Query::Name("vm".to_string())))
    );
}

#[test]
fn by_name_many_matches_substring() {
    let mut r = Registry::new();
    r.register(entry("foo@0.service", APP, UnitStatus::Running, false));
    r.register(entry("foo@1.service", APP, UnitStatus::Running, false));
    r.register(entry("bar.service", APP, UnitStatus::Running, false));
    let found = r.by_name_many("foo".to_string()).unwrap();
    assert_eq!(names(&found), vec!["foo@0.service".to_string(), "foo@1.service".to_string()]);
    assert_eq!(
        r.by_name_many("zzz".to_string()),
        Err(RegistryError::NotFound(Query::Substring("zzz".to_string())))
    );
    assert_eq!(r.by_name_many(".service".to_string()).unwrap().len(), 3);
    assert_eq!(r.by_name_many("".to_string()).unwrap().len(), 3);
    assert_eq!(names(&r.by_name_many("o@1".to_string()).unwrap()), vec!["foo@1.service".to_string()]);
}

#[test]
fn by_name_many_on_empty_registry_fails() {
    let r = Registry::new();
    assert_eq!(
        r.by_name_many("".to_string()),
        Err(RegistryError::NotFound(Query::Substring("".to_string())))
    );
}

#[test]
fn by_type_needs_exactly_one() {
    let mut r = Registry::new();
    assert_eq!(r.by_type(ADMIN), Err(RegistryError::NotFound(Query::Type(ADMIN))));
    let admin = entry("admin.service", ADMIN, UnitStatus::Running, false);
    r.register(admin.clone());
    r.register(entry("app.service", APP, UnitStatus::Running, false));
    assert_eq!(r.by_type(ADMIN), Ok(admin));
    r.register(entry("admin2.service", ADMIN, UnitStatus::Stopped, false));
    assert_eq!(r.by_type(ADMIN), Err(RegistryError::Conflict(ADMIN)));
    assert_eq!(r.by_type(SYS), Err(RegistryError::NotFound(Query::Type(SYS))));
}

#[test]
fn by_type_many_lists_all_of_type() {
    let mut r = Registry::new();
    r.register(entry("a.service", APP, UnitStatus::Running, false));
    r.register(entry("b.service", SYS, UnitStatus::Running, false));
    r.register(entry("c.service", APP, UnitStatus::Running, true));
    assert_eq!(names(&r.by_type_many(APP)), vec!["a.service".to_string(), "c.service".to_string()]);
    assert_eq!(names(&r.by_type_many(SYS)), vec!["b.service".to_string()]);
    assert!(r.by_type_many(ADMIN).is_empty());
}

#[test]
fn unique_name_skips_taken_names() {
    let mut r = Registry::new();
    assert_eq!(r.create_unique_entry_name("svc".to_string()), "svc@0.service");
    r.register(entry("svc@0.service", APP, UnitStatus::Running, false));
    assert_eq!(r.create_unique_entry_name("svc".to_string()), "svc@1.service");
    r.register(entry("svc@1.service", APP, UnitStatus::Running, false));
    assert_eq!(r.create_unique_entry_name("svc".to_string()), "svc@2.service");
    assert_eq!(r.create_unique_entry_name("other".to_string()), "other@0.service");
}

#[test]
fn unique_name_fills_gaps_and_counts_past_nine() {
    let mut r = Registry::new();
    for i in 0..11 {
        if i != 4 {
            r.register(entry(&format!("svc@{i}.service"), APP, UnitStatus::Running, false));
        }
    }
    assert_eq!(r.create_unique_entry_name("svc".to_string()), "svc@4.service");
    r.register(entry("svc@4.service", APP, UnitStatus::Running, false));
    let name = r.create_unique_entry_name("svc".to_string());
    assert_eq!(name, "svc@11.service");
    assert!(!r.contains(name));
}

#[test]
fn watch_list_holds_watched_only() {
    let mut r = Registry::new();
    r.register(entry("a.service", APP, UnitStatus::Running, true));
    r.register(entry("b.service", SYS, UnitStatus::Failed, false));
    r.register(entry("c.service", ADMIN, UnitStatus::Stopped, true));
    assert_eq!(names(&r.watch_list()), vec!["a.service".to_string(), "c.service".to_string()]);
    r.register(entry("a.service", APP, UnitStatus::Running, false));
    assert_eq!(names(&r.watch_list()), vec!["c.service".to_string()]);
}

#[test]
fn update_state_changes_status_only() {
    let mut r = Registry::new();
    r.register(entry("a.service", APP, UnitStatus::Starting, true));
    r.register(entry("b.service", SYS, UnitStatus::Starting, false));
    assert_eq!(r.update_state("a.service".to_string(), UnitStatus::Running), Ok(()));
    assert_eq!(
        r.by_name("a.service".to_string()),
        Ok(entry("a.service", APP, UnitStatus::Running, true))
    );
    assert_eq!(
        r.by_name("b.service".to_string()),
        Ok(entry("b.service", SYS, UnitStatus::Starting, false))
    );
}

#[test]
fn update_state_on_absent_name_fails() {
    let mut r = Registry::new();
    r.register(entry("a.service", APP, UnitStatus::Starting, true));
    assert_eq!(
        r.update_state("x.service".to_string(), UnitStatus::Failed),
        Err(RegistryError::NotFound(Query::Name("x.service".to_string())))
    );
    assert_eq!(
        r.by_name("a.service".to_string()),
        Ok(entry("a.service", APP, UnitStatus::Starting, true))
    );
    assert!(!r.contains("x.service".to_string()));
}

#[test]
fn contains_matches_exact_name_only() {
    let mut r = Registry::new();
    r.register(entry("a.service", APP, UnitStatus::Running, false));
    assert!(r.contains("a.service".to_string()));
    assert!(!r.contains("a".to_string()));
    assert!(!r.contains("a.service ".to_string()));
}
