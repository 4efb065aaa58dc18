use depup::aggregate::{aggregate, build_updates};
use depup::error::FetchError;
use depup::reconcile::{process_dependencies, DependencyGroup};
use indexmap::IndexMap;

fn two_groups() -> (IndexMap<String, String>, IndexMap<String, String>) {
    let mut deps: IndexMap<String, String> = IndexMap::new();
    deps.insert("left-pad".to_string(), "^1.0.0".to_string());
    deps.insert("react".to_string(), "^2.0.0".to_string());
    let mut dev_deps: IndexMap<String, String> = IndexMap::new();
    dev_deps.insert("jest".to_string(), "~9.0.0".to_string());
    (deps, dev_deps)
}

#[test]
fn non_apply_mode_never_mutates_the_mappings() {
    let (mut deps, mut dev_deps) = two_groups();
    let deps_before = deps.clone();
    let dev_deps_before = dev_deps.clone();

    let dep_outcomes: Vec<Result<String, FetchError>> =
        vec![Ok("1.3.0".to_string()), Ok("2.5.0".to_string())];
    let dev_outcomes: Vec<Result<String, FetchError>> = vec![Ok("9.9.9".to_string())];
    let dep_updates = process_dependencies(&deps, &dep_outcomes, DependencyGroup::Runtime);
    let dev_updates = process_dependencies(&dev_deps, &dev_outcomes, DependencyGroup::Development);

    let report = aggregate(&dep_updates, &dev_updates, 0, 0, false, &mut deps, &mut dev_deps);
    assert!(report.did_update);
    assert_eq!(deps, deps_before);
    assert_eq!(dev_deps, dev_deps_before);
}

#[test]
fn apply_mode_rewrites_only_decided_keys_in_order() {
    let (mut deps, _) = two_groups();
    let dep_outcomes: Vec<Result<String, FetchError>> =
        vec![Ok("1.3.0".to_string()), Ok("2.0.0".to_string())];
    let dep_updates = process_dependencies(&deps, &dep_outcomes, DependencyGroup::Runtime);

    let did = build_updates(&dep_updates, true, &mut deps);
    assert!(did);

    let pairs: Vec<(String, String)> = deps
        .iter()
        .map(|(k, v)| (k.clone(), v.clone()))
        .collect();
    assert_eq!(
        pairs,
        vec![
            ("left-pad".to_string(), "^1.3.0".to_string()),
            ("react".to_string(), "^2.0.0".to_string()),
        ]
    );
}

#[test]
fn manifest_with_one_update_gets_one_decision_applied() {
    // One runtime dependency, an empty development group, a registry that
    // answers 1.3.0: one decision, and apply mode rewrites the mapping.
    let mut deps: IndexMap<String, String> = IndexMap::new();
    deps.insert("left-pad".to_string(), "^1.0.0".to_string());
    let mut dev_deps: IndexMap<String, String> = IndexMap::new();

    let dep_outcomes: Vec<Result<String, FetchError>> = vec![Ok("1.3.0".to_string())];
    let dev_outcomes: Vec<Result<String, FetchError>> = vec![];
    let dep_updates = process_dependencies(&deps, &dep_outcomes, DependencyGroup::Runtime);
    let dev_updates = process_dependencies(&dev_deps, &dev_outcomes, DependencyGroup::Development);

    let report = aggregate(&dep_updates, &dev_updates, 0, 0, true, &mut deps, &mut dev_deps);
    assert!(report.did_update);
    assert_eq!(report.updates.len(), 1);
    assert_eq!(report.packages_examined, 1);
    assert_eq!(report.updates[0].package_name, "left-pad");
    assert_eq!(report.updates[0].old_version, "^1.0.0");
    assert_eq!(report.updates[0].new_version, "^1.3.0");
    assert_eq!(report.updates[0].group, DependencyGroup::Runtime);
    assert_eq!(deps.get("left-pad").unwrap(), "^1.3.0");
    assert!(dev_deps.is_empty());
}

#[test]
fn unchanged_registry_selects_the_no_update_path() {
    // The registry answers the declared version: the report is empty and
    // the "no updates found" path is selected even in apply mode.
    let mut deps: IndexMap<String, String> = IndexMap::new();
    deps.insert("left-pad".to_string(), "^1.0.0".to_string());
    let deps_before = deps.clone();
    let mut dev_deps: IndexMap<String, String> = IndexMap::new();

    let dep_outcomes: Vec<Result<String, FetchError>> = vec![Ok("1.0.0".to_string())];
    let dev_outcomes: Vec<Result<String, FetchError>> = vec![];
    let dep_updates = process_dependencies(&deps, &dep_outcomes, DependencyGroup::Runtime);
    let dev_updates = process_dependencies(&dev_deps, &dev_outcomes, DependencyGroup::Development);

    let report = aggregate(&dep_updates, &dev_updates, 0, 0, true, &mut deps, &mut dev_deps);
    assert!(!report.did_update);
    assert_eq!(report.updates.len(), 0);
    assert_eq!(deps, deps_before);
}

#[test]
fn one_timeout_among_two_still_reports_the_survivor() {
    // One of two lookups times out: at most one decision, one warning, and
    // the run as a whole still succeeds.
    let mut deps: IndexMap<String, String> = IndexMap::new();
    deps.insert("left-pad".to_string(), "^1.0.0".to_string());
    deps.insert("react".to_string(), "^2.0.0".to_string());
    let mut dev_deps: IndexMap<String, String> = IndexMap::new();

    let dep_outcomes: Vec<Result<String, FetchError>> =
        vec![Err(FetchError::Timeout), Ok("2.5.0".to_string())];
    let dev_outcomes: Vec<Result<String, FetchError>> = vec![];
    let dep_updates = process_dependencies(&deps, &dep_outcomes, DependencyGroup::Runtime);
    let dev_updates = process_dependencies(&dev_deps, &dev_outcomes, DependencyGroup::Development);

    let failures = depup::reconcile::count_failures(&dep_outcomes);
    let report = aggregate(
        &dep_updates,
        &dev_updates,
        failures,
        0,
        false,
        &mut deps,
        &mut dev_deps,
    );
    assert!(report.updates.len() <= 1);
    assert_eq!(report.updates.len(), 1);
    assert_eq!(report.updates[0].package_name, "react");
    assert_eq!(report.failures, 1);
    assert_eq!(report.packages_examined, 2);
}

#[test]
fn aggregate_orders_runtime_before_development() {
    let (mut deps, mut dev_deps) = two_groups();
    let dep_outcomes: Vec<Result<String, FetchError>> =
        vec![Ok("1.1.0".to_string()), Ok("2.1.0".to_string())];
    let dev_outcomes: Vec<Result<String, FetchError>> = vec![Ok("9.1.0".to_string())];
    let dep_updates = process_dependencies(&deps, &dep_outcomes, DependencyGroup::Runtime);
    let dev_updates = process_dependencies(&dev_deps, &dev_outcomes, DependencyGroup::Development);

    let report = aggregate(&dep_updates, &dev_updates, 0, 0, false, &mut deps, &mut dev_deps);
    let names: Vec<&str> = report
        .updates
        .iter()
        .map(|u| u.package_name.as_str())
        .collect();
    assert_eq!(names, vec!["left-pad", "react", "jest"]);
    assert_eq!(report.packages_examined, 3);
}
