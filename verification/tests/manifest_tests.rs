use depup::manifest::insert_new_maps;
use indexmap::IndexMap;

#[test]
fn test_insert_new_maps() {
    let mut package_json: serde_json::Value = serde_json::from_str(
        r#"{
            "name": "abc123",
            "dependencies": {
                "package-a": "^1.0.0",
                "package-b": "^2.0.0"
            },
            "devDependencies": {
                "package-c": "^3.0.0",
                "package-d": "^4.0.0"
            }
        }"#,
    )
    .unwrap();

    let mut deps: IndexMap<String, String> = IndexMap::new();
    deps.insert("package-a".to_string(), "^2.0.0".to_string());
    deps.insert("package-b".to_string(), "^3.0.0".to_string());

    let mut dev_deps: IndexMap<String, String> = IndexMap::new();
    dev_deps.insert("package-c".to_string(), "^3.5.0".to_string());
    dev_deps.insert("package-d".to_string(), "^4.0.0".to_string());

    // Expect the new maps to be inserted into the package.json file.
    let result = insert_new_maps(&mut package_json, deps, dev_deps);
    assert!(result.is_ok());
    let expected: serde_json::Value = serde_json::from_str(
        r#"{
            "name": "abc123",
            "dependencies": {
                "package-a": "^2.0.0",
                "package-b": "^3.0.0"
            },
            "devDependencies": {
                "package-c": "^3.5.0",
                "package-d": "^4.0.0"
            }
        }"#,
    )
    .unwrap();
    assert_eq!(package_json, expected);
}

#[test]
fn insert_new_maps_leaves_other_fields_untouched() {
    let mut package_json: serde_json::Value = serde_json::from_str(
        r#"{
            "name": "abc123",
            "version": "0.1.0",
            "scripts": { "build": "tsc" },
            "dependencies": { "left-pad": "^1.0.0" },
            "devDependencies": {}
        }"#,
    )
    .unwrap();
    let before = package_json.clone();

    let mut deps: IndexMap<String, String> = IndexMap::new();
    deps.insert("left-pad".to_string(), "^1.3.0".to_string());
    let dev_deps: IndexMap<String, String> = IndexMap::new();

    let result = insert_new_maps(&mut package_json, deps, dev_deps);
    assert!(result.is_ok());
    assert_eq!(package_json.get("name"), before.get("name"));
    assert_eq!(package_json.get("version"), before.get("version"));
    assert_eq!(package_json.get("scripts"), before.get("scripts"));
    assert_eq!(
        package_json
            .get("dependencies")
            .and_then(|d| d.get("left-pad"))
            .and_then(|v| v.as_str()),
        Some("^1.3.0")
    );
}

#[test]
fn insert_new_maps_twice_changes_nothing_more() {
    let mut package_json: serde_json::Value = serde_json::from_str(
        r#"{
            "name": "abc123",
            "dependencies": { "left-pad": "^1.0.0" },
            "devDependencies": { "jest": "~9.0.0" }
        }"#,
    )
    .unwrap();

    let mut deps: IndexMap<String, String> = IndexMap::new();
    deps.insert("left-pad".to_string(), "^1.3.0".to_string());
    let mut dev_deps: IndexMap<String, String> = IndexMap::new();
    dev_deps.insert("jest".to_string(), "~9.2.0".to_string());

    assert!(insert_new_maps(&mut package_json, deps.clone(), dev_deps.clone()).is_ok());
    let after_first = package_json.clone();
    assert!(insert_new_maps(&mut package_json, deps, dev_deps).is_ok());
    assert_eq!(package_json, after_first);
}

#[test]
fn insert_new_maps_adds_no_missing_field() {
    // A document without the dependency fields is left exactly as it was.
    let mut package_json: serde_json::Value =
        serde_json::from_str(r#"{ "name": "abc123" }"#).unwrap();
    let before = package_json.clone();

    let mut deps: IndexMap<String, String> = IndexMap::new();
    deps.insert("left-pad".to_string(), "^1.3.0".to_string());
    let dev_deps: IndexMap<String, String> = IndexMap::new();

    let result = insert_new_maps(&mut package_json, deps, dev_deps);
    assert!(result.is_ok());
    assert_eq!(package_json, before);
}
