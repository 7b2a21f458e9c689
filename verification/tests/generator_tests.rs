use gandiva_rust_udf::scanner::{
    generate_udf_registry_and_dependencies, PackageScan, ScanError, _extract_package_and_udfs,
    _get_cargo_package_name_and_dir, _get_package_dir_name,
};
use gandiva_rust_udf::text::fill_template;

fn foo_pack() -> PackageScan {
    PackageScan {
        name: "my_foo_func".to_string(),
        dir: "foo_func".to_string(),
        sources: vec!["#[udf]\npub fn foo_func() -> f64 {\n    1.0\n}\n".to_string()],
    }
}

fn bar_pack() -> PackageScan {
    PackageScan {
        name: "my_bar_func".to_string(),
        dir: "bar_func".to_string(),
        sources: vec!["#[udf]\npub fn bar_func(x: i32) -> i32 {\n    x\n}\n".to_string()],
    }
}

#[test]
fn test_generate_no_parameter_udf_registry() {
    let expected_regs = "#[udf_registry]\npub fn register_all_funcs() {\n    my_foo_func::register_foo_func_();\n}\n";
    let expected_deps = "\nmy_foo_func = { path = \"../foo_func\" }";
    let (actual_regs, actual_deps) =
        generate_udf_registry_and_dependencies(&vec![foo_pack()]).unwrap();
    assert_eq!(actual_regs, expected_regs);
    assert_eq!(actual_deps, expected_deps);
}

#[test]
fn test_generate_single_parameter_udf_registry() {
    let expected_regs = "#[udf_registry]\npub fn register_all_funcs() {\n    my_bar_func::register_bar_func_int32();\n}\n";
    let expected_deps = "\nmy_bar_func = { path = \"../bar_func\" }";
    let (actual_regs, actual_deps) =
        generate_udf_registry_and_dependencies(&vec![bar_pack()]).unwrap();
    assert_eq!(actual_regs, expected_regs);
    assert_eq!(actual_deps, expected_deps);
}

#[test]
fn test_generate_multi_udfs_registry() {
    let expected_regs = "#[udf_registry]\npub fn register_all_funcs() {\n    my_bar_func::register_bar_func_int32();\n    my_foo_func::register_foo_func_();\n}\n";
    let expected_deps = "\nmy_bar_func = { path = \"../bar_func\" }\nmy_foo_func = { path = \"../foo_func\" }";
    // the walk finds foo before bar; the output is lexicographic regardless
    let (actual_regs, actual_deps) =
        generate_udf_registry_and_dependencies(&vec![foo_pack(), bar_pack()]).unwrap();
    assert_eq!(actual_regs, expected_regs);
    assert_eq!(actual_deps, expected_deps);
}

#[test]
fn udf_registry_generator_test_test_generate_no_parameter_udf_registry() {
    let (regs, _) = generate_udf_registry_and_dependencies(&vec![foo_pack()]).unwrap();
    assert!(regs.contains("my_foo_func::register_foo_func_();"));
}

#[test]
fn udf_registry_generator_test_test_generate_single_parameter_udf_registry() {
    let (regs, _) = generate_udf_registry_and_dependencies(&vec![bar_pack()]).unwrap();
    assert!(regs.contains("my_bar_func::register_bar_func_int32();"));
}

#[test]
fn udf_registry_generator_test_test_generate_multi_udfs_registry() {
    let (regs, _) =
        generate_udf_registry_and_dependencies(&vec![bar_pack(), foo_pack()]).unwrap();
    let bar_at = regs.find("my_bar_func::register_bar_func_int32();").unwrap();
    let foo_at = regs.find("my_foo_func::register_foo_func_();").unwrap();
    assert!(bar_at < foo_at);
}

#[test]
fn test_generate_is_deterministic_across_walk_orders() {
    let a = generate_udf_registry_and_dependencies(&vec![foo_pack(), bar_pack()]).unwrap();
    let b = generate_udf_registry_and_dependencies(&vec![bar_pack(), foo_pack()]).unwrap();
    assert_eq!(a, b);
}

#[test]
fn test_generate_skips_packages_without_udfs() {
    let plain = PackageScan {
        name: "helpers".to_string(),
        dir: "helpers".to_string(),
        sources: vec!["pub fn not_annotated() -> i32 { 0 }\n".to_string()],
    };
    let (regs, deps) =
        generate_udf_registry_and_dependencies(&vec![plain, foo_pack()]).unwrap();
    assert!(!regs.contains("helpers"));
    assert!(!deps.contains("helpers"));
    assert!(regs.contains("my_foo_func::register_foo_func_();"));
}

#[test]
fn test_generate_unparsable_source_is_fatal() {
    let broken = PackageScan {
        name: "broken".to_string(),
        dir: "broken".to_string(),
        sources: vec!["fn ] this does not parse".to_string()],
    };
    let err = generate_udf_registry_and_dependencies(&vec![broken]).err().unwrap();
    assert_eq!(err, ScanError::UnparsableSource);
    assert_eq!(err.message(), "Failed to parse file");
}

#[test]
fn test_later_package_of_same_name_replaces_earlier() {
    let mut other = foo_pack();
    other.dir = "foo_v2".to_string();
    let out = _extract_package_and_udfs(&vec![foo_pack(), other]).unwrap();
    assert_eq!(out.len(), 1);
    assert_eq!(out[0].dir, "foo_v2");
}

#[test]
fn test_get_package_dir_name_cases() {
    assert_eq!(_get_package_dir_name("/work/udfs/foo_func"), Some("foo_func".to_string()));
    assert_eq!(_get_package_dir_name("foo_func"), Some("foo_func".to_string()));
    assert_eq!(_get_package_dir_name("/work/udfs/foo_func/"), Some("foo_func".to_string()));
    assert_eq!(_get_package_dir_name("/"), None);
    assert_eq!(_get_package_dir_name(""), None);
    assert_eq!(_get_package_dir_name("a/.."), None);
    assert_eq!(_get_package_dir_name("."), None);
}

#[test]
fn test_get_cargo_package_name_and_dir() {
    let manifest = "[package]\nname = \"my_foo_func\"\nversion = \"0.1.0\"\n";
    assert_eq!(
        _get_cargo_package_name_and_dir(manifest, "/tree/foo_func"),
        Ok(Some(("my_foo_func".to_string(), "foo_func".to_string())))
    );
    assert_eq!(
        _get_cargo_package_name_and_dir("[lib]\nname = \"x\"\n", "/tree/foo_func"),
        Ok(None)
    );
    assert_eq!(_get_cargo_package_name_and_dir(manifest, "/"), Ok(None));
}

#[test]
fn test_unparsable_manifest_is_fatal() {
    let err = _get_cargo_package_name_and_dir("not = valid = toml", "/tree/foo_func")
        .err()
        .unwrap();
    assert_eq!(err, ScanError::UnparsableManifest);
    assert_eq!(err.message(), "Failed to parse Cargo.toml");
}

#[test]
fn test_fill_template() {
    assert_eq!(
        fill_template("pre {SLOT} post", "{SLOT}", "body"),
        "pre body post"
    );
    assert_eq!(fill_template("nothing here", "{SLOT}", "body"), "nothing here");
    assert_eq!(fill_template("{A}{A}", "{A}", "x"), "x{A}");
}
