use zephyr::errors::{ErrorCode, ZephyrError};
use zephyr::package::{load_package, parse_package_file, Package, PackageDependency};
use zephyr::scope::{create_variable_store, Scope, ScopeStore, ScopeType, Variable};
use zephyr::tokens::Location;

fn globals(store: &mut zephyr::scope::ScopeStore<i64>) -> Scope {
    Scope::new(store, "main.zr".to_string(), 1, 0, -1)
}

#[test]
fn scope_knows_its_builtins() {
    let mut store = ScopeStore::new();
    let g = globals(&mut store);
    assert_eq!(g.scope_type, ScopeType::Normal);
    assert_eq!(g.file_name, "main.zr");
    assert!(g.parent.is_none());
    assert_eq!(g.lookup(&store, "true".to_string(), None).unwrap(), 1);
    assert_eq!(g.lookup(&store, "false".to_string(), None).unwrap(), 0);
    assert_eq!(g.lookup(&store, "null".to_string(), None).unwrap(), -1);
}

#[test]
fn scope_insert_then_lookup() {
    let mut store = ScopeStore::new();
    let mut g = globals(&mut store);
    g.insert(&mut store, "x".to_string(), Variable::from(42), None).unwrap();
    assert_eq!(g.lookup(&store, "x".to_string(), None).unwrap(), 42);
}

#[test]
fn scope_insert_underscore_is_ignored() {
    let mut store = ScopeStore::new();
    let mut g = globals(&mut store);
    g.insert(&mut store, "_".to_string(), Variable::from(5), None).unwrap();
    g.insert(&mut store, "_".to_string(), Variable::from(6), None).unwrap();
}

#[test]
fn scope_insert_twice_is_refused() {
    let mut store = ScopeStore::new();
    let mut g = globals(&mut store);
    g.insert(&mut store, "x".to_string(), Variable::from(1), None).unwrap();
    let loc = Location { start: 3, end: 4, line: 2, file_name: None };
    let err = g
        .insert(&mut store, "x".to_string(), Variable::from(2), Some(loc))
        .unwrap_err();
    assert_eq!(err.code, ErrorCode::AlreadyDefined);
    assert_eq!(err.message, "Variable x already exists in the current scope");
    assert_eq!(err.location.unwrap().start, 3);
    assert_eq!(g.lookup(&store, "x".to_string(), None).unwrap(), 1);
}

#[test]
fn child_scope_sees_and_shadows_parent() {
    let mut store = ScopeStore::new();
    let mut g = globals(&mut store);
    g.insert(&mut store, "x".to_string(), Variable::from(1), None).unwrap();
    let mut child = Scope::new_from_parent(&mut store, &g);
    assert_eq!(child.parent, Some(g.id));
    assert_eq!(child.file_name, "main.zr");
    assert_eq!(child.lookup(&store, "x".to_string(), None).unwrap(), 1);
    child.insert(&mut store, "x".to_string(), Variable::from(2), None).unwrap();
    assert_eq!(child.lookup(&store, "x".to_string(), None).unwrap(), 2);
    assert_eq!(g.lookup(&store, "x".to_string(), None).unwrap(), 1);
}

#[test]
fn modify_writes_the_enclosing_scope() {
    let mut store = ScopeStore::new();
    let mut g = globals(&mut store);
    g.insert(&mut store, "counter".to_string(), Variable::from(0), None).unwrap();
    let mut child = Scope::new_from_parent_new_file_name(&mut store, g.id, "lib.zr".to_string());
    assert_eq!(child.file_name, "lib.zr");
    child.modify(&mut store, "counter".to_string(), 7, None).unwrap();
    assert_eq!(g.lookup(&store, "counter".to_string(), None).unwrap(), 7);
    assert_eq!(child.lookup(&store, "counter".to_string(), None).unwrap(), 7);
    let sibling = Scope::new_from_parent(&mut store, &g);
    assert_eq!(sibling.lookup(&store, "counter".to_string(), None).unwrap(), 7);
}

#[test]
fn modify_of_own_variable_is_not_kept() {
    let mut store = ScopeStore::new();
    let mut g = globals(&mut store);
    g.insert(&mut store, "y".to_string(), Variable::from(3), None).unwrap();
    g.modify(&mut store, "y".to_string(), 9, None).unwrap();
    assert_eq!(g.lookup(&store, "y".to_string(), None).unwrap(), 3);
}

#[test]
fn variable_from_is_not_const() {
    let v = Variable::from("a");
    assert!(!v.is_const);
    assert_eq!(v.value, "a");
}

fn sample_package() -> Package {
    Package {
        name: "demo".to_string(),
        version: "1.0.0".to_string(),
        author: String::new(),
        description: String::new(),
        entry_point: "index.zr".to_string(),
        dependencies: vec![PackageDependency {
            name: "std".to_string(),
            version: "0.1".to_string(),
        }],
    }
}

#[test]
fn load_package_passes_a_parsed_package_on() {
    let p = load_package("/work/demo", "\"/work/demo\"", Some(Ok(sample_package()))).unwrap();
    assert_eq!(p.name, "demo");
    assert_eq!(p.entry_point, "index.zr");
    assert_eq!(p.dependencies[0].name, "std");
}

#[test]
fn load_package_without_manifest() {
    let err = load_package("/work/demo", "\"/work/demo\"", None).unwrap_err();
    assert_eq!(err.code, ErrorCode::RuntimeError);
    assert_eq!(err.message, "Cannot find the package.toml in /work/demo");
    let loc = err.location.unwrap();
    assert_eq!((loc.start, loc.end, loc.line), (0, 0, 0));
    assert!(loc.file_name.is_none());
}

#[test]
fn load_package_with_bad_manifest() {
    let err = load_package("/work/demo", "\"/work/\\\"demo\\\"\"", Some(Err("expected `=`".to_string()))).unwrap_err();
    assert_eq!(err.code, ErrorCode::RuntimeError);
    assert_eq!(
        err.message,
        "Failed to parse \"/work/\\\"demo\\\"\" (package.toml file): expected `=`"
    );
}

#[test]
fn parse_package_file_passes_errors_on() {
    let dir = std::path::PathBuf::from("a\"b");
    let err = parse_package_file(&format!("{:?}", dir), Err("bad".to_string())).unwrap_err();
    assert_eq!(err.message, "Failed to parse \"a\\\"b\" (package.toml file): bad");
    assert!(parse_package_file("\"dir\"", Ok(sample_package())).is_ok());
}

#[test]
fn error_code_names() {
    assert_eq!(ErrorCode::UnexpectedToken.name(), "UnexpectedToken");
    assert_eq!(ErrorCode::AlreadyDefined.name(), "AlreadyDefined");
    assert_eq!(ErrorCode::ReturnError.name(), "ReturnError");
}

#[test]
fn visualise_without_location() {
    let e = ZephyrError {
        code: ErrorCode::RuntimeError,
        message: "boom".to_string(),
        location: None,
    };
    assert_eq!(e.visualise(None), "\u{1b}[31mRuntimeError error: boom\u{1b}[0m");
}

#[test]
fn visualise_points_at_the_place() {
    let e = ZephyrError {
        code: ErrorCode::UnexpectedToken,
        message: "bad".to_string(),
        location: Some(Location { start: 4, end: 6, line: 1, file_name: Some("f.zr".to_string()) }),
    };
    let shown = e.visualise(Some("let a = 1;\nlet bc = 2;\n".to_string()));
    assert_eq!(
        shown,
        "\u{1b}[31mUnexpectedToken error: bad\u{1b}[0m\n\n\u{1b}[90mlet bc = 2;\u{1b}[0m\n\u{1b}[36m    ^^\u{1b}[0m"
    );
}

#[test]
fn visualise_line_past_the_end() {
    let e = ZephyrError {
        code: ErrorCode::LexerError,
        message: "x".to_string(),
        location: Some(Location { start: 0, end: 1, line: 5, file_name: None }),
    };
    let shown = e.visualise(None);
    assert_eq!(
        shown,
        "\u{1b}[31mLexerError error: x\u{1b}[0m\n\n\u{1b}[90m<invalid location>\u{1b}[0m\n\u{1b}[36m^\u{1b}[0m"
    );
    let shown = e._visualise("only one line".to_string());
    assert!(shown.contains("<invalid location>"));
}

#[test]
fn visualise_last_line_without_newline() {
    let e = ZephyrError {
        code: ErrorCode::LexerError,
        message: "x".to_string(),
        location: Some(Location { start: 1, end: 1, line: 1, file_name: None }),
    };
    let shown = e._visualise("a\nbcd".to_string());
    assert!(shown.contains("\u{1b}[90mbcd\u{1b}[0m\n\u{1b}[36m \u{1b}[0m"));
}

#[test]
fn prototype_store_starts_with_builtin_kinds() {
    let store = zephyr::prototype_store::PrototypeStore::new(&Vec::<u8>::new());
    for kind in ["any", "event_emitter", "string", "array", "number", "enum", "object"] {
        assert!(store.get(kind).is_empty());
    }
}

#[test]
fn prototype_store_set_then_get() {
    let mut store = zephyr::prototype_store::PrototypeStore::new(&0u32);
    assert_eq!(store.set("string".to_string(), 5), 5);
    assert_eq!(store.get("string"), 5);
    assert_eq!(store.get("array"), 0);
    assert_eq!(store.set("custom".to_string(), 9), 9);
    assert_eq!(store.get("custom"), 9);
    assert_eq!(store.get("string"), 5);
}

#[test]
fn scope_ids_count_up_and_never_repeat() {
    let mut store = ScopeStore::new();
    let g = globals(&mut store);
    let a = Scope::new_from_parent(&mut store, &g);
    let b = Scope::new_from_parent_new_file_name(&mut store, a.id, "x.zr".to_string());
    let c = Scope::new(&mut store, "y.zr".to_string(), 1, 0, -1);
    assert_eq!((g.id, a.id, b.id, c.id), (1, 2, 3, 4));
}

#[test]
fn create_variable_store_counts_from_one() {
    let mut store: ScopeStore<i64> = ScopeStore::new();
    assert_eq!(create_variable_store(&mut store, None), 1);
    assert_eq!(create_variable_store(&mut store, Some(1)), 2);
    assert_eq!(create_variable_store(&mut store, Some(1)), 3);
    let g = globals(&mut store);
    assert_eq!(g.id, 4);
}
