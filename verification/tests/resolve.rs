use kei::resolve::{derive_root, module_file, FsModuleResolver, Module, ModuleDecl, ResolveStep};

fn module(path: &[&str]) -> Module {
    Module { decl: Some(ModuleDecl { path: path.iter().map(|s| s.to_string()).collect() }) }
}

#[test]
fn root_is_derived_from_the_module_path() {
    assert_eq!(derive_root("/proj/a/b/c.kei", &module(&["a", "b", "c"])), Some("/proj".to_string()));
    assert_eq!(derive_root("src/app/main.kei", &module(&["app", "main"])), Some("src".to_string()));
    assert_eq!(derive_root("main.kei", &module(&["main"])), Some("".to_string()));
}

#[test]
fn root_is_none_without_a_usable_declaration() {
    assert_eq!(derive_root("/proj/a.kei", &Module { decl: None }), None);
    assert_eq!(derive_root("/proj/a.kei", &module(&[])), None);
    assert_eq!(derive_root("a.kei", &module(&["x", "y", "a"])), None);
}

#[test]
fn resolver_caches_and_guards_cycles() {
    let mut resolver: FsModuleResolver<u32> = FsModuleResolver::new("/proj".to_string());
    assert_eq!(resolver.root(), "/proj");
    let a = vec!["t".to_string(), "product".to_string()];
    let b = vec!["t".to_string(), "status".to_string()];
    assert_eq!(resolver.cached(&a), None);
    assert!(resolver.enter(&a));
    assert!(!resolver.enter(&a), "re-entering a module being resolved is a cycle");
    assert!(resolver.enter(&b));
    resolver.leave(&b, None);
    resolver.leave(&a, Some(7));
    assert_eq!(resolver.cached(&a), Some(&Some(7)));
    assert_eq!(resolver.cached(&b), Some(&None));
    assert!(resolver.enter(&a), "a finished module is no longer being resolved");
    resolver.leave(&a, Some(8));
    assert_eq!(resolver.cached(&a), Some(&Some(8)));
    assert_eq!(resolver.cached(&["t".to_string()]), None);
}

fn segments(path: &[&str]) -> Vec<String> {
    path.iter().map(|s| s.to_string()).collect()
}

#[test]
fn module_file_lays_out_the_module_path() {
    assert_eq!(module_file("/proj", &segments(&["a", "b", "c"])), "/proj/a/b/c.kei");
    assert_eq!(module_file("/proj/", &segments(&["t", "product"])), "/proj/t/product.kei");
    assert_eq!(module_file("", &segments(&["main"])), "main.kei");
    assert_eq!(module_file("src", &segments(&["app", "main"])), "src/app/main.kei");
}

#[test]
fn derive_root_inverts_module_file() {
    for (root, path) in [("/proj", vec!["a", "b", "c"]), ("src", vec!["app", "main"]), ("", vec!["main"]), ("/home/u/p", vec!["x"])] {
        let file = module_file(root, &segments(&path));
        assert_eq!(derive_root(&file, &module(&path)), Some(root.to_string()), "{file}");
    }
    assert_eq!(derive_root("/proj/a/b/c.kei", &module(&["a", "b", "c"])), Some("/proj".to_string()));
    assert_eq!(derive_root("c.kei", &module(&["a", "b", "c"])), None);
}

#[test]
fn begin_reads_each_module_once() {
    let mut resolver: FsModuleResolver<u32> = FsModuleResolver::new("/proj".to_string());
    let path = segments(&["a", "b"]);
    match resolver.begin(&path) {
        ResolveStep::Read(file) => assert_eq!(file, "/proj/a/b.kei"),
        _ => panic!("a new module is read"),
    }
    // Requested again while it is being resolved: an import cycle.
    assert!(matches!(resolver.begin(&path), ResolveStep::Cycle));
    resolver.leave(&path, Some(7));
    // Resolved: answered from the cache from now on.
    assert!(matches!(resolver.begin(&path), ResolveStep::Cached));
    assert_eq!(resolver.cached(&path), Some(&Some(7)));
    let other = segments(&["c"]);
    assert!(matches!(resolver.begin(&other), ResolveStep::Read(_)));
    resolver.leave(&other, None);
    assert!(matches!(resolver.begin(&path), ResolveStep::Cached));
    assert!(matches!(resolver.begin(&other), ResolveStep::Cached));
    assert_eq!(resolver.cached(&other), Some(&None));
}

#[test]
fn module_file_sets_the_extension_as_pathbuf_does() {
    // An existing extension of the last segment is replaced.
    assert_eq!(module_file("r", &segments(&["b.c"])), "r/b.kei");
    assert_eq!(module_file("r", &segments(&["a", ".hidden"])), "r/a/.hidden.kei");
    // A path ending in `..` has no file name and is left as it is.
    assert_eq!(module_file("r", &segments(&["a", ".."])), "r/a/..");
    // An absolute segment replaces what was pushed before.
    assert_eq!(module_file("r", &segments(&["a", "/x"])), "/x.kei");
    // The empty module path sets the extension of the root itself.
    assert_eq!(module_file("/proj", &segments(&[])), "/proj.kei");
}

#[test]
fn derive_root_is_none_with_too_few_parents() {
    assert_eq!(derive_root("b/c.kei", &module(&["a", "b", "c"])), None);
    assert_eq!(derive_root("/c.kei", &module(&["a", "b"])), None);
    assert_eq!(derive_root("/a/b.kei", &module(&["a", "b"])), Some("/".to_string()));
}
