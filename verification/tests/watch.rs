use build_proxy::watch::{
    is_relevant_change, is_relevant_event, is_relevant_path, path_has_extension, EventKind, EventPath,
};
use std::path::Path;

fn std_relevant(text: &str) -> bool {
    let path = Path::new(text);
    !path.ends_with("swagger-initializer.js")
        && !text.contains("/node_modules/")
        && !text.contains("/.jj/repo/")
        && !text.contains("/.jj/working_copy/")
}

#[test]
fn paths_are_taken_apart_as_by_std() {
    let pieces = ["swagger-initializer.js", "a", ".", "..", "/"];
    let mut texts = vec![String::new()];
    let mut from = 0;
    for _ in 0..6 {
        let to = texts.len();
        for i in from..to {
            for piece in pieces {
                texts.push(format!("{}{piece}", texts[i]));
            }
        }
        from = to;
    }
    for text in &texts {
        assert_eq!(is_relevant_path(text), std_relevant(text), "{text:?}");
        let extension = Path::new(text).extension().is_some();
        assert_eq!(path_has_extension(text), extension, "{text:?}");
    }
}

#[test]
fn extensions_are_found_as_by_std() {
    let mut texts = vec![String::new()];
    let mut from = 0;
    for _ in 0..8 {
        let to = texts.len();
        for i in from..to {
            for c in ['a', '.', '/'] {
                texts.push(format!("{}{c}", texts[i]));
            }
        }
        from = to;
    }
    for text in &texts {
        let extension = Path::new(text).extension().is_some();
        assert_eq!(path_has_extension(text), extension, "{text:?}");
    }
}

#[test]
fn named_files_and_directories_are_ignored() {
    for text in [
        "/p/swagger-initializer.js",
        "swagger-initializer.js",
        "/p/swagger-initializer.js/",
        "/p/swagger-initializer.js/.",
        "/p/my-swagger-initializer.js",
        "/p/swagger-initializer.js/main.go",
        "/p/swagger-initializer.js.map",
        "/p/node_modules/x/index.js",
        "/p/node_modules",
        "/p/node_modules.go",
        "node_modules/x/index.js",
        "/p/.jj/repo/store.bin",
        "/p/.jj/repo.bin",
        "/p/.jj/working_copy/tree.bin",
        "/p/.jj/working_copies/tree.bin",
        "/p/.jj/other/tree.bin",
        "/p/é.ü",
    ] {
        assert_eq!(is_relevant_path(text), std_relevant(text), "{text:?}");
    }
    assert!(is_relevant_path("/p/cmd/web/main.go"));
    assert!(!is_relevant_path("/p/public/swagger-initializer.js"));
    assert!(!is_relevant_path("/p/node_modules/x/index.js"));
    assert!(!is_relevant_path("/p/.jj/repo/store.bin"));
    assert!(!is_relevant_path("/p/.jj/working_copy/tree.bin"));
}

const KINDS: [EventKind; 6] = [
    EventKind::Any,
    EventKind::Access,
    EventKind::Create,
    EventKind::Modify,
    EventKind::Remove,
    EventKind::Other,
];

fn file(text: &str) -> EventPath {
    EventPath { text: text.to_string(), directory: false }
}

fn directory(text: &str) -> EventPath {
    EventPath { text: text.to_string(), directory: true }
}

#[test]
fn a_trigger_file_is_relevant() {
    for kind in KINDS {
        assert!(is_relevant_event(kind, &vec![file("/p/.e2e-trigger.txt")]));
    }
}

#[test]
fn changed_files_without_an_extension_are_relevant() {
    for text in ["/p/Makefile", "/p/.env", "/p/.gitignore", "/p/Dockerfile", "/p/\u{fffd}"] {
        for kind in [EventKind::Any, EventKind::Create, EventKind::Modify, EventKind::Remove] {
            assert!(is_relevant_change(kind, &file(text)), "{text:?}");
            assert!(is_relevant_event(kind, &vec![file(text)]));
        }
    }
}

#[test]
fn opened_files_without_an_extension_are_ignored() {
    for kind in [EventKind::Access, EventKind::Other] {
        assert!(!is_relevant_change(kind, &file("/p/Makefile")));
        assert!(!is_relevant_event(kind, &vec![file("/p/Makefile")]));
    }
}

#[test]
fn directories_are_ignored() {
    for kind in KINDS {
        for text in ["/p/src", "/p/bin/", "/p"] {
            assert!(!is_relevant_event(kind, &vec![directory(text)]), "{text:?}");
        }
        assert!(is_relevant_event(kind, &vec![directory("/p/conf.d")]));
    }
}

#[test]
fn one_relevant_path_is_enough() {
    let package = || file("/p/node_modules/b.js");
    for kind in KINDS {
        assert!(is_relevant_event(kind, &vec![]));
        assert!(is_relevant_event(kind, &vec![file("/p/src/a.go"), package()]));
        assert!(is_relevant_event(kind, &vec![package(), file("/p/src/a.go")]));
        assert!(!is_relevant_event(kind, &vec![package()]));
        assert!(!is_relevant_event(kind, &vec![package(), package(), directory("/p/src")]));
    }
    assert!(is_relevant_event(EventKind::Modify, &vec![package(), file("/p/\u{fffd}")]));
    assert!(!is_relevant_event(
        EventKind::Modify,
        &vec![file("/p/node_modules/\u{fffd}.js")]
    ));
}
