use contree::deps::{
    collect_names, collect_registry_paths, collect_relevant, crate_version_of,
    extract_references, get_used_crate_versions, match_reasons, print_dependency_file,
    print_relevant_dependency_files, reasons_from, references_from, relevant_dependency_files,
    DependencyFile, DependencyListing, DependencyScan, ErrorReferences, LoweredName,
    DEPENDENCY_HEADER, DIRECT_REASON, REGISTRY_MARK,
};
use contree::relevant::{RelevantFile, RelevantFiles};
use contree::render::{classify_read, FileBody};

const SERDE_LIB: &str =
    "/home/u/.cargo/registry/src/index.crates.io-6f17d22bba15001f/serde-1.0.0/src/lib.rs";

fn compiler_output() -> String {
    let mut text = String::new();
    text.push_str("error[E0599]: no method named `frobnicate` found for struct `Vec<u8>`\n");
    text.push_str("  --> /home/u/.cargo/registry/src/index.crates.io-6f17d22bba15001f/serde-1.0.0/src/lib.rs:10:5\n");
    text.push_str("   |\n");
    text.push_str("10 |     v.frobnicate();\n");
    text.push_str("   |       ^^^^^^^^^^ method not found in `Vec<u8>`\n");
    text.push_str("error[E0308]: mismatched types\n");
    text.push_str(" --> /home/u/project/src/main.rs:3:1\n");
    text.push_str("   = note: expected `String`, found `&str`\n");
    text.push_str("   = note: this error originates in the macro `my_vec` (in Nightly builds)\n");
    text.push_str("   = note: expected `Option<String>`, found `String`\n");
    text
}

fn strings(items: &[&str]) -> Vec<String> {
    items.iter().map(|s| s.to_string()).collect()
}

fn group(items: &[Option<&str>]) -> Vec<Option<String>> {
    items.iter().map(|s| s.map(|t| t.to_string())).collect()
}

fn source_file(crate_dir: &str, path: &str, file_name: &str, content: &str) -> DependencyFile {
    DependencyFile {
        crate_dir: crate_dir.to_string(),
        path: path.to_string(),
        file_name: file_name.to_string(),
        content: content.to_string(),
    }
}

fn paths_of(files: &RelevantFiles) -> Vec<String> {
    files.entries().iter().map(|f| f.path.clone()).collect()
}

#[test]
fn constants_of_the_correlator() {
    assert_eq!(REGISTRY_MARK, ".cargo/registry");
    assert_eq!(DIRECT_REASON, "directly referenced");
    assert_eq!(DEPENDENCY_HEADER, "\n=== Relevant Dependency Files ===\n\n");
}

#[test]
fn references_are_taken_from_compiler_output() {
    let refs = extract_references(&compiler_output()).unwrap();
    assert_eq!(refs.direct, strings(&[SERDE_LIB]));
    assert_eq!(refs.types, strings(&["Vec", "String", "Option", "&str"]));
    assert_eq!(refs.macros, strings(&["my_vec"]));
}

#[test]
fn output_without_errors_refers_to_nothing() {
    let refs = extract_references("running 3 tests\ntest result: ok.\n").unwrap();
    assert_eq!(
        refs,
        ErrorReferences { direct: Vec::new(), types: Vec::new(), macros: Vec::new() }
    );
    assert_eq!(extract_references("").unwrap().types, Vec::<String>::new());
}

#[test]
fn a_location_outside_the_package_cache_is_no_reference() {
    let refs = extract_references(" --> /home/u/project/src/main.rs:3:1\n").unwrap();
    assert_eq!(refs.direct, Vec::<String>::new());
    let relative = extract_references(" --> src/.cargo/registry/x.rs:3:1\n").unwrap();
    assert_eq!(relative.direct, Vec::<String>::new());
}

#[test]
fn a_location_is_recorded_once() {
    let line = format!("  --> {}:1:2\n", SERDE_LIB);
    let text = format!("{}{}  --> {}:7:9\n", line, line, SERDE_LIB);
    let refs = extract_references(&text).unwrap();
    assert_eq!(refs.direct, strings(&[SERDE_LIB]));
}

#[test]
fn names_are_collected_from_a_group() {
    let caps = vec![
        group(&[Some("whole"), Some("Vec<u8>"), Some("&str")]),
        group(&[Some("whole"), None, Some("u8")]),
        group(&[Some("whole"), Some("Vec<String>")]),
        group(&[Some("whole"), Some("Map")]),
    ];
    let mut cut: Vec<String> = strings(&["Seen"]);
    collect_names(&mut cut, &caps, 1, true);
    assert_eq!(cut, strings(&["Seen", "Vec", "Map"]));
    let mut whole: Vec<String> = Vec::new();
    collect_names(&mut whole, &caps, 1, false);
    assert_eq!(whole, strings(&["Vec<u8>", "Vec<String>", "Map"]));
    let mut second: Vec<String> = Vec::new();
    collect_names(&mut second, &caps, 2, true);
    assert_eq!(second, strings(&["&str", "u8"]));
    let mut none: Vec<String> = Vec::new();
    collect_names(&mut none, &caps, 3, true);
    assert_eq!(none, Vec::<String>::new());
}

#[test]
fn registry_paths_are_collected_from_group_one() {
    let caps = vec![
        group(&[Some("w"), Some("/a/.cargo/registry/x.rs"), Some("1"), Some("2")]),
        group(&[Some("w"), Some("/a/project/y.rs"), Some("1"), Some("2")]),
        group(&[Some("w"), None]),
        group(&[Some("w")]),
        group(&[Some("w"), Some("/a/.cargo/registry/x.rs")]),
        group(&[Some("w"), Some("/b/.cargo/registry/z.rs")]),
    ];
    assert_eq!(
        collect_registry_paths(&caps),
        strings(&["/a/.cargo/registry/x.rs", "/b/.cargo/registry/z.rs"])
    );
}

#[test]
fn references_from_the_matches_of_the_patterns() {
    let direct = vec![group(&[Some("w"), Some("/a/.cargo/registry/x.rs"), Some("1"), Some("2")])];
    let method = vec![group(&[Some("w"), Some("Foo<T>")])];
    let macros = vec![group(&[Some("w"), Some("vec<")])];
    let mismatch = vec![
        group(&[Some("w"), Some("A<B>"), Some("C")]),
        group(&[Some("w"), Some("D"), Some("Foo")]),
    ];
    let refs = references_from(&direct, &method, &macros, &mismatch);
    assert_eq!(refs.direct, strings(&["/a/.cargo/registry/x.rs"]));
    assert_eq!(refs.types, strings(&["Foo", "A", "D", "C"]));
    assert_eq!(refs.macros, strings(&["vec<"]));
}

#[test]
fn a_package_is_named_by_name_and_version() {
    assert_eq!(
        crate_version_of(&group(&[Some("w"), Some("serde"), Some("1.0.0")])),
        Some("serde-1.0.0".to_string())
    );
    assert_eq!(crate_version_of(&group(&[Some("w"), Some("serde"), None])), None);
    assert_eq!(crate_version_of(&group(&[Some("w"), None, Some("1.0.0")])), None);
    assert_eq!(crate_version_of(&group(&[Some("w"), Some("serde")])), None);
    assert_eq!(crate_version_of(&group(&[])), None);
}

#[test]
fn packages_in_use_are_read_from_the_tree() {
    let tree = "myproj v0.1.0 (/home/u/project)\n\
\u{251c}\u{2500}\u{2500} anyhow v1.0.75\n\
\u{251c}\u{2500}\u{2500} regex v1.10.2\n\
\u{2502}   \u{251c}\u{2500}\u{2500} aho-corasick v1.1.2\n\
\u{2502}   \u{2502}   \u{2514}\u{2500}\u{2500} memchr v2.6.4\n\
\u{2502}   \u{2514}\u{2500}\u{2500} regex-syntax v0.8.2\n\
\u{251c}\u{2500}\u{2500} clap_derive v4.4.7 (proc-macro)\n\
\u{2514}\u{2500}\u{2500} walkdir v2.4.0\n\
    \u{2514}\u{2500}\u{2500} same-file v1.0.6\n\
    \u{2514}\u{2500}\u{2500} anyhow v1.0.75 (*)\n";
    assert_eq!(
        get_used_crate_versions(tree),
        Ok(strings(&[
            "anyhow-1.0.75",
            "regex-1.10.2",
            "aho-corasick-1.1.2",
            "memchr-2.6.4",
            "regex-syntax-0.8.2",
            "clap_derive-4.4.7",
            "walkdir-2.4.0",
            "same-file-1.0.6",
        ]))
    );
}

#[test]
fn nested_packages_are_in_use_too() {
    let tree = "proj v0.1.0 (/p)\n\u{251c}\u{2500}\u{2500} a v1.0.0\n\u{2502}   \u{2514}\u{2500}\u{2500} b v2.0.0\n\u{2514}\u{2500}\u{2500} c v3.0.0\n";
    assert_eq!(get_used_crate_versions(tree), Ok(strings(&["a-1.0.0", "b-2.0.0", "c-3.0.0"])));
}

#[test]
fn the_root_of_the_tree_is_no_dependency() {
    assert_eq!(get_used_crate_versions("proj v0.1.0 (/p)\n\u{2502}   x v1.0.0\n"), Ok(Vec::new()));
}

#[test]
fn a_tree_without_branches_names_no_package() {
    assert_eq!(get_used_crate_versions(""), Ok(Vec::new()));
    assert_eq!(get_used_crate_versions("myproj v0.1.0 (/home/u/project)\n"), Ok(Vec::new()));
    assert_eq!(
        get_used_crate_versions("\u{251c}\u{2500}\u{2500} broken v1.0\n"),
        Ok(Vec::new())
    );
}

#[test]
fn tree_lines_may_end_in_carriage_return() {
    let tree = "\u{251c}\u{2500}\u{2500} a v1.2.3\r\n\u{2514}\u{2500}\u{2500} b v0.0.1-beta\r\n";
    assert_eq!(get_used_crate_versions(tree), Ok(strings(&["a-1.2.3", "b-0.0.1"])));
}

#[test]
fn a_file_is_relevant_for_the_types_it_speaks_of() {
    let types = strings(&["HashMap", "Nope", "lib"]);
    let reasons = match_reasons("lib.rs", "use std::collections::hashmap;", &types, &Vec::new());
    assert_eq!(reasons, strings(&["type HashMap", "type lib"]));
}

#[test]
fn the_case_of_a_type_is_of_no_account() {
    let types = strings(&["hashmap"]);
    assert_eq!(
        match_reasons("x.rs", "struct HASHMAP;", &types, &Vec::new()),
        strings(&["type hashmap"])
    );
    assert_eq!(
        match_reasons("HashMap.rs", "", &types, &Vec::new()),
        strings(&["type hashmap"])
    );
    assert_eq!(match_reasons("x.rs", "struct Hash;", &types, &Vec::new()), Vec::<String>::new());
}

#[test]
fn a_file_is_relevant_for_the_macros_it_defines() {
    let macros = strings(&["my_vec", "other"]);
    let content = "#[macro_export]\nmacro_rules! my_vec {\n () => {};\n}\n";
    assert_eq!(match_reasons("m.rs", content, &Vec::new(), &macros), strings(&["macro my_vec"]));
    assert_eq!(
        match_reasons("m.rs", "macro_rules!my_vec {}", &Vec::new(), &macros),
        Vec::<String>::new()
    );
    assert_eq!(
        match_reasons("my_vec.rs", "fn my_vec() {}", &Vec::new(), &macros),
        Vec::<String>::new()
    );
}

#[test]
fn a_macro_is_found_letter_for_letter() {
    assert_eq!(
        match_reasons("m.rs", "macro_rules! MyMac { () => {} }", &Vec::new(), &strings(&["MyMac"])),
        strings(&["macro MyMac"])
    );
    assert_eq!(
        match_reasons("m.rs", "macro_rules! mymac {}", &Vec::new(), &strings(&["MyMac"])),
        Vec::<String>::new()
    );
    assert_eq!(
        match_reasons("m.rs", "MACRO_RULES! MY_VEC {}", &Vec::new(), &strings(&["my_vec"])),
        Vec::<String>::new()
    );
}

#[test]
fn reasons_from_texts_already_in_lower_case() {
    let types = vec![
        LoweredName { name: "HashMap".to_string(), lowered: "hashmap".to_string() },
        LoweredName { name: "Nope".to_string(), lowered: "nope".to_string() },
        LoweredName { name: "Upper".to_string(), lowered: "UPPER".to_string() },
    ];
    let macros = strings(&["Mac", "mac"]);
    let reasons = reasons_from(
        "hashmap.rs",
        "upper macro_rules! mac",
        "UPPER macro_rules! Mac",
        &types,
        &macros,
    );
    assert_eq!(reasons, strings(&["type HashMap", "macro Mac"]));
    let by_content = reasons_from("x.rs", "a nope b", "", &types, &macros);
    assert_eq!(by_content, strings(&["type Nope"]));
    assert_eq!(reasons_from("", "", "", &Vec::new(), &Vec::new()), Vec::<String>::new());
}

#[test]
fn types_come_before_macros() {
    let reasons = match_reasons(
        "m.rs",
        "macro_rules! b {}\nstruct A;",
        &strings(&["A"]),
        &strings(&["b"]),
    );
    assert_eq!(reasons, strings(&["type A", "macro b"]));
}

#[test]
fn reasons_are_kept_once_for_each_path() {
    let mut files = RelevantFiles::new();
    assert!(files.is_empty());
    files.add_reason("/p/a.rs", "type A");
    files.add_reason("/p/b.rs", "directly referenced");
    files.add_reason("/p/a.rs", "macro m");
    files.add_reason("/p/a.rs", "type A");
    assert_eq!(files.len(), 2);
    assert!(!files.is_empty());
    assert_eq!(
        files.entries(),
        &vec![
            RelevantFile { path: "/p/a.rs".to_string(), reasons: strings(&["type A", "macro m"]) },
            RelevantFile {
                path: "/p/b.rs".to_string(),
                reasons: strings(&["directly referenced"]),
            },
        ]
    );
}

#[test]
fn relevant_files_are_those_referenced_and_those_that_match() {
    let refs = ErrorReferences {
        direct: strings(&[SERDE_LIB]),
        types: strings(&["Vec"]),
        macros: strings(&["my_vec"]),
    };
    let used = strings(&["serde-1.0.0"]);
    let found = vec![
        source_file("serde-1.0.0", "/r/serde-1.0.0/src/de.rs", "de.rs", "fn f() -> Vec<u8> {}"),
        source_file("serde-1.0.0", "/r/serde-1.0.0/README.md", "README.md", "Vec"),
        source_file("other-2.0.0", "/r/other-2.0.0/src/lib.rs", "lib.rs", "Vec"),
        source_file("serde-1.0.0", SERDE_LIB, "lib.rs", "macro_rules! my_vec {}"),
        source_file("serde-1.0.0", "/r/serde-1.0.0/src/no.rs", "no.rs", "nothing"),
    ];
    let files = collect_relevant(&refs, &used, &found);
    assert_eq!(
        files.entries(),
        &vec![
            RelevantFile {
                path: SERDE_LIB.to_string(),
                reasons: strings(&["directly referenced", "type Vec", "macro my_vec"]),
            },
            RelevantFile {
                path: "/r/serde-1.0.0/src/de.rs".to_string(),
                reasons: strings(&["type Vec"]),
            },
        ]
    );
}

#[test]
fn outside_a_project_nothing_is_relevant() {
    let scan = DependencyScan {
        marker_chain: vec![false, false, false],
        tree_output: Some("\u{251c}\u{2500}\u{2500} serde v1.0.0\n".to_string()),
        registry_found: true,
        files: vec![source_file("serde-1.0.0", "/r/serde-1.0.0/src/de.rs", "de.rs", "Vec")],
    };
    let files = relevant_dependency_files(&compiler_output(), &scan).unwrap();
    assert!(files.is_empty());
    let listings: Vec<DependencyListing> = Vec::new();
    let mut out = String::new();
    let warnings = print_relevant_dependency_files(&listings, &mut out);
    assert_eq!(out, "");
    assert_eq!(warnings, Vec::<String>::new());
}

#[test]
fn inside_a_project_the_cache_is_searched() {
    let scan = DependencyScan {
        marker_chain: vec![false, true],
        tree_output: Some("\u{251c}\u{2500}\u{2500} serde v1.0.0\n".to_string()),
        registry_found: true,
        files: vec![
            source_file("serde-1.0.0", "/r/serde-1.0.0/src/de.rs", "de.rs", "Option<T>"),
            source_file("rand-0.8.5", "/r/rand-0.8.5/src/lib.rs", "lib.rs", "Option<T>"),
        ],
    };
    let files = relevant_dependency_files(&compiler_output(), &scan).unwrap();
    assert_eq!(paths_of(&files), strings(&[SERDE_LIB, "/r/serde-1.0.0/src/de.rs"]));
    assert_eq!(files.entries()[0].reasons, strings(&["directly referenced"]));
    assert_eq!(files.entries()[1].reasons, strings(&["type Option"]));
}

#[test]
fn without_tree_or_cache_nothing_is_relevant() {
    let mut scan = DependencyScan {
        marker_chain: vec![true],
        tree_output: None,
        registry_found: true,
        files: vec![source_file("serde-1.0.0", "/r/serde-1.0.0/src/de.rs", "de.rs", "Vec")],
    };
    assert!(relevant_dependency_files(&compiler_output(), &scan).unwrap().is_empty());
    scan.tree_output = Some("\u{251c}\u{2500}\u{2500} serde v1.0.0\n".to_string());
    scan.registry_found = false;
    assert!(relevant_dependency_files(&compiler_output(), &scan).unwrap().is_empty());
    scan.registry_found = true;
    assert!(!relevant_dependency_files(&compiler_output(), &scan).unwrap().is_empty());
}

#[test]
fn a_dependency_file_is_written_with_its_reasons() {
    let listing = DependencyListing {
        file: RelevantFile {
            path: "/r/a.rs".to_string(),
            reasons: strings(&["directly referenced", "type Vec"]),
        },
        body: FileBody::Text("fn a() {}".to_string()),
    };
    let mut out = String::from(">");
    print_dependency_file(&listing, &mut out);
    assert_eq!(
        out,
        ">File: /r/a.rs\n  - directly referenced\n  - type Vec\n```\nfn a() {}\n```\n\n"
    );
}

#[test]
fn a_dependency_file_that_cannot_be_read_says_so() {
    let listing = DependencyListing {
        file: RelevantFile { path: "/r/gone.rs".to_string(), reasons: strings(&["macro m"]) },
        body: FileBody::Unreadable("No such file or directory (os error 2)".to_string()),
    };
    let mut out = String::new();
    print_dependency_file(&listing, &mut out);
    assert_eq!(
        out,
        "File: /r/gone.rs\n  - macro m\n```\n(Failed to read file: No such file or directory (os error 2))\n```\n\n"
    );
}

#[test]
fn the_section_opens_with_its_header() {
    let listings = vec![
        DependencyListing {
            file: RelevantFile { path: "/r/a.rs".to_string(), reasons: strings(&["type A"]) },
            body: FileBody::Text("a".to_string()),
        },
        DependencyListing {
            file: RelevantFile { path: "/r/b.rs".to_string(), reasons: Vec::new() },
            body: FileBody::Text("b".to_string()),
        },
    ];
    let mut out = String::new();
    let warnings = print_relevant_dependency_files(&listings, &mut out);
    assert_eq!(
        out,
        "\n=== Relevant Dependency Files ===\n\nFile: /r/a.rs\n  - type A\n```\na\n```\n\nFile: /r/b.rs\n  - \n```\nb\n```\n\n"
    );
    assert_eq!(warnings, Vec::<String>::new());
}

#[test]
fn dependency_files_that_cannot_be_read_give_warnings() {
    let listings = vec![
        DependencyListing {
            file: RelevantFile { path: "/r/gone.rs".to_string(), reasons: strings(&["type A"]) },
            body: FileBody::Unreadable("not found".to_string()),
        },
        DependencyListing {
            file: RelevantFile { path: "/r/b.rs".to_string(), reasons: strings(&["macro m"]) },
            body: FileBody::Text("b".to_string()),
        },
    ];
    let mut out = String::new();
    let warnings = print_relevant_dependency_files(&listings, &mut out);
    assert_eq!(
        warnings,
        strings(&["Warning: Dependency file /r/gone.rs could not be read: not found"])
    );
    assert_eq!(
        out,
        "\n=== Relevant Dependency Files ===\n\nFile: /r/gone.rs\n  - type A\n```\n(Failed to read file: not found)\n```\n\nFile: /r/b.rs\n  - macro m\n```\nb\n```\n\n"
    );
}

#[test]
fn a_binary_dependency_file_is_shown_as_the_placeholder() {
    let bytes: &[u8] = &[0x66, 0xff, 0xfe, 0x00];
    let mut reader = bytes;
    let mut text = String::new();
    let read = std::io::Read::read_to_string(&mut reader, &mut text)
        .map(|_| text)
        .map_err(|e| e.to_string());
    let listings = vec![DependencyListing {
        file: RelevantFile {
            path: "/r/bin.rs".to_string(),
            reasons: strings(&["directly referenced"]),
        },
        body: classify_read(read),
    }];
    assert_eq!(listings[0].body, FileBody::Binary);
    let mut out = String::new();
    let warnings = print_relevant_dependency_files(&listings, &mut out);
    assert_eq!(warnings, Vec::<String>::new());
    assert_eq!(
        out,
        "\n=== Relevant Dependency Files ===\n\nFile: /r/bin.rs\n  - directly referenced\n```\n[binary file]\n```\n\n"
    );
}

#[test]
fn a_macro_with_a_capital_is_reported_with_its_file() {
    let scan = DependencyScan {
        marker_chain: vec![true],
        tree_output: Some("p v0.1.0\n\u{2514}\u{2500}\u{2500} foo v1.0.0\n".to_string()),
        registry_found: true,
        files: vec![source_file(
            "foo-1.0.0",
            "/c/registry/src/i/foo-1.0.0/src/m.rs",
            "m.rs",
            "macro_rules! MyMac { () => {} }",
        )],
    };
    let output = "this error originates in the macro `MyMac`";
    let relevant = relevant_dependency_files(output, &scan).unwrap();
    let listings: Vec<DependencyListing> = relevant
        .entries()
        .iter()
        .map(|file| DependencyListing {
            file: file.clone(),
            body: FileBody::Text("macro_rules! MyMac { () => {} }".to_string()),
        })
        .collect();
    let mut out = String::new();
    let warnings = print_relevant_dependency_files(&listings, &mut out);
    assert_eq!(warnings, Vec::<String>::new());
    assert_eq!(
        out,
        "\n=== Relevant Dependency Files ===\n\nFile: /c/registry/src/i/foo-1.0.0/src/m.rs\n  - macro MyMac\n```\nmacro_rules! MyMac { () => {} }\n```\n\n"
    );
}
