use hidpi::generator::{
    generate, is_known_abi, is_signature_supported, windows_library_tags, DeclarationBatch,
    FunctionDeclaration, GenerationErrorKind, LibraryTag, Parameter, Signature,
};

fn function(name: &str, tags: &[&str], params: &[(&str, &str)], output: Option<&str>) -> FunctionDeclaration {
    FunctionDeclaration {
        signature: Signature {
            name: name.to_string(),
            params: params
                .iter()
                .map(|(n, t)| Parameter { name: n.to_string(), ty: t.to_string() })
                .collect(),
            output: output.map(|o| o.to_string()),
            variadic: false,
        },
        libraries: tags.iter().map(|t| t.to_string()).collect(),
    }
}

fn batch(abi: &str, functions: Vec<FunctionDeclaration>) -> DeclarationBatch {
    DeclarationBatch { abi: abi.to_string(), functions }
}

#[test]
fn functions_sharing_a_tag_share_one_library_entry() {
    let b = batch(
        "system",
        vec![
            function("IsProcessDPIAware", &["USER32"], &[], Some("BOOL")),
            function(
                "GetProcessDpiAwareness",
                &["SHCORE"],
                &[("hProcess", "HANDLE"), ("value", "*mut PROCESS_DPI_AWARENESS")],
                Some("HRESULT"),
            ),
            function("SetProcessDPIAware", &["USER32"], &[], Some("BOOL")),
        ],
    );
    let g = match generate(b, &windows_library_tags()) {
        Ok(g) => g,
        Err(_) => panic!("a valid batch was refused"),
    };
    assert_eq!(g.abi, "system");
    assert_eq!(g.libraries, vec!["user32.dll".to_string(), "shcore.dll".to_string()]);
    let names: Vec<&str> = g.bindings.iter().map(|b| b.name.as_str()).collect();
    assert_eq!(names, vec!["IsProcessDPIAware", "GetProcessDpiAwareness", "SetProcessDPIAware"]);
    let libs: Vec<usize> = g.bindings.iter().map(|b| b.library).collect();
    assert_eq!(libs, vec![0, 1, 0]);
    assert_eq!(g.declarations.len(), 3);
    assert_eq!(g.declarations[1].name, "GetProcessDpiAwareness");
    assert_eq!(g.declarations[1].params.len(), 2);
    assert_eq!(g.declarations[1].params[1].ty, "*mut PROCESS_DPI_AWARENESS");
    assert_eq!(g.declarations[1].output.as_deref(), Some("HRESULT"));
}

#[test]
fn untagged_function_refuses_the_batch() {
    let b = batch(
        "system",
        vec![
            function("IsProcessDPIAware", &["USER32"], &[], Some("BOOL")),
            function("GetThreadDpiHostingBehavior", &[], &[], Some("DPI_HOSTING_BEHAVIOR")),
        ],
    );
    match generate(b, &windows_library_tags()) {
        Ok(_) => panic!("a function without a tag was accepted"),
        Err(e) => {
            assert_eq!(e.kind, GenerationErrorKind::MissingLibrary);
            assert_eq!(e.index, 1);
            assert!(e.tag.is_none());
            assert_eq!(e.function, "GetThreadDpiHostingBehavior");
        }
    }
}

#[test]
fn doubly_tagged_function_refuses_the_batch() {
    let b = batch(
        "system",
        vec![function("SetProcessDpiAwareness", &["SHCORE", "USER32"], &[("value", "u32")], Some("HRESULT"))],
    );
    match generate(b, &windows_library_tags()) {
        Ok(_) => panic!("a function with two tags was accepted"),
        Err(e) => {
            assert_eq!(e.kind, GenerationErrorKind::MultipleLibraries);
            assert_eq!(e.index, 0);
        }
    }
}

#[test]
fn unknown_tag_refuses_the_batch() {
    let b = batch("system", vec![function("GetDpiForWindow", &["GDI32"], &[("hwnd", "HWND")], Some("UINT"))]);
    match generate(b, &windows_library_tags()) {
        Ok(_) => panic!("an unknown tag was accepted"),
        Err(e) => {
            assert_eq!(e.kind, GenerationErrorKind::UnknownLibrary);
            assert_eq!(e.tag.as_deref(), Some("GDI32"));
        }
    }
}

#[test]
fn variadic_function_needs_the_c_convention() {
    let mut f = function("wsprintfW", &["USER32"], &[("buf", "*mut u16"), ("fmt", "*const u16")], Some("i32"));
    f.signature.variadic = true;
    match generate(batch("system", vec![f]), &windows_library_tags()) {
        Ok(_) => panic!("a variadic system function was accepted"),
        Err(e) => assert_eq!(e.kind, GenerationErrorKind::UnsupportedSignature),
    }
    let mut g = function("wsprintfW", &["USER32"], &[("buf", "*mut u16"), ("fmt", "*const u16")], Some("i32"));
    g.signature.variadic = true;
    assert!(generate(batch("C", vec![g]), &windows_library_tags()).is_ok());
}

#[test]
fn unknown_calling_convention_is_refused() {
    let b = batch("pascal", vec![function("IsProcessDPIAware", &["USER32"], &[], Some("BOOL"))]);
    match generate(b, &windows_library_tags()) {
        Ok(_) => panic!("an unknown calling convention was accepted"),
        Err(e) => assert_eq!(e.kind, GenerationErrorKind::UnsupportedSignature),
    }
    assert!(is_known_abi(&"stdcall".to_string()));
    assert!(!is_known_abi(&"Rust".to_string()));
    assert!(is_signature_supported(&"cdecl".to_string(), true));
    assert!(!is_signature_supported(&"stdcall".to_string(), true));
}

#[test]
fn duplicate_function_is_refused() {
    let b = batch(
        "system",
        vec![
            function("IsProcessDPIAware", &["USER32"], &[], Some("BOOL")),
            function("IsProcessDPIAware", &["USER32"], &[], Some("BOOL")),
        ],
    );
    match generate(b, &windows_library_tags()) {
        Ok(_) => panic!("a duplicate function was accepted"),
        Err(e) => {
            assert_eq!(e.kind, GenerationErrorKind::DuplicateFunction);
            assert_eq!(e.index, 1);
        }
    }
}

#[test]
fn first_offending_function_is_reported() {
    let b = batch(
        "system",
        vec![
            function("A", &["USER32"], &[], None),
            function("B", &["NOPE"], &[], None),
            function("C", &[], &[], None),
        ],
    );
    match generate(b, &windows_library_tags()) {
        Ok(_) => panic!("an invalid batch was accepted"),
        Err(e) => {
            assert_eq!(e.kind, GenerationErrorKind::UnknownLibrary);
            assert_eq!(e.index, 1);
            assert_eq!(e.function, "B");
        }
    }
}

#[test]
fn empty_batch_generates_nothing() {
    let g = match generate(batch("system", vec![]), &windows_library_tags()) {
        Ok(g) => g,
        Err(_) => panic!("an empty batch was refused"),
    };
    assert!(g.libraries.is_empty() && g.bindings.is_empty() && g.declarations.is_empty());
}

#[test]
fn first_table_entry_for_a_tag_wins() {
    let table = vec![
        LibraryTag { tag: "K".to_string(), library: "first.dll".to_string() },
        LibraryTag { tag: "K".to_string(), library: "second.dll".to_string() },
    ];
    let g = match generate(batch("C", vec![function("f", &["K"], &[], None)]), &table) {
        Ok(g) => g,
        Err(_) => panic!("a valid batch was refused"),
    };
    assert_eq!(g.libraries, vec!["first.dll".to_string()]);
}

#[test]
fn windows_table_names_user32_and_shcore() {
    let t = windows_library_tags();
    assert_eq!(t.len(), 2);
    assert_eq!((t[0].tag.as_str(), t[0].library.as_str()), ("USER32", "user32.dll"));
    assert_eq!((t[1].tag.as_str(), t[1].library.as_str()), ("SHCORE", "shcore.dll"));
}
