use native_versioning::{parse, Declaration, DeclarationKind, Error, Item, Visibility};

fn function(
    visibility: Visibility,
    metadata: &[&str],
    name: &str,
    parameters: &str,
    return_type: Option<&str>,
) -> Item {
    Item::Declaration(Declaration {
        visibility,
        metadata: metadata.iter().map(|a| a.to_string()).collect(),
        kind: DeclarationKind::Function {
            parameters: parameters.to_string(),
            return_type: return_type.map(|t| t.to_string()),
        },
        name: name.to_string(),
    })
}

fn data(visibility: Visibility, metadata: &[&str], name: &str, declared_type: &str) -> Item {
    Item::Declaration(Declaration {
        visibility,
        metadata: metadata.iter().map(|a| a.to_string()).collect(),
        kind: DeclarationKind::Data {
            declared_type: declared_type.to_string(),
        },
        name: name.to_string(),
    })
}

#[test]
fn empty_batch_has_no_entries() {
    assert_eq!(parse(""), Ok(vec![]));
    assert_eq!(parse(" \n\t  \r\n"), Ok(vec![]));
}

#[test]
fn batch_of_four_declarations() {
    let batch = "
        static demo: c::long;

        pub static demo2: usize;

        #[cfg(test)]
        #[doc = \"hi\"]
        fn f() -> usize;

        pub fn g();
    ";
    assert_eq!(
        parse(batch),
        Ok(vec![
            data(Visibility::Private, &[], "demo", "c::long"),
            data(Visibility::Public, &[], "demo2", "usize"),
            function(
                Visibility::Private,
                &["#[cfg(test)]", "#[doc = \"hi\"]"],
                "f",
                "()",
                Some("usize")
            ),
            function(Visibility::Public, &[], "g", "()", None),
        ])
    );
}

#[test]
fn function_keeps_parameters_and_return_type_as_written() {
    assert_eq!(
        parse("fn f(x: T) -> U;"),
        Ok(vec![function(
            Visibility::Private,
            &[],
            "f",
            "(x: T)",
            Some("U")
        )])
    );
    assert_eq!(
        parse("fn bar(a: *mut i16,  b: *mut i32);"),
        Ok(vec![function(
            Visibility::Private,
            &[],
            "bar",
            "(a: *mut i16,  b: *mut i32)",
            None
        )])
    );
    assert_eq!(
        parse("fn  cb ( f : fn(i32) -> [u8; 4] , n: (u8, u8) )  ->  [u8; 4]  ;"),
        Ok(vec![function(
            Visibility::Private,
            &[],
            "cb",
            "( f : fn(i32) -> [u8; 4] , n: (u8, u8) )",
            Some("[u8; 4]")
        )])
    );
}

#[test]
fn declarations_need_no_whitespace_between_them() {
    assert_eq!(
        parse("fn a();fn b()->u8;static c:u8;"),
        Ok(vec![
            function(Visibility::Private, &[], "a", "()", None),
            function(Visibility::Private, &[], "b", "()", Some("u8")),
            data(Visibility::Private, &[], "c", "u8"),
        ])
    );
}

#[test]
fn attributes_are_kept_verbatim_and_in_order() {
    let batch = "#[b]  # [ a ( x , \"]\" ) ]\n#[cfg(all(unix, feature = \"x;y\"))] pub fn f();";
    assert_eq!(
        parse(batch),
        Ok(vec![function(
            Visibility::Public,
            &[
                "#[b]",
                "# [ a ( x , \"]\" ) ]",
                "#[cfg(all(unix, feature = \"x;y\"))]"
            ],
            "f",
            "()",
            None
        )])
    );
}

#[test]
fn quoted_text_hides_brackets_and_semicolons() {
    assert_eq!(
        parse("#[doc = \"a \\\" ] ; b\"] static x: u8;"),
        Ok(vec![data(
            Visibility::Private,
            &["#[doc = \"a \\\" ] ; b\"]"],
            "x",
            "u8"
        )])
    );
}

#[test]
fn other_entries_are_carried_along() {
    assert_eq!(
        parse("type Opaque;\nfn f();\n  pub(crate) fn g();\nmacro_call!(a; b);"),
        Ok(vec![
            Item::Verbatim("type Opaque;".to_string()),
            function(Visibility::Private, &[], "f", "()", None),
            Item::Verbatim("pub(crate) fn g();".to_string()),
            Item::Verbatim("macro_call!(a; b);".to_string()),
        ])
    );
}

#[test]
fn other_entry_keeps_its_attributes_in_its_text() {
    assert_eq!(
        parse("#[repr(C)] type T;"),
        Ok(vec![Item::Verbatim("#[repr(C)] type T;".to_string())])
    );
    assert_eq!(
        parse("pub type T;"),
        Ok(vec![Item::Verbatim("pub type T;".to_string())])
    );
    assert_eq!(
        parse("fnord x; statics y;"),
        Ok(vec![
            Item::Verbatim("fnord x;".to_string()),
            Item::Verbatim("statics y;".to_string())
        ])
    );
}

#[test]
fn other_entry_without_semicolon_runs_to_the_end() {
    assert_eq!(
        parse("fn f(); type T  \n"),
        Ok(vec![
            function(Visibility::Private, &[], "f", "()", None),
            Item::Verbatim("type T".to_string())
        ])
    );
    assert_eq!(
        parse("#![inner] ) x; fn f();"),
        Ok(vec![Item::Verbatim("#![inner] ) x; fn f();".to_string())])
    );
}

#[test]
fn keyword_without_name_is_malformed() {
    for batch in [
        "fn ;",
        "fn",
        "fn ();",
        "fn 1f();",
        "pub fn",
        "static ;",
        "static : u8;",
        "pub static",
        "#[a] fn (x: u8);",
    ] {
        assert_eq!(
            parse(batch),
            Err(Error::MalformedDeclarationBatch),
            "batch {:?}",
            batch
        );
    }
}

#[test]
fn malformed_entry_after_good_ones_fails_the_whole_batch() {
    assert_eq!(
        parse("fn a(); pub static b: u8; fn ;"),
        Err(Error::MalformedDeclarationBatch)
    );
    assert_eq!(
        parse("type T; fn a(); static ;  fn c();"),
        Err(Error::MalformedDeclarationBatch)
    );
}

#[test]
fn function_that_does_not_go_on_as_one_is_malformed() {
    for batch in [
        "fn f;",
        "fn f()",
        "fn f() -> ;",
        "fn f() ->;",
        "fn f() -> u8",
        "fn f() - > u8;",
        "fn f(",
        "fn f(x: u8;",
        "fn f() u8;",
        "fn f() -> u8);",
        "fn f(\"unterminated);",
        "fn f() {}",
    ] {
        assert_eq!(
            parse(batch),
            Err(Error::MalformedDeclarationBatch),
            "batch {:?}",
            batch
        );
    }
}

#[test]
fn data_that_does_not_go_on_as_data_is_malformed() {
    for batch in [
        "static x;",
        "static x: ;",
        "static x: u8",
        "static x u8;",
        "static mut x: u8;",
        "static x: [u8; 4;",
    ] {
        assert_eq!(
            parse(batch),
            Err(Error::MalformedDeclarationBatch),
            "batch {:?}",
            batch
        );
    }
}

#[test]
fn attribute_that_does_not_end_is_malformed() {
    assert_eq!(parse("#[cfg(test) fn f();"), Err(Error::MalformedDeclarationBatch));
    assert_eq!(parse("#[doc = \"x] fn f();"), Err(Error::MalformedDeclarationBatch));
    assert_eq!(parse("fn f(); #["), Err(Error::MalformedDeclarationBatch));
}

#[test]
fn data_type_may_hold_brackets_and_paths() {
    assert_eq!(
        parse("pub static table : [ ::c::long ; 4 ] ;"),
        Ok(vec![data(
            Visibility::Public,
            &[],
            "table",
            "[ ::c::long ; 4 ]"
        )])
    );
}

#[test]
fn unicode_whitespace_separates_tokens() {
    assert_eq!(
        parse("\u{a0}fn\u{2003}f\u{3000}(\u{a0})\u{2028};"),
        Ok(vec![function(
            Visibility::Private,
            &[],
            "f",
            "(\u{a0})",
            None
        )])
    );
}

#[test]
fn source_text_of_declarations_reads_back() {
    let batch = "#[cfg(unix)]\n# [link(name = \"m\")]\npub fn open(path: *const c_char) -> c_int;\nstatic errno: c_int;\npub static table: [u8; 4];\nfn close();\n";
    let entries = parse(batch).unwrap();
    assert_eq!(
        entries,
        vec![
            function(
                Visibility::Public,
                &["#[cfg(unix)]", "# [link(name = \"m\")]"],
                "open",
                "(path: *const c_char)",
                Some("c_int")
            ),
            data(Visibility::Private, &[], "errno", "c_int"),
            data(Visibility::Public, &[], "table", "[u8; 4]"),
            function(Visibility::Private, &[], "close", "()", None),
        ]
    );
    let loose = " #[cfg(unix)] # [link(name = \"m\")] pub  fn open (path: *const c_char)->c_int ;
        static errno :c_int; pub static table:[u8; 4] ;fn close ( ) ;";
    let again = parse(loose).unwrap();
    assert_eq!(again.len(), 4);
    assert_eq!(again[0], entries[0]);
    assert_eq!(again[1], entries[1]);
    assert_eq!(again[2], entries[2]);
}
