use native_versioning::{
    mangle, mangle_declaration, parse, render, rewrite, versioned_extern, Declaration,
    DeclarationKind, Error, Item, MangledDeclaration, MangledItem, Visibility,
};

fn declaration(
    visibility: Visibility,
    metadata: &[&str],
    name: &str,
    kind: DeclarationKind,
) -> Declaration {
    Declaration {
        visibility,
        metadata: metadata.iter().map(|a| a.to_string()).collect(),
        kind,
        name: name.to_string(),
    }
}

fn function(parameters: &str, return_type: Option<&str>) -> DeclarationKind {
    DeclarationKind::Function {
        parameters: parameters.to_string(),
        return_type: return_type.map(|t| t.to_string()),
    }
}

fn data(declared_type: &str) -> DeclarationKind {
    DeclarationKind::Data {
        declared_type: declared_type.to_string(),
    }
}

#[test]
fn empty_batch_gives_empty_block() {
    for tag in ["", "v1_2_3", "v0_0_0_beta_01234567", "not an identifier"] {
        assert_eq!(versioned_extern("", tag), Ok(String::new()));
        assert_eq!(versioned_extern("  \n\t", tag), Ok(String::new()));
        assert_eq!(rewrite("", tag), Ok(vec![]));
        assert_eq!(mangle(&vec![], tag), vec![]);
    }
    assert_eq!(render(&vec![]), "");
}

#[test]
fn single_function_gets_its_link_name() {
    let out = rewrite("fn f(x: T) -> U;", "v1_2_3").unwrap();
    assert_eq!(
        out,
        vec![MangledItem::Declaration(MangledDeclaration {
            declaration: declaration(
                Visibility::Private,
                &[],
                "f",
                function("(x: T)", Some("U"))
            ),
            link_name: "f_v1_2_3".to_string(),
        })]
    );
    assert_eq!(
        versioned_extern("fn f(x: T) -> U;", "v1_2_3"),
        Ok("extern {\n    #[link_name = \"f_v1_2_3\"]\n    fn f(x: T) -> U;\n}\n".to_string())
    );
}

#[test]
fn link_name_is_name_underscore_tag() {
    let d = declaration(Visibility::Public, &["#[a]"], "some_func", function("()", None));
    let m = mangle_declaration(&d, "v1_23_2_beta");
    assert_eq!(m.link_name, "some_func_v1_23_2_beta");
    assert_eq!(m.declaration, d);
    let m = mangle_declaration(&d, "");
    assert_eq!(m.link_name, "some_func_");
}

#[test]
fn batch_of_four_declarations_is_rewritten_in_order() {
    let batch = "
        static demo: c::long;

        pub static demo2: usize;

        #[cfg(test)]
        #[doc = \"hi\"]
        fn f() -> usize;

        pub fn g();
    ";
    let expected = "extern {
    #[link_name = \"demo_v1_2_3\"]
    static demo: c::long;
    #[link_name = \"demo2_v1_2_3\"]
    pub static demo2: usize;
    #[link_name = \"f_v1_2_3\"]
    #[cfg(test)]
    #[doc = \"hi\"]
    fn f() -> usize;
    #[link_name = \"g_v1_2_3\"]
    pub fn g();
}
";
    assert_eq!(versioned_extern(batch, "v1_2_3"), Ok(expected.to_string()));
}

#[test]
fn mangling_keeps_order_attributes_and_visibility() {
    let batch = vec![
        Item::Declaration(declaration(
            Visibility::Public,
            &["#[z]", "#[a]", "#[m(1)]"],
            "third",
            function("(a: u8)", None),
        )),
        Item::Verbatim("type Opaque;".to_string()),
        Item::Declaration(declaration(Visibility::Private, &[], "first", data("u32"))),
        Item::Declaration(declaration(
            Visibility::Private,
            &["#[a]", "#[a]"],
            "second",
            function("()", Some("*const c_char")),
        )),
        Item::Declaration(declaration(Visibility::Public, &["#[only]"], "first", data("i8"))),
    ];
    let out = mangle(&batch, "v9_8_7");
    assert_eq!(out.len(), batch.len());
    for (before, after) in batch.iter().zip(out.iter()) {
        match (before, after) {
            (Item::Declaration(d), MangledItem::Declaration(m)) => {
                assert_eq!(&m.declaration, d);
                assert_eq!(m.declaration.visibility, d.visibility);
                assert_eq!(m.declaration.metadata, d.metadata);
                assert_eq!(m.link_name, format!("{}_v9_8_7", d.name));
            }
            (Item::Verbatim(t), MangledItem::Verbatim(u)) => assert_eq!(t, u),
            _ => panic!("an entry changed its kind"),
        }
    }
    assert_eq!(
        render(&out),
        "extern {
    #[link_name = \"third_v9_8_7\"]
    #[z]
    #[a]
    #[m(1)]
    pub fn third(a: u8);
    type Opaque;
    #[link_name = \"first_v9_8_7\"]
    static first: u32;
    #[link_name = \"second_v9_8_7\"]
    #[a]
    #[a]
    fn second() -> *const c_char;
    #[link_name = \"first_v9_8_7\"]
    #[only]
    pub static first: i8;
}
"
    );
}

#[test]
fn mangling_leaves_the_batch_as_it_was() {
    let batch = parse("#[a] pub fn f(); static s: u8; other;").unwrap();
    let copy = parse("#[a] pub fn f(); static s: u8; other;").unwrap();
    let _ = mangle(&batch, "v1_0_0");
    assert_eq!(batch, copy);
}

#[test]
fn other_entries_pass_through_unchanged() {
    assert_eq!(
        versioned_extern("type Opaque;\n pub(crate) fn g( );", "v1_2_3"),
        Ok("extern {\n    type Opaque;\n    pub(crate) fn g( );\n}\n".to_string())
    );
}

#[test]
fn malformed_head_gives_no_block() {
    assert_eq!(
        versioned_extern("fn ;", "v1_2_3"),
        Err(Error::MalformedDeclarationBatch)
    );
    assert_eq!(
        versioned_extern("fn ok(); pub static ok2: u8; fn (x: u8);", "v1_2_3"),
        Err(Error::MalformedDeclarationBatch)
    );
    assert_eq!(
        rewrite("static ;", "v1_2_3"),
        Err(Error::MalformedDeclarationBatch)
    );
}

#[test]
fn rewriting_twice_gives_the_same_text() {
    let batch = "#[cfg(unix)] pub fn open(path: *const c_char, flags: c_int) -> c_int;
                 static errno: c_int; type FILE; fn close(fd: c_int) -> c_int;";
    let first = versioned_extern(batch, "v1_2_3_0a1b2c3d").unwrap();
    let second = versioned_extern(batch, "v1_2_3_0a1b2c3d").unwrap();
    assert_eq!(first.as_bytes(), second.as_bytes());
    assert_eq!(rewrite(batch, "v1"), rewrite(batch, "v1"));
}

#[test]
fn tag_changes_link_names_only() {
    let a = versioned_extern("pub fn f(x: u8) -> u8;", "v1_0_0").unwrap();
    let b = versioned_extern("pub fn f(x: u8) -> u8;", "v2_0_0").unwrap();
    assert_eq!(a.replace("f_v1_0_0", "f_v2_0_0"), b);
}

#[test]
fn render_is_parse_of_text_in_order() {
    let entries = rewrite("fn b(); fn a();", "t").unwrap();
    let text = render(&entries);
    let b = text.find("fn b();").unwrap();
    let a = text.find("fn a();").unwrap();
    assert!(b < a);
}
