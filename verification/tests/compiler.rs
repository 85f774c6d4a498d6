use native_versioning::{include_flag, Compiler, HeaderInclude};

fn family(like_gnu: bool, like_clang: bool, like_msvc: bool) -> Compiler {
    Compiler {
        like_gnu,
        like_clang,
        like_msvc,
    }
}

#[test]
fn include_flag_by_family() {
    assert_eq!(include_flag(&family(true, false, false)), Some("-include"));
    assert_eq!(include_flag(&family(false, true, false)), Some("-include"));
    assert_eq!(include_flag(&family(false, false, true)), Some("/FI"));
    assert_eq!(include_flag(&family(true, false, true)), Some("-include"));
    assert_eq!(include_flag(&family(false, true, true)), Some("-include"));
    assert_eq!(include_flag(&family(true, true, true)), Some("-include"));
}

#[test]
fn include_flag_of_unknown_family_is_none() {
    assert_eq!(include_flag(&family(false, false, false)), None);
}

#[test]
fn gnu_build_gets_include_and_header() {
    let mut build = cc::Build::new();
    build.flag("-Wall");
    build.include_header(&family(true, false, false), "ext/versioned.h");
    let shown = format!("{:?}", build);
    assert!(shown.contains(
        "flags: [Always(\"-Wall\"), Always(\"-include\"), Always(\"ext/versioned.h\")]"
    ));
}

#[test]
fn clang_build_gets_include_and_header() {
    let mut build = cc::Build::new();
    build.include_header(&family(false, true, false), "versioned.h");
    let shown = format!("{:?}", build);
    assert!(shown.contains("flags: [Always(\"-include\"), Always(\"versioned.h\")]"));
}

#[test]
fn msvc_build_gets_fi_and_header() {
    let mut build = cc::Build::new();
    build.include_header(&family(false, false, true), "versioned.h");
    let shown = format!("{:?}", build);
    assert!(shown.contains("flags: [Always(\"/FI\"), Always(\"versioned.h\")]"));
}

#[test]
fn headers_are_included_in_the_order_of_the_calls() {
    let mut build = cc::Build::new();
    let clang = family(false, true, false);
    build.include_header(&clang, "a.h").include_header(&clang, "b.h");
    let shown = format!("{:?}", build);
    assert!(shown.contains(
        "flags: [Always(\"-include\"), Always(\"a.h\"), Always(\"-include\"), Always(\"b.h\")]"
    ));
}

#[test]
fn include_header_hands_the_build_back() {
    let mut build = cc::Build::new();
    build
        .include_header(&family(true, false, false), "versioned.h")
        .flag("-O2");
    let shown = format!("{:?}", build);
    assert!(shown.contains(
        "flags: [Always(\"-include\"), Always(\"versioned.h\"), Always(\"-O2\")]"
    ));
}

#[test]
fn include_header_changes_the_flags_only() {
    let mut build = cc::Build::new();
    build.define("A", "1").debug(true);
    let mut same = build.clone();
    build.include_header(&family(false, false, true), "v.h");
    same.flag("/FI").flag("v.h");
    assert_eq!(format!("{:?}", build), format!("{:?}", same));
}
