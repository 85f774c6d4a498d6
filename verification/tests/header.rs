use native_versioning::{export_directive, versioned_header, ENV_NAME};

#[test]
fn header_defines_the_pasting_macro() {
    assert_eq!(
        versioned_header("VERSIONED", "v1_2_3"),
        "#define VERSIONED(sym) sym ## _v1_2_3\n"
    );
    assert_eq!(
        versioned_header("MY_LIB_SYM", "v0_4_11_beta_0a1b2c3d"),
        "#define MY_LIB_SYM(sym) sym ## _v0_4_11_beta_0a1b2c3d\n"
    );
}

#[test]
fn header_is_one_line() {
    let header = versioned_header("V", "v1_0_0");
    assert_eq!(header.lines().count(), 1);
    assert!(header.ends_with('\n'));
}

#[test]
fn header_is_the_same_for_the_same_arguments() {
    let first = versioned_header("VERSIONED", "v1_2_3_01234567");
    let second = versioned_header("VERSIONED", "v1_2_3_01234567");
    assert_eq!(first.as_bytes(), second.as_bytes());
    assert_eq!(
        export_directive("v1_2_3_01234567"),
        export_directive("v1_2_3_01234567")
    );
}

#[test]
fn directive_publishes_the_tag_under_the_fixed_key() {
    assert_eq!(ENV_NAME, "NATIVE_VERSIONING_VERSION");
    assert_eq!(
        export_directive("v1_2_3"),
        "cargo:rustc-env=NATIVE_VERSIONING_VERSION=v1_2_3"
    );
    assert_eq!(
        export_directive(""),
        "cargo:rustc-env=NATIVE_VERSIONING_VERSION="
    );
}
