//! The generated header and the published tag.
//!
//! The header holds one macro, which pastes the tag onto a symbol. Native
//! sources read it before they name a versioned symbol. The tag is also
//! published under a fixed key, so that the later stages of a build use the
//! tag that was computed once and do not compute their own.

use vstd::prelude::*;
use vstd::string::StringExecFns;

verus! {

/// The key under which the tag is published.
pub const ENV_NAME: &'static str = "NATIVE_VERSIONING_VERSION";

/// The text of the header: the one line
/// `#define <macro_name>(sym) sym ## _<version>`.
pub open spec fn header_text(macro_name: Seq<char>, version: Seq<char>) -> Seq<char> {
    "#define "@ + macro_name + "(sym) sym ## _"@ + version + "\n"@
}

/// The directive that publishes the tag: `cargo:rustc-env=<key>=<version>`,
/// with [`ENV_NAME`] as the key.
pub open spec fn export_text(version: Seq<char>) -> Seq<char> {
    "cargo:rustc-env="@ + ENV_NAME@ + "="@ + version
}

/// The contents of the versioned header: the definition of the macro
/// `macro_name`, which appends `_<version>` to the symbol it is given.
///
/// The text is a function of the two arguments alone, so the same arguments
/// always give the same header.
pub fn versioned_header(macro_name: &str, version: &str) -> (r: String)
    ensures
        r@ == header_text(macro_name@, version@),
{
    let mut r = String::new();
    r.append("#define ");
    r.append(macro_name);
    r.append("(sym) sym ## _");
    r.append(version);
    r.append("\n");
    assert(r@ =~= header_text(macro_name@, version@));
    r
}

/// The line that hands `version` on to the compilation of the crate, for the
/// build script to print.
pub fn export_directive(version: &str) -> (r: String)
    ensures
        r@ == export_text(version@),
{
    let mut r = String::new();
    r.append("cargo:rustc-env=");
    r.append(ENV_NAME);
    r.append("=");
    r.append(version);
    assert(r@ =~= export_text(version@));
    r
}

} // verus!
