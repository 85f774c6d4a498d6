//! Forcing a header into every source file of a `cc` build.
//!
//! Which compiler a build uses is for the caller to find out. The library
//! decides from the compiler's family which option includes a header, and
//! adds it to the build.

use vstd::prelude::*;

verus! {

/// `cc::Build`, the builder of a native compilation. It is carried through
/// as it is: of what it holds only its compiler flags have a name here.
#[verifier::external_type_specification]
#[verifier::external_body]
pub struct ExBuild(cc::Build);

/// The compiler flags of `build`, each as its text, in the order in which
/// they were added: the list to which `cc::Build::flag` adds.
pub uninterp spec fn build_flags(build: cc::Build) -> Seq<Seq<char>>;

/// What is known of the family of a compiler.
#[derive(Debug, Clone, Copy, PartialEq, Eq)]
pub struct Compiler {
    /// The compiler takes the options of GCC.
    pub like_gnu: bool,
    /// The compiler takes the options of Clang.
    pub like_clang: bool,
    /// The compiler takes the options of MSVC.
    pub like_msvc: bool,
}

/// The option by which a compiler of this family includes a header ahead of
/// each source file: `-include` for GCC and Clang, `/FI` for MSVC, none for
/// a compiler of no known family.
pub open spec fn include_flag_spec(compiler: Compiler) -> Option<Seq<char>> {
    if compiler.like_gnu || compiler.like_clang {
        Some("-include"@)
    } else if compiler.like_msvc {
        Some("/FI"@)
    } else {
        None
    }
}

/// The option by which `compiler` includes a header ahead of each source
/// file; `None` where the family of `compiler` is unknown.
pub fn include_flag(compiler: &Compiler) -> (r: Option<&'static str>)
    ensures
        r is Some <==> include_flag_spec(*compiler) is Some,
        r matches Some(f) ==> Some(f@) == include_flag_spec(*compiler),
{
    if compiler.like_gnu || compiler.like_clang {
        Some("-include")
    } else if compiler.like_msvc {
        Some("/FI")
    } else {
        None
    }
}

/// Calls `cc::Build::flag`, which adds `flag` after the flags that `build`
/// has already.
#[verifier::external_body]
fn add_flag(build: &mut cc::Build, flag: &str)
    ensures
        build_flags(*final(build)) == build_flags(*old(build)).push(flag@),
{
    build.flag(flag);
}

/// Builds into which a header can be forced.
pub trait HeaderInclude: Sized {
    /// The compiler flags of the build, in order.
    spec fn flags(&self) -> Seq<Seq<char>>;

    /// Adds a header file to this compilation, which `compiler` carries out.
    ///
    /// This has the effect of an `#include` directive with the file's name
    /// in double quotation marks on the first line of every source file that
    /// the build compiles. Headers added by several calls are included in the
    /// order of the calls.
    ///
    /// The family of `compiler` has to be known: [`include_flag`] tells
    /// whether it is.
    fn include_header(&mut self, compiler: &Compiler, header: &str) -> (r: &mut Self)
        requires
            include_flag_spec(*compiler) is Some,
        ensures
            r.flags() == old(self).flags().push(include_flag_spec(*compiler).unwrap()).push(
                header@,
            ),
            *final(self) == *final(r),
    ;
}

impl HeaderInclude for cc::Build {
    open spec fn flags(&self) -> Seq<Seq<char>> {
        build_flags(*self)
    }

    fn include_header(&mut self, compiler: &Compiler, header: &str) -> (r: &mut Self) {
        match include_flag(compiler) {
            Some(flag) => {
                add_flag(self, flag);
                add_flag(self, header);
            },
            None => {},
        }
        self
    }
}

} // verus!
