//! How the C compiler is told apart and run.
use crate::compiler::Compiler;
use crate::compiler_detect::Toolchain;
use crate::emit_decl::{lower_text, to_lower};
use crate::paths::{join_path, path_in};
use crate::text;
use crate::tree_types::{trim, trimmed};
use vstd::prelude::*;

verus! {

/// The family of a compiler, by what it prints of its version and what it says when it is asked.
pub open spec fn toolchain_saying(out: Seq<char>, err: Seq<char>) -> Toolchain {
    let said = lower_text(out);
    if text::occurs_in("clang"@, said) {
        Toolchain::Clang
    } else if text::occurs_in("gcc"@, said) || text::occurs_in("free software foundation"@, said) {
        Toolchain::Gcc
    } else if text::occurs_in("Microsoft"@, err) {
        Toolchain::Msvc
    } else {
        Toolchain::Other
    }
}

/// The family of a compiler, by what it prints of its version and what it says when it is asked.
pub fn toolchain_by_version(out: &str, err: &str) -> (r: Toolchain)
    ensures
        r == toolchain_saying(out@, err@),
{
    recognize(to_lower(out).as_str(), err)
}

/// The family of a compiler, by what it prints in lower case.
pub fn recognize(said: &str, err: &str) -> (r: Toolchain)
    ensures
        r == (if text::occurs_in("clang"@, said@) {
            Toolchain::Clang
        } else if text::occurs_in("gcc"@, said@) || text::occurs_in("free software foundation"@, said@) {
            Toolchain::Gcc
        } else if text::occurs_in("Microsoft"@, err@) {
            Toolchain::Msvc
        } else {
            Toolchain::Other
        }),
{
    if text::contains(said, "clang") {
        Toolchain::Clang
    } else if text::contains(said, "gcc") || text::contains(said, "free software foundation") {
        Toolchain::Gcc
    } else if text::contains(err, "Microsoft") {
        Toolchain::Msvc
    } else {
        Toolchain::Other
    }
}

/// The directories of an SDK that may hold headers, by what the system reports as its place.
pub open spec fn sdk_dirs(report: Seq<char>) -> Seq<Seq<char>> {
    let sdk = trimmed(report);
    if sdk.len() == 0 {
        Seq::empty()
    } else {
        seq![path_in(sdk, "usr/include"@), path_in(sdk, "usr/include/c++/v1"@)]
    }
}

/// The directories of an SDK that may hold headers.
pub fn sdk_include_dirs(report: &str) -> (r: Vec<String>)
    ensures
        text::texts(r@) == sdk_dirs(report@),
{
    let sdk = trim(report);
    let mut out: Vec<String> = Vec::new();
    if !sdk.as_str().is_empty() {
        out.push(join_path(sdk.as_str(), "usr/include"));
        out.push(join_path(sdk.as_str(), "usr/include/c++/v1"));
    }
    proof {
        assert(text::texts(out@) =~= sdk_dirs(report@));
    }
    out
}

/// Texts with another one in front of each and another one behind.
pub open spec fn wrapped(before: Seq<char>, xs: Seq<Seq<char>>, after: Seq<char>) -> Seq<Seq<char>> {
    xs.map_values(|x: Seq<char>| before + x + after)
}

/// The arguments that a compiler gets: the C files, the flags of the user, where headers are and
/// where the output goes, and the libraries.
pub open spec fn invocation(
    toolchain: Toolchain,
    c_files: Seq<Seq<char>>,
    flags: Seq<Seq<char>>,
    build_dir: Seq<char>,
    output: Seq<char>,
    lib_dirs: Seq<Seq<char>>,
    libs: Seq<Seq<char>>,
) -> Seq<Seq<char>> {
    c_files + flags + if toolchain is Msvc {
        seq!["/I"@ + build_dir, "/Fo"@ + build_dir + "/"@, "/Fe"@ + output] + wrapped(""@, libs, ".lib"@)
    } else {
        seq!["-I"@, build_dir, "-o"@, output] + wrapped("-L"@, lib_dirs, ""@) + wrapped("-l"@, libs, ""@)
    }
}

fn push_wrapped(out: &mut Vec<String>, before: &str, xs: &Vec<String>, after: &str)
    ensures
        text::texts(final(out)@) == text::texts(old(out)@) + wrapped(before@, text::texts(xs@), after@),
{
    let ghost o0 = text::texts(out@);
    let ghost all = wrapped(before@, text::texts(xs@), after@);
    let mut i: usize = 0;
    while i < xs.len()
        invariant
            i <= xs@.len(),
            o0 == text::texts(old(out)@),
            all == wrapped(before@, text::texts(xs@), after@),
            text::texts(out@) =~= o0 + all.take(i as int),
        decreases xs@.len() - i,
    {
        let x = before.to_owned().concat(xs[i].as_str()).concat(after);
        proof {
            assert(text::texts(xs@)[i as int] == xs@[i as int]@);
            assert(all.take(i + 1) =~= all.take(i as int).push(x@));
            assert(text::texts(out@.push(x)) =~= text::texts(out@).push(x@));
        }
        out.push(x);
        i = i + 1;
    }
    proof {
        assert(all.take(xs@.len() as int) =~= all);
    }
}

fn push_text(out: &mut Vec<String>, x: String)
    ensures
        text::texts(final(out)@) == text::texts(old(out)@).push(x@),
{
    proof {
        assert(text::texts(out@.push(x)) =~= text::texts(out@).push(x@));
    }
    out.push(x);
}

impl Compiler {
    /// The arguments that the C compiler gets for the given C files.
    pub fn c_compiler_args(&self, toolchain: Toolchain, c_files: &Vec<String>) -> (r: Vec<String>)
        ensures
            text::texts(r@) == invocation(
                toolchain,
                text::texts(c_files@),
                text::texts(self.user_cflags@),
                self.build_dir@,
                self.output@,
                text::texts(self.user_lib_paths@),
                text::texts(self.libs@),
            ),
    {
        let mut out: Vec<String> = Vec::new();
        proof {
            reveal_strlit("");
            lemma_unwrapped(text::texts(c_files@));
            lemma_unwrapped(text::texts(self.user_cflags@));
        }
        push_wrapped(&mut out, "", c_files, "");
        push_wrapped(&mut out, "", &self.user_cflags, "");
        let ghost front = text::texts(c_files@) + text::texts(self.user_cflags@);
        proof {
            assert(text::texts(out@) =~= front);
        }
        if toolchain.is_msvc() {
            push_text(&mut out, "/I".to_owned().concat(self.build_dir.as_str()));
            push_text(&mut out, "/Fo".to_owned().concat(self.build_dir.as_str()).concat("/"));
            push_text(&mut out, "/Fe".to_owned().concat(self.output.as_str()));
            proof {
                assert(text::texts(out@) =~= front + seq![
                    "/I"@ + self.build_dir@,
                    "/Fo"@ + self.build_dir@ + "/"@,
                    "/Fe"@ + self.output@,
                ]);
            }
            push_wrapped(&mut out, "", &self.libs, ".lib");
        } else {
            push_text(&mut out, "-I".to_owned());
            push_text(&mut out, self.build_dir.clone());
            push_text(&mut out, "-o".to_owned());
            push_text(&mut out, self.output.clone());
            proof {
                assert(text::texts(out@) =~= front + seq!["-I"@, self.build_dir@, "-o"@, self.output@]);
            }
            push_wrapped(&mut out, "-L", &self.user_lib_paths, "");
            push_wrapped(&mut out, "-l", &self.libs, "");
        }
        proof {
            assert(text::texts(out@) =~= invocation(
                toolchain,
                text::texts(c_files@),
                text::texts(self.user_cflags@),
                self.build_dir@,
                self.output@,
                text::texts(self.user_lib_paths@),
                text::texts(self.libs@),
            ));
        }
        out
    }
}

proof fn lemma_unwrapped(xs: Seq<Seq<char>>)
    requires
        ""@.len() == 0,
    ensures
        wrapped(""@, xs, ""@) == xs,
{
    assert forall|i: int| 0 <= i < xs.len() implies #[trigger] wrapped(""@, xs, ""@)[i] == xs[i] by {
        assert(""@ + xs[i] + ""@ =~= xs[i]);
    }
    assert(wrapped(""@, xs, ""@) =~= xs);
}

} // verus!
