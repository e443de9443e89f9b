//! The C compiler of the system: which one is taken, and what it says of itself.
use crate::paths::{get_path_stem, path_stem};
use crate::text;
use crate::tree_types::{trim, trimmed};
use vstd::prelude::*;

verus! {

/// A family of C compilers.
#[derive(Clone, Copy, Debug, PartialEq, Eq, Structural)]
pub enum Toolchain {
    Gcc,
    Clang,
    Msvc,
    Other,
}

impl Toolchain {
    /// Whether this is the compiler of Microsoft.
    pub fn is_msvc(&self) -> (r: bool)
        ensures
            r == (*self is Msvc),
    {
        match self {
            Toolchain::Msvc => true,
            _ => false,
        }
    }
}

/// What is known of a C compiler.
#[derive(Debug)]
pub struct CompilerInfo {
    pub toolchain: Toolchain,
    pub compiler_path: String,
    pub system_include_dirs: Vec<String>,
    pub env: Vec<(String, String)>,
    pub target_triple: Option<String>,
    pub is_cross_compiling: bool,
}

/// The contents of what is known of a C compiler.
pub struct CompilerInfoV {
    pub toolchain: Toolchain,
    pub compiler_path: Seq<char>,
    pub system_include_dirs: Seq<Seq<char>>,
    pub env: Seq<(Seq<char>, Seq<char>)>,
    pub target_triple: Option<Seq<char>>,
    pub is_cross_compiling: bool,
}

/// The contents of environment variables.
pub open spec fn env_v(xs: Seq<(String, String)>) -> Seq<(Seq<char>, Seq<char>)> {
    xs.map_values(|x: (String, String)| (x.0@, x.1@))
}

impl View for CompilerInfo {
    type V = CompilerInfoV;

    open spec fn view(&self) -> CompilerInfoV {
        CompilerInfoV {
            toolchain: self.toolchain,
            compiler_path: self.compiler_path@,
            system_include_dirs: text::texts(self.system_include_dirs@),
            env: env_v(self.env@),
            target_triple: crate::escape::opt_text(self.target_triple),
            is_cross_compiling: self.is_cross_compiling,
        }
    }
}

/// The directories that the lines of a compiler's report list from position `i` on, appended to
/// `acc`: those between the start and the end of the search list, without framework directories.
pub open spec fn listed_dirs(lines: Seq<Seq<char>>, i: int, inside: bool, acc: Seq<Seq<char>>) -> Seq<Seq<char>>
    decreases lines.len() - i,
{
    if i < 0 || i >= lines.len() {
        acc
    } else {
        let l = trimmed(lines[i]);
        if text::occurs_in("#include"@, l) && text::occurs_in("search starts here"@, l) {
            listed_dirs(lines, i + 1, true, acc)
        } else if l == "End of search list."@ {
            listed_dirs(lines, i + 1, false, acc)
        } else if inside && l.len() > 0 && !text::occurs_in("(framework directory)"@, l) {
            listed_dirs(lines, i + 1, inside, acc.push(l))
        } else {
            listed_dirs(lines, i + 1, inside, acc)
        }
    }
}

/// The directories that a compiler's report lists.
pub open spec fn include_dirs_of(report: Seq<char>) -> Seq<Seq<char>> {
    listed_dirs(text::split_on(report, '\n'), 0, false, Seq::empty())
}

/// The directories that a compiler's report lists.
pub fn parse_include_paths(report: &str) -> (r: Vec<String>)
    ensures
        text::texts(r@) == include_dirs_of(report@),
{
    let lines = text::split(report, '\n');
    let ghost lv = text::texts(lines@);
    let mut out: Vec<String> = Vec::new();
    let mut inside = false;
    let mut i: usize = 0;
    proof {
        assert(text::texts(out@) =~= Seq::<Seq<char>>::empty());
    }
    while i < lines.len()
        invariant
            i <= lines@.len(),
            lv == text::texts(lines@),
            listed_dirs(lv, 0, false, Seq::empty()) == listed_dirs(lv, i as int, inside, text::texts(out@)),
        decreases lines@.len() - i,
    {
        assert(lv[i as int] == lines@[i as int]@);
        let l = trim(lines[i].as_str());
        if text::contains(l.as_str(), "#include") && text::contains(l.as_str(), "search starts here") {
            inside = true;
        } else if text::text_eq(l.as_str(), "End of search list.") {
            inside = false;
        } else if inside && !l.as_str().is_empty() && !text::contains(l.as_str(), "(framework directory)") {
            proof {
                assert(text::texts(out@.push(l)) =~= text::texts(out@).push(l@));
            }
            out.push(l);
        }
        i = i + 1;
    }
    out
}

/// The names under which a C compiler is looked for, in this order.
pub open spec fn candidate_names(windows: bool) -> Seq<Seq<char>> {
    if windows {
        seq!["cl.exe"@, "clang-cl.exe"@, "cc"@, "clang"@, "gcc"@]
    } else {
        seq!["cc"@, "clang"@, "gcc"@]
    }
}

/// The names under which a C compiler is looked for, in this order.
pub fn get_candidates(windows: bool) -> (r: Vec<String>)
    ensures
        text::texts(r@) == candidate_names(windows),
{
    let mut out: Vec<String> = Vec::new();
    if windows {
        out.push("cl.exe".to_owned());
        out.push("clang-cl.exe".to_owned());
    }
    out.push("cc".to_owned());
    out.push("clang".to_owned());
    out.push("gcc".to_owned());
    proof {
        assert(text::texts(out@) =~= candidate_names(windows));
    }
    out
}

/// The first of the found compilers from position `i` on.
pub open spec fn first_found(found: Seq<Option<Seq<char>>>, i: int) -> Option<Seq<char>>
    decreases found.len() - i,
{
    if i < 0 || i >= found.len() {
        None
    } else if found[i] is Some {
        found[i]
    } else {
        first_found(found, i + 1)
    }
}

/// The contents of a list of optional texts.
pub open spec fn opt_texts(xs: Seq<Option<String>>) -> Seq<Option<Seq<char>>> {
    xs.map_values(|x: Option<String>| crate::escape::opt_text(x))
}

/// Which compiler is taken: the one that the user names, else the one that the environment names
/// where it was found, else the first candidate that was found.
pub open spec fn chosen_compiler(
    named: Option<Seq<char>>,
    env_found: Option<Seq<char>>,
    found: Seq<Option<Seq<char>>>,
) -> Option<Seq<char>> {
    if named is Some {
        named
    } else if env_found is Some {
        env_found
    } else {
        first_found(found, 0)
    }
}

/// Which compiler is taken.
pub fn detect_compiler(named: Option<String>, env_found: Option<String>, found: &Vec<Option<String>>) -> (r: Option<String>)
    ensures
        crate::escape::opt_text(r) == chosen_compiler(
            crate::escape::opt_text(named),
            crate::escape::opt_text(env_found),
            opt_texts(found@),
        ),
{
    if named.is_some() {
        return named;
    }
    if env_found.is_some() {
        return env_found;
    }
    let mut i: usize = 0;
    while i < found.len()
        invariant
            i <= found@.len(),
            crate::escape::opt_text(named) is None,
            crate::escape::opt_text(env_found) is None,
            first_found(opt_texts(found@), 0) == first_found(opt_texts(found@), i as int),
        decreases found@.len() - i,
    {
        assert(opt_texts(found@)[i as int] == crate::escape::opt_text(found@[i as int]));
        match &found[i] {
            Some(p) => return Some(p.clone()),
            None => {},
        }
        i = i + 1;
    }
    None
}

/// The prefixes of cross compilers, without the hyphen at the end.
pub open spec fn cross_prefixes() -> Seq<Seq<char>> {
    seq![
        "aarch64-linux-gnu"@,
        "arm-linux-gnueabihf"@,
        "x86_64-w64-mingw32"@,
        "i686-w64-mingw32"@,
        "riscv64-linux-gnu"@,
        "powerpc64le-linux-gnu"@,
        "s390x-linux-gnu"@,
    ]
}

/// The first prefix from position `i` on that a name begins with, followed by a hyphen.
pub open spec fn prefix_from(ps: Seq<Seq<char>>, name: Seq<char>, i: int) -> Option<Seq<char>>
    decreases ps.len() - i,
{
    if i < 0 || i >= ps.len() {
        None
    } else if (ps[i] + "-"@).is_prefix_of(name) {
        Some(ps[i])
    } else {
        prefix_from(ps, name, i + 1)
    }
}

/// What a compiler compiles for: its name says it, else Clang reports it.
pub open spec fn triple_of(toolchain: Toolchain, compiler: Seq<char>, report: Option<Seq<char>>) -> Option<Seq<char>> {
    match prefix_from(cross_prefixes(), path_stem(compiler), 0) {
        Some(p) => Some(p),
        None => if toolchain is Clang && report is Some {
            let t = trimmed(report->0);
            if t.len() > 0 && t != "unknown-unknown-unknown"@ {
                Some(t)
            } else {
                None
            }
        } else {
            None
        },
    }
}

fn prefix_list() -> (r: Vec<String>)
    ensures
        text::texts(r@) == cross_prefixes(),
{
    let mut out: Vec<String> = Vec::new();
    out.push("aarch64-linux-gnu".to_owned());
    out.push("arm-linux-gnueabihf".to_owned());
    out.push("x86_64-w64-mingw32".to_owned());
    out.push("i686-w64-mingw32".to_owned());
    out.push("riscv64-linux-gnu".to_owned());
    out.push("powerpc64le-linux-gnu".to_owned());
    out.push("s390x-linux-gnu".to_owned());
    proof {
        assert(text::texts(out@) =~= cross_prefixes());
    }
    out
}

/// What a compiler compiles for.
pub fn detect_target_triple(toolchain: Toolchain, compiler: &str, report: &Option<String>) -> (r: Option<String>)
    ensures
        crate::escape::opt_text(r) == triple_of(toolchain, compiler@, crate::escape::opt_text(*report)),
{
    let name = get_path_stem(compiler);
    let ps = prefix_list();
    let ghost pv = text::texts(ps@);
    let mut i: usize = 0;
    while i < ps.len()
        invariant
            i <= ps@.len(),
            pv == text::texts(ps@),
            pv == cross_prefixes(),
            name@ == path_stem(compiler@),
            prefix_from(pv, name@, 0) == prefix_from(pv, name@, i as int),
        decreases ps@.len() - i,
    {
        assert(pv[i as int] == ps@[i as int]@);
        let full = ps[i].clone().concat("-");
        if text::starts_with(name.as_str(), full.as_str()) {
            return Some(ps[i].clone());
        }
        i = i + 1;
    }
    match toolchain {
        Toolchain::Clang => match report {
            Some(s) => {
                let t = trim(s.as_str());
                if !t.as_str().is_empty() && !text::text_eq(t.as_str(), "unknown-unknown-unknown") {
                    Some(t)
                } else {
                    None
                }
            },
            None => None,
        },
        _ => None,
    }
}

/// Whether a compiler compiles for another machine or system than this one.
pub open spec fn crosses(triple: Option<Seq<char>>, arch: Seq<char>, windows: bool) -> bool {
    match triple {
        Some(t) => !text::occurs_in(arch, t) || windows != text::occurs_in("windows"@, t),
        None => false,
    }
}

/// Whether a compiler compiles for another machine or system than this one.
pub fn is_cross_compiling(triple: &Option<String>, arch: &str, windows: bool) -> (r: bool)
    ensures
        r == crosses(crate::escape::opt_text(*triple), arch@, windows),
{
    match triple {
        Some(t) => !text::contains(t.as_str(), arch) || windows != text::contains(t.as_str(), "windows"),
        None => false,
    }
}

/// What is known of a compiler from its reports.
pub fn describe_compiler(
    toolchain: Toolchain,
    path: String,
    include_report: &Option<String>,
    env: Vec<(String, String)>,
    triple_report: &Option<String>,
    arch: &str,
    windows: bool,
) -> (r: CompilerInfo)
    ensures
        r@ == (CompilerInfoV {
            toolchain,
            compiler_path: path@,
            system_include_dirs: match crate::escape::opt_text(*include_report) {
                Some(s) => include_dirs_of(s),
                None => Seq::empty(),
            },
            env: env_v(env@),
            target_triple: triple_of(toolchain, path@, crate::escape::opt_text(*triple_report)),
            is_cross_compiling: crosses(
                triple_of(toolchain, path@, crate::escape::opt_text(*triple_report)),
                arch@,
                windows,
            ),
        }),
{
    let dirs = match include_report {
        Some(s) => parse_include_paths(s.as_str()),
        None => {
            let none: Vec<String> = Vec::new();
            proof {
                assert(text::texts(none@) =~= Seq::<Seq<char>>::empty());
            }
            none
        },
    };
    let triple = detect_target_triple(toolchain, path.as_str(), triple_report);
    let cross = is_cross_compiling(&triple, arch, windows);
    CompilerInfo {
        toolchain,
        compiler_path: path,
        system_include_dirs: dirs,
        env,
        target_triple: triple,
        is_cross_compiling: cross,
    }
}

/// The compiler that was detected first. Later detections do not change it.
pub struct CompilerCell {
    pub info: Option<Option<CompilerInfo>>,
}

/// The contents of an optional description.
pub open spec fn opt_info_v(x: Option<CompilerInfo>) -> Option<CompilerInfoV> {
    match x {
        Some(i) => Some(i@),
        None => None,
    }
}

/// What is known of a compiler that was detected.
pub open spec fn cell_info(c: CompilerCell) -> Option<CompilerInfoV> {
    match c.info {
        Some(x) => opt_info_v(x),
        None => None,
    }
}

impl CompilerCell {
    /// Nothing was detected yet.
    pub fn new() -> (r: Self)
        ensures
            r.info is None,
    {
        CompilerCell { info: None }
    }

    /// Records the first detection.
    pub fn init_compiler_info(&mut self, detected: Option<CompilerInfo>)
        ensures
            old(self).info is Some ==> final(self).info == old(self).info,
            old(self).info is None ==> final(self).info == Some(detected),
    {
        if self.info.is_none() {
            self.info = Some(detected);
        }
    }

    /// The compiler, where one is known.
    pub fn get_compiler_info(&self) -> (r: Option<&CompilerInfo>)
        ensures
            match r {
                Some(i) => cell_info(*self) == Some(i@),
                None => cell_info(*self) is None,
            },
    {
        match &self.info {
            Some(x) => x.as_ref(),
            None => None,
        }
    }

    /// The compiler; a new detection counts only where none was recorded.
    pub fn get_or_detect_compiler_info(&mut self, detected: Option<CompilerInfo>) -> (r: Option<&CompilerInfo>)
        ensures
            old(self).info is Some ==> final(self).info == old(self).info,
            old(self).info is None ==> final(self).info == Some(detected),
            match r {
                Some(i) => cell_info(*final(self)) == Some(i@),
                None => cell_info(*final(self)) is None,
            },
    {
        self.init_compiler_info(detected);
        self.get_compiler_info()
    }

    /// The directories in which the compiler looks for headers, and those that the system adds. While
    /// no compiler is known there are none, except on Windows, where those of the system remain.
    pub fn get_system_include_dirs(&self, windows: bool, added: &Vec<String>) -> (r: Vec<String>)
        ensures
            text::texts(r@) == (match cell_info(*self) {
                Some(i) => i.system_include_dirs + text::texts(added@),
                None => if windows {
                    text::texts(added@)
                } else {
                    Seq::empty()
                },
            }),
    {
        if !windows && self.get_compiler_info().is_none() {
            let none: Vec<String> = Vec::new();
            proof {
                assert(text::texts(none@) =~= Seq::<Seq<char>>::empty());
            }
            return none;
        }
        let mut out = self.own_include_dirs();
        let ghost own = text::texts(out@);
        let mut more = text::copy_texts(added, added.len());
        proof {
            assert(text::texts(added@).take(added@.len() as int) =~= text::texts(added@));
        }
        let ghost m = more@;
        let ghost o = out@;
        out.append(&mut more);
        proof {
            assert(text::texts(o + m) =~= own + text::texts(m));
            assert(text::texts(m) =~= text::texts(added@));
            assert(Seq::<Seq<char>>::empty() + text::texts(added@) =~= text::texts(added@));
        }
        out
    }

    fn own_include_dirs(&self) -> (r: Vec<String>)
        ensures
            text::texts(r@) == (match cell_info(*self) {
                Some(i) => i.system_include_dirs,
                None => Seq::empty(),
            }),
    {
        match self.get_compiler_info() {
            Some(i) => {
                proof {
                    assert(text::texts(i.system_include_dirs@).take(i.system_include_dirs@.len() as int)
                        =~= text::texts(i.system_include_dirs@));
                }
                text::copy_texts(&i.system_include_dirs, i.system_include_dirs.len())
            },
            None => {
                let none: Vec<String> = Vec::new();
                proof {
                    assert(text::texts(none@) =~= Seq::<Seq<char>>::empty());
                }
                none
            },
        }
    }

    /// The environment that the compiler of Microsoft needs: the one that was captured when it was
    /// detected, or else the one that is captured on demand. Any other compiler needs none.
    pub fn get_compiler_environment(&self, toolchain: Toolchain, on_demand: Vec<(String, String)>) -> (r: Vec<
        (String, String),
    >)
        ensures
            env_v(r@) == (if !(toolchain is Msvc) {
                Seq::empty()
            } else {
                match cell_info(*self) {
                    Some(i) => if i.toolchain is Msvc {
                        i.env
                    } else {
                        env_v(on_demand@)
                    },
                    None => env_v(on_demand@),
                }
            }),
    {
        let mut out: Vec<(String, String)> = Vec::new();
        proof {
            assert(env_v(out@) =~= Seq::<(Seq<char>, Seq<char>)>::empty());
        }
        if !toolchain.is_msvc() {
            return out;
        }
        match self.get_compiler_info() {
            Some(i) => {
                if i.toolchain.is_msvc() {
                    let ghost all = env_v(i.env@);
                    let mut k: usize = 0;
                    while k < i.env.len()
                        invariant
                            k <= i.env@.len(),
                            all == env_v(i.env@),
                            env_v(out@) =~= all.take(k as int),
                        decreases i.env@.len() - k,
                    {
                        let pair = (i.env[k].0.clone(), i.env[k].1.clone());
                        proof {
                            assert(all.take(k + 1) =~= all.take(k as int).push((pair.0@, pair.1@)));
                            assert(env_v(out@.push(pair)) =~= env_v(out@).push((pair.0@, pair.1@)));
                        }
                        out.push(pair);
                        k = k + 1;
                    }
                    proof {
                        assert(all.take(all.len() as int) =~= all);
                    }
                    return out;
                }
            },
            None => {},
        }
        on_demand
    }
}

} // verus!
