//! How C headers are preprocessed: where they are looked for, and for which system.
use crate::c_parse::{header_v, parse_c_header, parsed_header, FfiError, FfiErrorV};
use crate::ctypes::{CDeclarations, CDeclarationsV};
use crate::paths::{join_path, path_in};
use crate::text;
use vstd::prelude::*;

verus! {

/// The system that headers are preprocessed for.
#[derive(Clone, Copy, Debug, PartialEq, Eq, Structural)]
pub enum Target {
    Linux,
    Windows,
    MacOS,
}

impl Default for Target {
    fn default() -> (r: Self)
        ensures
            r == Target::Linux,
    {
        Target::Linux
    }
}

/// How headers are preprocessed.
#[derive(Debug)]
pub struct PreprocessConfig {
    pub system_include_dirs: Vec<String>,
    pub user_include_dirs: Vec<String>,
    pub predefined_macros: Vec<(String, String)>,
    pub use_builtin_headers: bool,
    pub target: Target,
}

/// The contents of how headers are preprocessed.
pub struct ConfigV {
    pub system_include_dirs: Seq<Seq<char>>,
    pub user_include_dirs: Seq<Seq<char>>,
    pub predefined_macros: Seq<(Seq<char>, Seq<char>)>,
    pub use_builtin_headers: bool,
    pub target: Target,
}

/// The contents of a list of macros.
pub open spec fn macros_v(xs: Seq<(String, String)>) -> Seq<(Seq<char>, Seq<char>)> {
    xs.map_values(|x: (String, String)| (x.0@, x.1@))
}

impl View for PreprocessConfig {
    type V = ConfigV;

    open spec fn view(&self) -> ConfigV {
        ConfigV {
            system_include_dirs: text::texts(self.system_include_dirs@),
            user_include_dirs: text::texts(self.user_include_dirs@),
            predefined_macros: macros_v(self.predefined_macros@),
            use_builtin_headers: self.use_builtin_headers,
            target: self.target,
        }
    }
}

/// The macros with one defined; a macro of the same name is replaced.
pub open spec fn with_macro(xs: Seq<(Seq<char>, Seq<char>)>, name: Seq<char>, value: Seq<char>, i: int) -> Seq<
    (Seq<char>, Seq<char>),
>
    decreases xs.len() - i,
{
    if i < 0 || i >= xs.len() {
        xs.push((name, value))
    } else if xs[i].0 == name {
        xs.update(i, (name, value))
    } else {
        with_macro(xs, name, value, i + 1)
    }
}

/// The system of the given name.
pub open spec fn target_named(os: Seq<char>) -> Target {
    if os == "windows"@ {
        Target::Windows
    } else if os == "macos"@ {
        Target::MacOS
    } else {
        Target::Linux
    }
}

/// The settings before anything is set.
pub open spec fn no_config() -> ConfigV {
    ConfigV {
        system_include_dirs: Seq::empty(),
        user_include_dirs: Seq::empty(),
        predefined_macros: Seq::empty(),
        use_builtin_headers: true,
        target: Target::Linux,
    }
}

impl Default for PreprocessConfig {
    fn default() -> (r: Self)
        ensures
            r@ == no_config(),
    {
        PreprocessConfig::new()
    }
}

fn push_text(xs: &mut Vec<String>, s: &str)
    ensures
        text::texts(final(xs)@) == text::texts(old(xs)@).push(s@),
{
    let ghost before = xs@;
    xs.push(s.to_owned());
    proof {
        assert(text::texts(xs@) =~= text::texts(before).push(s@));
    }
}

impl PreprocessConfig {
    /// The settings before anything is set.
    pub fn new() -> (r: Self)
        ensures
            r@ == no_config(),
    {
        let r = PreprocessConfig {
            system_include_dirs: Vec::new(),
            user_include_dirs: Vec::new(),
            predefined_macros: Vec::new(),
            use_builtin_headers: true,
            target: Target::Linux,
        };
        proof {
            assert(r@.system_include_dirs =~= Seq::<Seq<char>>::empty());
            assert(r@.user_include_dirs =~= Seq::<Seq<char>>::empty());
            assert(r@.predefined_macros =~= Seq::<(Seq<char>, Seq<char>)>::empty());
        }
        r
    }

    /// Adds a directory of system headers.
    pub fn add_system_include_dir(self, dir: &str) -> (r: Self)
        ensures
            r@ == (ConfigV { system_include_dirs: self@.system_include_dirs.push(dir@), ..self@ }),
    {
        let mut r = self;
        push_text(&mut r.system_include_dirs, dir);
        r
    }

    /// Adds a directory of the user's headers.
    pub fn add_user_include_dir(self, dir: &str) -> (r: Self)
        ensures
            r@ == (ConfigV { user_include_dirs: self@.user_include_dirs.push(dir@), ..self@ }),
    {
        let mut r = self;
        push_text(&mut r.user_include_dirs, dir);
        r
    }

    /// Defines a macro.
    pub fn define_macro(self, name: &str, value: &str) -> (r: Self)
        ensures
            r@ == (ConfigV { predefined_macros: with_macro(self@.predefined_macros, name@, value@, 0), ..self@ }),
    {
        let mut r = self;
        let ghost m0 = macros_v(r.predefined_macros@);
        let ghost v0 = r@;
        let mut i: usize = 0;
        while i < r.predefined_macros.len()
            invariant
                i <= r.predefined_macros@.len(),
                r@ == v0,
                v0 == self@,
                m0 == macros_v(r.predefined_macros@),
                with_macro(m0, name@, value@, 0) == with_macro(m0, name@, value@, i as int),
            decreases r.predefined_macros@.len() - i,
        {
            assert(m0[i as int] == (r.predefined_macros@[i as int].0@, r.predefined_macros@[i as int].1@));
            if text::text_eq(r.predefined_macros[i].0.as_str(), name) {
                let pair = (name.to_owned(), value.to_owned());
                r.predefined_macros.set(i, pair);
                proof {
                    assert(macros_v(r.predefined_macros@) =~= m0.update(i as int, (name@, value@)));
                }
                return r;
            }
            i = i + 1;
        }
        let pair = (name.to_owned(), value.to_owned());
        r.predefined_macros.push(pair);
        proof {
            assert(macros_v(r.predefined_macros@) =~= m0.push((name@, value@)));
        }
        r
    }

    /// Sets the system.
    pub fn with_target(self, target: Target) -> (r: Self)
        ensures
            r@ == (ConfigV { target, ..self@ }),
    {
        let mut r = self;
        r.target = target;
        r
    }

    /// Sets the system to the one of the given name.
    pub fn with_current_target(self, os: &str) -> (r: Self)
        ensures
            r@ == (ConfigV { target: target_named(os@), ..self@ }),
    {
        let target = if text::text_eq(os, "windows") {
            Target::Windows
        } else if text::text_eq(os, "macos") {
            Target::MacOS
        } else {
            Target::Linux
        };
        self.with_target(target)
    }

    /// Sets whether the headers that come with the compiler are used.
    pub fn with_builtin_headers(self, use_builtin: bool) -> (r: Self)
        ensures
            r@ == (ConfigV { use_builtin_headers: use_builtin, ..self@ }),
    {
        let mut r = self;
        r.use_builtin_headers = use_builtin;
        r
    }
}

/// Where a header may be.
#[derive(Clone, Debug, PartialEq, Eq)]
pub enum HeaderPlace {
    /// Among those that come with the compiler.
    Builtin,
    /// In a file.
    File(String),
}

/// The contents of where a header may be.
pub enum PlaceV {
    Builtin,
    File(Seq<char>),
}

impl View for HeaderPlace {
    type V = PlaceV;

    open spec fn view(&self) -> PlaceV {
        match self {
            HeaderPlace::Builtin => PlaceV::Builtin,
            HeaderPlace::File(p) => PlaceV::File(p@),
        }
    }
}

/// The contents of a list of places.
pub open spec fn places_v(xs: Seq<HeaderPlace>) -> Seq<PlaceV> {
    xs.map_values(|x: HeaderPlace| x@)
}

/// A header in the directories from position `i` on, appended to `acc`.
pub open spec fn places_in(dirs: Seq<Seq<char>>, path: Seq<char>, i: int, acc: Seq<PlaceV>) -> Seq<PlaceV>
    decreases dirs.len() - i,
{
    if i < 0 || i >= dirs.len() {
        acc
    } else {
        places_in(dirs, path, i + 1, acc.push(PlaceV::File(path_in(dirs[i], path))))
    }
}

/// Where a header that another one names is looked for, in this order: a system header among
/// those that come with the compiler, then in the system directories; a local one in the
/// directory of the file, then in the user's directories.
pub open spec fn header_places(c: ConfigV, header_dir: Seq<char>, path: Seq<char>, is_system: bool, is_builtin: bool) -> Seq<
    PlaceV,
> {
    if is_system {
        places_in(
            c.system_include_dirs,
            path,
            0,
            if c.use_builtin_headers && is_builtin {
                seq![PlaceV::Builtin]
            } else {
                Seq::empty()
            },
        )
    } else {
        places_in(seq![header_dir] + c.user_include_dirs, path, 0, Seq::empty())
    }
}

fn add_places(dirs: &Vec<String>, path: &str, acc: Vec<HeaderPlace>) -> (r: Vec<HeaderPlace>)
    ensures
        places_v(r@) == places_in(text::texts(dirs@), path@, 0, places_v(acc@)),
{
    let ghost a0 = places_v(acc@);
    let mut out = acc;
    let mut i: usize = 0;
    while i < dirs.len()
        invariant
            i <= dirs@.len(),
            a0 == places_v(acc@),
            places_in(text::texts(dirs@), path@, 0, a0) == places_in(
                text::texts(dirs@),
                path@,
                i as int,
                places_v(out@),
            ),
        decreases dirs@.len() - i,
    {
        assert(text::texts(dirs@)[i as int] == dirs@[i as int]@);
        let p = HeaderPlace::File(join_path(dirs[i].as_str(), path));
        proof {
            assert(places_v(out@.push(p)) =~= places_v(out@).push(p@));
        }
        out.push(p);
        i = i + 1;
    }
    out
}

impl PreprocessConfig {
    /// Where a header that another one names is looked for, in order.
    pub fn header_places(&self, header_dir: &str, path: &str, is_system: bool, is_builtin: bool) -> (r: Vec<HeaderPlace>)
        ensures
            places_v(r@) == header_places(self@, header_dir@, path@, is_system, is_builtin),
    {
        let mut out: Vec<HeaderPlace> = Vec::new();
        if is_system {
            if self.use_builtin_headers && is_builtin {
                out.push(HeaderPlace::Builtin);
                proof {
                    assert(places_v(out@) =~= seq![PlaceV::Builtin]);
                }
            } else {
                proof {
                    assert(places_v(out@) =~= Seq::<PlaceV>::empty());
                }
            }
            add_places(&self.system_include_dirs, path, out)
        } else {
            let mut dirs: Vec<String> = Vec::new();
            dirs.push(header_dir.to_owned());
            let ghost d0 = dirs@;
            let mut more = text::copy_texts(&self.user_include_dirs, self.user_include_dirs.len());
            let ghost m = more@;
            dirs.append(&mut more);
            proof {
                assert(text::texts(m) =~= text::texts(self.user_include_dirs@));
                assert(text::texts(dirs@) =~= seq![header_dir@] + text::texts(m));
                assert(places_v(out@) =~= Seq::<PlaceV>::empty());
            }
            add_places(&dirs, path, out)
        }
    }
}

/// A text without the slashes in front, from position `i` on.
pub open spec fn without_leading_slashes(s: Seq<char>, i: int) -> Seq<char>
    decreases s.len() - i,
{
    if 0 <= i < s.len() && s[i] == '/' {
        without_leading_slashes(s, i + 1)
    } else {
        s.skip(i)
    }
}

/// The files that a header of a module may be in, in the order in which they are looked for:
/// beside the module, in the working directory, in the usual system directories, and in those of
/// the compiler.
pub open spec fn header_candidates(source_dir: Seq<char>, header: Seq<char>, system_dirs: Seq<Seq<char>>) -> Seq<PlaceV> {
    let name = without_leading_slashes(header, 0);
    places_in(
        seq!["/usr/include"@, "/usr/local/include"@] + system_dirs,
        name,
        0,
        seq![PlaceV::File(path_in(source_dir, name)), PlaceV::File(name)],
    )
}

fn strip_slashes(s: &str) -> (r: String)
    ensures
        r@ == without_leading_slashes(s@, 0),
{
    let cs = text::chars_of(s);
    let mut i: usize = 0;
    while i < cs.len() && cs[i] == '/'
        invariant
            i <= cs@.len(),
            cs@ == s@,
            without_leading_slashes(s@, 0) == without_leading_slashes(s@, i as int),
        decreases cs@.len() - i,
    {
        i = i + 1;
    }
    proof {
        assert(cs@.subrange(i as int, cs@.len() as int) =~= s@.skip(i as int));
    }
    text::string_of(&cs, i, cs.len())
}

/// The files that a header of a module may be in, in the order in which they are looked for.
pub fn module_header_candidates(source_dir: &str, header: &str, system_dirs: &Vec<String>) -> (r: Vec<HeaderPlace>)
    ensures
        places_v(r@) == header_candidates(source_dir@, header@, text::texts(system_dirs@)),
{
    let name = strip_slashes(header);
    let mut dirs: Vec<String> = Vec::new();
    dirs.push("/usr/include".to_owned());
    dirs.push("/usr/local/include".to_owned());
    let ghost d0 = dirs@;
    let mut more = text::copy_texts(system_dirs, system_dirs.len());
    let ghost m = more@;
    dirs.append(&mut more);
    let mut out: Vec<HeaderPlace> = Vec::new();
    out.push(HeaderPlace::File(join_path(source_dir, name.as_str())));
    out.push(HeaderPlace::File(name.clone()));
    proof {
        assert(text::texts(m) =~= text::texts(system_dirs@));
        assert(text::texts(dirs@) =~= seq!["/usr/include"@, "/usr/local/include"@] + text::texts(m));
        assert(places_v(out@) =~= seq![
            PlaceV::File(path_in(source_dir@, name@)),
            PlaceV::File(name@),
        ]);
    }
    add_places(&dirs, name.as_str(), out)
}

/// The declarations of a header from what the preprocessor made of it.
pub fn extract_preprocessed(result: Result<String, String>) -> (r: Result<CDeclarations, FfiError>)
    ensures
        header_v(r) == (match result {
            Ok(s) => parsed_header(s@),
            Err(e) => Err::<CDeclarationsV, FfiErrorV>(FfiErrorV::Preprocess(e@)),
        }),
{
    match result {
        Ok(s) => parse_c_header(s.as_str()),
        Err(e) => Err(FfiError::Preprocess(e)),
    }
}

} // verus!
