//! Paths of source files, and the modules that they stand for. A path is a text in which slashes
//! part the components.
use crate::module::{copy_path, paths_v, ModulePath};
use crate::text;
use vstd::prelude::*;

verus! {

/// The parts of a path from position `i` on that are its components, appended to `acc`: no empty
/// part, and a single dot only as the first part of a relative path.
pub open spec fn kept_parts(parts: Seq<Seq<char>>, i: int, acc: Seq<Seq<char>>) -> Seq<Seq<char>>
    decreases parts.len() - i,
{
    if i < 0 || i >= parts.len() {
        acc
    } else if parts[i].len() == 0 || (parts[i] == "."@ && i > 0) {
        kept_parts(parts, i + 1, acc)
    } else {
        kept_parts(parts, i + 1, acc.push(parts[i]))
    }
}

/// The components of a path.
pub open spec fn components(p: Seq<char>) -> Seq<Seq<char>> {
    kept_parts(text::split_on(p, '/'), 0, Seq::empty())
}

/// Whether a path is absolute.
pub open spec fn is_absolute(p: Seq<char>) -> bool {
    p.len() > 0 && p[0] == '/'
}

/// The position of the last dot before `n`.
pub open spec fn last_dot(s: Seq<char>, n: int) -> Option<int>
    decreases n,
{
    if n <= 0 || n > s.len() {
        None
    } else if s[n - 1] == '.' {
        Some(n - 1)
    } else {
        last_dot(s, n - 1)
    }
}

/// The name of the file that a path ends with.
pub open spec fn file_name(p: Seq<char>) -> Option<Seq<char>> {
    let cs = components(p);
    if cs.len() == 0 || cs.last() == ".."@ || cs.last() == "."@ {
        None
    } else {
        Some(cs.last())
    }
}

/// A file name without its extension. A dot in front does not begin an extension.
pub open spec fn stem_of(name: Seq<char>) -> Seq<char> {
    match last_dot(name, name.len() as int) {
        Some(k) => if k > 0 {
            name.take(k)
        } else {
            name
        },
        None => name,
    }
}

/// The extension of a file name.
pub open spec fn extension_of(name: Seq<char>) -> Option<Seq<char>> {
    match last_dot(name, name.len() as int) {
        Some(k) => if k > 0 {
            Some(name.skip(k + 1))
        } else {
            None
        },
        None => None,
    }
}

/// A path inside a directory. An absolute path stays as it is.
pub open spec fn path_in(dir: Seq<char>, p: Seq<char>) -> Seq<char> {
    if is_absolute(p) || dir.len() == 0 {
        p
    } else if dir.last() == '/' {
        dir + p
    } else {
        dir + "/"@ + p
    }
}

/// A path without the slashes at its end.
pub open spec fn without_slashes(p: Seq<char>, n: int) -> Seq<char>
    decreases n,
{
    if n <= 0 || n > p.len() {
        Seq::empty()
    } else if p[n - 1] == '/' {
        without_slashes(p, n - 1)
    } else {
        p.take(n)
    }
}

/// The position behind the last slash before `n`.
pub open spec fn name_start(p: Seq<char>, n: int) -> int
    decreases n,
{
    if n <= 0 || n > p.len() {
        0
    } else if p[n - 1] == '/' {
        n
    } else {
        name_start(p, n - 1)
    }
}

/// A path with the extension of its file name replaced.
pub open spec fn with_extension(p: Seq<char>, ext: Seq<char>) -> Seq<char> {
    let q = without_slashes(p, p.len() as int);
    let k = name_start(q, q.len() as int);
    q.take(k) + stem_of(q.skip(k)) + "."@ + ext
}

/// What is left of a module path behind a prefix.
pub open spec fn stripped(path: Seq<Seq<char>>, prefix: Seq<Seq<char>>) -> Option<Seq<Seq<char>>> {
    if path.len() >= prefix.len() && path.take(prefix.len() as int) == prefix {
        Some(path.skip(prefix.len() as int))
    } else {
        None
    }
}

/// A prefix that was stripped can be put back.
pub proof fn law_stripped_prefix_can_be_restored(path: Seq<Seq<char>>, prefix: Seq<Seq<char>>)
    ensures
        stripped(path, prefix) is Some ==> prefix + stripped(path, prefix)->0 == path,
        stripped(prefix + path, prefix) == Some(path),
{
    if stripped(path, prefix) is Some {
        assert(prefix + stripped(path, prefix)->0 =~= path);
    }
    assert((prefix + path).take(prefix.len() as int) =~= prefix);
    assert((prefix + path).skip(prefix.len() as int) =~= path);
}

/// A directory of sources, and the module path that its files are under.
pub open spec fn source_path_of(s: Seq<char>) -> Option<(Seq<char>, Seq<Seq<char>>)> {
    let parts = text::split_on(s, ':');
    if parts.len() == 1 && parts[0].len() > 0 {
        Some((parts[0], Seq::empty()))
    } else if parts.len() == 2 && parts[0].len() > 0 && parts[1].len() > 0 {
        Some((parts[0], text::split_on(parts[1], '.')))
    } else {
        None
    }
}

/// The contents of a list of source directories.
pub open spec fn sources_v(xs: Seq<(String, ModulePath)>) -> Seq<(Seq<char>, Seq<Seq<char>>)> {
    xs.map_values(|x: (String, ModulePath)| (x.0@, x.1@))
}

/// The source directories that texts stand for, from position `i` on, appended to `acc`; a text
/// that stands for none is passed over.
pub open spec fn source_paths_of(xs: Seq<Seq<char>>, i: int, acc: Seq<(Seq<char>, Seq<Seq<char>>)>) -> Seq<
    (Seq<char>, Seq<Seq<char>>),
>
    decreases xs.len() - i,
{
    if i < 0 || i >= xs.len() {
        acc
    } else {
        match source_path_of(xs[i]) {
            Some(x) => source_paths_of(xs, i + 1, acc.push(x)),
            None => source_paths_of(xs, i + 1, acc),
        }
    }
}

/// The files that a module may be in, in the order in which they are looked for, from position
/// `i` of the source directories on, appended to `acc`.
pub open spec fn candidates(path: Seq<Seq<char>>, dirs: Seq<(Seq<char>, Seq<Seq<char>>)>, i: int, acc: Seq<Seq<char>>) -> Seq<
    Seq<char>,
>
    decreases dirs.len() - i,
{
    if i < 0 || i >= dirs.len() {
        acc
    } else {
        match stripped(path, dirs[i].1) {
            None => candidates(path, dirs, i + 1, acc),
            Some(rest) => {
                let base = path_in(dirs[i].0, text::joined(rest, "/"@));
                candidates(
                    path,
                    dirs,
                    i + 1,
                    acc.push(with_extension(base, "kit"@)).push(path_in(base, "_mod.kit"@)),
                )
            },
        }
    }
}

/// The components of a path without its last.
pub open spec fn parent_components(p: Seq<char>) -> Seq<Seq<char>> {
    components(p).drop_last()
}

/// The module of a file with the given stem: under the first source directory that holds it,
/// from position `i` on; under none, the stem alone.
pub open spec fn module_of(
    absolute: bool,
    parent: Seq<Seq<char>>,
    stem: Seq<char>,
    dirs: Seq<(Seq<char>, Seq<Seq<char>>)>,
    i: int,
) -> Seq<Seq<char>>
    decreases dirs.len() - i,
{
    if i < 0 || i >= dirs.len() {
        seq![stem]
    } else {
        match stripped(parent, components(dirs[i].0)) {
            Some(rest) => if is_absolute(dirs[i].0) == absolute {
                if stem == "_mod"@ {
                    dirs[i].1 + rest
                } else {
                    (dirs[i].1 + rest).push(stem)
                }
            } else {
                module_of(absolute, parent, stem, dirs, i + 1)
            },
            None => module_of(absolute, parent, stem, dirs, i + 1),
        }
    }
}

/// The stem of the file that a path ends with, or nothing.
pub open spec fn path_stem(p: Seq<char>) -> Seq<char> {
    match file_name(p) {
        Some(n) => stem_of(n),
        None => Seq::empty(),
    }
}

/// The module that a file stands for.
pub open spec fn file_module(file: Seq<char>, dirs: Seq<(Seq<char>, Seq<Seq<char>>)>) -> Seq<Seq<char>> {
    if components(file).len() == 0 {
        seq![path_stem(file)]
    } else {
        module_of(is_absolute(file), parent_components(file), path_stem(file), dirs, 0)
    }
}

/// Whether a text can be one part of a module path: it is not empty and holds no slash or dot.
pub open spec fn is_part_name(w: Seq<char>) -> bool {
    w.len() > 0 && !w.contains('/') && !w.contains('.')
}

/// The two files in which a module is looked for below a source directory stand for that module.
pub proof fn law_module_files_stand_for_the_module(dir: Seq<char>, prefix: Seq<Seq<char>>, rest: Seq<Seq<char>>)
    requires
        rest.len() > 0,
        forall|i: int| 0 <= i < rest.len() ==> is_part_name(#[trigger] rest[i]),
        rest.last() != "_mod"@,
    ensures
        ({
            let dirs = seq![(dir, prefix)];
            let files = candidates(prefix + rest, dirs, 0, Seq::empty());
            &&& files.len() == 2
            &&& file_module(files[0], dirs) == prefix + rest
            &&& file_module(files[1], dirs) == prefix + rest
        }),
{
    let dirs = seq![(dir, prefix)];
    let path = prefix + rest;
    let base = path_in(dir, text::joined(rest, "/"@));
    let front = rest.drop_last();
    let w = rest.last();
    let name = w + "."@ + "kit"@;
    let own = "_mod.kit"@;
    let files = Seq::<Seq<char>>::empty().push(with_extension(base, "kit"@)).push(path_in(base, own));
    law_stripped_prefix_can_be_restored(rest, prefix);
    assert(stripped(path, dirs[0].1) == Some(rest));
    assert(candidates(path, dirs, 1, files) == files);
    assert(candidates(path, dirs, 0, Seq::empty()) == files);
    reveal_strlit("kit");
    reveal_strlit("_mod.kit");
    reveal_strlit("_mod");
    reveal_strlit(".");
    reveal_strlit("..");
    reveal_strlit("/");
    assert(w == rest[rest.len() - 1]);
    assert forall|i: int| 0 <= i < rest.len() implies is_step(#[trigger] rest[i]) by {
        assert(is_part_name(rest[i]));
        lemma_not_dot(rest[i]);
    }
    // The file that bears the name of the module.
    assert(front.push(w) =~= rest);
    lemma_extension_added(dir, front, w);
    assert(files[0] == path_in(dir, text::joined(front.push(name), "/"@)));
    assert forall|i: int| 0 <= i < front.push(name).len() implies is_step(#[trigger] front.push(name)[i]) by {
        if i < front.len() {
            assert(is_step(rest[i]));
        } else {
            assert forall|k: int| 0 <= k < name.len() implies name[k] != '/' by {
                if k < w.len() {
                    assert(w[k] != '/');
                }
            }
            assert(name.len() > 2);
        }
    }
    lemma_path_below(dir, front.push(name));
    let below = components(dir) + front.push(name);
    assert(below.last() == name);
    assert(below.drop_last() =~= components(dir) + front);
    assert(name != ".."@ && name != "."@) by {
        assert(name.len() > 2);
    }
    lemma_stem(w);
    law_stripped_prefix_can_be_restored(front, components(dir));
    assert((prefix + front).push(w) =~= path);
    assert(module_of(is_absolute(files[0]), parent_components(files[0]), w, dirs, 0) == path);
    assert(path_stem(files[0]) == w);
    // The file in the directory of the module.
    lemma_path_below(dir, rest);
    assert(!is_absolute(own));
    assert(base.len() > 0 && base.last() != '/') by {
        lemma_base_ends(dir, rest);
    }
    assert(files[1] == base + "/"@ + own);
    assert(is_step(own));
    lemma_component_added(base, own);
    let inside = (components(dir) + rest).push(own);
    assert(inside.last() == own);
    assert(inside.drop_last() =~= components(dir) + rest);
    assert(own =~= "_mod"@ + "."@ + "kit"@);
    lemma_stem("_mod"@);
    law_stripped_prefix_can_be_restored(rest, components(dir));
    assert(is_absolute(files[1]) == is_absolute(base));
    assert(module_of(is_absolute(files[1]), parent_components(files[1]), "_mod"@, dirs, 0) == path);
    assert(path_stem(files[1]) == "_mod"@);
}

/// Whether a text can be one component of a path.
spec fn is_step(w: Seq<char>) -> bool {
    w.len() > 0 && !w.contains('/') && w != "."@
}

proof fn lemma_not_dot(w: Seq<char>)
    requires
        is_part_name(w),
    ensures
        is_step(w),
{
    reveal_strlit(".");
    if w == "."@ {
        assert("."@[0] == '.');
        assert(w.contains('.'));
    }
}

proof fn lemma_last_dot(s: Seq<char>, k: int, n: int)
    requires
        0 <= k < n <= s.len(),
        s[k] == '.',
        forall|i: int| k < i < n ==> s[i] != '.',
    ensures
        last_dot(s, n) == Some(k),
    decreases n,
{
    if n - 1 > k {
        lemma_last_dot(s, k, n - 1);
    }
}

proof fn lemma_no_dot(s: Seq<char>, n: int)
    requires
        0 <= n <= s.len(),
        forall|i: int| 0 <= i < n ==> s[i] != '.',
    ensures
        last_dot(s, n) is None,
    decreases n,
{
    if n > 0 {
        lemma_no_dot(s, n - 1);
    }
}

proof fn lemma_stem(w: Seq<char>)
    requires
        w.len() > 0,
    ensures
        stem_of(w + "."@ + "kit"@) == w,
{
    reveal_strlit(".");
    reveal_strlit("kit");
    let name = w + "."@ + "kit"@;
    lemma_last_dot(name, w.len() as int, name.len() as int);
    assert(name.take(w.len() as int) =~= w);
}

proof fn lemma_kept_push(xs: Seq<Seq<char>>, w: Seq<char>, i: int, acc: Seq<Seq<char>>)
    requires
        0 <= i <= xs.len(),
        xs.len() > 0,
        w != "."@,
    ensures
        kept_parts(xs.push(w), i, acc) == (if w.len() == 0 {
            kept_parts(xs, i, acc)
        } else {
            kept_parts(xs, i, acc).push(w)
        }),
    decreases xs.len() - i,
{
    let ys = xs.push(w);
    if i < xs.len() {
        assert(ys[i] == xs[i]);
        lemma_kept_push(xs, w, i + 1, acc);
        lemma_kept_push(xs, w, i + 1, acc.push(xs[i]));
    } else {
        assert(ys[i] == w);
        assert(kept_parts(ys, i + 1, acc) == acc);
        assert(kept_parts(ys, i + 1, acc.push(w)) == acc.push(w));
    }
}

proof fn lemma_component_added(a: Seq<char>, w: Seq<char>)
    requires
        !w.contains('/'),
        w != "."@,
    ensures
        components(a + "/"@ + w) == (if w.len() == 0 {
            components(a)
        } else {
            components(a).push(w)
        }),
{
    reveal_strlit("/");
    assert("/"@ =~= seq!['/']);
    text::lemma_split_more(a, '/', w, 0, Seq::empty(), Seq::empty());
    text::lemma_split_join(a, '/', 0, Seq::empty(), Seq::empty());
    lemma_kept_push(text::split_on(a, '/'), w, 0, Seq::empty());
}

proof fn lemma_below(a: Seq<char>, rest: Seq<Seq<char>>)
    requires
        rest.len() > 0,
        forall|i: int| 0 <= i < rest.len() ==> is_step(#[trigger] rest[i]),
    ensures
        components(a + "/"@ + text::joined(rest, "/"@)) == components(a) + rest,
    decreases rest.len(),
{
    let w = rest.last();
    assert(is_step(rest[rest.len() - 1]));
    if rest.len() == 1 {
        lemma_component_added(a, w);
        assert(components(a).push(w) =~= components(a) + rest);
    } else {
        let front = rest.drop_last();
        assert forall|i: int| 0 <= i < front.len() implies is_step(#[trigger] front[i]) by {
            assert(is_step(rest[i]));
        }
        lemma_below(a, front);
        let b = a + "/"@ + text::joined(front, "/"@);
        lemma_component_added(b, w);
        assert(a + "/"@ + text::joined(rest, "/"@) =~= b + "/"@ + w);
        assert((components(a) + front).push(w) =~= components(a) + rest);
    }
}

proof fn lemma_all_kept(parts: Seq<Seq<char>>, i: int, acc: Seq<Seq<char>>)
    requires
        0 <= i <= parts.len(),
        forall|k: int| 0 <= k < parts.len() ==> is_step(#[trigger] parts[k]),
    ensures
        kept_parts(parts, i, acc) == acc + parts.skip(i),
    decreases parts.len() - i,
{
    if i < parts.len() {
        assert(is_step(parts[i]));
        lemma_all_kept(parts, i + 1, acc.push(parts[i]));
        assert(acc.push(parts[i]) + parts.skip(i + 1) =~= acc + parts.skip(i));
    } else {
        assert(acc + parts.skip(i) =~= acc);
    }
}

proof fn lemma_joined_begins(rest: Seq<Seq<char>>)
    requires
        rest.len() > 0,
        forall|i: int| 0 <= i < rest.len() ==> is_step(#[trigger] rest[i]),
    ensures
        text::joined(rest, "/"@).len() > 0,
        text::joined(rest, "/"@)[0] == rest[0][0],
        text::joined(rest, "/"@)[0] != '/',
        text::joined(rest, "/"@).last() != '/',
    decreases rest.len(),
{
    assert(is_step(rest[0]));
    let w = rest.last();
    assert(is_step(rest[rest.len() - 1]));
    if rest.len() > 1 {
        let front = rest.drop_last();
        assert forall|i: int| 0 <= i < front.len() implies is_step(#[trigger] front[i]) by {
            assert(is_step(rest[i]));
        }
        lemma_joined_begins(front);
        let all = text::joined(rest, "/"@);
        assert(all[0] == text::joined(front, "/"@)[0]);
        assert(all.last() == w.last());
    }
    assert(w.contains(w[w.len() - 1]));
    assert(rest[0].contains(rest[0][0]));
}

proof fn lemma_base_ends(dir: Seq<char>, rest: Seq<Seq<char>>)
    requires
        rest.len() > 0,
        forall|i: int| 0 <= i < rest.len() ==> is_step(#[trigger] rest[i]),
    ensures
        path_in(dir, text::joined(rest, "/"@)).len() > 0,
        path_in(dir, text::joined(rest, "/"@)).last() != '/',
{
    lemma_joined_begins(rest);
    let p = text::joined(rest, "/"@);
    assert(path_in(dir, p).last() == p.last());
}

proof fn lemma_path_below(dir: Seq<char>, rest: Seq<Seq<char>>)
    requires
        rest.len() > 0,
        forall|i: int| 0 <= i < rest.len() ==> is_step(#[trigger] rest[i]),
    ensures
        components(path_in(dir, text::joined(rest, "/"@))) == components(dir) + rest,
        is_absolute(path_in(dir, text::joined(rest, "/"@))) == is_absolute(dir),
{
    reveal_strlit("/");
    reveal_strlit(".");
    let p = text::joined(rest, "/"@);
    let empty = Seq::<char>::empty();
    lemma_joined_begins(rest);
    if dir.len() == 0 {
        assert("/"@ =~= seq!['/']);
        assert forall|i: int| 0 <= i < rest.len() implies !#[trigger] rest[i].contains('/') by {
            assert(is_step(rest[i]));
        }
        text::law_join_then_split(rest, '/');
        lemma_all_kept(rest, 0, Seq::empty());
        assert(Seq::<Seq<char>>::empty() + rest.skip(0) =~= rest);
        assert(text::split_on(dir, '/') =~= seq![empty]);
        assert(kept_parts(seq![empty], 1, Seq::empty()) =~= Seq::<Seq<char>>::empty());
        assert(components(dir) =~= Seq::<Seq<char>>::empty());
        assert(components(dir) + rest =~= rest);
    } else if dir.last() == '/' {
        let d = dir.drop_last();
        assert(dir =~= d + "/"@ + empty);
        lemma_component_added(d, empty);
        assert(dir + p =~= d + "/"@ + p);
        lemma_below(d, rest);
    } else {
        lemma_below(dir, rest);
    }
}

proof fn lemma_solid_end(p: Seq<char>)
    requires
        p.len() > 0,
        p.last() != '/',
    ensures
        without_slashes(p, p.len() as int) == p,
{
    assert(p.take(p.len() as int) =~= p);
}

proof fn lemma_name_start(p: Seq<char>, k: int, n: int)
    requires
        0 <= k <= n <= p.len(),
        k == 0 || p[k - 1] == '/',
        forall|i: int| k <= i < n ==> p[i] != '/',
    ensures
        name_start(p, n) == k,
    decreases n,
{
    if n > k {
        lemma_name_start(p, k, n - 1);
    }
}

proof fn lemma_extension_added(dir: Seq<char>, front: Seq<Seq<char>>, w: Seq<char>)
    requires
        forall|i: int| 0 <= i < front.len() ==> is_step(#[trigger] front[i]),
        is_part_name(w),
    ensures
        with_extension(path_in(dir, text::joined(front.push(w), "/"@)), "kit"@) == path_in(
            dir,
            text::joined(front.push(w + "."@ + "kit"@), "/"@),
        ),
{
    reveal_strlit("/");
    let name = w + "."@ + "kit"@;
    let empty = Seq::<char>::empty();
    lemma_not_dot(w);
    let lead = if front.len() == 0 { empty } else { text::joined(front, "/"@) + "/"@ };
    assert(front.push(w).drop_last() =~= front);
    assert(front.push(name).drop_last() =~= front);
    assert(text::joined(front.push(w), "/"@) =~= lead + w);
    assert(text::joined(front.push(name), "/"@) =~= lead + name);
    if front.len() > 0 {
        lemma_joined_begins(front);
        assert((lead + w)[0] == lead[0]);
        assert((lead + name)[0] == lead[0]);
        assert(lead.last() == '/');
    } else {
        assert((lead + w)[0] == w[0]);
        assert((lead + name)[0] == w[0]);
        assert(w.contains(w[0]));
    }
    let top = if dir.len() == 0 { empty } else if dir.last() == '/' { dir } else { dir + "/"@ };
    let all = top + lead;
    let base = path_in(dir, lead + w);
    assert(base =~= all + w);
    assert(path_in(dir, lead + name) =~= all + name);
    assert(all.len() > 0 ==> all.last() == '/');
    assert forall|i: int| all.len() <= i < base.len() implies base[i] != '/' by {
        assert(base[i] == w[i - all.len()]);
        assert(w.contains(w[i - all.len()]));
    }
    lemma_solid_end(base);
    if all.len() > 0 {
        assert(base[all.len() - 1] == all.last());
    }
    lemma_name_start(base, all.len() as int, base.len() as int);
    assert(base.take(all.len() as int) =~= all);
    assert(base.skip(all.len() as int) =~= w);
    lemma_no_dot(w, w.len() as int);
    assert(all + w + "."@ + "kit"@ =~= all + name);
}

/// The path of the prelude of the package that the first `n` parts of a module path name.
pub open spec fn prelude_in(module: Seq<Seq<char>>, n: int) -> Seq<Seq<char>> {
    module.take(n).push("prelude"@)
}

/// The paths of the preludes of a module: one in each package that holds it, from the innermost
/// out. Where nothing holds it there is the outermost one alone.
pub open spec fn prelude_paths(module: Seq<Seq<char>>) -> Seq<Seq<Seq<char>>> {
    if module.len() == 0 {
        seq![seq!["prelude"@]]
    } else {
        Seq::new(module.len(), |i: int| prelude_in(module, module.len() - 1 - i))
    }
}

/// No prelude of a module is named twice, the one beside it comes first, and the outermost one
/// comes last.
pub proof fn law_preludes_go_outwards(module: Seq<Seq<char>>)
    requires
        module.len() > 0,
    ensures
        prelude_paths(module).no_duplicates(),
        prelude_paths(module).len() == module.len(),
        prelude_paths(module)[0] == module.drop_last().push("prelude"@),
        prelude_paths(module).last() == seq!["prelude"@],
{
    let ps = prelude_paths(module);
    assert forall|i: int, j: int| 0 <= i < ps.len() && 0 <= j < ps.len() && i != j implies ps[i] != ps[j] by {
        assert(ps[i].len() == module.len() - i && ps[j].len() == module.len() - j);
    }
    assert(module.drop_last() =~= module.take(module.len() - 1));
    assert(ps.last() =~= seq!["prelude"@]);
}

/// Whether a file in a listing holds Kit source that an import with a wildcard takes.
pub open spec fn is_listed(file: Seq<char>) -> bool {
    match file_name(file) {
        Some(n) => extension_of(n) == Some("kit"@) && stem_of(n) != "prelude"@,
        None => false,
    }
}

/// The modules of the files of a directory from position `i` on, appended to `acc`: those in the
/// directory itself.
pub open spec fn shallow_modules(base: Seq<Seq<char>>, files: Seq<Seq<char>>, i: int, acc: Seq<Seq<Seq<char>>>) -> Seq<
    Seq<Seq<char>>,
>
    decreases files.len() - i,
{
    if i < 0 || i >= files.len() {
        acc
    } else if is_listed(files[i]) && components(files[i]).len() == 1 {
        shallow_modules(base, files, i + 1, acc.push(base.push(path_stem(files[i]))))
    } else {
        shallow_modules(base, files, i + 1, acc)
    }
}

/// The module of a file below a directory.
pub open spec fn deep_module(base: Seq<Seq<char>>, file: Seq<char>) -> Seq<Seq<char>> {
    if path_stem(file) == "_mod"@ {
        base + parent_components(file)
    } else {
        (base + parent_components(file)).push(path_stem(file))
    }
}

/// The modules of the files below a directory from position `i` on, appended to `acc`.
pub open spec fn deep_modules(base: Seq<Seq<char>>, files: Seq<Seq<char>>, i: int, acc: Seq<Seq<Seq<char>>>) -> Seq<
    Seq<Seq<char>>,
>
    decreases files.len() - i,
{
    if i < 0 || i >= files.len() {
        acc
    } else if is_listed(files[i]) {
        deep_modules(base, files, i + 1, acc.push(deep_module(base, files[i])))
    } else {
        deep_modules(base, files, i + 1, acc)
    }
}

/// Whether one text comes before another, from position `i` on: by the first character in which
/// they differ, or by being the shorter.
pub open spec fn text_before(a: Seq<char>, b: Seq<char>, i: int) -> bool
    decreases a.len() - i,
{
    if i < 0 || i >= b.len() {
        false
    } else if i >= a.len() {
        true
    } else if a[i] == b[i] {
        text_before(a, b, i + 1)
    } else {
        a[i] < b[i]
    }
}

/// Whether one module path comes before another.
pub open spec fn path_before(a: Seq<Seq<char>>, b: Seq<Seq<char>>) -> bool {
    text_before(text::joined(a, "."@), text::joined(b, "."@), 0)
}

/// A sorted list with one more path, behind those that it does not come before.
pub open spec fn path_inserted(xs: Seq<Seq<Seq<char>>>, p: Seq<Seq<char>>) -> Seq<Seq<Seq<char>>>
    decreases xs.len(),
{
    if xs.len() == 0 || !path_before(p, xs.last()) {
        xs.push(p)
    } else {
        path_inserted(xs.drop_last(), p).push(xs.last())
    }
}

/// The first `n` of the paths, sorted.
pub open spec fn paths_sorted(xs: Seq<Seq<Seq<char>>>, n: int) -> Seq<Seq<Seq<char>>>
    decreases n,
{
    if n <= 0 || n > xs.len() {
        Seq::empty()
    } else {
        path_inserted(paths_sorted(xs, n - 1), xs[n - 1])
    }
}

/// Whether no path comes before one in front of it.
pub open spec fn in_order(xs: Seq<Seq<Seq<char>>>) -> bool {
    forall|i: int| 0 <= i && i + 1 < xs.len() ==> !path_before(#[trigger] xs[i + 1], xs[i])
}

/// Sorting keeps every path.
pub proof fn law_sorting_keeps_paths(xs: Seq<Seq<Seq<char>>>, n: int)
    requires
        0 <= n <= xs.len(),
    ensures
        paths_sorted(xs, n).to_multiset() == xs.take(n).to_multiset(),
    decreases n,
{
    broadcast use vstd::seq_lib::group_to_multiset_ensures;

    if n > 0 {
        law_sorting_keeps_paths(xs, n - 1);
        lemma_inserting_keeps(paths_sorted(xs, n - 1), xs[n - 1]);
        assert(xs.take(n) =~= xs.take(n - 1).push(xs[n - 1]));
    } else {
        assert(xs.take(0) =~= Seq::<Seq<Seq<char>>>::empty());
        assert(paths_sorted(xs, n) =~= Seq::<Seq<Seq<char>>>::empty());
    }
}

proof fn lemma_inserting_keeps(xs: Seq<Seq<Seq<char>>>, p: Seq<Seq<char>>)
    ensures
        path_inserted(xs, p).to_multiset() == xs.to_multiset().insert(p),
    decreases xs.len(),
{
    broadcast use vstd::seq_lib::group_to_multiset_ensures;

    if !(xs.len() == 0 || !path_before(p, xs.last())) {
        lemma_inserting_keeps(xs.drop_last(), p);
        assert(xs =~= xs.drop_last().push(xs.last()));
        assert(path_inserted(xs, p).to_multiset() =~= xs.to_multiset().insert(p));
    }
}

/// Sorted paths are in order.
pub proof fn law_sorted_paths_are_in_order(xs: Seq<Seq<Seq<char>>>, n: int)
    requires
        0 <= n <= xs.len(),
    ensures
        in_order(paths_sorted(xs, n)),
    decreases n,
{
    if n > 0 {
        law_sorted_paths_are_in_order(xs, n - 1);
        lemma_inserted_in_order(paths_sorted(xs, n - 1), xs[n - 1]);
    }
}

proof fn lemma_text_order(a: Seq<char>, b: Seq<char>, i: int)
    requires
        text_before(a, b, i),
        0 <= i,
    ensures
        !text_before(b, a, i),
    decreases a.len() - i,
{
    if i < a.len() && i < b.len() && a[i] == b[i] {
        lemma_text_order(a, b, i + 1);
    }
}

proof fn lemma_inserted_in_order(xs: Seq<Seq<Seq<char>>>, p: Seq<Seq<char>>)
    requires
        in_order(xs),
    ensures
        in_order(path_inserted(xs, p)),
        path_inserted(xs, p).len() == xs.len() + 1,
        path_inserted(xs, p).last() == p || (xs.len() > 0 && path_inserted(xs, p).last() == xs.last()),
    decreases xs.len(),
{
    let out = path_inserted(xs, p);
    if xs.len() == 0 || !path_before(p, xs.last()) {
        assert forall|i: int| 0 <= i && i + 1 < out.len() implies !path_before(#[trigger] out[i + 1], out[i]) by {
            if i + 1 < xs.len() {
                assert(!path_before(xs[i + 1], xs[i]));
            }
        }
    } else {
        let head = xs.drop_last();
        assert(in_order(head)) by {
            assert forall|i: int| 0 <= i && i + 1 < head.len() implies !path_before(#[trigger] head[i + 1], head[i]) by {
                assert(!path_before(xs[i + 1], xs[i]));
            }
        }
        lemma_inserted_in_order(head, p);
        let front = path_inserted(head, p);
        assert forall|i: int| 0 <= i && i + 1 < out.len() implies !path_before(#[trigger] out[i + 1], out[i]) by {
            if i + 1 < front.len() {
                assert(!path_before(front[i + 1], front[i]));
            } else {
                lemma_text_order(text::joined(p, "."@), text::joined(xs.last(), "."@), 0);
                if front.last() != p {
                    let k = xs.len() - 2;
                    assert(!path_before(xs[k + 1], xs[k]));
                    assert(front.last() == xs[k]);
                }
            }
        }
    }
}

fn has_dot(name: &Vec<char>) -> (r: Option<usize>)
    ensures
        match r {
            Some(k) => last_dot(name@, name@.len() as int) == Some(k as int) && k < name@.len(),
            None => last_dot(name@, name@.len() as int) is None,
        },
{
    let mut n: usize = name.len();
    while n > 0
        invariant
            n <= name@.len(),
            last_dot(name@, name@.len() as int) == last_dot(name@, n as int),
        decreases n,
    {
        if name[n - 1] == '.' {
            return Some(n - 1);
        }
        n = n - 1;
    }
    None
}

/// A file name without its extension.
pub fn get_stem(name: &str) -> (r: String)
    ensures
        r@ == stem_of(name@),
{
    let cs = text::chars_of(name);
    match has_dot(&cs) {
        Some(k) => if k > 0 {
            proof {
                assert(cs@.subrange(0, k as int) =~= cs@.take(k as int));
            }
            text::string_of(&cs, 0, k)
        } else {
            name.to_owned()
        },
        None => name.to_owned(),
    }
}

/// The extension of a file name.
pub fn get_extension(name: &str) -> (r: Option<String>)
    ensures
        crate::escape::opt_text(r) == extension_of(name@),
{
    let cs = text::chars_of(name);
    let n: usize = cs.len();
    match has_dot(&cs) {
        Some(k) => if k > 0 {
            proof {
                assert(cs@.subrange(k + 1, cs@.len() as int) =~= cs@.skip(k + 1));
            }
            Some(text::string_of(&cs, k + 1, n))
        } else {
            None
        },
        None => None,
    }
}

/// The components of a path.
pub fn get_components(p: &str) -> (r: Vec<String>)
    ensures
        text::texts(r@) == components(p@),
{
    let parts = text::split(p, '/');
    let ghost pv = text::texts(parts@);
    let mut out: Vec<String> = Vec::new();
    let mut i: usize = 0;
    proof {
        assert(text::texts(out@) =~= Seq::<Seq<char>>::empty());
    }
    while i < parts.len()
        invariant
            i <= parts@.len(),
            pv == text::texts(parts@),
            kept_parts(pv, 0, Seq::empty()) == kept_parts(pv, i as int, text::texts(out@)),
        decreases parts@.len() - i,
    {
        assert(pv[i as int] == parts@[i as int]@);
        let s = parts[i].as_str();
        if !(s.is_empty() || (text::text_eq(s, ".") && i > 0)) {
            let c = parts[i].clone();
            proof {
                assert(text::texts(out@.push(c)) =~= text::texts(out@).push(c@));
            }
            out.push(c);
        }
        i = i + 1;
    }
    out
}

fn absolute(p: &str) -> (r: bool)
    ensures
        r == is_absolute(p@),
{
    let cs = text::chars_of(p);
    cs.len() > 0 && cs[0] == '/'
}

/// The name of the file that a path ends with.
pub fn get_file_name(p: &str) -> (r: Option<String>)
    ensures
        crate::escape::opt_text(r) == file_name(p@),
{
    let cs = get_components(p);
    proof {
        assert(text::texts(cs@).len() == cs@.len());
    }
    if cs.len() == 0 {
        return None;
    }
    let last = cs[cs.len() - 1].clone();
    assert(text::texts(cs@).last() == last@);
    if text::text_eq(last.as_str(), "..") || text::text_eq(last.as_str(), ".") {
        None
    } else {
        Some(last)
    }
}

/// The stem of the file that a path ends with, or nothing.
pub fn get_path_stem(p: &str) -> (r: String)
    ensures
        r@ == path_stem(p@),
{
    match get_file_name(p) {
        Some(n) => get_stem(n.as_str()),
        None => String::new(),
    }
}

/// A path inside a directory.
pub fn join_path(dir: &str, p: &str) -> (r: String)
    ensures
        r@ == path_in(dir@, p@),
{
    let ds = text::chars_of(dir);
    if absolute(p) || ds.len() == 0 {
        p.to_owned()
    } else if ds[ds.len() - 1] == '/' {
        dir.to_owned().concat(p)
    } else {
        dir.to_owned().concat("/").concat(p)
    }
}

/// A path with the extension of its file name replaced.
pub fn replace_extension(p: &str, ext: &str) -> (r: String)
    ensures
        r@ == with_extension(p@, ext@),
{
    let cs = text::chars_of(p);
    let mut n: usize = cs.len();
    while n > 0 && cs[n - 1] == '/'
        invariant
            n <= cs@.len(),
            cs@ == p@,
            without_slashes(p@, p@.len() as int) == without_slashes(p@, n as int),
        decreases n,
    {
        n = n - 1;
    }
    let ghost q = without_slashes(p@, p@.len() as int);
    proof {
        assert(q =~= p@.take(n as int));
    }
    let mut k: usize = n;
    while k > 0 && cs[k - 1] != '/'
        invariant
            k <= n <= cs@.len(),
            cs@ == p@,
            q == p@.take(n as int),
            name_start(q, q.len() as int) == name_start(q, k as int),
        decreases k,
    {
        k = k - 1;
    }
    let head = text::string_of(&cs, 0, k);
    let name = text::string_of(&cs, k, n);
    proof {
        assert(cs@.subrange(0, k as int) =~= q.take(k as int));
        assert(cs@.subrange(k as int, n as int) =~= q.skip(k as int));
    }
    head.concat(get_stem(name.as_str()).as_str()).concat(".").concat(ext)
}

fn texts_from(a: &Vec<String>, from: usize) -> (r: Vec<String>)
    requires
        from <= a@.len(),
    ensures
        text::texts(r@) == text::texts(a@).skip(from as int),
{
    let mut out: Vec<String> = Vec::new();
    let ghost all = text::texts(a@).skip(from as int);
    let mut i: usize = from;
    while i < a.len()
        invariant
            from <= i <= a@.len(),
            all == text::texts(a@).skip(from as int),
            text::texts(out@) =~= all.take(i - from),
        decreases a@.len() - i,
    {
        let c = a[i].clone();
        proof {
            assert(all.take(i + 1 - from) =~= all.take(i - from).push(c@));
            assert(text::texts(out@.push(c)) =~= text::texts(out@).push(c@));
        }
        out.push(c);
        i = i + 1;
    }
    proof {
        assert(all.take(all.len() as int) =~= all);
    }
    out
}

fn strip_texts(path: &Vec<String>, prefix: &Vec<String>) -> (r: Option<Vec<String>>)
    ensures
        match r {
            Some(v) => stripped(text::texts(path@), text::texts(prefix@)) == Some(text::texts(v@)),
            None => stripped(text::texts(path@), text::texts(prefix@)) is None,
        },
{
    let ghost pv = text::texts(path@);
    let ghost xv = text::texts(prefix@);
    if path.len() < prefix.len() {
        return None;
    }
    let mut i: usize = 0;
    while i < prefix.len()
        invariant
            i <= prefix@.len() <= path@.len(),
            pv == text::texts(path@),
            xv == text::texts(prefix@),
            forall|j: int| 0 <= j < i ==> #[trigger] pv[j] == xv[j],
        decreases prefix@.len() - i,
    {
        assert(pv[i as int] == path@[i as int]@);
        assert(xv[i as int] == prefix@[i as int]@);
        if !text::text_eq(path[i].as_str(), prefix[i].as_str()) {
            assert(pv.take(xv.len() as int)[i as int] != xv[i as int]);
            return None;
        }
        i = i + 1;
    }
    proof {
        assert(pv.take(xv.len() as int) =~= xv);
    }
    Some(texts_from(path, prefix.len()))
}

/// What is left of a module path behind a prefix.
pub fn strip_module_prefix(path: &ModulePath, prefix: &ModulePath) -> (r: Option<ModulePath>)
    ensures
        match r {
            Some(p) => stripped(path@, prefix@) == Some(p@),
            None => stripped(path@, prefix@) is None,
        },
{
    match strip_texts(&path.0, &prefix.0) {
        Some(v) => Some(ModulePath(v)),
        None => None,
    }
}

/// A directory of sources, and the module path that its files are under.
pub fn parse_source_path(s: &str) -> (r: Option<(String, ModulePath)>)
    ensures
        match r {
            Some((d, p)) => source_path_of(s@) == Some((d@, p@)),
            None => source_path_of(s@) is None,
        },
{
    let parts = text::split(s, ':');
    proof {
        assert(text::texts(parts@).len() == parts@.len());
    }
    if parts.len() == 1 {
        assert(text::texts(parts@)[0] == parts@[0]@);
        if !parts[0].as_str().is_empty() {
            let p = ModulePath::new();
            return Some((parts[0].clone(), p));
        }
        return None;
    }
    if parts.len() == 2 {
        assert(text::texts(parts@)[0] == parts@[0]@);
        assert(text::texts(parts@)[1] == parts@[1]@);
        if !parts[0].as_str().is_empty() && !parts[1].as_str().is_empty() {
            return Some((parts[0].clone(), ModulePath(text::split(parts[1].as_str(), '.'))));
        }
    }
    None
}

/// The source directories that texts stand for.
pub fn parse_source_paths(xs: &Vec<String>) -> (r: Vec<(String, ModulePath)>)
    ensures
        sources_v(r@) == source_paths_of(text::texts(xs@), 0, Seq::empty()),
{
    let mut out: Vec<(String, ModulePath)> = Vec::new();
    let mut i: usize = 0;
    proof {
        assert(sources_v(out@) =~= Seq::<(Seq<char>, Seq<Seq<char>>)>::empty());
    }
    while i < xs.len()
        invariant
            i <= xs@.len(),
            source_paths_of(text::texts(xs@), 0, Seq::empty()) == source_paths_of(
                text::texts(xs@),
                i as int,
                sources_v(out@),
            ),
        decreases xs@.len() - i,
    {
        assert(text::texts(xs@)[i as int] == xs@[i as int]@);
        match parse_source_path(xs[i].as_str()) {
            Some(p) => {
                proof {
                    assert(sources_v(out@.push(p)) =~= sources_v(out@).push((p.0@, p.1@)));
                }
                out.push(p);
            },
            None => {},
        }
        i = i + 1;
    }
    out
}

/// The files that a module may be in, in the order in which they are looked for.
pub fn module_file_candidates(path: &ModulePath, dirs: &Vec<(String, ModulePath)>) -> (r: Vec<String>)
    ensures
        text::texts(r@) == candidates(path@, sources_v(dirs@), 0, Seq::empty()),
{
    let mut out: Vec<String> = Vec::new();
    let mut i: usize = 0;
    proof {
        assert(text::texts(out@) =~= Seq::<Seq<char>>::empty());
    }
    while i < dirs.len()
        invariant
            i <= dirs@.len(),
            candidates(path@, sources_v(dirs@), 0, Seq::empty()) == candidates(
                path@,
                sources_v(dirs@),
                i as int,
                text::texts(out@),
            ),
        decreases dirs@.len() - i,
    {
        assert(sources_v(dirs@)[i as int] == (dirs@[i as int].0@, dirs@[i as int].1@));
        match strip_module_prefix(path, &dirs[i].1) {
            Some(rest) => {
                let base = join_path(dirs[i].0.as_str(), rest.join("/").as_str());
                let a = replace_extension(base.as_str(), "kit");
                let b = join_path(base.as_str(), "_mod.kit");
                proof {
                    assert(text::texts(out@.push(a)) =~= text::texts(out@).push(a@));
                    assert(text::texts(out@.push(a).push(b)) =~= text::texts(out@).push(a@).push(b@));
                }
                out.push(a);
                out.push(b);
            },
            None => {},
        }
        i = i + 1;
    }
    out
}

fn join_texts(a: &Vec<String>, b: &Vec<String>) -> (r: Vec<String>)
    ensures
        text::texts(r@) == text::texts(a@) + text::texts(b@),
{
    let mut out = text::copy_texts(a, a.len());
    let mut more = text::copy_texts(b, b.len());
    let ghost o = out@;
    let ghost m = more@;
    out.append(&mut more);
    proof {
        assert(text::texts(o) =~= text::texts(a@));
        assert(text::texts(m) =~= text::texts(b@));
        assert(text::texts(out@) =~= text::texts(o) + text::texts(m));
    }
    out
}

fn push_text(a: Vec<String>, s: String) -> (r: Vec<String>)
    ensures
        text::texts(r@) == text::texts(a@).push(s@),
{
    let ghost av = a@;
    let ghost sv = s@;
    let mut out = a;
    out.push(s);
    proof {
        assert(text::texts(out@) =~= text::texts(av).push(sv));
    }
    out
}

/// The module that a file stands for.
pub fn determine_module_path(file: &str, dirs: &Vec<(String, ModulePath)>) -> (r: ModulePath)
    ensures
        r@ == file_module(file@, sources_v(dirs@)),
{
    let cs = get_components(file);
    let stem = get_path_stem(file);
    proof {
        assert(text::texts(cs@).len() == cs@.len());
    }
    if cs.len() > 0 {
        let parent = text::copy_texts(&cs, cs.len() - 1);
        proof {
            assert(text::texts(cs@).take(cs@.len() - 1) =~= parent_components(file@));
        }
        let abs = absolute(file);
        let ghost pv = text::texts(parent@);
        let mut i: usize = 0;
        while i < dirs.len()
            invariant
                i <= dirs@.len(),
                pv == text::texts(parent@),
                pv == parent_components(file@),
                components(file@).len() > 0,
                stem@ == path_stem(file@),
                abs == is_absolute(file@),
                module_of(abs, pv, stem@, sources_v(dirs@), 0) == module_of(
                    abs,
                    pv,
                    stem@,
                    sources_v(dirs@),
                    i as int,
                ),
            decreases dirs@.len() - i,
        {
            assert(sources_v(dirs@)[i as int] == (dirs@[i as int].0@, dirs@[i as int].1@));
            let ds = get_components(dirs[i].0.as_str());
            match strip_texts(&parent, &ds) {
                Some(rest) => {
                    if absolute(dirs[i].0.as_str()) == abs {
                        let whole = join_texts(&dirs[i].1.0, &rest);
                        if text::text_eq(stem.as_str(), "_mod") {
                            return ModulePath(whole);
                        }
                        return ModulePath(push_text(whole, stem));
                    }
                },
                None => {},
            }
            i = i + 1;
        }
    }
    let none: Vec<String> = Vec::new();
    proof {
        assert(text::texts(none@).push(stem@) =~= seq![stem@]);
    }
    ModulePath(push_text(none, stem))
}

/// The paths of the preludes of a module.
pub fn prelude_candidates(module: &ModulePath) -> (r: Vec<ModulePath>)
    ensures
        paths_v(r@) == prelude_paths(module@),
{
    let mut out: Vec<ModulePath> = Vec::new();
    let total: usize = module.0.len();
    proof {
        assert(module@.len() == module.0@.len());
    }
    if total == 0 {
        let none: Vec<String> = Vec::new();
        let root = ModulePath(push_text(none, "prelude".to_owned()));
        out.push(root);
        proof {
            assert(root@ =~= seq!["prelude"@]);
            assert(paths_v(out@) =~= seq![root@]);
        }
        return out;
    }
    let mut n: usize = total;
    while n > 0
        invariant
            n <= total,
            total > 0,
            total == module.0@.len(),
            module@.len() == module.0@.len(),
            paths_v(out@) =~= prelude_paths(module@).take(total - n),
        decreases n,
    {
        n = n - 1;
        let p = ModulePath(push_text(text::copy_texts(&module.0, n), "prelude".to_owned()));
        proof {
            assert(p@ == prelude_in(module@, n as int));
            assert(prelude_paths(module@).take(total - n) =~= prelude_paths(module@).take(total - n - 1).push(p@));
            assert(paths_v(out@.push(p)) =~= paths_v(out@).push(p@));
        }
        out.push(p);
    }
    proof {
        assert(prelude_paths(module@).take(total as int) =~= prelude_paths(module@));
    }
    out
}

fn listed(file: &str) -> (r: bool)
    ensures
        r == is_listed(file@),
{
    match get_file_name(file) {
        Some(n) => match get_extension(n.as_str()) {
            Some(e) => text::text_eq(e.as_str(), "kit") && !text::text_eq(get_stem(n.as_str()).as_str(), "prelude"),
            None => false,
        },
        None => false,
    }
}

/// The modules of the files of a directory.
pub fn collect_kit_files_in_dir_shallow(base: &ModulePath, files: &Vec<String>, acc: Vec<ModulePath>) -> (r: Vec<ModulePath>)
    ensures
        paths_v(r@) == shallow_modules(base@, text::texts(files@), 0, paths_v(acc@)),
{
    let ghost a0 = paths_v(acc@);
    let mut out = acc;
    let mut i: usize = 0;
    while i < files.len()
        invariant
            i <= files@.len(),
            a0 == paths_v(acc@),
            shallow_modules(base@, text::texts(files@), 0, a0) == shallow_modules(
                base@,
                text::texts(files@),
                i as int,
                paths_v(out@),
            ),
        decreases files@.len() - i,
    {
        assert(text::texts(files@)[i as int] == files@[i as int]@);
        let cs = get_components(files[i].as_str());
        proof {
            assert(text::texts(cs@).len() == cs@.len());
        }
        if listed(files[i].as_str()) && cs.len() == 1 {
            let p = ModulePath(
                push_text(text::copy_texts(&base.0, base.0.len()), get_path_stem(files[i].as_str())),
            );
            proof {
                assert(text::texts(base.0@).take(base.0@.len() as int) =~= base@);
                assert(paths_v(out@.push(p)) =~= paths_v(out@).push(p@));
            }
            out.push(p);
        }
        i = i + 1;
    }
    out
}

/// The modules of the files below a directory.
pub fn walk_kit_files(base: &ModulePath, files: &Vec<String>, acc: Vec<ModulePath>) -> (r: Vec<ModulePath>)
    ensures
        paths_v(r@) == deep_modules(base@, text::texts(files@), 0, paths_v(acc@)),
{
    let ghost a0 = paths_v(acc@);
    let mut out = acc;
    let mut i: usize = 0;
    while i < files.len()
        invariant
            i <= files@.len(),
            a0 == paths_v(acc@),
            deep_modules(base@, text::texts(files@), 0, a0) == deep_modules(
                base@,
                text::texts(files@),
                i as int,
                paths_v(out@),
            ),
        decreases files@.len() - i,
    {
        assert(text::texts(files@)[i as int] == files@[i as int]@);
        if listed(files[i].as_str()) {
            let cs = get_components(files[i].as_str());
            proof {
                assert(text::texts(cs@).len() == cs@.len());
            }
            let parent = text::copy_texts(&cs, if cs.len() > 0 { cs.len() - 1 } else { 0 });
            proof {
                if cs@.len() > 0 {
                    assert(text::texts(cs@).take(cs@.len() - 1) =~= parent_components(files@[i as int]@));
                } else {
                    assert(components(files@[i as int]@).len() == 0);
                }
            }
            let whole = join_texts(&base.0, &parent);
            let stem = get_path_stem(files[i].as_str());
            let p = if text::text_eq(stem.as_str(), "_mod") {
                ModulePath(whole)
            } else {
                ModulePath(push_text(whole, stem))
            };
            proof {
                assert(paths_v(out@.push(p)) =~= paths_v(out@).push(p@));
            }
            out.push(p);
        }
        i = i + 1;
    }
    out
}

fn is_before(a: &Vec<char>, b: &Vec<char>) -> (r: bool)
    ensures
        r == text_before(a@, b@, 0),
{
    let mut i: usize = 0;
    while i < a.len() && i < b.len() && a[i] == b[i]
        invariant
            i <= a@.len(),
            i <= b@.len(),
            text_before(a@, b@, 0) == text_before(a@, b@, i as int),
        decreases a@.len() - i,
    {
        i = i + 1;
    }
    if i >= b.len() {
        false
    } else if i >= a.len() {
        true
    } else {
        a[i] < b[i]
    }
}

fn comes_before(a: &ModulePath, b: &ModulePath) -> (r: bool)
    ensures
        r == path_before(a@, b@),
{
    let x = text::chars_of(a.join(".").as_str());
    let y = text::chars_of(b.join(".").as_str());
    is_before(&x, &y)
}

fn insert_path(xs: Vec<ModulePath>, p: ModulePath) -> (r: Vec<ModulePath>)
    ensures
        paths_v(r@) == path_inserted(paths_v(xs@), p@),
    decreases xs@.len(),
{
    let ghost xv = paths_v(xs@);
    let ghost pv = p@;
    let mut out = xs;
    let n: usize = out.len();
    proof {
        assert(xv.len() == xs@.len());
        if n > 0 {
            assert(xv.last() == xs@[n - 1]@);
        }
    }
    if n == 0 || !comes_before(&p, &out[n - 1]) {
        out.push(p);
        proof {
            assert(paths_v(out@) =~= xv.push(pv));
        }
        return out;
    }
    match out.pop() {
        Some(last) => {
            proof {
                assert(paths_v(out@) =~= xv.drop_last());
            }
            let mut front = insert_path(out, p);
            let ghost fv = front@;
            let ghost lv = last@;
            front.push(last);
            proof {
                assert(paths_v(front@) =~= paths_v(fv).push(lv));
            }
            front
        },
        None => out,
    }
}

/// Sorts module paths by their texts; equal ones stay in their order.
pub fn sort_paths(xs: &Vec<ModulePath>) -> (r: Vec<ModulePath>)
    ensures
        paths_v(r@) == paths_sorted(paths_v(xs@), xs@.len() as int),
{
    let mut out: Vec<ModulePath> = Vec::new();
    let mut i: usize = 0;
    proof {
        assert(paths_v(out@) =~= Seq::<Seq<Seq<char>>>::empty());
    }
    while i < xs.len()
        invariant
            i <= xs@.len(),
            paths_v(out@) == paths_sorted(paths_v(xs@), i as int),
        decreases xs@.len() - i,
    {
        assert(paths_v(xs@)[i as int] == xs@[i as int]@);
        out = insert_path(out, copy_path(&xs[i]));
        i = i + 1;
    }
    out
}

} // verus!
