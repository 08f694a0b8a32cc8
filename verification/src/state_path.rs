//! Where to look for `poryaaaa_state.json`. Paths are texts in Unix syntax.

use vstd::prelude::*;
use vstd::string::StrSliceExecFns;
use crate::text::{concat2, concat3};
use crate::voicegroup::text_of;

verus! {

/// How many directories above a library are searched.
pub const SEARCH_LEVELS: usize = 5;

/// The name of the state file.
pub open spec fn state_file() -> Seq<char> {
    "poryaaaa_state.json"@
}

/// The contents of a list of texts.
pub open spec fn texts(list: Seq<String>) -> Seq<Seq<char>> {
    Seq::new(list.len(), |i: int| list[i]@)
}

/// The path `name` as seen from `dir`: `name` itself if that is absolute, else
/// the path of `name` inside `dir`.
pub open spec fn joined(dir: Seq<char>, name: Seq<char>) -> Seq<char> {
    if name.len() > 0 && name[0] == '/' {
        name
    } else if dir.len() == 0 || dir.last() == '/' {
        dir + name
    } else {
        dir + seq!['/'] + name
    }
}

/// The path `name` as seen from `dir`.
pub fn join(dir: &str, name: &str) -> (path: String)
    ensures
        path@ == joined(dir@, name@),
{
    if name.unicode_len() > 0 && name.get_char(0) == '/' {
        return name.to_owned();
    }
    let n = dir.unicode_len();
    if n == 0 || dir.get_char(n - 1) == '/' {
        concat2(dir, name)
    } else {
        proof {
            reveal_strlit("/");
            assert("/"@ == seq!['/']);
        }
        concat3(dir, "/", name)
    }
}

/// The directory that `Path::parent` gives for a path in Unix syntax.
pub uninterp spec fn parent_dir(path: Seq<char>) -> Option<Seq<char>>;

/// A name that a directory entry can have: not empty, without a slash, and
/// neither `.` nor `..`.
pub open spec fn is_entry_name(name: Seq<char>) -> bool {
    &&& name.len() > 0
    &&& !name.contains('/')
    &&& name != seq!['.']
    &&& name != seq!['.', '.']
}

/// A directory without a parent: the root, or the empty path, where relative
/// paths begin.
pub open spec fn is_top(dir: Seq<char>) -> bool {
    dir.len() == 0 || dir == seq!['/']
}

/// A directory path in plain form: one without a parent, or a path that ends
/// neither in a slash nor in a dot.
pub open spec fn is_plain_dir(dir: Seq<char>) -> bool {
    is_top(dir) || (dir.last() != '/' && dir.last() != '.')
}

/// Whether `parent` is right for `path`, if that is an entry of a directory in
/// plain form: then its parent is that directory.
pub open spec fn is_parent_of_entry(path: Seq<char>, parent: Option<Seq<char>>) -> bool {
    forall|dir: Seq<char>, name: Seq<char>|
        #![trigger joined(dir, name)]
        path == joined(dir, name) && is_plain_dir(dir) && is_entry_name(name) ==> parent == Some(
            dir,
        )
}

/// `Path::parent`, on a Unix target, where the result is a function of the path:
/// the path without its final component, if it has one. The exact result is
/// claimed for an entry of a directory in plain form, which has that directory as
/// its parent, and for the root and the empty path, which have none; how repeated
/// slashes and dots are treated is left unsaid.
#[verifier::external_body]
fn path_parent(path: &str) -> (parent: Option<String>)
    ensures
        text_of(parent) == parent_dir(path@),
        is_parent_of_entry(path@, text_of(parent)),
        is_top(path@) ==> parent is None,
{
    let dir = std::path::Path::new(path).parent()?;
    Some(dir.to_str()?.to_owned())
}

/// The state files next to `dir` and in the directories above it, `levels` of
/// them at most.
pub open spec fn candidates_above(dir: Option<Seq<char>>, levels: nat) -> Seq<Seq<char>>
    decreases levels,
{
    match dir {
        Some(d) => if levels == 0 {
            seq![]
        } else {
            seq![joined(d, state_file())] + candidates_above(parent_dir(d), (levels - 1) as nat)
        },
        None => seq![],
    }
}

/// The state files in the directories above a library, the closest first.
pub open spec fn candidates_around(lib: Seq<char>) -> Seq<Seq<char>> {
    candidates_above(parent_dir(lib), SEARCH_LEVELS as nat)
}

/// The path that the entries `names` lead to from `dir`, one inside the other.
pub open spec fn descended(dir: Seq<char>, names: Seq<Seq<char>>) -> Seq<char>
    decreases names.len(),
{
    if names.len() == 0 {
        dir
    } else {
        joined(descended(dir, names.drop_last()), names.last())
    }
}

/// Every name is an entry name that does not end in a dot, so that the paths
/// that it leads to are in plain form.
pub open spec fn are_plain_names(names: Seq<Seq<char>>) -> bool {
    forall|i: int|
        0 <= i < names.len() ==> is_entry_name(#[trigger] names[i]) && names[i].last() != '.'
}

/// Following plain names from a plain directory leads to a plain path.
proof fn lemma_descended_is_plain(dir: Seq<char>, names: Seq<Seq<char>>)
    requires
        is_plain_dir(dir),
        are_plain_names(names),
    ensures
        is_plain_dir(descended(dir, names)),
    decreases names.len(),
{
    if names.len() > 0 {
        lemma_descended_is_plain(dir, names.drop_last());
        let name = names.last();
        assert(is_entry_name(names[names.len() - 1]));
        assert(name[0] == '/' ==> name.contains('/'));
        let path = joined(descended(dir, names.drop_last()), name);
        assert(path.last() == name.last());
        if name.last() == '/' {
            assert(name.contains('/'));
        }
    }
}

/// What is known of the parents that a search has looked up, from `path` up.
spec fn searched(path: Seq<char>, levels: nat) -> bool
    decreases levels,
{
    &&& is_parent_of_entry(path, parent_dir(path))
    &&& is_top(path) ==> parent_dir(path) is None
    &&& levels > 0 ==> (parent_dir(path) matches Some(d) ==> searched(d, (levels - 1) as nat))
}

/// What is still to be known when a search has gone up `level` times, to `dir`.
spec fn to_search(dir: Option<Seq<char>>, level: int) -> bool {
    level < SEARCH_LEVELS - 1 ==> (dir matches Some(d) ==> searched(
        d,
        (SEARCH_LEVELS - 2 - level) as nat,
    ))
}

/// A search upwards from a plain path reaches the directories that lead to it.
proof fn lemma_search_reaches(dir: Seq<char>, names: Seq<Seq<char>>, levels: nat)
    requires
        is_plain_dir(dir),
        are_plain_names(names),
        1 <= names.len() <= levels,
        searched(descended(dir, names), (levels - 1) as nat),
    ensures
        candidates_above(parent_dir(descended(dir, names)), levels).len() >= names.len(),
        candidates_above(parent_dir(descended(dir, names)), levels)[names.len() - 1] == joined(
            dir,
            state_file(),
        ),
    decreases names.len(),
{
    lemma_parent_of_descended(dir, names);
    if names.len() > 1 {
        lemma_search_reaches(dir, names.drop_last(), (levels - 1) as nat);
    }
}

/// The parent of a path that plain names lead to is the path that all but the
/// last of them lead to.
proof fn lemma_parent_of_descended(dir: Seq<char>, names: Seq<Seq<char>>)
    requires
        is_plain_dir(dir),
        are_plain_names(names),
        names.len() > 0,
        is_parent_of_entry(descended(dir, names), parent_dir(descended(dir, names))),
    ensures
        parent_dir(descended(dir, names)) == Some(descended(dir, names.drop_last())),
        are_plain_names(names.drop_last()),
{
    let up = descended(dir, names.drop_last());
    assert forall|i: int| 0 <= i < names.drop_last().len() implies is_entry_name(
        #[trigger] names.drop_last()[i],
    ) && names.drop_last()[i].last() != '.' by {
        assert(names.drop_last()[i] == names[i]);
    }
    lemma_descended_is_plain(dir, names.drop_last());
    assert(is_entry_name(names[names.len() - 1]));
    assert(descended(dir, names) == joined(up, names.last()));
}

/// The state files above a library that plain names lead to from a directory
/// without a parent, the closest first and `levels` of them at most: the search
/// ends at that directory.
pub open spec fn plain_candidates(
    dir: Seq<char>,
    names: Seq<Seq<char>>,
    levels: nat,
) -> Seq<Seq<char>> {
    Seq::new(
        if names.len() < levels {
            names.len()
        } else {
            levels
        },
        |i: int| joined(descended(dir, names.take(names.len() - 1 - i)), state_file()),
    )
}

/// What is claimed of the search for a library: where plain names lead to it, its
/// candidates are those of these names.
pub open spec fn is_plainly_searched(lib: Seq<char>) -> bool {
    forall|dir: Seq<char>, names: Seq<Seq<char>>|
        #![trigger descended(dir, names)]
        lib == descended(dir, names) && is_top(dir) && are_plain_names(names)
            ==> candidates_around(lib) == plain_candidates(dir, names, SEARCH_LEVELS as nat)
}

/// A search upwards from a path that plain names lead to.
proof fn lemma_plain_search(dir: Seq<char>, names: Seq<Seq<char>>, levels: nat)
    requires
        is_top(dir),
        are_plain_names(names),
        levels > 0 ==> searched(descended(dir, names), (levels - 1) as nat),
    ensures
        candidates_above(parent_dir(descended(dir, names)), levels) == plain_candidates(
            dir,
            names,
            levels,
        ),
    decreases names.len(),
{
    if names.len() > 0 && levels > 0 {
        let shorter = names.drop_last();
        lemma_parent_of_descended(dir, names);
        lemma_plain_search(dir, shorter, (levels - 1) as nat);
        assert(names.take(names.len() - 1) == shorter);
        assert forall|i: int| 0 <= i < shorter.len() implies #[trigger] shorter.take(i)
            == names.take(i) by {}
    }
}

/// Every state file that a library at `lib` may have, walking up from it.
///
/// Where one to five plain names lead from a directory to the library, the state
/// file of that directory is the candidate with the number of these names: the
/// first for a library that lies in the directory, the fourth for the binary in
/// a bundle that does. Where all names on the way from the root, or from where a
/// relative path begins, are plain, the candidates are fixed: the search ends
/// there.
pub fn state_candidates_around(lib: &str) -> (paths: Vec<String>)
    ensures
        texts(paths@) == candidates_around(lib@),
        paths.len() <= SEARCH_LEVELS,
        forall|dir: Seq<char>, names: Seq<Seq<char>>|
            #![trigger descended(dir, names)]
            lib@ == descended(dir, names) && is_plain_dir(dir) && are_plain_names(names) && 1
                <= names.len() <= SEARCH_LEVELS ==> names.len() <= paths.len() && paths@[names.len()
                - 1]@ == joined(dir, state_file()),
        is_plainly_searched(lib@),
{
    let mut out: Vec<String> = Vec::new();
    let mut dir = path_parent(lib);
    let mut level: usize = 0;
    while level < SEARCH_LEVELS
        invariant_except_break
            level <= SEARCH_LEVELS,
            out.len() == level,
            candidates_around(lib@) == texts(out@) + candidates_above(
                text_of(dir),
                (SEARCH_LEVELS - level) as nat,
            ),
            to_search(text_of(dir), level as int) ==> searched(lib@, (SEARCH_LEVELS - 1) as nat),
        ensures
            out.len() <= SEARCH_LEVELS,
            candidates_around(lib@) == texts(out@),
            searched(lib@, (SEARCH_LEVELS - 1) as nat),
        decreases SEARCH_LEVELS - level,
    {
        match dir {
            Some(d) => {
                let ghost before = out@;
                out.push(join(d.as_str(), "poryaaaa_state.json"));
                assert(texts(out@) == texts(before).push(joined(d@, state_file())));
                dir = path_parent(d.as_str());
            },
            None => {
                break;
            },
        }
        level += 1;
    }
    proof {
        assert forall|dir: Seq<char>, names: Seq<Seq<char>>|
            #![trigger descended(dir, names)]
            lib@ == descended(dir, names) && is_plain_dir(dir) && are_plain_names(names) && 1
                <= names.len() <= SEARCH_LEVELS implies names.len() <= out.len() && out@[names.len()
            - 1]@ == joined(dir, state_file()) by {
            lemma_search_reaches(dir, names, SEARCH_LEVELS as nat);
            assert(texts(out@)[names.len() - 1] == out@[names.len() - 1]@);
        }
        assert forall|dir: Seq<char>, names: Seq<Seq<char>>|
            #![trigger descended(dir, names)]
            lib@ == descended(dir, names) && is_top(dir) && are_plain_names(
                names,
            ) implies candidates_around(lib@) == plain_candidates(
            dir,
            names,
            SEARCH_LEVELS as nat,
        ) by {
            lemma_plain_search(dir, names, SEARCH_LEVELS as nat);
        }
    }
    out
}

/// Platforms with a known home-relative VST3 plugin directory.
#[derive(Debug, Copy, Clone, PartialEq, Eq, Structural)]
pub enum Platform {
    MacOs,
    Linux,
}

/// The user's VST3 plugin directory, relative to the home directory.
pub open spec fn vst3_dir(platform: Platform) -> Seq<char> {
    match platform {
        Platform::MacOs => "Library/Audio/Plug-Ins/VST3"@,
        Platform::Linux => ".vst3"@,
    }
}

/// The user's VST3 plugin directory, where plugins are installed.
pub fn user_vst3_plugin_dir(platform: Platform, home: &str) -> (dir: String)
    ensures
        dir@ == joined(home@, vst3_dir(platform)),
{
    match platform {
        Platform::MacOs => join(home, "Library/Audio/Plug-Ins/VST3"),
        Platform::Linux => join(home, ".vst3"),
    }
}

/// The state file in the user's VST3 plugin directory.
pub fn fallback_state_path(platform: Platform, home: &str) -> (path: String)
    ensures
        path@ == joined(joined(home@, vst3_dir(platform)), state_file()),
{
    join(user_vst3_plugin_dir(platform, home).as_str(), "poryaaaa_state.json")
}

/// Whether two paths are equal as `Path`s in Unix syntax.
pub uninterp spec fn paths_equal(a: Seq<char>, b: Seq<char>) -> bool;

/// A path without repeated slashes, without a slash at its end unless it is the
/// root, and without a component that is a dot.
pub open spec fn is_tidy(path: Seq<char>) -> bool {
    &&& path.len() > 1 ==> path.last() != '/'
    &&& forall|i: int|
        0 < i < path.len() ==> !(path[i - 1] == '/' && #[trigger] path[i] == '/')
    &&& forall|i: int|
        0 <= i < path.len() && #[trigger] path[i] == '.' ==> {
            ||| i > 0 && path[i - 1] != '/'
            ||| i + 1 < path.len() && path[i + 1] != '/'
        }
}

/// `==` on `Path`s, on a Unix target, where the result is a function of the two
/// paths. Comparing disregards repeated slashes, a slash at the end and dot
/// components, so it is claimed that a path equals itself, and that two paths
/// which have none of these are equal only where their texts are; which paths are
/// equal though their texts differ is left unsaid.
#[verifier::external_body]
fn same_path(a: &str, b: &str) -> (same: bool)
    ensures
        same == paths_equal(a@, b@),
        a@ == b@ ==> same,
        is_tidy(a@) && is_tidy(b@) && same ==> a@ == b@,
{
    std::path::Path::new(a) == std::path::Path::new(b)
}

/// Whether a path equals one of those that are kept.
pub open spec fn is_kept(path: Seq<char>, kept: Seq<Seq<char>>) -> bool {
    exists|i: int| 0 <= i < kept.len() && #[trigger] paths_equal(path, kept[i])
}

/// A list of paths without those that equal an earlier one, in the same order.
pub open spec fn first_occurrences(paths: Seq<Seq<char>>) -> Seq<Seq<char>>
    decreases paths.len(),
{
    if paths.len() == 0 {
        seq![]
    } else {
        let kept = first_occurrences(paths.drop_last());
        if is_kept(paths.last(), kept) {
            kept
        } else {
            kept.push(paths.last())
        }
    }
}

/// All paths of a list are tidy.
pub open spec fn all_tidy(paths: Seq<Seq<char>>) -> bool {
    forall|i: int| 0 <= i < paths.len() ==> is_tidy(#[trigger] paths[i])
}

/// A list of texts without those that stood in it before, in the same order.
pub open spec fn distinct(paths: Seq<Seq<char>>) -> Seq<Seq<char>>
    decreases paths.len(),
{
    if paths.len() == 0 {
        seq![]
    } else {
        let kept = distinct(paths.drop_last());
        if kept.contains(paths.last()) {
            kept
        } else {
            kept.push(paths.last())
        }
    }
}

/// What is kept of a list of tidy paths is tidy.
proof fn lemma_distinct_is_tidy(paths: Seq<Seq<char>>)
    requires
        all_tidy(paths),
    ensures
        all_tidy(distinct(paths)),
    decreases paths.len(),
{
    if paths.len() > 0 {
        let before = paths.drop_last();
        assert forall|i: int| 0 <= i < before.len() implies is_tidy(#[trigger] before[i]) by {
            assert(before[i] == paths[i]);
        }
        lemma_distinct_is_tidy(before);
        assert(is_tidy(paths[paths.len() - 1]));
    }
}

/// A path is in a list, or equals one that is.
pub open spec fn is_represented(path: Seq<char>, list: Seq<Seq<char>>) -> bool {
    list.contains(path) || is_kept(path, list)
}

/// A path equals none of those around the library and its canonical path.
pub open spec fn is_apart(
    path: Seq<char>,
    lib: Option<Seq<char>>,
    canonical: Option<Seq<char>>,
) -> bool {
    &&& lib matches Some(l) ==> forall|k: int|
        0 <= k < candidates_around(l).len() ==> !paths_equal(
            path,
            #[trigger] candidates_around(l)[k],
        )
    &&& (lib, canonical) matches (Some(l), Some(c)) ==> forall|k: int|
        0 <= k < candidates_around(c).len() ==> !paths_equal(
            path,
            #[trigger] candidates_around(c)[k],
        )
}

/// The contents of an optional borrowed text.
pub open spec fn str_of(text: Option<&str>) -> Option<Seq<char>> {
    match text {
        Some(s) => Some(s@),
        None => None,
    }
}

/// Every place to look, in order of priority: around the library, around its
/// canonical path where that is another, and the fallback.
pub open spec fn places_to_look(
    lib: Option<Seq<char>>,
    canonical: Option<Seq<char>>,
    fallback: Option<Seq<char>>,
) -> Seq<Seq<char>> {
    let around_lib = match lib {
        Some(l) => candidates_around(l),
        None => seq![],
    };
    let around_canonical = match (lib, canonical) {
        (Some(l), Some(c)) => if paths_equal(c, l) {
            seq![]
        } else {
            candidates_around(c)
        },
        _ => seq![],
    };
    let last = match fallback {
        Some(f) => seq![f],
        None => seq![],
    };
    around_lib + around_canonical + last
}

/// Whether a path equals one of those in a list.
fn is_among(path: &str, kept: &Vec<String>) -> (r: bool)
    ensures
        r == is_kept(path@, texts(kept@)),
        !r ==> !texts(kept@).contains(path@),
        is_tidy(path@) && all_tidy(texts(kept@)) ==> r == texts(kept@).contains(path@),
{
    let mut i: usize = 0;
    while i < kept.len()
        invariant
            i <= kept.len(),
            forall|k: int|
                0 <= k < i ==> !paths_equal(path@, #[trigger] texts(kept@)[k]) && path@ != texts(
                    kept@,
                )[k],
        decreases kept.len() - i,
    {
        assert(texts(kept@)[i as int] == kept@[i as int]@);
        if same_path(path, kept[i].as_str()) {
            return true;
        }
        i += 1;
    }
    false
}

/// Append the paths of `more` that do not equal one that is there already.
fn append_first_occurrences(
    out: &mut Vec<String>,
    more: &Vec<String>,
    Ghost(seen): Ghost<Seq<Seq<char>>>,
)
    requires
        texts(old(out)@) == first_occurrences(seen),
        texts(old(out)@).no_duplicates(),
        all_tidy(seen) ==> texts(old(out)@) == distinct(seen),
    ensures
        texts(final(out)@) == first_occurrences(seen + texts(more@)),
        texts(final(out)@).no_duplicates(),
        all_tidy(seen + texts(more@)) ==> texts(final(out)@) == distinct(seen + texts(more@)),
{
    let mut i: usize = 0;
    assert(seen + texts(more@).take(0) == seen);
    while i < more.len()
        invariant
            i <= more.len(),
            texts(out@) == first_occurrences(seen + texts(more@).take(i as int)),
            texts(out@).no_duplicates(),
            all_tidy(seen + texts(more@).take(i as int)) ==> texts(out@) == distinct(
                seen + texts(more@).take(i as int),
            ),
        decreases more.len() - i,
    {
        let ghost all = seen + texts(more@).take(i + 1);
        let ghost before = out@;
        assert(all.drop_last() == seen + texts(more@).take(i as int));
        assert(all.last() == more@[i as int]@);
        proof {
            if all_tidy(all) {
                assert forall|k: int| 0 <= k < all.len() - 1 implies is_tidy(
                    #[trigger] all.drop_last()[k],
                ) by {
                    assert(all.drop_last()[k] == all[k]);
                }
                lemma_distinct_is_tidy(all.drop_last());
                assert(is_tidy(all[all.len() - 1]));
            }
        }
        if !is_among(more[i].as_str(), out) {
            out.push(more[i].clone());
            assert(texts(out@) == texts(before).push(more@[i as int]@));
        }
        i += 1;
    }
    assert(texts(more@).take(i as int) == texts(more@));
}

/// Every place to look for the state file, in order of priority, given the path
/// of the loaded library, its canonical path and the fallback, as far as they
/// are known. The canonical path counts only beside the path itself. A path that
/// equals an earlier one is left out.
///
/// Where the candidates are tidy paths, which are equal are those with the same
/// text, and likewise for the library's path and its canonical path; and where
/// plain names lead to a library, the candidates around it are fixed.
pub fn candidate_state_paths(
    lib: Option<&str>,
    canonical: Option<&str>,
    fallback: Option<&str>,
) -> (paths: Vec<String>)
    ensures
        texts(paths@) == first_occurrences(
            places_to_look(str_of(lib), str_of(canonical), str_of(fallback)),
        ),
        texts(paths@).no_duplicates(),
        all_tidy(places_to_look(str_of(lib), str_of(canonical), str_of(fallback))) ==> texts(paths@)
            == distinct(places_to_look(str_of(lib), str_of(canonical), str_of(fallback))),
        lib matches Some(l) ==> {
            &&& is_plainly_searched(l@)
            &&& canonical matches Some(c) ==> {
                &&& c@ == l@ ==> paths_equal(c@, l@)
                &&& c@ != l@ && is_tidy(c@) && is_tidy(l@) ==> !paths_equal(c@, l@)
                &&& paths_equal(c@, l@) || is_plainly_searched(c@)
            }
        },
        fallback matches Some(f) ==> exists|i: int|
            0 <= i < paths@.len() && (f@ == (#[trigger] paths@[i])@ || paths_equal(
                f@,
                paths@[i]@,
            )),
        fallback matches Some(f) ==> is_apart(f@, str_of(lib), str_of(canonical)) ==> paths@.len()
            > 0 && paths@.last()@ == f@,
        lib matches Some(l) ==> forall|k: int|
            0 <= k < candidates_around(l@).len() ==> is_represented(
                #[trigger] candidates_around(l@)[k],
                texts(paths@),
            ),
        (lib, canonical) matches (Some(l), Some(c)) ==> !paths_equal(c@, l@) ==> forall|k: int|
            0 <= k < candidates_around(c@).len() ==> is_represented(
                #[trigger] candidates_around(c@)[k],
                texts(paths@),
            ),
{
    let mut out: Vec<String> = Vec::new();
    let ghost mut seen: Seq<Seq<char>> = seq![];
    assert(texts(out@) == first_occurrences(seen));
    assert(texts(out@) == distinct(seen));
    if let Some(l) = lib {
        let around = state_candidates_around(l);
        append_first_occurrences(&mut out, &around, Ghost(seen));
        proof {
            seen = seen + candidates_around(l@);
        }
        if let Some(c) = canonical {
            if !same_path(c, l) {
                let around = state_candidates_around(c);
                append_first_occurrences(&mut out, &around, Ghost(seen));
                proof {
                    seen = seen + candidates_around(c@);
                }
            }
        }
    }
    if let Some(f) = fallback {
        let mut last: Vec<String> = Vec::new();
        last.push(f.to_owned());
        assert(texts(last@) == seq![f@]);
        append_first_occurrences(&mut out, &last, Ghost(seen));
        proof {
            seen = seen + seq![f@];
        }
    }
    assert(seen == places_to_look(str_of(lib), str_of(canonical), str_of(fallback)));
    proof {
        law_every_place_is_looked_at(str_of(lib), str_of(canonical), str_of(fallback));
        let list = texts(out@);
        if let Some(f) = fallback {
            if list.contains(f@) {
                let i = choose|i: int| 0 <= i < list.len() && list[i] == f@;
                assert(out@[i]@ == f@);
            } else {
                let i = choose|i: int| 0 <= i < list.len() && paths_equal(f@, list[i]);
                assert(out@[i]@ == list[i]);
            }
            if is_apart(f@, str_of(lib), str_of(canonical)) {
                assert(out@.last()@ == list.last());
            }
        }
    }
    out
}

/// The first path that is on disk, if one is.
pub open spec fn first_on_disk(paths: Seq<Seq<char>>, on_disk: Seq<bool>) -> Option<Seq<char>>
    decreases paths.len(),
{
    if paths.len() == 0 {
        None
    } else if on_disk[0] {
        Some(paths[0])
    } else {
        first_on_disk(paths.drop_first(), on_disk.drop_first())
    }
}

/// The first path that is on disk, or else the first path, so that there is a
/// place to tell of.
pub open spec fn chosen(paths: Seq<Seq<char>>, on_disk: Seq<bool>) -> Option<Seq<char>> {
    match first_on_disk(paths, on_disk) {
        Some(path) => Some(path),
        None => if paths.len() > 0 {
            Some(paths[0])
        } else {
            None
        },
    }
}

/// Where the state file is: at the override, if there is one, else at the first
/// candidate that is on disk, else at the first candidate. `on_disk` says of
/// each candidate whether it exists.
pub fn resolve_state_path(
    override_path: Option<&str>,
    candidates: &Vec<String>,
    on_disk: &Vec<bool>,
) -> (path: Option<String>)
    requires
        candidates.len() == on_disk.len(),
    ensures
        text_of(path) == match override_path {
            Some(o) => Some(o@),
            None => chosen(texts(candidates@), on_disk@),
        },
        override_path matches Some(o) ==> path matches Some(p) && p@ == o@,
        override_path is None ==> (path is None <==> candidates@.len() == 0),
        override_path is None ==> forall|i: int|
            0 <= i < candidates@.len() && #[trigger] on_disk@[i] && (forall|k: int|
                0 <= k < i ==> !#[trigger] on_disk@[k]) ==> (path matches Some(p) && p@
                == candidates@[i]@),
{
    if let Some(o) = override_path {
        return Some(o.to_owned());
    }
    let ghost paths = texts(candidates@);
    proof {
        assert forall|i: int|
            0 <= i < candidates@.len() && #[trigger] on_disk@[i] && (forall|k: int|
                0 <= k < i ==> !#[trigger] on_disk@[k]) implies chosen(paths, on_disk@) == Some(
            candidates@[i]@,
        ) by {
            law_the_first_on_disk_is_chosen(paths, on_disk@, i);
        }
    }
    assert(paths.skip(0) == paths);
    assert(on_disk@.skip(0) == on_disk@);
    let mut i: usize = 0;
    while i < candidates.len()
        invariant
            i <= candidates.len() == on_disk.len(),
            override_path is None,
            paths == texts(candidates@),
            forall|i: int|
                0 <= i < candidates@.len() && #[trigger] on_disk@[i] && (forall|k: int|
                    0 <= k < i ==> !#[trigger] on_disk@[k]) ==> chosen(paths, on_disk@) == Some(
                    candidates@[i]@,
                ),
            first_on_disk(paths, on_disk@) == first_on_disk(
                paths.skip(i as int),
                on_disk@.skip(i as int),
            ),
        decreases candidates.len() - i,
    {
        assert(paths.skip(i as int)[0] == candidates@[i as int]@);
        assert(on_disk@.skip(i as int)[0] == on_disk@[i as int]);
        if on_disk[i] {
            return Some(candidates[i].clone());
        }
        assert(paths.skip(i as int).drop_first() == paths.skip(i + 1));
        assert(on_disk@.skip(i as int).drop_first() == on_disk@.skip(i + 1));
        i += 1;
    }
    if candidates.len() > 0 {
        Some(candidates[0].clone())
    } else {
        None
    }
}

/// Whether each path is on disk.
pub open spec fn presence(paths: Seq<Seq<char>>, on_disk: spec_fn(Seq<char>) -> bool) -> Seq<bool> {
    Seq::new(paths.len(), |i: int| on_disk(paths[i]))
}

/// The first path on disk of a longer list is that of the shorter one, or else
/// the added path, if that is on disk.
proof fn lemma_first_on_disk_push(
    paths: Seq<Seq<char>>,
    path: Seq<char>,
    on_disk: spec_fn(Seq<char>) -> bool,
)
    ensures
        first_on_disk(paths.push(path), presence(paths.push(path), on_disk)) == match first_on_disk(
            paths,
            presence(paths, on_disk),
        ) {
            Some(p) => Some(p),
            None => if on_disk(path) {
                Some(path)
            } else {
                None
            },
        },
    decreases paths.len(),
{
    let longer = paths.push(path);
    assert(presence(longer, on_disk).drop_first() == presence(longer.drop_first(), on_disk));
    if paths.len() > 0 {
        lemma_first_on_disk_push(paths.drop_first(), path, on_disk);
        assert(longer.drop_first() == paths.drop_first().push(path));
        assert(presence(paths, on_disk).drop_first() == presence(paths.drop_first(), on_disk));
    } else {
        assert(longer.drop_first() == paths);
    }
}

/// No two paths that are kept are equal.
pub proof fn law_no_path_is_kept_twice(paths: Seq<Seq<char>>, i: int, j: int)
    requires
        0 <= i < j < first_occurrences(paths).len(),
    ensures
        !paths_equal(first_occurrences(paths)[j], first_occurrences(paths)[i]),
    decreases paths.len(),
{
    let kept = first_occurrences(paths.drop_last());
    if j < kept.len() {
        law_no_path_is_kept_twice(paths.drop_last(), i, j);
    }
}

/// Every path of a list is kept, or equals one that is, and nothing else is kept.
pub proof fn law_every_path_is_represented(paths: Seq<Seq<char>>, path: Seq<char>)
    ensures
        paths.contains(path) ==> first_occurrences(paths).contains(path) || exists|i: int|
            0 <= i < first_occurrences(paths).len() && #[trigger] paths_equal(
                path,
                first_occurrences(paths)[i],
            ),
        first_occurrences(paths).contains(path) ==> paths.contains(path),
    decreases paths.len(),
{
    if paths.len() > 0 {
        let before = paths.drop_last();
        let kept = first_occurrences(before);
        let all = first_occurrences(paths);
        law_every_path_is_represented(before, path);
        assert(before.push(paths.last()) == paths);
        assert(forall|i: int| 0 <= i < kept.len() ==> kept[i] == #[trigger] all[i]);
        if paths.contains(path) && path != paths.last() {
            let i = choose|i: int| 0 <= i < paths.len() && paths[i] == path;
            assert(before[i] == path);
            if kept.contains(path) {
                let k = choose|k: int| 0 <= k < kept.len() && kept[k] == path;
                assert(all[k] == path);
            } else {
                let k = choose|k: int| 0 <= k < kept.len() && paths_equal(path, kept[k]);
                assert(paths_equal(path, all[k]));
            }
        }
        if paths.contains(path) && path == paths.last() && !is_kept(path, kept) {
            assert(all[kept.len() as int] == path);
        }
        if all.contains(path) {
            let k = choose|k: int| 0 <= k < all.len() && all[k] == path;
            if k < kept.len() {
                assert(kept[k] == path);
                let i = choose|i: int| 0 <= i < before.len() && before[i] == path;
                assert(paths[i] == path);
            } else {
                assert(paths[paths.len() - 1] == path);
            }
        }
    }
}

/// The order is kept: what is kept of the beginning of a list is the beginning
/// of what is kept of the list.
pub proof fn law_order_is_kept(paths: Seq<Seq<char>>, n: int)
    requires
        0 <= n <= paths.len(),
    ensures
        first_occurrences(paths.take(n)).is_prefix_of(first_occurrences(paths)),
    decreases paths.len(),
{
    if n < paths.len() {
        law_order_is_kept(paths.drop_last(), n);
        assert(paths.drop_last().take(n) == paths.take(n));
    } else {
        assert(paths.take(n) == paths);
    }
}

/// Leaving out repeated candidates does not change which path is chosen, where
/// equal paths are on disk together.
pub proof fn law_repeats_do_not_matter(
    paths: Seq<Seq<char>>,
    on_disk: spec_fn(Seq<char>) -> bool,
)
    requires
        forall|a: Seq<char>, b: Seq<char>|
            #[trigger] paths_equal(a, b) ==> on_disk(a) == on_disk(b),
    ensures
        chosen(first_occurrences(paths), presence(first_occurrences(paths), on_disk)) == chosen(
            paths,
            presence(paths, on_disk),
        ),
{
    lemma_repeats_do_not_matter(paths, on_disk);
}

proof fn lemma_repeats_do_not_matter(
    paths: Seq<Seq<char>>,
    on_disk: spec_fn(Seq<char>) -> bool,
)
    requires
        forall|a: Seq<char>, b: Seq<char>|
            #[trigger] paths_equal(a, b) ==> on_disk(a) == on_disk(b),
    ensures
        ({
            let kept = first_occurrences(paths);
            &&& first_on_disk(kept, presence(kept, on_disk)) == first_on_disk(
                paths,
                presence(paths, on_disk),
            )
            &&& kept.len() > 0 <==> paths.len() > 0
            &&& paths.len() > 0 ==> kept[0] == paths[0]
        }),
    decreases paths.len(),
{
    if paths.len() > 0 {
        let before = paths.drop_last();
        let path = paths.last();
        let kept = first_occurrences(before);
        lemma_repeats_do_not_matter(before, on_disk);
        assert(before.push(path) == paths);
        lemma_first_on_disk_push(before, path, on_disk);
        if is_kept(path, kept) {
            lemma_first_on_disk(kept, on_disk);
        } else {
            lemma_first_on_disk_push(kept, path, on_disk);
        }
    }
}

/// The chosen path is one of the candidates, there is one as soon as there are
/// candidates, and it is on disk if any candidate is.
pub proof fn law_choice_is_a_candidate(
    paths: Seq<Seq<char>>,
    on_disk: spec_fn(Seq<char>) -> bool,
)
    ensures
        chosen(paths, presence(paths, on_disk)) is None <==> paths.len() == 0,
        chosen(paths, presence(paths, on_disk)) matches Some(p) ==> {
            &&& paths.contains(p)
            &&& on_disk(p) <==> exists|i: int| 0 <= i < paths.len() && on_disk(#[trigger] paths[i])
        },
{
    lemma_first_on_disk(paths, on_disk);
    if paths.len() > 0 {
        assert(paths.contains(paths[0]));
    }
}

proof fn lemma_first_on_disk(paths: Seq<Seq<char>>, on_disk: spec_fn(Seq<char>) -> bool)
    ensures
        match first_on_disk(paths, presence(paths, on_disk)) {
            Some(p) => paths.contains(p) && on_disk(p),
            None => forall|i: int| 0 <= i < paths.len() ==> !on_disk(#[trigger] paths[i]),
        },
    decreases paths.len(),
{
    if paths.len() > 0 {
        let rest = paths.drop_first();
        assert(presence(paths, on_disk).drop_first() == presence(rest, on_disk));
        lemma_first_on_disk(rest, on_disk);
        assert(paths.contains(paths[0]));
        if !on_disk(paths[0]) {
            match first_on_disk(rest, presence(rest, on_disk)) {
                Some(p) => {
                    let i = choose|i: int| 0 <= i < rest.len() && rest[i] == p;
                    assert(paths[i + 1] == p);
                },
                None => {
                    assert forall|i: int| 0 <= i < paths.len() implies !on_disk(
                        #[trigger] paths[i],
                    ) by {
                        if i > 0 {
                            assert(rest[i - 1] == paths[i]);
                        }
                    }
                },
            }
        }
    }
}

/// Every place is looked at, for every library, canonical path and fallback: what
/// is around the library, then what is around its canonical path where that is
/// another path, and then the fallback. Each of these is in the list of candidates
/// or equals one that is; the fallback is the last, unless it equals one that is
/// around them; and the list begins with what the library alone gives, and then
/// with what the library and its canonical path give.
pub proof fn law_every_place_is_looked_at(
    lib: Option<Seq<char>>,
    canonical: Option<Seq<char>>,
    fallback: Option<Seq<char>>,
)
    ensures
        ({
            let list = first_occurrences(places_to_look(lib, canonical, fallback));
            &&& fallback matches Some(f) ==> list.contains(f) || exists|i: int|
                0 <= i < list.len() && #[trigger] paths_equal(f, list[i])
            &&& fallback matches Some(f) ==> {
                let apart = {
                    &&& lib matches Some(l) ==> forall|k: int|
                        0 <= k < candidates_around(l).len() ==> !paths_equal(
                            f,
                            #[trigger] candidates_around(l)[k],
                        )
                    &&& (lib, canonical) matches (Some(l), Some(c)) ==> forall|k: int|
                        0 <= k < candidates_around(c).len() ==> !paths_equal(
                            f,
                            #[trigger] candidates_around(c)[k],
                        )
                };
                apart ==> list.len() > 0 && list.last() == f
            }
            &&& lib matches Some(l) ==> {
                let around = candidates_around(l);
                &&& forall|k: int|
                    0 <= k < around.len() ==> list.contains(#[trigger] around[k]) || exists|i: int|
                        0 <= i < list.len() && #[trigger] paths_equal(around[k], list[i])
                &&& first_occurrences(around).is_prefix_of(list)
                &&& canonical matches Some(c) ==> !paths_equal(c, l) ==> {
                    let further = candidates_around(c);
                    &&& forall|k: int|
                        0 <= k < further.len() ==> list.contains(#[trigger] further[k])
                            || exists|i: int|
                            0 <= i < list.len() && #[trigger] paths_equal(further[k], list[i])
                    &&& first_occurrences(around + further).is_prefix_of(list)
                }
            }
        }),
{
    let places = places_to_look(lib, canonical, fallback);
    let list = first_occurrences(places);
    if let Some(f) = fallback {
        assert(places[places.len() - 1] == f);
        law_every_path_is_represented(places, f);
        let kept = first_occurrences(places.drop_last());
        if is_apart(f, lib, canonical) && is_kept(f, kept) {
            let i = choose|i: int| 0 <= i < kept.len() && paths_equal(f, kept[i]);
            assert(kept.contains(kept[i]));
            assert(places.drop_last() == places_to_look(lib, canonical, None));
            law_no_other_place_is_looked_at(lib, canonical, None, kept[i]);
            if let Some(l) = lib {
                let around = candidates_around(l);
                if around.contains(kept[i]) {
                    let k = choose|k: int| 0 <= k < around.len() && around[k] == kept[i];
                    assert(!paths_equal(f, around[k]));
                }
                if let Some(c) = canonical {
                    let further = candidates_around(c);
                    if further.contains(kept[i]) {
                        let k = choose|k: int| 0 <= k < further.len() && further[k] == kept[i];
                        assert(!paths_equal(f, further[k]));
                    }
                }
            }
        }
    }
    if let Some(l) = lib {
        let around = candidates_around(l);
        assert(places.take(around.len() as int) == around);
        law_order_is_kept(places, around.len() as int);
        assert forall|k: int| 0 <= k < around.len() implies is_represented(
            #[trigger] around[k],
            list,
        ) by {
            assert(places[k] == around[k]);
            law_every_path_is_represented(places, around[k]);
        }
        if let Some(c) = canonical {
            if !paths_equal(c, l) {
                let further = candidates_around(c);
                let both = around + further;
                assert(places.take(both.len() as int) == both);
                law_order_is_kept(places, both.len() as int);
                assert forall|k: int| 0 <= k < further.len() implies is_represented(
                    #[trigger] further[k],
                    list,
                ) by {
                    assert(places[around.len() + k] == further[k]);
                    law_every_path_is_represented(places, further[k]);
                }
            }
        }
    }
}

/// Nothing else is looked at.
pub proof fn law_no_other_place_is_looked_at(
    lib: Option<Seq<char>>,
    canonical: Option<Seq<char>>,
    fallback: Option<Seq<char>>,
    path: Seq<char>,
)
    requires
        first_occurrences(places_to_look(lib, canonical, fallback)).contains(path),
    ensures
        ({
            ||| fallback == Some(path)
            ||| lib matches Some(l) && candidates_around(l).contains(path)
            ||| (lib, canonical) matches (Some(l), Some(c)) && !paths_equal(c, l)
                && candidates_around(c).contains(path)
        }),
{
    let places = places_to_look(lib, canonical, fallback);
    law_every_path_is_represented(places, path);
    let i = choose|i: int| 0 <= i < places.len() && places[i] == path;
    if let Some(l) = lib {
        let around = candidates_around(l);
        if i < around.len() {
            assert(around[i] == path);
        } else if let Some(c) = canonical {
            let further = candidates_around(c);
            if !paths_equal(c, l) && i < around.len() + further.len() {
                assert(further[i - around.len()] == path);
            }
        }
    }
}

/// The directory that lies `n` directories above `dir`, if there is one.
pub open spec fn directory_above(dir: Option<Seq<char>>, n: nat) -> Option<Seq<char>>
    decreases n,
{
    if n == 0 {
        dir
    } else {
        match directory_above(dir, (n - 1) as nat) {
            Some(d) => parent_dir(d),
            None => None,
        }
    }
}

/// Going up from the parent is going up one more.
proof fn lemma_one_more_above(dir: Seq<char>, n: nat)
    ensures
        directory_above(parent_dir(dir), n) == directory_above(Some(dir), n + 1),
    decreases n,
{
    reveal_with_fuel(directory_above, 2);
    if n > 0 {
        lemma_one_more_above(dir, (n - 1) as nat);
    }
}

/// The candidates are the state files of the directories above.
proof fn lemma_candidates_above(dir: Option<Seq<char>>, levels: nat, i: int)
    requires
        0 <= i,
    ensures
        candidates_above(dir, levels).len() <= levels,
        i < candidates_above(dir, levels).len() <==> i < levels && directory_above(
            dir,
            i as nat,
        ) is Some,
        i < candidates_above(dir, levels).len() ==> candidates_above(dir, levels)[i] == joined(
            directory_above(dir, i as nat)->0,
            "poryaaaa_state.json"@,
        ),
    decreases levels,
{
    match dir {
        Some(d) => {
            if levels > 0 {
                let rest = (levels - 1) as nat;
                lemma_candidates_above(parent_dir(d), rest, if i == 0 {
                    0
                } else {
                    i - 1
                });
                if i > 0 {
                    lemma_one_more_above(d, (i - 1) as nat);
                }
            }
        },
        None => {
            lemma_nothing_above(i as nat);
        },
    }
}

/// Above nothing there is nothing.
proof fn lemma_nothing_above(n: nat)
    ensures
        directory_above(None, n) is None,
    decreases n,
{
    if n > 0 {
        lemma_nothing_above((n - 1) as nat);
    }
}

/// The candidates around a library are the files `poryaaaa_state.json` in the
/// directories above it, from its own directory upwards, as far as there are
/// directories and five of them at most.
pub proof fn law_five_directories_are_searched(lib: Seq<char>, i: int)
    requires
        0 <= i,
    ensures
        candidates_around(lib).len() <= 5,
        i < candidates_around(lib).len() <==> i < 5 && directory_above(
            parent_dir(lib),
            i as nat,
        ) is Some,
        i < candidates_around(lib).len() ==> candidates_around(lib)[i] == joined(
            directory_above(parent_dir(lib), i as nat)->0,
            "poryaaaa_state.json"@,
        ),
{
    lemma_candidates_above(parent_dir(lib), 5, i);
}

/// A joined path is the name alone if that is absolute; otherwise it begins with
/// the directory and ends with the name, with one slash between them unless the
/// directory is empty or ends in one.
pub proof fn law_what_joining_gives(dir: Seq<char>, name: Seq<char>)
    ensures
        ({
            let path = joined(dir, name);
            let slash: int = if dir.len() == 0 || dir[dir.len() - 1] == '/' {
                0
            } else {
                1
            };
            if name.len() > 0 && name[0] == '/' {
                path == name
            } else {
                &&& path.len() == dir.len() + slash + name.len()
                &&& path.take(dir.len() as int) == dir
                &&& path.skip(dir.len() + slash) == name
                &&& slash == 1 ==> path[dir.len() as int] == '/'
            }
        }),
{
    let path = joined(dir, name);
    if !(name.len() > 0 && name[0] == '/') {
        assert(path.take(dir.len() as int) =~= dir);
        assert(path.skip(path.len() - name.len()) =~= name);
    }
}

/// The first candidate on disk is chosen; where none is, the first candidate.
pub proof fn law_the_first_on_disk_is_chosen(paths: Seq<Seq<char>>, on_disk: Seq<bool>, i: int)
    requires
        paths.len() == on_disk.len(),
        0 <= i < paths.len(),
    ensures
        on_disk[i] && (forall|k: int| 0 <= k < i ==> !#[trigger] on_disk[k]) ==> chosen(
            paths,
            on_disk,
        ) == Some(paths[i]),
        (forall|k: int| 0 <= k < paths.len() ==> !#[trigger] on_disk[k]) ==> chosen(paths, on_disk)
            == Some(paths[0]),
{
    if forall|k: int| 0 <= k < i ==> !#[trigger] on_disk[k] {
        lemma_first_of_booleans(paths, on_disk, i);
    }
    if forall|k: int| 0 <= k < paths.len() ==> !#[trigger] on_disk[k] {
        lemma_first_of_booleans(paths, on_disk, paths.len() as int);
    }
}

proof fn lemma_first_of_booleans(paths: Seq<Seq<char>>, on_disk: Seq<bool>, i: int)
    requires
        paths.len() == on_disk.len(),
        0 <= i <= paths.len(),
        forall|k: int| 0 <= k < i ==> !#[trigger] on_disk[k],
    ensures
        i < paths.len() && on_disk[i] ==> first_on_disk(paths, on_disk) == Some(paths[i]),
        i == paths.len() ==> first_on_disk(paths, on_disk) is None,
    decreases i,
{
    if i > 0 {
        let rest = on_disk.drop_first();
        assert(!on_disk[0]);
        assert forall|k: int| 0 <= k < i - 1 implies !#[trigger] rest[k] by {
            assert(rest[k] == on_disk[k + 1]);
        }
        lemma_first_of_booleans(paths.drop_first(), rest, i - 1);
    }
}

/// Where plugins are installed, and what the state file is called.
pub proof fn law_known_places()
    ensures
        vst3_dir(Platform::MacOs) == "Library/Audio/Plug-Ins/VST3"@,
        vst3_dir(Platform::Linux) == ".vst3"@,
        state_file() == "poryaaaa_state.json"@,
{
}

/// Texts are taken one by one, in order.
pub proof fn law_texts_are_taken_in_order(list: Seq<String>, i: int)
    ensures
        texts(list).len() == list.len(),
        0 <= i < list.len() ==> texts(list)[i] == list[i]@,
{
}

/// An optional text is there exactly if it is there, and holds what it holds.
pub proof fn law_optional_texts(text: String, borrowed: &str)
    ensures
        text_of(Some(text)) == Some(text@),
        text_of(None) is None,
        str_of(Some(borrowed)) == Some(borrowed@),
        str_of(None) is None,
{
}

} // verus!
