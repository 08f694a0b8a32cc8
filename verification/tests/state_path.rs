use ccomidi::state_path::{
    candidate_state_paths, fallback_state_path, join, resolve_state_path, state_candidates_around,
    user_vst3_plugin_dir, Platform,
};

fn paths(list: &[&str]) -> Vec<String> {
    list.iter().map(|s| s.to_string()).collect()
}

#[test]
fn env_var_overrides_path_resolution() {
    let tmp = "/tmp/ccomidi-test-override.json";
    let resolved = resolve_state_path(Some(tmp), &paths(&["/a"]), &vec![true]).unwrap();
    assert_eq!(resolved, tmp);
}

#[test]
fn first_candidate_on_disk_wins() {
    let candidates = paths(&["/a", "/b", "/c"]);
    let resolved = resolve_state_path(None, &candidates, &vec![false, true, true]);
    assert_eq!(resolved.as_deref(), Some("/b"));
}

#[test]
fn first_candidate_is_named_when_none_exists() {
    let resolved = resolve_state_path(None, &paths(&["/a", "/b"]), &vec![false, false]);
    assert_eq!(resolved.as_deref(), Some("/a"));
    assert_eq!(resolve_state_path(None, &vec![], &vec![]), None);
}

#[test]
fn walks_up_five_levels() {
    assert_eq!(
        state_candidates_around("/a/b/c/d/e/f/lib.so"),
        paths(&[
            "/a/b/c/d/e/f/poryaaaa_state.json",
            "/a/b/c/d/e/poryaaaa_state.json",
            "/a/b/c/d/poryaaaa_state.json",
            "/a/b/c/poryaaaa_state.json",
            "/a/b/poryaaaa_state.json",
        ])
    );
}

#[test]
fn stops_at_the_root() {
    assert_eq!(
        state_candidates_around("/a/lib.so"),
        paths(&["/a/poryaaaa_state.json", "/poryaaaa_state.json"])
    );
    assert_eq!(
        state_candidates_around("a/lib.so"),
        paths(&["a/poryaaaa_state.json", "poryaaaa_state.json"])
    );
    assert_eq!(state_candidates_around("lib.so"), paths(&["poryaaaa_state.json"]));
    assert_eq!(state_candidates_around("/lib.so"), paths(&["/poryaaaa_state.json"]));
    assert!(state_candidates_around("/").is_empty());
    assert!(state_candidates_around("").is_empty());
}

#[test]
fn reaches_the_plugin_directory_from_a_library_and_from_a_bundle() {
    let flat = state_candidates_around("/home/u/.vst3/x.vst3");
    assert_eq!(flat[0], "/home/u/.vst3/poryaaaa_state.json");
    let bundle = state_candidates_around("/home/u/.vst3/x.vst3/Contents/MacOS/x");
    assert_eq!(bundle[3], "/home/u/.vst3/poryaaaa_state.json");
}

#[test]
fn parents_are_those_of_paths() {
    assert_eq!(
        state_candidates_around("/a//b/lib.so/"),
        paths(&["/a//b/poryaaaa_state.json", "/a/poryaaaa_state.json", "/poryaaaa_state.json"])
    );
}

#[test]
fn candidates_are_in_order_of_priority() {
    assert_eq!(
        candidate_state_paths(Some("/a/x.so"), Some("/b/x.so"), Some("/h/f")),
        paths(&[
            "/a/poryaaaa_state.json",
            "/poryaaaa_state.json",
            "/b/poryaaaa_state.json",
            "/h/f",
        ])
    );
}

#[test]
fn the_canonical_path_counts_only_where_it_differs() {
    let once = paths(&["/a/poryaaaa_state.json", "/poryaaaa_state.json"]);
    assert_eq!(candidate_state_paths(Some("/a/x.so"), None, None), once);
    assert_eq!(candidate_state_paths(Some("/a/x.so"), Some("/a/x.so"), None), once);
    // Equal as paths, though not as texts.
    assert_eq!(candidate_state_paths(Some("/a/x.so"), Some("/a//x.so"), None), once);
    // Not without the path itself.
    assert!(candidate_state_paths(None, Some("/a/x.so"), None).is_empty());
}

#[test]
fn repeated_candidates_are_left_out() {
    assert_eq!(
        candidate_state_paths(Some("/x.so"), Some("/y.so"), Some("/poryaaaa_state.json")),
        paths(&["/poryaaaa_state.json"])
    );
    assert_eq!(
        candidate_state_paths(Some("/x.so"), None, Some("//poryaaaa_state.json")),
        paths(&["/poryaaaa_state.json"])
    );
}

#[test]
fn a_candidate_is_left_out_wherever_it_stood_before() {
    assert_eq!(
        candidate_state_paths(
            Some("/home/u/.vst3/x.so"),
            None,
            Some(&fallback_state_path(Platform::Linux, "/home/u")),
        ),
        paths(&[
            "/home/u/.vst3/poryaaaa_state.json",
            "/home/u/poryaaaa_state.json",
            "/home/poryaaaa_state.json",
            "/poryaaaa_state.json",
        ])
    );
    assert_eq!(
        candidate_state_paths(Some("/a/b/x.so"), Some("/a/c/x.so"), Some("/a//poryaaaa_state.json")),
        paths(&[
            "/a/b/poryaaaa_state.json",
            "/a/poryaaaa_state.json",
            "/poryaaaa_state.json",
            "/a/c/poryaaaa_state.json",
        ])
    );
}

#[test]
fn tidy_candidates_with_different_texts_are_kept() {
    assert_eq!(
        candidate_state_paths(Some("/x.so"), Some("/b/x.so"), Some("/poryaaaa_state.json2")),
        paths(&["/poryaaaa_state.json", "/b/poryaaaa_state.json", "/poryaaaa_state.json2"])
    );
    // Parent components are components like others.
    assert_eq!(
        candidate_state_paths(Some("/x.so"), None, Some("/../poryaaaa_state.json")),
        paths(&["/poryaaaa_state.json", "/../poryaaaa_state.json"])
    );
}

#[test]
fn plugin_directories_are_below_home() {
    assert_eq!(user_vst3_plugin_dir(Platform::Linux, "/home/u"), "/home/u/.vst3");
    assert_eq!(
        user_vst3_plugin_dir(Platform::MacOs, "/Users/u"),
        "/Users/u/Library/Audio/Plug-Ins/VST3"
    );
    assert_eq!(
        fallback_state_path(Platform::Linux, "/home/u/"),
        "/home/u/.vst3/poryaaaa_state.json"
    );
    assert_eq!(
        fallback_state_path(Platform::MacOs, ""),
        "Library/Audio/Plug-Ins/VST3/poryaaaa_state.json"
    );
}

#[test]
fn joining_agrees_with_std_paths() {
    for dir in ["", "/", "a", "a/", "/a/b", "//", ".", "ä"] {
        for name in ["", "x", "x/y", "/x", ".", "é"] {
            let expected = std::path::Path::new(dir).join(name);
            assert_eq!(join(dir, name), expected.to_str().unwrap(), "{dir:?} {name:?}");
        }
    }
}
