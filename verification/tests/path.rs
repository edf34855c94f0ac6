use install_checker::path::{
    all_fit, first_match, fits, is_excluded, relativize, resolve, to_slashes, PathError,
};

fn patterns(list: &[&str]) -> Vec<String> {
    list.iter().map(|p| p.to_string()).collect()
}

#[test]
fn to_slashes_replaces_every_separator() {
    assert_eq!(to_slashes("C:\\game\\bin\\a.dll", '\\'), "C:/game/bin/a.dll");
    assert_eq!(to_slashes("\\\\", '\\'), "//");
    assert_eq!(to_slashes("", '\\'), "");
}

#[test]
fn to_slashes_leaves_a_path_with_slashes_as_it_is() {
    assert_eq!(to_slashes("/srv/game/a b\\c.txt", '/'), "/srv/game/a b\\c.txt");
    assert_eq!(to_slashes("é/ü", '/'), "é/ü");
}

#[test]
fn resolve_puts_one_slash_between() {
    assert_eq!(resolve("/srv/game", "bin/run.sh"), "/srv/game/bin/run.sh");
    assert_eq!(resolve("game", "a.txt"), "game/a.txt");
}

#[test]
fn resolve_keeps_a_slash_that_is_there() {
    assert_eq!(resolve("/srv/game/", "a.txt"), "/srv/game/a.txt");
    assert_eq!(resolve("/", "a.txt"), "/a.txt");
}

#[test]
fn resolve_under_an_empty_root_is_the_relative_path() {
    assert_eq!(resolve("", "a/b.txt"), "a/b.txt");
}

#[test]
fn resolve_does_not_look_at_the_relative_path() {
    assert_eq!(resolve("/srv", ""), "/srv/");
    assert_eq!(resolve("/srv", "/etc/passwd"), "/srv//etc/passwd");
}

#[test]
fn relativize_takes_the_root_off() {
    assert_eq!(relativize("/srv/game", "/srv/game/bin/run.sh"), Ok("bin/run.sh".to_string()));
    assert_eq!(relativize("/srv/game/", "/srv/game/bin/run.sh"), Ok("bin/run.sh".to_string()));
    assert_eq!(relativize("", "a/b.txt"), Ok("a/b.txt".to_string()));
}

#[test]
fn relativize_refuses_a_path_outside_the_root() {
    assert_eq!(relativize("/srv/game", "/srv/other/a.txt"), Err(PathError::OutsideRoot));
    assert_eq!(relativize("/srv/game", "/srv"), Err(PathError::OutsideRoot));
    assert_eq!(relativize("/srv/game", "a.txt"), Err(PathError::OutsideRoot));
}

#[test]
fn relativize_refuses_a_sibling_with_the_same_beginning() {
    assert_eq!(relativize("/srv/game", "/srv/game2/a.txt"), Err(PathError::OutsideRoot));
    assert_eq!(relativize("/srv/game", "/srv/gamea.txt"), Err(PathError::OutsideRoot));
}

#[test]
fn relativize_refuses_the_root_itself() {
    assert_eq!(relativize("/srv/game", "/srv/game"), Err(PathError::OutsideRoot));
}

#[test]
fn relativize_of_the_root_with_its_slash_is_empty() {
    assert_eq!(relativize("/srv/game", "/srv/game/"), Ok(String::new()));
    assert_eq!(relativize("/srv/game/", "/srv/game/"), Ok(String::new()));
}

#[test]
fn relativize_undoes_resolve() {
    for root in ["", "/", "/srv", "/srv/", "rel/dir"] {
        for relative in ["a.txt", "a/b/c.bin", "é/ü.txt", ""] {
            assert_eq!(relativize(root, &resolve(root, relative)), Ok(relative.to_string()));
        }
    }
}

#[test]
fn star_stays_within_a_segment() {
    let list = patterns(&["skip/*"]);
    assert_eq!(Ok(true), is_excluded("skip/c.txt", &list));
    assert_eq!(Ok(false), is_excluded("skip/deep/c.txt", &list));
    assert_eq!(Ok(false), is_excluded("a.txt", &list));
}

#[test]
fn double_star_crosses_segments() {
    let list = patterns(&["**/index.csv"]);
    assert_eq!(Ok(true), is_excluded("index.csv", &list));
    assert_eq!(Ok(true), is_excluded("bin/linux64/index.csv", &list));
    assert_eq!(Ok(false), is_excluded("bin/linux64/index.csv.bak", &list));
}

#[test]
fn an_exact_path_is_a_pattern_too() {
    let list = patterns(&["docs/readme.txt"]);
    assert_eq!(Ok(true), is_excluded("docs/readme.txt", &list));
    assert_eq!(Ok(false), is_excluded("docs/readme.txt2", &list));
    assert_eq!(Ok(false), is_excluded("readme.txt", &list));
}

#[test]
fn a_pattern_matches_the_path_it_is_equal_to() {
    let list = patterns(&["notes[1].txt", "{draft}.md", "!keep", "a\\b"]);
    assert_eq!(Ok(true), is_excluded("notes[1].txt", &list));
    assert_eq!(Ok(true), is_excluded("notes1.txt", &list));
    assert_eq!(Ok(true), is_excluded("{draft}.md", &list));
    assert_eq!(Ok(true), is_excluded("a\\b", &list));
    assert_eq!(first_match("{draft}.md", &list), Some(1));
}

#[test]
fn a_negated_pattern_matches_what_its_rest_does_not() {
    let list = patterns(&["!*.txt"]);
    assert_eq!(Ok(false), is_excluded("a.txt", &list));
    assert_eq!(Ok(true), is_excluded("a.bin", &list));
}

#[test]
fn no_patterns_exclude_nothing() {
    assert_eq!(Ok(false), is_excluded("a.txt", &[]));
    assert_eq!(first_match("a.txt", &[]), None);
}

#[test]
fn other_patterns_do_not_matter() {
    let list = patterns(&["*.log", "tmp/**", "x", "a.txt", "[0-9]*"]);
    assert_eq!(Ok(true), is_excluded("a.txt", &list));
    assert_eq!(Ok(false), is_excluded("b.txt", &list));
}

#[test]
fn first_match_names_the_first_pattern_that_matches() {
    let list = patterns(&["*.log", "a.*", "*.txt", "a.txt"]);
    assert_eq!(first_match("a.txt", &list), Some(1));
    assert_eq!(first_match("b.txt", &list), Some(2));
    assert_eq!(first_match("b.log", &list), Some(0));
    assert_eq!(first_match("b.bin", &list), None);
}

#[test]
fn duplicate_patterns_are_harmless() {
    let list = patterns(&["*.tmp", "*.tmp"]);
    assert_eq!(Ok(true), is_excluded("a.tmp", &list));
    assert_eq!(first_match("a.tmp", &list), Some(0));
    assert_eq!(Ok(false), is_excluded("a.txt", &list));
}

#[test]
fn the_default_patterns_match_what_they_are_for() {
    let list = patterns(&["sdk_content/**/*.*", "hammer/autosave/*.*", "**/index.csv"]);
    assert_eq!(Ok(true), is_excluded("sdk_content/maps/a.vmf", &list));
    assert_eq!(Ok(true), is_excluded("hammer/autosave/map.vmf", &list));
    assert_eq!(Ok(true), is_excluded("bin/win64/index.csv", &list));
    assert_eq!(Ok(false), is_excluded("hammer/map.vmf", &list));
    assert_eq!(Ok(false), is_excluded("bin/win64/engine.dll", &list));
}

#[test]
fn short_texts_fit_the_matcher() {
    assert!(fits(""));
    assert!(fits("**/*.txt"));
    assert!(fits(&"a/".repeat(10_000)));
    assert!(all_fit(&[]));
    assert!(all_fit(&patterns(&["*.log", "**/index.csv"])));
}
