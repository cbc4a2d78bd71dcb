use scene_releasex::path::{compose, resolve_season, split_path, ParentParse, PathParts};
use scene_releasex::types::{ParsedRelease, ReleaseType};

#[test]
fn path_is_split_into_parent_and_leaf() {
    let parts = split_path("Show Name/Season 02/Episode 05.mkv");
    assert_eq!(
        parts,
        Some(PathParts { parent: Some("Season 02".to_string()), leaf: "Episode 05.mkv".to_string() })
    );
}

#[test]
fn empty_leaf_is_a_failure() {
    assert_eq!(split_path("/.mkv"), None);
}

#[test]
fn leaf_of_delimiters_is_a_failure() {
    assert_eq!(split_path(""), None);
    assert_eq!(split_path("Show/"), None);
    assert_eq!(split_path("Show/- _.mkv"), None);
    assert_eq!(split_path("Show/..."), None);
    assert_eq!(split_path(".hidden"), None);
}

#[test]
fn single_segment_has_no_parent() {
    let parts = split_path("Movie.Title.2020.1080p.BluRay.x264-GROUP");
    assert_eq!(
        parts,
        Some(PathParts { parent: None, leaf: "Movie.Title.2020.1080p.BluRay.x264-GROUP".to_string() })
    );
}

#[test]
fn leading_separator_gives_no_parent() {
    let parts = split_path("/file.mkv");
    assert_eq!(parts, Some(PathParts { parent: None, leaf: "file.mkv".to_string() }));
}

#[test]
fn empty_parent_segment_is_no_parent() {
    let parts = split_path("Show//file.mkv");
    assert_eq!(parts, Some(PathParts { parent: None, leaf: "file.mkv".to_string() }));
}

#[test]
fn leaf_without_extension_has_content() {
    let parts = split_path("a/b");
    assert_eq!(parts, Some(PathParts { parent: Some("a".to_string()), leaf: "b".to_string() }));
}

#[test]
fn wide_characters_are_kept() {
    let parts = split_path("Сериал/Сезон 2/Серия 05.mkv");
    assert_eq!(
        parts,
        Some(PathParts { parent: Some("Сезон 2".to_string()), leaf: "Серия 05.mkv".to_string() })
    );
}

#[test]
fn leaf_season_wins() {
    assert_eq!(resolve_season(Some(1), Some(2)), Some(1));
    assert_eq!(resolve_season(None, Some(2)), Some(2));
    assert_eq!(resolve_season(Some(1), None), Some(1));
    assert_eq!(resolve_season(None, None), None);
}

#[test]
fn season_is_inherited_from_parent_directory() {
    let path = "Show Name/Season 02/Episode 05.mkv";
    let parts = split_path(path).unwrap();
    let mut file = ParsedRelease::title_only("Episode 05", "Episode", ReleaseType::Tv);
    file.episode = Some(5);
    let name = parts.parent.unwrap();
    let release = ParsedRelease::title_only("Season 02", "Season 02", ReleaseType::Series);
    let info = compose(path, file.clone(), Some(ParentParse { name, release: release.clone() }));
    assert_eq!(info.season, Some(2));
    assert_eq!(info.file, file);
    assert_eq!(info.directory, Some(release));
    assert_eq!(info.full_path, path);
}

#[test]
fn season_of_leaf_is_kept() {
    let mut file = ParsedRelease::title_only("Show.S04E01", "Show", ReleaseType::Tv);
    file.season = Some(4);
    let release = ParsedRelease::title_only("Season 02", "Season 02", ReleaseType::Series);
    let parent = ParentParse { name: "Season 02".to_string(), release };
    let info = compose("Season 02/Show.S04E01.mkv", file, Some(parent));
    assert_eq!(info.season, Some(4));
}

#[test]
fn no_season_anywhere() {
    let file = ParsedRelease::title_only("Movie", "Movie", ReleaseType::Movie);
    let info = compose("Movie.mkv", file.clone(), None);
    assert_eq!(info.season, None);
    assert_eq!(info.directory, None);
    let release = ParsedRelease::title_only("Extras", "Extras", ReleaseType::Series);
    let parent = ParentParse { name: "Extras".to_string(), release };
    let info = compose("Extras/Movie.mkv", file, Some(parent));
    assert_eq!(info.season, None);
}
