use scene_releasex::assemble::{assemble, dedup_flags, dedup_language, normalize_episodes};
use scene_releasex::types::{ParsedRelease, ReleaseType};

fn texts(items: &[&str]) -> Vec<String> {
    items.iter().map(|s| s.to_string()).collect()
}

fn pairs(items: &[(&str, &str)]) -> Vec<(String, String)> {
    items.iter().map(|(k, v)| (k.to_string(), v.to_string())).collect()
}

#[test]
fn episodes_are_sorted_and_unique() {
    assert_eq!(normalize_episodes(&vec![3, 1, 2, 2, 3]), vec![1, 2, 3]);
}

#[test]
fn ascending_episodes_are_unchanged() {
    assert_eq!(normalize_episodes(&vec![1, 2, 3]), vec![1, 2, 3]);
    assert_eq!(normalize_episodes(&vec![7]), vec![7]);
}

#[test]
fn empty_span_stays_empty() {
    assert_eq!(normalize_episodes(&Vec::new()), Vec::<u32>::new());
}

#[test]
fn descending_span_is_reversed() {
    assert_eq!(normalize_episodes(&vec![5, 4, 0, u32::MAX]), vec![0, 4, 5, u32::MAX]);
}

#[test]
fn flags_keep_first_occurrence() {
    let out = dedup_flags(&texts(&["PROPER", "REPACK", "PROPER", "LIMITED", "REPACK"]));
    assert_eq!(out, texts(&["PROPER", "REPACK", "LIMITED"]));
}

#[test]
fn flags_differing_in_case_are_distinct() {
    let out = dedup_flags(&texts(&["PROPER", "proper"]));
    assert_eq!(out, texts(&["PROPER", "proper"]));
}

#[test]
fn language_keeps_first_entry_per_code() {
    let out = dedup_language(&pairs(&[("en", "English"), ("de", "German"), ("en", "Englisch")]));
    assert_eq!(out, pairs(&[("en", "English"), ("de", "German")]));
}

#[test]
fn language_codes_never_repeat() {
    let out = dedup_language(&pairs(&[("fr", "a"), ("fr", "b"), ("fr", "c"), ("it", "d")]));
    for i in 0..out.len() {
        for j in 0..out.len() {
            if i != j {
                assert_ne!(out[i].0, out[j].0);
            }
        }
    }
    assert_eq!(out.len(), 2);
}

#[test]
fn episode_is_smallest_of_span() {
    let mut raw = ParsedRelease::title_only("Show.S01E01-E03.720p-GRP", "Show", ReleaseType::Tv);
    raw.season = Some(1);
    raw.episode = Some(3);
    raw.episodes = vec![3, 1, 2];
    let out = assemble(raw);
    assert_eq!(out.episodes, vec![1, 2, 3]);
    assert_eq!(out.episode, Some(1));
    assert_eq!(out.season, Some(1));
    assert_eq!(out.title, "Show");
}

#[test]
fn episode_is_kept_without_span() {
    let mut raw = ParsedRelease::title_only("Show.S01E02", "Show", ReleaseType::Tv);
    raw.season = Some(1);
    raw.episode = Some(2);
    let out = assemble(raw);
    assert_eq!(out.episodes, Vec::<u32>::new());
    assert_eq!(out.episode, Some(2));
}

#[test]
fn movie_carries_no_season_or_episode() {
    let mut raw = ParsedRelease::title_only("Movie.Title.2020", "Movie Title", ReleaseType::Movie);
    raw.year = Some(2020);
    raw.season = Some(4);
    raw.episode = Some(9);
    raw.episodes = vec![9, 10];
    let out = assemble(raw);
    assert_eq!(out.season, None);
    assert_eq!(out.episode, None);
    assert_eq!(out.episodes, Vec::<u32>::new());
    assert_eq!(out.year, Some(2020));
    assert_eq!(out.release_type, ReleaseType::Movie);
}

#[test]
fn finished_record_is_unchanged() {
    let mut raw = ParsedRelease::title_only("Show.S02E04-E05", "Show", ReleaseType::Series);
    raw.season = Some(2);
    raw.episode = Some(4);
    raw.episodes = vec![4, 5];
    raw.flags = texts(&["PROPER", "REPACK"]);
    raw.language = pairs(&[("en", "English"), ("de", "German")]);
    raw.group = Some("GRP".to_string());
    let out = assemble(raw.clone());
    assert_eq!(out, raw);
}

#[test]
fn assembling_twice_gives_the_same_record() {
    let mut raw = ParsedRelease::title_only("Show.S02E04-E05", "Show", ReleaseType::Season);
    raw.episodes = vec![9, 4, 4, 5];
    raw.flags = texts(&["A", "B", "A"]);
    raw.language = pairs(&[("en", "English"), ("en", "x")]);
    let first = assemble(raw.clone());
    let second = assemble(raw);
    assert_eq!(first, second);
    let again = assemble(first.clone());
    assert_eq!(again, first);
}

#[test]
fn title_only_record_has_nothing_else() {
    let out = ParsedRelease::title_only("???", "", ReleaseType::Tv);
    assert_eq!(out.release, "???");
    assert_eq!(out.title, "");
    assert_eq!(out.group, None);
    assert_eq!(out.year, None);
    assert!(out.episodes.is_empty());
    assert!(out.flags.is_empty());
    assert!(out.language.is_empty());
    assert_eq!(assemble(out.clone()), out);
}

#[test]
fn implausible_year_is_unset() {
    let mut raw = ParsedRelease::title_only("Movie.1080", "Movie", ReleaseType::Movie);
    raw.year = Some(1080);
    assert_eq!(assemble(raw.clone()).year, None);
    raw.year = Some(1899);
    assert_eq!(assemble(raw.clone()).year, None);
    raw.year = Some(2100);
    assert_eq!(assemble(raw.clone()).year, None);
    raw.year = Some(1900);
    assert_eq!(assemble(raw.clone()).year, Some(1900));
    raw.year = Some(2099);
    assert_eq!(assemble(raw.clone()).year, Some(2099));
    raw.year = None;
    assert_eq!(assemble(raw).year, None);
}
