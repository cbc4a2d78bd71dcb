use scene_releasex::season::parse_season_directory;
use scene_releasex::types::ReleaseType;

#[test]
fn season_word_and_number() {
    assert_eq!(parse_season_directory("Season 03"), Some(3));
}

#[test]
fn other_name_has_no_season() {
    assert_eq!(parse_season_directory("Extras"), None);
}

#[test]
fn series_word_and_number() {
    assert_eq!(parse_season_directory("Series 2"), Some(2));
    assert_eq!(parse_season_directory("series.12"), Some(12));
}

#[test]
fn short_form() {
    assert_eq!(parse_season_directory("S03"), Some(3));
    assert_eq!(parse_season_directory("s10"), Some(10));
}

#[test]
fn word_is_read_in_any_case() {
    assert_eq!(parse_season_directory("SEASON_7"), Some(7));
    assert_eq!(parse_season_directory("sEaSoN-07"), Some(7));
    assert_eq!(parse_season_directory("Season1"), Some(1));
}

#[test]
fn number_must_be_there_and_run_to_the_end() {
    assert_eq!(parse_season_directory("Season"), None);
    assert_eq!(parse_season_directory("Season "), None);
    assert_eq!(parse_season_directory("S"), None);
    assert_eq!(parse_season_directory(""), None);
    assert_eq!(parse_season_directory("Season 3 Extras"), None);
    assert_eq!(parse_season_directory("Season three"), None);
    assert_eq!(parse_season_directory("Specials"), None);
    assert_eq!(parse_season_directory("03"), None);
}

#[test]
fn number_must_fit() {
    assert_eq!(parse_season_directory("Season 4294967295"), Some(4294967295));
    assert_eq!(parse_season_directory("Season 4294967296"), None);
    assert_eq!(parse_season_directory("Season 99999999999999999999"), None);
    assert_eq!(parse_season_directory("Season 0000000000000000000001"), Some(1));
}

#[test]
fn other_scripts_pass_through() {
    assert_eq!(parse_season_directory("Sæson 3"), None);
    assert_eq!(parse_season_directory("Season ３"), None);
    assert_eq!(parse_season_directory("シーズン 3"), None);
}

#[test]
fn release_type_names() {
    assert_eq!(ReleaseType::from_name("movie"), Some(ReleaseType::Movie));
    assert_eq!(ReleaseType::from_name("tv"), Some(ReleaseType::Tv));
    assert_eq!(ReleaseType::from_name("series"), Some(ReleaseType::Series));
    assert_eq!(ReleaseType::from_name("season"), Some(ReleaseType::Season));
    assert_eq!(ReleaseType::from_name("Movie"), None);
    assert_eq!(ReleaseType::from_name(""), None);
    assert_eq!(ReleaseType::Movie.name(), "movie");
    assert_eq!(ReleaseType::Tv.name(), "tv");
    assert_eq!(ReleaseType::Series.name(), "series");
    assert_eq!(ReleaseType::Season.name(), "season");
}
