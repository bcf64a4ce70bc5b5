use anup::series::episode::ParseError;
use anup::series::Episode;

fn cmp(input: &str, expected_ep: u32, expected_season: Option<u16>) {
    let parsed = Episode::parse(input).unwrap_or_else(|_| panic!("input: {input}"));
    assert_eq!(parsed.info.number, expected_ep, "input: {input}");
    assert_eq!(parsed.info.season, expected_season, "input: {input}");
    assert_eq!(parsed.info.format, None, "input: {input}");
    assert_eq!(parsed.path, input);
}

fn cmp_episode(input: &str, expected: u32) {
    cmp(input, expected, None);
}

fn cmp_ep_and_season(input: &str, expected_ep: u32, expected_season: u16) {
    cmp(input, expected_ep, Some(expected_season));
}

#[test]
fn with_episode_marker_only() {
    cmp_episode("Series Title - 12.mkv", 12);
    cmp_episode("Series Title - E12.mkv", 12);
    cmp_episode("Series Title.-.E12.mkv", 12);
    cmp_episode("E12 - Series Title.mkv", 12);
    cmp_episode("Episode 12 - Series Title.mkv", 12);
    cmp_episode("12 - Series Title.mkv", 12);
    cmp_episode("12v2 - Series Title.mkv", 12);
    cmp_episode("E12v2 - Series Title.mkv", 12);
    cmp_episode("Series Title - E12v2.mkv", 12);
    cmp_episode("Series Title - 12v2.mkv", 12);
    cmp_episode("[Tag 1] 12 - Series Title.mkv", 12);
    cmp_episode("[Tag 1] 12 - 1 Series Title.mkv", 12);
    cmp_episode("[Tag 1] Episode 12 - Series Title.mkv", 12);
    cmp_episode("[Tag 1] Episode 12 - Series Title 02.mkv", 12);
    cmp_episode("[Tag 1] Ep12 - 1 Series Title.mkv", 12);
    cmp_episode("[Tag_1]_Series_Title_-_12.mkv", 12);
    cmp_episode("[Tag 1] Series Title - 12.mkv", 12);
    cmp_episode("[Tag 1][Tag 2] Series Title - 12.mkv", 12);
    cmp_episode("[Tag 1] [Tag 2] Series Title - 12.mkv", 12);
    cmp_episode("Series Title 2 12.mkv", 12);
    cmp_episode("Series Title 2 E12.mkv", 12);
    cmp_episode("Series Title 2 Ep 12.mkv", 12);
    cmp_episode("Series Title 2 12_(Tag 1).mkv", 12);
    cmp_episode("Series Title - 001.mkv", 1);
    cmp_episode("Series Title - E001.mkv", 1);
    cmp_episode("Series Title - ep 001.mkv", 1);
    cmp_episode("Series Title - episode 001.mkv", 1);
    cmp_episode("Series_Title_12.mkv", 12);
    cmp_episode("Series Title-12.mkv", 12);
    cmp_episode("Series Title 12 (1080p).mkv", 12);
    cmp_episode("Series Title 2 12 - An Episode Description [1080p].mkv", 12);
    cmp_episode("[Tag 1] Series 2 Title - 12 [Tag 2].mkv", 12);
    cmp_episode("[Tag 1] 1 2 Series Title - 06 [Tag 2].mkv", 6);
    cmp_episode("[Tag 1] 1 2 Series Title 06 [Tag 2].mkv", 6);
    cmp_episode("[Tag 1] 1 2 Series Title 3 06 [Tag 2].mkv", 6);
    cmp_episode("[Tag 1] 1 2 Series Title 3 - 06 [Tag 2].mkv", 6);
    cmp_episode("[Tag 1] Mutli-Separated 1-Title 2 - E12 [10].mkv", 12);
    cmp_episode("[Tag 1] 12 - Multi - Title [10].mkv", 12);
    cmp_episode("06.mkv", 6);
    cmp_episode("07 [Tag 1].mkv", 7);
    cmp_episode("[Tag 1] 08.mkv", 8);
    cmp_episode(
        "[Tag 1] Episode 12 - Series Title - Description 123 [Tag 2].mkv",
        12,
    );
}

#[test]
fn with_season_hint_and_episode() {
    cmp_ep_and_season("Series Title - S01E02.mkv", 2, 1);
    cmp_ep_and_season("Series Title - S01E02 [Tag 1].mkv", 2, 1);
    cmp_ep_and_season("Series Title - S01E02v3.mkv", 2, 1);
    cmp_ep_and_season("S01E12 - Series Title.mkv", 12, 1);

    // test that `Episode 1` isn't parsed as the episode
    cmp_ep_and_season("S01E12 - Series Title - Episode 1 Description.mkv", 12, 1);

    cmp_ep_and_season("[Tag] Series Title S2E01 (Tag 2).mkv", 1, 2);
    cmp_ep_and_season("[Tag] Series Title S02E01 (Tag 2).mkv", 1, 2);
    cmp_ep_and_season("[Tag] Series Title Season 2_-_01_(Tag 2).mkv", 1, 2);
    cmp_ep_and_season("[Tag] Series Title Season 2 Episode 01 (Tag 2).mkv", 1, 2);
    cmp_ep_and_season("[Tag] Series Title Season 02 Episode 01 (Tag 2).mkv", 1, 2);
    cmp_ep_and_season("[Tag] Series Title Season 2_-_01_(Tag 2).mkv", 1, 2);
    cmp_ep_and_season("[Tag] Series Title Season 2 - 01.mkv", 1, 2);
    cmp_ep_and_season("[Tag] Series Title Season 2-01 (Tag 2).mkv", 1, 2);
    cmp_ep_and_season("[Tag] Series Title Season 2 Episode 1.mkv", 1, 2);
}

#[test]
fn file_in_a_directory_is_parsed_by_its_name() {
    let parsed = Episode::parse("/anime/Series Title/Series Title - 05.mp4").unwrap();
    assert_eq!(parsed.info.number, 5);
    assert_eq!(parsed.path, "/anime/Series Title/Series Title - 05.mp4");
}

#[test]
fn file_name_with_format_names_the_format() {
    let parsed = Episode::parse("Series Title OVA - 03.mkv").unwrap();
    assert_eq!(parsed.info.number, 3);
    assert_eq!(parsed.info.format, Some(anup::series::Format::Ova));
    let parsed = Episode::parse("Series Title - 12 (ONA).mkv").unwrap();
    assert_eq!(parsed.info.number, 12);
    assert_eq!(parsed.info.format, Some(anup::series::Format::Ona));
    // Names are tried in order: `special` matches before `specials` can, and
    // the `s` it leaves ends no label.
    let parsed = Episode::parse("Series Title Specials - S00E01.mkv").unwrap();
    assert_eq!((parsed.info.number, parsed.info.season), (1, Some(0)));
    assert_eq!(parsed.info.format, None);
}

#[test]
fn non_video_extension_is_rejected() {
    assert!(matches!(
        Episode::parse("Series Title - 12.txt"),
        Err(ParseError::InvalidExtension)
    ));
    assert!(matches!(
        Episode::parse("Series Title - 12"),
        Err(ParseError::InvalidExtension)
    ));
}

#[test]
fn path_without_file_name_has_no_extension() {
    assert!(matches!(Episode::parse("/"), Err(ParseError::InvalidExtension)));
    assert!(matches!(Episode::parse("dir/.."), Err(ParseError::InvalidExtension)));
    assert!(matches!(Episode::parse(".mkv"), Err(ParseError::InvalidExtension)));
}

#[test]
fn video_file_without_episode_is_unmatched() {
    assert!(matches!(
        Episode::parse("Series Title.mkv"),
        Err(ParseError::Unmatched)
    ));
}

#[test]
fn episodes_are_equal_by_their_information() {
    let a = Episode::parse("/a/Series - 03.mkv").unwrap();
    let b = Episode::parse("/b/Other Name - 03.mp4").unwrap();
    let c = Episode::parse("/a/Series - 04.mkv").unwrap();
    assert!(a == b);
    assert!(a != c);
    assert_eq!(a.info, b.info);
}
