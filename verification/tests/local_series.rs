use anup::anime::Format as RemoteFormat;
use anup::series::local::{parse_dir_episodes, LocalRoot, ParseError};
use anup::series::Format;

fn strings(paths: &[&str]) -> Vec<String> {
    paths.iter().map(|p| p.to_string()).collect()
}

#[test]
fn series_is_named_by_its_directory() {
    let root = LocalRoot::parse_dir("/anime/[Group] Series Title S02 (1080p)", &Vec::new()).unwrap();
    assert_eq!(root.parsed_name, "Series Title");
    assert_eq!(root.path, "/anime/[Group] Series Title S02 (1080p)");
    assert!(root.episodes.is_empty());
    let root = LocalRoot::parse_dir("/anime/Series Title/", &Vec::new()).unwrap();
    assert_eq!(root.parsed_name, "Series Title");
}

#[test]
fn path_without_a_name_is_invalid() {
    assert!(matches!(LocalRoot::parse_dir("/", &Vec::new()), Err(ParseError::InvalidPath)));
    assert!(matches!(LocalRoot::parse_dir("", &Vec::new()), Err(ParseError::InvalidPath)));
}

#[test]
fn episodes_are_grouped_by_format_with_tv_by_default() {
    let groups = parse_dir_episodes(&strings(&[
        "/a/Series - 01.mkv",
        "/a/Series OVA - 01.mkv",
        "/a/notes.txt",
        "/a/Series - 02.mp4",
        "/a/Series Movie.mkv",
    ]))
    .unwrap();
    let summary: Vec<(Format, Vec<u32>)> = groups
        .iter()
        .map(|(f, set)| (*f, set.iter().map(|e| e.info.number).collect()))
        .collect();
    assert_eq!(
        summary,
        vec![
            (Format::Tv, vec![1, 2]),
            (Format::Ova, vec![1]),
            (Format::Movie, vec![1]),
        ]
    );
    for (format, set) in &groups {
        for episode in set {
            assert_eq!(episode.info.format, Some(*format));
        }
    }
}

#[test]
fn duplicate_episodes_are_reported() {
    let result = parse_dir_episodes(&strings(&[
        "/a/Series - 01.mkv",
        "/a/Series - 02.mkv",
        "/a/[Other] Series E01v2.mkv",
    ]));
    match result {
        Err(ParseError::DuplicateEpisodesDetected { first_episode, second_episode }) => {
            assert_eq!(first_episode, "/a/Series - 01.mkv");
            assert_eq!(second_episode, "/a/[Other] Series E01v2.mkv");
        }
        other => panic!("expected a duplicate: {other:?}"),
    }
    // with a one-word title, `01v2` after a separator is neither marked nor
    // at the end, so the file is no episode at all
    assert!(parse_dir_episodes(&strings(&["/a/Series - 01.mkv", "/a/Series - 01v2.mkv"])).is_ok());
    // an unnamed format and an explicit TV format are the same episode
    assert!(matches!(
        parse_dir_episodes(&strings(&["/a/Series - 03.mkv", "/a/Series TV - 03.mkv"])),
        Err(ParseError::DuplicateEpisodesDetected { .. })
    ));
    // the same number in another season is another episode
    assert!(parse_dir_episodes(&strings(&["/a/Series S01E03.mkv", "/a/Series S02E03.mkv"])).is_ok());
}

#[test]
fn parse_dir_reads_the_files() {
    let root = LocalRoot::parse_dir(
        "/anime/Series Title",
        &strings(&["/anime/Series Title/Series Title - 01.mkv"]),
    )
    .unwrap();
    assert_eq!(root.episodes.len(), 1);
    assert!(matches!(
        LocalRoot::parse_dir("/x/Y", &strings(&["/x/Y/Y - 1.mkv", "/x/Y/Y E01.mkv"])),
        Err(ParseError::DuplicateEpisodesDetected { .. })
    ));
}

#[test]
fn formats_have_titlecase_names_and_remote_counterparts() {
    assert_eq!(Format::Tv.titlecase_str(), "TV");
    assert_eq!(Format::Special.titlecase_str(), "Special");
    assert_eq!(Format::Ona.titlecase_str(), "ONA");
    assert_eq!(Format::Music.titlecase_str(), "Music");
    assert_eq!(Format::default(), Format::Tv);
    assert_eq!(RemoteFormat::from(Format::Ova), RemoteFormat::Ova);
    assert_eq!(RemoteFormat::from(Format::Movie), RemoteFormat::Movie);
}
