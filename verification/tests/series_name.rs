use anup::detect::Series;

fn cmp(untrimmed: &str, expected: &str) {
    assert_eq!(
        Series::parse(untrimmed).ok().map(|s| s.trimmed_name),
        Some(expected),
        "input: {untrimmed}"
    );
}

#[test]
fn series_no_tags() {
    cmp("Title", "Title");
    cmp("Series Title", "Series Title");

    assert!(Series::parse("").is_err());
}

#[test]
fn series_one_tag() {
    cmp("[Tag] Title", "Title");
    cmp("[Tag] Series Title", "Series Title");
    cmp("Series Title [Tag]", "Series Title");
    cmp("(Tag) Series Title", "Series Title");
    cmp("Series Title (Tag)", "Series Title");
    cmp("Series Title 720p", "Series Title");
    cmp("Series Title 1080p", "Series Title");
    cmp("Series Title S1", "Series Title");
    cmp("Series Title S01", "Series Title");
    cmp("Series Title S12", "Series Title");
}

#[test]
fn series_many_tags() {
    cmp("[Tag1] [Tag2] Series Title", "Series Title");
    cmp("[Tag1] (Tag2) Series Title", "Series Title");
    cmp("Series Title [Tag1] [Tag2]", "Series Title");
    cmp("[Tag1] Series Title 1080p", "Series Title");
    cmp("[Tag1] Series Title 1080p (Tag 2) (Tag 3)", "Series Title");
    cmp("[Tag1] Series Title S01 [Tag2] (Tag3)", "Series Title")
}

#[test]
fn combinator_no_tags() {
    cmp("Title", "Title");
    cmp("Series Title", "Series Title");

    assert!(Series::parse("").is_err());
}

#[test]
fn combinator_one_tag() {
    cmp("[Tag] Title", "Title");
    cmp("[Tag] Series Title", "Series Title");
    cmp("Series Title [Tag]", "Series Title");
    cmp("(Tag) Series Title", "Series Title");
    cmp("Series Title (Tag)", "Series Title");
    cmp("Series Title 720p", "Series Title");
    cmp("Series Title 1080p", "Series Title");
    cmp("Series Title S1", "Series Title");
    cmp("Series Title S01", "Series Title");
    cmp("Series Title S12", "Series Title");
}

#[test]
fn combinator_many_tags() {
    cmp("[Tag1] [Tag2] Series Title", "Series Title");
    cmp("[Tag1] (Tag2) Series Title", "Series Title");
    cmp("Series Title [Tag1] [Tag2]", "Series Title");
    cmp("[Tag1] Series Title 1080p", "Series Title");
    cmp("[Tag1] Series Title 1080p (Tag 2) (Tag 3)", "Series Title");
    cmp("[Tag1] Series Title S01 [Tag2] (Tag3)", "Series Title")
}

#[test]
fn lowercase_season_letter_is_part_of_title() {
    cmp("Series Title s01", "Series Title s01");
}

#[test]
fn only_tags_gives_empty_title() {
    cmp("[Tag1] (Tag2)", "");
}

#[test]
fn non_ascii_titles_are_kept() {
    cmp("[Tag] Série Titré [1080p]", "Série Titré");
}
