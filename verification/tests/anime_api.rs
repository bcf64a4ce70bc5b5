use anup::anime::api::anilist::{adds_permit, implicit_grant_oauth_url, sequel_of, MediaRelation, RelationType};
use anup::anime::api::{found_or_missing, reply_data, Error, RequestError};
use anup::anime::{current_episode_count, FuzzyDate, Id, Title, UserStatus};

fn failed(status: u16) -> Error {
    Error::RequestFailed(RequestError { message: None, status })
}

#[test]
fn request_failure_status_is_matched() {
    assert!(failed(404).request_failed_with_status(404));
    assert!(!failed(500).request_failed_with_status(404));
    assert!(!Error::HttpError("timeout".into()).request_failed_with_status(404));
}

#[test]
fn a_reply_with_errors_fails_with_the_first() {
    let errors = vec![
        RequestError { message: Some("first".into()), status: 400 },
        RequestError { message: Some("second".into()), status: 500 },
    ];
    match reply_data(7, errors) {
        Err(Error::RequestFailed(e)) => {
            assert_eq!(e.status, 400);
            assert_eq!(e.message.as_deref(), Some("first"));
        }
        _ => panic!("expected the first error"),
    }
    assert!(matches!(reply_data(7, Vec::new()), Ok(7)));
}

#[test]
fn missing_anime_is_not_an_error() {
    assert!(matches!(found_or_missing(Ok::<u32, Error>(3)), Ok(Some(3))));
    assert!(matches!(found_or_missing::<u32>(Err(failed(404))), Ok(None)));
    assert!(matches!(found_or_missing::<u32>(Err(failed(500))), Err(Error::RequestFailed(_))));
    assert!(matches!(
        found_or_missing::<u32>(Err(Error::InvalidResponseData("bad".into()))),
        Err(Error::InvalidResponseData(_))
    ));
}

#[test]
fn the_first_sequel_is_taken() {
    let edges = [
        MediaRelation { relation_type: RelationType::Other, node_id: 1 },
        MediaRelation { relation_type: RelationType::Sequel, node_id: 2 },
        MediaRelation { relation_type: RelationType::Sequel, node_id: 3 },
    ];
    assert_eq!(sequel_of(&edges), Some(Id::AniList(2)));
    assert_eq!(sequel_of(&edges[..1]), None);
    assert_eq!(sequel_of(&[]), None);
}

#[test]
fn oauth_url_carries_the_client_id() {
    assert_eq!(
        implicit_grant_oauth_url(12345),
        "https://anilist.co/api/v2/oauth/authorize?client_id=12345&response_type=token"
    );
    assert_eq!(
        implicit_grant_oauth_url(0),
        "https://anilist.co/api/v2/oauth/authorize?client_id=0&response_type=token"
    );
}

#[test]
fn permits_refill_up_to_the_burst() {
    assert!(adds_permit(3, 10));
    assert!(!adds_permit(10, 10));
}

#[test]
fn episode_count_falls_back_to_the_airing_episode() {
    assert_eq!(current_episode_count(Some(12), Some(5)), Some(12));
    assert_eq!(current_episode_count(None, Some(5)), Some(4));
    assert_eq!(current_episode_count(None, Some(0)), Some(0));
    assert_eq!(current_episode_count(None, None), None);
}

#[test]
fn fuzzy_dates_need_every_part_and_a_real_day() {
    let date = FuzzyDate { day: Some(29), month: Some(2), year: Some(2024) }.into_date();
    assert_eq!(date, Some(jiff::civil::date(2024, 2, 29)));
    assert_eq!(FuzzyDate { day: Some(29), month: Some(2), year: Some(2023) }.into_date(), None);
    assert_eq!(FuzzyDate { day: None, month: Some(2), year: Some(2023) }.into_date(), None);
    assert_eq!(FuzzyDate { day: Some(31), month: Some(4), year: Some(2023) }.into_date(), None);
}

#[test]
fn ids_and_statuses_read_as_text() {
    assert_eq!(Id::AniList(7).source_name(), "AniList");
    assert_eq!(Id::AniList(7).plain(), 7);
    assert_eq!(UserStatus::Current.display_str(), "Watching");
    assert_eq!(UserStatus::Repeating.display_str(), "Rewatching");
    assert_eq!(UserStatus::Paused.display_str(), "Paused");
}

#[test]
fn titles_list_english_first() {
    let title = Title { english: Some("E".into()), romaji: "R".into(), native: "N".into() };
    assert_eq!(title.as_array(), [Some("E"), Some("R"), Some("N")]);
    let title = Title { english: None, romaji: "R".into(), native: "N".into() };
    assert_eq!(title.as_array(), [None, Some("R"), Some("N")]);
}
