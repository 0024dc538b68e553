use osatui::api::{ApiClient, FetchStep};
use osatui::config::Config;
use osatui::error::{ApiError, CacheError, RemoteError};
use osatui::lists::{ListData, ListKey};
use osatui::models::{College, Lesson, Schedule};
use osatui::resolver::Identity;
use osatui::utils::AppDate;

fn date(year: u32, month: u32, day: u32) -> AppDate {
    AppDate { year, month, day }
}

fn identity(college_id: u32, campus_id: u32, group_id: u32) -> Identity {
    Identity { college_id, campus_id, group_id }
}

fn schedules_for(group_id: u32, title: &str) -> Vec<Schedule> {
    vec![Schedule {
        group_id,
        date: date(2024, 1, 15),
        lessons: vec![Lesson {
            title: title.to_owned(),
            cabinet: "201".to_owned(),
            teacher: "Petrov".to_owned(),
            order: 1,
            start_minute: 540,
            end_minute: 630,
        }],
    }]
}

#[test]
fn fetch_miss_then_remote_write_through() {
    let mut client = ApiClient::new(Config::default(), identity(3, 5, 42));
    let d = date(2024, 1, 15);
    // Empty cache: the coordinator asks for a remote fetch of group 42.
    match client.fetch_prepare(&d, 1_000).unwrap() {
        FetchStep::Remote(g) => assert_eq!(g, 42),
        FetchStep::Done(_) => panic!("expected a miss on an empty cache"),
    }
    // The remote answer is returned and written through.
    let got = client
        .fetch_finish(&d, 1_000, Ok(schedules_for(42, "Algebra")))
        .unwrap();
    assert_eq!(got[0].lessons[0].title, "Algebra");
    // The very next prepare is a cache hit with the same content.
    match client.fetch_prepare(&d, 1_100).unwrap() {
        FetchStep::Done(v) => assert_eq!(v[0].lessons[0].title, "Algebra"),
        FetchStep::Remote(_) => panic!("expected a cache hit after write-through"),
    }
}

#[test]
fn empty_schedule_signal_is_a_successful_empty_day() {
    let mut client = ApiClient::new(Config::default(), identity(3, 5, 42));
    let d = date(2024, 1, 15);
    let outcome = client.fetch_finish(
        &d,
        1_000,
        Err(RemoteError {
            message: "invalid type: null, expected a sequence".to_owned(),
            empty_result: false,
        }),
    );
    let got = outcome.expect("an empty-result response is not an error");
    assert!(got.is_empty());
}

#[test]
fn structured_empty_signal_is_a_successful_empty_day() {
    let mut client = ApiClient::new(Config::default(), identity(3, 5, 42));
    let d = date(2024, 1, 15);
    let outcome = client.fetch_finish(
        &d,
        1_000,
        Err(RemoteError { message: "nothing decodable came back".to_owned(), empty_result: true }),
    );
    let got = outcome.expect("a transport-marked empty day is not an error");
    assert!(got.is_empty());
}

#[test]
fn corrupt_disk_entries_fail_the_fetch_until_they_expire() {
    let mut client = ApiClient::new(Config::default(), identity(3, 5, 42));
    let d = date(2024, 1, 15);
    client.seed_corrupt_cache_entry(42, &d, 1_000);
    assert!(matches!(
        client.fetch_prepare(&d, 1_100),
        Err(ApiError::Cache(CacheError::Decode))
    ));
    // Past the time-to-live the corrupt entry expires like any other.
    assert!(matches!(client.fetch_prepare(&d, 1_000 + 3601).unwrap(), FetchStep::Remote(42)));
}

#[test]
fn hard_transport_failure_is_surfaced() {
    let mut client = ApiClient::new(Config::default(), identity(3, 5, 42));
    let d = date(2024, 1, 15);
    let outcome = client.fetch_finish(
        &d,
        1_000,
        Err(RemoteError { message: "connection refused".to_owned(), empty_result: false }),
    );
    match outcome {
        Err(ApiError::Network(m)) => assert_eq!(m, "connection refused"),
        other => panic!("expected a network error, got {:?}", other),
    }
}

#[test]
fn fetch_with_clock_before_write_surfaces_a_cache_error() {
    let mut client = ApiClient::new(Config::default(), identity(3, 5, 42));
    let d = date(2024, 1, 15);
    client.fetch_finish(&d, 1_000, Ok(schedules_for(42, "Algebra"))).unwrap();
    assert!(matches!(
        client.fetch_prepare(&d, 500),
        Err(ApiError::Cache(CacheError::Io))
    ));
}

#[test]
fn fetch_without_group_fails() {
    let mut client = ApiClient::new_base(Config::default());
    let d = date(2024, 1, 15);
    assert!(matches!(client.fetch_prepare(&d, 1_000), Err(ApiError::GroupNotSet)));
}

#[test]
fn reconfigure_same_group_purges_nothing() {
    let mut client = ApiClient::new(Config::default(), identity(3, 5, 42));
    let d = date(2024, 1, 15);
    client.fetch_finish(&d, 1_000, Ok(schedules_for(42, "Algebra"))).unwrap();

    // Same group, different college: no purge, the entry stays.
    let mut config = Config::default();
    config.set_college(9, Some("Other".to_owned()));
    let purged = client.reconfigure_apply(config, identity(9, 5, 42));
    assert!(purged.is_none());
    match client.fetch_prepare(&d, 1_100).unwrap() {
        FetchStep::Done(v) => assert_eq!(v[0].lessons[0].title, "Algebra"),
        FetchStep::Remote(_) => panic!("the unchanged group's entry must survive"),
    }
}

#[test]
fn reconfigure_new_group_purges_exactly_the_old_one() {
    let mut client = ApiClient::new(Config::default(), identity(3, 5, 42));
    let d = date(2024, 1, 15);
    client.fetch_finish(&d, 1_000, Ok(schedules_for(42, "Algebra"))).unwrap();

    // Switch to group 7 and give it its own entry.
    let purged = client.reconfigure_apply(Config::default(), identity(3, 5, 7));
    assert_eq!(purged, Some(42));
    client.fetch_finish(&d, 1_010, Ok(schedules_for(7, "Chemistry"))).unwrap();

    // Switching back purges group 7; group 42's entry was already
    // purged on the way out, so its fetch misses too.
    let purged = client.reconfigure_apply(Config::default(), identity(3, 5, 42));
    assert_eq!(purged, Some(7));
    assert!(matches!(client.fetch_prepare(&d, 1_020).unwrap(), FetchStep::Remote(42)));

    // A pre-existing entry of the new group is left untouched.
    client.fetch_finish(&d, 1_030, Ok(schedules_for(42, "Algebra II"))).unwrap();
    let purged = client.reconfigure_apply(Config::default(), identity(3, 5, 9));
    assert_eq!(purged, Some(42));
    client.fetch_finish(&d, 1_040, Ok(schedules_for(9, "Biology"))).unwrap();
    let purged = client.reconfigure_apply(Config::default(), identity(3, 5, 9));
    assert!(purged.is_none());
    match client.fetch_prepare(&d, 1_050).unwrap() {
        FetchStep::Done(v) => assert_eq!(v[0].lessons[0].title, "Biology"),
        FetchStep::Remote(_) => panic!("the new group's own entry must survive"),
    }
}

#[test]
fn reconfigure_updates_cache_ttl() {
    let mut config = Config::default();
    let mut client = ApiClient::new(config.clone(), identity(3, 5, 42));
    let d = date(2024, 1, 15);
    client.fetch_finish(&d, 1_000, Ok(schedules_for(42, "Algebra"))).unwrap();

    // Shrink the time-to-live to one second; the old entry now expires.
    config.main.app.cache_ttl = 1;
    client.reconfigure_apply(config, identity(3, 5, 42));
    assert!(matches!(client.fetch_prepare(&d, 2_000).unwrap(), FetchStep::Remote(42)));
}

#[test]
fn clear_cache_drops_both_tiers() {
    let mut client = ApiClient::new(Config::default(), identity(3, 5, 42));
    let d = date(2024, 1, 15);
    client.fetch_finish(&d, 1_000, Ok(schedules_for(42, "Algebra"))).unwrap();
    let colleges = ListData::Colleges(vec![College { college_id: 3, name: "Tech".to_owned() }]);
    client.store_list(&ListKey::Colleges, colleges, 1_000);

    client.clear_cache().unwrap();

    assert!(matches!(client.fetch_prepare(&d, 1_001).unwrap(), FetchStep::Remote(42)));
    assert!(client.cached_list(&ListKey::Colleges, 1_001).is_none());
}

#[test]
fn cached_lists_serve_within_the_freshness_window() {
    let mut client = ApiClient::new(Config::default(), identity(3, 5, 42));
    let colleges = ListData::Colleges(vec![College { college_id: 3, name: "Tech".to_owned() }]);
    client.store_list(&ListKey::Colleges, colleges, 100);

    // 299 seconds later the capture is still fresh: no second fetch.
    match client.cached_list(&ListKey::Colleges, 399) {
        Some(ListData::Colleges(v)) => {
            assert_eq!(v.len(), 1);
            assert_eq!(v[0].college_id, 3);
            assert_eq!(v[0].name, "Tech");
        },
        other => panic!("expected a fresh college list, got {:?}", other),
    }
    // At 300 seconds the window has elapsed: the caller must fetch anew.
    assert!(client.cached_list(&ListKey::Colleges, 400).is_none());
    // Distinct keys do not shadow one another.
    assert!(client.cached_list(&ListKey::Campuses(3), 150).is_none());
}

#[test]
fn storing_a_list_again_restarts_its_window() {
    let mut client = ApiClient::new(Config::default(), identity(3, 5, 42));
    let one = ListData::Colleges(vec![College { college_id: 3, name: "Tech".to_owned() }]);
    client.store_list(&ListKey::Colleges, one, 100);
    assert!(client.cached_list(&ListKey::Colleges, 450).is_none());
    let two = ListData::Colleges(vec![College { college_id: 8, name: "Arts".to_owned() }]);
    client.store_list(&ListKey::Colleges, two, 450);
    match client.cached_list(&ListKey::Colleges, 700) {
        Some(ListData::Colleges(v)) => assert_eq!(v[0].college_id, 8),
        other => panic!("expected the refreshed list, got {:?}", other),
    }
}

#[test]
fn disabled_cache_always_goes_remote() {
    let mut config = Config::default();
    config.main.app.cache_enabled = false;
    let mut client = ApiClient::new(config, identity(3, 5, 42));
    let d = date(2024, 1, 15);
    client.fetch_finish(&d, 1_000, Ok(schedules_for(42, "Algebra"))).unwrap();
    assert!(matches!(client.fetch_prepare(&d, 1_001).unwrap(), FetchStep::Remote(42)));
}
