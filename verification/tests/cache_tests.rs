use osatui::cache::CacheManager;
use osatui::error::CacheError;
use osatui::models::{Lesson, Schedule};
use osatui::utils::AppDate;

fn date(year: u32, month: u32, day: u32) -> AppDate {
    AppDate { year, month, day }
}

fn sample_schedules(group_id: u32) -> Vec<Schedule> {
    vec![Schedule {
        group_id,
        date: date(2024, 1, 15),
        lessons: vec![Lesson {
            title: "Mathematics".to_owned(),
            cabinet: "201".to_owned(),
            teacher: "Ivanov".to_owned(),
            order: 1,
            start_minute: 8 * 60 + 30,
            end_minute: 10 * 60,
        }],
    }]
}

fn assert_same_schedules(a: &[Schedule], b: &[Schedule]) {
    assert_eq!(a.len(), b.len());
    for (x, y) in a.iter().zip(b.iter()) {
        assert_eq!(x.group_id, y.group_id);
        assert_eq!(x.date, y.date);
        assert_eq!(x.lessons.len(), y.lessons.len());
        for (lx, ly) in x.lessons.iter().zip(y.lessons.iter()) {
            assert_eq!(lx.title, ly.title);
            assert_eq!(lx.cabinet, ly.cabinet);
            assert_eq!(lx.teacher, ly.teacher);
            assert_eq!(lx.order, ly.order);
            assert_eq!(lx.start_minute, ly.start_minute);
            assert_eq!(lx.end_minute, ly.end_minute);
        }
    }
}

#[test]
fn set_then_get_round_trips() {
    let mut cache = CacheManager::new(3600);
    cache.set_group_id(42);
    let d = date(2024, 1, 15);
    let data = sample_schedules(42);
    cache.set(&d, &data, 1_000).unwrap();
    let got = cache.get(&d, 1_050).unwrap().expect("fresh entry expected");
    assert_same_schedules(&got, &data);
}

#[test]
fn get_expired_entry_misses_and_deletes() {
    let mut cache = CacheManager::new(3600);
    cache.set_group_id(42);
    let d = date(2024, 1, 15);
    let data = sample_schedules(42);
    cache.set(&d, &data, 1_000).unwrap();
    // One second past the time-to-live: miss, and the entry is deleted.
    assert!(cache.get(&d, 1_000 + 3601).unwrap().is_none());
    // Even a fresh-looking read now misses: the entry no longer exists.
    assert!(cache.get(&d, 1_001).unwrap().is_none());
}

#[test]
fn get_at_exact_ttl_is_still_fresh() {
    let mut cache = CacheManager::new(3600);
    cache.set_group_id(42);
    let d = date(2024, 1, 15);
    let data = sample_schedules(42);
    cache.set(&d, &data, 1_000).unwrap();
    assert!(cache.get(&d, 1_000 + 3600).unwrap().is_some());
}

#[test]
fn get_with_clock_before_write_is_an_error() {
    let mut cache = CacheManager::new(3600);
    cache.set_group_id(42);
    let d = date(2024, 1, 15);
    let data = sample_schedules(42);
    cache.set(&d, &data, 1_000).unwrap();
    assert!(matches!(cache.get(&d, 500), Err(CacheError::Io)));
}

#[test]
fn clear_group_removes_only_that_group() {
    let mut cache = CacheManager::new(3600);
    let d = date(2024, 1, 15);
    cache.set_group_id(42);
    cache.set(&d, &sample_schedules(42), 1_000).unwrap();
    cache.set_group_id(7);
    cache.set(&d, &sample_schedules(7), 1_000).unwrap();

    cache.clear_group(42).unwrap();

    // The other group's entry is still retrievable.
    let got = cache.get(&d, 1_001).unwrap().expect("group 7 should remain");
    assert_eq!(got[0].group_id, 7);
    // The purged group's entry is gone.
    cache.set_group_id(42);
    assert!(cache.get(&d, 1_001).unwrap().is_none());
}

#[test]
fn clear_removes_every_group() {
    let mut cache = CacheManager::new(3600);
    let d = date(2024, 1, 15);
    cache.set_group_id(42);
    cache.set(&d, &sample_schedules(42), 1_000).unwrap();
    cache.set_group_id(7);
    cache.set(&d, &sample_schedules(7), 1_000).unwrap();

    cache.clear().unwrap();

    assert!(cache.get(&d, 1_001).unwrap().is_none());
    cache.set_group_id(42);
    assert!(cache.get(&d, 1_001).unwrap().is_none());
}

#[test]
fn set_overwrites_previous_entry() {
    let mut cache = CacheManager::new(3600);
    cache.set_group_id(42);
    let d = date(2024, 1, 15);
    cache.set(&d, &sample_schedules(42), 1_000).unwrap();
    let mut newer = sample_schedules(42);
    newer[0].lessons[0].title = "Physics".to_owned();
    cache.set(&d, &newer, 2_000).unwrap();
    let got = cache.get(&d, 2_001).unwrap().expect("fresh entry expected");
    assert_eq!(got[0].lessons[0].title, "Physics");
}

#[test]
fn update_ttl_governs_later_reads() {
    let mut cache = CacheManager::new(10);
    cache.set_group_id(42);
    let d = date(2024, 1, 15);
    cache.set(&d, &sample_schedules(42), 1_000).unwrap();
    cache.update_ttl(1_000_000);
    // Under the old time-to-live this read would have expired the entry.
    assert!(cache.get(&d, 5_000).unwrap().is_some());
}

#[test]
fn cache_file_names_embed_group_and_date() {
    let mut cache = CacheManager::new(3600);
    let d = date(2024, 1, 15);
    assert_eq!(cache.cache_file_name(&d), "2024-01-15.json");
    cache.set_group_id(42);
    assert_eq!(cache.cache_file_name(&d), "42-2024-01-15.json");
    let d2 = date(987, 11, 3);
    assert_eq!(cache.cache_file_name(&d2), "42-0987-11-03.json");
}

#[test]
fn corrupt_entries_surface_a_decode_error_until_they_expire() {
    let mut cache = CacheManager::new(3600);
    cache.seed_corrupt(42, &date(2024, 1, 15), 1_000);
    cache.set_group_id(42);
    // Fresh and corrupt: a hard decode error, and the entry stays.
    assert!(matches!(cache.get(&date(2024, 1, 15), 1_100), Err(CacheError::Decode)));
    assert!(matches!(cache.get(&date(2024, 1, 15), 1_200), Err(CacheError::Decode)));
    // Once expired it is deleted and reads like any other miss.
    assert!(cache.get(&date(2024, 1, 15), 1_000 + 3601).unwrap().is_none());
    assert!(cache.get(&date(2024, 1, 15), 1_100).unwrap().is_none());
}

#[test]
fn entries_of_different_groups_do_not_collide() {
    let mut a = CacheManager::new(3600);
    a.set_group_id(42);
    let mut b = CacheManager::new(3600);
    b.set_group_id(421);
    let d1 = date(2024, 1, 15);
    let d5 = date(2024, 1, 5);
    assert_ne!(a.cache_file_name(&d1), b.cache_file_name(&d5));
    assert_ne!(a.cache_file_name(&d1), b.cache_file_name(&d1));
}
