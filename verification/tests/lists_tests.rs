use osatui::lists::{ListData, ListKey, ListsCache};
use osatui::models::College;

fn college_list(id: u32) -> ListData {
    ListData::Colleges(vec![College { college_id: id, name: format!("College {}", id) }])
}

#[test]
fn get_or_fetch_fetches_once_per_window() {
    let mut cache = ListsCache::new();
    let mut calls = 0u32;

    // First access: a miss, one fetch.
    let got = cache.get_or_fetch(&ListKey::Colleges, 100, || {
        calls += 1;
        Ok::<_, String>(college_list(3))
    });
    assert!(matches!(got, Ok(ListData::Colleges(_))));
    assert_eq!(calls, 1);

    // Second access inside the freshness window: served from memory,
    // the fetch function is not invoked again.
    let got = cache.get_or_fetch(&ListKey::Colleges, 399, || {
        calls += 1;
        Ok::<_, String>(college_list(4))
    });
    match got {
        Ok(ListData::Colleges(v)) => assert_eq!(v[0].college_id, 3),
        other => panic!("expected the cached list, got {:?}", other),
    }
    assert_eq!(calls, 1);

    // Once the window has elapsed, the fetch function runs again.
    let got = cache.get_or_fetch(&ListKey::Colleges, 400, || {
        calls += 1;
        Ok::<_, String>(college_list(5))
    });
    match got {
        Ok(ListData::Colleges(v))  => assert_eq!(v[0].college_id, 5),
        other => panic!("expected a refetched list, got {:?}", other),
    }
    assert_eq!(calls, 2);
}

#[test]
fn get_or_fetch_hands_fetch_failures_through() {
    let mut cache = ListsCache::new();
    let got = cache.get_or_fetch(&ListKey::Groups(5), 100, || {
        Err::<ListData, String>("connection refused".to_owned())
    });
    assert_eq!(got.unwrap_err(), "connection refused");
    // Nothing was stored: the next access fetches.
    let got = cache.get_or_fetch(&ListKey::Groups(5), 101, || Ok::<_, String>(college_list(9)));
    assert!(got.is_ok());
}

#[test]
fn clear_drops_fresh_entries_too() {
    let mut cache = ListsCache::new();
    cache.store(&ListKey::Colleges, college_list(3), 100);
    cache.clear();
    assert!(cache.lookup(&ListKey::Colleges, 101).is_none());
}
