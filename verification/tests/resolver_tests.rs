use osatui::config::Api;
use osatui::error::{ApiError, EntityKind};
use osatui::models::{Campus, College, Group};
use osatui::resolver::{Resolution, ResolveQuery};

fn api_section(
    college_name: Option<&str>,
    college_id: u32,
    campus_name: Option<&str>,
    campus_id: u32,
    group_name: Option<&str>,
    group_id: u32,
) -> Api {
    Api {
        url: "http://localhost:8080".to_owned(),
        college_id,
        college_name: college_name.map(|s| s.to_owned()),
        campus_id,
        campus_name: campus_name.map(|s| s.to_owned()),
        group_id,
        group_name: group_name.map(|s| s.to_owned()),
    }
}

#[test]
fn resolves_names_against_mock_service() {
    // College by name, campus by ID, group by name.
    let api = api_section(Some("Tech"), 0, None, 5, Some("CS-101"), 0);
    let mut r = Resolution::start(api);

    match r.next_query() {
        Some(ResolveQuery::Colleges { name }) => assert_eq!(name, "Tech"),
        other => panic!("expected a college query, got {:?}", other),
    }
    r.apply_colleges(&vec![College { college_id: 3, name: "Tech".to_owned() }])
        .unwrap();

    match r.next_query() {
        Some(ResolveQuery::Groups { campus_id, name }) => {
            assert_eq!(campus_id, 5);
            assert_eq!(name, "CS-101");
        },
        other => panic!("expected a group query, got {:?}", other),
    }
    r.apply_groups(&vec![Group { id: 42, name: "CS-101".to_owned(), campus_id: 5 }])
        .unwrap();

    let id = r.identity().expect("identity should be resolved");
    assert_eq!(id.college_id, 3);
    assert_eq!(id.campus_id, 5);
    assert_eq!(id.group_id, 42);
    assert!(r.next_query().is_none());
}

#[test]
fn numeric_configuration_needs_no_queries() {
    let api = api_section(None, 3, None, 5, None, 42);
    let r = Resolution::start(api);
    assert!(r.next_query().is_none());
    let id = r.identity().unwrap();
    assert_eq!((id.college_id, id.campus_id, id.group_id), (3, 5, 42));
}

#[test]
fn campus_matches_case_insensitively_by_substring() {
    let api = api_section(None, 3, Some("NoRtH"), 0, None, 42);
    let mut r = Resolution::start(api);
    match r.next_query() {
        Some(ResolveQuery::Campuses { college_id }) => assert_eq!(college_id, 3),
        other => panic!("expected a campus query, got {:?}", other),
    }
    let campuses = vec![
        Campus { id: 1, name: "South Campus".to_owned(), college_id: 3 },
        Campus { id: 2, name: "NORTH Campus".to_owned(), college_id: 3 },
        Campus { id: 9, name: "North Annex".to_owned(), college_id: 3 },
    ];
    r.apply_campuses(&campuses).unwrap();
    let id = r.identity().unwrap();
    // The first case-insensitive substring match wins.
    assert_eq!(id.campus_id, 2);
}

#[test]
fn unmatched_college_name_is_fatal() {
    let api = api_section(Some("Nowhere"), 0, None, 5, None, 42);
    let mut r = Resolution::start(api);
    let err = r.apply_colleges(&vec![]).unwrap_err();
    match err {
        ApiError::NotFound { kind, name } => {
            assert_eq!(kind, EntityKind::College);
            assert_eq!(name, "Nowhere");
        },
        other => panic!("expected a not-found error, got {:?}", other),
    }
    assert!(r.identity().is_none());
}

#[test]
fn unmatched_campus_name_is_fatal() {
    let api = api_section(None, 3, Some("Nowhere"), 0, None, 42);
    let mut r = Resolution::start(api);
    let campuses = vec![Campus { id: 1, name: "South Campus".to_owned(), college_id: 3 }];
    let err = r.apply_campuses(&campuses).unwrap_err();
    assert!(matches!(err, ApiError::NotFound { kind: EntityKind::Campus, .. }));
}

#[test]
fn unmatched_group_name_is_fatal() {
    let api = api_section(None, 3, None, 5, Some("ZZ-999"), 0);
    let mut r = Resolution::start(api);
    let err = r.apply_groups(&vec![]).unwrap_err();
    assert!(matches!(err, ApiError::NotFound { kind: EntityKind::Group, .. }));
}
