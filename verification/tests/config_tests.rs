use osatui::config::Config;
use osatui::keymap::{Key, KeyMap, KeyMapEntry};
use osatui::state::{AppMode, AppState, SelectionStage, SetupField};
use osatui::strutil::{contains_str, parse_u32, str_eq, trim_end_slashes, u32_to_string};
use osatui::theme::{dark_theme, Theme, ThemeConfig, ThemeEntry};
use osatui::models::College;
use osatui::utils::AppDate;

#[test]
fn config_accessors_round_trip() {
    let mut config = Config::default();
    assert_eq!(config.college_id(), 1);
    assert_eq!(config.campus_id(), 1);
    assert!(config.college_name().is_none());
    assert_eq!(config.cache_ttl(), 3600);
    assert_eq!(config.current_theme(), "dark");

    config.set_college(3, Some("Tech".to_owned()));
    config.set_campus(5, None);
    config.set_group(42, Some("CS-101".to_owned()));
    assert_eq!(config.college_id(), 3);
    assert_eq!(config.college_name(), Some("Tech"));
    assert_eq!(config.campus_id(), 5);
    assert!(config.campus_name().is_none());
    assert_eq!(config.group_id(), 42);
    assert_eq!(config.group_name(), Some("CS-101"));
}

#[test]
fn set_api_url_trims_trailing_slashes() {
    let mut config = Config::default();
    config.set_api_url("https://api.example.org///".to_owned());
    assert_eq!(config.api_url(), "https://api.example.org");
    config.set_api_url("https://api.example.org".to_owned());
    assert_eq!(config.api_url(), "https://api.example.org");
}

#[test]
fn keymap_parses_names_and_characters() {
    let entry = KeyMapEntry::Simple("Left".to_owned());
    assert_eq!(entry.parse(), Key::Left);
    let entry = KeyMapEntry::Simple("escape".to_owned());
    assert_eq!(entry.parse(), Key::Esc);
    let entry = KeyMapEntry::Simple("F2".to_owned());
    assert_eq!(entry.parse(), Key::F(2));
    let entry = KeyMapEntry::Simple("x".to_owned());
    assert_eq!(entry.parse(), Key::Char('x'));
    let entry = KeyMapEntry::WithModifier { key: "Tab".to_owned(), ctrl: true, alt: false };
    assert_eq!(entry.parse(), Key::Tab);
    let entry = KeyMapEntry::Simple("NoSuchKey".to_owned());
    assert_eq!(entry.parse(), Key::Null);
}

#[test]
fn default_keymap_is_the_documented_one() {
    let map = KeyMap::default();
    assert_eq!(map.prev_day(), Key::Left);
    assert_eq!(map.cur_day(), Key::Up);
    assert_eq!(map.next_day(), Key::Right);
    assert_eq!(map.selector(), Key::Char('o'));
    assert_eq!(map.settings(), Key::Char('s'));
    assert_eq!(map.exit(), Key::Char('q'));
}

#[test]
fn theme_colors_parse_hex_strings() {
    let dark = dark_theme();
    assert_eq!(dark.color("background"), (0x1e, 0x1e, 0x1e));
    assert_eq!(dark.color("header_bg"), (0x00, 0x64, 0xc8));
    assert_eq!(dark.color("table_header"), (0xff, 0xff, 0x00));
    // An unknown field falls back to white.
    assert_eq!(dark.color("no_such_field"), (255, 255, 255));
}

#[test]
fn malformed_theme_colors_fall_back_to_white() {
    let mut theme = dark_theme();
    theme.background = "#12".to_owned();
    assert_eq!(theme.color("background"), (255, 255, 255));
    theme.background = "#12zz56".to_owned();
    assert_eq!(theme.color("background"), (0x12, 255, 0x56));
}

#[test]
fn theme_lookup_falls_back_to_dark() {
    let entries = vec![ThemeEntry {
        name: "light".to_owned(),
        theme: Theme {
            background: "#ffffff".to_owned(),
            text: "#000000".to_owned(),
            header_bg: "#dddddd".to_owned(),
            header_fg: "#000000".to_owned(),
            table_header: "#222222".to_owned(),
            border: "#888888".to_owned(),
            highlight: "#ff0000".to_owned(),
        },
    }];
    let themes = ThemeConfig::from_entries(entries);
    assert_eq!(themes.get("light").background, "#ffffff");
    // Unknown names, and the appended built-in, both give dark.
    assert_eq!(themes.get("dark").background, "#1e1e1e");
    assert_eq!(themes.get("no_such_theme").background, "#1e1e1e");
}

#[test]
fn string_helpers_behave() {
    assert_eq!(u32_to_string(0), "0");
    assert_eq!(u32_to_string(1234), "1234");
    assert_eq!(u32_to_string(u32::MAX), "4294967295");

    assert!(str_eq("abc", "abc"));
    assert!(!str_eq("abc", "abd"));

    assert!(contains_str("expected a sequence of lessons", "expected a sequence"));
    assert!(contains_str("anything", ""));
    assert!(!contains_str("short", "longer than the haystack"));

    assert_eq!(trim_end_slashes("http://x///"), "http://x");
    assert_eq!(trim_end_slashes("http://x"), "http://x");
    assert_eq!(trim_end_slashes("///"), "");
}

#[test]
fn parse_u32_matches_std() {
    assert_eq!(parse_u32("123"), Some(123));
    assert_eq!(parse_u32("+7"), Some(7));
    assert_eq!(parse_u32("0"), Some(0));
    assert_eq!(parse_u32("4294967295"), Some(u32::MAX));
    assert_eq!(parse_u32("4294967296"), None);
    assert_eq!(parse_u32(""), None);
    assert_eq!(parse_u32("+"), None);
    assert_eq!(parse_u32("12a"), None);
    assert_eq!(parse_u32("-5"), None);
    // The same strings through std, for the cases std accepts.
    assert_eq!(parse_u32("987654"), "987654".parse::<u32>().ok());
}

#[test]
fn date_iso_is_year_first_and_zero_padded() {
    let d = AppDate { year: 2024, month: 1, day: 15 };
    assert_eq!(d.iso(), "2024-01-15");
    let d = AppDate { year: 987, month: 11, day: 3 };
    assert_eq!(d.iso(), "0987-11-03");
}

#[test]
fn date_navigation_crosses_month_and_year_bounds() {
    let d = AppDate { year: 2024, month: 2, day: 28 };
    assert_eq!(d.next(), AppDate { year: 2024, month: 2, day: 29 });
    let d = AppDate { year: 2023, month: 2, day: 28 };
    assert_eq!(d.next(), AppDate { year: 2023, month: 3, day: 1 });
    let d = AppDate { year: 2023, month: 12, day: 31 };
    assert_eq!(d.next(), AppDate { year: 2024, month: 1, day: 1 });
    let d = AppDate { year: 2024, month: 1, day: 1 };
    assert_eq!(d.prev(), AppDate { year: 2023, month: 12, day: 31 });
    let d = AppDate { year: 2024, month: 3, day: 1 };
    assert_eq!(d.prev(), AppDate { year: 2024, month: 2, day: 29 });
}

#[test]
fn date_format_relative_names_neighbouring_days() {
    let today = AppDate { year: 2024, month: 1, day: 15 };
    assert_eq!(today.format_relative(&today), "Сегодня");
    assert_eq!(today.next().format_relative(&today), "Завтра");
    assert_eq!(today.prev().format_relative(&today), "Вчера");
    let far = AppDate { year: 2024, month: 3, day: 5 };
    assert_eq!(far.format_relative(&today), "05 March 2024");
}

#[test]
fn state_pagination_walks_pages() {
    let mut state = AppState::new(Config::default());
    state.mode = AppMode::Selector;
    state.selection_stage = SelectionStage::College;
    for i in 0..45u32 {
        state.colleges.push(College { college_id: i, name: format!("College {}", i) });
    }

    // Jump to the last row of the first page.
    for _ in 0..19 {
        state.next_item();
    }
    assert_eq!((state.page, state.selected_index), (0, 19));
    // One more step flows onto the next page.
    state.next_item();
    assert_eq!((state.page, state.selected_index), (1, 0));
    // Page jumps.
    state.next_page();
    assert_eq!((state.page, state.selected_index), (2, 0));
    // The last page has 5 items; stepping beyond the end stays put.
    for _ in 0..10 {
        state.next_item();
    }
    assert_eq!((state.page, state.selected_index), (2, 4));
    // Selection resolves to the absolute index.
    assert_eq!(state.get_selected_college().unwrap().college_id, 44);
    // And back up across the page boundary.
    state.prev_page();
    assert_eq!((state.page, state.selected_index), (1, 0));
    state.prev_item();
    assert_eq!((state.page, state.selected_index), (0, 19));
}

#[test]
fn state_setup_screen_seeds_from_config() {
    let mut config = Config::default();
    config.set_college(7, None);
    config.set_campus(12, None);
    config.set_group(0, Some("CS-101".to_owned()));
    let mut state = AppState::new(config);
    state.enter_setup();
    assert_eq!(state.mode, AppMode::Setup);
    assert_eq!(state.setup_field, SetupField::ApiUrl);
    assert_eq!(state.setup_college_id, "7");
    assert_eq!(state.setup_campus_id, "12");
    assert_eq!(state.setup_group_name, "CS-101");

    state.setup_next_field();
    assert_eq!(state.setup_field, SetupField::CollegeId);
    state.setup_prev_field();
    state.setup_prev_field();
    assert_eq!(state.setup_field, SetupField::GroupName);
}

#[test]
fn state_error_messages_expire() {
    let mut state = AppState::new(Config::default());
    state.set_error_message("boom".to_owned(), 1_000);
    assert_eq!(state.error_message.as_deref(), Some("boom"));
    state.clear_error_if_expired(1_003);
    assert!(state.error_message.is_some());
    state.clear_error_if_expired(1_006);
    assert!(state.error_message.is_none());
}

#[test]
fn state_enter_selector_resets_picks() {
    let mut state = AppState::new(Config::default());
    state.selected_index = 5;
    state.page = 2;
    state.enter_selector(SelectionStage::Campus);
    assert_eq!(state.mode, AppMode::Selector);
    assert_eq!(state.selection_stage, SelectionStage::Campus);
    assert_eq!((state.page, state.selected_index), (0, 0));
    assert!(state.selected_college.is_none());
    state.enter_normal();
    assert_eq!(state.mode, AppMode::Normal);
}
