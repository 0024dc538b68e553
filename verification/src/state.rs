//! The interactive application's state: the current mode, the shown
//! day, the loaded reference lists and the paged selection over them.

use vstd::prelude::*;

use crate::config::Config;
use crate::models::{Campus, College, Group, Schedule};
use crate::utils::AppDate;

verus! {

/// Which screen the application is on.
#[derive(Debug, Clone, Copy, PartialEq, Eq, Structural)]
pub enum AppMode {
    Normal,
    Selector,
    Setup,
}

/// Which input field of the setup screen is active.
#[derive(Debug, Clone, Copy, PartialEq, Eq, Structural)]
pub enum SetupField {
    ApiUrl,
    CollegeId,
    CampusId,
    GroupName,
}

/// Which entity the selector is currently choosing.
#[derive(Debug, Clone, Copy, PartialEq, Eq, Structural)]
pub enum SelectionStage {
    College,
    Campus,
    Group,
}

/// How many seconds an error message stays on screen.
pub const ERROR_DISPLAY_SECONDS: u64 = 5;

/// The whole interactive state.
pub struct AppState {
    pub mode: AppMode,
    pub config: Config,
    pub current_date: AppDate,
    pub schedules: Vec<Schedule>,
    pub selection_stage: SelectionStage,
    pub colleges: Vec<College>,
    pub campuses: Vec<Campus>,
    pub groups: Vec<Group>,
    pub selected_index: usize,
    pub page: usize,
    pub page_size: usize,
    pub selected_college: Option<College>,
    pub selected_campus: Option<Campus>,
    pub setup_field: SetupField,
    pub setup_api_url: String,
    pub setup_college_id: String,
    pub setup_campus_id: String,
    pub setup_group_name: String,
    pub error_message: Option<String>,
    pub error_timeout: Option<u64>,
}

/// A page whose number is at most `count / ps` starts at or before
/// `count`.
proof fn lemma_sane_start(page: int, ps: int, count: int)
    requires
        ps > 0,
        0 <= page,
        page <= count / ps,
        0 <= count,
    ensures
        page * ps <= count,
{
    vstd::arithmetic::mul::lemma_mul_inequality(page, count / ps, ps);
    vstd::arithmetic::div_mod::lemma_fundamental_div_mod(count, ps);
    vstd::arithmetic::div_mod::lemma_mod_division_less_than_divisor(count, ps);
}

impl AppState {
    /// How many items the active selection stage offers.
    pub open spec fn spec_current_count(self) -> int {
        match self.selection_stage {
            SelectionStage::College => self.colleges@.len() as int,
            SelectionStage::Campus => self.campuses@.len() as int,
            SelectionStage::Group => self.groups@.len() as int,
        }
    }

    /// The loaded lists and the picks made so far.
    pub open spec fn spec_lists_part(self) -> (
        Vec<College>,
        Vec<Campus>,
        Vec<Group>,
        Option<College>,
        Option<Campus>,
    ) {
        (self.colleges, self.campuses, self.groups, self.selected_college, self.selected_campus)
    }

    /// The setup screen's fields.
    pub open spec fn spec_setup_part(self) -> (SetupField, String, String, String, String) {
        (
            self.setup_field,
            self.setup_api_url,
            self.setup_college_id,
            self.setup_campus_id,
            self.setup_group_name,
        )
    }

    /// The error display.
    pub open spec fn spec_error_part(self) -> (Option<String>, Option<u64>) {
        (self.error_message, self.error_timeout)
    }

    /// The shown day and its schedules.
    pub open spec fn spec_day_part(self) -> (AppDate, Vec<Schedule>) {
        (self.current_date, self.schedules)
    }

    /// The paging state: page, selected row, page size.
    pub open spec fn spec_pane(self) -> (usize, usize, usize) {
        (self.page, self.selected_index, self.page_size)
    }

    /// A sane pane: a positive page size, the page start inside the
    /// list, the selected row inside the page.
    pub open spec fn spec_pane_sane(self) -> bool {
        &&& self.page_size > 0
        &&& self.page <= self.spec_current_count() / (self.page_size as int)
        &&& self.selected_index < self.page_size
    }

    /// A fresh state on the normal screen, showing today with nothing
    /// loaded yet and twenty rows per selector page.
    pub fn new(config: Config) -> (r: AppState)
        ensures
            r.mode == AppMode::Normal,
            r.config == config,
            r.current_date.wf(),
            r.schedules@.len() == 0,
            r.selection_stage == SelectionStage::College,
            r.colleges@.len() == 0,
            r.campuses@.len() == 0,
            r.groups@.len() == 0,
            r.selected_index == 0,
            r.page == 0,
            r.page_size == 20,
            r.selected_college is None,
            r.selected_campus is None,
            r.setup_field == SetupField::ApiUrl,
            r.setup_api_url@.len() == 0,
            r.setup_college_id@.len() == 0,
            r.setup_campus_id@.len() == 0,
            r.setup_group_name@.len() == 0,
            r.error_message is None,
            r.error_timeout is None,
            r.spec_pane_sane(),
    {
        AppState {
            mode: AppMode::Normal,
            config,
            current_date: AppDate::today(),
            schedules: Vec::new(),
            selection_stage: SelectionStage::College,
            colleges: Vec::new(),
            campuses: Vec::new(),
            groups: Vec::new(),
            selected_index: 0,
            page: 0,
            page_size: 20,
            selected_college: None,
            selected_campus: None,
            setup_field: SetupField::ApiUrl,
            setup_api_url: String::new(),
            setup_college_id: String::new(),
            setup_campus_id: String::new(),
            setup_group_name: String::new(),
            error_message: None,
            error_timeout: None,
        }
    }

    /// How many items the active selection stage offers.
    fn current_items_count(&self) -> (r: usize)
        ensures
            r == self.spec_current_count(),
    {
        match self.selection_stage {
            SelectionStage::College => self.colleges.len(),
            SelectionStage::Campus => self.campuses.len(),
            SelectionStage::Group => self.groups.len(),
        }
    }

    /// True when everything but the page and the selected row is kept.
    pub open spec fn same_but_pane(pre: AppState, post: AppState) -> bool {
        &&& post.mode == pre.mode
        &&& post.config == pre.config
        &&& post.spec_day_part() == pre.spec_day_part()
        &&& post.selection_stage == pre.selection_stage
        &&& post.spec_lists_part() == pre.spec_lists_part()
        &&& post.spec_setup_part() == pre.spec_setup_part()
        &&& post.spec_error_part() == pre.spec_error_part()
        &&& post.page_size == pre.page_size
    }

    /// Moves the selection one row down, flowing onto the next page
    /// when the current one is exhausted.
    pub fn next_item(&mut self)
        ensures
            AppState::same_but_pane(*old(self), *final(self)),
            old(self).spec_pane_sane() ==> final(self).spec_pane_sane(),
            old(self).spec_pane_sane() ==> {
                let count = old(self).spec_current_count();
                let start = (old(self).page as int) * (old(self).page_size as int);
                let visible = if (old(self).page_size as int) < count - start {
                    old(self).page_size as int
                } else {
                    count - start
                };
                if count == 0 {
                    final(self).spec_pane() == old(self).spec_pane()
                } else if old(self).selected_index + 1 >= visible {
                    if (old(self).page as int) < (count - 1) / (old(self).page_size as int) {
                        final(self).page == old(self).page + 1 && final(self).selected_index == 0
                    } else {
                        final(self).spec_pane() == old(self).spec_pane()
                    }
                } else {
                    final(self).page == old(self).page && final(self).selected_index == old(
                        self,
                    ).selected_index + 1
                }
            },
    {
        let count = self.current_items_count();
        if count == 0 {
            return;
        }
        if self.page_size == 0 {
            return;
        }
        proof {
            if old(self).spec_pane_sane() {
                lemma_sane_start(
                    old(self).page as int,
                    old(self).page_size as int,
                    old(self).spec_current_count(),
                );
            }
        }
        let start = match self.page.checked_mul(self.page_size) {
            Some(s) => s,
            None => {
                return;
            },
        };
        if start > count {
            return;
        }
        let visible = if self.page_size < count - start {
            self.page_size
        } else {
            count - start
        };
        if self.selected_index >= visible || self.selected_index + 1 >= visible {
            let total_pages = (count - 1) / self.page_size + 1;
            if self.page < total_pages - 1 {
                proof {
                    vstd::arithmetic::div_mod::lemma_div_is_ordered(
                        count - 1,
                        count as int,
                        self.page_size as int,
                    );
                }
                self.page = self.page + 1;
                self.selected_index = 0;
            }
        } else {
            self.selected_index = self.selected_index + 1;
        }
    }

    /// Moves the selection one row up, flowing back onto the previous
    /// page's last row.
    pub fn prev_item(&mut self)
        ensures
            AppState::same_but_pane(*old(self), *final(self)),
            old(self).spec_pane_sane() ==> final(self).spec_pane_sane(),
            old(self).spec_pane_sane() ==> {
                let count = old(self).spec_current_count();
                if old(self).selected_index > 0 {
                    final(self).page == old(self).page && final(self).selected_index == old(
                        self,
                    ).selected_index - 1
                } else if old(self).page > 0 {
                    let start = ((old(self).page - 1) as int) * (old(self).page_size as int);
                    let visible = if (old(self).page_size as int) < count - start {
                        old(self).page_size as int
                    } else {
                        count - start
                    };
                    final(self).page == old(self).page - 1 && final(self).selected_index == (if
                        visible > 0 {
                        visible - 1
                    } else {
                        0
                    })
                } else {
                    final(self).spec_pane() == old(self).spec_pane()
                }
            },
    {
        if self.selected_index > 0 {
            self.selected_index = self.selected_index - 1;
            return;
        }
        if self.page == 0 {
            return;
        }
        self.page = self.page - 1;
        let count = self.current_items_count();
        if self.page_size == 0 {
            self.selected_index = 0;
            return;
        }
        proof {
            if old(self).spec_pane_sane() {
                lemma_sane_start(
                    self.page as int,
                    self.page_size as int,
                    old(self).spec_current_count(),
                );
            }
        }
        let start = match self.page.checked_mul(self.page_size) {
            Some(s) => s,
            None => {
                self.selected_index = 0;
                return;
            },
        };
        if start > count {
            self.selected_index = 0;
            return;
        }
        let visible = if self.page_size < count - start {
            self.page_size
        } else {
            count - start
        };
        self.selected_index = if visible > 0 {
            visible - 1
        } else {
            0
        };
    }

    /// Jumps to the next page, selecting its first row.
    pub fn next_page(&mut self)
        ensures
            AppState::same_but_pane(*old(self), *final(self)),
            old(self).spec_pane_sane() ==> final(self).spec_pane_sane(),
            old(self).spec_pane_sane() ==> {
                let count = old(self).spec_current_count();
                if count > 0 && (old(self).page as int) < (count - 1) / (
                old(self).page_size as int) {
                    final(self).page == old(self).page + 1 && final(self).selected_index == 0
                } else {
                    final(self).spec_pane() == old(self).spec_pane()
                }
            },
    {
        let count = self.current_items_count();
        if count == 0 || self.page_size == 0 {
            return;
        }
        let total_pages = (count - 1) / self.page_size + 1;
        if self.page < total_pages - 1 {
            proof {
                vstd::arithmetic::div_mod::lemma_div_is_ordered(
                    count - 1,
                    count as int,
                    self.page_size as int,
                );
            }
            self.page = self.page + 1;
            self.selected_index = 0;
        }
    }

    /// Jumps to the previous page, selecting its first row.
    pub fn prev_page(&mut self)
        ensures
            AppState::same_but_pane(*old(self), *final(self)),
            old(self).spec_pane_sane() ==> final(self).spec_pane_sane(),
            old(self).page > 0 ==> final(self).page == old(self).page - 1
                && final(self).selected_index == 0,
            old(self).page == 0 ==> final(self).spec_pane() == old(self).spec_pane(),
    {
        if self.page > 0 {
            self.page = self.page - 1;
            self.selected_index = 0;
        }
    }

    /// The college the selection currently points at.
    pub fn get_selected_college(&self) -> (r: Option<&College>)
        ensures
            ({
                let idx = (self.page as int) * (self.page_size as int) + (
                self.selected_index as int);
                match r {
                    Some(c) => idx < self.colleges@.len() && *c == self.colleges@[idx],
                    None => idx >= self.colleges@.len(),
                }
            }),
    {
        let n = self.colleges.len();
        let idx = match self.page.checked_mul(self.page_size) {
            Some(s) => match s.checked_add(self.selected_index) {
                Some(i) => i,
                None => {
                    return None;
                },
            },
            None => {
                return None;
            },
        };
        if idx < n {
            Some(&self.colleges[idx])
        } else {
            None
        }
    }

    /// The campus the selection currently points at.
    pub fn get_selected_campus(&self) -> (r: Option<&Campus>)
        ensures
            ({
                let idx = (self.page as int) * (self.page_size as int) + (
                self.selected_index as int);
                match r {
                    Some(c) => idx < self.campuses@.len() && *c == self.campuses@[idx],
                    None => idx >= self.campuses@.len(),
                }
            }),
    {
        let n = self.campuses.len();
        let idx = match self.page.checked_mul(self.page_size) {
            Some(s) => match s.checked_add(self.selected_index) {
                Some(i) => i,
                None => {
                    return None;
                },
            },
            None => {
                return None;
            },
        };
        if idx < n {
            Some(&self.campuses[idx])
        } else {
            None
        }
    }

    /// The group the selection currently points at.
    pub fn get_selected_group(&self) -> (r: Option<&Group>)
        ensures
            ({
                let idx = (self.page as int) * (self.page_size as int) + (
                self.selected_index as int);
                match r {
                    Some(g) => idx < self.groups@.len() && *g == self.groups@[idx],
                    None => idx >= self.groups@.len(),
                }
            }),
    {
        let n = self.groups.len();
        let idx = match self.page.checked_mul(self.page_size) {
            Some(s) => match s.checked_add(self.selected_index) {
                Some(i) => i,
                None => {
                    return None;
                },
            },
            None => {
                return None;
            },
        };
        if idx < n {
            Some(&self.groups[idx])
        } else {
            None
        }
    }

    /// Opens the selector at the given stage, with a reset selection
    /// and no picks.
    pub fn enter_selector(&mut self, stage: SelectionStage)
        ensures
            final(self).mode == AppMode::Selector,
            final(self).selection_stage == stage,
            final(self).selected_index == 0,
            final(self).page == 0,
            final(self).selected_college is None,
            final(self).selected_campus is None,
            final(self).config == old(self).config,
            final(self).spec_day_part() == old(self).spec_day_part(),
            final(self).colleges == old(self).colleges,
            final(self).campuses == old(self).campuses,
            final(self).groups == old(self).groups,
            final(self).page_size == old(self).page_size,
            final(self).spec_setup_part() == old(self).spec_setup_part(),
            final(self).spec_error_part() == old(self).spec_error_part(),
    {
        self.mode = AppMode::Selector;
        self.selection_stage = stage;
        self.selected_index = 0;
        self.page = 0;
        self.selected_college = None;
        self.selected_campus = None;
    }

    /// Opens the setup screen, seeding its fields from the active
    /// configuration.
    pub fn enter_setup(&mut self)
        ensures
            final(self).mode == AppMode::Setup,
            final(self).setup_field == SetupField::ApiUrl,
            final(self).setup_api_url@ == old(self).config.main.api.url@,
            final(self).setup_college_id@ == crate::strutil::spec_dec(
                old(self).config.main.api.college_id as nat,
            ),
            final(self).setup_campus_id@ == crate::strutil::spec_dec(
                old(self).config.main.api.campus_id as nat,
            ),
            final(self).setup_group_name@ == match old(self).config.main.api.group_name {
                Some(n) => n@,
                None => Seq::<char>::empty(),
            },
            final(self).config == old(self).config,
            final(self).spec_day_part() == old(self).spec_day_part(),
            final(self).selection_stage == old(self).selection_stage,
            final(self).spec_lists_part() == old(self).spec_lists_part(),
            final(self).spec_pane() == old(self).spec_pane(),
            final(self).spec_error_part() == old(self).spec_error_part(),
    {
        self.mode = AppMode::Setup;
        self.setup_field = SetupField::ApiUrl;
        self.setup_api_url = self.config.main.api.url.clone();
        self.setup_college_id = crate::strutil::u32_to_string(self.config.main.api.college_id);
        self.setup_campus_id = crate::strutil::u32_to_string(self.config.main.api.campus_id);
        self.setup_group_name = match &self.config.main.api.group_name {
            Some(n) => n.clone(),
            None => String::new(),
        };
    }

    /// Moves the setup cursor to the next field, wrapping around.
    pub fn setup_next_field(&mut self)
        ensures
            final(self).setup_field == match old(self).setup_field {
                SetupField::ApiUrl => SetupField::CollegeId,
                SetupField::CollegeId => SetupField::CampusId,
                SetupField::CampusId => SetupField::GroupName,
                SetupField::GroupName => SetupField::ApiUrl,
            },
            final(self).mode == old(self).mode,
            final(self).config == old(self).config,
            final(self).spec_day_part() == old(self).spec_day_part(),
            final(self).selection_stage == old(self).selection_stage,
            final(self).spec_lists_part() == old(self).spec_lists_part(),
            final(self).spec_pane() == old(self).spec_pane(),
            final(self).setup_api_url == old(self).setup_api_url,
            final(self).setup_college_id == old(self).setup_college_id,
            final(self).setup_campus_id == old(self).setup_campus_id,
            final(self).setup_group_name == old(self).setup_group_name,
            final(self).spec_error_part() == old(self).spec_error_part(),
    {
        self.setup_field = match self.setup_field {
            SetupField::ApiUrl => SetupField::CollegeId,
            SetupField::CollegeId => SetupField::CampusId,
            SetupField::CampusId => SetupField::GroupName,
            SetupField::GroupName => SetupField::ApiUrl,
        };
    }

    /// Moves the setup cursor to the previous field, wrapping around.
    pub fn setup_prev_field(&mut self)
        ensures
            final(self).setup_field == match old(self).setup_field {
                SetupField::ApiUrl => SetupField::GroupName,
                SetupField::CollegeId => SetupField::ApiUrl,
                SetupField::CampusId => SetupField::CollegeId,
                SetupField::GroupName => SetupField::CampusId,
            },
            final(self).mode == old(self).mode,
            final(self).config == old(self).config,
            final(self).spec_day_part() == old(self).spec_day_part(),
            final(self).selection_stage == old(self).selection_stage,
            final(self).spec_lists_part() == old(self).spec_lists_part(),
            final(self).spec_pane() == old(self).spec_pane(),
            final(self).setup_api_url == old(self).setup_api_url,
            final(self).setup_college_id == old(self).setup_college_id,
            final(self).setup_campus_id == old(self).setup_campus_id,
            final(self).setup_group_name == old(self).setup_group_name,
            final(self).spec_error_part() == old(self).spec_error_part(),
    {
        self.setup_field = match self.setup_field {
            SetupField::ApiUrl => SetupField::GroupName,
            SetupField::CollegeId => SetupField::ApiUrl,
            SetupField::CampusId => SetupField::CollegeId,
            SetupField::GroupName => SetupField::CampusId,
        };
    }

    /// Returns to the normal screen and drops any error message.
    pub fn enter_normal(&mut self)
        ensures
            final(self).mode == AppMode::Normal,
            final(self).error_message is None,
            final(self).error_timeout == old(self).error_timeout,
            final(self).config == old(self).config,
            final(self).spec_day_part() == old(self).spec_day_part(),
            final(self).selection_stage == old(self).selection_stage,
            final(self).spec_lists_part() == old(self).spec_lists_part(),
            final(self).spec_pane() == old(self).spec_pane(),
            final(self).spec_setup_part() == old(self).spec_setup_part(),
    {
        self.mode = AppMode::Normal;
        self.error_message = None;
    }

    /// Shows an error message until a few seconds past `now`; the
    /// deadline saturates at the end of time.
    pub fn set_error_message(&mut self, msg: String, now: u64)
        ensures
            final(self).error_message matches Some(m) && m@ == msg@,
            final(self).error_timeout == Some(
                if now + ERROR_DISPLAY_SECONDS <= u64::MAX {
                    (now + ERROR_DISPLAY_SECONDS) as u64
                } else {
                    u64::MAX
                },
            ),
            final(self).mode == old(self).mode,
            final(self).config == old(self).config,
            final(self).spec_day_part() == old(self).spec_day_part(),
            final(self).selection_stage == old(self).selection_stage,
            final(self).spec_lists_part() == old(self).spec_lists_part(),
            final(self).spec_pane() == old(self).spec_pane(),
            final(self).spec_setup_part() == old(self).spec_setup_part(),
    {
        self.error_message = Some(msg);
        self.error_timeout = Some(
            match now.checked_add(ERROR_DISPLAY_SECONDS) {
                Some(t) => t,
                None => u64::MAX,
            },
        );
    }

    /// Drops the error message once its deadline has passed.
    pub fn clear_error_if_expired(&mut self, now: u64)
        ensures
            match old(self).error_timeout {
                Some(t) if now > t => {
                    &&& final(self).error_message is None
                    &&& final(self).error_timeout is None
                },
                _ => final(self).spec_error_part() == old(self).spec_error_part(),
            },
            final(self).mode == old(self).mode,
            final(self).config == old(self).config,
            final(self).spec_day_part() == old(self).spec_day_part(),
            final(self).selection_stage == old(self).selection_stage,
            final(self).spec_lists_part() == old(self).spec_lists_part(),
            final(self).spec_pane() == old(self).spec_pane(),
            final(self).spec_setup_part() == old(self).spec_setup_part(),
    {
        match self.error_timeout {
            Some(t) => {
                if now > t {
                    self.error_message = None;
                    self.error_timeout = None;
                }
            },
            None => {},
        }
    }

    /// Shows the previous day.
    pub fn prev_day(&mut self)
        requires
            old(self).current_date.wf(),
        ensures
            final(self).current_date == old(self).current_date.spec_prev(),
            final(self).current_date.wf(),
            final(self).schedules == old(self).schedules,
            final(self).mode == old(self).mode,
            final(self).config == old(self).config,
            final(self).selection_stage == old(self).selection_stage,
            final(self).spec_lists_part() == old(self).spec_lists_part(),
            final(self).spec_pane() == old(self).spec_pane(),
            final(self).spec_setup_part() == old(self).spec_setup_part(),
            final(self).spec_error_part() == old(self).spec_error_part(),
    {
        self.current_date = self.current_date.prev();
    }

    /// Shows the next day.
    pub fn next_day(&mut self)
        requires
            old(self).current_date.wf(),
        ensures
            final(self).current_date == old(self).current_date.spec_next(),
            final(self).current_date.wf(),
            final(self).schedules == old(self).schedules,
            final(self).mode == old(self).mode,
            final(self).config == old(self).config,
            final(self).selection_stage == old(self).selection_stage,
            final(self).spec_lists_part() == old(self).spec_lists_part(),
            final(self).spec_pane() == old(self).spec_pane(),
            final(self).spec_setup_part() == old(self).spec_setup_part(),
            final(self).spec_error_part() == old(self).spec_error_part(),
    {
        self.current_date = self.current_date.next();
    }

    /// Jumps back to today.
    pub fn go_today(&mut self)
        ensures
            final(self).current_date.wf(),
            final(self).schedules == old(self).schedules,
            final(self).mode == old(self).mode,
            final(self).config == old(self).config,
            final(self).selection_stage == old(self).selection_stage,
            final(self).spec_lists_part() == old(self).spec_lists_part(),
            final(self).spec_pane() == old(self).spec_pane(),
            final(self).spec_setup_part() == old(self).spec_setup_part(),
            final(self).spec_error_part() == old(self).spec_error_part(),
    {
        self.current_date = AppDate::today();
    }
}

} // verus!
