//! Plain-value records for the entities the remote service reports:
//! colleges, campuses, student groups, and per-day schedules.

use vstd::prelude::*;

use crate::utils::AppDate;

verus! {

/// An educational institution.
#[derive(Debug)]
pub struct College {
    pub college_id: u32,
    pub name: String,
}

/// A physical branch of a college.
#[derive(Debug)]
pub struct Campus {
    pub id: u32,
    pub name: String,
    pub college_id: u32,
}

/// A student group attached to a campus.
#[derive(Debug)]
pub struct Group {
    pub id: u32,
    pub name: String,
    pub campus_id: u32,
}

/// One class session; times are minutes since midnight.
#[derive(Debug)]
pub struct Lesson {
    pub title: String,
    pub cabinet: String,
    pub teacher: String,
    pub order: u32,
    pub start_minute: u32,
    pub end_minute: u32,
}

/// The lessons of one group on one date.
#[derive(Debug)]
pub struct Schedule {
    pub group_id: u32,
    pub date: AppDate,
    pub lessons: Vec<Lesson>,
}

/// The mathematical content of a [`Schedule`].
pub ghost struct ScheduleView {
    pub group_id: u32,
    pub date: AppDate,
    pub lessons: Seq<Lesson>,
}

impl View for Schedule {
    type V = ScheduleView;

    open spec fn view(&self) -> ScheduleView {
        ScheduleView { group_id: self.group_id, date: self.date, lessons: self.lessons@ }
    }
}

/// The contents of a list of schedules.
pub open spec fn scheds_view(v: Seq<Schedule>) -> Seq<ScheduleView> {
    v.map_values(|s: Schedule| s@)
}

impl Clone for College {
    fn clone(&self) -> (res: Self)
        ensures
            res == *self,
    {
        College { college_id: self.college_id, name: self.name.clone() }
    }
}

impl Clone for Campus {
    fn clone(&self) -> (res: Self)
        ensures
            res == *self,
    {
        Campus { id: self.id, name: self.name.clone(), college_id: self.college_id }
    }
}

impl Clone for Group {
    fn clone(&self) -> (res: Self)
        ensures
            res == *self,
    {
        Group { id: self.id, name: self.name.clone(), campus_id: self.campus_id }
    }
}

impl Clone for Lesson {
    fn clone(&self) -> (res: Self)
        ensures
            res == *self,
    {
        Lesson {
            title: self.title.clone(),
            cabinet: self.cabinet.clone(),
            teacher: self.teacher.clone(),
            order: self.order,
            start_minute: self.start_minute,
            end_minute: self.end_minute,
        }
    }
}

impl Clone for Schedule {
    fn clone(&self) -> (res: Self)
        ensures
            res@ == self@,
    {
        let lessons = self.lessons.clone();
        proof {
            assert(lessons@ =~= self.lessons@);
        }
        Schedule { group_id: self.group_id, date: self.date, lessons }
    }
}

/// Clones every element of a schedule list, keeping its content.
pub fn clone_schedules(v: &Vec<Schedule>) -> (res: Vec<Schedule>)
    ensures
        scheds_view(res@) == scheds_view(v@),
{
    let mut out: Vec<Schedule> = Vec::new();
    let mut i: usize = 0;
    while i < v.len()
        invariant
            i <= v.len(),
            scheds_view(out@) == scheds_view(v@.subrange(0, i as int)),
        decreases v.len() - i,
    {
        let ghost prev = out@;
        out.push(v[i].clone());
        proof {
            assert(prev.len() == i) by {
                assert(scheds_view(prev).len() == scheds_view(v@.subrange(0, i as int)).len());
            }
            assert forall|k: int| 0 <= k < i + 1 implies #[trigger] scheds_view(out@)[k]
                == scheds_view(v@.subrange(0, i + 1))[k] by {
                assert(scheds_view(v@.subrange(0, i + 1))[k] == v@.subrange(0, i + 1)[k]@);
                if k < i {
                    assert(scheds_view(out@)[k] == out@[k]@);
                    assert(out@[k] == prev[k]);
                    assert(prev[k]@ == scheds_view(prev)[k]);
                    assert(scheds_view(prev)[k] == scheds_view(v@.subrange(0, i as int))[k]);
                    assert(scheds_view(v@.subrange(0, i as int))[k] == v@[k]@);
                } else {
                    assert(scheds_view(out@)[k] == out@[i as int]@);
                    assert(out@[i as int]@ == v@[i as int]@);
                }
            }
            assert(scheds_view(out@) =~= scheds_view(v@.subrange(0, i + 1)));
        }
        i = i + 1;
    }
    proof {
        assert(v@.subrange(0, v@.len() as int) =~= v@);
    }
    out
}

} // verus!
