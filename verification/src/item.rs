use vstd::prelude::*;

verus! {

/// Fixed-point scale for task progress: a progress value counts units of
/// one millionth of the whole task, so `0` is "not started" and
/// `PROGRESS_SCALE` is "complete".
pub const PROGRESS_SCALE: u32 = 1_000_000;

/// Status of a task, derived from its progress and never set independently.
#[derive(Clone, Copy, Debug, PartialEq, Eq, Structural)]
pub enum Status {
    Todo,
    Complete,
    Underway,
}

/// A rejected construction: the one place the model validates its inputs.
#[derive(Clone, Copy, Debug, PartialEq, Eq, Structural)]
pub enum ValidationError {
    ProgressOutOfRange { units: u32 },
    InvalidDate { year: u16, month: u8, day: u8 },
}

/// Completion fraction of a task, held in fixed point: `units` millionths
/// of the whole task. Construction rejects anything above `PROGRESS_SCALE`,
/// so every `Progress` value lies in the closed interval [0, 1].
#[derive(Clone, Copy, Debug, PartialEq, Eq, Structural)]
pub struct Progress {
    units: u32,
}

impl View for Progress {
    type V = int;

    closed spec fn view(&self) -> int {
        self.units as int
    }
}

impl Progress {
    pub open spec fn wf(self) -> bool {
        0 <= self@ <= PROGRESS_SCALE
    }

    pub fn new(units: u32) -> (r: Result<Progress, ValidationError>)
        ensures
            units <= PROGRESS_SCALE <==> r is Ok,
            r matches Ok(p) ==> p@ == units && p.wf(),
            r matches Err(e) ==> e == (ValidationError::ProgressOutOfRange { units }),
    {
        if units <= PROGRESS_SCALE {
            Ok(Progress { units })
        } else {
            Err(ValidationError::ProgressOutOfRange { units })
        }
    }

    pub fn one() -> (r: Progress)
        ensures
            r@ == PROGRESS_SCALE,
            r.wf(),
    {
        Progress { units: PROGRESS_SCALE }
    }

    pub fn zero() -> (r: Progress)
        ensures
            r@ == 0,
            r.wf(),
    {
        Progress { units: 0 }
    }

    pub fn is_zero(&self) -> (r: bool)
        ensures
            r <==> self@ == 0,
    {
        self.units == 0
    }

    pub fn is_one(&self) -> (r: bool)
        ensures
            r <==> self@ == PROGRESS_SCALE,
    {
        self.units == PROGRESS_SCALE
    }

    pub fn units(&self) -> (r: u32)
        ensures
            r as int == self@,
    {
        self.units
    }
}

pub open spec fn spec_is_leap_year(y: int) -> bool {
    (y % 4 == 0 && y % 100 != 0) || y % 400 == 0
}

pub open spec fn spec_days_in_month(y: int, m: int) -> int {
    if m == 2 {
        if spec_is_leap_year(y) {
            29
        } else {
            28
        }
    } else if m == 4 || m == 6 || m == 9 || m == 11 {
        30
    } else {
        31
    }
}

/// A calendar date with day precision and no time zone. Validity is the
/// ordinary Gregorian rule; the year is kept to four digits so that dates
/// have one fixed textual form.
#[derive(Clone, Copy, Debug, PartialEq, Eq, Structural)]
pub struct Date {
    pub year: u16,
    pub month: u8,
    pub day: u8,
}

impl Date {
    pub open spec fn is_valid(self) -> bool {
        &&& self.year <= 9999
        &&& 1 <= self.month <= 12
        &&& 1 <= self.day <= spec_days_in_month(self.year as int, self.month as int)
    }

    pub fn new(year: u16, month: u8, day: u8) -> (r: Result<Date, ValidationError>)
        ensures
            r is Ok <==> (Date { year, month, day }).is_valid(),
            r matches Ok(d) ==> d == (Date { year, month, day }),
            r matches Err(e) ==> e == (ValidationError::InvalidDate { year, month, day }),
    {
        let valid = year <= 9999 && 1 <= month && month <= 12 && 1 <= day && day
            <= days_in_month(year, month);
        if valid {
            Ok(Date { year, month, day })
        } else {
            Err(ValidationError::InvalidDate { year, month, day })
        }
    }
}

pub fn is_leap_year(y: u16) -> (r: bool)
    ensures
        r == spec_is_leap_year(y as int),
{
    (y % 4 == 0 && y % 100 != 0) || y % 400 == 0
}

pub fn days_in_month(y: u16, m: u8) -> (r: u8)
    ensures
        r as int == spec_days_in_month(y as int, m as int),
{
    if m == 2 {
        if is_leap_year(y) {
            29
        } else {
            28
        }
    } else if m == 4 || m == 6 || m == 9 || m == 11 {
        30
    } else {
        31
    }
}

/// The status a task must show for a given progress, in fixed-point units:
/// complete at the upper bound, todo at zero, underway strictly between.
pub open spec fn spec_status_of(progress: int) -> Status {
    if progress == PROGRESS_SCALE {
        Status::Complete
    } else if progress == 0 {
        Status::Todo
    } else {
        Status::Underway
    }
}

/// The mathematical value of an `Item`: its fields with ghost views.
pub ghost struct ItemView {
    pub status: Status,
    pub desc: Seq<char>,
    pub deadline: Option<Date>,
    pub progress: int,
}

impl ItemView {
    /// Well-formedness of one task: progress in range, status derived from
    /// progress, and any deadline a valid calendar date.
    pub open spec fn wf(self) -> bool {
        &&& 0 <= self.progress <= PROGRESS_SCALE
        &&& self.status == spec_status_of(self.progress)
        &&& (self.deadline matches Some(d) ==> d.is_valid())
    }
}

/// One task: a description, an optional deadline, a progress fraction and
/// the status derived from it.
#[derive(Debug)]
pub struct Item {
    status: Status,
    desc: String,
    deadline: Option<Date>,
    progress: Progress,
}

impl View for Item {
    type V = ItemView;

    closed spec fn view(&self) -> ItemView {
        ItemView {
            status: self.status,
            desc: self.desc@,
            deadline: self.deadline,
            progress: self.progress@,
        }
    }
}

impl Item {
    pub open spec fn wf(self) -> bool {
        self@.wf()
    }

    pub fn new(desc: String) -> (r: Item)
        ensures
            r@ == (ItemView {
                status: Status::Todo,
                desc: desc@,
                deadline: None,
                progress: 0,
            }),
            r.wf(),
    {
        Item { status: Status::Todo, desc, deadline: None, progress: Progress::zero() }
    }

    pub fn due(self, deadline: Date) -> (r: Item)
        requires
            deadline.is_valid(),
        ensures
            r@ == (ItemView { deadline: Some(deadline), ..self@ }),
            self.wf() ==> r.wf(),
    {
        Item { deadline: Some(deadline), ..self }
    }

    pub fn set_deadline(&mut self, deadline: Date)
        requires
            deadline.is_valid(),
        ensures
            final(self)@ == (ItemView { deadline: Some(deadline), ..old(self)@ }),
            old(self).wf() ==> final(self).wf(),
    {
        self.deadline = Some(deadline);
    }

    /// Replaces the progress and recomputes the status: the only way the
    /// status of a task ever changes.
    pub fn set_progress(&mut self, progress: Progress)
        requires
            progress.wf(),
        ensures
            final(self)@ == (ItemView {
                status: spec_status_of(progress@),
                progress: progress@,
                ..old(self)@
            }),
            old(self).wf() ==> final(self).wf(),
    {
        let status = if progress.is_one() {
            Status::Complete
        } else if progress.is_zero() {
            Status::Todo
        } else {
            Status::Underway
        };
        self.status = status;
        self.progress = progress;
    }

    pub fn set_desc(&mut self, desc: String)
        ensures
            final(self)@ == (ItemView { desc: desc@, ..old(self)@ }),
            old(self).wf() ==> final(self).wf(),
    {
        self.desc = desc;
    }

    /// An equal copy of the task.
    pub fn clone_item(&self) -> (r: Item)
        ensures
            r@ == self@,
    {
        Item {
            status: self.status,
            desc: self.desc.clone(),
            deadline: self.deadline,
            progress: self.progress,
        }
    }

    pub fn deadline(&self) -> (r: Option<Date>)
        ensures
            r == self@.deadline,
    {
        self.deadline
    }

    pub fn status(&self) -> (r: Status)
        ensures
            r == self@.status,
    {
        self.status
    }

    pub fn progress(&self) -> (r: Progress)
        ensures
            r@ == self@.progress,
    {
        self.progress
    }

    pub fn desc(&self) -> (r: &String)
        ensures
            r@ == self@.desc,
    {
        &self.desc
    }
}

} // verus!
