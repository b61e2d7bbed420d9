use vstd::prelude::*;

use crate::segment::{slides_view, Slide, SlideItem, SlideView};

verus! {

/// One entry of the run-of-show schedule.
pub struct ScheduleItem {
    pub id: String,
    pub session_label: String,
    pub start_time: String,
    pub end_time: String,
    pub duration: u32,
    pub minister: Option<String>,
}

/// The schedule and, when one is chosen, the index of the current entry.
pub struct ScheduleState {
    pub schedule: Vec<ScheduleItem>,
    pub current_session_index: Option<usize>,
}

/// A snapshot of the countdown timer, as the control station pushed it.
pub struct TimerState {
    pub is_running: bool,
    pub seconds_left: i64,
    pub label: Option<String>,
    pub end_time: Option<u64>,
    pub is_overrun: bool,
}

/// What the audience display shows. `settings` is carried as the control
/// station encoded it, without being read.
pub struct DisplayState {
    pub verse_text: String,
    pub reference: String,
    pub auxiliary_slide_text: Vec<String>,
    pub settings: String,
}

/// A presentation: its text and the slides made from it.
pub struct Session {
    pub id: String,
    pub name: String,
    pub slides: Vec<Slide>,
    pub raw_text: String,
    pub created_at: u64,
}

pub struct ScheduleView {
    pub schedule: Seq<ScheduleItem>,
    pub current_session_index: Option<nat>,
}

pub struct DisplayView {
    pub verse_text: String,
    pub reference: String,
    pub auxiliary_slide_text: Seq<String>,
    pub settings: String,
}

pub struct SessionView {
    pub id: Seq<char>,
    pub name: Seq<char>,
    pub slides: Seq<SlideView>,
    pub raw_text: Seq<char>,
    pub created_at: u64,
}

impl View for ScheduleState {
    type V = ScheduleView;

    open spec fn view(&self) -> ScheduleView {
        ScheduleView {
            schedule: self.schedule@,
            current_session_index: match self.current_session_index {
                Some(i) => Some(i as nat),
                None => None,
            },
        }
    }
}

impl View for DisplayState {
    type V = DisplayView;

    open spec fn view(&self) -> DisplayView {
        DisplayView {
            verse_text: self.verse_text,
            reference: self.reference,
            auxiliary_slide_text: self.auxiliary_slide_text@,
            settings: self.settings,
        }
    }
}

impl View for Session {
    type V = SessionView;

    open spec fn view(&self) -> SessionView {
        SessionView {
            id: self.id@,
            name: self.name@,
            slides: slides_view(self.slides@),
            raw_text: self.raw_text@,
            created_at: self.created_at,
        }
    }
}

pub open spec fn sessions_view(v: Seq<Session>) -> Seq<SessionView> {
    v.map_values(|s: Session| s@)
}

fn copy_opt_string(s: &Option<String>) -> (r: Option<String>)
    ensures
        r == *s,
{
    match s {
        Some(t) => Some(t.clone()),
        None => None,
    }
}

fn copy_strings(v: &Vec<String>) -> (r: Vec<String>)
    ensures
        r@ == v@,
{
    let mut out: Vec<String> = Vec::new();
    let mut i: usize = 0;
    while i < v.len()
        invariant
            i <= v@.len(),
            out@ == v@.take(i as int),
        decreases v@.len() - i,
    {
        out.push(v[i].clone());
        proof {
            assert(out@ =~= v@.take(i + 1));
        }
        i += 1;
    }
    proof {
        assert(out@ =~= v@);
    }
    out
}

impl ScheduleItem {
    pub fn copy(&self) -> (r: ScheduleItem)
        ensures
            r == *self,
    {
        ScheduleItem {
            id: self.id.clone(),
            session_label: self.session_label.clone(),
            start_time: self.start_time.clone(),
            end_time: self.end_time.clone(),
            duration: self.duration,
            minister: copy_opt_string(&self.minister),
        }
    }
}

impl ScheduleState {
    /// The empty schedule, with no current entry.
    pub fn new() -> (r: ScheduleState)
        ensures
            r@.schedule.len() == 0,
            r@.current_session_index is None,
    {
        ScheduleState { schedule: Vec::new(), current_session_index: None }
    }

    pub fn copy(&self) -> (r: ScheduleState)
        ensures
            r@ == self@,
    {
        let mut out: Vec<ScheduleItem> = Vec::new();
        let mut i: usize = 0;
        while i < self.schedule.len()
            invariant
                i <= self.schedule@.len(),
                out@ == self.schedule@.take(i as int),
            decreases self.schedule@.len() - i,
        {
            out.push(self.schedule[i].copy());
            proof {
                assert(out@ =~= self.schedule@.take(i + 1));
            }
            i += 1;
        }
        proof {
            assert(out@ =~= self.schedule@);
        }
        ScheduleState { schedule: out, current_session_index: self.current_session_index }
    }
}

impl TimerState {
    /// A stopped timer with no time left and no label.
    pub fn new() -> (r: TimerState)
        ensures
            !r.is_running,
            r.seconds_left == 0,
            r.label is None,
            r.end_time is None,
            !r.is_overrun,
    {
        TimerState {
            is_running: false,
            seconds_left: 0,
            label: None,
            end_time: None,
            is_overrun: false,
        }
    }

    pub fn copy(&self) -> (r: TimerState)
        ensures
            r == *self,
    {
        TimerState {
            is_running: self.is_running,
            seconds_left: self.seconds_left,
            label: copy_opt_string(&self.label),
            end_time: self.end_time,
            is_overrun: self.is_overrun,
        }
    }
}

impl DisplayState {
    /// A display with no scripture, no auxiliary text and empty settings.
    pub fn new() -> (r: DisplayState)
        ensures
            r@.verse_text@.len() == 0,
            r@.reference@.len() == 0,
            r@.auxiliary_slide_text.len() == 0,
            r@.settings@.len() == 0,
    {
        DisplayState {
            verse_text: String::new(),
            reference: String::new(),
            auxiliary_slide_text: Vec::new(),
            settings: String::new(),
        }
    }

    pub fn copy(&self) -> (r: DisplayState)
        ensures
            r@ == self@,
    {
        DisplayState {
            verse_text: self.verse_text.clone(),
            reference: self.reference.clone(),
            auxiliary_slide_text: copy_strings(&self.auxiliary_slide_text),
            settings: self.settings.clone(),
        }
    }
}

impl SlideItem {
    pub fn copy(&self) -> (r: SlideItem)
        ensures
            r@ == self@,
    {
        SlideItem { text: self.text.clone(), is_sub_item: self.is_sub_item }
    }
}

impl Slide {
    pub fn copy(&self) -> (r: Slide)
        ensures
            r@ == self@,
    {
        let mut items: Vec<SlideItem> = Vec::new();
        let mut i: usize = 0;
        while i < self.items.len()
            invariant
                i <= self.items@.len(),
                items@.len() == i,
                items@.map_values(|t: SlideItem| t@) == self.items@.take(i as int).map_values(
                    |t: SlideItem| t@,
                ),
            decreases self.items@.len() - i,
        {
            let ghost prev = items@;
            items.push(self.items[i].copy());
            proof {
                assert forall|k: int| 0 <= k < i implies items@[k]@ == self.items@[k]@ by {
                    assert(items@[k] == prev[k]);
                    assert(prev.map_values(|t: SlideItem| t@)[k] == self.items@.take(
                        i as int,
                    ).map_values(|t: SlideItem| t@)[k]);
                }
                assert(items@.map_values(|t: SlideItem| t@) =~= self.items@.take(
                    i + 1,
                ).map_values(|t: SlideItem| t@));
            }
            i += 1;
        }
        proof {
            assert(self.items@.take(self.items@.len() as int) =~= self.items@);
        }
        Slide { items, color: self.color }
    }
}

pub fn copy_slides(v: &Vec<Slide>) -> (r: Vec<Slide>)
    ensures
        slides_view(r@) == slides_view(v@),
{
    let mut out: Vec<Slide> = Vec::new();
    let mut i: usize = 0;
    while i < v.len()
        invariant
            i <= v@.len(),
            out@.len() == i,
            slides_view(out@) == slides_view(v@.take(i as int)),
        decreases v@.len() - i,
    {
        let ghost prev = out@;
        out.push(v[i].copy());
        proof {
            assert forall|k: int| 0 <= k < i implies out@[k]@ == v@[k]@ by {
                assert(out@[k] == prev[k]);
                assert(slides_view(prev)[k] == slides_view(v@.take(i as int))[k]);
            }
            assert(slides_view(out@) =~= slides_view(v@.take(i + 1)));
        }
        i += 1;
    }
    proof {
        assert(v@.take(v@.len() as int) =~= v@);
    }
    out
}

impl Session {
    pub fn copy(&self) -> (r: Session)
        ensures
            r@ == self@,
    {
        Session {
            id: self.id.clone(),
            name: self.name.clone(),
            slides: copy_slides(&self.slides),
            raw_text: self.raw_text.clone(),
            created_at: self.created_at,
        }
    }
}

} // verus!
