//! Level segments along the x axis, the mood each one sets, and the timing of the
//! background transition between moods.
use vstd::prelude::*;
use crate::fixed::{div_tz, MAX_MAGNITUDE, SCALE};

verus! {

/// How long a mood transition lasts (two seconds).
pub const MOOD_TRANSITION_DURATION: i64 = 2_000_000;

/// The mood of the level, which sets the background.
#[derive(Clone, Copy, Debug, PartialEq, Eq, Structural, Default)]
pub enum Mood {
    #[default]
    Peace,
    CallToAdventure,
    Confidence,
    TwistNewSubquest,
    SubquestTension,
    ReliefAfterSubquest,
    TwistUnconstrainedQuest,
    Triumph,
    ReliefAfterQuest,
}

/// A stretch of the level along the x axis.
#[derive(Clone, Copy, Debug, PartialEq, Eq, Structural, Default)]
pub enum PhysicalLevelSegment {
    #[default]
    Freedom,
    ConfidentQuest,
    Subquest,
    FinishQuest,
    FinalRelief,
}

impl PhysicalLevelSegment {
    /// Where the segment starts along x.
    pub open spec fn starting_x(self) -> int {
        match self {
            PhysicalLevelSegment::Freedom => -1000 * SCALE,
            PhysicalLevelSegment::ConfidentQuest => 5 * SCALE,
            PhysicalLevelSegment::Subquest => 10 * SCALE,
            PhysicalLevelSegment::FinishQuest => 15 * SCALE,
            PhysicalLevelSegment::FinalRelief => 20 * SCALE,
        }
    }

    /// The segment of position `x`: the last segment whose start lies strictly
    /// before `x`; positions before every start fall back to the final segment.
    pub open spec fn segment_at(x: int) -> PhysicalLevelSegment {
        if x > PhysicalLevelSegment::FinalRelief.starting_x() {
            PhysicalLevelSegment::FinalRelief
        } else if x > PhysicalLevelSegment::FinishQuest.starting_x() {
            PhysicalLevelSegment::FinishQuest
        } else if x > PhysicalLevelSegment::Subquest.starting_x() {
            PhysicalLevelSegment::Subquest
        } else if x > PhysicalLevelSegment::ConfidentQuest.starting_x() {
            PhysicalLevelSegment::ConfidentQuest
        } else if x > PhysicalLevelSegment::Freedom.starting_x() {
            PhysicalLevelSegment::Freedom
        } else {
            PhysicalLevelSegment::FinalRelief
        }
    }

    /// The mood each segment sets.
    pub open spec fn mood(self) -> Mood {
        match self {
            PhysicalLevelSegment::Freedom => Mood::Peace,
            PhysicalLevelSegment::ConfidentQuest => Mood::Confidence,
            PhysicalLevelSegment::Subquest => Mood::SubquestTension,
            PhysicalLevelSegment::FinishQuest => Mood::Triumph,
            PhysicalLevelSegment::FinalRelief => Mood::ReliefAfterQuest,
        }
    }

    /// Where the segment starts along x.
    pub fn get_starting_x(&self) -> (r: i64)
        ensures
            r == self.starting_x(),
    {
        match self {
            PhysicalLevelSegment::Freedom => -1000 * SCALE,
            PhysicalLevelSegment::ConfidentQuest => 5 * SCALE,
            PhysicalLevelSegment::Subquest => 10 * SCALE,
            PhysicalLevelSegment::FinishQuest => 15 * SCALE,
            PhysicalLevelSegment::FinalRelief => 20 * SCALE,
        }
    }

    /// The segment of position `x`, searching from the last segment backwards.
    pub fn for_x(x: i64) -> (r: PhysicalLevelSegment)
        ensures
            r == PhysicalLevelSegment::segment_at(x as int),
    {
        let all_cases = [
            PhysicalLevelSegment::Freedom,
            PhysicalLevelSegment::ConfidentQuest,
            PhysicalLevelSegment::Subquest,
            PhysicalLevelSegment::FinishQuest,
            PhysicalLevelSegment::FinalRelief,
        ];
        let mut i: usize = 5;
        while i > 0
            invariant
                0 <= i <= 5,
                all_cases@ == seq![
                    PhysicalLevelSegment::Freedom,
                    PhysicalLevelSegment::ConfidentQuest,
                    PhysicalLevelSegment::Subquest,
                    PhysicalLevelSegment::FinishQuest,
                    PhysicalLevelSegment::FinalRelief,
                ],
                forall|j: int| i <= j < 5 ==> x <= (#[trigger] all_cases@[j]).starting_x(),
            decreases i,
        {
            let case = all_cases[i - 1];
            if x > case.get_starting_x() {
                return case;
            }
            i = i - 1;
        }
        PhysicalLevelSegment::FinalRelief
    }

    /// The mood the segment sets.
    pub fn get_mood(&self) -> (r: Mood)
        ensures
            r == self.mood(),
    {
        match self {
            PhysicalLevelSegment::Freedom => Mood::Peace,
            PhysicalLevelSegment::ConfidentQuest => Mood::Confidence,
            PhysicalLevelSegment::Subquest => Mood::SubquestTension,
            PhysicalLevelSegment::FinishQuest => Mood::Triumph,
            PhysicalLevelSegment::FinalRelief => Mood::ReliefAfterQuest,
        }
    }
}

/// The mood and the progress of the transition into it. While `transitioning`,
/// the background blends from the colour shown when the transition began toward
/// the current mood's colour.
#[derive(Clone, Copy, Debug, PartialEq, Eq, Structural)]
pub struct MoodParams {
    pub current_mood: Mood,
    pub transitioning: bool,
    pub transition_progress: i64,
    pub current_physical_segment: PhysicalLevelSegment,
}

impl MoodParams {
    /// Progress lies between zero and the transition duration.
    pub open spec fn wf(self) -> bool {
        0 <= self.transition_progress <= MOOD_TRANSITION_DURATION
    }

    /// Whether progress lies between zero and the transition duration.
    pub fn is_wf(&self) -> (r: bool)
        ensures
            r == self.wf(),
    {
        0 <= self.transition_progress && self.transition_progress <= MOOD_TRANSITION_DURATION
    }

    /// Peace, in the first segment, with no transition.
    pub fn new() -> (r: MoodParams)
        ensures
            r.wf(),
            r.current_mood == Mood::Peace,
            !r.transitioning,
            r.transition_progress == 0,
            r.current_physical_segment == PhysicalLevelSegment::Freedom,
    {
        MoodParams {
            current_mood: Mood::Peace,
            transitioning: false,
            transition_progress: 0,
            current_physical_segment: PhysicalLevelSegment::Freedom,
        }
    }

    /// Starts a transition into `mood` from whatever is shown now.
    pub fn begin_transition(&mut self, mood: Mood)
        ensures
            final(self).current_mood == mood,
            final(self).transitioning,
            final(self).transition_progress == 0,
            final(self).current_physical_segment == old(self).current_physical_segment,
    {
        self.current_mood = mood;
        self.transitioning = true;
        self.transition_progress = 0;
    }

    /// Follows the player to position `x`: entering another segment starts a
    /// transition into that segment's mood. Returns whether a transition started.
    pub fn process_player_position(&mut self, x: i64) -> (r: bool)
        ensures
            r == (PhysicalLevelSegment::segment_at(x as int) != old(self).current_physical_segment),
            r ==> final(self).current_physical_segment == PhysicalLevelSegment::segment_at(x as int)
                && final(self).current_mood == PhysicalLevelSegment::segment_at(x as int).mood()
                && final(self).transitioning && final(self).transition_progress == 0,
            !r ==> *final(self) == *old(self),
    {
        let segment = PhysicalLevelSegment::for_x(x);
        if segment != self.current_physical_segment {
            self.current_physical_segment = segment;
            self.begin_transition(segment.get_mood());
            true
        } else {
            false
        }
    }

    /// Advances a running transition by `delta_time`, ending it once the full
    /// duration has passed.
    pub fn transition_moods(&mut self, delta_time: i64)
        requires
            old(self).wf(),
            0 <= delta_time <= MAX_MAGNITUDE,
        ensures
            final(self).wf(),
            final(self).current_mood == old(self).current_mood,
            final(self).current_physical_segment == old(self).current_physical_segment,
            !old(self).transitioning ==> *final(self) == *old(self),
            old(self).transitioning && old(self).transition_progress + delta_time < MOOD_TRANSITION_DURATION
                ==> final(self).transitioning && final(self).transition_progress == old(self).transition_progress
                + delta_time,
            old(self).transitioning && old(self).transition_progress + delta_time >= MOOD_TRANSITION_DURATION
                ==> !final(self).transitioning && final(self).transition_progress == MOOD_TRANSITION_DURATION,
    {
        if !self.transitioning {
            return;
        }
        self.transition_progress = self.transition_progress + delta_time;
        if self.transition_progress >= MOOD_TRANSITION_DURATION {
            self.transition_progress = MOOD_TRANSITION_DURATION;
            self.transitioning = false;
        }
    }

    /// How far the blend has come, as a fixed-point fraction between zero and one.
    pub fn blend_fraction(&self) -> (r: i64)
        requires
            self.wf(),
        ensures
            r == div_tz(self.transition_progress * SCALE, MOOD_TRANSITION_DURATION as int),
    {
        self.transition_progress * SCALE / MOOD_TRANSITION_DURATION
    }
}

} // verus!
