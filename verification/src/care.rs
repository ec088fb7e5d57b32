//! The care layer's discrete parts: moods and what they mean for the display, the outcome
//! of an interaction, and the day-by-day care streak.

use vstd::prelude::*;

verus! {

#[derive(Debug, PartialEq, Eq, Clone, Copy, Structural)]
pub enum Mood {
    Newborn,
    Happy,
    Content,
    Hungry,
    Grumpy,
    Sick,
}

/// The word each mood is shown as.
pub open spec fn mood_word(m: Mood) -> &'static str {
    match m {
        Mood::Newborn => "newborn",
        Mood::Happy => "happy",
        Mood::Content => "content",
        Mood::Hungry => "hungry",
        Mood::Grumpy => "grumpy",
        Mood::Sick => "sick",
    }
}

impl Mood {
    /// The word shown for this mood.
    pub fn as_str(self) -> (s: &'static str)
        ensures
            s == mood_word(self),
    {
        match self {
            Mood::Newborn => "newborn",
            Mood::Happy => "happy",
            Mood::Content => "content",
            Mood::Hungry => "hungry",
            Mood::Grumpy => "grumpy",
            Mood::Sick => "sick",
        }
    }

    /// Negative moods that warrant a gentle statusline nudge.
    pub fn is_needy(self) -> (r: bool)
        ensures
            r == (self == Mood::Hungry || self == Mood::Grumpy || self == Mood::Sick),
    {
        match self {
            Mood::Hungry | Mood::Grumpy | Mood::Sick => true,
            _ => false,
        }
    }

    /// Whether the sad art frame is used.
    pub fn is_down(self) -> (r: bool)
        ensures
            r == (self == Mood::Grumpy || self == Mood::Sick),
    {
        match self {
            Mood::Grumpy | Mood::Sick => true,
            _ => false,
        }
    }
}

/// Every mood that uses the sad frame also warrants a nudge.
pub proof fn lemma_down_is_needy(m: Mood)
    ensures
        (m == Mood::Grumpy || m == Mood::Sick) ==> (m == Mood::Hungry || m == Mood::Grumpy || m
            == Mood::Sick),
{
}

/// The outcome of feeding or petting: it happened, or the pet is still on cooldown.
#[derive(Debug, PartialEq, Eq, Clone, Copy, Structural)]
pub enum CareResult {
    Done,
    Cooldown,
}

/// The care streak: consecutive days in good standing, and the last day credited.
#[derive(Debug, PartialEq, Eq, Clone, Copy, Structural)]
pub struct Streak {
    pub days: u32,
    pub last_day: i64,
}

/// The streak after the check on day `today`: nothing changes on an already-credited day; a
/// day in good standing (activity today and not sick) extends a streak that was credited
/// yesterday, or starts a new one at 1; a day not in good standing after a full missed day
/// breaks the streak to 0.
pub open spec fn streak_after(s: Streak, today: i64, active_today: bool, sick: bool) -> Streak {
    if today <= s.last_day {
        s
    } else if active_today && !sick {
        Streak {
            days: if today == s.last_day + 1 {
                (s.days + 1) as u32
            } else {
                1
            },
            last_day: today,
        }
    } else if today > s.last_day + 1 {
        Streak { days: 0, ..s }
    } else {
        s
    }
}

/// Credit one day of care streak on a day boundary. "Good standing" is activity on `today`
/// (token use or an interaction) while not sick; a missed bad day breaks the streak.
pub fn credit_streak_day(s: Streak, today: i64, active_today: bool, sick: bool) -> (r: Streak)
    requires
        today > s.last_day && active_today && !sick && today == s.last_day + 1 ==> s.days
            < u32::MAX,
    ensures
        r == streak_after(s, today, active_today, sick),
{
    if today <= s.last_day {
        return s;
    }
    let good = active_today && !sick;
    if good {
        let days = if today == s.last_day + 1 {
            s.days + 1
        } else {
            1
        };
        Streak { days, last_day: today }
    } else if today > s.last_day + 1 {
        Streak { days: 0, last_day: s.last_day }
    } else {
        s
    }
}

/// The credited day never moves backwards; a streak grows by one, restarts at 1, drops to 0,
/// or stays; and a second check on the same day changes nothing.
pub proof fn lemma_streak_steps(s: Streak, today: i64, active_today: bool, sick: bool)
    requires
        s.days < u32::MAX,
    ensures
        streak_after(s, today, active_today, sick).last_day >= s.last_day,
        ({
            let r = streak_after(s, today, active_today, sick);
            r.days == s.days + 1 || r.days == 1 || r.days == 0 || r.days == s.days
        }),
        streak_after(streak_after(s, today, active_today, sick), today, active_today, sick)
            == streak_after(s, today, active_today, sick),
{
}

/// How a day's check moves the streak. A day already credited changes nothing. A good day
/// (activity, not sick) right after the last credited day extends the streak by one; a good
/// day after one or more missed days restarts it at 1; either way that day becomes the last
/// credited one. A bad day after a missed day drops the streak to 0 and keeps the last
/// credited day; a bad day right after it changes nothing.
pub proof fn lemma_streak_day_rules(s: Streak, today: i64, active_today: bool, sick: bool)
    ensures
        today <= s.last_day ==> streak_after(s, today, active_today, sick) == s,
        active_today && !sick && today == s.last_day + 1 && s.days < u32::MAX ==> streak_after(
            s,
            today,
            active_today,
            sick,
        ) == (Streak { days: (s.days + 1) as u32, last_day: today }),
        active_today && !sick && today >= s.last_day + 2 ==> streak_after(s, today, active_today, sick)
            == (Streak { days: 1, last_day: today }),
        !(active_today && !sick) && today >= s.last_day + 2 ==> streak_after(
            s,
            today,
            active_today,
            sick,
        ) == (Streak { days: 0, last_day: s.last_day }),
        !(active_today && !sick) && today == s.last_day + 1 ==> streak_after(s, today, active_today, sick)
            == s,
{
}

} // verus!
