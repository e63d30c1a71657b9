//! Cleanup profiles: how aggressive a cleanup run is, and the thresholds and
//! steps that follow from the choice.

use crate::numbers::{push_signed, signed_decimal};
use crate::text::{eq_ignore_case, from_chars, is_text_ignore_case, to_chars};
use vstd::prelude::*;

verus! {

/// Cleanup profile - determines aggressiveness of cleanup operations.
#[derive(Debug, Clone, Copy, PartialEq, Eq, Structural)]
pub enum CleanupProfile {
    Conservative,
    Moderate,
    Aggressive,
}

/// The profile that a name denotes, whatever its case.
pub open spec fn profile_named(s: Seq<char>) -> Option<CleanupProfile> {
    if eq_ignore_case(s, "conservative"@) {
        Some(CleanupProfile::Conservative)
    } else if eq_ignore_case(s, "moderate"@) {
        Some(CleanupProfile::Moderate)
    } else if eq_ignore_case(s, "aggressive"@) {
        Some(CleanupProfile::Aggressive)
    } else {
        None
    }
}

/// Days a stopped container must have aged before a profile removes it.
pub open spec fn stopped_age_days(p: CleanupProfile) -> int {
    match p {
        CleanupProfile::Conservative => 30,
        CleanupProfile::Moderate => 7,
        CleanupProfile::Aggressive => 0,
    }
}

/// Days an unused image must have aged before a profile removes it; the
/// conservative profile never does, which the largest value stands for.
pub open spec fn image_age_days(p: CleanupProfile) -> int {
    match p {
        CleanupProfile::Conservative => i64::MAX as int,
        CleanupProfile::Moderate => 90,
        CleanupProfile::Aggressive => 30,
    }
}

/// Whether a profile prunes unused images that are not dangling.
pub open spec fn prunes_unused(p: CleanupProfile) -> bool {
    !(p is Conservative)
}

impl CleanupProfile {
    pub fn from_str(s: &str) -> (r: Option<Self>)
        ensures
            r == profile_named(s@),
    {
        let v = to_chars(s);
        if is_text_ignore_case(&v, "conservative") {
            Some(CleanupProfile::Conservative)
        } else if is_text_ignore_case(&v, "moderate") {
            Some(CleanupProfile::Moderate)
        } else if is_text_ignore_case(&v, "aggressive") {
            Some(CleanupProfile::Aggressive)
        } else {
            None
        }
    }

    pub open spec fn description_spec(self) -> Seq<char> {
        match self {
            CleanupProfile::Conservative => "Safe operations only: dangling images, unused networks, build cache, stopped containers >30 days"@,
            CleanupProfile::Moderate => "Conservative + unused images >90 days, stopped containers >7 days"@,
            CleanupProfile::Aggressive => "Moderate + all unused images >30 days, all stopped containers"@,
        }
    }

    pub fn description(&self) -> (r: &'static str)
        ensures
            r@ == self.description_spec(),
    {
        match self {
            CleanupProfile::Conservative => "Safe operations only: dangling images, unused networks, build cache, stopped containers >30 days",
            CleanupProfile::Moderate => "Conservative + unused images >90 days, stopped containers >7 days",
            CleanupProfile::Aggressive => "Moderate + all unused images >30 days, all stopped containers",
        }
    }

    /// The profile's name as reports show it.
    pub open spec fn label_spec(self) -> Seq<char> {
        match self {
            CleanupProfile::Conservative => "Conservative"@,
            CleanupProfile::Moderate => "Moderate"@,
            CleanupProfile::Aggressive => "Aggressive"@,
        }
    }

    pub fn label(&self) -> (r: &'static str)
        ensures
            r@ == self.label_spec(),
    {
        match self {
            CleanupProfile::Conservative => "Conservative",
            CleanupProfile::Moderate => "Moderate",
            CleanupProfile::Aggressive => "Aggressive",
        }
    }

    /// Get the age threshold for stopped containers (in days).
    pub fn stopped_container_age_days(&self) -> (r: i64)
        ensures
            r == stopped_age_days(*self),
    {
        match self {
            CleanupProfile::Conservative => 30,
            CleanupProfile::Moderate => 7,
            CleanupProfile::Aggressive => 0,
        }
    }

    /// Get the age threshold for unused images (in days).
    pub fn unused_image_age_days(&self) -> (r: i64)
        ensures
            r == image_age_days(*self),
    {
        match self {
            CleanupProfile::Conservative => i64::MAX,
            CleanupProfile::Moderate => 90,
            CleanupProfile::Aggressive => 30,
        }
    }

    /// Should we prune unused images?
    pub fn prune_unused_images(&self) -> (r: bool)
        ensures
            r == prunes_unused(*self),
    {
        match self {
            CleanupProfile::Conservative => false,
            CleanupProfile::Moderate => true,
            CleanupProfile::Aggressive => true,
        }
    }
}

/// The two age thresholds of a cleanup run, in days.
#[derive(Debug, Clone, Copy, PartialEq, Eq, Structural)]
pub struct CleanupThresholds {
    pub stopped_container_age_days: i64,
    pub unused_image_age_days: i64,
}

/// What a run under a profile does: the thresholds it works with, and
/// whether the unused-image cleanup follows the safe cleanup.
#[derive(Debug, Clone, Copy, PartialEq, Eq, Structural)]
pub struct CleanupPlan {
    pub thresholds: CleanupThresholds,
    pub run_safe_cleanup: bool,
    pub run_unused_image_cleanup: bool,
}

/// The plan of a run under `profile`. The safe cleanup always runs; an
/// aggressive run removes every stopped container, whatever its age, and
/// prunes unused images.
pub fn plan_for_profile(profile: CleanupProfile) -> (plan: CleanupPlan)
    ensures
        plan.thresholds.stopped_container_age_days == stopped_age_days(profile),
        plan.thresholds.unused_image_age_days == image_age_days(profile),
        plan.run_safe_cleanup,
        plan.run_unused_image_cleanup == prunes_unused(profile),
        profile is Aggressive ==> plan.thresholds.stopped_container_age_days == 0
            && plan.run_unused_image_cleanup,
{
    CleanupPlan {
        thresholds: CleanupThresholds {
            stopped_container_age_days: profile.stopped_container_age_days(),
            unused_image_age_days: profile.unused_image_age_days(),
        },
        run_safe_cleanup: true,
        run_unused_image_cleanup: profile.prune_unused_images(),
    }
}

/// The two threshold settings as the process holds them: text, or absent.
pub struct ThresholdSettings {
    pub stopped_container_age_days: Option<String>,
    pub unused_image_age_days: Option<String>,
}

impl ThresholdSettings {
    pub open spec fn stopped_view(self) -> Option<Seq<char>> {
        match self.stopped_container_age_days {
            Some(s) => Some(s@),
            None => None,
        }
    }

    pub open spec fn image_view(self) -> Option<Seq<char>> {
        match self.unused_image_age_days {
            Some(s) => Some(s@),
            None => None,
        }
    }
}

/// A profile run seen from the settings: what they are while the run lasts
/// and what they are once it is over.
pub struct ProfileRun {
    pub plan: CleanupPlan,
    pub during: ThresholdSettings,
    pub after: ThresholdSettings,
}

/// Lays out a run under `profile` on top of the settings `prior`: during the
/// run both thresholds are the profile's, written as decimal numerals;
/// afterwards each setting is what it was before, absent if it was absent.
pub fn profile_run(prior: ThresholdSettings, profile: CleanupProfile) -> (run: ProfileRun)
    ensures
        run.plan.thresholds.stopped_container_age_days == stopped_age_days(profile),
        run.plan.thresholds.unused_image_age_days == image_age_days(profile),
        run.plan.run_safe_cleanup,
        run.plan.run_unused_image_cleanup == prunes_unused(profile),
        run.during.stopped_view() == Some(signed_decimal(stopped_age_days(profile))),
        run.during.image_view() == Some(signed_decimal(image_age_days(profile))),
        run.after.stopped_view() == prior.stopped_view(),
        run.after.image_view() == prior.image_view(),
{
    let plan = plan_for_profile(profile);
    let mut a: Vec<char> = Vec::new();
    push_signed(&mut a, plan.thresholds.stopped_container_age_days);
    let mut b: Vec<char> = Vec::new();
    push_signed(&mut b, plan.thresholds.unused_image_age_days);
    assert(a@ =~= signed_decimal(stopped_age_days(profile)));
    assert(b@ =~= signed_decimal(image_age_days(profile)));
    ProfileRun {
        plan,
        during: ThresholdSettings {
            stopped_container_age_days: Some(from_chars(&a)),
            unused_image_age_days: Some(from_chars(&b)),
        },
        after: prior,
    }
}

} // verus!
