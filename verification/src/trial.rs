//! The evaluation period.

use vstd::prelude::*;
use crate::license_error::{Error, Result};
use crate::text::owned;

verus! {

/// Length of the evaluation period.
pub const TRIAL_DAYS: i64 = 14;

pub const SECS_PER_DAY: i64 = 86_400;

/// On-disk record of when the trial began.
///
/// This is a courtesy timer. Someone who deletes the file gets a fresh trial,
/// and that is a deliberate choice.
#[derive(Debug)]
pub struct Trial {
    pub started_at: i64,
    /// Fingerprint of the install that started it, so a copied home directory
    /// is visible in support logs.
    pub machine: String,
}

impl Clone for Trial {
    fn clone(&self) -> (res: Self)
        ensures
            res.started_at == self.started_at,
            res.machine@ == self.machine@,
    {
        Trial { started_at: self.started_at, machine: self.machine.clone() }
    }
}

/// The trial record as it was found on disk.
#[derive(Debug)]
pub enum TrialFile {
    Missing,
    /// It could not be read, for the given reason.
    Unreadable { path: String, reason: String },
    /// It does not parse.
    Corrupt,
    Present(Trial),
}

/// When a trial that began at some time ends.
pub open spec fn trial_end(started_at: i64) -> int {
    started_at + TRIAL_DAYS * SECS_PER_DAY
}

/// Whole days from `now` until `end`, rounded up, and zero once it is past.
pub open spec fn whole_days(end: int, now: int) -> int {
    if end <= now {
        0
    } else {
        (end - now + SECS_PER_DAY - 1) / (SECS_PER_DAY as int)
    }
}

impl Trial {
    /// Whether the end of the trial and the time until then stay within the
    /// 64-bit range.
    pub open spec fn in_range(self, now: i64) -> bool {
        &&& trial_end(self.started_at) <= i64::MAX
        &&& trial_end(self.started_at) - now + SECS_PER_DAY <= i64::MAX
    }

    /// Whether the end of the trial and the time until then stay within the
    /// 64-bit range.
    pub fn fits(&self, now: i64) -> (res: bool)
        ensures
            res == self.in_range(now),
    {
        let length = TRIAL_DAYS * SECS_PER_DAY;
        let end: i128 = self.started_at as i128 + length as i128;
        end <= i64::MAX as i128 && end - now as i128 + SECS_PER_DAY as i128 <= i64::MAX as i128
    }

    /// The trial to go by and whether its record must be written: the one on
    /// disk, or one that starts now where there is none. A corrupt record must
    /// not hand out an unlimited trial, nor lock the user out, so the clock
    /// restarts.
    pub fn load_or_start(file: TrialFile, machine: &str, now: i64) -> (res: Result<(Trial, bool)>)
        ensures
            match file {
                TrialFile::Present(trial) => res is Ok && res->Ok_0.0 == trial && !res->Ok_0.1,
                TrialFile::Unreadable { path, reason } => res is Err && res->Err_0 == (Error::Io {
                    path,
                    reason,
                }),
                _ => res is Ok && res->Ok_0.0.started_at == now && res->Ok_0.0.machine@ == machine@
                    && res->Ok_0.1,
            },
    {
        match file {
            TrialFile::Present(trial) => Ok((trial, false)),
            TrialFile::Unreadable { path, reason } => Err(Error::Io { path, reason }),
            TrialFile::Missing | TrialFile::Corrupt => Ok(
                (Trial { started_at: now, machine: owned(machine) }, true),
            ),
        }
    }

    /// The trial on disk, without starting one.
    pub fn peek(file: TrialFile) -> (res: Result<Option<Trial>>)
        ensures
            match file {
                TrialFile::Present(trial) => res == Ok::<Option<Trial>, Error>(Some(trial)),
                TrialFile::Unreadable { path, reason } => res is Err && res->Err_0 == (Error::Io {
                    path,
                    reason,
                }),
                _ => res == Ok::<Option<Trial>, Error>(None),
            },
    {
        match file {
            TrialFile::Present(trial) => Ok(Some(trial)),
            TrialFile::Unreadable { path, reason } => Err(Error::Io { path, reason }),
            TrialFile::Missing | TrialFile::Corrupt => Ok(None),
        }
    }

    pub fn expires_at(&self) -> (res: i64)
        requires
            trial_end(self.started_at) <= i64::MAX,
        ensures
            res == trial_end(self.started_at),
    {
        self.started_at + TRIAL_DAYS * SECS_PER_DAY
    }

    /// A clock rolled backwards past the start date counts as still in trial
    /// rather than as expired: the user is not the one at fault.
    pub fn is_active_at(&self, now: i64) -> (res: bool)
        requires
            trial_end(self.started_at) <= i64::MAX,
        ensures
            res == (now < trial_end(self.started_at)),
    {
        now < self.expires_at()
    }

    /// Whole days remaining, rounded up, saturating at zero. A number of days
    /// beyond 32 bits keeps its low 32.
    pub fn days_left_at(&self, now: i64) -> (res: u32)
        requires
            self.in_range(now),
        ensures
            res == whole_days(trial_end(self.started_at), now as int) as u32,
    {
        let end = self.expires_at();
        if end <= now {
            return 0;
        }
        let days = (end - now + SECS_PER_DAY - 1) / SECS_PER_DAY;
        #[verifier::truncate]
        (days as u32)
    }
}

/// A trial is active exactly as long as days are left of it, and there are never
/// more than its length unless the clock ran backwards.
pub proof fn law_trial_days(started_at: i64, now: i64)
    ensures
        (now < trial_end(started_at)) <==> whole_days(trial_end(started_at), now as int) > 0,
        now >= started_at ==> whole_days(trial_end(started_at), now as int) <= TRIAL_DAYS,
        whole_days(trial_end(started_at), started_at as int) == TRIAL_DAYS,
        now <= started_at ==> now < trial_end(started_at),
{
}

/// A trial lasts fourteen days of 86 400 seconds each, to the second.
pub proof fn law_trial_lasts_a_fortnight(started_at: i64)
    ensures
        trial_end(started_at) == started_at + 1_209_600,
{
}

/// The days left cover the time that is left, and one day fewer would not.
pub proof fn law_days_left_are_rounded_up(end: int, now: int)
    ensures
        end <= now ==> whole_days(end, now) == 0,
        end > now ==> whole_days(end, now) * 86_400 >= end - now,
        end > now ==> (whole_days(end, now) - 1) * 86_400 < end - now,
{
}

} // verus!
