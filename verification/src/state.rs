//! The task model that drives the dashboard.
use std::time::{Duration, Instant};

use vstd::prelude::*;

verus! {

/// `std::time::Instant`, carried opaquely.
#[verifier::external_type_specification]
#[verifier::external_body]
pub struct ExInstant(Instant);

/// Where a task stands.
#[derive(Clone, Copy, PartialEq, Eq, Structural)]
pub enum TaskStatus {
    Queued,
    Running,
    Done,
    Failed,
}

/// One crawl, as the dashboard shows it.
pub struct TaskData {
    pub url: String,
    pub rule_name: String,
    pub mode: String,
    pub output: String,
    pub title: String,
    pub status: TaskStatus,
    pub done: usize,
    pub total: usize,
    pub error: String,
    pub download_dir: String,
    pub started: Option<Instant>,
    pub finished: Option<Instant>,
}

/// The time from `start` to `end`, or zero when `end` is earlier
/// (`Instant::saturating_duration_since`, a function of the two instants alone).
pub uninterp spec fn instant_span(end: Instant, start: Instant) -> Duration;

/// The time from `start` to `end` (`Instant::saturating_duration_since`): its result is the
/// named `instant_span` of the two instants.
#[verifier::external_body]
fn span(end: &Instant, start: &Instant) -> (r: Duration)
    ensures
        r == instant_span(*end, *start),
{
    end.saturating_duration_since(*start)
}

/// The time since `start`, by the monotonic clock (`Instant::elapsed`). Nothing is stated of the
/// result: it depends on the clock.
#[verifier::external_body]
fn since(start: &Instant) -> Duration {
    start.elapsed()
}

impl TaskData {
    /// A queued task for `url`, with nothing done yet.
    pub fn new(url: &str, rule_name: &str, mode: &str, output: &str) -> (r: TaskData)
        ensures
            r.url@ == url@,
            r.rule_name@ == rule_name@,
            r.mode@ == mode@,
            r.output@ == output@,
            r.title@ == Seq::<char>::empty(),
            r.status == TaskStatus::Queued,
            r.done == 0,
            r.total == 0,
            r.error@ == Seq::<char>::empty(),
            r.download_dir@ == Seq::<char>::empty(),
            r.started is None,
            r.finished is None,
    {
        TaskData {
            url: String::from_str(url),
            rule_name: String::from_str(rule_name),
            mode: String::from_str(mode),
            output: String::from_str(output),
            title: String::new(),
            status: TaskStatus::Queued,
            done: 0,
            total: 0,
            error: String::new(),
            download_dir: String::new(),
            started: None,
            finished: None,
        }
    }

    /// How long the task ran (finished: from its start to its end) or has been running
    /// (started only: by the clock); `None` before it started.
    pub fn elapsed(&self) -> (r: Option<Duration>)
        ensures
            r is Some <==> self.started is Some,
            (self.started, self.finished) matches (Some(s), Some(f)) ==> r == Some(instant_span(f, s)),
    {
        match (&self.started, &self.finished) {
            (Some(s), Some(f)) => Some(span(f, s)),
            (Some(s), None) => Some(since(s)),
            _ => None,
        }
    }
}

} // verus!

verus! {

impl TaskData {
    /// The task starts running at `now`.
    pub fn start(&mut self, now: Instant)
        ensures
            final(self).status == TaskStatus::Running,
            final(self).started == Some(now),
            final(self).url == old(self).url,
            final(self).done == old(self).done,
            final(self).total == old(self).total,
            final(self).finished == old(self).finished,
    {
        self.status = TaskStatus::Running;
        self.started = Some(now);
    }

    /// The task succeeded at `now` with this title and directory.
    pub fn succeed(&mut self, title: String, dir: String, now: Instant)
        ensures
            final(self).status == TaskStatus::Done,
            final(self).title == title,
            final(self).download_dir == dir,
            final(self).finished == Some(now),
            final(self).started == old(self).started,
            final(self).url == old(self).url,
            final(self).done == old(self).done,
            final(self).total == old(self).total,
            final(self).error == old(self).error,
    {
        self.status = TaskStatus::Done;
        self.title = title;
        self.download_dir = dir;
        self.finished = Some(now);
    }

    /// The task failed at `now` with this error.
    pub fn fail(&mut self, error: String, now: Instant)
        ensures
            final(self).status == TaskStatus::Failed,
            final(self).error == error,
            final(self).finished == Some(now),
            final(self).started == old(self).started,
            final(self).url == old(self).url,
            final(self).title == old(self).title,
            final(self).done == old(self).done,
            final(self).total == old(self).total,
    {
        self.status = TaskStatus::Failed;
        self.error = error;
        self.finished = Some(now);
    }

    /// Sets how much of the task is done, out of how much.
    pub fn set_progress(&mut self, done: usize, total: usize)
        ensures
            final(self).done == done,
            final(self).total == total,
            final(self).status == old(self).status,
            final(self).url == old(self).url,
            final(self).started == old(self).started,
            final(self).finished == old(self).finished,
    {
        self.done = done;
        self.total = total;
    }

    /// A text task is complete: its total is at least 1 and all of it is done.
    pub fn text_written(&mut self)
        ensures
            final(self).total == (if old(self).total >= 1 { old(self).total } else { 1 }),
            final(self).done == final(self).total,
            final(self).status == old(self).status,
            final(self).url == old(self).url,
            final(self).started == old(self).started,
            final(self).finished == old(self).finished,
    {
        if self.total < 1 {
            self.total = 1;
        }
        self.done = self.total;
    }

    /// One more image was downloaded (the count saturates at `usize::MAX`).
    pub fn one_done(&mut self)
        ensures
            final(self).done == (if old(self).done < usize::MAX { (old(self).done + 1) as usize } else { old(self).done }),
            final(self).total == old(self).total,
            final(self).status == old(self).status,
            final(self).url == old(self).url,
            final(self).started == old(self).started,
            final(self).finished == old(self).finished,
    {
        if self.done < usize::MAX {
            self.done = self.done + 1;
        }
    }
}

} // verus!
