//! The live display of a benchmark.

pub mod compact;
pub mod fullscreen;
pub mod sparkline;

use vstd::prelude::*;

use crate::num::scalar::Scalar;
use crate::num::whole::{greatest, least};
use crate::ui::compact::{
    column_at, is_metric_update, phase_line, phase_text, BarUpdate, CompactUi, MetricUpdate,
    SpeedProgressBar, SpeedProgressSample, MAX_COLUMNS,
};

verus! {

/// The display of a transfer, where there is a display.
#[derive(Debug)]
pub enum SpeedProgress {
    Disabled,
    Compact(SpeedProgressBar),
}

impl SpeedProgress {
    pub open spec fn valid(self) -> bool {
        self matches SpeedProgress::Compact(bar) ==> bar.valid()
    }
}

/// The display of a benchmark, which may be switched off.
#[derive(Debug)]
pub struct Ui {
    pub enabled: bool,
    pub lines: CompactUi,
}

/// How often progress is shown: four times a second.
pub const PROGRESS_INTERVAL_NANOS: u64 = 250_000_000;

impl Ui {
    pub fn new(enabled: bool) -> (r: Ui)
        ensures
            r.enabled == enabled,
            r.lines.metrics.len() == 0,
    {
        Ui { enabled, lines: CompactUi::new() }
    }

    /// The line of the phase, where there is a display.
    pub fn render_phase(&self, phase: &str) -> (r: Option<String>)
        ensures
            match r {
                Some(line) => self.enabled && line@ == phase_text(phase@),
                None => !self.enabled,
            },
    {
        if self.enabled {
            Some(phase_line(phase))
        } else {
            None
        }
    }

    /// The line of a metric, where there is a display.
    pub fn render_metric(&mut self, label: &str, value: &str) -> (r: Option<MetricUpdate>)
        ensures
            final(self).enabled == old(self).enabled,
            match r {
                Some(update) => old(self).enabled && is_metric_update(
                    old(self).lines.metrics@,
                    label@,
                    value@,
                    final(self).lines.metrics@,
                    update,
                ),
                None => !old(self).enabled && *final(self) == *old(self),
            },
    {
        if !self.enabled {
            return None;
        }
        let update = self.lines.render_metric(label, value);
        Some(update)
    }

    /// Starts the display of a transfer over so many columns.
    pub fn begin_speed_progress(&self, phase: &str, seconds: u64, width: usize) -> (r:
        SpeedProgress)
        requires
            1 <= width <= MAX_COLUMNS,
        ensures
            r.valid(),
            match r {
                SpeedProgress::Disabled => !self.enabled,
                SpeedProgress::Compact(bar) => {
                    &&& self.enabled
                    &&& bar.phase@ == phase@
                    &&& bar.total_seconds == greatest(seconds as int, 1)
                    &&& bar.sparkline.slots() == Seq::new(width as nat, |i: int| None::<Scalar>)
                    &&& bar.last_sparkline_index is None
                    &&& bar.last_non_zero == compact::no_speed()
                    &&& bar.last_rtt_ms is None
                },
            },
    {
        if self.enabled {
            SpeedProgress::Compact(SpeedProgressBar::new(phase, seconds, width))
        } else {
            SpeedProgress::Disabled
        }
    }

    /// How often progress is shown, where there is a display.
    pub fn progress_interval(&self) -> (r: Option<u64>)
        ensures
            r == if self.enabled {
                Some(PROGRESS_INTERVAL_NANOS)
            } else {
                None
            },
    {
        if self.enabled {
            Some(PROGRESS_INTERVAL_NANOS)
        } else {
            None
        }
    }

    /// Takes a sample of a transfer into account. Returns what to show.
    pub fn update_speed_progress(
        &self,
        progress: &mut SpeedProgress,
        sample: SpeedProgressSample,
    ) -> (r: Option<BarUpdate>)
        requires
            old(progress).valid(),
        ensures
            final(progress).valid(),
            match *old(progress) {
                SpeedProgress::Compact(bar) if self.enabled => {
                    &&& *final(progress) matches SpeedProgress::Compact(after)
                    &&& after.phase == bar.phase
                    &&& after.total_seconds == bar.total_seconds
                    &&& after.last_non_zero == bar.shown_speed(sample)
                    &&& after.last_rtt_ms == bar.shown_rtt(sample)
                    &&& after.last_sparkline_index == Some(
                        column_at(
                            sample.elapsed_ns as int,
                            bar.total_seconds as int,
                            bar.sparkline.slots().len() as int,
                        ) as usize,
                    )
                    &&& after.sparkline.slots() == bar.row_with(sample)
                    &&& r matches Some(update)
                    &&& update.position == least(
                        sample.elapsed_ns as int / 1_000_000_000,
                        bar.total_seconds as int,
                    )
                    &&& update.speed == bar.shown_speed(sample)
                    &&& update.bytes == sample.bytes
                    &&& update.rtt_ms == bar.shown_rtt(sample)
                },
                _ => r is None && *final(progress) == *old(progress),
            },
    {
        if !self.enabled {
            return None;
        }
        match progress {
            SpeedProgress::Disabled => None,
            SpeedProgress::Compact(bar) => Some(bar.update(sample)),
        }
    }

    /// The display of a transfer that is over, to be completed with its outcome.
    pub fn finish_speed_progress(&self, progress: SpeedProgress) -> (r: Option<SpeedProgressBar>)
        ensures
            r == match progress {
                SpeedProgress::Compact(bar) if self.enabled => Some(bar),
                _ => None,
            },
    {
        if !self.enabled {
            return None;
        }
        match progress {
            SpeedProgress::Disabled => None,
            SpeedProgress::Compact(bar) => Some(bar),
        }
    }

    /// Ends the display: every line is taken down.
    pub fn shutdown(&mut self)
        ensures
            final(self).enabled == old(self).enabled,
            final(self).lines.metrics.len() == 0,
    {
        self.lines = CompactUi::new();
    }
}

} // verus!
