//! The fullscreen display: its content, and when to draw it.

use vstd::prelude::*;

use crate::num::fraction::Fraction;
use crate::num::whole::{greatest, least};
use crate::text::same_text;

verus! {

/// A transfer that is shown. The figures are texts with two decimals, the megabytes with one.
#[derive(Debug)]
pub struct ProgressState {
    pub phase: String,
    pub total_seconds: u64,
    pub elapsed_ns: u128,
    pub mbps: String,
    pub megabytes: String,
    pub active_connections: usize,
    /// The latency in milliseconds, where it is a usable number.
    pub latency: Option<String>,
    /// The jitter in milliseconds, where it is a usable number.
    pub jitter: Option<String>,
}

/// What is on the screen.
#[derive(Debug)]
pub struct FullscreenUi {
    pub phase: String,
    pub metrics: Vec<(String, String)>,
    pub progress: Option<ProgressState>,
    pub download_result: Option<String>,
    pub upload_result: Option<String>,
    pub last_draw_ns: u64,
    pub active: bool,
}

/// How long the screen stays as it is while a transfer runs.
pub const MIN_DRAW_INTERVAL_NANOS: u64 = 900_000_000;

pub open spec fn metric_views(metrics: Seq<(String, String)>) -> Seq<(Seq<char>, Seq<char>)> {
    metrics.map_values(|metric: (String, String)| (metric.0@, metric.1@))
}

/// The metrics with one set: in place of the first with its label, else at the end.
pub open spec fn with_metric(
    metrics: Seq<(Seq<char>, Seq<char>)>,
    label: Seq<char>,
    value: Seq<char>,
) -> Seq<(Seq<char>, Seq<char>)>
    decreases metrics.len(),
{
    if metrics.len() == 0 {
        seq![(label, value)]
    } else if metrics[0].0 == label {
        metrics.update(0, (label, value))
    } else {
        seq![metrics[0]] + with_metric(metrics.drop_first(), label, value)
    }
}

proof fn lemma_with_metric(
    metrics: Seq<(Seq<char>, Seq<char>)>,
    label: Seq<char>,
    value: Seq<char>,
    at: int,
)
    requires
        0 <= at <= metrics.len(),
        forall|k: int| 0 <= k < at ==> (#[trigger] metrics[k]).0 != label,
        at < metrics.len() ==> metrics[at].0 == label,
    ensures
        with_metric(metrics, label, value) == if at < metrics.len() {
            metrics.update(at, (label, value))
        } else {
            metrics.push((label, value))
        },
    decreases metrics.len(),
{
    if metrics.len() == 0 {
        assert(seq![(label, value)] =~= metrics.push((label, value)));
    } else if at > 0 {
        assert(metrics[0].0 != label);
        let rest = metrics.drop_first();
        assert forall|k: int| 0 <= k < at - 1 implies (#[trigger] rest[k]).0 != label by {
            assert(metrics[k + 1].0 != label);
        }
        lemma_with_metric(rest, label, value, at - 1);
        if at < metrics.len() {
            assert(seq![metrics[0]] + rest.update(at - 1, (label, value)) =~= metrics.update(
                at,
                (label, value),
            ));
        } else {
            assert(seq![metrics[0]] + rest.push((label, value)) =~= metrics.push((label, value)));
        }
    }
}

/// The label of the gauge.
pub open spec fn gauge_text(progress: Option<ProgressState>) -> Seq<char> {
    match progress {
        Some(p) => p.phase@ + " "@ + p.mbps@ + " Mbps "@ + p.megabytes@ + " MB "@
            + crate::text::decimal(p.active_connections as int) + " conn"@ + (match p.latency {
            Some(ms) => " "@ + ms@ + "ms"@,
            None => Seq::empty(),
        }) + (match p.jitter {
            Some(ms) => " j"@ + ms@,
            None => Seq::empty(),
        }),
        None => "idle"@,
    }
}

/// How far the gauge is filled.
pub open spec fn gauge_fill(progress: Option<ProgressState>) -> Fraction {
    match progress {
        Some(p) => Fraction {
            num: least(p.elapsed_ns as int / 1_000_000_000, p.total_seconds as int) as u128,
            den: p.total_seconds as u128,
        },
        None => Fraction { num: 0, den: 1 },
    }
}

impl FullscreenUi {
    pub fn start(now_ns: u64) -> (r: FullscreenUi)
        ensures
            r.phase@ == "initializing"@,
            r.metrics.len() == 0,
            r.progress is None,
            r.download_result is None,
            r.upload_result is None,
            r.last_draw_ns == now_ns,
            r.active,
    {
        FullscreenUi {
            phase: "initializing".to_owned(),
            metrics: Vec::new(),
            progress: None,
            download_result: None,
            upload_result: None,
            last_draw_ns: now_ns,
            active: true,
        }
    }

    pub fn render_phase(&mut self, phase: &str)
        ensures
            final(self).phase@ == phase@,
            *final(self) == (FullscreenUi { phase: final(self).phase, ..*old(self) }),
    {
        self.phase = phase.to_owned();
    }

    pub fn render_metric(&mut self, label: &str, value: &str)
        ensures
            metric_views(final(self).metrics@) == with_metric(
                metric_views(old(self).metrics@),
                label@,
                value@,
            ),
            *final(self) == (FullscreenUi { metrics: final(self).metrics, ..*old(self) }),
    {
        let ghost before = metric_views(self.metrics@);
        let mut i: usize = 0;
        while i < self.metrics.len()
            invariant
                i <= self.metrics.len(),
                *self == *old(self),
                before == metric_views(self.metrics@),
                forall|k: int| 0 <= k < i ==> (#[trigger] before[k]).0 != label@,
            decreases self.metrics.len() - i,
        {
            assert(before[i as int].0 == self.metrics[i as int].0@);
            if same_text(self.metrics[i].0.as_str(), label) {
                proof {
                    lemma_with_metric(before, label@, value@, i as int);
                }
                self.metrics.set(i, (label.to_owned(), value.to_owned()));
                assert(metric_views(self.metrics@) =~= before.update(i as int, (label@, value@)));
                return ;
            }
            i = i + 1;
        }
        proof {
            lemma_with_metric(before, label@, value@, i as int);
        }
        self.metrics.push((label.to_owned(), value.to_owned()));
        assert(metric_views(self.metrics@) =~= before.push((label@, value@)));
    }

    /// Shows a transfer that begins.
    pub fn begin_speed_progress(&mut self, phase: &str, seconds: u64)
        ensures
            final(self).progress matches Some(progress) && {
                &&& progress.phase@ == phase@
                &&& progress.total_seconds == greatest(seconds as int, 1)
                &&& progress.elapsed_ns == 0
                &&& progress.mbps@ == "0.00"@
                &&& progress.megabytes@ == "0.0"@
                &&& progress.active_connections == 0
                &&& progress.latency is None
                &&& progress.jitter is None
            },
            *final(self) == (FullscreenUi { progress: final(self).progress, ..*old(self) }),
    {
        self.progress = Some(
            ProgressState {
                phase: phase.to_owned(),
                total_seconds: if seconds == 0 {
                    1
                } else {
                    seconds
                },
                elapsed_ns: 0,
                mbps: "0.00".to_owned(),
                megabytes: "0.0".to_owned(),
                active_connections: 0,
                latency: None,
                jitter: None,
            },
        );
    }

    /// Shows a transfer.
    pub fn update_speed_progress(&mut self, progress: ProgressState)
        ensures
            *final(self) == (FullscreenUi {
                progress: Some(
                    ProgressState {
                        total_seconds: greatest(progress.total_seconds as int, 1) as u64,
                        ..progress
                    },
                ),
                ..*old(self)
            }),
    {
        let mut shown = progress;
        if shown.total_seconds == 0 {
            shown.total_seconds = 1;
        }
        self.progress = Some(shown);
    }

    /// A transfer is over, with this summary.
    pub fn finish_speed_progress(&mut self, phase: &str, summary: String)
        ensures
            *final(self) == (FullscreenUi {
                progress: None,
                download_result: if phase@ == "download"@ {
                    Some(summary)
                } else {
                    old(self).download_result
                },
                upload_result: if phase@ == "upload"@ && phase@ != "download"@ {
                    Some(summary)
                } else {
                    old(self).upload_result
                },
                ..*old(self)
            }),
    {
        if same_text(phase, "download") {
            self.download_result = Some(summary);
        } else if same_text(phase, "upload") {
            self.upload_result = Some(summary);
        }
        self.progress = None;
    }

    /// Whether the screen is drawn anew while a transfer runs.
    pub fn is_draw_due(&self, now_ns: u64) -> (r: bool)
        ensures
            r == (now_ns >= self.last_draw_ns && now_ns - self.last_draw_ns
                >= MIN_DRAW_INTERVAL_NANOS),
    {
        now_ns >= self.last_draw_ns && now_ns - self.last_draw_ns >= MIN_DRAW_INTERVAL_NANOS
    }

    pub fn on_drawn(&mut self, now_ns: u64)
        ensures
            *final(self) == (FullscreenUi { last_draw_ns: now_ns, ..*old(self) }),
    {
        self.last_draw_ns = now_ns;
    }

    /// Leaves the screen. Returns whether there was one to leave.
    pub fn shutdown(&mut self) -> (r: bool)
        ensures
            r == old(self).active,
            *final(self) == (FullscreenUi { active: false, ..*old(self) }),
    {
        let was_active = self.active;
        self.active = false;
        was_active
    }

    /// The label of the gauge.
    pub fn gauge_label(&self) -> (r: String)
        ensures
            r@ == gauge_text(self.progress),
    {
        match &self.progress {
            Some(p) => {
                let mut out = p.phase.clone();
                out.append(" ");
                out.append(p.mbps.as_str());
                out.append(" Mbps ");
                out.append(p.megabytes.as_str());
                out.append(" MB ");
                out.append(crate::text::to_decimal(p.active_connections as u64).as_str());
                out.append(" conn");
                if let Some(ms) = &p.latency {
                    out.append(" ");
                    out.append(ms.as_str());
                    out.append("ms");
                }
                if let Some(ms) = &p.jitter {
                    out.append(" j");
                    out.append(ms.as_str());
                }
                assert(out@ =~= gauge_text(self.progress));
                out
            },
            None => "idle".to_owned(),
        }
    }

    /// How far the gauge is filled.
    pub fn gauge_ratio(&self) -> (r: Fraction)
        ensures
            r == gauge_fill(self.progress),
            self.progress matches Some(p) ==> p.total_seconds > 0 ==> r.num <= r.den,
    {
        match &self.progress {
            Some(p) => {
                let whole: u128 = p.elapsed_ns / 1_000_000_000;
                let total: u128 = p.total_seconds as u128;
                Fraction {
                    num: if whole < total {
                        whole
                    } else {
                        total
                    },
                    den: total,
                }
            },
            None => Fraction { num: 0, den: 1 },
        }
    }

    /// The results so far, each with its name, or what stands in their place.
    pub fn result_lines(&self) -> (r: Vec<(&'static str, String)>)
        ensures
            r@.map_values(|line: (&'static str, String)| (line.0@, line.1@)) == {
                let down = match self.download_result {
                    Some(text) => seq![("download: "@, text@)],
                    None => Seq::empty(),
                };
                let up = match self.upload_result {
                    Some(text) => seq![("upload: "@, text@)],
                    None => Seq::empty(),
                };
                if (down + up).len() == 0 {
                    seq![(""@, "benchmark results will appear here"@)]
                } else {
                    down + up
                }
            },
    {
        let mut out: Vec<(&'static str, String)> = Vec::new();
        if let Some(text) = &self.download_result {
            out.push(("download: ", text.clone()));
        }
        if let Some(text) = &self.upload_result {
            out.push(("upload: ", text.clone()));
        }
        if out.len() == 0 {
            out.push(("", "benchmark results will appear here".to_owned()));
        }
        out
    }
}

/// A metric that is set has its value afterwards, and the others keep theirs and their places.
pub proof fn metrics_are_set_by_their_label(
    metrics: Seq<(Seq<char>, Seq<char>)>,
    label: Seq<char>,
    value: Seq<char>,
)
    ensures
        ({
            let after = with_metric(metrics, label, value);
            &&& after.contains((label, value))
            &&& metrics.len() <= after.len() <= metrics.len() + 1
            &&& forall|i: int|
                0 <= i < metrics.len() ==> (#[trigger] after[i]).0 == metrics[i].0
            &&& forall|i: int|
                0 <= i < metrics.len() && (#[trigger] metrics[i]).0 != label ==> after[i]
                    == metrics[i]
            &&& after.len() == metrics.len() + 1 ==> after.last() == (label, value) && forall|
                i: int,
            |
                0 <= i < metrics.len() ==> (#[trigger] metrics[i]).0 != label
        }),
    decreases metrics.len(),
{
    let after = with_metric(metrics, label, value);
    if metrics.len() == 0 {
        assert(after[0] == (label, value));
    } else if metrics[0].0 == label {
        assert(after[0] == (label, value));
    } else {
        let rest = metrics.drop_first();
        metrics_are_set_by_their_label(rest, label, value);
        let inner = with_metric(rest, label, value);
        assert(after == seq![metrics[0]] + inner);
        let k = choose|k: int| 0 <= k < inner.len() && inner[k] == (label, value);
        assert(after[k + 1] == (label, value));
        assert forall|i: int| 0 <= i < metrics.len() implies (#[trigger] after[i]).0
            == metrics[i].0 by {
            if i > 0 {
                assert(after[i] == inner[i - 1] && rest[i - 1] == metrics[i]);
            }
        }
        assert forall|i: int|
            0 <= i < metrics.len() && (#[trigger] metrics[i]).0 != label implies after[i]
            == metrics[i] by {
            if i > 0 {
                assert(after[i] == inner[i - 1] && rest[i - 1] == metrics[i]);
            }
        }
        if after.len() == metrics.len() + 1 {
            assert forall|i: int| 0 <= i < metrics.len() implies (#[trigger] metrics[i]).0
                != label by {
                if i > 0 {
                    assert(rest[i - 1] == metrics[i]);
                }
            }
        }
    }
}

/// The gauge fills with the whole seconds, and is full once the time is over.
pub proof fn the_gauge_fills_with_time(progress: ProgressState)
    ensures
        gauge_fill(Some(progress)).den == progress.total_seconds,
        progress.elapsed_ns as int / 1_000_000_000 >= progress.total_seconds ==> gauge_fill(
            Some(progress),
        ).num == progress.total_seconds,
        progress.elapsed_ns as int / 1_000_000_000 < progress.total_seconds ==> gauge_fill(
            Some(progress),
        ).num == progress.elapsed_ns as int / 1_000_000_000,
        gauge_fill(None).num == 0,
{
}

} // verus!
