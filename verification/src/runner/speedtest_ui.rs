//! What the display shows of a speed test, event by event.

use vstd::prelude::*;

use crate::num::fraction::Fraction;
use crate::num::scalar::Scalar;
use crate::num::wide::Wide;
use crate::speedtest::engine::{EngineEvent, EngineStage, ProbeFigures};
use crate::text::{decimal, from_chars, to_chars, to_decimal};

verus! {

/// A direction that is shown.
#[derive(Clone, Copy, Debug, PartialEq, Eq, Structural)]
pub enum Transfer {
    Download,
    Upload,
}

/// Something to show.
#[derive(Debug)]
pub enum UiStep {
    Phase(&'static str),
    Metric { label: &'static str, value: String },
    /// Begin to show a transfer of so many seconds.
    Begin { transfer: Transfer, seconds: u64 },
    Update {
        transfer: Transfer,
        elapsed_ns: u128,
        mbps: Scalar,
        bytes: u64,
        rtt_ms: Option<Scalar>,
    },
    Finish { transfer: Transfer, mbps: Scalar, bytes: u64 },
}

/// The values of a [`UiStep`].
pub enum StepModel {
    Phase(Seq<char>),
    Metric(Seq<char>, Seq<char>),
    Begin(Transfer, u64),
    Update(Transfer, u128, Scalar, u64, Option<Scalar>),
    Finish(Transfer, Scalar, u64),
}

impl View for UiStep {
    type V = StepModel;

    open spec fn view(&self) -> StepModel {
        match *self {
            UiStep::Phase(text) => StepModel::Phase(text@),
            UiStep::Metric { label, value } => StepModel::Metric(label@, value@),
            UiStep::Begin { transfer, seconds } => StepModel::Begin(transfer, seconds),
            UiStep::Update { transfer, elapsed_ns, mbps, bytes, rtt_ms } => StepModel::Update(
                transfer,
                elapsed_ns,
                mbps,
                bytes,
                rtt_ms,
            ),
            UiStep::Finish { transfer, mbps, bytes } => StepModel::Finish(transfer, mbps, bytes),
        }
    }
}

pub open spec fn step_views(steps: Seq<UiStep>) -> Seq<StepModel> {
    steps.map_values(|step: UiStep| step@)
}

/// The best candidate so far.
#[derive(Debug)]
pub struct ProbeBest {
    pub server_id: u64,
    pub name: String,
    pub average: Fraction,
    pub average_text: String,
    pub stddev_ms: Scalar,
    pub stddev_text: String,
}

/// The last figures of a transfer.
#[derive(Clone, Copy, Debug, PartialEq, Eq, Structural)]
pub struct LastFigures {
    pub mbps: Scalar,
    pub bytes: u64,
}

/// What is remembered of a run to show it.
#[derive(Debug)]
pub struct SpeedtestUiController {
    pub download_seconds: u64,
    pub upload_seconds: u64,
    pub server_names: Vec<(u64, String)>,
    pub download_shown: bool,
    pub upload_shown: bool,
    pub download_last: Option<LastFigures>,
    pub upload_last: Option<LastFigures>,
    pub probe_completed: usize,
    pub probe_failed: usize,
    pub probe_best: Option<ProbeBest>,
}

/// The name of a server: the last that was given for it.
pub open spec fn name_of(names: Seq<(u64, String)>, server_id: u64) -> Seq<char>
    decreases names.len(),
{
    if names.len() == 0 {
        "unknown"@
    } else if names.last().0 == server_id {
        names.last().1@
    } else {
        name_of(names.drop_last(), server_id)
    }
}

/// How a candidate answered, in words.
pub open spec fn figures_text(average: Seq<char>, stddev: Seq<char>) -> Seq<char> {
    " avg="@ + average + "ms std="@ + stddev
}

/// A candidate among all of them.
pub open spec fn probe_head(index: int, total: int, server_id: int, name: Seq<char>) -> Seq<char> {
    decimal(index) + "/"@ + decimal(total) + " id="@ + decimal(server_id) + " "@ + name
}

/// The slack within which two averages are equal: 100 ns.
pub const TIE_SLACK_NS: u128 = 100;

/// Whether an average is at most the slack above another one.
pub open spec fn not_above(a: Fraction, b: Fraction) -> bool {
    a.num * b.den <= (b.num + TIE_SLACK_NS * b.den) * a.den
}

/// Whether a candidate is better: it answers faster, or as fast and more steadily.
pub open spec fn is_better(
    average: Fraction,
    stddev: Scalar,
    best_average: Fraction,
    best_stddev: Scalar,
) -> bool {
    average.less(best_average) || (not_above(average, best_average) && not_above(
        best_average,
        average,
    ) && stddev.less(best_stddev))
}

fn check_not_above(a: Fraction, b: Fraction) -> (r: bool)
    requires
        b.is_mean(),
    ensures
        r == not_above(a, b),
{
    proof {
        assert(TIE_SLACK_NS * b.den <= TIE_SLACK_NS * u64::MAX) by (nonlinear_arith)
            requires
                0 < b.den <= u64::MAX,
        ;
        assert(u64::MAX * i64::MAX + TIE_SLACK_NS * u64::MAX <= u128::MAX) by (nonlinear_arith);
    }
    let raised: u128 = b.num + TIE_SLACK_NS * b.den;
    !Wide::product(raised, a.den).below(Wide::product(a.num, b.den))
}

fn check_better(
    average: Fraction,
    stddev: Scalar,
    best_average: Fraction,
    best_stddev: Scalar,
) -> (r: bool)
    requires
        average.is_mean(),
        best_average.is_mean(),
    ensures
        r == is_better(average, stddev, best_average, best_stddev),
{
    average.is_less(best_average) || (check_not_above(average, best_average) && check_not_above(
        best_average,
        average,
    ) && stddev.is_less(best_stddev))
}

/// The first twelve characters of a text.
pub open spec fn first_twelve(text: Seq<char>) -> Seq<char> {
    if text.len() < 12 {
        text
    } else {
        text.take(12)
    }
}

fn shorten(text: &str) -> (r: String)
    ensures
        r@ == first_twelve(text@),
{
    let chars = to_chars(text);
    let count: usize = if chars.len() < 12 {
        chars.len()
    } else {
        12
    };
    let out = from_chars(&chars, 0, count);
    assert(out@ =~= first_twelve(text@));
    out
}

pub open spec fn or_nothing(last: Option<LastFigures>) -> LastFigures {
    match last {
        Some(figures) => figures,
        None => LastFigures { mbps: Scalar { bits: 0 }, bytes: 0 },
    }
}

/// The phase of a stage.
pub open spec fn stage_phase(stage: EngineStage) -> Seq<char> {
    match stage {
        EngineStage::ServerSelection => "probing latency across candidates"@,
        EngineStage::Latency => "selecting best latency server"@,
        EngineStage::Download => "running download test"@,
        EngineStage::Upload => "running upload test"@,
        EngineStage::Save => "building result payload"@,
        EngineStage::Finished => "benchmark complete"@,
    }
}

pub open spec fn nothing() -> Seq<StepModel> {
    Seq::empty()
}

/// The best candidate in words.
pub open spec fn best_text(best: ProbeBest) -> Seq<char> {
    "id="@ + decimal(best.server_id as int) + " "@ + best.name@ + figures_text(
        best.average_text@,
        best.stddev_text@,
    )
}

/// Whether `best` is the best candidate once one with these figures has answered.
pub open spec fn is_best_after(
    before: Option<ProbeBest>,
    server_id: u64,
    name: Seq<char>,
    figures: ProbeFigures,
    best: ProbeBest,
) -> bool {
    if before is None || is_better(
        figures.average,
        figures.stddev_ms,
        before->0.average,
        before->0.stddev_ms,
    ) {
        &&& best.server_id == server_id
        &&& best.name@ == name
        &&& best.average == figures.average
        &&& best.average_text@ == figures.average_text@
        &&& best.stddev_ms == figures.stddev_ms
        &&& best.stddev_text@ == figures.stddev_text@
    } else {
        best == before->0
    }
}

impl SpeedtestUiController {
    pub fn new(
        download_seconds: u64,
        upload_seconds: u64,
        server_names: Vec<(u64, String)>,
    ) -> (r: SpeedtestUiController)
        ensures
            r == (SpeedtestUiController {
                download_seconds,
                upload_seconds,
                server_names,
                download_shown: false,
                upload_shown: false,
                download_last: None,
                upload_last: None,
                probe_completed: 0,
                probe_failed: 0,
                probe_best: None,
            }),
    {
        SpeedtestUiController {
            download_seconds,
            upload_seconds,
            server_names,
            download_shown: false,
            upload_shown: false,
            download_last: None,
            upload_last: None,
            probe_completed: 0,
            probe_failed: 0,
            probe_best: None,
        }
    }

    pub fn set_server_names(&mut self, server_names: Vec<(u64, String)>)
        ensures
            *final(self) == (SpeedtestUiController { server_names, ..*old(self) }),
    {
        self.server_names = server_names;
    }

    fn server_name(&self, server_id: u64) -> (r: String)
        ensures
            r@ == name_of(self.server_names@, server_id),
    {
        let mut i: usize = self.server_names.len();
        assert(self.server_names@.take(i as int) =~= self.server_names@);
        while i > 0
            invariant
                i <= self.server_names.len(),
                name_of(self.server_names@, server_id) == name_of(
                    self.server_names@.take(i as int),
                    server_id,
                ),
            decreases i,
        {
            assert(self.server_names@.take(i as int).drop_last() =~= self.server_names@.take(
                i - 1,
            ));
            if self.server_names[i - 1].0 == server_id {
                return self.server_names[i - 1].1.clone();
            }
            i = i - 1;
        }
        "unknown".to_owned()
    }

    /// What is shown when a stage starts.
    pub open spec fn start_steps(self, stage: EngineStage) -> Seq<StepModel> {
        nothing().push(StepModel::Phase(stage_phase(stage))) + match stage {
            EngineStage::Download => nothing().push(
                StepModel::Begin(Transfer::Download, self.download_seconds),
            ),
            EngineStage::Upload => nothing().push(
                StepModel::Begin(Transfer::Upload, self.upload_seconds),
            ),
            _ => nothing(),
        }
    }

    /// What is remembered when a stage starts.
    pub open spec fn started(self, stage: EngineStage) -> SpeedtestUiController {
        match stage {
            EngineStage::Download => SpeedtestUiController {
                download_shown: true,
                download_last: None,
                ..self
            },
            EngineStage::Upload => SpeedtestUiController {
                upload_shown: true,
                upload_last: None,
                ..self
            },
            _ => self,
        }
    }

    fn on_stage_starting(&mut self, stage: EngineStage) -> (r: Vec<UiStep>)
        ensures
            step_views(r@) == old(self).start_steps(stage),
            *final(self) == old(self).started(stage),
    {
        let mut steps: Vec<UiStep> = Vec::new();
        let phase: &'static str = match stage {
            EngineStage::ServerSelection => "probing latency across candidates",
            EngineStage::Latency => "selecting best latency server",
            EngineStage::Download => "running download test",
            EngineStage::Upload => "running upload test",
            EngineStage::Save => "building result payload",
            EngineStage::Finished => "benchmark complete",
        };
        steps.push(UiStep::Phase(phase));
        match stage {
            EngineStage::Download => {
                steps.push(
                    UiStep::Begin { transfer: Transfer::Download, seconds: self.download_seconds },
                );
                self.download_shown = true;
                self.download_last = None;
            },
            EngineStage::Upload => {
                steps.push(
                    UiStep::Begin { transfer: Transfer::Upload, seconds: self.upload_seconds },
                );
                self.upload_shown = true;
                self.upload_last = None;
            },
            _ => {},
        }
        assert(step_views(steps@) =~= old(self).start_steps(stage));
        steps
    }

    /// How many candidates are through.
    pub open spec fn probe_progress(completed: int, total: int, failed: int) -> Seq<char> {
        decimal(completed) + "/"@ + decimal(total) + " complete ("@ + decimal(failed) + " failed)"@
    }

    /// Whether a probe is shown and remembered as it should be.
    pub open spec fn is_probed(
        before: SpeedtestUiController,
        index: usize,
        total: usize,
        server_id: u64,
        figures: Option<ProbeFigures>,
        error: Option<String>,
        after: SpeedtestUiController,
        steps: Seq<StepModel>,
    ) -> bool {
        let name = name_of(before.server_names@, server_id);
        let head = probe_head(index as int, total as int, server_id as int, name);
        let completed = if before.probe_completed == usize::MAX {
            usize::MAX
        } else {
            (before.probe_completed + 1) as usize
        };
        let failed = if figures is Some || before.probe_failed == usize::MAX {
            before.probe_failed
        } else {
            (before.probe_failed + 1) as usize
        };
        let progress = StepModel::Metric(
            "probe_progress"@,
            Self::probe_progress(completed as int, total as int, failed as int),
        );
        &&& after == (SpeedtestUiController {
            probe_completed: completed,
            probe_failed: failed,
            probe_best: after.probe_best,
            ..before
        })
        &&& match figures {
            Some(f) => {
                &&& after.probe_best matches Some(best) && is_best_after(
                    before.probe_best,
                    server_id,
                    name,
                    f,
                    best,
                )
                &&& steps == nothing().push(
                    StepModel::Metric(
                        "probe_current"@,
                        head + figures_text(f.average_text@, f.stddev_text@),
                    ),
                ).push(StepModel::Metric("probe_best"@, best_text(after.probe_best->0))).push(
                    progress,
                )
            },
            None => {
                &&& after.probe_best == before.probe_best
                &&& steps == nothing().push(
                    StepModel::Metric(
                        "probe_current"@,
                        head + " failed ("@ + (match error {
                            Some(reason) => reason@,
                            None => "probe failed"@,
                        }) + ")"@,
                    ),
                ).push(progress)
            },
        }
    }

    fn on_candidate_probed(
        &mut self,
        index: usize,
        total: usize,
        server_id: u64,
        figures: Option<ProbeFigures>,
        error: Option<String>,
    ) -> (r: Vec<UiStep>)
        requires
            figures matches Some(f) ==> f.average.is_mean(),
            old(self).valid(),
        ensures
            final(self).valid(),
            Self::is_probed(
                *old(self),
                index,
                total,
                server_id,
                figures,
                error,
                *final(self),
                step_views(r@),
            ),
    {
        let mut steps: Vec<UiStep> = Vec::new();
        let name = self.server_name(server_id);
        if self.probe_completed < usize::MAX {
            self.probe_completed = self.probe_completed + 1;
        }
        let mut head = to_decimal(index as u64);
        head.append("/");
        head.append(to_decimal(total as u64).as_str());
        head.append(" id=");
        head.append(to_decimal(server_id).as_str());
        head.append(" ");
        head.append(name.as_str());
        match figures {
            Some(f) => {
                let text = figures_words(f.average_text.as_str(), f.stddev_text.as_str());
                head.append(text.as_str());
                steps.push(UiStep::Metric { label: "probe_current", value: head });
                let better: bool = match &self.probe_best {
                    Some(best) => check_better(
                        f.average,
                        f.stddev_ms,
                        best.average,
                        best.stddev_ms,
                    ),
                    None => true,
                };
                if better {
                    self.probe_best = Some(
                        ProbeBest {
                            server_id,
                            name,
                            average: f.average,
                            average_text: f.average_text,
                            stddev_ms: f.stddev_ms,
                            stddev_text: f.stddev_text,
                        },
                    );
                }
                if let Some(best) = &self.probe_best {
                    let mut line = "id=".to_owned();
                    line.append(to_decimal(best.server_id).as_str());
                    line.append(" ");
                    line.append(best.name.as_str());
                    let text = figures_words(
                        best.average_text.as_str(),
                        best.stddev_text.as_str(),
                    );
                    line.append(text.as_str());
                    steps.push(UiStep::Metric { label: "probe_best", value: line });
                }
            },
            None => {
                if self.probe_failed < usize::MAX {
                    self.probe_failed = self.probe_failed + 1;
                }
                head.append(" failed (");
                match &error {
                    Some(reason) => {
                        head.append(reason.as_str());
                    },
                    None => {
                        head.append("probe failed");
                    },
                }
                head.append(")");
                steps.push(UiStep::Metric { label: "probe_current", value: head });
            },
        }
        let mut progress = to_decimal(self.probe_completed as u64);
        progress.append("/");
        progress.append(to_decimal(total as u64).as_str());
        progress.append(" complete (");
        progress.append(to_decimal(self.probe_failed as u64).as_str());
        progress.append(" failed)");
        steps.push(UiStep::Metric { label: "probe_progress", value: progress });
        proof {
            let shown = step_views(steps@);
            if figures is Some {
                assert(shown =~= nothing().push(shown[0]).push(shown[1]).push(shown[2]));
            } else {
                assert(shown =~= nothing().push(shown[0]).push(shown[1]));
            }
        }
        steps
    }

    /// Whether the best candidate can be compared with others.
    pub open spec fn valid(self) -> bool {
        self.probe_best matches Some(best) ==> best.average.is_mean()
    }

    /// What is shown when a transfer goes on.
    pub open spec fn progress_steps(
        self,
        stage: EngineStage,
        elapsed_ns: u128,
        mbps: Scalar,
        bytes: u64,
        rtt_ms: Option<Scalar>,
    ) -> Seq<StepModel> {
        match stage {
            EngineStage::Download => if self.download_shown {
                nothing().push(
                    StepModel::Update(Transfer::Download, elapsed_ns, mbps, bytes, rtt_ms),
                )
            } else {
                nothing()
            },
            EngineStage::Upload => if self.upload_shown {
                nothing().push(
                    StepModel::Update(Transfer::Upload, elapsed_ns, mbps, bytes, rtt_ms),
                )
            } else {
                nothing()
            },
            _ => nothing(),
        }
    }

    /// What is remembered of the figures of a stage.
    pub open spec fn noted(self, stage: EngineStage, mbps: Scalar, bytes: u64)
        -> SpeedtestUiController {
        match stage {
            EngineStage::Download => SpeedtestUiController {
                download_last: Some(LastFigures { mbps, bytes }),
                ..self
            },
            EngineStage::Upload => SpeedtestUiController {
                upload_last: Some(LastFigures { mbps, bytes }),
                ..self
            },
            _ => self,
        }
    }

    fn note(&mut self, stage: EngineStage, mbps: Scalar, bytes: u64)
        ensures
            *final(self) == old(self).noted(stage, mbps, bytes),
    {
        match stage {
            EngineStage::Download => {
                self.download_last = Some(LastFigures { mbps, bytes });
            },
            EngineStage::Upload => {
                self.upload_last = Some(LastFigures { mbps, bytes });
            },
            _ => {},
        }
    }

    fn on_stage_progress(
        &mut self,
        stage: EngineStage,
        elapsed_ns: u128,
        mbps: Scalar,
        bytes: u64,
        rtt_ms: Option<Scalar>,
    ) -> (r: Vec<UiStep>)
        ensures
            step_views(r@) == old(self).progress_steps(stage, elapsed_ns, mbps, bytes, rtt_ms),
            *final(self) == old(self).noted(stage, mbps, bytes),
    {
        self.note(stage, mbps, bytes);
        let mut steps: Vec<UiStep> = Vec::new();
        if stage == EngineStage::Download && self.download_shown {
            steps.push(
                UiStep::Update { transfer: Transfer::Download, elapsed_ns, mbps, bytes, rtt_ms },
            );
        }
        if stage == EngineStage::Upload && self.upload_shown {
            steps.push(
                UiStep::Update { transfer: Transfer::Upload, elapsed_ns, mbps, bytes, rtt_ms },
            );
        }
        assert(step_views(steps@) =~= old(self).progress_steps(
            stage,
            elapsed_ns,
            mbps,
            bytes,
            rtt_ms,
        ));
        steps
    }

    /// What is shown when a stage is over.
    pub open spec fn finish_steps(self, stage: EngineStage) -> Seq<StepModel> {
        match stage {
            EngineStage::Download => if self.download_shown {
                nothing().push(
                    StepModel::Finish(
                        Transfer::Download,
                        or_nothing(self.download_last).mbps,
                        or_nothing(self.download_last).bytes,
                    ),
                )
            } else {
                nothing()
            },
            EngineStage::Upload => if self.upload_shown {
                nothing().push(
                    StepModel::Finish(
                        Transfer::Upload,
                        or_nothing(self.upload_last).mbps,
                        or_nothing(self.upload_last).bytes,
                    ),
                )
            } else {
                nothing()
            },
            _ => nothing(),
        }
    }

    pub open spec fn finished(self, stage: EngineStage) -> SpeedtestUiController {
        match stage {
            EngineStage::Download => SpeedtestUiController { download_shown: false, ..self },
            EngineStage::Upload => SpeedtestUiController { upload_shown: false, ..self },
            _ => self,
        }
    }

    fn on_stage_finished(&mut self, stage: EngineStage) -> (r: Vec<UiStep>)
        ensures
            step_views(r@) == old(self).finish_steps(stage),
            *final(self) == old(self).finished(stage),
    {
        let mut steps: Vec<UiStep> = Vec::new();
        match stage {
            EngineStage::Download => {
                if self.download_shown {
                    let last = last_figures(self.download_last);
                    steps.push(
                        UiStep::Finish {
                            transfer: Transfer::Download,
                            mbps: last.mbps,
                            bytes: last.bytes,
                        },
                    );
                    self.download_shown = false;
                }
            },
            EngineStage::Upload => {
                if self.upload_shown {
                    let last = last_figures(self.upload_last);
                    steps.push(
                        UiStep::Finish {
                            transfer: Transfer::Upload,
                            mbps: last.mbps,
                            bytes: last.bytes,
                        },
                    );
                    self.upload_shown = false;
                }
            },
            _ => {},
        }
        assert(step_views(steps@) =~= old(self).finish_steps(stage));
        steps
    }

    /// Whether an event is shown and remembered as it should be.
    pub open spec fn is_handled(
        before: SpeedtestUiController,
        event: EngineEvent,
        after: SpeedtestUiController,
        steps: Seq<StepModel>,
    ) -> bool {
        match event {
            EngineEvent::StageStarting(stage) => after == before.started(stage) && steps
                == before.start_steps(stage),
            EngineEvent::CandidateProbed { index, total, server_id, figures, error } =>
                Self::is_probed(
                before,
                index,
                total,
                server_id,
                figures,
                error,
                after,
                steps,
            ),
            EngineEvent::ServerSelected { server_id, average_text, stddev_text } => after == before
                && steps == nothing().push(
                StepModel::Metric(
                    "selected_server"@,
                    "id="@ + decimal(server_id as int) + " "@ + name_of(
                        before.server_names@,
                        server_id,
                    ) + figures_text(average_text@, stddev_text@),
                ),
            ),
            EngineEvent::StageProgress { stage, elapsed_ns, mbps, bytes, rtt_ms, .. } => after
                == before.noted(stage, mbps, bytes) && steps == before.progress_steps(
                stage,
                elapsed_ns,
                mbps,
                bytes,
                rtt_ms,
            ),
            EngineEvent::StageResult { stage, mbps, bytes } => after == before.noted(
                stage,
                mbps,
                bytes,
            ) && steps == nothing(),
            EngineEvent::StageFinished(stage) => after == before.finished(stage) && steps
                == before.finish_steps(stage),
            EngineEvent::SavePayloadBuilt { guid, hash } => after == before && steps
                == nothing().push(
                StepModel::Metric(
                    "save"@,
                    "guid="@ + guid@ + " hash="@ + first_twelve(hash@),
                ),
            ),
        }
    }

    /// Takes an event into account. Returns what to show, in order.
    pub fn handle_engine_event(&mut self, event: EngineEvent) -> (r: Vec<UiStep>)
        requires
            old(self).valid(),
            event matches EngineEvent::CandidateProbed { figures: Some(f), .. }
                ==> f.average.is_mean(),
        ensures
            final(self).valid(),
            Self::is_handled(*old(self), event, *final(self), step_views(r@)),
    {
        match event {
            EngineEvent::StageStarting(stage) => self.on_stage_starting(stage),
            EngineEvent::CandidateProbed { index, total, server_id, figures, error } => {
                self.on_candidate_probed(index, total, server_id, figures, error)
            },
            EngineEvent::ServerSelected { server_id, average_text, stddev_text } => {
                let mut value = "id=".to_owned();
                value.append(to_decimal(server_id).as_str());
                value.append(" ");
                value.append(self.server_name(server_id).as_str());
                let text = figures_words(average_text.as_str(), stddev_text.as_str());
                value.append(text.as_str());
                let mut steps: Vec<UiStep> = Vec::new();
                steps.push(UiStep::Metric { label: "selected_server", value });
                assert(step_views(steps@) =~= nothing().push(step_views(steps@)[0]));
                steps
            },
            EngineEvent::StageProgress { stage, elapsed_ns, mbps, bytes, rtt_ms, .. } => {
                self.on_stage_progress(stage, elapsed_ns, mbps, bytes, rtt_ms)
            },
            EngineEvent::StageResult { stage, mbps, bytes } => {
                self.note(stage, mbps, bytes);
                let steps: Vec<UiStep> = Vec::new();
                assert(step_views(steps@) =~= nothing());
                steps
            },
            EngineEvent::StageFinished(stage) => self.on_stage_finished(stage),
            EngineEvent::SavePayloadBuilt { guid, hash } => {
                let mut value = "guid=".to_owned();
                value.append(guid.as_str());
                value.append(" hash=");
                value.append(shorten(hash.as_str()).as_str());
                let mut steps: Vec<UiStep> = Vec::new();
                steps.push(UiStep::Metric { label: "save", value });
                assert(step_views(steps@) =~= nothing().push(step_views(steps@)[0]));
                steps
            },
        }
    }
}

fn last_figures(last: Option<LastFigures>) -> (r: LastFigures)
    ensures
        r == or_nothing(last),
{
    match last {
        Some(figures) => figures,
        None => LastFigures { mbps: Scalar { bits: 0 }, bytes: 0 },
    }
}

fn figures_words(average: &str, stddev: &str) -> (r: String)
    ensures
        r@ == figures_text(average@, stddev@),
{
    let mut out = " avg=".to_owned();
    out.append(average);
    out.append("ms std=");
    out.append(stddev);
    out
}

/// A transfer is shown to be over exactly once: after its stage has started and ended nothing of
/// it is on display.
pub proof fn transfers_are_closed_once(ui: SpeedtestUiController, stage: EngineStage)
    ensures
        ui.started(stage).finished(stage).finish_steps(stage) == nothing(),
        (stage == EngineStage::Download || stage == EngineStage::Upload) ==> ui.started(
            stage,
        ).finish_steps(stage).len() == 1,
{
}

/// A transfer is shown for the seconds that it is planned for, and ends with the last figures that
/// were noted for it.
pub proof fn transfers_end_with_their_last_figures(
    ui: SpeedtestUiController,
    mbps: Scalar,
    bytes: u64,
)
    ensures
        ui.start_steps(EngineStage::Download).last() == StepModel::Begin(
            Transfer::Download,
            ui.download_seconds,
        ),
        ui.start_steps(EngineStage::Upload).last() == StepModel::Begin(
            Transfer::Upload,
            ui.upload_seconds,
        ),
        ui.started(EngineStage::Download).noted(EngineStage::Download, mbps, bytes).finish_steps(
            EngineStage::Download,
        ) == seq![StepModel::Finish(Transfer::Download, mbps, bytes)],
        ui.started(EngineStage::Upload).noted(EngineStage::Upload, mbps, bytes).finish_steps(
            EngineStage::Upload,
        ) == seq![StepModel::Finish(Transfer::Upload, mbps, bytes)],
{
    assert(nothing().push(StepModel::Finish(Transfer::Download, mbps, bytes)) =~= seq![
        StepModel::Finish(Transfer::Download, mbps, bytes),
    ]);
    assert(nothing().push(StepModel::Finish(Transfer::Upload, mbps, bytes)) =~= seq![
        StepModel::Finish(Transfer::Upload, mbps, bytes),
    ]);
}

/// A candidate that answers faster is better, and of two that answer alike, within 100 ns, the one
/// that answers more steadily.
pub proof fn faster_candidates_are_better(
    average: Fraction,
    stddev: Scalar,
    best: Fraction,
    best_stddev: Scalar,
)
    requires
        average.den > 0,
        best.den > 0,
    ensures
        average.num * best.den < best.num * average.den ==> is_better(
            average,
            stddev,
            best,
            best_stddev,
        ),
        average.num * best.den > (best.num + 100 * best.den) * average.den ==> !is_better(
            average,
            stddev,
            best,
            best_stddev,
        ),
        average == best ==> (is_better(average, stddev, best, best_stddev) <==> stddev.less(
            best_stddev,
        )),
{
    if average == best {
        let (n, d) = (best.num as int, best.den as int);
        assert(n * d <= (n + TIE_SLACK_NS * d) * d) by (nonlinear_arith)
            requires
                d > 0,
        ;
    } else if average.num * best.den > (best.num + 100 * best.den) * average.den {
        let (bn, bd, ad) = (best.num as int, best.den as int, average.den as int);
        assert((bn + 100 * bd) * ad >= bn * ad) by (nonlinear_arith)
            requires
                bd > 0,
                ad > 0,
        ;
    }
}

/// A server is called by the last name that was given for it.
pub proof fn servers_are_called_by_their_last_name(
    names: Seq<(u64, String)>,
    next: (u64, String),
    server_id: u64,
)
    ensures
        name_of(names.push(next), next.0) == next.1@,
        server_id != next.0 ==> name_of(names.push(next), server_id) == name_of(names, server_id),
        name_of(Seq::empty(), server_id) == "unknown"@,
{
    assert(names.push(next).drop_last() =~= names);
}

/// Every probe is counted, and a failed one among the failures. The best server after it is the
/// probed one where it is the first to answer or answers faster, and none that was not probed.
pub proof fn probes_are_counted_and_the_best_is_kept(
    before: SpeedtestUiController,
    index: usize,
    total: usize,
    server_id: u64,
    figures: Option<ProbeFigures>,
    error: Option<String>,
    after: SpeedtestUiController,
    steps: Seq<StepModel>,
)
    requires
        before.probe_completed < usize::MAX,
        before.probe_failed < usize::MAX,
        figures matches Some(f) ==> f.average.den > 0,
        before.probe_best matches Some(best) ==> best.average.den > 0,
        SpeedtestUiController::is_handled(
            before,
            EngineEvent::CandidateProbed { index, total, server_id, figures, error },
            after,
            steps,
        ),
    ensures
        after.probe_completed == before.probe_completed + 1,
        figures is Some ==> after.probe_failed == before.probe_failed,
        figures is None ==> after.probe_failed == before.probe_failed + 1 && after.probe_best
            == before.probe_best,
        figures matches Some(f) ==> {
            &&& after.probe_best matches Some(best) && {
                ||| after.probe_best == before.probe_best
                ||| best.server_id == server_id && best.average == f.average && best.stddev_ms
                    == f.stddev_ms && best.average_text@ == f.average_text@ && best.stddev_text@
                    == f.stddev_text@
            }
            &&& before.probe_best is None ==> after.probe_best->0.server_id == server_id
            &&& before.probe_best matches Some(old_best) ==> f.average.num * old_best.average.den
                < old_best.average.num * f.average.den ==> after.probe_best->0.server_id
                == server_id
        },
        steps.last() == StepModel::Metric(
            "probe_progress"@,
            decimal(after.probe_completed as int) + "/"@ + decimal(total as int) + " complete ("@
                + decimal(after.probe_failed as int) + " failed)"@,
        ),
{
    if let (Some(f), Some(best)) = (figures, before.probe_best) {
        faster_candidates_are_better(f.average, f.stddev_ms, best.average, best.stddev_ms);
    }
}

/// While a transfer is shown, each of its reports is shown with its own figures.
pub proof fn progress_is_shown_while_the_transfer_is(
    ui: SpeedtestUiController,
    elapsed_ns: u128,
    mbps: Scalar,
    bytes: u64,
    rtt_ms: Option<Scalar>,
)
    ensures
        ui.started(EngineStage::Download).progress_steps(
            EngineStage::Download,
            elapsed_ns,
            mbps,
            bytes,
            rtt_ms,
        ) == seq![StepModel::Update(Transfer::Download, elapsed_ns, mbps, bytes, rtt_ms)],
        ui.started(EngineStage::Upload).progress_steps(
            EngineStage::Upload,
            elapsed_ns,
            mbps,
            bytes,
            rtt_ms,
        ) == seq![StepModel::Update(Transfer::Upload, elapsed_ns, mbps, bytes, rtt_ms)],
        !ui.download_shown ==> ui.progress_steps(
            EngineStage::Download,
            elapsed_ns,
            mbps,
            bytes,
            rtt_ms,
        ).len() == 0,
        !ui.upload_shown ==> ui.progress_steps(
            EngineStage::Upload,
            elapsed_ns,
            mbps,
            bytes,
            rtt_ms,
        ).len() == 0,
{
    assert(nothing().push(StepModel::Update(Transfer::Download, elapsed_ns, mbps, bytes, rtt_ms))
        =~= seq![StepModel::Update(Transfer::Download, elapsed_ns, mbps, bytes, rtt_ms)]);
    assert(nothing().push(StepModel::Update(Transfer::Upload, elapsed_ns, mbps, bytes, rtt_ms))
        =~= seq![StepModel::Update(Transfer::Upload, elapsed_ns, mbps, bytes, rtt_ms)]);
}

/// Of a hash no more than its first twelve characters are shown.
pub proof fn hashes_are_cut_to_their_front(text: Seq<char>, i: int)
    ensures
        first_twelve(text).len() == if text.len() <= 12 {
            text.len()
        } else {
            12
        },
        0 <= i < first_twelve(text).len() ==> first_twelve(text)[i] == text[i],
{
}

/// A transfer for which nothing was reported ends with zeros, and one that is not shown ends
/// without a word.
pub proof fn silent_transfers_end_with_zeros(ui: SpeedtestUiController)
    ensures
        ui.download_shown && ui.download_last is None ==> ui.finish_steps(EngineStage::Download)
            == seq![StepModel::Finish(Transfer::Download, Scalar { bits: 0 }, 0)],
        ui.upload_shown && ui.upload_last is None ==> ui.finish_steps(EngineStage::Upload) == seq![
            StepModel::Finish(Transfer::Upload, Scalar { bits: 0 }, 0),
        ],
        !ui.download_shown ==> ui.finish_steps(EngineStage::Download).len() == 0,
        !ui.upload_shown ==> ui.finish_steps(EngineStage::Upload).len() == 0,
{
    assert(nothing().push(StepModel::Finish(Transfer::Download, Scalar { bits: 0 }, 0)) =~= seq![
        StepModel::Finish(Transfer::Download, Scalar { bits: 0 }, 0),
    ]);
    assert(nothing().push(StepModel::Finish(Transfer::Upload, Scalar { bits: 0 }, 0)) =~= seq![
        StepModel::Finish(Transfer::Upload, Scalar { bits: 0 }, 0),
    ]);
}

/// Each event of a stage does to the display what is its to do.
pub proof fn stages_are_shown_as_they_come(
    before: SpeedtestUiController,
    stage: EngineStage,
    after: SpeedtestUiController,
    steps: Seq<StepModel>,
)
    ensures
        SpeedtestUiController::is_handled(
            before,
            EngineEvent::StageStarting(stage),
            after,
            steps,
        ) ==> {
            &&& stage == EngineStage::Download ==> after.download_shown
            &&& stage == EngineStage::Upload ==> after.upload_shown
            &&& steps.len() > 0
        },
        SpeedtestUiController::is_handled(
            before,
            EngineEvent::StageFinished(stage),
            after,
            steps,
        ) ==> {
            &&& stage == EngineStage::Download ==> !after.download_shown
            &&& stage == EngineStage::Upload ==> !after.upload_shown
            &&& stage == EngineStage::Download && before.download_shown ==> steps.len() == 1
            &&& stage == EngineStage::Upload && before.upload_shown ==> steps.len() == 1
        },
{
}

} // verus!
