use tunmux_speedtest::model::Speed;
use tunmux_speedtest::num::fraction::Fraction;
use tunmux_speedtest::num::scalar::Scalar;
use tunmux_speedtest::runner::speedtest_ui::{SpeedtestUiController, Transfer, UiStep};
use tunmux_speedtest::speedtest::engine::{EngineEvent, EngineStage, ProbeFigures};
use tunmux_speedtest::ui::compact::{
    finish_text, phase_line, prefix_text, sparkline_width, CompactUi, SpeedProgressBar,
    SpeedProgressSample,
};
use tunmux_speedtest::ui::fullscreen::{FullscreenUi, ProgressState};
use tunmux_speedtest::ui::sparkline::{height_of, Sparkline};
use tunmux_speedtest::ui::{SpeedProgress, Ui};

fn scalar(value: f64) -> Scalar {
    Scalar { bits: value.to_bits() }
}

fn strip_ansi(s: &str) -> String {
    let mut out = String::new();
    let mut chars = s.chars();
    while let Some(c) = chars.next() {
        if c == '\x1b' {
            for c2 in chars.by_ref() {
                if c2 == 'm' {
                    break;
                }
            }
        } else {
            out.push(c);
        }
    }
    out
}

#[test]
fn empty_renders_empty() {
    let s = Sparkline::new(10);
    assert_eq!(s.render(), "          ");
}

#[test]
fn single_sample_mid_height() {
    let mut s = Sparkline::new(10);
    s.set(0, scalar(100.0));
    let rendered = strip_ansi(&s.render());
    assert_eq!(rendered, "▄         ");
}

#[test]
fn all_same_mid_height() {
    let mut s = Sparkline::new(10);
    for idx in 0..5 {
        s.set(idx, scalar(50.0));
    }
    let rendered = strip_ansi(&s.render());
    assert_eq!(rendered, "▄▄▄▄▄     ");
}

#[test]
fn ascending_values() {
    let mut s = Sparkline::new(8);
    for i in 0..8 {
        s.set(i, scalar(i as f64));
    }
    let rendered = strip_ansi(&s.render());
    assert_eq!(rendered, "▁▂▃▄▅▆▇█");
}

#[test]
fn setting_sample_overwrites_slot() {
    let mut s = Sparkline::new(3);
    s.set(0, scalar(1.0));
    s.set(1, scalar(2.0));
    s.set(1, scalar(4.0));
    assert_eq!(s.sample(0), Some(scalar(1.0)));
    assert_eq!(s.sample(1), Some(scalar(4.0)));
    assert_eq!(s.sample(2), None);
}

#[test]
fn outlier_does_not_squash_graph() {
    let mut s = Sparkline::new(60);
    s.set(0, scalar(500.0)); // single outlier
    for idx in 1..60 {
        s.set(idx, scalar(100.0));
    }
    let rendered = strip_ansi(&s.render());
    let low_count = rendered.chars().filter(|&c| c == '▁').count();
    assert!(
        low_count <= 2,
        "too many low bars ({low_count}), outlier is squashing the graph"
    );
}

#[test]
fn zero_renders_lowest() {
    let mut s = Sparkline::new(5);
    s.set(0, scalar(0.0));
    s.set(1, scalar(100.0));
    let rendered = strip_ansi(&s.render());
    assert_eq!(rendered.chars().next().unwrap(), '▁');
    assert_eq!(rendered.chars().nth(1).unwrap(), '█');
}

#[test]
fn samples_beyond_the_width_fall_into_the_last_slot() {
    let mut s = Sparkline::new(2);
    s.set(5, scalar(1.0));
    assert_eq!(s.width(), 2);
    assert_eq!(strip_ansi(&s.render()), " ▄");
    assert_eq!(Sparkline::new(0).render(), "");
}

#[test]
fn heights_follow_the_exact_values() {
    let height =
        |value: f64, low: f64, high: f64| height_of(scalar(value), scalar(low), scalar(high));
    assert_eq!(height(1.0, 0.0, 14.0), 1);
    assert_eq!(height(0.999_999_999_999_999_9, 0.0, 14.0), 0);
    assert_eq!(height(9.0, 0.0, 10.0), 6);
    assert_eq!(height(-3.0, -7.0, 0.0), 4);
    assert_eq!((height(-1.0, 0.0, 10.0), height(11.0, 0.0, 10.0)), (0, 7));
    // Far less than a bit per second apart, and still told apart.
    assert_eq!((height(1e-9, 1e-9, 8e-9), height(8e-9, 1e-9, 8e-9)), (0, 7));
    assert_eq!(height(3e-9, 1e-9, 8e-9), 2);
    assert_eq!(height(1e-300, 0.0, 1e-299), 3);
    assert_eq!(height(1.0, 1.0, 1.0 + f64::EPSILON), 0);
    assert_eq!(height(2.0, -0.0, 0.0), 3);
    assert_eq!(height(f64::EPSILON, 1e-300, f64::EPSILON), 7);
    assert_eq!(height(0.0, -f64::MAX, f64::MAX), 0);
    assert_eq!(height(f64::MAX, 0.0, f64::MAX), 7);
    assert_eq!(height(f64::INFINITY, 0.0, 1.0), 7);
    assert_eq!(height(f64::NEG_INFINITY, 0.0, 1.0), 0);
    assert_eq!(height(1.0, 0.0, f64::INFINITY), 0);
    assert_eq!(height(f64::NAN, 0.0, 1.0), 0);
    let mut s = Sparkline::new(3);
    s.set(0, scalar(-0.5e-6));
    s.set(1, scalar(0.1e-6));
    s.set(2, scalar(0.2e-6));
    assert_eq!(strip_ansi(&s.render()), "▁▇█");
}

#[test]
fn heights_agree_with_scaled_doubles() {
    let expected = |value: f64, low: f64, high: f64| {
        (((value - low) / (high - low)).clamp(0.0, 1.0) * 7.0).round() as usize
    };
    for low in 0..8 {
        for high in low + 1..40 {
            for value in 0..42 {
                let (v, l, h) = (value as f64 * 1.25, low as f64 * 1.25, high as f64 * 1.25);
                assert_eq!(height_of(scalar(v), scalar(l), scalar(h)), expected(v, l, h));
            }
        }
    }
}

#[test]
fn compact_ui_tests_live_elsewhere() {}

#[test]
fn metric_lines_are_kept_in_place() {
    let mut lines = CompactUi::new();
    let first = lines.render_metric("Ping", "10.00 ms");
    assert!(first.added);
    let second = lines.render_metric("Jitter", "1 ms");
    assert_eq!(second.line, 1);
    let again = lines.render_metric("Ping", "9 ms");
    assert!(!again.added);
    assert_eq!(again.line, 0);
    assert_eq!(again.text.chars().count(), first.text.chars().count());
    assert!(phase_line("Latency").contains("Latency"));
}

fn sample(elapsed_ns: u128, mbps: f64, bytes: u64, rtt_ms: Option<f64>) -> SpeedProgressSample {
    SpeedProgressSample {
        elapsed_ns,
        speed: Speed { mbps: scalar(mbps), bps: (mbps * 1_000_000.0).round() as u64 },
        bytes,
        rtt_ms: rtt_ms.map(scalar),
    }
}

#[test]
fn progress_bars_remember_their_last_figures() {
    let mut bar = SpeedProgressBar::new("Download", 10, 20);
    let update = bar.update(sample(5_000_000_000, 80.0, 1_000, Some(3.0)));
    assert_eq!(update.speed.mbps, scalar(80.0));
    assert_eq!(bar.sparkline.sample(9), Some(scalar(80.0)));
    assert_eq!(bar.sample_index(0), 0);
    assert_eq!(bar.sample_index(u128::MAX), 19);
    let silent = bar.update(sample(6_000_000_000, 0.0, 1_000, None));
    assert_eq!(silent.speed.mbps, scalar(80.0));
    assert_eq!(silent.rtt_ms, Some(scalar(3.0)));
    assert!(silent.position > update.position);
    assert!(prefix_text("80.00", "1.00", None).contains("80.00"));
    assert!(finish_text("Download", "80.00", "1.00", Some("3.00")).contains("Download"));
    assert!(sparkline_width(0) >= 1);
}

#[test]
fn disabled_displays_show_nothing() {
    let mut ui = Ui::new(false);
    assert!(ui.render_phase("x").is_none());
    assert!(ui.render_metric("a", "b").is_none());
    assert!(ui.progress_interval().is_none());
    let progress = ui.begin_speed_progress("Download", 10, 10);
    assert!(matches!(progress, SpeedProgress::Disabled));
    assert!(ui.finish_speed_progress(progress).is_none());
    let ui = Ui::new(true);
    assert_eq!(ui.progress_interval(), Some(250_000_000));
    let mut progress = ui.begin_speed_progress("Download", 10, 10);
    let update = ui
        .update_speed_progress(&mut progress, sample(5_000_000_000, 1.0, 1, None))
        .expect("an update");
    assert_eq!(update.position, 5);
    assert!(matches!(&progress, SpeedProgress::Compact(bar) if bar.last_sparkline_index == Some(4)));
    assert!(ui.finish_speed_progress(progress).is_some());
}

#[test]
fn fullscreen_displays_follow_the_run() {
    let mut ui = FullscreenUi::start(0);
    assert_eq!(ui.gauge_ratio(), Fraction { num: 0, den: 1 });
    ui.begin_speed_progress("download", 0);
    let begun = ui.progress.as_ref().expect("progress");
    assert_eq!((begun.phase.as_str(), begun.total_seconds, begun.elapsed_ns), ("download", 1, 0));
    assert_eq!((begun.mbps.as_str(), begun.megabytes.as_str()), ("0.00", "0.0"));
    ui.render_phase("Download");
    ui.render_metric("Ping", "1 ms");
    ui.render_metric("Ping", "2 ms");
    assert_eq!(ui.metrics.len(), 1);
    ui.update_speed_progress(ProgressState {
        phase: "Download".to_string(),
        total_seconds: 10,
        elapsed_ns: 5_000_000_000,
        mbps: "10.00".to_string(),
        megabytes: "5.00".to_string(),
        active_connections: 2,
        latency: None,
        jitter: None,
    });
    let ratio = ui.gauge_ratio();
    assert_eq!(ratio.num * 2, ratio.den);
    assert!(!ui.is_draw_due(1));
    assert!(ui.is_draw_due(900_000_000));
    ui.on_drawn(900_000_000);
    ui.finish_speed_progress("Download", "10 Mbps".to_string());
    assert!(!ui.result_lines().is_empty());
    assert!(ui.shutdown());
    assert!(!ui.shutdown());
}

#[test]
fn transfers_are_shown_from_begin_to_finish() {
    let mut ui = SpeedtestUiController::new(15, 15, vec![(7, "Paris".to_string())]);
    let probed = ui.handle_engine_event(EngineEvent::CandidateProbed {
        index: 1,
        total: 2,
        server_id: 7,
        figures: Some(ProbeFigures {
            average: Fraction { num: 3_000_000, den: 1 },
            average_text: "3.00".to_string(),
            stddev_ms: scalar(0.5),
            stddev_text: "0.50".to_string(),
        }),
        error: None,
    });
    assert!(probed.iter().any(|step| match step {
        UiStep::Metric { value, .. } => value.contains("Paris"),
        _ => false,
    }));
    let started = ui.handle_engine_event(EngineEvent::StageStarting(EngineStage::Download));
    assert!(started.iter().any(|step| matches!(
        step,
        UiStep::Begin { transfer: Transfer::Download, seconds: 15 }
    )));
    let moved = ui.handle_engine_event(EngineEvent::StageProgress {
        stage: EngineStage::Download,
        elapsed_ns: 1,
        mbps: scalar(5.0),
        bytes: 9,
        active_connections: 1,
        rtt_ms: None,
    });
    assert!(moved.iter().any(|step| matches!(step, UiStep::Update { bytes: 9, .. })));
    let finished = ui.handle_engine_event(EngineEvent::StageFinished(EngineStage::Download));
    let closed = |steps: &Vec<UiStep>| {
        steps.iter().filter(|step| matches!(step, UiStep::Finish { .. })).count()
    };
    assert_eq!(closed(&finished), 1);
    let again = ui.handle_engine_event(EngineEvent::StageFinished(EngineStage::Download));
    assert_eq!(closed(&again), 0);
}
