//! The compact display: a line for the phase, lines for the metrics, and a bar with a row of bars
//! under it for a transfer.

use vstd::prelude::*;
use vstd::utf8::encode_utf8;

use crate::model::Speed;
use crate::num::scalar::Scalar;
use crate::num::whole::{greatest, least, monus};
use crate::text::{
    holds, pad_right, padded, padding_keeps_the_text, same_text, str_view,
    sums_hold_what_their_parts_hold, texts_hold_their_parts,
};
use crate::ui::sparkline::Sparkline;

verus! {

/// A transfer at one point in time.
#[derive(Clone, Copy, Debug, PartialEq, Eq, Structural)]
pub struct SpeedProgressSample {
    pub elapsed_ns: u128,
    pub speed: Speed,
    pub bytes: u64,
    pub rtt_ms: Option<Scalar>,
}

/// A metric that has a line.
#[derive(Debug)]
pub struct MetricLine {
    pub key: String,
    pub max_width: usize,
}

/// What to show of a metric.
#[derive(Debug)]
pub struct MetricUpdate {
    /// The line, counted from zero.
    pub line: usize,
    /// Whether the line is a new one.
    pub added: bool,
    pub text: String,
}

/// The lines of the metrics.
#[derive(Debug)]
pub struct CompactUi {
    pub metrics: Vec<MetricLine>,
}

/// The line of the phase.
pub open spec fn phase_text(phase: Seq<char>) -> Seq<char> {
    "phase: "@ + phase
}

pub fn phase_line(phase: &str) -> (r: String)
    ensures
        r@ == phase_text(phase@),
{
    let mut out = "phase: ".to_owned();
    out.append(phase);
    out
}

/// The line of a metric.
pub open spec fn metric_text(label: Seq<char>, value: Seq<char>) -> Seq<char> {
    padded(label, 16) + seq![' '] + value
}

fn metric_line(label: &str, value: &str) -> (r: String)
    ensures
        r@ == metric_text(label@, value@),
{
    let mut out = pad_right(label, 16);
    out.push(' ');
    out.append(value);
    assert(out@ =~= metric_text(label@, value@));
    out
}

/// The first line for a metric.
pub open spec fn line_of(metrics: Seq<MetricLine>, label: Seq<char>) -> Option<int>
    decreases metrics.len(),
{
    if metrics.len() == 0 {
        None
    } else {
        match line_of(metrics.drop_last(), label) {
            Some(i) => Some(i),
            None => if metrics.last().key@ == label {
                Some(metrics.len() - 1)
            } else {
                None
            },
        }
    }
}

/// The bytes that a text takes.
pub open spec fn byte_length(text: Seq<char>) -> usize {
    encode_utf8(text).len() as usize
}

/// Whether a metric is shown as it should: on its line, padded to the longest text that was there,
/// or on a new one.
pub open spec fn is_metric_update(
    before: Seq<MetricLine>,
    label: Seq<char>,
    value: Seq<char>,
    after: Seq<MetricLine>,
    update: MetricUpdate,
) -> bool {
    let text = metric_text(label, value);
    match line_of(before, label) {
        Some(i) => {
            let width = greatest(before[i].max_width as int, byte_length(text) as int);
            &&& update.line == i
            &&& !update.added
            &&& update.text@ == padded(text, width)
            &&& after == before.update(
                i,
                MetricLine { max_width: width as usize, ..before[i] },
            )
        },
        None => {
            &&& update.line == before.len()
            &&& update.added
            &&& update.text@ == text
            &&& after.len() == before.len() + 1
            &&& after.drop_last() == before
            &&& after.last().key@ == label
            &&& after.last().max_width == byte_length(text)
        },
    }
}

proof fn lemma_line_of(metrics: Seq<MetricLine>, label: Seq<char>)
    ensures
        match line_of(metrics, label) {
            Some(i) => 0 <= i < metrics.len() && metrics[i].key@ == label && forall|k: int|
                0 <= k < i ==> (#[trigger] metrics[k]).key@ != label,
            None => forall|k: int| 0 <= k < metrics.len() ==> (#[trigger] metrics[k]).key@ != label,
        },
    decreases metrics.len(),
{
    if metrics.len() > 0 {
        let before = metrics.drop_last();
        lemma_line_of(before, label);
        assert forall|k: int| 0 <= k < before.len() implies #[trigger] metrics[k] == before[k] by {}
    }
}

impl CompactUi {
    pub fn new() -> (r: CompactUi)
        ensures
            r.metrics@ == Seq::<MetricLine>::empty(),
    {
        CompactUi { metrics: Vec::new() }
    }

    /// Shows a metric.
    pub fn render_metric(&mut self, label: &str, value: &str) -> (r: MetricUpdate)
        ensures
            is_metric_update(old(self).metrics@, label@, value@, final(self).metrics@, r),
    {
        let message = metric_line(label, value);
        let width: usize = message.as_str().len();
        let ghost before = self.metrics@;
        let mut i: usize = 0;
        while i < self.metrics.len()
            invariant
                i <= self.metrics.len(),
                self.metrics@ == before,
                before == old(self).metrics@,
                message@ == metric_text(label@, value@),
                width == byte_length(message@),
                forall|k: int| 0 <= k < i ==> (#[trigger] before[k]).key@ != label@,
            decreases self.metrics.len() - i,
        {
            if same_text(self.metrics[i].key.as_str(), label) {
                proof {
                    lemma_line_of(before, label@);
                }
                let widest: usize = if self.metrics[i].max_width > width {
                    self.metrics[i].max_width
                } else {
                    width
                };
                let key = self.metrics[i].key.clone();
                self.metrics.set(i, MetricLine { key, max_width: widest });
                return MetricUpdate {
                    line: i,
                    added: false,
                    text: pad_right(message.as_str(), widest),
                };
            }
            i = i + 1;
        }
        proof {
            lemma_line_of(before, label@);
        }
        self.metrics.push(MetricLine { key: label.to_owned(), max_width: width });
        assert(self.metrics@.drop_last() =~= before);
        MetricUpdate { line: i, added: true, text: message }
    }
}

/// The display of a transfer.
#[derive(Debug)]
pub struct SpeedProgressBar {
    pub phase: String,
    pub total_seconds: u64,
    pub sparkline: Sparkline,
    pub last_sparkline_index: Option<usize>,
    pub last_non_zero: Speed,
    pub last_rtt_ms: Option<Scalar>,
}

/// What to show of a transfer.
#[derive(Debug)]
pub struct BarUpdate {
    pub position: u64,
    pub speed: Speed,
    pub bytes: u64,
    pub rtt_ms: Option<Scalar>,
}

/// The most columns that a row of bars has.
pub const MAX_COLUMNS: usize = 65_536;

/// The columns of a terminal that a row of bars takes.
pub fn sparkline_width(terminal_columns: u16) -> (r: usize)
    ensures
        r == greatest(monus(terminal_columns as int, 2), 20),
        r <= MAX_COLUMNS,
{
    if terminal_columns < 22 {
        20
    } else {
        (terminal_columns - 2) as usize
    }
}

/// The speed zero.
pub open spec fn no_speed() -> Speed {
    Speed { mbps: Scalar { bits: 0 }, bps: 0 }
}

/// Whether a speed is a number above zero.
pub open spec fn is_moving(speed: Speed) -> bool {
    speed.mbps.finite() && speed.mbps.order() > 0
}

/// The column of a point in time.
pub open spec fn column_at(elapsed_ns: int, total_seconds: int, width: int) -> int {
    if width <= 1 || total_seconds == 0 {
        0
    } else {
        (least(elapsed_ns, total_seconds * 1_000_000_000) * (width - 1)) / (total_seconds
            * 1_000_000_000)
    }
}

/// The columns `from..to` set to a value.
pub open spec fn filled(
    slots: Seq<Option<Scalar>>,
    from: int,
    to: int,
    value: Scalar,
) -> Seq<Option<Scalar>> {
    Seq::new(
        slots.len(),
        |i: int|
            if from <= i < to {
                Some(value)
            } else {
                slots[i]
            },
    )
}

impl SpeedProgressBar {
    pub open spec fn valid(self) -> bool {
        &&& self.total_seconds >= 1
        &&& 1 <= self.sparkline.slots().len() <= MAX_COLUMNS
        &&& self.last_non_zero.mbps.usable()
    }

    /// A display for a transfer of so many seconds.
    pub fn new(phase: &str, seconds: u64, width: usize) -> (r: SpeedProgressBar)
        requires
            1 <= width <= MAX_COLUMNS,
        ensures
            r.valid(),
            r.phase@ == phase@,
            r.total_seconds == greatest(seconds as int, 1),
            r.sparkline.slots() == Seq::new(width as nat, |i: int| None::<Scalar>),
            r.last_sparkline_index is None,
            r.last_non_zero == no_speed(),
            r.last_rtt_ms is None,
    {
        SpeedProgressBar {
            phase: phase.to_owned(),
            total_seconds: if seconds == 0 {
                1
            } else {
                seconds
            },
            sparkline: Sparkline::new(width),
            last_sparkline_index: None,
            last_non_zero: Speed { mbps: Scalar { bits: 0 }, bps: 0 },
            last_rtt_ms: None,
        }
    }

    /// The column of a point in time.
    pub fn sample_index(&self, elapsed_ns: u128) -> (r: usize)
        requires
            self.valid(),
        ensures
            r == column_at(
                elapsed_ns as int,
                self.total_seconds as int,
                self.sparkline.slots().len() as int,
            ),
            r < self.sparkline.slots().len(),
    {
        let width: usize = self.sparkline.width();
        if width <= 1 {
            return 0;
        }
        let total: u128 = self.total_seconds as u128 * 1_000_000_000;
        let elapsed: u128 = if elapsed_ns < total {
            elapsed_ns
        } else {
            total
        };
        let last: u128 = (width - 1) as u128;
        proof {
            assert(elapsed * last <= total * last && total * last <= 0x1_0000_0000_0000_0000
                * 1_000_000_000 * MAX_COLUMNS) by (nonlinear_arith)
                requires
                    0 <= elapsed <= total,
                    total <= 0x1_0000_0000_0000_0000 * 1_000_000_000,
                    0 <= last <= MAX_COLUMNS,
            ;
            assert((elapsed * last) / (total as int) <= last) by (nonlinear_arith)
                requires
                    0 <= elapsed <= total,
                    total > 0,
                    last >= 0,
            ;
        }
        ((elapsed * last) / total) as usize
    }

    /// The speed to show: a speed that is not above zero is replaced by the last one that was.
    pub open spec fn shown_speed(self, sample: SpeedProgressSample) -> Speed {
        if is_moving(sample.speed) {
            sample.speed
        } else {
            self.last_non_zero
        }
    }

    /// The round trip to show: the last one that is a usable number.
    pub open spec fn shown_rtt(self, sample: SpeedProgressSample) -> Option<Scalar> {
        match sample.rtt_ms {
            Some(rtt) => if rtt.usable() {
                Some(rtt)
            } else {
                self.last_rtt_ms
            },
            None => self.last_rtt_ms,
        }
    }

    /// The row of bars with a sample: its column, and those that were passed over since the last
    /// one, show its speed.
    pub open spec fn row_with(self, sample: SpeedProgressSample) -> Seq<Option<Scalar>> {
        let at = column_at(
            sample.elapsed_ns as int,
            self.total_seconds as int,
            self.sparkline.slots().len() as int,
        );
        let from = match self.last_sparkline_index {
            Some(last) => if last < at {
                last + 1
            } else {
                at
            },
            None => at,
        };
        filled(self.sparkline.slots(), from, at + 1, self.shown_speed(sample).mbps)
    }

    /// Takes a sample into account.
    pub fn update(&mut self, sample: SpeedProgressSample) -> (r: BarUpdate)
        requires
            old(self).valid(),
        ensures
            final(self).valid(),
            final(self).phase == old(self).phase,
            final(self).total_seconds == old(self).total_seconds,
            final(self).last_non_zero == old(self).shown_speed(sample),
            final(self).last_rtt_ms == old(self).shown_rtt(sample),
            final(self).last_sparkline_index == Some(
                column_at(
                    sample.elapsed_ns as int,
                    old(self).total_seconds as int,
                    old(self).sparkline.slots().len() as int,
                ) as usize,
            ),
            final(self).sparkline.slots() == old(self).row_with(sample),
            r.position == least(
                sample.elapsed_ns as int / 1_000_000_000,
                old(self).total_seconds as int,
            ),
            r.speed == old(self).shown_speed(sample),
            r.bytes == sample.bytes,
            r.rtt_ms == old(self).shown_rtt(sample),
    {
        let whole: u128 = sample.elapsed_ns / 1_000_000_000;
        let position: u64 = if whole < self.total_seconds as u128 {
            whole as u64
        } else {
            self.total_seconds
        };
        if sample.speed.mbps.is_finite() && sample.speed.mbps.order_key() > 0 {
            self.last_non_zero = sample.speed;
        }
        if let Some(rtt) = sample.rtt_ms {
            if rtt.is_usable() {
                self.last_rtt_ms = Some(rtt);
            }
        }
        let speed = self.last_non_zero;
        let value = speed.mbps;
        let at: usize = self.sample_index(sample.elapsed_ns);
        let from: usize = match self.last_sparkline_index {
            Some(last) => if last < at {
                last + 1
            } else {
                at
            },
            None => at,
        };
        let ghost slots = self.sparkline.slots();
        let mut i: usize = from;
        assert(self.sparkline.slots() =~= filled(slots, from as int, i as int, value));
        while i <= at
            invariant
                from <= i <= at + 1,
                at < slots.len() <= MAX_COLUMNS,
                value.usable(),
                self.sparkline.slots() == filled(slots, from as int, i as int, value),
                self.phase == old(self).phase,
                self.total_seconds == old(self).total_seconds,
                self.last_non_zero == old(self).shown_speed(sample),
                self.last_rtt_ms == old(self).shown_rtt(sample),
                self.last_sparkline_index == old(self).last_sparkline_index,
            decreases at + 1 - i,
        {
            self.sparkline.set(i, value);
            assert(self.sparkline.slots() =~= filled(slots, from as int, i + 1, value));
            i = i + 1;
        }
        self.last_sparkline_index = Some(at);
        BarUpdate { position, speed, bytes: sample.bytes, rtt_ms: self.last_rtt_ms }
    }
}

/// The round trip behind the other figures, where it is known.
pub open spec fn rtt_suffix(rtt: Option<Seq<char>>) -> Seq<char> {
    match rtt {
        Some(text) => " RTT "@ + text + " ms"@,
        None => Seq::empty(),
    }
}

/// What stands beside the bar: the speed, the megabytes and the round trip.
pub fn prefix_text(mbps: &str, megabytes: &str, rtt: Option<&str>) -> (r: String)
    ensures
        r@ == mbps@ + " Mbps "@ + megabytes@ + " MB"@ + rtt_suffix(str_view(rtt)),
{
    let mut out = mbps.to_owned();
    out.append(" Mbps ");
    out.append(megabytes);
    out.append(" MB");
    if let Some(text) = rtt {
        out.append(" RTT ");
        out.append(text);
        out.append(" ms");
    }
    assert(out@ =~= mbps@ + " Mbps "@ + megabytes@ + " MB"@ + rtt_suffix(str_view(rtt)));
    out
}

/// What stands there once the transfer is over.
pub fn finish_text(phase: &str, mbps: &str, megabytes: &str, rtt: Option<&str>) -> (r: String)
    ensures
        r@ == phase@ + " done "@ + mbps@ + " Mbps ("@ + megabytes@ + " MB)"@ + rtt_suffix(
            str_view(rtt),
        ),
{
    let mut out = phase.to_owned();
    out.append(" done ");
    out.append(mbps);
    out.append(" Mbps (");
    out.append(megabytes);
    out.append(" MB)");
    if let Some(text) = rtt {
        out.append(" RTT ");
        out.append(text);
        out.append(" ms");
    }
    assert(out@ =~= phase@ + " done "@ + mbps@ + " Mbps ("@ + megabytes@ + " MB)"@ + rtt_suffix(
        str_view(rtt),
    ));
    out
}

/// The columns run with the time: the first one at the start, the last one at the end, and never
/// back.
pub proof fn columns_run_with_the_time(early: int, late: int, total_seconds: int, width: int)
    requires
        0 <= early <= late,
        total_seconds > 0,
        width > 1,
    ensures
        column_at(0, total_seconds, width) == 0,
        late >= total_seconds * 1_000_000_000 ==> column_at(late, total_seconds, width) == width
            - 1,
        0 <= column_at(early, total_seconds, width) <= column_at(late, total_seconds, width)
            <= width - 1,
{
    let total = total_seconds * 1_000_000_000;
    let a = least(early, total);
    let b = least(late, total);
    let last = width - 1;
    assert(0 <= (a * last) / total <= (b * last) / total <= last) by (nonlinear_arith)
        requires
            0 <= a <= b <= total,
            total > 0,
            last >= 0,
    ;
    assert((0 * last) / total == 0) by (nonlinear_arith)
        requires
            total > 0,
    ;
    assert((total * last) / total == last) by (nonlinear_arith)
        requires
            total > 0,
    ;
}

/// A sample fills its own column and those that were passed over since the last one, and leaves the
/// others as they are.
pub proof fn samples_fill_the_columns_they_pass(
    bar: SpeedProgressBar,
    sample: SpeedProgressSample,
    i: int,
)
    requires
        bar.valid(),
        0 <= i < bar.sparkline.slots().len(),
        is_moving(sample.speed),
    ensures
        ({
            let at = column_at(
                sample.elapsed_ns as int,
                bar.total_seconds as int,
                bar.sparkline.slots().len() as int,
            );
            let row = bar.row_with(sample);
            let passed = bar.last_sparkline_index matches Some(last) && last < i <= at;
            &&& row.len() == bar.sparkline.slots().len()
            &&& i == at || passed ==> row[i] == Some(sample.speed.mbps)
            &&& i != at && !passed ==> row[i] == bar.sparkline.slots()[i]
        }),
{
}

/// A speed above zero is shown, and else the last one that was.
pub proof fn pauses_show_the_last_speed(bar: SpeedProgressBar, sample: SpeedProgressSample)
    ensures
        sample.speed.mbps.finite() && sample.speed.mbps.order() > 0 ==> bar.shown_speed(sample)
            == sample.speed,
        !(sample.speed.mbps.finite() && sample.speed.mbps.order() > 0) ==> bar.shown_speed(sample)
            == bar.last_non_zero,
        sample.rtt_ms is None ==> bar.shown_rtt(sample) == bar.last_rtt_ms,
        sample.rtt_ms matches Some(rtt) ==> rtt.finite() && rtt.order() >= 0 ==> bar.shown_rtt(
            sample,
        ) == Some(rtt),
{
}

/// A metric keeps its line: the line has its label, the other lines stay as they are, and a new
/// line is made for a new label alone. A line never gets narrower, and shows label and value.
pub proof fn metrics_keep_their_line(
    before: Seq<MetricLine>,
    label: Seq<char>,
    value: Seq<char>,
    after: Seq<MetricLine>,
    update: MetricUpdate,
)
    requires
        is_metric_update(before, label, value, after, update),
    ensures
        update.line < after.len(),
        after[update.line as int].key@ == label,
        update.added <==> forall|k: int|
            0 <= k < before.len() ==> (#[trigger] before[k]).key@ != label,
        after.len() == before.len() + if update.added {
            1int
        } else {
            0
        },
        forall|k: int|
            0 <= k < before.len() && k != update.line ==> #[trigger] after[k] == before[k],
        !update.added ==> after[update.line as int].max_width
            >= before[update.line as int].max_width,
        update.added ==> update.line == before.len() && after[update.line as int].max_width
            == encode_utf8(update.text@).len() as usize,
        holds(update.text@, label),
        holds(update.text@, value),
{
    lemma_line_of(before, label);
    let text = metric_text(label, value);
    if update.added {
        assert forall|k: int| 0 <= k < before.len() implies #[trigger] after[k] == before[k] by {
            assert(after.drop_last()[k] == after[k]);
        }
    }
    texts_hold_their_parts(label, Seq::empty(), 0, 0);
    texts_hold_their_parts(value, Seq::empty(), 0, 0);
    padding_keeps_the_text(label, 16, label);
    let front = padded(label, 16) + seq![' '];
    sums_hold_what_their_parts_hold(padded(label, 16), seq![' '], label);
    sums_hold_what_their_parts_hold(front, value, label);
    sums_hold_what_their_parts_hold(front, value, value);
    if !update.added {
        let i = update.line as int;
        let width = greatest(before[i].max_width as int, byte_length(text) as int);
        padding_keeps_the_text(text, width, label);
        padding_keeps_the_text(text, width, value);
    }
}

/// With a single column, or without a time, everything stands in the first one. A bar starts
/// without a speed.
pub proof fn narrow_bars_have_one_column(elapsed_ns: int, total_seconds: int, width: int)
    ensures
        width <= 1 ==> column_at(elapsed_ns, total_seconds, width) == 0,
        total_seconds == 0 ==> column_at(elapsed_ns, total_seconds, width) == 0,
        no_speed().bps == 0,
        no_speed().mbps.bits == 0,
{
}

} // verus!
