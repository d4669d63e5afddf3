//! The upload progress that a server reports over a websocket.

use vstd::prelude::*;

use crate::json::{parse_json, parsed_json, Json, JsonTree};
use crate::num::scalar::Scalar;
use crate::num::whole::{capped_sum, clamped, least};
use crate::text::{
    begins_with, decimal, drop_empty, nonempty, pieces, same_text, split, starts_with, to_chars,
    to_decimal, trim, trimmed, views,
};

verus! {

/// A progress report: the bytes that had arrived after a time.
#[derive(Clone, Copy, Debug, PartialEq, Eq, Structural)]
pub struct UploadStatsSample {
    pub bytes: u64,
    pub elapsed_ms: u64,
    pub index: Option<u64>,
}

/// A progress report in its usual form.
#[derive(Debug)]
pub struct RawUploadStatsSample {
    pub bytes: u64,
    pub elapsed_ms: u64,
    pub index: Option<u64>,
    pub sample_type: Option<String>,
}

/// A text and the number that it is written as.
#[derive(Debug)]
pub struct NumberText {
    pub text: String,
    pub value: Scalar,
}

/// The number that a text is written as, by the first entry for it at or after `from`.
pub open spec fn number_of(numbers: Seq<NumberText>, text: Seq<char>, from: int) -> Option<Scalar>
    decreases numbers.len() - from,
{
    if from < 0 || from >= numbers.len() {
        None
    } else if numbers[from].text@ == text {
        Some(numbers[from].value)
    } else {
        number_of(numbers, text, from + 1)
    }
}

/// A value as a whole number: as it is, else rounded; not where it is negative or no number.
pub open spec fn whole_number(tree: JsonTree, numbers: Seq<NumberText>) -> Option<u64> {
    match tree {
        JsonTree::Number(n) => match n.unsigned {
            Some(whole) => Some(whole),
            None => if n.signed is Some && n.signed->0 >= 0 {
                Some(n.signed->0 as u64)
            } else if n.real is Some && n.real->0.usable() {
                Some(n.real->0.nearest() as u64)
            } else {
                None
            },
        },
        JsonTree::Text(text) => match number_of(numbers, text, 0) {
            Some(value) => if value.usable() {
                Some(value.nearest() as u64)
            } else {
                None
            },
            None => None,
        },
        _ => None,
    }
}

/// The entry of an object with the given name, at or after `from`.
pub open spec fn member(
    entries: Seq<(Seq<char>, JsonTree)>,
    name: Seq<char>,
    from: int,
) -> Option<JsonTree>
    decreases entries.len() - from,
{
    if from < 0 || from >= entries.len() {
        None
    } else if entries[from].0 == name {
        Some(entries[from].1)
    } else {
        member(entries, name, from + 1)
    }
}

/// The whole number under the first of the names, from the `from`-th on, that has one.
pub open spec fn named_number(
    entries: Seq<(Seq<char>, JsonTree)>,
    names: Seq<Seq<char>>,
    numbers: Seq<NumberText>,
    from: int,
) -> Option<u64>
    decreases names.len() - from,
{
    if from < 0 || from >= names.len() {
        None
    } else {
        let here = match member(entries, names[from], 0) {
            Some(tree) => whole_number(tree, numbers),
            None => None,
        };
        if here is Some {
            here
        } else {
            named_number(entries, names, numbers, from + 1)
        }
    }
}

/// The whole number under one of the names, in an object itself or in what it holds, outermost
/// first.
pub open spec fn number_under(
    tree: JsonTree,
    names: Seq<Seq<char>>,
    numbers: Seq<NumberText>,
) -> Option<u64>
    decreases tree, 0nat,
{
    match tree {
        JsonTree::Object(entries) => {
            let own = named_number(entries, names, numbers, 0);
            if own is Some {
                own
            } else {
                number_in_object(entries, names, numbers, 0)
            }
        },
        JsonTree::List(list) => number_in_list(list, names, numbers, 0),
        _ => None,
    }
}

pub open spec fn number_in_object(
    entries: Seq<(Seq<char>, JsonTree)>,
    names: Seq<Seq<char>>,
    numbers: Seq<NumberText>,
    from: nat,
) -> Option<u64>
    decreases entries, (entries.len() - from) as nat,
{
    if from >= entries.len() {
        None
    } else {
        let here = number_under(entries[from as int].1, names, numbers);
        if here is Some {
            here
        } else {
            number_in_object(entries, names, numbers, from + 1)
        }
    }
}

pub open spec fn number_in_list(
    list: Seq<JsonTree>,
    names: Seq<Seq<char>>,
    numbers: Seq<NumberText>,
    from: nat,
) -> Option<u64>
    decreases list, (list.len() - from) as nat,
{
    if from >= list.len() {
        None
    } else {
        let here = number_under(list[from as int], names, numbers);
        if here is Some {
            here
        } else {
            number_in_list(list, names, numbers, from + 1)
        }
    }
}

fn lookup_number(numbers: &Vec<NumberText>, text: &str) -> (r: Option<Scalar>)
    ensures
        r == number_of(numbers@, text@, 0),
{
    let mut i: usize = 0;
    while i < numbers.len()
        invariant
            number_of(numbers@, text@, 0) == number_of(numbers@, text@, i as int),
        decreases numbers.len() - i,
    {
        if same_text(numbers[i].text.as_str(), text) {
            return Some(numbers[i].value);
        }
        i = i + 1;
    }
    None
}

pub fn parse_u64_scalar(json: &Json, numbers: &Vec<NumberText>) -> (r: Option<u64>)
    ensures
        r == whole_number(json.tree(), numbers@),
{
    match json {
        Json::Number(n) => {
            if let Some(whole) = n.unsigned {
                return Some(whole);
            }
            if let Some(signed) = n.signed {
                if signed >= 0 {
                    return Some(signed as u64);
                }
            }
            if let Some(value) = n.real {
                if value.is_usable() {
                    return Some(value.round_to_u64());
                }
            }
            None
        },
        Json::Text(text) => match lookup_number(numbers, text.as_str()) {
            Some(value) => if value.is_usable() {
                Some(value.round_to_u64())
            } else {
                None
            },
            None => None,
        },
        _ => None,
    }
}

fn find_member<'a>(entries: &'a Vec<(String, Json)>, name: &str) -> (r: Option<&'a Json>)
    ensures
        ({
            let tree = Json::Object(*entries).tree();
            match r {
                Some(json) => member(tree->Object_0, name@, 0) == Some(json.tree()),
                None => member(tree->Object_0, name@, 0) is None,
            }
        }),
{
    let ghost trees = Json::Object(*entries).tree()->Object_0;
    let mut i: usize = 0;
    while i < entries.len()
        invariant
            trees == Json::Object(*entries).tree()->Object_0,
            member(trees, name@, 0) == member(trees, name@, i as int),
            i <= entries.len(),
        decreases entries.len() - i,
    {
        assert(trees[i as int] == (entries@[i as int].0@, entries@[i as int].1.tree()));
        if same_text(entries[i].0.as_str(), name) {
            return Some(&entries[i].1);
        }
        i = i + 1;
    }
    None
}

/// The whole number under one of `names`.
pub fn parse_u64_any(json: &Json, names: &Vec<String>, numbers: &Vec<NumberText>) -> (r: Option<
    u64,
>)
    ensures
        r == number_under(json.tree(), views(names@), numbers@),
    decreases json,
{
    match json {
        Json::Object(entries) => {
            let ghost trees = json.tree()->Object_0;
            let ghost wanted = views(names@);
            let mut k: usize = 0;
            while k < names.len()
                invariant
                    k <= names.len(),
                    wanted == views(names@),
                    json.tree() == Json::Object(*entries).tree(),
                    trees == json.tree()->Object_0,
                    named_number(trees, wanted, numbers@, 0) == named_number(
                        trees,
                        wanted,
                        numbers@,
                        k as int,
                    ),
                    json.tree() is Object,
                    number_under(json.tree(), wanted, numbers@) == (if named_number(
                        trees,
                        wanted,
                        numbers@,
                        0,
                    ) is Some {
                        named_number(trees, wanted, numbers@, 0)
                    } else {
                        number_in_object(trees, wanted, numbers@, 0)
                    }),
                decreases names.len() - k,
            {
                assert(wanted[k as int] == names@[k as int]@);
                if let Some(found) = find_member(entries, names[k].as_str()) {
                    if let Some(number) = parse_u64_scalar(found, numbers) {
                        return Some(number);
                    }
                }
                k = k + 1;
            }
            let mut i: usize = 0;
            while i < entries.len()
                invariant
                    i <= entries.len(),
                    wanted == views(names@),
                    *json == Json::Object(*entries),
                    trees == json.tree()->Object_0,
                    json.tree() is Object,
                    number_under(json.tree(), wanted, numbers@) == number_in_object(
                        trees,
                        wanted,
                        numbers@,
                        i as nat,
                    ),
                decreases entries.len() - i,
            {
                assert(trees[i as int] == (entries@[i as int].0@, entries@[i as int].1.tree()));
                if let Some(number) = parse_u64_any(&entries[i].1, names, numbers) {
                    return Some(number);
                }
                i = i + 1;
            }
            None
        },
        Json::List(list) => {
            let ghost trees = json.tree()->List_0;
            let ghost wanted = views(names@);
            let mut i: usize = 0;
            while i < list.len()
                invariant
                    i <= list.len(),
                    wanted == views(names@),
                    *json == Json::List(*list),
                    trees == json.tree()->List_0,
                    json.tree() is List,
                    number_under(json.tree(), wanted, numbers@) == number_in_list(
                        trees,
                        wanted,
                        numbers@,
                        i as nat,
                    ),
                decreases list.len() - i,
            {
                assert(trees[i as int] == list@[i as int].tree());
                if let Some(number) = parse_u64_any(&list[i], names, numbers) {
                    return Some(number);
                }
                i = i + 1;
            }
            None
        },
        _ => None,
    }
}

/// The names under which reports give the bytes.
pub open spec fn byte_names() -> Seq<Seq<char>> {
    seq!["b"@, "bytes"@, "totalBytes"@, "total_bytes"@]
}

/// The names under which reports give the elapsed time.
pub open spec fn elapsed_names() -> Seq<Seq<char>> {
    seq!["e"@, "elapsed"@, "elapsedMs"@, "elapsedMillis"@, "elapsed_ms"@]
}

/// The names under which reports give their index.
pub open spec fn index_names() -> Seq<Seq<char>> {
    seq!["i"@, "index"@, "sample"@, "seq"@]
}

fn names(a: &str, b: &str, c: &str, d: &str) -> (r: Vec<String>)
    ensures
        views(r@) == seq![a@, b@, c@, d@],
{
    let mut out: Vec<String> = Vec::new();
    out.push(a.to_owned());
    out.push(b.to_owned());
    out.push(c.to_owned());
    out.push(d.to_owned());
    assert(views(out@) =~= seq![a@, b@, c@, d@]);
    out
}

fn reported_bytes(json: &Json, numbers: &Vec<NumberText>) -> (r: Option<u64>)
    ensures
        r == number_under(json.tree(), byte_names(), numbers@),
{
    let list = names("b", "bytes", "totalBytes", "total_bytes");
    parse_u64_any(json, &list, numbers)
}

fn reported_elapsed(json: &Json, numbers: &Vec<NumberText>) -> (r: Option<u64>)
    ensures
        r == number_under(json.tree(), elapsed_names(), numbers@),
{
    let mut list = names("e", "elapsed", "elapsedMs", "elapsedMillis");
    let ghost before = views(list@);
    list.push("elapsed_ms".to_owned());
    assert(views(list@) =~= before.push("elapsed_ms"@));
    assert(views(list@) =~= elapsed_names());
    parse_u64_any(json, &list, numbers)
}

fn reported_index(json: &Json, numbers: &Vec<NumberText>) -> (r: Option<u64>)
    ensures
        r == number_under(json.tree(), index_names(), numbers@),
{
    let list = names("i", "index", "sample", "seq");
    parse_u64_any(json, &list, numbers)
}

/// The kind that an object says it is.
pub open spec fn stated_type(tree: JsonTree) -> Option<Seq<char>> {
    match tree {
        JsonTree::Object(entries) => match member(entries, "t"@, 0) {
            Some(JsonTree::Text(text)) => Some(text),
            _ => None,
        },
        _ => None,
    }
}

fn read_type(json: &Json) -> (r: Option<&String>)
    ensures
        match r {
            Some(text) => stated_type(json.tree()) == Some(text@),
            None => stated_type(json.tree()) is None,
        },
{
    match json {
        Json::Object(entries) => match find_member(entries, "t") {
            Some(found) => match found {
                Json::Text(text) => Some(text),
                _ => None,
            },
            None => None,
        },
        _ => None,
    }
}

/// The report in a frame. The usual form counts where the frame has it; else the figures are
/// looked up by their names. Reports of another kind than `u` do not count.
pub open spec fn report_in(
    usual: Option<RawUploadStatsSample>,
    tree: Option<JsonTree>,
    numbers: Seq<NumberText>,
) -> Option<UploadStatsSample> {
    match usual {
        Some(raw) => if raw.sample_type is Some && raw.sample_type->0@ != "u"@ {
            None
        } else {
            Some(
                UploadStatsSample {
                    bytes: raw.bytes,
                    elapsed_ms: raw.elapsed_ms,
                    index: raw.index,
                },
            )
        },
        None => match tree {
            Some(JsonTree::Object(entries)) => {
                let whole = JsonTree::Object(entries);
                let bytes = number_under(whole, byte_names(), numbers);
                let elapsed = number_under(whole, elapsed_names(), numbers);
                if stated_type(whole) is Some && stated_type(whole)->0 != "u"@ {
                    None
                } else if bytes is None || elapsed is None {
                    None
                } else {
                    Some(
                        UploadStatsSample {
                            bytes: bytes->0,
                            elapsed_ms: elapsed->0,
                            index: number_under(whole, index_names(), numbers),
                        },
                    )
                }
            },
            _ => None,
        },
    }
}

pub open spec fn tree_of(json: Option<Json>) -> Option<JsonTree> {
    match json {
        Some(j) => Some(j.tree()),
        None => None,
    }
}

/// The report in a frame, given its usual form, its JSON value and the numbers that its texts are
/// written as.
pub fn parse_upload_stats_sample(
    usual: &Option<RawUploadStatsSample>,
    json: &Option<Json>,
    numbers: &Vec<NumberText>,
) -> (r: Option<UploadStatsSample>)
    ensures
        r == report_in(*usual, tree_of(*json), numbers@),
{
    if let Some(raw) = usual {
        if let Some(kind) = &raw.sample_type {
            if !same_text(kind.as_str(), "u") {
                return None;
            }
        }
        return Some(
            UploadStatsSample { bytes: raw.bytes, elapsed_ms: raw.elapsed_ms, index: raw.index },
        );
    }
    match json {
        Some(whole) => {
            match whole {
                Json::Object(_) => {},
                _ => {
                    return None;
                },
            }
            if let Some(kind) = read_type(whole) {
                if !same_text(kind.as_str(), "u") {
                    return None;
                }
            }
            let bytes: u64 = match reported_bytes(whole, numbers) {
                Some(bytes) => bytes,
                None => {
                    return None;
                },
            };
            let elapsed_ms: u64 = match reported_elapsed(whole, numbers) {
                Some(elapsed) => elapsed,
                None => {
                    return None;
                },
            };
            let index = reported_index(whole, numbers);
            Some(UploadStatsSample { bytes, elapsed_ms, index })
        },
        None => None,
    }
}

/// Whether a frame asks for the next request: an object of kind `u` without any figures.
pub open spec fn is_control(tree: Option<JsonTree>, numbers: Seq<NumberText>) -> bool {
    match tree {
        Some(whole) => {
            &&& stated_type(whole) == Some("u"@)
            &&& number_under(whole, byte_names(), numbers) is None
            &&& number_under(whole, elapsed_names(), numbers) is None
        },
        None => false,
    }
}

pub fn is_upload_stats_control_frame(json: &Option<Json>, numbers: &Vec<NumberText>) -> (r: bool)
    ensures
        r == is_control(tree_of(*json), numbers@),
{
    match json {
        Some(whole) => {
            let stated: bool = match read_type(whole) {
                Some(kind) => same_text(kind.as_str(), "u"),
                None => false,
            };
            stated && reported_bytes(whole, numbers).is_none() && reported_elapsed(
                whole,
                numbers,
            ).is_none()
        },
        None => false,
    }
}

/// The texts in a JSON value, which may be numbers in writing.
pub open spec fn texts_in(tree: JsonTree) -> Seq<Seq<char>>
    decreases tree, 0nat,
{
    match tree {
        JsonTree::Text(text) => seq![text],
        JsonTree::List(list) => texts_in_list(list, list.len()),
        JsonTree::Object(entries) => texts_in_object(entries, entries.len()),
        _ => Seq::empty(),
    }
}

pub open spec fn texts_in_list(list: Seq<JsonTree>, upto: nat) -> Seq<Seq<char>>
    decreases list, upto,
{
    if upto == 0 || upto > list.len() {
        Seq::empty()
    } else {
        texts_in_list(list, (upto - 1) as nat) + texts_in(list[upto - 1])
    }
}

pub open spec fn texts_in_object(entries: Seq<(Seq<char>, JsonTree)>, upto: nat) -> Seq<Seq<char>>
    decreases entries, upto,
{
    if upto == 0 || upto > entries.len() {
        Seq::empty()
    } else {
        texts_in_object(entries, (upto - 1) as nat) + texts_in(entries[upto - 1].1)
    }
}

fn append_all(out: &mut Vec<String>, more: &Vec<String>)
    ensures
        views(final(out)@) == views(old(out)@) + views(more@),
{
    let ghost first = views(out@);
    let mut i: usize = 0;
    assert(first + views(more@).take(0) =~= first);
    while i < more.len()
        invariant
            i <= more.len(),
            views(out@) == first + views(more@).take(i as int),
        decreases more.len() - i,
    {
        let ghost before = views(out@);
        out.push(more[i].clone());
        assert(views(out@) =~= before.push(views(more@)[i as int]));
        i = i + 1;
        assert(views(out@) =~= first + views(more@).take(i as int));
    }
    assert(views(more@).take(i as int) =~= views(more@));
}

/// The texts in a JSON value.
pub fn json_texts(json: &Json) -> (r: Vec<String>)
    ensures
        views(r@) == texts_in(json.tree()),
    decreases json,
{
    let mut out: Vec<String> = Vec::new();
    assert(views(out@) =~= Seq::<Seq<char>>::empty());
    match json {
        Json::Text(text) => {
            out.push(text.clone());
            assert(views(out@) =~= seq![text@]);
        },
        Json::List(list) => {
            let ghost trees = json.tree()->List_0;
            let mut i: usize = 0;
            while i < list.len()
                invariant
                    i <= list.len(),
                    *json == Json::List(*list),
                    trees == json.tree()->List_0,
                    views(out@) == texts_in_list(trees, i as nat),
                decreases list.len() - i,
            {
                assert(trees[i as int] == list@[i as int].tree());
                let more = json_texts(&list[i]);
                append_all(&mut out, &more);
                i = i + 1;
            }
        },
        Json::Object(entries) => {
            let ghost trees = json.tree()->Object_0;
            let mut i: usize = 0;
            while i < entries.len()
                invariant
                    i <= entries.len(),
                    *json == Json::Object(*entries),
                    trees == json.tree()->Object_0,
                    views(out@) == texts_in_object(trees, i as nat),
                decreases entries.len() - i,
            {
                assert(trees[i as int] == (entries@[i as int].0@, entries@[i as int].1.tree()));
                let more = json_texts(&entries[i].1);
                append_all(&mut out, &more);
                i = i + 1;
            }
        },
        _ => {},
    }
    out
}

/// What to do with one line of a frame.
#[derive(Clone, Copy, Debug, PartialEq, Eq, Structural)]
pub enum LineStep {
    /// Send the request again.
    Resend,
    /// Go on to the next line.
    Skip,
    /// The server refuses: end the stream.
    Fail,
    /// Hand the report on, and send the request again where the transfer is not over.
    Report { sample: UploadStatsSample, resend: bool },
}

/// Where a stream of reports stands.
#[derive(Clone, Copy, Debug, PartialEq, Eq, Structural)]
pub enum StatsPhase {
    /// There is no connection.
    Apart,
    /// A connection is open, with nothing said yet.
    Opened,
    /// The greeting has been sent.
    Greeted,
    /// Reports have been asked for.
    Listening,
    /// No frame came in time: reports are asked for again, and then the connection is left or not.
    Reminding { leave: bool },
    /// The connection is to be left. `tired` says that a pause follows in any case.
    Leaving { tired: bool },
    /// The connection is gone. `tired` says that a pause follows in any case.
    Left { tired: bool },
}

/// What a stream of reports asks for.
#[derive(Clone, Copy, Debug, PartialEq, Eq, Structural)]
pub enum StatsAction {
    Connect,
    SendGreeting,
    SendRequest,
    ReadFrame,
    Close,
    Pause,
    /// The stream is over. It has failed where no connection was ever made.
    Finish { succeeded: bool },
}

/// What came of it.
#[derive(Clone, Copy, Debug, PartialEq, Eq, Structural)]
pub enum StatsEvent {
    Connected,
    ConnectFailed,
    Sent,
    SendFailed,
    /// No frame came in time.
    TimedOut,
    TextRead,
    /// A frame without text came.
    OtherRead,
    /// The server has closed the connection, or it has failed.
    Ended,
    Closed,
    Paused,
}

/// A stream of upload reports over one websocket address, over any number of connections.
#[derive(Clone, Copy, Debug, PartialEq, Eq, Structural)]
pub struct StatsStream {
    pub duration_ms: u64,
    pub sample_interval_ms: u64,
    pub next_index: u64,
    pub phase: StatsPhase,
    pub connected_once: bool,
    pub consecutive_timeouts: u8,
}

impl StatsStream {
    /// What is to be done, where there is time left or not.
    pub open spec fn action(self, in_time: bool) -> StatsAction {
        match self.phase {
            StatsPhase::Apart => if in_time {
                StatsAction::Connect
            } else {
                StatsAction::Finish { succeeded: self.connected_once }
            },
            StatsPhase::Opened => StatsAction::SendGreeting,
            StatsPhase::Greeted | StatsPhase::Reminding { .. } => StatsAction::SendRequest,
            StatsPhase::Listening => if in_time {
                StatsAction::ReadFrame
            } else {
                StatsAction::Close
            },
            StatsPhase::Leaving { .. } => StatsAction::Close,
            StatsPhase::Left { tired } => if in_time || tired {
                StatsAction::Pause
            } else {
                StatsAction::Finish { succeeded: self.connected_once }
            },
        }
    }

    /// Where an event leads. An event that the phase does not wait for changes nothing.
    pub open spec fn phase_after(self, event: StatsEvent) -> StatsPhase {
        match (self.phase, event) {
            (StatsPhase::Apart, StatsEvent::Connected) => StatsPhase::Opened,
            (StatsPhase::Apart, StatsEvent::ConnectFailed) => StatsPhase::Left { tired: true },
            (StatsPhase::Opened, StatsEvent::Sent) => StatsPhase::Greeted,
            (StatsPhase::Opened, StatsEvent::SendFailed) => StatsPhase::Leaving { tired: true },
            (StatsPhase::Greeted, StatsEvent::Sent) => StatsPhase::Listening,
            (StatsPhase::Greeted, StatsEvent::SendFailed) => StatsPhase::Leaving { tired: true },
            (StatsPhase::Listening, StatsEvent::TimedOut) => StatsPhase::Reminding {
                leave: self.consecutive_timeouts >= 1,
            },
            (StatsPhase::Listening, StatsEvent::Ended) => StatsPhase::Leaving { tired: false },
            (StatsPhase::Listening, StatsEvent::Closed) => StatsPhase::Left { tired: false },
            (
                StatsPhase::Reminding { leave },
                StatsEvent::Sent | StatsEvent::SendFailed,
            ) => if leave {
                StatsPhase::Leaving { tired: false }
            } else {
                StatsPhase::Listening
            },
            (StatsPhase::Leaving { tired }, StatsEvent::Closed) => StatsPhase::Left { tired },
            (StatsPhase::Left { .. }, StatsEvent::Paused) => StatsPhase::Apart,
            _ => self.phase,
        }
    }

    pub open spec fn timeouts_after(self, event: StatsEvent) -> u8 {
        match (self.phase, event) {
            (StatsPhase::Greeted, StatsEvent::Sent) => 0,
            (StatsPhase::Listening, StatsEvent::TextRead) => 0,
            (StatsPhase::Listening, StatsEvent::TimedOut) => least(
                self.consecutive_timeouts + 1,
                255,
            ) as u8,
            _ => self.consecutive_timeouts,
        }
    }

    pub open spec fn after(self, event: StatsEvent) -> StatsStream {
        StatsStream {
            phase: self.phase_after(event),
            connected_once: self.connected_once || (self.phase == StatsPhase::Apart && event
                == StatsEvent::Connected),
            consecutive_timeouts: self.timeouts_after(event),
            ..self
        }
    }

    /// Whether the stream counts as connected wherever it has a connection.
    pub open spec fn honest(self) -> bool {
        match self.phase {
            StatsPhase::Apart | StatsPhase::Left { .. } => true,
            _ => self.connected_once,
        }
    }

    pub fn new(duration_seconds: u64, sample_interval_ms: u64) -> (r: StatsStream)
        ensures
            r == (StatsStream {
                duration_ms: least(duration_seconds * 1_000, u64::MAX as int) as u64,
                sample_interval_ms,
                next_index: 0,
                phase: StatsPhase::Apart,
                connected_once: false,
                consecutive_timeouts: 0,
            }),
            r.honest(),
    {
        let wide: u128 = duration_seconds as u128 * 1_000;
        let duration_ms: u64 = if wide > u64::MAX as u128 {
            u64::MAX
        } else {
            wide as u64
        };
        StatsStream {
            duration_ms,
            sample_interval_ms,
            next_index: 0,
            phase: StatsPhase::Apart,
            connected_once: false,
            consecutive_timeouts: 0,
        }
    }

    /// How long to wait for a frame: three intervals, but between 0.7 s and 2 s.
    pub fn frame_timeout_ms(&self) -> (r: u64)
        ensures
            r == clamped(3 * self.sample_interval_ms, 700, 2_000),
    {
        if self.sample_interval_ms > 2_000 {
            return 2_000;
        }
        let wanted: u64 = self.sample_interval_ms * 3;
        if wanted < 700 {
            700
        } else if wanted > 2_000 {
            2_000
        } else {
            wanted
        }
    }

    /// How long to wait before connecting again: half an interval, but between 40 ms and 220 ms.
    pub fn reconnect_delay_ms(&self) -> (r: u64)
        ensures
            r == clamped(self.sample_interval_ms as int / 2, 40, 220),
    {
        let wanted: u64 = self.sample_interval_ms / 2;
        if wanted < 40 {
            40
        } else if wanted > 220 {
            220
        } else {
            wanted
        }
    }

    /// How long to listen in all: two seconds beyond the transfer.
    pub fn listen_ms(&self) -> (r: u64)
        ensures
            r == capped_sum(self.duration_ms as int, 2_000),
    {
        self.duration_ms.saturating_add(2_000)
    }

    /// The request for reports from the next index on.
    pub open spec fn request_text(self) -> Seq<char> {
        "UPLOAD_STATS "@ + decimal(self.duration_ms as int) + seq![' '] + decimal(
            self.sample_interval_ms as int,
        ) + seq![' '] + decimal(self.next_index as int)
    }

    pub fn request(&self) -> (r: String)
        ensures
            r@ == self.request_text(),
    {
        let mut out = "UPLOAD_STATS ".to_owned();
        out.append(to_decimal(self.duration_ms).as_str());
        out.push(' ');
        out.append(to_decimal(self.sample_interval_ms).as_str());
        out.push(' ');
        out.append(to_decimal(self.next_index).as_str());
        assert(out@ =~= self.request_text());
        out
    }

    /// What is to be done next.
    pub fn next_action(&self, in_time: bool) -> (r: StatsAction)
        ensures
            r == self.action(in_time),
    {
        match self.phase {
            StatsPhase::Apart => if in_time {
                StatsAction::Connect
            } else {
                StatsAction::Finish { succeeded: self.connected_once }
            },
            StatsPhase::Opened => StatsAction::SendGreeting,
            StatsPhase::Greeted | StatsPhase::Reminding { .. } => StatsAction::SendRequest,
            StatsPhase::Listening => if in_time {
                StatsAction::ReadFrame
            } else {
                StatsAction::Close
            },
            StatsPhase::Leaving { .. } => StatsAction::Close,
            StatsPhase::Left { tired } => if in_time || tired {
                StatsAction::Pause
            } else {
                StatsAction::Finish { succeeded: self.connected_once }
            },
        }
    }

    /// Takes into account what came of an action. After the second frame in a row that did not come
    /// in time the connection is left.
    pub fn on_event(&mut self, event: StatsEvent)
        ensures
            *final(self) == old(self).after(event),
    {
        match (self.phase, event) {
            (StatsPhase::Apart, StatsEvent::Connected) => {
                self.phase = StatsPhase::Opened;
                self.connected_once = true;
            },
            (StatsPhase::Apart, StatsEvent::ConnectFailed) => {
                self.phase = StatsPhase::Left { tired: true };
            },
            (StatsPhase::Opened, StatsEvent::Sent) => {
                self.phase = StatsPhase::Greeted;
            },
            (StatsPhase::Greeted, StatsEvent::Sent) => {
                self.phase = StatsPhase::Listening;
                self.consecutive_timeouts = 0;
            },
            (StatsPhase::Opened, StatsEvent::SendFailed)
            | (StatsPhase::Greeted, StatsEvent::SendFailed) => {
                self.phase = StatsPhase::Leaving { tired: true };
            },
            (StatsPhase::Listening, StatsEvent::TimedOut) => {
                self.phase = StatsPhase::Reminding { leave: self.consecutive_timeouts >= 1 };
                if self.consecutive_timeouts < 255 {
                    self.consecutive_timeouts = self.consecutive_timeouts + 1;
                }
            },
            (StatsPhase::Listening, StatsEvent::TextRead) => {
                self.consecutive_timeouts = 0;
            },
            (StatsPhase::Listening, StatsEvent::Ended) => {
                self.phase = StatsPhase::Leaving { tired: false };
            },
            (StatsPhase::Listening, StatsEvent::Closed) => {
                self.phase = StatsPhase::Left { tired: false };
            },
            (StatsPhase::Reminding { leave }, StatsEvent::Sent)
            | (StatsPhase::Reminding { leave }, StatsEvent::SendFailed) => {
                self.phase = if leave {
                    StatsPhase::Leaving { tired: false }
                } else {
                    StatsPhase::Listening
                };
            },
            (StatsPhase::Leaving { tired }, StatsEvent::Closed) => {
                self.phase = StatsPhase::Left { tired };
            },
            (StatsPhase::Left { .. }, StatsEvent::Paused) => {
                self.phase = StatsPhase::Apart;
            },
            _ => {},
        }
    }

    /// What a line calls for.
    pub open spec fn line_step(
        self,
        line: Seq<char>,
        usual: Option<RawUploadStatsSample>,
        tree: Option<JsonTree>,
        numbers: Seq<NumberText>,
    ) -> LineStep {
        if is_control(tree, numbers) {
            LineStep::Resend
        } else if begins_with(line, "HELLO"@) || begins_with(line, "CAPABILITIES"@) {
            LineStep::Skip
        } else if begins_with(line, "ERROR"@) {
            LineStep::Fail
        } else {
            match report_in(usual, tree, numbers) {
                Some(sample) => LineStep::Report {
                    sample,
                    resend: sample.elapsed_ms < self.duration_ms,
                },
                None => LineStep::Skip,
            }
        }
    }

    /// Takes a line of a frame into account: reports move the next index on, never back.
    pub fn on_line(
        &mut self,
        line: &str,
        usual: &Option<RawUploadStatsSample>,
        json: &Option<Json>,
        numbers: &Vec<NumberText>,
    ) -> (step: LineStep)
        ensures
            step == old(self).line_step(line@, *usual, tree_of(*json), numbers@),
            ({
                let reached = match step {
                    LineStep::Report { sample, .. } => match sample.index {
                        Some(index) => capped_sum(index as int, 1),
                        None => 0,
                    },
                    _ => 0,
                };
                *final(self) == (StatsStream {
                    next_index: if reached > old(self).next_index {
                        reached as u64
                    } else {
                        old(self).next_index
                    },
                    ..*old(self)
                })
            }),
    {
        if is_upload_stats_control_frame(json, numbers) {
            return LineStep::Resend;
        }
        let chars = to_chars(line);
        if starts_with(&chars, "HELLO") || starts_with(&chars, "CAPABILITIES") {
            return LineStep::Skip;
        }
        if starts_with(&chars, "ERROR") {
            return LineStep::Fail;
        }
        match parse_upload_stats_sample(usual, json, numbers) {
            Some(sample) => {
                if let Some(index) = sample.index {
                    let candidate: u64 = index.saturating_add(1);
                    if candidate > self.next_index {
                        self.next_index = candidate;
                    }
                }
                LineStep::Report { sample, resend: sample.elapsed_ms < self.duration_ms }
            },
            None => LineStep::Skip,
        }
    }
}

/// Whatever happens, a stream that holds a connection counts as connected, and one that has been
/// connected stays so: a stream that ends after a connection has succeeded.
pub proof fn a_connection_is_not_forgotten(stream: StatsStream, event: StatsEvent)
    requires
        stream.honest(),
    ensures
        stream.after(event).honest(),
        stream.connected_once ==> stream.after(event).connected_once,
        stream.after(event).connected_once && !stream.connected_once ==> event
            == StatsEvent::Connected,
        stream.action(false) matches StatsAction::Finish { succeeded } ==> succeeded
            == stream.connected_once,
{
}

/// Reports are read only after they have been asked for: a stream that comes to listen was at
/// sending its request, or was listening already.
pub proof fn listening_follows_asking(stream: StatsStream, event: StatsEvent)
    requires
        stream.after(event).phase == StatsPhase::Listening,
    ensures
        stream.phase == StatsPhase::Listening || stream.action(true) == StatsAction::SendRequest,
{
}

/// The lines of a frame without the white space around them and without empty ones.
pub open spec fn frame_lines(text: Seq<char>) -> Seq<Seq<char>> {
    nonempty(pieces(text, '\n').map_values(|line: Seq<char>| trimmed(line)))
}

pub fn split_frame(text: &str) -> (r: Vec<String>)
    ensures
        views(r@) == frame_lines(text@),
{
    let raw = split(text, '\n');
    let ghost wanted = views(raw@).map_values(|line: Seq<char>| trimmed(line));
    let mut lines: Vec<String> = Vec::new();
    let mut i: usize = 0;
    assert(views(lines@) =~= wanted.take(0));
    while i < raw.len()
        invariant
            i <= raw.len(),
            wanted == views(raw@).map_values(|line: Seq<char>| trimmed(line)),
            views(lines@) == wanted.take(i as int),
        decreases raw.len() - i,
    {
        let ghost before = views(lines@);
        let line = trim(raw[i].as_str());
        lines.push(line);
        assert(views(lines@) =~= before.push(line@));
        assert(wanted[i as int] == trimmed(views(raw@)[i as int]));
        i = i + 1;
        assert(views(lines@) =~= wanted.take(i as int));
    }
    assert(wanted.take(i as int) =~= wanted);
    drop_empty(&lines)
}

/// The JSON value of a line, if it is one.
pub fn read_line(line: &str) -> (r: Option<Json>)
    ensures
        tree_of(r) == parsed_json(line@),
{
    parse_json(line)
}

/// The greeting that opens a stream of reports for a session.
pub fn greeting(guid: &str) -> (r: String)
    ensures
        r@ == "HI "@ + guid@,
{
    let mut out = "HI ".to_owned();
    out.append(guid);
    out
}

/// The value under a name is that of the first entry with the name.
pub proof fn members_are_found_by_their_name(
    entries: Seq<(Seq<char>, JsonTree)>,
    name: Seq<char>,
    from: int,
)
    requires
        0 <= from <= entries.len(),
    ensures
        match member(entries, name, from) {
            Some(tree) => exists|i: int|
                from <= i < entries.len() && (#[trigger] entries[i]).0 == name && entries[i].1
                    == tree && forall|k: int|
                    from <= k < i ==> (#[trigger] entries[k]).0 != name,
            None => forall|k: int| from <= k < entries.len() ==> (#[trigger] entries[k]).0 != name,
        },
    decreases entries.len() - from,
{
    if from < entries.len() {
        if entries[from].0 == name {
            assert(entries[from].1 == member(entries, name, from)->0);
        } else {
            members_are_found_by_their_name(entries, name, from + 1);
        }
    }
}

/// A report in its usual form is taken as it is, unless it says that it is of another kind.
pub proof fn usual_reports_are_taken_as_they_are(
    raw: RawUploadStatsSample,
    tree: Option<JsonTree>,
    numbers: Seq<NumberText>,
)
    ensures
        raw.sample_type is None || raw.sample_type->0@ == "u"@ ==> {
            &&& report_in(Some(raw), tree, numbers) matches Some(sample)
            &&& sample.bytes == raw.bytes
            &&& sample.elapsed_ms == raw.elapsed_ms
            &&& sample.index == raw.index
        },
        raw.sample_type is Some && raw.sample_type->0@ != "u"@ ==> report_in(
            Some(raw),
            tree,
            numbers,
        ) is None,
        report_in(None, None, numbers) is None,
{
}

/// Whole numbers are taken as they are, and negative ones are none.
pub proof fn whole_numbers_are_taken_as_they_are(
    n: crate::json::JsonNumber,
    numbers: Seq<NumberText>,
)
    ensures
        n.unsigned matches Some(whole) ==> whole_number(JsonTree::Number(n), numbers) == Some(
            whole,
        ),
        n.unsigned is None && n.real is None ==> (n.signed matches Some(whole) ==> whole < 0
            ==> whole_number(JsonTree::Number(n), numbers) is None),
{
}

/// The request is sent again while the transfer runs, and not once a report covers it all.
pub proof fn reports_are_asked_for_while_the_transfer_runs(
    stream: StatsStream,
    line: Seq<char>,
    usual: RawUploadStatsSample,
    tree: Option<JsonTree>,
    numbers: Seq<NumberText>,
)
    requires
        stream.line_step(line, Some(usual), tree, numbers) is Report,
    ensures
        stream.line_step(line, Some(usual), tree, numbers) matches LineStep::Report {
            sample,
            resend,
        } && sample.bytes == usual.bytes && (resend <==> usual.elapsed_ms < stream.duration_ms),
{
}

/// All texts of a list, or of an object, are found in their order.
pub proof fn texts_are_found_in_their_order(
    list: Seq<JsonTree>,
    next: JsonTree,
    entries: Seq<(Seq<char>, JsonTree)>,
    name: Seq<char>,
    text: Seq<char>,
)
    ensures
        texts_in(JsonTree::Text(text)) == seq![text],
        texts_in(JsonTree::List(list.push(next))) == texts_in(JsonTree::List(list)) + texts_in(
            next,
        ),
        texts_in(JsonTree::Object(entries.push((name, next)))) == texts_in(
            JsonTree::Object(entries),
        ) + texts_in(next),
        texts_in(JsonTree::List(Seq::empty())) == Seq::<Seq<char>>::empty(),
{
    lemma_list_texts(list, next, list.len());
    lemma_object_texts(entries, (name, next), entries.len());
    assert(list.push(next)[list.len() as int] == next);
    assert(entries.push((name, next))[entries.len() as int].1 == next);
}

proof fn lemma_list_texts(list: Seq<JsonTree>, next: JsonTree, upto: nat)
    requires
        upto <= list.len(),
    ensures
        texts_in_list(list.push(next), upto) == texts_in_list(list, upto),
    decreases upto,
{
    if upto > 0 {
        lemma_list_texts(list, next, (upto - 1) as nat);
        assert(list.push(next)[upto - 1] == list[upto - 1]);
    }
}

proof fn lemma_object_texts(
    entries: Seq<(Seq<char>, JsonTree)>,
    next: (Seq<char>, JsonTree),
    upto: nat,
)
    requires
        upto <= entries.len(),
    ensures
        texts_in_object(entries.push(next), upto) == texts_in_object(entries, upto),
    decreases upto,
{
    if upto > 0 {
        lemma_object_texts(entries, next, (upto - 1) as nat);
        assert(entries.push(next)[upto - 1] == entries[upto - 1]);
    }
}

proof fn lemma_named_number(
    entries: Seq<(Seq<char>, JsonTree)>,
    names: Seq<Seq<char>>,
    numbers: Seq<NumberText>,
    from: int,
    k: int,
)
    requires
        0 <= from <= k < names.len(),
        member(entries, names[k], 0) is Some,
        whole_number(member(entries, names[k], 0)->0, numbers) is Some,
        forall|j: int|
            from <= j < k ==> (member(entries, #[trigger] names[j], 0) matches Some(tree)
                ==> whole_number(tree, numbers) is None),
    ensures
        named_number(entries, names, numbers, from) == whole_number(
            member(entries, names[k], 0)->0,
            numbers,
        ),
    decreases k - from,
{
    if from < k {
        lemma_named_number(entries, names, numbers, from + 1, k);
    }
}

/// A number is looked for under its names in their order. An object's own member goes before what
/// stands deeper, and what stands in a list is found too.
pub proof fn numbers_are_found_by_the_first_name(
    entries: Seq<(Seq<char>, JsonTree)>,
    names: Seq<Seq<char>>,
    numbers: Seq<NumberText>,
    k: int,
)
    requires
        0 <= k < names.len(),
        member(entries, names[k], 0) is Some,
        whole_number(member(entries, names[k], 0)->0, numbers) is Some,
        forall|j: int|
            0 <= j < k ==> (member(entries, #[trigger] names[j], 0) matches Some(tree)
                ==> whole_number(tree, numbers) is None),
    ensures
        number_under(JsonTree::Object(entries), names, numbers) == whole_number(
            member(entries, names[k], 0)->0,
            numbers,
        ),
        number_under(JsonTree::List(seq![JsonTree::Object(entries)]), names, numbers)
            == whole_number(member(entries, names[k], 0)->0, numbers),
{
    lemma_named_number(entries, names, numbers, 0, k);
    let list = seq![JsonTree::Object(entries)];
    assert(list[0] == JsonTree::Object(entries));
}

/// A first silence is answered with a reminder, and a second one in a row ends the connection. A
/// text in between starts the count anew.
pub proof fn the_second_silence_ends_the_connection(stream: StatsStream)
    requires
        stream.phase == StatsPhase::Listening,
    ensures
        stream.consecutive_timeouts == 0 ==> {
            &&& stream.phase_after(StatsEvent::TimedOut) == (StatsPhase::Reminding { leave: false })
            &&& stream.timeouts_after(StatsEvent::TimedOut) == 1
        },
        stream.consecutive_timeouts == 1 ==> stream.phase_after(StatsEvent::TimedOut) == (
        StatsPhase::Reminding { leave: true }),
        stream.timeouts_after(StatsEvent::TextRead) == 0,
        stream.phase_after(StatsEvent::TextRead) == StatsPhase::Listening,
{
}

/// After a reminder the stream listens again, or leaves where it was the last one.
pub proof fn reminders_are_followed_up(stream: StatsStream, leave: bool)
    requires
        stream.phase == (StatsPhase::Reminding { leave }),
    ensures
        leave ==> stream.phase_after(StatsEvent::Sent) == (StatsPhase::Leaving { tired: false })
            && stream.phase_after(StatsEvent::SendFailed) == (StatsPhase::Leaving {
            tired: false,
        }),
        !leave ==> stream.phase_after(StatsEvent::Sent) == StatsPhase::Listening
            && stream.phase_after(StatsEvent::SendFailed) == StatsPhase::Listening,
{
}

/// A stream connects and reads while there is time, and else ends; a connection that it has is
/// closed first.
pub proof fn streams_end_with_their_time(stream: StatsStream)
    ensures
        stream.phase == StatsPhase::Apart ==> {
            &&& stream.action(true) == StatsAction::Connect
            &&& stream.action(false) == (StatsAction::Finish { succeeded: stream.connected_once })
        },
        stream.phase == StatsPhase::Listening ==> {
            &&& stream.action(true) == StatsAction::ReadFrame
            &&& stream.action(false) == StatsAction::Close
        },
        stream.phase == (StatsPhase::Left { tired: false }) ==> {
            &&& stream.action(true) == StatsAction::Pause
            &&& stream.action(false) == (StatsAction::Finish { succeeded: stream.connected_once })
        },
        stream.phase == StatsPhase::Opened ==> stream.action(true) == StatsAction::SendGreeting,
        stream.phase == StatsPhase::Greeted ==> stream.action(true) == StatsAction::SendRequest,
{
}

/// Greetings are passed over and errors fail, and of a line that only asks for more the request is
/// sent again. A line with figures is not such a line.
pub proof fn lines_are_told_apart(
    stream: StatsStream,
    line: Seq<char>,
    usual: Option<RawUploadStatsSample>,
    tree: JsonTree,
    numbers: Seq<NumberText>,
)
    ensures
        begins_with(line, "HELLO"@) || begins_with(line, "CAPABILITIES"@) ==> stream.line_step(
            line,
            usual,
            None,
            numbers,
        ) == LineStep::Skip,
        begins_with(line, "ERROR"@) && !begins_with(line, "HELLO"@) && !begins_with(
            line,
            "CAPABILITIES"@,
        ) ==> stream.line_step(line, usual, None, numbers) == LineStep::Fail,
        stream.line_step(line, usual, Some(tree), numbers) == LineStep::Resend ==> {
            &&& stated_type(tree) == Some("u"@)
            &&& number_under(tree, byte_names(), numbers) is None
            &&& number_under(tree, elapsed_names(), numbers) is None
        },
{
}

/// Without the usual members a report needs both its bytes and its time.
pub proof fn reports_need_bytes_and_time(
    entries: Seq<(Seq<char>, JsonTree)>,
    numbers: Seq<NumberText>,
)
    ensures
        ({
            let tree = JsonTree::Object(entries);
            let bytes = number_under(tree, byte_names(), numbers);
            let elapsed = number_under(tree, elapsed_names(), numbers);
            &&& bytes is None ==> report_in(None, Some(tree), numbers) is None
            &&& elapsed is None ==> report_in(None, Some(tree), numbers) is None
            &&& bytes is Some && elapsed is Some && stated_type(tree) is None ==> report_in(
                None,
                Some(tree),
                numbers,
            ) == Some(
                UploadStatsSample {
                    bytes: bytes->0,
                    elapsed_ms: elapsed->0,
                    index: number_under(tree, index_names(), numbers),
                },
            )
        }),
{
}

} // verus!
