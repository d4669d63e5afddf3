//! The command line.

use vstd::prelude::*;

use crate::speedtest::api::ModernTransportMode;
use crate::text::{
    decimal, decimal_reads_back, find_char, first_index, from_chars, parse_number, parse_signed,
    parsed_number, parsed_signed, same_text, signed_numbers_read_back, to_chars,
};

verus! {

/// The transport that a native benchmark runs over.
#[derive(Clone, Copy, Debug, PartialEq, Eq, Structural)]
pub enum IperfProtocol {
    Tcp,
    Udp,
}

impl IperfProtocol {
    pub open spec fn name(self) -> Seq<char> {
        match self {
            IperfProtocol::Tcp => "tcp"@,
            IperfProtocol::Udp => "udp"@,
        }
    }

    pub fn label(self) -> (r: &'static str)
        ensures
            r@ == self.name(),
    {
        match self {
            IperfProtocol::Tcp => "tcp",
            IperfProtocol::Udp => "udp",
        }
    }
}

#[derive(Debug)]
pub struct CacheShowArgs {
    pub limit: usize,
    pub json: bool,
    pub search: Option<String>,
}

#[derive(Debug)]
pub enum CacheCommand {
    Path,
    Show(CacheShowArgs),
    Clear,
}

#[derive(Debug)]
pub struct CacheArgs {
    pub command: CacheCommand,
}

#[derive(Debug)]
pub struct RunArgs {
    pub mode: ModernTransportMode,
    pub server_id: Option<u64>,
    pub candidate_servers: usize,
    pub pool_size: usize,
    pub latency_samples: usize,
    pub download_connections: usize,
    pub upload_connections: usize,
    pub download_seconds: u64,
    pub upload_seconds: u64,
    pub min_seconds: u64,
    pub download_only: bool,
    pub upload_only: bool,
    pub proxy: Option<String>,
    pub no_progress: bool,
    pub json: bool,
    pub details: bool,
    pub sdk_json_out: Option<String>,
}

#[derive(Debug)]
pub struct IperfArgs {
    pub host: Option<String>,
    pub auto_server: bool,
    pub servers_file: String,
    pub port: Option<u16>,
    pub candidate_servers: usize,
    pub latency_samples: usize,
    pub protocol: IperfProtocol,
    pub seconds: u64,
    pub parallel: usize,
    pub bitrate: Option<u64>,
    pub proxy: Option<String>,
    pub upload_only: bool,
    pub download_only: bool,
    pub no_progress: bool,
    pub json: bool,
    pub details: bool,
}

#[derive(Debug)]
pub enum Command {
    Run(RunArgs),
    Iperf(IperfArgs),
    Cache(CacheArgs),
}

#[derive(Debug)]
pub struct Cli {
    pub command: Option<Command>,
}

/// The arguments break the grammar, or ask for help or the version.
#[derive(Clone, Copy, Debug, PartialEq, Eq, Structural)]
pub struct UsageError;

/// An option as it was given.
#[derive(Debug)]
pub struct Setting {
    pub option: String,
    pub value: Option<String>,
}

/// The values of a [`Setting`].
pub struct SettingModel {
    pub option: Seq<char>,
    pub value: Option<Seq<char>>,
}

impl View for Setting {
    type V = SettingModel;

    open spec fn view(&self) -> SettingModel {
        SettingModel {
            option: self.option@,
            value: match self.value {
                Some(value) => Some(value@),
                None => None,
            },
        }
    }
}

pub open spec fn settings_of(list: Seq<Setting>) -> Seq<SettingModel> {
    list.map_values(|setting: Setting| setting@)
}

/// The options that a command takes.
#[derive(Clone, Copy, Debug, PartialEq, Eq, Structural)]
pub enum Grammar {
    Run,
    Iperf,
    CacheShow,
    /// No options at all.
    Bare,
}

impl Grammar {
    /// The options that stand alone.
    pub open spec fn is_flag(self, name: Seq<char>) -> bool {
        match self {
            Grammar::Run => name == "download-only"@ || name == "upload-only"@ || name
                == "no-progress"@ || name == "json"@ || name == "details"@,
            Grammar::Iperf => name == "auto-server"@ || name == "download-only"@ || name
                == "upload-only"@ || name == "no-progress"@ || name == "json"@ || name
                == "details"@,
            Grammar::CacheShow => name == "json"@,
            Grammar::Bare => false,
        }
    }

    /// The options that take a value.
    pub open spec fn takes_value(self, name: Seq<char>) -> bool {
        match self {
            Grammar::Run => name == "mode"@ || name == "server-id"@ || name == "candidate-servers"@
                || name == "pool-size"@ || name == "latency-samples"@ || name
                == "download-connections"@ || name == "upload-connections"@ || name
                == "download-seconds"@ || name == "upload-seconds"@ || name == "min-seconds"@
                || name == "proxy"@ || name == "proxy-local"@ || name == "sdk-json-out"@,
            Grammar::Iperf => name == "host"@ || name == "servers-file"@ || name == "port"@ || name
                == "candidate-servers"@ || name == "latency-samples"@ || name == "protocol"@ || name
                == "seconds"@ || name == "parallel"@ || name == "bitrate"@ || name == "proxy"@
                || name == "proxy-local"@,
            Grammar::CacheShow => name == "limit"@ || name == "search"@,
            Grammar::Bare => false,
        }
    }

    fn flag(self, name: &str) -> (r: bool)
        ensures
            r == self.is_flag(name@),
    {
        match self {
            Grammar::Run => same_text(name, "download-only") || same_text(name, "upload-only")
                || same_text(name, "no-progress") || same_text(name, "json") || same_text(
                name,
                "details",
            ),
            Grammar::Iperf => same_text(name, "auto-server") || same_text(name, "download-only")
                || same_text(name, "upload-only") || same_text(name, "no-progress") || same_text(
                name,
                "json",
            ) || same_text(name, "details"),
            Grammar::CacheShow => same_text(name, "json"),
            Grammar::Bare => false,
        }
    }

    fn valued(self, name: &str) -> (r: bool)
        ensures
            r == self.takes_value(name@),
    {
        match self {
            Grammar::Run => same_text(name, "mode") || same_text(name, "server-id") || same_text(
                name,
                "candidate-servers",
            ) || same_text(name, "pool-size") || same_text(name, "latency-samples") || same_text(
                name,
                "download-connections",
            ) || same_text(name, "upload-connections") || same_text(name, "download-seconds")
                || same_text(name, "upload-seconds") || same_text(name, "min-seconds") || same_text(
                name,
                "proxy",
            ) || same_text(name, "proxy-local") || same_text(name, "sdk-json-out"),
            Grammar::Iperf => same_text(name, "host") || same_text(name, "servers-file")
                || same_text(name, "port") || same_text(name, "candidate-servers") || same_text(
                name,
                "latency-samples",
            ) || same_text(name, "protocol") || same_text(name, "seconds") || same_text(
                name,
                "parallel",
            ) || same_text(name, "bitrate") || same_text(name, "proxy") || same_text(
                name,
                "proxy-local",
            ),
            Grammar::CacheShow => same_text(name, "limit") || same_text(name, "search"),
            Grammar::Bare => false,
        }
    }
}

/// An option by the name that it is known under.
pub open spec fn canonical(name: Seq<char>) -> Seq<char> {
    if name == "proxy-local"@ {
        "proxy"@
    } else {
        name
    }
}

/// The name and the value, if there is one, in a token of the form `--name` or `--name=value`.
pub open spec fn long_option(token: Seq<char>) -> Option<(Seq<char>, Option<Seq<char>>)> {
    if token.len() >= 2 && token[0] == '-' && token[1] == '-' {
        let body = token.skip(2);
        match first_index(body, '=', 0) {
            Some(at) => Some((body.take(at), Some(body.skip(at + 1)))),
            None => Some((body, None)),
        }
    } else {
        None
    }
}

/// Whether a token can be the value of the option before it: it does not look like an option.
pub open spec fn is_value(token: Seq<char>) -> bool {
    token.len() < 2 || token[0] != '-'
}

pub open spec fn put_first(first: SettingModel, rest: Option<Seq<SettingModel>>) -> Option<
    Seq<SettingModel>,
> {
    match rest {
        Some(settings) => Some(seq![first] + settings),
        None => None,
    }
}

/// The options that the tokens give, in their order; none where the tokens break the grammar.
pub open spec fn scanned(tokens: Seq<Seq<char>>, grammar: Grammar) -> Option<Seq<SettingModel>>
    decreases tokens.len(),
{
    if tokens.len() == 0 {
        Some(Seq::empty())
    } else if tokens[0] == "--"@ {
        if tokens.len() == 1 {
            Some(Seq::empty())
        } else {
            None
        }
    } else {
        match long_option(tokens[0]) {
            None => None,
            Some((name, inline)) => if grammar.is_flag(name) {
                if inline is None {
                    put_first(
                        SettingModel { option: name, value: None },
                        scanned(tokens.skip(1), grammar),
                    )
                } else {
                    None
                }
            } else if grammar.takes_value(name) {
                match inline {
                    Some(value) => put_first(
                        SettingModel { option: canonical(name), value: Some(value) },
                        scanned(tokens.skip(1), grammar),
                    ),
                    None => if tokens.len() > 1 && is_value(tokens[1]) {
                        put_first(
                            SettingModel { option: canonical(name), value: Some(tokens[1]) },
                            scanned(tokens.skip(2), grammar),
                        )
                    } else {
                        None
                    },
                }
            } else {
                None
            },
        }
    }
}

fn split_option(token: &str) -> (r: Option<(String, Option<String>)>)
    ensures
        match r {
            Some((name, value)) => long_option(token@) == Some(
                (
                    name@,
                    match value {
                        Some(text) => Some(text@),
                        None => None,
                    },
                ),
            ),
            None => long_option(token@) is None,
        },
{
    let chars = to_chars(token);
    if chars.len() < 2 || chars[0] != '-' || chars[1] != '-' {
        return None;
    }
    let body_text = from_chars(&chars, 2, chars.len());
    assert(body_text@ =~= chars@.skip(2));
    let body = to_chars(body_text.as_str());
    match find_char(&body, '=', 0) {
        Some(at) => {
            let name = from_chars(&body, 0, at);
            let value = from_chars(&body, at + 1, body.len());
            assert(name@ =~= body@.take(at as int));
            assert(value@ =~= body@.skip(at + 1));
            Some((name, Some(value)))
        },
        None => Some((body_text, None)),
    }
}

fn value_token(token: &str) -> (r: bool)
    ensures
        r == is_value(token@),
{
    let chars = to_chars(token);
    chars.len() < 2 || chars[0] != '-'
}

fn canonical_name(name: String) -> (r: String)
    ensures
        r@ == canonical(name@),
{
    if same_text(name.as_str(), "proxy-local") {
        "proxy".to_owned()
    } else {
        name
    }
}

/// The tokens of arguments.
pub open spec fn tokens_of(args: Seq<&str>) -> Seq<Seq<char>> {
    args.map_values(|arg: &str| arg@)
}

/// What is found once the settings `before` were found and `rest` is found in what follows.
pub open spec fn continued(
    before: Seq<SettingModel>,
    rest: Option<Seq<SettingModel>>,
) -> Option<Seq<SettingModel>> {
    match rest {
        Some(settings) => Some(before + settings),
        None => None,
    }
}

fn scan(args: &[&str], from: usize, grammar: Grammar) -> (r: Option<Vec<Setting>>)
    requires
        from <= args.len(),
    ensures
        match r {
            Some(list) => scanned(tokens_of(args@).skip(from as int), grammar) == Some(
                settings_of(list@),
            ),
            None => scanned(tokens_of(args@).skip(from as int), grammar) is None,
        },
{
    let ghost tokens = tokens_of(args@);
    let ghost target = scanned(tokens.skip(from as int), grammar);
    let mut out: Vec<Setting> = Vec::new();
    let mut i: usize = from;
    proof {
        let rest = scanned(tokens.skip(from as int), grammar);
        assert(settings_of(out@) =~= Seq::<SettingModel>::empty());
        if let Some(settings) = rest {
            assert(Seq::<SettingModel>::empty() + settings =~= settings);
        }
    }
    while i < args.len()
        invariant
            from <= i <= args.len(),
            tokens == tokens_of(args@),
            target == scanned(tokens.skip(from as int), grammar),
            target == continued(
                settings_of(out@),
                scanned(tokens.skip(i as int), grammar),
            ),
        decreases args.len() - i,
    {
        let ghost left = tokens.skip(i as int);
        let ghost before = settings_of(out@);
        assert(left.len() > 0 && left[0] == args[i as int]@);
        assert(left.skip(1) =~= tokens.skip(i + 1));
        assert(i + 1 < args.len() ==> left[1] == args[i + 1]@);
        assert(i + 2 <= args.len() ==> left.skip(2) =~= tokens.skip(i + 2));
        if same_text(args[i], "--") {
            assert(before + Seq::<SettingModel>::empty() =~= before);
            if i + 1 == args.len() {
                return Some(out);
            }
            return None;
        }
        match split_option(args[i]) {
            None => {
                return None;
            },
            Some((name, inline)) => {
                if grammar.flag(name.as_str()) {
                    if inline.is_some() {
                        return None;
                    }
                    let setting = Setting { option: name, value: None };
                    proof {
                        lemma_continue(before, setting@, scanned(tokens.skip(i + 1), grammar));
                        assert(settings_of(out@.push(setting)) =~= before.push(setting@));
                    }
                    out.push(setting);
                    i = i + 1;
                } else if grammar.valued(name.as_str()) {
                    match inline {
                        Some(value) => {
                            let setting = Setting {
                                option: canonical_name(name),
                                value: Some(value),
                            };
                            proof {
                                lemma_continue(
                                    before,
                                    setting@,
                                    scanned(tokens.skip(i + 1), grammar),
                                );
                                assert(settings_of(out@.push(setting)) =~= before.push(setting@));
                            }
                            out.push(setting);
                            i = i + 1;
                        },
                        None => {
                            if i + 1 >= args.len() || !value_token(args[i + 1]) {
                                return None;
                            }
                            let setting = Setting {
                                option: canonical_name(name),
                                value: Some(args[i + 1].to_owned()),
                            };
                            proof {
                                lemma_continue(
                                    before,
                                    setting@,
                                    scanned(tokens.skip(i + 2), grammar),
                                );
                                assert(settings_of(out@.push(setting)) =~= before.push(setting@));
                            }
                            out.push(setting);
                            i = i + 2;
                        },
                    }
                } else {
                    return None;
                }
            },
        }
    }
    assert(settings_of(out@) + Seq::<SettingModel>::empty() =~= settings_of(out@));
    Some(out)
}

proof fn lemma_continue(
    before: Seq<SettingModel>,
    next: SettingModel,
    rest: Option<Seq<SettingModel>>,
)
    ensures
        continued(before, put_first(next, rest)) == continued(before.push(next), rest),
{
    if let Some(settings) = rest {
        assert(before + (seq![next] + settings) =~= before.push(next) + settings);
    }
}

/// No option is given twice.
pub open spec fn distinct(settings: Seq<SettingModel>) -> bool {
    forall|i: int, j: int|
        0 <= i < j < settings.len() ==> (#[trigger] settings[i]).option != (
        #[trigger] settings[j]).option
}

fn all_distinct(settings: &Vec<Setting>) -> (r: bool)
    ensures
        r == distinct(settings_of(settings@)),
{
    let ghost models = settings_of(settings@);
    let mut i: usize = 0;
    while i < settings.len()
        invariant
            i <= settings.len(),
            models == settings_of(settings@),
            forall|a: int, b: int|
                0 <= a < i && a < b < models.len() ==> (#[trigger] models[a]).option != (
                #[trigger] models[b]).option,
        decreases settings.len() - i,
    {
        let mut j: usize = i + 1;
        while j < settings.len()
            invariant
                i < j <= settings.len(),
                models == settings_of(settings@),
                forall|b: int|
                    i < b < j ==> models[i as int].option != (#[trigger] models[b]).option,
            decreases settings.len() - j,
        {
            assert(models[i as int] == settings[i as int]@);
            assert(models[j as int] == settings[j as int]@);
            if same_text(settings[i].option.as_str(), settings[j].option.as_str()) {
                return false;
            }
            j = j + 1;
        }
        i = i + 1;
    }
    true
}

/// The first setting of an option.
pub open spec fn given(settings: Seq<SettingModel>, name: Seq<char>) -> Option<SettingModel>
    decreases settings.len(),
{
    if settings.len() == 0 {
        None
    } else if settings[0].option == name {
        Some(settings[0])
    } else {
        given(settings.drop_first(), name)
    }
}

/// The value of an option.
pub open spec fn value_of(settings: Seq<SettingModel>, name: Seq<char>) -> Option<Seq<char>> {
    match given(settings, name) {
        Some(setting) => setting.value,
        None => None,
    }
}

fn find(settings: &Vec<Setting>, name: &str) -> (r: Option<usize>)
    ensures
        match r {
            Some(i) => i < settings.len() && given(settings_of(settings@), name@) == Some(
                settings[i as int]@,
            ),
            None => given(settings_of(settings@), name@) is None,
        },
{
    let ghost models = settings_of(settings@);
    let mut i: usize = 0;
    assert(models.skip(0) =~= models);
    while i < settings.len()
        invariant
            i <= settings.len(),
            models == settings_of(settings@),
            given(models, name@) == given(models.skip(i as int), name@),
        decreases settings.len() - i,
    {
        assert(models.skip(i as int)[0] == settings[i as int]@);
        assert(models.skip(i as int).drop_first() =~= models.skip(i + 1));
        if same_text(settings[i].option.as_str(), name) {
            return Some(i);
        }
        i = i + 1;
    }
    None
}

fn flag_given(settings: &Vec<Setting>, name: &str) -> (r: bool)
    ensures
        r == (given(settings_of(settings@), name@) is Some),
{
    find(settings, name).is_some()
}

fn text_given(settings: &Vec<Setting>, name: &str) -> (r: Option<String>)
    ensures
        match r {
            Some(text) => value_of(settings_of(settings@), name@) == Some(text@),
            None => value_of(settings_of(settings@), name@) is None,
        },
{
    match find(settings, name) {
        Some(i) => match &settings[i].value {
            Some(text) => Some(text.clone()),
            None => None,
        },
        None => None,
    }
}

/// The number that a text stands for, where it is not zero and at most `max`.
pub open spec fn positive(text: Seq<char>, max: int) -> Option<int> {
    match parsed_number(text, max) {
        Some(n) => if n > 0 {
            Some(n)
        } else {
            None
        },
        None => None,
    }
}

/// Why a text is not the number that is asked for.
pub open spec fn positive_fault(text: Seq<char>, max: int) -> Seq<char> {
    if parsed_number(text, max) is Some {
        "value must be greater than zero"@
    } else {
        "invalid integer '"@ + text + "'"@
    }
}

/// A whole number above zero, as a number of things.
pub fn parse_positive_usize(value: &str) -> (r: Result<usize, String>)
    ensures
        match r {
            Ok(n) => positive(value@, usize::MAX as int) == Some(n as int),
            Err(reason) => positive(value@, usize::MAX as int) is None && reason@
                == positive_fault(value@, usize::MAX as int),
        },
{
    match parse_number(value, usize::MAX as u64) {
        Some(n) => if n == 0 {
            Err("value must be greater than zero".to_owned())
        } else {
            Ok(n as usize)
        },
        None => {
            let mut out = "invalid integer '".to_owned();
            out.append(value);
            out.append("'");
            Err(out)
        },
    }
}

/// A whole number above zero.
pub fn parse_positive_u64(value: &str) -> (r: Result<u64, String>)
    ensures
        match r {
            Ok(n) => positive(value@, u64::MAX as int) == Some(n as int),
            Err(reason) => positive(value@, u64::MAX as int) is None && reason@ == positive_fault(
                value@,
                u64::MAX as int,
            ),
        },
{
    match parse_number(value, u64::MAX) {
        Some(n) => if n == 0 {
            Err("value must be greater than zero".to_owned())
        } else {
            Ok(n)
        },
        None => {
            let mut out = "invalid integer '".to_owned();
            out.append(value);
            out.append("'");
            Err(out)
        },
    }
}

/// The number above zero that an option gives, `default` where it is not given, and nothing
/// where its value is no such number.
pub open spec fn count_of(
    settings: Seq<SettingModel>,
    name: Seq<char>,
    default: int,
    max: int,
) -> Option<int> {
    match value_of(settings, name) {
        Some(text) => positive(text, max),
        None => Some(default),
    }
}

fn usize_given(settings: &Vec<Setting>, name: &str, default: usize) -> (r: Option<usize>)
    ensures
        match r {
            Some(n) => count_of(
                settings_of(settings@),
                name@,
                default as int,
                usize::MAX as int,
            ) == Some(n as int),
            None => count_of(
                settings_of(settings@),
                name@,
                default as int,
                usize::MAX as int,
            ) is None,
        },
{
    match text_given(settings, name) {
        Some(text) => match parse_positive_usize(text.as_str()) {
            Ok(n) => Some(n),
            Err(_) => None,
        },
        None => Some(default),
    }
}

fn u64_given(settings: &Vec<Setting>, name: &str, default: u64) -> (r: Option<u64>)
    ensures
        match r {
            Some(n) => count_of(settings_of(settings@), name@, default as int, u64::MAX as int)
                == Some(n as int),
            None => count_of(
                settings_of(settings@),
                name@,
                default as int,
                u64::MAX as int,
            ) is None,
        },
{
    match text_given(settings, name) {
        Some(text) => match parse_positive_u64(text.as_str()) {
            Ok(n) => Some(n),
            Err(_) => None,
        },
        None => Some(default),
    }
}

/// The mode that `--mode` gives.
pub open spec fn mode_of(settings: Seq<SettingModel>) -> Option<ModernTransportMode> {
    match value_of(settings, "mode"@) {
        Some(text) => if text == "xhr"@ {
            Some(ModernTransportMode::Xhr)
        } else if text == "tcp"@ {
            Some(ModernTransportMode::Tcp)
        } else {
            None
        },
        None => Some(ModernTransportMode::Xhr),
    }
}

fn mode_given(settings: &Vec<Setting>) -> (r: Option<ModernTransportMode>)
    ensures
        r == mode_of(settings_of(settings@)),
{
    match text_given(settings, "mode") {
        Some(text) => if same_text(text.as_str(), "xhr") {
            Some(ModernTransportMode::Xhr)
        } else if same_text(text.as_str(), "tcp") {
            Some(ModernTransportMode::Tcp)
        } else {
            None
        },
        None => Some(ModernTransportMode::Xhr),
    }
}

/// The protocol that `--protocol` gives.
pub open spec fn protocol_of(settings: Seq<SettingModel>) -> Option<IperfProtocol> {
    match value_of(settings, "protocol"@) {
        Some(text) => if text == "tcp"@ {
            Some(IperfProtocol::Tcp)
        } else if text == "udp"@ {
            Some(IperfProtocol::Udp)
        } else {
            None
        },
        None => Some(IperfProtocol::Tcp),
    }
}

fn protocol_given(settings: &Vec<Setting>) -> (r: Option<IperfProtocol>)
    ensures
        r == protocol_of(settings_of(settings@)),
{
    match text_given(settings, "protocol") {
        Some(text) => if same_text(text.as_str(), "tcp") {
            Some(IperfProtocol::Tcp)
        } else if same_text(text.as_str(), "udp") {
            Some(IperfProtocol::Udp)
        } else {
            None
        },
        None => Some(IperfProtocol::Tcp),
    }
}

/// The number that `--port` gives, where it is one of 16 bits.
pub open spec fn port_number(text: Seq<char>) -> Option<int> {
    match parsed_signed(text) {
        Some(n) => if 0 <= n <= u16::MAX {
            Some(n)
        } else {
            None
        },
        None => None,
    }
}

fn parse_port(text: &str) -> (r: Option<u16>)
    ensures
        match r {
            Some(n) => port_number(text@) == Some(n as int),
            None => port_number(text@) is None,
        },
{
    match parse_signed(text) {
        Some(n) => if 0 <= n && n <= 65_535 {
            Some(n as u16)
        } else {
            None
        },
        None => None,
    }
}

/// Whether the options of a speed test can be used together.
pub open spec fn run_accepted(s: Seq<SettingModel>) -> bool {
    &&& distinct(s)
    &&& mode_of(s) is Some
    &&& value_of(s, "server-id"@) matches Some(text) ==> parsed_number(
        text,
        u64::MAX as int,
    ) is Some
    &&& count_of(s, "candidate-servers"@, 10, usize::MAX as int) is Some
    &&& count_of(s, "pool-size"@, 4, usize::MAX as int) is Some
    &&& count_of(s, "latency-samples"@, 10, usize::MAX as int) is Some
    &&& count_of(s, "download-connections"@, 8, usize::MAX as int) is Some
    &&& count_of(s, "upload-connections"@, 8, usize::MAX as int) is Some
    &&& count_of(s, "download-seconds"@, 15, u64::MAX as int) is Some
    &&& count_of(s, "upload-seconds"@, 15, u64::MAX as int) is Some
    &&& value_of(s, "min-seconds"@) matches Some(text) ==> parsed_number(
        text,
        u64::MAX as int,
    ) is Some
    &&& !(given(s, "download-only"@) is Some && given(s, "upload-only"@) is Some)
    &&& given(s, "details"@) is Some ==> given(s, "json"@) is Some
}

pub open spec fn same_opt(text: Option<String>, value: Option<Seq<char>>) -> bool {
    match (text, value) {
        (Some(a), Some(b)) => a@ == b,
        (None, None) => true,
        _ => false,
    }
}

/// Whether the arguments are those that the options give.
pub open spec fn is_run(args: RunArgs, s: Seq<SettingModel>) -> bool {
    &&& mode_of(s) == Some(args.mode)
    &&& match (value_of(s, "server-id"@), args.server_id) {
        (Some(text), Some(id)) => parsed_number(text, u64::MAX as int) == Some(id as int),
        (None, None) => true,
        _ => false,
    }
    &&& count_of(s, "candidate-servers"@, 10, usize::MAX as int) == Some(
        args.candidate_servers as int,
    )
    &&& count_of(s, "pool-size"@, 4, usize::MAX as int) == Some(args.pool_size as int)
    &&& count_of(s, "latency-samples"@, 10, usize::MAX as int) == Some(args.latency_samples as int)
    &&& count_of(s, "download-connections"@, 8, usize::MAX as int) == Some(
        args.download_connections as int,
    )
    &&& count_of(s, "upload-connections"@, 8, usize::MAX as int) == Some(
        args.upload_connections as int,
    )
    &&& count_of(s, "download-seconds"@, 15, u64::MAX as int) == Some(args.download_seconds as int)
    &&& count_of(s, "upload-seconds"@, 15, u64::MAX as int) == Some(args.upload_seconds as int)
    &&& match value_of(s, "min-seconds"@) {
        Some(text) => parsed_number(text, u64::MAX as int) == Some(args.min_seconds as int),
        None => args.min_seconds == 5,
    }
    &&& args.download_only == (given(s, "download-only"@) is Some)
    &&& args.upload_only == (given(s, "upload-only"@) is Some)
    &&& same_opt(args.proxy, value_of(s, "proxy"@))
    &&& args.no_progress == (given(s, "no-progress"@) is Some)
    &&& args.json == (given(s, "json"@) is Some)
    &&& args.details == (given(s, "details"@) is Some)
    &&& same_opt(args.sdk_json_out, value_of(s, "sdk-json-out"@))
}

fn build_run(settings: &Vec<Setting>) -> (r: Option<RunArgs>)
    ensures
        match r {
            Some(args) => run_accepted(settings_of(settings@)) && is_run(
                args,
                settings_of(settings@),
            ),
            None => !run_accepted(settings_of(settings@)),
        },
{
    if !all_distinct(settings) {
        return None;
    }
    let mode = mode_given(settings)?;
    let server_id: Option<u64> = match text_given(settings, "server-id") {
        Some(text) => Some(parse_number(text.as_str(), u64::MAX)?),
        None => None,
    };
    let candidate_servers: usize = usize_given(settings, "candidate-servers", 10)?;
    let pool_size: usize = usize_given(settings, "pool-size", 4)?;
    let latency_samples: usize = usize_given(settings, "latency-samples", 10)?;
    let download_connections: usize = usize_given(settings, "download-connections", 8)?;
    let upload_connections: usize = usize_given(settings, "upload-connections", 8)?;
    let download_seconds: u64 = u64_given(settings, "download-seconds", 15)?;
    let upload_seconds: u64 = u64_given(settings, "upload-seconds", 15)?;
    let min_seconds: u64 = match text_given(settings, "min-seconds") {
        Some(text) => parse_number(text.as_str(), u64::MAX)?,
        None => 5,
    };
    let download_only = flag_given(settings, "download-only");
    let upload_only = flag_given(settings, "upload-only");
    let json = flag_given(settings, "json");
    let details = flag_given(settings, "details");
    if (download_only && upload_only) || (details && !json) {
        return None;
    }
    Some(
        RunArgs {
            mode,
            server_id,
            candidate_servers,
            pool_size,
            latency_samples,
            download_connections,
            upload_connections,
            download_seconds,
            upload_seconds,
            min_seconds,
            download_only,
            upload_only,
            proxy: text_given(settings, "proxy"),
            no_progress: flag_given(settings, "no-progress"),
            json,
            details,
            sdk_json_out: text_given(settings, "sdk-json-out"),
        },
    )
}

/// Whether the options of a native benchmark can be used together: one of the two ways to name
/// the target, and at most one of the two directions.
pub open spec fn iperf_accepted(s: Seq<SettingModel>) -> bool {
    &&& distinct(s)
    &&& (given(s, "host"@) is Some) != (given(s, "auto-server"@) is Some)
    &&& value_of(s, "port"@) matches Some(text) ==> port_number(text) is Some
    &&& count_of(s, "candidate-servers"@, 10, usize::MAX as int) is Some
    &&& count_of(s, "latency-samples"@, 2, usize::MAX as int) is Some
    &&& protocol_of(s) is Some
    &&& count_of(s, "seconds"@, 10, u64::MAX as int) is Some
    &&& count_of(s, "parallel"@, 1, usize::MAX as int) is Some
    &&& value_of(s, "bitrate"@) matches Some(text) ==> positive(text, u64::MAX as int) is Some
    &&& !(given(s, "download-only"@) is Some && given(s, "upload-only"@) is Some)
    &&& given(s, "details"@) is Some ==> given(s, "json"@) is Some
}

pub open spec fn is_iperf(args: IperfArgs, s: Seq<SettingModel>) -> bool {
    &&& same_opt(args.host, value_of(s, "host"@))
    &&& args.auto_server == (given(s, "auto-server"@) is Some)
    &&& match value_of(s, "servers-file"@) {
        Some(text) => args.servers_file@ == text,
        None => args.servers_file@ == "iperf3_servers.json"@,
    }
    &&& match (value_of(s, "port"@), args.port) {
        (Some(text), Some(port)) => port_number(text) == Some(port as int),
        (None, None) => true,
        _ => false,
    }
    &&& count_of(s, "candidate-servers"@, 10, usize::MAX as int) == Some(
        args.candidate_servers as int,
    )
    &&& count_of(s, "latency-samples"@, 2, usize::MAX as int) == Some(args.latency_samples as int)
    &&& protocol_of(s) == Some(args.protocol)
    &&& count_of(s, "seconds"@, 10, u64::MAX as int) == Some(args.seconds as int)
    &&& count_of(s, "parallel"@, 1, usize::MAX as int) == Some(args.parallel as int)
    &&& match (value_of(s, "bitrate"@), args.bitrate) {
        (Some(text), Some(bps)) => positive(text, u64::MAX as int) == Some(bps as int),
        (None, None) => true,
        _ => false,
    }
    &&& same_opt(args.proxy, value_of(s, "proxy"@))
    &&& args.upload_only == (given(s, "upload-only"@) is Some)
    &&& args.download_only == (given(s, "download-only"@) is Some)
    &&& args.no_progress == (given(s, "no-progress"@) is Some)
    &&& args.json == (given(s, "json"@) is Some)
    &&& args.details == (given(s, "details"@) is Some)
}

fn build_iperf(settings: &Vec<Setting>) -> (r: Option<IperfArgs>)
    ensures
        match r {
            Some(args) => iperf_accepted(settings_of(settings@)) && is_iperf(
                args,
                settings_of(settings@),
            ),
            None => !iperf_accepted(settings_of(settings@)),
        },
{
    if !all_distinct(settings) {
        return None;
    }
    let auto_server = flag_given(settings, "auto-server");
    if flag_given(settings, "host") == auto_server {
        return None;
    }
    let port: Option<u16> = match text_given(settings, "port") {
        Some(text) => Some(parse_port(text.as_str())?),
        None => None,
    };
    let candidate_servers: usize = usize_given(settings, "candidate-servers", 10)?;
    let latency_samples: usize = usize_given(settings, "latency-samples", 2)?;
    let protocol = protocol_given(settings)?;
    let seconds: u64 = u64_given(settings, "seconds", 10)?;
    let parallel: usize = usize_given(settings, "parallel", 1)?;
    let bitrate: Option<u64> = match text_given(settings, "bitrate") {
        Some(text) => match parse_positive_u64(text.as_str()) {
            Ok(bps) => Some(bps),
            Err(_) => {
                return None;
            },
        },
        None => None,
    };
    let download_only = flag_given(settings, "download-only");
    let upload_only = flag_given(settings, "upload-only");
    let json = flag_given(settings, "json");
    let details = flag_given(settings, "details");
    if (download_only && upload_only) || (details && !json) {
        return None;
    }
    Some(
        IperfArgs {
            host: text_given(settings, "host"),
            auto_server,
            servers_file: match text_given(settings, "servers-file") {
                Some(text) => text,
                None => "iperf3_servers.json".to_owned(),
            },
            port,
            candidate_servers,
            latency_samples,
            protocol,
            seconds,
            parallel,
            bitrate,
            proxy: text_given(settings, "proxy"),
            upload_only,
            download_only,
            no_progress: flag_given(settings, "no-progress"),
            json,
            details,
        },
    )
}

/// Whether the options of a cache listing can be used together.
pub open spec fn show_accepted(s: Seq<SettingModel>) -> bool {
    distinct(s) && count_of(s, "limit"@, 20, usize::MAX as int) is Some
}

pub open spec fn is_show(args: CacheShowArgs, s: Seq<SettingModel>) -> bool {
    &&& count_of(s, "limit"@, 20, usize::MAX as int) == Some(args.limit as int)
    &&& args.json == (given(s, "json"@) is Some)
    &&& same_opt(args.search, value_of(s, "search"@))
}

fn build_show(settings: &Vec<Setting>) -> (r: Option<CacheShowArgs>)
    ensures
        match r {
            Some(args) => show_accepted(settings_of(settings@)) && is_show(
                args,
                settings_of(settings@),
            ),
            None => !show_accepted(settings_of(settings@)),
        },
{
    if !all_distinct(settings) {
        return None;
    }
    let limit: usize = usize_given(settings, "limit", 20)?;
    Some(
        CacheShowArgs {
            limit,
            json: flag_given(settings, "json"),
            search: text_given(settings, "search"),
        },
    )
}

/// Whether the tokens behind the program's name follow the grammar.
pub open spec fn accepted(tokens: Seq<Seq<char>>) -> bool {
    if tokens.len() == 0 {
        true
    } else if tokens[0] == "--"@ {
        tokens.len() == 1
    } else if tokens[0] == "run"@ {
        scanned(tokens.skip(1), Grammar::Run) matches Some(s) && run_accepted(s)
    } else if tokens[0] == "iperf"@ {
        scanned(tokens.skip(1), Grammar::Iperf) matches Some(s) && iperf_accepted(s)
    } else if tokens[0] == "cache"@ && tokens.len() > 1 {
        if tokens[1] == "path"@ || tokens[1] == "clear"@ {
            scanned(tokens.skip(2), Grammar::Bare) is Some
        } else if tokens[1] == "show"@ {
            scanned(tokens.skip(2), Grammar::CacheShow) matches Some(s) && show_accepted(s)
        } else {
            false
        }
    } else {
        false
    }
}

/// Whether tokens that follow the grammar name the command, with its arguments.
pub open spec fn names(tokens: Seq<Seq<char>>, command: Option<Command>) -> bool {
    if tokens.len() == 0 || tokens[0] == "--"@ {
        command is None
    } else if tokens[0] == "run"@ {
        command matches Some(Command::Run(args)) && is_run(
            args,
            scanned(tokens.skip(1), Grammar::Run)->0,
        )
    } else if tokens[0] == "iperf"@ {
        command matches Some(Command::Iperf(args)) && is_iperf(
            args,
            scanned(tokens.skip(1), Grammar::Iperf)->0,
        )
    } else {
        command matches Some(Command::Cache(args)) && if tokens[1] == "path"@ {
            args.command is Path
        } else if tokens[1] == "clear"@ {
            args.command is Clear
        } else {
            args.command matches CacheCommand::Show(show) && is_show(
                show,
                scanned(tokens.skip(2), Grammar::CacheShow)->0,
            )
        }
    }
}

/// The tokens behind the program's name.
pub open spec fn behind_name(args: Seq<&str>) -> Seq<Seq<char>> {
    if args.len() == 0 {
        Seq::empty()
    } else {
        tokens_of(args).skip(1)
    }
}

impl Cli {
    /// Reads the arguments, of which the first is the program's name.
    pub fn try_parse_from(args: &[&str]) -> (r: Result<Cli, UsageError>)
        ensures
            match r {
                Ok(cli) => accepted(behind_name(args@)) && names(behind_name(args@), cli.command),
                Err(_) => !accepted(behind_name(args@)),
            },
    {
        match find_command(args) {
            Some(command) => Ok(Cli { command }),
            None => Err(UsageError),
        }
    }

    /// The command to carry out: a speed test with its defaults where none is named.
    pub fn into_command(self) -> (r: Command)
        ensures
            match self.command {
                Some(command) => r == command,
                None => r matches Command::Run(args) && args == default_run(),
            },
    {
        match self.command {
            Some(command) => command,
            None => Command::Run(default_run_args()),
        }
    }
}

fn find_command(args: &[&str]) -> (r: Option<Option<Command>>)
    ensures
        match r {
            Some(command) => accepted(behind_name(args@)) && names(behind_name(args@), command),
            None => !accepted(behind_name(args@)),
        },
{
    let ghost tokens = behind_name(args@);
    if args.len() <= 1 {
        return Some(None);
    }
    assert(tokens[0] == args[1]@);
    assert(tokens.skip(1) =~= tokens_of(args@).skip(2));
    assert(args.len() > 2 ==> tokens[1] == args[2]@);
    assert(args.len() > 2 ==> tokens.skip(2) =~= tokens_of(args@).skip(3));
    if same_text(args[1], "--") {
        if args.len() == 2 {
            return Some(None);
        }
        return None;
    }
    if same_text(args[1], "run") {
        let settings = scan(args, 2, Grammar::Run)?;
        return Some(Some(Command::Run(build_run(&settings)?)));
    }
    if same_text(args[1], "iperf") {
        let settings = scan(args, 2, Grammar::Iperf)?;
        return Some(Some(Command::Iperf(build_iperf(&settings)?)));
    }
    if !same_text(args[1], "cache") || args.len() == 2 {
        return None;
    }
    let command = if same_text(args[2], "path") {
        scan(args, 3, Grammar::Bare)?;
        CacheCommand::Path
    } else if same_text(args[2], "clear") {
        scan(args, 3, Grammar::Bare)?;
        CacheCommand::Clear
    } else if same_text(args[2], "show") {
        let settings = scan(args, 3, Grammar::CacheShow)?;
        CacheCommand::Show(build_show(&settings)?)
    } else {
        return None;
    };
    Some(Some(Command::Cache(CacheArgs { command })))
}

/// The arguments of a speed test for which no option is given.
pub open spec fn default_run() -> RunArgs {
    RunArgs {
        mode: ModernTransportMode::Xhr,
        server_id: None,
        candidate_servers: 10,
        pool_size: 4,
        latency_samples: 10,
        download_connections: 8,
        upload_connections: 8,
        download_seconds: 15,
        upload_seconds: 15,
        min_seconds: 5,
        download_only: false,
        upload_only: false,
        proxy: None,
        no_progress: false,
        json: false,
        details: false,
        sdk_json_out: None,
    }
}

fn default_run_args() -> (r: RunArgs)
    ensures
        r == default_run(),
{
    RunArgs {
        mode: ModernTransportMode::Xhr,
        server_id: None,
        candidate_servers: 10,
        pool_size: 4,
        latency_samples: 10,
        download_connections: 8,
        upload_connections: 8,
        download_seconds: 15,
        upload_seconds: 15,
        min_seconds: 5,
        download_only: false,
        upload_only: false,
        proxy: None,
        no_progress: false,
        json: false,
        details: false,
        sdk_json_out: None,
    }
}

impl Default for Cli {
    fn default() -> (r: Cli)
        ensures
            r.command == Some(Command::Run(default_run())),
    {
        Cli { command: Some(Command::Run(default_run_args())) }
    }
}

/// `run` without options asks for the default speed test.
pub proof fn bare_run_is_the_default(args: RunArgs)
    ensures
        accepted(seq!["run"@]),
        names(seq!["run"@], Some(Command::Run(args))) <==> args == default_run(),
{
    reveal_strlit("run");
    reveal_strlit("--");
    assert("run"@.len() == 3 && "--"@.len() == 2);
    let tokens = seq!["run"@];
    assert(tokens.skip(1) =~= Seq::<Seq<char>>::empty());
    let s = Seq::<SettingModel>::empty();
    assert(scanned(tokens.skip(1), Grammar::Run) == Some(s));
}

/// An accepted speed test leaves out at most one direction, gives details only in JSON, and has no
/// count or duration of zero.
pub proof fn accepted_runs_are_consistent(tokens: Seq<Seq<char>>, args: RunArgs)
    requires
        accepted(tokens),
        names(tokens, Some(Command::Run(args))),
    ensures
        !(args.download_only && args.upload_only),
        args.details ==> args.json,
        args.candidate_servers > 0,
        args.pool_size > 0,
        args.latency_samples > 0,
        args.download_connections > 0,
        args.upload_connections > 0,
        args.download_seconds > 0,
        args.upload_seconds > 0,
{
}

/// What is given without a value is a flag.
proof fn lemma_valued(tokens: Seq<Seq<char>>, grammar: Grammar)
    ensures
        scanned(tokens, grammar) matches Some(s) ==> forall|i: int|
            0 <= i < s.len() && (#[trigger] s[i]).value is None ==> grammar.is_flag(s[i].option),
    decreases tokens.len(),
{
    if tokens.len() > 0 {
        lemma_valued(tokens.skip(1), grammar);
        if tokens.len() > 1 {
            lemma_valued(tokens.skip(2), grammar);
        }
    }
}

proof fn lemma_given_is_listed(settings: Seq<SettingModel>, name: Seq<char>)
    ensures
        given(settings, name) matches Some(setting) ==> setting.option == name && exists|i: int|
            0 <= i < settings.len() && #[trigger] settings[i] == setting,
    decreases settings.len(),
{
    if settings.len() > 0 && settings[0].option != name {
        lemma_given_is_listed(settings.drop_first(), name);
        if let Some(setting) = given(settings, name) {
            let i = choose|i: int|
                0 <= i < settings.drop_first().len() && #[trigger] settings.drop_first()[i]
                    == setting;
            assert(settings[i + 1] == setting);
        }
    }
}

/// An accepted native benchmark names its target in exactly one way, leaves out at most one
/// direction, gives details only in JSON, and has no count, rate or duration of zero.
pub proof fn accepted_benchmarks_are_consistent(tokens: Seq<Seq<char>>, args: IperfArgs)
    requires
        accepted(tokens),
        names(tokens, Some(Command::Iperf(args))),
    ensures
        (args.host is Some) != args.auto_server,
        !(args.download_only && args.upload_only),
        args.details ==> args.json,
        args.candidate_servers > 0,
        args.latency_samples > 0,
        args.seconds > 0,
        args.parallel > 0,
        args.bitrate matches Some(bps) ==> bps > 0,
{
    let s = scanned(tokens.skip(1), Grammar::Iperf)->0;
    lemma_valued(tokens.skip(1), Grammar::Iperf);
    lemma_given_is_listed(s, "host"@);
    reveal_strlit("host");
    reveal_strlit("auto-server");
    reveal_strlit("download-only");
    reveal_strlit("upload-only");
    reveal_strlit("no-progress");
    reveal_strlit("json");
    reveal_strlit("details");
    assert("host"@[0] == 'h');
    assert(!Grammar::Iperf.is_flag("host"@));
}

proof fn lemma_given(s: Seq<SettingModel>, i: int)
    requires
        distinct(s),
        0 <= i < s.len(),
    ensures
        given(s, s[i].option) == Some(s[i]),
    decreases s.len(),
{
    if i > 0 {
        let rest = s.drop_first();
        assert(s[0].option != s[i].option);
        assert forall|a: int, b: int| 0 <= a < b < rest.len() implies (#[trigger] rest[a]).option
            != (#[trigger] rest[b]).option by {
            assert(rest[a] == s[a + 1] && rest[b] == s[b + 1]);
        }
        lemma_given(rest, i - 1);
        assert(rest[i - 1] == s[i]);
    }
}

/// An option reaches the argument of its name, in whatever place it is given.
pub proof fn run_options_reach_their_arguments(
    s: Seq<SettingModel>,
    args: RunArgs,
    i: int,
    text: Seq<char>,
)
    requires
        distinct(s),
        is_run(args, s),
        0 <= i < s.len(),
        s[i].value == Some(text),
    ensures
        s[i].option == "server-id"@ ==> args.server_id is Some && parsed_number(
            text,
            u64::MAX as int,
        ) == Some(args.server_id->0 as int),
        s[i].option == "candidate-servers"@ ==> parsed_number(text, usize::MAX as int) == Some(
            args.candidate_servers as int,
        ),
        s[i].option == "pool-size"@ ==> parsed_number(text, usize::MAX as int) == Some(
            args.pool_size as int,
        ),
        s[i].option == "latency-samples"@ ==> parsed_number(text, usize::MAX as int) == Some(
            args.latency_samples as int,
        ),
        s[i].option == "download-connections"@ ==> parsed_number(text, usize::MAX as int) == Some(
            args.download_connections as int,
        ),
        s[i].option == "upload-connections"@ ==> parsed_number(text, usize::MAX as int) == Some(
            args.upload_connections as int,
        ),
        s[i].option == "download-seconds"@ ==> parsed_number(text, u64::MAX as int) == Some(
            args.download_seconds as int,
        ),
        s[i].option == "upload-seconds"@ ==> parsed_number(text, u64::MAX as int) == Some(
            args.upload_seconds as int,
        ),
        s[i].option == "min-seconds"@ ==> parsed_number(text, u64::MAX as int) == Some(
            args.min_seconds as int,
        ),
        s[i].option == "proxy"@ ==> args.proxy is Some && args.proxy->0@ == text,
        s[i].option == "sdk-json-out"@ ==> args.sdk_json_out is Some && args.sdk_json_out->0@
            == text,
        s[i].option == "mode"@ ==> text == args.mode.name(),
{
    lemma_given(s, i);
}

/// A flag switches on what it is named for, and nothing else does.
pub proof fn run_flags_switch_on_what_they_name(s: Seq<SettingModel>, args: RunArgs, i: int)
    requires
        distinct(s),
        is_run(args, s),
        0 <= i < s.len(),
    ensures
        s[i].option == "download-only"@ ==> args.download_only,
        s[i].option == "upload-only"@ ==> args.upload_only,
        s[i].option == "no-progress"@ ==> args.no_progress,
        s[i].option == "json"@ ==> args.json,
        s[i].option == "details"@ ==> args.details,
        (forall|k: int| 0 <= k < s.len() ==> (#[trigger] s[k]).option != "json"@) ==> !args.json,
        (forall|k: int| 0 <= k < s.len() ==> (#[trigger] s[k]).option != "upload-only"@)
            ==> !args.upload_only,
        (forall|k: int| 0 <= k < s.len() ==> (#[trigger] s[k]).option != "download-only"@)
            ==> !args.download_only,
{
    lemma_given(s, i);
    lemma_not_given(s, "json"@);
    lemma_not_given(s, "upload-only"@);
    lemma_not_given(s, "download-only"@);
}

proof fn lemma_not_given(s: Seq<SettingModel>, name: Seq<char>)
    ensures
        given(s, name) is Some ==> exists|k: int|
            0 <= k < s.len() && (#[trigger] s[k]).option == name,
    decreases s.len(),
{
    if s.len() > 0 {
        if s[0].option != name {
            let rest = s.drop_first();
            lemma_not_given(rest, name);
            if given(s, name) is Some {
                let k = choose|k: int| 0 <= k < rest.len() && (#[trigger] rest[k]).option == name;
                assert(s[k + 1].option == name);
            }
        }
    }
}

/// The same for a native benchmark.
pub proof fn iperf_options_reach_their_arguments(
    s: Seq<SettingModel>,
    args: IperfArgs,
    i: int,
    text: Seq<char>,
)
    requires
        distinct(s),
        is_iperf(args, s),
        0 <= i < s.len(),
        s[i].value == Some(text),
    ensures
        s[i].option == "host"@ ==> args.host is Some && args.host->0@ == text,
        s[i].option == "servers-file"@ ==> args.servers_file@ == text,
        s[i].option == "port"@ ==> args.port is Some && parsed_signed(text) == Some(
            args.port->0 as int,
        ),
        s[i].option == "candidate-servers"@ ==> parsed_number(text, usize::MAX as int) == Some(
            args.candidate_servers as int,
        ),
        s[i].option == "latency-samples"@ ==> parsed_number(text, usize::MAX as int) == Some(
            args.latency_samples as int,
        ),
        s[i].option == "seconds"@ ==> parsed_number(text, u64::MAX as int) == Some(
            args.seconds as int,
        ),
        s[i].option == "parallel"@ ==> parsed_number(text, usize::MAX as int) == Some(
            args.parallel as int,
        ),
        s[i].option == "bitrate"@ ==> args.bitrate is Some && parsed_number(text, u64::MAX as int)
            == Some(args.bitrate->0 as int),
        s[i].option == "proxy"@ ==> args.proxy is Some && args.proxy->0@ == text,
        s[i].option == "protocol"@ ==> text == args.protocol.name(),
{
    lemma_given(s, i);
}

/// The options of a cache listing reach it too.
pub proof fn listing_options_reach_their_arguments(
    s: Seq<SettingModel>,
    args: CacheShowArgs,
    i: int,
    text: Seq<char>,
)
    requires
        distinct(s),
        is_show(args, s),
        0 <= i < s.len(),
        s[i].value == Some(text),
    ensures
        s[i].option == "limit"@ ==> parsed_number(text, usize::MAX as int) == Some(
            args.limit as int,
        ),
        s[i].option == "search"@ ==> args.search is Some && args.search->0@ == text,
{
    lemma_given(s, i);
}

/// A value can be given with an equals sign or as the next token, and means the same.
pub proof fn values_can_be_given_in_two_ways(
    name: Seq<char>,
    value: Seq<char>,
    rest: Seq<Seq<char>>,
    grammar: Grammar,
)
    requires
        name.len() > 0,
        !name.contains('='),
        grammar.takes_value(name),
        !grammar.is_flag(name),
        is_value(value),
    ensures
        scanned(seq![seq!['-', '-'] + name, value] + rest, grammar) == scanned(
            seq![seq!['-', '-'] + name + seq!['='] + value] + rest,
            grammar,
        ),
        scanned(rest, grammar) matches Some(later) ==> scanned(
            seq![seq!['-', '-'] + name, value] + rest,
            grammar,
        ) == Some(seq![SettingModel { option: canonical(name), value: Some(value) }] + later),
{
    let bare = seq!['-', '-'] + name;
    let whole = bare + seq!['='] + value;
    let two = seq![bare, value] + rest;
    let one = seq![whole] + rest;
    reveal_strlit("--");
    assert(two[0] == bare && two[1] == value && one[0] == whole);
    assert(two.skip(2) =~= rest);
    assert(one.skip(1) =~= rest);
    assert(bare.len() > 2 && whole.len() > 2);
    let body = bare.skip(2);
    assert(body =~= name);
    lemma_no_index(name, '=', 0);
    let long = whole.skip(2);
    assert(long =~= name + seq!['='] + value);
    let at = name.len() as int;
    lemma_index_at(long, '=', 0, at);
    assert(long.take(at) =~= name);
    assert(long.skip(at + 1) =~= value);
}

proof fn lemma_no_index(text: Seq<char>, c: char, from: int)
    requires
        !text.contains(c),
        0 <= from <= text.len(),
    ensures
        first_index(text, c, from) is None,
    decreases text.len() - from,
{
    if from < text.len() {
        assert(text.contains(text[from]));
        lemma_no_index(text, c, from + 1);
    }
}

proof fn lemma_index_at(text: Seq<char>, c: char, from: int, at: int)
    requires
        0 <= from <= at < text.len(),
        text[at] == c,
        !text.take(at).contains(c),
    ensures
        first_index(text, c, from) == Some(at),
    decreases at - from,
{
    if from < at {
        assert(text.take(at)[from] == text[from]);
        assert(text.take(at).contains(text[from]));
        lemma_index_at(text, c, from + 1, at);
    }
}

/// Every option of a speed test is known, either as a flag or with a value, and `--proxy-local` is
/// another name for `--proxy`.
pub proof fn run_options_are_known(name: Seq<char>)
    ensures
        Grammar::Run.is_flag("json"@) && Grammar::Run.is_flag("details"@),
        Grammar::Run.is_flag("no-progress"@),
        Grammar::Run.is_flag("download-only"@) && Grammar::Run.is_flag("upload-only"@),
        Grammar::Run.takes_value("mode"@) && Grammar::Run.takes_value("server-id"@),
        Grammar::Run.takes_value("candidate-servers"@) && Grammar::Run.takes_value("pool-size"@),
        Grammar::Run.takes_value("latency-samples"@),
        Grammar::Run.takes_value("download-connections"@),
        Grammar::Run.takes_value("upload-connections"@),
        Grammar::Run.takes_value("download-seconds"@) && Grammar::Run.takes_value(
            "upload-seconds"@,
        ),
        Grammar::Run.takes_value("min-seconds"@) && Grammar::Run.takes_value("sdk-json-out"@),
        Grammar::Run.takes_value("proxy"@) && Grammar::Run.takes_value("proxy-local"@),
        canonical("proxy-local"@) == "proxy"@,
        name != "proxy-local"@ ==> canonical(name) == name,
{
}

/// So is every option of a native benchmark and of a cache listing; the other commands take none.
pub proof fn other_options_are_known(name: Seq<char>)
    ensures
        Grammar::Iperf.is_flag("auto-server"@) && Grammar::Iperf.is_flag("download-only"@),
        Grammar::Iperf.is_flag("upload-only"@) && Grammar::Iperf.is_flag("no-progress"@),
        Grammar::Iperf.is_flag("json"@) && Grammar::Iperf.is_flag("details"@),
        Grammar::Iperf.takes_value("host"@) && Grammar::Iperf.takes_value("servers-file"@),
        Grammar::Iperf.takes_value("port"@) && Grammar::Iperf.takes_value("candidate-servers"@),
        Grammar::Iperf.takes_value("latency-samples"@) && Grammar::Iperf.takes_value("protocol"@),
        Grammar::Iperf.takes_value("seconds"@) && Grammar::Iperf.takes_value("parallel"@),
        Grammar::Iperf.takes_value("bitrate"@) && Grammar::Iperf.takes_value("proxy"@),
        Grammar::Iperf.takes_value("proxy-local"@),
        Grammar::CacheShow.is_flag("json"@),
        Grammar::CacheShow.takes_value("limit"@) && Grammar::CacheShow.takes_value("search"@),
        !Grammar::Bare.is_flag(name) && !Grammar::Bare.takes_value(name),
{
}

/// What begins with a dash is no value, but for the dash alone.
pub proof fn options_are_no_values(rest: Seq<char>, other: Seq<char>)
    requires
        rest.len() > 0,
        other.len() > 0 ==> other[0] != '-',
    ensures
        !is_value(seq!['-'] + rest),
        is_value(seq!['-']),
        is_value(other),
{
}

/// Ports are the numbers of 16 bits.
pub proof fn ports_have_16_bits(n: int)
    requires
        0 <= n <= i64::MAX,
    ensures
        n <= u16::MAX ==> port_number(decimal(n)) == Some(n),
        n > u16::MAX ==> port_number(decimal(n)) is None,
        n > 0 ==> port_number(seq!['-'] + decimal(n)) is None,
{
    signed_numbers_read_back(n);
}

/// A count of zero and a word are refused, each with its own reason.
pub proof fn zeros_and_words_are_told_apart(text: Seq<char>, max: int)
    requires
        max >= 0,
    ensures
        positive(decimal(0), max) is None,
        positive_fault(decimal(0), max) == "value must be greater than zero"@,
        parsed_number(text, max) is None ==> positive(text, max) is None && positive_fault(
            text,
            max,
        ) == "invalid integer '"@ + text + "'"@,
        positive(text, max) matches Some(n) ==> 0 < n && parsed_number(text, max) == Some(n),
{
    decimal_reads_back(0);
    assert(parsed_number(decimal(0), 0) == Some(0int));
}

/// The first argument is the program's name, and the command line begins behind it.
pub proof fn the_name_of_the_program_is_passed_over(args: Seq<&str>, i: int)
    requires
        0 <= i < args.len() - 1,
    ensures
        behind_name(args).len() == args.len() - 1,
        behind_name(args)[i] == args[i + 1]@,
        behind_name(Seq::empty()).len() == 0,
{
}

} // verus!
