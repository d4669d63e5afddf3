//! What the benchmarks share.

use url::ParseError;

use vstd::prelude::*;

use crate::error::AppError;
use crate::iperf::proxy::{
    find_scheme, scheme_named, unsupported_scheme_message, unsupported_scheme_text,
};
use crate::text::{trim, trimmed};
use crate::urls::{parse_url, parsed_url};

verus! {

/// The most workers that one benchmark direction may run at a time.
pub const MAX_BENCHMARK_WORKERS: usize = 64;

/// Brings a requested number of workers into `1..=MAX_BENCHMARK_WORKERS`.
pub open spec fn clamped_workers(requested: int) -> int {
    if requested < 1 {
        1
    } else if requested > MAX_BENCHMARK_WORKERS {
        MAX_BENCHMARK_WORKERS as int
    } else {
        requested
    }
}

pub fn clamp_worker_count(requested: usize) -> (workers: usize)
    ensures
        workers == clamped_workers(requested as int),
{
    if requested < 1 {
        1
    } else if requested > MAX_BENCHMARK_WORKERS {
        MAX_BENCHMARK_WORKERS
    } else {
        requested
    }
}

/// A clamped number of workers is in range, and clamping it again changes nothing.
pub proof fn clamping_settles(requested: int)
    ensures
        1 <= clamped_workers(requested) <= MAX_BENCHMARK_WORKERS,
        clamped_workers(clamped_workers(requested)) == clamped_workers(requested),
{
}

/// Why a text is not the URL of a proxy.
#[derive(Debug)]
pub enum ProxySchemeError {
    NotAUrl(ParseError),
    Refused(AppError),
}

/// Whether proxies of that scheme can be used, and if not why.
pub fn check_proxy_scheme(scheme: &str) -> (r: Result<(), AppError>)
    ensures
        match r {
            Ok(()) => scheme_named(scheme@) is Some,
            Err(error) => scheme_named(scheme@) is None && error.text() == "invalid argument: "@
                + unsupported_scheme_text(scheme@),
        },
{
    match find_scheme(scheme) {
        Some(_) => Ok(()),
        None => Err(AppError::InvalidArgument(unsupported_scheme_message(scheme))),
    }
}

/// Whether a text is the URL of a proxy that can be used, and if not why.
pub fn validate_proxy_scheme(proxy: &str) -> (r: Result<(), ProxySchemeError>)
    ensures
        match r {
            Ok(()) => parsed_url(proxy@) matches Some(parts) && scheme_named(parts.scheme) is Some,
            Err(ProxySchemeError::NotAUrl(_)) => parsed_url(proxy@) is None,
            Err(ProxySchemeError::Refused(error)) => parsed_url(proxy@) matches Some(parts)
                && scheme_named(parts.scheme) is None && error.text() == "invalid argument: "@
                + unsupported_scheme_text(parts.scheme),
        },
{
    match parse_url(proxy) {
        Ok(parts) => match check_proxy_scheme(parts.scheme.as_str()) {
            Ok(()) => Ok(()),
            Err(error) => Err(ProxySchemeError::Refused(error)),
        },
        Err(error) => Err(ProxySchemeError::NotAUrl(error)),
    }
}

/// The environment variables that may name a proxy, the first to be asked first.
pub open spec fn proxy_variable_names() -> Seq<Seq<char>> {
    seq![
        "HTTPS_PROXY"@,
        "https_proxy"@,
        "HTTP_PROXY"@,
        "http_proxy"@,
        "ALL_PROXY"@,
        "all_proxy"@,
    ]
}

pub fn proxy_variables() -> (r: Vec<&'static str>)
    ensures
        r@.map_values(|name: &'static str| name@) == proxy_variable_names(),
{
    let names: Vec<&'static str> = vec![
        "HTTPS_PROXY",
        "https_proxy",
        "HTTP_PROXY",
        "http_proxy",
        "ALL_PROXY",
        "all_proxy",
    ];
    assert(names@.map_values(|name: &'static str| name@) =~= proxy_variable_names());
    names
}

/// The first of the values that is there and not blank, trimmed.
pub open spec fn first_set(values: Seq<Option<String>>) -> Option<Seq<char>>
    decreases values.len(),
{
    if values.len() == 0 {
        None
    } else {
        match values[0] {
            Some(value) => if trimmed(value@).len() > 0 {
                Some(trimmed(value@))
            } else {
                first_set(values.drop_first())
            },
            None => first_set(values.drop_first()),
        }
    }
}

/// The proxy to use: the one of the command line, else the first that the environment names.
/// `values` are those of [`proxy_variables`], in their order.
pub fn resolve_proxy_url(cli_proxy: Option<&str>, values: &Vec<Option<String>>) -> (r: Option<
    String,
>)
    ensures
        match (cli_proxy, r) {
            (Some(given), Some(proxy)) => proxy@ == given@,
            (Some(_), None) => false,
            (None, Some(proxy)) => first_set(values@) == Some(proxy@),
            (None, None) => first_set(values@) is None,
        },
{
    if let Some(given) = cli_proxy {
        return Some(given.to_owned());
    }
    let mut i: usize = 0;
    assert(values@.skip(0) =~= values@);
    while i < values.len()
        invariant
            i <= values.len(),
            cli_proxy is None,
            first_set(values@) == first_set(values@.skip(i as int)),
        decreases values.len() - i,
    {
        assert(values@.skip(i as int).drop_first() =~= values@.skip(i + 1));
        if let Some(value) = &values[i] {
            let text = trim(value.as_str());
            if text.as_str().unicode_len() > 0 {
                return Some(text);
            }
        }
        i = i + 1;
    }
    None
}

/// The first value that is there and not blank is taken, without the white space around it.
pub proof fn the_first_value_that_is_set_counts(first: Option<String>, others: Seq<Option<String>>)
    ensures
        first_set(Seq::empty()) is None,
        (first matches Some(text) && trimmed(text@).len() > 0) ==> first_set(seq![first] + others)
            == Some(trimmed(first->0@)),
        (first is None || trimmed(first->0@).len() == 0) ==> first_set(seq![first] + others)
            == first_set(others),
{
    assert((seq![first] + others)[0] == first);
    assert((seq![first] + others).drop_first() =~= others);
}

/// A number of workers from one to sixty-four is left as it is.
pub proof fn usual_numbers_of_workers_stay(requested: int)
    ensures
        1 <= requested <= 64 ==> clamped_workers(requested) == requested,
        requested > 64 ==> clamped_workers(requested) == 64,
        requested < 1 ==> clamped_workers(requested) == 1,
{
}

} // verus!
