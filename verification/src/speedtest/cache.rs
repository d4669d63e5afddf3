//! Where files are kept between runs.

use vstd::prelude::*;

verus! {

/// The kinds of files that are kept.
#[derive(Clone, Copy, Debug, PartialEq, Eq, Structural)]
pub enum CacheFile {
    /// The catalog of servers.
    Servers,
    /// The state of the session with the service.
    Session,
}

impl CacheFile {
    pub open spec fn directory(self) -> Seq<char> {
        match self {
            CacheFile::Servers => "speedtest-rs"@,
            CacheFile::Session => "tunmux-speedtest"@,
        }
    }

    pub open spec fn name(self) -> Seq<char> {
        match self {
            CacheFile::Servers => "servers.json"@,
            CacheFile::Session => "modern-session.json"@,
        }
    }

    /// The error where there is no place for the file.
    pub open spec fn homeless(self) -> Seq<char> {
        match self {
            CacheFile::Servers => "HOME is not set; cannot resolve cache path"@,
            CacheFile::Session => "HOME is not set; cannot resolve session path"@,
        }
    }
}

/// A path, as a base and the parts to join to it.
#[derive(Debug)]
pub struct CachePath {
    pub base: String,
    pub parts: Vec<&'static str>,
}

impl CachePath {
    pub open spec fn part_names(self) -> Seq<Seq<char>> {
        self.parts@.map_values(|part: &'static str| part@)
    }
}

/// The path of a file: under the cache directory that the environment names, else under `.cache`
/// in the home directory.
pub fn cache_path(file: CacheFile, cache_home: Option<&str>, home: Option<&str>) -> (r: Result<
    CachePath,
    &'static str,
>)
    ensures
        match (cache_home, home, r) {
            (Some(base), _, Ok(path)) => path.base@ == base@ && path.part_names() == seq![
                file.directory(),
                file.name(),
            ],
            (None, Some(base), Ok(path)) => path.base@ == base@ && path.part_names() == seq![
                ".cache"@,
                file.directory(),
                file.name(),
            ],
            (None, None, Err(reason)) => reason@ == file.homeless(),
            _ => false,
        },
{
    let (directory, name, homeless): (&'static str, &'static str, &'static str) = match file {
        CacheFile::Servers => (
            "speedtest-rs",
            "servers.json",
            "HOME is not set; cannot resolve cache path",
        ),
        CacheFile::Session => (
            "tunmux-speedtest",
            "modern-session.json",
            "HOME is not set; cannot resolve session path",
        ),
    };
    if let Some(base) = cache_home {
        let path = CachePath { base: base.to_owned(), parts: vec![directory, name] };
        assert(path.part_names() =~= seq![file.directory(), file.name()]);
        return Ok(path);
    }
    match home {
        Some(base) => {
            let path = CachePath { base: base.to_owned(), parts: vec![".cache", directory, name] };
            assert(path.part_names() =~= seq![".cache"@, file.directory(), file.name()]);
            Ok(path)
        },
        None => Err(homeless),
    }
}

} // verus!
