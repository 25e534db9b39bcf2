//! The values the server is configured with.

use crate::digits::{parse_u64, u64_of};
use crate::text::{chars_of, copy_range, same_chars};
use vstd::prelude::*;
use vstd::string::StringExecFns;

verus! {

/// Where the server listens.
#[derive(Debug, Clone)]
pub struct ServerConfig {
    pub port: u16,
    pub host: String,
}

/// Where the source images lie, and the public URL they are served under.
#[derive(Debug, Clone)]
pub struct IiifConfig {
    pub source_dir: String,
    pub base_url: String,
}

/// The budgets and the directory of the two cache tiers.
#[derive(Debug, Clone)]
pub struct CacheConfig {
    /// A byte count with an optional unit, such as `512MB`.
    pub memory_limit: String,
    pub disk_cache_dir: String,
    /// A byte count with an optional unit, such as `10GB`.
    pub disk_limit: String,
}

/// A remote origin and the directory that keeps what was fetched from it.
#[derive(Debug, Clone)]
pub struct RemoteConfig {
    /// The URL prefix of the origin, such as `https://example.org/bucket/`.
    pub base_url: String,
    pub local_proxy_dir: String,
}

/// The whole configuration.
#[derive(Debug, Clone)]
pub struct Config {
    pub server: ServerConfig,
    pub iiif: IiifConfig,
    pub cache: CacheConfig,
    pub remote: Option<RemoteConfig>,
}

/// The values that the configuration sources gave; `None` where they were
/// silent.
#[derive(Debug, Clone)]
pub struct Settings {
    pub port: Option<u16>,
    pub host: Option<String>,
    pub source_dir: Option<String>,
    pub base_url: Option<String>,
    pub memory_limit: Option<String>,
    pub disk_cache_dir: Option<String>,
    pub disk_limit: Option<String>,
    pub remote: Option<RemoteConfig>,
}

/// The given text, or the fallback where none was given.
pub open spec fn text_or(given: Option<String>, fallback: Seq<char>) -> Seq<char> {
    match given {
        Some(s) => s@,
        None => fallback,
    }
}

fn given_or(given: Option<String>, fallback: &str) -> (out: String)
    ensures
        out@ == text_or(given, fallback@),
{
    match given {
        Some(s) => s,
        None => String::from_str(fallback),
    }
}

/// The upper-case form of an ASCII small letter; any other character as
/// it is.
pub open spec fn upper(c: char) -> char {
    if 'a' <= c && c <= 'z' {
        ((c as u8 - 32) as u8) as char
    } else {
        c
    }
}

/// `s` with its ASCII small letters in upper case.
pub open spec fn uppercase(s: Seq<char>) -> Seq<char> {
    Seq::new(s.len(), |i: int| upper(s[i]))
}

/// Whether `c` is white space.
pub open spec fn is_space(c: char) -> bool {
    let u = c as u32;
    ||| (9 <= u && u <= 13)
    ||| u == 0x20
    ||| u == 0x85
    ||| u == 0xA0
    ||| u == 0x1680
    ||| (0x2000 <= u && u <= 0x200A)
    ||| u == 0x2028
    ||| u == 0x2029
    ||| u == 0x202F
    ||| u == 0x205F
    ||| u == 0x3000
}

/// Whether `s` ends with `suffix`.
pub open spec fn has_suffix(s: Seq<char>, suffix: Seq<char>) -> bool {
    suffix.len() <= s.len() && s.skip(s.len() - suffix.len()) == suffix
}

/// `s` without `unit` at its end, as often as it stands there.
pub open spec fn without_unit(s: Seq<char>, unit: Seq<char>) -> Seq<char>
    decreases s.len(),
{
    if unit.len() > 0 && has_suffix(s, unit) {
        without_unit(s.take(s.len() - unit.len()), unit)
    } else {
        s
    }
}

/// `s` without the white space at its beginning.
pub open spec fn without_leading_space(s: Seq<char>) -> Seq<char>
    decreases s.len(),
{
    if s.len() > 0 && is_space(s[0]) {
        without_leading_space(s.skip(1))
    } else {
        s
    }
}

/// `s` without the white space at its end.
pub open spec fn without_trailing_space(s: Seq<char>) -> Seq<char>
    decreases s.len(),
{
    if s.len() > 0 && is_space(s.last()) {
        without_trailing_space(s.drop_last())
    } else {
        s
    }
}

/// `s` without the white space at its two ends.
pub open spec fn trimmed(s: Seq<char>) -> Seq<char> {
    without_trailing_space(without_leading_space(s))
}

/// The number before the unit `unit` at the end of `s`, times `factor`,
/// where that stays within 64 bits.
pub open spec fn counted(s: Seq<char>, unit: Seq<char>, factor: nat) -> Option<u64> {
    match u64_of(trimmed(without_unit(s, unit))) {
        Some(v) => if v * factor <= u64::MAX {
            Some((v * factor) as u64)
        } else {
            None
        },
        None => None,
    }
}

/// The byte count that `s` spells: a number, followed by `GB`, `MB`, `KB`
/// or `B` in any mix of cases or by nothing; the units count in powers of
/// 1024. White space may stand around the number where a unit follows.
pub open spec fn byte_count_of(s: Seq<char>) -> Option<u64> {
    let u = uppercase(s);
    if has_suffix(u, "GB"@) {
        counted(u, "GB"@, 1073741824)
    } else if has_suffix(u, "MB"@) {
        counted(u, "MB"@, 1048576)
    } else if has_suffix(u, "KB"@) {
        counted(u, "KB"@, 1024)
    } else if has_suffix(u, "B"@) {
        counted(u, "B"@, 1)
    } else {
        u64_of(u)
    }
}

/// The memory budget where the configured text spells none.
pub const DEFAULT_MEMORY_LIMIT: u64 = 536870912;

fn to_upper(c: char) -> (u: char)
    ensures
        u == upper(c),
{
    if 'a' <= c && c <= 'z' {
        ((c as u8 - 32) as u8) as char
    } else {
        c
    }
}

fn space(c: char) -> (yes: bool)
    ensures
        yes == is_space(c),
{
    let u = c as u32;
    (9 <= u && u <= 13) || u == 0x20 || u == 0x85 || u == 0xA0 || u == 0x1680 || (0x2000 <= u && u
        <= 0x200A) || u == 0x2028 || u == 0x2029 || u == 0x202F || u == 0x205F || u == 0x3000
}

fn to_uppercase(chars: &[char]) -> (out: Vec<char>)
    ensures
        out@ == uppercase(chars@),
{
    let mut out: Vec<char> = Vec::new();
    let mut i: usize = 0;
    while i < chars.len()
        invariant
            i <= chars@.len(),
            out@.len() == i,
            forall|j: int| 0 <= j < i ==> out@[j] == upper(chars@[j]),
        decreases chars@.len() - i,
    {
        out.push(to_upper(chars[i]));
        i += 1;
    }
    assert(out@ =~= uppercase(chars@));
    out
}

fn ends_with(chars: &[char], unit: &[char]) -> (yes: bool)
    ensures
        yes == has_suffix(chars@, unit@),
{
    if unit.len() > chars.len() {
        return false;
    }
    let tail = copy_range(chars, chars.len() - unit.len(), chars.len());
    assert(tail@ == chars@.skip(chars@.len() - unit@.len()));
    same_chars(tail.as_slice(), unit)
}

fn strip_unit(chars: &[char], unit: &[char]) -> (out: Vec<char>)
    ensures
        out@ == without_unit(chars@, unit@),
{
    let mut end: usize = chars.len();
    if unit.len() == 0 {
        let out = copy_range(chars, 0, end);
        assert(out@ == chars@);
        return out;
    }
    assert(chars@.take(end as int) == chars@);
    loop
        invariant
            end <= chars@.len(),
            unit@.len() > 0,
            without_unit(chars@, unit@) == without_unit(chars@.take(end as int), unit@),
        decreases end,
    {
        let head = copy_range(chars, 0, end);
        assert(head@ == chars@.take(end as int));
        if !ends_with(head.as_slice(), unit) {
            return head;
        }
        assert(head@.take(head@.len() - unit@.len()) == chars@.take(end - unit@.len()));
        end = end - unit.len();
    }
}

fn trim(chars: &[char]) -> (out: Vec<char>)
    ensures
        out@ == trimmed(chars@),
{
    let mut start: usize = 0;
    assert(chars@.skip(0) == chars@);
    while start < chars.len() && space(chars[start])
        invariant
            start <= chars@.len(),
            without_leading_space(chars@) == without_leading_space(chars@.skip(start as int)),
        decreases chars@.len() - start,
    {
        assert(chars@.skip(start as int).skip(1) == chars@.skip(start + 1));
        start += 1;
    }
    let ghost rest = chars@.skip(start as int);
    assert(without_leading_space(chars@) == rest);
    let mut end: usize = chars.len();
    assert(rest.take(end - start) == rest);
    while end > start && space(chars[end - 1])
        invariant
            start <= end <= chars@.len(),
            rest == chars@.skip(start as int),
            without_trailing_space(rest) == without_trailing_space(rest.take(end - start)),
        decreases end,
    {
        assert(rest.take(end - start).drop_last() == rest.take(end - start - 1));
        end -= 1;
    }
    let out = copy_range(chars, start, end);
    assert(out@ == rest.take(end - start));
    out
}

fn count(chars: &[char], unit: &[char], factor: u64) -> (bytes: Option<u64>)
    ensures
        bytes == counted(chars@, unit@, factor as nat),
{
    let bare = strip_unit(chars, unit);
    let number = trim(bare.as_slice());
    match parse_u64(number.as_slice()) {
        Some(v) => v.checked_mul(factor),
        None => None,
    }
}

/// The byte count that `s` spells.
pub fn parse_size_string(s: &str) -> (bytes: Option<u64>)
    ensures
        bytes == byte_count_of(s@),
{
    let chars = chars_of(s);
    let upper = to_uppercase(chars.as_slice());
    let u = upper.as_slice();
    let gb = chars_of("GB");
    let mb = chars_of("MB");
    let kb = chars_of("KB");
    let b = chars_of("B");
    if ends_with(u, gb.as_slice()) {
        count(u, gb.as_slice(), 1073741824)
    } else if ends_with(u, mb.as_slice()) {
        count(u, mb.as_slice(), 1048576)
    } else if ends_with(u, kb.as_slice()) {
        count(u, kb.as_slice(), 1024)
    } else if ends_with(u, b.as_slice()) {
        count(u, b.as_slice(), 1)
    } else {
        parse_u64(u)
    }
}

impl Config {
    /// The budget of the memory tier in bytes: what the configured text
    /// spells, or 512 MiB where it spells no byte count.
    pub open spec fn memory_limit_of(&self) -> u64 {
        match byte_count_of(self.cache.memory_limit@) {
            Some(bytes) => bytes,
            None => DEFAULT_MEMORY_LIMIT,
        }
    }

    /// The budget of the memory tier in bytes.
    pub fn parse_memory_limit(&self) -> (bytes: u64)
        ensures
            bytes == self.memory_limit_of(),
    {
        match parse_size_string(self.cache.memory_limit.as_str()) {
            Some(bytes) => bytes,
            None => DEFAULT_MEMORY_LIMIT,
        }
    }

    /// Whether this configuration is what `found` gives, with the built-in
    /// default wherever `found` is silent.
    pub open spec fn is_loaded_from(&self, found: Settings) -> bool {
        &&& self.server.port == (match found.port {
            Some(p) => p,
            None => 8080u16,
        })
        &&& self.server.host@ == text_or(found.host, "0.0.0.0"@)
        &&& self.iiif.source_dir@ == text_or(found.source_dir, "./images"@)
        &&& self.iiif.base_url@ == text_or(found.base_url, "http://localhost:8080/iiif/3/"@)
        &&& self.cache.memory_limit@ == text_or(found.memory_limit, "512MB"@)
        &&& self.cache.disk_cache_dir@ == text_or(found.disk_cache_dir, "./cache"@)
        &&& self.cache.disk_limit@ == text_or(found.disk_limit, "10GB"@)
        &&& self.remote == found.remote
    }

    /// Completes the values found in the configuration sources with the
    /// defaults. There is no default remote origin.
    pub fn load(found: Settings) -> (config: Config)
        ensures
            config.is_loaded_from(found),
    {
        let port: u16 = match found.port {
            Some(p) => p,
            None => 8080,
        };
        Config {
            server: ServerConfig { port, host: given_or(found.host, "0.0.0.0") },
            iiif: IiifConfig {
                source_dir: given_or(found.source_dir, "./images"),
                base_url: given_or(found.base_url, "http://localhost:8080/iiif/3/"),
            },
            cache: CacheConfig {
                memory_limit: given_or(found.memory_limit, "512MB"),
                disk_cache_dir: given_or(found.disk_cache_dir, "./cache"),
                disk_limit: given_or(found.disk_limit, "10GB"),
            },
            remote: found.remote,
        }
    }
}

} // verus!
