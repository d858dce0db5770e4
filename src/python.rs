//! Choosing the Python runtime that the translation helper runs on: version
//! strings, the supported range, and the prebuilt runtime to download.

use vstd::prelude::*;
use crate::form::{first_index_from, join_with};
use crate::text::{
    chars_of, contains_chars, contains_spec, decimal_spec, ends_with_spec, matches_at,
    parse_unsigned, parse_unsigned_spec, push_decimal, push_str, slice_chars, starts_with_spec,
    str_equals, string_of, trim_chars, trim_spec, until_char_end, until_char_end_exec,
};

verus! {

/// The text before the first `.` of `s` (all of `s` if it has none).
pub open spec fn first_dotted(s: Seq<char>) -> Seq<char> {
    s.subrange(0, until_char_end(s, 0, '.'))
}

/// The text between the first and the second `.` of `s`, if `s` has a `.`.
pub open spec fn second_dotted(s: Seq<char>) -> Option<Seq<char>> {
    let e = until_char_end(s, 0, '.');
    if e < s.len() {
        Some(s.subrange(e + 1, until_char_end(s, e + 1, '.')))
    } else {
        None
    }
}

/// The (major, minor) version in the output of `python --version`:
/// `Python X.Y...` once trimmed, with X and Y numbers that fit in a byte.
pub open spec fn python_version_of(text: Seq<char>) -> Option<(u8, u8)> {
    let t = trim_spec(text);
    if !starts_with_spec(t, "Python "@) {
        None
    } else {
        let rest = t.subrange(7, t.len() as int);
        match (parse_unsigned_spec(first_dotted(rest), 255), second_dotted(rest)) {
            (Some(major), Some(m)) => match parse_unsigned_spec(m, 255) {
                Some(minor) => Some((major as u8, minor as u8)),
                None => None,
            },
            _ => None,
        }
    }
}

/// Reads the version from the output of `python --version`.
pub fn parse_python_version(text: &str) -> (r: Option<(u8, u8)>)
    ensures
        r == python_version_of(text@),
{
    let t = trim_chars(&chars_of(text));
    let prefix = chars_of("Python ");
    proof {
        reveal_strlit("Python ");
    }
    if !matches_at(&t, &prefix, 0) {
        return None;
    }
    let rest = slice_chars(&t, 7, t.len());
    let e = until_char_end_exec(&rest, 0, '.');
    let major = match parse_unsigned(&slice_chars(&rest, 0, e), 255) {
        Some(v) => v,
        None => return None,
    };
    if e == rest.len() {
        return None;
    }
    let e2 = until_char_end_exec(&rest, e + 1, '.');
    let minor = match parse_unsigned(&slice_chars(&rest, e + 1, e2), 255) {
        Some(v) => v,
        None => return None,
    };
    Some((major as u8, minor as u8))
}

/// The translation helper runs on Python 3.8 to 3.13.
pub open spec fn supported_python(version: (u8, u8)) -> bool {
    version.0 == 3 && 8 <= version.1 <= 13
}

/// Whether the translation helper runs on this Python version.
pub fn is_supported_translation_python(version: (u8, u8)) -> (r: bool)
    ensures
        r == supported_python(version),
{
    version.0 == 3 && 8 <= version.1 && version.1 <= 13
}

/// `Python X.Y`.
pub fn format_python_version(version: (u8, u8)) -> (r: String)
    ensures
        r@ == "Python "@ + decimal_spec(version.0 as nat) + "."@ + decimal_spec(version.1 as nat),
{
    let mut s = chars_of("Python ");
    push_decimal(&mut s, version.0 as u64);
    push_str(&mut s, ".");
    push_decimal(&mut s, version.1 as u64);
    string_of(s)
}

/// The Python lines to download a runtime of, most preferred first.
pub open spec fn preferred_versions() -> Seq<Seq<char>> {
    seq!["3.12."@, "3.11."@, "3.10."@, "3.13."@, "3.9."@, "3.8."@]
}

/// The Python lines to download a runtime of, most preferred first.
pub fn preferred_python_build_versions() -> (r: Vec<&'static str>)
    ensures
        r.deep_view() == preferred_versions(),
{
    let mut r: Vec<&'static str> = Vec::new();
    r.push("3.12.");
    r.push("3.11.");
    r.push("3.10.");
    r.push("3.13.");
    r.push("3.9.");
    r.push("3.8.");
    assert(r.deep_view() =~= preferred_versions());
    r
}

/// The interpreters looked for on the machine, newest first.
pub open spec fn python_candidates() -> Seq<Seq<char>> {
    seq!["python3.13"@, "python3.12"@, "python3.11"@, "python3.10"@, "python3.9"@, "python3.8"@, "python3"@]
}

/// The interpreters looked for on the machine, newest first.
pub fn translation_python_candidates() -> (r: Vec<String>)
    ensures
        r.deep_view() == python_candidates(),
{
    let mut r: Vec<String> = Vec::new();
    r.push(string_of(chars_of("python3.13")));
    r.push(string_of(chars_of("python3.12")));
    r.push(string_of(chars_of("python3.11")));
    r.push(string_of(chars_of("python3.10")));
    r.push(string_of(chars_of("python3.9")));
    r.push(string_of(chars_of("python3.8")));
    r.push(string_of(chars_of("python3")));
    assert(r.deep_view() =~= python_candidates());
    r
}

/// The archive name endings of the prebuilt runtimes for a platform, most
/// preferred first; none for a platform without prebuilt runtimes.
pub open spec fn build_suffixes(os: Seq<char>, arch: Seq<char>) -> Seq<Seq<char>> {
    if os == "linux"@ && arch == "x86_64"@ {
        seq![
            "x86_64_v3-unknown-linux-gnu-install_only_stripped.tar.gz"@,
            "x86_64_v2-unknown-linux-gnu-install_only_stripped.tar.gz"@,
            "x86_64-unknown-linux-gnu-install_only_stripped.tar.gz"@,
        ]
    } else if os == "linux"@ && arch == "aarch64"@ {
        seq!["aarch64-unknown-linux-gnu-install_only_stripped.tar.gz"@]
    } else if os == "macos"@ && arch == "aarch64"@ {
        seq!["aarch64-apple-darwin-install_only_stripped.tar.gz"@]
    } else if os == "macos"@ && arch == "x86_64"@ {
        seq!["x86_64-apple-darwin-install_only_stripped.tar.gz"@]
    } else if os == "windows"@ && arch == "x86_64"@ {
        seq!["x86_64-pc-windows-msvc-install_only_stripped.tar.gz"@]
    } else {
        seq![]
    }
}

/// The archive name endings of the prebuilt runtimes for the platform `os`
/// `arch`, or an error for a platform without one.
pub fn supported_python_build_suffixes(os: &str, arch: &str) -> (r: Result<Vec<&'static str>, String>)
    ensures
        build_suffixes(os@, arch@).len() > 0 <==> r is Ok,
        r is Ok ==> r->Ok_0.deep_view() == build_suffixes(os@, arch@),
        r is Err ==> r->Err_0@ == "BingoOJ does not have a bundled translation runtime for "@ + os@ + " "@ + arch@ + " yet."@,
{
    let mut r: Vec<&'static str> = Vec::new();
    if str_equals(os, "linux") && str_equals(arch, "x86_64") {
        r.push("x86_64_v3-unknown-linux-gnu-install_only_stripped.tar.gz");
        r.push("x86_64_v2-unknown-linux-gnu-install_only_stripped.tar.gz");
        r.push("x86_64-unknown-linux-gnu-install_only_stripped.tar.gz");
    } else if str_equals(os, "linux") && str_equals(arch, "aarch64") {
        r.push("aarch64-unknown-linux-gnu-install_only_stripped.tar.gz");
    } else if str_equals(os, "macos") && str_equals(arch, "aarch64") {
        r.push("aarch64-apple-darwin-install_only_stripped.tar.gz");
    } else if str_equals(os, "macos") && str_equals(arch, "x86_64") {
        r.push("x86_64-apple-darwin-install_only_stripped.tar.gz");
    } else if str_equals(os, "windows") && str_equals(arch, "x86_64") {
        r.push("x86_64-pc-windows-msvc-install_only_stripped.tar.gz");
    } else {
        let mut m = chars_of("BingoOJ does not have a bundled translation runtime for ");
        push_str(&mut m, os);
        push_str(&mut m, " ");
        push_str(&mut m, arch);
        push_str(&mut m, " yet.");
        return Err(string_of(m));
    }
    assert(r.deep_view() =~= build_suffixes(os@, arch@));
    Ok(r)
}

/// A downloadable file of a runtime release.
pub struct GitHubReleaseAsset {
    pub name: String,
    pub browser_download_url: String,
}

/// The asset is a regular (not free-threaded) runtime of the Python line
/// `version` built for `suffix`.
pub open spec fn asset_fits(name: Seq<char>, version: Seq<char>, suffix: Seq<char>) -> bool {
    starts_with_spec(name, "cpython-"@ + version) && ends_with_spec(name, suffix) && !contains_spec(
        name,
        "freethreaded"@,
    )
}

pub open spec fn fits_at(assets: Seq<GitHubReleaseAsset>, version: Seq<char>, suffix: Seq<char>) -> spec_fn(int) -> bool {
    |i: int| asset_fits(assets[i].name@, version, suffix)
}

/// The first asset that fits `version` and one of `suffixes`, the suffixes tried in order.
pub open spec fn pick_for_version(assets: Seq<GitHubReleaseAsset>, version: Seq<char>, suffixes: Seq<Seq<char>>) -> Option<int>
    decreases suffixes.len(),
{
    if suffixes.len() == 0 {
        None
    } else {
        match first_index_from(fits_at(assets, version, suffixes[0]), 0, assets.len() as int) {
            Some(i) => Some(i),
            None => pick_for_version(assets, version, suffixes.drop_first()),
        }
    }
}

/// The asset to download: the versions are tried in order, and for each the suffixes in order.
pub open spec fn pick_asset(assets: Seq<GitHubReleaseAsset>, versions: Seq<Seq<char>>, suffixes: Seq<Seq<char>>) -> Option<int>
    decreases versions.len(),
{
    if versions.len() == 0 {
        None
    } else {
        match pick_for_version(assets, versions[0], suffixes) {
            Some(i) => Some(i),
            None => pick_asset(assets, versions.drop_first(), suffixes),
        }
    }
}

fn asset_fits_exec(name: &str, version: &str, suffix: &str) -> (r: bool)
    ensures
        r == asset_fits(name@, version@, suffix@),
{
    let n = chars_of(name);
    let mut head = chars_of("cpython-");
    push_str(&mut head, version);
    let tail = chars_of(suffix);
    if !matches_at(&n, &head, 0) {
        return false;
    }
    if tail.len() > n.len() || !matches_at(&n, &tail, n.len() - tail.len()) {
        return false;
    }
    !contains_chars(&n, &chars_of("freethreaded"))
}

fn first_fitting(assets: &Vec<GitHubReleaseAsset>, version: &str, suffix: &str) -> (r: Option<usize>)
    ensures
        match r {
            Some(i) => first_index_from(fits_at(assets@, version@, suffix@), 0, assets@.len() as int) == Some(i as int),
            None => first_index_from(fits_at(assets@, version@, suffix@), 0, assets@.len() as int) is None,
        },
        r is Some ==> r->0 < assets@.len(),
{
    let ghost p = fits_at(assets@, version@, suffix@);
    let mut i: usize = 0;
    while i < assets.len()
        invariant
            i <= assets@.len(),
            p == fits_at(assets@, version@, suffix@),
            first_index_from(p, 0, assets@.len() as int) == first_index_from(p, i as int, assets@.len() as int),
        decreases assets@.len() - i,
    {
        if asset_fits_exec(assets[i].name.as_str(), version, suffix) {
            assert(p(i as int));
            return Some(i);
        }
        i += 1;
    }
    None
}

fn pick_for_version_exec(assets: &Vec<GitHubReleaseAsset>, version: &str, suffixes: &Vec<&'static str>) -> (r: Option<usize>)
    ensures
        match r {
            Some(i) => pick_for_version(assets@, version@, suffixes.deep_view()) == Some(i as int),
            None => pick_for_version(assets@, version@, suffixes.deep_view()) is None,
        },
        r is Some ==> r->0 < assets@.len(),
{
    let ghost all = suffixes.deep_view();
    assert(all.subrange(0, all.len() as int) =~= all);
    let mut k: usize = 0;
    while k < suffixes.len()
        invariant
            k <= suffixes@.len(),
            all == suffixes.deep_view(),
            pick_for_version(assets@, version@, all) == pick_for_version(assets@, version@, all.subrange(k as int, all.len() as int)),
        decreases suffixes@.len() - k,
    {
        let ghost rest = all.subrange(k as int, all.len() as int);
        assert(rest[0] == suffixes[k as int]@);
        assert(rest.drop_first() =~= all.subrange(k + 1, all.len() as int));
        if let Some(i) = first_fitting(assets, version, suffixes[k]) {
            return Some(i);
        }
        k += 1;
    }
    None
}

/// Picks the runtime to download from a release's assets for a platform
/// with archive endings `suffixes`: the preferred Python lines are tried in
/// order, and for each the endings in order; free-threaded builds never count.
pub fn select_python_release_asset(
    assets: &Vec<GitHubReleaseAsset>,
    suffixes: &Vec<&'static str>,
    os: &str,
    arch: &str,
) -> (r: Result<GitHubReleaseAsset, String>)
    ensures
        match pick_asset(assets@, preferred_versions(), suffixes.deep_view()) {
            Some(i) => r is Ok && r->Ok_0.name@ == assets@[i].name@
                && r->Ok_0.browser_download_url@ == assets@[i].browser_download_url@,
            None => r is Err && r->Err_0@ == "No compatible bundled Python runtime was found for "@ + os@ + " "@ + arch@ + "."@,
        },
{
    let versions = preferred_python_build_versions();
    let ghost all = versions.deep_view();
    assert(all.subrange(0, all.len() as int) =~= all);
    let mut k: usize = 0;
    while k < versions.len()
        invariant
            k <= versions@.len(),
            all == versions.deep_view(),
            all == preferred_versions(),
            pick_asset(assets@, all, suffixes.deep_view()) == pick_asset(assets@, all.subrange(k as int, all.len() as int), suffixes.deep_view()),
        decreases versions@.len() - k,
    {
        let ghost rest = all.subrange(k as int, all.len() as int);
        assert(rest[0] == versions[k as int]@);
        assert(rest.drop_first() =~= all.subrange(k + 1, all.len() as int));
        if let Some(i) = pick_for_version_exec(assets, versions[k], suffixes) {
            let a = &assets[i];
            return Ok(GitHubReleaseAsset { name: a.name.clone(), browser_download_url: a.browser_download_url.clone() });
        }
        k += 1;
    }
    let mut m = chars_of("No compatible bundled Python runtime was found for ");
    push_str(&mut m, os);
    push_str(&mut m, " ");
    push_str(&mut m, arch);
    push_str(&mut m, ".");
    Err(string_of(m))
}

/// `Python X.Y`.
pub open spec fn version_label(version: (u8, u8)) -> Seq<char> {
    "Python "@ + decimal_spec(version.0 as nat) + "."@ + decimal_spec(version.1 as nat)
}

/// The interpreters tried so far whose version could be read, as
/// `name (Python X.Y)` lines, in the order they were tried.
pub struct PythonSearch {
    pub detected: Vec<String>,
}

/// The message for a machine without a usable interpreter.
pub open spec fn no_python_message(detected: Seq<Seq<char>>) -> Seq<char> {
    "Chinese statement support currently requires Python 3.8-3.13, but this machine only has: "@
        + (if detected.len() == 0 { "none detected"@ } else { join_with(detected, ", "@) })
        + ". Install a compatible system Python or let BingoOJ provide a bundled translation runtime."@
}

impl PythonSearch {
    /// A search that has tried nothing.
    pub fn new() -> (r: Self)
        ensures
            r.detected@.len() == 0,
    {
        PythonSearch { detected: Vec::new() }
    }

    /// Records what `candidate --version` printed (`None` when it could not
    /// run or failed) and says whether the candidate can run the helper.
    pub fn on_version_output(&mut self, candidate: &str, output: Option<&str>) -> (usable: bool)
        ensures
            match output {
                Some(text) => match python_version_of(text@) {
                    Some(v) => usable == supported_python(v) && final(self).detected.deep_view()
                        == old(self).detected.deep_view().push(candidate@ + " ("@ + version_label(v) + ")"@),
                    None => !usable && final(self).detected.deep_view() == old(self).detected.deep_view(),
                },
                None => !usable && final(self).detected.deep_view() == old(self).detected.deep_view(),
            },
    {
        let text = match output {
            Some(t) => t,
            None => return false,
        };
        let version = match parse_python_version(text) {
            Some(v) => v,
            None => return false,
        };
        let mut line = chars_of(candidate);
        push_str(&mut line, " (");
        push_str(&mut line, format_python_version(version).as_str());
        push_str(&mut line, ")");
        let ghost before = self.detected.deep_view();
        self.detected.push(string_of(line));
        assert(self.detected.deep_view() =~= before.push(candidate@ + " ("@ + version_label(version) + ")"@));
        is_supported_translation_python(version)
    }

    /// The error of a search that found no usable interpreter.
    pub fn failure_message(&self) -> (r: String)
        ensures
            r@ == no_python_message(self.detected.deep_view()),
    {
        let ghost all = self.detected.deep_view();
        let mut m = chars_of("Chinese statement support currently requires Python 3.8-3.13, but this machine only has: ");
        let ghost head = m@;
        if self.detected.len() == 0 {
            push_str(&mut m, "none detected");
        } else {
            let mut k: usize = 0;
            while k < self.detected.len()
                invariant
                    k <= self.detected@.len(),
                    all == self.detected.deep_view(),
                    m@ == head + join_with(all.subrange(0, k as int), ", "@),
                decreases self.detected@.len() - k,
            {
                if k > 0 {
                    push_str(&mut m, ", ");
                }
                push_str(&mut m, self.detected[k].as_str());
                proof {
                    let sub = all.subrange(0, k + 1);
                    assert(sub.drop_last() =~= all.subrange(0, k as int));
                    assert(sub.last() == self.detected[k as int]@);
                    if k == 0 {
                        assert(sub.len() == 1);
                        assert(join_with(all.subrange(0, k as int), ", "@) =~= Seq::<char>::empty());
                    }
                }
                k += 1;
            }
            assert(all.subrange(0, all.len() as int) =~= all);
        }
        push_str(&mut m, ". Install a compatible system Python or let BingoOJ provide a bundled translation runtime.");
        assert(m@ =~= no_python_message(all));
        string_of(m)
    }
}

} // verus!
