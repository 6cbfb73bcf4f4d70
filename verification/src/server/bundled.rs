//! Finding the nats-server binary and reading its version.

use crate::cli::opt_view;
use crate::text::{chars_of, copy_str, is_digit, is_whitespace, is_ws, push_str, string_of};
use vstd::prelude::*;

verus! {

/// Whether `c` separates path components on this platform.
#[verifier::external_body]
fn is_path_separator(c: char) -> (b: bool)
    ensures
        c == '/' ==> b,
{
    std::path::is_separator(c)
}

/// The file name of the nats-server binary on a platform with (`windows`) or
/// without Windows paths.
pub open spec fn binary_filename_text(windows: bool) -> Seq<char> {
    if windows {
        "nats-server.exe"@
    } else {
        "nats-server"@
    }
}

/// The file name of the nats-server binary on a platform with (`windows`) or
/// without Windows paths.
pub fn binary_filename_for(windows: bool) -> (s: &'static str)
    ensures
        s@ == binary_filename_text(windows),
{
    if windows {
        "nats-server.exe"
    } else {
        "nats-server"
    }
}

/// The file name of the nats-server binary on this platform: with an `.exe`
/// suffix where `\` separates paths (Windows), without one elsewhere.
pub fn binary_filename() -> (s: &'static str)
    ensures
        exists|windows: bool| s@ == binary_filename_text(windows),
{
    let windows = is_path_separator('\\');
    let s = binary_filename_for(windows);
    assert(s@ == binary_filename_text(windows));
    s
}

/// `s` with every trailing `suffix` removed, one after the other.
pub open spec fn trim_suffix(s: Seq<char>, suffix: Seq<char>) -> Seq<char>
    decreases s.len(),
{
    if 0 < suffix.len() <= s.len() && s.subrange(s.len() - suffix.len(), s.len() as int)
        == suffix {
        trim_suffix(s.subrange(0, s.len() - suffix.len()), suffix)
    } else {
        s
    }
}

/// Whether `v[..end]` ends with `suffix`.
fn ends_with_at(v: &Vec<char>, end: usize, suffix: &Vec<char>) -> (b: bool)
    requires
        end <= v.len(),
    ensures
        b == (suffix.len() <= end && v@.subrange(end - suffix.len(), end as int) == suffix@),
{
    if suffix.len() > end {
        return false;
    }
    let start = end - suffix.len();
    let mut i: usize = 0;
    while i < suffix.len()
        invariant
            start + suffix.len() == end <= v.len(),
            i <= suffix.len(),
            v@.subrange(start as int, start + i) == suffix@.take(i as int),
        decreases suffix.len() - i,
    {
        if v[start + i] != suffix[i] {
            assert(v@.subrange(start as int, end as int)[i as int] != suffix@[i as int]);
            return false;
        }
        assert(v@.subrange(start as int, start + i + 1) =~= suffix@.take(i + 1));
        i = i + 1;
    }
    assert(suffix@.take(suffix.len() as int) =~= suffix@);
    true
}

/// `s` with every trailing `suffix` removed, one after the other.
pub fn trim_suffix_str(s: &str, suffix: &str) -> (r: String)
    ensures
        r@ == trim_suffix(s@, suffix@),
{
    let v = chars_of(s);
    let suf = chars_of(suffix);
    let mut end = v.len();
    assert(v@.subrange(0, end as int) =~= s@);
    while suf.len() > 0 && ends_with_at(&v, end, &suf)
        invariant
            end <= v.len(),
            v@ == s@,
            suf@ == suffix@,
            trim_suffix(v@.subrange(0, end as int), suf@) == trim_suffix(s@, suffix@),
        decreases end,
    {
        assert(v@.subrange(0, end as int).subrange(0, end - suf.len()) =~= v@.subrange(
            0,
            end - suf.len(),
        ));
        assert(v@.subrange(0, end as int).subrange(end - suf.len(), end as int) =~= v@.subrange(
            end - suf.len(),
            end as int,
        ));
        end = end - suf.len();
    }
    proof {
        let t = v@.subrange(0, end as int);
        if 0 < suf@.len() <= t.len() {
            assert(t.subrange(t.len() - suf@.len(), t.len() as int) =~= v@.subrange(
                end - suf@.len(),
                end as int,
            ));
        }
    }
    string_of(&v, 0, end)
}

/// The name the nats-server binary is looked for on `PATH` by: the
/// platform's file name without its `.exe` suffix.
pub fn system_binary_name() -> (s: String)
    ensures
        s@ == "nats-server"@,
{
    let name = binary_filename();
    let s = trim_suffix_str(name, ".exe");
    proof {
        reveal_strlit("nats-server.exe");
        reveal_strlit("nats-server");
        reveal_strlit(".exe");
        let plain = "nats-server"@;
        let exe = "nats-server.exe"@;
        assert(exe.subrange(11, 15) =~= ".exe"@);
        assert(exe.subrange(0, 11) =~= plain);
        assert(plain.subrange(7, 11) != ".exe"@) by {
            assert(plain.subrange(7, 11)[0] == 'r');
        }
        assert(trim_suffix(plain, ".exe"@) == plain);
        assert(trim_suffix(exe, ".exe"@) == plain);
    }
    s
}

/// Where to look first for a nats-server binary.
#[derive(Debug, Clone, Copy, PartialEq, Eq, Structural)]
pub enum Resolution {
    /// The binary next to the fixture's executable, then `PATH`.
    BundledFirst,
    /// `PATH`, then the binary next to the fixture's executable.
    SystemFirst,
}

/// Why no nats-server binary could be chosen.
#[derive(Debug, Clone)]
pub enum ResolveError {
    /// The binary named on the command line is not a file.
    OverrideMissing(String),
    /// Neither a bundled binary nor one on `PATH` exists.
    NotFound,
}

impl ResolveError {
    /// The human-readable text of the error.
    pub fn message(&self) -> (s: String)
        ensures
            s@ == match self {
                ResolveError::OverrideMissing(p) => "--nats-server '"@ + p@ + "' is not a file"@,
                ResolveError::NotFound => "nats-server binary not found. Bundled binary missing alongside the hyerix-natsfixture executable and no 'nats-server' on PATH."@,
            },
    {
        match self {
            ResolveError::OverrideMissing(p) => {
                let mut s = copy_str("--nats-server '");
                push_str(&mut s, p.as_str());
                push_str(&mut s, "' is not a file");
                s
            },
            ResolveError::NotFound => copy_str(
                "nats-server binary not found. Bundled binary missing alongside the hyerix-natsfixture executable and no 'nats-server' on PATH.",
            ),
        }
    }
}

/// Why no binary could be chosen, as plain values.
pub enum ResolveFailure {
    /// The binary named on the command line is not a file.
    OverrideMissing(Seq<char>),
    /// Neither a bundled binary nor one on `PATH` exists.
    NotFound,
}

impl View for ResolveError {
    type V = ResolveFailure;

    open spec fn view(&self) -> ResolveFailure {
        match self {
            ResolveError::OverrideMissing(p) => ResolveFailure::OverrideMissing(p@),
            ResolveError::NotFound => ResolveFailure::NotFound,
        }
    }
}

/// The binary chosen from what was found: the one named on the command line
/// (`override_path`) when it is a file (`override_is_file`), an error when it
/// is not; without one, the bundled binary and the one on `PATH` (`bundled`,
/// `system`, where found) in the order `strategy` gives.
pub open spec fn resolution(
    override_path: Option<Seq<char>>,
    override_is_file: bool,
    strategy: Resolution,
    bundled: Option<Seq<char>>,
    system: Option<Seq<char>>,
) -> Result<Seq<char>, ResolveFailure> {
    match override_path {
        Some(p) => if override_is_file {
            Ok(p)
        } else {
            Err(ResolveFailure::OverrideMissing(p))
        },
        None => {
            let (first, second) = match strategy {
                Resolution::BundledFirst => (bundled, system),
                Resolution::SystemFirst => (system, bundled),
            };
            match (first, second) {
                (Some(f), _) => Ok(f),
                (None, Some(s)) => Ok(s),
                (None, None) => Err(ResolveFailure::NotFound),
            }
        },
    }
}

/// `r` as plain values.
pub open spec fn resolve_result_view(r: Result<String, ResolveError>) -> Result<
    Seq<char>,
    ResolveFailure,
> {
    match r {
        Ok(b) => Ok(b@),
        Err(e) => Err(e@),
    }
}

/// Chooses the nats-server binary, as `resolution` says.
pub fn resolve(
    override_path: Option<&str>,
    override_is_file: bool,
    strategy: Resolution,
    bundled: Option<String>,
    system: Option<String>,
) -> (r: Result<String, ResolveError>)
    ensures
        resolve_result_view(r) == resolution(
            match override_path {
                Some(p) => Some(p@),
                None => None,
            },
            override_is_file,
            strategy,
            opt_view(bundled),
            opt_view(system),
        ),
{
    if let Some(p) = override_path {
        if !override_is_file {
            return Err(ResolveError::OverrideMissing(copy_str(p)));
        }
        return Ok(copy_str(p));
    }
    let (first, second) = match strategy {
        Resolution::BundledFirst => (bundled, system),
        Resolution::SystemFirst => (system, bundled),
    };
    match first {
        Some(f) => Ok(f),
        None => match second {
            Some(s) => Ok(s),
            None => Err(ResolveError::NotFound),
        },
    }
}

/// The end of the run of non-whitespace characters of `s` that starts at `i`.
pub open spec fn token_end(s: Seq<char>, i: int) -> int
    decreases s.len() - i,
{
    if 0 <= i < s.len() && !is_ws(s[i]) {
        token_end(s, i + 1)
    } else {
        i
    }
}

/// A word starting at a non-whitespace character is not empty.
pub proof fn lemma_token_end(s: Seq<char>, i: int)
    requires
        0 <= i <= s.len(),
    ensures
        i <= token_end(s, i) <= s.len(),
        i < s.len() && !is_ws(s[i]) ==> i < token_end(s, i),
    decreases s.len() - i,
{
    if i < s.len() && !is_ws(s[i]) {
        lemma_token_end(s, i + 1);
    }
}

/// `t` without its leading `v` characters.
pub open spec fn strip_leading_v(t: Seq<char>) -> Seq<char>
    decreases t.len(),
{
    if t.len() > 0 && t[0] == 'v' {
        strip_leading_v(t.drop_first())
    } else {
        t
    }
}

/// `t` without its trailing `,` and `.` characters.
pub open spec fn strip_trailing_punct(t: Seq<char>) -> Seq<char>
    decreases t.len(),
{
    if t.len() > 0 && (t.last() == ',' || t.last() == '.') {
        strip_trailing_punct(t.drop_last())
    } else {
        t
    }
}

/// A version number: it starts with a digit, holds a `.`, and holds only
/// digits, `.` and `-`.
pub open spec fn is_version_text(c: Seq<char>) -> bool {
    &&& c.len() > 0
    &&& is_digit(c[0])
    &&& exists|k: int| 0 <= k < c.len() && c[k] == '.'
    &&& forall|k: int| 0 <= k < c.len() ==> is_digit(#[trigger] c[k]) || c[k] == '.' || c[k] == '-'
}

/// The first version number among the whitespace-separated words of `s` at or
/// after position `i`, each word taken without leading `v`s and trailing `,`
/// and `.`s.
pub open spec fn version_from(s: Seq<char>, i: int) -> Option<Seq<char>>
    decreases s.len() - i,
{
    if i < 0 || i >= s.len() {
        None
    } else if is_ws(s[i]) {
        version_from(s, i + 1)
    } else {
        let e = token_end(s, i);
        let c = strip_trailing_punct(strip_leading_v(s.subrange(i, e)));
        if is_version_text(c) {
            Some(c)
        } else {
            proof {
                lemma_token_end(s, i);
            }
            version_from(s, e)
        }
    }
}

/// The range `a..b` of `v[lo..hi]` left after removing leading `v`s and
/// trailing `,` and `.`s.
fn version_range(v: &Vec<char>, lo: usize, hi: usize) -> (r: (usize, usize))
    requires
        lo <= hi <= v.len(),
    ensures
        lo <= r.0 <= r.1 <= hi,
        v@.subrange(r.0 as int, r.1 as int) == strip_trailing_punct(
            strip_leading_v(v@.subrange(lo as int, hi as int)),
        ),
{
    let mut a = lo;
    while a < hi && v[a] == 'v'
        invariant
            lo <= a <= hi <= v.len(),
            strip_leading_v(v@.subrange(lo as int, hi as int)) == strip_leading_v(
                v@.subrange(a as int, hi as int),
            ),
        decreases hi - a,
    {
        assert(v@.subrange(a as int, hi as int).drop_first() =~= v@.subrange(a + 1, hi as int));
        a = a + 1;
    }
    assert(strip_leading_v(v@.subrange(lo as int, hi as int)) == v@.subrange(a as int, hi as int));
    let mut b = hi;
    while b > a && (v[b - 1] == ',' || v[b - 1] == '.')
        invariant
            lo <= a <= b <= hi <= v.len(),
            strip_trailing_punct(v@.subrange(a as int, hi as int)) == strip_trailing_punct(
                v@.subrange(a as int, b as int),
            ),
        decreases b - a,
    {
        assert(v@.subrange(a as int, b as int).drop_last() =~= v@.subrange(a as int, b - 1));
        b = b - 1;
    }
    (a, b)
}

/// Whether `v[a..b]` is a version number.
fn is_version_range(v: &Vec<char>, a: usize, b: usize) -> (ok: bool)
    requires
        a <= b <= v.len(),
    ensures
        ok == is_version_text(v@.subrange(a as int, b as int)),
{
    let ghost c = v@.subrange(a as int, b as int);
    if a == b {
        return false;
    }
    if !('0' <= v[a] && v[a] <= '9') {
        assert(c[0] == v@[a as int]);
        return false;
    }
    let mut has_dot = false;
    let mut i = a;
    while i < b
        invariant
            a <= i <= b <= v.len(),
            c == v@.subrange(a as int, b as int),
            has_dot == exists|k: int| 0 <= k < i - a && c[k] == '.',
            forall|k: int| 0 <= k < i - a ==> is_digit(#[trigger] c[k]) || c[k] == '.' || c[k] == '-',
        decreases b - i,
    {
        let ch = v[i];
        assert(c[i - a] == ch);
        if !(('0' <= ch && ch <= '9') || ch == '.' || ch == '-') {
            return false;
        }
        if ch == '.' {
            has_dot = true;
        }
        i = i + 1;
    }
    assert(c[0] == v@[a as int]);
    has_dot
}

/// The version number that `nats-server --version` prints: the first
/// whitespace-separated word of `s` that is a version number once its leading
/// `v`s and trailing `,` and `.`s are removed. (Line breaks are whitespace, so
/// reading line by line gives the same words in the same order.)
pub fn parse_version_line(s: &str) -> (r: Option<String>)
    ensures
        match version_from(s@, 0) {
            Some(ver) => r matches Some(x) && x@ == ver,
            None => r is None,
        },
{
    let v = chars_of(s);
    let n = v.len();
    let mut i: usize = 0;
    while i < n
        invariant
            n == v@.len(),
            v@ == s@,
            i <= n,
            version_from(v@, 0) == version_from(v@, i as int),
        decreases n - i,
    {
        if is_whitespace(v[i]) {
            i = i + 1;
        } else {
            let mut e = i;
            while e < n && !is_whitespace(v[e])
                invariant
                    n == v@.len(),
                    i <= e <= n,
                    token_end(v@, i as int) == token_end(v@, e as int),
                decreases n - e,
            {
                e = e + 1;
            }
            proof {
                lemma_token_end(v@, i as int);
            }
            let (a, b) = version_range(&v, i, e);
            if is_version_range(&v, a, b) {
                return Some(string_of(&v, a, b));
            }
            i = e;
        }
    }
    None
}

} // verus!
