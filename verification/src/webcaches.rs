use crate::error::Error;
use vstd::prelude::*;
use vstd::string::{StrSliceExecFns, StringExecFns};

verus! {

/// A version-named cache subdirectory: `major.minor.patch` with an
/// optional fourth `build` component, every component an unsigned 8-bit
/// decimal number.
#[derive(Debug, Clone, Copy, PartialEq, Eq)]
pub struct WebCachesVersion {
    pub major: u8,
    pub minor: u8,
    pub patch: u8,
    pub build: Option<u8>,
}

pub open spec fn spec_is_digit(c: char) -> bool {
    48 <= c as u32 <= 57
}

pub open spec fn spec_digit_val(c: char) -> int {
    c as u32 - 48
}

/// The decimal value of a digit string.
pub open spec fn spec_digits_value(s: Seq<char>) -> int
    decreases s.len(),
{
    if s.len() == 0 {
        0
    } else {
        spec_digits_value(s.drop_last()) * 10 + spec_digit_val(s.last())
    }
}

/// A valid version component: one or more digits whose value fits in `u8`.
pub open spec fn spec_component_ok(s: Seq<char>) -> bool {
    &&& s.len() > 0
    &&& forall|i: int| 0 <= i < s.len() ==> spec_is_digit(s[i])
    &&& spec_digits_value(s) <= 255
}

/// The position of the first `'.'` at or after `from`; the length when
/// there is none.
pub open spec fn spec_find_dot_from(s: Seq<char>, from: int) -> int
    decreases s.len() - from,
{
    if from < 0 || from >= s.len() {
        s.len() as int
    } else if s[from] == '.' {
        from
    } else {
        spec_find_dot_from(s, from + 1)
    }
}

proof fn lemma_digits_value_nonneg(s: Seq<char>)
    requires
        forall|i: int| 0 <= i < s.len() ==> spec_is_digit(s[i]),
    ensures
        spec_digits_value(s) >= 0,
    decreases s.len(),
{
    if s.len() > 0 {
        lemma_digits_value_nonneg(s.drop_last());
    }
}

/// A digit string is worth at least any of its prefixes.
proof fn lemma_digits_value_monotone(s: Seq<char>, k: int)
    requires
        forall|i: int| 0 <= i < s.len() ==> spec_is_digit(s[i]),
        0 <= k <= s.len(),
    ensures
        spec_digits_value(s.take(k)) <= spec_digits_value(s),
    decreases s.len() - k,
{
    if k < s.len() {
        assert(s.take(k + 1).drop_last() =~= s.take(k));
        assert(forall|i: int|
            0 <= i < s.take(k + 1).len() ==> spec_is_digit(#[trigger] s.take(k + 1)[i]));
        lemma_digits_value_nonneg(s.take(k));
        assert(spec_digits_value(s.take(k + 1)) == spec_digits_value(s.take(k)) * 10
            + spec_digit_val(s.take(k + 1).last()));
        assert(spec_digits_value(s.take(k)) <= spec_digits_value(s.take(k + 1)));
        lemma_digits_value_monotone(s, k + 1);
        assert(s.take(s.len() as int) =~= s);
    } else {
        assert(s.take(k) =~= s);
    }
}

/// How a version-directory name reads: three or four dot-separated
/// components, each a decimal `u8`; anything else is no version name.
pub open spec fn spec_parse_version(s: Seq<char>) -> Option<WebCachesVersion> {
    let i1 = spec_find_dot_from(s, 0);
    let i2 = spec_find_dot_from(s, i1 + 1);
    let i3 = spec_find_dot_from(s, i2 + 1);
    if i1 == s.len() || i2 == s.len() {
        None
    } else if i3 == s.len() {
        if spec_component_ok(s.subrange(0, i1)) && spec_component_ok(s.subrange(i1 + 1, i2))
            && spec_component_ok(s.subrange(i2 + 1, s.len() as int)) {
            Some(
                WebCachesVersion {
                    major: spec_digits_value(s.subrange(0, i1)) as u8,
                    minor: spec_digits_value(s.subrange(i1 + 1, i2)) as u8,
                    patch: spec_digits_value(s.subrange(i2 + 1, s.len() as int)) as u8,
                    build: None,
                },
            )
        } else {
            None
        }
    } else {
        let i4 = spec_find_dot_from(s, i3 + 1);
        if i4 != s.len() {
            None
        } else if spec_component_ok(s.subrange(0, i1)) && spec_component_ok(
            s.subrange(i1 + 1, i2),
        ) && spec_component_ok(s.subrange(i2 + 1, i3)) && spec_component_ok(
            s.subrange(i3 + 1, s.len() as int),
        ) {
            Some(
                WebCachesVersion {
                    major: spec_digits_value(s.subrange(0, i1)) as u8,
                    minor: spec_digits_value(s.subrange(i1 + 1, i2)) as u8,
                    patch: spec_digits_value(s.subrange(i2 + 1, i3)) as u8,
                    build: Some(spec_digits_value(s.subrange(i3 + 1, s.len() as int)) as u8),
                },
            )
        } else {
            None
        }
    }
}

/// The characters of a string, one by one.
fn str_chars(s: &str) -> (r: Vec<char>)
    ensures
        r@ == s@,
{
    let n = s.unicode_len();
    let mut r: Vec<char> = Vec::new();
    let mut i: usize = 0;
    while i < n
        invariant
            n == s@.len(),
            i <= n,
            r@ == s@.take(i as int),
        decreases n - i,
    {
        r.push(s.get_char(i));
        proof {
            assert(r@ =~= s@.take(i + 1));
        }
        i += 1;
    }
    proof {
        assert(s@.take(n as int) =~= s@);
    }
    r
}

/// The position of the first dot at or after `from`.
fn find_dot_from(v: &Vec<char>, from: usize) -> (r: usize)
    ensures
        r as int == spec_find_dot_from(v@, from as int),
        from <= r <= v.len() || (r == v.len() && from > v.len()),
    decreases v.len() - from,
{
    let mut k: usize = from;
    while k < v.len()
        invariant
            from <= k,
            spec_find_dot_from(v@, from as int) == spec_find_dot_from(v@, k as int),
        decreases v.len() - k,
    {
        if v[k] == '.' {
            return k;
        }
        k += 1;
    }
    v.len()
}

/// Reads one version component out of `v[from..to]`: its value when the
/// window is a pure decimal number fitting a `u8`, nothing otherwise.
fn parse_component(v: &Vec<char>, from: usize, to: usize) -> (r: Option<u8>)
    requires
        from <= to <= v.len(),
    ensures
        match r {
            Some(x) => spec_component_ok(v@.subrange(from as int, to as int)) && x
                == spec_digits_value(v@.subrange(from as int, to as int)),
            None => !spec_component_ok(v@.subrange(from as int, to as int)),
        },
{
    let ghost w = v@.subrange(from as int, to as int);
    if from == to {
        return None;
    }
    let mut acc: u32 = 0;
    let mut k: usize = from;
    while k < to
        invariant
            from <= k <= to <= v.len(),
            w == v@.subrange(from as int, to as int),
            forall|i: int| 0 <= i < k - from ==> spec_is_digit(w[i]),
            acc <= 255,
            acc == spec_digits_value(w.take(k - from)),
        decreases to - k,
    {
        let c = v[k];
        let cv = c as u32;
        if cv < 48 || cv > 57 {
            assert(!spec_is_digit(w[k - from]));
            return None;
        }
        let d = cv - 48;
        proof {
            assert(w.take(k - from + 1).drop_last() =~= w.take(k - from));
            assert(w.take(k - from + 1).last() == w[k - from]);
        }
        if acc > 25 || acc * 10 + d > 255 {
            proof {
                if forall|i: int| 0 <= i < w.len() ==> spec_is_digit(w[i]) {
                    lemma_digits_value_monotone(w, k - from + 1);
                }
            }
            return None;
        }
        acc = acc * 10 + d;
        k += 1;
    }
    proof {
        assert(w.take(to - from) =~= w);
    }
    Some(acc as u8)
}

impl WebCachesVersion {
    /// Reads a version out of a directory name: `major.minor.patch` or
    /// `major.minor.patch.build`, each component a decimal `u8`. A name of
    /// any other shape is a `CacheNotFound` error.
    pub fn parse(s: &str) -> (r: Result<WebCachesVersion, Error>)
        ensures
            match r {
                Ok(v) => spec_parse_version(s@) == Some(v),
                Err(e) => e == Error::CacheNotFound && spec_parse_version(s@) is None,
            },
    {
        let v = str_chars(s);
        let n = v.len();
        let i1 = find_dot_from(&v, 0);
        if i1 == n {
            return Err(Error::CacheNotFound);
        }
        let i2 = find_dot_from(&v, i1 + 1);
        if i2 == n {
            return Err(Error::CacheNotFound);
        }
        let i3 = find_dot_from(&v, i2 + 1);
        if i3 == n {
            let major = parse_component(&v, 0, i1);
            let minor = parse_component(&v, i1 + 1, i2);
            let patch = parse_component(&v, i2 + 1, n);
            match (major, minor, patch) {
                (Some(major), Some(minor), Some(patch)) => Ok(
                    WebCachesVersion { major, minor, patch, build: None },
                ),
                _ => Err(Error::CacheNotFound),
            }
        } else {
            let i4 = find_dot_from(&v, i3 + 1);
            if i4 != n {
                return Err(Error::CacheNotFound);
            }
            let major = parse_component(&v, 0, i1);
            let minor = parse_component(&v, i1 + 1, i2);
            let patch = parse_component(&v, i2 + 1, i3);
            let build = parse_component(&v, i3 + 1, n);
            match (major, minor, patch, build) {
                (Some(major), Some(minor), Some(patch), Some(build)) => Ok(
                    WebCachesVersion { major, minor, patch, build: Some(build) },
                ),
                _ => Err(Error::CacheNotFound),
            }
        }
    }
}

pub open spec fn spec_digit_char(d: int) -> char {
    if d == 0 {
        '0'
    } else if d == 1 {
        '1'
    } else if d == 2 {
        '2'
    } else if d == 3 {
        '3'
    } else if d == 4 {
        '4'
    } else if d == 5 {
        '5'
    } else if d == 6 {
        '6'
    } else if d == 7 {
        '7'
    } else if d == 8 {
        '8'
    } else {
        '9'
    }
}

/// The decimal spelling of a non-negative number.
pub open spec fn spec_dec_chars(n: int) -> Seq<char>
    decreases n,
{
    if n < 10 {
        seq![spec_digit_char(n)]
    } else {
        spec_dec_chars(n / 10).push(spec_digit_char(n % 10))
    }
}

fn digit_str(d: u8) -> (r: &'static str)
    requires
        d < 10,
    ensures
        r@ == seq![spec_digit_char(d as int)],
{
    if d == 0 {
        proof {
            reveal_strlit("0");
        }
        "0"
    } else if d == 1 {
        proof {
            reveal_strlit("1");
        }
        "1"
    } else if d == 2 {
        proof {
            reveal_strlit("2");
        }
        "2"
    } else if d == 3 {
        proof {
            reveal_strlit("3");
        }
        "3"
    } else if d == 4 {
        proof {
            reveal_strlit("4");
        }
        "4"
    } else if d == 5 {
        proof {
            reveal_strlit("5");
        }
        "5"
    } else if d == 6 {
        proof {
            reveal_strlit("6");
        }
        "6"
    } else if d == 7 {
        proof {
            reveal_strlit("7");
        }
        "7"
    } else if d == 8 {
        proof {
            reveal_strlit("8");
        }
        "8"
    } else {
        proof {
            reveal_strlit("9");
        }
        "9"
    }
}

/// Appends the decimal spelling of `n`.
fn push_decimal(s: &mut String, n: u8)
    ensures
        final(s)@ == old(s)@ + spec_dec_chars(n as int),
    decreases n,
{
    if n >= 10 {
        push_decimal(s, n / 10);
        let d = digit_str(n % 10);
        s.append(d);
        proof {
            assert(final(s)@ =~= old(s)@ + spec_dec_chars(n as int));
        }
    } else {
        let d = digit_str(n);
        s.append(d);
        proof {
            assert(final(s)@ =~= old(s)@ + spec_dec_chars(n as int));
        }
    }
}

/// How a version spells itself: `major.minor.patch`, with `.build` when a
/// build component is there.
pub open spec fn spec_version_chars(v: WebCachesVersion) -> Seq<char> {
    let base = spec_dec_chars(v.major as int) + seq!['.'] + spec_dec_chars(v.minor as int)
        + seq!['.'] + spec_dec_chars(v.patch as int);
    match v.build {
        Some(b) => base + seq!['.'] + spec_dec_chars(b as int),
        None => base,
    }
}

impl WebCachesVersion {
    /// The version's directory name, `major.minor.patch` or
    /// `major.minor.patch.build`.
    pub fn version(&self) -> (r: String)
        ensures
            r@ == spec_version_chars(*self),
    {
        proof {
            reveal_strlit(".");
        }
        let mut s = String::new();
        push_decimal(&mut s, self.major);
        s.append(".");
        push_decimal(&mut s, self.minor);
        s.append(".");
        push_decimal(&mut s, self.patch);
        match self.build {
            Some(b) => {
                s.append(".");
                push_decimal(&mut s, b);
                proof {
                    assert(s@ =~= spec_version_chars(*self));
                }
            },
            None => {
                proof {
                    assert(s@ =~= spec_version_chars(*self));
                }
            },
        }
        s
    }

    /// Version order: by major, then minor, then patch, then build, a
    /// missing build coming before any present one.
    pub open spec fn spec_le(self, other: WebCachesVersion) -> bool {
        if self.major != other.major {
            self.major < other.major
        } else if self.minor != other.minor {
            self.minor < other.minor
        } else if self.patch != other.patch {
            self.patch < other.patch
        } else {
            match (self.build, other.build) {
                (None, _) => true,
                (Some(_), None) => false,
                (Some(a), Some(b)) => a <= b,
            }
        }
    }

    pub fn le(&self, other: &WebCachesVersion) -> (r: bool)
        ensures
            r == self.spec_le(*other),
    {
        if self.major != other.major {
            self.major < other.major
        } else if self.minor != other.minor {
            self.minor < other.minor
        } else if self.patch != other.patch {
            self.patch < other.patch
        } else {
            match (self.build, other.build) {
                (None, _) => true,
                (Some(_), None) => false,
                (Some(a), Some(b)) => a <= b,
            }
        }
    }
}

/// Picks the greatest version among the directory names that read as
/// versions. No name reading as a version is a `CacheNotFound` error: the
/// caller learns that no usable versioned cache directory exists.
pub fn select_latest_version(names: &Vec<String>) -> (r: Result<WebCachesVersion, Error>)
    ensures
        match r {
            Ok(v) => (exists|i: int|
                0 <= i < names@.len() && spec_parse_version(names@[i]@) == Some(v)) && forall|i: int|
                0 <= i < names@.len() ==> ((#[trigger] spec_parse_version(
                    names@[i]@,
                )) matches Some(w) ==> w.spec_le(v)),
            Err(e) => e == Error::CacheNotFound && forall|i: int|
                0 <= i < names@.len() ==> spec_parse_version(#[trigger] names@[i]@) is None,
        },
{
    let mut best: Option<WebCachesVersion> = None;
    let ghost mut best_at: int = 0;
    let mut i: usize = 0;
    while i < names.len()
        invariant
            i <= names.len(),
            match best {
                Some(v) => {
                    &&& 0 <= best_at < i
                    &&& spec_parse_version(names@[best_at]@) == Some(v)
                    &&& forall|k: int|
                        0 <= k < i ==> ((#[trigger] spec_parse_version(
                            names@[k]@,
                        )) matches Some(w) ==> w.spec_le(v))
                },
                None => forall|k: int|
                    0 <= k < i ==> spec_parse_version(#[trigger] names@[k]@) is None,
            },
        decreases names.len() - i,
    {
        match WebCachesVersion::parse(names[i].as_str()) {
            Ok(v) => {
                match &best {
                    Some(b) => {
                        if b.le(&v) {
                            best = Some(v);
                            proof {
                                best_at = i as int;
                            }
                        } else {
                            proof {
                                assert(v.spec_le(*b));
                            }
                        }
                    },
                    None => {
                        best = Some(v);
                        proof {
                            best_at = i as int;
                        }
                    },
                }
            },
            Err(_) => {},
        }
        i += 1;
    }
    match best {
        Some(v) => Ok(v),
        None => Err(Error::CacheNotFound),
    }
}

} // verus!
