//! Crates named on the command line: `name` or `name@version`.

use crate::cells::{semver_parse, semver_version_parse, string_from_chars};
use crate::row_reader::StoredVersion;
use crate::text::{chars_of, decimal, push_char, push_str, u64_to_decimal};
use vstd::prelude::*;

verus! {

/// A crate identifier: a name and, optionally, a version.
#[derive(Debug, Clone, PartialEq, Eq, Hash)]
pub struct CrateRef {
    name: String,
    version: Option<StoredVersion>,
}

/// The position of the first `c` in `s`, if `s` holds one.
pub open spec fn first_index_of(s: Seq<char>, c: char) -> Option<int>
    decreases s.len(),
{
    if s.len() == 0 {
        None
    } else if s[0] == c {
        Some(0)
    } else {
        match first_index_of(s.drop_first(), c) {
            Some(i) => Some(i + 1),
            None => None,
        }
    }
}

/// A version as `semver` displays it: `major.minor.patch`, then `-pre` and
/// `+build` where those texts are not empty.
pub open spec fn version_text(v: (u64, u64, u64, Seq<char>, Seq<char>)) -> Seq<char> {
    decimal(v.0 as nat) + seq!['.'] + decimal(v.1 as nat) + seq!['.'] + decimal(v.2 as nat)
        + (if v.3.len() == 0 { Seq::empty() } else { seq!['-'] + v.3 })
        + (if v.4.len() == 0 { Seq::empty() } else { seq!['+'] + v.4 })
}

/// The parts of an optional version.
pub open spec fn version_view(v: Option<StoredVersion>) -> Option<(u64, u64, u64, Seq<char>, Seq<char>)> {
    match v {
        Some(v) => Some(v.parts()),
        None => None,
    }
}

/// The message for a version that does not parse.
pub open spec fn invalid_version_message(version: Seq<char>, spec: Seq<char>) -> Seq<char> {
    "invalid version '"@ + version + "' in crate specifier '"@ + spec + "': "@
        + semver_parse(version)->Err_0
}

/// What a crate specifier reads as: the text before the first `@` is the
/// name and the text after it a version, which must parse; without `@` the
/// whole text is the name.
pub open spec fn crate_ref_of(s: Seq<char>) -> Result<(Seq<char>, Option<(u64, u64, u64, Seq<char>, Seq<char>)>), Seq<char>> {
    match first_index_of(s, '@') {
        None => Ok((s, None)),
        Some(i) => {
            let v = s.subrange(i + 1, s.len() as int);
            match semver_parse(v) {
                Ok(parts) => Ok((s.subrange(0, i), Some(parts))),
                Err(_) => Err(invalid_version_message(v, s)),
            }
        },
    }
}

/// A version as `semver` displays it (see `version_text`).
pub fn format_version(v: &StoredVersion) -> (r: String)
    ensures
        r@ == version_text(v.parts()),
{
    let mut r = u64_to_decimal(v.major);
    push_char(&mut r, '.');
    let minor = u64_to_decimal(v.minor);
    push_str(&mut r, minor.as_str());
    push_char(&mut r, '.');
    let patch = u64_to_decimal(v.patch);
    push_str(&mut r, patch.as_str());
    if !v.pre.as_str().is_empty() {
        push_char(&mut r, '-');
        push_str(&mut r, v.pre.as_str());
    }
    if !v.build.as_str().is_empty() {
        push_char(&mut r, '+');
        push_str(&mut r, v.build.as_str());
    }
    assert(r@ =~= version_text(v.parts()));
    r
}

impl View for CrateRef {
    type V = (Seq<char>, Option<(u64, u64, u64, Seq<char>, Seq<char>)>);

    closed spec fn view(&self) -> Self::V {
        (self.name@, version_view(self.version))
    }
}

/// The text of a crate reference: its name, then `@` and the version if it
/// has one.
pub open spec fn crate_ref_text(c: (Seq<char>, Option<(u64, u64, u64, Seq<char>, Seq<char>)>)) -> Seq<char> {
    match c.1 {
        Some(v) => c.0 + seq!['@'] + version_text(v),
        None => c.0,
    }
}

impl CrateRef {
    /// A crate reference with the given name and optional version.
    pub fn new(name: &str, version: Option<StoredVersion>) -> (r: CrateRef)
        ensures
            r@ == (name@, version_view(version)),
    {
        CrateRef { name: name.to_owned(), version }
    }

    /// The crate's name.
    pub fn name(&self) -> (r: &str)
        ensures
            r@ == self@.0,
    {
        self.name.as_str()
    }

    /// The crate's version, if one was given.
    pub fn version(&self) -> (r: Option<&StoredVersion>)
        ensures
            match r {
                Some(v) => self@.1 == Some(v.parts()),
                None => self@.1 is None,
            },
    {
        match &self.version {
            Some(v) => Some(v),
            None => None,
        }
    }

    /// Reads `name` or `name@version`; a version that `semver` does not
    /// accept is an error that names it and the whole specifier.
    pub fn from_str(s: &str) -> (r: Result<CrateRef, String>)
        ensures
            match crate_ref_of(s@) {
                Ok(c) => r matches Ok(v) && v@ == c,
                Err(e) => r matches Err(m) && m@ == e,
            },
    {
        let chars = chars_of(s);
        let mut i: usize = 0;
        while i < chars.len()
            invariant
                i <= chars.len(),
                chars@ == s@,
                forall|k: int| 0 <= k < i ==> chars@[k] != '@',
            ensures
                i <= chars.len(),
                chars@ == s@,
                forall|k: int| 0 <= k < i ==> chars@[k] != '@',
                i < chars.len() ==> chars@[i as int] == '@',
            decreases chars.len() - i,
        {
            if chars[i] == '@' {
                break;
            }
            i = i + 1;
        }
        proof { lemma_first_index_of(s@, '@', i as int); }
        if i == chars.len() {
            return Ok(CrateRef { name: s.to_owned(), version: None });
        }
        let name = string_from_chars(vstd::slice::slice_subrange(chars.as_slice(), 0, i));
        proof {
            assert(chars@.subrange(0, i as int) == s@.subrange(0, i as int));
        }
        let version_text = string_from_chars(vstd::slice::slice_subrange(chars.as_slice(), i + 1, chars.len()));
        proof {
            assert(chars@.subrange(i + 1, chars.len() as int) == s@.subrange(i + 1, s@.len() as int));
        }
        match semver_version_parse(version_text.as_str()) {
            Ok((major, minor, patch, pre, build)) => {
                let version = StoredVersion { major, minor, patch, pre, build };
                Ok(CrateRef { name, version: Some(version) })
            },
            Err(e) => {
                let mut m = String::new();
                push_str(&mut m, "invalid version '");
                push_str(&mut m, version_text.as_str());
                push_str(&mut m, "' in crate specifier '");
                push_str(&mut m, s);
                push_str(&mut m, "': ");
                push_str(&mut m, e.as_str());
                Err(m)
            },
        }
    }

    /// The text of the reference: `name`, or `name@version` with the version
    /// as `semver` displays it.
    pub fn to_text(&self) -> (r: String)
        ensures
            r@ == crate_ref_text(self@),
    {
        let mut r = String::new();
        push_str(&mut r, self.name.as_str());
        match &self.version {
            Some(v) => {
                push_char(&mut r, '@');
                let text = format_version(v);
                push_str(&mut r, text.as_str());
                assert(r@ =~= crate_ref_text(self@));
            },
            None => {},
        }
        r
    }
}

/// A position before which `s` holds no `c` and at which it holds `c` (or
/// its end) is the first position of `c`.
pub(crate) proof fn lemma_first_index_of(s: Seq<char>, c: char, i: int)
    requires
        0 <= i <= s.len(),
        forall|k: int| 0 <= k < i ==> s[k] != c,
        i < s.len() ==> s[i] == c,
    ensures
        first_index_of(s, c) == (if i < s.len() { Some(i) } else { None::<int> }),
    decreases s.len(),
{
    if s.len() > 0 && i > 0 {
        assert forall|k: int| 0 <= k < i - 1 implies s.drop_first()[k] != c by {
            assert(s.drop_first()[k] == s[k + 1]);
        }
        lemma_first_index_of(s.drop_first(), c, i - 1);
    }
}

} // verus!
