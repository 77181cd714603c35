//! Path reasoning on plain strings: base names, extensions, containment of a
//! path inside the managed destination directory, and the safety test that
//! keeps archive entries from escaping their extraction directory.
//!
//! Paths are `/`-separated strings; no filesystem is consulted.

use vstd::prelude::*;
use crate::strutil::{spec_rfind_char, lemma_rfind_char_bounds, rfind_char, str_eq};

verus! {

/// The part of `p` after its last `/`; `p` itself when it has none.
pub open spec fn spec_basename(p: Seq<char>) -> Seq<char> {
    p.subrange(spec_rfind_char(p, '/') + 1, p.len() as int)
}

/// The part of `p` before its last `/`; empty when it has none.
pub open spec fn spec_parent(p: Seq<char>) -> Seq<char> {
    if spec_rfind_char(p, '/') >= 0 {
        p.subrange(0, spec_rfind_char(p, '/'))
    } else {
        Seq::empty()
    }
}

/// The extension of a file name: what follows the last `.`, provided that dot
/// is not the leading character. `None` for names such as `README` or
/// `.bashrc`.
pub open spec fn spec_extension(name: Seq<char>) -> Option<Seq<char>> {
    let d = spec_rfind_char(name, '.');
    if d <= 0 {
        None
    } else {
        Some(name.subrange(d + 1, name.len() as int))
    }
}

/// The stem of a file name: the name without its extension.
pub open spec fn spec_stem(name: Seq<char>) -> Seq<char> {
    let d = spec_rfind_char(name, '.');
    if d <= 0 {
        name
    } else {
        name.subrange(0, d)
    }
}

/// The base name of `p` (what follows the last `/`).
pub fn basename(p: &str) -> (r: &str)
    ensures
        r@ == spec_basename(p@),
{
    proof {
        lemma_rfind_char_bounds(p@, '/');
    }
    let n = p.unicode_len();
    match rfind_char(p, '/') {
        Some(i) => p.substring_char(i + 1, n),
        None => {
            proof {
                assert(p@.subrange(0, p@.len() as int) =~= p@);
            }
            p
        },
    }
}

/// The parent of `p` (what precedes the last `/`; empty when there is none).
pub fn parent_of(p: &str) -> (r: &str)
    ensures
        r@ == spec_parent(p@),
{
    proof {
        lemma_rfind_char_bounds(p@, '/');
    }
    match rfind_char(p, '/') {
        Some(i) => p.substring_char(0, i),
        None => {
            let r = p.substring_char(0, 0);
            proof {
                assert(r@ =~= Seq::<char>::empty());
            }
            r
        },
    }
}

/// The extension of the file name `name`, when it has one.
pub fn extension_of(name: &str) -> (r: Option<&str>)
    ensures
        r matches Some(e) ==> spec_extension(name@) == Some(e@),
        r is None ==> spec_extension(name@) is None,
{
    proof {
        lemma_rfind_char_bounds(name@, '.');
    }
    let n = name.unicode_len();
    match rfind_char(name, '.') {
        Some(i) if i > 0 => Some(name.substring_char(i + 1, n)),
        _ => None,
    }
}

/// The stem of the file name `name`.
pub fn stem_of(name: &str) -> (r: &str)
    ensures
        r@ == spec_stem(name@),
{
    proof {
        lemma_rfind_char_bounds(name@, '.');
    }
    match rfind_char(name, '.') {
        Some(i) if i > 0 => name.substring_char(0, i),
        _ => name,
    }
}

/// Whether some `/`-delimited component of `p` is exactly `..`.
pub open spec fn has_dotdot_component(p: Seq<char>) -> bool {
    exists|i: int|
        0 <= i && i + 2 <= p.len() && #[trigger] p[i] == '.' && p[i + 1] == '.' && (i == 0 || p[i
            - 1] == '/') && (i + 2 == p.len() || p[i + 2] == '/')
}

/// A safe relative path: non-empty, relative, free of `..` components and of
/// characters that would address another filesystem root. Only entries whose
/// names pass this test may be written below an extraction directory.
pub open spec fn spec_safe_relative_path(p: Seq<char>) -> bool {
    &&& p.len() > 0
    &&& p[0] != '/'
    &&& !has_dotdot_component(p)
    &&& forall|i: int| 0 <= i < p.len() ==> p[i] != '\\' && p[i] != ':' && p[i] != '\u{0}'
}

/// Decides `spec_safe_relative_path(p@)`.
pub fn is_safe_relative_path(p: &str) -> (r: bool)
    ensures
        r == spec_safe_relative_path(p@),
{
    let n = p.unicode_len();
    if n == 0 {
        return false;
    }
    if p.get_char(0) == '/' {
        return false;
    }
    let mut i: usize = 0;
    while i < n
        invariant
            0 <= i <= n,
            n == p@.len(),
            forall|j: int| 0 <= j < i ==> p@[j] != '\\' && p@[j] != ':' && p@[j] != '\u{0}',
            forall|k: int|
                0 <= k && k + 2 <= p@.len() && k < i ==> !(#[trigger] p@[k] == '.' && p@[k + 1] == '.' && (k
                    == 0 || p@[k - 1] == '/') && (k + 2 == p@.len() || p@[k + 2] == '/')),
        decreases n - i,
    {
        let c = p.get_char(i);
        if c == '\\' || c == ':' || c == '\u{0}' {
            return false;
        }
        if c == '.' && n - i >= 2 {
            if p.get_char(i + 1) == '.' && (i == 0 || p.get_char(i - 1) == '/') && (i + 2 == n
                || p.get_char(i + 2) == '/') {
                return false;
            }
        }
        i = i + 1;
    }
    proof {
        assert forall|k: int| 0 <= k && k + 2 <= p@.len() implies !(#[trigger] p@[k] == '.' && p@[k + 1] == '.'
            && (k == 0 || p@[k - 1] == '/') && (k + 2 == p@.len() || p@[k + 2] == '/')) by {
            assert(k < n);
        }
    }
    true
}

/// `p` lies strictly below the directory `dir`: `p` extends `dir` with a `/`
/// and at least one further character, and climbs no `..` back out. This is
/// the containment test guarding removal of deployed units.
pub open spec fn spec_descendant_of(p: Seq<char>, dir: Seq<char>) -> bool {
    let d = crate::strutil::spec_strip_trailing_slash(dir);
    &&& d.len() > 0
    &&& p.len() > d.len() + 1
    &&& p.subrange(0, d.len() as int) == d
    &&& p[d.len() as int] == '/'
    &&& !has_dotdot_component(p)
}

/// Decides whether `p` lies strictly below the directory `dir`.
pub fn is_descendant_of(p: &str, dir: &str) -> (r: bool)
    ensures
        r == spec_descendant_of(p@, dir@),
{
    let d = crate::strutil::strip_trailing_slash(dir);
    let dn = d.unicode_len();
    let pn = p.unicode_len();
    if dn == 0 || pn <= dn {
        return false;
    }
    if pn - dn <= 1 {
        return false;
    }
    if p.get_char(dn) != '/' {
        return false;
    }
    let prefix = p.substring_char(0, dn);
    if !str_eq(prefix, d) {
        return false;
    }
    // A `..` component inside `p` could climb back out of `dir`.
    let mut i: usize = 0;
    while i < pn
        invariant
            0 <= i <= pn,
            pn == p@.len(),
            forall|k: int|
                0 <= k && k + 2 <= p@.len() && k < i ==> !(#[trigger] p@[k] == '.' && p@[k + 1] == '.' && (k
                    == 0 || p@[k - 1] == '/') && (k + 2 == p@.len() || p@[k + 2] == '/')),
        decreases pn - i,
    {
        let c = p.get_char(i);
        if c == '.' && pn - i >= 2 {
            if p.get_char(i + 1) == '.' && (i == 0 || p.get_char(i - 1) == '/') && (i + 2 == pn
                || p.get_char(i + 2) == '/') {
                return false;
            }
        }
        i = i + 1;
    }
    proof {
        assert forall|k: int| 0 <= k && k + 2 <= p@.len() implies !(#[trigger] p@[k] == '.' && p@[k + 1] == '.'
            && (k == 0 || p@[k - 1] == '/') && (k + 2 == p@.len() || p@[k + 2] == '/')) by {
            assert(k < pn);
        }
    }
    true
}

/// Supplies the directories this application works in. Implementations look
/// them up on the host; the derived paths below are computed here: the state
/// file `application.state` inside the application directory, and the
/// destination directory `tf/custom` inside the game directory.
pub trait PathsProvider {
    fn get_application_directory(&self) -> String;

    fn get_team_fortress_directory(&self) -> Option<String>;

    fn get_application_state_file_path(&self) -> (r: String)
        ensures
            ({
                let suffix = seq!['/'] + "application.state"@;
                r@.len() >= suffix.len() && r@.subrange(
                    r@.len() - suffix.len(),
                    r@.len() as int,
                ) == suffix
            }),
    {
        let dir = self.get_application_directory();
        let r = crate::strutil::path_join(dir.as_str(), "application.state");
        proof {
            let suffix = seq!['/'] + "application.state"@;
            if dir@.len() > 0 && dir@[dir@.len() - 1] == '/' {
                assert(r@.subrange(r@.len() - suffix.len(), r@.len() as int) =~= suffix);
            } else {
                assert(r@.subrange(r@.len() - suffix.len(), r@.len() as int) =~= suffix);
            }
        }
        r
    }

    fn get_huds_directory(&self) -> (r: Option<String>)
        ensures
            r matches Some(p) ==> ({
                let suffix = seq!['/'] + "tf"@ + seq!['/'] + "custom"@;
                p@.len() >= suffix.len() && p@.subrange(
                    p@.len() - suffix.len(),
                    p@.len() as int,
                ) == suffix
            }),
    {
        match self.get_team_fortress_directory() {
            Some(dir) => {
                let tf = crate::strutil::path_join(dir.as_str(), "tf");
                let r = crate::strutil::path_join(tf.as_str(), "custom");
                proof {
                    reveal_strlit("tf");
                    assert("tf"@.len() == 2);
                    assert("tf"@[1] == 'f');
                    let suffix = seq!['/'] + "tf"@ + seq!['/'] + "custom"@;
                    if dir@.len() > 0 && dir@[dir@.len() - 1] == '/' {
                        assert(r@.subrange(r@.len() - suffix.len(), r@.len() as int) =~= suffix);
                    } else {
                        assert(r@.subrange(r@.len() - suffix.len(), r@.len() as int) =~= suffix);
                    }
                }
                Some(r)
            },
            None => None,
        }
    }
}

} // verus!
