//! The registry: an ordered mapping from unit name to tracked metadata,
//! pure in-memory state with no I/O of its own.
//!
//! Entries are held sorted strictly by name (bytewise), so names are unique,
//! iteration is in key order, and the first installed entry is well defined.

use vstd::prelude::*;
use crate::package::HudName;
use crate::source::Source;
use crate::strutil::{
    bytes_lt, bytes_lt_exec, bytes_eq, lemma_bytes_lt_trichotomy, lemma_bytes_lt_trans,
};

verus! {

/// A unit's deployment status. Exactly one such value exists per registry
/// entry; transitions replace it whole.
#[derive(Debug)]
pub enum Install {
    NotInstalled,
    /// Deployed at `path` (inside the destination directory), at Unix time
    /// `when` (seconds).
    Installed { path: String, when: i64 },
    /// The last attempt failed; `error` is the human-readable reason.
    Failed { error: String },
}

/// Relies on `std::time::SystemTime::now`: the current Unix time in
/// seconds. A host clock standing before the epoch reads as zero, so the
/// call is total; nothing else can be promised of a clock reading.
#[verifier::external_body]
fn now_timestamp() -> i64 {
    match std::time::SystemTime::now().duration_since(std::time::UNIX_EPOCH) {
        Ok(elapsed) => elapsed.as_secs() as i64,
        Err(_) => 0,
    }
}

impl Install {
    /// An `Installed` status at `path`, stamped with the time of the call.
    pub fn installed_now(path: String) -> (r: Install)
        ensures
            r is Installed,
            r->path@ == path@,
    {
        Install::Installed { path, when: now_timestamp() }
    }

    /// A `Failed` status carrying `error`.
    pub fn failed(error: String) -> (r: Install)
        ensures
            r is Failed,
            r->error@ == error@,
    {
        Install::Failed { error }
    }

    pub fn is_installed(&self) -> (r: bool)
        ensures
            r == (self is Installed),
    {
        match self {
            Install::Installed { .. } => true,
            _ => false,
        }
    }

    /// The deployment path and time, when this status is `Installed`.
    pub fn as_installed(&self) -> (r: Option<(&String, i64)>)
        ensures
            r is Some <==> self is Installed,
            r matches Some(pw) ==> pw.0@ == self->path@ && pw.1 == self->when,
    {
        match self {
            Install::Installed { path, when } => Some((path, *when)),
            _ => None,
        }
    }
}

impl Clone for Install {
    fn clone(&self) -> (r: Self)
        ensures
            r == *self,
    {
        match self {
            Install::NotInstalled => Install::NotInstalled,
            Install::Installed { path, when } => Install::Installed {
                path: path.clone(),
                when: *when,
            },
            Install::Failed { error } => Install::Failed { error: error.clone() },
        }
    }
}

/// Everything the registry tracks about one unit.
#[derive(Debug)]
pub struct HudInfo {
    pub name: HudName,
    pub source: Source,
    pub install: Install,
}

impl Clone for HudInfo {
    fn clone(&self) -> (r: Self)
        ensures
            r.name@ == self.name@,
            r.source.view_opt() == self.source.view_opt(),
            r.install == self.install,
    {
        HudInfo {
            name: self.name.clone(),
            source: self.source.clone(),
            install: self.install.clone(),
        }
    }
}

/// Entries sorted strictly by name: the registry's invariant.
pub open spec fn spec_sorted(s: Seq<HudInfo>) -> bool {
    forall|i: int|
        0 <= i && i + 1 < s.len() ==> bytes_lt(#[trigger] s[i].name@, s[i + 1].name@)
}

/// Some entry carries the name `nm`.
pub open spec fn spec_contains_name(s: Seq<HudInfo>, nm: Seq<u8>) -> bool {
    exists|i: int| 0 <= i < s.len() && (#[trigger] s[i].name@) == nm
}

/// The index of the first entry named `nm`, or `-1`.
pub open spec fn spec_find_index(s: Seq<HudInfo>, nm: Seq<u8>) -> int
    decreases s.len(),
{
    if s.len() == 0 {
        -1
    } else if s[0].name@ == nm {
        0
    } else {
        let r = spec_find_index(s.drop_first(), nm);
        if r < 0 {
            -1
        } else {
            1 + r
        }
    }
}

/// The entry named `nm`, when there is one.
pub open spec fn spec_get_entry(s: Seq<HudInfo>, nm: Seq<u8>) -> Option<HudInfo> {
    let i = spec_find_index(s, nm);
    if i < 0 {
        None
    } else {
        Some(s[i])
    }
}

/// Where a new entry named `nm` belongs: after every smaller name.
pub open spec fn spec_insert_pos(s: Seq<HudInfo>, nm: Seq<u8>) -> int
    decreases s.len(),
{
    if s.len() == 0 {
        0
    } else if bytes_lt(s[0].name@, nm) {
        1 + spec_insert_pos(s.drop_first(), nm)
    } else {
        0
    }
}

/// What `add` leaves behind: unchanged when the name is present, else the
/// new entry, `NotInstalled`, at its sorted position.
pub open spec fn spec_add(s: Seq<HudInfo>, name: HudName, source: Source) -> Seq<HudInfo> {
    if spec_contains_name(s, name@) {
        s
    } else {
        s.insert(
            spec_insert_pos(s, name@),
            HudInfo { name, source, install: Install::NotInstalled },
        )
    }
}

/// The first entry, in key order, whose status is `Installed`.
pub open spec fn spec_first_installed(s: Seq<HudInfo>) -> Option<HudInfo>
    decreases s.len(),
{
    if s.len() == 0 {
        None
    } else if s[0].install is Installed {
        Some(s[0])
    } else {
        spec_first_installed(s.drop_first())
    }
}

pub proof fn lemma_find_index_props(s: Seq<HudInfo>, nm: Seq<u8>)
    ensures
        spec_find_index(s, nm) >= 0 ==> spec_find_index(s, nm) < s.len() && s[spec_find_index(
            s,
            nm,
        )].name@ == nm && (forall|j: int| 0 <= j < spec_find_index(s, nm) ==> (#[trigger] s[j].name@)
            != nm),
        spec_find_index(s, nm) < 0 ==> !spec_contains_name(s, nm),
    decreases s.len(),
{
    if s.len() > 0 && s[0].name@ != nm {
        lemma_find_index_props(s.drop_first(), nm);
        let r = spec_find_index(s.drop_first(), nm);
        if r >= 0 {
            assert(s.drop_first()[r] == s[r + 1]);
            assert forall|j: int| 0 <= j < spec_find_index(s, nm) implies (#[trigger] s[j].name@)
                != nm by {
                if j > 0 {
                    assert(s.drop_first()[j - 1] == s[j]);
                }
            }
        } else {
            assert forall|i: int| 0 <= i < s.len() implies (#[trigger] s[i].name@) != nm by {
                if i > 0 {
                    assert(s.drop_first()[i - 1] == s[i]);
                }
            }
        }
    }
}

/// The first match sits at `i` when everything before differs and `i`
/// matches.
pub proof fn lemma_find_index_at(s: Seq<HudInfo>, nm: Seq<u8>, i: int)
    requires
        0 <= i < s.len(),
        s[i].name@ == nm,
        forall|j: int| 0 <= j < i ==> (#[trigger] s[j].name@) != nm,
    ensures
        spec_find_index(s, nm) == i,
    decreases s.len(),
{
    if i > 0 {
        assert forall|j: int| 0 <= j < i - 1 implies (#[trigger] s.drop_first()[j].name@) != nm by {
            assert(s.drop_first()[j] == s[j + 1]);
        }
        assert(s.drop_first()[i - 1] == s[i]);
        lemma_find_index_at(s.drop_first(), nm, i - 1);
    }
}

/// No match at all gives `-1`.
pub proof fn lemma_find_index_absent(s: Seq<HudInfo>, nm: Seq<u8>)
    requires
        forall|j: int| 0 <= j < s.len() ==> (#[trigger] s[j].name@) != nm,
    ensures
        spec_find_index(s, nm) == -1,
    decreases s.len(),
{
    if s.len() > 0 {
        assert forall|j: int| 0 <= j < s.drop_first().len() implies (
        #[trigger] s.drop_first()[j].name@) != nm by {
            assert(s.drop_first()[j] == s[j + 1]);
        }
        lemma_find_index_absent(s.drop_first(), nm);
    }
}

/// The insert position is where the scan stops: everything before is
/// smaller, and position `i` (when it exists) is not.
pub proof fn lemma_insert_pos_at(s: Seq<HudInfo>, nm: Seq<u8>, i: int)
    requires
        0 <= i <= s.len(),
        forall|j: int| 0 <= j < i ==> bytes_lt(#[trigger] s[j].name@, nm),
        i < s.len() ==> !bytes_lt(s[i].name@, nm),
    ensures
        spec_insert_pos(s, nm) == i,
    decreases s.len(),
{
    if s.len() > 0 {
        if i == 0 {
        } else {
            assert(bytes_lt(s[0].name@, nm));
            assert forall|j: int| 0 <= j < i - 1 implies bytes_lt(
                #[trigger] s.drop_first()[j].name@,
                nm,
            ) by {
                assert(s.drop_first()[j] == s[j + 1]);
            }
            if i - 1 < s.drop_first().len() {
                assert(s.drop_first()[i - 1] == s[i]);
            }
            lemma_insert_pos_at(s.drop_first(), nm, i - 1);
        }
    }
}

/// In a sorted sequence every earlier name is smaller than every later one.
pub proof fn lemma_sorted_pairwise(s: Seq<HudInfo>, i: int, j: int)
    requires
        spec_sorted(s),
        0 <= i < j < s.len(),
    ensures
        bytes_lt(s[i].name@, s[j].name@),
    decreases j - i,
{
    if j == i + 1 {
    } else {
        lemma_sorted_pairwise(s, i, j - 1);
        lemma_bytes_lt_trans(s[i].name@, s[j - 1].name@, s[j].name@);
    }
}

/// The registry: unit name to tracked metadata, unique keys in key order.
#[derive(Debug)]
pub struct Registry {
    info: Vec<HudInfo>,
}

impl Registry {
    /// The registry's entries, in key order.
    pub closed spec fn entries(&self) -> Seq<HudInfo> {
        self.info@
    }

    /// The registry's invariant: entries sorted strictly by name.
    pub open spec fn well_formed(&self) -> bool {
        spec_sorted(self.entries())
    }

    pub fn new() -> (r: Registry)
        ensures
            r.well_formed(),
            r.entries() =~= Seq::<HudInfo>::empty(),
    {
        Registry { info: Vec::new() }
    }

    /// All entries, in key order.
    pub fn iter(&self) -> (r: &Vec<HudInfo>)
        ensures
            r@ == self.entries(),
    {
        &self.info
    }

    /// Inserts a new entry named `name` with status `NotInstalled`, keyed at
    /// its sorted position; a present name is left untouched, its tracked
    /// source included.
    pub fn add(&mut self, name: HudName, source: Source)
        requires
            old(self).well_formed(),
        ensures
            final(self).well_formed(),
            final(self).entries() == spec_add(old(self).entries(), name, source),
    {
        let ghost s = self.entries();
        let i = self.lower_bound(name.as_bytes());
        proof {
            lemma_insert_pos_props(s, name@);
        }
        if i < self.info.len() && bytes_eq(self.info[i].name.as_bytes(), name.as_bytes()) {
            proof {
                assert(s[i as int].name@ == name@);
                assert(spec_contains_name(s, name@));
            }
            return;
        }
        proof {
            assert forall|j: int| 0 <= j < s.len() implies (#[trigger] s[j].name@) != name@ by {
                if j < i {
                    lemma_bytes_lt_trichotomy(s[j].name@, name@);
                } else {
                    assert(!bytes_lt(s[i as int].name@, name@));
                    assert(s[i as int].name@ != name@);
                    lemma_bytes_lt_trichotomy(s[i as int].name@, name@);
                    assert(bytes_lt(name@, s[i as int].name@));
                    if j > i {
                        lemma_sorted_pairwise(s, i as int, j);
                        lemma_bytes_lt_trans(name@, s[i as int].name@, s[j].name@);
                    }
                    lemma_bytes_lt_trichotomy(name@, s[j].name@);
                }
            }
            assert(!spec_contains_name(s, name@));
        }
        let entry = HudInfo { name, source, install: Install::NotInstalled };
        self.info.insert(i, entry);
        proof {
            let t = self.entries();
            assert(t == s.insert(i as int, entry));
            assert forall|k: int| 0 <= k && k + 1 < t.len() implies bytes_lt(
                #[trigger] t[k].name@,
                t[k + 1].name@,
            ) by {
                if k + 1 < i {
                    assert(t[k] == s[k] && t[k + 1] == s[k + 1]);
                } else if k + 1 == i {
                    assert(t[k] == s[k] && t[k + 1] == entry);
                } else if k == i {
                    assert(t[k] == entry && t[k + 1] == s[k]);
                    lemma_bytes_lt_trichotomy(entry.name@, s[k].name@);
                } else {
                    assert(t[k] == s[k - 1] && t[k + 1] == s[k]);
                }
            }
        }
    }

    /// Removes and returns the entry named `name`, or nothing.
    pub fn remove(&mut self, name: &HudName) -> (r: Option<HudInfo>)
        requires
            old(self).well_formed(),
        ensures
            final(self).well_formed(),
            spec_find_index(old(self).entries(), name@) < 0 ==> r is None && final(self).entries()
                == old(self).entries(),
            spec_find_index(old(self).entries(), name@) >= 0 ==> (r matches Some(e) && e == old(
                self,
            ).entries()[spec_find_index(old(self).entries(), name@)] && final(self).entries()
                == old(self).entries().remove(spec_find_index(old(self).entries(), name@))),
    {
        let ghost s = self.entries();
        match self.find_position(name) {
            Some(i) => {
                let e = self.info.remove(i);
                proof {
                    let t = self.entries();
                    assert forall|k: int| 0 <= k && k + 1 < t.len() implies bytes_lt(
                        #[trigger] t[k].name@,
                        t[k + 1].name@,
                    ) by {
                        if k + 1 < i {
                            assert(t[k] == s[k] && t[k + 1] == s[k + 1]);
                        } else if k == i - 1 {
                            assert(t[k] == s[k] && t[k + 1] == s[k + 2]);
                            lemma_sorted_pairwise(s, k, k + 2);
                        } else {
                            assert(t[k] == s[k + 1] && t[k + 1] == s[k + 2]);
                        }
                    }
                }
                Some(e)
            },
            None => None,
        }
    }

    /// The sorted position for the name `nm`: the first index whose entry's
    /// name is not smaller.
    fn lower_bound(&self, nm: &Vec<u8>) -> (r: usize)
        ensures
            r == spec_insert_pos(self.entries(), nm@),
            r <= self.entries().len(),
    {
        let ghost s = self.entries();
        let mut i: usize = 0;
        while i < self.info.len()
            invariant
                0 <= i <= self.info@.len(),
                s == self.entries(),
                s == self.info@,
                forall|j: int| 0 <= j < i ==> bytes_lt(#[trigger] s[j].name@, nm@),
            decreases self.info@.len() - i,
        {
            if !bytes_lt_exec(self.info[i].name.as_bytes(), nm) {
                proof {
                    lemma_insert_pos_at(s, nm@, i as int);
                }
                return i;
            }
            i = i + 1;
        }
        proof {
            lemma_insert_pos_at(s, nm@, i as int);
        }
        i
    }

    /// The index of the entry named `name`, when one exists.
    fn find_position(&self, name: &HudName) -> (r: Option<usize>)
        ensures
            r matches Some(i) ==> i == spec_find_index(self.entries(), name@) && i
                < self.entries().len(),
            r is None ==> spec_find_index(self.entries(), name@) < 0,
    {
        let ghost s = self.entries();
        let mut i: usize = 0;
        while i < self.info.len()
            invariant
                0 <= i <= self.info@.len(),
                s == self.entries(),
                s == self.info@,
                forall|j: int| 0 <= j < i ==> (#[trigger] s[j].name@) != name@,
            decreases self.info@.len() - i,
        {
            if bytes_eq(self.info[i].name.as_bytes(), name.as_bytes()) {
                proof {
                    lemma_find_index_at(s, name@, i as int);
                }
                return Some(i);
            }
            i = i + 1;
        }
        proof {
            lemma_find_index_absent(s, name@);
        }
        None
    }

    /// The entry named `name`, when one exists.
    pub fn get(&self, name: &HudName) -> (r: Option<&HudInfo>)
        ensures
            r matches Some(e) ==> spec_get_entry(self.entries(), name@) == Some(*e),
            r is None ==> spec_get_entry(self.entries(), name@) is None,
    {
        match self.find_position(name) {
            Some(i) => Some(&self.info[i]),
            None => None,
        }
    }

    /// The first entry, in key order, whose status is `Installed`.
    pub fn get_installed(&self) -> (r: Option<&HudInfo>)
        ensures
            r matches Some(e) ==> spec_first_installed(self.entries()) == Some(*e),
            r is None ==> spec_first_installed(self.entries()) is None,
    {
        let ghost s = self.entries();
        let mut i: usize = 0;
        proof {
            assert(s.skip(0) =~= s);
        }
        while i < self.info.len()
            invariant
                0 <= i <= self.info@.len(),
                s == self.entries(),
                spec_first_installed(s) == spec_first_installed(s.skip(i as int)),
            decreases self.info@.len() - i,
        {
            proof {
                assert(s.skip(i as int)[0] == s[i as int]);
            }
            if self.info[i].install.is_installed() {
                return Some(&self.info[i]);
            }
            proof {
                assert(s.skip(i as int).drop_first() =~= s.skip(i + 1));
            }
            i = i + 1;
        }
        proof {
            assert(s.skip(self.info@.len() as int).len() == 0);
        }
        None
    }

    /// Replaces the status of the entry named `name`; a missing name leaves
    /// the registry untouched and creates nothing.
    pub fn set_install(&mut self, name: &HudName, install: Install)
        requires
            old(self).well_formed(),
        ensures
            final(self).well_formed(),
            spec_find_index(old(self).entries(), name@) < 0 ==> final(self).entries() == old(
                self,
            ).entries(),
            spec_find_index(old(self).entries(), name@) >= 0 ==> final(self).entries() == old(
                self,
            ).entries().update(
                spec_find_index(old(self).entries(), name@),
                HudInfo {
                    name: old(self).entries()[spec_find_index(old(self).entries(), name@)].name,
                    source: old(self).entries()[spec_find_index(
                        old(self).entries(),
                        name@,
                    )].source,
                    install,
                },
            ),
    {
        let ghost s = self.entries();
        match self.find_position(name) {
            Some(i) => {
                let old_entry = self.info.remove(i);
                let updated = HudInfo {
                    name: old_entry.name,
                    source: old_entry.source,
                    install,
                };
                self.info.insert(i, updated);
                proof {
                    let t = self.entries();
                    assert(t =~= s.update(i as int, updated));
                    assert forall|k: int| 0 <= k && k + 1 < t.len() implies bytes_lt(
                        #[trigger] t[k].name@,
                        t[k + 1].name@,
                    ) by {
                        assert(t[k].name@ == s[k].name@);
                        assert(t[k + 1].name@ == s[k + 1].name@);
                    }
                }
            },
            None => {},
        }
    }
}

/// Adding a fresh name and then asking for it yields exactly the new entry,
/// `NotInstalled`, with the source that was given.
pub proof fn lemma_registry_add_then_get(s: Seq<HudInfo>, name: HudName, source: Source)
    requires
        spec_sorted(s),
        !spec_contains_name(s, name@),
    ensures
        spec_get_entry(spec_add(s, name, source), name@) == Some(
            HudInfo { name, source, install: Install::NotInstalled },
        ),
{
    let entry = HudInfo { name, source, install: Install::NotInstalled };
    let k = spec_insert_pos(s, name@);
    lemma_insert_pos_props(s, name@);
    let t = s.insert(k, entry);
    assert(t[k] == entry);
    assert forall|j: int| 0 <= j < k implies (#[trigger] t[j].name@) != name@ by {
        assert(t[j] == s[j]);
        crate::strutil::lemma_bytes_lt_trichotomy(s[j].name@, name@);
    }
    lemma_find_index_at(t, name@, k);
}

/// The scan that defines `spec_insert_pos` stops where it should: every
/// entry before the position has a smaller name.
pub proof fn lemma_insert_pos_props(s: Seq<HudInfo>, nm: Seq<u8>)
    ensures
        0 <= spec_insert_pos(s, nm) <= s.len(),
        forall|j: int| 0 <= j < spec_insert_pos(s, nm) ==> bytes_lt(#[trigger] s[j].name@, nm),
        spec_insert_pos(s, nm) < s.len() ==> !bytes_lt(s[spec_insert_pos(s, nm)].name@, nm),
    decreases s.len(),
{
    if s.len() > 0 && bytes_lt(s[0].name@, nm) {
        lemma_insert_pos_props(s.drop_first(), nm);
        assert forall|j: int| 0 <= j < spec_insert_pos(s, nm) implies bytes_lt(
            #[trigger] s[j].name@,
            nm,
        ) by {
            if j > 0 {
                assert(s.drop_first()[j - 1] == s[j]);
            }
        }
        if spec_insert_pos(s, nm) < s.len() {
            assert(s.drop_first()[spec_insert_pos(s, nm) - 1] == s[spec_insert_pos(s, nm)]);
        }
    }
}

/// Replacing a present entry's status and then asking for the name yields
/// exactly that status.
pub proof fn lemma_registry_set_install_then_get(s: Seq<HudInfo>, nm: Seq<u8>, install: Install)
    requires
        spec_find_index(s, nm) >= 0,
    ensures
        ({
            let i = spec_find_index(s, nm);
            let updated = HudInfo { name: s[i].name, source: s[i].source, install };
            spec_get_entry(s.update(i, updated), nm) == Some(updated)
        }),
{
    let i = spec_find_index(s, nm);
    lemma_find_index_props(s, nm);
    let updated = HudInfo { name: s[i].name, source: s[i].source, install };
    let t = s.update(i, updated);
    assert(t[i] == updated);
    assert forall|j: int| 0 <= j < i implies (#[trigger] t[j].name@) != nm by {
        assert(t[j] == s[j]);
    }
    lemma_find_index_at(t, nm, i);
}

/// Removing a name and then asking for it yields nothing: sorted entries
/// hold each name at most once.
pub proof fn lemma_registry_remove_then_get(s: Seq<HudInfo>, nm: Seq<u8>)
    requires
        spec_sorted(s),
        spec_find_index(s, nm) >= 0,
    ensures
        spec_get_entry(s.remove(spec_find_index(s, nm)), nm) is None,
{
    let i = spec_find_index(s, nm);
    lemma_find_index_props(s, nm);
    let t = s.remove(i);
    assert forall|j: int| 0 <= j < t.len() implies (#[trigger] t[j].name@) != nm by {
        if j < i {
            assert(t[j] == s[j]);
        } else {
            assert(t[j] == s[j + 1]);
            lemma_sorted_pairwise(s, i, j + 1);
            crate::strutil::lemma_bytes_lt_trichotomy(s[i].name@, s[j + 1].name@);
        }
    }
    lemma_find_index_absent(t, nm);
}

} // verus!
