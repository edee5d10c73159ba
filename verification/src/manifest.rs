//! The manifest store: the persisted record of a tool's installed
//! versions and their metadata. A version is either fully present or
//! absent; entries are kept in strictly ascending version order, so
//! listings are stable and every version appears at most once. The
//! "last used" time lives in a per-version marker whose content is
//! interpreted here; a missing marker means "never used", not zero.

use vstd::prelude::*;

use crate::version::{digits_val, is_digits, parse_u128, version_lt, Version};

verus! {

/// A state error of the manifest: the caller's precondition did not
/// hold, reported with the conflicting version.
#[derive(Clone, Copy, PartialEq, Eq, Structural, Debug)]
pub enum ManifestError {
    /// The version is already recorded as installed.
    AlreadyInstalled(Version),
    /// The version is not recorded as installed.
    NotInstalled(Version),
}

/// One installed version and its metadata.
#[derive(Clone, Copy, PartialEq, Eq, Structural, Debug)]
pub struct InstalledVersion {
    pub version: Version,
    /// Milliseconds since the epoch at which the install completed.
    pub installed_at: u128,
}

/// The install time recorded for `v`, scanning later entries first.
pub open spec fn lookup_at(s: Seq<InstalledVersion>, v: Version) -> Option<u128>
    decreases s.len(),
{
    if s.len() == 0 {
        None
    } else if s.last().version == v {
        Some(s.last().installed_at)
    } else {
        lookup_at(s.drop_last(), v)
    }
}

/// A version is recorded exactly when some entry holds it.
pub proof fn lemma_lookup_exists(s: Seq<InstalledVersion>, v: Version)
    ensures
        (lookup_at(s, v) is Some) <==> exists|i: int| 0 <= i < s.len() && s[i].version == v,
    decreases s.len(),
{
    if s.len() > 0 {
        lemma_lookup_exists(s.drop_last(), v);
        if s.last().version == v {
            assert(s[s.len() - 1].version == v);
        } else {
            assert(forall|i: int| 0 <= i < s.len() - 1 ==> s.drop_last()[i] == s[i]);
            if exists|i: int| 0 <= i < s.len() && s[i].version == v {
                let i = choose|i: int| 0 <= i < s.len() && s[i].version == v;
                assert(s.drop_last()[i] == s[i]);
            }
        }
    }
}

/// Lookup in a concatenation: the later run wins.
proof fn lemma_lookup_concat(a: Seq<InstalledVersion>, b: Seq<InstalledVersion>, v: Version)
    ensures
        lookup_at(a + b, v) == if lookup_at(b, v) is Some {
            lookup_at(b, v)
        } else {
            lookup_at(a, v)
        },
    decreases b.len(),
{
    if b.len() == 0 {
        assert(a + b =~= a);
    } else {
        assert((a + b).drop_last() =~= a + b.drop_last());
        assert((a + b).last() == b.last());
        lemma_lookup_concat(a, b.drop_last(), v);
    }
}

/// The per-tool record of installed versions.
pub struct ToolManifest {
    pub entries: Vec<InstalledVersion>,
}

impl ToolManifest {
    /// Entries are strictly ascending by version: ordered, and each
    /// version present at most once.
    pub open spec fn wf(self) -> bool {
        forall|i: int, j: int|
            0 <= i < j < self.entries@.len() ==> version_lt(
                (#[trigger] self.entries@[i]).version,
                (#[trigger] self.entries@[j]).version,
            )
    }

    /// The installed versions, in entry order.
    pub open spec fn installed(self) -> Seq<Version> {
        self.entries@.map_values(|e: InstalledVersion| e.version)
    }

    /// Is `v` recorded as installed?
    pub open spec fn has_version(self, v: Version) -> bool {
        lookup_at(self.entries@, v) is Some
    }

    /// The install time recorded for `v`.
    pub open spec fn installed_at_of(self, v: Version) -> Option<u128> {
        lookup_at(self.entries@, v)
    }

    /// An empty manifest.
    pub fn new() -> (r: ToolManifest)
        ensures
            r.wf(),
            r.installed() =~= Seq::<Version>::empty(),
            forall|w: Version| !r.has_version(w),
    {
        ToolManifest { entries: Vec::new() }
    }

    /// Does the manifest record `v` as installed?
    pub fn is_installed(&self, v: &Version) -> (r: bool)
        ensures
            r == self.has_version(*v),
    {
        let mut i: usize = 0;
        while i < self.entries.len()
            invariant
                0 <= i <= self.entries@.len(),
                forall|k: int| 0 <= k < i ==> (#[trigger] self.entries@[k]).version != *v,
            decreases self.entries@.len() - i,
        {
            if self.entries[i].version == *v {
                proof {
                    lemma_lookup_exists(self.entries@, *v);
                }
                return true;
            }
            i = i + 1;
        }
        proof {
            lemma_lookup_exists(self.entries@, *v);
        }
        false
    }

    /// The install time recorded for `v`, if it is installed.
    pub fn installed_at(&self, v: &Version) -> (r: Option<u128>)
        ensures
            r == self.installed_at_of(*v),
    {
        proof {
            assert(self.entries@.take(self.entries@.len() as int) =~= self.entries@);
        }
        let mut i = self.entries.len();
        while i > 0
            invariant
                0 <= i <= self.entries@.len(),
                lookup_at(self.entries@, *v) == lookup_at(self.entries@.take(i as int), *v),
            decreases i,
        {
            i = i - 1;
            proof {
                assert(self.entries@.take(i as int + 1).drop_last() =~= self.entries@.take(
                    i as int,
                ));
                assert(self.entries@.take(i as int + 1).last() == self.entries@[i as int]);
            }
            if self.entries[i].version == *v {
                return Some(self.entries[i].installed_at);
            }
        }
        None
    }

    /// Records a newly installed version with its install time. Fails
    /// with `AlreadyInstalled`, leaving the manifest unchanged, when
    /// the version is already present: the store never silently
    /// no-ops.
    pub fn record_installed(&mut self, version: Version, installed_at: u128) -> (r: Result<
        (),
        ManifestError,
    >)
        requires
            old(self).wf(),
        ensures
            final(self).wf(),
            old(self).has_version(version) ==> r == Err::<(), ManifestError>(
                ManifestError::AlreadyInstalled(version),
            ) && *final(self) == *old(self),
            !old(self).has_version(version) ==> r == Ok::<(), ManifestError>(())
                && final(self).has_version(version)
                && final(self).installed_at_of(version) == Some(installed_at)
                && (forall|w: Version|
                w != version ==> final(self).installed_at_of(w) == old(self).installed_at_of(w))
                && final(self).entries@.len() == old(self).entries@.len() + 1,
    {
        let ghost s = self.entries@;
        let mut idx: usize = 0;
        while idx < self.entries.len() && self.entries[idx].version.lt(&version)
            invariant
                0 <= idx <= self.entries@.len(),
                self.entries@ == s,
                forall|k: int|
                    0 <= k < idx ==> version_lt((#[trigger] self.entries@[k]).version, version),
            decreases self.entries@.len() - idx,
        {
            idx = idx + 1;
        }
        if idx < self.entries.len() && self.entries[idx].version == version {
            proof {
                lemma_lookup_exists(s, version);
            }
            return Err(ManifestError::AlreadyInstalled(version));
        }
        proof {
            assert forall|i: int| 0 <= i < s.len() implies (#[trigger] s[i]).version
                != version by {
                if i < idx {
                } else if i == idx {
                } else {
                    assert(version_lt(s[idx as int].version, s[i].version));
                }
            }
            lemma_lookup_exists(s, version);
        }
        let entry = InstalledVersion { version, installed_at };
        self.entries.insert(idx, entry);
        proof {
            let t = self.entries@;
            assert(t =~= s.take(idx as int).push(entry) + s.skip(idx as int));
            assert forall|i: int, j: int| 0 <= i < j < t.len() implies version_lt(
                (#[trigger] t[i]).version,
                (#[trigger] t[j]).version,
            ) by {
                if i < idx && j == idx {
                } else if i == idx && j > idx {
                    assert(t[j] == s[j - 1]);
                    if j - 1 > idx {
                        assert(version_lt(s[idx as int].version, s[j - 1].version));
                    }
                } else if i < idx && j > idx {
                    assert(t[i] == s[i] && t[j] == s[j - 1]);
                } else if j < idx {
                } else {
                    assert(t[i] == s[i - 1] && t[j] == s[j - 1]);
                }
            }
            lemma_lookup_concat(s.take(idx as int).push(entry), s.skip(idx as int), version);
            lemma_lookup_exists(s.skip(idx as int), version);
            assert forall|i: int| 0 <= i < s.skip(idx as int).len() implies (#[trigger] s.skip(
                idx as int,
            )[i]).version != version by {
                assert(s.skip(idx as int)[i] == s[i + idx]);
            }
            assert(lookup_at(s.take(idx as int).push(entry), version) == Some(installed_at));
            assert forall|w: Version| w != version implies lookup_at(t, w) == lookup_at(s, w) by {
                lemma_lookup_concat(s.take(idx as int).push(entry), s.skip(idx as int), w);
                lemma_lookup_concat(s.take(idx as int), s.skip(idx as int), w);
                assert(s.take(idx as int).push(entry).drop_last() =~= s.take(idx as int));
                assert(s =~= s.take(idx as int) + s.skip(idx as int));
            }
        }
        Ok(())
    }

    /// Removes an installed version. Fails with `NotInstalled`,
    /// leaving the manifest unchanged, when the version is absent.
    pub fn remove_installed(&mut self, version: Version) -> (r: Result<(), ManifestError>)
        requires
            old(self).wf(),
        ensures
            final(self).wf(),
            !old(self).has_version(version) ==> r == Err::<(), ManifestError>(
                ManifestError::NotInstalled(version),
            ) && *final(self) == *old(self),
            old(self).has_version(version) ==> r == Ok::<(), ManifestError>(())
                && !final(self).has_version(version) && (forall|w: Version|
                w != version ==> final(self).installed_at_of(w) == old(self).installed_at_of(w))
                && final(self).entries@.len() + 1 == old(self).entries@.len(),
    {
        let ghost s = self.entries@;
        let mut idx: usize = 0;
        while idx < self.entries.len() && self.entries[idx].version != version
            invariant
                0 <= idx <= self.entries@.len(),
                self.entries@ == s,
                forall|k: int| 0 <= k < idx ==> (#[trigger] self.entries@[k]).version != version,
            decreases self.entries@.len() - idx,
        {
            idx = idx + 1;
        }
        if idx == self.entries.len() {
            proof {
                lemma_lookup_exists(s, version);
            }
            return Err(ManifestError::NotInstalled(version));
        }
        proof {
            lemma_lookup_exists(s, version);
        }
        self.entries.remove(idx);
        proof {
            let t = self.entries@;
            assert(t =~= s.take(idx as int) + s.skip(idx as int + 1));
            assert forall|i: int, j: int| 0 <= i < j < t.len() implies version_lt(
                (#[trigger] t[i]).version,
                (#[trigger] t[j]).version,
            ) by {
                if j < idx {
                } else if i < idx {
                    assert(t[i] == s[i] && t[j] == s[j + 1]);
                } else {
                    assert(t[i] == s[i + 1] && t[j] == s[j + 1]);
                }
            }
            lemma_lookup_concat(s.take(idx as int), s.skip(idx as int + 1), version);
            lemma_lookup_exists(s.take(idx as int), version);
            lemma_lookup_exists(s.skip(idx as int + 1), version);
            assert forall|i: int| 0 <= i < s.take(idx as int).len() implies (#[trigger] s.take(
                idx as int,
            )[i]).version != version by {}
            assert forall|i: int| 0 <= i < s.skip(idx as int + 1).len() implies (
            #[trigger] s.skip(idx as int + 1)[i]).version != version by {
                assert(s.skip(idx as int + 1)[i] == s[i + idx + 1]);
                assert(version_lt(s[idx as int].version, s[i + idx + 1].version));
            }
            assert forall|w: Version| w != version implies lookup_at(t, w) == lookup_at(s, w) by {
                lemma_lookup_concat(s.take(idx as int), s.skip(idx as int + 1), w);
                lemma_lookup_concat(s.take(idx as int) + seq![s[idx as int]], s.skip(
                    idx as int + 1,
                ), w);
                assert(s =~= (s.take(idx as int) + seq![s[idx as int]]) + s.skip(idx as int + 1));
                lemma_lookup_concat(s.take(idx as int), seq![s[idx as int]], w);
                let single = seq![s[idx as int]];
                assert(single.last() == s[idx as int]);
                assert(single.last().version != w);
                assert(single.drop_last() =~= Seq::<InstalledVersion>::empty());
                assert(lookup_at(Seq::<InstalledVersion>::empty(), w) is None);
                assert(lookup_at(single, w) is None);
            }
        }
        Ok(())
    }

    /// The installed versions, in ascending version order whatever
    /// order the document stored them in.
    pub fn installed_versions(&self) -> (r: Vec<Version>)
        ensures
            r@ == self.installed(),
            self.wf() ==> forall|i: int, j: int|
                0 <= i < j < r@.len() ==> version_lt(#[trigger] r@[i], #[trigger] r@[j]),
    {
        let mut out: Vec<Version> = Vec::new();
        let mut i: usize = 0;
        while i < self.entries.len()
            invariant
                0 <= i <= self.entries@.len(),
                out@ =~= self.entries@.take(i as int).map_values(
                    |e: InstalledVersion| e.version,
                ),
            decreases self.entries@.len() - i,
        {
            out.push(self.entries[i].version);
            proof {
                assert(self.entries@.take(i as int + 1) =~= self.entries@.take(i as int).push(
                    self.entries@[i as int],
                ));
            }
            i = i + 1;
        }
        proof {
            assert(self.entries@.take(self.entries@.len() as int) =~= self.entries@);
        }
        out
    }
}

/// An ordered manifest lists every version at most once.
pub proof fn lemma_installed_unique(m: ToolManifest, i: int, j: int)
    requires
        m.wf(),
        0 <= i < m.installed().len(),
        0 <= j < m.installed().len(),
        m.installed()[i] == m.installed()[j],
    ensures
        i == j,
{
    if i < j {
        assert(version_lt(m.entries@[i].version, m.entries@[j].version));
    } else if j < i {
        assert(version_lt(m.entries@[j].version, m.entries@[i].version));
    }
}

/// What the content of a per-version "last used" marker means: a
/// missing marker or unreadable content is "never used", not zero.
pub open spec fn used_at_of(marker: Option<Seq<char>>) -> Option<u128> {
    match marker {
        None => None,
        Some(t) => if is_digits(t) && digits_val(t) <= u128::MAX as int {
            Some(digits_val(t) as u128)
        } else {
            None
        },
    }
}

/// Reads the "last used" time out of a marker's content, absent
/// rather than failing when there is no marker.
pub fn load_used_at(marker: Option<&str>) -> (r: Option<u128>)
    ensures
        r == used_at_of(
            match marker {
                Some(t) => Some(t@),
                None => None,
            },
        ),
{
    match marker {
        Some(t) => parse_u128(t),
        None => None,
    }
}

} // verus!
