//! The version resolver: turns an unresolved request into a concrete
//! version by dereferencing aliases (with cycle detection), then
//! selecting the highest candidate that satisfies the request, looking
//! at installed versions first and at a plugin-reported remote list
//! only when no installed version satisfies. Resolution is a pure
//! query: it never mutates the manifest or the configuration.

use vstd::prelude::*;

use crate::aliases::{entries_map, AliasMap};
use crate::version::{version_le, version_lt, Version};
use crate::version_spec::{SpecShape, UnresolvedVersionSpec};

verus! {

/// Why resolution failed.
#[derive(Clone, Copy, PartialEq, Eq, Structural, Debug)]
pub enum ResolveError {
    /// No candidate version satisfies the request.
    VersionNotFound,
    /// The alias chain revisits a name and would never bottom out.
    AliasCycle,
}

/// Does the concrete version `v` satisfy the request `s`?
/// Aliases and the canary sentinel satisfy nothing: they must be
/// dereferenced first.
pub open spec fn req_matches(s: SpecShape, v: Version) -> bool {
    match s {
        SpecShape::Latest => true,
        SpecShape::Partial(major, minor) => v.major == major && match minor {
            Some(m) => v.minor == m,
            None => true,
        },
        SpecShape::Gte(w) => version_le(w, v),
        SpecShape::Semantic(w) => v == w,
        SpecShape::Alias(_) => false,
        SpecShape::Canary => false,
    }
}

/// The highest candidate satisfying the request, if any: the strictly
/// highest by the total version order, never the first listed.
pub open spec fn best_match(cs: Seq<Version>, s: SpecShape) -> Option<Version>
    decreases cs.len(),
{
    if cs.len() == 0 {
        None
    } else {
        let rest = best_match(cs.drop_last(), s);
        let last = cs.last();
        if req_matches(s, last) {
            match rest {
                Some(b) => if version_lt(b, last) {
                    Some(last)
                } else {
                    Some(b)
                },
                None => Some(last),
            }
        } else {
            rest
        }
    }
}

/// What `best_match` returns: a satisfying candidate at least as high
/// as every satisfying candidate, or nothing when none satisfies.
pub proof fn lemma_best_match(cs: Seq<Version>, s: SpecShape)
    ensures
        match best_match(cs, s) {
            Some(v) => req_matches(s, v) && (exists|i: int| 0 <= i < cs.len() && cs[i] == v)
                && forall|i: int|
                0 <= i < cs.len() && req_matches(s, #[trigger] cs[i]) ==> version_le(cs[i], v),
            None => forall|i: int| 0 <= i < cs.len() ==> !req_matches(s, #[trigger] cs[i]),
        },
    decreases cs.len(),
{
    if cs.len() > 0 {
        lemma_best_match(cs.drop_last(), s);
        assert(forall|i: int| 0 <= i < cs.len() - 1 ==> cs.drop_last()[i] == cs[i]);
        match best_match(cs, s) {
            Some(v) => {
                if req_matches(s, cs.last()) {
                    match best_match(cs.drop_last(), s) {
                        Some(b) => {
                            assert(exists|i: int|
                                0 <= i < cs.len() - 1 && cs.drop_last()[i] == b);
                        },
                        None => {},
                    }
                }
            },
            None => {},
        }
    }
}

/// A lookup key: aliases are looked up by their name, the canary
/// sentinel by the name `canary`; every other shape is already past
/// alias dereferencing.
pub open spec fn lookup_key(s: SpecShape) -> Option<Seq<char>> {
    match s {
        SpecShape::Alias(name) => Some(name),
        SpecShape::Canary => Some("canary"@),
        _ => None,
    }
}

/// Dereferences alias names through the alias map, at most `fuel`
/// times. An unknown name fails with `VersionNotFound`; running out of
/// fuel means the chain is longer than the map itself and therefore
/// revisits a name, which fails with `AliasCycle`.
pub open spec fn chase(
    aliases: Map<Seq<char>, SpecShape>,
    s: SpecShape,
    fuel: nat,
) -> Result<SpecShape, ResolveError>
    decreases fuel,
{
    match lookup_key(s) {
        None => Ok(s),
        Some(k) => if !aliases.contains_key(k) {
            Err(ResolveError::VersionNotFound)
        } else if fuel == 0 {
            Err(ResolveError::AliasCycle)
        } else {
            chase(aliases, aliases[k], (fuel - 1) as nat)
        },
    }
}

/// What resolving a request against a run of alias bindings, the
/// installed versions and an optional remote list yields.
pub open spec fn resolve_model(
    bindings: Seq<(Seq<char>, SpecShape)>,
    installed: Seq<Version>,
    remote: Option<Seq<Version>>,
    s: SpecShape,
) -> Result<Version, ResolveError> {
    match chase(entries_map(bindings), s, bindings.len()) {
        Err(e) => Err(e),
        Ok(target) => match best_match(installed, target) {
            Some(v) => Ok(v),
            None => match remote {
                Some(r) => match best_match(r, target) {
                    Some(v) => Ok(v),
                    None => Err(ResolveError::VersionNotFound),
                },
                None => Err(ResolveError::VersionNotFound),
            },
        },
    }
}

/// Highest wins: with exactly two versions installed and the lower
/// one as the range's bound, resolving the range selects the higher
/// version — never the first listed or most recently installed.
pub proof fn lemma_highest_wins(
    bindings: Seq<(Seq<char>, SpecShape)>,
    v1: Version,
    v2: Version,
    remote: Option<Seq<Version>>,
)
    requires
        version_lt(v1, v2),
    ensures
        resolve_model(bindings, seq![v1, v2], remote, SpecShape::Gte(v1)) == Ok::<
            Version,
            ResolveError,
        >(v2),
{
    let cs = seq![v1, v2];
    let s = SpecShape::Gte(v1);
    assert(cs.drop_last() =~= seq![v1]);
    assert(seq![v1].drop_last() =~= Seq::<Version>::empty());
    assert(best_match(Seq::<Version>::empty(), s) is None);
    assert(seq![v1].last() == v1);
    assert(req_matches(s, v1));
    assert(best_match(seq![v1], s) == Some(v1));
    assert(cs.last() == v2);
    assert(req_matches(s, v2));
    assert(best_match(cs, s) == Some(v2));
}

/// An exact request selects exactly the version it names, whenever
/// that version is among the candidates.
proof fn lemma_best_match_exact_present(cs: Seq<Version>, v: Version)
    requires
        exists|i: int| 0 <= i < cs.len() && cs[i] == v,
    ensures
        best_match(cs, SpecShape::Semantic(v)) == Some(v),
    decreases cs.len(),
{
    let i = choose|i: int| 0 <= i < cs.len() && cs[i] == v;
    if i == cs.len() - 1 {
        match best_match(cs.drop_last(), SpecShape::Semantic(v)) {
            Some(b) => {
                lemma_best_match(cs.drop_last(), SpecShape::Semantic(v));
            },
            None => {},
        }
    } else {
        assert(cs.drop_last()[i] == v);
        lemma_best_match_exact_present(cs.drop_last(), v);
    }
}

/// An exact request selects nothing when the version it names is not
/// among the candidates.
proof fn lemma_best_match_exact_absent(cs: Seq<Version>, v: Version)
    requires
        forall|i: int| 0 <= i < cs.len() ==> cs[i] != v,
    ensures
        best_match(cs, SpecShape::Semantic(v)) is None,
    decreases cs.len(),
{
    if cs.len() > 0 {
        assert(forall|i: int| 0 <= i < cs.len() - 1 ==> cs.drop_last()[i] != v);
        lemma_best_match_exact_absent(cs.drop_last(), v);
    }
}

/// Resolution is idempotent once dereferenced: if a request resolves
/// to the concrete version `v`, then resolving the exact request for
/// `v` against the same state resolves to `v` again.
pub proof fn lemma_resolution_idempotent(
    bindings: Seq<(Seq<char>, SpecShape)>,
    installed: Seq<Version>,
    remote: Option<Seq<Version>>,
    s: SpecShape,
    v: Version,
)
    requires
        resolve_model(bindings, installed, remote, s) == Ok::<Version, ResolveError>(v),
    ensures
        resolve_model(bindings, installed, remote, SpecShape::Semantic(v)) == Ok::<
            Version,
            ResolveError,
        >(v),
{
    let chased = chase(entries_map(bindings), s, bindings.len());
    match chased {
        Ok(target) => {
            match best_match(installed, target) {
                Some(w) => {
                    lemma_best_match(installed, target);
                    lemma_best_match_exact_present(installed, v);
                },
                None => {
                    lemma_best_match(installed, target);
                    match remote {
                        Some(r) => {
                            lemma_best_match(r, target);
                            assert(req_matches(target, v));
                            assert(forall|i: int| 0 <= i < installed.len() ==> installed[i] != v);
                            lemma_best_match_exact_absent(installed, v);
                            lemma_best_match_exact_present(r, v);
                        },
                        None => {},
                    }
                },
            }
        },
        Err(e) => {},
    }
}

/// A two-name alias loop never bottoms out: the chase reports a cycle
/// whatever fuel it is given.
pub proof fn lemma_alias_cycle(
    aliases: Map<Seq<char>, SpecShape>,
    x: Seq<char>,
    y: Seq<char>,
    fuel: nat,
)
    requires
        aliases.contains_key(x),
        aliases.contains_key(y),
        aliases[x] == SpecShape::Alias(y),
        aliases[y] == SpecShape::Alias(x),
    ensures
        chase(aliases, SpecShape::Alias(x), fuel) == Err::<SpecShape, ResolveError>(
            ResolveError::AliasCycle,
        ),
    decreases fuel,
{
    if fuel > 0 {
        lemma_alias_cycle(aliases, y, x, (fuel - 1) as nat);
    }
}

/// The view of an optional remote version list.
pub open spec fn opt_versions_view(remote: Option<&Vec<Version>>) -> Option<Seq<Version>> {
    match remote {
        Some(r) => Some(r@),
        None => None,
    }
}

/// Decides whether `v` satisfies the request.
pub fn matches_req(spec: &UnresolvedVersionSpec, v: &Version) -> (r: bool)
    ensures
        r == req_matches(spec@, *v),
{
    match spec {
        UnresolvedVersionSpec::Latest => true,
        UnresolvedVersionSpec::Partial(major, minor) => v.major == *major && match minor {
            Some(m) => v.minor == *m,
            None => true,
        },
        UnresolvedVersionSpec::Gte(w) => w.le(v),
        UnresolvedVersionSpec::Semantic(w) => w == v,
        UnresolvedVersionSpec::Alias(_) => false,
        UnresolvedVersionSpec::Canary => false,
    }
}

/// The highest candidate in `cands` satisfying the request.
pub fn best_match_in(cands: &Vec<Version>, spec: &UnresolvedVersionSpec) -> (r: Option<Version>)
    ensures
        r == best_match(cands@, spec@),
{
    let mut best: Option<Version> = None;
    let mut i: usize = 0;
    while i < cands.len()
        invariant
            0 <= i <= cands@.len(),
            best == best_match(cands@.take(i as int), spec@),
        decreases cands@.len() - i,
    {
        let c = cands[i];
        proof {
            assert(cands@.take(i as int + 1).drop_last() =~= cands@.take(i as int));
            assert(cands@.take(i as int + 1).last() == cands@[i as int]);
        }
        if matches_req(spec, &c) {
            best = match best {
                Some(b) => if b.lt(&c) {
                    Some(c)
                } else {
                    Some(b)
                },
                None => Some(c),
            };
        }
        i = i + 1;
    }
    proof {
        assert(cands@.take(cands@.len() as int) =~= cands@);
    }
    best
}

/// Dereferences alias names, as `chase` describes.
fn chase_aliases(
    aliases: &AliasMap,
    current: &UnresolvedVersionSpec,
    fuel: usize,
) -> (r: Result<UnresolvedVersionSpec, ResolveError>)
    ensures
        r matches Ok(s) ==> chase(entries_map(aliases.bindings()), current@, fuel as nat)
            == Ok::<SpecShape, ResolveError>(s@),
        r matches Err(e) ==> chase(entries_map(aliases.bindings()), current@, fuel as nat)
            == Err::<SpecShape, ResolveError>(e),
    decreases fuel,
{
    let key: Option<&str> = match current {
        UnresolvedVersionSpec::Alias(name) => Some(name.as_str()),
        UnresolvedVersionSpec::Canary => Some("canary"),
        _ => None,
    };
    match key {
        None => Ok(current.duplicate()),
        Some(k) => match aliases.get(k) {
            None => Err(ResolveError::VersionNotFound),
            Some(next) => {
                if fuel == 0 {
                    Err(ResolveError::AliasCycle)
                } else {
                    chase_aliases(aliases, next, fuel - 1)
                }
            },
        },
    }
}

/// Resolves a request to a concrete version, as `resolve_model`
/// describes: dereference aliases, then pick the highest satisfying
/// installed version, falling back to the remote list only when no
/// installed version satisfies.
pub fn resolve(
    spec: &UnresolvedVersionSpec,
    aliases: &AliasMap,
    installed: &Vec<Version>,
    remote: Option<&Vec<Version>>,
) -> (r: Result<Version, ResolveError>)
    ensures
        r == resolve_model(aliases.bindings(), installed@, opt_versions_view(remote), spec@),
{
    let current = match chase_aliases(aliases, spec, aliases.binding_count()) {
        Ok(s) => s,
        Err(e) => {
            return Err(e);
        },
    };
    match best_match_in(installed, &current) {
        Some(v) => Ok(v),
        None => match remote {
            Some(r) => match best_match_in(r, &current) {
                Some(v) => Ok(v),
                None => Err(ResolveError::VersionNotFound),
            },
            None => Err(ResolveError::VersionNotFound),
        },
    }
}

} // verus!
