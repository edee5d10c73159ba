//! The virtual path translator: a fixed table of host-directory to
//! mount-name mappings, established when a plugin is loaded,
//! translates real paths into sandbox-visible virtual paths and back.
//! Translation is a pure function of the table; a real path outside
//! every mapped directory fails with `PathNotMapped` instead of
//! leaking through.

use vstd::prelude::*;

use crate::version_spec::str_eq;

verus! {

/// Why a path could not be translated.
#[derive(Clone, Copy, PartialEq, Eq, Structural, Debug)]
pub enum PathError {
    /// The path lies outside every mapped directory.
    PathNotMapped,
}

/// The views of a run of path segments.
pub open spec fn segs_view(s: Seq<String>) -> Seq<Seq<char>> {
    s.map_values(|x: String| x@)
}

/// A real host path, as its segments from the root.
#[derive(Debug)]
pub struct RealPath {
    pub segments: Vec<String>,
}

impl View for RealPath {
    type V = Seq<Seq<char>>;

    open spec fn view(&self) -> Seq<Seq<char>> {
        segs_view(self.segments@)
    }
}

/// A sandbox-visible path: a mount name and the segments below it.
#[derive(Debug)]
pub struct VirtualPath {
    pub mount: String,
    pub segments: Vec<String>,
}

impl View for VirtualPath {
    type V = (Seq<char>, Seq<Seq<char>>);

    open spec fn view(&self) -> (Seq<char>, Seq<Seq<char>>) {
        (self.mount@, segs_view(self.segments@))
    }
}

/// One host directory exposed under a stable mount name.
pub struct PathMapping {
    pub real_prefix: Vec<String>,
    pub mount: String,
}

/// The fixed mapping table a plugin was loaded with.
pub struct PathTable {
    pub mappings: Vec<PathMapping>,
}

impl View for PathTable {
    type V = Seq<(Seq<Seq<char>>, Seq<char>)>;

    open spec fn view(&self) -> Seq<(Seq<Seq<char>>, Seq<char>)> {
        self.mappings@.map_values(|m: PathMapping| (segs_view(m.real_prefix@), m.mount@))
    }
}

/// Is `p` a (segment-wise) prefix of `s`?
pub open spec fn is_seg_prefix(p: Seq<Seq<char>>, s: Seq<Seq<char>>) -> bool {
    p.len() <= s.len() && forall|i: int| 0 <= i < p.len() ==> p[i] == s[i]
}

/// Where a real path translates to: the first mapping whose directory
/// contains it, as the mount name and the segments below the mapped
/// directory; nothing if no mapping contains it.
pub open spec fn spec_to_virtual(
    ms: Seq<(Seq<Seq<char>>, Seq<char>)>,
    p: Seq<Seq<char>>,
) -> Option<(Seq<char>, Seq<Seq<char>>)>
    decreases ms.len(),
{
    if ms.len() == 0 {
        None
    } else if is_seg_prefix(ms[0].0, p) {
        Some((ms[0].1, p.skip(ms[0].0.len() as int)))
    } else {
        spec_to_virtual(ms.drop_first(), p)
    }
}

/// Where a virtual path translates back to: the directory of the
/// first mapping with that mount name, extended by the segments below
/// it; nothing if no mapping bears the name.
pub open spec fn spec_from_virtual(
    ms: Seq<(Seq<Seq<char>>, Seq<char>)>,
    mount: Seq<char>,
    rest: Seq<Seq<char>>,
) -> Option<Seq<Seq<char>>>
    decreases ms.len(),
{
    if ms.len() == 0 {
        None
    } else if ms[0].1 == mount {
        Some(ms[0].0 + rest)
    } else {
        spec_from_virtual(ms.drop_first(), mount, rest)
    }
}

/// Checks whether the mapping's directory contains the path.
fn check_seg_prefix(prefix: &Vec<String>, path: &Vec<String>) -> (r: bool)
    ensures
        r == is_seg_prefix(segs_view(prefix@), segs_view(path@)),
{
    if prefix.len() > path.len() {
        return false;
    }
    let mut i: usize = 0;
    while i < prefix.len()
        invariant
            0 <= i <= prefix@.len(),
            prefix@.len() <= path@.len(),
            forall|k: int| 0 <= k < i ==> (#[trigger] prefix@[k])@ == path@[k]@,
        decreases prefix@.len() - i,
    {
        if !str_eq(prefix[i].as_str(), path[i].as_str()) {
            proof {
                assert(segs_view(prefix@)[i as int] == prefix@[i as int]@);
                assert(segs_view(path@)[i as int] == path@[i as int]@);
            }
            return false;
        }
        i = i + 1;
    }
    proof {
        assert forall|k: int| 0 <= k < segs_view(prefix@).len() implies segs_view(prefix@)[k]
            == segs_view(path@)[k] by {
            assert(segs_view(prefix@)[k] == prefix@[k]@);
            assert(segs_view(path@)[k] == path@[k]@);
        }
    }
    true
}

/// Copies the segments of `src` from `from` on.
fn copy_segments(src: &Vec<String>, from: usize) -> (r: Vec<String>)
    requires
        from <= src@.len(),
    ensures
        segs_view(r@) == segs_view(src@).skip(from as int),
{
    let mut out: Vec<String> = Vec::new();
    let mut i = from;
    while i < src.len()
        invariant
            from <= i <= src@.len(),
            segs_view(out@) =~= segs_view(src@).subrange(from as int, i as int),
        decreases src@.len() - i,
    {
        out.push(src[i].clone());
        proof {
            assert(segs_view(src@).subrange(from as int, i as int + 1) =~= segs_view(
                src@,
            ).subrange(from as int, i as int).push(segs_view(src@)[i as int]));
        }
        i = i + 1;
    }
    proof {
        assert(segs_view(src@).subrange(from as int, src@.len() as int) =~= segs_view(
            src@,
        ).skip(from as int));
    }
    out
}

impl PathTable {
    /// Translates a real path into the sandbox's virtual path space.
    /// A path outside every mapped directory fails with
    /// `PathNotMapped`: it never passes through to the sandbox.
    pub fn to_virtual_path(&self, path: &RealPath) -> (r: Result<VirtualPath, PathError>)
        ensures
            match r {
                Ok(v) => spec_to_virtual(self@, path@) == Some(v@),
                Err(e) => e == PathError::PathNotMapped && spec_to_virtual(self@, path@)
                    is None,
            },
    {
        proof {
            assert(self@.skip(0) =~= self@);
        }
        let mut i: usize = 0;
        while i < self.mappings.len()
            invariant
                0 <= i <= self.mappings@.len(),
                spec_to_virtual(self@, path@) == spec_to_virtual(self@.skip(i as int), path@),
            decreases self.mappings@.len() - i,
        {
            proof {
                assert(self@.skip(i as int).drop_first() =~= self@.skip(i as int + 1));
                assert(self@.skip(i as int)[0] == self@[i as int]);
            }
            let m = &self.mappings[i];
            if check_seg_prefix(&m.real_prefix, &path.segments) {
                let segments = copy_segments(&path.segments, m.real_prefix.len());
                return Ok(VirtualPath { mount: m.mount.clone(), segments });
            }
            i = i + 1;
        }
        proof {
            assert(self@.skip(self.mappings@.len() as int) =~= Seq::<(
                Seq<Seq<char>>,
                Seq<char>,
            )>::empty());
        }
        Err(PathError::PathNotMapped)
    }

    /// Translates a sandbox-visible path back to the real host path.
    pub fn from_virtual_path(&self, virt: &VirtualPath) -> (r: Result<RealPath, PathError>)
        ensures
            match r {
                Ok(p) => spec_from_virtual(self@, virt.mount@, segs_view(virt.segments@))
                    == Some(p@),
                Err(e) => e == PathError::PathNotMapped && spec_from_virtual(
                    self@,
                    virt.mount@,
                    segs_view(virt.segments@),
                ) is None,
            },
    {
        proof {
            assert(self@.skip(0) =~= self@);
        }
        let mut i: usize = 0;
        while i < self.mappings.len()
            invariant
                0 <= i <= self.mappings@.len(),
                spec_from_virtual(self@, virt.mount@, segs_view(virt.segments@))
                    == spec_from_virtual(
                    self@.skip(i as int),
                    virt.mount@,
                    segs_view(virt.segments@),
                ),
            decreases self.mappings@.len() - i,
        {
            proof {
                assert(self@.skip(i as int).drop_first() =~= self@.skip(i as int + 1));
                assert(self@.skip(i as int)[0] == self@[i as int]);
            }
            let m = &self.mappings[i];
            if str_eq(m.mount.as_str(), virt.mount.as_str()) {
                let mut segments = copy_segments(&m.real_prefix, 0);
                let mut tail = copy_segments(&virt.segments, 0);
                segments.append(&mut tail);
                proof {
                    assert(segs_view(m.real_prefix@).skip(0) =~= segs_view(m.real_prefix@));
                    assert(segs_view(virt.segments@).skip(0) =~= segs_view(virt.segments@));
                    assert(segs_view(segments@) =~= segs_view(m.real_prefix@) + segs_view(
                        virt.segments@,
                    ));
                }
                return Ok(RealPath { segments });
            }
            i = i + 1;
        }
        proof {
            assert(self@.skip(self.mappings@.len() as int) =~= Seq::<(
                Seq<Seq<char>>,
                Seq<char>,
            )>::empty());
        }
        Err(PathError::PathNotMapped)
    }
}

/// A translated path names some mapping's mount.
proof fn lemma_to_virtual_names_a_mount(
    ms: Seq<(Seq<Seq<char>>, Seq<char>)>,
    p: Seq<Seq<char>>,
)
    requires
        spec_to_virtual(ms, p) is Some,
    ensures
        exists|i: int| 0 <= i < ms.len() && (#[trigger] ms[i]).1 == spec_to_virtual(ms, p)->Some_0.0,
    decreases ms.len(),
{
    if ms.len() > 0 && !is_seg_prefix(ms[0].0, p) {
        lemma_to_virtual_names_a_mount(ms.drop_first(), p);
        let j = choose|j: int|
            0 <= j < ms.drop_first().len() && (#[trigger] ms.drop_first()[j]).1
                == spec_to_virtual(ms.drop_first(), p)->Some_0.0;
        assert(ms[j + 1] == ms.drop_first()[j]);
    }
}

/// With distinct mount names, translating a real path into the
/// sandbox and back returns the original path: the mapping is
/// bidirectional on everything it covers.
pub proof fn lemma_path_roundtrip(ms: Seq<(Seq<Seq<char>>, Seq<char>)>, p: Seq<Seq<char>>)
    requires
        forall|i: int, j: int|
            0 <= i < j < ms.len() ==> (#[trigger] ms[i]).1 != (#[trigger] ms[j]).1,
        spec_to_virtual(ms, p) is Some,
    ensures
        spec_from_virtual(
            ms,
            spec_to_virtual(ms, p)->Some_0.0,
            spec_to_virtual(ms, p)->Some_0.1,
        ) == Some(p),
    decreases ms.len(),
{
    let v = spec_to_virtual(ms, p)->Some_0;
    if is_seg_prefix(ms[0].0, p) {
        assert(ms[0].0 + p.skip(ms[0].0.len() as int) =~= p);
    } else {
        lemma_to_virtual_names_a_mount(ms.drop_first(), p);
        let j = choose|j: int|
            0 <= j < ms.drop_first().len() && (#[trigger] ms.drop_first()[j]).1
                == spec_to_virtual(ms.drop_first(), p)->Some_0.0;
        assert(ms[j + 1] == ms.drop_first()[j]);
        assert(ms[0].1 != v.0);
        assert(forall|i: int, j: int|
            0 <= i < j < ms.drop_first().len() ==> (#[trigger] ms.drop_first()[i]).1
                != (#[trigger] ms.drop_first()[j]).1);
        lemma_path_roundtrip(ms.drop_first(), p);
    }
}

} // verus!
