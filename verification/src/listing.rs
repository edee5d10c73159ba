//! Listing annotations: the text shown next to each installed version
//! of a tool — its install date, its last-used date where a marker
//! exists, and whether it is the pinned default version. The calendar
//! rendering of a timestamp comes from an outside date library behind
//! one trusted wrapper; everything composed around it is verified.

use vstd::prelude::*;

use crate::config::{pinned_spec_of, ConfigSet};
use crate::manifest::{used_at_of, ToolManifest};
use crate::version::Version;
use crate::version_spec::{spec_render_version, SpecShape, UnresolvedVersionSpec};

verus! {

/// The calendar-date text of a timestamp: what the date library
/// renders for the given seconds and nanoseconds since the epoch, a
/// function of the timestamp alone; out-of-range timestamps render
/// nothing.
pub uninterp spec fn date_label(secs: i64, nsecs: u32) -> Option<Seq<char>>;

/// Relies on chrono's `DateTime::from_timestamp`, `naive_local` on a
/// UTC value, and `format("%x")`: the rendered date depends on the
/// timestamp alone, and an out-of-range timestamp yields `None`.
#[verifier::external_body]
fn format_timestamp(secs: i64, nsecs: u32) -> (r: Option<String>)
    ensures
        match r {
            Some(s) => date_label(secs, nsecs) == Some(s@),
            None => date_label(secs, nsecs) is None,
        },
{
    match chrono::DateTime::from_timestamp(secs, nsecs) {
        Some(dt) => Some(dt.naive_local().format("%x").to_string()),
        None => None,
    }
}

/// The date text of a milliseconds-since-epoch timestamp.
pub open spec fn millis_date_label(millis: u128) -> Option<Seq<char>> {
    if millis / 1000 > i64::MAX as u128 {
        None
    } else {
        date_label((millis / 1000) as i64, ((millis % 1000) * 1000000) as u32)
    }
}

/// Renders a milliseconds-since-epoch timestamp as a calendar date.
pub fn format_millis(millis: u128) -> (r: Option<String>)
    ensures
        match r {
            Some(s) => millis_date_label(millis) == Some(s@),
            None => millis_date_label(millis) is None,
        },
{
    let secs_wide = millis / 1000;
    if secs_wide > i64::MAX as u128 {
        return None;
    }
    let secs = secs_wide as i64;
    let nsecs = ((millis % 1000) * 1000000) as u32;
    format_timestamp(secs, nsecs)
}

/// The comments shown for one installed version: its install date and
/// last-used date where they exist and render, and "default version"
/// where the pin names exactly this version.
pub open spec fn comment_list(
    installed_at: Option<u128>,
    last_used: Option<u128>,
    is_default: bool,
) -> Seq<Seq<char>> {
    (match installed_at {
        Some(t) => match millis_date_label(t) {
            Some(d) => seq!["installed "@ + d],
            None => Seq::<Seq<char>>::empty(),
        },
        None => Seq::<Seq<char>>::empty(),
    }) + (match last_used {
        Some(t) => match millis_date_label(t) {
            Some(d) => seq!["last used "@ + d],
            None => Seq::<Seq<char>>::empty(),
        },
        None => Seq::<Seq<char>>::empty(),
    }) + (if is_default {
        seq!["default version"@]
    } else {
        Seq::<Seq<char>>::empty()
    })
}

/// The comments joined with a comma and a space.
pub open spec fn join_comments(cs: Seq<Seq<char>>) -> Seq<char>
    decreases cs.len(),
{
    if cs.len() == 0 {
        Seq::<char>::empty()
    } else if cs.len() == 1 {
        cs[0]
    } else {
        join_comments(cs.drop_last()) + ", "@ + cs.last()
    }
}

/// Is the version the pinned default of its tool?
pub open spec fn is_default_of(pinned: Option<SpecShape>, v: Version) -> bool {
    pinned == Some(SpecShape::Semantic(v))
}

/// Joins ready-made comments.
fn join_exec(cs: &Vec<String>) -> (r: String)
    ensures
        r@ == join_comments(cs@.map_values(|c: String| c@)),
{
    let ghost shapes = cs@.map_values(|c: String| c@);
    let mut out = String::new();
    let mut i: usize = 0;
    while i < cs.len()
        invariant
            0 <= i <= cs@.len(),
            shapes == cs@.map_values(|c: String| c@),
            out@ == join_comments(shapes.take(i as int)),
        decreases cs@.len() - i,
    {
        proof {
            assert(shapes.take(i as int + 1).drop_last() =~= shapes.take(i as int));
            assert(shapes.take(i as int + 1).last() == shapes[i as int]);
        }
        if i > 0 {
            out.append(", ");
        }
        out.append(cs[i].as_str());
        i = i + 1;
    }
    proof {
        assert(shapes.take(shapes.len() as int) =~= shapes);
    }
    out
}

/// Describes one installed version for a listing: the joined comment
/// text, and whether the version is the pinned default. The last-used
/// time comes from the version's marker content, absent where no
/// marker exists.
pub fn describe_version(
    version: &Version,
    installed_at: Option<u128>,
    marker: Option<&str>,
    pinned: Option<&UnresolvedVersionSpec>,
) -> (r: (String, bool))
    ensures
        r.1 == is_default_of(
            match pinned {
                Some(p) => Some(p@),
                None => None,
            },
            *version,
        ),
        r.0@ == join_comments(
            comment_list(
                installed_at,
                used_at_of(
                    match marker {
                        Some(t) => Some(t@),
                        None => None,
                    },
                ),
                r.1,
            ),
        ),
{
    let is_default = match pinned {
        Some(p) => p.is_semantic_of(version),
        None => false,
    };
    let last_used = crate::manifest::load_used_at(marker);
    let mut comments: Vec<String> = Vec::new();
    match installed_at {
        Some(t) => match format_millis(t) {
            Some(d) => {
                let mut c = String::from_str("installed ");
                c.append(d.as_str());
                comments.push(c);
            },
            None => {},
        },
        None => {},
    }
    match last_used {
        Some(t) => match format_millis(t) {
            Some(d) => {
                let mut c = String::from_str("last used ");
                c.append(d.as_str());
                comments.push(c);
            },
            None => {},
        },
        None => {},
    }
    if is_default {
        comments.push(String::from_str("default version"));
    }
    proof {
        assert(comments@.map_values(|c: String| c@) =~= comment_list(
            installed_at,
            used_at_of(
                match marker {
                    Some(t) => Some(t@),
                    None => None,
                },
            ),
            is_default,
        ));
    }
    let joined = join_exec(&comments);
    (joined, is_default)
}

/// One line of a version listing: the version's canonical text, its
/// comments, and whether it is rendered with the pinned marker.
pub fn list_versions(
    manifest: &ToolManifest,
    markers: &Vec<Option<String>>,
    config: &ConfigSet,
    tool_id: &str,
) -> (r: Vec<(String, String, bool)>)
    requires
        markers@.len() == manifest.entries@.len(),
    ensures
        r@.len() == manifest.entries@.len(),
        forall|i: int|
            0 <= i < r@.len() ==> {
                let entry = manifest.entries@[i];
                let def = is_default_of(pinned_spec_of(*config, tool_id@), entry.version);
                (#[trigger] r@[i]).0@ == spec_render_version(entry.version) && r@[i].2 == def
                    && r@[i].1@ == join_comments(
                    comment_list(
                        Some(entry.installed_at),
                        used_at_of(
                            match markers@[i] {
                                Some(t) => Some(t@),
                                None => None,
                            },
                        ),
                        def,
                    ),
                )
            },
{
    let pinned = config.get_pinned_spec(tool_id);
    let mut out: Vec<(String, String, bool)> = Vec::new();
    let mut i: usize = 0;
    while i < manifest.entries.len()
        invariant
            0 <= i <= manifest.entries@.len(),
            markers@.len() == manifest.entries@.len(),
            out@.len() == i,
            match pinned {
                Some(p) => pinned_spec_of(*config, tool_id@) == Some(p@),
                None => pinned_spec_of(*config, tool_id@) is None,
            },
            forall|k: int|
                0 <= k < i ==> {
                    let entry = manifest.entries@[k];
                    let def = is_default_of(pinned_spec_of(*config, tool_id@), entry.version);
                    (#[trigger] out@[k]).0@ == spec_render_version(entry.version) && out@[k].2
                        == def && out@[k].1@ == join_comments(
                        comment_list(
                            Some(entry.installed_at),
                            used_at_of(
                                match markers@[k] {
                                    Some(t) => Some(t@),
                                    None => None,
                                },
                            ),
                            def,
                        ),
                    )
                },
        decreases manifest.entries@.len() - i,
    {
        let entry = &manifest.entries[i];
        let marker: Option<&str> = match &markers[i] {
            Some(t) => Some(t.as_str()),
            None => None,
        };
        let (comments, is_default) = describe_version(
            &entry.version,
            Some(entry.installed_at),
            marker,
            pinned,
        );
        let text = entry.version.render();
        out.push((text, comments, is_default));
        i = i + 1;
    }
    out
}

} // verus!
