//! Version-shim manager: per logical tool ("php", "node") one filesystem
//! indirection under a fixed bin directory points at the currently selected
//! installed version.
//!
//! The link operations themselves (metadata probe, removal, creation) are
//! platform work done by the unverified shell.  This module decides, from
//! the shell's findings, which directory the link must point at and whether
//! an existing link has to be removed first, and it computes the version
//! name back out of a link target.  The link table on disk is modelled as a
//! map from tool name to target path, over which the round-trip and
//! idempotence laws are stated.

use vstd::prelude::*;
use crate::strutil::rfind_char;

verus! {

/// Why switching the active version failed.
#[derive(Clone, Copy, Debug, PartialEq, Eq, Structural)]
pub enum ShimError {
    /// Neither the version folder itself nor its same-named nested folder
    /// holds the expected executable.
    TargetNotFound,
    /// The platform refused to create the link.
    LinkError,
}

/// Which directory the link points at.
#[derive(Clone, Copy, Debug, PartialEq, Eq, Structural)]
pub enum ShimTarget {
    /// The version folder itself holds the executable.
    Direct,
    /// A nested folder with the version folder's own name holds it (a common
    /// artifact of archive extraction).
    Nested,
}

/// Filesystem findings the shell gathers before a switch: whether the
/// expected executable sits directly under the version folder, whether it
/// sits one level down in the same-named nested folder, and whether a shim
/// entry (even a dangling one, per the metadata probe) already exists.
pub struct ShimProbe {
    pub direct_has_exe: bool,
    pub nested_has_exe: bool,
    pub link_present: bool,
}

/// What the shell must do for one switch: remove the existing entry first
/// (exactly when one is present, dangling or not), then link to the resolved
/// target.
#[derive(Clone, Copy, Debug, PartialEq, Eq, Structural)]
pub struct ShimPlan {
    pub remove_existing: bool,
    pub target: ShimTarget,
}

/// Decide one `setActive(tool, versionFolder)` call from the shell's
/// findings: the direct location wins over the nested one; when neither
/// holds the executable the switch fails with `TargetNotFound` and nothing
/// on disk is touched.
pub fn set_active_version(probe: &ShimProbe) -> (r: Result<ShimPlan, ShimError>)
    ensures
        probe.direct_has_exe ==> r == Ok::<ShimPlan, ShimError>(ShimPlan {
            remove_existing: probe.link_present,
            target: ShimTarget::Direct,
        }),
        !probe.direct_has_exe && probe.nested_has_exe ==> r == Ok::<ShimPlan, ShimError>(ShimPlan {
            remove_existing: probe.link_present,
            target: ShimTarget::Nested,
        }),
        !probe.direct_has_exe && !probe.nested_has_exe ==> r == Err::<ShimPlan, ShimError>(
            ShimError::TargetNotFound,
        ),
{
    if probe.direct_has_exe {
        Ok(ShimPlan { remove_existing: probe.link_present, target: ShimTarget::Direct })
    } else if probe.nested_has_exe {
        Ok(ShimPlan { remove_existing: probe.link_present, target: ShimTarget::Nested })
    } else {
        Err(ShimError::TargetNotFound)
    }
}

/// `base/seg`.
pub fn join_path(base: &str, seg: &str) -> (r: String)
    ensures
        r@ == base@ + "/"@ + seg@,
{
    let mut s = base.to_owned();
    s.append("/");
    s.append(seg);
    s
}

/// The directory the shim entry must point at: the version folder under the
/// services directory, or the same-named nested folder one level down.
pub fn shim_target_path(services_dir: &str, version_folder: &str, target: ShimTarget) -> (r:
    String)
    ensures
        target is Direct ==> r@ == services_dir@ + "/"@ + version_folder@,
        target is Nested ==> r@ == services_dir@ + "/"@ + version_folder@ + "/"@ + version_folder@,
{
    match target {
        ShimTarget::Direct => join_path(services_dir, version_folder),
        ShimTarget::Nested => {
            let direct = join_path(services_dir, version_folder);
            join_path(direct.as_str(), version_folder)
        },
    }
}

/// The fixed location of a tool's shim entry under the bin directory.
pub fn shim_link_path(bin_dir: &str, tool: &str) -> (r: String)
    ensures
        r@ == bin_dir@ + "/"@ + tool@,
{
    join_path(bin_dir, tool)
}

/// The final path segment: everything after the last `/`, or the whole path
/// when it has none.
pub open spec fn spec_last_segment(p: Seq<char>) -> Seq<char>
    decreases p.len(),
{
    if p.len() == 0 {
        p
    } else if p.last() == '/' {
        Seq::empty()
    } else {
        spec_last_segment(p.drop_last()).push(p.last())
    }
}

/// The last segment is the suffix that follows the last `/`.
proof fn lemma_last_segment_after(p: Seq<char>, i: int)
    requires
        0 <= i < p.len(),
        p[i] == '/',
        forall|j: int| i < j < p.len() ==> p[j] != '/',
    ensures
        spec_last_segment(p) == p.subrange(i + 1, p.len() as int),
    decreases p.len(),
{
    if i == p.len() - 1 {
        assert(p.last() == '/');
        assert(p.subrange(i + 1, p.len() as int) =~= Seq::<char>::empty());
    } else {
        assert(p.last() != '/');
        lemma_last_segment_after(p.drop_last(), i);
        assert(spec_last_segment(p.drop_last()) == p.drop_last().subrange(
            i + 1,
            p.len() - 1,
        ));
        assert(p.drop_last().subrange(i + 1, p.len() - 1).push(p.last()) =~= p.subrange(
            i + 1,
            p.len() as int,
        ));
    }
}

/// A path without `/` is its own last segment.
proof fn lemma_last_segment_whole(p: Seq<char>)
    requires
        forall|j: int| 0 <= j < p.len() ==> p[j] != '/',
    ensures
        spec_last_segment(p) == p,
    decreases p.len(),
{
    if p.len() > 0 {
        lemma_last_segment_whole(p.drop_last());
        assert(p.drop_last().push(p.last()) =~= p);
    }
}

/// The version folder name a link target resolves to: its final path
/// segment.
pub fn version_from_target(target: &str) -> (r: String)
    ensures
        r@ == spec_last_segment(target@),
{
    let n = target.unicode_len();
    match rfind_char(target, '/') {
        Some(i) => {
            proof {
                lemma_last_segment_after(target@, i as int);
            }
            target.substring_char(i + 1, n).to_owned()
        },
        None => {
            proof {
                lemma_last_segment_whole(target@);
            }
            target.to_owned()
        },
    }
}

/// What the shell found at a tool's shim location.
pub enum LinkState {
    /// No entry at all (the metadata probe failed).
    Absent,
    /// An entry exists but its target could not be resolved.
    Unreadable,
    /// The entry resolves to this target path.
    Target(String),
}

/// Answer one `getActive(tool)` call: the sentinel `Not Set` when no entry
/// exists, the target's final path segment when it resolves, and `Unknown`
/// when the entry exists but cannot be resolved or resolves to a path with
/// an empty final segment.
pub fn get_active_version(link: &LinkState) -> (r: String)
    ensures
        link is Absent ==> r@ == "Not Set"@,
        link is Unreadable ==> r@ == "Unknown"@,
        link matches LinkState::Target(t) ==> r@ == if spec_last_segment(t@).len() > 0 {
            spec_last_segment(t@)
        } else {
            "Unknown"@
        },
{
    match link {
        LinkState::Absent => String::from_str("Not Set"),
        LinkState::Unreadable => String::from_str("Unknown"),
        LinkState::Target(t) => {
            let seg = version_from_target(t.as_str());
            if seg.as_str().unicode_len() == 0 {
                String::from_str("Unknown")
            } else {
                seg
            }
        },
    }
}

/// Round trip: switching a tool to a version folder and then asking for the
/// active version answers that folder's name.  The link table holds the
/// joined target path (any base, `/`, then the folder name); reading the
/// version back out of it recovers the name, for every folder name that is
/// nonempty and free of `/`.
pub proof fn lemma_set_then_get_round_trip(
    links: Map<Seq<char>, Seq<char>>,
    tool: Seq<char>,
    base: Seq<char>,
    version: Seq<char>,
)
    requires
        version.len() > 0,
        forall|j: int| 0 <= j < version.len() ==> version[j] != '/',
    ensures
        ({
            let target = base + "/"@ + version;
            let after = links.insert(tool, target);
            &&& after.contains_key(tool)
            &&& after[tool] == target
            &&& spec_last_segment(after[tool]) == version
        }),
{
    reveal_strlit("/");
    let target = base + "/"@ + version;
    let i = base.len() as int;
    assert(target[i] == '/');
    assert forall|j: int| i < j < target.len() implies target[j] != '/' by {
        assert(target[j] == version[j - i - 1]);
    }
    lemma_last_segment_after(target, i);
    assert(target.subrange(i + 1, target.len() as int) =~= version);
}

/// Idempotence: switching a tool to the same target again leaves the link
/// table exactly as one switch leaves it — one entry per tool, so repeated
/// switches accumulate nothing.
pub proof fn lemma_set_active_idempotent(
    links: Map<Seq<char>, Seq<char>>,
    tool: Seq<char>,
    target: Seq<char>,
)
    ensures
        links.insert(tool, target).insert(tool, target) == links.insert(tool, target),
{
    assert(links.insert(tool, target).insert(tool, target) =~= links.insert(tool, target));
}

} // verus!
