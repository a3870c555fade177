//! Asset resolution: the walk from a start directory up through its parents
//! that finds the install root and collects every material archive passed on
//! the way, honoring the overlay-continuation flag.

use vstd::prelude::*;
use vstd::string::*;
use crate::errors::Error;

verus! {

/// What a look at one directory shows: whether a material archive lies
/// there, whether that archive's texture-map definition asks that the search
/// continue (either overload flag set), and whether the two root-marker
/// archives are both present.
#[derive(Clone, Copy, Debug, PartialEq, Eq, Structural)]
pub struct DirProbe {
    pub has_material: bool,
    pub overload: bool,
    pub has_root_markers: bool,
}

/// Where the walk ended, each directory named by its distance from the
/// start: the directory whose material archive is the base, the directories
/// holding overlay archives in discovery order, and the root.
pub struct Resolution {
    pub base: usize,
    pub overlays: Vec<usize>,
    pub root: usize,
}

/// The three ways a walk can end.
pub ghost enum ResolveOutcome {
    /// The root was found with a base archive in hand.
    Found { base: int, overlays: Seq<int>, root: int },
    /// The walk ran out of parents before any root markers appeared.
    NoRoot,
    /// The root was found, but no material archive anywhere on the way.
    NoMaterial,
}

/// The walk from position `k` upward, carrying the base found so far, the
/// overlays collected so far, and whether the last captured definition asked
/// that the search continue. A directory's material archive is captured
/// while no base exists or that flag is set; the walk ends at the first
/// directory holding both root markers.
pub open spec fn resolve_from(
    dirs: Seq<DirProbe>,
    k: int,
    base: Option<int>,
    overlays: Seq<int>,
    search: bool,
) -> ResolveOutcome
    decreases dirs.len() - k,
{
    if k < 0 || k >= dirs.len() {
        ResolveOutcome::NoRoot
    } else {
        let d = dirs[k];
        let capture = (base is None || search) && d.has_material;
        let base2 = if capture && base is None {
            Some(k)
        } else {
            base
        };
        let overlays2 = if capture && base is Some {
            overlays.push(k)
        } else {
            overlays
        };
        let search2 = if capture {
            d.overload
        } else {
            search
        };
        if d.has_root_markers {
            match base2 {
                Some(b) => ResolveOutcome::Found { base: b, overlays: overlays2, root: k },
                None => ResolveOutcome::NoMaterial,
            }
        } else {
            resolve_from(dirs, k + 1, base2, overlays2, search2)
        }
    }
}

/// The whole walk, from the start directory with nothing in hand.
pub open spec fn resolve_spec(dirs: Seq<DirProbe>) -> ResolveOutcome {
    resolve_from(dirs, 0, None, Seq::empty(), false)
}

/// Walks the directory chain and reports which directories hold the base
/// archive, the overlay archives and the root. Running out of parents, and
/// finding the root with no material archive in hand, are the two failures.
#[verifier::loop_isolation(false)]
pub fn resolve(dirs: &Vec<DirProbe>) -> (r: Result<Resolution, Error>)
    ensures
        match r {
            Ok(res) => resolve_spec(dirs@) == (ResolveOutcome::Found {
                base: res.base as int,
                overlays: res.overlays@.map_values(|u: usize| u as int),
                root: res.root as int,
            }),
            Err(e) => {
                &&& resolve_spec(dirs@) is NoRoot || resolve_spec(dirs@) is NoMaterial
                &&& (resolve_spec(dirs@) is NoRoot ==> (e matches Error::Msg(m) && m@
                    == "couldn't find base path"@))
                &&& (resolve_spec(dirs@) is NoMaterial ==> (e matches Error::Msg(m) && m@
                    == "couldn't find Material.ocg"@))
            },
        },
{
    let mut base: Option<usize> = None;
    let mut overlays: Vec<usize> = Vec::new();
    let mut search: bool = false;
    let mut k: usize = 0;
    proof {
        assert(overlays@.map_values(|u: usize| u as int) =~= Seq::<int>::empty());
    }
    while k < dirs.len()
        invariant
            k <= dirs@.len(),
            resolve_spec(dirs@) == resolve_from(
                dirs@,
                k as int,
                match base {
                    Some(b) => Some(b as int),
                    None => None::<int>,
                },
                overlays@.map_values(|u: usize| u as int),
                search,
            ),
        decreases dirs@.len() - k,
    {
        let d = dirs[k];
        let capture = (base.is_none() || search) && d.has_material;
        let ghost overlays_before = overlays@;
        if capture {
            if base.is_none() {
                base = Some(k);
            } else {
                overlays.push(k);
                proof {
                    assert(overlays@.map_values(|u: usize| u as int)
                        =~= overlays_before.map_values(|u: usize| u as int).push(k as int));
                }
            }
            search = d.overload;
        }
        if d.has_root_markers {
            match base {
                Some(b) => {
                    return Ok(Resolution { base: b, overlays, root: k });
                },
                None => {
                    return Err(Error::Msg(String::from_str("couldn't find Material.ocg")));
                },
            }
        }
        k = k + 1;
    }
    Err(Error::Msg(String::from_str("couldn't find base path")))
}

/// With the material archive and both root markers in the starting
/// directory, resolution yields exactly that one base archive and no
/// overlays.
pub proof fn lemma_base_at_root(dirs: Seq<DirProbe>)
    requires
        dirs.len() >= 1,
        dirs[0].has_material,
        dirs[0].has_root_markers,
    ensures
        resolve_spec(dirs) == (ResolveOutcome::Found {
            base: 0,
            overlays: Seq::<int>::empty(),
            root: 0,
        }),
{
}

/// Once a base is in hand and its definition did not ask that the search
/// continue, the walk captures nothing more and ends at the first directory
/// with root markers.
proof fn lemma_walk_without_search(dirs: Seq<DirProbe>, k: int, b: int, overlays: Seq<int>, root: int)
    requires
        0 <= k <= root < dirs.len(),
        dirs[root].has_root_markers,
        forall|j: int| k <= j < root ==> !(#[trigger] dirs[j]).has_root_markers,
    ensures
        resolve_from(dirs, k, Some(b), overlays, false) == (ResolveOutcome::Found {
            base: b,
            overlays,
            root,
        }),
    decreases root - k,
{
    if k < root {
        lemma_walk_without_search(dirs, k + 1, b, overlays, root);
    }
}

/// With a material archive in the starting directory whose definition does
/// not ask that the search continue, resolution yields exactly that one
/// base archive and no overlays, however many material archives lie
/// farther up; the root is the first directory with both markers.
pub proof fn lemma_no_overload_single_base(dirs: Seq<DirProbe>, root: int)
    requires
        dirs.len() >= 1,
        dirs[0].has_material,
        !dirs[0].overload,
        0 <= root < dirs.len(),
        dirs[root].has_root_markers,
        forall|j: int| 0 <= j < root ==> !(#[trigger] dirs[j]).has_root_markers,
    ensures
        resolve_spec(dirs) == (ResolveOutcome::Found {
            base: 0,
            overlays: Seq::<int>::empty(),
            root,
        }),
{
    if root == 0 {
    } else {
        lemma_walk_without_search(dirs, 1, 0, Seq::empty(), root);
    }
}

} // verus!
