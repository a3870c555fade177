//! Rendering of game-map descriptions into color images, built around an
//! opaque map-generation engine.
//!
//! The library models the engine-adjacent state (archives, material and
//! texture catalogs, scenario parameters, render configuration) as plain
//! values and verifies the logic that operates on them: resolving the asset
//! root, cataloguing materials and textures, computing average texture
//! colors, materializing indexed rasters into true-color images, inferring
//! map types, and the decision rules of the watch and service loops.

use vstd::prelude::*;
use vstd::string::*;

pub mod color;
pub mod easy;
pub mod errors;
pub mod group;
pub mod mapgen;
pub mod mattex;
pub mod msg;
pub mod resolver;
pub mod scenpar;
pub mod strutil;
pub mod system;
pub mod watch;

verus! {

/// Tells whether a path names a BMP file by its extension.
pub fn is_bmp(path: &str) -> (r: bool)
    ensures
        r == is_suffix_of(".bmp"@, path@),
{
    ends_with(path, ".bmp")
}

/// True when `suffix` is a suffix of `s`.
pub open spec fn is_suffix_of(suffix: Seq<char>, s: Seq<char>) -> bool {
    suffix.len() <= s.len() && s.subrange(s.len() - suffix.len(), s.len() as int) == suffix
}

/// Compares the tail of `s` against `suffix`, character by character.
pub fn ends_with(s: &str, suffix: &str) -> (r: bool)
    ensures
        r == is_suffix_of(suffix@, s@),
{
    let n: usize = s.unicode_len();
    let m: usize = suffix.unicode_len();
    if m > n {
        assert(!is_suffix_of(suffix@, s@));
        return false;
    }
    let mut i: usize = 0;
    while i < m
        invariant
            m <= n,
            i <= m,
            n == s@.len(),
            m == suffix@.len(),
            forall|j: int| 0 <= j < i ==> s@[n - m + j] == suffix@[j],
        decreases m - i,
    {
        if s.get_char(n - m + i) != suffix.get_char(i) {
            assert(s@[n - m + i] != suffix@[i as int]);
            assert(!is_suffix_of(suffix@, s@)) by {
                if is_suffix_of(suffix@, s@) {
                    assert(s@.subrange(n - m, n as int)[i as int] == suffix@[i as int]);
                }
            }
            return false;
        }
        i = i + 1;
    }
    assert(s@.subrange(n - m, n as int) =~= suffix@);
    true
}

} // verus!
