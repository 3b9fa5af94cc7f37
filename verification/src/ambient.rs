//! Clouds and rain over the overworld.

use vstd::prelude::*;

use crate::terrain::fog::FogOfWar;
use crate::terrain::water_shader::lemma_negative_mod;
use crate::terrain::world::{scramble, scrambled, tile_hash};

verus! {

pub const CLOUD_COUNT: u32 = 18;

/// Number of distinct cloud textures.
pub const CLOUD_VARIANTS: u32 = 3;

/// Noise value of a lattice point in units of one part in 2^24: the same for
/// the same point and seed.
pub open spec fn cloud_lattice(x: int, y: int, seed: u32) -> u32 {
    scrambled(((x * 374761393 + y * 668265263 + seed) % 0x1_0000_0000) as u32) & 0x00FF_FFFF
}

/// Noise value of a lattice point.
pub fn hash2d(x: i32, y: i32, seed: u32) -> (value: u32)
    ensures
        value == cloud_lattice(x as int, y as int, seed),
        value <= 0x00FF_FFFF,
{
    let sum: i128 = x as i128 * 374761393 + y as i128 * 668265263 + seed as i128;
    let folded: u32 = if sum >= 0 {
        (sum % 0x1_0000_0000) as u32
    } else {
        proof {
            lemma_negative_mod(sum as int, 0x1_0000_0000);
        }
        (0xFFFF_FFFF - (-(sum + 1)) % 0x1_0000_0000) as u32
    };
    let h: u32 = scramble(folded);
    assert(h & 0x00FF_FFFF <= 0x00FF_FFFF) by (bit_vector);
    h & 0x00FF_FFFF
}

/// Seed of a cloud texture.
pub fn variant_seed(variant: u32) -> (seed: u32)
    requires
        variant < CLOUD_VARIANTS,
    ensures
        seed == 0x1234 + variant * 7919,
{
    0x1234 + variant * 7919
}

/// Seed of an octave of a cloud's noise.
pub fn octave_seed(seed: u32, octave: u32) -> (octave_seed: u32)
    requires
        octave < 4,
    ensures
        octave_seed == (seed + octave * 101) % 0x1_0000_0000,
{
    ((seed as u64 + octave as u64 * 101) % 0x1_0000_0000) as u32
}

/// Texture of a cloud: the variants take turns.
pub fn cloud_variant(cloud: u32) -> (variant: u32)
    ensures
        variant == cloud % CLOUD_VARIANTS,
        variant < CLOUD_VARIANTS,
{
    cloud % CLOUD_VARIANTS
}

/// Whether clouds show and rain falls: on the overworld, once it is there.
pub fn has_sky(world_known: bool, inside: bool) -> (sky: bool)
    ensures
        sky == (world_known && !inside),
{
    world_known && !inside
}

/// The tile under a drop has been seen; what the fog does not cover counts as
/// seen.
pub open spec fn drop_over_seen(fog: Option<&FogOfWar>, tx: int, ty: int) -> bool {
    match fog {
        Some(f) => 0 <= tx < f.width && 0 <= ty < f.height ==> f.seen(tx, ty),
        None => true,
    }
}

/// Whether a drop is drawn dark: over terrain that has been seen. Over the
/// fog it is drawn light.
pub fn drop_is_dark(fog: Option<&FogOfWar>, tx: usize, ty: usize) -> (dark: bool)
    requires
        fog matches Some(f) ==> f.wf(),
    ensures
        dark == drop_over_seen(fog, tx as int, ty as int),
{
    match fog {
        Some(f) => tx >= f.width || ty >= f.height || f.is_revealed(tx, ty),
        None => true,
    }
}

/// Without fog, and beyond what it covers, every drop is dark; over the fog's
/// tiles only the drops on those that were seen are.
pub proof fn drops_are_dark_over_what_was_seen(fog: FogOfWar, tx: int, ty: int)
    ensures
        drop_over_seen(None, tx, ty),
        0 <= tx < fog.width && 0 <= ty < fog.height ==> (drop_over_seen(Some(&fog), tx, ty)
            <==> fog.seen(tx, ty)),
        tx < 0 || ty < 0 || tx >= fog.width || ty >= fog.height ==> drop_over_seen(
            Some(&fog),
            tx,
            ty,
        ),
{
}

/// The noise of the clouds is that of the land, cut to 24 bits, moved by the
/// seed.
pub proof fn clouds_share_the_noise_of_the_land(x: int, y: int, seed: u32)
    ensures
        cloud_lattice(x, y, 0) == tile_hash(x, y) & 0x00FF_FFFF,
        cloud_lattice(x, y, seed) == scrambled(
            ((x * 374761393 + y * 668265263 + seed) % 0x1_0000_0000) as u32,
        ) % 0x0100_0000,
{
    let h = scrambled(((x * 374761393 + y * 668265263 + seed) % 0x1_0000_0000) as u32);
    assert(h & 0x00FF_FFFF == h % 0x0100_0000) by (bit_vector);
}

} // verus!
