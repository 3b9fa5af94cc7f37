//! Data for the water shader: the mask of shimmering tiles and the lattice of
//! its tileable noise.

use vstd::prelude::*;

use super::world_map::{Biome, WorldMap};

verus! {

/// Mask value of a biome: 255 for water, 128 for ice, 64 for swamp, 0 for land.
pub open spec fn shimmer(biome: Biome) -> u8 {
    match biome {
        Biome::Water | Biome::DeepWater => 255,
        Biome::Snow => 128,
        Biome::Swamp => 64,
        _ => 0,
    }
}

fn shimmer_of(biome: Biome) -> (value: u8)
    ensures
        value == shimmer(biome),
{
    match biome {
        Biome::Water | Biome::DeepWater => 255,
        Biome::Snow => 128,
        Biome::Swamp => 64,
        _ => 0,
    }
}

/// The mask over the whole map, one byte per tile, row by row.
pub fn water_mask(map: &WorldMap) -> (mask: Vec<u8>)
    requires
        map.wf(),
    ensures
        mask.len() == map.biomes.len(),
        forall|i: int| 0 <= i < mask.len() ==> #[trigger] mask@[i] == shimmer(map.biomes@[i]),
{
    let mut mask: Vec<u8> = Vec::new();
    let mut i: usize = 0;
    while i < map.biomes.len()
        invariant
            i <= map.biomes.len(),
            mask.len() == i,
            forall|j: int| 0 <= j < i ==> #[trigger] mask@[j] == shimmer(map.biomes@[j]),
        decreases map.biomes.len() - i,
    {
        mask.push(shimmer_of(map.biomes[i]));
        i = i + 1;
    }
    mask
}

/// Noise value of a lattice point in units of one part in 2^24: the hash of
/// its coordinates wrapped around the period.
pub open spec fn lattice_value(ix: int, iy: int, period: int) -> u32 {
    super::world::tile_hash(ix % period, iy % period) & 0x00FF_FFFF
}

/// Noise value of a lattice point.
pub fn lattice(ix: i32, iy: i32, period: u32) -> (value: u32)
    requires
        0 < period <= 0x7fff_ffff,
    ensures
        value == lattice_value(ix as int, iy as int, period as int),
        value <= 0x00FF_FFFF,
{
    let x: usize = wrap(ix, period);
    let y: usize = wrap(iy, period);
    let h: u32 = super::world::hash(x, y);
    assert(h & 0x00FF_FFFF <= 0x00FF_FFFF) by (bit_vector);
    h & 0x00FF_FFFF
}

fn wrap(i: i32, period: u32) -> (wrapped: usize)
    requires
        0 < period <= 0x7fff_ffff,
    ensures
        wrapped == i as int % period as int,
{
    let p: i64 = period as i64;
    if i >= 0 {
        (i as i64 % p) as usize
    } else {
        let below: i64 = (-(i as i64 + 1)) % p;
        proof {
            lemma_negative_mod(i as int, p as int);
        }
        (p - 1 - below) as usize
    }
}

pub(crate) proof fn lemma_negative_mod(i: int, p: int)
    requires
        i < 0,
        p > 0,
    ensures
        i % p == p - 1 - (-(i + 1)) % p,
{
    let m = -(i + 1);
    vstd::arithmetic::div_mod::lemma_fundamental_div_mod(m, p);
    let q = m / p;
    let r = m % p;
    assert(i == p * (-(q + 1)) + (p - 1 - r)) by (nonlinear_arith)
        requires
            m == -(i + 1),
            m == p * q + r,
    ;
    vstd::arithmetic::div_mod::lemma_fundamental_div_mod_converse(i, p, -(q + 1), p - 1 - r);
}

/// The noise repeats after its period each way, so that the texture tiles.
pub proof fn noise_tiles(ix: int, iy: int, period: int, across: int, down: int)
    requires
        period > 0,
    ensures
        lattice_value(ix + across * period, iy + down * period, period) == lattice_value(
            ix,
            iy,
            period,
        ),
{
    vstd::arithmetic::div_mod::lemma_mod_multiples_vanish(across, ix, period);
    vstd::arithmetic::div_mod::lemma_mod_multiples_vanish(down, iy, period);
    assert(ix + across * period == period * across + ix) by (nonlinear_arith);
    assert(iy + down * period == period * down + iy) by (nonlinear_arith);
}

/// Only the two kinds of water shimmer in full; snow and swamp have values of
/// their own, all other land none.
pub proof fn what_shimmers(biome: Biome)
    ensures
        shimmer(biome) == 255 <==> biome == Biome::Water || biome == Biome::DeepWater,
        shimmer(biome) == 128 <==> biome == Biome::Snow,
        shimmer(biome) == 64 <==> biome == Biome::Swamp,
        shimmer(biome) == 0 <==> biome != Biome::Water && biome != Biome::DeepWater && biome
            != Biome::Snow && biome != Biome::Swamp,
{
}

} // verus!
