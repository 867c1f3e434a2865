//! The packed quad record and its codec.
//!
//! A quad occupies two 32-bit words. The first holds `x`, `y`, `z`, `w` and `h`
//! in five 6-bit fields, lowest field first; its top two bits are unused. The
//! second holds the material in its low half and the normal tag in its high half.

use vstd::arithmetic::div_mod::lemma_fundamental_div_mod_converse;
use vstd::prelude::*;

verus! {

/// The decoded contents of a packed quad.
pub struct Quad {
    pub x: nat,
    pub y: nat,
    pub z: nat,
    pub w: nat,
    pub h: nat,
    pub material: u16,
    pub normal: u16,
}

/// One rectangular face, packed into eight bytes.
#[derive(Debug, Clone, Copy, PartialEq, Eq, Structural)]
pub struct PackedQuad {
    /// Position and size fields.
    pub data1: u32,
    /// Material and normal tag.
    pub data2: u32,
}

impl View for PackedQuad {
    type V = Quad;

    open spec fn view(&self) -> Quad {
        Quad {
            x: (self.data1 % 64) as nat,
            y: ((self.data1 / 64) % 64) as nat,
            z: ((self.data1 / 4096) % 64) as nat,
            w: ((self.data1 / 262144) % 64) as nat,
            h: ((self.data1 / 16777216) % 64) as nat,
            material: (self.data2 % 65536) as u16,
            normal: (self.data2 / 65536) as u16,
        }
    }
}

/// Shift-and-or packing of five 6-bit values is their positional sum.
proof fn lemma_pack_fields(x: u32, y: u32, z: u32, w: u32, h: u32)
    by (bit_vector)
    requires
        x < 64,
        y < 64,
        z < 64,
        w < 64,
        h < 64,
    ensures
        x | (y << 6) | (z << 12) | (w << 18) | (h << 24) == x + y * 64 + z * 4096 + w * 262144 + h
            * 16777216,
{
}

/// Shift-and-or packing of two 16-bit halves is their positional sum.
proof fn lemma_pack_halves(lo: u32, hi: u32)
    by (bit_vector)
    requires
        lo < 65536,
        hi < 65536,
    ensures
        lo | (hi << 16) == lo + hi * 65536,
{
}

/// Masking a coordinate to six bits is reduction modulo 64.
proof fn lemma_mask_six(v: usize)
    by (bit_vector)
    ensures
        v & 0x3f == v % 64,
{
}

/// Mask-and-shift extraction agrees with division and remainder.
proof fn lemma_unpack_fields(d: u32)
    by (bit_vector)
    ensures
        d & 0x3f == d % 64,
        (d >> 6) & 0x3f == (d / 64) % 64,
        (d >> 12) & 0x3f == (d / 4096) % 64,
        (d >> 18) & 0x3f == (d / 262144) % 64,
        (d >> 24) & 0x3f == (d / 16777216) % 64,
        d & 0xffff == d % 65536,
        d >> 16 == d / 65536,
{
}

impl PackedQuad {
    /// The record that encodes the given fields. Each of `x`, `y`, `z`, `w`, `h`
    /// is reduced modulo 64 before it is stored.
    pub open spec fn pack(
        x: nat,
        y: nat,
        z: nat,
        w: nat,
        h: nat,
        material: u16,
        normal: u16,
    ) -> PackedQuad {
        PackedQuad {
            data1: ((x % 64) + (y % 64) * 64 + (z % 64) * 4096 + (w % 64) * 262144 + (h % 64)
                * 16777216) as u32,
            data2: (material + normal * 65536) as u32,
        }
    }

    /// Encodes a quad. Coordinates and sizes beyond six bits wrap around.
    pub fn new(x: usize, y: usize, z: usize, w: usize, h: usize, v_type: u16, normal: u16) -> (quad:
        Self)
        ensures
            quad == Self::pack(x as nat, y as nat, z as nat, w as nat, h as nat, v_type, normal),
    {
        proof {
            lemma_mask_six(x);
            lemma_mask_six(y);
            lemma_mask_six(z);
            lemma_mask_six(w);
            lemma_mask_six(h);
        }
        let xf = (x & 0x3f) as u32;
        let yf = (y & 0x3f) as u32;
        let zf = (z & 0x3f) as u32;
        let wf = (w & 0x3f) as u32;
        let hf = (h & 0x3f) as u32;
        proof {
            lemma_pack_fields(xf, yf, zf, wf, hf);
            lemma_pack_halves(v_type as u32, normal as u32);
        }
        let data1 = xf | (yf << 6) | (zf << 12) | (wf << 18) | (hf << 24);
        let data2 = (v_type as u32) | ((normal as u32) << 16);
        Self { data1, data2 }
    }

    /// The `x` field.
    pub fn x(&self) -> (r: usize)
        ensures
            r == self@.x,
    {
        proof {
            lemma_unpack_fields(self.data1);
        }
        (self.data1 & 0x3f) as usize
    }

    /// The `y` field.
    pub fn y(&self) -> (r: usize)
        ensures
            r == self@.y,
    {
        proof {
            lemma_unpack_fields(self.data1);
        }
        ((self.data1 >> 6) & 0x3f) as usize
    }

    /// The `z` field.
    pub fn z(&self) -> (r: usize)
        ensures
            r == self@.z,
    {
        proof {
            lemma_unpack_fields(self.data1);
        }
        ((self.data1 >> 12) & 0x3f) as usize
    }

    /// The width field.
    pub fn w(&self) -> (r: usize)
        ensures
            r == self@.w,
    {
        proof {
            lemma_unpack_fields(self.data1);
        }
        ((self.data1 >> 18) & 0x3f) as usize
    }

    /// The height field.
    pub fn h(&self) -> (r: usize)
        ensures
            r == self@.h,
    {
        proof {
            lemma_unpack_fields(self.data1);
        }
        ((self.data1 >> 24) & 0x3f) as usize
    }

    /// The material identifier.
    pub fn material(&self) -> (r: u16)
        ensures
            r == self@.material,
    {
        proof {
            lemma_unpack_fields(self.data2);
        }
        (self.data2 & 0xffff) as u16
    }

    /// The normal tag.
    pub fn normal(&self) -> (r: u16)
        ensures
            r == self@.normal,
    {
        proof {
            lemma_unpack_fields(self.data2);
        }
        (self.data2 >> 16) as u16
    }

    /// Decoding an encoded quad gives back every field, reduced to its width.
    pub proof fn lemma_pack_wraps(
        x: nat,
        y: nat,
        z: nat,
        w: nat,
        h: nat,
        material: u16,
        normal: u16,
    )
        ensures
            Self::pack(x, y, z, w, h, material, normal)@ == (Quad {
                x: x % 64,
                y: y % 64,
                z: z % 64,
                w: w % 64,
                h: h % 64,
                material,
                normal,
            }),
    {
        // The fields come off the first word one at a time, lowest first.
        let a0 = (x % 64) as int;
        let a1 = (y % 64) as int;
        let a2 = (z % 64) as int;
        let a3 = (w % 64) as int;
        let a4 = (h % 64) as int;
        let d0 = a0 + a1 * 64 + a2 * 4096 + a3 * 262144 + a4 * 16777216;
        let d1 = a1 + a2 * 64 + a3 * 4096 + a4 * 262144;
        let d2 = a2 + a3 * 64 + a4 * 4096;
        let d3 = a3 + a4 * 64;
        lemma_fundamental_div_mod_converse(d0, 64, d1, a0);
        lemma_fundamental_div_mod_converse(d0, 4096, d2, a0 + a1 * 64);
        lemma_fundamental_div_mod_converse(d0, 262144, d3, a0 + a1 * 64 + a2 * 4096);
        lemma_fundamental_div_mod_converse(
            d0,
            16777216,
            a4,
            a0 + a1 * 64 + a2 * 4096 + a3 * 262144,
        );
        lemma_fundamental_div_mod_converse(d1, 64, d2, a1);
        lemma_fundamental_div_mod_converse(d2, 64, d3, a2);
        lemma_fundamental_div_mod_converse(d3, 64, a4, a3);
        lemma_fundamental_div_mod_converse(
            material + normal * 65536,
            65536,
            normal as int,
            material as int,
        );
    }

    /// Decoding an encoded quad whose fields fit their widths gives back the fields.
    pub proof fn lemma_round_trip(
        x: nat,
        y: nat,
        z: nat,
        w: nat,
        h: nat,
        material: u16,
        normal: u16,
    )
        requires
            x < 64,
            y < 64,
            z < 64,
            w < 64,
            h < 64,
        ensures
            Self::pack(x, y, z, w, h, material, normal)@ == (Quad {
                x,
                y,
                z,
                w,
                h,
                material,
                normal,
            }),
    {
        Self::lemma_pack_wraps(x, y, z, w, h, material, normal);
    }
}

} // verus!
