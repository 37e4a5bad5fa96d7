//! Attribute sidecars (`.zattrs`): the bounding box of a crop array, or the
//! description of the background array, each with the array's axis names.
use vstd::prelude::*;
use crate::text::{ascii_bytes, decimal, push_ascii, push_decimal};

verus! {

/// A rectangle in pixels: its top-left corner and its size.
#[derive(Clone, Copy, Debug, PartialEq, Eq, Structural)]
pub struct BoundingBox {
    pub x: u32,
    pub y: u32,
    pub w: u32,
    pub h: u32,
}

/// The two kinds of sidecar record.
#[derive(Clone, Copy, Debug, PartialEq, Eq, Structural)]
pub enum ZAttrs {
    /// A crop array, axes `t, c, z, y, x`, cut out of a frame at the box.
    Crop(BoundingBox),
    /// The background statistics array, axes `t, c, z`.
    Background,
}

pub open spec fn crop_json(b: BoundingBox) -> Seq<u8> {
    ascii_bytes("{\"axis_names\":[\"t\",\"c\",\"z\",\"y\",\"x\"],\"bbox\":{\"x\":"@) + decimal(
        b.x as nat,
    ) + ascii_bytes(",\"y\":"@) + decimal(b.y as nat) + ascii_bytes(",\"w\":"@) + decimal(
        b.w as nat,
    ) + ascii_bytes(",\"h\":"@) + decimal(b.h as nat) + ascii_bytes("}}"@)
}

pub open spec fn background_json() -> Seq<u8> {
    ascii_bytes(
        "{\"axis_names\":[\"t\",\"c\",\"z\"],\"description\":\"Median of pixels outside all crop bounding boxes\"}"@,
    )
}

/// The sidecar record, byte for byte.
pub open spec fn zattrs_json(a: ZAttrs) -> Seq<u8> {
    match a {
        ZAttrs::Crop(b) => crop_json(b),
        ZAttrs::Background => background_json(),
    }
}

impl ZAttrs {
    /// The sidecar record as compact JSON bytes.
    pub fn to_json(&self) -> (r: Vec<u8>)
        ensures
            r@ == zattrs_json(*self),
    {
        let mut out: Vec<u8> = Vec::new();
        match self {
            ZAttrs::Crop(b) => {
                proof {
                    reveal_strlit("{\"axis_names\":[\"t\",\"c\",\"z\",\"y\",\"x\"],\"bbox\":{\"x\":");
                    reveal_strlit(",\"y\":");
                    reveal_strlit(",\"w\":");
                    reveal_strlit(",\"h\":");
                    reveal_strlit("}}");
                }
                push_ascii(&mut out, "{\"axis_names\":[\"t\",\"c\",\"z\",\"y\",\"x\"],\"bbox\":{\"x\":");
                push_decimal(&mut out, b.x as u64);
                push_ascii(&mut out, ",\"y\":");
                push_decimal(&mut out, b.y as u64);
                push_ascii(&mut out, ",\"w\":");
                push_decimal(&mut out, b.w as u64);
                push_ascii(&mut out, ",\"h\":");
                push_decimal(&mut out, b.h as u64);
                push_ascii(&mut out, "}}");
            },
            ZAttrs::Background => {
                proof {
                    reveal_strlit(
                        "{\"axis_names\":[\"t\",\"c\",\"z\"],\"description\":\"Median of pixels outside all crop bounding boxes\"}",
                    );
                }
                push_ascii(
                    &mut out,
                    "{\"axis_names\":[\"t\",\"c\",\"z\"],\"description\":\"Median of pixels outside all crop bounding boxes\"}",
                );
            },
        }
        out
    }
}

/// The sidecar record of a crop array cut out at `(x, y)` with size `w` by `h`.
pub fn crop_zattrs_json(x: u32, y: u32, w: u32, h: u32) -> (r: Vec<u8>)
    ensures
        r@ == crop_json(BoundingBox { x, y, w, h }),
{
    ZAttrs::Crop(BoundingBox { x, y, w, h }).to_json()
}

} // verus!
