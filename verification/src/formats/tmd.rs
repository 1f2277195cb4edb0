//! TMD model container.
//!
//! A model is a 12-byte header (32-bit magic `0x41`, flags, object
//! count), a table of 28-byte object entries (vertex, normal and
//! primitive offsets and counts relative to the model start, plus a
//! fixed-point scale), and the referenced data: vertices and normals
//! as 8-byte records of three signed 16-bit values, and primitives as
//! a packet stream whose first byte gives each packet's length in
//! 32-bit words.

use vstd::prelude::*;

use crate::bytes::{le16, le16_signed, le32, le32_signed, read_le16, read_le16_signed, read_le32, read_le32_signed};
use crate::PsxError;

verus! {

/// TMD magic number.
pub const TMD_MAGIC: u32 = 0x41;

/// Hard cap on the object count.
pub const MAX_OBJECTS: u32 = 1000;

/// Hard cap on per-object vertex and normal counts.
pub const MAX_RECORDS: u32 = 100000;

/// 3-D vertex position.
#[derive(Debug, Clone, Copy, PartialEq, Eq, Structural)]
pub struct TmdVertex {
    /// X coordinate.
    pub x: i16,
    /// Y coordinate.
    pub y: i16,
    /// Z coordinate.
    pub z: i16,
}

impl DeepView for TmdVertex {
    type V = TmdVertex;

    open spec fn deep_view(&self) -> TmdVertex {
        *self
    }
}

/// 3-D normal vector in fixed point.
#[derive(Debug, Clone, Copy, PartialEq, Eq, Structural)]
pub struct TmdNormal {
    /// X component.
    pub nx: i16,
    /// Y component.
    pub ny: i16,
    /// Z component.
    pub nz: i16,
}

impl DeepView for TmdNormal {
    type V = TmdNormal;

    open spec fn deep_view(&self) -> TmdNormal {
        *self
    }
}

/// Texture page and palette position of a textured primitive.
#[derive(Debug, Clone, Copy, PartialEq, Eq, Structural)]
pub struct TextureInfo {
    /// Palette X position in VRAM.
    pub clut_x: u16,
    /// Palette Y position in VRAM.
    pub clut_y: u16,
    /// Texture page word.
    pub tpage: u16,
}

/// Ghost model of a primitive.
pub enum PrimModel {
    /// A triangle.
    Triangle {
        /// Vertex indices.
        vertices: Seq<u16>,
        /// Normal indices (one per vertex; flat shading repeats one).
        normals: Option<Seq<u16>>,
        /// Texture coordinates, when textured.
        uvs: Option<Seq<(u8, u8)>>,
        /// Texture page and palette, when textured.
        texture_info: Option<TextureInfo>,
    },
    /// A quad.
    Quad {
        /// Vertex indices.
        vertices: Seq<u16>,
        /// Normal indices (one per vertex; flat shading repeats one).
        normals: Option<Seq<u16>>,
        /// Texture coordinates, when textured.
        uvs: Option<Seq<(u8, u8)>>,
        /// Texture page and palette, when textured.
        texture_info: Option<TextureInfo>,
    },
}

/// Primitive (polygon) of a model.
#[derive(Debug)]
pub enum TmdPrimitive {
    /// Triangle with 3 vertices.
    Triangle {
        /// Vertex indices.
        vertices: [u16; 3],
        /// Normal indices (one per vertex; flat shading repeats one).
        normals: Option<[u16; 3]>,
        /// Texture coordinates, when textured.
        uvs: Option<[(u8, u8); 3]>,
        /// Texture page and palette, when textured.
        texture_info: Option<TextureInfo>,
    },
    /// Quad with 4 vertices.
    Quad {
        /// Vertex indices.
        vertices: [u16; 4],
        /// Normal indices (one per vertex; flat shading repeats one).
        normals: Option<[u16; 4]>,
        /// Texture coordinates, when textured.
        uvs: Option<[(u8, u8); 4]>,
        /// Texture page and palette, when textured.
        texture_info: Option<TextureInfo>,
    },
}

impl DeepView for TmdPrimitive {
    type V = PrimModel;

    open spec fn deep_view(&self) -> PrimModel {
        match self {
            TmdPrimitive::Triangle { vertices, normals, uvs, texture_info } => PrimModel::Triangle {
                vertices: vertices@,
                normals: match normals {
                    Option::Some(n) => Option::Some(n@),
                    Option::None => Option::None,
                },
                uvs: match uvs {
                    Option::Some(u) => Option::Some(u@),
                    Option::None => Option::None,
                },
                texture_info: *texture_info,
            },
            TmdPrimitive::Quad { vertices, normals, uvs, texture_info } => PrimModel::Quad {
                vertices: vertices@,
                normals: match normals {
                    Option::Some(n) => Option::Some(n@),
                    Option::None => Option::None,
                },
                uvs: match uvs {
                    Option::Some(u) => Option::Some(u@),
                    Option::None => Option::None,
                },
                texture_info: *texture_info,
            },
        }
    }
}

/// Ghost model of an object.
pub struct ObjModel {
    /// Vertices.
    pub vertices: Seq<TmdVertex>,
    /// Normals.
    pub normals: Seq<TmdNormal>,
    /// Primitives.
    pub primitives: Seq<PrimModel>,
    /// Fixed-point scale.
    pub scale: i32,
}

/// Single object (mesh) of a model.
#[derive(Debug)]
pub struct TmdObject {
    /// Vertices.
    pub vertices: Vec<TmdVertex>,
    /// Normals.
    pub normals: Vec<TmdNormal>,
    /// Primitives (faces).
    pub primitives: Vec<TmdPrimitive>,
    /// Fixed-point scale factor.
    pub scale: i32,
}

impl DeepView for TmdObject {
    type V = ObjModel;

    open spec fn deep_view(&self) -> ObjModel {
        ObjModel {
            vertices: self.vertices.deep_view(),
            normals: self.normals.deep_view(),
            primitives: self.primitives.deep_view(),
            scale: self.scale,
        }
    }
}

/// TMD model file.
#[derive(Debug)]
pub struct Tmd {
    /// Flags word from the header.
    pub flags: u32,
    /// Objects (meshes) in this model.
    pub objects: Vec<TmdObject>,
}

/// The triangle read at `p` (after the 4-byte packet header).
#[verifier::opaque]
pub open spec fn spec_parse_triangle(d: Seq<u8>, p: int, textured: bool, gouraud: bool) -> Result<
    PrimModel,
    PsxError,
> {
    let np = if gouraud {
        p + 6
    } else {
        p + 2
    };
    if (gouraud && p + 6 > d.len()) || (!gouraud && p + 2 > d.len()) {
        Result::Err(PsxError::Truncated)
    } else {
        let normals = if gouraud {
            seq![le16(d, p), le16(d, p + 2), le16(d, p + 4)]
        } else {
            seq![le16(d, p), le16(d, p), le16(d, p)]
        };
        if np + 6 > d.len() {
            Result::Err(PsxError::Truncated)
        } else {
            let vertices = seq![le16(d, np), le16(d, np + 2), le16(d, np + 4)];
            let tp = np + 6;
            if textured {
                if tp + 12 > d.len() {
                    Result::Err(PsxError::Truncated)
                } else {
                    Result::Ok(
                        PrimModel::Triangle {
                            vertices,
                            normals: Option::Some(normals),
                            uvs: Option::Some(
                                seq![
                                    (d[tp], d[tp + 1]),
                                    (d[tp + 6], d[tp + 7]),
                                    (d[tp + 10], d[tp + 11]),
                                ],
                            ),
                            texture_info: Option::Some(
                                TextureInfo {
                                    clut_x: le16(d, tp + 2),
                                    clut_y: le16(d, tp + 4),
                                    tpage: le16(d, tp + 8),
                                },
                            ),
                        },
                    )
                }
            } else {
                Result::Ok(
                    PrimModel::Triangle {
                        vertices,
                        normals: Option::Some(normals),
                        uvs: Option::None,
                        texture_info: Option::None,
                    },
                )
            }
        }
    }
}

/// The quad read at `p` (after the 4-byte packet header).
#[verifier::opaque]
pub open spec fn spec_parse_quad(d: Seq<u8>, p: int, textured: bool, gouraud: bool) -> Result<
    PrimModel,
    PsxError,
> {
    let np = if gouraud {
        p + 8
    } else {
        p + 2
    };
    if (gouraud && p + 8 > d.len()) || (!gouraud && p + 2 > d.len()) {
        Result::Err(PsxError::Truncated)
    } else {
        let normals = if gouraud {
            seq![le16(d, p), le16(d, p + 2), le16(d, p + 4), le16(d, p + 6)]
        } else {
            seq![le16(d, p), le16(d, p), le16(d, p), le16(d, p)]
        };
        if np + 8 > d.len() {
            Result::Err(PsxError::Truncated)
        } else {
            let vertices = seq![le16(d, np), le16(d, np + 2), le16(d, np + 4), le16(d, np + 6)];
            let tp = np + 8;
            if textured {
                if tp + 16 > d.len() {
                    Result::Err(PsxError::Truncated)
                } else {
                    Result::Ok(
                        PrimModel::Quad {
                            vertices,
                            normals: Option::Some(normals),
                            uvs: Option::Some(
                                seq![
                                    (d[tp], d[tp + 1]),
                                    (d[tp + 6], d[tp + 7]),
                                    (d[tp + 10], d[tp + 11]),
                                    (d[tp + 14], d[tp + 15]),
                                ],
                            ),
                            texture_info: Option::Some(
                                TextureInfo {
                                    clut_x: le16(d, tp + 2),
                                    clut_y: le16(d, tp + 4),
                                    tpage: le16(d, tp + 8),
                                },
                            ),
                        },
                    )
                }
            } else {
                Result::Ok(
                    PrimModel::Quad {
                        vertices,
                        normals: Option::Some(normals),
                        uvs: Option::None,
                        texture_info: Option::None,
                    },
                )
            }
        }
    }
}

/// The primitive whose packet starts at `pos`: byte 3 selects quad
/// versus triangle (bit 3), textured (bit 2) and per-vertex-normal
/// shading (bit 4).
#[verifier::opaque]
pub open spec fn spec_parse_primitive(d: Seq<u8>, pos: int) -> Result<PrimModel, PsxError> {
    if pos + 4 > d.len() {
        Result::Err(PsxError::Truncated)
    } else {
        let mode = d[pos + 3];
        let is_quad = mode & 0x08u8 != 0;
        let textured = mode & 0x04u8 != 0;
        let gouraud = mode & 0x10u8 != 0;
        if is_quad {
            spec_parse_quad(d, pos + 4, textured, gouraud)
        } else {
            spec_parse_triangle(d, pos + 4, textured, gouraud)
        }
    }
}

/// Walk up to `k` primitive packets from `pos`, stopping at the end
/// of input; a malformed packet is an error.
pub open spec fn spec_parse_prims(d: Seq<u8>, pos: int, k: int) -> Result<Seq<PrimModel>, PsxError>
    decreases k,
{
    if k <= 0 {
        Result::Ok(Seq::empty())
    } else if pos >= d.len() || pos + 4 > d.len() {
        Result::Ok(Seq::empty())
    } else {
        match spec_parse_primitive(d, pos) {
            Result::Err(e) => Result::Err(e),
            Result::Ok(p) => match spec_parse_prims(d, pos + d[pos] * 4, k - 1) {
                Result::Err(e) => Result::Err(e),
                Result::Ok(rest) => Result::Ok(seq![p] + rest),
            },
        }
    }
}

/// The object described by the 28-byte table entry at `off`: offsets
/// and counts of vertices, normals and primitives, plus the scale.
#[verifier::opaque]
pub open spec fn spec_parse_object(d: Seq<u8>, off: int) -> Result<ObjModel, PsxError> {
    let vo = le32(d, off) as int;
    let vc = le32(d, off + 4) as int;
    let no = le32(d, off + 8) as int;
    let nc = le32(d, off + 12) as int;
    let po = le32(d, off + 16) as int;
    let pc = le32(d, off + 20) as int;
    let scale = le32_signed(d, off + 24);
    if vc > 100000 || nc > 100000 {
        Result::Err(PsxError::InvalidField)
    } else if vo + vc * 8 > d.len() {
        Result::Err(PsxError::Truncated)
    } else if no + nc * 8 > d.len() {
        Result::Err(PsxError::Truncated)
    } else {
        match spec_parse_prims(d, po, pc) {
            Result::Err(e) => Result::Err(e),
            Result::Ok(prims) => Result::Ok(
                ObjModel {
                    vertices: Seq::new(
                        vc as nat,
                        |i: int|
                            TmdVertex {
                                x: le16_signed(d, vo + i * 8),
                                y: le16_signed(d, vo + i * 8 + 2),
                                z: le16_signed(d, vo + i * 8 + 4),
                            },
                    ),
                    normals: Seq::new(
                        nc as nat,
                        |i: int|
                            TmdNormal {
                                nx: le16_signed(d, no + i * 8),
                                ny: le16_signed(d, no + i * 8 + 2),
                                nz: le16_signed(d, no + i * 8 + 4),
                            },
                    ),
                    primitives: prims,
                    scale: scale,
                },
            ),
        }
    }
}

/// Objects `i..count` of the table.
pub open spec fn spec_parse_objects(d: Seq<u8>, i: int, count: int) -> Result<
    Seq<ObjModel>,
    PsxError,
>
    decreases count - i,
{
    if i < 0 || i >= count {
        Result::Ok(Seq::empty())
    } else if 12 + i * 28 + 28 > d.len() {
        Result::Err(PsxError::Truncated)
    } else {
        match spec_parse_object(d, 12 + i * 28) {
            Result::Err(e) => Result::Err(e),
            Result::Ok(o) => match spec_parse_objects(d, i + 1, count) {
                Result::Err(e) => Result::Err(e),
                Result::Ok(rest) => Result::Ok(seq![o] + rest),
            },
        }
    }
}

/// What parsing model bytes `d` yields: the flags word and the
/// objects, or the error.
///
/// A model with zero objects is rejected, as is an absurd object
/// count; any object whose claimed data would read past the buffer is
/// rejected rather than read out of bounds.
pub open spec fn spec_parse_tmd(d: Seq<u8>) -> Result<(u32, Seq<ObjModel>), PsxError> {
    if d.len() < 12 {
        Result::Err(PsxError::Truncated)
    } else if le32(d, 0) != 0x41 {
        Result::Err(PsxError::InvalidSignature)
    } else if le32(d, 8) == 0 || le32(d, 8) > 1000 {
        Result::Err(PsxError::InvalidField)
    } else {
        match spec_parse_objects(d, 0, le32(d, 8) as int) {
            Result::Err(e) => Result::Err(e),
            Result::Ok(objs) => Result::Ok((le32(d, 4), objs)),
        }
    }
}

impl Tmd {
    /// Parse a TMD model.
    ///
    /// Fails with `Truncated` when the header, the object table or an
    /// object's claimed data runs past the input; with
    /// `InvalidSignature` on a wrong magic; and with `InvalidField`
    /// when the object count is zero or absurd, or a vertex or normal
    /// count is absurd.
    #[verifier::rlimit(100)]
    pub fn parse(data: &[u8]) -> (r: Result<Self, PsxError>)
        ensures
            r is Ok <==> spec_parse_tmd(data@) is Ok,
            r matches Ok(t) ==> spec_parse_tmd(data@) == Result::<
                (u32, Seq<ObjModel>),
                PsxError,
            >::Ok((t.flags, t.objects.deep_view())),
            r matches Err(e) ==> spec_parse_tmd(data@) == Result::<
                (u32, Seq<ObjModel>),
                PsxError,
            >::Err(e),
    {
        let n = data.len();
        if n < 12 {
            return Err(PsxError::Truncated);
        }
        if read_le32(data, 0) != TMD_MAGIC {
            return Err(PsxError::InvalidSignature);
        }
        let flags = read_le32(data, 4);
        let num_objects = read_le32(data, 8);
        if num_objects == 0 || num_objects > MAX_OBJECTS {
            return Err(PsxError::InvalidField);
        }
        let count = num_objects as usize;
        let mut objects: Vec<TmdObject> = Vec::new();
        let mut i: usize = 0;
        while i < count
            invariant
                0 <= i <= count,
                1 <= count <= 1000,
                n == data@.len(),
                n >= 12,
                le32(data@, 0) == 0x41,
                le32(data@, 8) == count,
                flags == le32(data@, 4),
                objects@.len() == i,
                spec_parse_objects(data@, 0, count as int) == match spec_parse_objects(
                    data@,
                    i as int,
                    count as int,
                ) {
                    Result::Ok(rest) => Result::<Seq<ObjModel>, PsxError>::Ok(
                        objects.deep_view() + rest,
                    ),
                    Result::Err(e) => Result::<Seq<ObjModel>, PsxError>::Err(e),
                },
            decreases count - i,
        {
            if n < 40 || i * 28 > n - 40 {
                assert(12 + i * 28 + 28 > n);
                return Err(PsxError::Truncated);
            }
            assert(12 + i * 28 + 28 <= n);
            let ghost dv0 = objects.deep_view();
            let obj = match Self::parse_object(data, 12 + i * 28) {
                Ok(o) => o,
                Err(e) => {
                    return Err(e);
                },
            };
            let ghost ov = obj.deep_view();
            objects.push(obj);
            proof {
                assert(objects.deep_view() =~= dv0 + seq![ov]);
                if let Result::Ok(rest) = spec_parse_objects(data@, i as int + 1, count as int) {
                    assert(dv0 + (seq![ov] + rest) =~= objects.deep_view() + rest);
                }
            }
            i += 1;
        }
        assert(spec_parse_objects(data@, count as int, count as int) == Result::<
            Seq<ObjModel>,
            PsxError,
        >::Ok(Seq::empty()));
        assert(objects.deep_view() + Seq::<ObjModel>::empty() =~= objects.deep_view());
        Ok(Tmd { flags, objects })
    }

    /// Parse one object from its table entry at `off`.
    #[verifier::rlimit(100)]
    fn parse_object(data: &[u8], off: usize) -> (r: Result<TmdObject, PsxError>)
        requires
            off + 28 <= data@.len(),
        ensures
            r is Ok <==> spec_parse_object(data@, off as int) is Ok,
            r matches Ok(o) ==> spec_parse_object(data@, off as int) == Result::<
                ObjModel,
                PsxError,
            >::Ok(o.deep_view()),
            r matches Err(e) ==> spec_parse_object(data@, off as int) == Result::<
                ObjModel,
                PsxError,
            >::Err(e),
    {
        let n = data.len();
        let vert_offset = read_le32(data, off) as usize;
        let vert_count = read_le32(data, off + 4) as usize;
        let normal_offset = read_le32(data, off + 8) as usize;
        let normal_count = read_le32(data, off + 12) as usize;
        let prim_offset = read_le32(data, off + 16) as usize;
        let prim_count = read_le32(data, off + 20) as usize;
        let scale = read_le32_signed(data, off + 24);

        if vert_count > MAX_RECORDS as usize || normal_count > MAX_RECORDS as usize {
            proof {
                reveal(spec_parse_object);
                assert(spec_parse_object(data@, off as int) == Result::<
                    ObjModel,
                    PsxError,
                >::Err(PsxError::InvalidField));
            }
            return Err(PsxError::InvalidField);
        }
        if vert_count * 8 > n || vert_offset > n - vert_count * 8 {
            assert(vert_offset + vert_count * 8 > n);
            proof {
                reveal(spec_parse_object);
                assert(spec_parse_object(data@, off as int) == Result::<
                    ObjModel,
                    PsxError,
                >::Err(PsxError::Truncated));
            }
            return Err(PsxError::Truncated);
        }
        assert(vert_offset + vert_count * 8 <= n);
        if normal_count * 8 > n || normal_offset > n - normal_count * 8 {
            assert(normal_offset + normal_count * 8 > n);
            proof {
                reveal(spec_parse_object);
                assert(spec_parse_object(data@, off as int) == Result::<
                    ObjModel,
                    PsxError,
                >::Err(PsxError::Truncated));
            }
            return Err(PsxError::Truncated);
        }
        assert(normal_offset + normal_count * 8 <= n);
        let ghost sverts = Seq::new(
            vert_count as nat,
            |i: int|
                TmdVertex {
                    x: le16_signed(data@, vert_offset + i * 8),
                    y: le16_signed(data@, vert_offset + i * 8 + 2),
                    z: le16_signed(data@, vert_offset + i * 8 + 4),
                },
        );
        let ghost snorms = Seq::new(
            normal_count as nat,
            |i: int|
                TmdNormal {
                    nx: le16_signed(data@, normal_offset + i * 8),
                    ny: le16_signed(data@, normal_offset + i * 8 + 2),
                    nz: le16_signed(data@, normal_offset + i * 8 + 4),
                },
        );
        proof {
            reveal(spec_parse_object);
            assert(spec_parse_object(data@, off as int) == match spec_parse_prims(
                data@,
                prim_offset as int,
                prim_count as int,
            ) {
                Result::Err(e) => Result::<ObjModel, PsxError>::Err(e),
                Result::Ok(prims) => Result::<ObjModel, PsxError>::Ok(
                    ObjModel { vertices: sverts, normals: snorms, primitives: prims, scale },
                ),
            });
        }

        let mut vertices: Vec<TmdVertex> = Vec::new();
        let mut i: usize = 0;
        while i < vert_count
            invariant
                0 <= i <= vert_count,
                vert_offset + vert_count * 8 <= n == data@.len(),
                vertices@.len() == i,
                forall|j: int|
                    0 <= j < i ==> vertices@[j] == (TmdVertex {
                        x: le16_signed(data@, vert_offset + j * 8),
                        y: le16_signed(data@, vert_offset + j * 8 + 2),
                        z: le16_signed(data@, vert_offset + j * 8 + 4),
                    }),
            decreases vert_count - i,
        {
            proof {
                assert(i * 8 + 8 <= vert_count * 8) by (nonlinear_arith)
                    requires
                        0 <= i < vert_count,
                ;
            }
            let voffset = vert_offset + i * 8;
            vertices.push(
                TmdVertex {
                    x: read_le16_signed(data, voffset),
                    y: read_le16_signed(data, voffset + 2),
                    z: read_le16_signed(data, voffset + 4),
                },
            );
            i += 1;
        }

        let mut normals: Vec<TmdNormal> = Vec::new();
        let mut i: usize = 0;
        while i < normal_count
            invariant
                0 <= i <= normal_count,
                normal_offset + normal_count * 8 <= n == data@.len(),
                normals@.len() == i,
                forall|j: int|
                    0 <= j < i ==> normals@[j] == (TmdNormal {
                        nx: le16_signed(data@, normal_offset + j * 8),
                        ny: le16_signed(data@, normal_offset + j * 8 + 2),
                        nz: le16_signed(data@, normal_offset + j * 8 + 4),
                    }),
            decreases normal_count - i,
        {
            proof {
                assert(i * 8 + 8 <= normal_count * 8) by (nonlinear_arith)
                    requires
                        0 <= i < normal_count,
                ;
            }
            let noffset = normal_offset + i * 8;
            normals.push(
                TmdNormal {
                    nx: read_le16_signed(data, noffset),
                    ny: read_le16_signed(data, noffset + 2),
                    nz: read_le16_signed(data, noffset + 4),
                },
            );
            i += 1;
        }

        proof {
            assert(vertices.deep_view() =~= sverts);
            assert(normals.deep_view() =~= snorms);
        }
        let mut primitives: Vec<TmdPrimitive> = Vec::new();
        let mut prim_pos: usize = prim_offset;
        let mut k: usize = 0;
        while k < prim_count
            invariant
                0 <= k <= prim_count,
                n == data@.len(),
                vertices.deep_view() == sverts,
                normals.deep_view() == snorms,
                spec_parse_object(data@, off as int) == match spec_parse_prims(
                    data@,
                    prim_offset as int,
                    prim_count as int,
                ) {
                    Result::Err(e) => Result::<ObjModel, PsxError>::Err(e),
                    Result::Ok(prims) => Result::<ObjModel, PsxError>::Ok(
                        ObjModel { vertices: sverts, normals: snorms, primitives: prims, scale },
                    ),
                },
                spec_parse_prims(data@, prim_offset as int, prim_count as int) == match
                    spec_parse_prims(data@, prim_pos as int, prim_count - k) {
                    Result::Ok(rest) => Result::<Seq<PrimModel>, PsxError>::Ok(
                        primitives.deep_view() + rest,
                    ),
                    Result::Err(e) => Result::<Seq<PrimModel>, PsxError>::Err(e),
                },
            ensures
                vertices.deep_view() == sverts,
                normals.deep_view() == snorms,
                spec_parse_object(data@, off as int) == match spec_parse_prims(
                    data@,
                    prim_offset as int,
                    prim_count as int,
                ) {
                    Result::Err(e) => Result::<ObjModel, PsxError>::Err(e),
                    Result::Ok(prims) => Result::<ObjModel, PsxError>::Ok(
                        ObjModel { vertices: sverts, normals: snorms, primitives: prims, scale },
                    ),
                },
                spec_parse_prims(data@, prim_offset as int, prim_count as int) == Result::<
                    Seq<PrimModel>,
                    PsxError,
                >::Ok(primitives.deep_view()),
            decreases prim_count - k,
        {
            if prim_pos >= n || n < 4 || prim_pos > n - 4 {
                assert(prim_pos >= n || prim_pos + 4 > n);
                assert(spec_parse_prims(data@, prim_pos as int, prim_count - k) == Result::<
                    Seq<PrimModel>,
                    PsxError,
                >::Ok(Seq::empty()));
                assert(primitives.deep_view() + Seq::<PrimModel>::empty()
                    =~= primitives.deep_view());
                break ;
            }
            assert(prim_pos + 4 <= n);
            let ghost dv0 = primitives.deep_view();
            let prim = match Self::parse_primitive(data, prim_pos) {
                Ok(p) => p,
                Err(e) => {
                    return Err(e);
                },
            };
            let packet_size = data[prim_pos] as usize * 4;
            let ghost pv = prim.deep_view();
            primitives.push(prim);
            proof {
                assert(primitives.deep_view() =~= dv0 + seq![pv]);
                if let Result::Ok(rest) = spec_parse_prims(
                    data@,
                    prim_pos as int + packet_size as int,
                    prim_count - k - 1,
                ) {
                    assert(dv0 + (seq![pv] + rest) =~= primitives.deep_view() + rest);
                }
            }
            let ghost old_pos = prim_pos as int;
            if packet_size > n - prim_pos {
                // The next packet would start past the input; the walk
                // stops there either way, so clamp the cursor.
                proof {
                    assert(spec_parse_prims(data@, old_pos + packet_size, prim_count - k - 1)
                        == Result::<Seq<PrimModel>, PsxError>::Ok(Seq::empty()));
                    assert(spec_parse_prims(data@, n as int, prim_count - k - 1) == Result::<
                        Seq<PrimModel>,
                        PsxError,
                    >::Ok(Seq::empty()));
                }
                prim_pos = n;
            } else {
                prim_pos = prim_pos + packet_size;
            }
            k += 1;
        }
        Ok(TmdObject { vertices, normals, primitives, scale })
    }

    /// Parse the primitive whose packet starts at `offset`.
    fn parse_primitive(data: &[u8], offset: usize) -> (r: Result<TmdPrimitive, PsxError>)
        requires
            offset + 4 <= data@.len(),
        ensures
            r is Ok <==> spec_parse_primitive(data@, offset as int) is Ok,
            r matches Ok(p) ==> spec_parse_primitive(data@, offset as int) == Result::<
                PrimModel,
                PsxError,
            >::Ok(p.deep_view()),
            r matches Err(e) ==> spec_parse_primitive(data@, offset as int) == Result::<
                PrimModel,
                PsxError,
            >::Err(e),
    {
        let n = data.len();
        assert(offset + 4 <= n);
        let mode = data[offset + 3];
        let is_quad = (mode & 0x08) != 0;
        let is_textured = (mode & 0x04) != 0;
        let is_gouraud = (mode & 0x10) != 0;
        let pos = offset + 4;
        if is_quad {
            proof {
                reveal(spec_parse_primitive);
                assert(spec_parse_primitive(data@, offset as int) == spec_parse_quad(
                    data@,
                    pos as int,
                    is_textured,
                    is_gouraud,
                ));
            }
            Self::parse_quad(data, pos, is_textured, is_gouraud)
        } else {
            proof {
                reveal(spec_parse_primitive);
                assert(spec_parse_primitive(data@, offset as int) == spec_parse_triangle(
                    data@,
                    pos as int,
                    is_textured,
                    is_gouraud,
                ));
            }
            Self::parse_triangle(data, pos, is_textured, is_gouraud)
        }
    }

    /// Parse a triangle primitive's fields at `pos`.
    fn parse_triangle(data: &[u8], pos: usize, is_textured: bool, is_gouraud: bool) -> (r: Result<
        TmdPrimitive,
        PsxError,
    >)
        requires
            pos <= data@.len() + 4,
        ensures
            r is Ok <==> spec_parse_triangle(data@, pos as int, is_textured, is_gouraud) is Ok,
            r matches Ok(p) ==> spec_parse_triangle(data@, pos as int, is_textured, is_gouraud)
                == Result::<PrimModel, PsxError>::Ok(p.deep_view()),
            r matches Err(e) ==> spec_parse_triangle(data@, pos as int, is_textured, is_gouraud)
                == Result::<PrimModel, PsxError>::Err(e),
    {
        let ghost tri = spec_parse_triangle(data@, pos as int, is_textured, is_gouraud);
        let n = data.len();
        let normals: [u16; 3];
        let mut p = pos;
        if is_gouraud {
            if n < 6 || p > n - 6 {
                proof {
                    reveal(spec_parse_triangle);
                    assert(tri == Result::<PrimModel, PsxError>::Err(PsxError::Truncated));
                }
                return Err(PsxError::Truncated);
            }
            normals = [read_le16(data, p), read_le16(data, p + 2), read_le16(data, p + 4)];
            p = p + 6;
        } else {
            if n < 2 || p > n - 2 {
                proof {
                    reveal(spec_parse_triangle);
                    assert(tri == Result::<PrimModel, PsxError>::Err(PsxError::Truncated));
                }
                return Err(PsxError::Truncated);
            }
            let nn = read_le16(data, p);
            normals = [nn, nn, nn];
            p = p + 2;
        }
        if n < 6 || p > n - 6 {
            proof {
                reveal(spec_parse_triangle);
                assert(tri == Result::<PrimModel, PsxError>::Err(PsxError::Truncated));
            }
            return Err(PsxError::Truncated);
        }
        let vertices = [read_le16(data, p), read_le16(data, p + 2), read_le16(data, p + 4)];
        p = p + 6;
        if is_textured {
            if n < 12 || p > n - 12 {
                proof {
                    reveal(spec_parse_triangle);
                    assert(tri == Result::<PrimModel, PsxError>::Err(PsxError::Truncated));
                }
                return Err(PsxError::Truncated);
            }
            let uvs = [
                (data[p], data[p + 1]),
                (data[p + 6], data[p + 7]),
                (data[p + 10], data[p + 11]),
            ];
            let texture_info = TextureInfo {
                clut_x: read_le16(data, p + 2),
                clut_y: read_le16(data, p + 4),
                tpage: read_le16(data, p + 8),
            };
            let prim = TmdPrimitive::Triangle {
                vertices,
                normals: Some(normals),
                uvs: Some(uvs),
                texture_info: Some(texture_info),
            };
            proof {
                reveal(spec_parse_triangle);
                lemma_prim_tri_view(prim, data@, pos as int, is_textured, is_gouraud);
                assert(tri == Result::<PrimModel, PsxError>::Ok(prim.deep_view()));
            }
            Ok(prim)
        } else {
            let prim = TmdPrimitive::Triangle {
                vertices,
                normals: Some(normals),
                uvs: None,
                texture_info: None,
            };
            proof {
                reveal(spec_parse_triangle);
                lemma_prim_tri_view(prim, data@, pos as int, is_textured, is_gouraud);
                assert(tri == Result::<PrimModel, PsxError>::Ok(prim.deep_view()));
            }
            Ok(prim)
        }
    }

    /// Parse a quad primitive's fields at `pos`.
    fn parse_quad(data: &[u8], pos: usize, is_textured: bool, is_gouraud: bool) -> (r: Result<
        TmdPrimitive,
        PsxError,
    >)
        requires
            pos <= data@.len() + 4,
        ensures
            r is Ok <==> spec_parse_quad(data@, pos as int, is_textured, is_gouraud) is Ok,
            r matches Ok(p) ==> spec_parse_quad(data@, pos as int, is_textured, is_gouraud)
                == Result::<PrimModel, PsxError>::Ok(p.deep_view()),
            r matches Err(e) ==> spec_parse_quad(data@, pos as int, is_textured, is_gouraud)
                == Result::<PrimModel, PsxError>::Err(e),
    {
        let ghost quad = spec_parse_quad(data@, pos as int, is_textured, is_gouraud);
        let n = data.len();
        let normals: [u16; 4];
        let mut p = pos;
        if is_gouraud {
            if n < 8 || p > n - 8 {
                proof {
                    reveal(spec_parse_quad);
                    assert(quad == Result::<PrimModel, PsxError>::Err(PsxError::Truncated));
                }
                return Err(PsxError::Truncated);
            }
            normals = [
                read_le16(data, p),
                read_le16(data, p + 2),
                read_le16(data, p + 4),
                read_le16(data, p + 6),
            ];
            p = p + 8;
        } else {
            if n < 2 || p > n - 2 {
                proof {
                    reveal(spec_parse_quad);
                    assert(quad == Result::<PrimModel, PsxError>::Err(PsxError::Truncated));
                }
                return Err(PsxError::Truncated);
            }
            let nn = read_le16(data, p);
            normals = [nn, nn, nn, nn];
            p = p + 2;
        }
        if n < 8 || p > n - 8 {
            proof {
                reveal(spec_parse_quad);
                assert(quad == Result::<PrimModel, PsxError>::Err(PsxError::Truncated));
            }
            return Err(PsxError::Truncated);
        }
        let vertices = [
            read_le16(data, p),
            read_le16(data, p + 2),
            read_le16(data, p + 4),
            read_le16(data, p + 6),
        ];
        p = p + 8;
        if is_textured {
            if n < 16 || p > n - 16 {
                proof {
                    reveal(spec_parse_quad);
                    assert(quad == Result::<PrimModel, PsxError>::Err(PsxError::Truncated));
                }
                return Err(PsxError::Truncated);
            }
            let uvs = [
                (data[p], data[p + 1]),
                (data[p + 6], data[p + 7]),
                (data[p + 10], data[p + 11]),
                (data[p + 14], data[p + 15]),
            ];
            let texture_info = TextureInfo {
                clut_x: read_le16(data, p + 2),
                clut_y: read_le16(data, p + 4),
                tpage: read_le16(data, p + 8),
            };
            let prim = TmdPrimitive::Quad {
                vertices,
                normals: Some(normals),
                uvs: Some(uvs),
                texture_info: Some(texture_info),
            };
            proof {
                reveal(spec_parse_quad);
                lemma_prim_quad_view(prim, data@, pos as int, is_textured, is_gouraud);
                assert(quad == Result::<PrimModel, PsxError>::Ok(prim.deep_view()));
            }
            Ok(prim)
        } else {
            let prim = TmdPrimitive::Quad {
                vertices,
                normals: Some(normals),
                uvs: None,
                texture_info: None,
            };
            proof {
                reveal(spec_parse_quad);
                lemma_prim_quad_view(prim, data@, pos as int, is_textured, is_gouraud);
                assert(quad == Result::<PrimModel, PsxError>::Ok(prim.deep_view()));
            }
            Ok(prim)
        }
    }

    /// Number of objects in the model.
    pub fn object_count(&self) -> (r: usize)
        ensures
            r == self.objects@.len(),
    {
        self.objects.len()
    }

    /// Vertex count of object `object_index`, if it exists.
    pub fn vertex_count(&self, object_index: usize) -> (r: Option<usize>)
        ensures
            r is Some <==> object_index < self.objects@.len(),
            r matches Some(c) ==> c == self.objects@[object_index as int].vertices@.len(),
    {
        if object_index < self.objects.len() {
            Some(self.objects[object_index].vertices.len())
        } else {
            None
        }
    }
}

/// A freshly built triangle value views as what the triangle spec
/// parser reads at the same position.
proof fn lemma_prim_tri_view(
    prim: TmdPrimitive,
    d: Seq<u8>,
    p: int,
    textured: bool,
    gouraud: bool,
)
    requires
        spec_parse_triangle(d, p, textured, gouraud) is Ok,
        prim matches TmdPrimitive::Triangle { vertices, normals, uvs, texture_info } && ({
            let m = spec_parse_triangle(d, p, textured, gouraud).unwrap();
            m matches PrimModel::Triangle {
                vertices: sv,
                normals: sn,
                uvs: su,
                texture_info: st,
            } && vertices@.len() == 3 && sv.len() == 3 && vertices@[0] == sv[0] && vertices@[1]
                == sv[1] && vertices@[2] == sv[2] && (match (normals, sn) {
                (Option::Some(na), Option::Some(ns)) => na@.len() == 3 && ns.len() == 3
                    && na@[0] == ns[0] && na@[1] == ns[1] && na@[2] == ns[2],
                (Option::None, Option::None) => true,
                _ => false,
            }) && (match (uvs, su) {
                (Option::Some(ua), Option::Some(us)) => ua@.len() == 3 && us.len() == 3 && ua@[0]
                    == us[0] && ua@[1] == us[1] && ua@[2] == us[2],
                (Option::None, Option::None) => true,
                _ => false,
            }) && texture_info == st
        }),
    ensures
        prim.deep_view() == spec_parse_triangle(d, p, textured, gouraud).unwrap(),
{
    let m = spec_parse_triangle(d, p, textured, gouraud).unwrap();
    if let TmdPrimitive::Triangle { vertices, normals, uvs, texture_info } = prim {
        if let PrimModel::Triangle { vertices: sv, normals: sn, uvs: su, texture_info: st } = m {
            assert(vertices@ =~= sv);
            match (normals, sn) {
                (Option::Some(na), Option::Some(ns)) => {
                    assert(na@ =~= ns);
                },
                _ => {},
            }
            match (uvs, su) {
                (Option::Some(ua), Option::Some(us)) => {
                    assert(ua@ =~= us);
                },
                _ => {},
            }
        }
    }
}

/// A freshly built quad value views as what the quad spec parser
/// reads at the same position.
proof fn lemma_prim_quad_view(
    prim: TmdPrimitive,
    d: Seq<u8>,
    p: int,
    textured: bool,
    gouraud: bool,
)
    requires
        spec_parse_quad(d, p, textured, gouraud) is Ok,
        prim matches TmdPrimitive::Quad { vertices, normals, uvs, texture_info } && ({
            let m = spec_parse_quad(d, p, textured, gouraud).unwrap();
            m matches PrimModel::Quad { vertices: sv, normals: sn, uvs: su, texture_info: st }
                && vertices@.len() == 4 && sv.len() == 4 && vertices@[0] == sv[0] && vertices@[1]
                == sv[1] && vertices@[2] == sv[2] && vertices@[3] == sv[3] && (match (normals, sn) {
                (Option::Some(na), Option::Some(ns)) => na@.len() == 4 && ns.len() == 4
                    && na@[0] == ns[0] && na@[1] == ns[1] && na@[2] == ns[2] && na@[3] == ns[3],
                (Option::None, Option::None) => true,
                _ => false,
            }) && (match (uvs, su) {
                (Option::Some(ua), Option::Some(us)) => ua@.len() == 4 && us.len() == 4 && ua@[0]
                    == us[0] && ua@[1] == us[1] && ua@[2] == us[2] && ua@[3] == us[3],
                (Option::None, Option::None) => true,
                _ => false,
            }) && texture_info == st
        }),
    ensures
        prim.deep_view() == spec_parse_quad(d, p, textured, gouraud).unwrap(),
{
    let m = spec_parse_quad(d, p, textured, gouraud).unwrap();
    if let TmdPrimitive::Quad { vertices, normals, uvs, texture_info } = prim {
        if let PrimModel::Quad { vertices: sv, normals: sn, uvs: su, texture_info: st } = m {
            assert(vertices@ =~= sv);
            match (normals, sn) {
                (Option::Some(na), Option::Some(ns)) => {
                    assert(na@ =~= ns);
                },
                _ => {},
            }
            match (uvs, su) {
                (Option::Some(ua), Option::Some(us)) => {
                    assert(ua@ =~= us);
                },
                _ => {},
            }
        }
    }
}

/// A model with zero objects, or an object whose vertex table runs
/// past the buffer, is rejected.
pub proof fn lemma_tmd_rejections(d: Seq<u8>)
    ensures
        d.len() >= 12 && le32(d, 0) == 0x41 && le32(d, 8) == 0 ==> spec_parse_tmd(d) == Result::<
            (u32, Seq<ObjModel>),
            PsxError,
        >::Err(PsxError::InvalidField),
        spec_parse_tmd(d) is Ok ==> le32(d, 8) >= 1,
{
}

} // verus!
