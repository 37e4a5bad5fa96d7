//! The array metadata record (`.zarray`): shape, chunk shape and element
//! type, validated on construction and written as compact JSON with a fixed
//! key set, no compressor, no fill value and row-major order.
use vstd::prelude::*;
use crate::chunk_key::{chunk_key, spec_chunk_key};
use crate::text::{
    ascii_bytes, join_decimal, lemma_join_bytes, lemma_join_injective, lemma_split_first,
    push_ascii, push_joined,
};

verus! {

/// Element type of an array.
#[derive(Clone, Copy, Debug, PartialEq, Eq, Structural)]
pub enum DType {
    /// Little-endian unsigned 16-bit integers.
    U16,
    /// Little-endian 64-bit IEEE floats.
    F64,
}

impl DType {
    pub open spec fn spec_code(self) -> Seq<char> {
        match self {
            DType::U16 => "<u2"@,
            DType::F64 => "<f8"@,
        }
    }

    pub open spec fn spec_width(self) -> nat {
        match self {
            DType::U16 => 2,
            DType::F64 => 8,
        }
    }

    /// The type's name in the metadata record.
    pub fn code(&self) -> (r: &'static str)
        ensures
            r@ == self.spec_code(),
            r.is_ascii(),
    {
        proof {
            reveal_strlit("<u2");
            reveal_strlit("<f8");
        }
        match self {
            DType::U16 => "<u2",
            DType::F64 => "<f8",
        }
    }

    /// Bytes per element.
    pub fn width(&self) -> (r: usize)
        ensures
            r == self.spec_width(),
    {
        match self {
            DType::U16 => 2,
            DType::F64 => 8,
        }
    }
}

/// Why an array description or a chunk address is refused.
#[derive(Clone, Copy, Debug, PartialEq, Eq, Structural)]
pub enum ValidationError {
    /// Shape and chunk shape have different lengths.
    RankMismatch,
    /// A dimension of the shape or of the chunk shape is zero.
    ZeroDimension,
    /// Chunk coordinates of another rank than the array's.
    CoordinateRank,
    /// A chunk coordinate lies beyond the array's chunk grid.
    CoordinateOutOfRange,
}

/// Equal ranks and every dimension strictly positive.
pub open spec fn valid_dims(shape: Seq<u64>, chunks: Seq<u64>) -> bool {
    &&& shape.len() == chunks.len()
    &&& forall|i: int| 0 <= i < shape.len() ==> #[trigger] shape[i] > 0 && chunks[i] > 0
}

/// The error that an invalid description is refused with: a rank mismatch
/// takes precedence over a zero dimension.
pub open spec fn dims_error(shape: Seq<u64>, chunks: Seq<u64>) -> ValidationError {
    if shape.len() != chunks.len() {
        ValidationError::RankMismatch
    } else {
        ValidationError::ZeroDimension
    }
}

/// Chunk coordinates of the array's rank, each within the chunk grid: the
/// chunk starts inside the array.
pub open spec fn in_grid(shape: Seq<u64>, chunks: Seq<u64>, coords: Seq<u64>) -> bool {
    &&& coords.len() == shape.len()
    &&& forall|i: int|
        0 <= i < coords.len() ==> (#[trigger] coords[i] as int) * (chunks[i] as int) < shape[i] as int
}

/// The metadata record, byte for byte.
pub open spec fn zarray_json(shape: Seq<u64>, chunks: Seq<u64>, dtype: DType) -> Seq<u8> {
    ascii_bytes("{\"zarr_format\":2,\"shape\":["@) + join_decimal(shape, 44) + ascii_bytes(
        "],\"chunks\":["@,
    ) + join_decimal(chunks, 44) + ascii_bytes("],\"dtype\":\""@) + ascii_bytes(dtype.spec_code())
        + ascii_bytes("\",\"compressor\":null,\"fill_value\":null,\"order\":\"C\"}"@)
}

/// Peels a numeral list closed by `]` off two equal texts with a common head.
proof fn lemma_peel_list(head: Seq<u8>, s1: Seq<u64>, r1: Seq<u8>, s2: Seq<u64>, r2: Seq<u8>)
    requires
        head + join_decimal(s1, 44).push(93) + r1 == head + join_decimal(s2, 44).push(93) + r2,
    ensures
        s1 == s2,
        r1 == r2,
{
    let j1 = join_decimal(s1, 44);
    let j2 = join_decimal(s2, 44);
    let w1 = head + j1.push(93) + r1;
    let w2 = head + j2.push(93) + r2;
    assert(j1.push(93) + r1 =~= w1.skip(head.len() as int));
    assert(j2.push(93) + r2 =~= w2.skip(head.len() as int));
    lemma_join_bytes(s1, 44);
    lemma_join_bytes(s2, 44);
    assert(!j1.contains(93));
    assert(!j2.contains(93));
    lemma_split_first(j1, r1, j2, r2, 93);
    lemma_join_injective(s1, s2, 44);
}

/// The metadata record determines the array it describes: the shape, chunk
/// shape and element type read back from a record are the ones it was
/// written from.
pub proof fn lemma_zarray_json_determines(
    shape1: Seq<u64>,
    chunks1: Seq<u64>,
    dtype1: DType,
    shape2: Seq<u64>,
    chunks2: Seq<u64>,
    dtype2: DType,
)
    requires
        zarray_json(shape1, chunks1, dtype1) == zarray_json(shape2, chunks2, dtype2),
    ensures
        shape1 == shape2,
        chunks1 == chunks2,
        dtype1 == dtype2,
{
    reveal_strlit("],\"chunks\":[");
    reveal_strlit("],\"dtype\":\"");
    reveal_strlit("<u2");
    reveal_strlit("<f8");
    let open = ascii_bytes("{\"zarr_format\":2,\"shape\":["@);
    let mid1 = ascii_bytes("],\"chunks\":["@);
    let mid2 = ascii_bytes("],\"dtype\":\""@);
    let tail = ascii_bytes("\",\"compressor\":null,\"fill_value\":null,\"order\":\"C\"}"@);
    let code1 = ascii_bytes(dtype1.spec_code());
    let code2 = ascii_bytes(dtype2.spec_code());
    let j_s1 = join_decimal(shape1, 44);
    let j_s2 = join_decimal(shape2, 44);
    let j_c1 = join_decimal(chunks1, 44);
    let j_c2 = join_decimal(chunks2, 44);
    assert(mid1[0] == 93);
    assert(mid2[0] == 93);
    let gap = mid1.skip(1);
    let quote = mid2.skip(1);
    assert(mid1 =~= seq![93u8] + gap);
    assert(mid2 =~= seq![93u8] + quote);

    let after_shape1 = gap + j_c1 + mid2 + code1 + tail;
    let after_shape2 = gap + j_c2 + mid2 + code2 + tail;
    assert(zarray_json(shape1, chunks1, dtype1) =~= open + j_s1.push(93) + after_shape1);
    assert(zarray_json(shape2, chunks2, dtype2) =~= open + j_s2.push(93) + after_shape2);
    lemma_peel_list(open, shape1, after_shape1, shape2, after_shape2);

    let after_chunks1 = quote + code1 + tail;
    let after_chunks2 = quote + code2 + tail;
    assert(after_shape1 =~= gap + j_c1.push(93) + after_chunks1);
    assert(after_shape2 =~= gap + j_c2.push(93) + after_chunks2);
    lemma_peel_list(gap, chunks1, after_chunks1, chunks2, after_chunks2);

    assert(code1 =~= after_chunks1.subrange(quote.len() as int, quote.len() as int + 3));
    assert(code2 =~= after_chunks2.subrange(quote.len() as int, quote.len() as int + 3));
    assert(code1[1] == code2[1]);
}

/// Description of one array: immutable once built.
#[derive(Debug)]
pub struct ArrayMetadata {
    shape: Vec<u64>,
    chunks: Vec<u64>,
    dtype: DType,
}

impl ArrayMetadata {
    #[verifier::type_invariant]
    spec fn inv(&self) -> bool {
        valid_dims(self.shape@, self.chunks@)
    }

    pub closed spec fn spec_shape(&self) -> Seq<u64> {
        self.shape@
    }

    pub closed spec fn spec_chunks(&self) -> Seq<u64> {
        self.chunks@
    }

    pub closed spec fn spec_dtype(&self) -> DType {
        self.dtype
    }

    /// Validates and builds the description of an array.
    pub fn new(shape: Vec<u64>, chunks: Vec<u64>, dtype: DType) -> (r: Result<
        ArrayMetadata,
        ValidationError,
    >)
        ensures
            match r {
                Ok(m) => {
                    &&& valid_dims(shape@, chunks@)
                    &&& m.spec_shape() == shape@
                    &&& m.spec_chunks() == chunks@
                    &&& m.spec_dtype() == dtype
                },
                Err(e) => !valid_dims(shape@, chunks@) && e == dims_error(shape@, chunks@),
            },
    {
        if shape.len() != chunks.len() {
            return Err(ValidationError::RankMismatch);
        }
        let mut i: usize = 0;
        while i < shape.len()
            invariant
                shape@.len() == chunks@.len(),
                i <= shape@.len(),
                forall|j: int| 0 <= j < i ==> #[trigger] shape@[j] > 0 && chunks@[j] > 0,
            decreases shape@.len() - i,
        {
            if shape[i] == 0 || chunks[i] == 0 {
                return Err(ValidationError::ZeroDimension);
            }
            i += 1;
        }
        Ok(ArrayMetadata { shape, chunks, dtype })
    }

    pub fn shape(&self) -> (r: &Vec<u64>)
        ensures
            r@ == self.spec_shape(),
    {
        &self.shape
    }

    pub fn chunks(&self) -> (r: &Vec<u64>)
        ensures
            r@ == self.spec_chunks(),
    {
        &self.chunks
    }

    pub fn dtype(&self) -> (r: DType)
        ensures
            r == self.spec_dtype(),
    {
        self.dtype
    }

    /// The metadata record as compact JSON bytes.
    pub fn to_json(&self) -> (r: Vec<u8>)
        ensures
            r@ == zarray_json(self.spec_shape(), self.spec_chunks(), self.spec_dtype()),
    {
        let mut out: Vec<u8> = Vec::new();
        proof {
            reveal_strlit("{\"zarr_format\":2,\"shape\":[");
            reveal_strlit("],\"chunks\":[");
            reveal_strlit("],\"dtype\":\"");
            reveal_strlit("\",\"compressor\":null,\"fill_value\":null,\"order\":\"C\"}");
        }
        push_ascii(&mut out, "{\"zarr_format\":2,\"shape\":[");
        push_joined(&mut out, self.shape.as_slice(), 44);
        push_ascii(&mut out, "],\"chunks\":[");
        push_joined(&mut out, self.chunks.as_slice(), 44);
        push_ascii(&mut out, "],\"dtype\":\"");
        push_ascii(&mut out, self.dtype.code());
        push_ascii(&mut out, "\",\"compressor\":null,\"fill_value\":null,\"order\":\"C\"}");
        out
    }

    /// The key of the chunk at `coords`, refused unless the coordinates
    /// have the array's rank and address a chunk of its grid.
    pub fn checked_chunk_key(&self, coords: &[u64]) -> (r: Result<Vec<u8>, ValidationError>)
        ensures
            match r {
                Ok(k) => in_grid(self.spec_shape(), self.spec_chunks(), coords@) && k@
                    == spec_chunk_key(coords@),
                Err(e) => !in_grid(self.spec_shape(), self.spec_chunks(), coords@) && e == (
                if coords@.len() != self.spec_shape().len() {
                    ValidationError::CoordinateRank
                } else {
                    ValidationError::CoordinateOutOfRange
                }),
            },
    {
        proof {
            use_type_invariant(self);
        }
        if coords.len() != self.shape.len() {
            return Err(ValidationError::CoordinateRank);
        }
        let mut i: usize = 0;
        while i < coords.len()
            invariant
                coords@.len() == self.shape@.len(),
                self.chunks@.len() == self.shape@.len(),
                i <= coords@.len(),
                forall|j: int|
                    0 <= j < i ==> (#[trigger] coords@[j] as int) * (self.chunks@[j] as int)
                        < self.shape@[j] as int,
            decreases coords@.len() - i,
        {
            let inside = match coords[i].checked_mul(self.chunks[i]) {
                Some(p) => p < self.shape[i],
                None => false,
            };
            if !inside {
                return Err(ValidationError::CoordinateOutOfRange);
            }
            i += 1;
        }
        Ok(chunk_key(coords))
    }
}

/// File name of the metadata record inside an array's directory.
pub const ZARRAY_FILE: &'static str = ".zarray";

/// File name of the attribute sidecar inside an array's directory.
pub const ZATTRS_FILE: &'static str = ".zattrs";

/// The metadata record of a new array, or the reason it cannot be created;
/// nothing is to be written on disk when this fails.
pub fn zarray_document(shape: Vec<u64>, chunks: Vec<u64>, dtype: DType) -> (r: Result<
    Vec<u8>,
    ValidationError,
>)
    ensures
        match r {
            Ok(doc) => valid_dims(shape@, chunks@) && doc@ == zarray_json(shape@, chunks@, dtype),
            Err(e) => !valid_dims(shape@, chunks@) && e == dims_error(shape@, chunks@),
        },
{
    match ArrayMetadata::new(shape, chunks, dtype) {
        Ok(m) => Ok(m.to_json()),
        Err(e) => Err(e),
    }
}

} // verus!
