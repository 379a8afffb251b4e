//! The font asset: the bytes of a font file, checked once when they are
//! taken in and read by every text that is drawn with the font.

use crate::error::RenderError;
use vstd::prelude::*;

verus! {

/// The first four bytes of a file that holds a collection of faces.
pub const COLLECTION_MAGIC: u32 = 0x7474_6366;

/// A count of table records that no face may declare: the rasteriser's
/// reader steps through the records with a sixteen-bit counter, which cannot
/// count past this many.
pub const UNCOUNTABLE_RECORDS: u16 = 0xFFFF;

/// The two bytes at `at`, read as a big-endian number.
pub open spec fn be16(bytes: Seq<u8>, at: int) -> int {
    bytes[at] * 0x100 + bytes[at + 1]
}

/// The four bytes at `at`, read as a big-endian number.
pub open spec fn be32(bytes: Seq<u8>, at: int) -> int {
    be16(bytes, at) * 0x1_0000 + be16(bytes, at + 2)
}

/// Where the first face of the file begins: at the offset that a collection
/// gives for it, and at the start of any other file.
pub open spec fn first_face_offset(bytes: Seq<u8>) -> int {
    if bytes.len() >= 16 && be32(bytes, 0) == COLLECTION_MAGIC {
        be32(bytes, 12)
    } else {
        0
    }
}

/// The number of table records that the first face declares, where the file
/// is long enough to hold that number: it stands four bytes into the face.
pub open spec fn declared_records(bytes: Seq<u8>) -> Option<int> {
    let face = first_face_offset(bytes);
    if face + 6 <= bytes.len() {
        Some(be16(bytes, face + 4))
    } else {
        None
    }
}

/// The first face does not declare more table records than can be counted.
pub open spec fn countable(bytes: Seq<u8>) -> bool {
    declared_records(bytes) != Some(UNCOUNTABLE_RECORDS as int)
}

/// Whether the rasteriser accepts these bytes as a font.  What makes a font
/// file well formed is the rasteriser's business; here it only has a name.
pub uninterp spec fn font_loads(bytes: Seq<u8>) -> bool;

/// The bytes are taken as a font: their records can be counted and the
/// rasteriser loads them.
pub open spec fn accepted(bytes: Seq<u8>) -> bool {
    countable(bytes) && font_loads(bytes)
}

/// Calls `rusttype::Font::try_from_bytes` and says whether it returned a font.
/// The contract claims only that the answer depends on the bytes alone: the
/// parser reads nothing but the slice it is given.  Bytes whose first face
/// declares 65535 table records are kept from the call, because the parser
/// walks the records with a sixteen-bit counter that it advances once more
/// than there are records, and that step fails on 65535.
#[verifier::external_body]
fn loads(bytes: &[u8]) -> (ok: bool)
    requires
        countable(bytes@),
    ensures
        ok == font_loads(bytes@),
{
    rusttype::Font::try_from_bytes(bytes).is_some()
}

/// Reads two bytes as a big-endian number.
fn read_be16(bytes: &[u8], at: usize) -> (r: u16)
    requires
        at + 2 <= bytes@.len(),
    ensures
        r == be16(bytes@, at as int),
{
    let high: u16 = bytes[at] as u16;
    let low: u16 = bytes[at + 1] as u16;
    high * 0x100 + low
}

/// Reads four bytes as a big-endian number.
fn read_be32(bytes: &[u8], at: usize) -> (r: u32)
    requires
        at + 4 <= bytes@.len() <= usize::MAX,
    ensures
        r == be32(bytes@, at as int),
{
    let high: u32 = read_be16(bytes, at) as u32;
    let low: u32 = read_be16(bytes, at + 2) as u32;
    high * 0x1_0000 + low
}

/// Reads the number of table records that the first face of a font file
/// declares.  `None` where the file ends before that number.
pub fn table_records(bytes: &[u8]) -> (r: Option<u16>)
    ensures
        match r {
            Some(count) => declared_records(bytes@) == Some(count as int),
            None => declared_records(bytes@) is None,
        },
{
    let len = bytes.len();
    let face: u64 = if len >= 16 && read_be32(bytes, 0) == COLLECTION_MAGIC {
        read_be32(bytes, 12) as u64
    } else {
        0
    };
    if len >= 6 && face <= (len - 6) as u64 {
        Some(read_be16(bytes, face as usize + 4))
    } else {
        None
    }
}

/// The raw bytes of a font file and their number.
#[derive(Clone, Debug)]
pub struct FontData {
    pub data: Vec<u8>,
    pub size: usize,
}

impl FontData {
    /// The bytes are a font that is accepted, and `size` is their number.
    pub open spec fn wf(&self) -> bool {
        accepted(self.data@) && self.size == self.data@.len()
    }

    /// Takes in the bytes of a font file.  Bytes that the rasteriser cannot
    /// load are refused, so that no text is ever built on a broken font; so
    /// are bytes whose first face declares 65535 table records, which no
    /// font does and which the rasteriser cannot be asked about.
    pub fn new(data: Vec<u8>) -> (r: Result<FontData, RenderError>)
        ensures
            accepted(data@) ==> r is Ok && r->Ok_0.wf() && r->Ok_0.data == data,
            !accepted(data@) ==> r == Err::<FontData, RenderError>(RenderError::FontLoadError),
    {
        let ok = match table_records(data.as_slice()) {
            Some(count) => count != UNCOUNTABLE_RECORDS && loads(data.as_slice()),
            None => loads(data.as_slice()),
        };
        FontData::from_checked(data, ok)
    }

    /// Builds the asset from bytes whose check has already been made, with
    /// `loadable` as its outcome.
    pub fn from_checked(data: Vec<u8>, loadable: bool) -> (r: Result<FontData, RenderError>)
        ensures
            loadable ==> r is Ok && r->Ok_0.data == data && r->Ok_0.size == data@.len(),
            !loadable ==> r == Err::<FontData, RenderError>(RenderError::FontLoadError),
    {
        if loadable {
            let size = data.len();
            Ok(FontData { data, size })
        } else {
            Err(RenderError::FontLoadError)
        }
    }
}

} // verus!
