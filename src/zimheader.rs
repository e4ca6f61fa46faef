use vstd::prelude::*;

use crate::error::ZimError;
use crate::source::{ByteCursor, bytes_at, decode_le, le_at};

verus! {

/// The value of the first four header bytes, little-endian.
pub const ZIM_MAGIC_NUMBER: u32 = 0x044d495a;

/// Size in bytes of the fixed header.
pub const HEADER_SIZE: usize = 80;

/// The fixed 80-byte archive header. Every position is an absolute byte
/// offset into the same source.
#[derive(Debug, Clone, Copy)]
pub struct ZimHeader {
    pub magic_number: u32,
    pub major_version: u16,
    pub minor_version: u16,
    pub uuid: [u8; 16],
    pub article_count: u32,
    pub cluster_count: u32,
    pub path_ptr_pos: u64,
    pub title_idx_pos: u64,
    pub cluster_ptr_pos: u64,
    pub mime_list_pos: u64,
    pub main_page: u32,
    /// Conventionally all ones.
    pub layout_page: u32,
    pub checksum_pos: u64,
}

/// What a decoded header holds.
pub struct HeaderView {
    pub magic_number: u32,
    pub major_version: u16,
    pub minor_version: u16,
    pub uuid: Seq<u8>,
    pub article_count: u32,
    pub cluster_count: u32,
    pub path_ptr_pos: u64,
    pub title_idx_pos: u64,
    pub cluster_ptr_pos: u64,
    pub mime_list_pos: u64,
    pub main_page: u32,
    pub layout_page: u32,
    pub checksum_pos: u64,
}

impl View for ZimHeader {
    type V = HeaderView;

    open spec fn view(&self) -> HeaderView {
        HeaderView {
            magic_number: self.magic_number,
            major_version: self.major_version,
            minor_version: self.minor_version,
            uuid: self.uuid@,
            article_count: self.article_count,
            cluster_count: self.cluster_count,
            path_ptr_pos: self.path_ptr_pos,
            title_idx_pos: self.title_idx_pos,
            cluster_ptr_pos: self.cluster_ptr_pos,
            mime_list_pos: self.mime_list_pos,
            main_page: self.main_page,
            layout_page: self.layout_page,
            checksum_pos: self.checksum_pos,
        }
    }
}

/// The header encoded in the 80 bytes of `b` at `p`: `ShortRead` where
/// fewer remain, `InvalidMagicNumber` where the first four do not hold the
/// magic number, whatever the other 76.
pub open spec fn header_at(b: Seq<u8>, p: int) -> Result<HeaderView, ZimError> {
    if p + 80 > b.len() {
        Err(ZimError::ShortRead)
    } else if le_at(b, p, 4) != ZIM_MAGIC_NUMBER {
        Err(ZimError::InvalidMagicNumber)
    } else {
        Ok(
            HeaderView {
                magic_number: le_at(b, p, 4) as u32,
                major_version: le_at(b, p + 4, 2) as u16,
                minor_version: le_at(b, p + 6, 2) as u16,
                uuid: bytes_at(b, p + 8, 16),
                article_count: le_at(b, p + 24, 4) as u32,
                cluster_count: le_at(b, p + 28, 4) as u32,
                path_ptr_pos: le_at(b, p + 32, 8) as u64,
                title_idx_pos: le_at(b, p + 40, 8) as u64,
                cluster_ptr_pos: le_at(b, p + 48, 8) as u64,
                mime_list_pos: le_at(b, p + 56, 8) as u64,
                main_page: le_at(b, p + 64, 4) as u32,
                layout_page: le_at(b, p + 68, 4) as u32,
                checksum_pos: le_at(b, p + 72, 8) as u64,
            },
        )
    }
}

/// A source with fewer than 80 bytes from `p` fails header decoding with
/// `ShortRead`, whatever those bytes hold.
pub proof fn lemma_short_header(b: Seq<u8>, p: int)
    requires
        p + 80 > b.len(),
    ensures
        header_at(b, p) == Err::<HeaderView, ZimError>(ZimError::ShortRead),
{
}

/// Every decoded header holds the magic number. Where 80 bytes are there,
/// the magic check depends on the first four alone: two sources that agree
/// on them both fail with `InvalidMagicNumber` or both pass it, whatever the
/// other 76 bytes hold; and they fail exactly when those four bytes do not
/// hold the magic number.
pub proof fn lemma_magic_decides(b1: Seq<u8>, b2: Seq<u8>, p: int)
    requires
        0 <= p,
        p + 80 <= b1.len(),
        p + 80 <= b2.len(),
        bytes_at(b1, p, 4) == bytes_at(b2, p, 4),
    ensures
        header_at(b1, p) matches Ok(h) ==> h.magic_number == ZIM_MAGIC_NUMBER,
        (header_at(b1, p) == Err::<HeaderView, ZimError>(ZimError::InvalidMagicNumber)) <==> (
        le_at(b1, p, 4) != ZIM_MAGIC_NUMBER),
        (header_at(b1, p) == Err::<HeaderView, ZimError>(ZimError::InvalidMagicNumber)) <==> (
        header_at(b2, p) == Err::<HeaderView, ZimError>(ZimError::InvalidMagicNumber)),
{
}

impl ZimHeader {
    /// Decodes the header at the reader's position.
    ///
    /// Fails with `ShortRead` where fewer than 80 bytes remain, before any
    /// field is looked at; then with `InvalidMagicNumber` exactly where the
    /// first four bytes do not hold the magic number, whatever the other 76.
    pub fn parse_header(reader: &mut ByteCursor) -> (r: Result<ZimHeader, ZimError>)
        ensures
            final(reader).data@ == old(reader).data@,
            match r {
                Ok(h) => header_at(old(reader).data@, old(reader).pos as int) == Ok::<
                    HeaderView,
                    ZimError,
                >(h@) && h.magic_number == ZIM_MAGIC_NUMBER && final(reader).pos == old(reader).pos
                    + 80,
                Err(e) => header_at(old(reader).data@, old(reader).pos as int) == Err::<
                    HeaderView,
                    ZimError,
                >(e),
            },
    {
        let ghost b = reader.data@;
        let ghost p = reader.pos as int;
        let buf = match reader.read_bytes(HEADER_SIZE as u64) {
            Ok(v) => v,
            Err(e) => return Err(e),
        };
        let s = buf.as_slice();
        proof {
            assert forall|o: int, w: int| 0 <= o && 0 <= w && o + w <= 80 implies #[trigger] bytes_at(s@, o, w)
                =~= bytes_at(b, p + o, w) by {}
        }
        let magic_number = decode_le(s, 0, 4) as u32;
        if magic_number != ZIM_MAGIC_NUMBER {
            return Err(ZimError::InvalidMagicNumber);
        }
        let uuid: [u8; 16] = [
            s[8],
            s[9],
            s[10],
            s[11],
            s[12],
            s[13],
            s[14],
            s[15],
            s[16],
            s[17],
            s[18],
            s[19],
            s[20],
            s[21],
            s[22],
            s[23],
        ];
        let h = ZimHeader {
            magic_number,
            major_version: decode_le(s, 4, 2) as u16,
            minor_version: decode_le(s, 6, 2) as u16,
            uuid,
            article_count: decode_le(s, 24, 4) as u32,
            cluster_count: decode_le(s, 28, 4) as u32,
            path_ptr_pos: decode_le(s, 32, 8),
            title_idx_pos: decode_le(s, 40, 8),
            cluster_ptr_pos: decode_le(s, 48, 8),
            mime_list_pos: decode_le(s, 56, 8),
            main_page: decode_le(s, 64, 4) as u32,
            layout_page: decode_le(s, 68, 4) as u32,
            checksum_pos: decode_le(s, 72, 8),
        };
        assert(h.uuid@ =~= bytes_at(b, p + 8, 16));
        assert(h@ == header_at(b, p)->Ok_0);
        Ok(h)
    }
}

} // verus!
