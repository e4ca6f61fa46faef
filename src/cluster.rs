use vstd::prelude::*;

use crate::error::ZimError;
use crate::source::{ByteCursor, le_at, table_entry};

verus! {

/// The largest offset count a cluster table may declare; a guard against
/// corrupt input asking for an unbounded allocation.
pub const MAX_BLOBS: u64 = 1_000_000;

/// How a cluster's payload is compressed: the low nibble of its tag byte.
#[derive(Debug, PartialEq, Eq, Structural, Clone, Copy)]
pub enum Compression {
    Uncompressed,
    Zip,
    Bzip2,
    Lzma,
    Zstd,
}

/// The compression named by a tag's low nibble, if any.
pub open spec fn compression_of(code: u8) -> Option<Compression> {
    if code == 1 {
        Some(Compression::Uncompressed)
    } else if code == 2 {
        Some(Compression::Zip)
    } else if code == 3 {
        Some(Compression::Bzip2)
    } else if code == 4 {
        Some(Compression::Lzma)
    } else if code == 5 {
        Some(Compression::Zstd)
    } else {
        Option::None
    }
}

/// The low nibble of a cluster tag.
pub open spec fn tag_code(tag: u8) -> u8 {
    (tag % 16) as u8
}

/// Bit `0x10` of a cluster tag: the offset table holds 8-byte elements.
pub open spec fn tag_extended(tag: u8) -> bool {
    (tag / 16) % 2 == 1
}

/// Width in bytes of one offset-table element.
pub open spec fn offset_width(is_extended: bool) -> int {
    if is_extended {
        8
    } else {
        4
    }
}

/// Number of elements in an offset table whose first element is `first`:
/// the table describes its own size, and its first element is always present.
pub open spec fn table_len(first: nat, width: int) -> nat {
    let count = first / (width as nat);
    if count == 0 {
        1
    } else {
        count
    }
}

/// What a decoded cluster holds.
pub struct ClusterView {
    pub compression: Compression,
    pub is_extended: bool,
    pub blob_offsets: Seq<u64>,
}

/// The cluster encoded in `b` at `p`, with the position just after what is
/// read of it; or the error that decoding it meets first.
///
/// A compressed cluster is read no further than its tag: its offset table
/// lies inside the compressed payload.
pub open spec fn cluster_at(b: Seq<u8>, p: int) -> Result<(ClusterView, int), ZimError> {
    if !(0 <= p < b.len()) {
        Err(ZimError::ShortRead)
    } else {
        let tag = b[p];
        let ext = tag_extended(tag);
        match compression_of(tag_code(tag)) {
            Option::None => Err(ZimError::InvalidCompressionTag(tag_code(tag))),
            Option::Some(c) => {
                if c != Compression::Uncompressed {
                    Ok((ClusterView { compression: c, is_extended: ext, blob_offsets: seq![] }, p + 1))
                } else {
                    let w = offset_width(ext);
                    let start = p + 1;
                    if start + w > b.len() {
                        Err(ZimError::ShortRead)
                    } else if le_at(b, start, w) / (w as nat) > MAX_BLOBS {
                        Err(ZimError::TooManyBlobs((le_at(b, start, w) / (w as nat)) as u64))
                    } else {
                        let n = table_len(le_at(b, start, w), w);
                        if start + w * n > b.len() {
                            Err(ZimError::ShortRead)
                        } else {
                            Ok(
                                (
                                    ClusterView {
                                        compression: c,
                                        is_extended: ext,
                                        blob_offsets: Seq::new(
                                            n,
                                            |i: int| table_entry(b, start, w, i) as u64,
                                        ),
                                    },
                                    start + w * n,
                                ),
                            )
                        }
                    }
                }
            },
        }
    }
}

/// One cluster: its compression, offset width, and, when it is stored
/// uncompressed, its blob-offset table.
///
/// For a compressed cluster the table is left undecoded (empty): reaching it
/// needs the payload decompressed first.
#[derive(Debug)]
pub struct Cluster {
    pub compression: Compression,
    pub is_extended: bool,
    pub blob_offsets: Vec<u64>,
}

impl View for Cluster {
    type V = ClusterView;

    open spec fn view(&self) -> ClusterView {
        ClusterView {
            compression: self.compression,
            is_extended: self.is_extended,
            blob_offsets: self.blob_offsets@,
        }
    }
}

impl Cluster {
    /// An uncompressed cluster holds a table of one to `MAX_BLOBS` offsets;
    /// a compressed one holds none, its table being deferred.
    pub open spec fn wf(&self) -> bool {
        if self.compression == Compression::Uncompressed {
            1 <= self.blob_offsets@.len() <= MAX_BLOBS
        } else {
            self.blob_offsets@.len() == 0
        }
    }

    /// Number of blobs the offset table bounds: one less than its length.
    pub open spec fn blob_count(&self) -> nat {
        if self.blob_offsets@.len() == 0 {
            0
        } else {
            (self.blob_offsets@.len() - 1) as nat
        }
    }

    /// Decodes the cluster that starts at the reader's position.
    pub fn parse(reader: &mut ByteCursor) -> (r: Result<Self, ZimError>)
        ensures
            final(reader).data@ == old(reader).data@,
            match r {
                Ok(c) => cluster_at(old(reader).data@, old(reader).pos as int) == Ok::<
                    (ClusterView, int),
                    ZimError,
                >((c@, final(reader).pos as int)) && c.wf(),
                Err(e) => cluster_at(old(reader).data@, old(reader).pos as int) == Err::<
                    (ClusterView, int),
                    ZimError,
                >(e),
            },
    {
        let ghost b = reader.data@;
        let ghost p = reader.pos as int;
        let tag = match reader.read_u8() {
            Ok(t) => t,
            Err(e) => return Err(e),
        };
        let code = tag % 16;
        let is_extended = (tag / 16) % 2 == 1;
        let compression = match code {
            1 => Compression::Uncompressed,
            2 => Compression::Zip,
            3 => Compression::Bzip2,
            4 => Compression::Lzma,
            5 => Compression::Zstd,
            _ => return Err(ZimError::InvalidCompressionTag(code)),
        };
        let mut blob_offsets: Vec<u64> = Vec::new();
        match compression {
            Compression::Uncompressed => {},
            _ => {
                let c = Cluster { compression, is_extended, blob_offsets };
                assert(c@.blob_offsets =~= seq![]);
                return Ok(c);
            },
        }
        let width: u64 = if is_extended {
            8
        } else {
            4
        };
        let ghost start = p + 1;
        let first = match reader.read_le(width) {
            Ok(v) => v,
            Err(e) => return Err(e),
        };
        let count = first / width;
        if count > MAX_BLOBS {
            return Err(ZimError::TooManyBlobs(count));
        }
        let ghost n = table_len(first as nat, width as int);
        blob_offsets.push(first);
        let mut i: u64 = 1;
        proof {
            assert(start + width * 0 == start);
        }
        while i < count
            invariant
                reader.data@ == b,
                b == old(reader).data@,
                p == old(reader).pos,
                0 <= p < b.len(),
                start == p + 1,
                compression == Compression::Uncompressed,
                compression_of(tag_code(b[p])) == Some(Compression::Uncompressed),
                is_extended == tag_extended(b[p]),
                first == le_at(b, start, width as int),
                start + width <= b.len(),
                width == offset_width(is_extended),
                1 <= i,
                i <= n,
                n == table_len(first as nat, width as int),
                count == first / width,
                count <= MAX_BLOBS,
                reader.pos == start + width * i,
                reader.pos <= b.len(),
                blob_offsets@ == Seq::new(i as nat, |j: int| table_entry(b, start, width as int, j) as u64),
            decreases count - i,
        {
            let v = match reader.read_le(width) {
                Ok(v) => v,
                Err(e) => {
                    proof {
                        assert(width * n >= width * (i + 1)) by (nonlinear_arith)
                            requires
                                n >= i + 1,
                                width > 0,
                        ;
                    }
                    return Err(e);
                },
            };
            blob_offsets.push(v);
            i = i + 1;
            proof {
                assert(width * (i - 1) + width == width * i) by (nonlinear_arith);
            }
            assert(blob_offsets@ =~= Seq::new(i as nat, |j: int| table_entry(b, start, width as int, j) as u64));
        }
        let c = Cluster { compression, is_extended, blob_offsets };
        proof {
            assert(i == n);
            assert(c@.blob_offsets =~= Seq::new(n, |j: int| table_entry(b, start, width as int, j) as u64));
        }
        Ok(c)
    }

    /// Number of blobs: an offset table of `n` entries bounds `n - 1` blobs.
    pub fn count(&self) -> (r: usize)
        ensures
            r == self.blob_count(),
    {
        if self.blob_offsets.len() == 0 {
            0
        } else {
            self.blob_offsets.len() - 1
        }
    }

    /// Size of blob `index`: the difference of the offsets that bound it.
    ///
    /// `None` where the table has no entry `index + 1`, and where the two
    /// offsets decrease, which a well-formed archive never holds.
    pub fn get_blob_size(&self, index: usize) -> (r: Option<u64>)
        ensures
            r == (if index + 1 < self.blob_offsets@.len() && self.blob_offsets@[index as int]
                <= self.blob_offsets@[index + 1] {
                Some((self.blob_offsets@[index + 1] - self.blob_offsets@[index as int]) as u64)
            } else {
                Option::<u64>::None
            }),
    {
        let len = self.blob_offsets.len();
        if len == 0 || index >= len - 1 {
            return Option::None;
        }
        let lo = self.blob_offsets[index];
        let hi = self.blob_offsets[index + 1];
        if hi < lo {
            return Option::None;
        }
        Some(hi - lo)
    }
}

} // verus!
