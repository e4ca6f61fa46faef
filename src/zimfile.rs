use vstd::prelude::*;
use vstd::utf8::{decode_utf8, valid_utf8};

use crate::dirent::is_first_null;
use crate::error::ZimError;
use crate::source::{ByteCursor, table_entry, utf8_to_string};
use crate::zimheader::{HeaderView, ZimHeader, header_at};

verus! {

/// The `count` 8-byte little-endian offsets of a pointer table at `start`.
pub open spec fn pointer_table(b: Seq<u8>, start: int, count: nat) -> Seq<u64> {
    Seq::new(count, |i: int| table_entry(b, start, 8, i) as u64)
}

/// The `count` entries of a pointer table at `start` lie inside `b`.
pub open spec fn pointer_table_fits(b: Seq<u8>, start: int, count: nat) -> bool {
    count == 0 || start + 8 * count <= b.len()
}

/// Reads a pointer table: `count` consecutive 8-byte little-endian offsets
/// starting at the absolute position `start`, in file order.
///
/// Succeeds exactly where the `8 * count` bytes are there (always where
/// `count` is zero: nothing is read), and leaves the reader just past them.
pub fn parse_pointer_table(reader: &mut ByteCursor, start: u64, count: u32) -> (r: Result<
    Vec<u64>,
    ZimError,
>)
    ensures
        final(reader).data@ == old(reader).data@,
        r is Ok <==> pointer_table_fits(old(reader).data@, start as int, count as nat),
        r is Err ==> r == Err::<Vec<u64>, ZimError>(ZimError::ShortRead),
        r matches Ok(v) ==> v@ == pointer_table(old(reader).data@, start as int, count as nat)
            && final(reader).pos == start + 8 * count,
{
    let ghost b = reader.data@;
    reader.seek(start);
    let mut pointers: Vec<u64> = Vec::new();
    let mut i: u32 = 0;
    while i < count
        invariant
            reader.data@ == b,
            b == old(reader).data@,
            i <= count,
            reader.pos == start + 8 * i,
            i > 0 ==> reader.pos <= b.len(),
            pointers@ == pointer_table(b, start as int, i as nat),
        decreases count - i,
    {
        let v = match reader.read_le(8) {
            Ok(v) => v,
            Err(e) => return Err(e),
        };
        pointers.push(v);
        i = i + 1;
        assert(pointers@ =~= pointer_table(b, start as int, i as nat));
    }
    Ok(pointers)
}

/// The MIME types held in the bytes `b` of the MIME-type region.
///
/// Entries are null-terminated UTF-8 strings read from the front; an empty
/// entry, or the end of the region, ends the list. An entry whose
/// terminator is missing fails with `MimeListNotTerminated`.
pub open spec fn mime_list(b: Seq<u8>) -> Result<Seq<Seq<char>>, ZimError>
    decreases b.len(),
{
    if b.len() == 0 || b[0] == 0 {
        Ok(seq![])
    } else if exists|k: int| is_first_null(b, 0, k) {
        let k = choose|k: int| is_first_null(b, 0, k);
        let raw = b.subrange(0, k);
        if !valid_utf8(raw) {
            Err(ZimError::InvalidUtf8)
        } else {
            match mime_list(b.subrange(k + 1, b.len() as int)) {
                Ok(rest) => Ok(seq![decode_utf8(raw)] + rest),
                Err(e) => Err(e),
            }
        }
    } else {
        Err(ZimError::MimeListNotTerminated)
    }
}

/// `acc` followed by what `rest` holds, or the error of `rest`.
pub open spec fn prepend<T>(acc: Seq<T>, rest: Result<Seq<T>, ZimError>) -> Result<Seq<T>, ZimError> {
    match rest {
        Ok(s) => Ok(acc + s),
        Err(e) => Err(e),
    }
}

/// The characters of each string.
pub open spec fn string_views(v: Seq<String>) -> Seq<Seq<char>> {
    v.map_values(|s: String| s@)
}

/// Splits the bytes of a MIME-type region into its list of MIME types.
pub fn split_mime_list(buf: &[u8]) -> (r: Result<Vec<String>, ZimError>)
    ensures
        match r {
            Ok(v) => mime_list(buf@) == Ok::<Seq<Seq<char>>, ZimError>(string_views(v@)),
            Err(e) => mime_list(buf@) == Err::<Seq<Seq<char>>, ZimError>(e),
        },
{
    let len = buf.len();
    let mut mime_types: Vec<String> = Vec::new();
    let mut start: usize = 0;
    assert(buf@.subrange(0, len as int) =~= buf@);
    while start < len
        invariant
            len == buf@.len(),
            start <= len,
            mime_list(buf@) == prepend(string_views(mime_types@), mime_list(buf@.subrange(start as int, len as int))),
        decreases len - start,
    {
        let ghost t = buf@.subrange(start as int, len as int);
        if buf[start] == 0 {
            assert(mime_list(t) == Ok::<Seq<Seq<char>>, ZimError>(seq![]));
            assert(string_views(mime_types@) + seq![] =~= string_views(mime_types@));
            return Ok(mime_types);
        }
        let mut raw: Vec<u8> = Vec::new();
        let mut j: usize = start;
        while j < len && buf[j] != 0
            invariant
                len == buf@.len(),
                start <= j <= len,
                t == buf@.subrange(start as int, len as int),
                raw@ == buf@.subrange(start as int, j as int),
                forall|i: int| start <= i < j ==> buf@[i] != 0,
            decreases len - j,
        {
            raw.push(buf[j]);
            j = j + 1;
            assert(raw@ =~= buf@.subrange(start as int, j as int));
        }
        if j == len {
            assert(!exists|k: int| is_first_null(t, 0, k)) by {
                if exists|k: int| is_first_null(t, 0, k) {
                    let k = choose|k: int| is_first_null(t, 0, k);
                    assert(buf@[start + k] != 0);
                }
            }
            return Err(ZimError::MimeListNotTerminated);
        }
        let ghost k = j - start;
        assert(is_first_null(t, 0, k)) by {
            assert forall|i: int| 0 <= i < k implies t[i] != 0 by {
                assert(buf@[start + i] != 0);
            }
        }
        proof {
            let c = choose|c: int| is_first_null(t, 0, c);
            if c < k {
                assert(buf@[start + c] != 0);
            } else if k < c {
                assert(t[k] != 0);
            }
            assert(t.subrange(0, k) =~= raw@);
            assert(t.subrange(k + 1, t.len() as int) =~= buf@.subrange(j + 1, len as int));
        }
        let ghost before = string_views(mime_types@);
        match utf8_to_string(raw) {
            Some(s) => {
                mime_types.push(s);
                assert(string_views(mime_types@) =~= before.push(s@));
                proof {
                    let rest = mime_list(buf@.subrange(j + 1, len as int));
                    if rest is Ok {
                        assert(before + (seq![s@] + rest->Ok_0) =~= before.push(s@) + rest->Ok_0);
                    }
                }
            },
            None => return Err(ZimError::InvalidUtf8),
        }
        start = j + 1;
    }
    assert(buf@.subrange(len as int, len as int).len() == 0);
    assert(string_views(mime_types@) + seq![] =~= string_views(mime_types@));
    Ok(mime_types)
}

/// End of the MIME-type region: the nearest of the path-pointer table, the
/// cluster-pointer table and, where it is set (non-zero), the title index.
pub open spec fn mime_end(h: HeaderView) -> u64 {
    let e = if h.title_idx_pos > 0 && h.title_idx_pos < h.path_ptr_pos {
        h.title_idx_pos
    } else {
        h.path_ptr_pos
    };
    if h.cluster_ptr_pos < e {
        h.cluster_ptr_pos
    } else {
        e
    }
}

/// The MIME types of the archive in `b` whose header is `h`, with the end
/// of their region.
pub open spec fn mime_table_at(b: Seq<u8>, h: HeaderView) -> Result<(Seq<Seq<char>>, int), ZimError> {
    let start = h.mime_list_pos as int;
    let end = mime_end(h) as int;
    if end <= start {
        Err(ZimError::InvalidMimeListBounds)
    } else if end > b.len() {
        Err(ZimError::ShortRead)
    } else {
        match mime_list(b.subrange(start, end)) {
            Ok(l) => Ok((l, end)),
            Err(e) => Err(e),
        }
    }
}

/// Reads the MIME-type table that `header` locates.
pub fn parse_mime_types(reader: &mut ByteCursor, header: &ZimHeader) -> (r: Result<
    Vec<String>,
    ZimError,
>)
    ensures
        final(reader).data@ == old(reader).data@,
        match r {
            Ok(v) => mime_table_at(old(reader).data@, header@) == Ok::<
                (Seq<Seq<char>>, int),
                ZimError,
            >((string_views(v@), final(reader).pos as int)),
            Err(e) => mime_table_at(old(reader).data@, header@) == Err::<
                (Seq<Seq<char>>, int),
                ZimError,
            >(e),
        },
{
    let mut end_pos = header.path_ptr_pos;
    if header.title_idx_pos > 0 && header.title_idx_pos < end_pos {
        end_pos = header.title_idx_pos;
    }
    if header.cluster_ptr_pos < end_pos {
        end_pos = header.cluster_ptr_pos;
    }
    let start_pos = header.mime_list_pos;
    if end_pos <= start_pos {
        return Err(ZimError::InvalidMimeListBounds);
    }
    reader.seek(start_pos);
    let buffer = match reader.read_bytes(end_pos - start_pos) {
        Ok(v) => v,
        Err(e) => return Err(e),
    };
    split_mime_list(buffer.as_slice())
}

/// The header, MIME types and cluster pointers of an archive.
#[derive(Debug)]
pub struct ZimFile {
    pub header: ZimHeader,
    pub mime_types: Vec<String>,
    pub cluster_pointers: Vec<u64>,
}

/// What a decoded `ZimFile` holds.
pub struct ZimFileView {
    pub header: HeaderView,
    pub mime_types: Seq<Seq<char>>,
    pub cluster_pointers: Seq<u64>,
}

impl View for ZimFile {
    type V = ZimFileView;

    open spec fn view(&self) -> ZimFileView {
        ZimFileView {
            header: self.header@,
            mime_types: string_views(self.mime_types@),
            cluster_pointers: self.cluster_pointers@,
        }
    }
}

/// The archive whose header starts at `p` in `b`: its header, then its
/// MIME types, then its cluster-pointer table; or the first error met.
pub open spec fn zim_file_at(b: Seq<u8>, p: int) -> Result<ZimFileView, ZimError> {
    match header_at(b, p) {
        Err(e) => Err(e),
        Ok(h) => match mime_table_at(b, h) {
            Err(e) => Err(e),
            Ok((m, _)) => {
                if !pointer_table_fits(b, h.cluster_ptr_pos as int, h.cluster_count as nat) {
                    Err(ZimError::ShortRead)
                } else {
                    Ok(
                        ZimFileView {
                            header: h,
                            mime_types: m,
                            cluster_pointers: pointer_table(
                                b,
                                h.cluster_ptr_pos as int,
                                h.cluster_count as nat,
                            ),
                        },
                    )
                }
            },
        },
    }
}

impl ZimFile {
    /// Decodes the header at the reader's position, then the MIME-type table
    /// and the cluster-pointer table it locates.
    pub fn parse_bytes(reader: &mut ByteCursor) -> (r: Result<Self, ZimError>)
        ensures
            final(reader).data@ == old(reader).data@,
            match r {
                Ok(z) => zim_file_at(old(reader).data@, old(reader).pos as int) == Ok::<
                    ZimFileView,
                    ZimError,
                >(z@),
                Err(e) => zim_file_at(old(reader).data@, old(reader).pos as int) == Err::<
                    ZimFileView,
                    ZimError,
                >(e),
            },
    {
        let header = match ZimHeader::parse_header(reader) {
            Ok(h) => h,
            Err(e) => return Err(e),
        };
        let mime_types = match parse_mime_types(reader, &header) {
            Ok(m) => m,
            Err(e) => return Err(e),
        };
        let cluster_pointers = match parse_pointer_table(
            reader,
            header.cluster_ptr_pos,
            header.cluster_count,
        ) {
            Ok(v) => v,
            Err(e) => return Err(e),
        };
        Ok(ZimFile { header, mime_types, cluster_pointers })
    }
}

} // verus!
