use vstd::prelude::*;
use vstd::utf8::{decode_utf8, valid_utf8};

use crate::error::ZimError;
use crate::source::{ByteCursor, le_at, utf8_to_string};

verus! {

/// Mime-type code of a redirect record.
pub const REDIRECT_MIME_TYPE: u16 = 0xffff;

/// Mime-type code of a link-target record.
pub const LINK_TARGET_MIME_TYPE: u16 = 0xfffe;

/// Mime-type code of a deleted record.
pub const DELETED_MIME_TYPE: u16 = 0xfffd;

/// `k` is the first null byte of `b` at or after `start`.
pub open spec fn is_first_null(b: Seq<u8>, start: int, k: int) -> bool {
    &&& start <= k < b.len()
    &&& b[k] == 0
    &&& forall|j: int| start <= j < k ==> b[j] != 0
}

/// The null-terminated UTF-8 string that starts at `start` in `b`, with the
/// position just past its terminator; `ShortRead` where no null follows,
/// `InvalidUtf8` where the bytes before it are not UTF-8.
pub open spec fn cstring_at(b: Seq<u8>, start: int) -> Result<(Seq<char>, int), ZimError> {
    if exists|k: int| is_first_null(b, start, k) {
        let k = choose|k: int| is_first_null(b, start, k);
        let raw = b.subrange(start, k);
        if valid_utf8(raw) {
            Ok((decode_utf8(raw), k + 1))
        } else {
            Err(ZimError::InvalidUtf8)
        }
    } else {
        Err(ZimError::ShortRead)
    }
}

proof fn lemma_first_null_unique(b: Seq<u8>, start: int, k: int, m: int)
    requires
        is_first_null(b, start, k),
        is_first_null(b, start, m),
    ensures
        k == m,
{
    if k < m {
        assert(b[k] != 0);
    } else if m < k {
        assert(b[m] != 0);
    }
}

/// Reads a null-terminated UTF-8 string; the terminator is consumed and not
/// part of the result.
pub fn read_null_terminated_string(reader: &mut ByteCursor) -> (r: Result<String, ZimError>)
    ensures
        final(reader).data@ == old(reader).data@,
        match r {
            Ok(s) => cstring_at(old(reader).data@, old(reader).pos as int) == Ok::<
                (Seq<char>, int),
                ZimError,
            >((s@, final(reader).pos as int)),
            Err(e) => cstring_at(old(reader).data@, old(reader).pos as int) == Err::<
                (Seq<char>, int),
                ZimError,
            >(e),
        },
{
    let ghost b = reader.data@;
    let ghost start = reader.pos as int;
    let mut bytes: Vec<u8> = Vec::new();
    loop
        invariant
            reader.data@ == b,
            b == old(reader).data@,
            start == old(reader).pos,
            start <= reader.pos,
            reader.pos <= b.len() || reader.pos == start,
            bytes@.len() == reader.pos - start,
            forall|j: int| 0 <= j < bytes@.len() ==> bytes@[j] == b[start + j],
            forall|j: int| start <= j < reader.pos ==> b[j] != 0,
        decreases b.len() - reader.pos,
    {
        let byte = match reader.read_u8() {
            Ok(v) => v,
            Err(e) => {
                assert(!exists|k: int| is_first_null(b, start, k));
                return Err(e);
            },
        };
        if byte == 0 {
            let k = reader.pos - 1;
            assert(is_first_null(b, start, k as int));
            assert(bytes@ =~= b.subrange(start, k as int));
            proof {
                let c = choose|c: int| is_first_null(b, start, c);
                lemma_first_null_unique(b, start, k as int, c);
            }
            return match utf8_to_string(bytes) {
                Some(s) => Ok(s),
                None => Err(ZimError::InvalidUtf8),
            };
        }
        bytes.push(byte);
    }
}

/// The payload a record carries, chosen by its mime-type code.
#[derive(Debug, PartialEq, Eq, Structural, Clone, Copy)]
pub enum DirentData {
    Content { cluster_number: u32, blob_number: u32 },
    Redirect { redirect_index: u32 },
    LinkTarget,
    Deleted,
}

/// A directory record: one article, redirect, link target or deleted entry.
///
/// `namespace` is the namespace byte taken as a character: byte `n` is the
/// character `n` (for bytes from `0x80` up, a Latin-1 character); no check
/// is made that it is printable.
#[derive(Debug)]
pub struct Dirent {
    pub mime_type: u16,
    pub extra_len: u8,
    pub namespace: char,
    pub revision: u32,
    pub data: DirentData,
    pub url: String,
    pub title: String,
    pub parameter: Vec<u8>,
}

/// What a decoded directory record holds.
pub struct DirentView {
    pub mime_type: u16,
    pub extra_len: u8,
    pub namespace: char,
    pub revision: u32,
    pub data: DirentData,
    pub url: Seq<char>,
    pub title: Seq<char>,
    pub parameter: Seq<u8>,
}

impl View for Dirent {
    type V = DirentView;

    open spec fn view(&self) -> DirentView {
        DirentView {
            mime_type: self.mime_type,
            extra_len: self.extra_len,
            namespace: self.namespace,
            revision: self.revision,
            data: self.data,
            url: self.url@,
            title: self.title@,
            parameter: self.parameter@,
        }
    }
}

/// Length of the payload that follows the 8-byte prefix for a mime-type code.
pub open spec fn payload_len(mime_type: u16) -> int {
    if mime_type == REDIRECT_MIME_TYPE {
        4
    } else if mime_type == LINK_TARGET_MIME_TYPE || mime_type == DELETED_MIME_TYPE {
        0
    } else {
        8
    }
}

/// The payload for a mime-type code, read from `b` at `q`.
pub open spec fn payload_at(b: Seq<u8>, mime_type: u16, q: int) -> DirentData {
    if mime_type == REDIRECT_MIME_TYPE {
        DirentData::Redirect { redirect_index: le_at(b, q, 4) as u32 }
    } else if mime_type == LINK_TARGET_MIME_TYPE {
        DirentData::LinkTarget
    } else if mime_type == DELETED_MIME_TYPE {
        DirentData::Deleted
    } else {
        DirentData::Content {
            cluster_number: le_at(b, q, 4) as u32,
            blob_number: le_at(b, q + 4, 4) as u32,
        }
    }
}

/// The record encoded in `b` at `p`, with the position just past it; or the
/// error that decoding it meets first.
///
/// Layout: mime type (2 bytes), extra length (1), namespace (1), revision
/// (4), the payload, the URL and the title as null-terminated strings, then
/// `extra length` parameter bytes.
pub open spec fn dirent_at(b: Seq<u8>, p: int) -> Result<(DirentView, int), ZimError> {
    if p + 8 > b.len() {
        Err(ZimError::ShortRead)
    } else {
        let mime_type = le_at(b, p, 2) as u16;
        let extra_len = b[p + 2];
        let q = p + 8;
        if q + payload_len(mime_type) > b.len() {
            Err(ZimError::ShortRead)
        } else {
            match cstring_at(b, q + payload_len(mime_type)) {
                Err(e) => Err(e),
                Ok((url, t)) => match cstring_at(b, t) {
                    Err(e) => Err(e),
                    Ok((title, u)) => {
                        if u + extra_len > b.len() {
                            Err(ZimError::ShortRead)
                        } else {
                            Ok(
                                (
                                    DirentView {
                                        mime_type,
                                        extra_len,
                                        namespace: b[p + 3] as char,
                                        revision: le_at(b, p + 4, 4) as u32,
                                        data: payload_at(b, mime_type, q),
                                        url,
                                        title,
                                        parameter: b.subrange(u, u + extra_len),
                                    },
                                    u + extra_len,
                                ),
                            )
                        }
                    },
                },
            }
        }
    }
}

impl Dirent {
    /// The payload variant agrees with the mime-type code, and the parameter
    /// block holds `extra_len` bytes.
    pub open spec fn wf(&self) -> bool {
        &&& match self.data {
            DirentData::Redirect { .. } => self.mime_type == REDIRECT_MIME_TYPE,
            DirentData::LinkTarget => self.mime_type == LINK_TARGET_MIME_TYPE,
            DirentData::Deleted => self.mime_type == DELETED_MIME_TYPE,
            DirentData::Content { .. } => self.mime_type != REDIRECT_MIME_TYPE
                && self.mime_type != LINK_TARGET_MIME_TYPE && self.mime_type
                != DELETED_MIME_TYPE,
        }
        &&& self.parameter@.len() == self.extra_len
    }

    /// Decodes the record that starts at the reader's position.
    pub fn parse(reader: &mut ByteCursor) -> (r: Result<Self, ZimError>)
        ensures
            final(reader).data@ == old(reader).data@,
            match r {
                Ok(d) => dirent_at(old(reader).data@, old(reader).pos as int) == Ok::<
                    (DirentView, int),
                    ZimError,
                >((d@, final(reader).pos as int)) && d.wf(),
                Err(e) => dirent_at(old(reader).data@, old(reader).pos as int) == Err::<
                    (DirentView, int),
                    ZimError,
                >(e),
            },
            r matches Ok(d) ==> (d.mime_type == REDIRECT_MIME_TYPE ==> (cstring_at(
                old(reader).data@,
                old(reader).pos + 12,
            ) matches Ok((url, _)) && url == d.url@)),
    {
        let ghost b = reader.data@;
        let ghost p = reader.pos as int;
        let mime_type = match reader.read_le(2) {
            Ok(v) => v as u16,
            Err(e) => return Err(e),
        };
        let extra_len = match reader.read_u8() {
            Ok(v) => v,
            Err(e) => return Err(e),
        };
        let namespace = match reader.read_u8() {
            Ok(v) => v as char,
            Err(e) => return Err(e),
        };
        let revision = match reader.read_le(4) {
            Ok(v) => v as u32,
            Err(e) => return Err(e),
        };
        let data = if mime_type == REDIRECT_MIME_TYPE {
            match reader.read_le(4) {
                Ok(v) => DirentData::Redirect { redirect_index: v as u32 },
                Err(e) => return Err(e),
            }
        } else if mime_type == LINK_TARGET_MIME_TYPE {
            DirentData::LinkTarget
        } else if mime_type == DELETED_MIME_TYPE {
            DirentData::Deleted
        } else {
            let cluster_number = match reader.read_le(4) {
                Ok(v) => v as u32,
                Err(e) => return Err(e),
            };
            let blob_number = match reader.read_le(4) {
                Ok(v) => v as u32,
                Err(e) => return Err(e),
            };
            DirentData::Content { cluster_number, blob_number }
        };
        let url = match read_null_terminated_string(reader) {
            Ok(s) => s,
            Err(e) => return Err(e),
        };
        let title = match read_null_terminated_string(reader) {
            Ok(s) => s,
            Err(e) => return Err(e),
        };
        let parameter = if extra_len > 0 {
            match reader.read_bytes(extra_len as u64) {
                Ok(v) => v,
                Err(e) => return Err(e),
            }
        } else {
            Vec::new()
        };
        let d = Dirent { mime_type, extra_len, namespace, revision, data, url, title, parameter };
        proof {
            if extra_len == 0 {
                assert(d.parameter@ =~= b.subrange(reader.pos as int, reader.pos as int));
            }
        }
        Ok(d)
    }

    pub open spec fn spec_is_redirect(&self) -> bool {
        self.mime_type == REDIRECT_MIME_TYPE
    }

    pub open spec fn spec_is_link_target(&self) -> bool {
        self.mime_type == LINK_TARGET_MIME_TYPE
    }

    pub open spec fn spec_is_deleted(&self) -> bool {
        self.mime_type == DELETED_MIME_TYPE
    }

    pub open spec fn spec_is_article(&self) -> bool {
        !self.spec_is_redirect() && !self.spec_is_link_target() && !self.spec_is_deleted()
    }

    /// The title shown for the record: its title, or its URL where the
    /// title is empty.
    pub open spec fn effective_title(&self) -> Seq<char> {
        if self.title@.len() == 0 {
            self.url@
        } else {
            self.title@
        }
    }

    pub fn is_redirect(&self) -> (r: bool)
        ensures
            r == self.spec_is_redirect(),
    {
        self.mime_type == REDIRECT_MIME_TYPE
    }

    pub fn is_link_target(&self) -> (r: bool)
        ensures
            r == self.spec_is_link_target(),
    {
        self.mime_type == LINK_TARGET_MIME_TYPE
    }

    pub fn is_deleted(&self) -> (r: bool)
        ensures
            r == self.spec_is_deleted(),
    {
        self.mime_type == DELETED_MIME_TYPE
    }

    /// A record that is neither a redirect, a link target nor deleted.
    pub fn is_article(&self) -> (r: bool)
        ensures
            r == self.spec_is_article(),
    {
        !self.is_redirect() && !self.is_link_target() && !self.is_deleted()
    }

    /// The stored title, or the URL verbatim where the stored title is empty.
    pub fn get_title(&self) -> (r: &str)
        ensures
            r@ == self.effective_title(),
    {
        if self.title.as_str().is_empty() {
            self.url.as_str()
        } else {
            self.title.as_str()
        }
    }
}

/// A redirect record holds 8 prefix bytes and a 4-byte target index, and
/// its URL starts right after those 12 bytes.
pub proof fn lemma_redirect_layout(b: Seq<u8>, p: int)
    requires
        dirent_at(b, p) is Ok,
        dirent_at(b, p)->Ok_0.0.mime_type == REDIRECT_MIME_TYPE,
    ensures
        p + 12 <= b.len(),
        dirent_at(b, p)->Ok_0.0.data == (DirentData::Redirect {
            redirect_index: le_at(b, p + 8, 4) as u32,
        }),
        cstring_at(b, p + 12) matches Ok((url, _)) && url == dirent_at(b, p)->Ok_0.0.url,
{
}

/// Of a well-formed record exactly one of the four kind predicates holds,
/// and it is the one that names its payload variant.
pub proof fn lemma_kind_predicates(d: &Dirent)
    requires
        d.wf(),
    ensures
        d.spec_is_redirect() <==> d.data is Redirect,
        d.spec_is_link_target() <==> d.data is LinkTarget,
        d.spec_is_deleted() <==> d.data is Deleted,
        d.spec_is_article() <==> d.data is Content,
        d.spec_is_redirect() ==> !d.spec_is_link_target() && !d.spec_is_deleted()
            && !d.spec_is_article(),
        d.spec_is_link_target() ==> !d.spec_is_redirect() && !d.spec_is_deleted()
            && !d.spec_is_article(),
        d.spec_is_deleted() ==> !d.spec_is_redirect() && !d.spec_is_link_target()
            && !d.spec_is_article(),
{
}

} // verus!
