use vstd::prelude::*;

use crate::cluster::{Cluster, ClusterView, cluster_at};
use crate::dirent::{Dirent, DirentView, dirent_at};
use crate::error::ZimError;
use crate::source::ByteCursor;
use crate::zimfile::{
    ZimFile,
    ZimFileView,
    parse_pointer_table,
    pointer_table,
    pointer_table_fits,
    prepend,
    zim_file_at,
};

verus! {

/// The clusters at the offsets `ptrs`, in order; or the error of the first
/// one that fails.
pub open spec fn clusters_at(b: Seq<u8>, ptrs: Seq<u64>) -> Result<Seq<ClusterView>, ZimError>
    decreases ptrs.len(),
{
    if ptrs.len() == 0 {
        Ok(seq![])
    } else {
        match cluster_at(b, ptrs[0] as int) {
            Err(e) => Err(e),
            Ok((c, _)) => prepend(seq![c], clusters_at(b, ptrs.drop_first())),
        }
    }
}

/// The views of each cluster.
pub open spec fn cluster_views(v: Seq<Cluster>) -> Seq<ClusterView> {
    v.map_values(|c: Cluster| c@)
}

proof fn lemma_prepend_assoc<T>(a: Seq<T>, x: T, rest: Result<Seq<T>, ZimError>)
    ensures
        prepend(a, prepend(seq![x], rest)) == prepend(a.push(x), rest),
{
    if rest is Ok {
        assert(a + (seq![x] + rest->Ok_0) =~= a.push(x) + rest->Ok_0);
    }
}

/// Decodes the cluster at each offset of `ptrs`, in order.
pub fn parse_clusters(reader: &mut ByteCursor, ptrs: &Vec<u64>) -> (r: Result<
    Vec<Cluster>,
    ZimError,
>)
    ensures
        final(reader).data@ == old(reader).data@,
        match r {
            Ok(v) => clusters_at(old(reader).data@, ptrs@) == Ok::<Seq<ClusterView>, ZimError>(
                cluster_views(v@),
            ),
            Err(e) => clusters_at(old(reader).data@, ptrs@) == Err::<Seq<ClusterView>, ZimError>(
                e,
            ),
        },
{
    let ghost b = reader.data@;
    let mut clusters: Vec<Cluster> = Vec::new();
    let mut i: usize = 0;
    assert(ptrs@.subrange(0, ptrs@.len() as int) =~= ptrs@);
    while i < ptrs.len()
        invariant
            reader.data@ == b,
            b == old(reader).data@,
            i <= ptrs@.len(),
            clusters_at(b, ptrs@) == prepend(
                cluster_views(clusters@),
                clusters_at(b, ptrs@.subrange(i as int, ptrs@.len() as int)),
            ),
        decreases ptrs@.len() - i,
    {
        let ghost rest = ptrs@.subrange(i as int, ptrs@.len() as int);
        assert(rest.drop_first() =~= ptrs@.subrange(i + 1, ptrs@.len() as int));
        reader.seek(ptrs[i]);
        let c = match Cluster::parse(reader) {
            Ok(c) => c,
            Err(e) => return Err(e),
        };
        let ghost before = cluster_views(clusters@);
        proof {
            lemma_prepend_assoc(before, c@, clusters_at(b, rest.drop_first()));
        }
        clusters.push(c);
        assert(cluster_views(clusters@) =~= before.push(c@));
        i = i + 1;
    }
    assert(cluster_views(clusters@) + seq![] =~= cluster_views(clusters@));
    Ok(clusters)
}

/// A fully decoded archive: header, MIME types and cluster pointers, each
/// cluster they point to (index-aligned with the pointers), and the
/// dirent-pointer table. Directory records are decoded on demand with
/// `read_dirent`.
#[derive(Debug)]
pub struct Archive {
    pub file: ZimFile,
    pub clusters: Vec<Cluster>,
    pub dirent_pointers: Vec<u64>,
}

/// What a decoded archive holds.
pub struct ArchiveView {
    pub file: ZimFileView,
    pub clusters: Seq<ClusterView>,
    pub dirent_pointers: Seq<u64>,
}

impl View for Archive {
    type V = ArchiveView;

    open spec fn view(&self) -> ArchiveView {
        ArchiveView {
            file: self.file@,
            clusters: cluster_views(self.clusters@),
            dirent_pointers: self.dirent_pointers@,
        }
    }
}

/// The archive whose header starts at `p` in `b`, decoded in the order
/// header, MIME types, cluster pointers, clusters, dirent pointers; or the
/// first error met.
pub open spec fn archive_at(b: Seq<u8>, p: int) -> Result<ArchiveView, ZimError> {
    match zim_file_at(b, p) {
        Err(e) => Err(e),
        Ok(f) => match clusters_at(b, f.cluster_pointers) {
            Err(e) => Err(e),
            Ok(cs) => {
                let h = f.header;
                if !pointer_table_fits(b, h.path_ptr_pos as int, h.article_count as nat) {
                    Err(ZimError::ShortRead)
                } else {
                    Ok(
                        ArchiveView {
                            file: f,
                            clusters: cs,
                            dirent_pointers: pointer_table(
                                b,
                                h.path_ptr_pos as int,
                                h.article_count as nat,
                            ),
                        },
                    )
                }
            },
        },
    }
}

impl Archive {
    /// Decodes the whole archive whose header is at the reader's position.
    /// Any failure aborts the decode; no partial archive is returned.
    pub fn parse(reader: &mut ByteCursor) -> (r: Result<Self, ZimError>)
        ensures
            final(reader).data@ == old(reader).data@,
            match r {
                Ok(a) => archive_at(old(reader).data@, old(reader).pos as int) == Ok::<
                    ArchiveView,
                    ZimError,
                >(a@),
                Err(e) => archive_at(old(reader).data@, old(reader).pos as int) == Err::<
                    ArchiveView,
                    ZimError,
                >(e),
            },
    {
        let file = match ZimFile::parse_bytes(reader) {
            Ok(f) => f,
            Err(e) => return Err(e),
        };
        let clusters = match parse_clusters(reader, &file.cluster_pointers) {
            Ok(c) => c,
            Err(e) => return Err(e),
        };
        let dirent_pointers = match parse_pointer_table(
            reader,
            file.header.path_ptr_pos,
            file.header.article_count,
        ) {
            Ok(v) => v,
            Err(e) => return Err(e),
        };
        Ok(Archive { file, clusters, dirent_pointers })
    }
}

/// Decodes the directory record at the absolute offset `pointer`, an entry
/// of the dirent-pointer table.
pub fn read_dirent(reader: &mut ByteCursor, pointer: u64) -> (r: Result<Dirent, ZimError>)
    ensures
        final(reader).data@ == old(reader).data@,
        match r {
            Ok(d) => dirent_at(old(reader).data@, pointer as int) == Ok::<(DirentView, int), ZimError>(
                (d@, final(reader).pos as int),
            ) && d.wf(),
            Err(e) => dirent_at(old(reader).data@, pointer as int) == Err::<
                (DirentView, int),
                ZimError,
            >(e),
        },
{
    reader.seek(pointer);
    Dirent::parse(reader)
}

} // verus!
