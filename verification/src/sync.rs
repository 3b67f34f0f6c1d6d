//! Whether the deployed CLI is the one bundled with the application: the decisions of
//! the chunk-by-chunk comparison of the two files.
use vstd::prelude::*;

verus! {

/// The error label when the bundled CLI cannot be read.
pub const BUNDLED_READ_ERROR: &'static str = "读取安装包内 CLI 失败";

/// The error label when the deployed CLI cannot be read.
pub const DEPLOYED_READ_ERROR: &'static str = "读取已部署 CLI 失败";

/// The error label when the bundled CLI's metadata cannot be read.
pub const BUNDLED_METADATA_ERROR: &'static str = "读取安装包内 CLI 信息失败";

/// The error label when the deployed CLI's metadata cannot be read.
pub const DEPLOYED_METADATA_ERROR: &'static str = "读取已部署 CLI 信息失败";

/// The verdict on one pair of chunks read from the two files.
pub enum ChunkVerdict {
    /// The chunks differ (in length or contents): the files do not match.
    Differ,
    /// Both files are exhausted at the same point: the files match.
    Same,
    /// The chunks agree and more is to be read.
    More,
}

/// The verdict on one chunk pair: `a` from the bundled file, `b` from the deployed one.
pub open spec fn chunk_verdict(a: Seq<u8>, b: Seq<u8>) -> ChunkVerdict {
    if a != b {
        ChunkVerdict::Differ
    } else if a.len() == 0 {
        ChunkVerdict::Same
    } else {
        ChunkVerdict::More
    }
}

/// Compares one pair of chunks: different chunks (in length or contents) decide that
/// the files differ; two empty chunks that they match; otherwise reading goes on.
pub fn compare_chunks(a: &[u8], b: &[u8]) -> (v: ChunkVerdict)
    ensures
        v == chunk_verdict(a@, b@),
{
    if a.len() != b.len() {
        return ChunkVerdict::Differ;
    }
    let mut i: usize = 0;
    while i < a.len()
        invariant
            a@.len() == b@.len(),
            i <= a@.len(),
            forall|j: int| 0 <= j < i ==> a@[j] == b@[j],
        decreases a.len() - i,
    {
        if a[i] != b[i] {
            return ChunkVerdict::Differ;
        }
        i += 1;
    }
    assert(a@ =~= b@);
    if a.len() == 0 {
        ChunkVerdict::Same
    } else {
        ChunkVerdict::More
    }
}

/// The verdict before any chunk is read: a deployed CLI whose length differs from the
/// bundled one is out of date (`Some(false)`); otherwise the contents decide (`None`).
pub fn length_verdict(bundled_len: u64, deployed_len: u64) -> (r: Option<bool>)
    ensures
        bundled_len != deployed_len ==> r == Some(false),
        bundled_len == deployed_len ==> r is None,
{
    if bundled_len != deployed_len {
        Some(false)
    } else {
        None
    }
}

/// The concatenation of a sequence of chunks.
pub open spec fn concat_chunks(chunks: Seq<Seq<u8>>) -> Seq<u8>
    decreases chunks.len(),
{
    if chunks.len() == 0 {
        Seq::empty()
    } else {
        concat_chunks(chunks.drop_last()) + chunks.last()
    }
}

/// When every chunk pair read so far agreed and the last pair shows both files ended,
/// the two files have the same contents.
pub proof fn law_agreeing_chunks_mean_equal_contents(a: Seq<Seq<u8>>, b: Seq<Seq<u8>>)
    requires
        a.len() == b.len(),
        a.len() > 0,
        forall|i: int| 0 <= i < a.len() - 1 ==> chunk_verdict(#[trigger] a[i], b[i]) is More,
        chunk_verdict(a.last(), b.last()) is Same,
    ensures
        concat_chunks(a) == concat_chunks(b),
{
    lemma_equal_chunks(a, b);
}

proof fn lemma_equal_chunks(a: Seq<Seq<u8>>, b: Seq<Seq<u8>>)
    requires
        a.len() == b.len(),
        forall|i: int| 0 <= i < a.len() ==> chunk_verdict(#[trigger] a[i], b[i]) !is Differ,
    ensures
        concat_chunks(a) == concat_chunks(b),
    decreases a.len(),
{
    if a.len() > 0 {
        assert forall|i: int| 0 <= i < a.drop_last().len() implies chunk_verdict(
            #[trigger] a.drop_last()[i],
            b.drop_last()[i],
        ) !is Differ by {
            assert(a.drop_last()[i] == a[i]);
            assert(b.drop_last()[i] == b[i]);
        }
        lemma_equal_chunks(a.drop_last(), b.drop_last());
        assert(chunk_verdict(a[a.len() - 1], b[b.len() - 1]) !is Differ);
    }
}

/// A chunk compared with an identical chunk never shows a difference, whatever bytes it
/// holds: empty chunks mean both files ended, others that reading goes on.
pub proof fn law_equal_chunks_never_differ(a: Seq<u8>)
    ensures
        a.len() == 0 ==> chunk_verdict(a, a) is Same,
        a.len() > 0 ==> chunk_verdict(a, a) is More,
{
}

/// Two chunks are found different exactly when their lengths or some byte differ.
pub proof fn law_differ_iff_some_byte_differs(a: Seq<u8>, b: Seq<u8>)
    ensures
        chunk_verdict(a, b) is Differ <==> (a.len() != b.len() || exists|i: int|
            0 <= i < a.len() && a[i] != b[i]),
{
    if a.len() == b.len() && !(exists|i: int| 0 <= i < a.len() && a[i] != b[i]) {
        assert(a =~= b);
    }
}

} // verus!
