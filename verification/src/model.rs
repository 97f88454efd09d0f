use vstd::prelude::*;

use crate::decode::lossy_of;

verus! {

/// One file as the pull loop will encounter it: whether opening it succeeds,
/// and the byte chunks that successive buffered reads of it yield, in order.
/// A chunk is never empty — a read that yields no bytes is end of file.
pub struct FileModel {
    pub openable: bool,
    pub lines: Seq<Seq<u8>>,
}

/// The lines the advance state machine yields when run to exhaustion, given
/// that the current file still holds the chunks `cur` and the files of
/// `pending` follow in visitation order. Each branch mirrors one contract of
/// [`crate::streamer::DirectoryLinesStreamer`]: a chunk is decoded and
/// yielded (`absorb_read`); at end of file the next file is taken off the
/// queue (`next_pending`) and becomes current if it opens (`note_opened`),
/// while an unopenable file is skipped; with no file left the stream ends.
pub open spec fn run(cur: Seq<Seq<u8>>, pending: Seq<FileModel>) -> Seq<Seq<char>>
    decreases pending.len(), cur.len(),
{
    if cur.len() > 0 {
        seq![lossy_of(cur[0])] + run(cur.drop_first(), pending)
    } else if pending.len() == 0 {
        seq![]
    } else if pending[0].openable {
        run(pending[0].lines, pending.drop_first())
    } else {
        run(cur, pending.drop_first())
    }
}

/// One pull of the state machine: the line it yields, if any, and the state
/// it leaves behind. `None` is the end-of-stream signal.
pub open spec fn pull_once(cur: Seq<Seq<u8>>, pending: Seq<FileModel>) -> (
    Option<Seq<char>>,
    Seq<Seq<u8>>,
    Seq<FileModel>,
)
    decreases pending.len(),
{
    if cur.len() > 0 {
        (Some(lossy_of(cur[0])), cur.drop_first(), pending)
    } else if pending.len() == 0 {
        (None, cur, pending)
    } else if pending[0].openable {
        pull_once(pending[0].lines, pending.drop_first())
    } else {
        pull_once(cur, pending.drop_first())
    }
}

/// All chunks of the openable files of `pending`, in visitation order.
pub open spec fn chunks_of(pending: Seq<FileModel>) -> Seq<Seq<u8>>
    decreases pending.len(),
{
    if pending.len() == 0 {
        seq![]
    } else if pending[0].openable {
        pending[0].lines + chunks_of(pending.drop_first())
    } else {
        chunks_of(pending.drop_first())
    }
}

/// Each chunk decoded lossily.
pub open spec fn decoded(chunks: Seq<Seq<u8>>) -> Seq<Seq<char>> {
    chunks.map_values(|c: Seq<u8>| lossy_of(c))
}

/// Every file of `pending` opens.
pub open spec fn all_openable(pending: Seq<FileModel>) -> bool {
    forall|i: int| 0 <= i < pending.len() ==> pending[i].openable
}

/// Exhaustive pulling yields exactly the decoded chunks of the current file
/// followed, in visitation order, by those of every openable pending file —
/// in particular, a file that fails to open is skipped without disturbing
/// the lines of the files before and after it.
pub proof fn lemma_run_yields_concatenation(cur: Seq<Seq<u8>>, pending: Seq<FileModel>)
    ensures
        run(cur, pending) == decoded(cur + chunks_of(pending)),
    decreases pending.len(), cur.len(),
{
    if cur.len() > 0 {
        lemma_run_yields_concatenation(cur.drop_first(), pending);
        assert(decoded(cur + chunks_of(pending)) =~= seq![lossy_of(cur[0])] + decoded(
            cur.drop_first() + chunks_of(pending),
        ));
    } else if pending.len() == 0 {
        assert(decoded(cur + chunks_of(pending)) =~= Seq::<Seq<char>>::empty());
    } else if pending[0].openable {
        lemma_run_yields_concatenation(pending[0].lines, pending.drop_first());
        assert(cur + chunks_of(pending) =~= pending[0].lines + chunks_of(pending.drop_first()));
    } else {
        lemma_run_yields_concatenation(cur, pending.drop_first());
        assert(cur + chunks_of(pending) =~= cur + chunks_of(pending.drop_first()));
    }
}

/// When every file opens, the stream is exactly the concatenation of each
/// file's decoded chunks, file by file, in visitation order.
pub proof fn lemma_run_all_files_openable(pending: Seq<FileModel>)
    requires
        all_openable(pending),
    ensures
        run(Seq::empty(), pending) == decoded(
            pending.map_values(|f: FileModel| f.lines).flatten(),
        ),
{
    lemma_run_yields_concatenation(Seq::empty(), pending);
    lemma_chunks_of_all_openable(pending);
    assert(Seq::<Seq<u8>>::empty() + chunks_of(pending) =~= chunks_of(pending));
}

proof fn lemma_chunks_of_all_openable(pending: Seq<FileModel>)
    requires
        all_openable(pending),
    ensures
        chunks_of(pending) == pending.map_values(|f: FileModel| f.lines).flatten(),
    decreases pending.len(),
{
    let mapped = pending.map_values(|f: FileModel| f.lines);
    if pending.len() == 0 {
        assert(mapped =~= Seq::<Seq<Seq<u8>>>::empty());
    } else {
        lemma_chunks_of_all_openable(pending.drop_first());
        assert(mapped.drop_first() =~= pending.drop_first().map_values(|f: FileModel| f.lines));
        assert(mapped.first() == pending[0].lines);
    }
}

/// A single pull and the exhaustive run agree: pulling one line and then
/// collecting the rest from the state left behind yields the same sequence
/// as collecting everything at once, and an end-of-stream answer means the
/// run yields nothing at all.
pub proof fn lemma_single_pull_prefixes_run(cur: Seq<Seq<u8>>, pending: Seq<FileModel>)
    ensures
        ({
            let (line, cur2, pending2) = pull_once(cur, pending);
            match line {
                Some(l) => run(cur, pending) == seq![l] + run(cur2, pending2),
                None => run(cur, pending) == Seq::<Seq<char>>::empty(),
            }
        }),
    decreases pending.len(),
{
    if cur.len() > 0 {
    } else if pending.len() == 0 {
    } else if pending[0].openable {
        lemma_single_pull_prefixes_run(pending[0].lines, pending.drop_first());
    } else {
        lemma_single_pull_prefixes_run(cur, pending.drop_first());
    }
}

/// Idempotent termination: in the exhausted state — no bytes left in the
/// current file, no pending file — a pull signals end of stream and leaves
/// the state exhausted and unchanged, so every subsequent pull signals end
/// of stream as well: the complete remaining yield is empty.
pub proof fn lemma_termination_idempotent(cur: Seq<Seq<u8>>, pending: Seq<FileModel>)
    requires
        cur.len() == 0,
        pending.len() == 0,
    ensures
        pull_once(cur, pending) == (None::<Seq<char>>, cur, pending),
        run(cur, pending) == Seq::<Seq<char>>::empty(),
{
    assert(run(cur, pending) =~= Seq::<Seq<char>>::empty());
}

} // verus!
