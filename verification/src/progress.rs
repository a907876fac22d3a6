//! The progress of a download.
use vstd::prelude::*;

verus! {

/// A download as the library follows it: the count of bytes written so far.
#[derive(Debug)]
pub struct FileDownload {
    n: u64,
}

impl View for FileDownload {
    type V = u64;

    closed spec fn view(&self) -> u64 {
        self.n
    }
}

/// The count of bytes after chunks of the lengths `lens` were taken in,
/// starting from `start`.
pub open spec fn count_after(start: int, lens: Seq<usize>) -> int
    decreases lens.len(),
{
    if lens.len() == 0 {
        start
    } else {
        count_after(start, lens.drop_last()) + lens.last()
    }
}

/// The sum of the chunk lengths `lens`.
pub open spec fn total(lens: Seq<usize>) -> int {
    count_after(0, lens)
}

/// Over any sequence of chunks, the count is where it started plus the sum
/// of the chunks' lengths, and it never falls from one chunk to the next.
pub proof fn lemma_count_is_sum(start: int, lens: Seq<usize>)
    ensures
        count_after(start, lens) == start + total(lens),
        forall|k: int| 0 <= k < lens.len() ==> count_after(start, #[trigger] lens.take(k)) <= count_after(start, lens.take(k + 1)),
    decreases lens.len(),
{
    if lens.len() > 0 {
        lemma_count_is_sum(start, lens.drop_last());
        lemma_count_is_sum(0, lens.drop_last());
    }
    assert forall|k: int| 0 <= k < lens.len() implies count_after(start, #[trigger] lens.take(k)) <= count_after(start, lens.take(k + 1)) by {
        assert(lens.take(k + 1).drop_last() =~= lens.take(k));
    }
}

impl FileDownload {
    /// A download with nothing written yet.
    pub fn new() -> (r: FileDownload)
        ensures
            r@ == 0,
    {
        FileDownload { n: 0 }
    }

    /// Takes in a chunk of `len` bytes that was read and written; a chunk of
    /// no bytes is the end of the download. Gives whether the download is done.
    pub fn next_chunk(&mut self, len: usize) -> (done: bool)
        requires
            old(self)@ + len <= u64::MAX,
        ensures
            done == (len == 0),
            final(self)@ == old(self)@ + len,
            final(self)@ == count_after(old(self)@ as int, seq![len]),
    {
        assert(seq![len].drop_last() =~= Seq::<usize>::empty());
        proof { reveal_with_fuel(count_after, 2); }
        if len == 0 {
            return true;
        }
        self.n = self.n + len as u64;
        false
    }

    /// The number of bytes written so far.
    pub fn ready(&self) -> (r: u64)
        ensures
            r == self@,
    {
        self.n
    }
}

/// How much of a file of `size` bytes the `ready` bytes are, in whole percent
/// (rounded down). At most 100 while no more than `size` bytes came.
pub fn percent(ready: u64, size: u64) -> (r: u64)
    requires
        size > 0,
        ready * 100 <= u64::MAX,
    ensures
        r == (ready * 100) / (size as int),
        ready <= size ==> r <= 100,
{
    let r = ready * 100 / size;
    assert(ready <= size ==> (ready * 100) / (size as int) <= 100) by (nonlinear_arith)
        requires size > 0;
    r
}

} // verus!
