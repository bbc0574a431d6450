//! How the rows of an image are shared among workers.
//!
//! The rows are cut into consecutive chunks of `ceil(height / workers)` rows;
//! the last chunk takes what is left. Each worker gets one chunk and no row is
//! in two of them, so the workers can write their rows without a lock.

use vstd::prelude::*;

verus! {

/// The rows `start..end` of an image.
#[derive(Clone, Copy, Debug, PartialEq, Eq, Structural)]
pub struct RowRange {
    pub start: u16,
    pub end: u16,
}

impl RowRange {
    /// The number of rows in the range.
    pub open spec fn spec_len(self) -> int {
        self.end - self.start
    }

    /// Whether row `y` is in the range.
    pub open spec fn spec_contains(self, y: int) -> bool {
        self.start <= y < self.end
    }

    pub fn contains(self, y: u16) -> (r: bool)
        ensures
            r == self.spec_contains(y as int),
    {
        self.start <= y && y < self.end
    }
}

/// The rows of a full chunk: `ceil(height / workers)`, with no worker counted
/// as one.
pub open spec fn rows_per_chunk(height: int, workers: int) -> int {
    if workers <= 1 {
        height
    } else {
        (height + workers - 1) / workers
    }
}

/// The number of chunks that `height` rows make.
pub open spec fn chunk_count(height: int, workers: int) -> int {
    if height <= 0 {
        0
    } else {
        (height + rows_per_chunk(height, workers) - 1) / rows_per_chunk(height, workers)
    }
}

/// The `k`-th chunk of `height` rows shared among `workers`.
pub open spec fn chunk_at(height: int, workers: int, k: int) -> RowRange {
    let rows = rows_per_chunk(height, workers);
    RowRange {
        start: (k * rows) as u16,
        end: (if (k + 1) * rows < height {
            (k + 1) * rows
        } else {
            height
        }) as u16,
    }
}

/// The whole split, chunk by chunk.
pub open spec fn row_split(height: int, workers: int) -> Seq<RowRange> {
    Seq::new(chunk_count(height, workers) as nat, |k: int| chunk_at(height, workers, k))
}

proof fn lemma_rows_per_chunk(height: int, workers: int)
    requires
        0 < height,
    ensures
        1 <= rows_per_chunk(height, workers) <= height,
        workers >= 1 ==> rows_per_chunk(height, workers) * workers >= height,
        workers <= 1 ==> rows_per_chunk(height, workers) == height,
{
    if workers > 1 {
        let rows = (height + workers - 1) / workers;
        assert(rows * workers >= height && rows >= 1 && rows <= height) by (nonlinear_arith)
            requires
                rows == (height + workers - 1) / workers,
                workers > 1,
                height > 0,
        ;
    } else if workers == 1 {
        assert(height * workers == height) by (nonlinear_arith)
            requires
                workers == 1,
        ;
    }
}

/// What the count of chunks is: the least `n` with `n * rows >= height`.
proof fn lemma_chunk_count(height: int, rows: int, n: int)
    requires
        0 < height,
        0 < rows,
        (n - 1) * rows < height <= n * rows,
    ensures
        n == (height + rows - 1) / rows,
{
    let q = (height + rows - 1) / rows;
    assert(q == n) by (nonlinear_arith)
        requires
            q == (height + rows - 1) / rows,
            0 < rows,
            (n - 1) * rows < height <= n * rows,
    ;
}

/// Where chunk `k` of `n` starts, and how far the next one is.
proof fn lemma_chunk_start(k: int, n: int, rows: int, height: int)
    requires
        0 <= k < n,
        0 < rows,
        (n - 1) * rows < height,
    ensures
        0 <= k * rows < height,
        (k + 1) * rows == k * rows + rows,
{
    assert(0 <= k * rows <= (n - 1) * rows && (k + 1) * rows == k * rows + rows)
        by (nonlinear_arith)
        requires
            0 <= k <= n - 1,
            0 < rows,
    ;
}

/// Cuts `height` rows into the chunks of [`row_split`].
pub fn split_rows(height: u16, workers: usize) -> (chunks: Vec<RowRange>)
    ensures
        chunks@ == row_split(height as int, workers as int),
{
    let mut chunks: Vec<RowRange> = Vec::new();
    if height == 0 {
        assert(chunks@ =~= row_split(height as int, workers as int));
        return chunks;
    }
    proof {
        lemma_rows_per_chunk(height as int, workers as int);
    }
    let rows: u16 = if workers <= 1 {
        height
    } else if workers >= height as usize {
        proof {
            assert((height + workers - 1) / (workers as int) == 1) by (nonlinear_arith)
                requires
                    0 < height <= workers,
            ;
        }
        1
    } else {
        ((height as usize + workers - 1) / workers) as u16
    };
    assert(rows == rows_per_chunk(height as int, workers as int));
    let mut start: u16 = 0;
    assert(0 * rows == 0) by (nonlinear_arith);
    while start < height
        invariant
            0 < rows <= height,
            rows == rows_per_chunk(height as int, workers as int),
            start <= height,
            start < height ==> start == chunks@.len() * rows,
            start == height ==> (chunks@.len() - 1) * rows < height <= chunks@.len() * rows,
            forall|k: int|
                0 <= k < chunks@.len() ==> #[trigger] chunks@[k] == chunk_at(
                    height as int,
                    workers as int,
                    k,
                ),
        decreases height - start,
    {
        let ghost k = chunks@.len() as int;
        let end: u16 = if height - start > rows {
            start + rows
        } else {
            height
        };
        proof {
            assert((k + 1) * rows == k * rows + rows) by (nonlinear_arith);
            assert(k * rows + rows - rows == (k + 1 - 1) * rows) by (nonlinear_arith);
        }
        chunks.push(RowRange { start: start, end: end });
        start = end;
    }
    proof {
        lemma_chunk_count(height as int, rows as int, chunks@.len() as int);
        assert(chunks@ =~= row_split(height as int, workers as int));
    }
    chunks
}

/// `num_cpus::get`: the number of logical processors that the running
/// process may use. It is a fact about the machine, so nothing is claimed of
/// the number; [`split_rows`] takes any.
#[verifier::external_body]
fn logical_cpus() -> (workers: usize) {
    num_cpus::get()
}

/// The split of `height` rows for as many workers as this machine has
/// processors, with that number of workers.
pub fn split_rows_for_machine(height: u16) -> (plan: (usize, Vec<RowRange>))
    ensures
        plan.1@ == row_split(height as int, plan.0 as int),
{
    let workers = logical_cpus();
    (workers, split_rows(height, workers))
}

/// The chunks of a split lie end to end from row 0 to row `height`: the
/// first chunk starts at 0, each chunk starts where the one before ends, and
/// the last chunk ends at `height`. No chunk is empty, all but the last are
/// `rows_per_chunk` long, and there are no more chunks than workers (one,
/// where there is no worker).
pub proof fn lemma_split_is_partition(height: int, workers: int)
    requires
        0 <= height <= u16::MAX,
        0 <= workers,
    ensures
        height == 0 <==> row_split(height, workers).len() == 0,
        row_split(height, workers).len() <= (if workers == 0 {
            1
        } else {
            workers
        }),
        height > 0 ==> row_split(height, workers).first().start == 0 && row_split(
            height,
            workers,
        ).last().end == height,
        forall|k: int|
            0 <= k < row_split(height, workers).len() ==> (#[trigger] row_split(
                height,
                workers,
            )[k]).start < row_split(height, workers)[k].end,
        forall|k: int|
            0 <= k < row_split(height, workers).len() - 1 ==> (#[trigger] row_split(
                height,
                workers,
            )[k]).end == row_split(height, workers)[k + 1].start && row_split(
                height,
                workers,
            )[k].spec_len() == rows_per_chunk(height, workers),
{
    if height > 0 {
        lemma_rows_per_chunk(height, workers);
        let rows = rows_per_chunk(height, workers);
        let n = chunk_count(height, workers);
        let split = row_split(height, workers);
        assert((n - 1) * rows < height <= n * rows && n >= 1) by (nonlinear_arith)
            requires
                n == (height + rows - 1) / rows,
                0 < rows,
                0 < height,
        ;
        if workers >= 1 {
            assert(n <= workers) by (nonlinear_arith)
                requires
                    (n - 1) * rows < height,
                    rows * workers >= height,
                    0 < rows,
                    1 <= workers,
            ;
        } else {
            assert(n == 1) by (nonlinear_arith)
                requires
                    (n - 1) * rows < height <= n * rows,
                    rows == height,
                    0 < height,
            ;
        }
        assert forall|k: int| 0 <= k < split.len() implies (#[trigger] split[k]).start
            < split[k].end by {
            lemma_chunk_start(k, n, rows, height);
        }
        assert forall|k: int| 0 <= k < split.len() - 1 implies (#[trigger] split[k]).end
            == split[k + 1].start && split[k].spec_len() == rows by {
            lemma_chunk_start(k, n, rows, height);
            lemma_chunk_start(k + 1, n, rows, height);
        }
        lemma_chunk_start(0, n, rows, height);
        lemma_chunk_start(n - 1, n, rows, height);
    }
}

/// Every row of the image is in exactly one chunk of the split.
pub proof fn lemma_each_row_in_one_chunk(height: int, workers: int, y: int)
    requires
        0 <= y < height <= u16::MAX,
        0 <= workers,
    ensures
        exists|k: int|
            0 <= k < row_split(height, workers).len() && (#[trigger] row_split(
                height,
                workers,
            )[k]).spec_contains(y),
        forall|j: int, k: int|
            0 <= j < row_split(height, workers).len() && 0 <= k < row_split(height, workers).len()
                && (#[trigger] row_split(height, workers)[j]).spec_contains(y) && (#[trigger] row_split(
                height,
                workers,
            )[k]).spec_contains(y) ==> j == k,
{
    lemma_rows_per_chunk(height, workers);
    let rows = rows_per_chunk(height, workers);
    let n = chunk_count(height, workers);
    let split = row_split(height, workers);
    assert((n - 1) * rows < height <= n * rows && n >= 1) by (nonlinear_arith)
        requires
            n == (height + rows - 1) / rows,
            0 < rows,
            0 < height,
    ;
    let k0 = y / rows;
    assert(k0 * rows <= y < (k0 + 1) * rows && 0 <= k0 < n) by (nonlinear_arith)
        requires
            k0 == y / rows,
            0 < rows,
            0 <= y < height,
            height <= n * rows,
    ;
    assert(split[k0].spec_contains(y));
    assert forall|j: int, k: int|
        0 <= j < split.len() && 0 <= k < split.len() && (#[trigger] split[j]).spec_contains(y) && (
        #[trigger] split[k]).spec_contains(y) implies j == k by {
        lemma_chunk_start(j, n, rows, height);
        lemma_chunk_start(k, n, rows, height);
        assert(j == k) by (nonlinear_arith)
            requires
                0 <= j < n,
                0 <= k < n,
                0 < rows,
                (n - 1) * rows < height,
                height <= u16::MAX,
                j * rows <= y,
                k * rows <= y,
                y < (j + 1) * rows,
                y < (k + 1) * rows,
        ;
    }
}

} // verus!
