//! A CSV log of latencies, one column per target, whose rows are written
//! only once every target has a value for them, and whose summary block
//! (averages and percentiles) is put in front of the data at the end.

use vstd::prelude::*;
use vstd::relations::{sorted_by, total_ordering};
use crate::text::{decimal, push_decimal};

verus! {

/// Tenths of a second between two rows of the log.
pub const ROW_PERIOD_DECISECS: u64 = 2;

/// The order in which a column is sorted for its percentiles.
pub open spec fn ascending() -> spec_fn(u64, u64) -> bool {
    |a: u64, b: u64| a <= b
}

/// A latency in microseconds, as whole milliseconds.
pub open spec fn millis_of(latency_us: u64) -> u64 {
    latency_us / 1000
}

/// The label of column `i` of the header.
pub open spec fn column_label(i: nat) -> Seq<char> {
    if i == 0 {
        ", Gateway"@
    } else {
        ", ISP Hop "@ + decimal(i)
    }
}

/// The labels of the first `n` columns.
pub open spec fn column_labels(n: nat) -> Seq<char>
    decreases n,
{
    if n == 0 {
        Seq::empty()
    } else {
        column_labels((n - 1) as nat) + column_label((n - 1) as nat)
    }
}

/// The header line of a log of `n` targets.
pub open spec fn header_text(n: nat) -> Seq<char> {
    "Time"@ + column_labels(n) + "\n"@
}

/// Each value in decimal, followed by a comma.
pub open spec fn cells(values: Seq<u64>) -> Seq<char>
    decreases values.len(),
{
    if values.len() == 0 {
        Seq::empty()
    } else {
        cells(values.drop_last()) + decimal(values.last() as nat) + ","@
    }
}

/// The time stamp of row `k`: seconds with one decimal place.
pub open spec fn row_time(k: nat) -> Seq<char> {
    decimal(k * (ROW_PERIOD_DECISECS as nat) / 10) + "."@ + decimal(k * (ROW_PERIOD_DECISECS as nat) % 10) + ","@
}

/// The values of row `k`, one per column, in column order.
pub open spec fn row_values(columns: Seq<Seq<u64>>, k: int) -> Seq<u64> {
    Seq::new(columns.len(), |i: int| columns[i][k])
}

/// The line of row `k`.
pub open spec fn row_text(columns: Seq<Seq<u64>>, k: nat) -> Seq<char> {
    row_time(k) + cells(row_values(columns, k as int)) + "\n"@
}

/// The sum of a column.
pub open spec fn total(s: Seq<u64>) -> nat
    decreases s.len(),
{
    if s.len() == 0 {
        0
    } else {
        total(s.drop_last()) + s.last() as nat
    }
}

/// The mean of a column, truncated.
pub open spec fn average(s: Seq<u64>) -> nat {
    total(s) / s.len()
}

/// The value at `floor(n * pct / 100)` of the column sorted ascending.
pub open spec fn percentile(s: Seq<u64>, pct: nat) -> u64 {
    s.sort_by(ascending())[(s.len() * pct / 100) as int]
}

/// The averages of all columns.
pub open spec fn averages(columns: Seq<Seq<u64>>) -> Seq<u64> {
    Seq::new(columns.len(), |i: int| average(columns[i]) as u64)
}

/// The given percentile of all columns.
pub open spec fn percentiles(columns: Seq<Seq<u64>>, pct: nat) -> Seq<u64> {
    Seq::new(columns.len(), |i: int| percentile(columns[i], pct))
}

/// The lines of the first `n` rows, in order.
pub open spec fn rows_text(columns: Seq<Seq<u64>>, n: nat) -> Seq<char>
    decreases n,
{
    if n == 0 {
        Seq::empty()
    } else {
        rows_text(columns, (n - 1) as nat) + row_text(columns, (n - 1) as nat)
    }
}

/// Rows that two logs both hold read the same in each.
proof fn lemma_rows_text_stable(a: Seq<Seq<u64>>, b: Seq<Seq<u64>>, n: nat)
    requires
        a.len() == b.len(),
        forall|i: int, k: int| 0 <= i < a.len() && 0 <= k < n ==> #[trigger] a[i][k] == #[trigger] b[i][k],
    ensures
        rows_text(a, n) == rows_text(b, n),
    decreases n,
{
    if n > 0 {
        lemma_rows_text_stable(a, b, (n - 1) as nat);
        assert(row_values(a, n - 1) =~= row_values(b, n - 1));
    }
}

/// A blank row of a log of `n` targets.
pub open spec fn spacer_text(n: nat) -> Seq<char> {
    ","@ + commas(n) + "\n"@
}

/// `n` commas.
pub open spec fn commas(n: nat) -> Seq<char>
    decreases n,
{
    if n == 0 {
        Seq::empty()
    } else {
        commas((n - 1) as nat) + ","@
    }
}

/// The block that finalising puts in front of the data.
pub open spec fn summary_text(columns: Seq<Seq<u64>>) -> Seq<char> {
    ","@ + cells(averages(columns)) + "Average\n"@
    + spacer_text(columns.len()) + spacer_text(columns.len())
    + ","@ + cells(percentiles(columns, 95)) + "95th percentile\n"@
    + ","@ + cells(percentiles(columns, 99)) + "99th percentile\n"@
}

/// Whether every column has at least one value.
pub open spec fn all_nonempty(columns: Seq<Seq<u64>>) -> bool {
    forall|i: int| 0 <= i < columns.len() ==> #[trigger] columns[i].len() > 0
}

/// Whether every column has a value at row `k`.
pub open spec fn row_complete(columns: Seq<Seq<u64>>, k: nat) -> bool {
    forall|i: int| 0 <= i < columns.len() ==> #[trigger] columns[i].len() > k
}

/// Relies on `slice::sort_unstable`: the slice ends up sorted ascending,
/// holding the same values.
#[verifier::external_body]
fn sort_ascending(v: &mut Vec<u64>)
    ensures
        sorted_by(final(v)@, ascending()),
        final(v)@.to_multiset() == old(v)@.to_multiset(),
{
    v.sort_unstable();
}

proof fn lemma_ascending_total()
    ensures
        total_ordering(ascending()),
{
}

proof fn lemma_total_bound(s: Seq<u64>)
    ensures
        total(s) <= s.len() * (u64::MAX as nat),
    decreases s.len(),
{
    if s.len() > 0 {
        lemma_total_bound(s.drop_last());
        assert(total(s) <= s.len() * (u64::MAX as nat)) by (nonlinear_arith)
            requires
                total(s) == total(s.drop_last()) + s.last() as nat,
                total(s.drop_last()) <= (s.len() - 1) * (u64::MAX as nat),
                s.last() <= u64::MAX,
        ;
    }
}

/// The average, 95th and 99th percentile of a non-empty column.
fn column_stats(col: &Vec<u64>) -> (r: (u64, u64, u64))
    requires
        col@.len() > 0,
    ensures
        r.0 == average(col@),
        r.1 == percentile(col@, 95),
        r.2 == percentile(col@, 99),
{
    let n = col.len();
    let mut sum: u128 = 0;
    let mut i: usize = 0;
    while i < n
        invariant
            n == col@.len(),
            i <= n,
            sum == total(col@.take(i as int)),
        decreases n - i,
    {
        proof {
            lemma_total_bound(col@.take(i + 1));
            assert(col@.take(i + 1).drop_last() =~= col@.take(i as int));
            assert((i + 1) * (u64::MAX as nat) <= usize::MAX as nat * (u64::MAX as nat)) by (nonlinear_arith)
                requires i + 1 <= usize::MAX;
            assert(usize::MAX as nat * (u64::MAX as nat) <= u128::MAX) by (nonlinear_arith);
        }
        sum = sum + col[i] as u128;
        i = i + 1;
    }
    assert(col@.take(n as int) =~= col@);
    proof {
        lemma_total_bound(col@);
        assert((sum as nat) / (n as nat) <= u64::MAX) by (nonlinear_arith)
            requires sum <= n * (u64::MAX as nat), n > 0;
    }
    let avg = (sum / (n as u128)) as u64;
    let mut sorted = col.clone();
    assert(sorted@ =~= col@);
    sort_ascending(&mut sorted);
    proof {
        lemma_ascending_total();
        col@.lemma_sort_by_ensures(ascending());
        vstd::seq_lib::lemma_sorted_unique(sorted@, col@.sort_by(ascending()), ascending());
        broadcast use vstd::seq_lib::group_to_multiset_ensures;
        assert(sorted@.len() == sorted@.to_multiset().len());
    }
    proof {
        assert((n * 95) / 100 < n) by (nonlinear_arith) requires n > 0;
        assert((n * 99) / 100 < n) by (nonlinear_arith) requires n > 0;
    }
    let i95 = ((n as u128) * 95 / 100) as usize;
    let i99 = ((n as u128) * 99 / 100) as usize;
    (avg, sorted[i95], sorted[i99])
}

/// Appends each value in decimal, followed by a comma.
fn push_cells(out: &mut String, values: &Vec<u64>)
    ensures
        final(out)@ == old(out)@ + cells(values@),
{
    let mut i: usize = 0;
    while i < values.len()
        invariant
            i <= values@.len(),
            out@ == old(out)@ + cells(values@.take(i as int)),
        decreases values@.len() - i,
    {
        push_decimal(out, values[i] as u128);
        out.append(",");
        i = i + 1;
        assert(values@.take(i as int).drop_last() =~= values@.take(i - 1));
    }
    assert(values@.take(i as int) =~= values@);
}

/// Appends a blank row of `n` targets.
fn push_spacer(out: &mut String, n: usize)
    ensures
        final(out)@ == old(out)@ + spacer_text(n as nat),
{
    out.append(",");
    let ghost start = out@;
    let mut i: usize = 0;
    while i < n
        invariant
            i <= n,
            out@ == start + commas(i as nat),
        decreases n - i,
    {
        out.append(",");
        i = i + 1;
    }
    out.append("\n");
}

pub struct CsvLogger {
    buffers: Vec<Vec<u64>>,
    rows_written: usize,
    written: Ghost<Seq<char>>,
}

impl CsvLogger {
    /// The latencies recorded so far, in milliseconds, one column per target.
    pub closed spec fn columns(&self) -> Seq<Seq<u64>> {
        Seq::new(self.buffers@.len(), |i: int| self.buffers@[i]@)
    }

    /// Everything the log has handed out to be written: the header, then each row.
    pub closed spec fn log_text(&self) -> Seq<char> {
        self.written@
    }

    /// The number of data rows written so far.
    pub closed spec fn rows(&self) -> nat {
        self.rows_written as nat
    }

    /// The rows written are exactly those that every column has reached.
    pub open spec fn wf(&self) -> bool {
        &&& self.log_text() == header_text(self.columns().len()) + rows_text(self.columns(), self.rows())
        &&& self.columns().len() == 0 ==> self.rows() == 0
        &&& self.columns().len() > 0 ==> forall|k: nat|
            k < self.rows() <==> #[trigger] row_complete(self.columns(), k)
    }

    /// The number of targets.
    pub fn num_targets(&self) -> (r: usize)
        ensures
            r == self.columns().len(),
    {
        self.buffers.len()
    }

    /// A log of `num_targets` empty columns, and its header line.
    pub fn new(num_targets: usize) -> (r: (CsvLogger, String))
        ensures
            r.0.wf(),
            r.0.columns() == Seq::new(num_targets as nat, |i: int| Seq::<u64>::empty()),
            r.0.rows() == 0,
            r.0.log_text() == r.1@,
            r.1@ == header_text(num_targets as nat),
    {
        let mut buffers: Vec<Vec<u64>> = Vec::new();
        let mut header = String::new();
        header.append("Time");
        let mut i: usize = 0;
        while i < num_targets
            invariant
                i <= num_targets,
                buffers@.len() == i,
                forall|j: int| 0 <= j < i ==> (#[trigger] buffers@[j])@.len() == 0,
                header@ == "Time"@ + column_labels(i as nat),
            decreases num_targets - i,
        {
            if i == 0 {
                header.append(", Gateway");
            } else {
                header.append(", ISP Hop ");
                push_decimal(&mut header, i as u128);
            }
            buffers.push(Vec::new());
            i = i + 1;
            assert(header@ =~= "Time"@ + column_labels(i as nat));
        }
        header.append("\n");
        let logger = CsvLogger { buffers, rows_written: 0, written: Ghost(header@) };
        assert forall|j: int| 0 <= j < num_targets implies #[trigger] logger.columns()[j] =~= Seq::<u64>::empty() by {
            assert(logger.buffers@[j]@.len() == 0);
        }
        assert(logger.columns() =~= Seq::new(num_targets as nat, |i: int| Seq::<u64>::empty()));
        proof {
            if num_targets > 0 {
                assert(logger.columns()[0].len() == 0);
            }
        }
        (logger, header)
    }

    /// Records `latency_us` (in microseconds) for target `host_id`. Returns
    /// the line of the next row when this value completes it.
    pub fn log(&mut self, host_id: usize, latency_us: u64) -> (r: Option<String>)
        requires
            old(self).wf(),
            host_id < old(self).columns().len(),
        ensures
            final(self).wf(),
            final(self).columns() == old(self).columns().update(
                host_id as int,
                old(self).columns()[host_id as int].push(millis_of(latency_us)),
            ),
            r.is_some() == row_complete(final(self).columns(), old(self).rows()),
            r.is_some() ==> final(self).rows() == old(self).rows() + 1
                && r.unwrap()@ == row_text(final(self).columns(), old(self).rows()),
            r.is_none() ==> final(self).rows() == old(self).rows(),
            r.is_some() ==> final(self).log_text() == old(self).log_text() + r.unwrap()@,
            r.is_none() ==> final(self).log_text() == old(self).log_text(),
    {
        let ghost old_cols = self.columns();
        self.buffers[host_id].push(latency_us / 1000);
        let ghost cols = self.columns();
        assert(cols =~= old_cols.update(
            host_id as int,
            old_cols[host_id as int].push(millis_of(latency_us)),
        ));
        let rows = self.rows_written;
        assert(!row_complete(old_cols, rows as nat));
        proof {
            assert forall|i: int, k: int| 0 <= i < cols.len() && 0 <= k < rows implies
                #[trigger] cols[i][k] == #[trigger] old_cols[i][k] by {
                assert(row_complete(old_cols, k as nat));
                assert(old_cols[i].len() > k);
            }
            lemma_rows_text_stable(cols, old_cols, rows as nat);
        }
        let mut complete = true;
        let mut i: usize = 0;
        while i < self.buffers.len()
            invariant
                i <= self.buffers@.len(),
                cols == self.columns(),
                rows == self.rows_written,
                complete == (forall|j: int| 0 <= j < i ==> #[trigger] cols[j].len() > rows),
            decreases self.buffers@.len() - i,
        {
            if self.buffers[i].len() <= rows {
                complete = false;
            }
            assert(cols[i as int] == self.buffers@[i as int]@);
            i = i + 1;
        }
        if !complete {
            proof {
                assert forall|k: nat| k < self.rows() <==> row_complete(cols, k) by {
                    if k < self.rows() {
                        assert(row_complete(old_cols, k));
                        assert forall|j: int| 0 <= j < cols.len() implies #[trigger] cols[j].len() > k by {
                            assert(old_cols[j].len() > k);
                        }
                    }
                    if row_complete(cols, k) && k >= self.rows() {
                        assert(!row_complete(cols, self.rows()));
                        let j = choose|j: int| 0 <= j < cols.len() && !(cols[j].len() > self.rows());
                        assert(cols[j].len() > k);
                    }
                }
            }
            return None;
        }
        assert(row_complete(cols, rows as nat));
        let len = self.buffers[host_id].len();
        assert(cols[host_id as int].len() == len);
        let line = self.row_line(rows);
        self.rows_written = rows + 1;
        self.written = Ghost(self.written@ + line@);
        assert(rows_text(cols, (rows + 1) as nat) == rows_text(cols, rows as nat) + row_text(cols, rows as nat));
        assert(self.log_text() =~= header_text(cols.len()) + rows_text(cols, self.rows()));
        proof {
            let j = choose|j: int| 0 <= j < old_cols.len() && !(#[trigger] old_cols[j].len() > rows);
            assert(j == host_id) by {
                if j != host_id {
                    assert(cols[j] == old_cols[j]);
                    assert(cols[j].len() > rows);
                }
            }
            assert(cols[host_id as int].len() == rows + 1);
            assert(!row_complete(cols, self.rows()));
            assert forall|k: nat| k < self.rows() <==> row_complete(cols, k) by {
                if k < self.rows() {
                    assert forall|j: int| 0 <= j < cols.len() implies #[trigger] cols[j].len() > k by {
                        assert(cols[j].len() > rows);
                    }
                }
                if row_complete(cols, k) {
                    assert(cols[host_id as int].len() > k);
                }
            }
        }
        Some(line)
    }

    /// The summary block: averages, two blank rows, 95th and 99th
    /// percentiles. `None` when some target has no value at all.
    pub fn summary(&self) -> (r: Option<String>)
        ensures
            r.is_some() == all_nonempty(self.columns()),
            r.is_some() ==> r.unwrap()@ == summary_text(self.columns()),
    {
        let ghost cols = self.columns();
        let n = self.buffers.len();
        let mut avgs: Vec<u64> = Vec::new();
        let mut p95s: Vec<u64> = Vec::new();
        let mut p99s: Vec<u64> = Vec::new();
        let mut i: usize = 0;
        while i < n
            invariant
                n == cols.len(),
                cols == self.columns(),
                i <= n,
                forall|j: int| 0 <= j < i ==> #[trigger] cols[j].len() > 0,
                avgs@ =~= averages(cols).take(i as int),
                p95s@ =~= percentiles(cols, 95).take(i as int),
                p99s@ =~= percentiles(cols, 99).take(i as int),
            decreases n - i,
        {
            assert(cols[i as int] == self.buffers@[i as int]@);
            if self.buffers[i].len() == 0 {
                assert(!all_nonempty(cols));
                return None;
            }
            let (a, p, q) = column_stats(&self.buffers[i]);
            avgs.push(a);
            p95s.push(p);
            p99s.push(q);
            i = i + 1;
        }
        assert(averages(cols).take(n as int) =~= averages(cols));
        assert(percentiles(cols, 95).take(n as int) =~= percentiles(cols, 95));
        assert(percentiles(cols, 99).take(n as int) =~= percentiles(cols, 99));
        let mut out = String::new();
        out.append(",");
        push_cells(&mut out, &avgs);
        out.append("Average\n");
        push_spacer(&mut out, n);
        push_spacer(&mut out, n);
        out.append(",");
        push_cells(&mut out, &p95s);
        out.append("95th percentile\n");
        out.append(",");
        push_cells(&mut out, &p99s);
        out.append("99th percentile\n");
        assert(out@ =~= summary_text(cols));
        Some(out)
    }

    /// The finished log: the summary block followed by `data`, the log's
    /// text as written so far. `None` when some target has no value at all.
    pub fn finalize(&self, data: &str) -> (r: Option<String>)
        ensures
            r.is_some() == all_nonempty(self.columns()),
            r.is_some() ==> r.unwrap()@ == summary_text(self.columns()) + data@,
    {
        match self.summary() {
            Some(block) => {
                let mut out = block;
                out.append(data);
                Some(out)
            },
            None => None,
        }
    }

    /// The line of row `k`, which every column has reached.
    fn row_line(&self, k: usize) -> (r: String)
        requires
            row_complete(self.columns(), k as nat),
        ensures
            r@ == row_text(self.columns(), k as nat),
    {
        let ghost cols = self.columns();
        let ghost values = row_values(cols, k as int);
        let mut line = String::new();
        let deci: u128 = (k as u128) * (ROW_PERIOD_DECISECS as u128);
        push_decimal(&mut line, deci / 10);
        line.append(".");
        push_decimal(&mut line, deci % 10);
        line.append(",");
        let ghost start = line@;
        assert(start == row_time(k as nat));
        let mut i: usize = 0;
        while i < self.buffers.len()
            invariant
                i <= self.buffers@.len(),
                cols == self.columns(),
                values == row_values(cols, k as int),
                row_complete(cols, k as nat),
                line@ == start + cells(values.take(i as int)),
            decreases self.buffers@.len() - i,
        {
            assert(cols[i as int].len() > k);
            push_decimal(&mut line, self.buffers[i][k] as u128);
            line.append(",");
            i = i + 1;
            assert(values.take(i as int).drop_last() =~= values.take(i - 1));
        }
        assert(values.take(i as int) =~= values);
        line.append("\n");
        line
    }
}

/// Row barrier: row `k` has been written exactly when every target has
/// supplied at least `k + 1` values, and the log's text is the header followed
/// by the written rows in order, each listing the values in target order.
pub proof fn lemma_row_barrier(logger: &CsvLogger, k: nat)
    requires
        logger.wf(),
        logger.columns().len() > 0,
    ensures
        k < logger.rows() <==> (forall|i: int| 0 <= i < logger.columns().len()
            ==> #[trigger] logger.columns()[i].len() >= k + 1),
        logger.log_text() == header_text(logger.columns().len())
            + rows_text(logger.columns(), logger.rows()),
        row_text(logger.columns(), k) == row_time(k)
            + cells(Seq::new(logger.columns().len(), |i: int| logger.columns()[i][k as int])) + "\n"@,
{
    assert(k < logger.rows() <==> row_complete(logger.columns(), k));
}

/// Finalising loses no data: once every target has a value, the finished
/// text is the summary block followed by everything the log wrote, unchanged.
pub proof fn lemma_finalize_keeps_data(logger: &CsvLogger)
    requires
        logger.wf(),
        all_nonempty(logger.columns()),
    ensures
        ({
            let block = summary_text(logger.columns());
            let finished = block + logger.log_text();
            &&& finished.subrange(block.len() as int, finished.len() as int) == logger.log_text()
            &&& finished.subrange(block.len() as int, finished.len() as int)
                == header_text(logger.columns().len()) + rows_text(logger.columns(), logger.rows())
        }),
{
    let block = summary_text(logger.columns());
    let finished = block + logger.log_text();
    assert(finished.subrange(block.len() as int, finished.len() as int) =~= logger.log_text());
}

} // verus!
