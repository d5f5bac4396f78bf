//! The table that an export writes: a header, then one row per sample.
use vstd::prelude::*;
use crate::data::{names_view, DataContainer, DataModel};

verus! {

/// One exported row: relative time, absolute time, then one sample per
/// column in column order.
pub struct ExportRow {
    pub relative_time: u128,
    pub absolute_time: u128,
    pub samples: Vec<u32>,
}

impl View for ExportRow {
    type V = (u128, u128, Seq<u32>);

    open spec fn view(&self) -> (u128, u128, Seq<u32>) {
        (self.relative_time, self.absolute_time, self.samples@)
    }
}

/// Why a container cannot be exported.
#[derive(Clone, Copy, Debug, PartialEq, Eq, Structural)]
pub enum ExportError {
    /// The time lines and the columns do not all have the same length.
    InconsistentLengths,
}

/// Every column, and the absolute time line, are as long as the time line.
pub open spec fn consistent<P>(m: DataModel<P>) -> bool {
    &&& m.absolute_time.len() == m.time.len()
    &&& forall|c: int| 0 <= c < m.dataset.len() ==> #[trigger] m.dataset[c].len() == m.time.len()
}

/// Row `i` of the table.
pub open spec fn table_row<P>(m: DataModel<P>, i: int) -> (u128, u128, Seq<u32>) {
    (m.time[i], m.absolute_time[i], Seq::new(m.dataset.len(), |c: int| m.dataset[c][i]))
}

/// The rows of the table, one per sample index.
pub open spec fn table_rows<P>(m: DataModel<P>) -> Seq<(u128, u128, Seq<u32>)> {
    Seq::new(m.time.len(), |i: int| table_row(m, i))
}

/// The header: the two time columns, then the column labels.
pub open spec fn table_header<P>(m: DataModel<P>) -> Seq<Seq<char>> {
    seq!["Time [ms]"@, "Absolute time [ms]"@] + m.names
}

pub open spec fn rows_view(v: Seq<ExportRow>) -> Seq<(u128, u128, Seq<u32>)> {
    v.map_values(|r: ExportRow| r@)
}

/// The header row of an export.
pub fn export_header<P>(data: &DataContainer<P>) -> (r: Vec<String>)
    ensures
        names_view(r@) == table_header(data@),
{
    let mut r: Vec<String> = Vec::new();
    r.push(String::from_str("Time [ms]"));
    r.push(String::from_str("Absolute time [ms]"));
    let mut c: usize = 0;
    while c < data.names.len()
        invariant
            c <= data.names@.len(),
            r@.len() == c + 2,
            names_view(r@) =~= seq!["Time [ms]"@, "Absolute time [ms]"@] + names_view(
                data.names@,
            ).take(c as int),
        decreases data.names@.len() - c,
    {
        let label = data.names[c].clone();
        let ghost prev = r@;
        r.push(label);
        assert forall|j: int| 0 <= j < c + 3 implies #[trigger] names_view(r@)[j] == (seq![
            "Time [ms]"@,
            "Absolute time [ms]"@,
        ] + names_view(data.names@).take(c + 1))[j] by {
            if j < c + 2 {
                assert(r@[j] == prev[j]);
                assert(names_view(prev)[j] == (seq!["Time [ms]"@, "Absolute time [ms]"@]
                    + names_view(data.names@).take(c as int))[j]);
            } else {
                assert(r@[j]@ == data.names@[c as int]@);
            }
        }
        assert(names_view(r@) =~= seq!["Time [ms]"@, "Absolute time [ms]"@] + names_view(
            data.names@,
        ).take(c + 1));
        c = c + 1;
    }
    assert(names_view(data.names@).take(c as int) =~= names_view(data.names@));
    r
}

/// The data rows of an export, or an error where the lengths disagree.
pub fn export_table<P>(data: &DataContainer<P>) -> (r: Result<Vec<ExportRow>, ExportError>)
    ensures
        r is Ok <==> consistent(data@),
        r matches Ok(rows) ==> rows_view(rows@) == table_rows(data@),
{
    let n = data.time.len();
    if data.absolute_time.len() != n {
        return Err(ExportError::InconsistentLengths);
    }
    let mut c: usize = 0;
    while c < data.dataset.len()
        invariant
            c <= data.dataset@.len(),
            n == data.time@.len(),
            forall|j: int| 0 <= j < c ==> (#[trigger] data.dataset@[j])@.len() == n,
        decreases data.dataset@.len() - c,
    {
        if data.dataset[c].len() != n {
            assert(data@.dataset[c as int].len() != data@.time.len());
            return Err(ExportError::InconsistentLengths);
        }
        c = c + 1;
    }
    assert(consistent(data@));
    let mut rows: Vec<ExportRow> = Vec::new();
    let mut i: usize = 0;
    while i < n
        invariant
            i <= n,
            n == data.time@.len(),
            consistent(data@),
            rows@.len() == i,
            rows_view(rows@) =~= table_rows(data@).take(i as int),
        decreases n - i,
    {
        let mut samples: Vec<u32> = Vec::new();
        let mut c: usize = 0;
        while c < data.dataset.len()
            invariant
                i < n,
                n == data.time@.len(),
                consistent(data@),
                c <= data.dataset@.len(),
                samples@ =~= Seq::new(c as nat, |k: int| data@.dataset[k][i as int]),
            decreases data.dataset@.len() - c,
        {
            assert(data@.dataset[c as int].len() == n);
            samples.push(data.dataset[c][i]);
            c = c + 1;
        }
        let row = ExportRow {
            relative_time: data.time[i],
            absolute_time: data.absolute_time[i],
            samples,
        };
        let ghost prev = rows@;
        rows.push(row);
        assert forall|j: int| 0 <= j < i + 1 implies #[trigger] rows_view(rows@)[j] == table_rows(
            data@,
        ).take(i + 1)[j] by {
            if j < i {
                assert(rows@[j] == prev[j]);
                assert(rows_view(prev)[j] == table_rows(data@).take(i as int)[j]);
            }
        }
        assert(rows_view(rows@) =~= table_rows(data@).take(i + 1));
        i = i + 1;
    }
    assert(table_rows(data@).take(n as int) =~= table_rows(data@));
    Ok(rows)
}

} // verus!
