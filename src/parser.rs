//! The resynchronising parser: turns one packet and the numbers read from it
//! into a change of the data container.
use vstd::prelude::*;
use crate::data::{
    columns_view, default_names, empty_columns, make_default_names, make_empty_columns, DataContainer, DataModel, Packet,
};

verus! {

/// Consecutive mismatching packets that are tolerated as noise; one more
/// makes the next packet reset the schema.
pub const FAILURE_THRESHOLD: i32 = 10;

/// The container is the one a session starts with: nothing logged yet and a
/// single empty column (or, defensively, no column at all).
pub open spec fn is_empty_default<P>(m: DataModel<P>) -> bool {
    ||| m.dataset.len() == 0
    ||| (m.raw_traffic.len() == 0 && m.dataset.len() == 1 && m.dataset[0].len() == 0)
}

/// The column count that `n` numbers call for: a line without numbers still
/// keeps one column.
pub open spec fn schema_width(n: nat) -> nat {
    if n == 0 {
        1
    } else {
        n
    }
}

/// At least one column, and both time lines and every column of the same
/// length.
pub open spec fn well_formed<P>(m: DataModel<P>) -> bool {
    &&& m.dataset.len() >= 1
    &&& m.absolute_time.len() == m.time.len()
    &&& forall|c: int| 0 <= c < m.dataset.len() ==> #[trigger] m.dataset[c].len() == m.time.len()
}

/// `n` empty columns and empty time lines, so that all lengths agree; the
/// labels are regenerated when their count differs.
pub open spec fn reset_schema<P>(m: DataModel<P>, n: nat) -> DataModel<P> {
    DataModel {
        time: Seq::empty(),
        names: if m.names.len() == n {
            m.names
        } else {
            default_names(n)
        },
        absolute_time: Seq::empty(),
        dataset: empty_columns(n),
        raw_traffic: m.raw_traffic,
    }
}

/// One row appended: a sample to each column, and both time stamps.
pub open spec fn append_row<P>(m: DataModel<P>, p: Packet<P>, s: Seq<u32>) -> DataModel<P> {
    DataModel {
        time: m.time.push(p.relative_time),
        names: m.names,
        absolute_time: m.absolute_time.push(p.absolute_time),
        dataset: Seq::new(m.dataset.len(), |c: int| m.dataset[c].push(s[c])),
        raw_traffic: m.raw_traffic,
    }
}

/// A row appended, followed by the check that the first column is as long
/// as the time line; where it is not, a schema reset.
pub open spec fn append_checked<P>(m: DataModel<P>, p: Packet<P>, s: Seq<u32>) -> DataModel<P> {
    let a = append_row(m, p, s);
    if a.time.len() != a.dataset[0].len() {
        reset_schema(a, schema_width(s.len()))
    } else {
        a
    }
}

/// The container and failure counter after one packet whose payload yielded
/// the numbers `s`.
pub open spec fn parse_step(
    m: DataModel<String>,
    counter: int,
    p: Packet<String>,
    s: Seq<u32>,
) -> (DataModel<String>, int) {
    if p.payload@.len() == 0 {
        (m, counter)
    } else {
        let logged = DataModel { raw_traffic: m.raw_traffic.push(p), ..m };
        if is_empty_default(m) || counter > FAILURE_THRESHOLD {
            (reset_schema(logged, schema_width(s.len())), 0)
        } else if s.len() == m.dataset.len() {
            (append_checked(logged, p, s), 0)
        } else {
            (logged, counter + 1)
        }
    }
}

fn push_sample(dataset: &mut Vec<Vec<u32>>, c: usize, x: u32)
    requires
        c < old(dataset)@.len(),
    ensures
        final(dataset)@.len() == old(dataset)@.len(),
        columns_view(final(dataset)@) == columns_view(old(dataset)@).update(c as int, columns_view(old(dataset)@)[c as int].push(x)),
{
    dataset[c].push(x);
}

/// Replaces the column structure by `n` empty columns and empties the time
/// lines, keeping the labels where their count already is `n`.
fn reset_columns(data: &mut DataContainer<String>, n: usize)
    ensures
        final(data)@ == reset_schema(old(data)@, n as nat),
{
    data.time = Vec::new();
    data.absolute_time = Vec::new();
    data.dataset = make_empty_columns(n);
    if data.names.len() != n {
        data.names = make_default_names(n);
    }
}

/// Decides what one packet does to the data set.
///
/// `samples` are the numbers read from the packet's payload, in order. An
/// empty payload changes nothing and is reported as no change. Any other
/// packet is logged in `raw_traffic`; then the schema is reset when no
/// sample has been recorded yet or more than `FAILURE_THRESHOLD` packets in
/// a row did not match it; a packet with one number per column appends a
/// row; any other packet only counts as a failure. The result tells whether
/// the container is worth publishing.
pub fn parser(
    packet: Packet<String>,
    samples: Vec<u32>,
    data: &mut DataContainer<String>,
    failed_format_counter: &mut i32,
) -> (changed: bool)
    ensures
        changed == (packet.payload@.len() > 0),
        (final(data)@, *final(failed_format_counter) as int) == parse_step(
            old(data)@,
            *old(failed_format_counter) as int,
            packet,
            samples@,
        ),
        well_formed(old(data)@) ==> well_formed(final(data)@),
{
    if packet.payload.as_str().is_empty() {
        return false;
    }
    let ghost m0 = data@;
    let ghost p = packet;
    let n = samples.len();
    let width = if n == 0 { 1 } else { n };
    let empty_default = data.dataset.len() == 0 || (data.raw_traffic.len() == 0
        && data.dataset.len() == 1 && data.dataset[0].len() == 0);
    let relative_time = packet.relative_time;
    let absolute_time = packet.absolute_time;
    data.raw_traffic.push(packet);
    let ghost logged = data@;
    assert(logged == DataModel { raw_traffic: m0.raw_traffic.push(p), ..m0 });
    if empty_default || *failed_format_counter > FAILURE_THRESHOLD {
        reset_columns(data, width);
        *failed_format_counter = 0;
    } else if n == data.dataset.len() {
        let mut c: usize = 0;
        while c < n
            invariant
                n == samples@.len(),
                n == data.dataset@.len(),
                c <= n,
                data.time@ == logged.time,
                data.absolute_time@ == logged.absolute_time,
                data.raw_traffic@ == logged.raw_traffic,
                crate::data::names_view(data.names@) == logged.names,
                columns_view(data.dataset@) =~= Seq::new(
                    n as nat,
                    |j: int|
                        if j < c {
                            logged.dataset[j].push(samples@[j])
                        } else {
                            logged.dataset[j]
                        },
                ),
            decreases n - c,
        {
            push_sample(&mut data.dataset, c, samples[c]);
            c = c + 1;
        }
        data.time.push(relative_time);
        data.absolute_time.push(absolute_time);
        *failed_format_counter = 0;
        assert(columns_view(data.dataset@) =~= append_row(logged, p, samples@).dataset);
        assert(data@ == append_row(logged, p, samples@));
        if data.time.len() != data.dataset[0].len() {
            reset_columns(data, width);
        }
    } else {
        *failed_format_counter = *failed_format_counter + 1;
    }
    true
}

} // verus!
