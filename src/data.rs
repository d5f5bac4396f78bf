//! Packets and the data container that the aggregator owns.
use vstd::prelude::*;
use std::time::{Duration, SystemTime, SystemTimeError, UNIX_EPOCH};

verus! {

#[verifier::external_type_specification]
#[verifier::external_body]
pub struct ExSystemTime(SystemTime);

#[verifier::external_type_specification]
#[verifier::external_body]
pub struct ExSystemTimeError(SystemTimeError);

/// Relies on `SystemTime::now`: the wall clock, of which nothing can be promised.
#[verifier::external_body]
fn wall_clock_now() -> (r: SystemTime) {
    SystemTime::now()
}

/// Relies on `SystemTime::duration_since`: the time elapsed since the Unix
/// epoch, or an error when the clock stands before it.
#[verifier::external_body]
fn elapsed_since_epoch(t: &SystemTime) -> (r: Result<Duration, SystemTimeError>) {
    t.duration_since(UNIX_EPOCH)
}

/// Relies on `Duration::as_secs`: the whole seconds of a duration.
#[verifier::external_body]
fn whole_seconds(d: &Duration) -> (r: u64) {
    d.as_secs()
}

/// Relies on `Duration::subsec_nanos`: the fractional part of a duration in
/// nanoseconds, always under one second.
#[verifier::external_body]
fn fraction_nanos(d: &Duration) -> (r: u32)
    ensures
        r < 1_000_000_000,
{
    d.subsec_nanos()
}

/// Whole milliseconds of a clock reading given as seconds and nanoseconds
/// since the epoch; zero where the clock stood before the epoch (`None`).
pub open spec fn epoch_ms_spec(e: Option<(u64, u32)>) -> u128 {
    match e {
        Some((secs, nanos)) => (secs * 1000 + nanos / 1_000_000) as u128,
        None => 0,
    }
}

/// A reading of the clock as whole milliseconds since the epoch.
pub fn epoch_ms_of(e: Option<(u64, u32)>) -> (r: u128)
    ensures
        r == epoch_ms_spec(e),
{
    match e {
        Some((secs, nanos)) => secs as u128 * 1000 + (nanos / 1_000_000) as u128,
        None => 0,
    }
}

/// Wall-clock milliseconds since the Unix epoch, rounded down; zero when the
/// clock stands before the epoch.
pub fn get_epoch_ms() -> (r: u128)
    ensures
        exists|e: Option<(u64, u32)>|
            (e matches Some((secs, nanos)) ==> nanos < 1_000_000_000) && r == epoch_ms_spec(e),
{
    let now = wall_clock_now();
    let e = match elapsed_since_epoch(&now) {
        Ok(d) => Some((whole_seconds(&d), fraction_nanos(&d))),
        Err(_) => None,
    };
    epoch_ms_of(e)
}

/// Whether a packet was written to the transport or read from it.
#[derive(Clone, Copy, Debug, PartialEq, Eq, Structural)]
pub enum SerialDirection {
    Send,
    Receive,
}

pub open spec fn direction_label(d: SerialDirection) -> Seq<char> {
    match d {
        SerialDirection::Send => seq!['S', 'E', 'N', 'D'],
        SerialDirection::Receive => seq!['R', 'E', 'C', 'V'],
    }
}

impl SerialDirection {
    /// The tag under which the direction is shown: `SEND` or `RECV`.
    pub fn label(&self) -> (r: String)
        ensures
            r@ == direction_label(*self),
    {
        match self {
            SerialDirection::Send => {
                let r = String::from_str("SEND");
                proof {
                    reveal_strlit("SEND");
                }
                r
            },
            SerialDirection::Receive => {
                let r = String::from_str("RECV");
                proof {
                    reveal_strlit("RECV");
                }
                r
            },
        }
    }
}

/// One timestamped, directional unit of transport activity.
#[derive(Clone, Debug)]
pub struct Packet<P> {
    /// Milliseconds since the capture session started.
    pub relative_time: u128,
    /// Wall-clock milliseconds since the Unix epoch.
    pub absolute_time: u128,
    pub direction: SerialDirection,
    pub payload: P,
}

impl<P: Default> Default for Packet<P> {
    fn default() -> (r: Packet<P>)
        ensures
            r.relative_time == 0,
            r.direction == SerialDirection::Send,
            call_ensures(P::default, (), r.payload),
            exists|e: Option<(u64, u32)>|
                (e matches Some((secs, nanos)) ==> nanos < 1_000_000_000) && r.absolute_time
                    == epoch_ms_spec(e),
    {
        Packet {
            relative_time: 0,
            absolute_time: get_epoch_ms(),
            direction: SerialDirection::Send,
            payload: P::default(),
        }
    }
}

/// The tabular time series built from the packets.
///
/// `dataset` holds one vector per column; each sample is the IEEE-754 bit
/// pattern of a single-precision value, so the set can be compared and
/// copied exactly.
#[derive(Clone, Debug)]
pub struct DataContainer<P> {
    pub time: Vec<u128>,
    pub names: Vec<String>,
    pub absolute_time: Vec<u128>,
    pub dataset: Vec<Vec<u32>>,
    pub raw_traffic: Vec<Packet<P>>,
}

/// The mathematical value of a data container.
pub struct DataModel<P> {
    pub time: Seq<u128>,
    pub names: Seq<Seq<char>>,
    pub absolute_time: Seq<u128>,
    pub dataset: Seq<Seq<u32>>,
    pub raw_traffic: Seq<Packet<P>>,
}

pub open spec fn names_view(v: Seq<String>) -> Seq<Seq<char>> {
    v.map_values(|s: String| s@)
}

pub open spec fn columns_view(v: Seq<Vec<u32>>) -> Seq<Seq<u32>> {
    v.map_values(|c: Vec<u32>| c@)
}

impl<P> View for DataContainer<P> {
    type V = DataModel<P>;

    open spec fn view(&self) -> DataModel<P> {
        DataModel {
            time: self.time@,
            names: names_view(self.names@),
            absolute_time: self.absolute_time@,
            dataset: columns_view(self.dataset@),
            raw_traffic: self.raw_traffic@,
        }
    }
}

/// The decimal digits of `n`, most significant first.
pub open spec fn decimal(n: nat) -> Seq<char>
    decreases n,
{
    let digit = seq!['0', '1', '2', '3', '4', '5', '6', '7', '8', '9'][(n % 10) as int];
    if n < 10 {
        seq![digit]
    } else {
        decimal(n / 10).push(digit)
    }
}

/// The default label of column `i`: `Column <i>`.
pub open spec fn column_label(i: nat) -> Seq<char> {
    seq!['C', 'o', 'l', 'u', 'm', 'n', ' '] + decimal(i)
}

/// The default labels of `n` columns.
pub open spec fn default_names(n: nat) -> Seq<Seq<char>> {
    Seq::new(n, |i: int| column_label(i as nat))
}

/// `n` columns without samples.
pub open spec fn empty_columns(n: nat) -> Seq<Seq<u32>> {
    Seq::new(n, |i: int| Seq::<u32>::empty())
}

/// The container that a session starts with, and that a clear restores.
pub open spec fn default_model<P>() -> DataModel<P> {
    DataModel {
        time: Seq::empty(),
        names: default_names(1),
        absolute_time: Seq::empty(),
        dataset: empty_columns(1),
        raw_traffic: Seq::empty(),
    }
}

/// Relies on `usize::to_string`: the decimal digits of the number.
#[verifier::external_body]
fn decimal_text(n: usize) -> (r: String)
    ensures
        r@ == decimal(n as nat),
{
    n.to_string()
}

/// The default label of column `i`.
pub fn make_column_label(i: usize) -> (r: String)
    ensures
        r@ == column_label(i as nat),
{
    let digits = decimal_text(i);
    let prefix = String::from_str("Column ");
    proof {
        reveal_strlit("Column ");
    }
    let r = prefix.concat(digits.as_str());
    assert(r@ =~= column_label(i as nat));
    r
}

/// The default labels `Column 0` .. `Column n-1`.
pub fn make_default_names(n: usize) -> (r: Vec<String>)
    ensures
        names_view(r@) == default_names(n as nat),
{
    let mut r: Vec<String> = Vec::new();
    let mut i: usize = 0;
    while i < n
        invariant
            i <= n,
            r@.len() == i,
            names_view(r@) =~= default_names(i as nat),
        decreases n - i,
    {
        let label = make_column_label(i);
        let ghost prev = r@;
        r.push(label);
        assert forall|j: int| 0 <= j < i + 1 implies #[trigger] names_view(r@)[j]
            == default_names((i + 1) as nat)[j] by {
            if j < i {
                assert(r@[j] == prev[j]);
                assert(names_view(prev)[j] == default_names(i as nat)[j]);
            }
        }
        assert(names_view(r@) =~= default_names((i + 1) as nat));
        i = i + 1;
    }
    r
}

/// `n` columns without samples.
pub fn make_empty_columns(n: usize) -> (r: Vec<Vec<u32>>)
    ensures
        columns_view(r@) == empty_columns(n as nat),
{
    let mut r: Vec<Vec<u32>> = Vec::new();
    let mut i: usize = 0;
    while i < n
        invariant
            i <= n,
            r@.len() == i,
            columns_view(r@) =~= empty_columns(i as nat),
        decreases n - i,
    {
        let ghost prev = r@;
        r.push(Vec::new());
        assert forall|j: int| 0 <= j < i + 1 implies #[trigger] columns_view(r@)[j]
            == empty_columns((i + 1) as nat)[j] by {
            if j < i {
                assert(r@[j] == prev[j]);
                assert(columns_view(prev)[j] == empty_columns(i as nat)[j]);
            }
        }
        assert(columns_view(r@) =~= empty_columns((i + 1) as nat));
        i = i + 1;
    }
    r
}

impl<P> Default for DataContainer<P> {
    fn default() -> (r: DataContainer<P>)
        ensures
            r@ == default_model::<P>(),
    {
        DataContainer {
            time: Vec::new(),
            names: make_default_names(1),
            absolute_time: Vec::new(),
            dataset: make_empty_columns(1),
            raw_traffic: Vec::new(),
        }
    }
}

} // verus!
