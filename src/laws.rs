//! What holds of the parser over whole runs of packets.
use vstd::prelude::*;
use crate::data::{default_model, empty_columns, DataModel, Packet};
use crate::parser::{
    append_checked, append_row, is_empty_default, parse_step, schema_width, well_formed,
    FAILURE_THRESHOLD,
};

verus! {

/// The container and counter after the packets `ps`, each paired with the
/// numbers read from it, were handed to the parser in order.
pub open spec fn parse_run(
    m: DataModel<String>,
    counter: int,
    ps: Seq<(Packet<String>, Seq<u32>)>,
) -> (DataModel<String>, int)
    decreases ps.len(),
{
    if ps.len() == 0 {
        (m, counter)
    } else {
        let prev = parse_run(m, counter, ps.drop_last());
        parse_step(prev.0, prev.1, ps.last().0, ps.last().1)
    }
}

/// How many of the packets carry a non-empty payload.
pub open spec fn count_nonempty(ps: Seq<(Packet<String>, Seq<u32>)>) -> nat
    decreases ps.len(),
{
    if ps.len() == 0 {
        0
    } else {
        count_nonempty(ps.drop_last()) + if ps.last().0.payload@.len() > 0 {
            1nat
        } else {
            0nat
        }
    }
}

/// `n` columns, each exactly as long as the time line.
pub open spec fn steady(m: DataModel<String>, n: nat) -> bool {
    &&& m.dataset.len() == n
    &&& forall|c: int| 0 <= c < n ==> #[trigger] m.dataset[c].len() == m.time.len()
}

proof fn lemma_run_prefix(ps: Seq<(Packet<String>, Seq<u32>)>, k: int)
    requires
        1 <= k <= ps.len(),
    ensures
        ps.take(k).drop_last() == ps.take(k - 1),
        ps.take(k).last() == ps[k - 1],
{
    assert(ps.take(k).drop_last() =~= ps.take(k - 1));
}

proof fn lemma_steady_prefix(ps: Seq<(Packet<String>, Seq<u32>)>, n: nat, k: int)
    requires
        n >= 1,
        1 <= k <= ps.len(),
        forall|i: int| 0 <= i < ps.len() ==> (#[trigger] ps[i]).0.payload@.len() > 0 && ps[i].1.len() == n,
    ensures
        steady(parse_run(default_model(), 0, ps.take(k)).0, n),
        parse_run(default_model(), 0, ps.take(k)).1 == 0,
    decreases k,
{
    lemma_run_prefix(ps, k);
    let prev = parse_run(default_model(), 0, ps.take(k - 1));
    let (p, s) = ps[k - 1];
    assert(parse_run(default_model(), 0, ps.take(k)) == parse_step(prev.0, prev.1, p, s));
    if k == 1 {
        assert(ps.take(0) =~= Seq::<(Packet<String>, Seq<u32>)>::empty());
        assert(is_empty_default(prev.0));
    } else {
        lemma_steady_prefix(ps, n, k - 1);
        let logged = DataModel { raw_traffic: prev.0.raw_traffic.push(p), ..prev.0 };
        if is_empty_default(prev.0) {
            assert(prev.0.time.len() == prev.0.dataset[0].len());
        } else {
            let a = append_row(logged, p, s);
            assert(a.dataset[0].len() == prev.0.dataset[0].len() + 1);
            assert(append_checked(logged, p, s) == a);
            assert forall|c: int| 0 <= c < n implies #[trigger] a.dataset[c].len() == a.time.len() by {
                assert(prev.0.dataset[c].len() == prev.0.time.len());
            }
        }
    }
}

/// Schema stability: a run of non-empty packets that each yield `n >= 1`
/// numbers, started from the default container, leaves `n` columns after
/// every packet, each as long as the time line.
pub proof fn lemma_schema_stability(ps: Seq<(Packet<String>, Seq<u32>)>, n: nat)
    requires
        n >= 1,
        forall|i: int| 0 <= i < ps.len() ==> (#[trigger] ps[i]).0.payload@.len() > 0 && ps[i].1.len() == n,
    ensures
        forall|k: int|
            1 <= k <= ps.len() ==> {
                let m = (#[trigger] parse_run(default_model(), 0, ps.take(k))).0;
                &&& m.dataset.len() == n
                &&& m.time.len() == m.dataset[0].len()
            },
{
    assert forall|k: int| 1 <= k <= ps.len() implies {
        let m = (#[trigger] parse_run(default_model(), 0, ps.take(k))).0;
        &&& m.dataset.len() == n
        &&& m.time.len() == m.dataset[0].len()
    } by {
        lemma_steady_prefix(ps, n, k);
    }
}

/// The packets with a non-empty payload, in order.
pub open spec fn nonempty_packets(ps: Seq<(Packet<String>, Seq<u32>)>) -> Seq<Packet<String>>
    decreases ps.len(),
{
    if ps.len() == 0 {
        Seq::empty()
    } else if ps.last().0.payload@.len() > 0 {
        nonempty_packets(ps.drop_last()).push(ps.last().0)
    } else {
        nonempty_packets(ps.drop_last())
    }
}

/// Audit completeness: every packet with a non-empty payload is logged, in
/// the order of arrival, and no other, whether or not it added a row.
pub proof fn lemma_audit_completeness(
    m: DataModel<String>,
    counter: int,
    ps: Seq<(Packet<String>, Seq<u32>)>,
)
    ensures
        parse_run(m, counter, ps).0.raw_traffic == m.raw_traffic + nonempty_packets(ps),
        parse_run(m, counter, ps).0.raw_traffic.len() == m.raw_traffic.len() + count_nonempty(ps),
    decreases ps.len(),
{
    if ps.len() == 0 {
        assert(m.raw_traffic + nonempty_packets(ps) =~= m.raw_traffic);
    } else {
        lemma_audit_completeness(m, counter, ps.drop_last());
        let prev = parse_run(m, counter, ps.drop_last());
        if ps.last().0.payload@.len() > 0 {
            assert(prev.0.raw_traffic.push(ps.last().0) =~= m.raw_traffic + nonempty_packets(ps));
        }
    }
}

/// Lengths agree at every published point: a run of packets of any kind
/// keeps a well-formed container well-formed.
pub proof fn lemma_runs_stay_well_formed(
    m: DataModel<String>,
    counter: int,
    ps: Seq<(Packet<String>, Seq<u32>)>,
)
    requires
        well_formed(m),
    ensures
        well_formed(parse_run(m, counter, ps).0),
    decreases ps.len(),
{
    if ps.len() > 0 {
        lemma_runs_stay_well_formed(m, counter, ps.drop_last());
        let prev = parse_run(m, counter, ps.drop_last());
        let (p, s) = ps.last();
        let logged = DataModel { raw_traffic: prev.0.raw_traffic.push(p), ..prev.0 };
        if !(is_empty_default(prev.0) || prev.1 > FAILURE_THRESHOLD) && s.len() == prev.0.dataset.len()
            && p.payload@.len() > 0 {
            let a = append_row(logged, p, s);
            assert forall|c: int| 0 <= c < a.dataset.len() implies #[trigger] a.dataset[c].len()
                == a.time.len() by {
                assert(prev.0.dataset[c].len() == prev.0.time.len());
            }
            assert(append_checked(logged, p, s) == a);
        }
    }
}

/// Each packet is non-empty and does not match the `width` columns.
pub open spec fn all_mismatch(ps: Seq<(Packet<String>, Seq<u32>)>, width: nat) -> bool {
    forall|i: int|
        0 <= i < ps.len() ==> (#[trigger] ps[i]).0.payload@.len() > 0 && ps[i].1.len() != width
}

proof fn lemma_mismatches(m: DataModel<String>, counter: int, ps: Seq<(Packet<String>, Seq<u32>)>)
    requires
        !is_empty_default(m),
        0 <= counter,
        counter + ps.len() <= FAILURE_THRESHOLD + 1,
        all_mismatch(ps, m.dataset.len()),
    ensures
        parse_run(m, counter, ps).1 == counter + ps.len(),
        parse_run(m, counter, ps).0.dataset == m.dataset,
        parse_run(m, counter, ps).0.time == m.time,
    decreases ps.len(),
{
    if ps.len() > 0 {
        assert(all_mismatch(ps.drop_last(), m.dataset.len()));
        lemma_mismatches(m, counter, ps.drop_last());
        assert(ps.last() == ps[ps.len() - 1]);
    }
}

/// Resync threshold: after eleven packets in a row that do not match the
/// schema (from a counter of zero), the next non-empty packet resets the
/// schema to its own width and clears the counter.
pub proof fn lemma_resync_threshold(
    m: DataModel<String>,
    ps: Seq<(Packet<String>, Seq<u32>)>,
    q: (Packet<String>, Seq<u32>),
)
    requires
        !is_empty_default(m),
        ps.len() == FAILURE_THRESHOLD + 1,
        all_mismatch(ps, m.dataset.len()),
        q.0.payload@.len() > 0,
    ensures
        parse_run(m, 0, ps).1 == FAILURE_THRESHOLD + 1,
        parse_run(m, 0, ps).0.dataset == m.dataset,
        parse_run(m, 0, ps.push(q)).1 == 0,
        parse_run(m, 0, ps.push(q)).0.dataset == empty_columns(schema_width(q.1.len())),
{
    lemma_mismatches(m, 0, ps);
    assert(ps.push(q).drop_last() =~= ps);
}

/// A matching packet after at most `FAILURE_THRESHOLD` mismatching ones
/// appends its row and clears the failure counter.
pub proof fn lemma_match_clears_failures(
    m: DataModel<String>,
    ps: Seq<(Packet<String>, Seq<u32>)>,
    q: (Packet<String>, Seq<u32>),
)
    requires
        !is_empty_default(m),
        steady(m, m.dataset.len()),
        ps.len() <= FAILURE_THRESHOLD,
        all_mismatch(ps, m.dataset.len()),
        q.0.payload@.len() > 0,
        q.1.len() == m.dataset.len(),
    ensures
        parse_run(m, 0, ps).1 == ps.len(),
        parse_run(m, 0, ps.push(q)).1 == 0,
        parse_run(m, 0, ps.push(q)).0.time == m.time.push(q.0.relative_time),
        parse_run(m, 0, ps.push(q)).0.dataset == Seq::new(
            m.dataset.len(),
            |c: int| m.dataset[c].push(q.1[c]),
        ),
{
    lemma_mismatches(m, 0, ps);
    assert(ps.push(q).drop_last() =~= ps);
    let prev = parse_run(m, 0, ps);
    let logged = DataModel { raw_traffic: prev.0.raw_traffic.push(q.0), ..prev.0 };
    let a = append_row(logged, q.0, q.1);
    assert(m.dataset[0].len() == m.time.len());
    assert(a.dataset[0].len() == a.time.len());
    assert(append_checked(logged, q.0, q.1) == a);
}

} // verus!
