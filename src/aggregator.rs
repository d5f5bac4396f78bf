//! The aggregator's decisions for one cycle of its loop. The loop itself,
//! with its channels and the published snapshot, runs around this state.
use vstd::prelude::*;
use crate::data::{default_model, names_view, DataContainer, DataModel, Packet};
use crate::parser::{parse_step, parser, well_formed};

verus! {

/// The live container and the parser's failure counter, owned by the
/// aggregator alone.
pub struct Aggregator {
    pub data: DataContainer<String>,
    pub failed_format_counter: i32,
}

/// The state after a clear: the default container and a zero counter.
pub open spec fn cleared(a: (DataModel<String>, int)) -> (DataModel<String>, int) {
    (default_model(), 0)
}

/// The container with its labels replaced.
pub open spec fn renamed(m: DataModel<String>, names: Seq<Seq<char>>) -> DataModel<String> {
    DataModel { names, ..m }
}

impl Aggregator {
    pub open spec fn model(&self) -> (DataModel<String>, int) {
        (self.data@, self.failed_format_counter as int)
    }

    /// A fresh aggregator: the default container and no failures.
    pub fn new() -> (r: Aggregator)
        ensures
            r.model() == (default_model::<String>(), 0int),
            well_formed(r.data@),
    {
        let r = Aggregator { data: DataContainer::default(), failed_format_counter: 0 };
        assert(r.data@.dataset[0].len() == 0);
        r
    }

    /// Discards the live container for a default one and zeroes the counter.
    pub fn clear(&mut self)
        ensures
            final(self).model() == cleared(old(self).model()),
            well_formed(final(self).data@),
    {
        self.data = DataContainer::default();
        self.failed_format_counter = 0;
        assert(self.data@.dataset[0].len() == 0);
    }

    /// Overwrites the column labels; their count is not checked here.
    pub fn rename(&mut self, names: Vec<String>)
        ensures
            final(self).model() == (
                renamed(old(self).data@, names_view(names@)),
                old(self).failed_format_counter as int,
            ),
    {
        self.data.names = names;
    }

    /// One cycle: a clear request first, then new labels, then a packet with
    /// the numbers read from it. The result tells whether the container must
    /// be published: after a clear, so that the published copy is discarded
    /// too, and after a packet with a non-empty payload.
    pub fn cycle(
        &mut self,
        clear: Option<bool>,
        names: Option<Vec<String>>,
        packet: Option<(Packet<String>, Vec<u32>)>,
    ) -> (publish: bool)
        ensures
            ({
                let s1 = if clear == Some(true) {
                    cleared(old(self).model())
                } else {
                    old(self).model()
                };
                let s2 = match names {
                    Some(v) => (renamed(s1.0, names_view(v@)), s1.1),
                    None => s1,
                };
                &&& match packet {
                    Some((p, s)) => final(self).model() == parse_step(s2.0, s2.1, p, s@),
                    None => final(self).model() == s2,
                }
                &&& publish == (clear == Some(true) || match packet {
                    Some((p, s)) => p.payload@.len() > 0,
                    None => false,
                })
            }),
            clear == Some(true) || well_formed(old(self).data@) ==> well_formed(final(self).data@),
    {
        let mut cleared_now = false;
        if let Some(c) = clear {
            if c {
                self.clear();
                cleared_now = true;
            }
        }
        if let Some(v) = names {
            self.rename(v);
        }
        let changed = match packet {
            Some((p, s)) => parser(p, s, &mut self.data, &mut self.failed_format_counter),
            None => false,
        };
        cleared_now || changed
    }
}

/// Clear idempotence: clearing twice leaves what clearing once leaves.
pub proof fn lemma_clear_idempotent(a: (DataModel<String>, int))
    ensures
        cleared(cleared(a)) == cleared(a),
{
}

} // verus!
