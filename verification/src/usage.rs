//! Usage counters for one reporting unit.

use vstd::prelude::*;
use crate::params::{
    Mangling, ParamSeq, ToParams, lemma_mangled_append, lemma_mangled_singleton, mangled_params,
    push_param,
};

verus! {

/// An ordered mapping of metric name to string-encoded value. Emission
/// preserves insertion order; repeated metric names are legal and kept.
#[derive(Clone, Debug)]
pub struct Usage {
    pub metrics: Vec<(String, String)>,
}

impl Usage {
    /// Creates an empty usage record.
    pub fn new() -> (u: Usage)
        ensures
            u.metrics@.len() == 0,
    {
        Usage { metrics: Vec::new() }
    }

    /// Creates a usage record from ordered (metric, value) pairs.
    pub fn from_pairs(metrics: Vec<(String, String)>) -> (u: Usage)
        ensures
            u.metrics == metrics,
    {
        Usage { metrics }
    }

    /// Appends one metric at the end of the record.
    pub fn push_metric(&mut self, name: String, value: String)
        ensures
            final(self).metrics.deep_view() == old(self).metrics.deep_view() + seq![
                (name@, value@),
            ],
    {
        push_param(&mut self.metrics, name, value);
    }
}

impl ToParams for Usage {
    open spec fn spec_params(&self) -> ParamSeq {
        self.metrics.deep_view()
    }

    fn to_params_with_mangling(&self, target: &mut Vec<(String, String)>, mangling: &Mangling) {
        let ghost all = self.metrics.deep_view();
        let mut idx: usize = 0;
        while idx < self.metrics.len()
            invariant
                idx <= self.metrics.len(),
                all == self.metrics.deep_view(),
                target.deep_view() == old(target).deep_view() + mangled_params(
                    *mangling,
                    all.take(idx as int),
                ),
            decreases self.metrics.len() - idx,
        {
            let name = &self.metrics[idx].0;
            let value = &self.metrics[idx].1;
            push_param(target, mangling.apply(name.as_str()), value.clone());
            proof {
                assert(all[idx as int] == (name@, value@));
                assert(all.take(idx + 1) =~= all.take(idx as int) + seq![(name@, value@)]);
                lemma_mangled_singleton(*mangling, name@, value@);
                lemma_mangled_append(*mangling, all.take(idx as int), seq![(name@, value@)]);
            }
            idx = idx + 1;
        }
        proof {
            assert(all.take(self.metrics@.len() as int) =~= all);
        }
    }
}

} // verus!
