//! The streaming aggregator of partition-field summaries: nulls set
//! `contains_null`, NaNs set `contains_nan` and never touch the bounds, and
//! every other value tightens the lower and upper bounds.
use vstd::prelude::*;

use crate::error::Error;
use crate::manifest::FieldSummary;
use crate::manifest::SummaryV;
use crate::values::{
    opt_lit_view, spec_compatible, spec_lit_is_nan, spec_lit_lt, Datum, DatumV, LitV,
    PrimitiveLiteral, PrimitiveType,
};

verus! {

/// The summary after one more partition value: a null only marks
/// `contains_null`; an incompatible literal is rejected; a NaN only marks
/// `contains_nan`; any other value initializes or tightens both bounds.
pub open spec fn spec_update_summary(ty: PrimitiveType, s: SummaryV, v: Option<LitV>) -> Option<
    SummaryV,
> {
    match v {
        None => Some(SummaryV { contains_null: true, ..s }),
        Some(lit) => if !spec_compatible(ty, lit) {
            None
        } else if spec_lit_is_nan(lit) {
            Some(SummaryV { contains_nan: Some(true), ..s })
        } else {
            let d = DatumV { ty, lit };
            let lower = match s.lower_bound {
                None => Some(d),
                Some(lo) => if spec_lit_lt(lit, lo.lit) {
                    Some(d)
                } else {
                    Some(lo)
                },
            };
            let upper = match s.upper_bound {
                None => Some(d),
                Some(up) => if spec_lit_lt(up.lit, lit) {
                    Some(d)
                } else {
                    Some(up)
                },
            };
            Some(SummaryV { lower_bound: lower, upper_bound: upper, ..s })
        },
    }
}

/// The summary after a whole sequence of partition values, folded in order
/// from the empty summary given.
pub open spec fn spec_fold_summary(ty: PrimitiveType, s: SummaryV, vs: Seq<Option<LitV>>) -> Option<
    SummaryV,
>
    decreases vs.len(),
{
    if vs.len() == 0 {
        Some(s)
    } else {
        match spec_fold_summary(ty, s, vs.drop_last()) {
            Some(acc) => spec_update_summary(ty, acc, vs.last()),
            None => None,
        }
    }
}

/// When a whole sequence of values folds successfully, every prefix does.
pub proof fn lemma_fold_prefix_some(
    ty: PrimitiveType,
    s: SummaryV,
    vs: Seq<Option<LitV>>,
    k: int,
)
    requires
        0 <= k <= vs.len(),
        spec_fold_summary(ty, s, vs) is Some,
    ensures
        spec_fold_summary(ty, s, vs.take(k)) is Some,
    decreases vs.len() - k,
{
    if k < vs.len() {
        lemma_fold_prefix_some(ty, s, vs, k + 1);
        assert(vs.take(k + 1).drop_last() =~= vs.take(k));
        if k + 1 == vs.len() {
            assert(vs.take(k + 1) =~= vs);
        }
    } else {
        assert(vs.take(k) =~= vs);
    }
}

/// The summary a finished aggregation reports: `contains_nan` is never left
/// open; when no NaN was observed it is an explicit `Some(false)`.
pub open spec fn spec_finish_summary(s: SummaryV) -> SummaryV {
    SummaryV {
        contains_nan: if s.contains_nan is None {
            Some(false)
        } else {
            s.contains_nan
        },
        ..s
    }
}

/// The fresh summary an aggregation starts from.
pub open spec fn spec_empty_summary() -> SummaryV {
    SummaryV {
        contains_null: false,
        contains_nan: None,
        lower_bound: None,
        upper_bound: None,
    }
}

/// A streaming aggregator for one partition column.
pub struct PartitionFieldStats {
    /// The primitive type of the partition column.
    pub partition_type: PrimitiveType,
    /// The summary so far.
    pub summary: FieldSummary,
}

impl PartitionFieldStats {
    /// Start aggregating a partition column of the given type.
    pub fn new(partition_type: PrimitiveType) -> (r: PartitionFieldStats)
        ensures
            r.partition_type == partition_type,
            r.summary@ == spec_empty_summary(),
    {
        PartitionFieldStats {
            partition_type,
            summary: FieldSummary {
                contains_null: false,
                contains_nan: None,
                lower_bound: None,
                upper_bound: None,
            },
        }
    }

    /// Fold one partition value into the summary. Rejects values whose shape
    /// does not fit the column type and leaves the summary unchanged then.
    pub fn update(&mut self, value: Option<PrimitiveLiteral>) -> (r: Result<(), Error>)
        ensures
            final(self).partition_type == old(self).partition_type,
            r is Ok <==> spec_update_summary(
                old(self).partition_type,
                old(self).summary@,
                opt_lit_view(value),
            ) is Some,
            r is Ok ==> Some(final(self).summary@) == spec_update_summary(
                old(self).partition_type,
                old(self).summary@,
                opt_lit_view(value),
            ),
            r is Err ==> final(self).summary@ == old(self).summary@,
    {
        let lit = match value {
            None => {
                self.summary.contains_null = true;
                return Ok(());
            },
            Some(lit) => lit,
        };
        if !self.partition_type.compatible(&lit) {
            return Err(Error::data_invalid("value is not compatible with type".to_owned()));
        }
        let value = Datum::new(self.partition_type, lit);
        if value.is_nan() {
            self.summary.contains_nan = Some(true);
            return Ok(());
        }
        let new_lower = match &self.summary.lower_bound {
            None => value.dup(),
            Some(original) => if value.lt(original) {
                value.dup()
            } else {
                original.dup()
            },
        };
        self.summary.lower_bound = Some(new_lower);
        let new_upper = match &self.summary.upper_bound {
            None => value,
            Some(original) => if original.lt(&value) {
                value
            } else {
                original.dup()
            },
        };
        self.summary.upper_bound = Some(new_upper);
        Ok(())
    }

    /// Finish the aggregation: `contains_nan` becomes an explicit
    /// `Some(false)` when no NaN was observed.
    pub fn finish(self) -> (r: FieldSummary)
        ensures
            r@ == spec_finish_summary(self.summary@),
    {
        let mut summary = self.summary;
        summary.contains_nan = match summary.contains_nan {
            None => Some(false),
            Some(v) => Some(v),
        };
        summary
    }
}

} // verus!
