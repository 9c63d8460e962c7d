//! The logic composer: merges an ordered list of theory contributions
//! into one composed sort universe and one composed operator universe
//! under a name, validating up front that no two theories claim the same
//! variant tag and that every theory supplies its free-variable marker.
//! A malformed composition is rejected before any constraint can be
//! built over it, never at solving time.

use vstd::prelude::*;

verus! {

/// What one theory module contributes to a composed logic: the variant
/// tag it claims in the composed unions, how many sort and operator
/// variants it brings, and which of its operator variants marks "an
/// unconstrained free variable of this theory's sort", if it names one.
#[derive(Clone, Copy, Debug, PartialEq, Eq, Structural)]
pub struct TheoryShape {
    /// The tag this theory claims; distinct theories must claim distinct tags.
    pub tag: u64,
    /// How many sort variants this theory contributes.
    pub sort_variants: u64,
    /// How many operator variants this theory contributes.
    pub op_variants: u64,
    /// The index, among this theory's operator variants, of the
    /// free-variable marker.
    pub free_var_op: Option<u64>,
}

/// Why a composition was rejected.
#[derive(Clone, Copy, Debug, PartialEq, Eq, Structural)]
pub enum ComposeError {
    /// Two theories claim the same variant tag.
    DuplicateTag,
    /// Some theory names no free-variable marker, so the free-variable
    /// mapping would omit a sort branch.
    MissingFreeVar,
    /// Some theory's free-variable marker lies outside its own operator
    /// variants, so the mapping would point outside the composed union.
    FreeVarOutOfRange,
}

/// A validated composed logic: its name, the tags of the merged theories
/// in order, the sizes of the two composed unions, and the total mapping
/// from each theory's tag to its free-variable operator.
pub struct ComposedLogic {
    /// The fixed identifier handed to a backend when selecting this logic.
    pub name: String,
    /// The merged theories' tags, in composition order.
    pub tags: Vec<u64>,
    /// The number of sort variants of the composed sort union.
    pub sort_variant_count: u64,
    /// The number of operator variants of the composed operator union.
    pub op_variant_count: u64,
    /// For every merged theory's tag, the operator variant standing for a
    /// free variable of that theory's sorts.
    pub free_var_ops: Vec<(u64, u64)>,
}

/// Whether the contributed tags are pairwise distinct.
pub open spec fn tags_distinct(ts: Seq<TheoryShape>) -> bool {
    forall|i: int, j: int| 0 <= i < j < ts.len() ==> ts[i].tag != ts[j].tag
}

/// Whether every theory names a free-variable marker among its own
/// operator variants.
pub open spec fn free_vars_complete(ts: Seq<TheoryShape>) -> bool {
    forall|i: int|
        0 <= i < ts.len() ==> match (#[trigger] ts[i]).free_var_op {
            Some(op) => op < ts[i].op_variants,
            None => false,
        }
}

/// Whether some theory names no free-variable marker at all.
pub open spec fn some_free_var_missing(ts: Seq<TheoryShape>) -> bool {
    exists|i: int| 0 <= i < ts.len() && (#[trigger] ts[i]).free_var_op is None
}

/// The total number of sort variants the theories contribute.
pub open spec fn sum_sort_variants(ts: Seq<TheoryShape>) -> int
    decreases ts.len(),
{
    if ts.len() == 0 {
        0
    } else {
        sum_sort_variants(ts.drop_last()) + ts.last().sort_variants
    }
}

/// The total number of operator variants the theories contribute.
pub open spec fn sum_op_variants(ts: Seq<TheoryShape>) -> int
    decreases ts.len(),
{
    if ts.len() == 0 {
        0
    } else {
        sum_op_variants(ts.drop_last()) + ts.last().op_variants
    }
}

/// A prefix never contributes more sort variants than the whole list.
proof fn lemma_sum_sort_prefix(ts: Seq<TheoryShape>, i: int)
    requires
        0 <= i <= ts.len(),
    ensures
        sum_sort_variants(ts.take(i)) <= sum_sort_variants(ts),
    decreases ts.len() - i,
{
    if i == ts.len() {
        assert(ts.take(i) =~= ts);
    } else {
        lemma_sum_sort_prefix(ts, i + 1);
        assert(ts.take(i + 1).drop_last() =~= ts.take(i));
        assert(ts.take(i + 1).last() == ts[i]);
    }
}

/// A prefix never contributes more operator variants than the whole list.
proof fn lemma_sum_op_prefix(ts: Seq<TheoryShape>, i: int)
    requires
        0 <= i <= ts.len(),
    ensures
        sum_op_variants(ts.take(i)) <= sum_op_variants(ts),
    decreases ts.len() - i,
{
    if i == ts.len() {
        assert(ts.take(i) =~= ts);
    } else {
        lemma_sum_op_prefix(ts, i + 1);
        assert(ts.take(i + 1).drop_last() =~= ts.take(i));
        assert(ts.take(i + 1).last() == ts[i]);
    }
}

/// Merges the theory contributions under `name`, or reports exactly why
/// the composition is malformed. On success the composed unions are the
/// disjoint unions of the contributions: their variant counts are the
/// sums of the contributed counts, and the free-variable mapping lists,
/// for every merged theory's tag in order, that theory's own marker, so
/// the mapping is total over the composed sort branches. Duplicate tags
/// are reported before an incomplete mapping, and a missing marker before
/// one that lies out of range.
pub fn compose(name: String, theories: &Vec<TheoryShape>) -> (r: Result<
    ComposedLogic,
    ComposeError,
>)
    requires
        sum_sort_variants(theories@) <= u64::MAX,
        sum_op_variants(theories@) <= u64::MAX,
    ensures
        r is Ok <==> tags_distinct(theories@) && free_vars_complete(theories@),
        match r {
            Ok(c) => {
                &&& c.name@ == name@
                &&& c.tags@.len() == theories@.len()
                &&& forall|i: int|
                    0 <= i < theories@.len() ==> c.tags@[i] == (#[trigger] theories@[i]).tag
                &&& c.sort_variant_count == sum_sort_variants(theories@)
                &&& c.op_variant_count == sum_op_variants(theories@)
                &&& c.free_var_ops@.len() == theories@.len()
                &&& forall|i: int|
                    0 <= i < theories@.len() ==> c.free_var_ops@[i] == (
                        (#[trigger] theories@[i]).tag,
                        theories@[i].free_var_op->Some_0,
                    )
            },
            Err(ComposeError::DuplicateTag) => !tags_distinct(theories@),
            Err(ComposeError::MissingFreeVar) => tags_distinct(theories@)
                && some_free_var_missing(theories@),
            Err(ComposeError::FreeVarOutOfRange) => tags_distinct(theories@)
                && !some_free_var_missing(theories@) && !free_vars_complete(theories@),
        },
{
    let n = theories.len();
    let mut i: usize = 0;
    while i < n
        invariant
            n == theories@.len(),
            i <= n,
            forall|a: int, b: int| 0 <= a < b < i ==> theories@[a].tag != theories@[b].tag,
        decreases n - i,
    {
        let mut j: usize = 0;
        while j < i
            invariant
                n == theories@.len(),
                i < n,
                j <= i,
                forall|b: int| 0 <= b < j ==> theories@[b].tag != theories@[i as int].tag,
            decreases i - j,
        {
            if theories[j].tag == theories[i].tag {
                return Err(ComposeError::DuplicateTag);
            }
            j += 1;
        }
        i += 1;
    }
    let mut i: usize = 0;
    while i < n
        invariant
            n == theories@.len(),
            i <= n,
            tags_distinct(theories@),
            forall|a: int| 0 <= a < i ==> (#[trigger] theories@[a]).free_var_op is Some,
        decreases n - i,
    {
        if theories[i].free_var_op.is_none() {
            proof {
                assert(theories@[i as int].free_var_op is None);
            }
            return Err(ComposeError::MissingFreeVar);
        }
        i += 1;
    }
    let mut i: usize = 0;
    while i < n
        invariant
            n == theories@.len(),
            i <= n,
            tags_distinct(theories@),
            forall|a: int| 0 <= a < n ==> (#[trigger] theories@[a]).free_var_op is Some,
            forall|a: int|
                0 <= a < i ==> (#[trigger] theories@[a]).free_var_op->Some_0
                    < theories@[a].op_variants,
        decreases n - i,
    {
        match theories[i].free_var_op {
            Some(op) => {
                if op >= theories[i].op_variants {
                    return Err(ComposeError::FreeVarOutOfRange);
                }
            },
            None => {
                proof {
                    assert(false);
                }
            },
        }
        i += 1;
    }
    let mut tags: Vec<u64> = Vec::new();
    let mut free_var_ops: Vec<(u64, u64)> = Vec::new();
    let mut sort_count: u64 = 0;
    let mut op_count: u64 = 0;
    let mut i: usize = 0;
    while i < n
        invariant
            n == theories@.len(),
            i <= n,
            tags_distinct(theories@),
            free_vars_complete(theories@),
            forall|a: int| 0 <= a < n ==> (#[trigger] theories@[a]).free_var_op is Some,
            tags@.len() == i,
            forall|a: int| 0 <= a < i ==> tags@[a] == (#[trigger] theories@[a]).tag,
            free_var_ops@.len() == i,
            forall|a: int|
                0 <= a < i ==> free_var_ops@[a] == (
                    (#[trigger] theories@[a]).tag,
                    theories@[a].free_var_op->Some_0,
                ),
            sort_count == sum_sort_variants(theories@.take(i as int)),
            op_count == sum_op_variants(theories@.take(i as int)),
            sum_sort_variants(theories@) <= u64::MAX,
            sum_op_variants(theories@) <= u64::MAX,
        decreases n - i,
    {
        proof {
            lemma_sum_sort_prefix(theories@, i + 1);
            lemma_sum_op_prefix(theories@, i + 1);
            assert(theories@.take(i + 1).drop_last() =~= theories@.take(i as int));
            assert(theories@.take(i + 1).last() == theories@[i as int]);
        }
        let t = theories[i];
        tags.push(t.tag);
        match t.free_var_op {
            Some(op) => {
                free_var_ops.push((t.tag, op));
            },
            None => {
                proof {
                    assert(false);
                }
            },
        }
        sort_count = sort_count + t.sort_variants;
        op_count = op_count + t.op_variants;
        i += 1;
    }
    proof {
        assert(theories@.take(n as int) =~= theories@);
    }
    Ok(ComposedLogic { name, tags, sort_variant_count: sort_count, op_variant_count: op_count, free_var_ops })
}

} // verus!
