//! Sorting by place.

use crate::context::TypedAstContext;
use crate::files::SourceTable;
use crate::ids::CDeclId;
use crate::locations::{
    compare_places, is_placed, law_order_is_transitive, law_order_reverses, src_order, ways_agree,
    SrcOrder,
};
use crate::source::SrcLoc;
use std::ops::Index;
use vstd::prelude::*;
use vstd::set_lib::{lemma_int_range, lemma_subset_equality, set_int_range};

verus! {

/// What has no place comes first.
pub open spec fn optional_order(
    sources: SourceTable,
    a: Option<SrcLoc>,
    b: Option<SrcLoc>,
) -> SrcOrder {
    match (a, b) {
        (None, None) => SrcOrder::Same,
        (None, Some(_)) => SrcOrder::Before,
        (Some(_), None) => SrcOrder::After,
        (Some(a), Some(b)) => src_order(sources, a, b),
    }
}

/// Any two places among the keys lie in files that the table has.
pub open spec fn are_comparable(sources: SourceTable, keys: Seq<Option<SrcLoc>>) -> bool {
    forall|i: int, j: int|
        0 <= i < j < keys.len() ==> ((#[trigger] keys[i], #[trigger] keys[j]) matches (
            Some(a),
            Some(b),
        ) ==> is_placed(sources, a) && is_placed(sources, b))
}

/// The order from the first place on, or from the last.
pub open spec fn directed_order(
    sources: SourceTable,
    last_first: bool,
    a: Option<SrcLoc>,
    b: Option<SrcLoc>,
) -> SrcOrder {
    if last_first {
        optional_order(sources, b, a)
    } else {
        optional_order(sources, a, b)
    }
}

/// The key number `i` may stand directly before the key number `j`: it comes
/// first, or neither does and `i` is the smaller number.
pub open spec fn may_precede(
    sources: SourceTable,
    last_first: bool,
    keys: Seq<Option<SrcLoc>>,
    i: int,
    j: int,
) -> bool {
    match directed_order(sources, last_first, keys[i], keys[j]) {
        SrcOrder::Before => true,
        SrcOrder::Same => i < j,
        SrcOrder::After => false,
    }
}

/// `order` lists the numbers below `n`, each once.
pub open spec fn is_reordering(order: Seq<int>, n: nat) -> bool {
    &&& order.len() == n
    &&& order.no_duplicates()
    &&& forall|i: int| 0 <= i < n ==> 0 <= #[trigger] order[i] < n
}

/// The items in that order.
pub open spec fn reordered<T>(items: Seq<T>, order: Seq<int>) -> Seq<T> {
    order.map_values(|i: int| items[i])
}

/// A reordering lists every number below `n`: nothing is lost by it.
pub proof fn law_reordering_lists_all(order: Seq<int>, n: nat, k: int)
    requires
        is_reordering(order, n),
        0 <= k < n,
    ensures
        order.contains(k),
{
    order.unique_seq_to_set();
    lemma_int_range(0, n as int);
    assert(order.to_set().subset_of(set_int_range(0, n as int)));
    lemma_subset_equality(order.to_set(), set_int_range(0, n as int));
    assert(order.to_set().contains(k));
}

/// Each item of the order may stand directly before the next.
pub open spec fn is_in_order(
    sources: SourceTable,
    last_first: bool,
    keys: Seq<Option<SrcLoc>>,
    order: Seq<int>,
) -> bool {
    forall|k: int|
        #![trigger order[k]]
        0 <= k < order.len() - 1 ==> may_precede(sources, last_first, keys, order[k], order[k + 1])
}

/// The numbers as mathematical integers.
pub open spec fn as_ints(v: Seq<usize>) -> Seq<int> {
    v.map_values(|x: usize| x as int)
}

proof fn lemma_directed_order_reverses(
    sources: SourceTable,
    last_first: bool,
    a: Option<SrcLoc>,
    b: Option<SrcLoc>,
)
    ensures
        directed_order(sources, last_first, b, a) == directed_order(
            sources,
            last_first,
            a,
            b,
        ).reverse(),
{
    if let (Some(x), Some(y)) = (a, b) {
        law_order_reverses(sources, x, y);
    }
}

fn compare_optional(sources: &SourceTable, a: &Option<SrcLoc>, b: &Option<SrcLoc>) -> (r: SrcOrder)
    requires
        sources.wf(),
        (*a, *b) matches (Some(x), Some(y)) ==> is_placed(*sources, x) && is_placed(*sources, y),
    ensures
        r == optional_order(*sources, *a, *b),
{
    match (a, b) {
        (None, None) => SrcOrder::Same,
        (None, Some(_)) => SrcOrder::Before,
        (Some(_), None) => SrcOrder::After,
        (Some(a), Some(b)) => compare_places(sources, a, b),
    }
}

/// Whether the key number `j` comes strictly before the key number `i`.
fn comes_before(
    sources: &SourceTable,
    last_first: bool,
    keys: &Vec<Option<SrcLoc>>,
    j: usize,
    i: usize,
) -> (r: bool)
    requires
        sources.wf(),
        are_comparable(*sources, keys@),
        i < keys.len(),
        j < keys.len(),
        i != j,
    ensures
        r == (directed_order(*sources, last_first, keys@[j as int], keys@[i as int])
            == SrcOrder::Before),
{
    let order = if last_first {
        compare_optional(sources, &keys[i], &keys[j])
    } else {
        compare_optional(sources, &keys[j], &keys[i])
    };
    match order {
        SrcOrder::Before => true,
        _ => false,
    }
}

/// What is known of a sorted list of the numbers from `lo` to `hi`.
spec fn is_run(
    sources: SourceTable,
    last_first: bool,
    keys: Seq<Option<SrcLoc>>,
    lo: int,
    hi: int,
    run: Seq<usize>,
) -> bool {
    &&& run.len() == hi - lo
    &&& run.no_duplicates()
    &&& forall|k: int| 0 <= k < run.len() ==> lo <= #[trigger] run[k] < hi
    &&& forall|k: int|
        #![trigger run[k]]
        0 <= k < run.len() - 1 ==> may_precede(
            sources,
            last_first,
            keys,
            run[k] as int,
            run[k + 1] as int,
        )
}

/// Merges the sorted numbers below `mid` with those from `mid` on.
fn merge(
    sources: &SourceTable,
    last_first: bool,
    keys: &Vec<Option<SrcLoc>>,
    left: &Vec<usize>,
    right: &Vec<usize>,
    Ghost(lo): Ghost<int>,
    Ghost(mid): Ghost<int>,
    Ghost(hi): Ghost<int>,
) -> (r: Vec<usize>)
    requires
        sources.wf(),
        are_comparable(*sources, keys@),
        0 <= lo <= mid <= hi <= keys.len(),
        is_run(*sources, last_first, keys@, lo, mid, left@),
        is_run(*sources, last_first, keys@, mid, hi, right@),
    ensures
        is_run(*sources, last_first, keys@, lo, hi, r@),
{
    let mut r: Vec<usize> = Vec::new();
    let mut i: usize = 0;
    let mut j: usize = 0;
    while i < left.len() || j < right.len()
        invariant
            sources.wf(),
            are_comparable(*sources, keys@),
            0 <= lo <= mid <= hi <= keys.len(),
            is_run(*sources, last_first, keys@, lo, mid, left@),
            is_run(*sources, last_first, keys@, mid, hi, right@),
            i <= left.len(),
            j <= right.len(),
            r.len() == i + j,
            r@.no_duplicates(),
            forall|k: int| 0 <= k < r@.len() ==> lo <= #[trigger] r@[k] < hi,
            forall|k: int, m: int|
                0 <= k < r@.len() && i <= m < left@.len() ==> #[trigger] r@[k] != #[trigger] left@[m],
            forall|k: int, m: int|
                0 <= k < r@.len() && j <= m < right@.len() ==> #[trigger] r@[k]
                    != #[trigger] right@[m],
            forall|k: int|
                #![trigger r@[k]]
                0 <= k < r@.len() - 1 ==> may_precede(
                    *sources,
                    last_first,
                    keys@,
                    r@[k] as int,
                    r@[k + 1] as int,
                ),
            r@.len() > 0 && i < left@.len() ==> may_precede(
                *sources,
                last_first,
                keys@,
                r@.last() as int,
                left@[i as int] as int,
            ),
            r@.len() > 0 && j < right@.len() ==> may_precede(
                *sources,
                last_first,
                keys@,
                r@.last() as int,
                right@[j as int] as int,
            ),
        decreases left.len() - i + right.len() - j,
    {
        let ghost before = r@;
        let take_right = if i < left.len() && j < right.len() {
            comes_before(sources, last_first, keys, right[j], left[i])
        } else {
            i == left.len()
        };
        proof {
            if i < left@.len() && j < right@.len() {
                lemma_directed_order_reverses(
                    *sources,
                    last_first,
                    keys@[right@[j as int] as int],
                    keys@[left@[i as int] as int],
                );
            }
        }
        if take_right {
            r.push(right[j]);
            j = j + 1;
        } else {
            r.push(left[i]);
            i = i + 1;
        }
        proof {
            assert forall|k: int| #![trigger r@[k]] 0 <= k < r@.len() - 1 implies may_precede(
                *sources,
                last_first,
                keys@,
                r@[k] as int,
                r@[k + 1] as int,
            ) by {
                if k + 1 < before.len() {
                    assert(before[k] == r@[k]);
                    assert(before[k + 1] == r@[k + 1]);
                }
            }
        }
    }
    r
}

/// The numbers from `lo` to `hi`, sorted by their keys.
fn sort_run(
    sources: &SourceTable,
    last_first: bool,
    keys: &Vec<Option<SrcLoc>>,
    lo: usize,
    hi: usize,
) -> (r: Vec<usize>)
    requires
        sources.wf(),
        are_comparable(*sources, keys@),
        lo <= hi <= keys.len(),
    ensures
        is_run(*sources, last_first, keys@, lo as int, hi as int, r@),
    decreases hi - lo,
{
    if hi - lo <= 1 {
        let mut r: Vec<usize> = Vec::new();
        if lo < hi {
            r.push(lo);
        }
        r
    } else {
        let mid: usize = lo + (hi - lo) / 2;
        let left = sort_run(sources, last_first, keys, lo, mid);
        let right = sort_run(sources, last_first, keys, mid, hi);
        merge(
            sources,
            last_first,
            keys,
            &left,
            &right,
            Ghost(lo as int),
            Ghost(mid as int),
            Ghost(hi as int),
        )
    }
}

/// The numbers of the keys, sorted by place. Where two neighbours have the
/// same place, the smaller number stands first.
pub fn sort_places(
    sources: &SourceTable,
    last_first: bool,
    keys: &Vec<Option<SrcLoc>>,
) -> (r: Vec<usize>)
    requires
        sources.wf(),
        are_comparable(*sources, keys@),
    ensures
        is_reordering(as_ints(r@), keys@.len()),
        is_in_order(*sources, last_first, keys@, as_ints(r@)),
{
    let r = sort_run(sources, last_first, keys, 0, keys.len());
    proof {
        let order = as_ints(r@);
        assert forall|i: int, j: int|
            0 <= i < order.len() && 0 <= j < order.len() && i != j implies order[i] != order[j] by {
            assert(r@[i] != r@[j]);
        }
        assert forall|k: int| #![trigger order[k]] 0 <= k < order.len() - 1 implies may_precede(
            *sources,
            last_first,
            keys@,
            order[k],
            order[k + 1],
        ) by {
            assert(order[k] == r@[k]);
            assert(order[k + 1] == r@[k + 1]);
        }
    }
    r
}

/// Where the ways to the places agree, what is in order from neighbour to
/// neighbour is in order throughout.
pub proof fn law_in_order_throughout(
    sources: SourceTable,
    last_first: bool,
    keys: Seq<Option<SrcLoc>>,
    order: Seq<int>,
    i: int,
    j: int,
)
    requires
        forall|k: int, m: int|
            0 <= k < keys.len() && 0 <= m < keys.len() ==> ((#[trigger] keys[k], #[trigger] keys[m])
                matches (Some(a), Some(b)) ==> ways_agree(sources, a, b)),
        is_reordering(order, keys.len()),
        is_in_order(sources, last_first, keys, order),
        0 <= i < j < order.len(),
    ensures
        directed_order(sources, last_first, keys[order[i]], keys[order[j]]) != SrcOrder::After,
    decreases j - i,
{
    if i + 1 < j {
        law_in_order_throughout(sources, last_first, keys, order, i, j - 1);
        let x = keys[order[i]];
        let y = keys[order[j - 1]];
        let z = keys[order[j]];
        assert(may_precede(sources, last_first, keys, order[j - 1], order[j - 1 + 1]));
        assert(directed_order(sources, last_first, y, z) != SrcOrder::After);
        if let (Some(a), Some(b)) = (x, y) {
            if let Some(c) = z {
                if last_first {
                    law_order_is_transitive(sources, c, b, a);
                } else {
                    law_order_is_transitive(sources, a, b, c);
                }
            }
        }
    } else {
        assert(may_precede(sources, last_first, keys, order[i], order[i + 1]));
    }
}

/// Where the declarations begin.
pub open spec fn decl_places(ctx: TypedAstContext, ids: Seq<CDeclId>) -> Seq<Option<SrcLoc>> {
    ids.map_values(|id: CDeclId| ctx.decl_at(id).spec_begin_loc())
}

/// `sorted` are the top-level declarations of the context, each in order with
/// the next.
pub open spec fn is_sorted_by_place(ctx: TypedAstContext, sorted: Seq<CDeclId>) -> bool {
    exists|order: Seq<int>|
        {
            &&& #[trigger] is_reordering(order, ctx.c_decls_top@.len())
            &&& sorted == reordered(ctx.c_decls_top@, order)
            &&& is_in_order(ctx.sources, false, decl_places(ctx, ctx.c_decls_top@), order)
        }
}

/// Of two neighbours among the sorted declarations, the one without a location
/// is the first, and with two locations the second does not begin before the
/// first: the place where a declaration begins counts, not where it ends.
pub proof fn law_sorted_declarations_begin_in_order(
    ctx: TypedAstContext,
    sorted: Seq<CDeclId>,
    k: int,
)
    requires
        is_sorted_by_place(ctx, sorted),
        0 <= k < sorted.len() - 1,
    ensures
        match (ctx.decl_at(sorted[k]).loc, ctx.decl_at(sorted[k + 1]).loc) {
            (Some(a), Some(b)) => src_order(
                ctx.sources,
                SrcLoc { fileid: a.fileid, line: a.begin_line, column: a.begin_column },
                SrcLoc { fileid: b.fileid, line: b.begin_line, column: b.begin_column },
            ) != SrcOrder::After,
            (Some(_), None) => false,
            (None, _) => true,
        },
{
    let places = decl_places(ctx, ctx.c_decls_top@);
    let order = choose|order: Seq<int>|
        {
            &&& #[trigger] is_reordering(order, ctx.c_decls_top@.len())
            &&& sorted == reordered(ctx.c_decls_top@, order)
            &&& is_in_order(ctx.sources, false, places, order)
        };
    assert(may_precede(ctx.sources, false, places, order[k], order[k + 1]));
}

/// Where the ways to the places agree, the same holds of any two of the sorted
/// declarations.
pub proof fn law_sorted_declarations_begin_in_order_throughout(
    ctx: TypedAstContext,
    sorted: Seq<CDeclId>,
    i: int,
    j: int,
)
    requires
        is_sorted_by_place(ctx, sorted),
        forall|d: CDeclId, e: CDeclId|
            ctx.c_decls_top@.contains(d) && ctx.c_decls_top@.contains(e) ==> ((
            #[trigger] ctx.decl_at(d).loc, #[trigger] ctx.decl_at(e).loc) matches (
                Some(a),
                Some(b),
            ) ==> ways_agree(
                ctx.sources,
                SrcLoc { fileid: a.fileid, line: a.begin_line, column: a.begin_column },
                SrcLoc { fileid: b.fileid, line: b.begin_line, column: b.begin_column },
            )),
        0 <= i < j < sorted.len(),
    ensures
        match (ctx.decl_at(sorted[i]).loc, ctx.decl_at(sorted[j]).loc) {
            (Some(a), Some(b)) => src_order(
                ctx.sources,
                SrcLoc { fileid: a.fileid, line: a.begin_line, column: a.begin_column },
                SrcLoc { fileid: b.fileid, line: b.begin_line, column: b.begin_column },
            ) != SrcOrder::After,
            (Some(_), None) => false,
            (None, _) => true,
        },
{
    let top = ctx.c_decls_top@;
    let places = decl_places(ctx, top);
    let order = choose|order: Seq<int>|
        {
            &&& #[trigger] is_reordering(order, top.len())
            &&& sorted == reordered(top, order)
            &&& is_in_order(ctx.sources, false, places, order)
        };
    assert forall|k: int, m: int| 0 <= k < places.len() && 0 <= m < places.len() implies ((
    #[trigger] places[k], #[trigger] places[m]) matches (Some(a), Some(b)) ==> ways_agree(
        ctx.sources,
        a,
        b,
    )) by {
        assert(top.contains(top[k]) && top.contains(top[m]));
        let d = ctx.decl_at(top[k]).loc;
        let e = ctx.decl_at(top[m]).loc;
    }
    law_in_order_throughout(ctx.sources, false, places, order, i, j);
}

/// Sorting neither adds nor drops a declaration, and keeps how many there are.
pub proof fn law_sorting_keeps_the_declarations(
    ctx: TypedAstContext,
    sorted: Seq<CDeclId>,
    d: CDeclId,
)
    requires
        is_sorted_by_place(ctx, sorted),
    ensures
        sorted.len() == ctx.c_decls_top@.len(),
        sorted.contains(d) <==> ctx.c_decls_top@.contains(d),
{
    let top = ctx.c_decls_top@;
    let order = choose|order: Seq<int>|
        {
            &&& #[trigger] is_reordering(order, top.len())
            &&& sorted == reordered(top, order)
            &&& is_in_order(ctx.sources, false, decl_places(ctx, top), order)
        };
    if sorted.contains(d) {
        let i = choose|i: int| 0 <= i < sorted.len() && sorted[i] == d;
        assert(top[order[i]] == d);
    }
    if top.contains(d) {
        let k = choose|k: int| 0 <= k < top.len() && top[k] == d;
        law_reordering_lists_all(order, top.len(), k);
        let i = choose|i: int| 0 <= i < order.len() && order[i] == k;
        assert(sorted[i] == d);
    }
}

impl TypedAstContext {
    /// Sorts the top-level declarations by place; those without one come first.
    ///
    /// Each declaration is in order with the next. Where the ways to their
    /// places agree, they are in order throughout; a file that was pulled in
    /// at several places can make the order go round in a circle.
    pub fn sort_top_decls(&mut self)
        requires
            old(self).sources.wf(),
            old(self).c_decls_top@.len() > 1 ==> forall|i: int|
                0 <= i < old(self).c_decls_top@.len() ==> old(self).has_decl(
                    #[trigger] old(self).c_decls_top@[i],
                ),
            are_comparable(old(self).sources, decl_places(*old(self), old(self).c_decls_top@)),
        ensures
            is_sorted_by_place(*old(self), final(self).c_decls_top@),
            *final(self) == (TypedAstContext {
                c_decls_top: final(self).c_decls_top,
                ..*old(self)
            }),
    {
        let ghost places = decl_places(*self, self.c_decls_top@);
        if self.c_decls_top.len() < 2 {
            proof {
                let order = Seq::new(self.c_decls_top@.len(), |i: int| i);
                assert(is_reordering(order, self.c_decls_top@.len()));
                assert(self.c_decls_top@ =~= reordered(self.c_decls_top@, order));
            }
            return;
        }
        let mut keys: Vec<Option<SrcLoc>> = Vec::new();
        let mut i: usize = 0;
        while i < self.c_decls_top.len()
            invariant
                i <= self.c_decls_top.len(),
                forall|j: int|
                    0 <= j < self.c_decls_top@.len() ==> self.has_decl(
                        #[trigger] self.c_decls_top@[j],
                    ),
                places == decl_places(*self, self.c_decls_top@),
                keys@ =~= places.take(i as int),
            decreases self.c_decls_top.len() - i,
        {
            keys.push(self.index(self.c_decls_top[i]).begin_loc());
            i = i + 1;
        }
        assert(keys@ =~= places);
        let order = sort_places(&self.sources, false, &keys);
        let mut sorted: Vec<CDeclId> = Vec::new();
        let mut i: usize = 0;
        while i < order.len()
            invariant
                i <= order.len(),
                is_reordering(as_ints(order@), self.c_decls_top@.len()),
                sorted@ =~= reordered(self.c_decls_top@, as_ints(order@)).take(i as int),
            decreases order.len() - i,
        {
            assert(as_ints(order@)[i as int] == order@[i as int]);
            sorted.push(self.c_decls_top[order[i]]);
            i = i + 1;
        }
        assert(sorted@ =~= reordered(self.c_decls_top@, as_ints(order@)));
        self.c_decls_top = sorted;
        assert(is_reordering(as_ints(order@), old(self).c_decls_top@.len()));
    }
}

} // verus!
