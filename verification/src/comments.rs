//! The comments of a translation unit, handed out as a reader moves through
//! its files.

use crate::context::TypedAstContext;
use crate::files::SourceTable;
use crate::ids::FileId;
use crate::locations::{
    compare_places, is_placed, law_order_within_file, position_order, src_order, SrcOrder,
};
use crate::order::{
    as_ints, is_in_order, is_reordering, law_reordering_lists_all, may_precede, reordered,
    sort_places,
};
use crate::prune_laws::{in_turn, lemma_filter_in_turn};
use crate::source::{Located, SrcLoc};
use std::collections::HashMap;
use vstd::prelude::*;

verus! {

/// Comments associated with a context.
///
/// The comments of each file are kept with the last one first, so that the
/// next one is at the end.
#[derive(Debug, Clone)]
pub struct CommentContext {
    comments_by_file: HashMap<FileId, Vec<Located<String>>>,
}

/// Where the comments begin.
pub open spec fn comment_places(comments: Seq<Located<String>>) -> Seq<Option<SrcLoc>> {
    comments.map_values(|comment: Located<String>| comment.spec_begin_loc())
}

/// The comments in a kept file, in the order in which they were given.
pub open spec fn comments_in(
    sources: SourceTable,
    comments: Seq<Located<String>>,
    file: FileId,
) -> Seq<Located<String>> {
    comments.filter(|comment: Located<String>| is_in_file(sources, comment, file))
}

/// The comment has a location in that kept file.
pub open spec fn is_in_file(sources: SourceTable, comment: Located<String>, file: FileId) -> bool {
    comment.loc matches Some(span) && sources.spec_place(span.fileid) == Some(file)
}

/// `list` holds the given comments with the last one first; those at one
/// place keep the order in which they were given.
pub open spec fn is_last_first(
    sources: SourceTable,
    given: Seq<Located<String>>,
    list: Seq<Located<String>>,
) -> bool {
    exists|order: Seq<int>|
        {
            &&& #[trigger] is_reordering(order, given.len())
            &&& list == reordered(given, order)
            &&& forall|i: int, j: int|
                #![trigger order[i], order[j]]
                0 <= i < j < order.len() ==> may_precede(
                    sources,
                    true,
                    comment_places(given),
                    order[i],
                    order[j],
                )
        }
}

/// How many comments at the end of the list come before `loc`, one after the
/// other.
pub open spec fn count_before(
    sources: SourceTable,
    list: Seq<Located<String>>,
    loc: SrcLoc,
) -> nat
    decreases list.len(),
{
    if list.len() == 0 {
        0
    } else {
        match list.last().spec_begin_loc() {
            Some(next) => if src_order(sources, next, loc) == SrcOrder::Before {
                count_before(sources, list.drop_last(), loc) + 1
            } else {
                0
            },
            None => 0,
        }
    }
}

/// The comments up to the first from the end that does not come before `loc`
/// have places in files that the table has.
pub open spec fn is_readable(
    sources: SourceTable,
    list: Seq<Located<String>>,
    loc: SrcLoc,
) -> bool
    decreases list.len(),
{
    list.len() > 0 ==> match list.last().spec_begin_loc() {
        Some(next) => {
            &&& is_placed(sources, next)
            &&& src_order(sources, next, loc) == SrcOrder::Before ==> is_readable(
                sources,
                list.drop_last(),
                loc,
            )
        },
        None => false,
    }
}

/// The place lies in a file that the table has, and the comments of that file
/// can be read up to it.
pub open spec fn can_take_before(
    sources: SourceTable,
    loc: SrcLoc,
    comments: Map<FileId, Seq<Located<String>>>,
) -> bool {
    let file = sources.spec_place(loc.fileid).unwrap();
    &&& is_placed(sources, loc)
    &&& comments.contains_key(file) ==> is_readable(sources, comments[file], loc)
}

/// Of the comments `before`, those of the file of `loc` that come before it
/// are `taken`, from the first on, and the others are left as `after`.
pub open spec fn takes_before(
    sources: SourceTable,
    loc: SrcLoc,
    before: Map<FileId, Seq<Located<String>>>,
    after: Map<FileId, Seq<Located<String>>>,
    taken: Seq<String>,
) -> bool {
    let file = sources.spec_place(loc.fileid).unwrap();
    if before.contains_key(file) {
        let list = before[file];
        let n = count_before(sources, list, loc);
        &&& taken == Seq::new(n, |i: int| list[list.len() - 1 - i].kind)
        &&& after == before.insert(file, list.take(list.len() - n))
    } else {
        taken == Seq::<String>::empty() && after == before
    }
}

/// The next comment of the file of `loc`, if it begins on the line of `loc`.
pub open spec fn next_on_line(
    sources: SourceTable,
    comments: Map<FileId, Seq<Located<String>>>,
    loc: SrcLoc,
) -> Option<Located<String>> {
    let file = sources.spec_place(loc.fileid).unwrap();
    let list = comments[file];
    if comments.contains_key(file) && list.len() > 0 && list.last().loc.unwrap().begin_line
        == loc.line {
        Some(list.last())
    } else {
        None
    }
}

/// The comments without the next one of a file.
pub open spec fn without_next(
    comments: Map<FileId, Seq<Located<String>>>,
    file: FileId,
) -> Map<FileId, Seq<Located<String>>> {
    if comments.contains_key(file) && comments[file].len() > 0 {
        comments.insert(file, comments[file].drop_last())
    } else {
        comments
    }
}

/// The number of comments before a place is no larger than that of all.
proof fn lemma_count_before(sources: SourceTable, list: Seq<Located<String>>, loc: SrcLoc)
    ensures
        count_before(sources, list, loc) <= list.len(),
    decreases list.len(),
{
    if list.len() > 0 {
        lemma_count_before(sources, list.drop_last(), loc);
    }
}

/// A list of comments that all lie in one kept file can be read.
pub proof fn law_comments_of_a_file_are_readable(
    sources: SourceTable,
    list: Seq<Located<String>>,
    file: FileId,
    loc: SrcLoc,
)
    requires
        forall|i: int| 0 <= i < list.len() ==> is_in_file(sources, #[trigger] list[i], file),
    ensures
        is_readable(sources, list, loc),
    decreases list.len(),
{
    if list.len() > 0 {
        assert(is_in_file(sources, list[list.len() - 1], file));
        let rest = list.drop_last();
        assert forall|i: int| 0 <= i < rest.len() implies is_in_file(
            sources,
            #[trigger] rest[i],
            file,
        ) by {
            assert(rest[i] == list[i]);
        }
        law_comments_of_a_file_are_readable(sources, rest, file, loc);
    }
}

/// Once the comments before a place are gone, none is left at the end that
/// comes before it.
pub proof fn law_comments_are_handed_out_once(
    sources: SourceTable,
    list: Seq<Located<String>>,
    loc: SrcLoc,
)
    ensures
        count_before(sources, list, loc) <= list.len(),
        count_before(
            sources,
            list.take(list.len() - count_before(sources, list, loc)),
            loc,
        ) == 0,
    decreases list.len(),
{
    lemma_count_before(sources, list, loc);
    let n = count_before(sources, list, loc);
    if n > 0 {
        let rest = list.drop_last();
        lemma_count_before(sources, rest, loc);
        law_comments_are_handed_out_once(sources, rest, loc);
        assert(list.take(list.len() - n) =~= rest.take(rest.len() - (n - 1)));
    } else {
        assert(list.take(list.len() as int) =~= list);
    }
}

/// Keys in one kept file that are in order from neighbour to neighbour are so
/// throughout.
proof fn lemma_in_order_throughout(
    sources: SourceTable,
    keys: Seq<Option<SrcLoc>>,
    file: FileId,
    order: Seq<int>,
    i: int,
    j: int,
)
    requires
        forall|k: int|
            0 <= k < keys.len() ==> ((#[trigger] keys[k]) matches Some(loc) && sources.spec_place(
                loc.fileid,
            ) == Some(file)),
        is_reordering(order, keys.len()),
        is_in_order(sources, true, keys, order),
        0 <= i < j < order.len(),
    ensures
        may_precede(sources, true, keys, order[i], order[j]),
    decreases j - i,
{
    if i + 1 < j {
        lemma_in_order_throughout(sources, keys, file, order, i, j - 1);
        assert(may_precede(sources, true, keys, order[j - 1], order[j - 1 + 1]));
        let a = keys[order[i]].unwrap();
        let b = keys[order[j - 1]].unwrap();
        let c = keys[order[j]].unwrap();
        law_order_within_file(sources, b, a);
        law_order_within_file(sources, c, b);
        law_order_within_file(sources, c, a);
    } else {
        assert(may_precede(sources, true, keys, order[i], order[i + 1]));
    }
}

/// The comments lie in one kept file, and none begins before one that stands
/// after it in the list.
pub open spec fn is_sorted_back(
    sources: SourceTable,
    list: Seq<Located<String>>,
    file: FileId,
) -> bool {
    &&& forall|k: int| 0 <= k < list.len() ==> is_in_file(sources, #[trigger] list[k], file)
    &&& forall|k: int, m: int|
        0 <= k < m < list.len() ==> position_order(
            (#[trigger] list[m]).loc.unwrap().spec_begin(),
            (#[trigger] list[k]).loc.unwrap().spec_begin(),
        ) != SrcOrder::After
}

/// The comments of a kept file with the last one first are sorted back.
pub proof fn law_last_first_is_sorted_back(
    sources: SourceTable,
    given: Seq<Located<String>>,
    list: Seq<Located<String>>,
    file: FileId,
)
    requires
        forall|k: int| 0 <= k < given.len() ==> is_in_file(sources, #[trigger] given[k], file),
        is_last_first(sources, given, list),
    ensures
        is_sorted_back(sources, list, file),
{
    let order = choose|order: Seq<int>|
        {
            &&& #[trigger] is_reordering(order, given.len())
            &&& list == reordered(given, order)
            &&& forall|i: int, j: int|
                #![trigger order[i], order[j]]
                0 <= i < j < order.len() ==> may_precede(
                    sources,
                    true,
                    comment_places(given),
                    order[i],
                    order[j],
                )
        };
    assert forall|k: int| 0 <= k < list.len() implies is_in_file(
        sources,
        #[trigger] list[k],
        file,
    ) by {
        assert(list[k] == given[order[k]]);
    }
    assert forall|k: int, m: int| 0 <= k < m < list.len() implies position_order(
        (#[trigger] list[m]).loc.unwrap().spec_begin(),
        (#[trigger] list[k]).loc.unwrap().spec_begin(),
    ) != SrcOrder::After by {
        assert(list[k] == given[order[k]]);
        assert(list[m] == given[order[m]]);
        assert(is_in_file(sources, list[k], file));
        assert(is_in_file(sources, list[m], file));
        assert(may_precede(sources, true, comment_places(given), order[k], order[m]));
        law_order_within_file(
            sources,
            list[m].loc.unwrap().spec_begin(),
            list[k].loc.unwrap().spec_begin(),
        );
    }
}

/// What is left after some comments were taken out is still sorted back.
pub proof fn law_rest_is_sorted_back(
    sources: SourceTable,
    list: Seq<Located<String>>,
    file: FileId,
    n: int,
)
    requires
        is_sorted_back(sources, list, file),
        0 <= n <= list.len(),
    ensures
        is_sorted_back(sources, list.take(n), file),
{
    let rest = list.take(n);
    assert forall|k: int| 0 <= k < rest.len() implies is_in_file(
        sources,
        #[trigger] rest[k],
        file,
    ) by {
        assert(rest[k] == list[k]);
    }
    assert forall|k: int, m: int| 0 <= k < m < rest.len() implies position_order(
        (#[trigger] rest[m]).loc.unwrap().spec_begin(),
        (#[trigger] rest[k]).loc.unwrap().spec_begin(),
    ) != SrcOrder::After by {
        assert(rest[k] == list[k]);
        assert(rest[m] == list[m]);
    }
}

/// Of comments that are sorted back, those that are handed out are exactly
/// those before the given place of their file.
pub proof fn law_no_earlier_comment_is_left(
    sources: SourceTable,
    list: Seq<Located<String>>,
    file: FileId,
    loc: SrcLoc,
    i: int,
)
    requires
        is_sorted_back(sources, list, file),
        sources.spec_place(loc.fileid) == Some(file),
        0 <= i < list.len(),
    ensures
        position_order(list[i].loc.unwrap().spec_begin(), loc) == SrcOrder::Before <==> i
            >= list.len() - count_before(sources, list, loc),
    decreases list.len(),
{
    let last = list[list.len() - 1];
    assert(is_in_file(sources, last, file));
    law_order_within_file(sources, last.loc.unwrap().spec_begin(), loc);
    let rest = list.drop_last();
    lemma_count_before(sources, rest, loc);
    if i < rest.len() {
        assert(rest[i] == list[i]);
        assert(rest =~= list.take(list.len() - 1));
        law_rest_is_sorted_back(sources, list, file, list.len() - 1);
        law_no_earlier_comment_is_left(sources, rest, file, loc, i);
    }
}

/// An equal comment.
fn duplicate_comment(comment: &Located<String>) -> (r: Located<String>)
    ensures
        r == *comment,
{
    Located { loc: comment.loc, kind: comment.kind.clone() }
}

/// The comments of a kept file, with the last one first.
fn sort_last_first(
    sources: &SourceTable,
    given: &Vec<Located<String>>,
    Ghost(file): Ghost<FileId>,
) -> (r: Vec<Located<String>>)
    requires
        sources.wf(),
        forall|i: int| 0 <= i < given@.len() ==> is_in_file(*sources, #[trigger] given@[i], file),
    ensures
        is_last_first(*sources, given@, r@),
{
    let ghost places = comment_places(given@);
    let mut keys: Vec<Option<SrcLoc>> = Vec::new();
    let mut i: usize = 0;
    while i < given.len()
        invariant
            i <= given.len(),
            places == comment_places(given@),
            keys@ =~= places.take(i as int),
        decreases given.len() - i,
    {
        keys.push(given[i].begin_loc());
        i = i + 1;
    }
    proof {
        assert(keys@ =~= places);
        assert forall|k: int| 0 <= k < places.len() implies ((#[trigger] places[k]) matches Some(loc)
            && sources.spec_place(loc.fileid) == Some(file)) by {
            assert(is_in_file(*sources, given@[k], file));
        }
    }
    let order = sort_places(sources, true, &keys);
    let ghost ints = as_ints(order@);
    let mut r: Vec<Located<String>> = Vec::new();
    let mut i: usize = 0;
    while i < order.len()
        invariant
            i <= order.len(),
            ints == as_ints(order@),
            is_reordering(ints, given@.len()),
            r@ =~= reordered(given@, ints).take(i as int),
        decreases order.len() - i,
    {
        assert(ints[i as int] == order@[i as int]);
        r.push(duplicate_comment(&given[order[i]]));
        i = i + 1;
    }
    proof {
        assert(r@ =~= reordered(given@, ints));
        assert forall|i: int, j: int|
            #![trigger ints[i], ints[j]]
            0 <= i < j < ints.len() implies may_precede(
            *sources,
            true,
            places,
            ints[i],
            ints[j],
        ) by {
            lemma_in_order_throughout(*sources, places, file, ints, i, j);
        }
        assert(is_reordering(ints, given@.len()));
    }
    r
}

/// Adds one more comment to what is known of the comments of a file.
proof fn lemma_comments_push(
    sources: SourceTable,
    comments: Seq<Located<String>>,
    n: int,
    file: FileId,
)
    requires
        0 <= n < comments.len(),
    ensures
        comments_in(sources, comments.take(n + 1), file) == if is_in_file(
            sources,
            comments[n],
            file,
        ) {
            comments_in(sources, comments.take(n), file).push(comments[n])
        } else {
            comments_in(sources, comments.take(n), file)
        },
{
    reveal(Seq::filter);
    assert(comments.take(n + 1).drop_last() =~= comments.take(n));
}

impl CommentContext {
    /// The comments by file; the next one of each file is the last.
    pub closed spec fn comments(&self) -> Map<FileId, Seq<Located<String>>> {
        self.comments_by_file@.map_values(|list: Vec<Located<String>>| list@)
    }

    /// No comments.
    pub fn empty() -> (r: CommentContext)
        ensures
            r.comments() == Map::<FileId, Seq<Located<String>>>::empty(),
    {
        let r = CommentContext { comments_by_file: HashMap::new() };
        assert(r.comments() =~= Map::<FileId, Seq<Located<String>>>::empty());
        r
    }

    /// The comments of the context, by file. Comments without a location in a
    /// file that the front end read are left out: they are probably in
    /// definitions internal to the compiler.
    pub fn new(ast_context: &mut TypedAstContext) -> (r: CommentContext)
        requires
            old(ast_context).sources.wf(),
        ensures
            *final(ast_context) == *old(ast_context),
            forall|file: FileId| #[trigger]
                r.comments().contains_key(file) <==> comments_in(
                    old(ast_context).sources,
                    old(ast_context).comments@,
                    file,
                ).len() > 0,
            forall|file: FileId| #[trigger]
                r.comments().contains_key(file) ==> is_last_first(
                    old(ast_context).sources,
                    comments_in(old(ast_context).sources, old(ast_context).comments@, file),
                    r.comments()[file],
                ),
    {
        let ghost sources = ast_context.sources;
        let ghost all = ast_context.comments@;
        // The comments by file, and the files that have some.
        let mut by_file: HashMap<FileId, Vec<Located<String>>> = HashMap::new();
        let mut files: Vec<FileId> = Vec::new();
        let mut i: usize = 0;
        proof {
            reveal(Seq::filter);
        }
        while i < ast_context.comments.len()
            invariant
                i <= ast_context.comments.len(),
                *ast_context == *old(ast_context),
                sources == ast_context.sources,
                all == ast_context.comments@,
                forall|file: FileId| #[trigger]
                    by_file@.contains_key(file) <==> comments_in(
                        sources,
                        all.take(i as int),
                        file,
                    ).len() > 0,
                forall|file: FileId| #[trigger]
                    by_file@.contains_key(file) ==> by_file@[file]@ == comments_in(
                        sources,
                        all.take(i as int),
                        file,
                    ),
                files@.no_duplicates(),
                forall|file: FileId| #[trigger]
                    files@.contains(file) <==> by_file@.contains_key(file),
            decreases ast_context.comments.len() - i,
        {
            let comment = &ast_context.comments[i];
            let ghost before = by_file@;
            let ghost files_before = files@;
            proof {
                assert forall|file: FileId| #[trigger]
                    comments_in(sources, all.take(i + 1), file) == (if is_in_file(
                        sources,
                        *comment,
                        file,
                    ) {
                        comments_in(sources, all.take(i as int), file).push(*comment)
                    } else {
                        comments_in(sources, all.take(i as int), file)
                    }) by {
                    lemma_comments_push(sources, all, i as int, file);
                }
            }
            if let Some(file_id) = ast_context.file_id(comment) {
                match by_file.remove(&file_id) {
                    Some(mut list) => {
                        list.push(duplicate_comment(comment));
                        by_file.insert(file_id, list);
                    },
                    None => {
                        let mut list: Vec<Located<String>> = Vec::new();
                        list.push(duplicate_comment(comment));
                        by_file.insert(file_id, list);
                        files.push(file_id);
                        proof {
                            assert(!files_before.contains(file_id));
                            assert forall|file: FileId| #[trigger]
                                files@.contains(file) <==> files_before.contains(file) || file
                                    == file_id by {
                                assert(files@[files_before.len() as int] == file_id);
                                if files_before.contains(file) {
                                    let k = choose|k: int|
                                        0 <= k < files_before.len() && files_before[k] == file;
                                    assert(files@[k] == file);
                                }
                            }
                        }
                    },
                }
            }
            i = i + 1;
        }
        proof {
            assert(all.take(all.len() as int) =~= all);
            assert forall|j: int| 0 <= j < files@.len() implies by_file@.contains_key(
                #[trigger] files@[j],
            ) by {
                assert(files@.contains(files@[j]));
            }
        }
        let mut k: usize = 0;
        while k < files.len()
            invariant
                k <= files.len(),
                *ast_context == *old(ast_context),
                sources == ast_context.sources,
                sources.wf(),
                files@.no_duplicates(),
                forall|file: FileId| #[trigger]
                    files@.contains(file) <==> by_file@.contains_key(file),
                forall|file: FileId| #[trigger]
                    by_file@.contains_key(file) <==> comments_in(sources, all, file).len() > 0,
                forall|j: int|
                    0 <= j < k ==> is_last_first(
                        sources,
                        comments_in(sources, all, files@[j]),
                        by_file@[#[trigger] files@[j]]@,
                    ),
                forall|j: int|
                    k <= j < files@.len() ==> by_file@[#[trigger] files@[j]]@ == comments_in(
                        sources,
                        all,
                        files@[j],
                    ),
            decreases files.len() - k,
        {
            let file = files[k];
            let ghost before = by_file@;
            assert(files@.contains(file));
            let list = by_file.remove(&file).unwrap();
            proof {
                let in_file = |comment: Located<String>| is_in_file(sources, comment, file);
                assert forall|m: int| 0 <= m < list@.len() implies is_in_file(
                    sources,
                    #[trigger] list@[m],
                    file,
                ) by {
                    all.lemma_filter_pred(in_file, m);
                }
            }
            let sorted = sort_last_first(&ast_context.sources, &list, Ghost(file));
            by_file.insert(file, sorted);
            proof {
                assert(by_file@.dom() =~= before.dom());
                assert forall|j: int| 0 <= j < files@.len() && j != k implies by_file@[#[trigger] files@[j]]
                    == before[files@[j]] by {
                    assert(files@[j] != file);
                }
            }
            k = k + 1;
        }
        let r = CommentContext { comments_by_file: by_file };
        proof {
            assert forall|file: FileId| #[trigger]
                r.comments().contains_key(file) implies is_last_first(
                sources,
                comments_in(sources, all, file),
                r.comments()[file],
            ) by {
                assert(by_file@.contains_key(file));
                assert(files@.contains(file));
                let j = choose|j: int| 0 <= j < files@.len() && files@[j] == file;
                assert(files@[j] == file);
            }
            assert forall|file: FileId| #[trigger]
                r.comments().contains_key(file) <==> comments_in(sources, all, file).len() > 0 by {
                assert(r.comments().contains_key(file) == by_file@.contains_key(file));
            }
        }
        r
    }

    /// Takes out the comments that come before a place in its file, and hands
    /// them out from the first on.
    pub fn get_comments_before(&mut self, loc: SrcLoc, ctx: &TypedAstContext) -> (r: Vec<String>)
        requires
            ctx.sources.wf(),
            can_take_before(ctx.sources, loc, old(self).comments()),
        ensures
            takes_before(ctx.sources, loc, old(self).comments(), final(self).comments(), r@),
    {
        let file = ctx.sources.place(loc.fileid).unwrap();
        let mut extracted: Vec<String> = Vec::new();
        let mut list = match self.comments_by_file.remove(&file) {
            None => {
                assert(self.comments() =~= old(self).comments());
                return extracted;
            },
            Some(list) => list,
        };
        let ghost all = list@;
        assert(all == old(self).comments()[file]);
        proof {
            lemma_count_before(ctx.sources, all, loc);
            assert(all.take(all.len() as int) =~= all);
        }
        let mut done = false;
        while !done && list.len() > 0
            invariant
                ctx.sources.wf(),
                is_placed(ctx.sources, loc),
                list@.len() + extracted@.len() == all.len(),
                list@ == all.take(list@.len() as int),
                !done ==> is_readable(ctx.sources, list@, loc),
                done ==> count_before(ctx.sources, list@, loc) == 0,
                count_before(ctx.sources, all, loc) == extracted@.len() + count_before(
                    ctx.sources,
                    list@,
                    loc,
                ),
                extracted@ =~= Seq::new(
                    extracted@.len(),
                    |i: int| all[all.len() - 1 - i].kind,
                ),
            decreases list.len() + if done {
                0int
            } else {
                1int
            },
        {
            let next = list[list.len() - 1].begin_loc().unwrap();
            if let SrcOrder::Before = compare_places(&ctx.sources, &next, &loc) {
                let ghost before = list@;
                let comment = list.pop().unwrap();
                assert(list@ =~= before.drop_last());
                assert(list@ =~= all.take(list@.len() as int));
                extracted.push(comment.kind);
            } else {
                done = true;
            }
        }
        self.comments_by_file.insert(file, list);
        proof {
            let n = count_before(ctx.sources, all, loc);
            assert(extracted@ =~= Seq::new(n, |i: int| all[all.len() - 1 - i].kind));
            assert(self.comments() =~= old(self).comments().insert(
                file,
                all.take(all.len() - n),
            ));
        }
        extracted
    }

    /// Takes out the comments that come before a node; none for a node
    /// without a location.
    pub fn get_comments_before_located<T>(
        &mut self,
        located: &Located<T>,
        ctx: &TypedAstContext,
    ) -> (r: Vec<String>)
        requires
            ctx.sources.wf(),
            located.spec_begin_loc() matches Some(loc) ==> can_take_before(
                ctx.sources,
                loc,
                old(self).comments(),
            ),
        ensures
            match located.spec_begin_loc() {
                Some(loc) => takes_before(
                    ctx.sources,
                    loc,
                    old(self).comments(),
                    final(self).comments(),
                    r@,
                ),
                None => r@ == Seq::<String>::empty() && *final(self) == *old(self),
            },
    {
        match located.begin_loc() {
            None => Vec::new(),
            Some(loc) => self.get_comments_before(loc, ctx),
        }
    }

    /// The next comment of the file that a place is in, if it begins on the
    /// line of that place.
    pub fn peek_next_comment_on_line(&self, loc: SrcLoc, ctx: &TypedAstContext) -> (r: Option<
        Located<String>,
    >)
        requires
            is_placed(ctx.sources, loc),
            ({
                let file = ctx.sources.spec_place(loc.fileid).unwrap();
                self.comments().contains_key(file) && self.comments()[file].len() > 0
                    ==> self.comments()[file].last().loc is Some
            }),
        ensures
            r == next_on_line(ctx.sources, self.comments(), loc),
    {
        let file = ctx.sources.place(loc.fileid).unwrap();
        match self.comments_by_file.get(&file) {
            None => None,
            Some(list) => {
                assert(self.comments()[file] == list@);
                if list.len() == 0 {
                    return None;
                }
                let comment = &list[list.len() - 1];
                if comment.begin_loc().unwrap().line != loc.line {
                    None
                } else {
                    Some(duplicate_comment(comment))
                }
            },
        }
    }

    /// Moves on over the next comment of a file.
    pub fn advance_comment(&mut self, file: FileId)
        ensures
            final(self).comments() == without_next(old(self).comments(), file),
    {
        if let Some(mut list) = self.comments_by_file.remove(&file) {
            let _ = list.pop();
            self.comments_by_file.insert(file, list);
        }
        assert(self.comments() =~= without_next(old(self).comments(), file));
    }

    /// Takes out all that is left of a file, the last comment first.
    pub fn get_remaining_comments(&mut self, file_id: FileId) -> (r: Vec<String>)
        ensures
            r@ == (if old(self).comments().contains_key(file_id) {
                old(self).comments()[file_id].map_values(|comment: Located<String>| comment.kind)
            } else {
                Seq::empty()
            }),
            final(self).comments() == old(self).comments().remove(file_id),
    {
        let mut r: Vec<String> = Vec::new();
        match self.comments_by_file.remove(&file_id) {
            Some(list) => {
                let mut i: usize = 0;
                while i < list.len()
                    invariant
                        i <= list.len(),
                        r@ =~= list@.map_values(|comment: Located<String>| comment.kind).take(
                            i as int,
                        ),
                    decreases list.len() - i,
                {
                    r.push(list[i].kind.clone());
                    i = i + 1;
                }
                assert(r@ =~= list@.map_values(|comment: Located<String>| comment.kind));
            },
            None => {},
        }
        assert(self.comments() =~= old(self).comments().remove(file_id));
        r
    }
}

/// The list of a file holds exactly the comments that are located in it.
pub proof fn law_lists_hold_the_comments_of_the_file(
    sources: SourceTable,
    comments: Seq<Located<String>>,
    file: FileId,
    list: Seq<Located<String>>,
    comment: Located<String>,
)
    requires
        is_last_first(sources, comments_in(sources, comments, file), list),
    ensures
        list.len() == comments_in(sources, comments, file).len(),
        list.contains(comment) <==> comments_in(sources, comments, file).contains(comment),
        list.contains(comment) <==> {
            &&& comments.contains(comment)
            &&& comment.loc matches Some(span)
            &&& sources.spec_place(span.fileid) == Some(file)
        },
{
    let given = comments_in(sources, comments, file);
    let in_file = |c: Located<String>| is_in_file(sources, c, file);
    let order = choose|order: Seq<int>|
        {
            &&& #[trigger] is_reordering(order, given.len())
            &&& list == reordered(given, order)
            &&& forall|i: int, j: int|
                #![trigger order[i], order[j]]
                0 <= i < j < order.len() ==> may_precede(
                    sources,
                    true,
                    comment_places(given),
                    order[i],
                    order[j],
                )
        };
    lemma_filter_in_turn(comments, in_file, comment, comment);
    if list.contains(comment) {
        let k = choose|k: int| 0 <= k < list.len() && list[k] == comment;
        assert(given[order[k]] == comment);
    }
    if given.contains(comment) {
        let k = choose|k: int| 0 <= k < given.len() && given[k] == comment;
        law_reordering_lists_all(order, given.len(), k);
        let m = choose|m: int| 0 <= m < order.len() && order[m] == k;
        assert(list[m] == comment);
    }
}

/// In the list of a file a comment that begins later stands before one that
/// begins earlier, and of two that begin at one place the one that was given
/// first stands first.
pub proof fn law_later_comments_stand_first(
    sources: SourceTable,
    comments: Seq<Located<String>>,
    file: FileId,
    list: Seq<Located<String>>,
    i: int,
    j: int,
)
    requires
        is_last_first(sources, comments_in(sources, comments, file), list),
        0 <= i < j < list.len(),
    ensures
        list[i].loc matches Some(a) && list[j].loc matches Some(b) && {
            ||| b.begin_line < a.begin_line
            ||| b.begin_line == a.begin_line && b.begin_column < a.begin_column
            ||| b.begin_line == a.begin_line && b.begin_column == a.begin_column && in_turn(
                comments,
                list[i],
                list[j],
            )
        },
{
    let given = comments_in(sources, comments, file);
    let in_file = |c: Located<String>| is_in_file(sources, c, file);
    assert forall|k: int| 0 <= k < given.len() implies is_in_file(
        sources,
        #[trigger] given[k],
        file,
    ) by {
        comments.lemma_filter_pred(in_file, k);
    }
    let order = choose|order: Seq<int>|
        {
            &&& #[trigger] is_reordering(order, given.len())
            &&& list == reordered(given, order)
            &&& forall|i: int, j: int|
                #![trigger order[i], order[j]]
                0 <= i < j < order.len() ==> may_precede(
                    sources,
                    true,
                    comment_places(given),
                    order[i],
                    order[j],
                )
        };
    assert(list[i] == given[order[i]]);
    assert(list[j] == given[order[j]]);
    assert(is_in_file(sources, given[order[i]], file));
    assert(is_in_file(sources, given[order[j]], file));
    assert(may_precede(sources, true, comment_places(given), order[i], order[j]));
    let a = list[i].loc.unwrap().spec_begin();
    let b = list[j].loc.unwrap().spec_begin();
    law_order_within_file(sources, b, a);
    lemma_filter_in_turn(comments, in_file, list[i], list[j]);
    if order[i] < order[j] {
        assert(in_turn(given, given[order[i]], given[order[j]]));
    }
}

/// Taking the comments before a place out of a sorted list splits it: what is
/// taken begins before the place and comes out from the first on, what is left
/// does not begin before it, and the comments of other files are not touched.
pub proof fn law_taking_comments_splits_the_list(
    sources: SourceTable,
    loc: SrcLoc,
    before: Map<FileId, Seq<Located<String>>>,
    after: Map<FileId, Seq<Located<String>>>,
    taken: Seq<String>,
    file: FileId,
    other: FileId,
)
    requires
        takes_before(sources, loc, before, after, taken),
        sources.spec_place(loc.fileid) == Some(file),
        before.contains_key(file),
        is_sorted_back(sources, before[file], file),
        other != file,
    ensures
        after.contains_key(file),
        after[file].len() + taken.len() == before[file].len(),
        forall|i: int|
            0 <= i < after[file].len() ==> {
                &&& (#[trigger] after[file][i]) == before[file][i]
                &&& after[file][i].loc matches Some(span)
                &&& loc.line < span.begin_line || (loc.line == span.begin_line && loc.column
                    <= span.begin_column)
            },
        forall|i: int|
            0 <= i < taken.len() ==> {
                let comment = before[file][before[file].len() - 1 - i];
                &&& (#[trigger] taken[i]) == comment.kind
                &&& comment.loc matches Some(span)
                &&& span.begin_line < loc.line || (span.begin_line == loc.line && span.begin_column
                    < loc.column)
            },
        after.contains_key(other) <==> before.contains_key(other),
        before.contains_key(other) ==> after[other] == before[other],
{
    let list = before[file];
    let n = count_before(sources, list, loc);
    lemma_count_before(sources, list, loc);
    assert forall|i: int| 0 <= i < after[file].len() implies {
        &&& (#[trigger] after[file][i]) == before[file][i]
        &&& after[file][i].loc matches Some(span)
        &&& loc.line < span.begin_line || (loc.line == span.begin_line && loc.column
            <= span.begin_column)
    } by {
        assert(is_in_file(sources, list[i], file));
        law_no_earlier_comment_is_left(sources, list, file, loc, i);
    }
    assert forall|i: int| 0 <= i < taken.len() implies {
        let comment = before[file][before[file].len() - 1 - i];
        &&& (#[trigger] taken[i]) == comment.kind
        &&& comment.loc matches Some(span)
        &&& span.begin_line < loc.line || (span.begin_line == loc.line && span.begin_column
            < loc.column)
    } by {
        let k = list.len() - 1 - i;
        assert(is_in_file(sources, list[k], file));
        law_no_earlier_comment_is_left(sources, list, file, loc, k);
    }
}

/// A file without comments gives none, and nothing changes.
pub proof fn law_files_without_comments_give_none(
    sources: SourceTable,
    loc: SrcLoc,
    before: Map<FileId, Seq<Located<String>>>,
    after: Map<FileId, Seq<Located<String>>>,
    taken: Seq<String>,
)
    requires
        takes_before(sources, loc, before, after, taken),
        sources.spec_place(loc.fileid) matches Some(file) && !before.contains_key(file),
    ensures
        taken.len() == 0,
        after == before,
{
}

/// What is seen on a line is the next comment to come out of that file, and it
/// begins on that line; if nothing is seen the next one begins on another line,
/// or there is none.
pub proof fn law_what_is_seen_on_a_line(
    sources: SourceTable,
    comments: Map<FileId, Seq<Located<String>>>,
    loc: SrcLoc,
    file: FileId,
)
    requires
        sources.spec_place(loc.fileid) == Some(file),
        comments.contains_key(file) && comments[file].len() > 0
            ==> comments[file].last().loc is Some,
    ensures
        match next_on_line(sources, comments, loc) {
            Some(seen) => {
                &&& comments.contains_key(file)
                &&& without_next(comments, file)[file].push(seen) == comments[file]
                &&& seen.loc matches Some(span)
                &&& span.begin_line == loc.line
            },
            None => comments.contains_key(file) ==> forall|i: int|
                0 <= i < comments[file].len() && without_next(comments, file)[file].len() == i ==> {
                    &&& (#[trigger] comments[file][i]).loc matches Some(span)
                    &&& span.begin_line != loc.line
                },
        },
{
    if comments.contains_key(file) && comments[file].len() > 0 {
        let list = comments[file];
        assert(list.drop_last().push(list.last()) =~= list);
    }
}

/// Moving on over a comment takes the last one off the list of that file and
/// leaves the other files alone.
pub proof fn law_moving_on_takes_one_comment(
    comments: Map<FileId, Seq<Located<String>>>,
    file: FileId,
    other: FileId,
)
    ensures
        without_next(comments, file).contains_key(other) <==> comments.contains_key(other),
        other != file && comments.contains_key(other) ==> without_next(comments, file)[other]
            == comments[other],
        comments.contains_key(file) && comments[file].len() > 0 ==> without_next(
            comments,
            file,
        )[file].push(comments[file].last()) == comments[file],
        comments.contains_key(file) && comments[file].len() == 0 ==> without_next(
            comments,
            file,
        )[file].len() == 0,
{
    if comments.contains_key(file) && comments[file].len() > 0 {
        let list = comments[file];
        assert(list.drop_last().push(list.last()) =~= list);
    }
}

} // verus!
