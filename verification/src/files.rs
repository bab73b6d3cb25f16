//! The files of a translation unit: which of them are kept, and the chain of
//! places through which each one was pulled in.

use crate::chain::{chain_at, chain_len, lemma_chain_step, stops, Step};
use crate::ids::FileId;
use crate::paths::{paths_equal, same_path};
use crate::source::{SrcFile, SrcLoc};
use vstd::prelude::*;

verus! {

/// The text of a file's path, if the file has one.
pub open spec fn path_text(file: SrcFile) -> Option<Seq<char>> {
    match file.path {
        Some(path) => Some(path@),
        None => None,
    }
}

/// Whether two files count as one: their paths name the same file, or neither
/// has a path.
pub open spec fn same_optional_path(a: Option<Seq<char>>, b: Option<Seq<char>>) -> bool {
    match (a, b) {
        (None, None) => true,
        (Some(x), Some(y)) => same_path(x, y),
        _ => false,
    }
}

/// The first of `files` with the path `path` is the one at `i`.
pub open spec fn is_first_with_path(files: Seq<SrcFile>, path: Option<Seq<char>>, i: int) -> bool {
    &&& 0 <= i < files.len()
    &&& same_optional_path(path_text(files[i]), path)
    &&& forall|j: int| 0 <= j < i ==> !same_optional_path(path_text(#[trigger] files[j]), path)
}

/// None of `files` has the path `path`.
pub open spec fn none_with_path(files: Seq<SrcFile>, path: Option<Seq<char>>) -> bool {
    forall|j: int|
        0 <= j < files.len() ==> !same_optional_path(path_text(#[trigger] files[j]), path)
}

/// The files without those whose path an earlier one has.
pub open spec fn distinct_files(files: Seq<SrcFile>) -> Seq<SrcFile>
    decreases files.len(),
{
    if files.len() == 0 {
        Seq::empty()
    } else {
        let before = distinct_files(files.drop_last());
        if none_with_path(before, path_text(files.last())) {
            before.push(files.last())
        } else {
            before
        }
    }
}

/// From a file to the one that pulled it in, among the files of the front end.
pub open spec fn includer(all: Seq<SrcFile>) -> spec_fn(SrcFile) -> Step<SrcFile> {
    |file: SrcFile|
        match file.include_loc {
            None => Step::Stop,
            Some(loc) => if (loc.fileid as usize) < all.len() {
                Step::Next(all[loc.fileid as usize as int])
            } else {
                Step::Stuck
            },
        }
}

/// Where the files of the path of `file` are kept.
pub open spec fn kept_place(all: Seq<SrcFile>, file: SrcFile) -> int {
    choose|i: int| is_first_with_path(distinct_files(all), path_text(file), i)
}

/// The places through which `file` was pulled in, from the outermost one in.
/// Each carries the number of the kept file that is pulled in at that place.
pub open spec fn include_path(all: Seq<SrcFile>, file: SrcFile) -> Seq<SrcLoc> {
    let depth = chain_len(includer(all), file);
    Seq::new(
        depth,
        |i: int| include_step(all, chain_at(includer(all), file, (depth - 1 - i) as nat)),
    )
}

/// The place through which `file` was pulled in, with the number of `file`.
pub open spec fn include_step(all: Seq<SrcFile>, file: SrcFile) -> SrcLoc {
    let place = file.include_loc.unwrap();
    SrcLoc { fileid: kept_place(all, file) as u64, line: place.line, column: place.column }
}

proof fn lemma_kept_place(all: Seq<SrcFile>, file: SrcFile, i: int)
    requires
        is_first_with_path(distinct_files(all), path_text(file), i),
    ensures
        kept_place(all, file) == i,
{
    let j = kept_place(all, file);
    assert(is_first_with_path(distinct_files(all), path_text(file), j));
    if i < j {
        assert(!same_optional_path(path_text(distinct_files(all)[i]), path_text(file)));
    } else if j < i {
        assert(!same_optional_path(path_text(distinct_files(all)[j]), path_text(file)));
    }
}

/// A kept file is the first one with its path.
proof fn lemma_kept_is_first(all: Seq<SrcFile>, i: int)
    requires
        0 <= i < distinct_files(all).len(),
    ensures
        is_first_with_path(distinct_files(all), path_text(distinct_files(all)[i]), i),
{
    let files = distinct_files(all);
    assert forall|j: int| 0 <= j < i implies !same_optional_path(
        path_text(#[trigger] files[j]),
        path_text(files[i]),
    ) by {
        law_kept_files_are_distinct(all, j, i);
    }
}

spec fn str_text(path: Option<&str>) -> Option<Seq<char>> {
    match path {
        Some(p) => Some(p@),
        None => None,
    }
}

/// Finds the first file with the given path.
fn find_file(files: &Vec<SrcFile>, path: Option<&str>) -> (r: Option<usize>)
    ensures
        match r {
            Some(i) => is_first_with_path(files@, str_text(path), i as int),
            None => none_with_path(files@, str_text(path)),
        },
{
    let ghost wanted = str_text(path);
    let mut i: usize = 0;
    while i < files.len()
        invariant
            i <= files.len(),
            wanted == str_text(path),
            forall|j: int|
                0 <= j < i ==> !same_optional_path(path_text(#[trigger] files@[j]), wanted),
        decreases files.len() - i,
    {
        let same = match (&files[i].path, path) {
            (None, None) => true,
            (Some(x), Some(y)) => paths_equal(x.as_str(), y),
            _ => false,
        };
        assert(same == same_optional_path(path_text(files@[i as int]), wanted));
        if same {
            return Some(i);
        }
        i = i + 1;
    }
    None
}

/// Keeps the first file of each path, and tells where each file went.
fn keep_distinct(all: &[SrcFile]) -> (r: (Vec<SrcFile>, Vec<FileId>))
    ensures
        r.0@ == distinct_files(all@),
        r.1@.len() == all@.len(),
        forall|k: int|
            0 <= k < all@.len() ==> is_first_with_path(
                r.0@,
                path_text(all@[k]),
                #[trigger] r.1@[k] as int,
            ),
{
    let mut files: Vec<SrcFile> = Vec::new();
    let mut file_map: Vec<FileId> = Vec::new();
    let mut k: usize = 0;
    assert(all@.take(0) =~= Seq::empty());
    while k < all.len()
        invariant
            k <= all.len(),
            files@ == distinct_files(all@.take(k as int)),
            file_map@.len() == k,
            forall|j: int|
                0 <= j < k ==> is_first_with_path(
                    files@,
                    path_text(all@[j]),
                    #[trigger] file_map@[j] as int,
                ),
        decreases all.len() - k,
    {
        let file = &all[k];
        assert(all@.take(k + 1).drop_last() =~= all@.take(k as int));
        assert(all@.take(k + 1).last() == *file);
        let path = match &file.path {
            Some(p) => Some(p.as_str()),
            None => None,
        };
        let ghost before = files@;
        match find_file(&files, path) {
            Some(existing) => {
                assert(!none_with_path(files@, path_text(*file)));
                file_map.push(existing);
            },
            None => {
                file_map.push(files.len());
                files.push(file.duplicate());
                assert forall|j: int| 0 <= j < k implies is_first_with_path(
                    files@,
                    path_text(all@[j]),
                    #[trigger] file_map@[j] as int,
                ) by {
                    assert(is_first_with_path(before, path_text(all@[j]), file_map@[j] as int));
                }
                assert(is_first_with_path(files@, path_text(*file), before.len() as int));
            },
        }
        k = k + 1;
    }
    assert(all@.take(all@.len() as int) =~= all@);
    (files, file_map)
}

fn reversed(locs: Vec<SrcLoc>) -> (r: Vec<SrcLoc>)
    ensures
        r@ == locs@.reverse(),
{
    let mut r: Vec<SrcLoc> = Vec::new();
    let mut i: usize = locs.len();
    while i > 0
        invariant
            i <= locs.len(),
            r@.len() == locs.len() - i,
            forall|j: int| 0 <= j < r@.len() ==> r@[j] == locs@[locs@.len() - 1 - j],
        decreases i,
    {
        i = i - 1;
        r.push(locs[i]);
    }
    assert(r@ =~= locs@.reverse());
    r
}

/// The node `n` steps on is the one that the tail of the chain has one step
/// earlier.
proof fn lemma_chain_at_tail(all: Seq<SrcFile>, x: SrcFile, y: SrcFile, n: nat)
    requires
        includer(all)(x) == Step::Next(y),
    ensures
        chain_at(includer(all), x, n + 1) == chain_at(includer(all), y, n),
{
}

/// Follows the chain of places through which `file`, kept at `id`, was pulled
/// in.
fn follow_includes(all: &[SrcFile], file_map: &Vec<FileId>, file: &SrcFile, id: FileId) -> (r: Vec<
    SrcLoc,
>)
    requires
        stops(includer(all@), *file),
        file_map@.len() == all@.len(),
        forall|k: int|
            0 <= k < all@.len() ==> is_first_with_path(
                distinct_files(all@),
                path_text(all@[k]),
                #[trigger] file_map@[k] as int,
            ),
        is_first_with_path(distinct_files(all@), path_text(*file), id as int),
    ensures
        r@ == include_path(all@, *file),
{
    let ghost step = includer(all@);
    let ghost depth = chain_len(step, *file);
    let mut locs: Vec<SrcLoc> = Vec::new();
    let mut cur = file;
    let mut cur_id: FileId = id;
    proof {
        lemma_chain_step(step, *file);
    }
    let mut next = cur.include_loc;
    while next.is_some()
        invariant
            next == cur.include_loc,
            step == includer(all@),
            depth == chain_len(step, *file),
            stops(step, *cur),
            depth == locs@.len() + chain_len(step, *cur),
            file_map@.len() == all@.len(),
            forall|k: int|
                0 <= k < all@.len() ==> is_first_with_path(
                    distinct_files(all@),
                    path_text(all@[k]),
                    #[trigger] file_map@[k] as int,
                ),
            is_first_with_path(distinct_files(all@), path_text(*cur), cur_id as int),
            forall|n: nat|
                #[trigger] chain_at(step, *cur, n) == chain_at(step, *file, locs@.len() + n),
            forall|j: int|
                #![trigger locs@[j]]
                0 <= j < locs@.len() ==> locs@[j] == include_step(
                    all@,
                    chain_at(step, *file, j as nat),
                ),
        decreases chain_len(step, *cur),
    {
        let loc = next.unwrap();
        proof {
            lemma_chain_step(step, *cur);
            lemma_kept_place(all@, *cur, cur_id as int);
            assert(chain_at(step, *cur, 0) == *cur);
        }
        let ghost before = *cur;
        let ghost count = locs@.len();
        locs.push(SrcLoc { fileid: cur_id as u64, line: loc.line, column: loc.column });
        cur = &all[loc.fileid as usize];
        cur_id = file_map[loc.fileid as usize];
        next = cur.include_loc;
        proof {
            assert(step(before) == Step::Next(*cur));
            assert forall|n: nat| #[trigger] chain_at(step, *cur, n) == chain_at(
                step,
                *file,
                locs@.len() + n,
            ) by {
                lemma_chain_at_tail(all@, before, *cur, n);
                assert(chain_at(step, before, n + 1) == chain_at(step, *file, count + (n + 1)));
            }
        }
    }
    proof {
        lemma_chain_step(step, *cur);
    }
    let r = reversed(locs);
    assert(r@ =~= include_path(all@, *file));
    r
}

/// The files of a translation unit: one for each path, the place among them of
/// every file that the front end numbered, and the places through which each
/// was pulled in.
#[derive(Debug, Clone)]
pub struct SourceTable {
    files: Vec<SrcFile>,
    file_map: Vec<FileId>,
    include_map: Vec<Vec<SrcLoc>>,
}

impl SourceTable {
    /// The files that are kept.
    pub closed spec fn files(&self) -> Seq<SrcFile> {
        self.files@
    }

    /// Where each file of the front end is kept.
    pub closed spec fn file_map(&self) -> Seq<FileId> {
        self.file_map@
    }

    /// The places through which each kept file was pulled in.
    pub closed spec fn include_map(&self) -> Seq<Seq<SrcLoc>> {
        self.include_map@.map_values(|path: Vec<SrcLoc>| path@)
    }

    /// Every file number leads to a kept file, and each of those has its path
    /// of places.
    pub open spec fn wf(&self) -> bool {
        &&& self.include_map().len() == self.files().len()
        &&& forall|k: int|
            0 <= k < self.file_map().len() ==> (#[trigger] self.file_map()[k])
                < self.files().len()
    }

    /// The table is the one for the files `all` of the front end.
    pub open spec fn describes(&self, all: Seq<SrcFile>) -> bool {
        &&& self.wf()
        &&& self.files() == distinct_files(all)
        &&& self.file_map().len() == all.len()
        &&& forall|k: int|
            0 <= k < all.len() ==> is_first_with_path(
                self.files(),
                path_text(all[k]),
                #[trigger] self.file_map()[k] as int,
            )
        &&& self.include_map() == Seq::new(
            self.files().len(),
            |i: int| include_path(all, self.files()[i]),
        )
    }

    /// The table for the files that the front end read.
    pub fn new(all: &[SrcFile]) -> (r: SourceTable)
        requires
            forall|i: int|
                0 <= i < distinct_files(all@).len() ==> stops(
                    includer(all@),
                    #[trigger] distinct_files(all@)[i],
                ),
        ensures
            r.describes(all@),
    {
        let (files, file_map) = keep_distinct(all);
        let mut include_map: Vec<Vec<SrcLoc>> = Vec::new();
        let mut i: usize = 0;
        while i < files.len()
            invariant
                i <= files.len(),
                include_map@.len() == i,
                files@ == distinct_files(all@),
                forall|j: int|
                    0 <= j < distinct_files(all@).len() ==> stops(
                        includer(all@),
                        #[trigger] distinct_files(all@)[j],
                    ),
                forall|j: int|
                    0 <= j < i ==> (#[trigger] include_map@[j])@ == include_path(all@, files@[j]),
                file_map@.len() == all@.len(),
                forall|k: int|
                    0 <= k < all@.len() ==> is_first_with_path(
                        files@,
                        path_text(all@[k]),
                        #[trigger] file_map@[k] as int,
                    ),
            decreases files.len() - i,
        {
            assert(stops(includer(all@), distinct_files(all@)[i as int]));
            proof {
                lemma_kept_is_first(all@, i as int);
            }
            let path = follow_includes(all, &file_map, &files[i], i);
            include_map.push(path);
            i = i + 1;
        }
        let r = SourceTable { files, file_map, include_map };
        assert(r.include_map() =~= Seq::new(
            r.files().len(),
            |i: int| include_path(all@, r.files()[i]),
        ));
        r
    }

    /// The kept file at a place.
    pub fn file(&self, id: FileId) -> (r: &SrcFile)
        requires
            id < self.files().len(),
        ensures
            *r == self.files()[id as int],
    {
        &self.files[id]
    }

    /// The place of the first kept file with that path.
    pub fn find(&self, path: &str) -> (r: Option<FileId>)
        ensures
            match r {
                Some(i) => is_first_with_path(self.files(), Some(path@), i as int),
                None => none_with_path(self.files(), Some(path@)),
            },
    {
        find_file(&self.files, Some(path))
    }

    /// Where the file that the front end numbers `fileid` is kept, if there is
    /// such a file.
    pub open spec fn spec_place(&self, fileid: u64) -> Option<FileId> {
        if (fileid as usize) < self.file_map().len() {
            Some(self.file_map()[fileid as usize as int])
        } else {
            None
        }
    }

    #[verifier::when_used_as_spec(spec_place)]
    pub fn place(&self, fileid: u64) -> (r: Option<FileId>)
        ensures
            r == self.spec_place(fileid),
    {
        if (fileid as usize) < self.file_map.len() {
            Some(self.file_map[fileid as usize])
        } else {
            None
        }
    }

    /// The places through which a kept file was pulled in.
    pub fn includes(&self, id: FileId) -> (r: &Vec<SrcLoc>)
        requires
            id < self.include_map().len(),
        ensures
            r@ == self.include_map()[id as int],
    {
        &self.include_map[id]
    }
}

/// Of the files that are kept, no two have the same path.
pub proof fn law_kept_files_are_distinct(all: Seq<SrcFile>, i: int, j: int)
    requires
        0 <= i < j < distinct_files(all).len(),
    ensures
        !same_optional_path(path_text(distinct_files(all)[i]), path_text(distinct_files(all)[j])),
    decreases all.len(),
{
    let before = distinct_files(all.drop_last());
    if j < before.len() {
        law_kept_files_are_distinct(all.drop_last(), i, j);
    }
}

/// Looking a kept file up by its path gives that file.
pub proof fn law_kept_file_is_found(table: SourceTable, all: Seq<SrcFile>, i: int, found: int)
    requires
        table.describes(all),
        0 <= i < table.files().len(),
        path_text(table.files()[i]) is Some,
        is_first_with_path(table.files(), path_text(table.files()[i]), found),
    ensures
        found == i,
{
    if i < found {
        assert(!same_optional_path(
            path_text(table.files()[i]),
            path_text(table.files()[i]),
        ));
    } else if found < i {
        law_kept_files_are_distinct(all, found, i);
    }
}

proof fn lemma_chain_among(all: Seq<SrcFile>, file: SrcFile, n: nat)
    ensures
        chain_at(includer(all), file, n) == file || all.contains(
            chain_at(includer(all), file, n),
        ),
    decreases n,
{
    if n > 0 {
        if let Step::Next(next) = includer(all)(file) {
            assert(all.contains(next)) by {
                assert(all[file.include_loc.unwrap().fileid as usize as int] == next);
            }
            lemma_chain_among(all, next, (n - 1) as nat);
        }
    }
}

/// Each place on the path to a kept file carries the number of the kept file
/// with the path of the file that is pulled in there, and the last one the
/// number of the file itself.
pub proof fn law_places_carry_what_is_included(
    table: SourceTable,
    all: Seq<SrcFile>,
    id: FileId,
    i: int,
)
    requires
        table.describes(all),
        id < table.files().len(),
        0 <= i < table.include_map()[id as int].len(),
    ensures
        ({
            let path = table.include_map()[id as int];
            let included = chain_at(
                includer(all),
                table.files()[id as int],
                (path.len() - 1 - i) as nat,
            );
            &&& is_first_with_path(table.files(), path_text(included), path[i].fileid as int)
            &&& i == path.len() - 1 ==> path[i].fileid == id
        }),
{
    let file = table.files()[id as int];
    let n = (table.include_map()[id as int].len() - 1 - i) as nat;
    let included = chain_at(includer(all), file, n);
    lemma_kept_is_first(all, id as int);
    lemma_chain_among(all, file, n);
    if included == file {
        lemma_kept_place(all, included, id as int);
    } else {
        let k = choose|k: int| 0 <= k < all.len() && all[k] == included;
        lemma_kept_place(all, included, table.file_map()[k] as int);
    }
}

/// Where no two files that the front end read have the same path, places that
/// carry the same file are the same place: each file was pulled in at one.
pub proof fn law_files_are_included_once(
    table: SourceTable,
    all: Seq<SrcFile>,
    a: FileId,
    i: int,
    b: FileId,
    j: int,
)
    requires
        table.describes(all),
        distinct_files(all) == all,
        a < table.files().len(),
        b < table.files().len(),
        0 <= i < table.include_map()[a as int].len(),
        0 <= j < table.include_map()[b as int].len(),
        table.include_map()[a as int][i].fileid == table.include_map()[b as int][j].fileid,
    ensures
        table.include_map()[a as int][i] == table.include_map()[b as int][j],
{
    let n = table.include_map()[a as int][i].fileid as int;
    let included_a = lemma_included_among(table, all, a, i);
    let included_b = lemma_included_among(table, all, b, j);
    assert(included_a == all[n]);
    assert(included_b == all[n]);
}

/// Without repeated paths, the file that a place pulls in is the one whose
/// number the place carries.
proof fn lemma_included_among(
    table: SourceTable,
    all: Seq<SrcFile>,
    id: FileId,
    i: int,
) -> (included: SrcFile)
    requires
        table.describes(all),
        distinct_files(all) == all,
        id < table.files().len(),
        0 <= i < table.include_map()[id as int].len(),
    ensures
        table.include_map()[id as int][i] == include_step(all, included),
        table.include_map()[id as int][i].fileid < all.len(),
        included == all[table.include_map()[id as int][i].fileid as int],
{
    let path = table.include_map()[id as int];
    let file = table.files()[id as int];
    let n = (path.len() - 1 - i) as nat;
    let included = chain_at(includer(all), file, n);
    law_places_carry_what_is_included(table, all, id, i);
    lemma_chain_among(all, file, n);
    assert(all.contains(file)) by {
        assert(all[id as int] == file);
    }
    let k = choose|k: int| 0 <= k < all.len() && all[k] == included;
    lemma_kept_is_first(all, k);
    lemma_kept_place(all, included, k);
    lemma_kept_place(all, included, path[i].fileid as int);
    included
}

/// The way to a file: none if nothing pulled it in, else the way to the file
/// that did, and then the place in that file.
pub proof fn law_include_paths_go_through_the_includer(all: Seq<SrcFile>, file: SrcFile)
    requires
        stops(includer(all), file),
    ensures
        match file.include_loc {
            None => include_path(all, file) == Seq::<SrcLoc>::empty(),
            Some(loc) => {
                let parent = all[loc.fileid as usize as int];
                &&& (loc.fileid as usize) < all.len()
                &&& stops(includer(all), parent)
                &&& include_path(all, file).len() == include_path(all, parent).len() + 1
                &&& forall|i: int|
                    0 <= i < include_path(all, parent).len() ==> #[trigger] include_path(
                        all,
                        file,
                    )[i] == include_path(all, parent)[i]
                &&& include_path(all, file).last().line == loc.line
                &&& include_path(all, file).last().column == loc.column
            },
        },
{
    let step = includer(all);
    lemma_chain_step(step, file);
    if let Some(loc) = file.include_loc {
        let parent = all[loc.fileid as usize as int];
        let path = include_path(all, file);
        let rest = include_path(all, parent);
        assert forall|i: int| 0 <= i < rest.len() implies #[trigger] path[i] == rest[i] by {
            lemma_chain_at_tail(all, file, parent, (rest.len() - 1 - i) as nat);
        }
        assert(chain_at(step, file, 0) == file);
    } else {
        assert(include_path(all, file) =~= Seq::empty());
    }
}

/// Every path that a file has is kept, and what is kept is a file that was read.
pub proof fn law_kept_files_cover_all(all: Seq<SrcFile>, k: int)
    ensures
        0 <= k < all.len() ==> !none_with_path(distinct_files(all), path_text(all[k])),
        0 <= k < distinct_files(all).len() ==> all.contains(distinct_files(all)[k]),
    decreases all.len(),
{
    if all.len() > 0 {
        let rest = all.drop_last();
        let before = distinct_files(rest);
        law_kept_files_cover_all(rest, k);
        let files = distinct_files(all);
        if 0 <= k < all.len() {
            if k < rest.len() {
                assert(all[k] == rest[k]);
                let j = choose|j: int|
                    0 <= j < before.len() && same_optional_path(
                        path_text(#[trigger] before[j]),
                        path_text(all[k]),
                    );
                assert(files[j] == before[j]);
            } else if none_with_path(before, path_text(all.last())) {
                assert(files[before.len() as int] == all.last());
            }
        }
        if 0 <= k < files.len() {
            if k < before.len() {
                let i = choose|i: int| 0 <= i < rest.len() && rest[i] == before[k];
                assert(all[i] == before[k]);
            } else {
                assert(all[all.len() - 1] == files[k]);
            }
        }
    }
}

/// Two paths count as the same exactly if their components are; a file without
/// a path is the same as every other one without.
pub proof fn law_same_optional_paths(a: Option<Seq<char>>, b: Option<Seq<char>>)
    ensures
        same_optional_path(a, a),
        same_optional_path(a, b) == same_optional_path(b, a),
        a is None ==> (same_optional_path(a, b) <==> b is None),
        a matches Some(x) ==> b matches Some(y) ==> same_optional_path(a, b) == same_path(x, y),
{
}

/// The first file with a path is the one that is kept, and files that are read
/// later do not move those that are kept already.
pub proof fn law_first_file_of_a_path_is_kept(all: Seq<SrcFile>, k: int)
    requires
        0 <= k < all.len(),
    ensures
        none_with_path(all.take(k), path_text(all[k])) ==> ({
            let place = distinct_files(all.take(k)).len() as int;
            place < distinct_files(all).len() && distinct_files(all)[place] == all[k]
        }),
        distinct_files(all.take(k)).len() <= distinct_files(all).len(),
        forall|i: int|
            0 <= i < distinct_files(all.take(k)).len() ==> #[trigger] distinct_files(all)[i]
                == distinct_files(all.take(k))[i],
    decreases all.len() - k,
{
    let before = all.take(k);
    let next = all.take(k + 1);
    assert(next.drop_last() =~= before);
    assert(next.last() == all[k]);
    assert(none_with_path(before, path_text(all[k])) ==> none_with_path(
        distinct_files(before),
        path_text(all[k]),
    )) by {
        let kept = distinct_files(before);
        assert forall|j: int|
            0 <= j < kept.len() && none_with_path(before, path_text(all[k])) implies !same_optional_path(
            path_text(#[trigger] kept[j]),
            path_text(all[k]),
        ) by {
            law_kept_files_cover_all(before, j);
            let i = choose|i: int| 0 <= i < before.len() && before[i] == kept[j];
            assert(before[i] == kept[j]);
        }
    }
    if k + 1 < all.len() {
        law_first_file_of_a_path_is_kept(all, k + 1);
        assert forall|i: int| 0 <= i < distinct_files(before).len() implies #[trigger] distinct_files(
            all,
        )[i] == distinct_files(before)[i] by {
            assert(distinct_files(next)[i] == distinct_files(before)[i]);
            assert(distinct_files(all)[i] == distinct_files(next)[i]);
        }
        let place = distinct_files(before).len() as int;
        if none_with_path(before, path_text(all[k])) {
            assert(distinct_files(next)[place] == all[k]);
            assert(distinct_files(all)[place] == distinct_files(next)[place]);
        }
    } else {
        assert(next =~= all);
    }
}

} // verus!
