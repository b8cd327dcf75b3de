//! The search for file names: a walk over the directories below a root.
use super::args::{ignored_names, is_ignored_name};
use super::{SearchFileNamesRequest, SearchFileNamesResponse, MAX_FILE_NAMES};
use crate::ipc::IpcResult;
use crate::text::split::{replace_char, replaced, trim, trimmed, views};
use crate::text::{contains_text, has_text, lowercase, to_lowercase};
use vstd::prelude::*;

verus! {

/// What a directory holds under one name.
#[derive(Debug, Clone)]
pub struct DirEntry {
    /// The path of the entry.
    pub path: String,
    /// Its last component, where there is one and it is Unicode text.
    pub file_name: Option<String>,
    pub is_dir: bool,
}

/// The model of a [`DirEntry`].
pub struct EntryView {
    pub path: Seq<char>,
    pub file_name: Option<Seq<char>>,
    pub is_dir: bool,
}

impl View for DirEntry {
    type V = EntryView;

    open spec fn view(&self) -> EntryView {
        EntryView {
            path: self.path@,
            file_name: match self.file_name {
                Some(name) => Some(name@),
                None => None,
            },
            is_dir: self.is_dir,
        }
    }
}

/// The models of entries.
pub open spec fn entry_views(entries: Seq<DirEntry>) -> Seq<EntryView> {
    entries.map_values(|e: DirEntry| e@)
}

/// The entry has a name and the search looks at it.
pub open spec fn regarded(entry: EntryView) -> bool {
    entry.file_name is Some && !ignored_names().contains(entry.file_name->0)
}

/// The search goes down into the entry.
pub open spec fn descends(entry: EntryView) -> bool {
    regarded(entry) && entry.is_dir
}

/// The search reports the entry: `query` stands in `lower`, which is its name in lowercase.
pub open spec fn reports_as(entry: EntryView, lower: Seq<char>, query: Seq<char>) -> bool {
    regarded(entry) && !entry.is_dir && has_text(lower, query)
}

/// The search reports the entry: `query` stands in its name, whatever the case of the letters.
pub open spec fn reports(entry: EntryView, query: Seq<char>) -> bool {
    reports_as(entry, lowercase(entry.file_name->0), query)
}

/// Where a walk stands: the directories still to be read, the last one first, and the paths found.
pub struct WalkView {
    pub stack: Seq<Seq<char>>,
    pub files: Seq<Seq<char>>,
}

/// As many paths were found as are reported: the walk is over.
pub open spec fn is_full(walk: WalkView) -> bool {
    walk.files.len() >= MAX_FILE_NAMES
}

/// The walk after one entry of the directory that is being read, whose name in lowercase is `lower`.
pub open spec fn visit_as(
    walk: WalkView,
    entry: EntryView,
    lower: Seq<char>,
    query: Seq<char>,
) -> WalkView {
    if is_full(walk) {
        walk
    } else if descends(entry) {
        WalkView { stack: walk.stack.push(entry.path), files: walk.files }
    } else if reports_as(entry, lower, query) {
        WalkView { stack: walk.stack, files: walk.files.push(replaced(entry.path, '\\', '/')) }
    } else {
        walk
    }
}

/// The walk after one entry of the directory that is being read.
pub open spec fn visit(walk: WalkView, entry: EntryView, query: Seq<char>) -> WalkView {
    visit_as(walk, entry, lowercase(entry.file_name->0), query)
}

/// The walk after the entries of a directory, in their order.
pub open spec fn visit_all(walk: WalkView, entries: Seq<EntryView>, query: Seq<char>) -> WalkView
    decreases entries.len(),
{
    if entries.len() == 0 {
        walk
    } else {
        visit(visit_all(walk, entries.drop_last(), query), entries.last(), query)
    }
}

/// A walk over a whole tree: the next directory leaves the stack, and its entries are visited. The
/// contents are those of the directories in the order in which they are read; a directory that
/// cannot be read has none.
pub open spec fn walked(walk: WalkView, contents: Seq<Seq<EntryView>>, query: Seq<char>) -> WalkView
    decreases contents.len(),
{
    if contents.len() == 0 {
        walk
    } else {
        let before = walked(walk, contents.drop_last(), query);
        if is_full(before) || before.stack.len() == 0 {
            before
        } else {
            visit_all(
                WalkView { stack: before.stack.drop_last(), files: before.files },
                contents.last(),
                query,
            )
        }
    }
}

/// What a search for file names looks for: the query without white space around it, in lowercase.
pub open spec fn wanted(query: Seq<char>) -> Seq<char> {
    lowercase(trimmed(query))
}

/// A search for file names on its way.
pub struct FileNameSearch {
    query: String,
    stack: Vec<String>,
    files: Vec<String>,
}

impl View for FileNameSearch {
    type V = WalkView;

    closed spec fn view(&self) -> WalkView {
        WalkView { stack: views(self.stack@), files: views(self.files@) }
    }
}

/// What a search for file names asks for next.
pub enum FileNameStep {
    /// Read this directory and hand its entries on.
    Read(String),
    /// The walk is over, with this answer.
    Done(IpcResult<SearchFileNamesResponse>),
}

impl FileNameSearch {
    /// What the search looks for in the names.
    pub closed spec fn query(&self) -> Seq<char> {
        self.query@
    }

    /// Where a search for `wanted` begins: at the root, or nowhere if nothing is wanted.
    pub open spec fn begun(wanted: Seq<char>, root: Seq<char>) -> WalkView {
        WalkView {
            stack: if wanted.len() == 0 {
                Seq::empty()
            } else {
                seq![root]
            },
            files: Seq::empty(),
        }
    }

    /// Begins a search for a text that is in lowercase already. Nothing is looked for, and nothing
    /// found, where it is empty.
    pub fn for_lowercase(query: String, root_path: &str) -> (search: Self)
        ensures
            search.query() == query@,
            search@ == FileNameSearch::begun(query@, root_path@),
    {
        let mut stack: Vec<String> = Vec::new();
        if !query.as_str().is_empty() {
            stack.push(root_path.to_owned());
        }
        let search = FileNameSearch { query, stack, files: Vec::new() };
        assert(search@.stack =~= FileNameSearch::begun(query@, root_path@).stack);
        assert(search@.files =~= Seq::<Seq<char>>::empty());
        search
    }

    /// Begins a search.
    pub fn new(request: &SearchFileNamesRequest) -> (search: Self)
        ensures
            search.query() == wanted(request.query@),
            search@ == FileNameSearch::begun(wanted(request.query@), request.root_path@),
    {
        let trimmed_query = trim(request.query.as_str());
        FileNameSearch::for_lowercase(
            to_lowercase(trimmed_query.as_str()),
            request.root_path.as_str(),
        )
    }

    /// Which directory to read next; none where the walk is over.
    pub fn next_directory(&mut self) -> (dir: Option<String>)
        ensures
            final(self).query() == old(self).query(),
            final(self)@.files == old(self)@.files,
            if is_full(old(self)@) || old(self)@.stack.len() == 0 {
                dir is None && final(self)@ == old(self)@
            } else {
                &&& dir is Some
                &&& dir->0@ == old(self)@.stack.last()
                &&& final(self)@.stack == old(self)@.stack.drop_last()
            },
    {
        if self.files.len() >= MAX_FILE_NAMES {
            return None;
        }
        let dir = self.stack.pop();
        assert(old(self)@.stack.len() > 0 ==> views(self.stack@) =~= old(self)@.stack.drop_last());
        dir
    }

    /// Visits one entry of the directory that was read last, whose name in lowercase is `lower`.
    pub fn visit_entry_as(&mut self, entry: &DirEntry, lower: &str)
        ensures
            final(self).query() == old(self).query(),
            final(self)@ == visit_as(old(self)@, entry@, lower@, old(self).query()),
    {
        if self.files.len() >= MAX_FILE_NAMES {
            return ;
        }
        match &entry.file_name {
            None => {},
            Some(name) => {
                if is_ignored_name(name.as_str()) {
                    return ;
                }
                if entry.is_dir {
                    self.stack.push(entry.path.clone());
                    assert(views(self.stack@) =~= old(self)@.stack.push(entry.path@));
                    return ;
                }
                if contains_text(lower, self.query.as_str()) {
                    let shown = replace_char(entry.path.as_str(), '\\', '/');
                    let ghost path = shown@;
                    self.files.push(shown);
                    assert(views(self.files@) =~= old(self)@.files.push(path));
                }
            },
        }
    }

    fn visit_entry(&mut self, entry: &DirEntry)
        ensures
            final(self).query() == old(self).query(),
            final(self)@ == visit(old(self)@, entry@, old(self).query()),
    {
        match &entry.file_name {
            None => {},
            Some(name) => {
                let lower = to_lowercase(name.as_str());
                self.visit_entry_as(entry, lower.as_str());
            },
        }
    }

    /// Visits the entries of the directory that was read last, in their order. Entries behind the
    /// last one that is reported are not looked at.
    pub fn visit_entries(&mut self, entries: &Vec<DirEntry>)
        ensures
            final(self).query() == old(self).query(),
            final(self)@ == visit_all(old(self)@, entry_views(entries@), old(self).query()),
    {
        let ghost start = self@;
        let ghost all = entry_views(entries@);
        let mut i: usize = 0;
        while i < entries.len()
            invariant
                i <= entries@.len(),
                all == entry_views(entries@),
                self.query() == old(self).query(),
                self@ == visit_all(start, all.take(i as int), self.query()),
            decreases entries.len() - i,
        {
            let ghost now = all.take(i + 1);
            assert(now.drop_last() =~= all.take(i as int));
            assert(now.last() == entries@[i as int]@);
            self.visit_entry(&entries[i]);
            i += 1;
        }
        assert(all.take(i as int) =~= all);
    }

    /// The answer of the search.
    pub fn into_answer(self) -> (answer: IpcResult<SearchFileNamesResponse>)
        ensures
            answer.data is Some,
            answer.succeeds(answer.data->0),
            views(answer.data->0.files@) == self@.files,
            answer.data->0.truncated == is_full(self@),
    {
        let truncated = self.files.len() >= MAX_FILE_NAMES;
        IpcResult::success(SearchFileNamesResponse { files: self.files, truncated })
    }
}

/// Takes a search one step further: the entries of the directory that was read, none to begin with,
/// and then the next directory to read, or the answer.
pub fn search_file_names(search: FileNameSearch, entries: &Vec<DirEntry>) -> (step: (
    Option<FileNameSearch>,
    FileNameStep,
))
    ensures
        ({
            let after = visit_all(search@, entry_views(entries@), search.query());
            match step {
                (Some(next), FileNameStep::Read(dir)) => {
                    &&& !is_full(after) && after.stack.len() > 0
                    &&& dir@ == after.stack.last()
                    &&& next.query() == search.query()
                    &&& next@ == (WalkView { stack: after.stack.drop_last(), files: after.files })
                },
                (None, FileNameStep::Done(answer)) => {
                    &&& is_full(after) || after.stack.len() == 0
                    &&& answer.data is Some
                    &&& answer.succeeds(answer.data->0)
                    &&& views(answer.data->0.files@) == after.files
                    &&& answer.data->0.truncated == is_full(after)
                },
                _ => false,
            }
        }),
{
    let mut search = search;
    search.visit_entries(entries);
    match search.next_directory() {
        Some(dir) => (Some(search), FileNameStep::Read(dir)),
        None => (None, FileNameStep::Done(search.into_answer())),
    }
}

proof fn lemma_visit_all_bounded(walk: WalkView, entries: Seq<EntryView>, query: Seq<char>)
    requires
        walk.files.len() <= MAX_FILE_NAMES,
    ensures
        visit_all(walk, entries, query).files.len() <= MAX_FILE_NAMES,
    decreases entries.len(),
{
    if entries.len() > 0 {
        lemma_visit_all_bounded(walk, entries.drop_last(), query);
    }
}

/// A search reports no more file names than its limit, and is truncated exactly where it reports
/// that many.
pub proof fn law_file_names_limited(
    query: Seq<char>,
    root: Seq<char>,
    contents: Seq<Seq<EntryView>>,
)
    ensures
        ({
            let end = walked(FileNameSearch::begun(wanted(query), root), contents, wanted(query));
            &&& end.files.len() <= MAX_FILE_NAMES
            &&& is_full(end) <==> end.files.len() == MAX_FILE_NAMES
        }),
    decreases contents.len(),
{
    if contents.len() > 0 {
        let rest = contents.drop_last();
        law_file_names_limited(query, root, rest);
        let before = walked(FileNameSearch::begun(wanted(query), root), rest, wanted(query));
        if !is_full(before) && before.stack.len() > 0 {
            lemma_visit_all_bounded(
                WalkView { stack: before.stack.drop_last(), files: before.files },
                contents.last(),
                wanted(query),
            );
        }
    }
}

/// A path was found in a directory that was read.
pub open spec fn found_in(path: Seq<char>, entries: Seq<EntryView>, query: Seq<char>) -> bool {
    exists|i: int|
        #![trigger entries[i]]
        0 <= i < entries.len() && reports(entries[i], query) && path == replaced(
            entries[i].path,
            '\\',
            '/',
        )
}

/// A directory was come upon in one that was read.
pub open spec fn led_to(dir: Seq<char>, entries: Seq<EntryView>) -> bool {
    exists|i: int|
        #![trigger entries[i]]
        0 <= i < entries.len() && descends(entries[i]) && dir == entries[i].path
}

/// A directory adds to a walk only what it holds: the paths of entries whose name has the query in
/// it, and directories that are not ignored. What was there stays, in its place.
pub proof fn law_directory_adds_only_its_own(
    walk: WalkView,
    entries: Seq<EntryView>,
    query: Seq<char>,
)
    ensures
        ({
            let after = visit_all(walk, entries, query);
            &&& walk.files.is_prefix_of(after.files)
            &&& walk.stack.is_prefix_of(after.stack)
            &&& forall|i: int|
                #![trigger after.files[i]]
                walk.files.len() <= i < after.files.len() ==> found_in(
                    after.files[i],
                    entries,
                    query,
                )
            &&& forall|i: int|
                #![trigger after.stack[i]]
                walk.stack.len() <= i < after.stack.len() ==> led_to(after.stack[i], entries)
        }),
    decreases entries.len(),
{
    if entries.len() > 0 {
        let rest = entries.drop_last();
        law_directory_adds_only_its_own(walk, rest, query);
        let before = visit_all(walk, rest, query);
        let after = visit_all(walk, entries, query);
        assert forall|i: int|
            #![trigger after.files[i]]
            walk.files.len() <= i < after.files.len() implies found_in(
            after.files[i],
            entries,
            query,
        ) by {
            if i < before.files.len() {
                assert(found_in(before.files[i], rest, query));
                let k = choose|k: int|
                    #![trigger rest[k]]
                    0 <= k < rest.len() && reports(rest[k], query) && before.files[i] == replaced(
                        rest[k].path,
                        '\\',
                        '/',
                    );
                assert(entries[k] == rest[k]);
            } else {
                assert(entries[entries.len() - 1] == entries.last());
            }
        }
        assert forall|i: int|
            #![trigger after.stack[i]]
            walk.stack.len() <= i < after.stack.len() implies led_to(after.stack[i], entries) by {
            if i < before.stack.len() {
                assert(led_to(before.stack[i], rest));
                let k = choose|k: int|
                    #![trigger rest[k]]
                    0 <= k < rest.len() && descends(rest[k]) && before.stack[i] == rest[k].path;
                assert(entries[k] == rest[k]);
            } else {
                assert(entries[entries.len() - 1] == entries.last());
            }
        }
    }
}

/// While the walk is not full, no entry that is to be reported is left out, and no directory that
/// is to be read.
pub proof fn law_unfull_walk_is_complete(
    walk: WalkView,
    entries: Seq<EntryView>,
    query: Seq<char>,
)
    requires
        !is_full(visit_all(walk, entries, query)),
    ensures
        ({
            let after = visit_all(walk, entries, query);
            &&& forall|i: int|
                #![trigger entries[i]]
                0 <= i < entries.len() && reports(entries[i], query) ==> after.files.contains(
                    replaced(entries[i].path, '\\', '/'),
                )
            &&& forall|i: int|
                #![trigger entries[i]]
                0 <= i < entries.len() && descends(entries[i]) ==> after.stack.contains(
                    entries[i].path,
                )
        }),
    decreases entries.len(),
{
    if entries.len() > 0 {
        let rest = entries.drop_last();
        let before = visit_all(walk, rest, query);
        let after = visit_all(walk, entries, query);
        law_unfull_walk_is_complete(walk, rest, query);
        assert forall|i: int|
            #![trigger entries[i]]
            0 <= i < entries.len() && reports(entries[i], query) implies after.files.contains(
            replaced(entries[i].path, '\\', '/'),
        ) by {
            let path = replaced(entries[i].path, '\\', '/');
            if i < rest.len() {
                assert(rest[i] == entries[i]);
                let k = choose|k: int| 0 <= k < before.files.len() && before.files[k] == path;
                assert(after.files[k] == path);
            } else {
                assert(after.files[before.files.len() as int] == path);
            }
        }
        assert forall|i: int|
            #![trigger entries[i]]
            0 <= i < entries.len() && descends(entries[i]) implies after.stack.contains(
            entries[i].path,
        ) by {
            let path = entries[i].path;
            if i < rest.len() {
                assert(rest[i] == entries[i]);
                let k = choose|k: int| 0 <= k < before.stack.len() && before.stack[k] == path;
                assert(after.stack[k] == path);
            } else {
                assert(after.stack[before.stack.len() as int] == path);
            }
        }
    }
}

/// A path was found in one of the directories that were read.
pub open spec fn found_somewhere(
    path: Seq<char>,
    contents: Seq<Seq<EntryView>>,
    query: Seq<char>,
) -> bool {
    exists|k: int| 0 <= k < contents.len() && #[trigger] found_in(path, contents[k], query)
}

/// A search reports only what it found: every path in its answer is that of an entry of a directory
/// that was read, and the query stands in the name of the entry.
pub proof fn law_reported_files_were_found(
    query: Seq<char>,
    root: Seq<char>,
    contents: Seq<Seq<EntryView>>,
    i: int,
)
    requires
        0 <= i < walked(
            FileNameSearch::begun(wanted(query), root),
            contents,
            wanted(query),
        ).files.len(),
    ensures
        found_somewhere(
            walked(FileNameSearch::begun(wanted(query), root), contents, wanted(query)).files[i],
            contents,
            wanted(query),
        ),
    decreases contents.len(),
{
    let start = FileNameSearch::begun(wanted(query), root);
    let q = wanted(query);
    let end = walked(start, contents, q);
    if contents.len() > 0 {
        let rest = contents.drop_last();
        let before = walked(start, rest, q);
        if i < before.files.len() {
            law_reported_files_were_found(query, root, rest, i);
            let k = choose|k: int|
                0 <= k < rest.len() && #[trigger] found_in(before.files[i], rest[k], q);
            assert(contents[k] == rest[k]);
        }
        if !is_full(before) && before.stack.len() > 0 {
            let popped = WalkView { stack: before.stack.drop_last(), files: before.files };
            law_directory_adds_only_its_own(popped, contents.last(), q);
            if i >= before.files.len() {
                assert(found_in(end.files[i], contents[contents.len() - 1], q));
            } else {
                assert(end.files[i] == end.files.subrange(0, before.files.len() as int)[i]);
            }
        }
    }
}

/// All the directories of the list were read: none came when the walk was over.
pub open spec fn all_read(walk: WalkView, contents: Seq<Seq<EntryView>>, query: Seq<char>) -> bool
    decreases contents.len(),
{
    contents.len() == 0 || {
        let before = walked(walk, contents.drop_last(), query);
        &&& all_read(walk, contents.drop_last(), query)
        &&& !is_full(before)
        &&& before.stack.len() > 0
    }
}

/// A search that is not truncated leaves nothing out: the path of every entry that it read, and whose
/// name has the query in it, is in its answer.
pub proof fn law_untruncated_names_are_complete(
    query: Seq<char>,
    root: Seq<char>,
    contents: Seq<Seq<EntryView>>,
    k: int,
    i: int,
)
    requires
        all_read(FileNameSearch::begun(wanted(query), root), contents, wanted(query)),
        !is_full(walked(FileNameSearch::begun(wanted(query), root), contents, wanted(query))),
        0 <= k < contents.len(),
        0 <= i < contents[k].len(),
        reports(contents[k][i], wanted(query)),
    ensures
        walked(
            FileNameSearch::begun(wanted(query), root),
            contents,
            wanted(query),
        ).files.contains(replaced(contents[k][i].path, '\\', '/')),
    decreases contents.len(),
{
    let start = FileNameSearch::begun(wanted(query), root);
    let q = wanted(query);
    let rest = contents.drop_last();
    let before = walked(start, rest, q);
    let end = walked(start, contents, q);
    let popped = WalkView { stack: before.stack.drop_last(), files: before.files };
    law_directory_adds_only_its_own(popped, contents.last(), q);
    if k < rest.len() {
        assert(rest[k] == contents[k]);
        law_untruncated_names_are_complete(query, root, rest, k, i);
        let path = replaced(contents[k][i].path, '\\', '/');
        let j = choose|j: int| 0 <= j < before.files.len() && before.files[j] == path;
        assert(end.files[j] == end.files.subrange(0, before.files.len() as int)[j]);
        assert(end.files[j] == path);
    } else {
        law_unfull_walk_is_complete(popped, contents.last(), q);
    }
}

}
