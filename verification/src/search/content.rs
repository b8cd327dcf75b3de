//! Content search: which hits are reported, at once or in batches.
use crate::search::groups::{
    by_path, in_path_order, matches_at, total_matches, with_match, MatchGroups,
};
use crate::search::hits::{hit_of_line, line_hit, Hit, HitView};
use crate::search::{
    result_views, FileSearchMatch, FileSearchResponse, MatchView, SearchContentBatchEvent,
    SearchContentDoneEvent, BATCH_MATCHES, MAX_FILES_WITH_MATCHES, MAX_MATCHES_PER_FILE,
};
use crate::text::split::{lines, lines_of, views};
use vstd::prelude::*;

verus! {

// ---------------------------------------------------------------------------------------------
// What is reported of a sequence of hits
// ---------------------------------------------------------------------------------------------

/// What a search holds after some hits: the matches of each file, whether something was left out,
/// and whether the number of files is used up, so that nothing more is taken.
pub struct GroupingView {
    pub files: Map<Seq<char>, Seq<MatchView>>,
    pub truncated: bool,
    pub full: bool,
}

/// Before the first hit.
pub open spec fn no_hits() -> GroupingView {
    GroupingView { files: Map::empty(), truncated: false, full: false }
}

/// There is no room for the file of a hit.
pub open spec fn lacks_room(g: GroupingView, hit: HitView) -> bool {
    !g.files.contains_key(hit.file_path) && g.files.dom().len() >= MAX_FILES_WITH_MATCHES
}

/// A hit is reported: its file has room, and has not its full number of matches.
pub open spec fn keeps(g: GroupingView, hit: HitView) -> bool {
    &&& !g.full
    &&& !lacks_room(g, hit)
    &&& matches_at(g.files, hit.file_path).len() < MAX_MATCHES_PER_FILE
}

/// What a search holds after one more hit. A hit in a file for which there is no room ends the
/// search; one in a file that has its full number of matches is left out.
pub open spec fn absorb(g: GroupingView, hit: HitView) -> GroupingView {
    if g.full {
        g
    } else if lacks_room(g, hit) {
        GroupingView { truncated: true, full: true, ..g }
    } else if keeps(g, hit) {
        GroupingView { files: with_match(g.files, hit.file_path, hit.found), ..g }
    } else {
        GroupingView { truncated: true, ..g }
    }
}

/// What a search holds after the hits, in their order.
pub open spec fn grouping(hits: Seq<HitView>) -> GroupingView
    decreases hits.len(),
{
    if hits.len() == 0 {
        no_hits()
    } else {
        absorb(grouping(hits.drop_last()), hits.last())
    }
}

/// The hits that lines of output report.
pub open spec fn hits_in(output: Seq<Seq<char>>) -> Seq<HitView>
    decreases output.len(),
{
    if output.len() == 0 {
        Seq::empty()
    } else {
        match line_hit(output.last()) {
            Some(hit) => hits_in(output.drop_last()).push(hit),
            None => hits_in(output.drop_last()),
        }
    }
}

/// The matches of one file among the hits, in their order.
pub open spec fn matches_of(hits: Seq<HitView>, path: Seq<char>) -> Seq<MatchView>
    decreases hits.len(),
{
    if hits.len() == 0 {
        Seq::empty()
    } else if hits.last().file_path == path {
        matches_of(hits.drop_last(), path).push(hits.last().found)
    } else {
        matches_of(hits.drop_last(), path)
    }
}

/// The first `n` of a sequence; all of it where it is shorter.
pub open spec fn at_most(s: Seq<MatchView>, n: nat) -> Seq<MatchView> {
    if s.len() <= n {
        s
    } else {
        s.take(n as int)
    }
}

/// A search reports matches of at most 100 files, at least one and at most 30 of each.
pub proof fn law_grouping_limits(hits: Seq<HitView>)
    ensures
        grouping(hits).files.dom().finite(),
        grouping(hits).files.dom().len() <= MAX_FILES_WITH_MATCHES,
        forall|p: Seq<char>| #[trigger]
            grouping(hits).files.contains_key(p) ==> 1 <= grouping(hits).files[p].len()
                <= MAX_MATCHES_PER_FILE,
        grouping(hits).full ==> grouping(hits).truncated,
    decreases hits.len(),
{
    if hits.len() > 0 {
        law_grouping_limits(hits.drop_last());
    }
}

/// While the number of files is not used up, a search reports of every file exactly its first 30
/// matches, and says that something was left out exactly where a file has more.
pub proof fn law_first_matches_of_each_file(hits: Seq<HitView>)
    requires
        !grouping(hits).full,
    ensures
        forall|p: Seq<char>| #[trigger]
            matches_at(grouping(hits).files, p) == at_most(
                matches_of(hits, p),
                MAX_MATCHES_PER_FILE as nat,
            ),
        grouping(hits).truncated == exists|p: Seq<char>|
            (#[trigger] matches_of(hits, p)).len() > MAX_MATCHES_PER_FILE,
    decreases hits.len(),
{
    let g = grouping(hits);
    if hits.len() == 0 {
        assert forall|p: Seq<char>| #[trigger] matches_at(g.files, p) == at_most(
            matches_of(hits, p),
            MAX_MATCHES_PER_FILE as nat,
        ) by {
            assert(matches_of(hits, p) =~= Seq::<MatchView>::empty());
        }
    } else {
        let front = hits.drop_last();
        let hit = hits.last();
        let f = grouping(front);
        law_first_matches_of_each_file(front);
        assert forall|p: Seq<char>| #[trigger] matches_at(g.files, p) == at_most(
            matches_of(hits, p),
            MAX_MATCHES_PER_FILE as nat,
        ) by {
            let had = matches_of(front, p);
            assert(matches_at(f.files, p) == at_most(had, MAX_MATCHES_PER_FILE as nat));
            if p == hit.file_path {
                if keeps(f, hit) {
                    assert(matches_at(g.files, p) == had.push(hit.found));
                    assert(matches_of(hits, p) == had.push(hit.found));
                } else {
                    assert(had.push(hit.found).take(MAX_MATCHES_PER_FILE as int) =~= had.take(
                        MAX_MATCHES_PER_FILE as int,
                    ));
                    assert(had.take(had.len() as int) =~= had);
                }
            } else {
                assert(matches_at(g.files, p) == matches_at(f.files, p));
            }
        }
        let p = hit.file_path;
        let had = matches_of(front, p);
        assert(matches_at(f.files, p) == at_most(had, MAX_MATCHES_PER_FILE as nat));
        assert(matches_of(hits, p) == had.push(hit.found));
        if f.truncated {
            let q = choose|q: Seq<char>| (#[trigger] matches_of(front, q)).len() > MAX_MATCHES_PER_FILE;
            assert(matches_of(hits, q).len() > MAX_MATCHES_PER_FILE);
        } else {
            assert forall|q: Seq<char>| (#[trigger] matches_of(hits, q)).len()
                > MAX_MATCHES_PER_FILE implies g.truncated by {
                assert(matches_of(front, q).len() <= MAX_MATCHES_PER_FILE);
            }
            if g.truncated {
                assert(matches_of(hits, p).len() > MAX_MATCHES_PER_FILE);
            }
        }
    }
}

/// A search that says that nothing was left out reports every match of every file.
pub proof fn law_untruncated_is_complete(hits: Seq<HitView>)
    requires
        !grouping(hits).truncated,
    ensures
        forall|p: Seq<char>| #[trigger]
            matches_at(grouping(hits).files, p) == matches_of(hits, p),
{
    law_grouping_limits(hits);
    law_first_matches_of_each_file(hits);
    assert forall|p: Seq<char>| #[trigger] matches_at(grouping(hits).files, p) == matches_of(
        hits,
        p,
    ) by {
        assert(matches_of(hits, p).len() <= MAX_MATCHES_PER_FILE);
    }
}

/// What was reported stays reported: more hits only put matches behind those of a file.
pub proof fn law_reported_stays(hits: Seq<HitView>, more: Seq<HitView>, path: Seq<char>)
    ensures
        matches_at(grouping(hits).files, path).is_prefix_of(
            matches_at(grouping(hits + more).files, path),
        ),
        grouping(hits).truncated ==> grouping(hits + more).truncated,
    decreases more.len(),
{
    if more.len() == 0 {
        assert(hits + more =~= hits);
    } else {
        law_reported_stays(hits, more.drop_last(), path);
        assert((hits + more).drop_last() =~= hits + more.drop_last());
        assert((hits + more).last() == more.last());
    }
}

// ---------------------------------------------------------------------------------------------
// Taking hits
// ---------------------------------------------------------------------------------------------

/// What became of a hit.
#[derive(Debug, Clone, Copy, PartialEq, Eq, Structural)]
pub enum Absorbed {
    Kept,
    LeftOut,
    TooManyFiles,
}

/// The hits that a search has taken so far, grouped by file.
#[derive(Debug, Clone)]
pub struct Grouping {
    groups: MatchGroups,
    truncated: bool,
    full: bool,
}

impl View for Grouping {
    type V = GroupingView;

    closed spec fn view(&self) -> GroupingView {
        GroupingView { files: self.groups@, truncated: self.truncated, full: self.full }
    }
}

impl Grouping {
    /// The groups are well formed.
    pub closed spec fn wf(&self) -> bool {
        self.groups.wf()
    }

    /// No hits yet.
    pub fn new() -> (g: Self)
        ensures
            g.wf(),
            g@ == no_hits(),
    {
        Grouping { groups: MatchGroups::new(), truncated: false, full: false }
    }

    /// Was something left out?
    pub fn is_truncated(&self) -> (yes: bool)
        ensures
            yes == self@.truncated,
    {
        self.truncated
    }

    /// Is the number of files used up?
    pub fn is_full(&self) -> (yes: bool)
        ensures
            yes == self@.full,
    {
        self.full
    }

    /// Takes one more hit.
    pub fn absorb(&mut self, hit: Hit) -> (what: Absorbed)
        requires
            old(self).wf(),
        ensures
            final(self).wf(),
            final(self)@ == absorb(old(self)@, hit@),
            what == Absorbed::Kept <==> keeps(old(self)@, hit@),
            what == Absorbed::TooManyFiles <==> final(self)@.full,
    {
        if self.full {
            return Absorbed::TooManyFiles;
        }
        match self.groups.count(hit.file_path.as_str()) {
            Some(n) => {
                if n >= MAX_MATCHES_PER_FILE {
                    self.truncated = true;
                    return Absorbed::LeftOut;
                }
            },
            None => {
                if self.groups.len() >= MAX_FILES_WITH_MATCHES {
                    self.truncated = true;
                    self.full = true;
                    return Absorbed::TooManyFiles;
                }
            },
        }
        self.groups.add_match(hit);
        Absorbed::Kept
    }

    /// The answer that the hits taken so far make.
    pub fn into_response(self) -> (response: FileSearchResponse)
        requires
            self.wf(),
        ensures
            in_path_order(result_views(response.results@)),
            by_path(result_views(response.results@)) == self@.files,
            response.truncated == self@.truncated,
            response.scanned_files == 0,
            response.failed_files == 0,
    {
        FileSearchResponse {
            results: self.groups.into_results(),
            truncated: self.truncated,
            scanned_files: 0,
            failed_files: 0,
        }
    }
}

proof fn lemma_full_absorbs_nothing(output: Seq<Seq<char>>, n: int)
    requires
        0 <= n <= output.len(),
        grouping(hits_in(output.take(n))).full,
    ensures
        grouping(hits_in(output)) == grouping(hits_in(output.take(n))),
    decreases output.len(),
{
    if n == output.len() {
        assert(output.take(n) =~= output);
    } else {
        let front = output.drop_last();
        assert(front.take(n) =~= output.take(n));
        lemma_full_absorbs_nothing(front, n);
        match line_hit(output.last()) {
            Some(hit) => {
                assert(hits_in(output) == hits_in(front).push(hit));
                assert(hits_in(front).push(hit).drop_last() =~= hits_in(front));
            },
            None => {},
        }
    }
}

/// The answer to a content search whose output is known.
pub open spec fn answers_output(response: FileSearchResponse, output: Seq<Seq<char>>) -> bool {
    &&& in_path_order(result_views(response.results@))
    &&& by_path(result_views(response.results@)) == grouping(hits_in(output)).files
    &&& response.truncated == grouping(hits_in(output)).truncated
    &&& response.scanned_files == 0
    &&& response.failed_files == 0
}

/// Reads the whole output of ripgrep and answers the search.
pub fn group_output(output: &str) -> (response: FileSearchResponse)
    ensures
        answers_output(response, lines_of(output@)),
{
    let parts = lines(output);
    let ghost all = lines_of(output@);
    let mut state = Grouping::new();
    let mut i: usize = 0;
    assert(all.take(0) =~= Seq::<Seq<char>>::empty());
    while i < parts.len() && !state.is_full()
        invariant
            i <= parts@.len(),
            views(parts@) == all,
            state.wf(),
            state@ == grouping(hits_in(all.take(i as int))),
        decreases parts.len() - i,
    {
        let ghost done = all.take(i as int);
        let ghost now = all.take(i + 1);
        assert(now.drop_last() =~= done);
        assert(now.last() == parts@[i as int]@);
        match hit_of_line(parts[i].as_str()) {
            Some(hit) => {
                assert(hits_in(now) == hits_in(done).push(hit@));
                assert(hits_in(done).push(hit@).drop_last() =~= hits_in(done));
                state.absorb(hit);
            },
            None => {},
        }
        i += 1;
    }
    proof {
        if i == parts.len() {
            assert(all.take(i as int) =~= all);
        } else {
            lemma_full_absorbs_nothing(all, i as int);
        }
    }
    state.into_response()
}

// ---------------------------------------------------------------------------------------------
// Batches
// ---------------------------------------------------------------------------------------------

/// A search that reports in batches: what it holds, the matches that wait for the next batch, and
/// how many these are.
pub struct StreamView {
    pub grouping: GroupingView,
    pub pending: Map<Seq<char>, Seq<MatchView>>,
    pub waiting: nat,
}

/// The matches of a batch, and whether something was left out until then.
pub struct BatchView {
    pub files: Map<Seq<char>, Seq<MatchView>>,
    pub truncated: bool,
}

/// A search that has not begun.
pub open spec fn idle_stream() -> StreamView {
    StreamView { grouping: no_hits(), pending: Map::empty(), waiting: 0 }
}

/// One more hit: where it is reported it waits for a batch, which is sent with the 25th that waits.
pub open spec fn stream_step(s: StreamView, hit: HitView) -> (StreamView, Option<BatchView>) {
    let g = absorb(s.grouping, hit);
    if !keeps(s.grouping, hit) {
        (StreamView { grouping: g, ..s }, None)
    } else {
        let pending = with_match(s.pending, hit.file_path, hit.found);
        if s.waiting + 1 >= BATCH_MATCHES {
            (
                StreamView { grouping: g, pending: Map::empty(), waiting: 0 },
                Some(BatchView { files: pending, truncated: g.truncated }),
            )
        } else {
            (StreamView { grouping: g, pending, waiting: s.waiting + 1 }, None)
        }
    }
}

/// The last batch: what waits when the output ends, if anything does.
pub open spec fn last_batch(s: StreamView) -> Option<BatchView> {
    if s.pending == Map::<Seq<char>, Seq<MatchView>>::empty() {
        None
    } else {
        Some(BatchView { files: s.pending, truncated: s.grouping.truncated })
    }
}

/// The search after the hits, and the batches sent until then.
pub open spec fn streamed(hits: Seq<HitView>) -> (StreamView, Seq<BatchView>)
    decreases hits.len(),
{
    if hits.len() == 0 {
        (idle_stream(), Seq::empty())
    } else {
        let (s, sent) = streamed(hits.drop_last());
        let (next, batch) = stream_step(s, hits.last());
        match batch {
            Some(b) => (next, sent.push(b)),
            None => (next, sent),
        }
    }
}

/// All batches that the hits lead to, the last one with the end of the output.
pub open spec fn all_batches(hits: Seq<HitView>) -> Seq<BatchView> {
    let (s, sent) = streamed(hits);
    match last_batch(s) {
        Some(b) => sent.push(b),
        None => sent,
    }
}

/// The matches that batches report of one file, in their order.
pub open spec fn batched(batches: Seq<BatchView>, path: Seq<char>) -> Seq<MatchView>
    decreases batches.len(),
{
    if batches.len() == 0 {
        Seq::empty()
    } else {
        batched(batches.drop_last(), path) + matches_at(batches.last().files, path)
    }
}

proof fn lemma_streamed(hits: Seq<HitView>, path: Seq<char>)
    ensures
        streamed(hits).0.grouping == grouping(hits),
        streamed(hits).0.waiting < BATCH_MATCHES,
        batched(streamed(hits).1, path) + matches_at(streamed(hits).0.pending, path) == matches_at(
            grouping(hits).files,
            path,
        ),
    decreases hits.len(),
{
    if hits.len() == 0 {
        assert(batched(streamed(hits).1, path) + matches_at(streamed(hits).0.pending, path)
            =~= Seq::<MatchView>::empty());
    } else {
        let front = hits.drop_last();
        let hit = hits.last();
        lemma_streamed(front, path);
        let (s, sent) = streamed(front);
        let (next, batch) = stream_step(s, hit);
        let with = matches_at(with_match(s.pending, hit.file_path, hit.found), path);
        if keeps(s.grouping, hit) {
            if path == hit.file_path {
                assert(batched(sent, path) + with =~= (batched(sent, path) + matches_at(
                    s.pending,
                    path,
                )).push(hit.found));
            } else {
                assert(with == matches_at(s.pending, path));
            }
            match batch {
                Some(b) => {
                    assert(sent.push(b).drop_last() =~= sent);
                    assert(batched(sent.push(b), path) == batched(sent, path) + with);
                    assert(matches_at(next.pending, path) =~= Seq::<MatchView>::empty());
                    assert(batched(sent.push(b), path) + matches_at(next.pending, path)
                        =~= batched(sent, path) + with);
                },
                None => {},
            }
        }
    }
}

/// The batches of a search report, put together, exactly what the same search reports at once.
pub proof fn law_batches_report_the_grouping(hits: Seq<HitView>, path: Seq<char>)
    ensures
        batched(all_batches(hits), path) == matches_at(grouping(hits).files, path),
{
    lemma_streamed(hits, path);
    let (s, sent) = streamed(hits);
    match last_batch(s) {
        Some(b) => {
            assert(sent.push(b).drop_last() =~= sent);
        },
        None => {
            assert(batched(sent, path) + matches_at(s.pending, path) =~= batched(sent, path));
        },
    }
}

fn copy_hit(hit: &Hit) -> (copy: Hit)
    ensures
        copy@ == hit@,
{
    Hit {
        file_path: hit.file_path.clone(),
        found: FileSearchMatch {
            line_number: hit.found.line_number,
            line_text: hit.found.line_text.clone(),
        },
    }
}

/// The event shows the batch of a search.
pub open spec fn shows_batch(event: SearchContentBatchEvent, id: Seq<char>, batch: BatchView) -> bool {
    &&& event.search_id@ == id
    &&& in_path_order(result_views(event.results@))
    &&& by_path(result_views(event.results@)) == batch.files
    &&& event.truncated == batch.truncated
}

/// A content search that reports in batches.
#[derive(Debug, Clone)]
pub struct ContentStream {
    search_id: String,
    grouping: Grouping,
    pending: MatchGroups,
}

impl View for ContentStream {
    type V = StreamView;

    closed spec fn view(&self) -> StreamView {
        StreamView {
            grouping: self.grouping@,
            pending: self.pending@,
            waiting: self.pending.total(),
        }
    }
}

impl ContentStream {
    /// The groups are well formed, and fewer matches wait than make a batch.
    pub closed spec fn wf(&self) -> bool {
        self.grouping.wf() && self.pending.wf() && self.pending.total() < BATCH_MATCHES
    }

    /// The search that the events speak of.
    pub closed spec fn id(&self) -> Seq<char> {
        self.search_id@
    }

    /// A search that has not begun.
    pub fn new(search_id: &str) -> (stream: Self)
        ensures
            stream.wf(),
            stream.id() == search_id@,
            stream@ == idle_stream(),
    {
        ContentStream {
            search_id: search_id.to_owned(),
            grouping: Grouping::new(),
            pending: MatchGroups::new(),
        }
    }

    /// Is there nothing more to take? The output need not be read on.
    pub fn is_full(&self) -> (yes: bool)
        ensures
            yes == self@.grouping.full,
    {
        self.grouping.is_full()
    }

    /// Takes one more hit, and gives back the batch that it completes. A batch holds 25 matches.
    pub fn accept_hit(&mut self, hit: Hit) -> (event: Option<SearchContentBatchEvent>)
        requires
            old(self).wf(),
        ensures
            final(self).wf(),
            final(self).id() == old(self).id(),
            final(self)@ == stream_step(old(self)@, hit@).0,
            match (event, stream_step(old(self)@, hit@).1) {
                (Some(e), Some(batch)) => {
                    &&& shows_batch(e, old(self).id(), batch)
                    &&& total_matches(result_views(e.results@)) == BATCH_MATCHES
                },
                (None, None) => true,
                _ => false,
            },
    {
        let copy = copy_hit(&hit);
        match self.grouping.absorb(hit) {
            Absorbed::Kept => {},
            _ => return None,
        }
        self.pending.add_match(copy);
        if self.pending.count_all() < BATCH_MATCHES {
            return None;
        }
        let mut pending = MatchGroups::new();
        std::mem::swap(&mut pending, &mut self.pending);
        Some(
            SearchContentBatchEvent {
                search_id: self.search_id.clone(),
                results: pending.into_results(),
                truncated: self.grouping.is_truncated(),
            },
        )
    }

    /// Takes one more line of output, and gives back the batch that it completes. A line that
    /// reports no hit changes nothing.
    pub fn accept_line(&mut self, line: &str) -> (event: Option<SearchContentBatchEvent>)
        requires
            old(self).wf(),
        ensures
            final(self).wf(),
            final(self).id() == old(self).id(),
            match line_hit(line@) {
                Some(hit) => {
                    &&& final(self)@ == stream_step(old(self)@, hit).0
                    &&& match (event, stream_step(old(self)@, hit).1) {
                        (Some(e), Some(batch)) => {
                            &&& shows_batch(e, old(self).id(), batch)
                            &&& total_matches(result_views(e.results@)) == BATCH_MATCHES
                        },
                        (None, None) => true,
                        _ => false,
                    }
                },
                None => final(self)@ == old(self)@ && event is None,
            },
    {
        match hit_of_line(line) {
            Some(hit) => self.accept_hit(hit),
            None => None,
        }
    }

    /// The output has ended: the last batch, if anything waits for one, and the event that says
    /// that the search is done.
    pub fn finish(self) -> (events: (Option<SearchContentBatchEvent>, SearchContentDoneEvent))
        requires
            self.wf(),
        ensures
            match (events.0, last_batch(self@)) {
                (Some(e), Some(batch)) => {
                    &&& shows_batch(e, self.id(), batch)
                    &&& total_matches(result_views(e.results@)) == self@.waiting
                },
                (None, None) => true,
                _ => false,
            },
            events.1.search_id@ == self.id(),
            events.1.truncated == self@.grouping.truncated,
            events.1.scanned_files == 0,
            events.1.failed_files == 0,
            events.1.error is None,
    {
        let truncated = self.grouping.is_truncated();
        let last = if self.pending.is_empty() {
            None
        } else {
            Some(
                SearchContentBatchEvent {
                    search_id: self.search_id.clone(),
                    results: self.pending.into_results(),
                    truncated,
                },
            )
        };
        let done = SearchContentDoneEvent {
            search_id: self.search_id,
            truncated,
            scanned_files: 0,
            failed_files: 0,
            error: None,
        };
        (last, done)
    }
}

}
