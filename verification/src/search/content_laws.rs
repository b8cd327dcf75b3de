//! What a content search reports of the hits in its output, at once or in batches.
use super::content::{
    absorb, at_most, group_output, grouping, hits_in, keeps, law_first_matches_of_each_file,
    law_grouping_limits, matches_of, stream_step, Absorbed, ContentStream, Grouping,
};
use super::commands::{search_content, RgRun};
use super::groups::{
    by_path, in_path_order, law_results_are_determined, lemma_by_path, matches_at, total_matches,
};
use super::hits::{line_hit, Hit, HitView};
use super::{
    match_views, result_views, FileSearchResponse, FileSearchResult, MatchView, ResultView,
    SearchContentBatchEvent, SearchContentDoneEvent,
};
use crate::ipc::IpcResult;
use crate::text::order::before;
use crate::text::split::lines_of;
use crate::text::utf8_lossy;
use vstd::prelude::*;

verus! {

/// The lines of output are read in their order: each adds its hit, if it is one, behind those of the
/// lines before it, and nothing else.
pub proof fn law_hits_follow_the_lines(front: Seq<Seq<char>>, line: Seq<char>)
    ensures
        hits_in(Seq::empty()).len() == 0,
        hits_in(front.push(line)) == match line_hit(line) {
            Some(hit) => hits_in(front).push(hit),
            None => hits_in(front),
        },
{
    assert(front.push(line).drop_last() =~= front);
}

/// The matches of the hits in one file, in their order.
pub open spec fn found_in_file(hits: Seq<HitView>, path: Seq<char>) -> Seq<MatchView> {
    hits.filter(|h: HitView| h.file_path == path).map_values(|h: HitView| h.found)
}

proof fn lemma_matches_of(hits: Seq<HitView>, path: Seq<char>)
    ensures
        matches_of(hits, path) == found_in_file(hits, path),
    decreases hits.len(),
{
    let here = |h: HitView| h.file_path == path;
    let found = |h: HitView| h.found;
    reveal(Seq::filter);
    if hits.len() > 0 {
        let rest = hits.drop_last();
        lemma_matches_of(rest, path);
        assert(hits == rest.push(hits.last()));
        if here(hits.last()) {
            assert(hits.filter(here) =~= rest.filter(here).push(hits.last()));
            assert(rest.filter(here).push(hits.last()).map_values(found) =~= rest.filter(
                here,
            ).map_values(found).push(hits.last().found));
        } else {
            assert(hits.filter(here) =~= rest.filter(here));
        }
    } else {
        assert(found_in_file(hits, path) =~= Seq::empty());
    }
}

/// The files that the hits are in.
pub open spec fn files_of(hits: Seq<HitView>) -> Set<Seq<char>> {
    hits.map_values(|h: HitView| h.file_path).to_set()
}

proof fn lemma_files_of_push(hits: Seq<HitView>)
    requires
        hits.len() > 0,
    ensures
        files_of(hits) == files_of(hits.drop_last()).insert(hits.last().file_path),
        files_of(hits).finite(),
{
    let rest = hits.drop_last();
    let all = hits.map_values(|h: HitView| h.file_path);
    let front = rest.map_values(|h: HitView| h.file_path);
    assert(all =~= front.push(hits.last().file_path));
    assert forall|p: Seq<char>| files_of(hits).contains(p) <==> files_of(rest).insert(
        hits.last().file_path,
    ).contains(p) by {
        if files_of(hits).contains(p) {
            let i = choose|i: int| 0 <= i < all.len() && all[i] == p;
            if i < front.len() {
                assert(front[i] == p);
            }
        }
        if files_of(rest).contains(p) {
            let i = choose|i: int| 0 <= i < front.len() && front[i] == p;
            assert(all[i] == p);
        }
        if p == hits.last().file_path {
            assert(all[all.len() - 1] == p);
        }
    }
    assert(files_of(hits) =~= files_of(rest).insert(hits.last().file_path));
    all.lemma_cardinality_of_set();
    vstd::seq_lib::seq_to_set_is_finite(all);
}

/// A search has room for the hits of a hundred files: it stops exactly where hits in more than a
/// hundred came, and until then it has every file with a hit.
pub proof fn law_a_hundred_files_have_room(hits: Seq<HitView>)
    ensures
        files_of(hits).finite(),
        grouping(hits).full <==> files_of(hits).len() > 100,
        !grouping(hits).full ==> grouping(hits).files.dom() == files_of(hits),
        grouping(hits).full ==> grouping(hits).files.dom().len() == 100,
        grouping(hits).files.dom().subset_of(files_of(hits)),
    decreases hits.len(),
{
    if hits.len() == 0 {
        assert(files_of(hits) =~= Set::empty());
        assert(grouping(hits).files.dom() =~= files_of(hits));
    } else {
        let rest = hits.drop_last();
        let hit = hits.last();
        law_a_hundred_files_have_room(rest);
        law_grouping_limits(rest);
        lemma_files_of_push(hits);
        let g = grouping(rest);
        if !g.full {
            if keeps(g, hit) {
                assert(grouping(hits).files.dom() =~= files_of(hits));
            } else if g.files.contains_key(hit.file_path) {
                assert(files_of(hits) =~= files_of(rest));
            }
        } else {
            assert(files_of(rest).subset_of(files_of(hits)));
            vstd::set_lib::lemma_len_subset(files_of(rest), files_of(hits));
        }
    }
}

/// Once a hit came in a file for which there is no room, nothing more is taken: what is reported is
/// what was before it.
pub proof fn law_what_came_before_is_kept(hits: Seq<HitView>, more: Seq<HitView>)
    requires
        files_of(hits).len() > 100,
    ensures
        grouping(hits + more) == grouping(hits),
        grouping(hits).truncated,
    decreases more.len(),
{
    law_a_hundred_files_have_room(hits);
    law_grouping_limits(hits);
    if more.len() == 0 {
        assert(hits + more =~= hits);
    } else {
        law_what_came_before_is_kept(hits, more.drop_last());
        assert((hits + more).drop_last() =~= hits + more.drop_last());
    }
}

/// The results hold a file with these matches.
pub open spec fn lists(results: Seq<FileSearchResult>, path: Seq<char>, found: Seq<MatchView>) -> bool {
    exists|i: int|
        0 <= i < results.len() && (#[trigger] results[i]).file_path@ == path && match_views(
            results[i].matches@,
        ) == found
}

proof fn lemma_listed(results: Seq<FileSearchResult>, files: Map<Seq<char>, Seq<MatchView>>)
    requires
        in_path_order(result_views(results)),
        by_path(result_views(results)) == files,
    ensures
        forall|p: Seq<char>| #[trigger] files.contains_key(p) ==> lists(results, p, files[p]),
        forall|i: int|
            0 <= i < results.len() ==> files.contains_key((#[trigger] results[i]).file_path@)
                && files[results[i].file_path@] == match_views(results[i].matches@),
        forall|i: int, j: int|
            0 <= i < j < results.len() ==> before(
                (#[trigger] results[i]).file_path@,
                (#[trigger] results[j]).file_path@,
            ),
        results.len() == files.dom().len(),
{
    let shown = result_views(results);
    lemma_by_path(shown);
    assert forall|i: int| 0 <= i < results.len() implies shown[i] == (#[trigger] results[i])@ by {}
    assert forall|i: int, j: int| 0 <= i < j < results.len() implies before(
        (#[trigger] results[i]).file_path@,
        (#[trigger] results[j]).file_path@,
    ) by {
        assert(before(shown[i].file_path, shown[j].file_path));
    }
    assert forall|i: int| 0 <= i < results.len() implies files.contains_key(
        (#[trigger] results[i]).file_path@,
    ) && files[results[i].file_path@] == match_views(results[i].matches@) by {
        assert(files.contains_key(shown[i].file_path));
    }
    assert forall|p: Seq<char>| #[trigger] files.contains_key(p) implies lists(
        results,
        p,
        files[p],
    ) by {
        let i = choose|i: int| 0 <= i < shown.len() && #[trigger] shown[i].file_path == p;
        assert(results[i]@ == shown[i]);
        assert(results[i].file_path@ == p);
    }
}

/// Where the hits are in at most a hundred files, a search lists every file with a hit, and no
/// other, in the order of the paths; of each it lists the first thirty matches, in the order in which
/// they came. It says that something was left out exactly where a file has more.
pub proof fn law_search_lists_its_hits(output: &str, response: FileSearchResponse)
    requires
        call_ensures(group_output, (output,), response),
        files_of(hits_in(lines_of(output@))).len() <= 100,
    ensures
        ({
            let hits = hits_in(lines_of(output@));
            let results = response.results@;
            &&& results.len() == files_of(hits).len()
            &&& forall|p: Seq<char>| #[trigger]
                files_of(hits).contains(p) ==> lists(
                    results,
                    p,
                    found_in_file(hits, p).take(
                        if found_in_file(hits, p).len() <= 30 {
                            found_in_file(hits, p).len() as int
                        } else {
                            30
                        },
                    ),
                )
            &&& forall|i: int|
                0 <= i < results.len() ==> files_of(hits).contains(
                    (#[trigger] results[i]).file_path@,
                )
            &&& forall|i: int, j: int|
                0 <= i < j < results.len() ==> before(
                    (#[trigger] results[i]).file_path@,
                    (#[trigger] results[j]).file_path@,
                )
            &&& response.truncated <==> exists|p: Seq<char>|
                (#[trigger] found_in_file(hits, p)).len() > 30
        }),
        response.scanned_files == 0,
        response.failed_files == 0,
{
    let hits = hits_in(lines_of(output@));
    let results = response.results@;
    let files = grouping(hits).files;
    law_a_hundred_files_have_room(hits);
    law_first_matches_of_each_file(hits);
    lemma_listed(results, files);
    assert forall|p: Seq<char>| #[trigger] files_of(hits).contains(p) implies lists(
        results,
        p,
        found_in_file(hits, p).take(
            if found_in_file(hits, p).len() <= 30 {
                found_in_file(hits, p).len() as int
            } else {
                30
            },
        ),
    ) by {
        lemma_matches_of(hits, p);
        let found = found_in_file(hits, p);
        assert(files.contains_key(p));
        assert(matches_at(files, p) == at_most(matches_of(hits, p), 30));
        assert(found.take(found.len() as int) =~= found);
    }
    if response.truncated {
        let p = choose|p: Seq<char>| (#[trigger] matches_of(hits, p)).len() > 30;
        lemma_matches_of(hits, p);
        assert(found_in_file(hits, p).len() > 30);
    }
    if exists|p: Seq<char>| (#[trigger] found_in_file(hits, p)).len() > 30 {
        let p = choose|p: Seq<char>| (#[trigger] found_in_file(hits, p)).len() > 30;
        lemma_matches_of(hits, p);
        assert(matches_of(hits, p).len() > 30);
    }
}

/// A search whose hits are in more than a hundred files lists the first hundred, and says that
/// something was left out.
pub proof fn law_search_stops_at_a_hundred_files(output: &str, response: FileSearchResponse)
    requires
        call_ensures(group_output, (output,), response),
        files_of(hits_in(lines_of(output@))).len() > 100,
    ensures
        response.results@.len() == 100,
        response.truncated,
        forall|i: int|
            0 <= i < 100 ==> 1 <= (#[trigger] response.results@[i]).matches@.len() <= 30,
{
    let hits = hits_in(lines_of(output@));
    law_a_hundred_files_have_room(hits);
    law_grouping_limits(hits);
    lemma_listed(response.results@, grouping(hits).files);
    assert forall|i: int| 0 <= i < 100 implies 1 <= (
    #[trigger] response.results@[i]).matches@.len() <= 30 by {
        assert(match_views(response.results@[i].matches@).len()
            == response.results@[i].matches@.len());
    }
}

/// A hit is taken exactly where its file is listed with fewer than thirty matches, or is not listed
/// and fewer than a hundred are; it then stands behind the matches of its file, and all else is as it
/// was. A hit that is not taken is left out, and that is remembered; where there is no room for its
/// file, nothing is taken after it.
pub proof fn law_hit_is_taken_or_left_out(
    search: &mut Grouping,
    hit: Hit,
    what: Absorbed,
    other: Seq<char>,
)
    requires
        call_ensures(Grouping::absorb, (search, hit), what),
        !old(search)@.full,
        other != hit.file_path@,
    ensures
        ({
            let files = old(search)@.files;
            let path = hit.file_path@;
            let after = final(search)@;
            &&& matches_at(after.files, other) == matches_at(files, other)
            &&& after.files.contains_key(other) <==> files.contains_key(other)
            &&& if files.contains_key(path) && files[path].len() < 30 || !files.contains_key(path)
                && files.dom().len() < 100 {
                &&& what == Absorbed::Kept
                &&& after.files.contains_key(path)
                &&& after.files[path].len() == matches_at(files, path).len() + 1
                &&& after.files[path].drop_last() == matches_at(files, path)
                &&& after.files[path].last().line_number == hit.found.line_number
                &&& after.files[path].last().line_text == hit.found.line_text@
                &&& after.truncated == old(search)@.truncated
                &&& !after.full
            } else if files.contains_key(path) {
                &&& what == Absorbed::LeftOut
                &&& after.files == files
                &&& after.truncated
                &&& !after.full
            } else {
                &&& what == Absorbed::TooManyFiles
                &&& after.files == files
                &&& after.truncated
                &&& after.full
            }
        }),
{
    let files = old(search)@.files;
    let path = hit.file_path@;
    let after = final(search)@;
    if after.files.contains_key(path) && what == Absorbed::Kept {
        assert(after.files[path].drop_last() =~= matches_at(files, path));
    }
}

/// Hits come in batches of twenty-five: one that is taken waits with those before it, and the
/// twenty-fifth sends them all, under the id of the search. One that is not taken sends nothing.
pub proof fn law_hits_come_in_batches(
    stream: &mut ContentStream,
    hit: Hit,
    event: Option<SearchContentBatchEvent>,
    path: Seq<char>,
)
    requires
        call_ensures(ContentStream::accept_hit, (stream, hit), event),
    ensures
        ({
            let was = old(stream)@;
            let now = final(stream)@;
            let taken = keeps(was.grouping, hit@);
            let waits = matches_at(was.pending, path) + if path == hit.file_path@ {
                seq![hit.found@]
            } else {
                Seq::empty()
            };
            &&& now.grouping == absorb(was.grouping, hit@)
            &&& event is Some <==> taken && was.waiting + 1 >= 25
            &&& !taken ==> now.pending == was.pending && now.waiting == was.waiting
            &&& taken && event is None ==> {
                &&& now.waiting == was.waiting + 1
                &&& matches_at(now.pending, path) == waits
            }
            &&& event is Some ==> {
                &&& now.waiting == 0
                &&& matches_at(now.pending, path).len() == 0
                &&& event->0.search_id@ == old(stream).id()
                &&& event->0.truncated == was.grouping.truncated
                &&& waits.len() > 0 ==> lists(event->0.results@, path, waits)
                &&& total_matches(result_views(event->0.results@)) == 25
            }
        }),
{
    let was = old(stream)@;
    let waits = matches_at(was.pending, path) + if path == hit.file_path@ {
        seq![hit.found@]
    } else {
        Seq::empty()
    };
    let pending = super::groups::with_match(was.pending, hit.file_path@, hit.found@);
    assert(matches_at(pending, path) =~= waits);
    if event is Some {
        lemma_listed(event->0.results@, pending);
        if waits.len() > 0 {
            assert(pending.contains_key(path));
        }
    }
}

/// The end of the output sends what waits, if anything does, and tells that the search is done, and
/// whether something was left out.
pub proof fn law_end_sends_what_waits(
    stream: ContentStream,
    events: (Option<SearchContentBatchEvent>, SearchContentDoneEvent),
    path: Seq<char>,
)
    requires
        call_ensures(ContentStream::finish, (stream,), events),
    ensures
        matches_at(stream@.pending, path).len() > 0 ==> events.0 is Some && lists(
            events.0->0.results@,
            path,
            matches_at(stream@.pending, path),
        ),
        events.0 is Some ==> {
            &&& events.0->0.search_id@ == stream.id()
            &&& events.0->0.truncated == stream@.grouping.truncated
        },
        (forall|p: Seq<char>| !stream@.pending.contains_key(p)) ==> events.0 is None,
        events.1.search_id@ == stream.id(),
        events.1.truncated == stream@.grouping.truncated,
        events.1.error is None,
{
    if events.0 is Some {
        lemma_listed(events.0->0.results@, stream@.pending);
    }
    if forall|p: Seq<char>| !stream@.pending.contains_key(p) {
        assert(stream@.pending =~= Map::empty());
    }
    if matches_at(stream@.pending, path).len() > 0 {
        assert(stream@.pending.contains_key(path));
    }
}

/// A search that begins holds nothing, and a line that is no hit changes nothing.
pub proof fn law_nothing_comes_of_nothing(
    id: &str,
    fresh: ContentStream,
    stream: &mut ContentStream,
    line: &str,
    event: Option<SearchContentBatchEvent>,
    path: Seq<char>,
)
    requires
        call_ensures(ContentStream::new, (id,), fresh),
        call_ensures(ContentStream::accept_line, (stream, line), event),
        line_hit(line@) is None,
    ensures
        fresh.id() == id@,
        fresh@.waiting == 0,
        !fresh@.grouping.full && !fresh@.grouping.truncated,
        matches_at(fresh@.pending, path).len() == 0,
        matches_at(fresh@.grouping.files, path).len() == 0,
        event is None,
        final(stream)@ == old(stream)@,
{
}

/// A line that is a hit is taken as the hit is.
pub proof fn law_line_is_taken_as_its_hit(
    stream: &mut ContentStream,
    line: &str,
    event: Option<SearchContentBatchEvent>,
)
    requires
        call_ensures(ContentStream::accept_line, (stream, line), event),
        line_hit(line@) is Some,
    ensures
        final(stream).id() == old(stream).id(),
        final(stream)@ == stream_step(old(stream)@, line_hit(line@)->0).0,
        event is Some <==> keeps(old(stream)@.grouping, line_hit(line@)->0)
            && old(stream)@.waiting + 1 >= 25,
{
}

/// The answer lists what was taken, file by file in the order of the paths, and says whether something
/// was left out.
pub proof fn law_answer_lists_what_was_taken(
    search: Grouping,
    truncated: bool,
    full: bool,
    response: FileSearchResponse,
    path: Seq<char>,
    i: int,
    j: int,
)
    requires
        search.wf(),
        call_ensures(Grouping::is_truncated, (&search,), truncated),
        call_ensures(Grouping::is_full, (&search,), full),
        call_ensures(Grouping::into_response, (search,), response),
    ensures
        truncated == search@.truncated,
        full == search@.full,
        response.truncated == search@.truncated,
        response.scanned_files == 0 && response.failed_files == 0,
        search@.files.contains_key(path) ==> lists(
            response.results@,
            path,
            search@.files[path],
        ),
        0 <= i < response.results@.len() ==> search@.files.contains_key(
            response.results@[i].file_path@,
        ),
        0 <= i < j < response.results@.len() ==> before(
            response.results@[i].file_path@,
            response.results@[j].file_path@,
        ),
{
    lemma_listed(response.results@, search@.files);
    if 0 <= i < j < response.results@.len() {
        assert(response.results@[i] == response.results@[i]);
        assert(response.results@[j] == response.results@[j]);
    }
}

/// A search begins with nothing, and a stream tells whether there is room.
pub proof fn law_search_begins_with_nothing(
    fresh: Grouping,
    stream: ContentStream,
    full: bool,
    path: Seq<char>,
)
    requires
        call_ensures(Grouping::new, (), fresh),
        call_ensures(ContentStream::is_full, (&stream,), full),
    ensures
        !fresh@.truncated && !fresh@.full,
        !fresh@.files.contains_key(path),
        full == stream@.grouping.full,
{
}

/// What a search answers once ripgrep has ended is what its output lists, read as text.
pub proof fn law_output_of_ripgrep_is_answered(
    path: &str,
    code: Option<i32>,
    stdout: Vec<u8>,
    stderr: Vec<u8>,
    answer: IpcResult<FileSearchResponse>,
    text: &str,
    listed: FileSearchResponse,
)
    requires
        call_ensures(search_content, (path, &RgRun::Ended { code, stdout, stderr }), answer),
        code is None || code->0 <= 1,
        text@ == utf8_lossy(stdout@),
        call_ensures(group_output, (text,), listed),
    ensures
        answer.success,
        result_views(answer.data->0.results@) == result_views(listed.results@),
        answer.data->0.truncated == listed.truncated,
        answer.data->0.scanned_files == listed.scanned_files,
        answer.data->0.failed_files == listed.failed_files,
{
    law_results_are_determined(
        result_views(answer.data->0.results@),
        result_views(listed.results@),
    );
}

/// A line that completes a batch sends what a hit that completes one does: all that waited, with the hit
/// of the line behind the matches of its file, under the id of the search.
pub proof fn law_line_sends_the_batch(
    stream: &mut ContentStream,
    line: &str,
    event: Option<SearchContentBatchEvent>,
    path: Seq<char>,
)
    requires
        call_ensures(ContentStream::accept_line, (stream, line), event),
        line_hit(line@) is Some,
        event is Some,
    ensures
        ({
            let hit = line_hit(line@)->0;
            let was = old(stream)@;
            let waits = matches_at(was.pending, path) + if path == hit.file_path {
                seq![hit.found]
            } else {
                Seq::empty()
            };
            &&& event->0.search_id@ == old(stream).id()
            &&& event->0.truncated == was.grouping.truncated
            &&& waits.len() > 0 ==> lists(event->0.results@, path, waits)
            &&& total_matches(result_views(event->0.results@)) == 25
            &&& final(stream)@.waiting == 0
            &&& matches_at(final(stream)@.pending, path).len() == 0
        }),
{
    let hit = line_hit(line@)->0;
    let was = old(stream)@;
    let waits = matches_at(was.pending, path) + if path == hit.file_path {
        seq![hit.found]
    } else {
        Seq::empty()
    };
    let pending = super::groups::with_match(was.pending, hit.file_path, hit.found);
    assert(matches_at(pending, path) =~= waits);
    lemma_listed(event->0.results@, pending);
    if waits.len() > 0 {
        assert(pending.contains_key(path));
    }
}

/// How many matches results hold is the sum of what each of them holds.
pub proof fn law_matches_are_counted(front: Seq<ResultView>, last: ResultView)
    ensures
        total_matches(Seq::empty()) == 0,
        total_matches(front.push(last)) == total_matches(front) + last.matches.len(),
{
    assert(front.push(last).drop_last() =~= front);
}

}
