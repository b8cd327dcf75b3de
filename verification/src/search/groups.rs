//! Matches grouped by file, the files in the order of their paths.
use crate::search::hits::Hit;
use crate::search::{
    match_views, result_views, FileSearchMatch, FileSearchResult, MatchView, ResultView,
};
use crate::text::order::{
    before, lemma_before_irreflexive, lemma_before_total, lemma_before_transitive, stands_before,
};
use crate::text::same_text;
use vstd::prelude::*;

verus! {

/// Each file stands before those that follow it.
pub open spec fn in_path_order(results: Seq<ResultView>) -> bool {
    forall|i: int, j: int|
        0 <= i < j < results.len() ==> before(#[trigger] results[i].file_path, #[trigger] results[j].file_path)
}

/// The matches of each file.
pub open spec fn by_path(results: Seq<ResultView>) -> Map<Seq<char>, Seq<MatchView>>
    decreases results.len(),
{
    if results.len() == 0 {
        Map::empty()
    } else {
        by_path(results.drop_last()).insert(results.last().file_path, results.last().matches)
    }
}

/// The matches that a map holds for a path: none where it does not hold the path.
pub open spec fn matches_at(files: Map<Seq<char>, Seq<MatchView>>, path: Seq<char>) -> Seq<MatchView> {
    if files.contains_key(path) {
        files[path]
    } else {
        Seq::empty()
    }
}

/// The map with one more match behind those of a path.
pub open spec fn with_match(
    files: Map<Seq<char>, Seq<MatchView>>,
    path: Seq<char>,
    found: MatchView,
) -> Map<Seq<char>, Seq<MatchView>> {
    files.insert(path, matches_at(files, path).push(found))
}

/// The map of results in path order: what it holds, and how much.
pub proof fn lemma_by_path(results: Seq<ResultView>)
    requires
        in_path_order(results),
    ensures
        by_path(results).dom().finite(),
        by_path(results).dom().len() == results.len(),
        forall|i: int|
            0 <= i < results.len() ==> {
                &&& by_path(results).contains_key(#[trigger] results[i].file_path)
                &&& by_path(results)[results[i].file_path] == results[i].matches
            },
        forall|p: Seq<char>| #[trigger]
            by_path(results).contains_key(p) ==> exists|i: int|
                0 <= i < results.len() && #[trigger] results[i].file_path == p,
    decreases results.len(),
{
    if results.len() > 0 {
        let front = results.drop_last();
        let last = results.last();
        assert forall|i: int, j: int| 0 <= i < j < front.len() implies before(
            #[trigger] front[i].file_path,
            #[trigger] front[j].file_path,
        ) by {
            assert(front[i] == results[i] && front[j] == results[j]);
        }
        lemma_by_path(front);
        assert forall|i: int| 0 <= i < front.len() implies #[trigger] results[i].file_path
            != last.file_path by {
            lemma_before_irreflexive(last.file_path);
            assert(before(results[i].file_path, results[results.len() - 1].file_path));
        }
        if by_path(front).contains_key(last.file_path) {
            let i = choose|i: int|
                0 <= i < front.len() && #[trigger] front[i].file_path == last.file_path;
            assert(results[i].file_path == last.file_path);
        }
        assert forall|i: int| 0 <= i < results.len() implies {
            &&& by_path(results).contains_key(#[trigger] results[i].file_path)
            &&& by_path(results)[results[i].file_path] == results[i].matches
        } by {
            if i < front.len() {
                assert(front[i] == results[i]);
            }
        }
        assert forall|p: Seq<char>| #[trigger] by_path(results).contains_key(p) implies exists|i: int|

            0 <= i < results.len() && #[trigger] results[i].file_path == p by {
            if p == last.file_path {
                assert(results[results.len() - 1].file_path == p);
            } else {
                assert(by_path(front).contains_key(p));
                let i = choose|i: int| 0 <= i < front.len() && #[trigger] front[i].file_path == p;
                assert(results[i].file_path == p);
            }
        }
    }
}

/// How many matches results hold in all.
pub open spec fn total_matches(results: Seq<ResultView>) -> nat
    decreases results.len(),
{
    if results.len() == 0 {
        0
    } else {
        total_matches(results.drop_last()) + results.last().matches.len()
    }
}

proof fn lemma_total_update(results: Seq<ResultView>, at: int, fresh: ResultView)
    requires
        0 <= at < results.len(),
    ensures
        total_matches(results.update(at, fresh)) == total_matches(results) + fresh.matches.len()
            - results[at].matches.len(),
    decreases results.len(),
{
    let now = results.update(at, fresh);
    if at == results.len() - 1 {
        assert(now.drop_last() =~= results.drop_last());
    } else {
        lemma_total_update(results.drop_last(), at, fresh);
        assert(now.drop_last() =~= results.drop_last().update(at, fresh));
    }
}

proof fn lemma_total_insert(results: Seq<ResultView>, at: int, fresh: ResultView)
    requires
        0 <= at <= results.len(),
    ensures
        total_matches(results.insert(at, fresh)) == total_matches(results) + fresh.matches.len(),
    decreases results.len(),
{
    let now = results.insert(at, fresh);
    if at == results.len() {
        assert(now.drop_last() =~= results);
    } else {
        lemma_total_insert(results.drop_last(), at, fresh);
        assert(now.drop_last() =~= results.drop_last().insert(at, fresh));
    }
}

proof fn lemma_total_prefix(results: Seq<ResultView>, n: int)
    requires
        0 <= n <= results.len(),
    ensures
        total_matches(results.take(n)) <= total_matches(results),
    decreases results.len(),
{
    if n == results.len() {
        assert(results.take(n) =~= results);
    } else {
        lemma_total_prefix(results.drop_last(), n);
        assert(results.drop_last().take(n) =~= results.take(n));
    }
}

/// Results in path order are told by what they hold: two that hold the same are the same.
pub proof fn law_results_are_determined(a: Seq<ResultView>, b: Seq<ResultView>)
    requires
        in_path_order(a),
        in_path_order(b),
        by_path(a) == by_path(b),
    ensures
        a == b,
    decreases a.len(),
{
    lemma_by_path(a);
    lemma_by_path(b);
    assert(a.len() == b.len());
    if a.len() > 0 {
        let x = a.last();
        let y = b.last();
        assert(by_path(b).contains_key(a[a.len() - 1].file_path));
        let j = choose|j: int| 0 <= j < b.len() && #[trigger] b[j].file_path == x.file_path;
        assert(by_path(a).contains_key(b[b.len() - 1].file_path));
        let i = choose|i: int| 0 <= i < a.len() && #[trigger] a[i].file_path == y.file_path;
        if x.file_path != y.file_path {
            assert(j < b.len() - 1 && i < a.len() - 1);
            assert(before(b[j].file_path, b[b.len() - 1].file_path));
            assert(before(a[i].file_path, a[a.len() - 1].file_path));
            lemma_before_transitive(x.file_path, y.file_path, x.file_path);
            lemma_before_irreflexive(x.file_path);
        }
        assert(by_path(b)[b[b.len() - 1].file_path] == y.matches);
        assert(by_path(a)[a[a.len() - 1].file_path] == x.matches);
        let af = a.drop_last();
        let bf = b.drop_last();
        assert(in_path_order(af)) by {
            assert forall|i: int, j: int| 0 <= i < j < af.len() implies before(
                #[trigger] af[i].file_path,
                #[trigger] af[j].file_path,
            ) by {
                assert(af[i] == a[i] && af[j] == a[j]);
            }
        }
        assert(in_path_order(bf)) by {
            assert forall|i: int, j: int| 0 <= i < j < bf.len() implies before(
                #[trigger] bf[i].file_path,
                #[trigger] bf[j].file_path,
            ) by {
                assert(bf[i] == b[i] && bf[j] == b[j]);
            }
        }
        lemma_by_path(af);
        lemma_by_path(bf);
        lemma_last_not_in_front(a);
        lemma_last_not_in_front(b);
        assert(by_path(af) =~= by_path(a).remove(x.file_path));
        assert(by_path(bf) =~= by_path(b).remove(y.file_path));
        law_results_are_determined(af, bf);
        assert(a =~= af.push(x));
        assert(b =~= bf.push(y));
    } else {
        assert(a =~= b);
    }
}

proof fn lemma_last_not_in_front(a: Seq<ResultView>)
    requires
        a.len() > 0,
        in_path_order(a),
    ensures
        !by_path(a.drop_last()).contains_key(a.last().file_path),
{
    let front = a.drop_last();
    assert forall|i: int, j: int| 0 <= i < j < front.len() implies before(
        #[trigger] front[i].file_path,
        #[trigger] front[j].file_path,
    ) by {
        assert(front[i] == a[i] && front[j] == a[j]);
    }
    lemma_by_path(front);
    if by_path(front).contains_key(a.last().file_path) {
        let i = choose|i: int|
            0 <= i < front.len() && #[trigger] front[i].file_path == a.last().file_path;
        assert(a[i].file_path == a.last().file_path);
        assert(before(a[i].file_path, a[a.len() - 1].file_path));
        lemma_before_irreflexive(a.last().file_path);
    }
}

/// Matches grouped by file.
#[derive(Debug, Clone)]
pub struct MatchGroups {
    results: Vec<FileSearchResult>,
}

impl View for MatchGroups {
    type V = Map<Seq<char>, Seq<MatchView>>;

    closed spec fn view(&self) -> Map<Seq<char>, Seq<MatchView>> {
        by_path(result_views(self.results@))
    }
}

impl MatchGroups {
    /// The files stand in the order of their paths.
    pub closed spec fn wf(&self) -> bool {
        in_path_order(result_views(self.results@))
    }

    /// How many matches there are in all files.
    pub closed spec fn total(&self) -> nat {
        total_matches(result_views(self.results@))
    }

    /// No files.
    pub fn new() -> (groups: Self)
        ensures
            groups.wf(),
            groups.total() == 0,
            groups@ == Map::<Seq<char>, Seq<MatchView>>::empty(),
    {
        let groups = MatchGroups { results: Vec::new() };
        assert(result_views(groups.results@) =~= Seq::<ResultView>::empty());
        groups
    }

    /// How many files there are.
    pub fn len(&self) -> (n: usize)
        requires
            self.wf(),
        ensures
            self@.dom().finite(),
            n == self@.dom().len(),
    {
        proof {
            lemma_by_path(result_views(self.results@));
        }
        self.results.len()
    }

    /// How many matches there are in all files.
    pub fn count_all(&self) -> (n: usize)
        requires
            self.total() <= usize::MAX,
        ensures
            n == self.total(),
    {
        let ghost all = result_views(self.results@);
        let mut n: usize = 0;
        let mut i: usize = 0;
        assert(all.take(0) =~= Seq::<ResultView>::empty());
        while i < self.results.len()
            invariant
                i <= self.results@.len(),
                all == result_views(self.results@),
                n == total_matches(all.take(i as int)),
                total_matches(all) <= usize::MAX,
            decreases self.results.len() - i,
        {
            proof {
                lemma_total_prefix(all, i + 1);
                assert(all.take(i + 1).drop_last() =~= all.take(i as int));
            }
            n += self.results[i].matches.len();
            i += 1;
        }
        assert(all.take(i as int) =~= all);
        n
    }

    /// Are there no files?
    pub fn is_empty(&self) -> (empty: bool)
        requires
            self.wf(),
        ensures
            empty == (self@ == Map::<Seq<char>, Seq<MatchView>>::empty()),
    {
        let ghost all = result_views(self.results@);
        proof {
            lemma_by_path(all);
            if all.len() == 0 {
                assert(self@ =~= Map::<Seq<char>, Seq<MatchView>>::empty());
            } else {
                assert(self@.contains_key(all[0].file_path));
            }
        }
        self.results.is_empty()
    }

    /// The file's place: `Ok` with its index, or `Err` with the index where it belongs.
    fn place(&self, path: &str) -> (at: Result<usize, usize>)
        requires
            self.wf(),
        ensures
            match at {
                Ok(i) => i < self.results@.len() && self.results@[i as int].file_path@ == path@,
                Err(i) => {
                    &&& i <= self.results@.len()
                    &&& forall|k: int|
                        0 <= k < i ==> before(#[trigger] self.results@[k].file_path@, path@)
                    &&& forall|k: int|
                        i <= k < self.results@.len() ==> before(
                            path@,
                            #[trigger] self.results@[k].file_path@,
                        )
                },
            },
    {
        let mut i: usize = 0;
        while i < self.results.len()
            invariant
                self.wf(),
                i <= self.results@.len(),
                forall|k: int| 0 <= k < i ==> before(#[trigger] self.results@[k].file_path@, path@),
            decreases self.results.len() - i,
        {
            let here = self.results[i].file_path.as_str();
            if same_text(here, path) {
                return Ok(i);
            }
            if !stands_before(here, path) {
                proof {
                    let all = result_views(self.results@);
                    lemma_before_total(here@, path@);
                    assert forall|k: int| i <= k < self.results@.len() implies before(
                        path@,
                        #[trigger] self.results@[k].file_path@,
                    ) by {
                        if k > i {
                            assert(before(all[i as int].file_path, all[k].file_path));
                            lemma_before_transitive(
                                path@,
                                here@,
                                self.results@[k].file_path@,
                            );
                        }
                    }
                }
                return Err(i);
            }
            i += 1;
        }
        Err(i)
    }

    /// How many matches the file has; `None` where it has no group.
    pub fn count(&self, path: &str) -> (n: Option<usize>)
        requires
            self.wf(),
        ensures
            match n {
                Some(k) => self@.contains_key(path@) && k == self@[path@].len(),
                None => !self@.contains_key(path@),
            },
    {
        let ghost all = result_views(self.results@);
        proof {
            lemma_by_path(all);
        }
        match self.place(path) {
            Ok(i) => {
                assert(all[i as int].file_path == path@);
                Some(self.results[i].matches.len())
            },
            Err(i) => {
                proof {
                    if self@.contains_key(path@) {
                        let k = choose|k: int|
                            0 <= k < all.len() && #[trigger] all[k].file_path == path@;
                        assert(self.results@[k].file_path@ == path@);
                        lemma_before_irreflexive(path@);
                    }
                }
                None
            },
        }
    }

    /// Puts one more match behind those of its file.
    pub fn add_match(&mut self, hit: Hit)
        requires
            old(self).wf(),
        ensures
            final(self).wf(),
            final(self)@ == with_match(old(self)@, hit@.file_path, hit@.found),
            final(self).total() == old(self).total() + 1,
    {
        let ghost was = result_views(self.results@);
        let ghost path = hit.file_path@;
        proof {
            lemma_by_path(was);
        }
        let place = self.place(hit.file_path.as_str());
        match place {
            Ok(i) => {
                let ghost old_matches = self.results@[i as int].matches@;
                self.results[i].matches.push(hit.found);
                proof {
                    let now = result_views(self.results@);
                    assert(match_views(old_matches.push(hit.found)) =~= match_views(
                        old_matches,
                    ).push(hit.found@));
                    assert(now =~= was.update(
                        i as int,
                        ResultView { file_path: path, matches: was[i as int].matches.push(hit.found@) },
                    ));
                    assert(in_path_order(now)) by {
                        assert forall|a: int, b: int| 0 <= a < b < now.len() implies before(
                            #[trigger] now[a].file_path,
                            #[trigger] now[b].file_path,
                        ) by {
                            assert(now[a].file_path == was[a].file_path);
                            assert(now[b].file_path == was[b].file_path);
                            assert(before(was[a].file_path, was[b].file_path));
                        }
                    }
                    lemma_changed_place(was, now, i as int, path, hit.found@);
                    lemma_total_update(
                        was,
                        i as int,
                        ResultView { file_path: path, matches: was[i as int].matches.push(hit.found@) },
                    );
                }
            },
            Err(i) => {
                let ghost found = hit.found@;
                let mut matches: Vec<FileSearchMatch> = Vec::new();
                matches.push(hit.found);
                assert(match_views(matches@) =~= seq![found]);
                let result = FileSearchResult { file_path: hit.file_path, matches };
                let ghost shown = result@;
                self.results.insert(i, result);
                proof {
                    let now = result_views(self.results@);
                    assert(now =~= was.insert(i as int, shown));
                    assert forall|k: int| 0 <= k < i implies before(
                        #[trigger] was[k].file_path,
                        path,
                    ) by {
                        assert(was[k].file_path == old(self).results@[k].file_path@);
                    }
                    assert forall|k: int| i <= k < was.len() implies before(
                        path,
                        #[trigger] was[k].file_path,
                    ) by {
                        assert(was[k].file_path == old(self).results@[k].file_path@);
                    }
                    lemma_new_place(was, i as int, shown);
                    lemma_total_insert(was, i as int, shown);
                    if by_path(was).contains_key(path) {
                        let k = choose|k: int|
                            0 <= k < was.len() && #[trigger] was[k].file_path == path;
                        lemma_before_irreflexive(path);
                    }
                    assert(matches_at(by_path(was), path).push(found) =~= seq![found]);
                }
            },
        }
    }

    /// The files with their matches, in the order of their paths.
    pub fn into_results(self) -> (results: Vec<FileSearchResult>)
        requires
            self.wf(),
        ensures
            in_path_order(result_views(results@)),
            by_path(result_views(results@)) == self@,
            total_matches(result_views(results@)) == self.total(),
    {
        self.results
    }
}

proof fn lemma_changed_place(
    was: Seq<ResultView>,
    now: Seq<ResultView>,
    at: int,
    path: Seq<char>,
    found: MatchView,
)
    requires
        0 <= at < was.len(),
        was[at].file_path == path,
        in_path_order(was),
        in_path_order(now),
        now == was.update(
            at,
            ResultView { file_path: path, matches: was[at].matches.push(found) },
        ),
    ensures
        by_path(now) == with_match(by_path(was), path, found),
{
    lemma_by_path(was);
    lemma_by_path(now);
    let want = with_match(by_path(was), path, found);
    assert forall|p: Seq<char>| #[trigger] by_path(now).contains_key(p) == want.contains_key(p) by {
        if by_path(now).contains_key(p) {
            let k = choose|k: int| 0 <= k < now.len() && #[trigger] now[k].file_path == p;
            assert(was[k].file_path == p);
        }
        if want.contains_key(p) {
            if p == path {
                assert(now[at].file_path == p);
            } else {
                let k = choose|k: int| 0 <= k < was.len() && #[trigger] was[k].file_path == p;
                assert(now[k].file_path == p);
            }
        }
    }
    assert forall|p: Seq<char>| by_path(now).contains_key(p) implies #[trigger] by_path(now)[p]
        == want[p] by {
        let k = choose|k: int| 0 <= k < now.len() && #[trigger] now[k].file_path == p;
        assert(was[k].file_path == p);
        if p == path {
            if k != at {
                lemma_before_irreflexive(path);
                if k < at {
                    assert(before(was[k].file_path, was[at].file_path));
                } else {
                    assert(before(was[at].file_path, was[k].file_path));
                }
            }
        } else {
            assert(k != at);
            assert(now[k] == was[k]);
        }
    }
    assert(by_path(now) =~= want);
}

proof fn lemma_new_place(was: Seq<ResultView>, at: int, fresh: ResultView)
    requires
        0 <= at <= was.len(),
        in_path_order(was),
        forall|k: int| 0 <= k < at ==> before(#[trigger] was[k].file_path, fresh.file_path),
        forall|k: int| at <= k < was.len() ==> before(fresh.file_path, #[trigger] was[k].file_path),
    ensures
        in_path_order(was.insert(at, fresh)),
        by_path(was.insert(at, fresh)) == by_path(was).insert(fresh.file_path, fresh.matches),
{
    let now = was.insert(at, fresh);
    assert forall|a: int, b: int| 0 <= a < b < now.len() implies before(
        #[trigger] now[a].file_path,
        #[trigger] now[b].file_path,
    ) by {
        let x = if a < at {
            a
        } else {
            a - 1
        };
        let y = if b < at {
            b
        } else {
            b - 1
        };
        if a == at {
            assert(now[b] == was[y]);
        } else if b == at {
            assert(now[a] == was[x]);
        } else {
            assert(now[a] == was[x] && now[b] == was[y]);
            assert(before(was[x].file_path, was[y].file_path));
        }
    }
    lemma_by_path(was);
    lemma_by_path(now);
    let want = by_path(was).insert(fresh.file_path, fresh.matches);
    assert forall|p: Seq<char>| #[trigger] by_path(now).contains_key(p) == want.contains_key(p) by {
        if by_path(now).contains_key(p) {
            let k = choose|k: int| 0 <= k < now.len() && #[trigger] now[k].file_path == p;
            if k != at {
                let j = if k < at {
                    k
                } else {
                    k - 1
                };
                assert(now[k] == was[j]);
                assert(was[j].file_path == p);
            }
        }
        if want.contains_key(p) {
            if p == fresh.file_path {
                assert(now[at].file_path == p);
            } else {
                let j = choose|j: int| 0 <= j < was.len() && #[trigger] was[j].file_path == p;
                let k = if j < at {
                    j
                } else {
                    j + 1
                };
                assert(now[k] == was[j]);
                assert(now[k].file_path == p);
            }
        }
    }
    assert forall|p: Seq<char>| by_path(now).contains_key(p) implies #[trigger] by_path(now)[p]
        == want[p] by {
        let k = choose|k: int| 0 <= k < now.len() && #[trigger] now[k].file_path == p;
        if k == at {
        } else {
            let j = if k < at {
                k
            } else {
                k - 1
            };
            assert(now[k] == was[j]);
            assert(was[j].file_path == p);
            if p == fresh.file_path {
                lemma_before_irreflexive(p);
            }
        }
    }
    assert(by_path(now) =~= want);
}

}
