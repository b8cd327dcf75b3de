//! Looking something up in several places, one after the other.
use vstd::prelude::*;

verus! {

/// The model of an optional text.
pub open spec fn opt_view(text: Option<String>) -> Option<Seq<char>> {
    match text {
        Some(t) => Some(t@),
        None => None,
    }
}

/// The models of answers.
pub open spec fn answer_views(answers: Seq<Option<String>>) -> Seq<Option<Seq<char>>> {
    answers.map_values(|a: Option<String>| opt_view(a))
}

/// How many answers come before the first that found something; their number where none did.
pub open spec fn misses(answers: Seq<Option<Seq<char>>>) -> nat
    decreases answers.len(),
{
    if answers.len() == 0 || answers[0] is Some {
        0
    } else {
        1 + misses(answers.skip(1))
    }
}

/// Nothing before the first find is a find.
pub proof fn lemma_misses(answers: Seq<Option<Seq<char>>>)
    ensures
        misses(answers) <= answers.len(),
        misses(answers) < answers.len() ==> answers[misses(answers) as int] is Some,
        forall|i: int| 0 <= i < misses(answers) ==> answers[i] is None,
    decreases answers.len(),
{
    if answers.len() > 0 && answers[0] is None {
        let rest = answers.skip(1);
        lemma_misses(rest);
        assert forall|i: int| 0 <= i < misses(answers) implies answers[i] is None by {
            if i > 0 {
                assert(answers[i] == rest[i - 1]);
            }
        }
    }
}

proof fn lemma_misses_is(answers: Seq<Option<Seq<char>>>, n: int)
    requires
        0 <= n <= answers.len(),
        n < answers.len() ==> answers[n] is Some,
        forall|i: int| 0 <= i < n ==> answers[i] is None,
    ensures
        misses(answers) == n,
{
    lemma_misses(answers);
    let m = misses(answers) as int;
    if m < n {
        assert(answers[m] is None);
    } else if n < m {
        assert(answers[n] is None);
    }
}

/// The place of the first answer that found something.
pub fn first_find(answers: &Vec<Option<String>>) -> (at: Option<usize>)
    ensures
        match at {
            Some(i) => i < answers@.len() && i == misses(answer_views(answers@)) && answers@[i as int] is Some,
            None => misses(answer_views(answers@)) == answers@.len(),
        },
{
    let ghost seen = answer_views(answers@);
    let mut i: usize = 0;
    while i < answers.len()
        invariant
            i <= answers@.len(),
            seen == answer_views(answers@),
            forall|j: int| 0 <= j < i ==> seen[j] is None,
        decreases answers.len() - i,
    {
        if answers[i].is_some() {
            proof {
                lemma_misses_is(seen, i as int);
            }
            return Some(i);
        }
        i += 1;
    }
    proof {
        lemma_misses_is(seen, i as int);
    }
    None
}

/// Answers behind the first find change nothing.
pub proof fn law_later_answers_do_not_matter(
    answers: Seq<Option<Seq<char>>>,
    more: Seq<Option<Seq<char>>>,
)
    requires
        misses(answers) < answers.len(),
    ensures
        misses(answers + more) == misses(answers),
        (answers + more)[misses(answers) as int] == answers[misses(answers) as int],
{
    lemma_misses(answers);
    lemma_misses_is(answers + more, misses(answers) as int);
}

}
