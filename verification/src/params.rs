//! Query parameters.

use vstd::prelude::*;

use crate::step::Edition;
use crate::text::same_text;

verus! {

/// Whether the value at an index is the one that counts of a parameter that may be given more
/// than once: for a worker the first, standalone the last.
pub open spec fn counts(
    edition: Edition,
    pairs: Seq<(Seq<char>, Seq<char>)>,
    name: Seq<char>,
    at: int,
) -> bool {
    &&& 0 <= at < pairs.len()
    &&& pairs[at].0 == name
    &&& forall|i: int|
        0 <= i < pairs.len() && (#[trigger] pairs[i]).0 == name ==> if edition == Edition::Worker {
            at <= i
        } else {
            i <= at
        }
}

/// Whether a parameter is not given.
pub open spec fn absent(pairs: Seq<(Seq<char>, Seq<char>)>, name: Seq<char>) -> bool {
    forall|i: int| 0 <= i < pairs.len() ==> (#[trigger] pairs[i]).0 != name
}

/// The value of a query parameter, if it is given.
pub fn parameter(edition: Edition, pairs: &Vec<(String, String)>, name: &str) -> (res: Option<
    String,
>)
    ensures
        match res {
            Some(value) => exists|at: int| #[trigger]
                counts(edition, pairs.deep_view(), name@, at) && value@ == pairs.deep_view()[at].1,
            None => absent(pairs.deep_view(), name@),
        },
{
    let ghost all = pairs.deep_view();
    let mut found: Option<usize> = None;
    let mut i: usize = 0;
    while i < pairs.len()
        invariant
            all == pairs.deep_view(),
            i <= pairs@.len(),
            edition == Edition::Worker ==> found is None,
            match found {
                Some(at) => {
                    &&& at < i
                    &&& all[at as int].0 == name@
                    &&& forall|j: int| at < j < i ==> (#[trigger] all[j]).0 != name@
                },
                None => forall|j: int| 0 <= j < i ==> (#[trigger] all[j]).0 != name@,
            },
        decreases pairs@.len() - i,
    {
        assert(all[i as int] == (pairs@[i as int].0@, pairs@[i as int].1@));
        if same_text(&pairs[i].0, name) {
            if edition == Edition::Worker {
                assert(counts(edition, all, name@, i as int));
                return Some(pairs[i].1.clone());
            }
            found = Some(i);
        }
        i += 1;
    }
    match found {
        Some(at) => {
            assert(all[at as int] == (pairs@[at as int].0@, pairs@[at as int].1@));
            assert(counts(edition, all, name@, at as int));
            Some(pairs[at].1.clone())
        },
        None => None,
    }
}

/// With one more pair behind the others, a parameter of another name is what it was; one of that
/// name is the new value standalone, and for a worker what it was, or the new value where it was
/// not given before.
pub proof fn law_one_more_pair(
    edition: Edition,
    pairs: Vec<(String, String)>,
    more: Vec<(String, String)>,
    given: Seq<char>,
    value: Seq<char>,
    name: &str,
    before: Option<String>,
    after: Option<String>,
)
    requires
        more.deep_view() == pairs.deep_view().push((given, value)),
        call_ensures(parameter, (edition, &pairs, name), before),
        call_ensures(parameter, (edition, &more, name), after),
    ensures
        given != name@ ==> after.deep_view() == before.deep_view(),
        given == name@ && edition == Edition::Standalone ==> after.deep_view() == Some(value),
        given == name@ && edition == Edition::Worker && before is Some ==> after.deep_view()
            == before.deep_view(),
        given == name@ && edition == Edition::Worker && before is None ==> after.deep_view()
            == Some(value),
{
    let old_pairs = pairs.deep_view();
    let new_pairs = more.deep_view();
    let last = old_pairs.len() as int;
    assert(new_pairs[last] == (given, value));
    assert forall|i: int| 0 <= i < last implies #[trigger] new_pairs[i] == old_pairs[i] by {}
    if let Some(old_value) = before {
        let at = choose|at: int| #[trigger]
            counts(edition, old_pairs, name@, at) && old_value@ == old_pairs[at].1;
        assert(new_pairs[at].0 == name@);
        assert(!absent(new_pairs, name@));
        assert(after is Some);
        let to = choose|to: int| #[trigger]
            counts(edition, new_pairs, name@, to) && after->0@ == new_pairs[to].1;
        if to < last {
            assert(old_pairs[to].0 == name@);
        }
        assert(before.deep_view() == Some(old_pairs[at].1));
        assert(after.deep_view() == Some(new_pairs[to].1));
    } else {
        assert(absent(old_pairs, name@));
        assert forall|i: int| 0 <= i < last implies (#[trigger] new_pairs[i]).0 != name@ by {
            assert(old_pairs[i].0 != name@);
        }
        if let Some(new_value) = after {
            let to = choose|to: int| #[trigger]
                counts(edition, new_pairs, name@, to) && new_value@ == new_pairs[to].1;
            assert(to == last);
            assert(after.deep_view() == Some(new_pairs[to].1));
        }
    }
}

/// Without any pair there is no parameter.
pub proof fn law_no_pairs(
    edition: Edition,
    pairs: Vec<(String, String)>,
    name: &str,
    res: Option<String>,
)
    requires
        pairs@.len() == 0,
        call_ensures(parameter, (edition, &pairs, name), res),
    ensures
        res is None,
{
}

} // verus!
