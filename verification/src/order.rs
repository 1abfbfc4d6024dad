//! The order in which the database lists names: that of the bytes of their UTF-8 form.

use vstd::prelude::*;

verus! {

/// Whether bytes come before others: where they first differ the smaller byte decides, and a
/// proper beginning of others comes before them.
pub open spec fn bytes_before(a: Seq<u8>, b: Seq<u8>) -> bool
    decreases a.len(),
{
    if b.len() == 0 {
        false
    } else if a.len() == 0 {
        true
    } else if a[0] != b[0] {
        a[0] < b[0]
    } else {
        bytes_before(a.drop_first(), b.drop_first())
    }
}

/// Whether a name comes before another one.
pub open spec fn before(a: Seq<char>, b: Seq<char>) -> bool {
    bytes_before(vstd::utf8::encode_utf8(a), vstd::utf8::encode_utf8(b))
}

/// Whether each name comes before all that follow it.
pub open spec fn increasing(names: Seq<Seq<char>>) -> bool {
    forall|i: int, j: int| 0 <= i < j < names.len() ==> #[trigger] before(names[i], names[j])
}

/// Whether a list holds exactly the names of a set, each once and in order.
pub open spec fn lists(names: Seq<Seq<char>>, set: Set<Seq<char>>) -> bool {
    &&& increasing(names)
    &&& forall|name: Seq<char>| #[trigger] names.contains(name) <==> set.contains(name)
}

proof fn lemma_bytes_irreflexive(a: Seq<u8>)
    ensures
        !bytes_before(a, a),
    decreases a.len(),
{
    if a.len() > 0 {
        lemma_bytes_irreflexive(a.drop_first());
    }
}

proof fn lemma_bytes_transitive(a: Seq<u8>, b: Seq<u8>, c: Seq<u8>)
    requires
        bytes_before(a, b),
        bytes_before(b, c),
    ensures
        bytes_before(a, c),
    decreases a.len(),
{
    if a.len() > 0 && a[0] == b[0] && b[0] == c[0] {
        lemma_bytes_transitive(a.drop_first(), b.drop_first(), c.drop_first());
    }
}

proof fn lemma_bytes_total(a: Seq<u8>, b: Seq<u8>)
    ensures
        a == b || bytes_before(a, b) || bytes_before(b, a),
    decreases a.len(),
{
    if a.len() > 0 && b.len() > 0 && a[0] == b[0] {
        lemma_bytes_total(a.drop_first(), b.drop_first());
        if a.drop_first() == b.drop_first() {
            assert(a =~= seq![a[0]] + a.drop_first());
            assert(b =~= seq![b[0]] + b.drop_first());
        }
    } else if a.len() == 0 && b.len() == 0 {
        assert(a =~= b);
    }
}

/// Of two names one comes before the other, unless they are the same; and none comes before
/// itself, nor both before each other.
pub proof fn law_names_are_ordered(a: Seq<char>, b: Seq<char>, c: Seq<char>)
    ensures
        a == b <==> !before(a, b) && !before(b, a),
        !(before(a, b) && before(b, a)),
        before(a, b) && before(b, c) ==> before(a, c),
{
    let x = vstd::utf8::encode_utf8(a);
    let y = vstd::utf8::encode_utf8(b);
    lemma_bytes_irreflexive(x);
    lemma_bytes_total(x, y);
    if x == y {
        vstd::utf8::encode_utf8_decode_utf8(a);
        vstd::utf8::encode_utf8_decode_utf8(b);
    }
    if before(a, b) && before(b, a) {
        lemma_bytes_transitive(x, y, x);
    }
    if before(a, b) && before(b, c) {
        lemma_bytes_transitive(x, y, vstd::utf8::encode_utf8(c));
    }
}

/// A list in order holds each name once.
pub proof fn law_increasing_lists_hold_each_once(names: Seq<Seq<char>>)
    requires
        increasing(names),
    ensures
        names.no_duplicates(),
{
    assert forall|i: int, j: int|
        0 <= i < names.len() && 0 <= j < names.len() && i != j implies names[i] != names[j] by {
        law_names_are_ordered(names[i], names[j], names[i]);
        if i < j {
            assert(before(names[i], names[j]));
        } else {
            assert(before(names[j], names[i]));
        }
    }
}

/// There is one list of the names of a set.
pub proof fn law_one_list(one: Seq<Seq<char>>, other: Seq<Seq<char>>, set: Set<Seq<char>>)
    requires
        lists(one, set),
        lists(other, set),
    ensures
        one == other,
    decreases one.len(),
{
    if one.len() == 0 {
        if other.len() > 0 {
            assert(other.contains(other[0]));
            assert(one.contains(other[0]));
        }
        assert(one =~= other);
    } else {
        assert(one.contains(one[0]));
        assert(other.contains(one[0]));
        let at = choose|at: int| 0 <= at < other.len() && other[at] == one[0];
        assert(other.contains(other[0]));
        assert(one.contains(other[0]));
        let back = choose|back: int| 0 <= back < one.len() && one[back] == other[0];
        law_names_are_ordered(one[0], other[0], one[0]);
        if at > 0 {
            assert(before(other[0], other[at]));
            if back > 0 {
                assert(before(one[0], one[back]));
            }
        }
        assert(one[0] == other[0]);
        lemma_rest(one, set);
        lemma_rest(other, set);
        law_one_list(one.drop_first(), other.drop_first(), set.remove(one[0]));
        assert(one =~= seq![one[0]] + one.drop_first());
        assert(other =~= seq![other[0]] + other.drop_first());
    }
}

proof fn lemma_rest(names: Seq<Seq<char>>, set: Set<Seq<char>>)
    requires
        lists(names, set),
        names.len() > 0,
    ensures
        lists(names.drop_first(), set.remove(names[0])),
{
    let rest = names.drop_first();
    assert forall|i: int, j: int| 0 <= i < j < rest.len() implies #[trigger] before(
        rest[i],
        rest[j],
    ) by {
        assert(before(names[i + 1], names[j + 1]));
    }
    assert forall|name: Seq<char>| #[trigger]
        rest.contains(name) <==> set.remove(names[0]).contains(name) by {
        if rest.contains(name) {
            let at = choose|at: int| 0 <= at < rest.len() && rest[at] == name;
            assert(names[at + 1] == name);
            assert(names.contains(name));
            assert(before(names[0], names[at + 1]));
            law_names_are_ordered(names[0], name, names[0]);
        }
        if set.remove(names[0]).contains(name) {
            assert(names.contains(name));
            let at = choose|at: int| 0 <= at < names.len() && names[at] == name;
            assert(rest[at - 1] == name);
        }
    }
}

/// A list in order, with one more name.
pub open spec fn with_name(names: Seq<Seq<char>>, name: Seq<char>) -> Seq<Seq<char>>
    decreases names.len(),
{
    if names.len() == 0 {
        seq![name]
    } else if before(name, names[0]) {
        seq![name] + names
    } else {
        seq![names[0]] + with_name(names.drop_first(), name)
    }
}

proof fn lemma_with_name(names: Seq<Seq<char>>, set: Set<Seq<char>>, name: Seq<char>)
    requires
        lists(names, set),
        !set.contains(name),
    ensures
        lists(with_name(names, name), set.insert(name)),
    decreases names.len(),
{
    let more = with_name(names, name);
    let all = set.insert(name);
    if names.len() == 0 {
        assert(more[0] == name);
        assert forall|other: Seq<char>| #[trigger] more.contains(other) <==> all.contains(
            other,
        ) by {
            if all.contains(other) && other != name {
                assert(names.contains(other));
            }
        }
    } else if before(name, names[0]) {
        assert forall|i: int, j: int| 0 <= i < j < more.len() implies #[trigger] before(
            more[i],
            more[j],
        ) by {
            if i > 0 {
                assert(before(names[i - 1], names[j - 1]));
            } else if j > 1 {
                assert(before(names[0], names[j - 1]));
                law_names_are_ordered(name, names[0], names[j - 1]);
            }
        }
        assert forall|other: Seq<char>| #[trigger] more.contains(other) <==> all.contains(
            other,
        ) by {
            assert(more[0] == name);
            if more.contains(other) && other != name {
                let at = choose|at: int| 0 <= at < more.len() && more[at] == other;
                assert(names[at - 1] == other);
                assert(names.contains(other));
            }
            if all.contains(other) && other != name {
                assert(names.contains(other));
                let at = choose|at: int| 0 <= at < names.len() && names[at] == other;
                assert(more[at + 1] == other);
            }
        }
    } else {
        let first = names[0];
        assert(names.contains(first));
        lemma_rest(names, set);
        lemma_with_name(names.drop_first(), set.remove(first), name);
        let rest = with_name(names.drop_first(), name);
        let others = set.remove(first).insert(name);
        assert forall|i: int, j: int| 0 <= i < j < more.len() implies #[trigger] before(
            more[i],
            more[j],
        ) by {
            if i > 0 {
                assert(before(rest[i - 1], rest[j - 1]));
            } else {
                let later = rest[j - 1];
                assert(rest.contains(later));
                assert(others.contains(later));
                law_names_are_ordered(first, name, first);
                if later != name {
                    assert(names.contains(later));
                    let at = choose|at: int| 0 <= at < names.len() && names[at] == later;
                    assert(before(names[0], names[at]));
                }
            }
        }
        assert forall|other: Seq<char>| #[trigger] more.contains(other) <==> all.contains(
            other,
        ) by {
            assert(more[0] == first);
            if more.contains(other) && other != first {
                let at = choose|at: int| 0 <= at < more.len() && more[at] == other;
                assert(rest[at - 1] == other);
                assert(rest.contains(other));
            }
            if all.contains(other) && other != first {
                assert(rest.contains(other));
                let at = choose|at: int| 0 <= at < rest.len() && rest[at] == other;
                assert(more[at + 1] == other);
            }
        }
    }
}

/// Any finite set of names can be listed.
pub proof fn law_names_can_be_listed(set: Set<Seq<char>>)
    requires
        set.finite(),
    ensures
        exists|names: Seq<Seq<char>>| lists(names, set),
    decreases set.len(),
{
    if set.len() == 0 {
        assert(set =~= Set::empty());
        assert(lists(Seq::empty(), set));
    } else {
        let name = set.choose();
        law_names_can_be_listed(set.remove(name));
        let names = choose|names: Seq<Seq<char>>| lists(names, set.remove(name));
        lemma_with_name(names, set.remove(name), name);
        assert(set.remove(name).insert(name) =~= set);
        assert(lists(with_name(names, name), set));
    }
}

} // verus!
