//! Lists of strings.
use vstd::prelude::*;

verus! {

/// The texts of a list of strings.
pub open spec fn texts(strings: Seq<String>) -> Seq<Seq<char>> {
    strings.map_values(|s: String| s@)
}

/// The texts come in order, none twice.
pub open spec fn in_order(list: Seq<Seq<char>>) -> bool {
    forall|i: int, j: int|
        0 <= i < j < list.len() ==> crate::text::text_less(#[trigger] list[i], #[trigger] list[j])
}

/// Whether a list of strings holds one with this text.
pub fn holds_text(strings: &Vec<String>, text: &String) -> (r: bool)
    ensures
        r == texts(strings@).contains(text@),
{
    let mut i: usize = 0;
    while i < strings.len()
        invariant
            i <= strings@.len(),
            forall|j: int| 0 <= j < i ==> (#[trigger] strings@[j])@ != text@,
        decreases strings@.len() - i,
    {
        if strings[i] == *text {
            assert(texts(strings@)[i as int] == text@);
            return true;
        }
        i = i + 1;
    }
    false
}

/// Appending an element to a list and then filtering it.
pub(crate) proof fn lemma_filter_push<A>(s: Seq<A>, a: A, pred: spec_fn(A) -> bool)
    ensures
        s.push(a).filter(pred) == if pred(a) {
            s.filter(pred).push(a)
        } else {
            s.filter(pred)
        },
{
    reveal(Seq::filter);
    assert(s.push(a).drop_last() =~= s);
}

/// The elements of a list that was appended to.
pub(crate) proof fn lemma_to_set_push<A>(s: Seq<A>, a: A)
    ensures
        s.push(a).to_set() == s.to_set().insert(a),
{
    assert forall|x: A| #[trigger] s.push(a).to_set().contains(x) <==> s.to_set().insert(
        a,
    ).contains(x) by {
        if s.contains(x) {
            let i = choose|i: int| 0 <= i < s.len() && s[i] == x;
            assert(s.push(a)[i] == x);
        }
        assert(s.push(a)[s.len() as int] == a);
    }
    assert(s.push(a).to_set() =~= s.to_set().insert(a));
}

/// What is left of a list after it was filtered.
pub(crate) proof fn lemma_filter_contains<A>(s: Seq<A>, pred: spec_fn(A) -> bool, a: A)
    ensures
        s.filter(pred).contains(a) <==> s.contains(a) && pred(a),
    decreases s.len(),
{
    reveal(Seq::filter);
    if s.len() > 0 {
        lemma_filter_contains(s.drop_last(), pred, a);
        assert(s =~= s.drop_last().push(s.last()));
        lemma_to_set_push(s.drop_last(), s.last());
        assert(s.to_set().contains(a) <==> s.drop_last().to_set().insert(s.last()).contains(a));
        if pred(s.last()) {
            let f = s.drop_last().filter(pred);
            lemma_to_set_push(f, s.last());
            assert(f.push(s.last()).to_set().contains(a) <==> f.to_set().insert(
                s.last(),
            ).contains(a));
        }
    }
}

/// A list in order is determined by what it holds.
pub proof fn ordered_list_is_determined(a: Seq<Seq<char>>, b: Seq<Seq<char>>)
    requires
        in_order(a),
        in_order(b),
        forall|text: Seq<char>| #[trigger] a.contains(text) <==> b.contains(text),
    ensures
        a == b,
    decreases a.len(),
{
    if a.len() == 0 {
        if b.len() > 0 {
            assert(b.contains(b[0]));
            assert(a.contains(b[0]));
        }
        assert(a =~= b);
    } else {
        assert(a.contains(a.last()));
        assert(b.contains(a.last()));
        assert(b.len() > 0);
        assert(b.contains(b.last()));
        lemma_last_is_greatest(a, b.last());
        lemma_last_is_greatest(b, a.last());
        crate::text::text_order_is_total(a.last(), b.last());
        let x = a.drop_last();
        let y = b.drop_last();
        assert forall|text: Seq<char>| #[trigger] x.contains(text) <==> y.contains(text) by {
            lemma_drop_last(a, text);
            lemma_drop_last(b, text);
            assert(a.contains(text) <==> b.contains(text));
        }
        ordered_list_is_determined(x, y);
        assert(a =~= x.push(a.last()));
        assert(b =~= y.push(b.last()));
    }
}

proof fn lemma_last_is_greatest(list: Seq<Seq<char>>, text: Seq<char>)
    requires
        in_order(list),
        list.contains(text),
    ensures
        text == list.last() || crate::text::text_less(text, list.last()),
{
    let i = choose|i: int| 0 <= i < list.len() && list[i] == text;
    if i < list.len() - 1 {
        assert(crate::text::text_less(list[i], list[list.len() - 1]));
    }
}

proof fn lemma_drop_last(list: Seq<Seq<char>>, text: Seq<char>)
    requires
        in_order(list),
        list.len() > 0,
    ensures
        in_order(list.drop_last()),
        list.drop_last().contains(text) <==> list.contains(text) && text != list.last(),
{
    let front = list.drop_last();
    if list.contains(text) && text != list.last() {
        let i = choose|i: int| 0 <= i < list.len() && list[i] == text;
        assert(front[i] == text);
    }
    if front.contains(text) {
        let i = choose|i: int| 0 <= i < front.len() && front[i] == text;
        assert(list[i] == text);
        assert(crate::text::text_less(list[i], list[list.len() - 1]));
        crate::text::text_order_is_total(text, text);
    }
}

/// A list all of whose elements pass is not changed by filtering it.
pub(crate) proof fn lemma_filter_all<A>(s: Seq<A>, pred: spec_fn(A) -> bool)
    requires
        forall|i: int| 0 <= i < s.len() ==> pred(#[trigger] s[i]),
    ensures
        s.filter(pred) == s,
    decreases s.len(),
{
    reveal(Seq::filter);
    if s.len() > 0 {
        let front = s.drop_last();
        assert(forall|i: int| 0 <= i < front.len() ==> (#[trigger] front[i]) == s[i]);
        lemma_filter_all(front, pred);
        assert(s =~= front.push(s.last()));
        assert(pred(s[s.len() - 1]));
        lemma_filter_push(front, s.last(), pred);
    } else {
        assert(s.filter(pred) =~= s);
    }
}

} // verus!
