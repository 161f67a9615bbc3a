//! Splitting a token sequence into slides at separator tokens.
//!
//! A slide is a maximal run of tokens without a separator. The separators
//! themselves belong to no slide. A sequence with `k` separators has `k + 1`
//! slides, some of which may be empty.
//!
//! The model speaks of a token sequence together with one flag per token that
//! says whether the token is a separator.

use vstd::prelude::*;
use vstd::slice::slice_subrange;

verus! {

/// The slides of `tokens`, in order, where `separates[i]` says whether
/// `tokens[i]` is a separator.
pub open spec fn slides_of<T>(tokens: Seq<T>, separates: Seq<bool>) -> Seq<Seq<T>>
    recommends
        tokens.len() == separates.len(),
    decreases tokens.len(),
{
    if tokens.len() == 0 {
        seq![Seq::<T>::empty()]
    } else {
        let before = slides_of(tokens.drop_last(), separates.drop_last());
        if separates.last() {
            before.push(Seq::<T>::empty())
        } else {
            before.drop_last().push(before.last().push(tokens.last()))
        }
    }
}

/// The number of flags that are set.
pub open spec fn separator_count(separates: Seq<bool>) -> nat
    decreases separates.len(),
{
    if separates.len() == 0 {
        0
    } else {
        separator_count(separates.drop_last()) + if separates.last() {
            1nat
        } else {
            0nat
        }
    }
}

/// The tokens of `tokens` that are no separators, in order.
pub open spec fn content_of<T>(tokens: Seq<T>, separates: Seq<bool>) -> Seq<T>
    recommends
        tokens.len() == separates.len(),
    decreases tokens.len(),
{
    if tokens.len() == 0 {
        Seq::empty()
    } else if separates.last() {
        content_of(tokens.drop_last(), separates.drop_last())
    } else {
        content_of(tokens.drop_last(), separates.drop_last()).push(tokens.last())
    }
}

/// All of `slides`, one after the other.
pub open spec fn concat<T>(slides: Seq<Seq<T>>) -> Seq<T>
    decreases slides.len(),
{
    if slides.len() == 0 {
        Seq::empty()
    } else {
        concat(slides.drop_last()) + slides.last()
    }
}

/// The views of a sequence of slices.
pub open spec fn slice_views<T>(slices: Seq<&[T]>) -> Seq<Seq<T>> {
    slices.map_values(|s: &[T]| s@)
}

/// `separates` holds, token by token, an answer that `predicate` can give.
pub open spec fn answers<T, F: Fn(&T) -> bool>(
    predicate: F,
    tokens: Seq<T>,
    separates: Seq<bool>,
) -> bool {
    &&& separates.len() == tokens.len()
    &&& forall|i: int|
        0 <= i < tokens.len() ==> call_ensures(predicate, (&tokens[i],), #[trigger] separates[i])
}

/// Whatever `predicate` returns for a token is what `property` says of it.
pub open spec fn decides<T, F: Fn(&T) -> bool>(predicate: F, property: spec_fn(T) -> bool) -> bool {
    forall|t: T, answer: bool| #[trigger]
        call_ensures(predicate, (&t,), answer) ==> answer == property(t)
}

/// Count. With `k` separators there are `k + 1` slides.
pub proof fn lemma_slide_count<T>(tokens: Seq<T>, separates: Seq<bool>)
    requires
        tokens.len() == separates.len(),
    ensures
        slides_of(tokens, separates).len() == separator_count(separates) + 1,
    decreases tokens.len(),
{
    if tokens.len() > 0 {
        lemma_slide_count(tokens.drop_last(), separates.drop_last());
    }
}

/// Order. The slides, one after the other, are the tokens without the
/// separators: nothing is lost, added or moved.
pub proof fn lemma_slides_keep_content<T>(tokens: Seq<T>, separates: Seq<bool>)
    requires
        tokens.len() == separates.len(),
    ensures
        concat(slides_of(tokens, separates)) == content_of(tokens, separates),
    decreases tokens.len(),
{
    if tokens.len() == 0 {
        let slides = slides_of(tokens, separates);
        assert(slides.drop_last() =~= Seq::<Seq<T>>::empty());
        reveal_with_fuel(concat, 2);
        assert(concat(slides) =~= Seq::<T>::empty());
    } else {
        let before = slides_of(tokens.drop_last(), separates.drop_last());
        lemma_slide_count(tokens.drop_last(), separates.drop_last());
        lemma_slides_keep_content(tokens.drop_last(), separates.drop_last());
        if separates.last() {
            let slides = before.push(Seq::<T>::empty());
            assert(slides.drop_last() =~= before);
            assert(concat(slides) =~= concat(before));
        } else {
            let slides = before.drop_last().push(before.last().push(tokens.last()));
            assert(slides.drop_last() =~= before.drop_last());
            assert(concat(slides) =~= concat(before).push(tokens.last()));
        }
    }
}

/// A sequence without separators is one slide: the whole sequence.
pub proof fn lemma_no_separator_one_slide<T>(tokens: Seq<T>, separates: Seq<bool>)
    requires
        tokens.len() == separates.len(),
        separator_count(separates) == 0,
    ensures
        slides_of(tokens, separates) == seq![tokens],
    decreases tokens.len(),
{
    if tokens.len() == 0 {
        assert(tokens =~= Seq::<T>::empty());
        assert(slides_of(tokens, separates) =~= seq![tokens]);
    } else {
        lemma_no_separator_one_slide(tokens.drop_last(), separates.drop_last());
        let before = slides_of(tokens.drop_last(), separates.drop_last());
        assert(before.last() == tokens.drop_last());
        assert(before.drop_last() =~= Seq::<Seq<T>>::empty());
        assert(tokens.drop_last().push(tokens.last()) =~= tokens);
        assert(before.drop_last().push(before.last().push(tokens.last())) =~= seq![tokens]);
    }
}

/// A slide that a separator has closed stays as it is, whatever follows:
/// the slides before the last one of a prefix are slides of the whole.
pub proof fn lemma_closed_slides_stay<T>(tokens: Seq<T>, separates: Seq<bool>, n: int)
    requires
        tokens.len() == separates.len(),
        0 <= n <= tokens.len(),
    ensures
        separator_count(separates.take(n)) <= separator_count(separates),
        forall|j: int|
            0 <= j < separator_count(separates.take(n)) ==> #[trigger] slides_of(
                tokens,
                separates,
            )[j] == slides_of(tokens.take(n), separates.take(n))[j],
    decreases tokens.len(),
{
    if n == tokens.len() {
        assert(tokens.take(n) =~= tokens);
        assert(separates.take(n) =~= separates);
    } else {
        let shorter = tokens.drop_last();
        let flags = separates.drop_last();
        lemma_closed_slides_stay(shorter, flags, n);
        lemma_slide_count(shorter, flags);
        assert(shorter.take(n) =~= tokens.take(n));
        assert(flags.take(n) =~= separates.take(n));
    }
}

/// Two separators side by side have an empty slide between them: where the
/// tokens at `i` and `i + 1` are separators, the slide that the first of
/// them opens is empty.
pub proof fn lemma_adjacent_separators_empty_slide<T>(
    tokens: Seq<T>,
    separates: Seq<bool>,
    i: int,
)
    requires
        tokens.len() == separates.len(),
        0 <= i,
        i + 1 < tokens.len(),
        separates[i],
        separates[i + 1],
    ensures
        separator_count(separates.take(i + 1)) < slides_of(tokens, separates).len(),
        slides_of(tokens, separates)[separator_count(separates.take(i + 1)) as int].len() == 0,
{
    let head = tokens.take(i + 2);
    let flags = separates.take(i + 2);
    assert(flags.drop_last() =~= separates.take(i + 1));
    assert(flags.last() == separates[i + 1]);
    assert(flags.drop_last().last() == separates[i]);
    lemma_slide_count(head.drop_last().drop_last(), flags.drop_last().drop_last());
    lemma_slide_count(head.drop_last(), flags.drop_last());
    reveal_with_fuel(slides_of, 2);
    let opened = separator_count(separates.take(i + 1)) as int;
    assert(slides_of(head, flags)[opened].len() == 0);
    lemma_closed_slides_stay(tokens, separates, i + 2);
    lemma_slide_count(tokens, separates);
}

/// Splits `tokens` at every token for which `is_separator` returns `true`.
/// The slides borrow from `tokens`; the separators are dropped.
///
/// The slides are those of `tokens` under the answers that `is_separator`
/// gave, one per token. Where its answers are those of a property of tokens,
/// the slides are those of `tokens` under that property.
pub fn partition<'a, T, F: Fn(&T) -> bool>(tokens: &'a [T], is_separator: F) -> (slides: Vec<
    &'a [T],
>)
    requires
        forall|t: &T| call_requires(is_separator, (t,)),
    ensures
        exists|separates: Seq<bool>|
            {
                &&& #[trigger] answers(is_separator, tokens@, separates)
                &&& slice_views(slides@) == slides_of(tokens@, separates)
                &&& slides@.len() == separator_count(separates) + 1
                &&& concat(slice_views(slides@)) == content_of(tokens@, separates)
            },
        forall|property: spec_fn(T) -> bool| #[trigger]
            decides(is_separator, property) ==> slice_views(slides@) == slides_of(
                tokens@,
                tokens@.map_values(property),
            ),
{
    let ghost mut separates: Seq<bool> = Seq::empty();
    let mut slides: Vec<&'a [T]> = Vec::new();
    let mut start: usize = 0;
    let mut i: usize = 0;
    proof {
        assert(tokens@.take(0).len() == 0);
        assert(tokens@.subrange(0, 0) =~= Seq::<T>::empty());
        assert(slice_views(slides@).push(Seq::<T>::empty()) =~= seq![Seq::<T>::empty()]);
    }
    while i < tokens.len()
        invariant
            forall|t: &T| call_requires(is_separator, (t,)),
            start <= i <= tokens.len(),
            answers(is_separator, tokens@.take(i as int), separates),
            slides_of(tokens@.take(i as int), separates) == slice_views(slides@).push(
                tokens@.subrange(start as int, i as int),
            ),
        decreases tokens.len() - i,
    {
        let separator = is_separator(&tokens[i]);
        proof {
            let ghost earlier = separates;
            separates = separates.push(separator);
            assert(tokens@.take(i + 1).drop_last() =~= tokens@.take(i as int));
            assert(tokens@.take(i + 1).last() == tokens@[i as int]);
            assert(separates.drop_last() =~= earlier);
            assert forall|j: int| 0 <= j < i + 1 implies call_ensures(
                is_separator,
                (&tokens@.take(i + 1)[j],),
                #[trigger] separates[j],
            ) by {
                if j < i {
                    assert(separates[j] == earlier[j]);
                    assert(tokens@.take(i + 1)[j] == tokens@.take(i as int)[j]);
                }
            }
        }
        if separator {
            let slide = slice_subrange(tokens, start, i);
            let ghost before = slice_views(slides@);
            slides.push(slide);
            assert(slice_views(slides@) =~= before.push(tokens@.subrange(start as int, i as int)));
            start = i + 1;
            assert(tokens@.subrange(start as int, i + 1) =~= Seq::<T>::empty());
        } else {
            assert(tokens@.subrange(start as int, i + 1) =~= tokens@.subrange(
                start as int,
                i as int,
            ).push(tokens@[i as int]));
            assert(slice_views(slides@).push(tokens@.subrange(start as int, i as int)).drop_last()
                =~= slice_views(slides@));
        }
        i = i + 1;
    }
    let slide = slice_subrange(tokens, start, i);
    let ghost before = slice_views(slides@);
    slides.push(slide);
    proof {
        assert(slice_views(slides@) =~= before.push(tokens@.subrange(start as int, i as int)));
        assert(tokens@.take(i as int) =~= tokens@);
        lemma_slide_count(tokens@, separates);
        lemma_slides_keep_content(tokens@, separates);
        assert forall|property: spec_fn(T) -> bool| #[trigger]
            decides(is_separator, property) implies slice_views(slides@) == slides_of(
            tokens@,
            tokens@.map_values(property),
        ) by {
            assert forall|j: int| 0 <= j < tokens@.len() implies separates[j]
                == tokens@.map_values(property)[j] by {
                assert(call_ensures(is_separator, (&tokens@[j],), separates[j]));
            }
            assert(separates =~= tokens@.map_values(property));
        }
    }
    slides
}

} // verus!
