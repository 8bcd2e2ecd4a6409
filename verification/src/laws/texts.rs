//! Numerals, lists and order of texts.

use vstd::prelude::*;

verus! {

/// `value` stands in a text between `label` and `end`.
pub open spec fn shows(
    text: Seq<char>,
    label: Seq<char>,
    value: Seq<char>,
    end: Seq<char>,
) -> bool {
    exists|before: Seq<char>, after: Seq<char>|
        text == #[trigger] (before + label + value + end + after)
}

/// A text ends with another one.
pub open spec fn ends_with(text: Seq<char>, tail: Seq<char>) -> bool {
    exists|front: Seq<char>| text == #[trigger] (front + tail)
}

pub(crate) broadcast proof fn lemma_shows_here(
    before: Seq<char>,
    label: Seq<char>,
    value: Seq<char>,
    end: Seq<char>,
)
    ensures
        #[trigger] shows(before + label + value + end, label, value, end),
{
    assert(before + label + value + end =~= before + label + value + end + Seq::<char>::empty());
}

pub(crate) broadcast proof fn lemma_shows_first(
    label: Seq<char>,
    value: Seq<char>,
    end: Seq<char>,
)
    ensures
        #[trigger] shows(label + value + end, label, value, end),
{
    assert(label + value + end =~= Seq::<char>::empty() + label + value + end
        + Seq::<char>::empty());
}

pub(crate) broadcast proof fn lemma_shows_more(
    text: Seq<char>,
    rest: Seq<char>,
    label: Seq<char>,
    value: Seq<char>,
    end: Seq<char>,
)
    requires
        shows(text, label, value, end),
    ensures
        #[trigger] shows(text + rest, label, value, end),
{
    let (before, after) = choose|before: Seq<char>, after: Seq<char>|
        text == #[trigger] (before + label + value + end + after);
    assert(text + rest =~= before + label + value + end + (after + rest));
}

pub(crate) proof fn lemma_shows_behind(
    front: Seq<char>,
    text: Seq<char>,
    label: Seq<char>,
    value: Seq<char>,
    end: Seq<char>,
)
    requires
        shows(text, label, value, end),
    ensures
        shows(front + text, label, value, end),
{
    let (before, after) = choose|before: Seq<char>, after: Seq<char>|
        text == #[trigger] (before + label + value + end + after);
    assert(front + text =~= (front + before) + label + value + end + after);
}

proof fn lemma_decimal_reads(n: nat, f: spec_fn(int, char) -> int)
    requires
        forall|v: int, c: char| #[trigger] f(v, c) == 10 * v + (c as int - '0' as int),
    ensures
        crate::text::decimal(n).fold_left(0int, f) == n,
    decreases n,
{
    let digits = crate::text::decimal(n);
    if n >= 10 {
        lemma_decimal_reads(n / 10, f);
        assert(digits.drop_last() =~= crate::text::decimal(n / 10));
    } else {
        reveal_with_fuel(Seq::fold_left, 2);
        assert(digits.drop_last() =~= Seq::<char>::empty());
    }
}

proof fn lemma_decimal_digits(n: nat)
    ensures
        crate::text::decimal(n).len() > 0,
        forall|i: int|
            0 <= i < crate::text::decimal(n).len() ==> '0' <= #[trigger] crate::text::decimal(n)[i]
                && crate::text::decimal(n)[i] <= '9',
        n > 0 ==> crate::text::decimal(n)[0] != '0',
    decreases n,
{
    if n >= 10 {
        let digits = crate::text::decimal(n);
        let front = crate::text::decimal(n / 10);
        lemma_decimal_digits(n / 10);
        assert forall|i: int| 0 <= i < digits.len() implies '0' <= #[trigger] digits[i]
            && digits[i] <= '9' by {
            if i < front.len() {
                assert(front[i] == digits[i]);
            }
        }
        assert(digits[0] == front[0]);
    }
}

/// A numeral has digits only, no zero in front, and reads as its number.
pub proof fn law_numerals_read_as_their_number(n: nat)
    ensures
        ({
            let digits = crate::text::decimal(n);
            &&& digits.len() > 0
            &&& forall|i: int| 0 <= i < digits.len() ==> '0' <= #[trigger] digits[i] && digits[i]
                <= '9'
            &&& n > 0 ==> digits[0] != '0'
            &&& n == 0 ==> digits.len() == 1
        }),
        crate::text::decimal(n).fold_left(
            0int,
            |v: int, c: char| 10 * v + (c as int - '0' as int),
        ) == n,
{
    lemma_decimal_digits(n);
    lemma_decimal_reads(n, |v: int, c: char| 10 * v + (c as int - '0' as int));
}

/// A numeral of a negative number is that of its opposite behind a minus sign.
pub proof fn law_minus_signs_mark_negative_numbers(i: int)
    ensures
        i >= 0 ==> crate::text::signed_decimal(i) == crate::text::decimal(i as nat),
        i < 0 ==> crate::text::signed_decimal(i) == seq!['-'] + crate::text::decimal((-i) as nat),
{
    reveal_strlit("-");
    assert("-"@ =~= seq!['-']);
}

/// Joined pieces: the first, then each further one behind the separator.
pub proof fn law_joining_keeps_every_piece(pieces: Seq<Seq<char>>, separator: Seq<char>)
    ensures
        pieces.len() == 0 ==> crate::text::joined(pieces, separator) == Seq::<char>::empty(),
        pieces.len() > 0 ==> crate::text::joined(pieces, separator) == pieces.skip(1).fold_left(
            pieces[0],
            |t: Seq<char>, p: Seq<char>| t + separator + p,
        ),
{
    if pieces.len() > 0 {
        lemma_joined_fold(
            pieces,
            separator,
            |t: Seq<char>, p: Seq<char>| t + separator + p,
        );
    }
}

proof fn lemma_joined_fold(
    pieces: Seq<Seq<char>>,
    separator: Seq<char>,
    f: spec_fn(Seq<char>, Seq<char>) -> Seq<char>,
)
    requires
        pieces.len() > 0,
        forall|t: Seq<char>, p: Seq<char>| #[trigger] f(t, p) == t + separator + p,
    ensures
        crate::text::joined(pieces, separator) == pieces.skip(1).fold_left(pieces[0], f),
    decreases pieces.len(),
{
    if pieces.len() > 1 {
        let front = pieces.drop_last();
        lemma_joined_fold(front, separator, f);
        assert(pieces.skip(1).drop_last() =~= front.skip(1));
        assert(pieces.skip(1).last() == pieces.last());
    } else {
        assert(pieces.skip(1) =~= Seq::<Seq<char>>::empty());
    }
}

/// A repeated text is its piece over and over.
pub proof fn law_repetition_repeats(piece: Seq<char>, count: nat)
    ensures
        crate::text::repeated(piece, count) == Seq::new(count, |i: int| piece).fold_left(
            Seq::<char>::empty(),
            |t: Seq<char>, p: Seq<char>| t + p,
        ),
{
    lemma_repeated_fold(
        piece,
        Seq::new(count, |i: int| piece),
        |t: Seq<char>, p: Seq<char>| t + p,
    );
}

proof fn lemma_repeated_fold(
    piece: Seq<char>,
    pieces: Seq<Seq<char>>,
    f: spec_fn(Seq<char>, Seq<char>) -> Seq<char>,
)
    requires
        forall|i: int| 0 <= i < pieces.len() ==> #[trigger] pieces[i] == piece,
        forall|t: Seq<char>, p: Seq<char>| #[trigger] f(t, p) == t + p,
    ensures
        crate::text::repeated(piece, pieces.len()) == pieces.fold_left(Seq::<char>::empty(), f),
    decreases pieces.len(),
{
    if pieces.len() > 0 {
        let front = pieces.drop_last();
        assert forall|i: int| 0 <= i < front.len() implies #[trigger] front[i] == piece by {
            assert(pieces[i] == piece);
        }
        lemma_repeated_fold(piece, front, f);
        assert(pieces[pieces.len() - 1] == piece);
    }
}

/// A text precedes another where it is a part of it from the start, or has the
/// smaller character where the two first differ.
pub proof fn law_texts_are_ordered_by_their_first_difference(a: Seq<char>, b: Seq<char>)
    ensures
        crate::text::precedes(a, b) <==> exists|k: int|
            {
                &&& 0 <= k <= a.len()
                &&& k < b.len()
                &&& #[trigger] a.take(k) == b.take(k)
                &&& k == a.len() || (a[k] as int) < (b[k] as int)
            },
    decreases a.len(),
{
    if b.len() > 0 {
        if a.len() == 0 {
            assert(a.take(0) =~= b.take(0));
        } else if a[0] != b[0] {
            assert(a.take(0) =~= b.take(0));
            if exists|k: int|
                {
                    &&& 0 <= k <= a.len()
                    &&& k < b.len()
                    &&& #[trigger] a.take(k) == b.take(k)
                    &&& k == a.len() || (a[k] as int) < (b[k] as int)
                } {
                let k = choose|k: int|
                    {
                        &&& 0 <= k <= a.len()
                        &&& k < b.len()
                        &&& #[trigger] a.take(k) == b.take(k)
                        &&& k == a.len() || (a[k] as int) < (b[k] as int)
                    };
                if k > 0 {
                    assert(a.take(k)[0] == b.take(k)[0]);
                }
            }
        } else {
            let a1 = a.skip(1);
            let b1 = b.skip(1);
            law_texts_are_ordered_by_their_first_difference(a1, b1);
            if crate::text::precedes(a1, b1) {
                let k = choose|k: int|
                    {
                        &&& 0 <= k <= a1.len()
                        &&& k < b1.len()
                        &&& #[trigger] a1.take(k) == b1.take(k)
                        &&& k == a1.len() || (a1[k] as int) < (b1[k] as int)
                    };
                assert(a.take(k + 1) =~= seq![a[0]] + a1.take(k));
                assert(b.take(k + 1) =~= seq![b[0]] + b1.take(k));
            }
            if exists|k: int|
                {
                    &&& 0 <= k <= a.len()
                    &&& k < b.len()
                    &&& #[trigger] a.take(k) == b.take(k)
                    &&& k == a.len() || (a[k] as int) < (b[k] as int)
                } {
                let k = choose|k: int|
                    {
                        &&& 0 <= k <= a.len()
                        &&& k < b.len()
                        &&& #[trigger] a.take(k) == b.take(k)
                        &&& k == a.len() || (a[k] as int) < (b[k] as int)
                    };
                assert(k > 0);
                assert(a1.take(k - 1) =~= a.take(k).skip(1));
                assert(b1.take(k - 1) =~= b.take(k).skip(1));
                assert(a1.take(k - 1) == b1.take(k - 1));
            }
        }
    }
}

/// Trimming takes whitespace from both ends and nothing else.
pub proof fn law_trimming_takes_whitespace_only(text: Seq<char>)
    ensures
        exists|from: int, to: int|
            {
                &&& 0 <= from <= to <= text.len()
                &&& crate::text::trimmed(text) == #[trigger] text.subrange(from, to)
                &&& forall|i: int| 0 <= i < from ==> crate::outside::white_space(#[trigger] text[i])
                &&& forall|i: int|
                    to <= i < text.len() ==> crate::outside::white_space(#[trigger] text[i])
                &&& from < to ==> !crate::outside::white_space(text[from])
                    && !crate::outside::white_space(text[to - 1])
            },
{
    let from = lemma_front(text);
    let front = crate::text::trimmed_front(text);
    let kept = lemma_back(front);
    let to = from + kept;
    assert(crate::text::trimmed(text) =~= text.subrange(from, to));
    assert forall|i: int| to <= i < text.len() implies crate::outside::white_space(
        #[trigger] text[i],
    ) by {
        assert(front[i - from] == text[i]);
    }
    if from < to {
        assert(front[0] == text[from]);
        assert(front[kept - 1] == text[to - 1]);
    }
}

proof fn lemma_front(text: Seq<char>) -> (from: int)
    ensures
        0 <= from <= text.len(),
        crate::text::trimmed_front(text) == text.skip(from),
        forall|i: int| 0 <= i < from ==> crate::outside::white_space(#[trigger] text[i]),
        from < text.len() ==> !crate::outside::white_space(text[from]),
    decreases text.len(),
{
    if text.len() > 0 && crate::outside::white_space(text[0]) {
        let rest = text.skip(1);
        let from = lemma_front(rest);
        assert(rest.skip(from) =~= text.skip(from + 1));
        assert forall|i: int| 0 <= i < from + 1 implies crate::outside::white_space(
            #[trigger] text[i],
        ) by {
            if i > 0 {
                assert(rest[i - 1] == text[i]);
            }
        }
        from + 1
    } else {
        assert(text.skip(0) =~= text);
        0
    }
}

proof fn lemma_back(text: Seq<char>) -> (to: int)
    ensures
        0 <= to <= text.len(),
        crate::text::trimmed_back(text) == text.take(to),
        forall|i: int| to <= i < text.len() ==> crate::outside::white_space(#[trigger] text[i]),
        0 < to ==> !crate::outside::white_space(text[to - 1]),
    decreases text.len(),
{
    if text.len() > 0 && crate::outside::white_space(text.last()) {
        let rest = text.drop_last();
        let to = lemma_back(rest);
        assert(rest.take(to) =~= text.take(to));
        assert forall|i: int| to <= i < text.len() implies crate::outside::white_space(
            #[trigger] text[i],
        ) by {
            if i < rest.len() {
                assert(rest[i] == text[i]);
            }
        }
        to
    } else {
        assert(text.take(text.len() as int) =~= text);
        text.len() as int
    }
}

/// An optional text stands for itself, and a missing one for `N/A`.
pub proof fn law_missing_texts_are_marked(s: Option<String>)
    ensures
        s matches Some(t) ==> crate::text::or_missing(crate::text::opt_text(s)) == t@,
        s is None ==> crate::text::or_missing(crate::text::opt_text(s)) == "N/A"@,
        s matches Some(t) ==> crate::text::opt_text(s) == Some(t@),
        s is None ==> crate::text::opt_text(s) is None,
{
}

} // verus!
