//! Ids made of names.

use vstd::prelude::*;

use crate::text::{chars_of, lower_char, lower_text, slice_chars, string_of, to_lower};

verus! {

/// Whether `c` is a lower-case ASCII letter or an ASCII digit.
pub open spec fn is_slug_char(c: char) -> bool {
    ('a' <= c && c <= 'z') || ('0' <= c && c <= '9')
}

/// The letters and digits of a name in lower case, with one hyphen for each run of other
/// characters.
pub open spec fn hyphenated(name: Seq<char>) -> Seq<char>
    decreases name.len(),
{
    if name.len() == 0 {
        seq![]
    } else {
        let head = hyphenated(name.drop_last());
        let c = lower_char(name.last());
        if is_slug_char(c) {
            head.push(c)
        } else if head.len() > 0 && head.last() == '-' {
            head
        } else {
            head.push('-')
        }
    }
}

/// A text without the hyphens that it starts with.
pub open spec fn without_leading_hyphens(s: Seq<char>) -> Seq<char>
    decreases s.len(),
{
    if s.len() > 0 && s[0] == '-' {
        without_leading_hyphens(s.drop_first())
    } else {
        s
    }
}

/// A text without the hyphens that it ends with.
pub open spec fn without_trailing_hyphens(s: Seq<char>) -> Seq<char>
    decreases s.len(),
{
    if s.len() > 0 && s.last() == '-' {
        without_trailing_hyphens(s.drop_last())
    } else {
        s
    }
}

/// The id that a name is given.
pub open spec fn slug(name: Seq<char>) -> Seq<char> {
    without_trailing_hyphens(without_leading_hyphens(hyphenated(name)))
}

/// The id that `name` is given.
pub fn slugify(name: &str) -> (r: String)
    ensures
        r@ == slug(name@),
{
    let cs = chars_of(name);
    let mut out: Vec<char> = Vec::new();
    let mut i: usize = 0;
    assert(cs@.take(0) =~= Seq::<char>::empty());
    while i < cs.len()
        invariant
            i <= cs@.len(),
            out@ == hyphenated(cs@.take(i as int)),
        decreases cs@.len() - i,
    {
        assert(cs@.take(i + 1).drop_last() =~= cs@.take(i as int));
        let c = to_lower(cs[i]);
        if ('a' <= c && c <= 'z') || ('0' <= c && c <= '9') {
            out.push(c);
        } else if out.len() > 0 && out[out.len() - 1] == '-' {
        } else {
            out.push('-');
        }
        i = i + 1;
    }
    assert(cs@.take(i as int) =~= name@);
    let mut from: usize = 0;
    assert(out@.skip(0) =~= out@);
    while from < out.len() && out[from] == '-'
        invariant
            from <= out@.len(),
            without_leading_hyphens(out@) == without_leading_hyphens(out@.skip(from as int)),
        decreases out@.len() - from,
    {
        assert(out@.skip(from as int).drop_first() =~= out@.skip(from + 1));
        from = from + 1;
    }
    let ghost started = out@.skip(from as int);
    let mut to: usize = out.len();
    assert(started =~= out@.subrange(from as int, to as int));
    while from < to && out[to - 1] == '-'
        invariant
            from <= to <= out@.len(),
            without_trailing_hyphens(started) == without_trailing_hyphens(
                out@.subrange(from as int, to as int),
            ),
        decreases to,
    {
        assert(out@.subrange(from as int, to as int).drop_last() =~= out@.subrange(
            from as int,
            to - 1,
        ));
        to = to - 1;
    }
    string_of(&slice_chars(&out, from, to))
}

/// Whether a text holds nothing but lower-case letters, digits and single hyphens.
pub open spec fn is_hyphenated(s: Seq<char>) -> bool {
    &&& forall|i: int| 0 <= i < s.len() ==> is_slug_char(#[trigger] s[i]) || s[i] == '-'
    &&& forall|i: int, j: int|
        0 <= i && j == i + 1 && j < s.len() ==> !(#[trigger] s[i] == '-' && #[trigger] s[j] == '-')
}

/// Whether a text has the shape of an id.
pub open spec fn is_slug(s: Seq<char>) -> bool {
    &&& is_hyphenated(s)
    &&& s.len() > 0 ==> s[0] != '-' && s.last() != '-'
}

proof fn lemma_hyphenated_shape(name: Seq<char>)
    ensures
        is_hyphenated(hyphenated(name)),
    decreases name.len(),
{
    if name.len() > 0 {
        lemma_hyphenated_shape(name.drop_last());
    }
}

proof fn lemma_leading_shape(s: Seq<char>)
    requires
        is_hyphenated(s),
    ensures
        is_hyphenated(without_leading_hyphens(s)),
        without_leading_hyphens(s).len() > 0 ==> without_leading_hyphens(s)[0] != '-',
    decreases s.len(),
{
    if s.len() > 0 && s[0] == '-' {
        let d = s.drop_first();
        assert forall|i: int, j: int| 0 <= i && j == i + 1 && j < d.len() implies !(#[trigger] d[i]
            == '-' && #[trigger] d[j] == '-') by {
            assert(d[i] == s[i + 1] && d[j] == s[j + 1]);
        }
        lemma_leading_shape(d);
    }
}

proof fn lemma_trailing_shape(s: Seq<char>)
    requires
        is_hyphenated(s),
        s.len() > 0 ==> s[0] != '-',
    ensures
        is_slug(without_trailing_hyphens(s)),
    decreases s.len(),
{
    if s.len() > 0 && s.last() == '-' {
        lemma_trailing_shape(s.drop_last());
    }
}

/// An id holds nothing but lower-case ASCII letters, digits and hyphens; it neither starts nor
/// ends with a hyphen, and no two hyphens stand side by side.
pub proof fn law_slug_shape(name: Seq<char>)
    ensures
        is_slug(slug(name)),
{
    lemma_hyphenated_shape(name);
    lemma_leading_shape(hyphenated(name));
    lemma_trailing_shape(without_leading_hyphens(hyphenated(name)));
}

proof fn lemma_hyphenated_fixed(s: Seq<char>)
    requires
        is_hyphenated(s),
    ensures
        hyphenated(s) == s,
    decreases s.len(),
{
    if s.len() > 0 {
        lemma_hyphenated_fixed(s.drop_last());
        assert(s =~= s.drop_last().push(s.last()));
        assert(is_slug_char(s[s.len() - 1]) || s[s.len() - 1] == '-');
        if s.len() > 1 {
            assert(!(s[s.len() - 2] == '-' && s[s.len() - 1] == '-'));
        }
    } else {
        assert(s =~= seq![]);
    }
}

/// An id is its own id.
pub proof fn law_slug_idempotent(name: Seq<char>)
    ensures
        slug(slug(name)) == slug(name),
{
    law_slug_shape(name);
    lemma_hyphenated_fixed(slug(name));
}

/// Names that differ in ASCII case only are given the same id.
pub proof fn law_slug_ignores_case(a: Seq<char>, b: Seq<char>)
    requires
        lower_text(a) == lower_text(b),
    ensures
        slug(a) == slug(b),
{
    lemma_hyphenated_ignores_case(a, b);
}

proof fn lemma_hyphenated_ignores_case(a: Seq<char>, b: Seq<char>)
    requires
        lower_text(a) == lower_text(b),
    ensures
        hyphenated(a) == hyphenated(b),
    decreases a.len(),
{
    assert(a.len() == lower_text(a).len());
    assert(b.len() == lower_text(b).len());
    if a.len() > 0 {
        assert(lower_text(a.drop_last()) =~= lower_text(a).drop_last());
        assert(lower_text(b.drop_last()) =~= lower_text(b).drop_last());
        lemma_hyphenated_ignores_case(a.drop_last(), b.drop_last());
        assert(lower_text(a)[a.len() - 1] == lower_char(a.last()));
        assert(lower_text(b)[b.len() - 1] == lower_char(b.last()));
    }
}

/// The letters and digits of a text, in lower case.
pub open spec fn letters_and_digits(s: Seq<char>) -> Seq<char>
    decreases s.len(),
{
    if s.len() == 0 {
        seq![]
    } else {
        let c = s.last();
        let before = letters_and_digits(s.drop_last());
        if 'A' <= c <= 'Z' {
            before.push(((c as u8) + 32) as u8 as char)
        } else if ('a' <= c <= 'z') || ('0' <= c <= '9') {
            before.push(c)
        } else {
            before
        }
    }
}

proof fn lemma_letters_concat(a: Seq<char>, b: Seq<char>)
    ensures
        letters_and_digits(a + b) == letters_and_digits(a) + letters_and_digits(b),
    decreases b.len(),
{
    if b.len() == 0 {
        assert(a + b =~= a);
        assert(letters_and_digits(a) + letters_and_digits(b) =~= letters_and_digits(a));
    } else {
        assert((a + b).drop_last() =~= a + b.drop_last());
        lemma_letters_concat(a, b.drop_last());
        assert(letters_and_digits(a + b) =~= letters_and_digits(a) + letters_and_digits(b));
    }
}

proof fn lemma_letters_kept(name: Seq<char>)
    ensures
        letters_and_digits(hyphenated(name)) == letters_and_digits(name),
    decreases name.len(),
{
    if name.len() > 0 {
        lemma_letters_kept(name.drop_last());
        let head = hyphenated(name.drop_last());
        let all = hyphenated(name);
        if all.len() > head.len() {
            assert(all.drop_last() =~= head);
        }
    }
}

proof fn lemma_letters_of_leading(s: Seq<char>)
    ensures
        letters_and_digits(without_leading_hyphens(s)) == letters_and_digits(s),
    decreases s.len(),
{
    if s.len() > 0 && s[0] == '-' {
        lemma_letters_of_leading(s.drop_first());
        assert(s =~= seq![s[0]] + s.drop_first());
        lemma_letters_concat(seq![s[0]], s.drop_first());
        reveal_with_fuel(letters_and_digits, 2);
        assert(seq![s[0]].drop_last() =~= seq![]);
        assert(letters_and_digits(seq![s[0]]) =~= seq![]);
        assert(letters_and_digits(s) =~= letters_and_digits(s.drop_first()));
    }
}

proof fn lemma_letters_of_trailing(s: Seq<char>)
    ensures
        letters_and_digits(without_trailing_hyphens(s)) == letters_and_digits(s),
    decreases s.len(),
{
    if s.len() > 0 && s.last() == '-' {
        lemma_letters_of_trailing(s.drop_last());
    }
}

/// An id keeps the letters and digits of the name in their order, in lower case.
pub proof fn law_slug_keeps_letters_and_digits(name: Seq<char>)
    ensures
        letters_and_digits(slug(name)) == letters_and_digits(name),
{
    lemma_letters_kept(name);
    lemma_letters_of_leading(hyphenated(name));
    lemma_letters_of_trailing(without_leading_hyphens(hyphenated(name)));
}

/// Whether a text holds letters and digits only.
pub open spec fn is_plain(s: Seq<char>) -> bool {
    forall|i: int|
        0 <= i < s.len() ==> ('a' <= #[trigger] s[i] <= 'z') || ('0' <= s[i] <= '9') || ('A' <= s[i]
            <= 'Z')
}

proof fn lemma_hyphenated_plain(front: Seq<char>, word: Seq<char>)
    requires
        is_plain(word),
    ensures
        hyphenated(front + word) == hyphenated(front) + lower_text(word),
    decreases word.len(),
{
    if word.len() == 0 {
        assert(front + word =~= front);
        assert(hyphenated(front) + lower_text(word) =~= hyphenated(front));
    } else {
        assert((front + word).drop_last() =~= front + word.drop_last());
        assert forall|i: int| 0 <= i < word.drop_last().len() implies ('a'
            <= #[trigger] word.drop_last()[i] <= 'z') || ('0' <= word.drop_last()[i] <= '9') || ('A'
            <= word.drop_last()[i] <= 'Z') by {
            assert(word.drop_last()[i] == word[i]);
        }
        lemma_hyphenated_plain(front, word.drop_last());
        let c = word[word.len() - 1];
        assert(is_slug_char(lower_char(c)));
        assert(lower_text(word) =~= lower_text(word.drop_last()).push(lower_char(c)));
        assert(hyphenated(front + word) =~= hyphenated(front) + lower_text(word));
    }
}

proof fn lemma_hyphenated_gap(front: Seq<char>, gap: Seq<char>)
    requires
        gap.len() > 0,
        forall|i: int| 0 <= i < gap.len() ==> !is_slug_char(lower_char(#[trigger] gap[i])),
        front.len() > 0,
        hyphenated(front).len() > 0,
        hyphenated(front).last() != '-',
    ensures
        hyphenated(front + gap) == hyphenated(front).push('-'),
    decreases gap.len(),
{
    assert((front + gap).drop_last() =~= front + gap.drop_last());
    assert(!is_slug_char(lower_char(gap[gap.len() - 1])));
    if gap.len() == 1 {
        assert(front + gap.drop_last() =~= front);
    } else {
        assert forall|i: int| 0 <= i < gap.drop_last().len() implies !is_slug_char(
            lower_char(#[trigger] gap.drop_last()[i]),
        ) by {
            assert(gap.drop_last()[i] == gap[i]);
        }
        lemma_hyphenated_gap(front, gap.drop_last());
    }
}

/// Two words with something else than letters and digits between them have one hyphen between them in
/// the id.
pub proof fn law_slug_joins_words(a: Seq<char>, gap: Seq<char>, b: Seq<char>)
    requires
        a.len() > 0,
        b.len() > 0,
        gap.len() > 0,
        is_plain(a),
        is_plain(b),
        forall|i: int|
            0 <= i < gap.len() ==> !(('a' <= #[trigger] gap[i] <= 'z') || ('0' <= gap[i] <= '9') || (
            'A' <= gap[i] <= 'Z')),
    ensures
        slug(a + gap + b) == lower_text(a) + seq!['-'] + lower_text(b),
        slug(a) == lower_text(a),
{
    let none: Seq<char> = seq![];
    lemma_hyphenated_plain(none, a);
    assert(none + a =~= a);
    assert(hyphenated(a) =~= lower_text(a));
    assert(is_slug_char(lower_char(a[a.len() - 1])));
    assert(is_slug_char(lower_char(a[0])));
    assert(is_slug_char(lower_char(b[b.len() - 1])));
    assert(lower_text(a).last() == lower_char(a[a.len() - 1]));
    assert forall|i: int| 0 <= i < gap.len() implies !is_slug_char(
        lower_char(#[trigger] gap[i]),
    ) by {}
    lemma_hyphenated_gap(a, gap);
    lemma_hyphenated_plain(a + gap, b);
    let whole = hyphenated(a + gap + b);
    assert(whole =~= lower_text(a) + seq!['-'] + lower_text(b));
    assert(whole[0] == lower_char(a[0]));
    assert(whole.last() == lower_char(b[b.len() - 1]));
}

/// What has the shape of an id is its own id.
pub proof fn law_slug_of_an_id(s: Seq<char>)
    requires
        is_slug(s),
    ensures
        slug(s) == s,
{
    lemma_hyphenated_fixed(s);
}

/// Any character that is no letter and no digit counts as a hyphen, and two hyphens as one.
pub proof fn law_slug_of_gaps(front: Seq<char>, c: char, back: Seq<char>)
    requires
        !(('a' <= c <= 'z') || ('0' <= c <= '9') || ('A' <= c <= 'Z')),
    ensures
        slug(front.push(c) + back) == slug(front.push('-') + back),
        slug(front.push('-').push('-') + back) == slug(front.push('-') + back),
{
    lemma_hyphenated_gaps(front, c, back);
}

proof fn lemma_hyphenated_gaps(front: Seq<char>, c: char, back: Seq<char>)
    requires
        !(('a' <= c <= 'z') || ('0' <= c <= '9') || ('A' <= c <= 'Z')),
    ensures
        hyphenated(front.push(c) + back) == hyphenated(front.push('-') + back),
        hyphenated(front.push('-').push('-') + back) == hyphenated(front.push('-') + back),
    decreases back.len(),
{
    let one = front.push('-') + back;
    let other = front.push(c) + back;
    let two = front.push('-').push('-') + back;
    if back.len() == 0 {
        assert(one =~= front.push('-'));
        assert(other =~= front.push(c));
        assert(two =~= front.push('-').push('-'));
        assert(front.push('-').drop_last() =~= front);
        assert(front.push(c).drop_last() =~= front);
        assert(front.push('-').push('-').drop_last() =~= front.push('-'));
        assert(!is_slug_char(lower_char(c)));
        assert(!is_slug_char(lower_char('-')));
    } else {
        lemma_hyphenated_gaps(front, c, back.drop_last());
        assert(one.drop_last() =~= front.push('-') + back.drop_last());
        assert(other.drop_last() =~= front.push(c) + back.drop_last());
        assert(two.drop_last() =~= front.push('-').push('-') + back.drop_last());
    }
}

} // verus!
