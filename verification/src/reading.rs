//! How a client reads an XML document: the tags of the document, and the attributes of a tag.

use vstd::prelude::*;

use crate::text::{decimal, is_digit, law_decimal_notation};
use crate::xml::{escaped, law_escaped_text_is_inert};

verus! {

/// The pieces of a text between the occurrences of a character.
pub open spec fn split(s: Seq<char>, c: char) -> Seq<Seq<char>>
    decreases s.len(),
{
    if s.len() == 0 {
        seq![seq![]]
    } else {
        let before = split(s.drop_last(), c);
        if s.last() == c {
            before.push(seq![])
        } else {
            before.drop_last().push(before.last().push(s.last()))
        }
    }
}

/// The tags of a document: what stands between one opening angle bracket and the next.
pub open spec fn tags(document: Seq<char>) -> Seq<Seq<char>> {
    split(document, '<')
}

/// The value that follows `name=` among the pieces of a tag between its quotation marks.
pub open spec fn value_in(parts: Seq<Seq<char>>, name: Seq<char>) -> Option<Seq<char>>
    decreases parts.len(),
{
    if parts.len() < 3 {
        None
    } else if parts[parts.len() - 3] == seq![' '] + name + seq!['='] {
        Some(parts[parts.len() - 2])
    } else {
        value_in(parts.take(parts.len() - 2), name)
    }
}

/// The value of an attribute of a tag, where the tag is that of an element of this name and has the
/// attribute.
pub open spec fn attribute(tag: Seq<char>, element: Seq<char>, name: Seq<char>) -> Option<Seq<char>> {
    if element.is_prefix_of(tag) {
        value_in(split(tag.skip(element.len() as int), '"'), name)
    } else {
        None
    }
}

/// The text that a value of an attribute stands for.
pub open spec fn unescaped(s: Seq<char>) -> Seq<char>
    decreases s.len(),
{
    if s.len() == 0 {
        seq![]
    } else if s.len() >= 5 && s.take(5) == seq!['&', 'a', 'm', 'p', ';'] {
        seq!['&'] + unescaped(s.skip(5))
    } else if s.len() >= 6 && s.take(6) == seq!['&', 'q', 'u', 'o', 't', ';'] {
        seq!['"'] + unescaped(s.skip(6))
    } else if s.len() >= 4 && s.take(4) == seq!['&', 'l', 't', ';'] {
        seq!['<'] + unescaped(s.skip(4))
    } else if s.len() >= 4 && s.take(4) == seq!['&', 'g', 't', ';'] {
        seq!['>'] + unescaped(s.skip(4))
    } else {
        seq![s[0]] + unescaped(s.skip(1))
    }
}

pub proof fn lemma_split_nonempty(s: Seq<char>, c: char)
    ensures
        split(s, c).len() > 0,
    decreases s.len(),
{
    if s.len() > 0 {
        lemma_split_nonempty(s.drop_last(), c);
    }
}

/// What stands on either side of the character is split on its own.
pub proof fn lemma_split_two(a: Seq<char>, c: char, b: Seq<char>)
    ensures
        split(a + seq![c] + b, c) == split(a, c) + split(b, c),
    decreases b.len(),
{
    let all = a + seq![c] + b;
    if b.len() == 0 {
        assert(all.drop_last() =~= a);
        assert(split(all, c) =~= split(a, c) + split(b, c));
    } else {
        assert(all.drop_last() =~= a + seq![c] + b.drop_last());
        lemma_split_two(a, c, b.drop_last());
        lemma_split_nonempty(b.drop_last(), c);
        let x = split(a, c);
        let y = split(b.drop_last(), c);
        assert((x + y).drop_last() =~= x + y.drop_last());
        assert((x + y).last() == y.last());
        assert(split(all, c) =~= x + split(b, c));
    }
}

/// Whether a text is without a character.
pub open spec fn lacks(s: Seq<char>, c: char) -> bool {
    forall|i: int| 0 <= i < s.len() ==> #[trigger] s[i] != c
}

/// A text without the character goes on with the last piece.
pub proof fn lemma_split_more(a: Seq<char>, b: Seq<char>, c: char)
    requires
        lacks(b, c),
    ensures
        split(a + b, c) == split(a, c).drop_last().push(split(a, c).last() + b),
    decreases b.len(),
{
    lemma_split_nonempty(a, c);
    let x = split(a, c);
    if b.len() == 0 {
        assert(a + b =~= a);
        assert(x.last() + b =~= x.last());
        assert(x =~= x.drop_last().push(x.last()));
    } else {
        assert((a + b).drop_last() =~= a + b.drop_last());
        assert(lacks(b.drop_last(), c)) by {
            assert(forall|i: int| 0 <= i < b.len() - 1 ==> #[trigger] b.drop_last()[i] == b[i]);
        }
        lemma_split_more(a, b.drop_last(), c);
        assert(b[b.len() - 1] != c);
        assert((x.last() + b.drop_last()).push(b.last()) =~= x.last() + b);
        assert(split(a + b, c) =~= x.drop_last().push(x.last() + b));
    }
}

pub proof fn lemma_split_one(s: Seq<char>, c: char)
    requires
        lacks(s, c),
    ensures
        split(s, c) == seq![s],
{
    let none: Seq<char> = seq![];
    lemma_split_more(none, s, c);
    assert(none + s =~= s);
    assert(split(none, c) =~= seq![none]);
    assert(split(s, c) =~= seq![s]);
}

/// Whether a text holds neither a quotation mark nor an opening angle bracket.
pub open spec fn clean(s: Seq<char>) -> bool {
    lacks(s, '"') && lacks(s, '<')
}

pub proof fn lemma_escaped_clean(s: Seq<char>)
    ensures
        clean(escaped(s)),
{
    law_escaped_text_is_inert(s);
}

pub proof fn lemma_decimal_clean(n: nat)
    ensures
        clean(decimal(n)),
{
    law_decimal_notation(n);
    assert forall|i: int| 0 <= i < decimal(n).len() implies #[trigger] decimal(n)[i] != '"'
        && decimal(n)[i] != '<' by {
        assert(is_digit(decimal(n)[i]));
    }
}

/// A row of attributes as it stands in a tag.
pub open spec fn quoted(name: Seq<char>, value: Seq<char>) -> Seq<char> {
    " "@ + name + "=\""@ + value + "\""@
}

/// The attributes that a row of them holds, by their names.
pub open spec fn pairs_in(row: Seq<char>) -> Map<Seq<char>, Seq<char>> {
    Map::new(
        |name: Seq<char>| value_in(split(row, '"'), name) is Some,
        |name: Seq<char>| value_in(split(row, '"'), name)->Some_0,
    )
}

/// Whether a text is a row of attributes: without angle brackets, and with what follows the last
/// quotation mark empty.
pub open spec fn is_row(row: Seq<char>) -> bool {
    &&& lacks(row, '<')
    &&& split(row, '"').len() > 0
    &&& split(row, '"').last() == Seq::<char>::empty()
}

pub proof fn lemma_empty_row()
    ensures
        is_row(Seq::<char>::empty()),
        pairs_in(Seq::<char>::empty()) == Map::<Seq<char>, Seq<char>>::empty(),
{
    let none: Seq<char> = seq![];
    assert(split(none, '"') =~= seq![none]);
    assert(pairs_in(none) =~= Map::empty());
}

proof fn lemma_value_in_ignores_last(parts: Seq<Seq<char>>, last: Seq<char>, name: Seq<char>)
    requires
        parts.len() > 0,
    ensures
        value_in(parts.drop_last().push(last), name) == value_in(parts, name),
{
    let other = parts.drop_last().push(last);
    if parts.len() >= 3 {
        assert(other.take(other.len() - 2) =~= parts.take(parts.len() - 2));
    }
}

/// One more attribute is one more pair.
pub proof fn lemma_row_push(row: Seq<char>, name: Seq<char>, value: Seq<char>)
    requires
        is_row(row),
        clean(name),
        clean(value),
    ensures
        is_row(row + quoted(name, value)),
        pairs_in(row + quoted(name, value)) == pairs_in(row).insert(name, value),
{
    reveal_strlit(" ");
    reveal_strlit("=\"");
    reveal_strlit("\"");
    let key = seq![' '] + name + seq!['='];
    let all = row + quoted(name, value);
    let none: Seq<char> = seq![];
    assert(quoted(name, value) =~= key + seq!['"'] + value + seq!['"'] + none);
    assert(all =~= ((row + key) + seq!['"'] + value) + seq!['"'] + none);
    assert(lacks(key, '"')) by {
        assert forall|i: int| 0 <= i < key.len() implies #[trigger] key[i] != '"' by {
            if 0 < i && i < key.len() - 1 {
                assert(key[i] == name[i - 1]);
            }
        }
    }
    assert(lacks(all, '<')) by {
        assert forall|i: int| 0 <= i < all.len() implies #[trigger] all[i] != '<' by {
            let n = row.len();
            if i < n {
                assert(all[i] == row[i]);
            } else if n < i < n + 1 + name.len() {
                assert(all[i] == name[i - n - 1]);
            } else if n + 3 + name.len() <= i < n + 3 + name.len() + value.len() {
                assert(all[i] == value[i - n - 3 - name.len()]);
            }
        }
    }
    let old = split(row, '"');
    lemma_split_more(row, key, '"');
    lemma_split_two(row + key, '"', value);
    lemma_split_one(value, '"');
    lemma_split_two((row + key) + seq!['"'] + value, '"', none);
    lemma_split_one(none, '"');
    let new = split(all, '"');
    assert(old.last() + key =~= key);
    assert(new =~= old.drop_last().push(key).push(value).push(none));
    assert(new.take(new.len() - 2) =~= old.drop_last().push(key));
    assert forall|other: Seq<char>| value_in(new, other) == (if other == name {
        Some(value)
    } else {
        value_in(old, other)
    }) by {
        assert(new[new.len() - 3] == key);
        assert(new[new.len() - 2] == value);
        let wanted = seq![' '] + other + seq!['='];
        if wanted == key {
            assert(wanted.len() == other.len() + 2);
            assert forall|i: int| 0 <= i < other.len() implies other[i] == name[i] by {
                assert(wanted[i + 1] == other[i]);
                assert(key[i + 1] == name[i]);
            }
            assert(other =~= name);
        }
        lemma_value_in_ignores_last(old, key, other);
    }
    assert(pairs_in(all) =~= pairs_in(row).insert(name, value));
}

/// What a tag says: the pairs of its row of attributes.
pub proof fn lemma_attribute_of(
    tag: Seq<char>,
    element: Seq<char>,
    row: Seq<char>,
    end: Seq<char>,
    name: Seq<char>,
)
    requires
        tag == element + row + end,
        is_row(row),
        clean(end),
    ensures
        attribute(tag, element, name) == (if pairs_in(row).dom().contains(name) {
            Some(pairs_in(row)[name])
        } else {
            None
        }),
{
    assert(element =~= tag.subrange(0, element.len() as int));
    assert(tag.skip(element.len() as int) =~= row + end);
    lemma_split_more(row, end, '"');
    lemma_value_in_ignores_last(split(row, '"'), split(row, '"').last() + end, name);
}

/// A tag on its own: without an angle bracket in it.
pub proof fn lemma_tag_clean(element: Seq<char>, row: Seq<char>, end: Seq<char>)
    requires
        clean(element),
        is_row(row),
        clean(end),
    ensures
        lacks(element + row + end, '<'),
{
    let tag = element + row + end;
    assert forall|i: int| 0 <= i < tag.len() implies #[trigger] tag[i] != '<' by {
        if i < element.len() {
            assert(tag[i] == element[i]);
        } else if i < element.len() + row.len() {
            assert(tag[i] == row[i - element.len()]);
        } else {
            assert(tag[i] == end[i - element.len() - row.len()]);
        }
    }
}

/// One more element is one more tag.
pub proof fn lemma_tags_push(document: Seq<char>, tag: Seq<char>)
    requires
        lacks(tag, '<'),
    ensures
        tags(document + (seq!['<'] + tag)) == tags(document).push(tag),
{
    assert(document + (seq!['<'] + tag) =~= document + seq!['<'] + tag);
    lemma_split_two(document, '<', tag);
    lemma_split_one(tag, '<');
    assert(tags(document) + seq![tag] =~= tags(document).push(tag));
}

/// A value that is escaped stands for the text that was escaped.
pub proof fn law_escaped_text_is_read_back(s: Seq<char>)
    ensures
        unescaped(escaped(s)) == s,
    decreases s.len(),
{
    if s.len() > 0 {
        crate::xml::lemma_escaped_front(s);
        let rest = escaped(s.drop_first());
        let all = escaped(s);
        law_escaped_text_is_read_back(s.drop_first());
        reveal_strlit("&amp;");
        reveal_strlit("&quot;");
        reveal_strlit("&lt;");
        reveal_strlit("&gt;");
        if s[0] == '&' {
            assert(all.take(5) =~= seq!['&', 'a', 'm', 'p', ';']);
            assert(all.skip(5) =~= rest);
        } else if s[0] == '"' {
            assert(all.take(6) =~= seq!['&', 'q', 'u', 'o', 't', ';']);
            assert(all.take(5)[1] == 'q');
            assert(seq!['&', 'a', 'm', 'p', ';'][1] == 'a');
            assert(all.skip(6) =~= rest);
        } else if s[0] == '<' {
            assert(all.take(4) =~= seq!['&', 'l', 't', ';']);
            if all.len() >= 5 {
                assert(all.take(5)[1] == 'l');
                assert(seq!['&', 'a', 'm', 'p', ';'][1] == 'a');
            }
            if all.len() >= 6 {
                assert(all.take(6)[1] == 'l');
                assert(seq!['&', 'q', 'u', 'o', 't', ';'][1] == 'q');
            }
            assert(all.skip(4) =~= rest);
        } else if s[0] == '>' {
            assert(all.take(4) =~= seq!['&', 'g', 't', ';']);
            assert(all.take(4)[1] == 'g');
            assert(seq!['&', 'l', 't', ';'][1] == 'l');
            if all.len() >= 5 {
                assert(all.take(5)[1] == 'g');
                assert(seq!['&', 'a', 'm', 'p', ';'][1] == 'a');
            }
            if all.len() >= 6 {
                assert(all.take(6)[1] == 'g');
                assert(seq!['&', 'q', 'u', 'o', 't', ';'][1] == 'q');
            }
            assert(all.skip(4) =~= rest);
        } else {
            assert(all[0] == s[0]);
            if all.len() >= 4 {
                assert(all.take(4)[0] == s[0]);
                assert(seq!['&', 'l', 't', ';'][0] == '&');
                assert(seq!['&', 'g', 't', ';'][0] == '&');
            }
            if all.len() >= 5 {
                assert(all.take(5)[0] == s[0]);
                assert(seq!['&', 'a', 'm', 'p', ';'][0] == '&');
            }
            if all.len() >= 6 {
                assert(all.take(6)[0] == s[0]);
                assert(seq!['&', 'q', 'u', 'o', 't', ';'][0] == '&');
            }
            assert(all.skip(1) =~= rest);
        }
        assert(seq![s[0]] + s.drop_first() =~= s);
    } else {
        assert(unescaped(escaped(s)) =~= s);
    }
}

} // verus!
