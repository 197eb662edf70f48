//! Text as sequences of characters: comparison, trimming, searching, decimal numbers.

use vstd::prelude::*;

verus! {

/// The characters of `s` in a vector.
pub fn chars_of(s: &str) -> (r: Vec<char>)
    ensures
        r@ == s@,
{
    let mut out: Vec<char> = Vec::new();
    for c in it: s.chars()
        invariant
            out@ == s@.take(it.index()),
            it.seq() == s@,
    {
        out.push(c);
        proof {
            assert(s@.take(it.index() + 1) =~= s@.take(it.index()).push(s@[it.index()]));
        }
    }
    assert(s@.take(s@.len() as int) =~= s@);
    out
}

/// `String::push` appends one character.
pub assume_specification[ String::push ](s: &mut String, c: char)
    ensures
        final(s)@ == old(s)@.push(c),
;

/// The string that holds the characters of `v`.
pub fn string_of(v: &Vec<char>) -> (r: String)
    ensures
        r@ == v@,
{
    let mut out = String::new();
    let mut i: usize = 0;
    while i < v.len()
        invariant
            i <= v@.len(),
            out@ == v@.take(i as int),
        decreases v@.len() - i,
    {
        out.push(v[i]);
        i = i + 1;
        proof {
            assert(v@.take(i as int) =~= v@.take(i - 1).push(v@[i - 1]));
        }
    }
    assert(v@.take(i as int) =~= v@);
    out
}

/// Whether two texts hold the same characters.
pub fn same_text(a: &str, b: &str) -> (r: bool)
    ensures
        r == (a@ == b@),
{
    let x = a.as_bytes();
    let y = b.as_bytes();
    if x.len() != y.len() {
        return false;
    }
    let mut i: usize = 0;
    while i < x.len()
        invariant
            i <= x@.len(),
            x@.len() == y@.len(),
            x@ == vstd::utf8::encode_utf8(a@),
            y@ == vstd::utf8::encode_utf8(b@),
            forall|j: int| 0 <= j < i ==> x@[j] == y@[j],
        decreases x@.len() - i,
    {
        if x[i] != y[i] {
            return false;
        }
        i = i + 1;
    }
    proof {
        assert(x@ =~= y@);
        vstd::utf8::encode_utf8_decode_utf8(a@);
        vstd::utf8::encode_utf8_decode_utf8(b@);
    }
    true
}

/// The lower-case form of an ASCII letter; every other character is kept.
pub open spec fn lower_char(c: char) -> char {
    if 'A' <= c && c <= 'Z' {
        ((c as u8) + 32) as u8 as char
    } else {
        c
    }
}

/// The upper-case form of an ASCII letter; every other character is kept.
pub open spec fn upper_char(c: char) -> char {
    if 'a' <= c && c <= 'z' {
        ((c as u8) - 32) as u8 as char
    } else {
        c
    }
}

/// A text with its ASCII letters in lower case.
pub open spec fn lower_text(s: Seq<char>) -> Seq<char> {
    s.map_values(|c: char| lower_char(c))
}

/// Lower-cases one ASCII letter.
pub fn to_lower(c: char) -> (r: char)
    ensures
        r == lower_char(c),
{
    if 'A' <= c && c <= 'Z' {
        ((c as u8) + 32) as char
    } else {
        c
    }
}

/// Upper-cases one ASCII letter.
pub fn to_upper(c: char) -> (r: char)
    ensures
        r == upper_char(c),
{
    if 'a' <= c && c <= 'z' {
        ((c as u8) - 32) as char
    } else {
        c
    }
}

/// The characters of `s` with ASCII letters in lower case.
pub fn lower_chars(s: &str) -> (r: Vec<char>)
    ensures
        r@ == lower_text(s@),
{
    let cs = chars_of(s);
    let mut out: Vec<char> = Vec::new();
    let mut i: usize = 0;
    while i < cs.len()
        invariant
            i <= cs@.len(),
            out@ == lower_text(cs@.take(i as int)),
        decreases cs@.len() - i,
    {
        out.push(to_lower(cs[i]));
        i = i + 1;
        proof {
            assert(cs@.take(i as int) =~= cs@.take(i - 1).push(cs@[i - 1]));
            assert(lower_text(cs@.take(i as int)) =~= lower_text(cs@.take(i - 1)).push(
                lower_char(cs@[i - 1]),
            ));
        }
    }
    assert(cs@.take(i as int) =~= cs@);
    out
}

/// `s` with ASCII letters in lower case.
pub fn to_lower_text(s: &str) -> (r: String)
    ensures
        r@ == lower_text(s@),
{
    string_of(&lower_chars(s))
}

/// Whether two texts are equal when ASCII case is disregarded.
pub fn same_ignoring_case(a: &str, b: &str) -> (r: bool)
    ensures
        r == (lower_text(a@) == lower_text(b@)),
{
    let x = to_lower_text(a);
    let y = to_lower_text(b);
    same_text(&x, &y)
}

/// The characters with the Unicode property `White_Space`.
pub open spec fn is_space(c: char) -> bool {
    let u = c as u32;
    ||| 0x09 <= u <= 0x0d
    ||| u == 0x20
    ||| u == 0x85
    ||| u == 0xa0
    ||| u == 0x1680
    ||| 0x2000 <= u <= 0x200a
    ||| u == 0x2028
    ||| u == 0x2029
    ||| u == 0x202f
    ||| u == 0x205f
    ||| u == 0x3000
}

/// Whether `c` is white space.
pub fn is_space_char(c: char) -> (r: bool)
    ensures
        r == is_space(c),
{
    let u = c as u32;
    (0x09 <= u && u <= 0x0d) || u == 0x20 || u == 0x85 || u == 0xa0 || u == 0x1680 || (0x2000 <= u
        && u <= 0x200a) || u == 0x2028 || u == 0x2029 || u == 0x202f || u == 0x205f || u == 0x3000
}

/// A text without the white space that it starts with.
pub open spec fn trim_start(s: Seq<char>) -> Seq<char>
    decreases s.len(),
{
    if s.len() > 0 && is_space(s[0]) {
        trim_start(s.drop_first())
    } else {
        s
    }
}

/// A text without the white space that it ends with.
pub open spec fn trim_end(s: Seq<char>) -> Seq<char>
    decreases s.len(),
{
    if s.len() > 0 && is_space(s.last()) {
        trim_end(s.drop_last())
    } else {
        s
    }
}

/// A text without the white space at either end.
pub open spec fn trimmed(s: Seq<char>) -> Seq<char> {
    trim_end(trim_start(s))
}

/// The characters `from..to` of `cs`.
pub fn slice_chars(cs: &Vec<char>, from: usize, to: usize) -> (r: Vec<char>)
    requires
        from <= to <= cs@.len(),
    ensures
        r@ == cs@.subrange(from as int, to as int),
{
    let mut out: Vec<char> = Vec::new();
    let mut i: usize = from;
    while i < to
        invariant
            from <= i <= to <= cs@.len(),
            out@ == cs@.subrange(from as int, i as int),
        decreases to - i,
    {
        out.push(cs[i]);
        i = i + 1;
        proof {
            assert(cs@.subrange(from as int, i as int) =~= cs@.subrange(from as int, i - 1).push(
                cs@[i - 1],
            ));
        }
    }
    out
}

/// Removes the white space at either end of `cs`.
pub fn trim_chars(cs: &Vec<char>) -> (r: Vec<char>)
    ensures
        r@ == trimmed(cs@),
{
    let mut from: usize = 0;
    assert(cs@.skip(0) =~= cs@);
    while from < cs.len() && is_space_char(cs[from])
        invariant
            from <= cs@.len(),
            trim_start(cs@) == trim_start(cs@.skip(from as int)),
        decreases cs@.len() - from,
    {
        assert(cs@.skip(from as int).drop_first() =~= cs@.skip(from + 1));
        from = from + 1;
    }
    let ghost started = cs@.skip(from as int);
    assert(trim_start(cs@) == started);
    let mut to: usize = cs.len();
    assert(started =~= cs@.subrange(from as int, to as int));
    while from < to && is_space_char(cs[to - 1])
        invariant
            from <= to <= cs@.len(),
            trim_end(started) == trim_end(cs@.subrange(from as int, to as int)),
        decreases to,
    {
        assert(cs@.subrange(from as int, to as int).drop_last() =~= cs@.subrange(
            from as int,
            to - 1,
        ));
        to = to - 1;
    }
    slice_chars(cs, from, to)
}

/// `s` without the white space at either end.
pub fn trim(s: &str) -> (r: String)
    ensures
        r@ == trimmed(s@),
{
    string_of(&trim_chars(&chars_of(s)))
}

/// Whether nothing but white space stands in `s`.
pub fn is_blank(s: &str) -> (r: bool)
    ensures
        r == (trimmed(s@).len() == 0),
{
    trim_chars(&chars_of(s)).len() == 0
}

/// Whether `t` stands in `s` at position `i`.
pub open spec fn occurs_at(s: Seq<char>, t: Seq<char>, i: int) -> bool {
    &&& 0 <= i
    &&& i + t.len() <= s.len()
    &&& s.subrange(i, i + t.len()) == t
}

/// Whether `t` stands somewhere in `s`.
pub open spec fn contains_text(s: Seq<char>, t: Seq<char>) -> bool {
    exists|i: int| occurs_at(s, t, i)
}

/// `i` is the first position at which `t` stands in `s`.
pub open spec fn first_occurrence(s: Seq<char>, t: Seq<char>, i: int) -> bool {
    &&& occurs_at(s, t, i)
    &&& forall|j: int| 0 <= j < i ==> !occurs_at(s, t, j)
}

/// Whether `t` stands in `s` at position `i`.
fn occurs_here(s: &Vec<char>, t: &Vec<char>, i: usize) -> (r: bool)
    requires
        i <= s@.len(),
    ensures
        r == occurs_at(s@, t@, i as int),
{
    let total: usize = s.len();
    if total - i < t.len() {
        return false;
    }
    let mut k: usize = 0;
    while k < t.len()
        invariant
            k <= t@.len(),
            i + t@.len() <= total,
            total == s@.len(),
            forall|j: int| 0 <= j < k ==> s@[i + j] == t@[j],
        decreases t@.len() - k,
    {
        if s[i + k] != t[k] {
            assert(s@.subrange(i as int, i + t@.len())[k as int] != t@[k as int]);
            return false;
        }
        k = k + 1;
    }
    assert(s@.subrange(i as int, i + t@.len()) =~= t@);
    true
}

/// The first position at which `t` stands in `s`.
pub fn find_chars(s: &Vec<char>, t: &Vec<char>) -> (r: Option<usize>)
    ensures
        match r {
            Some(i) => i <= s@.len() && first_occurrence(s@, t@, i as int),
            None => !contains_text(s@, t@),
        },
{
    let mut i: usize = 0;
    while i < s.len()
        invariant
            i <= s@.len(),
            forall|j: int| 0 <= j < i ==> !occurs_at(s@, t@, j),
        decreases s@.len() - i,
    {
        if occurs_here(s, t, i) {
            return Some(i);
        }
        i = i + 1;
    }
    if occurs_here(s, t, i) {
        Some(i)
    } else {
        None
    }
}

/// The text before and the text after the first `separator` in `s`.
pub open spec fn split_at_first(s: Seq<char>, separator: Seq<char>) -> Option<
    (Seq<char>, Seq<char>),
> {
    if contains_text(s, separator) {
        let i = choose|i: int| first_occurrence(s, separator, i);
        Some((s.take(i), s.skip(i + separator.len())))
    } else {
        None
    }
}

/// There is at most one first position.
pub proof fn lemma_first_occurrence_unique(s: Seq<char>, t: Seq<char>, i: int, j: int)
    requires
        first_occurrence(s, t, i),
        first_occurrence(s, t, j),
    ensures
        i == j,
{
}

/// Splits `s` at the first `separator`.
pub fn split_once(s: &str, separator: &str) -> (r: Option<(String, String)>)
    ensures
        match r {
            Some((before, after)) => split_at_first(s@, separator@) == Some((before@, after@)),
            None => split_at_first(s@, separator@) is None,
        },
{
    let cs = chars_of(s);
    let sep = chars_of(separator);
    match find_chars(&cs, &sep) {
        Some(i) => {
            proof {
                assert(occurs_at(s@, separator@, i as int));
                let c = choose|c: int| first_occurrence(s@, separator@, c);
                lemma_first_occurrence_unique(s@, separator@, i as int, c);
                assert(cs@.subrange(0, i as int) =~= s@.take(i as int));
                assert(cs@.subrange(i + sep@.len(), cs@.len() as int) =~= s@.skip(i + sep@.len()));
            }
            let total: usize = cs.len();
            let before = string_of(&slice_chars(&cs, 0, i));
            let after = string_of(&slice_chars(&cs, i + sep.len(), total));
            Some((before, after))
        },
        None => None,
    }
}

/// Whether `t` stands somewhere in `s`.
pub fn contains(s: &Vec<char>, t: &Vec<char>) -> (r: bool)
    ensures
        r == contains_text(s@, t@),
{
    match find_chars(s, t) {
        Some(i) => {
            assert(occurs_at(s@, t@, i as int));
            true
        },
        None => false,
    }
}

/// What follows `prefix` in a text that starts with it.
pub open spec fn after_prefix(s: Seq<char>, prefix: Seq<char>) -> Option<Seq<char>> {
    if prefix.is_prefix_of(s) {
        Some(s.skip(prefix.len() as int))
    } else {
        None
    }
}

/// Removes `prefix` from the front of `s`, if it stands there.
pub fn strip_prefix(s: &str, prefix: &str) -> (r: Option<String>)
    ensures
        r.deep_view() == after_prefix(s@, prefix@),
{
    let cs = chars_of(s);
    let p = chars_of(prefix);
    if occurs_here(&cs, &p, 0) {
        let rest = slice_chars(&cs, p.len(), cs.len());
        assert(rest@ =~= s@.skip(p@.len() as int));
        Some(string_of(&rest))
    } else {
        assert(prefix@.is_prefix_of(s@) ==> occurs_at(s@, prefix@, 0));
        None
    }
}

/// Removes `suffix` from the end of `s`, if it stands there.
pub fn strip_suffix(s: &str, suffix: &str) -> (r: Option<String>)
    ensures
        r.deep_view() == (if suffix@.is_suffix_of(s@) {
            Some(s@.take(s@.len() - suffix@.len()))
        } else {
            None
        }),
{
    let cs = chars_of(s);
    let p = chars_of(suffix);
    if p.len() <= cs.len() && occurs_here(&cs, &p, cs.len() - p.len()) {
        let rest = slice_chars(&cs, 0, cs.len() - p.len());
        assert(rest@ =~= s@.take(s@.len() - p@.len()));
        Some(string_of(&rest))
    } else {
        assert(suffix@.is_suffix_of(s@) ==> occurs_at(s@, suffix@, s@.len() - suffix@.len()));
        None
    }
}

/// Appends `t` to `s`.
pub fn push_text(s: &mut String, t: &str)
    ensures
        final(s)@ == old(s)@ + t@,
{
    s.append(t);
}

/// Texts in the order of their characters' code points, shorter first on a common prefix.
pub open spec fn text_less(a: Seq<char>, b: Seq<char>) -> bool
    decreases a.len(),
{
    if b.len() == 0 {
        false
    } else if a.len() == 0 {
        true
    } else if a[0] != b[0] {
        (a[0] as int) < (b[0] as int)
    } else {
        text_less(a.drop_first(), b.drop_first())
    }
}

/// No text stands before itself.
pub proof fn lemma_text_less_irreflexive(a: Seq<char>)
    ensures
        !text_less(a, a),
    decreases a.len(),
{
    if a.len() > 0 {
        lemma_text_less_irreflexive(a.drop_first());
    }
}

/// The order of texts is transitive.
pub proof fn lemma_text_less_transitive(a: Seq<char>, b: Seq<char>, c: Seq<char>)
    requires
        text_less(a, b),
        text_less(b, c),
    ensures
        text_less(a, c),
    decreases a.len(),
{
    if a.len() > 0 && b.len() > 0 && c.len() > 0 && a[0] == b[0] && b[0] == c[0] {
        lemma_text_less_transitive(a.drop_first(), b.drop_first(), c.drop_first());
    }
}

/// Of two different texts one stands before the other.
pub proof fn lemma_text_less_total(a: Seq<char>, b: Seq<char>)
    ensures
        a == b || text_less(a, b) || text_less(b, a),
    decreases a.len(),
{
    if a.len() > 0 && b.len() > 0 {
        if a[0] == b[0] {
            lemma_text_less_total(a.drop_first(), b.drop_first());
            if a.drop_first() == b.drop_first() {
                assert(a =~= seq![a[0]] + a.drop_first());
                assert(b =~= seq![b[0]] + b.drop_first());
            }
        }
    } else if a.len() == 0 && b.len() == 0 {
        assert(a =~= b);
    }
}

/// Whether `a` stands before `b`.
pub fn text_before(a: &str, b: &str) -> (r: bool)
    ensures
        r == text_less(a@, b@),
{
    chars_before(chars_of(a), chars_of(b))
}

fn chars_before(x: Vec<char>, y: Vec<char>) -> (r: bool)
    ensures
        r == text_less(x@, y@),
{
    let mut i: usize = 0;
    assert(x@.skip(0) =~= x@ && y@.skip(0) =~= y@);
    while i < x.len() && i < y.len()
        invariant
            i <= x@.len(),
            i <= y@.len(),
            text_less(x@, y@) == text_less(x@.skip(i as int), y@.skip(i as int)),
        decreases x@.len() - i,
    {
        if x[i] != y[i] {
            return x[i] < y[i];
        }
        assert(x@.skip(i as int).drop_first() =~= x@.skip(i + 1));
        assert(y@.skip(i as int).drop_first() =~= y@.skip(i + 1));
        i = i + 1;
    }
    i < y.len()
}

/// The character of one decimal digit.
pub open spec fn digit_char(d: nat) -> char {
    ((48 + d) as u8) as char
}

/// A number in decimal notation, without leading zeros.
pub open spec fn decimal(n: nat) -> Seq<char>
    decreases n,
{
    if n < 10 {
        seq![digit_char(n)]
    } else {
        decimal(n / 10).push(digit_char(n % 10))
    }
}

/// Whether `c` is one of the ten ASCII digits.
pub open spec fn is_digit(c: char) -> bool {
    '0' <= c && c <= '9'
}

/// The value of an ASCII digit.
pub open spec fn digit_value(c: char) -> nat {
    (c as u32 - 48) as nat
}

/// The number that a row of digits stands for.
pub open spec fn digits_value(s: Seq<char>) -> nat
    decreases s.len(),
{
    if s.len() == 0 {
        0
    } else {
        digits_value(s.drop_last()) * 10 + digit_value(s.last())
    }
}

/// Whether a text is a row of at least one ASCII digit.
pub open spec fn all_digits(s: Seq<char>) -> bool {
    s.len() > 0 && forall|i: int| 0 <= i < s.len() ==> is_digit(#[trigger] s[i])
}

/// The number that a text stands for: digits, which a plus sign may precede, of a value of
/// at most `max`.
pub open spec fn parsed_number(s: Seq<char>, max: nat) -> Option<nat> {
    let digits = if s.len() > 0 && s[0] == '+' {
        s.drop_first()
    } else {
        s
    };
    if all_digits(digits) && digits_value(digits) <= max {
        Some(digits_value(digits))
    } else {
        None
    }
}

/// A number in decimal notation.
pub fn decimal_text(n: u64) -> (r: String)
    ensures
        r@ == decimal(n as nat),
    decreases n,
{
    if n < 10 {
        let mut s = String::new();
        s.push((48u8 + n as u8) as char);
        assert(s@ =~= decimal(n as nat));
        s
    } else {
        let mut s = decimal_text(n / 10);
        s.push((48u8 + (n % 10) as u8) as char);
        s
    }
}

/// A signed number in decimal notation.
pub open spec fn signed_decimal(n: int) -> Seq<char> {
    if n < 0 {
        seq!['-'] + decimal((-n) as nat)
    } else {
        decimal(n as nat)
    }
}

/// A signed number in decimal notation.
pub fn signed_decimal_text(n: i32) -> (r: String)
    ensures
        r@ == signed_decimal(n as int),
{
    if n < 0 {
        let mut s = String::new();
        s.push('-');
        let digits = decimal_text((-(n as i64)) as u64);
        push_text(&mut s, &digits);
        assert(s@ =~= signed_decimal(n as int));
        s
    } else {
        decimal_text(n as u64)
    }
}

/// A longer row of digits stands for no smaller number.
proof fn lemma_digits_value_grows(s: Seq<char>, i: int)
    requires
        0 <= i <= s.len(),
    ensures
        digits_value(s.take(i)) <= digits_value(s),
    decreases s.len() - i,
{
    if i < s.len() {
        lemma_digits_value_grows(s, i + 1);
        assert(s.take(i + 1).drop_last() =~= s.take(i));
    } else {
        assert(s.take(i) =~= s);
    }
}

/// Reads a number of at most `max`.
pub fn parse_number(s: &str, max: u64) -> (r: Option<u64>)
    ensures
        match r {
            Some(n) => parsed_number(s@, max as nat) == Some(n as nat),
            None => parsed_number(s@, max as nat) is None,
        },
{
    let cs = chars_of(s);
    let total: usize = cs.len();
    let from: usize = if total > 0 && cs[0] == '+' {
        1
    } else {
        0
    };
    let ghost digits = cs@.skip(from as int);
    proof {
        assert(digits =~= (if s@.len() > 0 && s@[0] == '+' {
            s@.drop_first()
        } else {
            s@
        }));
    }
    if from == total {
        return None;
    }
    let mut value: u64 = 0;
    let mut i: usize = from;
    while i < total
        invariant
            from <= i <= total,
            total == cs@.len(),
            digits == cs@.skip(from as int),
            digits == (if s@.len() > 0 && s@[0] == '+' {
                s@.drop_first()
            } else {
                s@
            }),
            value <= max,
            value == digits_value(digits.take(i - from)),
            forall|j: int| 0 <= j < i - from ==> is_digit(#[trigger] digits[j]),
        decreases total - i,
    {
        let c = cs[i];
        assert(digits[i - from] == c);
        if c < '0' || '9' < c {
            return None;
        }
        let d: u64 = (c as u32 - 48) as u64;
        assert(digits.take(i + 1 - from).drop_last() =~= digits.take(i - from));
        let next: u128 = value as u128 * 10 + d as u128;
        if next > max as u128 {
            proof {
                lemma_digits_value_grows(digits, i + 1 - from);
            }
            return None;
        }
        value = next as u64;
        i = i + 1;
    }
    assert(digits.take(i - from) =~= digits);
    Some(value)
}

/// White space is the tabulator, the ends of lines and of pages, and the blanks of all widths.
pub proof fn law_white_space(c: char)
    ensures
        is_space(c) <==> c == ' ' || c == '\t' || c == '\n' || c == '\r' || c == '\u{b}' || c
            == '\u{c}' || c == '\u{85}' || c == '\u{a0}' || c == '\u{1680}' || (c >= '\u{2000}' && c
            <= '\u{200a}') || c == '\u{2028}' || c == '\u{2029}' || c == '\u{202f}' || c
            == '\u{205f}' || c == '\u{3000}',
{
}

proof fn lemma_trim_start(a: Seq<char>, t: Seq<char>)
    requires
        forall|i: int| 0 <= i < a.len() ==> is_space(#[trigger] a[i]),
        t.len() > 0 ==> !is_space(t[0]),
    ensures
        trim_start(a + t) == t,
    decreases a.len(),
{
    if a.len() == 0 {
        assert(a + t =~= t);
    } else {
        assert((a + t).drop_first() =~= a.drop_first() + t);
        assert(is_space((a + t)[0]));
        assert forall|i: int| 0 <= i < a.drop_first().len() implies is_space(
            #[trigger] a.drop_first()[i],
        ) by {
            assert(a.drop_first()[i] == a[i + 1]);
        }
        lemma_trim_start(a.drop_first(), t);
    }
}

proof fn lemma_trim_end(t: Seq<char>, b: Seq<char>)
    requires
        forall|i: int| 0 <= i < b.len() ==> is_space(#[trigger] b[i]),
        t.len() > 0 ==> !is_space(t.last()),
    ensures
        trim_end(t + b) == t,
    decreases b.len(),
{
    if b.len() == 0 {
        assert(t + b =~= t);
    } else {
        assert((t + b).drop_last() =~= t + b.drop_last());
        assert((t + b).last() == b[b.len() - 1]);
        assert forall|i: int| 0 <= i < b.drop_last().len() implies is_space(
            #[trigger] b.drop_last()[i],
        ) by {
            assert(b.drop_last()[i] == b[i]);
        }
        lemma_trim_end(t, b.drop_last());
    }
}

/// Trimming takes away the white space around a text, all of it and nothing else.
pub proof fn law_trimming(a: Seq<char>, t: Seq<char>, b: Seq<char>)
    requires
        forall|i: int| 0 <= i < a.len() ==> is_space(#[trigger] a[i]),
        forall|i: int| 0 <= i < b.len() ==> is_space(#[trigger] b[i]),
        t.len() > 0 ==> !is_space(t[0]) && !is_space(t.last()),
    ensures
        trimmed(a + t + b) == t,
{
    if t.len() > 0 {
        assert(a + t + b =~= a + (t + b));
        lemma_trim_start(a, t + b);
        lemma_trim_end(t, b);
    } else {
        let blank = a + t + b;
        assert(blank =~= a + b);
        assert forall|i: int| 0 <= i < blank.len() implies is_space(#[trigger] blank[i]) by {
            if i >= a.len() {
                assert(blank[i] == b[i - a.len()]);
            }
        }
        assert(blank + t =~= blank);
        lemma_trim_start(blank, t);
        assert(t + Seq::<char>::empty() =~= t);
        lemma_trim_end(t, Seq::<char>::empty());
    }
}

/// A text in lower case has the small letter in place of each capital of the ASCII alphabet, and
/// every other character unchanged.
pub proof fn law_lower_case(s: Seq<char>, i: int)
    requires
        0 <= i < s.len(),
    ensures
        lower_text(s).len() == s.len(),
        'A' <= s[i] <= 'Z' ==> lower_text(s)[i] as int == s[i] as int + 32,
        !('A' <= s[i] <= 'Z') ==> lower_text(s)[i] == s[i],
{
}

/// The capital of a small letter of the ASCII alphabet has it as its small letter; every other
/// character is its own capital.
pub proof fn law_upper_case(c: char)
    ensures
        'a' <= c <= 'z' ==> upper_char(c) as int == c as int - 32,
        !('a' <= c <= 'z') ==> upper_char(c) == c,
{
}

/// A text stands in another exactly where the other is made of something, the text and something.
pub proof fn law_occurrence(s: Seq<char>, t: Seq<char>)
    ensures
        contains_text(s, t) <==> exists|a: Seq<char>, b: Seq<char>| s == #[trigger] (a + t + b),
{
    if contains_text(s, t) {
        let i = choose|i: int| occurs_at(s, t, i);
        let a = s.take(i);
        let b = s.skip(i + t.len());
        assert(s =~= a + t + b);
    }
    if exists|a: Seq<char>, b: Seq<char>| s == #[trigger] (a + t + b) {
        let (a, b) = choose|a: Seq<char>, b: Seq<char>| s == #[trigger] (a + t + b);
        assert((a + t + b).subrange(a.len() as int, (a.len() + t.len()) as int) =~= t);
        assert(occurs_at(s, t, a.len() as int));
    }
}

/// A text is split at the first separator: into what stands before it and what stands after it.
pub proof fn law_split(a: Seq<char>, separator: Seq<char>, b: Seq<char>)
    requires
        forall|c: Seq<char>, d: Seq<char>|
            a + separator + b == #[trigger] (c + separator + d) ==> c.len() >= a.len(),
    ensures
        split_at_first(a + separator + b, separator) == Some((a, b)),
{
    let s = a + separator + b;
    let n = a.len() as int;
    assert(s.subrange(n, n + separator.len()) =~= separator);
    assert(occurs_at(s, separator, n));
    assert forall|j: int| 0 <= j < n implies !occurs_at(s, separator, j) by {
        if occurs_at(s, separator, j) {
            let c = s.take(j);
            let d = s.skip(j + separator.len());
            assert(s =~= c + separator + d);
            assert(a + separator + b == c + separator + d);
        }
    }
    assert(first_occurrence(s, separator, n));
    let i = choose|i: int| first_occurrence(s, separator, i);
    lemma_first_occurrence_unique(s, separator, i, n);
    assert(s.take(n) =~= a);
    assert(s.skip(n + separator.len()) =~= b);
}

/// A text without the separator is not split.
pub proof fn law_no_split(s: Seq<char>, separator: Seq<char>)
    requires
        forall|c: Seq<char>, d: Seq<char>| s != #[trigger] (c + separator + d),
    ensures
        split_at_first(s, separator) is None,
{
    law_occurrence(s, separator);
}

/// What follows a prefix is what is left of the text without it.
pub proof fn law_prefix(prefix: Seq<char>, s: Seq<char>)
    ensures
        after_prefix(prefix + s, prefix) == Some(s),
        after_prefix(s, prefix) matches Some(rest) ==> s == prefix + rest,
{
    assert((prefix + s).skip(prefix.len() as int) =~= s);
    assert(prefix =~= (prefix + s).subrange(0, prefix.len() as int));
    if prefix.is_prefix_of(s) {
        assert(s =~= prefix + s.skip(prefix.len() as int));
    }
}

/// The notation of a number: the digits from `0` to `9`, the units last.
pub proof fn law_decimal_notation(n: nat)
    ensures
        n < 10 ==> decimal(n).len() == 1 && decimal(n)[0] as int == '0' as int + n,
        n >= 10 ==> decimal(n) == decimal(n / 10) + decimal(n % 10),
        all_digits(decimal(n)),
        digits_value(decimal(n)) == n,
    decreases n,
{
    if n >= 10 {
        law_decimal_notation(n / 10);
        law_decimal_notation(n % 10);
        assert(decimal(n) =~= decimal(n / 10) + decimal(n % 10));
        assert(decimal(n).drop_last() =~= decimal(n / 10));
        assert forall|i: int| 0 <= i < decimal(n).len() implies is_digit(#[trigger] decimal(n)[i]) by {
            if i < decimal(n / 10).len() {
                assert(decimal(n)[i] == decimal(n / 10)[i]);
            }
        }
    } else {
        reveal_with_fuel(digits_value, 2);
        assert(decimal(n).drop_last() =~= seq![]);
        assert(digits_value(decimal(n)) == digit_value(digit_char(n)));
    }
}

/// A number is read from its notation, with or without a plus sign, unless it is too great; a text
/// with anything else than digits in it is no number.
pub proof fn law_number_is_read(n: nat, max: nat, s: Seq<char>)
    ensures
        parsed_number(decimal(n), max) == (if n <= max {
            Some(n)
        } else {
            None
        }),
        parsed_number(seq!['+'] + decimal(n), max) == (if n <= max {
            Some(n)
        } else {
            None
        }),
        (exists|i: int| 0 <= i < s.len() && !('0' <= #[trigger] s[i] <= '9') && (i > 0 || s[i] != '+'))
            ==> parsed_number(s, max) is None,
        parsed_number(Seq::<char>::empty(), max) is None,
{
    law_decimal_notation(n);
    assert(is_digit(decimal(n)[0]));
    assert((seq!['+'] + decimal(n)).drop_first() =~= decimal(n));
    if exists|i: int| 0 <= i < s.len() && !('0' <= #[trigger] s[i] <= '9') && (i > 0 || s[i] != '+') {
        let i = choose|i: int|
            0 <= i < s.len() && !('0' <= #[trigger] s[i] <= '9') && (i > 0 || s[i] != '+');
        if s[0] == '+' {
            assert(s.drop_first()[i - 1] == s[i]);
            assert(!is_digit(s.drop_first()[i - 1]));
        } else {
            assert(!is_digit(s[i]));
        }
    }
}

/// A number below zero has a minus sign before its notation.
pub proof fn law_signed_notation(n: nat)
    ensures
        signed_decimal(n as int) == decimal(n),
        n > 0 ==> signed_decimal(-n) == seq!['-'] + decimal(n),
{
}

/// Texts stand in the order of the first characters in which they differ; a text stands before those
/// that go on after it.
pub proof fn law_text_order(common: Seq<char>, a: Seq<char>, b: Seq<char>)
    requires
        b.len() > 0,
        a.len() > 0 ==> (a[0] as int) < (b[0] as int),
    ensures
        text_less(common + a, common + b),
        !text_less(common + b, common + a),
    decreases common.len(),
{
    if common.len() == 0 {
        assert(common + a =~= a);
        assert(common + b =~= b);
    } else {
        assert((common + a).drop_first() =~= common.drop_first() + a);
        assert((common + b).drop_first() =~= common.drop_first() + b);
        law_text_order(common.drop_first(), a, b);
    }
}

} // verus!
