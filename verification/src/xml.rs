//! XML documents.

use vstd::prelude::*;

use crate::text::{chars_of, decimal, decimal_text, push_text};

verus! {

/// A character as it stands in an XML document.
pub open spec fn escaped_char(c: char) -> Seq<char> {
    if c == '&' {
        "&amp;"@
    } else if c == '"' {
        "&quot;"@
    } else if c == '<' {
        "&lt;"@
    } else if c == '>' {
        "&gt;"@
    } else {
        seq![c]
    }
}

/// A text as it stands in an XML document.
pub open spec fn escaped(s: Seq<char>) -> Seq<char>
    decreases s.len(),
{
    if s.len() == 0 {
        seq![]
    } else {
        escaped(s.drop_last()) + escaped_char(s.last())
    }
}

/// A text as it stands in an XML document.
pub fn xml_escape(input: &str) -> (r: String)
    ensures
        r@ == escaped(input@),
{
    let cs = chars_of(input);
    let total: usize = cs.len();
    let mut out = String::new();
    let mut i: usize = 0;
    assert(cs@.take(0) =~= seq![]);
    assert(out@ =~= seq![]);
    while i < total
        invariant
            i <= total,
            total == cs@.len(),
            out@ == escaped(cs@.take(i as int)),
        decreases total - i,
    {
        let ghost before = out@;
        assert(cs@.take(i + 1).drop_last() =~= cs@.take(i as int));
        let c = cs[i];
        if c == '&' {
            push_text(&mut out, "&amp;");
        } else if c == '"' {
            push_text(&mut out, "&quot;");
        } else if c == '<' {
            push_text(&mut out, "&lt;");
        } else if c == '>' {
            push_text(&mut out, "&gt;");
        } else {
            out.push(c);
            assert(out@ =~= before + seq![c]);
        }
        i = i + 1;
    }
    assert(cs@.take(total as int) =~= input@);
    out
}

/// An attribute, where it has a value.
pub open spec fn attr(name: Seq<char>, value: Option<Seq<char>>) -> Seq<char> {
    match value {
        Some(value) => " "@ + name + "=\""@ + escaped(value) + "\""@,
        None => seq![],
    }
}

/// An attribute, where it has a value.
pub fn optional_attr(name: &str, value: Option<&str>) -> (r: String)
    ensures
        r@ == attr(name@, value.deep_view()),
{
    match value {
        Some(value) => {
            let mut s = " ".to_owned();
            push_text(&mut s, name);
            push_text(&mut s, "=\"");
            push_text(&mut s, &xml_escape(value));
            push_text(&mut s, "\"");
            s
        },
        None => {
            let none = String::new();
            assert(none@ =~= seq![]);
            none
        },
    }
}

/// An attribute whose value is a number, where it has a value.
pub open spec fn number_attr(name: Seq<char>, value: Option<u64>) -> Seq<char> {
    match value {
        Some(value) => " "@ + name + "=\""@ + decimal(value as nat) + "\""@,
        None => seq![],
    }
}

/// An attribute whose value is a number, where it has a value.
pub fn optional_number_attr(name: &str, value: Option<u64>) -> (r: String)
    ensures
        r@ == number_attr(name@, value),
{
    match value {
        Some(value) => {
            let mut s = " ".to_owned();
            push_text(&mut s, name);
            push_text(&mut s, "=\"");
            push_text(&mut s, &decimal_text(value));
            push_text(&mut s, "\"");
            s
        },
        None => {
            let none = String::new();
            assert(none@ =~= seq![]);
            none
        },
    }
}

/// The document around the body of a response.
pub open spec fn xml_document(body: Seq<char>) -> Seq<char> {
    "<?xml version=\"1.0\" encoding=\"UTF-8\"?><subsonic-response status=\"ok\" version=\"1.16.1\">"@
        + body + "</subsonic-response>"@
}

/// The document around the body of a response.
pub fn wrap_xml(body: &str) -> (r: String)
    ensures
        r@ == xml_document(body@),
{
    let mut s =
        "<?xml version=\"1.0\" encoding=\"UTF-8\"?><subsonic-response status=\"ok\" version=\"1.16.1\">".to_owned();
    push_text(&mut s, body);
    push_text(&mut s, "</subsonic-response>");
    s
}

/// The document that tells of a failure.
pub open spec fn xml_failure(message: Seq<char>) -> Seq<char> {
    "<?xml version=\"1.0\" encoding=\"UTF-8\"?><subsonic-response status=\"failed\" version=\"1.16.1\"><error code=\"0\" message=\""@
        + escaped(message) + "\" /></subsonic-response>"@
}

/// The document that tells of a failure.
pub fn failure_xml(message: &str) -> (r: String)
    ensures
        r@ == xml_failure(message@),
{
    let mut s =
        "<?xml version=\"1.0\" encoding=\"UTF-8\"?><subsonic-response status=\"failed\" version=\"1.16.1\"><error code=\"0\" message=\"".to_owned();
    push_text(&mut s, &xml_escape(message));
    push_text(&mut s, "\" /></subsonic-response>");
    s
}

proof fn lemma_escaped_char(c: char)
    ensures
        escaped_char(c).len() > 0,
        c == '&' || c == '"' || c == '<' || c == '>' ==> escaped_char(c).len() > 1
            && escaped_char(c)[0] == '&',
        escaped_char('&')[1] == 'a',
        escaped_char('"')[1] == 'q',
        escaped_char('<')[1] == 'l',
        escaped_char('>')[1] == 'g',
        forall|i: int|
            0 <= i < escaped_char(c).len() ==> {
                let e = #[trigger] escaped_char(c)[i];
                e != '"' && e != '<' && e != '>'
            },
{
    reveal_strlit("&amp;");
    reveal_strlit("&quot;");
    reveal_strlit("&lt;");
    reveal_strlit("&gt;");
}

/// A text in an XML document ends no attribute and opens or closes no element: whatever the text
/// is, no quotation mark and no angle bracket of it is left.
pub proof fn law_escaped_text_is_inert(s: Seq<char>)
    ensures
        forall|i: int|
            0 <= i < escaped(s).len() ==> {
                let e = #[trigger] escaped(s)[i];
                e != '"' && e != '<' && e != '>'
            },
    decreases s.len(),
{
    if s.len() > 0 {
        law_escaped_text_is_inert(s.drop_last());
        lemma_escaped_char(s.last());
        let before = escaped(s.drop_last());
        assert forall|i: int| 0 <= i < escaped(s).len() implies {
            let e = #[trigger] escaped(s)[i];
            e != '"' && e != '<' && e != '>'
        } by {
            if i < before.len() {
                assert(escaped(s)[i] == before[i]);
            } else {
                assert(escaped(s)[i] == escaped_char(s.last())[i - before.len()]);
            }
        }
    }
}

pub proof fn lemma_escaped_front(s: Seq<char>)
    requires
        s.len() > 0,
    ensures
        escaped(s) == escaped_char(s[0]) + escaped(s.drop_first()),
    decreases s.len(),
{
    if s.len() == 1 {
        assert(s.drop_last() =~= seq![]);
        assert(s.drop_first() =~= seq![]);
        assert(escaped(s.drop_last()) =~= seq![]);
        assert(escaped(s) =~= escaped_char(s[0]) + escaped(s.drop_first()));
    } else {
        lemma_escaped_front(s.drop_last());
        assert(s.drop_last().drop_first() =~= s.drop_first().drop_last());
        assert(escaped(s) =~= escaped_char(s[0]) + escaped(s.drop_first()));
    }
}

/// Different texts stand differently in an XML document: nothing is lost.
pub proof fn law_escaping_loses_nothing(a: Seq<char>, b: Seq<char>)
    requires
        escaped(a) == escaped(b),
    ensures
        a == b,
    decreases a.len(),
{
    if a.len() > 0 {
        lemma_escaped_front(a);
        lemma_escaped_char(a[0]);
    }
    if b.len() > 0 {
        lemma_escaped_front(b);
        lemma_escaped_char(b[0]);
    }
    if a.len() == 0 || b.len() == 0 {
        assert(a.len() > 0 ==> escaped(a).len() > 0);
        assert(b.len() > 0 ==> escaped(b).len() > 0);
        assert(a =~= b);
    } else {
        let x = escaped_char(a[0]);
        let y = escaped_char(b[0]);
        assert(escaped(a)[0] == x[0]);
        assert(escaped(b)[0] == y[0]);
        if x.len() > 1 && y.len() > 1 {
            assert(escaped(a)[1] == x[1]);
            assert(escaped(b)[1] == y[1]);
        }
        assert(a[0] == b[0]);
        let n = x.len() as int;
        assert(escaped(a).skip(n) =~= escaped(a.drop_first()));
        assert(escaped(b).skip(n) =~= escaped(b.drop_first()));
        law_escaping_loses_nothing(a.drop_first(), b.drop_first());
        assert(a =~= seq![a[0]] + a.drop_first());
        assert(b =~= seq![b[0]] + b.drop_first());
    }
}

} // verus!
