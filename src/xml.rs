//! Tag-level XML text: the shape of start and end tags, attribute escaping,
//! decimal numerals, and the writer calls that produce tags.
use quick_xml::events::{BytesEnd, BytesStart, Event};
use quick_xml::Writer;
use vstd::prelude::*;
use vstd::string::*;

verus! {

/// The one class of failure a render can meet: the XML writer could not
/// write into its buffer, or what it wrote was not UTF-8 text.
#[derive(Clone, Copy, Debug, PartialEq, Eq, Hash)]
pub enum EncodingError {
    Write,
    Text,
}

/// What an attribute value character becomes inside double quotes.
pub open spec fn escaped_char(c: char) -> Seq<char> {
    if c == '<' {
        seq!['&', 'l', 't', ';']
    } else if c == '>' {
        seq!['&', 'g', 't', ';']
    } else if c == '&' {
        seq!['&', 'a', 'm', 'p', ';']
    } else if c == '\'' {
        seq!['&', 'a', 'p', 'o', 's', ';']
    } else if c == '"' {
        seq!['&', 'q', 'u', 'o', 't', ';']
    } else if c == '\r' {
        seq!['&', '#', '1', '3', ';']
    } else if c == '\n' {
        seq!['&', '#', '1', '0', ';']
    } else if c == '\t' {
        seq!['&', '#', '9', ';']
    } else {
        seq![c]
    }
}

/// An attribute value with each special character replaced by its reference.
pub open spec fn escaped(s: Seq<char>) -> Seq<char>
    decreases s.len(),
{
    if s.len() == 0 {
        Seq::empty()
    } else {
        escaped_char(s[0]) + escaped(s.drop_first())
    }
}

/// ` key="value"` for each attribute in turn, values escaped.
pub open spec fn attributes_text(attrs: Seq<(Seq<char>, Seq<char>)>) -> Seq<char>
    decreases attrs.len(),
{
    if attrs.len() == 0 {
        Seq::empty()
    } else {
        seq![' '] + attrs[0].0 + seq!['=', '"'] + escaped(attrs[0].1) + seq!['"']
            + attributes_text(attrs.drop_first())
    }
}

/// `<name key="value" ...>`
pub open spec fn start_tag(name: Seq<char>, attrs: Seq<(Seq<char>, Seq<char>)>) -> Seq<char> {
    seq!['<'] + name + attributes_text(attrs) + seq!['>']
}

/// `</name>`
pub open spec fn end_tag(name: Seq<char>) -> Seq<char> {
    seq!['<', '/'] + name + seq!['>']
}

/// An element with the given attributes whose content is `text`, taken as it is.
pub open spec fn element(
    name: Seq<char>,
    attrs: Seq<(Seq<char>, Seq<char>)>,
    text: Seq<char>,
) -> Seq<char> {
    start_tag(name, attrs) + text + end_tag(name)
}

/// The attribute list as pairs of character sequences.
pub open spec fn attrs_view(attrs: Seq<(String, String)>) -> Seq<(Seq<char>, Seq<char>)> {
    attrs.map_values(|a: (String, String)| (a.0@, a.1@))
}

/// Relies on quick_xml's `BytesStart::new`, `BytesStart::extend_attributes` and
/// `Writer::write_event` (a start event is written as `<`, the tag's content,
/// `>`; each attribute is pushed as ` key="value"` with the value escaped by
/// the crate's attribute escaping), then `String::from_utf8` on what was written.
/// It succeeds: the writer only appends to a `Vec<u8>`, which cannot fail, and
/// what it appends is the text of `&str` values and ASCII, which is UTF-8.
#[verifier::external_body]
pub(crate) fn write_start(name: &str, attrs: &Vec<(String, String)>) -> (r: Result<String, EncodingError>)
    ensures
        r is Ok,
        r->Ok_0@ == start_tag(name@, attrs_view(attrs@)),
{
    let mut start = BytesStart::new(name);
    start.extend_attributes(attrs.iter().map(|a| (a.0.as_str(), a.1.as_str())));
    let mut buf: Vec<u8> = Vec::new();
    Writer::new(&mut buf).write_event(Event::Start(start)).map_err(|_| EncodingError::Write)?;
    String::from_utf8(buf).map_err(|_| EncodingError::Text)
}

/// Relies on quick_xml's `BytesEnd::new` and `Writer::write_event` (an end
/// event is written as `</`, the name, `>`), then `String::from_utf8`. It
/// succeeds for the same reasons as [`write_start`].
#[verifier::external_body]
pub(crate) fn write_end(name: &str) -> (r: Result<String, EncodingError>)
    ensures
        r is Ok,
        r->Ok_0@ == end_tag(name@),
{
    let mut buf: Vec<u8> = Vec::new();
    Writer::new(&mut buf).write_event(Event::End(BytesEnd::new(name))).map_err(|_| EncodingError::Write)?;
    String::from_utf8(buf).map_err(|_| EncodingError::Text)
}

/// Renders `start_tag(name, attrs) + text + end_tag(name)`.
pub fn write_element(name: &str, attrs: &Vec<(String, String)>, text: &str) -> (r: Result<String, EncodingError>)
    ensures
        r is Ok,
        r->Ok_0@ == element(name@, attrs_view(attrs@), text@),
{
    let start = match write_start(name, attrs) {
        Ok(s) => s,
        Err(e) => return Err(e),
    };
    let end = match write_end(name) {
        Ok(s) => s,
        Err(e) => return Err(e),
    };
    let out = start.concat(text).concat(end.as_str());
    Ok(out)
}

/// The fragments written one after another.
pub open spec fn joined(frags: Seq<Seq<char>>) -> Seq<char>
    decreases frags.len(),
{
    if frags.len() == 0 {
        Seq::empty()
    } else {
        joined(frags.drop_last()) + frags.last()
    }
}

/// Joining two runs of fragments is joining each and concatenating.
pub proof fn lemma_joined_append(a: Seq<Seq<char>>, b: Seq<Seq<char>>)
    ensures
        joined(a + b) == joined(a) + joined(b),
    decreases b.len(),
{
    if b.len() == 0 {
        assert(a + b =~= a);
        assert(joined(b) =~= Seq::<char>::empty());
        assert(joined(a) + joined(b) =~= joined(a));
    } else {
        assert((a + b).drop_last() =~= a + b.drop_last());
        assert((a + b).last() == b.last());
        lemma_joined_append(a, b.drop_last());
        assert(joined(a) + joined(b.drop_last()) + b.last() =~= joined(a) + (joined(
            b.drop_last(),
        ) + b.last()));
    }
}

/// One more fragment at the end adds its text at the end.
pub proof fn lemma_joined_push(a: Seq<Seq<char>>, f: Seq<char>)
    ensures
        joined(a.push(f)) == joined(a) + f,
{
    assert(a.push(f).drop_last() =~= a);
}

/// The decimal digit character for `d < 10`.
pub open spec fn digit_char(d: nat) -> char {
    seq!['0', '1', '2', '3', '4', '5', '6', '7', '8', '9'][d as int]
}

/// The base-10 numeral of `n`, without sign or leading zeros.
pub open spec fn decimal(n: nat) -> Seq<char>
    decreases n,
{
    if n < 10 {
        seq![digit_char(n)]
    } else {
        decimal(n / 10) + seq![digit_char(n % 10)]
    }
}

/// True of a decimal digit character.
pub open spec fn is_digit(c: char) -> bool {
    '0' <= c <= '9'
}

/// A numeral is made of digit characters only.
pub proof fn lemma_decimal_digits(n: nat)
    ensures
        forall|i: int| 0 <= i < decimal(n).len() ==> is_digit(#[trigger] decimal(n)[i]),
    decreases n,
{
    let digits = seq!['0', '1', '2', '3', '4', '5', '6', '7', '8', '9'];
    assert(forall|d: int| 0 <= d < 10 ==> is_digit(#[trigger] digits[d]));
    if n < 10 {
        assert(decimal(n)[0] == digits[n as int]);
    } else {
        lemma_decimal_digits(n / 10);
        let d = decimal(n);
        let p = decimal(n / 10);
        assert(d == p + seq![digits[(n % 10) as int]]);
        assert forall|i: int| 0 <= i < d.len() implies is_digit(#[trigger] d[i]) by {
            if i < p.len() {
                assert(d[i] == p[i]);
            } else {
                assert(d[i] == digits[(n % 10) as int]);
            }
        }
    }
}

/// Text without special characters is left as it is by escaping.
pub proof fn lemma_escaped_digits(s: Seq<char>)
    requires
        forall|i: int| 0 <= i < s.len() ==> is_digit(#[trigger] s[i]),
    ensures
        escaped(s) == s,
    decreases s.len(),
{
    if s.len() > 0 {
        assert(is_digit(s[0]));
        lemma_escaped_digits(s.drop_first());
        assert(seq![s[0]] + s.drop_first() =~= s);
    }
}

/// The base-10 numeral of `n`.
pub fn to_decimal(n: usize) -> (r: String)
    ensures
        r@ == decimal(n as nat),
    decreases n,
{
    let digits = "0123456789";
    proof {
        reveal_strlit("0123456789");
    }
    let d = n % 10;
    let last = String::from_str(digits.substring_char(d, d + 1));
    if n < 10 {
        assert(last@ =~= seq![digit_char(n as nat)]);
        last
    } else {
        let head = to_decimal(n / 10);
        assert(last@ =~= seq![digit_char((n % 10) as nat)]);
        head.concat(last.as_str())
    }
}

} // verus!
