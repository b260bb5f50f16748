//! JSON text, through `serde_json`.

use crate::text::texts;
use vstd::prelude::*;

verus! {

/// A JSON value of `serde_json`.
#[verifier::external_type_specification]
#[verifier::external_body]
pub struct ExJsonValue(serde_json::Value);

/// Why `serde_json` could not read or write JSON text.
#[verifier::external_type_specification]
#[verifier::external_body]
pub struct ExJsonError(serde_json::Error);

/// A hexadecimal digit, in lower case.
pub open spec fn hex_digit(d: int) -> char {
    if d < 10 {
        ('0' as u32 + d) as char
    } else {
        ('a' as u32 + d - 10) as char
    }
}

/// A character inside a JSON string: quotes, backslashes and control
/// characters are escaped, everything else stands for itself.
pub open spec fn escaped(c: char) -> Seq<char> {
    if c == '"' || c == '\\' {
        seq!['\\', c]
    } else if c == '\u{8}' {
        seq!['\\', 'b']
    } else if c == '\t' {
        seq!['\\', 't']
    } else if c == '\n' {
        seq!['\\', 'n']
    } else if c == '\u{c}' {
        seq!['\\', 'f']
    } else if c == '\r' {
        seq!['\\', 'r']
    } else if c as int <= 0x1f {
        seq!['\\', 'u', '0', '0', hex_digit(c as int / 16), hex_digit(c as int % 16)]
    } else {
        seq![c]
    }
}

/// What remains of a JSON string once its characters `s` are still to come.
pub open spec fn string_rest(s: Seq<char>) -> Seq<char>
    decreases s.len(),
{
    if s.len() == 0 {
        seq!['"']
    } else {
        escaped(s.first()) + string_rest(s.drop_first())
    }
}

/// The JSON string that writes `s`.
pub open spec fn json_string(s: Seq<char>) -> Seq<char> {
    seq!['"'] + string_rest(s)
}

/// What remains of a JSON array after an element, with `list` still to come.
pub open spec fn array_rest(list: Seq<Seq<char>>) -> Seq<char>
    decreases list.len(),
{
    if list.len() == 0 {
        seq![']']
    } else {
        seq![','] + json_string(list.first()) + array_rest(list.drop_first())
    }
}

/// The JSON array of strings that writes `list`, without white space.
pub open spec fn json_array(list: Seq<Seq<char>>) -> Seq<char> {
    if list.len() == 0 {
        seq!['[', ']']
    } else {
        seq!['['] + json_string(list.first()) + array_rest(list.drop_first())
    }
}

/// The list that `serde_json::from_str` reads from `text` as a `Vec<String>`;
/// `None` where it rejects the text.
pub uninterp spec fn string_list(text: Seq<char>) -> Option<Seq<Seq<char>>>;

/// Calls `serde_json::from_str` for a `Vec<String>`. Whether it accepts the
/// text, and the list it then gives, depend on the text alone. Nothing is said
/// here of the error.
#[verifier::external_body]
fn strings_from_json(text: &str) -> (r: Result<Vec<String>, serde_json::Error>)
    ensures
        r is Ok <==> string_list(text@) is Some,
        r matches Ok(list) ==> string_list(text@) == Some(texts(list@)),
{
    serde_json::from_str(text)
}

/// Calls `serde_json::to_string` on a list of strings. It never fails there,
/// and writes the list as an array of JSON strings without white space between
/// them; [`escaped`] says how it writes each character. `serde_json::from_str`
/// reads the list back from that text.
#[verifier::external_body]
fn strings_to_json(list: &Vec<String>) -> (r: Result<String, serde_json::Error>)
    ensures
        r is Ok,
        r->Ok_0@ == json_array(texts(list@)),
        string_list(r->Ok_0@) == Some(texts(list@)),
{
    serde_json::to_string(list)
}

/// Renders a list as a JSON array destined for a VARCHAR[] column. The driver
/// cannot bind a list directly, so lists are staged as JSON text and converted
/// on insert.
pub fn json_list(values: &Vec<String>) -> (r: String)
    ensures
        r@ == json_array(texts(values@)),
        string_list(r@) == Some(texts(values@)),
{
    strings_to_json(values).unwrap()
}

/// Reads a staged list back; `None` for text that is no JSON array of strings.
pub fn parse_list(json: &str) -> (r: Option<Vec<String>>)
    ensures
        r is Some <==> string_list(json@) is Some,
        r matches Some(list) ==> string_list(json@) == Some(texts(list@)),
{
    match strings_from_json(json) {
        Ok(list) => Some(list),
        Err(_) => None,
    }
}

/// What `serde_json::from_str` makes of `text`: the value it reads, or why it
/// rejects the text.
pub uninterp spec fn json_value(text: Seq<char>) -> Result<serde_json::Value, serde_json::Error>;

/// Calls `serde_json::from_str` for a `Value`. Whether it accepts the text, and
/// the value or the error it then gives, depend on the text alone.
#[verifier::external_body]
pub(crate) fn parse_json(text: &str) -> (r: Result<serde_json::Value, serde_json::Error>)
    ensures
        r == json_value(text@),
{
    serde_json::from_str(text)
}

/// The text that `serde_json::to_string_pretty` writes for a list of values.
pub uninterp spec fn pretty_json(values: Seq<serde_json::Value>) -> Seq<char>;

/// Calls `serde_json::to_string_pretty` on a list of values. It never fails
/// there; its text depends on the values alone, and an empty list is `[]`.
#[verifier::external_body]
pub(crate) fn values_to_pretty_json(values: &Vec<serde_json::Value>) -> (r: Result<
    String,
    serde_json::Error,
>)
    ensures
        r is Ok,
        r->Ok_0@ == pretty_json(values@),
        values@.len() == 0 ==> r->Ok_0@ == seq!['[', ']'],
{
    serde_json::to_string_pretty(values)
}

/// The value of a hexadecimal digit; `None` for another character.
pub open spec fn hex_value(c: char) -> Option<int> {
    if '0' <= c && c <= '9' {
        Some(c as int - '0' as int)
    } else if 'a' <= c && c <= 'f' {
        Some(c as int - 'a' as int + 10)
    } else if 'A' <= c && c <= 'F' {
        Some(c as int - 'A' as int + 10)
    } else {
        None
    }
}

/// The character that a JSON string's text begins with, and how much of the
/// text writes it. `None` where no character is written. A character beyond
/// U+FFFF is read as itself, not as a pair of escapes.
pub open spec fn read_char(text: Seq<char>) -> Option<(char, nat)> {
    if text.len() == 0 || text[0] == '"' || text[0] as int <= 0x1f {
        None
    } else if text[0] != '\\' {
        Some((text[0], 1))
    } else if text.len() < 2 {
        None
    } else if text[1] == '"' || text[1] == '\\' || text[1] == '/' {
        Some((text[1], 2))
    } else if text[1] == 'b' {
        Some(('\u{8}', 2))
    } else if text[1] == 't' {
        Some(('\t', 2))
    } else if text[1] == 'n' {
        Some(('\n', 2))
    } else if text[1] == 'f' {
        Some(('\u{c}', 2))
    } else if text[1] == 'r' {
        Some(('\r', 2))
    } else if text[1] != 'u' || text.len() < 6 {
        None
    } else {
        match (hex_value(text[2]), hex_value(text[3]), hex_value(text[4]), hex_value(text[5])) {
            (Some(a), Some(b), Some(c), Some(d)) => {
                let code = 4096 * a + 256 * b + 16 * c + d;
                if 0xd800 <= code <= 0xdfff {
                    None
                } else {
                    Some((code as char, 6))
                }
            },
            _ => None,
        }
    }
}

/// The string that a text writes from behind its opening quote on, and what
/// follows its closing quote. `None` where no string is written.
pub open spec fn read_string(text: Seq<char>) -> Option<(Seq<char>, Seq<char>)>
    decreases text.len(),
{
    if text.len() > 0 && text[0] == '"' {
        Some((Seq::empty(), text.skip(1)))
    } else {
        match read_char(text) {
            Some((c, n)) => match read_string(text.skip(n as int)) {
                Some((s, rest)) => Some((seq![c] + s, rest)),
                None => None,
            },
            None => None,
        }
    }
}

/// What follows a string is shorter than the text that it is read from.
pub proof fn lemma_string_is_shorter(text: Seq<char>)
    ensures
        read_string(text) matches Some((s, rest)) ==> rest.len() < text.len(),
    decreases text.len(),
{
    if let Some((c, n)) = read_char(text) {
        if text[0] != '"' {
            lemma_string_is_shorter(text.skip(n as int));
        }
    }
}

/// The strings that an array's text writes from behind an opening bracket or a
/// comma on, up to the bracket that closes the array and the text. `None` where
/// no such strings are written.
pub open spec fn read_elements(text: Seq<char>) -> Option<Seq<Seq<char>>>
    decreases text.len(),
{
    if text.len() == 0 || text[0] != '"' {
        None
    } else {
        match read_string(text.skip(1)) {
            Some((s, rest)) => {
                if rest == seq![']'] {
                    Some(seq![s])
                } else if rest.len() == 0 || rest[0] != ',' {
                    None
                } else {
                    proof {
                        lemma_string_is_shorter(text.skip(1));
                    }
                    match read_elements(rest.skip(1)) {
                        Some(list) => Some(seq![s] + list),
                        None => None,
                    }
                }
            },
            None => None,
        }
    }
}

/// The list that a JSON array of strings without white space writes. `None`
/// for any other text.
pub open spec fn read_array(text: Seq<char>) -> Option<Seq<Seq<char>>> {
    if text.len() == 0 || text[0] != '[' {
        None
    } else if text == seq!['[', ']'] {
        Some(Seq::empty())
    } else {
        read_elements(text.skip(1))
    }
}

proof fn lemma_escaped_reads_back(c: char, rest: Seq<char>)
    ensures
        read_char(escaped(c) + rest) == Some((c, escaped(c).len())),
        (escaped(c) + rest)[0] != '"',
{
    let text = escaped(c) + rest;
    assert forall|i: int| 0 <= i < escaped(c).len() implies text[i] == escaped(c)[i] by {}
    assert(text[0] == escaped(c)[0]);
    if escaped(c).len() > 1 {
        assert(text[1] == escaped(c)[1]);
    }
    if escaped(c).len() == 6 {
        assert(text[2] == '0' && text[3] == '0');
        assert(text[4] == hex_digit(c as int / 16));
        assert(text[5] == hex_digit(c as int % 16));
        assert(hex_value(text[4]) == Some(c as int / 16));
        assert(hex_value(text[5]) == Some(c as int % 16));
        assert(16 * (c as int / 16) + c as int % 16 == c as int);
    }
}

proof fn lemma_string_reads_back(s: Seq<char>, rest: Seq<char>)
    ensures
        read_string(string_rest(s) + rest) == Some((s, rest)),
    decreases s.len(),
{
    let text = string_rest(s) + rest;
    if s.len() == 0 {
        assert(text.skip(1) =~= rest);
        assert(s =~= Seq::<char>::empty());
    } else {
        let tail = string_rest(s.drop_first()) + rest;
        assert(text =~= escaped(s.first()) + tail);
        lemma_escaped_reads_back(s.first(), tail);
        assert(text.skip(escaped(s.first()).len() as int) =~= tail);
        lemma_string_reads_back(s.drop_first(), rest);
        assert(seq![s.first()] + s.drop_first() =~= s);
    }
}

proof fn lemma_elements_read_back(list: Seq<Seq<char>>)
    requires
        list.len() > 0,
    ensures
        read_elements(json_string(list.first()) + array_rest(list.drop_first())) == Some(list),
    decreases list.len(),
{
    let rest = array_rest(list.drop_first());
    let text = json_string(list.first()) + rest;
    assert(text.skip(1) =~= string_rest(list.first()) + rest);
    lemma_string_reads_back(list.first(), rest);
    if list.len() == 1 {
        assert(seq![list.first()] =~= list);
    } else {
        let others = list.drop_first();
        assert(rest.len() > 1 && rest[0] == ',');
        assert(rest.skip(1) =~= json_string(others.first()) + array_rest(others.drop_first()));
        lemma_elements_read_back(others);
        assert(seq![list.first()] + others =~= list);
    }
}

/// A staged list reads back: the JSON text of a list writes that list, every
/// string in its place and every character as it was.
pub proof fn law_json_list_reads_back(list: Seq<Seq<char>>)
    ensures
        read_array(json_array(list)) == Some(list),
{
    let text = json_array(list);
    if list.len() == 0 {
        assert(list =~= Seq::<Seq<char>>::empty());
    } else {
        assert(text[1] == '"');
        assert(text.skip(1) =~= json_string(list.first()) + array_rest(list.drop_first()));
        lemma_elements_read_back(list);
    }
}

/// A staged list keeps everything: two lists with the same JSON text are the
/// same list.
pub proof fn law_json_list_keeps_the_list(a: Seq<Seq<char>>, b: Seq<Seq<char>>)
    requires
        json_array(a) == json_array(b),
    ensures
        a == b,
{
    law_json_list_reads_back(a);
    law_json_list_reads_back(b);
}

} // verus!
