//! JSON text.

use vstd::prelude::*;

use crate::digest;
use crate::text;

verus! {

/// A character as it stands inside a JSON string: quotes, backslashes and control characters are
/// escaped, everything else stands for itself.
pub open spec fn escaped(c: char) -> Seq<char> {
    let code = c as int;
    if c == '"' || c == '\\' {
        seq!['\\', c]
    } else if code == 0x08 {
        seq!['\\', 'b']
    } else if code == 0x09 {
        seq!['\\', 't']
    } else if code == 0x0a {
        seq!['\\', 'n']
    } else if code == 0x0c {
        seq!['\\', 'f']
    } else if code == 0x0d {
        seq!['\\', 'r']
    } else if code < 0x20 {
        seq!['\\', 'u', '0', '0', text::hex_digit(code / 16), text::hex_digit(code % 16)]
    } else {
        seq![c]
    }
}

/// A text as it stands between the quotes of a JSON string.
pub open spec fn escaped_text(text: Seq<char>) -> Seq<char>
    decreases text.len(),
{
    if text.len() == 0 {
        Seq::empty()
    } else {
        escaped_text(text.drop_last()) + escaped(text.last())
    }
}

/// A text as a JSON string.
pub open spec fn string_json_spec(text: Seq<char>) -> Seq<char> {
    seq!['"'] + escaped_text(text) + seq!['"']
}

/// Texts as JSON strings with commas between them.
pub open spec fn strings_between_commas(list: Seq<Seq<char>>) -> Seq<char>
    decreases list.len(),
{
    if list.len() == 0 {
        Seq::empty()
    } else if list.len() == 1 {
        string_json_spec(list[0])
    } else {
        strings_between_commas(list.drop_last()) + seq![','] + string_json_spec(list.last())
    }
}

/// A list of texts as a JSON array of strings.
pub open spec fn strings_json_spec(list: Seq<Seq<char>>) -> Seq<char> {
    seq!['['] + strings_between_commas(list) + seq![']']
}

/// A text as a JSON string, from `serde_json::to_string`.
///
/// That function does not fail on a `&str`. The contract claims which characters it escapes and
/// how: the two-character escapes, `\u00xx` for the other control characters below U+0020, and
/// nothing else.
#[verifier::external_body]
pub(crate) fn string_json(text: &str) -> (res: String)
    ensures
        res@ == string_json_spec(text@),
{
    serde_json::to_string(text).unwrap_or_default()
}

/// A list of texts as a JSON array of strings, from `serde_json::to_string`.
///
/// That function does not fail on a slice of strings. The contract claims that it writes the
/// strings in order, as it writes a single one, with a comma and no space between them.
#[verifier::external_body]
pub(crate) fn strings_json(list: &[String]) -> (res: String)
    ensures
        res@ == strings_json_spec(list.deep_view()),
{
    serde_json::to_string(list).unwrap_or_default()
}

// ---- What this is for ----

/// Whether a piece of JSON text stands for a character inside a string.
pub open spec fn stands_for(piece: Seq<char>, c: char) -> bool {
    if piece.len() == 1 {
        piece[0] == c && c != '"' && c != '\\' && c as int >= 0x20
    } else if piece.len() == 2 {
        &&& piece[0] == '\\'
        &&& match piece[1] {
            '"' => c == '"',
            '\\' => c == '\\',
            'b' => c as int == 0x08,
            't' => c as int == 0x09,
            'n' => c as int == 0x0a,
            'f' => c as int == 0x0c,
            'r' => c as int == 0x0d,
            _ => false,
        }
    } else {
        &&& piece.len() == 6
        &&& piece[0] == '\\'
        &&& piece[1] == 'u'
        &&& piece[2] == '0'
        &&& piece[3] == '0'
        &&& digest::hex_value(piece[4]) is Some
        &&& digest::hex_value(piece[5]) is Some
        &&& c as int == 16 * digest::hex_value(piece[4])->0 + digest::hex_value(piece[5])->0
    }
}

/// Inside a string each character is written as a piece that stands for it, one after the other.
pub proof fn law_characters_are_escaped(c: char, before: Seq<char>, after: Seq<char>)
    ensures
        stands_for(escaped(c), c),
        escaped_text(Seq::empty()) == Seq::<char>::empty(),
        escaped_text(before.push(c)) == escaped_text(before) + escaped(c),
        escaped_text(before + after) == escaped_text(before) + escaped_text(after),
    decreases after.len(),
{
    let code = c as int;
    if code < 0x20 {
        digest::lemma_hex_digit(code / 16);
        digest::lemma_hex_digit(code % 16);
    }
    assert(before.push(c).drop_last() =~= before);
    if after.len() == 0 {
        assert(before + after =~= before);
        assert(escaped_text(before) + escaped_text(after) =~= escaped_text(before));
    } else {
        law_characters_are_escaped(c, before, after.drop_last());
        assert((before + after).drop_last() =~= before + after.drop_last());
        assert(escaped_text(before + after) =~= escaped_text(before) + escaped_text(after));
    }
}

/// Texts with commas between them.
pub open spec fn between_commas(items: Seq<Seq<char>>) -> Seq<char>
    decreases items.len(),
{
    if items.len() == 0 {
        Seq::empty()
    } else if items.len() == 1 {
        items[0]
    } else {
        between_commas(items.drop_last()) + ","@ + items.last()
    }
}

/// A JSON array of values.
pub open spec fn array(values: Seq<Seq<char>>) -> Seq<char> {
    "["@ + between_commas(values) + "]"@
}

/// A JSON object of named values.
pub open spec fn object(members: Seq<(Seq<char>, Seq<char>)>) -> Seq<char> {
    "{"@ + between_commas(
        Seq::new(
            members.len(),
            |i: int| "\""@ + escaped_text(members[i].0) + "\""@ + ":"@ + members[i].1,
        ),
    ) + "}"@
}

/// A JSON string.
pub open spec fn string(text: Seq<char>) -> Seq<char> {
    "\""@ + escaped_text(text) + "\""@
}

/// A list of texts is written as an array of strings.
pub proof fn law_strings_are_an_array(list: Seq<Seq<char>>)
    ensures
        strings_json_spec(list) == array(Seq::new(list.len(), |i: int| string(list[i]))),
    decreases list.len(),
{
    let strings = Seq::new(list.len(), |i: int| string(list[i]));
    lemma_between_commas(list);
    reveal_strlit("[");
    reveal_strlit("]");
    assert(strings_json_spec(list) =~= array(strings));
}

proof fn lemma_between_commas(list: Seq<Seq<char>>)
    ensures
        strings_between_commas(list) == between_commas(
            Seq::new(list.len(), |i: int| string(list[i])),
        ),
    decreases list.len(),
{
    let strings = Seq::new(list.len(), |i: int| string(list[i]));
    reveal_strlit("\"");
    reveal_strlit(",");
    if list.len() > 0 {
        let front = list.drop_last();
        lemma_between_commas(front);
        assert(strings.drop_last() =~= Seq::new(front.len(), |i: int| string(front[i])));
        assert(string_json_spec(list.last()) =~= string(list.last()));
        assert(string_json_spec(list[0]) =~= string(list[0]));
        assert(strings_between_commas(list) =~= between_commas(strings));
    }
}

/// Whether no character of a text is escaped in JSON.
pub open spec fn is_plain(text: Seq<char>) -> bool {
    forall|i: int|
        0 <= i < text.len() ==> {
            &&& #[trigger] text[i] != '"'
            &&& text[i] != '\\'
            &&& text[i] as int >= 0x20
        }
}

/// A text in which nothing is escaped is written as it stands.
pub proof fn law_plain_text(text: Seq<char>)
    requires
        is_plain(text),
    ensures
        escaped_text(text) == text,
    decreases text.len(),
{
    if text.len() > 0 {
        law_plain_text(text.drop_last());
        assert(text =~= text.drop_last().push(text.last()));
        assert(escaped(text.last()) =~= seq![text.last()]);
        assert(escaped_text(text) =~= text);
    } else {
        assert(escaped_text(text) =~= text);
    }
}

/// An object of one member.
pub(crate) proof fn lemma_object_one(a: Seq<char>, x: Seq<char>)
    requires
        is_plain(a),
    ensures
        object(seq![(a, x)]) == "{\""@ + a + "\":"@ + x + "}"@,
{
    law_plain_text(a);
    let members = seq![(a, x)];
    let items = Seq::new(
        members.len(),
        |i: int| "\""@ + escaped_text(members[i].0) + "\""@ + ":"@ + members[i].1,
    );
    assert(between_commas(items) == items[0]);
    reveal_strlit("{");
    reveal_strlit("{\"");
    reveal_strlit("\"");
    reveal_strlit("\":");
    reveal_strlit(":");
    assert(object(members) =~= "{\""@ + a + "\":"@ + x + "}"@);
}

/// An object of two members.
pub(crate) proof fn lemma_object_two(a: Seq<char>, x: Seq<char>, b: Seq<char>, y: Seq<char>)
    requires
        is_plain(a),
        is_plain(b),
    ensures
        object(seq![(a, x), (b, y)]) == "{\""@ + a + "\":"@ + x + ",\""@ + b + "\":"@ + y + "}"@,
{
    law_plain_text(a);
    law_plain_text(b);
    let members = seq![(a, x), (b, y)];
    let items = Seq::new(
        members.len(),
        |i: int| "\""@ + escaped_text(members[i].0) + "\""@ + ":"@ + members[i].1,
    );
    assert(items.drop_last() =~= seq![items[0]]);
    assert(between_commas(items.drop_last()) == items[0]);
    assert(between_commas(items) == items[0] + ","@ + items[1]);
    reveal_strlit("{");
    reveal_strlit("{\"");
    reveal_strlit("\"");
    reveal_strlit("\":");
    reveal_strlit(":");
    reveal_strlit(",");
    reveal_strlit(",\"");
    assert(object(members) =~= "{\""@ + a + "\":"@ + x + ",\""@ + b + "\":"@ + y + "}"@);
}

/// An object of three members.
pub(crate) proof fn lemma_object_three(
    a: Seq<char>,
    x: Seq<char>,
    b: Seq<char>,
    y: Seq<char>,
    c: Seq<char>,
    z: Seq<char>,
)
    requires
        is_plain(a),
        is_plain(b),
        is_plain(c),
    ensures
        object(seq![(a, x), (b, y), (c, z)]) == "{\""@ + a + "\":"@ + x + ",\""@ + b + "\":"@ + y
            + ",\""@ + c + "\":"@ + z + "}"@,
{
    law_plain_text(a);
    law_plain_text(b);
    law_plain_text(c);
    let members = seq![(a, x), (b, y), (c, z)];
    let items = Seq::new(
        members.len(),
        |i: int| "\""@ + escaped_text(members[i].0) + "\""@ + ":"@ + members[i].1,
    );
    assert(items.drop_last() =~= seq![items[0], items[1]]);
    assert(items.drop_last().drop_last() =~= seq![items[0]]);
    assert(between_commas(items.drop_last().drop_last()) == items[0]);
    assert(between_commas(items.drop_last()) == items[0] + ","@ + items[1]);
    assert(between_commas(items) == items[0] + ","@ + items[1] + ","@ + items[2]);
    reveal_strlit("{");
    reveal_strlit("{\"");
    reveal_strlit("\"");
    reveal_strlit("\":");
    reveal_strlit(":");
    reveal_strlit(",");
    reveal_strlit(",\"");
    assert(object(members) =~= "{\""@ + a + "\":"@ + x + ",\""@ + b + "\":"@ + y + ",\""@ + c
        + "\":"@ + z + "}"@);
}

} // verus!
