//! Request bodies: JSON objects, kept and written by `serde_json`.

use vstd::prelude::*;

use crate::text::text_less;

verus! {

/// A member of an object.
pub enum Json {
    Text(Seq<char>),
    Flag(bool),
    /// Any other value, by what is written for it.
    Other(Seq<char>),
}

/// The lower-case hexadecimal digit of `n`.
pub open spec fn hex_char(n: int) -> char
    recommends
        0 <= n < 16,
{
    if n < 10 {
        (0x30 + n) as char
    } else {
        (0x57 + n) as char
    }
}

/// How a character is written inside a JSON string.
pub open spec fn escaped(c: char) -> Seq<char> {
    if c == '"' {
        seq!['\\', '"']
    } else if c == '\\' {
        seq!['\\', '\\']
    } else if c == '\u{8}' {
        seq!['\\', 'b']
    } else if c == '\u{9}' {
        seq!['\\', 't']
    } else if c == '\u{a}' {
        seq!['\\', 'n']
    } else if c == '\u{c}' {
        seq!['\\', 'f']
    } else if c == '\u{d}' {
        seq!['\\', 'r']
    } else if 0x20 > c as int {
        seq!['\\', 'u', '0', '0', hex_char(c as int / 16), hex_char(c as int % 16)]
    } else {
        seq![c]
    }
}

/// The characters of a text, each as it is written inside a JSON string.
pub open spec fn escaped_text(text: Seq<char>) -> Seq<char>
    decreases text.len(),
{
    if text.len() == 0 {
        Seq::empty()
    } else {
        escaped_text(text.drop_last()) + escaped(text.last())
    }
}

/// A text as a JSON string.
pub open spec fn quoted(text: Seq<char>) -> Seq<char> {
    seq!['"'] + escaped_text(text) + seq!['"']
}

/// A member's value in JSON.
pub open spec fn value_text(value: Json) -> Seq<char> {
    match value {
        Json::Text(text) => quoted(text),
        Json::Flag(flag) => if flag {
            "true"@
        } else {
            "false"@
        },
        Json::Other(written) => written,
    }
}

/// The members under `keys`, in that order, with commas between them.
pub open spec fn members_text(keys: Seq<Seq<char>>, members: Map<Seq<char>, Json>) -> Seq<char>
    decreases keys.len(),
{
    if keys.len() == 0 {
        Seq::empty()
    } else {
        let member = quoted(keys.last()) + seq![':'] + value_text(members[keys.last()]);
        if keys.len() == 1 {
            member
        } else {
            members_text(keys.drop_last(), members) + seq![','] + member
        }
    }
}

/// The object with these members, in the compact form, the members in the order of `keys`.
pub open spec fn object_text(keys: Seq<Seq<char>>, members: Map<Seq<char>, Json>) -> Seq<char> {
    seq!['{'] + members_text(keys, members) + seq!['}']
}

/// `keys` are the keys of the members, in ascending order.
pub open spec fn lists_keys(keys: Seq<Seq<char>>, members: Map<Seq<char>, Json>) -> bool {
    &&& forall|key: Seq<char>| #[trigger] keys.contains(key) <==> members.contains_key(key)
    &&& forall|i: int, j: int|
        0 <= i < j < keys.len() ==> text_less(#[trigger] keys[i], #[trigger] keys[j])
}

/// `serde_json::Value`, any JSON value.
#[verifier::external_type_specification]
#[verifier::external_body]
pub struct ExValue(serde_json::Value);

/// `serde_json::Map`, the members of a JSON object by their keys.
#[verifier::external_type_specification]
#[verifier::external_body]
#[verifier::reject_recursive_types(K)]
#[verifier::reject_recursive_types(V)]
pub struct ExMap<K, V>(serde_json::Map<K, V>);

/// The members that an object holds.
pub uninterp spec fn members(object: serde_json::Map<String, serde_json::Value>) -> Map<
    Seq<char>,
    Json,
>;

/// `serde_json::Map::new` makes an object without members.
#[verifier::external_body]
pub(crate) fn empty_object() -> (object: serde_json::Map<String, serde_json::Value>)
    ensures
        members(object).dom() == Set::<Seq<char>>::empty(),
{
    serde_json::Map::new()
}

/// `serde_json::Map::insert` with a string: the member under `key` is that text from now on, and
/// the others are what they were.
#[verifier::external_body]
pub(crate) fn insert_text(
    object: &mut serde_json::Map<String, serde_json::Value>,
    key: String,
    value: String,
)
    ensures
        members(*final(object)) == members(*old(object)).insert(key@, Json::Text(value@)),
{
    object.insert(key, serde_json::Value::String(value));
}

/// `serde_json::Map::insert` with a boolean: the member under `key` is that flag from now on, and
/// the others are what they were.
#[verifier::external_body]
pub(crate) fn insert_flag(
    object: &mut serde_json::Map<String, serde_json::Value>,
    key: String,
    value: bool,
)
    ensures
        members(*final(object)) == members(*old(object)).insert(key@, Json::Flag(value)),
{
    object.insert(key, serde_json::Value::Bool(value));
}

/// `serde_json::Value::to_string` writes an object in the compact form, its members in the order
/// of their keys. The order is that of the map behind `serde_json::Map`, which is a `BTreeMap`
/// while the crate's `preserve_order` feature is off.
#[verifier::external_body]
pub(crate) fn write_object(object: serde_json::Map<String, serde_json::Value>) -> (text: String)
    ensures
        forall|keys: Seq<Seq<char>>| #[trigger]
            lists_keys(keys, members(object)) ==> text@ == object_text(keys, members(object)),
{
    serde_json::Value::Object(object).to_string()
}

/// A character that a JSON string holds as it is.
pub open spec fn needs_no_escape(c: char) -> bool {
    c != '"' && c != '\\' && c as int >= 0x20
}

proof fn lemma_plain_text(text: Seq<char>)
    requires
        forall|i: int| 0 <= i < text.len() ==> needs_no_escape(#[trigger] text[i]),
    ensures
        escaped_text(text) == text,
    decreases text.len(),
{
    if text.len() == 0 {
        assert(escaped_text(text) =~= text);
    } else {
        let front = text.drop_last();
        assert forall|i: int| 0 <= i < front.len() implies needs_no_escape(#[trigger] front[i]) by {
            assert(front[i] == text[i]);
        }
        lemma_plain_text(front);
        assert(needs_no_escape(text[text.len() - 1]));
        assert(front + seq![text.last()] =~= text);
    }
}

/// A text without quotes, backslashes and control characters stands in quotes as it is.
pub proof fn plain_text_is_quoted_unchanged(text: Seq<char>)
    requires
        forall|i: int| 0 <= i < text.len() ==> needs_no_escape(#[trigger] text[i]),
    ensures
        quoted(text) == seq!['"'] + text + seq!['"'],
{
    lemma_plain_text(text);
}

proof fn lemma_escaped_front(text: Seq<char>)
    requires
        text.len() > 0,
    ensures
        escaped_text(text) == escaped(text[0]) + escaped_text(text.skip(1)),
    decreases text.len(),
{
    if text.len() == 1 {
        assert(escaped_text(text.drop_last()) =~= Seq::empty());
        assert(escaped_text(text.skip(1)) =~= Seq::empty());
        assert(escaped_text(text) =~= escaped(text[0]) + escaped_text(text.skip(1)));
    } else {
        let front = text.drop_last();
        lemma_escaped_front(front);
        assert(text.skip(1).drop_last() =~= front.skip(1));
        assert(escaped_text(text) =~= escaped(text[0]) + escaped_text(text.skip(1)));
    }
}

/// No two characters are escaped to texts of which one begins with the other.
proof fn lemma_escape_tells_apart(a: char, b: char, x: Seq<char>, y: Seq<char>)
    requires
        escaped(a) + x == escaped(b) + y,
    ensures
        a == b,
{
    let s = escaped(a) + x;
    assert(s[0] == escaped(a)[0]);
    assert(s[0] == escaped(b)[0]);
    if s[0] == '\\' {
        assert(s[1] == escaped(a)[1]);
        assert(s[1] == escaped(b)[1]);
        if s[1] == 'u' {
            assert(s[4] == escaped(a)[4] && s[5] == escaped(a)[5]);
            assert(s[4] == escaped(b)[4] && s[5] == escaped(b)[5]);
        }
    }
}

/// A string ends at its closing quote, and says which text it quotes.
pub proof fn quoting_is_reversible(a: Seq<char>, b: Seq<char>, x: Seq<char>, y: Seq<char>)
    requires
        quoted(a) + x == quoted(b) + y,
    ensures
        a == b,
        x == y,
{
    assert((quoted(a) + x).skip(1) =~= escaped_text(a) + (seq!['"'] + x));
    assert((quoted(b) + y).skip(1) =~= escaped_text(b) + (seq!['"'] + y));
    lemma_unquote(a, b, x, y);
}

proof fn lemma_unquote(a: Seq<char>, b: Seq<char>, x: Seq<char>, y: Seq<char>)
    requires
        escaped_text(a) + (seq!['"'] + x) == escaped_text(b) + (seq!['"'] + y),
    ensures
        a == b,
        x == y,
    decreases a.len(),
{
    let s = escaped_text(a) + (seq!['"'] + x);
    if a.len() > 0 {
        lemma_escaped_front(a);
        assert(s[0] == escaped(a[0])[0]);
    } else {
        assert(s[0] == '"');
    }
    if b.len() > 0 {
        lemma_escaped_front(b);
        assert(s[0] == escaped(b[0])[0]);
    } else {
        assert(s[0] == '"');
    }
    if a.len() > 0 && b.len() > 0 {
        let rest_a = escaped_text(a.skip(1)) + (seq!['"'] + x);
        let rest_b = escaped_text(b.skip(1)) + (seq!['"'] + y);
        assert(s =~= escaped(a[0]) + rest_a);
        assert(s =~= escaped(b[0]) + rest_b);
        lemma_escape_tells_apart(a[0], b[0], rest_a, rest_b);
        assert(s.skip(escaped(a[0]).len() as int) =~= rest_a);
        assert(s.skip(escaped(b[0]).len() as int) =~= rest_b);
        lemma_unquote(a.skip(1), b.skip(1), x, y);
        assert(a =~= seq![a[0]] + a.skip(1));
        assert(b =~= seq![b[0]] + b.skip(1));
    } else {
        assert(a.len() == 0 && b.len() == 0);
        assert(a =~= b);
        assert(s.skip(1) =~= x);
        assert(s.skip(1) =~= y);
    }
}

/// The value of a hexadecimal digit.
pub open spec fn hex_value(c: char) -> Option<int> {
    if '0' <= c <= '9' {
        Some(c as int - '0' as int)
    } else if 'a' <= c <= 'f' {
        Some(c as int - 'a' as int + 10)
    } else if 'A' <= c <= 'F' {
        Some(c as int - 'A' as int + 10)
    } else {
        None
    }
}

/// The character that a backslash and this letter stand for.
pub open spec fn unescaped(letter: char) -> Option<char> {
    if letter == '"' || letter == '\\' || letter == '/' {
        Some(letter)
    } else if letter == 'b' {
        Some('\u{8}')
    } else if letter == 't' {
        Some('\u{9}')
    } else if letter == 'n' {
        Some('\u{a}')
    } else if letter == 'f' {
        Some('\u{c}')
    } else if letter == 'r' {
        Some('\u{d}')
    } else {
        None
    }
}

/// A character in front of what was read.
pub open spec fn read_on(c: char, read: Option<(Seq<char>, Seq<char>)>) -> Option<
    (Seq<char>, Seq<char>),
> {
    match read {
        Some((text, rest)) => Some((seq![c] + text, rest)),
        None => None,
    }
}

/// What a reader of JSON makes of a string, from behind its opening quote: the text, and what
/// follows the closing quote.
pub open spec fn read_string(text: Seq<char>) -> Option<(Seq<char>, Seq<char>)>
    decreases text.len(),
{
    if text.len() == 0 || 0x20 > text[0] as int {
        None
    } else if text[0] == '"' {
        Some((Seq::empty(), text.skip(1)))
    } else if text[0] != '\\' {
        read_on(text[0], read_string(text.skip(1)))
    } else if text.len() < 2 {
        None
    } else if text[1] != 'u' {
        match unescaped(text[1]) {
            Some(c) => read_on(c, read_string(text.skip(2))),
            None => None,
        }
    } else if text.len() < 6 {
        None
    } else {
        match (
            hex_value(text[2]),
            hex_value(text[3]),
            hex_value(text[4]),
            hex_value(text[5]),
        ) {
            (Some(a), Some(b), Some(c), Some(d)) => read_on(
                (4096 * a + 256 * b + 16 * c + d) as char,
                read_string(text.skip(6)),
            ),
            _ => None,
        }
    }
}

proof fn lemma_control_digits(c: char)
    requires
        0x20 > c as int,
    ensures
        hex_value(hex_char(c as int / 16)) == Some(c as int / 16),
        hex_value(hex_char(c as int % 16)) == Some(c as int % 16),
        (16 * (c as int / 16) + c as int % 16) as char == c,
{
    let n = c as u32;
    assert(0 <= n < 0x20);
    assert(n as int == c as int);
}

proof fn lemma_reads_back(text: Seq<char>, rest: Seq<char>)
    ensures
        read_string(escaped_text(text) + (seq!['"'] + rest)) == Some((text, rest)),
    decreases text.len(),
{
    let written = escaped_text(text) + (seq!['"'] + rest);
    if text.len() == 0 {
        assert(written =~= seq!['"'] + rest);
        assert(written.skip(1) =~= rest);
        assert(text =~= Seq::empty());
    } else {
        let tail = text.skip(1);
        let head = escaped(text[0]);
        let after = escaped_text(tail) + (seq!['"'] + rest);
        lemma_escaped_front(text);
        lemma_reads_back(tail, rest);
        assert(written =~= head + after);
        assert(written.skip(head.len() as int) =~= after);
        assert forall|i: int| 0 <= i < head.len() implies written[i] == #[trigger] head[i] by {}
        assert(seq![text[0]] + tail =~= text);
        assert(written[0] == head[0]);
        if head.len() == 2 {
            assert(written[1] == head[1]);
        } else if head.len() == 6 {
            assert(written[1] == 'u' && written[2] == '0' && written[3] == '0');
            assert(written[4] == head[4] && written[5] == head[5]);
            lemma_control_digits(text[0]);
        }
    }
}

/// A reader of JSON gets back the text that was quoted, and goes on behind it.
pub proof fn a_quoted_text_is_read_back(text: Seq<char>, rest: Seq<char>)
    ensures
        (quoted(text) + rest)[0] == '"',
        read_string((quoted(text) + rest).skip(1)) == Some((text, rest)),
{
    lemma_reads_back(text, rest);
    assert((quoted(text) + rest).skip(1) =~= escaped_text(text) + (seq!['"'] + rest));
}

} // verus!
