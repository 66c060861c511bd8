//! TOML documents.
//!
//! Reading and writing TOML is the work of the `toml` crate. This module
//! gives its values a mathematical model, `Node`, and states for each call
//! into the crate what it returns in terms of that model. None of these
//! statements is proved here: they are what the rest of the library assumes
//! of the crate.

use vstd::prelude::*;
use crate::errors::ErrorKind;
use crate::text::texts_of;

verus! {

#[verifier::external_type_specification]
#[verifier::external_body]
pub struct ExValue(toml::Value);

#[verifier::external_type_specification]
#[verifier::external_body]
#[verifier::reject_recursive_types(K)]
#[verifier::reject_recursive_types(V)]
pub struct ExTable<K, V>(toml::map::Map<K, V>);

#[verifier::external_type_specification]
#[verifier::external_body]
pub struct ExDeError(toml::de::Error);

#[verifier::external_type_specification]
#[verifier::external_body]
pub struct ExSerError(toml::ser::Error);

/// A TOML value as a mathematical value.
pub enum Node {
    /// A string.
    Text(Seq<char>),
    /// An integer.
    Integer(i64),
    /// An array, item by item.
    List(Seq<Node>),
    /// A table: each key with its value.
    Table(Map<Seq<char>, Node>),
    /// A boolean, a float or a date-time. The number tells two such values
    /// apart; nothing else is said of it.
    Other(int),
}

/// What a `toml::Value` holds.
pub uninterp spec fn node(value: toml::Value) -> Node;

/// What `toml::from_str` makes of a text: the document's root, or nothing
/// where the text is not TOML.
pub uninterp spec fn parsed(text: Seq<char>) -> Option<Node>;

/// What `toml::to_string` makes of a value: its text, or nothing where the
/// value cannot be written as a document.
pub uninterp spec fn written(value: Node) -> Option<Seq<char>>;

/// What `toml::to_string_pretty` makes of a value: its text, or nothing
/// where the value cannot be written as a document.
pub uninterp spec fn written_pretty(value: Node) -> Option<Seq<char>>;

/// The items of an array, each as a mathematical value.
pub open spec fn nodes(values: Seq<toml::Value>) -> Seq<Node> {
    Seq::new(values.len(), |i: int| node(values[i]))
}

/// The field `key` of a value, where the value is a table that has it.
pub open spec fn field(value: Node, key: Seq<char>) -> Option<Node> {
    match value {
        Node::Table(entries) => if entries.contains_key(key) {
            Some(entries[key])
        } else {
            None
        },
        _ => None,
    }
}

// ---------------------------------------------------------------------------
// Reading
// ---------------------------------------------------------------------------

/// The greatest depth, as `depth_bound` measures it, of a text that is
/// handed to the parser.
pub const MAX_DEPTH: usize = 256;

/// The number of `[` and `{` in a text.
pub open spec fn opens(text: Seq<char>) -> nat
    decreases text.len(),
{
    if text.len() == 0 {
        0
    } else {
        opens(text.drop_last()) + if text.last() == '[' || text.last() == '{' {
            1nat
        } else {
            0nat
        }
    }
}

/// The number of `.` behind the last line break of a text.
pub open spec fn last_line_dots(text: Seq<char>) -> nat
    decreases text.len(),
{
    if text.len() == 0 || text.last() == '\n' {
        0
    } else {
        last_line_dots(text.drop_last()) + if text.last() == '.' {
            1nat
        } else {
            0nat
        }
    }
}

/// The greatest number of `.` that a line of a text holds.
pub open spec fn line_dots(text: Seq<char>) -> nat
    decreases text.len(),
{
    if text.len() == 0 {
        0
    } else if line_dots(text.drop_last()) >= last_line_dots(text) {
        line_dots(text.drop_last())
    } else {
        last_line_dots(text)
    }
}

/// A bound on the depth to which the values of a document are nested.
///
/// A value lies one level deeper for every array and inline table around
/// it, and for every part of the dotted keys and of the table header that
/// lead to it. Every array and inline table starts with a `[` or a `{`. A
/// key or header lies within one line, so it has at most one part more than
/// the line has `.`; and only an array lets a line end inside a value, so the
/// keys that lead to a value lie on at most two lines more than there are
/// `[`. Hence no value lies deeper than the product below.
pub open spec fn depth_bound(text: Seq<char>) -> nat {
    (opens(text) + 2) * (line_dots(text) + 2)
}

/// A text that the parser can take. The parser calls itself once for every
/// level to which a value is nested; the bound keeps its calls within a
/// depth that the stack holds.
pub open spec fn shallow(text: Seq<char>) -> bool {
    depth_bound(text) <= MAX_DEPTH
}

/// The document that the library reads from a text: what the parser makes
/// of it where the text is shallow, and nothing for any other text.
pub open spec fn document_of(text: Seq<char>) -> Option<Node> {
    if shallow(text) {
        parsed(text)
    } else {
        None
    }
}

/// Whether the parser can take a text.
pub fn is_shallow(text: &str) -> (r: bool)
    ensures
        r == shallow(text@),
{
    let length = text.unicode_len();
    let mut open_count: usize = 0;
    let mut dots: usize = 0;
    let mut most: usize = 0;
    for c in iter: text.chars()
        invariant
            iter.seq() == text@,
            length == text@.len(),
            open_count == opens(text@.take(iter.index() as int)),
            dots == last_line_dots(text@.take(iter.index() as int)),
            most == line_dots(text@.take(iter.index() as int)),
            open_count <= iter.index(),
            dots <= iter.index(),
    {
        proof {
            let seen = text@.take(iter.index() + 1);
            assert(seen.drop_last() =~= text@.take(iter.index() as int));
            assert(seen.last() == c);
        }
        if c == '[' || c == '{' {
            open_count += 1;
        }
        if c == '\n' {
            dots = 0;
        } else if c == '.' {
            dots += 1;
        }
        if dots > most {
            most = dots;
        }
    }
    proof {
        assert(text@.take(text@.len() as int) =~= text@);
    }
    if open_count > MAX_DEPTH || most > MAX_DEPTH {
        assert((open_count + 2) * (most + 2) > 256) by (nonlinear_arith)
            requires
                open_count > 256 || most > 256,
        ;
        false
    } else {
        assert((open_count + 2) * (most + 2) <= 258 * 258) by (nonlinear_arith)
            requires
                open_count <= 256,
                most <= 256,
        ;
        (open_count + 2) * (most + 2) <= MAX_DEPTH
    }
}

/// Reads a document from its text. A text that is not shallow is refused
/// without being handed to the parser.
pub fn read_document(text: &str) -> (r: Result<toml::Value, ErrorKind>)
    ensures
        match r {
            Ok(root) => document_of(text@) == Some(node(root)),
            Err(e) => e == ErrorKind::Syntax && document_of(text@) is None,
        },
{
    if is_shallow(text) {
        match parse_document(text) {
            Ok(root) => Ok(root),
            Err(_) => Err(ErrorKind::Syntax),
        }
    } else {
        Err(ErrorKind::Syntax)
    }
}

/// `toml::Value`'s `FromStr`, which is `toml::from_str`: the root of the
/// document that `text` is, or the crate's error where it is none. The text
/// must be shallow: on a text that nests without bound the parser, which
/// calls itself for each level, would not return.
#[verifier::external_body]
pub(crate) fn parse_document(text: &str) -> (r: Result<toml::Value, toml::de::Error>)
    requires
        shallow(text@),
    ensures
        match r {
            Ok(root) => parsed(text@) == Some(node(root)),
            Err(_) => parsed(text@) is None,
        },
{
    text.parse::<toml::Value>()
}

/// `toml::Value::get` with a string index: the value under `key` where
/// `value` is a table with that key, and nothing in every other case.
#[verifier::external_body]
pub(crate) fn get_field<'a>(value: &'a toml::Value, key: &str) -> (r: Option<&'a toml::Value>)
    ensures
        match r {
            Some(found) => field(node(*value), key@) == Some(node(*found)),
            None => field(node(*value), key@) is None,
        },
{
    value.get(key)
}

/// `toml::Value::as_str`: the text of a string, nothing for any other value.
#[verifier::external_body]
pub(crate) fn as_text<'a>(value: &'a toml::Value) -> (r: Option<&'a str>)
    ensures
        match r {
            Some(text) => node(*value) == Node::Text(text@),
            None => !(node(*value) is Text),
        },
{
    value.as_str()
}

/// `toml::Value::as_integer`: the number of an integer, nothing for any
/// other value.
#[verifier::external_body]
pub(crate) fn as_integer(value: &toml::Value) -> (r: Option<i64>)
    ensures
        match r {
            Some(number) => node(*value) == Node::Integer(number),
            None => !(node(*value) is Integer),
        },
{
    value.as_integer()
}

/// `toml::Value::as_array`: the items of an array, nothing for any other value.
#[verifier::external_body]
pub(crate) fn as_list<'a>(value: &'a toml::Value) -> (r: Option<&'a Vec<toml::Value>>)
    ensures
        match r {
            Some(items) => node(*value) == Node::List(nodes(items@)),
            None => !(node(*value) is List),
        },
{
    value.as_array()
}

/// The text `a` comes before the text `b` in the order of strings: where
/// the two first differ, `a` has the character with the lower code point,
/// or `a` ends there and `b` goes on.
pub open spec fn text_before(a: Seq<char>, b: Seq<char>) -> bool
    decreases a.len(),
{
    if b.len() == 0 {
        false
    } else if a.len() == 0 {
        true
    } else if a[0] != b[0] {
        a[0] < b[0]
    } else {
        text_before(a.skip(1), b.skip(1))
    }
}

/// Each text of the list comes before every later one.
pub open spec fn ascending(list: Seq<Seq<char>>) -> bool {
    forall|i: int, j: int| 0 <= i < j < list.len() ==> text_before(#[trigger] list[i], #[trigger] list[j])
}

/// Of two texts at most one comes before the other, and none before itself.
pub proof fn lemma_text_order(a: Seq<char>, b: Seq<char>)
    ensures
        !text_before(a, a),
        text_before(a, b) ==> !text_before(b, a),
    decreases a.len(),
{
    if a.len() > 0 {
        lemma_text_order(a.skip(1), a.skip(1));
        if b.len() > 0 {
            lemma_text_order(a.skip(1), b.skip(1));
        }
    }
}

/// In an ascending list, a text that comes before another stands in front of it.
pub proof fn lemma_ascending_place(list: Seq<Seq<char>>, i: int, j: int)
    requires
        ascending(list),
        0 <= i < list.len(),
        0 <= j < list.len(),
        text_before(list[i], list[j]),
    ensures
        i < j,
{
    lemma_text_order(list[i], list[j]);
    lemma_text_order(list[j], list[i]);
}

/// `toml::Value::as_table` and the `keys` of the table: every key of a
/// table, in the ascending order of strings in which the table keeps its
/// keys; nothing for any other value.
#[verifier::external_body]
pub(crate) fn table_keys(value: &toml::Value) -> (r: Option<Vec<String>>)
    ensures
        match r {
            Some(keys) => node(*value) is Table && ascending(texts_of(keys@)) && forall|
                key: Seq<char>,
            | #[trigger]
                texts_of(keys@).contains(key) <==> node(*value)->Table_0.contains_key(key),
            None => !(node(*value) is Table),
        },
{
    value.as_table().map(|table| table.keys().cloned().collect())
}

// ---------------------------------------------------------------------------
// Building
// ---------------------------------------------------------------------------

/// The variant `toml::Value::String`: the string with this text.
#[verifier::external_body]
pub(crate) fn text_value(text: String) -> (r: toml::Value)
    ensures
        node(r) == Node::Text(text@),
{
    toml::Value::String(text)
}

/// The variant `toml::Value::Integer`: the integer with this number.
#[verifier::external_body]
pub(crate) fn integer_value(number: i64) -> (r: toml::Value)
    ensures
        node(r) == Node::Integer(number),
{
    toml::Value::Integer(number)
}

/// The variant `toml::Value::Array`: the array of these items.
#[verifier::external_body]
pub(crate) fn list_value(items: Vec<toml::Value>) -> (r: toml::Value)
    ensures
        node(r) == Node::List(nodes(items@)),
{
    toml::Value::Array(items)
}

/// What a `toml::value::Table` holds: each key with its value.
pub uninterp spec fn entries_of(table: toml::map::Map<String, toml::Value>) -> Map<Seq<char>, Node>;

/// The entries of an empty table.
pub open spec fn no_entries() -> Map<Seq<char>, Node> {
    Map::empty()
}

/// `toml::map::Map::new`: a table without entries.
#[verifier::external_body]
pub(crate) fn new_table() -> (r: toml::map::Map<String, toml::Value>)
    ensures
        entries_of(r) == no_entries(),
{
    toml::map::Map::new()
}

/// `toml::map::Map::insert`: the table then holds `value` under `key`,
/// whether or not it had the key before, and every other entry as it was.
#[verifier::external_body]
pub(crate) fn table_insert(table: &mut toml::map::Map<String, toml::Value>, key: String, value: toml::Value)
    ensures
        entries_of(*final(table)) == entries_of(*old(table)).insert(key@, node(value)),
{
    let _ = table.insert(key, value);
}

/// The variant `toml::Value::Table`: the table with these entries.
#[verifier::external_body]
pub(crate) fn table_value(table: toml::map::Map<String, toml::Value>) -> (r: toml::Value)
    ensures
        node(r) == Node::Table(entries_of(table)),
{
    toml::Value::Table(table)
}

// ---------------------------------------------------------------------------
// Writing
// ---------------------------------------------------------------------------

/// `toml::to_string`: the text of a value, or the crate's error where the
/// value cannot be written as a document.
#[verifier::external_body]
pub(crate) fn write_document(value: &toml::Value) -> (r: Result<String, toml::ser::Error>)
    ensures
        match r {
            Ok(text) => written(node(*value)) == Some(text@),
            Err(_) => written(node(*value)) is None,
        },
{
    toml::to_string(value)
}

/// `toml::to_string_pretty`: the text of a value, or the crate's error where
/// the value cannot be written as a document.
#[verifier::external_body]
pub(crate) fn write_document_pretty(value: &toml::Value) -> (r: Result<String, toml::ser::Error>)
    ensures
        match r {
            Ok(text) => written_pretty(node(*value)) == Some(text@),
            Err(_) => written_pretty(node(*value)) is None,
        },
{
    toml::to_string_pretty(value)
}

} // verus!
