//! JSON documents as trees of plain values, read and written with `serde_json`.

use crate::text;
use vstd::prelude::*;

verus! {

#[verifier::external_type_specification]
#[verifier::external_body]
pub struct ExValue(serde_json::Value);

#[verifier::external_type_specification]
#[verifier::external_body]
pub struct ExNumber(serde_json::Number);

#[verifier::external_type_specification]
#[verifier::external_body]
pub struct ExJsonError(serde_json::Error);

/// A number of a document that is not an integer. It is only carried through: nothing but
/// reading a document makes one.
pub struct Fraction {
    number: serde_json::Number,
}

/// A JSON document. Where an object names a key more than once, the last entry counts.
pub enum Json {
    Null,
    Bool(bool),
    Unsigned(u64),
    Signed(i64),
    Fraction(Fraction),
    Text(String),
    Array(Vec<Json>),
    Object(Vec<(String, Json)>),
}

/// What a JSON document says: the order of an object's entries is of no account.
pub enum JsonView {
    Null,
    Bool(bool),
    Integer(int),
    Fraction(Fraction),
    Text(Seq<char>),
    Array(Seq<JsonView>),
    Object(Map<Seq<char>, JsonView>),
}

/// The documents that the elements of an array are.
pub open spec fn elements(s: Seq<Json>) -> Seq<JsonView>
    decreases s,
{
    if s.len() == 0 {
        Seq::empty()
    } else {
        elements(s.drop_last()).push(s.last().tree())
    }
}

/// The map that the entries of an object stand for.
pub open spec fn entries(s: Seq<(String, Json)>) -> Map<Seq<char>, JsonView>
    decreases s,
{
    if s.len() == 0 {
        Map::empty()
    } else {
        entries(s.drop_last()).insert(s.last().0@, s.last().1.tree())
    }
}

impl Json {
    /// What the document says.
    pub open spec fn tree(self) -> JsonView
        decreases self,
    {
        match self {
            Json::Null => JsonView::Null,
            Json::Bool(b) => JsonView::Bool(b),
            Json::Unsigned(n) => JsonView::Integer(n as int),
            Json::Signed(n) => JsonView::Integer(n as int),
            Json::Fraction(f) => JsonView::Fraction(f),
            Json::Text(s) => JsonView::Text(s@),
            Json::Array(v) => JsonView::Array(elements(v@)),
            Json::Object(v) => JsonView::Object(entries(v@)),
        }
    }
}

impl View for Json {
    type V = JsonView;

    open spec fn view(&self) -> JsonView {
        self.tree()
    }
}

/// An array's document has the elements' documents, in order.
pub broadcast proof fn lemma_elements(s: Seq<Json>)
    ensures
        #![trigger elements(s)]
        elements(s).len() == s.len(),
        forall|i: int| 0 <= i < s.len() ==> #[trigger] elements(s)[i] == s[i].tree(),
    decreases s.len(),
{
    if s.len() > 0 {
        lemma_elements(s.drop_last());
    }
}

/// The last entry with a key decides what the object holds there.
proof fn lemma_entry(s: Seq<(String, Json)>, i: int)
    requires
        0 <= i < s.len(),
        forall|j: int| i < j < s.len() ==> (#[trigger] s[j]).0@ != s[i].0@,
    ensures
        entries(s).contains_key(s[i].0@),
        entries(s)[s[i].0@] == s[i].1.tree(),
    decreases s.len(),
{
    if i < s.len() - 1 {
        lemma_entry(s.drop_last(), i);
    }
}

/// A key that no entry has is not in the object.
proof fn lemma_no_entry(s: Seq<(String, Json)>, key: Seq<char>)
    requires
        forall|j: int| 0 <= j < s.len() ==> (#[trigger] s[j]).0@ != key,
    ensures
        !entries(s).contains_key(key),
    decreases s.len(),
{
    if s.len() > 0 {
        lemma_no_entry(s.drop_last(), key);
    }
}

impl JsonView {
    /// What an object holds under `key`.
    pub open spec fn field(self, key: Seq<char>) -> Option<JsonView> {
        match self {
            JsonView::Object(m) => if m.contains_key(key) {
                Some(m[key])
            } else {
                None
            },
            _ => None,
        }
    }

    /// What is found by descending through objects along `path`.
    pub open spec fn at(self, path: Seq<Seq<char>>) -> Option<JsonView>
        decreases path.len(),
    {
        if path.len() == 0 {
            Some(self)
        } else {
            match self.field(path[0]) {
                Some(v) => v.at(path.skip(1)),
                None => None,
            }
        }
    }

    /// The characters of a text.
    pub open spec fn as_text(self) -> Option<Seq<char>> {
        match self {
            JsonView::Text(s) => Some(s),
            _ => None,
        }
    }

    /// The integer, where it fits in 64 bits with a sign.
    pub open spec fn as_signed(self) -> Option<int> {
        match self {
            JsonView::Integer(n) => if i64::MIN <= n <= i64::MAX {
                Some(n)
            } else {
                None
            },
            _ => None,
        }
    }

    /// The integer, where it fits in 64 bits without a sign.
    pub open spec fn as_unsigned(self) -> Option<int> {
        match self {
            JsonView::Integer(n) => if 0 <= n <= u64::MAX {
                Some(n)
            } else {
                None
            },
            _ => None,
        }
    }

    /// The elements of an array.
    pub open spec fn as_elements(self) -> Option<Seq<JsonView>> {
        match self {
            JsonView::Array(s) => Some(s),
            _ => None,
        }
    }
}

/// The text of an optional document.
pub open spec fn opt_text(v: Option<JsonView>) -> Option<Seq<char>> {
    match v {
        Some(j) => j.as_text(),
        None => None,
    }
}

/// Finds the last entry with `key`.
fn find_entry(v: &Vec<(String, Json)>, key: &str) -> (res: Option<usize>)
    ensures
        match res {
            Some(i) => i < v@.len() && v@[i as int].0@ == key@ && entries(v@).contains_key(key@)
                && entries(v@)[key@] == v@[i as int].1.tree() && forall|j: int|
                i < j < v@.len() ==> (#[trigger] v@[j]).0@ != key@,
            None => !entries(v@).contains_key(key@) && forall|j: int|
                0 <= j < v@.len() ==> (#[trigger] v@[j]).0@ != key@,
        },
{
    let mut i: usize = v.len();
    while i > 0
        invariant
            i <= v@.len(),
            forall|j: int| i <= j < v@.len() ==> (#[trigger] v@[j]).0@ != key@,
        decreases i,
    {
        i -= 1;
        if text::same(v[i].0.as_str(), key) {
            proof {
                lemma_entry(v@, i as int);
            }
            return Some(i);
        }
    }
    proof {
        lemma_no_entry(v@, key@);
    }
    None
}

impl Json {
    /// What an object holds under `key`.
    pub fn get(&self, key: &str) -> (res: Option<&Json>)
        ensures
            match res {
                Some(j) => self@.field(key@) == Some(j@),
                None => self@.field(key@) is None,
            },
    {
        match self {
            Json::Object(v) => match find_entry(v, key) {
                Some(i) => Some(&v[i].1),
                None => None,
            },
            _ => None,
        }
    }

    /// What is found by descending through objects along `path`.
    pub fn pointer(&self, path: &[&str]) -> (res: Option<&Json>)
        ensures
            match res {
                Some(j) => self@.at(text::strs(path@)) == Some(j@),
                None => self@.at(text::strs(path@)) is None,
            },
    {
        let mut cur: &Json = self;
        let mut i: usize = 0;
        assert(text::strs(path@).skip(0) =~= text::strs(path@));
        while i < path.len()
            invariant
                i <= path@.len(),
                self@.at(text::strs(path@)) == cur@.at(text::strs(path@).skip(i as int)),
            decreases path@.len() - i,
        {
            assert(text::strs(path@).skip(i as int)[0] == path@[i as int]@);
            assert(text::strs(path@).skip(i as int).skip(1) =~= text::strs(path@).skip(i + 1));
            match cur.get(path[i]) {
                Some(next) => {
                    cur = next;
                },
                None => {
                    return None;
                },
            }
            i += 1;
        }
        Some(cur)
    }

    /// The characters of a text.
    pub fn as_str(&self) -> (res: Option<&str>)
        ensures
            text::opt_str(res) == self@.as_text(),
    {
        match self {
            Json::Text(s) => Some(s.as_str()),
            _ => None,
        }
    }

    /// The integer, where it fits in 64 bits with a sign.
    pub fn as_i64(&self) -> (res: Option<i64>)
        ensures
            match res {
                Some(n) => self@.as_signed() == Some(n as int),
                None => self@.as_signed() is None,
            },
    {
        match self {
            Json::Unsigned(n) => if *n <= i64::MAX as u64 {
                Some(*n as i64)
            } else {
                None
            },
            Json::Signed(n) => Some(*n),
            _ => None,
        }
    }

    /// The integer, where it fits in 64 bits without a sign.
    pub fn as_u64(&self) -> (res: Option<u64>)
        ensures
            match res {
                Some(n) => self@.as_unsigned() == Some(n as int),
                None => self@.as_unsigned() is None,
            },
    {
        match self {
            Json::Unsigned(n) => Some(*n),
            Json::Signed(n) => if *n >= 0 {
                Some(*n as u64)
            } else {
                None
            },
            _ => None,
        }
    }

    /// The elements of an array.
    pub fn as_array(&self) -> (res: Option<&Vec<Json>>)
        ensures
            match res {
                Some(v) => self@.as_elements() == Some(elements(v@)),
                None => self@.as_elements() is None,
            },
    {
        match self {
            Json::Array(v) => Some(v),
            _ => None,
        }
    }
}

/// The document that a `serde_json` value holds.
pub uninterp spec fn document(v: serde_json::Value) -> JsonView;

/// The document that a text is, where it is one.
pub uninterp spec fn parsed(text: Seq<char>) -> Option<JsonView>;

/// The document that some bytes are, where they are one.
pub uninterp spec fn parsed_bytes(bytes: Seq<u8>) -> Option<JsonView>;

/// The text that a document is written as, on one line.
pub uninterp spec fn compact(doc: JsonView) -> Seq<char>;

/// The text that a document is written as, indented.
pub uninterp spec fn pretty(doc: JsonView) -> Seq<char>;

/// `serde_json::from_str`, for `serde_json::Value`: it succeeds on the texts that are documents,
/// and which document comes out depends on the text alone.
#[verifier::external_body]
fn read_value(text: &str) -> (res: Result<serde_json::Value, serde_json::Error>)
    ensures
        match res {
            Ok(v) => parsed(text@) == Some(document(v)),
            Err(_) => parsed(text@) is None,
        },
{
    serde_json::from_str(text)
}

/// `serde_json::from_slice`, for `serde_json::Value`: it succeeds on the bytes that are documents,
/// and which document comes out depends on the bytes alone.
#[verifier::external_body]
fn read_value_bytes(bytes: &[u8]) -> (res: Result<serde_json::Value, serde_json::Error>)
    ensures
        match res {
            Ok(v) => parsed_bytes(bytes@) == Some(document(v)),
            Err(_) => parsed_bytes(bytes@) is None,
        },
{
    serde_json::from_slice(bytes)
}

/// Takes a `serde_json::Value` apart, one variant each: an integer is one that `as_u64` or
/// `as_i64` gives, and an object's entries are those of its map.
#[verifier::external_body]
fn from_value(v: serde_json::Value) -> (res: Json)
    ensures
        res@ == document(v),
{
    match v {
        serde_json::Value::Null => Json::Null,
        serde_json::Value::Bool(b) => Json::Bool(b),
        serde_json::Value::Number(n) => match (n.as_u64(), n.as_i64()) {
            (Some(u), _) => Json::Unsigned(u),
            (None, Some(i)) => Json::Signed(i),
            (None, None) => Json::Fraction(Fraction { number: n }),
        },
        serde_json::Value::String(s) => Json::Text(s),
        serde_json::Value::Array(a) => Json::Array(a.into_iter().map(from_value).collect()),
        serde_json::Value::Object(m) => Json::Object(
            m.into_iter().map(|(k, w)| (k, from_value(w))).collect()),
    }
}

/// Builds a `serde_json::Value`, one variant each. Collecting an object's entries into
/// `serde_json`'s map lets the last entry with a key win.
#[verifier::external_body]
fn to_value(j: Json) -> (res: serde_json::Value)
    ensures
        document(res) == j@,
{
    match j {
        Json::Null => serde_json::Value::Null,
        Json::Bool(b) => serde_json::Value::Bool(b),
        Json::Unsigned(n) => serde_json::Value::from(n),
        Json::Signed(n) => serde_json::Value::from(n),
        Json::Fraction(f) => serde_json::Value::Number(f.number),
        Json::Text(s) => serde_json::Value::String(s),
        Json::Array(a) => serde_json::Value::Array(a.into_iter().map(to_value).collect()),
        Json::Object(m) => serde_json::Value::Object(
            m.into_iter().map(|(k, w)| (k, to_value(w))).collect()),
    }
}

/// `serde_json::to_string`, for `serde_json::Value`. Writing into a `Vec` does not fail, the keys
/// are strings and the value's own `Serialize` raises no error, so it succeeds; an object's
/// entries come out sorted by key, so the text depends on the document alone.
#[verifier::external_body]
fn write_value(v: &serde_json::Value) -> (res: Result<String, serde_json::Error>)
    ensures
        res is Ok,
        res matches Ok(s) ==> s@ == compact(document(*v)),
{
    serde_json::to_string(v)
}

/// `serde_json::to_string_pretty`, for `serde_json::Value`: it succeeds, and its text depends on
/// the document alone, as with `serde_json::to_string`.
#[verifier::external_body]
fn write_value_pretty(v: &serde_json::Value) -> (res: Result<String, serde_json::Error>)
    ensures
        res is Ok,
        res matches Ok(s) ==> s@ == pretty(document(*v)),
{
    serde_json::to_string_pretty(v)
}

/// Reads a document.
pub fn parse(text: &str) -> (res: Option<Json>)
    ensures
        match res {
            Some(j) => parsed(text@) == Some(j@),
            None => parsed(text@) is None,
        },
{
    match read_value(text) {
        Ok(v) => Some(from_value(v)),
        Err(_) => None,
    }
}

/// Reads a document from bytes.
pub fn parse_bytes(bytes: &[u8]) -> (res: Option<Json>)
    ensures
        match res {
            Some(j) => parsed_bytes(bytes@) == Some(j@),
            None => parsed_bytes(bytes@) is None,
        },
{
    match read_value_bytes(bytes) {
        Ok(v) => Some(from_value(v)),
        Err(_) => None,
    }
}

/// Writes a document on one line.
pub fn to_text(j: Json) -> (res: String)
    ensures
        res@ == compact(j@),
{
    let v: serde_json::Value = to_value(j);
    match write_value(&v) {
        Ok(s) => s,
        Err(_) => vstd::pervasive::unreached(),
    }
}

/// Writes a document with indentation.
pub fn to_text_pretty(j: Json) -> (res: String)
    ensures
        res@ == pretty(j@),
{
    let v: serde_json::Value = to_value(j);
    match write_value_pretty(&v) {
        Ok(s) => s,
        Err(_) => vstd::pervasive::unreached(),
    }
}

/// `m` with `v` under `key`, where there is a `v`.
pub open spec fn with_opt(
    m: Map<Seq<char>, JsonView>,
    key: Seq<char>,
    v: Option<JsonView>,
) -> Map<Seq<char>, JsonView> {
    match v {
        Some(x) => m.insert(key, x),
        None => m,
    }
}

/// Adds an entry to an object under construction.
pub fn put(v: &mut Vec<(String, Json)>, key: &str, value: Json)
    ensures
        entries(final(v)@) == entries(old(v)@).insert(key@, value@),
{
    let ghost before = v@;
    v.push((key.to_owned(), value));
    assert(v@.drop_last() =~= before);
}

/// Adds an entry where there is a value for it.
pub fn put_opt(v: &mut Vec<(String, Json)>, key: &str, value: Option<Json>)
    ensures
        entries(final(v)@) == with_opt(
            entries(old(v)@),
            key@,
            match value {
                Some(j) => Some(j@),
                None => None,
            },
        ),
{
    if let Some(j) = value {
        put(v, key, j);
    }
}

/// Adds an element to an array under construction.
pub fn add_element(v: &mut Vec<Json>, value: Json)
    ensures
        elements(final(v)@) == elements(old(v)@).push(value@),
{
    let ghost before = v@;
    v.push(value);
    assert(v@.drop_last() =~= before);
}

/// A text document.
pub fn json_text(s: &str) -> (res: Json)
    ensures
        res@ == JsonView::Text(s@),
{
    Json::Text(s.to_owned())
}

/// The array of the given texts.
pub open spec fn texts(v: Seq<Seq<char>>) -> JsonView {
    JsonView::Array(Seq::new(v.len(), |i: int| JsonView::Text(v[i])))
}

/// The array of the given texts.
pub fn json_texts(v: &[&str]) -> (res: Json)
    ensures
        res@ == texts(text::strs(v@)),
{
    let mut out: Vec<Json> = Vec::new();
    let mut i: usize = 0;
    while i < v.len()
        invariant
            i <= v@.len(),
            elements(out@) =~= Seq::new(i as nat, |k: int| JsonView::Text(v@[k]@)),
        decreases v@.len() - i,
    {
        add_element(&mut out, json_text(v[i]));
        i += 1;
    }
    assert(elements(out@) =~= Seq::new(v@.len(), |k: int| JsonView::Text(text::strs(v@)[k])));
    Json::Array(out)
}

/// Dropping one entry changes nothing under other keys.
proof fn lemma_drop_entry(s: Seq<(String, Json)>, i: int)
    requires
        0 <= i < s.len(),
    ensures
        entries(s.remove(i)).remove(s[i].0@) =~= entries(s).remove(s[i].0@),
    decreases s.len(),
{
    if i == s.len() - 1 {
        assert(s.remove(i) =~= s.drop_last());
        assert(s.last() == s[i]);
        assert(entries(s) == entries(s.drop_last()).insert(s[i].0@, s[i].1.tree()));
        assert(entries(s).remove(s[i].0@) =~= entries(s.drop_last()).remove(s[i].0@));
    } else {
        assert(s.remove(i).drop_last() =~= s.drop_last().remove(i));
        assert(s.remove(i).last() == s.last());
        lemma_drop_entry(s.drop_last(), i);
        let k = s[i].0@;
        assert(entries(s.drop_last().remove(i)).remove(k) =~= entries(s.drop_last()).remove(k));
        let a = entries(s.drop_last().remove(i));
        let b = entries(s.drop_last());
        let (q, z) = (s.last().0@, s.last().1.tree());
        if q == k {
            assert(a.insert(q, z).remove(k) =~= a.remove(k));
            assert(b.insert(q, z).remove(k) =~= b.remove(k));
        } else {
            assert(a.insert(q, z).remove(k) =~= a.remove(k).insert(q, z));
            assert(b.insert(q, z).remove(k) =~= b.remove(k).insert(q, z));
        }
    }
}

/// Takes the entry for `key` out of an object.
pub fn take(v: &mut Vec<(String, Json)>, key: &str) -> (res: Option<Json>)
    ensures
        entries(final(v)@) == entries(old(v)@).remove(key@),
        match res {
            Some(j) => entries(old(v)@).contains_key(key@) && j@ == entries(old(v)@)[key@],
            None => !entries(old(v)@).contains_key(key@),
        },
{
    let ghost before = entries(v@);
    let mut found: Option<Json> = None;
    loop
        invariant_except_break
            entries(v@).remove(key@) =~= before.remove(key@),
            match found {
                Some(j) => before.contains_key(key@) && j@ == before[key@],
                None => entries(v@) == before,
            },
        ensures
            entries(v@) =~= before.remove(key@),
            match found {
                Some(j) => before.contains_key(key@) && j@ == before[key@],
                None => !before.contains_key(key@),
            },
        decreases v@.len(),
    {
        match find_entry(v, key) {
            Some(i) => {
                proof {
                    lemma_drop_entry(v@, i as int);
                }
                let (_, value) = v.remove(i);
                if found.is_none() {
                    found = Some(value);
                }
            },
            None => {
                assert(entries(v@).remove(key@) =~= entries(v@));
                break;
            },
        }
    }
    found
}

/// A member of an object that is written in order. The key needs no escapes.
pub open spec fn member(key: Seq<char>, value: Seq<char>) -> Seq<char> {
    "\""@ + key + "\":"@ + value
}

/// Members with one more, where there is a value for it.
pub open spec fn with_member(
    m: Seq<Seq<char>>,
    key: Seq<char>,
    value: Option<Seq<char>>,
) -> Seq<Seq<char>> {
    match value {
        Some(x) => m.push(member(key, x)),
        None => m,
    }
}

/// An object whose members are written in order, on one line. A document's own text is sorted by
/// key; this is how a value with named fields is written.
pub open spec fn object_text(members: Seq<Seq<char>>) -> Seq<char> {
    "{"@ + text::joined(members, ","@) + "}"@
}

/// An array, on one line.
pub open spec fn array_text(items: Seq<Seq<char>>) -> Seq<char> {
    "["@ + text::joined(items, ","@) + "]"@
}

/// An object or array under construction, with nothing in it.
pub fn no_parts() -> (res: Vec<String>)
    ensures
        text::strings(res@) == Seq::<Seq<char>>::empty(),
{
    let res: Vec<String> = Vec::new();
    assert(text::strings(res@) =~= Seq::<Seq<char>>::empty());
    res
}

/// Adds an item to an array under construction.
pub fn add_item(v: &mut Vec<String>, value: String)
    ensures
        text::strings(final(v)@) == text::strings(old(v)@).push(value@),
{
    v.push(value);
    assert(text::strings(v@) =~= text::strings(old(v)@).push(value@));
}

/// Adds a member to an object under construction.
pub fn add_member(v: &mut Vec<String>, key: &str, value: String)
    ensures
        text::strings(final(v)@) == text::strings(old(v)@).push(member(key@, value@)),
{
    let start: String = text::join3("\"", key, "\":");
    add_item(v, text::join2(start.as_str(), value.as_str()));
}

/// Adds a member where there is a value for it.
pub fn add_opt_member(v: &mut Vec<String>, key: &str, value: Option<String>)
    ensures
        text::strings(final(v)@) == with_member(
            text::strings(old(v)@),
            key@,
            text::opt_string(value),
        ),
{
    if let Some(x) = value {
        add_member(v, key, x);
    }
}

/// Writes an object with these members.
pub fn object_of(members: &Vec<String>) -> (res: String)
    ensures
        res@ == object_text(text::strings(members@)),
{
    let inner: String = text::join(members, ",");
    text::join3("{", inner.as_str(), "}")
}

/// Writes an array with these items.
pub fn array_of(items: &Vec<String>) -> (res: String)
    ensures
        res@ == array_text(text::strings(items@)),
{
    let inner: String = text::join(items, ",");
    text::join3("[", inner.as_str(), "]")
}

/// Writes a text.
pub fn string_text(s: &str) -> (res: String)
    ensures
        res@ == compact(JsonView::Text(s@)),
{
    to_text(json_text(s))
}

/// Writes an integer.
pub fn integer_text(n: u64) -> (res: String)
    ensures
        res@ == compact(JsonView::Integer(n as int)),
{
    to_text(Json::Unsigned(n))
}

/// Writes a truth value.
pub fn bool_text(b: bool) -> (res: String)
    ensures
        res@ == compact(JsonView::Bool(b)),
{
    to_text(Json::Bool(b))
}

/// A member is its key in quotes, a colon and its value; an object is its members in braces with
/// commas between them, and an array its items in brackets.
pub proof fn law_written_values(key: Seq<char>, value: Seq<char>, parts: Seq<Seq<char>>)
    ensures
        member(key, value) == seq!['"'] + key + seq!['"', ':'] + value,
        object_text(parts) == seq!['{'] + text::joined(parts, seq![',']) + seq!['}'],
        array_text(parts) == seq!['['] + text::joined(parts, seq![',']) + seq![']'],
{
    reveal_strlit("\"");
    reveal_strlit("\":");
    reveal_strlit("{");
    reveal_strlit("}");
    reveal_strlit("[");
    reveal_strlit("]");
    reveal_strlit(",");
    assert("\""@ =~= seq!['"']);
    assert("\":"@ =~= seq!['"', ':']);
    assert("{"@ =~= seq!['{']);
    assert("}"@ =~= seq!['}']);
    assert("["@ =~= seq!['[']);
    assert("]"@ =~= seq![']']);
    assert(","@ =~= seq![',']);
}

/// A value that is found along a path is found step by step: first what the first part of the path
/// leads to, and then what the rest leads to from there.
pub proof fn law_paths_compose(v: JsonView, a: Seq<Seq<char>>, b: Seq<Seq<char>>)
    ensures
        v.at(a + b) == match v.at(a) {
            Some(w) => w.at(b),
            None => None,
        },
    decreases a.len(),
{
    if a.len() == 0 {
        assert(a + b =~= b);
    } else {
        assert((a + b).skip(1) =~= a.skip(1) + b);
        if let Some(w) = v.field(a[0]) {
            law_paths_compose(w, a.skip(1), b);
        }
    }
}

/// A path of one key leads to the entry under that key, and only objects have entries.
pub proof fn law_one_key(v: JsonView, m: Map<Seq<char>, JsonView>, key: Seq<char>)
    ensures
        v.at(seq![key]) == v.field(key),
        JsonView::Object(m).field(key) is Some <==> m.contains_key(key),
        m.contains_key(key) ==> JsonView::Object(m).field(key) == Some(m[key]),
        !(v is Object) ==> v.field(key) is None,
{
    reveal_with_fuel(JsonView::at, 2);
    assert(seq![key].skip(1) =~= Seq::<Seq<char>>::empty());
}

} // verus!
