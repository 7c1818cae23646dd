//! A JSON document model: the values that requests, stream events and stored
//! responses carry, with a mathematical view and exact accessors.
use vstd::prelude::*;
use crate::text::str_eq;

verus! {

/// A JSON number as the parser keeps it: a non-negative integer, a negative
/// integer, or the textual form of any other number.
#[derive(Debug)]
pub enum JsonNumber {
    PosInt(u64),
    NegInt(i64),
    Float(String),
}

/// A JSON value. Objects keep their members in order.
#[derive(Debug)]
pub enum JsonValue {
    Null,
    Bool(bool),
    Number(JsonNumber),
    Str(String),
    Array(Vec<JsonValue>),
    Object(Vec<(String, JsonValue)>),
}

/// The mathematical view of a JSON number.
pub enum NumberView {
    PosInt(u64),
    NegInt(i64),
    Float(Seq<char>),
}

/// The mathematical view of a JSON value.
pub enum JsonView {
    Null,
    Bool(bool),
    Number(NumberView),
    Str(Seq<char>),
    Array(Seq<JsonView>),
    Object(Seq<(Seq<char>, JsonView)>),
}

pub open spec fn number_view(n: JsonNumber) -> NumberView {
    match n {
        JsonNumber::PosInt(u) => NumberView::PosInt(u),
        JsonNumber::NegInt(i) => NumberView::NegInt(i),
        JsonNumber::Float(s) => NumberView::Float(s@),
    }
}

pub open spec fn json_view(v: JsonValue) -> JsonView
    decreases v,
{
    match v {
        JsonValue::Null => JsonView::Null,
        JsonValue::Bool(b) => JsonView::Bool(b),
        JsonValue::Number(n) => JsonView::Number(number_view(n)),
        JsonValue::Str(s) => JsonView::Str(s@),
        JsonValue::Array(items) => JsonView::Array(
            Seq::new(
                items@.len(),
                |i: int|
                    if 0 <= i < items@.len() {
                        json_view(items@[i])
                    } else {
                        JsonView::Null
                    },
            ),
        ),
        JsonValue::Object(fields) => JsonView::Object(
            Seq::new(
                fields@.len(),
                |i: int|
                    if 0 <= i < fields@.len() {
                        (fields@[i].0@, json_view(fields@[i].1))
                    } else {
                        (Seq::empty(), JsonView::Null)
                    },
            ),
        ),
    }
}

impl View for JsonValue {
    type V = JsonView;

    open spec fn view(&self) -> JsonView {
        json_view(*self)
    }
}

/// The value of the first member named `key`.
pub open spec fn lookup(fields: Seq<(Seq<char>, JsonView)>, key: Seq<char>) -> Option<JsonView>
    decreases fields.len(),
{
    if fields.len() == 0 {
        None
    } else if fields[0].0 == key {
        Some(fields[0].1)
    } else {
        lookup(fields.drop_first(), key)
    }
}

impl JsonView {
    /// `value.get(key)`: the member of an object, nothing for other values.
    pub open spec fn get(self, key: Seq<char>) -> Option<JsonView> {
        match self {
            JsonView::Object(fields) => lookup(fields, key),
            _ => None,
        }
    }

    /// `value.as_str()`.
    pub open spec fn as_str(self) -> Option<Seq<char>> {
        match self {
            JsonView::Str(s) => Some(s),
            _ => None,
        }
    }

    /// `value.as_bool()`.
    pub open spec fn as_bool(self) -> Option<bool> {
        match self {
            JsonView::Bool(b) => Some(b),
            _ => None,
        }
    }

    /// `value.as_u64()`: a non-negative integer.
    pub open spec fn as_u64(self) -> Option<u64> {
        match self {
            JsonView::Number(NumberView::PosInt(u)) => Some(u),
            _ => None,
        }
    }

    /// `value.as_i64()`: an integer that fits in an `i64`.
    pub open spec fn as_i64(self) -> Option<i64> {
        match self {
            JsonView::Number(NumberView::PosInt(u)) => if u <= i64::MAX { Some(u as i64) } else { None },
            JsonView::Number(NumberView::NegInt(i)) => Some(i),
            _ => None,
        }
    }

    /// `value.as_array()`.
    pub open spec fn as_array(self) -> Option<Seq<JsonView>> {
        match self {
            JsonView::Array(items) => Some(items),
            _ => None,
        }
    }

    /// The string member `key`, when the value is an object holding a string there.
    pub open spec fn get_str(self, key: Seq<char>) -> Option<Seq<char>> {
        match self.get(key) {
            Some(v) => v.as_str(),
            None => None,
        }
    }

    /// The non-negative integer member `key`.
    pub open spec fn get_u64(self, key: Seq<char>) -> Option<u64> {
        match self.get(key) {
            Some(v) => v.as_u64(),
            None => None,
        }
    }

    /// The boolean member `key`.
    pub open spec fn get_bool(self, key: Seq<char>) -> Option<bool> {
        match self.get(key) {
            Some(v) => v.as_bool(),
            None => None,
        }
    }

    /// The array member `key`.
    pub open spec fn get_array(self, key: Seq<char>) -> Option<Seq<JsonView>> {
        match self.get(key) {
            Some(v) => v.as_array(),
            None => None,
        }
    }
}

/// The view of an array holds the views of its elements, in order.
pub(crate) proof fn lemma_array_view(v: &JsonValue, items: &Vec<JsonValue>)
    requires
        *v == JsonValue::Array(*items),
    ensures
        v@ is Array,
        v@->Array_0.len() == items@.len(),
        forall|k: int| 0 <= k < items@.len() ==> (#[trigger] v@->Array_0[k]) == items@[k]@,
{
}

impl JsonValue {
    /// `value.get(key)`.
    pub fn get(&self, key: &str) -> (r: Option<&JsonValue>)
        ensures
            match r {
                Some(x) => self@.get(key@) == Some(x@),
                None => self@.get(key@) is None,
            },
    {
        match self {
            JsonValue::Object(fields) => {
                let ghost fv = self@->Object_0;
                let mut i: usize = 0;
                assert(fv.skip(0) =~= fv);
                while i < fields.len()
                    invariant
                        *self == JsonValue::Object(*fields),
                        fv == self@->Object_0,
                        fv.len() == fields@.len(),
                        i <= fields@.len(),
                        lookup(fv, key@) == lookup(fv.skip(i as int), key@),
                    decreases fields@.len() - i,
                {
                    assert(fv[i as int] == (fields@[i as int].0@, fields@[i as int].1@));
                    if str_eq(fields[i].0.as_str(), key) {
                        return Some(&fields[i].1);
                    }
                    assert(fv.skip(i as int).drop_first() =~= fv.skip(i + 1));
                    i = i + 1;
                }
                None
            }
            _ => None,
        }
    }

    /// `value.as_str()`.
    pub fn as_str(&self) -> (r: Option<&String>)
        ensures
            match r {
                Some(s) => self@.as_str() == Some(s@),
                None => self@.as_str() is None,
            },
    {
        match self {
            JsonValue::Str(s) => Some(s),
            _ => None,
        }
    }

    /// `value.as_bool()`.
    pub fn as_bool(&self) -> (r: Option<bool>)
        ensures
            r == self@.as_bool(),
    {
        match self {
            JsonValue::Bool(b) => Some(*b),
            _ => None,
        }
    }

    /// `value.as_u64()`.
    pub fn as_u64(&self) -> (r: Option<u64>)
        ensures
            r == self@.as_u64(),
    {
        match self {
            JsonValue::Number(JsonNumber::PosInt(u)) => Some(*u),
            _ => None,
        }
    }

    /// `value.as_i64()`.
    pub fn as_i64(&self) -> (r: Option<i64>)
        ensures
            r == self@.as_i64(),
    {
        match self {
            JsonValue::Number(JsonNumber::PosInt(u)) => {
                if *u <= 9223372036854775807u64 {
                    Some(*u as i64)
                } else {
                    None
                }
            }
            JsonValue::Number(JsonNumber::NegInt(i)) => Some(*i),
            _ => None,
        }
    }

    /// `value.as_array()`.
    pub fn as_array(&self) -> (r: Option<&Vec<JsonValue>>)
        ensures
            match r {
                Some(items) => self@ == JsonView::Array(self@->Array_0)
                    && items@.len() == self@->Array_0.len()
                    && forall|i: int| 0 <= i < items@.len() ==> #[trigger] items@[i]@ == self@->Array_0[i],
                None => !(self@ is Array),
            },
    {
        match self {
            JsonValue::Array(items) => Some(items),
            _ => None,
        }
    }

    /// Whether the value is a string.
    pub fn is_string(&self) -> (r: bool)
        ensures
            r == (self@ is Str),
    {
        match self {
            JsonValue::Str(_) => true,
            _ => false,
        }
    }

    /// Whether the value is an object.
    pub fn is_object(&self) -> (r: bool)
        ensures
            r == (self@ is Object),
    {
        match self {
            JsonValue::Object(_) => true,
            _ => false,
        }
    }

    /// Whether the value is `null`.
    pub fn is_null(&self) -> (r: bool)
        ensures
            r == (self@ is Null),
    {
        match self {
            JsonValue::Null => true,
            _ => false,
        }
    }

    /// The string member `key`.
    pub fn get_str(&self, key: &str) -> (r: Option<&String>)
        ensures
            match r {
                Some(s) => self@.get_str(key@) == Some(s@),
                None => self@.get_str(key@) is None,
            },
    {
        match self.get(key) {
            Some(v) => v.as_str(),
            None => None,
        }
    }

    /// The non-negative integer member `key`.
    pub fn get_u64(&self, key: &str) -> (r: Option<u64>)
        ensures
            r == self@.get_u64(key@),
    {
        match self.get(key) {
            Some(v) => v.as_u64(),
            None => None,
        }
    }

    /// The boolean member `key`.
    pub fn get_bool(&self, key: &str) -> (r: Option<bool>)
        ensures
            r == self@.get_bool(key@),
    {
        match self.get(key) {
            Some(v) => v.as_bool(),
            None => None,
        }
    }

    /// A copy of the value.
    pub fn deep_clone(&self) -> (r: JsonValue)
        ensures
            r@ == self@,
        decreases self,
    {
        match self {
            JsonValue::Null => JsonValue::Null,
            JsonValue::Bool(b) => JsonValue::Bool(*b),
            JsonValue::Number(JsonNumber::PosInt(u)) => JsonValue::Number(JsonNumber::PosInt(*u)),
            JsonValue::Number(JsonNumber::NegInt(i)) => JsonValue::Number(JsonNumber::NegInt(*i)),
            JsonValue::Number(JsonNumber::Float(s)) => JsonValue::Number(JsonNumber::Float(s.clone())),
            JsonValue::Str(s) => JsonValue::Str(s.clone()),
            JsonValue::Array(items) => {
                let mut out: Vec<JsonValue> = Vec::new();
                let mut i: usize = 0;
                while i < items.len()
                    invariant
                        *self == JsonValue::Array(*items),
                        i <= items@.len(),
                        out@.len() == i,
                        forall|j: int| 0 <= j < i ==> (#[trigger] out@[j])@ == items@[j]@,
                    decreases items@.len() - i,
                {
                    proof {
                        assert(decreases_to!(*self => (*self)->Array_0));
                        assert(decreases_to!(*items => items@));
                        assert(decreases_to!(items@ => items@[i as int]));
                    }
                    let c = items[i].deep_clone();
                    out.push(c);
                    i = i + 1;
                }
                let r = JsonValue::Array(out);
                let ghost a = r@->Array_0;
                let ghost b = self@->Array_0;
                assert(a =~= b);
                r
            }
            JsonValue::Object(fields) => {
                let mut out: Vec<(String, JsonValue)> = Vec::new();
                let mut i: usize = 0;
                while i < fields.len()
                    invariant
                        *self == JsonValue::Object(*fields),
                        i <= fields@.len(),
                        out@.len() == i,
                        forall|j: int|
                            0 <= j < i ==> (#[trigger] out@[j]).0@ == fields@[j].0@ && out@[j].1@
                                == fields@[j].1@,
                    decreases fields@.len() - i,
                {
                    proof {
                        assert(decreases_to!(*self => (*self)->Object_0));
                        assert(decreases_to!(*fields => fields@));
                        assert(decreases_to!(fields@ => fields@[i as int]));
                        assert(decreases_to!(fields@[i as int] => fields@[i as int].1));
                    }
                    let k = fields[i].0.clone();
                    let c = fields[i].1.deep_clone();
                    out.push((k, c));
                    i = i + 1;
                }
                let r = JsonValue::Object(out);
                let ghost a = r@->Object_0;
                let ghost b = self@->Object_0;
                assert(a =~= b);
                r
            }
        }
    }

    /// Structural equality of two values.
    pub fn json_eq(&self, other: &JsonValue) -> (r: bool)
        ensures
            r == (self@ == other@),
        decreases self,
    {
        match (self, other) {
            (JsonValue::Null, JsonValue::Null) => true,
            (JsonValue::Bool(a), JsonValue::Bool(b)) => *a == *b,
            (JsonValue::Number(a), JsonValue::Number(b)) => match (a, b) {
                (JsonNumber::PosInt(x), JsonNumber::PosInt(y)) => *x == *y,
                (JsonNumber::NegInt(x), JsonNumber::NegInt(y)) => *x == *y,
                (JsonNumber::Float(x), JsonNumber::Float(y)) => *x == *y,
                _ => false,
            },
            (JsonValue::Str(a), JsonValue::Str(b)) => *a == *b,
            (JsonValue::Array(a), JsonValue::Array(b)) => {
                if a.len() != b.len() {
                    assert(self@->Array_0.len() != other@->Array_0.len());
                    return false;
                }
                let ghost av = self@->Array_0;
                let ghost bv = other@->Array_0;
                let mut i: usize = 0;
                while i < a.len()
                    invariant
                        *self == JsonValue::Array(*a),
                        *other == JsonValue::Array(*b),
                        av == self@->Array_0,
                        bv == other@->Array_0,
                        a@.len() == b@.len(),
                        i <= a@.len(),
                        forall|j: int| 0 <= j < i ==> av[j] == bv[j],
                    decreases a@.len() - i,
                {
                    proof {
                        assert(decreases_to!(*self => (*self)->Array_0));
                        assert(decreases_to!(*a => a@));
                        assert(decreases_to!(a@ => a@[i as int]));
                    }
                    if !a[i].json_eq(&b[i]) {
                        assert(av[i as int] != bv[i as int]);
                        return false;
                    }
                    i = i + 1;
                }
                assert(av =~= bv);
                true
            }
            (JsonValue::Object(a), JsonValue::Object(b)) => {
                if a.len() != b.len() {
                    assert(self@->Object_0.len() != other@->Object_0.len());
                    return false;
                }
                let ghost av = self@->Object_0;
                let ghost bv = other@->Object_0;
                let mut i: usize = 0;
                while i < a.len()
                    invariant
                        *self == JsonValue::Object(*a),
                        *other == JsonValue::Object(*b),
                        av == self@->Object_0,
                        bv == other@->Object_0,
                        a@.len() == b@.len(),
                        i <= a@.len(),
                        forall|j: int| 0 <= j < i ==> av[j] == bv[j],
                    decreases a@.len() - i,
                {
                    proof {
                        assert(decreases_to!(*self => (*self)->Object_0));
                        assert(decreases_to!(*a => a@));
                        assert(decreases_to!(a@ => a@[i as int]));
                        assert(decreases_to!(a@[i as int] => a@[i as int].1));
                    }
                    if a[i].0 != b[i].0 {
                        assert(av[i as int] != bv[i as int]);
                        return false;
                    }
                    if !a[i].1.json_eq(&b[i].1) {
                        assert(av[i as int] != bv[i as int]);
                        return false;
                    }
                    i = i + 1;
                }
                assert(av =~= bv);
                true
            }
            _ => false,
        }
    }
}

/// The position of the first member named `key`, from position `i` on.
pub open spec fn member_position(fields: Seq<(Seq<char>, JsonView)>, key: Seq<char>, i: int) -> Option<int>
    decreases fields.len() - i,
{
    if i < 0 || i >= fields.len() {
        None
    } else if fields[i].0 == key {
        Some(i)
    } else {
        member_position(fields, key, i + 1)
    }
}

/// `value[key] = member`: an object with the member replaced, or added at the
/// end; any other value becomes an object with that one member.
pub open spec fn with_member(v: JsonView, key: Seq<char>, member: JsonView) -> JsonView {
    match v {
        JsonView::Object(fields) => match member_position(fields, key, 0) {
            Some(i) => JsonView::Object(fields.update(i, (key, member))),
            None => JsonView::Object(fields.push((key, member))),
        },
        _ => JsonView::Object(seq![(key, member)]),
    }
}

fn find_member(fields: &Vec<(String, JsonValue)>, key: &str) -> (r: Option<usize>)
    ensures
        match r {
            Some(i) => member_position(JsonValue::Object(*fields)@->Object_0, key@, 0) == Some(i as int) && i < fields@.len(),
            None => member_position(JsonValue::Object(*fields)@->Object_0, key@, 0) is None,
        },
{
    let ghost fv = JsonValue::Object(*fields)@->Object_0;
    let mut i: usize = 0;
    while i < fields.len()
        invariant
            fv == JsonValue::Object(*fields)@->Object_0,
            fv.len() == fields@.len(),
            i <= fields@.len(),
            member_position(fv, key@, 0) == member_position(fv, key@, i as int),
        decreases fields@.len() - i,
    {
        assert(fv[i as int].0 == fields@[i as int].0@);
        if str_eq(fields[i].0.as_str(), key) {
            return Some(i);
        }
        i = i + 1;
    }
    None
}

impl JsonValue {
    /// The value with its member `key` set to `member`.
    pub fn with_member_set(self, key: &str, member: JsonValue) -> (r: JsonValue)
        ensures
            r@ == with_member(self@, key@, member@),
    {
        let ghost mv = member@;
        match self {
            JsonValue::Object(fields) => {
                let ghost fv = JsonValue::Object(fields)@->Object_0;
                let mut fields = fields;
                match find_member(&fields, key) {
                    Some(i) => {
                        fields.set(i, (crate::text::owned(key), member));
                        let r = JsonValue::Object(fields);
                        assert(r@->Object_0 =~= fv.update(i as int, (key@, mv)));
                        r
                    }
                    None => {
                        fields.push((crate::text::owned(key), member));
                        let r = JsonValue::Object(fields);
                        assert(r@->Object_0 =~= fv.push((key@, mv)));
                        r
                    }
                }
            }
            _ => {
                let mut fields: Vec<(String, JsonValue)> = Vec::new();
                fields.push((crate::text::owned(key), member));
                let r = JsonValue::Object(fields);
                assert(r@->Object_0 =~= seq![(key@, mv)]);
                r
            }
        }
    }
}

/// The views of the members of an object under construction.
pub open spec fn members_view(fields: Seq<(String, JsonValue)>) -> Seq<(Seq<char>, JsonView)> {
    Seq::new(fields.len(), |i: int| (fields[i].0@, fields[i].1@))
}

/// The views of the elements of an array under construction.
pub open spec fn values_view(items: Seq<JsonValue>) -> Seq<JsonView> {
    Seq::new(items.len(), |i: int| items[i]@)
}

/// Appends a member to an object under construction.
pub fn push_member(fields: &mut Vec<(String, JsonValue)>, key: &str, value: JsonValue)
    ensures
        members_view(final(fields)@) == members_view(old(fields)@).push((key@, value@)),
{
    let ghost before = members_view(fields@);
    let ghost vv = value@;
    fields.push((crate::text::owned(key), value));
    assert(members_view(fields@) =~= before.push((key@, vv)));
}

/// Appends an element to an array under construction.
pub fn push_value(items: &mut Vec<JsonValue>, value: JsonValue)
    ensures
        values_view(final(items)@) == values_view(old(items)@).push(value@),
{
    let ghost before = values_view(items@);
    let ghost vv = value@;
    items.push(value);
    assert(values_view(items@) =~= before.push(vv));
}

/// The object with the given members.
pub fn object_of(fields: Vec<(String, JsonValue)>) -> (r: JsonValue)
    ensures
        r@ == JsonView::Object(members_view(fields@)),
{
    let ghost mv = members_view(fields@);
    let r = JsonValue::Object(fields);
    assert(r@->Object_0 =~= mv);
    r
}

/// The array with the given elements.
pub fn array_of(items: Vec<JsonValue>) -> (r: JsonValue)
    ensures
        r@ == JsonView::Array(values_view(items@)),
{
    let ghost vv = values_view(items@);
    let r = JsonValue::Array(items);
    assert(r@->Array_0 =~= vv);
    r
}

/// A JSON string.
pub fn string_value(s: &str) -> (r: JsonValue)
    ensures
        r@ == JsonView::Str(s@),
{
    JsonValue::Str(crate::text::owned(s))
}

// ---------------------------------------------------------------------------
// Compact JSON text.

/// A lowercase hexadecimal digit.
pub open spec fn hex_digit(d: nat) -> char {
    if d < 10 {
        crate::text::digit_char(d)
    } else if d == 10 {
        'a'
    } else if d == 11 {
        'b'
    } else if d == 12 {
        'c'
    } else if d == 13 {
        'd'
    } else if d == 14 {
        'e'
    } else {
        'f'
    }
}

/// A character as it appears inside a JSON string: quote, backslash and
/// control characters escaped.
pub open spec fn escaped_char(c: char) -> Seq<char> {
    let n = c as int;
    if c == '"' {
        seq!['\\', '"']
    } else if c == '\\' {
        seq!['\\', '\\']
    } else if n == 0x0a {
        seq!['\\', 'n']
    } else if n == 0x0d {
        seq!['\\', 'r']
    } else if n == 0x09 {
        seq!['\\', 't']
    } else if n == 0x08 {
        seq!['\\', 'b']
    } else if n == 0x0c {
        seq!['\\', 'f']
    } else if n < 0x20 {
        seq!['\\', 'u', '0', '0', hex_digit((n / 16) as nat), hex_digit((n % 16) as nat)]
    } else {
        seq![c]
    }
}

pub open spec fn escaped(s: Seq<char>) -> Seq<char>
    decreases s.len(),
{
    if s.len() == 0 {
        Seq::empty()
    } else {
        escaped(s.drop_last()) + escaped_char(s.last())
    }
}

/// A JSON string literal.
pub open spec fn quoted(s: Seq<char>) -> Seq<char> {
    seq!['"'] + escaped(s) + seq!['"']
}

/// The compact JSON text of a value: no spaces, members in order.
pub open spec fn json_text(v: JsonView) -> Seq<char>
    decreases v, 1int,
{
    match v {
        JsonView::Null => "null"@,
        JsonView::Bool(b) => if b { "true"@ } else { "false"@ },
        JsonView::Number(NumberView::PosInt(u)) => crate::text::decimal(u as nat),
        JsonView::Number(NumberView::NegInt(i)) => crate::text::signed_decimal(i as int),
        JsonView::Number(NumberView::Float(t)) => t,
        JsonView::Str(s) => quoted(s),
        JsonView::Array(items) => seq!['['] + items_text(items) + seq![']'],
        JsonView::Object(fields) => seq!['{'] + fields_text(fields) + seq!['}'],
    }
}

pub open spec fn items_text(items: Seq<JsonView>) -> Seq<char>
    decreases items, 0int,
{
    if items.len() == 0 {
        Seq::empty()
    } else if items.len() == 1 {
        json_text(items[0])
    } else {
        items_text(items.drop_last()) + seq![','] + json_text(items.last())
    }
}

pub open spec fn fields_text(fields: Seq<(Seq<char>, JsonView)>) -> Seq<char>
    decreases fields, 0int,
{
    if fields.len() == 0 {
        Seq::empty()
    } else if fields.len() == 1 {
        quoted(fields[0].0) + seq![':'] + json_text(fields[0].1)
    } else {
        fields_text(fields.drop_last()) + seq![','] + quoted(fields.last().0) + seq![':'] + json_text(fields.last().1)
    }
}

fn hex_digit_exec(d: u32) -> (c: char)
    requires
        d < 16,
    ensures
        c == hex_digit(d as nat),
{
    if d < 10 {
        crate::text::digit(d as u64)
    } else if d == 10 {
        'a'
    } else if d == 11 {
        'b'
    } else if d == 12 {
        'c'
    } else if d == 13 {
        'd'
    } else if d == 14 {
        'e'
    } else {
        'f'
    }
}

fn push_escaped_char(out: &mut String, c: char)
    ensures
        final(out)@ == old(out)@ + escaped_char(c),
{
    let n = c as u32;
    if c == '"' {
        out.append("\\\"");
    } else if c == '\\' {
        out.append("\\\\");
    } else if n == 0x0a {
        out.append("\\n");
    } else if n == 0x0d {
        out.append("\\r");
    } else if n == 0x09 {
        out.append("\\t");
    } else if n == 0x08 {
        out.append("\\b");
    } else if n == 0x0c {
        out.append("\\f");
    } else if n < 0x20 {
        out.append("\\u00");
        crate::text::push_char(out, hex_digit_exec(n / 16));
        crate::text::push_char(out, hex_digit_exec(n % 16));
    } else {
        crate::text::push_char(out, c);
    }
    proof {
        reveal_strlit("\\\"");
        reveal_strlit("\\\\");
        reveal_strlit("\\n");
        reveal_strlit("\\r");
        reveal_strlit("\\t");
        reveal_strlit("\\b");
        reveal_strlit("\\f");
        reveal_strlit("\\u00");
    }
    assert(out@ =~= old(out)@ + escaped_char(c));
}

/// Appends a JSON string literal.
pub fn push_quoted(out: &mut String, s: &str)
    ensures
        final(out)@ == old(out)@ + quoted(s@),
{
    let cs = crate::text::chars_of(s);
    crate::text::push_char(out, '"');
    let ghost start = out@;
    let mut i: usize = 0;
    while i < cs.len()
        invariant
            cs@ == s@,
            i <= cs@.len(),
            out@ == start + escaped(s@.take(i as int)),
        decreases cs@.len() - i,
    {
        assert(s@.take(i + 1).drop_last() =~= s@.take(i as int));
        push_escaped_char(out, cs[i]);
        i = i + 1;
    }
    assert(s@.take(cs@.len() as int) =~= s@);
    crate::text::push_char(out, '"');
    assert(out@ =~= old(out)@ + quoted(s@));
}

/// Appends the compact JSON text of a value.
pub fn push_json_text(out: &mut String, v: &JsonValue)
    ensures
        final(out)@ == old(out)@ + json_text(v@),
    decreases v,
{
    match v {
        JsonValue::Null => out.append("null"),
        JsonValue::Bool(b) => out.append(if *b { "true" } else { "false" }),
        JsonValue::Number(JsonNumber::PosInt(u)) => crate::text::push_decimal(out, *u),
        JsonValue::Number(JsonNumber::NegInt(i)) => crate::text::push_signed_decimal(out, *i),
        JsonValue::Number(JsonNumber::Float(t)) => out.append(t.as_str()),
        JsonValue::Str(s) => push_quoted(out, s.as_str()),
        JsonValue::Array(items) => {
            let ghost iv = v@->Array_0;
            crate::text::push_char(out, '[');
            let ghost start = out@;
            let mut i: usize = 0;
            while i < items.len()
                invariant
                    *v == JsonValue::Array(*items),
                    iv == v@->Array_0,
                    iv.len() == items@.len(),
                    i <= items@.len(),
                    out@ == start + items_text(iv.take(i as int)),
                decreases items@.len() - i,
            {
                proof {
                    assert(decreases_to!(*v => (*v)->Array_0));
                    assert(decreases_to!(*items => items@));
                    assert(decreases_to!(items@ => items@[i as int]));
                }
                assert(iv.take(i + 1).drop_last() =~= iv.take(i as int));
                assert(iv[i as int] == items@[i as int]@);
                if i > 0 {
                    crate::text::push_char(out, ',');
                }
                push_json_text(out, &items[i]);
                i = i + 1;
            }
            assert(iv.take(items@.len() as int) =~= iv);
            crate::text::push_char(out, ']');
        }
        JsonValue::Object(fields) => {
            let ghost fv = v@->Object_0;
            crate::text::push_char(out, '{');
            let ghost start = out@;
            let mut i: usize = 0;
            while i < fields.len()
                invariant
                    *v == JsonValue::Object(*fields),
                    fv == v@->Object_0,
                    fv.len() == fields@.len(),
                    i <= fields@.len(),
                    out@ == start + fields_text(fv.take(i as int)),
                decreases fields@.len() - i,
            {
                proof {
                    assert(decreases_to!(*v => (*v)->Object_0));
                    assert(decreases_to!(*fields => fields@));
                    assert(decreases_to!(fields@ => fields@[i as int]));
                    assert(decreases_to!(fields@[i as int] => fields@[i as int].1));
                }
                assert(fv.take(i + 1).drop_last() =~= fv.take(i as int));
                assert(fv[i as int] == (fields@[i as int].0@, fields@[i as int].1@));
                if i > 0 {
                    crate::text::push_char(out, ',');
                }
                push_quoted(out, fields[i].0.as_str());
                crate::text::push_char(out, ':');
                push_json_text(out, &fields[i].1);
                i = i + 1;
            }
            assert(fv.take(fields@.len() as int) =~= fv);
            crate::text::push_char(out, '}');
        }
    }
    proof {
        reveal_strlit("null");
        reveal_strlit("true");
        reveal_strlit("false");
    }
}

/// The compact JSON text of a value.
pub fn to_json_text(v: &JsonValue) -> (r: String)
    ensures
        r@ == json_text(v@),
{
    let mut out = String::new();
    push_json_text(&mut out, v);
    assert(out@ =~= json_text(v@));
    out
}

} // verus!
