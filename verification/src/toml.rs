//! TOML documents as the Codex config files are edited: parsed, read and
//! updated by `toml_edit`, which keeps the formatting and comments of what it
//! does not touch. The contents of a document, a table and an item are
//! modelled by what each holds at a key path; the walks along key paths are
//! verified here, one `toml_edit` call at a time.
use vstd::prelude::*;
use toml_edit::{DocumentMut, Item, Table};
use crate::text::owned;

verus! {

#[verifier::external_type_specification]
#[verifier::external_body]
pub struct ExDocumentMut(DocumentMut);

#[verifier::external_type_specification]
#[verifier::external_body]
pub struct ExTable(Table);

#[verifier::external_type_specification]
#[verifier::external_body]
pub struct ExItem(Item);

/// What a TOML document holds at a key path.
pub enum TomlValue {
    Missing,
    Str(Seq<char>),
    Bool(bool),
    Table,
    InlineTable,
    Other,
}

/// What a document holds at each key path, as `toml_edit` reaches it
/// (through standard and inline tables).
pub uninterp spec fn toml_value(doc: DocumentMut, path: Seq<Seq<char>>) -> TomlValue;

/// What a table holds at each key path below it; at the empty path, itself.
pub uninterp spec fn table_value(t: Table, path: Seq<Seq<char>>) -> TomlValue;

/// What an item holds at each key path below it; at the empty path, itself.
pub uninterp spec fn item_value(i: Item, path: Seq<Seq<char>>) -> TomlValue;

/// The TOML text `toml_edit` renders for a document, with the formatting it
/// was parsed with.
pub uninterp spec fn rendered_toml(doc: DocumentMut) -> Seq<char>;

/// What the document parsed from `text` holds at each key path; `None` at
/// every path when `text` is not valid TOML.
pub uninterp spec fn parsed_toml(text: Seq<char>, path: Seq<Seq<char>>) -> Option<TomlValue>;

/// The executable form of what a document holds at a key path.
#[derive(Debug)]
pub enum TomlItem {
    Missing,
    Str(String),
    Bool(bool),
    Table,
    InlineTable,
    Other,
}

impl View for TomlItem {
    type V = TomlValue;

    open spec fn view(&self) -> TomlValue {
        match self {
            TomlItem::Missing => TomlValue::Missing,
            TomlItem::Str(s) => TomlValue::Str(s@),
            TomlItem::Bool(b) => TomlValue::Bool(*b),
            TomlItem::Table => TomlValue::Table,
            TomlItem::InlineTable => TomlValue::InlineTable,
            TomlItem::Other => TomlValue::Other,
        }
    }
}

impl TomlItem {
    /// Whether nothing is at the path.
    pub fn is_missing(&self) -> (r: bool)
        ensures
            r == (self@ is Missing),
    {
        match self {
            TomlItem::Missing => true,
            _ => false,
        }
    }
}

pub open spec fn path_view(path: Seq<String>) -> Seq<Seq<char>> {
    Seq::new(path.len(), |i: int| path[i]@)
}

/// A path of standard tables (or nothing yet) that a value can be set under.
pub open spec fn settable_under(doc: DocumentMut, tables: Seq<Seq<char>>) -> bool {
    forall|k: int| 0 <= k <= tables.len() ==> {
        let v = #[trigger] toml_value(doc, tables.take(k));
        v is Table || v is Missing
    }
}

/// Whether `q` lies under `p` (or is `p`).
pub open spec fn within(q: Seq<Seq<char>>, p: Seq<Seq<char>>) -> bool {
    p.len() <= q.len() && q.take(p.len() as int) == p
}

/// Whether `q` starts with `key`.
pub open spec fn under_key(q: Seq<Seq<char>>, key: Seq<char>) -> bool {
    q.len() > 0 && q[0] == key
}

// ---------------------------------------------------------------------------
// The calls into `toml_edit`.

/// Wraps `str::parse::<DocumentMut>`: the document of a TOML text, if it is
/// valid TOML (what it holds is named by `parsed_toml`). A document's root is
/// always a table.
#[verifier::external_body]
pub(crate) fn parse_toml(text: &str) -> (r: Option<DocumentMut>)
    ensures
        r is Some <==> parsed_toml(text@, Seq::empty()) is Some,
        r matches Some(d) ==> toml_value(d, Seq::empty()) is Table,
        r matches Some(d) ==> forall|p: Seq<Seq<char>>| #[trigger] parsed_toml(text@, p) == Some(toml_value(d, p)),
{
    text.parse::<DocumentMut>().ok()
}

/// Wraps `DocumentMut::new`: an empty document, a root table holding nothing.
#[verifier::external_body]
pub(crate) fn new_toml_document() -> (r: DocumentMut)
    ensures
        toml_value(r, Seq::empty()) is Table,
        forall|p: Seq<Seq<char>>| p.len() > 0 ==> #[trigger] toml_value(r, p) is Missing,
{
    DocumentMut::new()
}

/// Wraps `DocumentMut::to_string`: the TOML text of a document, with the
/// formatting it was parsed with, named by `rendered_toml`.
#[verifier::external_body]
pub(crate) fn render_toml(doc: &DocumentMut) -> (r: String)
    ensures
        r@ == rendered_toml(*doc),
{
    doc.to_string()
}

/// Wraps `DocumentMut::as_item`: the document's root, holding what the
/// document holds.
#[verifier::external_body]
fn doc_as_item(doc: &DocumentMut) -> (r: &Item)
    ensures
        forall|p: Seq<Seq<char>>| #[trigger] item_value(*r, p) == toml_value(*doc, p),
{
    doc.as_item()
}

/// Wraps `DocumentMut::as_table_mut`: the document's root table, through
/// which the document changes. A document's root is always a table.
#[verifier::external_body]
fn doc_as_table_mut(doc: &mut DocumentMut) -> (r: &mut Table)
    ensures
        toml_value(*old(doc), Seq::empty()) is Table,
        forall|p: Seq<Seq<char>>| #[trigger] table_value(*r, p) == toml_value(*old(doc), p),
        forall|p: Seq<Seq<char>>| #[trigger] toml_value(*final(doc), p) == table_value(*final(r), p),
{
    doc.as_table_mut()
}

/// Wraps `Item::get` with a key: the item under `key` in a table or an inline
/// table, if one is there.
#[verifier::external_body]
fn item_get<'a>(i: &'a Item, key: &str) -> (r: Option<&'a Item>)
    ensures
        r matches Some(j) ==> forall|p: Seq<Seq<char>>| #[trigger] item_value(*j, p) == item_value(*i, seq![key@] + p),
        r is None ==> forall|p: Seq<Seq<char>>| #[trigger] item_value(*i, seq![key@] + p) is Missing,
{
    i.get(key)
}

/// Wraps `Item::is_none`: whether nothing is there.
#[verifier::external_body]
fn item_is_none(i: &Item) -> (r: bool)
    ensures
        r == (item_value(*i, Seq::empty()) is Missing),
{
    i.is_none()
}

/// Wraps `Item::is_table`: whether the item is a standard table.
#[verifier::external_body]
fn item_is_table(i: &Item) -> (r: bool)
    ensures
        r == (item_value(*i, Seq::empty()) is Table),
{
    i.is_table()
}

/// Wraps `Item::is_inline_table`: whether the item is an inline table.
#[verifier::external_body]
fn item_is_inline_table(i: &Item) -> (r: bool)
    ensures
        r == (item_value(*i, Seq::empty()) is InlineTable),
{
    i.is_inline_table()
}

/// Wraps `Item::as_str`: the string the item is, if it is one.
#[verifier::external_body]
fn item_as_str(i: &Item) -> (r: Option<&str>)
    ensures
        match item_value(*i, Seq::empty()) {
            TomlValue::Str(s) => r matches Some(x) && x@ == s,
            _ => r is None,
        },
{
    i.as_str()
}

/// Wraps `Item::as_bool`: the boolean the item is, if it is one.
#[verifier::external_body]
fn item_as_bool(i: &Item) -> (r: Option<bool>)
    ensures
        match item_value(*i, Seq::empty()) {
            TomlValue::Bool(b) => r == Some(b),
            _ => r is None,
        },
{
    i.as_bool()
}

/// Wraps `Item::as_table_mut`: the standard table the item is, if it is one,
/// through which the item changes.
#[verifier::external_body]
fn item_as_table_mut(i: &mut Item) -> (r: Option<&mut Table>)
    ensures
        r is Some <==> item_value(*old(i), Seq::empty()) is Table,
        r matches Some(x) ==> forall|p: Seq<Seq<char>>| #[trigger] table_value(*x, p) == item_value(*old(i), p),
        r matches Some(x) ==> forall|p: Seq<Seq<char>>| #[trigger] item_value(*final(i), p) == table_value(*final(x), p),
        r is None ==> forall|p: Seq<Seq<char>>| #[trigger] item_value(*final(i), p) == item_value(*old(i), p),
{
    i.as_table_mut()
}

/// Wraps `Table::get`: the item under `key`, unless nothing is there.
#[verifier::external_body]
fn table_get<'a>(t: &'a Table, key: &str) -> (r: Option<&'a Item>)
    ensures
        r is Some <==> !(table_value(*t, seq![key@]) is Missing),
        r matches Some(j) ==> forall|p: Seq<Seq<char>>| #[trigger] item_value(*j, p) == table_value(*t, seq![key@] + p),
        r is None ==> forall|p: Seq<Seq<char>>| #[trigger] table_value(*t, seq![key@] + p) is Missing,
{
    t.get(key)
}

/// Wraps `Table::get_mut`: the item under `key`, unless nothing is there,
/// through which the table changes.
#[verifier::external_body]
fn table_get_mut<'a>(t: &'a mut Table, key: &str) -> (r: Option<&'a mut Item>)
    ensures
        r is Some <==> !(table_value(*old(t), seq![key@]) is Missing),
        r matches Some(x) ==> forall|p: Seq<Seq<char>>| #[trigger] item_value(*x, p) == table_value(*old(t), seq![key@] + p),
        r matches Some(x) ==> forall|q: Seq<Seq<char>>| #[trigger] table_value(*final(t), q) == if under_key(q, key@) {
            item_value(*final(x), q.skip(1))
        } else {
            table_value(*old(t), q)
        },
        r is None ==> forall|q: Seq<Seq<char>>| #[trigger] table_value(*final(t), q) == table_value(*old(t), q),
{
    t.get_mut(key)
}

/// Wraps `Table::index_mut` (`&mut table[key]`): the item under `key`,
/// inserted empty when the key is absent, through which the table changes.
#[verifier::external_body]
fn table_entry<'a>(t: &'a mut Table, key: &str) -> (r: &'a mut Item)
    ensures
        forall|p: Seq<Seq<char>>| #[trigger] item_value(*r, p) == table_value(*old(t), seq![key@] + p),
        forall|q: Seq<Seq<char>>| #[trigger] table_value(*final(t), q) == if under_key(q, key@) {
            item_value(*final(r), q.skip(1))
        } else {
            table_value(*old(t), q)
        },
{
    &mut t[key]
}

/// Wraps `Table::insert`: `item` is under `key` in place of what was there.
#[verifier::external_body]
fn table_insert(t: &mut Table, key: &str, item: Item)
    ensures
        forall|q: Seq<Seq<char>>| #[trigger] table_value(*final(t), q) == if under_key(q, key@) {
            item_value(item, q.skip(1))
        } else {
            table_value(*old(t), q)
        },
{
    let _ = t.insert(key, item);
}

/// Wraps `Table::remove`: nothing is left under `key`.
#[verifier::external_body]
fn table_remove(t: &mut Table, key: &str)
    ensures
        forall|q: Seq<Seq<char>>| #[trigger] table_value(*final(t), q) == if under_key(q, key@) {
            TomlValue::Missing
        } else {
            table_value(*old(t), q)
        },
{
    let _ = t.remove(key);
}

/// Wraps `Table::new`, as a standard-table item: a table holding nothing.
#[verifier::external_body]
fn empty_table_item() -> (r: Item)
    ensures
        item_value(r, Seq::empty()) is Table,
        forall|p: Seq<Seq<char>>| p.len() > 0 ==> #[trigger] item_value(r, p) is Missing,
{
    Item::Table(Table::new())
}

/// Wraps `toml_edit::value` of a string: a string item.
#[verifier::external_body]
fn string_item(s: &str) -> (r: Item)
    ensures
        item_value(r, Seq::empty()) == TomlValue::Str(s@),
        forall|p: Seq<Seq<char>>| p.len() > 0 ==> #[trigger] item_value(r, p) is Missing,
{
    toml_edit::value(s)
}

/// Wraps `toml_edit::value` of a boolean: a boolean item.
#[verifier::external_body]
fn bool_item(b: bool) -> (r: Item)
    ensures
        item_value(r, Seq::empty()) == TomlValue::Bool(b),
        forall|p: Seq<Seq<char>>| p.len() > 0 ==> #[trigger] item_value(r, p) is Missing,
{
    toml_edit::value(b)
}

// ---------------------------------------------------------------------------
// Reading and writing along key paths.

/// What an item is, as the executable form.
fn item_kind(i: &Item) -> (r: TomlItem)
    ensures
        r@ == item_value(*i, Seq::empty()),
{
    if item_is_none(i) {
        TomlItem::Missing
    } else if item_is_table(i) {
        TomlItem::Table
    } else if item_is_inline_table(i) {
        TomlItem::InlineTable
    } else {
        match item_as_str(i) {
            Some(s) => TomlItem::Str(owned(s)),
            None => match item_as_bool(i) {
                Some(b) => TomlItem::Bool(b),
                None => TomlItem::Other,
            },
        }
    }
}

proof fn lemma_take_push(path: Seq<Seq<char>>, i: int, p: Seq<Seq<char>>)
    requires
        0 <= i < path.len(),
    ensures
        path.take(i + 1) + p == path.take(i) + (seq![path[i]] + p),
{
    assert(path.take(i + 1) + p =~= path.take(i) + (seq![path[i]] + p));
}

/// What the document holds at `path`.
pub(crate) fn toml_lookup(doc: &DocumentMut, path: &Vec<String>) -> (r: TomlItem)
    ensures
        r@ == toml_value(*doc, path_view(path@)),
{
    let ghost pv = path_view(path@);
    let mut cur: &Item = doc_as_item(doc);
    let mut i: usize = 0;
    assert(forall|p: Seq<Seq<char>>| #[trigger] (pv.take(0) + p) == p) by {
        assert forall|p: Seq<Seq<char>>| #[trigger] (pv.take(0) + p) == p by {
            assert(pv.take(0) + p =~= p);
        }
    }
    while i < path.len()
        invariant
            i <= path@.len(),
            pv == path_view(path@),
            forall|p: Seq<Seq<char>>| #[trigger] item_value(*cur, p) == toml_value(*doc, pv.take(i as int) + p),
        decreases path@.len() - i,
    {
        let got = item_get(cur, path[i].as_str());
        assert(pv[i as int] == path@[i as int]@);
        match got {
            Some(j) => {
                assert forall|p: Seq<Seq<char>>| #[trigger] item_value(*j, p) == toml_value(*doc, pv.take(i + 1) + p) by {
                    lemma_take_push(pv, i as int, p);
                }
                cur = j;
            }
            None => {
                let ghost rest = pv.skip(i + 1);
                assert(pv =~= pv.take(i as int) + (seq![pv[i as int]] + rest));
                assert(item_value(*cur, seq![pv[i as int]] + rest) is Missing);
                return TomlItem::Missing;
            }
        }
        i = i + 1;
    }
    assert(pv.take(path@.len() as int) + Seq::<Seq<char>>::empty() =~= pv);
    item_kind(cur)
}

/// The standard table under `key`, inserted empty when nothing is there;
/// `None` (and no change) when something else is there.
fn ensure_table<'a>(parent: &'a mut Table, key: &str) -> (r: Option<&'a mut Table>)
    ensures
        r is Some <==> (table_value(*old(parent), seq![key@]) is Missing || table_value(*old(parent), seq![key@]) is Table),
        r matches Some(x) ==> forall|p: Seq<Seq<char>>| #[trigger] table_value(*x, p) == if p.len() == 0 {
            TomlValue::Table
        } else {
            table_value(*old(parent), seq![key@] + p)
        },
        r matches Some(x) ==> forall|q: Seq<Seq<char>>| #[trigger] table_value(*final(parent), q) == if under_key(q, key@) {
            table_value(*final(x), q.skip(1))
        } else {
            table_value(*old(parent), q)
        },
        r is None ==> forall|q: Seq<Seq<char>>| #[trigger] table_value(*final(parent), q) == table_value(*old(parent), q),
{
    let ghost p0 = *parent;
    if table_get(parent, key).is_none() {
        table_insert(parent, key, empty_table_item());
        assert forall|p: Seq<Seq<char>>| p.len() > 0 implies #[trigger] table_value(*parent, seq![key@] + p) == table_value(p0, seq![key@] + p) by {
            assert((seq![key@] + p).skip(1) =~= p);
        }
    }
    let ghost p1 = *parent;
    assert forall|q: Seq<Seq<char>>| !under_key(q, key@) implies #[trigger] table_value(p1, q) == table_value(p0, q) by {}
    assert(table_value(p1, seq![key@]) == if table_value(p0, seq![key@]) is Missing { TomlValue::Table } else { table_value(p0, seq![key@]) }) by {
        assert(seq![key@].skip(1) =~= Seq::<Seq<char>>::empty());
    }
    match table_get_mut(parent, key) {
        Some(item) => {
            let r = item_as_table_mut(item);
            proof {
                assert forall|q: Seq<Seq<char>>| under_key(q, key@) implies #[trigger] (seq![key@] + q.skip(1)) == q by {
                    assert(seq![key@] + q.skip(1) =~= q);
                }
                assert forall|p: Seq<Seq<char>>| p.len() > 0 implies #[trigger] table_value(p1, seq![key@] + p) == table_value(p0, seq![key@] + p) by {
                    assert((seq![key@] + p).skip(1) =~= p);
                    assert((seq![key@] + p)[0] == key@);
                }
                assert(seq![key@] + Seq::<Seq<char>>::empty() =~= seq![key@]);
            }
            r
        }
        None => None,
    }
}

/// The table at `tables`, reached from `root` through standard tables that
/// are created where missing.
fn descend<'a>(root: &'a mut Table, tables: &Vec<String>) -> (r: Option<&'a mut Table>)
    requires
        forall|k: int| 0 <= k <= tables@.len() ==> {
            let v = #[trigger] table_value(*old(root), path_view(tables@).take(k));
            v is Table || v is Missing
        },
        table_value(*old(root), Seq::empty()) is Table,
    ensures
        r is Some,
        r matches Some(x) ==> forall|p: Seq<Seq<char>>| #[trigger] table_value(*x, p) == if p.len() == 0 {
            TomlValue::Table
        } else {
            table_value(*old(root), path_view(tables@) + p)
        },
        r matches Some(x) ==> forall|q: Seq<Seq<char>>| #[trigger] table_value(*final(root), q) == if within(q, path_view(tables@)) {
            table_value(*final(x), q.skip(tables@.len() as int))
        } else if within(path_view(tables@), q) {
            TomlValue::Table
        } else {
            table_value(*old(root), q)
        },
{
    let ghost tv = path_view(tables@);
    let ghost r0 = *old(root);
    let ghost rf = *final(root);
    let mut cur: &mut Table = root;
    let mut i: usize = 0;
    proof {
        assert forall|p: Seq<Seq<char>>| #[trigger] table_value(*cur, p) == if p.len() == 0 {
            TomlValue::Table
        } else {
            table_value(r0, tv.take(0) + p)
        } by {
            assert(tv.take(0) + p =~= p);
            if p.len() == 0 {
                assert(p =~= Seq::<Seq<char>>::empty());
            }
        }
        assert forall|q: Seq<Seq<char>>| #[trigger] table_value(rf, q) == if within(q, tv.take(0)) {
            table_value(*final(cur), q.skip(0))
        } else if within(tv.take(0), q) {
            TomlValue::Table
        } else {
            table_value(r0, q)
        } by {
            assert(q.take(0) =~= tv.take(0));
            assert(q.skip(0) =~= q);
        }
    }
    while i < tables.len()
        invariant
            i <= tables@.len(),
            tv == path_view(tables@),
            forall|k: int| 0 <= k <= tables@.len() ==> {
                let v = #[trigger] table_value(r0, tv.take(k));
                v is Table || v is Missing
            },
            forall|p: Seq<Seq<char>>| #[trigger] table_value(*cur, p) == if p.len() == 0 {
                TomlValue::Table
            } else {
                table_value(r0, tv.take(i as int) + p)
            },
            forall|q: Seq<Seq<char>>| #[trigger] table_value(rf, q) == if within(q, tv.take(i as int)) {
                table_value(*final(cur), q.skip(i as int))
            } else if within(tv.take(i as int), q) {
                TomlValue::Table
            } else {
                table_value(r0, q)
            },
        decreases tables@.len() - i,
    {
        let ghost c0 = *cur;
        let ghost pre = tv.take(i as int);
        let ghost k = tv[i as int];
        assert(k == tables@[i as int]@);
        assert(table_value(c0, seq![k]) == table_value(r0, tv.take(i + 1))) by {
            lemma_take_push(tv, i as int, Seq::empty());
            assert(seq![k] + Seq::<Seq<char>>::empty() =~= seq![k]);
        }
        match ensure_table(cur, tables[i].as_str()) {
            Some(next) => {
                proof {
                    assert forall|p: Seq<Seq<char>>| #[trigger] table_value(*next, p) == if p.len() == 0 {
                        TomlValue::Table
                    } else {
                        table_value(r0, tv.take(i + 1) + p)
                    } by {
                        if p.len() > 0 {
                            lemma_take_push(tv, i as int, p);
                        }
                    }
                    assert forall|q: Seq<Seq<char>>| #[trigger] table_value(rf, q) == if within(q, tv.take(i + 1)) {
                        table_value(*final(next), q.skip(i + 1))
                    } else if within(tv.take(i + 1), q) {
                        TomlValue::Table
                    } else {
                        table_value(r0, q)
                    } by {
                        lemma_descend_step(q, tv, i as int);
                        if within(q, pre) {
                            let s = q.skip(i as int);
                            if under_key(s, k) {
                                assert(s.skip(1) =~= q.skip(i + 1));
                            } else if s.len() > 0 {
                                assert(pre + s =~= q);
                            }
                        }
                    }
                }
                cur = next;
            }
            None => {
                return None;
            }
        }
        i = i + 1;
    }
    proof {
        assert(tv.take(tables@.len() as int) =~= tv);
    }
    Some(cur)
}

/// How the key paths relate when a walk goes from the table at `tv[..i]` to
/// the one at `tv[..i + 1]`.
proof fn lemma_descend_step(q: Seq<Seq<char>>, tv: Seq<Seq<char>>, i: int)
    requires
        0 <= i < tv.len(),
    ensures
        within(q, tv.take(i + 1)) ==> within(q, tv.take(i)) && under_key(q.skip(i), tv[i]),
        within(q, tv.take(i)) && under_key(q.skip(i), tv[i]) ==> within(q, tv.take(i + 1)),
        within(q, tv.take(i)) && !under_key(q.skip(i), tv[i]) && q.skip(i).len() == 0 ==> within(tv.take(i + 1), q),
        within(q, tv.take(i)) && !under_key(q.skip(i), tv[i]) && q.skip(i).len() > 0 ==> !within(tv.take(i + 1), q),
        !within(q, tv.take(i)) ==> (within(tv.take(i + 1), q) <==> within(tv.take(i), q)),
{
    let a = tv.take(i);
    let b = tv.take(i + 1);
    if within(q, b) {
        assert(q.take(i) =~= b.take(i));
        assert(b.take(i) =~= a);
        assert(q.skip(i)[0] == q[i]);
        assert(q[i] == b[i]);
    }
    if within(q, a) && under_key(q.skip(i), tv[i]) {
        assert(q[i] == q.skip(i)[0]);
        assert(q.take(i + 1) =~= b) by {
            assert forall|j: int| 0 <= j < i + 1 implies q.take(i + 1)[j] == b[j] by {
                if j < i {
                    assert(q.take(i)[j] == a[j]);
                }
            }
        }
    }
    if within(q, a) && q.skip(i).len() == 0 {
        assert(q.len() == i);
        assert(q =~= a);
        assert(b.take(q.len() as int) =~= a);
    }
    if within(q, a) && !under_key(q.skip(i), tv[i]) && q.skip(i).len() > 0 {
        if within(b, q) {
            assert(q.len() <= i + 1);
            assert(q.len() == i + 1);
            assert(q[i] == b[i]);
            assert(q.skip(i)[0] == q[i]);
        }
    }
    if !within(q, a) {
        if within(b, q) {
            if q.len() <= i {
                assert(a.take(q.len() as int) =~= b.take(q.len() as int));
            } else {
                assert(q.len() == i + 1);
                assert(q =~= b);
                assert(q.take(i) =~= a);
            }
        }
        if within(a, q) {
            assert(b.take(q.len() as int) =~= a.take(q.len() as int));
        }
    }
}

/// Sets a string or boolean under a path of standard tables, creating the
/// tables that are missing (as `table[key] = value(..)` on each table in
/// turn). The value replaces what was at `tables + [key]`; nothing outside
/// that path changes but the tables along it.
pub(crate) fn toml_set(doc: &mut DocumentMut, tables: &Vec<String>, key: &str, value: &TomlItem)
    requires
        settable_under(*old(doc), path_view(tables@)),
        value is Str || value is Bool,
    ensures
        toml_value(*final(doc), path_view(tables@).push(key@)) == value@,
        forall|k: int| 0 <= k <= tables@.len() ==> #[trigger] toml_value(*final(doc), path_view(tables@).take(k)) is Table,
        forall|q: Seq<Seq<char>>| within(q, path_view(tables@).push(key@)) && q != path_view(tables@).push(key@) ==> #[trigger] toml_value(*final(doc), q) is Missing,
        forall|q: Seq<Seq<char>>| !within(q, path_view(tables@).push(key@)) && !within(path_view(tables@), q) ==> #[trigger] toml_value(*final(doc), q) == toml_value(*old(doc), q),
{
    let item = match value {
        TomlItem::Str(s) => string_item(s.as_str()),
        TomlItem::Bool(b) => bool_item(*b),
        _ => {
            return;
        }
    };
    let ghost d0 = *old(doc);
    let ghost df = *final(doc);
    let ghost tv = path_view(tables@);
    let ghost n = tables@.len() as int;
    let ghost iv = item;
    let root = doc_as_table_mut(doc);
    let ghost r0 = *root;
    let ghost rf = *final(root);
    match descend(root, tables) {
        Some(cur) => {
            let ghost c0 = *cur;
            let ghost cf = *final(cur);
            let entry = table_entry(cur, key);
            *entry = item;
            proof {
                lemma_set_frame(d0, df, r0, rf, c0, cf, iv, tv, key@, value@);
            }
        }
        None => {}
    }
}

/// How the final document relates to the item set at the end of a walk.
proof fn lemma_set_frame(
    d0: DocumentMut,
    df: DocumentMut,
    r0: Table,
    rf: Table,
    c0: Table,
    cf: Table,
    iv: Item,
    tv: Seq<Seq<char>>,
    key: Seq<char>,
    v: TomlValue,
)
    requires
        forall|p: Seq<Seq<char>>| #[trigger] table_value(r0, p) == toml_value(d0, p),
        forall|p: Seq<Seq<char>>| #[trigger] toml_value(df, p) == table_value(rf, p),
        forall|p: Seq<Seq<char>>| #[trigger] table_value(c0, p) == if p.len() == 0 {
            TomlValue::Table
        } else {
            table_value(r0, tv + p)
        },
        forall|q: Seq<Seq<char>>| #[trigger] table_value(rf, q) == if within(q, tv) {
            table_value(cf, q.skip(tv.len() as int))
        } else if within(tv, q) {
            TomlValue::Table
        } else {
            table_value(r0, q)
        },
        forall|q: Seq<Seq<char>>| #[trigger] table_value(cf, q) == if under_key(q, key) {
            item_value(iv, q.skip(1))
        } else {
            table_value(c0, q)
        },
        item_value(iv, Seq::empty()) == v,
        forall|p: Seq<Seq<char>>| p.len() > 0 ==> #[trigger] item_value(iv, p) is Missing,
    ensures
        toml_value(df, tv.push(key)) == v,
        forall|k: int| 0 <= k <= tv.len() ==> #[trigger] toml_value(df, tv.take(k)) is Table,
        forall|q: Seq<Seq<char>>| within(q, tv.push(key)) && q != tv.push(key) ==> #[trigger] toml_value(df, q) is Missing,
        forall|q: Seq<Seq<char>>| !within(q, tv.push(key)) && !within(tv, q) ==> #[trigger] toml_value(df, q) == toml_value(d0, q),
{
    let n = tv.len() as int;
    let t = tv.push(key);
    assert(t.take(n) =~= tv);
    assert(t.skip(n) =~= seq![key]);
    assert(seq![key].skip(1) =~= Seq::<Seq<char>>::empty());
    assert(toml_value(df, t) == table_value(cf, seq![key]));
    assert forall|k: int| 0 <= k <= tv.len() implies #[trigger] toml_value(df, tv.take(k)) is Table by {
        let q = tv.take(k);
        if k == n {
            assert(q =~= tv);
            assert(q.take(n) =~= tv);
            assert(q.skip(n) =~= Seq::<Seq<char>>::empty());
            assert(table_value(cf, Seq::<Seq<char>>::empty()) == table_value(c0, Seq::<Seq<char>>::empty()));
        } else {
            assert(!within(q, tv));
            assert(tv.take(q.len() as int) =~= q);
        }
    }
    assert forall|q: Seq<Seq<char>>| within(q, t) && q != t implies #[trigger] toml_value(df, q) is Missing by {
        assert(q.take(n) =~= t.take(n));
        let s = q.skip(n);
        assert(s[0] == q[n]);
        assert(q[n] == t[n]);
        assert(s.len() > 1) by {
            if s.len() == 1 {
                assert(q =~= t);
            }
        }
        assert(s.skip(1).len() > 0);
    }
    assert forall|q: Seq<Seq<char>>| !within(q, t) && !within(tv, q) implies #[trigger] toml_value(df, q) == toml_value(d0, q) by {
        if within(q, tv) {
            let s = q.skip(n);
            assert(s.len() > 0) by {
                if s.len() == 0 {
                    assert(q =~= tv);
                    assert(tv.take(q.len() as int) =~= tv);
                }
            }
            if under_key(s, key) {
                assert(q.take(n + 1) =~= t) by {
                    assert forall|j: int| 0 <= j < n + 1 implies q.take(n + 1)[j] == t[j] by {
                        if j < n {
                            assert(q.take(n)[j] == tv[j]);
                        } else {
                            assert(s[0] == q[n]);
                        }
                    }
                }
            }
            assert(tv + s =~= q);
        }
    }
}

/// Removes `key` under a path of standard tables (as `table.remove(key)` on
/// the last of them): nothing is left at `tables + [key]`, and nothing
/// outside that path changes.
pub(crate) fn toml_remove(doc: &mut DocumentMut, tables: &Vec<String>, key: &str)
    requires
        forall|k: int| 0 <= k <= tables@.len() ==> #[trigger] toml_value(*old(doc), path_view(tables@).take(k)) is Table,
    ensures
        forall|q: Seq<Seq<char>>| within(q, path_view(tables@).push(key@)) ==> #[trigger] toml_value(*final(doc), q) is Missing,
        forall|q: Seq<Seq<char>>| !within(q, path_view(tables@).push(key@)) ==> #[trigger] toml_value(*final(doc), q) == toml_value(*old(doc), q),
{
    let ghost d0 = *old(doc);
    let ghost df = *final(doc);
    let ghost tv = path_view(tables@);
    let root = doc_as_table_mut(doc);
    let ghost r0 = *root;
    let ghost rf = *final(root);
    match descend(root, tables) {
        Some(cur) => {
            let ghost c0 = *cur;
            let ghost cf = *final(cur);
            table_remove(cur, key);
            proof {
                lemma_remove_frame(d0, df, r0, rf, c0, cf, tv, key@);
            }
        }
        None => {}
    }
}

/// How the final document relates to the key removed at the end of a walk.
proof fn lemma_remove_frame(
    d0: DocumentMut,
    df: DocumentMut,
    r0: Table,
    rf: Table,
    c0: Table,
    cf: Table,
    tv: Seq<Seq<char>>,
    key: Seq<char>,
)
    requires
        forall|p: Seq<Seq<char>>| #[trigger] table_value(r0, p) == toml_value(d0, p),
        forall|p: Seq<Seq<char>>| #[trigger] toml_value(df, p) == table_value(rf, p),
        forall|k: int| 0 <= k <= tv.len() ==> #[trigger] toml_value(d0, tv.take(k)) is Table,
        forall|p: Seq<Seq<char>>| #[trigger] table_value(c0, p) == if p.len() == 0 {
            TomlValue::Table
        } else {
            table_value(r0, tv + p)
        },
        forall|q: Seq<Seq<char>>| #[trigger] table_value(rf, q) == if within(q, tv) {
            table_value(cf, q.skip(tv.len() as int))
        } else if within(tv, q) {
            TomlValue::Table
        } else {
            table_value(r0, q)
        },
        forall|q: Seq<Seq<char>>| #[trigger] table_value(cf, q) == if under_key(q, key) {
            TomlValue::Missing
        } else {
            table_value(c0, q)
        },
    ensures
        forall|q: Seq<Seq<char>>| within(q, tv.push(key)) ==> #[trigger] toml_value(df, q) is Missing,
        forall|q: Seq<Seq<char>>| !within(q, tv.push(key)) ==> #[trigger] toml_value(df, q) == toml_value(d0, q),
{
    let n = tv.len() as int;
    let t = tv.push(key);
    assert(t.take(n) =~= tv);
    assert forall|q: Seq<Seq<char>>| within(q, t) implies #[trigger] toml_value(df, q) is Missing by {
        assert(q.take(n) =~= t.take(n));
        assert(q.skip(n)[0] == q[n]);
        assert(q[n] == t[n]);
    }
    assert forall|q: Seq<Seq<char>>| !within(q, t) implies #[trigger] toml_value(df, q) == toml_value(d0, q) by {
        if within(q, tv) {
            let s = q.skip(n);
            if s.len() == 0 {
                assert(q =~= tv);
                assert(tv.take(n) =~= tv);
            } else {
                if under_key(s, key) {
                    assert(q.take(n + 1) =~= t) by {
                        assert forall|j: int| 0 <= j < n + 1 implies q.take(n + 1)[j] == t[j] by {
                            if j < n {
                                assert(q.take(n)[j] == tv[j]);
                            } else {
                                assert(s[0] == q[n]);
                            }
                        }
                    }
                }
                assert(tv + s =~= q);
            }
        } else if within(tv, q) {
            assert(tv.take(q.len() as int) =~= q);
        }
    }
}

} // verus!
