//! JSON objects as far as they are read and written here: members that are texts, numbers or
//! lists of them.

use crate::config::opt_text;
use crate::text::{same_text, texts};
use vstd::prelude::*;
use vstd::utf8::encode_utf8;

verus! {

/// An element of a list: its text where it is a string, its decimal text where it is a number.
pub struct Item {
    pub text: Option<String>,
    pub number: Option<String>,
}

/// A member of an object: its key, its value as JSON text, and the value itself as far as it is
/// a string, a number or a list.
pub struct Member {
    pub key: String,
    pub shown: String,
    pub text: Option<String>,
    pub number: Option<String>,
    pub list: Option<Vec<Item>>,
}

/// An element of a list as contracts speak of it.
pub struct ItemView {
    pub text: Option<Seq<char>>,
    pub number: Option<Seq<char>>,
}

/// A member of an object as contracts speak of it.
pub struct MemberView {
    pub key: Seq<char>,
    pub shown: Seq<char>,
    pub text: Option<Seq<char>>,
    pub number: Option<Seq<char>>,
    pub list: Option<Seq<ItemView>>,
}

impl View for Item {
    type V = ItemView;

    open spec fn view(&self) -> ItemView {
        ItemView { text: opt_text(self.text), number: opt_text(self.number) }
    }
}

/// The elements of a list as contracts speak of them.
pub open spec fn item_views(items: Seq<Item>) -> Seq<ItemView> {
    Seq::new(items.len(), |i: int| items[i]@)
}

impl View for Member {
    type V = MemberView;

    open spec fn view(&self) -> MemberView {
        MemberView {
            key: self.key@,
            shown: self.shown@,
            text: opt_text(self.text),
            number: opt_text(self.number),
            list: match self.list {
                Some(items) => Some(item_views(items@)),
                None => None,
            },
        }
    }
}

/// The members of an object as contracts speak of them.
pub open spec fn member_views(members: Seq<Member>) -> Seq<MemberView> {
    Seq::new(members.len(), |i: int| members[i]@)
}

/// The first member with the key `key`.
pub open spec fn lookup(members: Seq<MemberView>, key: Seq<char>) -> Option<MemberView>
    decreases members.len(),
{
    if members.len() == 0 {
        None
    } else if members[0].key == key {
        Some(members[0])
    } else {
        lookup(members.drop_first(), key)
    }
}

/// The members of the JSON object in `bytes`: nothing where the bytes are no JSON, no members
/// where the JSON is no object.
pub uninterp spec fn json_members(bytes: Seq<u8>) -> Option<Seq<MemberView>>;

/// Parses by `serde_json::from_slice`.
///
/// The result is taken to be a function of the bytes alone. A number is handed out as the text of
/// its floating-point value.
#[verifier::external_body]
fn parse_json(bytes: &[u8]) -> (r: Option<Vec<Member>>)
    ensures
        r is Some <==> json_members(bytes@) is Some,
        r matches Some(m) ==> json_members(bytes@) == Some(member_views(m@)),
{
    let value: serde_json::Value = serde_json::from_slice(bytes).ok()?;
    let members = value.as_object().into_iter().flatten().map(|(key, v)| Member {
        key: key.clone(),
        shown: v.to_string(),
        text: v.as_str().map(String::from),
        number: v.as_f64().map(|n| n.to_string()),
        list: v.as_array().map(|a| a.iter().map(|i| Item {
            text: i.as_str().map(String::from),
            number: i.as_f64().map(|n| n.to_string()),
        }).collect()),
    });
    Some(members.collect())
}

/// Reads the members of a JSON object.
pub fn read_object(bytes: &[u8]) -> (r: Option<Vec<Member>>)
    ensures
        r is Some <==> json_members(bytes@) is Some,
        r matches Some(m) ==> json_members(bytes@) == Some(member_views(m@)),
{
    parse_json(bytes)
}

/// A value without members to be written: a string or `null`, a list of strings, a truth value
/// or a number.
pub enum Scalar {
    Text(Option<String>),
    List(Vec<String>),
    Flag(bool),
    Number(u64),
}

/// A value to be written.
pub enum FieldValue {
    One(Scalar),
    Object(Vec<(String, Scalar)>),
}

/// A member to be written.
pub struct Field {
    pub key: String,
    pub value: FieldValue,
}

/// A value without members to be written, as contracts speak of it.
pub enum ScalarView {
    Text(Option<Seq<char>>),
    List(Seq<Seq<char>>),
    Flag(bool),
    Number(u64),
}

/// A value to be written, as contracts speak of it.
pub enum FieldValueView {
    One(ScalarView),
    Object(Seq<(Seq<char>, ScalarView)>),
}

impl View for Scalar {
    type V = ScalarView;

    open spec fn view(&self) -> ScalarView {
        match *self {
            Scalar::Text(s) => ScalarView::Text(opt_text(s)),
            Scalar::List(l) => ScalarView::List(texts(l@)),
            Scalar::Flag(b) => ScalarView::Flag(b),
            Scalar::Number(n) => ScalarView::Number(n),
        }
    }
}

/// The members of a nested object, as contracts speak of them.
pub open spec fn entry_views(entries: Seq<(String, Scalar)>) -> Seq<(Seq<char>, ScalarView)> {
    Seq::new(entries.len(), |i: int| (entries[i].0@, entries[i].1@))
}

impl View for FieldValue {
    type V = FieldValueView;

    open spec fn view(&self) -> FieldValueView {
        match *self {
            FieldValue::One(v) => FieldValueView::One(v@),
            FieldValue::Object(o) => FieldValueView::Object(entry_views(o@)),
        }
    }
}

/// A string to be written.
pub open spec fn text_value(t: Seq<char>) -> FieldValueView {
    FieldValueView::One(ScalarView::Text(Some(t)))
}

/// A member that holds a string.
pub fn text_field(key: &str, t: String) -> (r: Field)
    ensures
        r.key@ == key@,
        r.value@ == text_value(t@),
{
    Field { key: key.to_owned(), value: FieldValue::One(Scalar::Text(Some(t))) }
}

/// A member that holds a value without members.
pub fn scalar_field(key: &str, v: Scalar) -> (r: Field)
    ensures
        r.key@ == key@,
        r.value@ == FieldValueView::One(v@),
{
    Field { key: key.to_owned(), value: FieldValue::One(v) }
}

/// Members to be written, as contracts speak of them.
pub open spec fn field_views(fields: Seq<Field>) -> Seq<(Seq<char>, FieldValueView)> {
    Seq::new(fields.len(), |i: int| (fields[i].key@, fields[i].value@))
}

/// Whether no two members have the same key.
pub open spec fn distinct_keys(fields: Seq<(Seq<char>, FieldValueView)>) -> bool {
    forall|i: int, j: int| 0 <= i < j < fields.len() ==> #[trigger] fields[i].0 != #[trigger] fields[j].0
}

/// Whether a member that was read holds `value`.
pub open spec fn holds_value(member: MemberView, value: FieldValueView) -> bool {
    &&& !(value matches FieldValueView::One(ScalarView::Number(_))) ==> member.number is None
    &&& member.text == match value {
        FieldValueView::One(ScalarView::Text(t)) => t,
        _ => None,
    }
    &&& member.list == match value {
        FieldValueView::One(ScalarView::List(l)) => Some(
            Seq::new(l.len(), |i: int| ItemView { text: Some(l[i]), number: None }),
        ),
        _ => None,
    }
}

/// Whether what was read are the members `fields` and no others.
pub open spec fn holds_fields(
    read: Option<Seq<MemberView>>,
    fields: Seq<(Seq<char>, FieldValueView)>,
) -> bool {
    match read {
        Some(members) => {
            &&& forall|i: int|
                0 <= i < fields.len() ==> {
                    &&& lookup(members, (#[trigger] fields[i]).0) is Some
                    &&& holds_value(lookup(members, fields[i].0)->0, fields[i].1)
                }
            &&& forall|key: Seq<char>|
                (forall|i: int| 0 <= i < fields.len() ==> (#[trigger] fields[i]).0 != key)
                    ==> #[trigger] lookup(members, key) is None
        },
        None => false,
    }
}

/// Whether a text starts with an opening and ends with a closing brace.
pub open spec fn in_braces(s: Seq<char>) -> bool {
    s.len() >= 2 && s[0] == '{' && s.last() == '}'
}

/// The JSON text of an object with the members `fields`.
pub uninterp spec fn json_object(fields: Seq<(Seq<char>, FieldValueView)>) -> Seq<char>;

/// Writes by the display form of `serde_json::Value`.
///
/// The result is taken to be a function of the members alone, to start and end with a brace, and
/// to give those members back when it is parsed. What the text of a number, or a nested object,
/// reads back as is left unsaid.
#[verifier::external_body]
fn format_json(fields: &Vec<Field>) -> (r: String)
    requires
        distinct_keys(field_views(fields@)),
    ensures
        r@ == json_object(field_views(fields@)),
        holds_fields(json_members(encode_utf8(r@)), field_views(fields@)),
        in_braces(r@),
{
    let scalar = |v: &Scalar| match v {
        Scalar::Text(s) => serde_json::Value::from(s.as_deref()),
        Scalar::List(l) => serde_json::Value::from(l.as_slice()),
        Scalar::Flag(b) => serde_json::Value::from(*b),
        Scalar::Number(n) => serde_json::Value::from(*n),
    };
    let value = |f: &Field| match &f.value {
        FieldValue::One(v) => scalar(v),
        FieldValue::Object(o) => o.iter().map(|(k, v)| (k.clone(), scalar(v))).collect(),
    };
    let object: serde_json::Value = fields.iter().map(|f| (f.key.clone(), value(f))).collect();
    object.to_string()
}

/// Writes a JSON object.
pub fn write_object(fields: &Vec<Field>) -> (r: String)
    requires
        distinct_keys(field_views(fields@)),
    ensures
        r@ == json_object(field_views(fields@)),
        holds_fields(json_members(encode_utf8(r@)), field_views(fields@)),
        in_braces(r@),
{
    format_json(fields)
}

/// Finds the first member with the key `key`.
pub fn find_member<'a>(members: &'a Vec<Member>, key: &str) -> (r: Option<&'a Member>)
    ensures
        match r {
            Some(m) => lookup(member_views(members@), key@) == Some(m@),
            None => lookup(member_views(members@), key@) is None,
        },
{
    let ghost all = member_views(members@);
    assert(all.skip(0) =~= all);
    let mut i: usize = 0;
    while i < members.len()
        invariant
            i <= members@.len(),
            all == member_views(members@),
            lookup(all, key@) == lookup(all.skip(i as int), key@),
        decreases members@.len() - i,
    {
        assert(all.skip(i as int)[0] == members@[i as int]@);
        if same_text(members[i].key.as_str(), key) {
            return Some(&members[i]);
        }
        assert(all.skip(i as int).drop_first() =~= all.skip(i + 1));
        i = i + 1;
    }
    None
}

/// The string that a member holds.
pub open spec fn text_at(members: Seq<MemberView>, key: Seq<char>) -> Option<Seq<char>> {
    match lookup(members, key) {
        Some(m) => m.text,
        None => None,
    }
}

/// The text of the number that a member holds.
pub open spec fn number_at(members: Seq<MemberView>, key: Seq<char>) -> Option<Seq<char>> {
    match lookup(members, key) {
        Some(m) => m.number,
        None => None,
    }
}

/// The list that a member holds.
pub open spec fn list_at(members: Seq<MemberView>, key: Seq<char>) -> Option<Seq<ItemView>> {
    match lookup(members, key) {
        Some(m) => m.list,
        None => None,
    }
}

/// The strings in a list.
pub open spec fn strings_in(items: Seq<ItemView>) -> Seq<Seq<char>>
    decreases items.len(),
{
    if items.len() == 0 {
        Seq::empty()
    } else {
        let front = strings_in(items.drop_last());
        match items.last().text {
            Some(t) => front.push(t),
            None => front,
        }
    }
}

fn copied(s: &Option<String>) -> (r: Option<String>)
    ensures
        opt_text(r) == opt_text(*s),
{
    match s {
        Some(t) => Some(t.clone()),
        None => None,
    }
}

/// The string that a member holds.
pub fn text_member(members: &Vec<Member>, key: &str) -> (r: Option<String>)
    ensures
        opt_text(r) == text_at(member_views(members@), key@),
{
    match find_member(members, key) {
        Some(m) => copied(&m.text),
        None => None,
    }
}

/// The text of the number that a member holds.
pub fn number_member(members: &Vec<Member>, key: &str) -> (r: Option<String>)
    ensures
        opt_text(r) == number_at(member_views(members@), key@),
{
    match find_member(members, key) {
        Some(m) => copied(&m.number),
        None => None,
    }
}

/// The strings in the list that a member holds, or none.
pub fn strings_member(members: &Vec<Member>, key: &str) -> (r: Vec<String>)
    ensures
        texts(r@) == match list_at(member_views(members@), key@) {
            Some(items) => strings_in(items),
            None => Seq::empty(),
        },
{
    let mut r: Vec<String> = Vec::new();
    assert(texts(r@) =~= Seq::<Seq<char>>::empty());
    if let Some(m) = find_member(members, key) {
        if let Some(items) = &m.list {
            let ghost all = item_views(items@);
            assert(all.take(0) =~= Seq::<ItemView>::empty());
            let mut i: usize = 0;
            while i < items.len()
                invariant
                    i <= items@.len(),
                    all == item_views(items@),
                    texts(r@) == strings_in(all.take(i as int)),
                decreases items@.len() - i,
            {
                let ghost before = texts(r@);
                proof {
                    assert(all.take(i + 1).drop_last() =~= all.take(i as int));
                    assert(all.take(i + 1).last() == items@[i as int]@);
                }
                if let Some(t) = &items[i].text {
                    r.push(t.clone());
                    assert(texts(r@) =~= before.push(t@));
                }
                i = i + 1;
            }
            assert(all.take(i as int) =~= all);
        }
    }
    r
}

/// The texts of the numbers in the list that a member holds, one for each element.
pub fn numbers_member(members: &Vec<Member>, key: &str) -> (r: Option<Vec<Option<String>>>)
    ensures
        r is Some <==> list_at(member_views(members@), key@) is Some,
        r matches Some(v) ==> {
            let items = list_at(member_views(members@), key@)->0;
            &&& v@.len() == items.len()
            &&& forall|i: int|
                0 <= i < items.len() ==> opt_text(#[trigger] v@[i]) == items[i].number
        },
{
    if let Some(m) = find_member(members, key) {
        if let Some(items) = &m.list {
            let mut v: Vec<Option<String>> = Vec::new();
            let mut i: usize = 0;
            while i < items.len()
                invariant
                    i <= items@.len(),
                    v@.len() == i,
                    forall|k: int|
                        0 <= k < i ==> opt_text(#[trigger] v@[k]) == opt_text(items@[k].number),
                decreases items@.len() - i,
            {
                v.push(copied(&items[i].number));
                i = i + 1;
            }
            return Some(v);
        }
    }
    None
}

/// The strings in a list of strings are that list.
pub proof fn lemma_strings_in_texts(l: Seq<Seq<char>>)
    ensures
        strings_in(Seq::new(l.len(), |i: int| ItemView { text: Some(l[i]), number: None })) == l,
    decreases l.len(),
{
    let items = Seq::new(l.len(), |i: int| ItemView { text: Some(l[i]), number: None });
    if l.len() > 0 {
        let front = l.drop_last();
        lemma_strings_in_texts(front);
        assert(items.drop_last() =~= Seq::new(
            front.len(),
            |i: int| ItemView { text: Some(front[i]), number: None },
        ));
        assert(front.push(l.last()) =~= l);
    } else {
        assert(strings_in(items) =~= l);
    }
}

/// Looking a member up gives the first with the key, and nothing where there is none.
pub proof fn law_lookup(members: Seq<MemberView>, key: Seq<char>, i: int)
    requires
        0 <= i <= members.len(),
        forall|j: int| 0 <= j < i ==> (#[trigger] members[j]).key != key,
    ensures
        i < members.len() && members[i].key == key ==> lookup(members, key) == Some(members[i]),
        i == members.len() ==> lookup(members, key) is None,
    decreases members.len(),
{
    if i > 0 {
        assert(members[0].key != key);
        let rest = members.drop_first();
        assert forall|j: int| 0 <= j < i - 1 implies (#[trigger] rest[j]).key != key by {
            assert(members[j + 1].key != key);
        }
        law_lookup(rest, key, i - 1);
    }
}

/// What is read of the first member with a key: its string, its number, its list.
pub proof fn law_member_values(members: Seq<MemberView>, key: Seq<char>)
    ensures
        lookup(members, key) is None ==> {
            &&& text_at(members, key) is None
            &&& number_at(members, key) is None
            &&& list_at(members, key) is None
        },
        lookup(members, key) matches Some(m) ==> {
            &&& text_at(members, key) == m.text
            &&& number_at(members, key) == m.number
            &&& list_at(members, key) == m.list
        },
{
}

/// The strings of a list are kept in their order, and everything else is left out.
pub proof fn law_strings(items: Seq<ItemView>, item: ItemView)
    ensures
        strings_in(Seq::empty()) == Seq::<Seq<char>>::empty(),
        item.text is None ==> strings_in(items.push(item)) == strings_in(items),
        item.text matches Some(t) ==> strings_in(items.push(item)) == strings_in(items).push(t),
{
    assert(items.push(item).drop_last() =~= items);
}

/// What members and items hold, field by field.
pub proof fn law_member_views(members: Seq<Member>, items: Seq<Item>, i: int)
    ensures
        member_views(members).len() == members.len(),
        item_views(items).len() == items.len(),
        0 <= i < members.len() ==> {
            let v = member_views(members)[i];
            &&& v.key == members[i].key@
            &&& v.shown == members[i].shown@
            &&& v.text == opt_text(members[i].text)
            &&& v.number == opt_text(members[i].number)
            &&& v.list is Some <==> members[i].list is Some
            &&& members[i].list matches Some(l) ==> v.list == Some(item_views(l@))
        },
        0 <= i < items.len() ==> {
            &&& item_views(items)[i].text == opt_text(items[i].text)
            &&& item_views(items)[i].number == opt_text(items[i].number)
        },
{
}

/// What a member that holds a value gives back: a text as that text, a list as its texts in their
/// order, and neither where the value is something else.
pub proof fn law_held_values(
    member: MemberView,
    text: Option<Seq<char>>,
    list: Seq<Seq<char>>,
    flag: bool,
    number: u64,
)
    ensures
        holds_value(member, FieldValueView::One(ScalarView::Text(text))) <==> (member.text == text
            && member.number is None && member.list is None),
        holds_value(member, FieldValueView::One(ScalarView::Flag(flag))) <==> (member.text is None
            && member.number is None && member.list is None),
        holds_value(member, FieldValueView::One(ScalarView::Number(number))) <==> (member.text is None
            && member.list is None),
        holds_value(member, FieldValueView::One(ScalarView::List(list))) ==> {
            &&& member.text is None && member.number is None
            &&& member.list is Some
            &&& member.list->0.len() == list.len()
            &&& forall|i: int|
                0 <= i < list.len() ==> (#[trigger] member.list->0[i]).text == Some(list[i])
                    && member.list->0[i].number is None
        },
{
}

/// What contracts know of what is to be written is all of it, at its place.
pub proof fn law_views_of_fields(
    fields: Seq<Field>,
    field: Field,
    entries: Seq<(String, Scalar)>,
    entry: (String, Scalar),
    value: FieldValue,
)
    ensures
        field_views(Seq::empty()) == Seq::<(Seq<char>, FieldValueView)>::empty(),
        field_views(fields.push(field)) == field_views(fields).push((field.key@, field.value@)),
        entry_views(Seq::empty()) == Seq::<(Seq<char>, ScalarView)>::empty(),
        entry_views(entries.push(entry)) == entry_views(entries).push((entry.0@, entry.1@)),
        match entry.1 {
            Scalar::Text(s) => (entry.1)@ == ScalarView::Text(opt_text(s)),
            Scalar::List(l) => (entry.1)@ == ScalarView::List(texts(l@)),
            Scalar::Flag(b) => (entry.1)@ == ScalarView::Flag(b),
            Scalar::Number(n) => (entry.1)@ == ScalarView::Number(n),
        },
        match value {
            FieldValue::One(v) => value@ == FieldValueView::One(v@),
            FieldValue::Object(o) => value@ == FieldValueView::Object(entry_views(o@)),
        },
        forall|t: Seq<char>| #[trigger]
            text_value(t) == FieldValueView::One(ScalarView::Text(Some(t))),
{
    assert(field_views(fields.push(field)) =~= field_views(fields).push(
        (field.key@, field.value@),
    ));
    assert(entry_views(entries.push(entry)) =~= entry_views(entries).push((entry.0@, entry.1@)));
}

} // verus!
