//! JSON values: the crate's own tree, its mathematical model, and the reading
//! rules that response parsers share.
use crate::order;
use crate::text;
use vstd::prelude::*;

verus! {

/// A JSON number: its value as an unsigned and as a signed 64-bit integer,
/// where it is one, and its decimal text.
pub struct JsonNumber {
    pub unsigned: Option<u64>,
    pub signed: Option<i64>,
    pub text: String,
}

/// A JSON value. An object keeps its members in order, each name once.
pub enum Json {
    Null,
    Bool(bool),
    Num(JsonNumber),
    Str(String),
    Arr(Vec<Json>),
    Obj(Vec<(String, Json)>),
}

/// The model of a JSON number.
pub struct NumV {
    pub unsigned: Option<u64>,
    pub signed: Option<i64>,
    pub text: Seq<char>,
}

/// The model of a JSON value.
pub enum JsonV {
    Null,
    Bool(bool),
    Num(NumV),
    Str(Seq<char>),
    Arr(Seq<JsonV>),
    Obj(Seq<(Seq<char>, JsonV)>),
}

impl View for JsonNumber {
    type V = NumV;

    open spec fn view(&self) -> NumV {
        NumV { unsigned: self.unsigned, signed: self.signed, text: self.text@ }
    }
}

/// The model of `j`.
pub open spec fn json_view(j: Json) -> JsonV
    decreases j,
{
    match j {
        Json::Null => JsonV::Null,
        Json::Bool(b) => JsonV::Bool(b),
        Json::Num(n) => JsonV::Num(n@),
        Json::Str(s) => JsonV::Str(s@),
        Json::Arr(a) => JsonV::Arr(
            Seq::new(
                a@.len(),
                |i: int|
                    if 0 <= i < a@.len() {
                        json_view(a@[i])
                    } else {
                        JsonV::Null
                    },
            ),
        ),
        Json::Obj(o) => JsonV::Obj(
            Seq::new(
                o@.len(),
                |i: int|
                    if 0 <= i < o@.len() {
                        (o@[i].0@, json_view(o@[i].1))
                    } else {
                        (Seq::empty(), JsonV::Null)
                    },
            ),
        ),
    }
}

impl View for Json {
    type V = JsonV;

    open spec fn view(&self) -> JsonV {
        json_view(*self)
    }
}

/// The models of a list of values.
pub open spec fn items_view(a: Seq<Json>) -> Seq<JsonV> {
    Seq::new(a.len(), |i: int| a[i]@)
}

/// The models of a list of members.
pub open spec fn members_view(o: Seq<(String, Json)>) -> Seq<(Seq<char>, JsonV)> {
    Seq::new(o.len(), |i: int| (o[i].0@, o[i].1@))
}

/// An optional value by its model.
pub open spec fn opt_json(o: Option<&Json>) -> Option<JsonV> {
    match o {
        Some(j) => Some(j@),
        None => None,
    }
}

/// The value of an array is the list of its items' values.
pub proof fn lemma_arr_view(a: Vec<Json>)
    ensures
        Json::Arr(a)@ == JsonV::Arr(items_view(a@)),
{
    assert(Json::Arr(a)@->Arr_0 =~= items_view(a@));
}

/// The value of an object is the list of its members' values.
pub proof fn lemma_obj_view(o: Vec<(String, Json)>)
    ensures
        Json::Obj(o)@ == JsonV::Obj(members_view(o@)),
{
    assert(Json::Obj(o)@->Obj_0 =~= members_view(o@));
}

// -- Looking into a value --

/// The value of the first member named `name`.
pub open spec fn lookup(o: Seq<(Seq<char>, JsonV)>, name: Seq<char>) -> Option<JsonV>
    decreases o.len(),
{
    if o.len() == 0 {
        None
    } else if o[0].0 == name {
        Some(o[0].1)
    } else {
        lookup(o.skip(1), name)
    }
}

/// The member `name` of an object; nothing for any other value.
pub open spec fn get_of(v: JsonV, name: Seq<char>) -> Option<JsonV> {
    match v {
        JsonV::Obj(o) => lookup(o, name),
        _ => None,
    }
}

/// The value reached through two member names.
pub open spec fn get2_of(v: JsonV, a: Seq<char>, b: Seq<char>) -> Option<JsonV> {
    match get_of(v, a) {
        Some(w) => get_of(w, b),
        None => None,
    }
}

/// The value reached through three member names.
pub open spec fn get3_of(v: JsonV, a: Seq<char>, b: Seq<char>, c: Seq<char>) -> Option<JsonV> {
    match get2_of(v, a, b) {
        Some(w) => get_of(w, c),
        None => None,
    }
}

/// The text of a string value.
pub open spec fn str_of(v: Option<JsonV>) -> Option<Seq<char>> {
    match v {
        Some(JsonV::Str(s)) => Some(s),
        _ => None,
    }
}

/// The number of a value that is an unsigned 64-bit integer.
pub open spec fn u64_of(v: Option<JsonV>) -> Option<u64> {
    match v {
        Some(JsonV::Num(n)) => n.unsigned,
        _ => None,
    }
}

/// The items of an array value.
pub open spec fn arr_of(v: Option<JsonV>) -> Option<Seq<JsonV>> {
    match v {
        Some(JsonV::Arr(a)) => Some(a),
        _ => None,
    }
}

impl Json {
    /// The member `name` of an object.
    pub fn get(&self, name: &str) -> (r: Option<&Json>)
        ensures
            opt_json(r) == get_of(self@, name@),
            r matches Some(j) ==> decreases_to!(*self => *j),
    {
        match self {
            Json::Obj(o) => {
                proof {
                    lemma_obj_view(*o);
                }
                let ghost all = members_view(o@);
                let mut i: usize = 0;
                proof {
                    assert(all.skip(0) =~= all);
                }
                while i < o.len()
                    invariant
                        i <= o@.len(),
                        all == members_view(o@),
                        lookup(all, name@) == lookup(all.skip(i as int), name@),
                        *self == Json::Obj(*o),
                        self@ == JsonV::Obj(all),
                    decreases o@.len() - i,
                {
                    if text::same(o[i].0.as_str(), name) {
                        proof {
                            assert(all.skip(i as int)[0] == all[i as int]);
                            assert(decreases_to!(*self => *o));
                            assert(decreases_to!(*o => o@));
                            assert(decreases_to!(o@ => o@[i as int]));
                            assert(decreases_to!(o@[i as int] => o@[i as int].1));
                        }
                        return Some(&o[i].1);
                    }
                    proof {
                        assert(all.skip(i as int)[0] == all[i as int]);
                        assert(all.skip(i as int).skip(1) =~= all.skip(i + 1));
                    }
                    i = i + 1;
                }
                None
            },
            _ => None,
        }
    }

    /// The value reached through two member names.
    pub fn get2(&self, a: &str, b: &str) -> (r: Option<&Json>)
        ensures
            opt_json(r) == get2_of(self@, a@, b@),
    {
        match self.get(a) {
            Some(w) => w.get(b),
            None => None,
        }
    }

    /// The value reached through three member names.
    pub fn get3(&self, a: &str, b: &str, c: &str) -> (r: Option<&Json>)
        ensures
            opt_json(r) == get3_of(self@, a@, b@, c@),
    {
        match self.get2(a, b) {
            Some(w) => w.get(c),
            None => None,
        }
    }

    /// True of `null`.
    pub fn is_null(&self) -> (r: bool)
        ensures
            r == (self@ == JsonV::Null),
    {
        match self {
            Json::Null => true,
            _ => false,
        }
    }

    /// A JSON string.
    pub fn text(s: &str) -> (r: Json)
        ensures
            r@ == JsonV::Str(s@),
    {
        Json::Str(s.to_string())
    }

    /// A JSON number.
    pub fn number(n: u64) -> (r: Json)
        ensures
            r@ == num_v(n as int),
    {
        let signed: Option<i64> = if n <= 9223372036854775807u64 {
            Some(n as i64)
        } else {
            None
        };
        Json::Num(JsonNumber { unsigned: Some(n), signed, text: text::to_decimal(n) })
    }

    /// A JSON array.
    pub fn array(a: Vec<Json>) -> (r: Json)
        ensures
            r@ == JsonV::Arr(items_view(a@)),
    {
        proof {
            lemma_arr_view(a);
        }
        Json::Arr(a)
    }
}

/// The text of a string value.
pub fn as_text(v: Option<&Json>) -> (r: Option<String>)
    ensures
        text::opt_text(r) == str_of(opt_json(v)),
{
    match v {
        Some(Json::Str(s)) => Some(s.clone()),
        _ => None,
    }
}

/// The number of a value that is an unsigned 64-bit integer.
pub fn as_number(v: Option<&Json>) -> (r: Option<u64>)
    ensures
        r == u64_of(opt_json(v)),
{
    match v {
        Some(Json::Num(n)) => n.unsigned,
        _ => None,
    }
}

// -- Building an object --

/// The number `n` as a JSON value.
pub open spec fn num_v(n: int) -> JsonV {
    JsonV::Num(
        NumV {
            unsigned: Some(n as u64),
            signed: if n <= i64::MAX {
                Some(n as i64)
            } else {
                None
            },
            text: text::decimal(n as nat),
        },
    )
}

/// The members of an object under construction.
pub struct FieldsV {
    pub members: Seq<(Seq<char>, JsonV)>,
}

impl FieldsV {
    pub open spec fn new() -> FieldsV {
        FieldsV { members: Seq::empty() }
    }

    pub open spec fn put(self, name: Seq<char>, value: JsonV) -> FieldsV {
        FieldsV { members: self.members.push((name, value)) }
    }

    pub open spec fn text(self, name: Seq<char>, s: Seq<char>) -> FieldsV {
        self.put(name, JsonV::Str(s))
    }

    pub open spec fn flag(self, name: Seq<char>, b: bool) -> FieldsV {
        self.put(name, JsonV::Bool(b))
    }

    pub open spec fn num(self, name: Seq<char>, n: int) -> FieldsV {
        self.put(name, num_v(n))
    }

    pub open spec fn obj(self) -> JsonV {
        JsonV::Obj(self.members)
    }
}

/// The members of an object under construction, in the order of the calls.
pub struct Fields {
    pub members: Vec<(String, Json)>,
}

impl View for Fields {
    type V = FieldsV;

    open spec fn view(&self) -> FieldsV {
        FieldsV { members: members_view(self.members@) }
    }
}

impl Fields {
    pub fn new() -> (r: Fields)
        ensures
            r@ == FieldsV::new(),
    {
        let r = Fields { members: Vec::new() };
        proof {
            assert(members_view(r.members@) =~= Seq::empty());
        }
        r
    }

    pub fn put(&mut self, name: &str, value: Json)
        ensures
            final(self)@ == old(self)@.put(name@, value@),
    {
        self.members.push((name.to_string(), value));
        proof {
            assert(members_view(self.members@) =~= members_view(old(self).members@).push(
                (name@, value@),
            ));
        }
    }

    pub fn text(&mut self, name: &str, s: &str)
        ensures
            final(self)@ == old(self)@.text(name@, s@),
    {
        self.put(name, Json::text(s));
    }

    pub fn flag(&mut self, name: &str, b: bool)
        ensures
            final(self)@ == old(self)@.flag(name@, b),
    {
        self.put(name, Json::Bool(b));
    }

    pub fn num(&mut self, name: &str, n: u64)
        ensures
            final(self)@ == old(self)@.num(name@, n as int),
    {
        self.put(name, Json::number(n));
    }

    pub fn obj(self) -> (r: Json)
        ensures
            r@ == self@.obj(),
    {
        proof {
            lemma_obj_view(self.members);
        }
        Json::Obj(self.members)
    }
}

/// The items of an array under construction.
pub struct Items {
    pub items: Vec<Json>,
}

impl View for Items {
    type V = Seq<JsonV>;

    open spec fn view(&self) -> Seq<JsonV> {
        items_view(self.items@)
    }
}

impl Items {
    pub fn new() -> (r: Items)
        ensures
            r@ == Seq::<JsonV>::empty(),
    {
        let r = Items { items: Vec::new() };
        proof {
            assert(items_view(r.items@) =~= Seq::empty());
        }
        r
    }

    pub fn push(&mut self, value: Json)
        ensures
            final(self)@ == old(self)@.push(value@),
    {
        self.items.push(value);
        proof {
            assert(items_view(self.items@) =~= items_view(old(self).items@).push(value@));
        }
    }

    pub fn arr(self) -> (r: Json)
        ensures
            r@ == JsonV::Arr(self@),
    {
        Json::array(self.items)
    }
}

// -- Reading typed records --

/// The member of a record: by name in an object, by position in an array.
pub open spec fn member_of(v: JsonV, name: Seq<char>, pos: int) -> Option<JsonV> {
    match v {
        JsonV::Obj(o) => lookup(o, name),
        JsonV::Arr(a) => if 0 <= pos < a.len() {
            Some(a[pos])
        } else {
            None
        },
        _ => None,
    }
}

/// True of a value that has the outer form of a record with `n` members of
/// which the first `min` may not be left out of the array form.
pub open spec fn record_form(v: JsonV, min: int, n: int) -> bool {
    match v {
        JsonV::Obj(_) => true,
        JsonV::Arr(a) => min <= a.len() <= n,
        _ => false,
    }
}

/// How an optional member reads when it has to be of some type: absent and
/// `null` are nothing, a wrong type is a failure.
pub open spec fn opt_text_member(m: Option<JsonV>) -> Option<Option<Seq<char>>> {
    match m {
        None => Some(None),
        Some(JsonV::Null) => Some(None),
        Some(JsonV::Str(s)) => Some(Some(s)),
        _ => None,
    }
}

/// An optional boolean member.
pub open spec fn opt_bool_member(m: Option<JsonV>) -> Option<Option<bool>> {
    match m {
        None => Some(None),
        Some(JsonV::Null) => Some(None),
        Some(JsonV::Bool(b)) => Some(Some(b)),
        _ => None,
    }
}

/// An optional member that is an unsigned 64-bit integer.
pub open spec fn opt_u64_member(m: Option<JsonV>) -> Option<Option<u64>> {
    match m {
        None => Some(None),
        Some(JsonV::Null) => Some(None),
        Some(JsonV::Num(n)) => match n.unsigned {
            Some(u) => Some(Some(u)),
            None => None,
        },
        _ => None,
    }
}

/// An optional member that is a signed 64-bit integer.
pub open spec fn opt_i64_member(m: Option<JsonV>) -> Option<Option<i64>> {
    match m {
        None => Some(None),
        Some(JsonV::Null) => Some(None),
        Some(JsonV::Num(n)) => match n.signed {
            Some(u) => Some(Some(u)),
            None => None,
        },
        _ => None,
    }
}

/// How an optional member reads as a 32-bit integer.
pub open spec fn opt_i32_member(m: Option<JsonV>) -> Option<Option<i32>> {
    match opt_i64_member(m) {
        Some(Some(n)) => if i32::MIN <= n <= i32::MAX {
            Some(Some(n as i32))
        } else {
            None
        },
        Some(None) => Some(None),
        None => None,
    }
}

/// An optional member of any type: absent and `null` are nothing.
pub open spec fn opt_any_member(m: Option<JsonV>) -> Option<JsonV> {
    match m {
        Some(JsonV::Null) => None,
        _ => m,
    }
}

/// A boolean member that may be left out.
pub open spec fn bool_default(m: Option<JsonV>) -> Option<bool> {
    match m {
        None => Some(false),
        Some(JsonV::Bool(b)) => Some(b),
        _ => None,
    }
}

/// How a list of JSON values reads as a list of texts: all of them or none.
pub open spec fn text_list(a: Seq<JsonV>) -> Option<Seq<Seq<char>>>
    decreases a.len(),
{
    if a.len() == 0 {
        Some(Seq::empty())
    } else {
        match (text_list(a.drop_last()), str_of(Some(a.last()))) {
            (Some(l), Some(s)) => Some(l.push(s)),
            _ => None,
        }
    }
}

/// A list of texts that may be left out.
pub open spec fn texts_default(m: Option<JsonV>) -> Option<Seq<Seq<char>>> {
    match m {
        None => Some(Seq::empty()),
        Some(JsonV::Arr(a)) => text_list(a),
        _ => None,
    }
}

/// An optional list of texts.
pub open spec fn opt_texts_member(m: Option<JsonV>) -> Option<Option<Seq<Seq<char>>>> {
    match m {
        None => Some(None),
        Some(JsonV::Null) => Some(None),
        Some(JsonV::Arr(a)) => match text_list(a) {
            Some(l) => Some(Some(l)),
            None => None,
        },
        _ => None,
    }
}

/// The view of an optional text that was read.
pub open spec fn read_text_view(r: Option<Option<String>>) -> Option<Option<Seq<char>>> {
    match r {
        None => None,
        Some(o) => Some(text::opt_text(o)),
    }
}

/// The member of a record.
pub fn member<'a>(v: &'a Json, name: &str, pos: usize) -> (r: Option<&'a Json>)
    ensures
        opt_json(r) == member_of(v@, name@, pos as int),
{
    match v {
        Json::Arr(a) => {
            proof {
                lemma_arr_view(*a);
            }
            if pos < a.len() {
                Some(&a[pos])
            } else {
                None
            }
        },
        _ => v.get(name),
    }
}

/// True of a value that has the outer form of a record.
pub fn has_record_form(v: &Json, min: usize, n: usize) -> (r: bool)
    ensures
        r == record_form(v@, min as int, n as int),
{
    match v {
        Json::Arr(a) => {
            proof {
                lemma_arr_view(*a);
            }
            min <= a.len() && a.len() <= n
        },
        Json::Obj(_) => true,
        _ => false,
    }
}

/// Reads an optional text member.
pub fn read_opt_text(m: Option<&Json>) -> (r: Option<Option<String>>)
    ensures
        read_text_view(r) == opt_text_member(opt_json(m)),
{
    match m {
        None => Some(None),
        Some(Json::Null) => Some(None),
        Some(Json::Str(s)) => Some(Some(s.clone())),
        _ => None,
    }
}

/// Reads an optional boolean member.
pub fn read_opt_bool(m: Option<&Json>) -> (r: Option<Option<bool>>)
    ensures
        r == opt_bool_member(opt_json(m)),
{
    match m {
        None => Some(None),
        Some(Json::Null) => Some(None),
        Some(Json::Bool(b)) => Some(Some(*b)),
        _ => None,
    }
}

/// Reads an optional unsigned member.
pub fn read_opt_u64(m: Option<&Json>) -> (r: Option<Option<u64>>)
    ensures
        r == opt_u64_member(opt_json(m)),
{
    match m {
        None => Some(None),
        Some(Json::Null) => Some(None),
        Some(Json::Num(n)) => match n.unsigned {
            Some(u) => Some(Some(u)),
            None => None,
        },
        _ => None,
    }
}

/// Reads an optional signed member.
pub fn read_opt_i64(m: Option<&Json>) -> (r: Option<Option<i64>>)
    ensures
        r == opt_i64_member(opt_json(m)),
{
    match m {
        None => Some(None),
        Some(Json::Null) => Some(None),
        Some(Json::Num(n)) => match n.signed {
            Some(u) => Some(Some(u)),
            None => None,
        },
        _ => None,
    }
}

/// Reads an optional 32-bit integer.
pub fn read_opt_i32(m: Option<&Json>) -> (r: Option<Option<i32>>)
    ensures
        r == opt_i32_member(opt_json(m)),
{
    match read_opt_i64(m) {
        Some(Some(n)) => if n >= -2147483648 && n <= 2147483647 {
            Some(Some(n as i32))
        } else {
            None
        },
        Some(None) => Some(None),
        None => None,
    }
}

/// Reads an optional member of any type.
pub fn read_opt_any<'a>(m: Option<&'a Json>) -> (r: Option<&'a Json>)
    ensures
        opt_json(r) == opt_any_member(opt_json(m)),
{
    match m {
        Some(j) => if j.is_null() {
            None
        } else {
            Some(j)
        },
        None => None,
    }
}

/// Reads a boolean member that may be left out.
pub fn read_bool_default(m: Option<&Json>) -> (r: Option<bool>)
    ensures
        r == bool_default(opt_json(m)),
{
    match m {
        None => Some(false),
        Some(Json::Bool(b)) => Some(*b),
        _ => None,
    }
}

proof fn lemma_text_list_prefix(a: Seq<JsonV>, i: int)
    requires
        0 <= i <= a.len(),
        text_list(a.take(i)) is None,
    ensures
        text_list(a) is None,
    decreases a.len() - i,
{
    if i < a.len() {
        assert(a.take(i + 1).drop_last() =~= a.take(i));
        lemma_text_list_prefix(a, i + 1);
    } else {
        assert(a.take(i) =~= a);
    }
}

/// Reads a list of texts.
pub fn read_text_list(a: &Vec<Json>) -> (r: Option<Vec<String>>)
    ensures
        match r {
            Some(l) => text_list(items_view(a@)) == Some(text::texts(l@)),
            None => text_list(items_view(a@)) is None,
        },
{
    let ghost all = items_view(a@);
    let mut out: Vec<String> = Vec::new();
    let mut i: usize = 0;
    proof {
        assert(all.take(0) =~= Seq::empty());
        assert(text::texts(out@) =~= Seq::empty());
    }
    while i < a.len()
        invariant
            i <= a@.len(),
            all == items_view(a@),
            text_list(all.take(i as int)) == Some(text::texts(out@)),
        decreases a@.len() - i,
    {
        proof {
            assert(all.take(i + 1).drop_last() =~= all.take(i as int));
            assert(all.take(i + 1).last() == a@[i as int]@);
        }
        match as_text(Some(&a[i])) {
            Some(s) => {
                let ghost before = out@;
                out.push(s);
                proof {
                    assert(text::texts(out@) =~= text::texts(before).push(s@));
                }
            },
            None => {
                proof {
                    lemma_text_list_prefix(all, i + 1);
                }
                return None;
            },
        }
        i = i + 1;
    }
    proof {
        assert(all.take(i as int) =~= all);
    }
    Some(out)
}

/// Reads a list of texts that may be left out.
pub fn read_texts_default(m: Option<&Json>) -> (r: Option<Vec<String>>)
    ensures
        match r {
            Some(l) => texts_default(opt_json(m)) == Some(text::texts(l@)),
            None => texts_default(opt_json(m)) is None,
        },
{
    match m {
        None => {
            let out: Vec<String> = Vec::new();
            proof {
                assert(text::texts(out@) =~= Seq::empty());
            }
            Some(out)
        },
        Some(Json::Arr(a)) => {
            proof {
                lemma_arr_view(*a);
            }
            read_text_list(a)
        },
        _ => None,
    }
}

/// Reads an optional list of texts.
pub fn read_opt_texts(m: Option<&Json>) -> (r: Option<Option<Vec<String>>>)
    ensures
        match r {
            Some(Some(l)) => opt_texts_member(opt_json(m)) == Some(Some(text::texts(l@))),
            Some(None) => opt_texts_member(opt_json(m)) == Some(None::<Seq<Seq<char>>>),
            None => opt_texts_member(opt_json(m)) is None,
        },
{
    match m {
        None => Some(None),
        Some(Json::Null) => Some(None),
        Some(Json::Arr(a)) => {
            proof {
                lemma_arr_view(*a);
            }
            match read_text_list(a) {
                Some(l) => Some(Some(l)),
                None => None,
            }
        },
        _ => None,
    }
}

// -- Parsing text --

/// The JSON value type of `serde_json`, carried without looking inside.
#[verifier::external_type_specification]
#[verifier::external_body]
pub struct ExValue(serde_json::Value);

/// One level of a `serde_json::Value`.
pub enum ValueNode<'a> {
    Null,
    Bool(bool),
    Num(JsonNumber),
    Str(String),
    Arr(Vec<&'a serde_json::Value>),
    Obj(Vec<(String, &'a serde_json::Value)>),
}

/// What a `serde_json::Value` holds.
pub uninterp spec fn held_json(value: serde_json::Value) -> JsonV;

/// What `serde_json::from_str` makes of a text; nothing where it refuses it.
pub uninterp spec fn json_text(text: Seq<char>) -> Option<JsonV>;

/// What `serde_json::from_slice` makes of bytes; nothing where it refuses them.
pub uninterp spec fn json_bytes(data: Seq<u8>) -> Option<JsonV>;

/// The text that `serde_json::to_string` writes for a value.
pub uninterp spec fn written_json(v: JsonV) -> Seq<char>;

/// An optional `serde_json::Value` by what it holds.
pub open spec fn opt_held(o: Option<serde_json::Value>) -> Option<JsonV> {
    match o {
        Some(v) => Some(held_json(v)),
        None => None,
    }
}

/// The model of one opened level.
pub open spec fn node_view(n: ValueNode<'_>) -> JsonV {
    match n {
        ValueNode::Null => JsonV::Null,
        ValueNode::Bool(b) => JsonV::Bool(b),
        ValueNode::Num(n) => JsonV::Num(n@),
        ValueNode::Str(s) => JsonV::Str(s@),
        ValueNode::Arr(a) => JsonV::Arr(Seq::new(a@.len(), |i: int| held_json(*a@[i]))),
        ValueNode::Obj(o) => JsonV::Obj(
            Seq::new(o@.len(), |i: int| (o@[i].0@, held_json(*o@[i].1))),
        ),
    }
}

/// The item of an array at a place.
pub open spec fn item_of(v: JsonV, at: int) -> Option<JsonV> {
    match v {
        JsonV::Arr(a) => if 0 <= at < a.len() {
            Some(a[at])
        } else {
            None
        },
        _ => None,
    }
}

/// True of a value with at most `depth` arrays and objects inside one another,
/// whose numbers are whole.
pub open spec fn rereadable(v: JsonV, depth: nat) -> bool
    decreases depth,
{
    match v {
        JsonV::Num(n) => n.unsigned is Some || n.signed is Some,
        JsonV::Arr(a) => depth > 0 && forall|i: int|
            0 <= i < a.len() ==> rereadable(#[trigger] a[i], (depth - 1) as nat),
        JsonV::Obj(o) => depth > 0 && forall|i: int|
            0 <= i < o.len() ==> rereadable((#[trigger] o[i]).1, (depth - 1) as nat),
        _ => true,
    }
}

/// True of a value with at most `depth` arrays and objects inside one another.
pub open spec fn nested_within(v: JsonV, depth: nat) -> bool
    decreases depth,
{
    match v {
        JsonV::Arr(a) => depth > 0 && forall|i: int|
            0 <= i < a.len() ==> nested_within(#[trigger] a[i], (depth - 1) as nat),
        JsonV::Obj(o) => depth > 0 && forall|i: int|
            0 <= i < o.len() ==> nested_within((#[trigger] o[i]).1, (depth - 1) as nat),
        _ => true,
    }
}

/// True when each string member of an object is shorter than `n` characters.
pub open spec fn member_texts_below(v: JsonV, n: nat) -> bool {
    forall|name: Seq<char>|
        match str_of(#[trigger] get_of(v, name)) {
            Some(s) => s.len() < n,
            None => true,
        }
}

/// Opens one level of a `serde_json::Value`: the variant and its contents are
/// handed over as they are. The members of an object come in the map's order.
#[verifier::external_body]
fn open_value<'a>(value: &'a serde_json::Value) -> (r: ValueNode<'a>)
    ensures
        node_view(r) == held_json(*value),
{
    match value {
        serde_json::Value::Null => ValueNode::Null,
        serde_json::Value::Bool(b) => ValueNode::Bool(*b),
        serde_json::Value::Number(n) => ValueNode::Num(
            JsonNumber { unsigned: n.as_u64(), signed: n.as_i64(), text: n.to_string() },
        ),
        serde_json::Value::String(s) => ValueNode::Str(s.clone()),
        serde_json::Value::Array(a) => ValueNode::Arr(a.iter().collect()),
        serde_json::Value::Object(o) => {
            ValueNode::Obj(o.iter().map(|(k, v)| (k.clone(), v)).collect())
        },
    }
}

/// `serde_json::Value::get` with a member name: the member of an object, and
/// nothing for any other value.
#[verifier::external_body]
pub(crate) fn value_member(value: &serde_json::Value, name: &str) -> (r: Option<serde_json::Value>)
    ensures
        opt_held(r) == get_of(held_json(*value), name@),
{
    value.get(name).cloned()
}

/// `serde_json::Value::get` with an index: the item of an array, and nothing for
/// any other value.
#[verifier::external_body]
pub(crate) fn value_item(value: &serde_json::Value, at: usize) -> (r: Option<serde_json::Value>)
    ensures
        opt_held(r) == item_of(held_json(*value), at as int),
{
    value.get(at).cloned()
}

/// `serde_json::from_str` into a `serde_json::Value`: the value that the text
/// stands for, or nothing where the text is not one JSON value. A string of the
/// value stands between quotes in the text, so it is shorter than the text.
#[verifier::external_body]
pub(crate) fn value_from_text(text: &str) -> (r: Option<serde_json::Value>)
    ensures
        opt_held(r) == json_text(text@),
        r matches Some(v) ==> member_texts_below(held_json(v), text@.len()),
{
    serde_json::from_str::<serde_json::Value>(text).ok()
}

/// `serde_json::from_slice` into a `serde_json::Value`.
#[verifier::external_body]
pub(crate) fn value_from_bytes(data: &[u8]) -> (r: Option<serde_json::Value>)
    ensures
        opt_held(r) == json_bytes(data@),
{
    serde_json::from_slice::<serde_json::Value>(data).ok()
}

/// `serde_json::to_string`: the text of a value, without white space between
/// its parts. `serde_json::from_str` makes the same value of that text where the
/// value is no deeper than its recursion limit allows and holds no fractions,
/// whose text may be read as a neighbouring number.
#[verifier::external_body]
pub(crate) fn value_to_text(value: &serde_json::Value) -> (r: String)
    ensures
        r@ == written_json(held_json(*value)),
        rereadable(held_json(*value), 127) ==> json_text(r@) == Some(held_json(*value)),
{
    serde_json::to_string(value).unwrap_or_default()
}

/// True of names in strictly rising order.
pub open spec fn rising_names(members: Seq<(String, String)>) -> bool {
    forall|i: int, j: int|
        0 <= i < j < members.len() ==> order::text_less(
            (#[trigger] members[i]).0@,
            (#[trigger] members[j]).0@,
        )
}

/// The members of an object whose values are texts.
pub open spec fn text_members(members: Seq<(String, String)>) -> Seq<(Seq<char>, JsonV)> {
    Seq::new(members.len(), |i: int| (members[i].0@, JsonV::Str(members[i].1@)))
}

/// `serde_json::Value::from_iter` over pairs: the object with those members. It
/// keeps its members in the order of their names, in which they are given here.
#[verifier::external_body]
pub(crate) fn value_of_texts(members: Vec<(String, String)>) -> (r: serde_json::Value)
    requires
        rising_names(members@),
    ensures
        held_json(r) == JsonV::Obj(text_members(members@)),
{
    serde_json::Value::from_iter(members)
}

/// `serde_json::Value::from` of a list of values: the array of them.
#[verifier::external_body]
pub(crate) fn value_of_items(items: Vec<serde_json::Value>) -> (r: serde_json::Value)
    ensures
        held_json(r) == JsonV::Arr(Seq::new(items@.len(), |i: int| held_json(items@[i]))),
{
    serde_json::Value::from(items)
}

/// The member of a record that is written as an object or as an array.
pub(crate) fn member_value(value: &serde_json::Value, name: &str, pos: usize) -> (r: Option<
    serde_json::Value,
>)
    ensures
        opt_held(r) == member_of(held_json(*value), name@, pos as int),
{
    match open_value(value) {
        ValueNode::Arr(_) => value_item(value, pos),
        _ => value_member(value, name),
    }
}

/// The crate's own tree for a `serde_json::Value`.
pub fn from_value(value: &serde_json::Value) -> (r: Json)
    ensures
        r@ == held_json(*value),
    decreases held_json(*value),
{
    let ghost whole = held_json(*value);
    match open_value(value) {
        ValueNode::Null => Json::Null,
        ValueNode::Bool(b) => Json::Bool(b),
        ValueNode::Num(n) => Json::Num(n),
        ValueNode::Str(s) => Json::Str(s),
        ValueNode::Arr(a) => {
            let ghost items = a@;
            let ghost models = whole->Arr_0;
            let mut out: Vec<Json> = Vec::new();
            for v in it: a
                invariant
                    whole == held_json(*value),
                    whole == JsonV::Arr(models),
                    models == Seq::new(items.len(), |i: int| held_json(*items[i])),
                    it.seq() == items,
                    out@.len() == it.index(),
                    forall|j: int| 0 <= j < it.index() ==> (#[trigger] out@[j])@ == models[j],
            {
                proof {
                    assert(decreases_to!(whole => whole->Arr_0));
                    assert(decreases_to!(whole->Arr_0 => whole->Arr_0[it.index()]));
                }
                out.push(from_value(v));
            }
            proof {
                lemma_arr_view(out);
                assert(items_view(out@) =~= models);
            }
            Json::Arr(out)
        },
        ValueNode::Obj(o) => {
            let ghost items = o@;
            let ghost models = whole->Obj_0;
            let mut out: Vec<(String, Json)> = Vec::new();
            for p in it: o
                invariant
                    whole == held_json(*value),
                    whole == JsonV::Obj(models),
                    models == Seq::new(
                        items.len(),
                        |i: int| (items[i].0@, held_json(*items[i].1)),
                    ),
                    it.seq() == items,
                    out@.len() == it.index(),
                    forall|j: int|
                        0 <= j < it.index() ==> ((#[trigger] out@[j]).0@, out@[j].1@) == models[j],
            {
                proof {
                    assert(decreases_to!(whole => whole->Obj_0));
                    assert(decreases_to!(whole->Obj_0 => whole->Obj_0[it.index()]));
                    assert(decreases_to!(whole->Obj_0[it.index()] => whole->Obj_0[it.index()].1));
                }
                let (name, v) = p;
                out.push((name, from_value(v)));
            }
            proof {
                lemma_obj_view(out);
                assert(members_view(out@) =~= models);
            }
            Json::Obj(out)
        },
    }
}

/// True when arrays and objects nest no deeper than `depth`.
pub fn nests_within(v: &Json, depth: usize) -> (r: bool)
    ensures
        r == nested_within(v@, depth as nat),
    decreases depth,
{
    match v {
        Json::Arr(a) => {
            proof {
                lemma_arr_view(*a);
            }
            if depth == 0 {
                return false;
            }
            let mut i: usize = 0;
            while i < a.len()
                invariant
                    i <= a@.len(),
                    depth > 0,
                    v@ == JsonV::Arr(items_view(a@)),
                    forall|j: int|
                        0 <= j < i ==> nested_within(
                            #[trigger] items_view(a@)[j],
                            (depth - 1) as nat,
                        ),
                decreases a@.len() - i,
            {
                if !nests_within(&a[i], depth - 1) {
                    proof {
                        let item = items_view(a@)[i as int];
                        assert(item == a@[i as int]@);
                        assert(v@->Arr_0[i as int] == item);
                        assert(!nested_within(item, (depth as nat - 1) as nat));
                    }
                    return false;
                }
                i = i + 1;
            }
            true
        },
        Json::Obj(o) => {
            proof {
                lemma_obj_view(*o);
            }
            if depth == 0 {
                return false;
            }
            let mut i: usize = 0;
            while i < o.len()
                invariant
                    i <= o@.len(),
                    depth > 0,
                    v@ == JsonV::Obj(members_view(o@)),
                    forall|j: int|
                        0 <= j < i ==> nested_within(
                            (#[trigger] members_view(o@)[j]).1,
                            (depth - 1) as nat,
                        ),
                decreases o@.len() - i,
            {
                if !nests_within(&o[i].1, depth - 1) {
                    proof {
                        let member = members_view(o@)[i as int];
                        assert(member.1 == o@[i as int].1@);
                        assert(v@->Obj_0[i as int] == member);
                        assert(!nested_within(member.1, (depth as nat - 1) as nat));
                    }
                    return false;
                }
                i = i + 1;
            }
            true
        },
        _ => true,
    }
}

/// Parses the bytes of one JSON value.
pub fn parse_json_bytes(data: &[u8]) -> (r: Option<Json>)
    ensures
        match r {
            Some(j) => json_bytes(data@) == Some(j@),
            None => json_bytes(data@) is None,
        },
{
    match value_from_bytes(data) {
        Some(v) => Some(from_value(&v)),
        None => None,
    }
}

/// Parses one JSON value.
pub fn parse_json(text: &str) -> (r: Option<Json>)
    ensures
        match r {
            Some(j) => json_text(text@) == Some(j@) && member_texts_below(j@, text@.len()),
            None => json_text(text@) is None,
        },
{
    match value_from_text(text) {
        Some(v) => Some(from_value(&v)),
        None => None,
    }
}

// -- Members of built objects --

/// An object without members has none.
pub broadcast proof fn lemma_no_member(name: Seq<char>)
    ensures
        #[trigger] get_of(FieldsV::new().obj(), name) is None,
{
}

proof fn lemma_lookup_pushed(o: Seq<(Seq<char>, JsonV)>, m: (Seq<char>, JsonV), name: Seq<char>)
    ensures
        lookup(o.push(m), name) == match lookup(o, name) {
            Some(v) => Some(v),
            None => if m.0 == name {
                Some(m.1)
            } else {
                None
            },
        },
    decreases o.len(),
{
    let p = o.push(m);
    reveal_with_fuel(lookup, 2);
    if o.len() == 0 {
        assert(p.skip(1) =~= Seq::empty());
    } else {
        assert(p[0] == o[0]);
        assert(p.skip(1) =~= o.skip(1).push(m));
        lemma_lookup_pushed(o.skip(1), m, name);
    }
}

/// What is put into an object is found under its name, unless something was there
/// before.
pub broadcast proof fn lemma_put_member(f: FieldsV, put: Seq<char>, value: JsonV, name: Seq<char>)
    ensures
        #[trigger] get_of(f.put(put, value).obj(), name) == match get_of(f.obj(), name) {
            Some(v) => Some(v),
            None => if put == name {
                Some(value)
            } else {
                None
            },
        },
{
    lemma_lookup_pushed(f.members, (put, value), name);
}

/// How the members of a built object are found.
pub broadcast group group_members {
    lemma_no_member,
    lemma_put_member,
}

// -- What is looked up --

/// The texts of a list are those of its items, in their order, and a list that holds
/// anything else is none of texts.
pub proof fn law_texts_by_place(a: Seq<JsonV>)
    ensures
        text_list(a) matches Some(l) ==> l.len() == a.len() && forall|i: int|
            0 <= i < a.len() ==> #[trigger] a[i] == JsonV::Str(l[i]),
        text_list(a) is None ==> exists|i: int| 0 <= i < a.len() && !(#[trigger] a[i] is Str),
    decreases a.len(),
{
    if a.len() > 0 {
        let t = a.drop_last();
        law_texts_by_place(t);
        if let Some(l) = text_list(a) {
            assert forall|i: int| 0 <= i < a.len() implies #[trigger] a[i] == JsonV::Str(l[i]) by {
                if i < a.len() - 1 {
                    assert(t[i] == a[i]);
                }
            }
        } else if text_list(t) is None {
            let i = choose|i: int| 0 <= i < t.len() && !(#[trigger] t[i] is Str);
            assert(a[i] == t[i]);
        } else {
            assert(!(a[a.len() - 1] is Str));
        }
    }
}

/// A member that is left out is false or empty; one of another form is refused.
pub proof fn law_members_left_out(b: bool, s: Seq<char>)
    ensures
        bool_default(None) == Some(false),
        bool_default(Some(JsonV::Bool(b))) == Some(b),
        bool_default(Some(JsonV::Str(s))) is None,
        bool_default(Some(JsonV::Null)) is None,
        texts_default(None) == Some(Seq::<Seq<char>>::empty()),
        texts_default(Some(JsonV::Null)) is None,
        texts_default(Some(JsonV::Str(s))) is None,
{
}

/// A number can be read as what it is, and is written in digits.
pub proof fn law_number_is_itself(n: int)
    requires
        0 <= n <= u64::MAX,
    ensures
        u64_of(Some(num_v(n))) == Some(n as u64),
        num_v(n) matches JsonV::Num(x) && x.text == text::decimal(n as nat) && (n <= i64::MAX
            ==> x.signed == Some(n as i64)) && (n > i64::MAX ==> x.signed is None),
        str_of(Some(num_v(n))) is None,
{
}

/// A member is found under its own name, through as many objects as there are names; a
/// value that is no object has none.
pub proof fn law_members_are_found_by_name(
    f: FieldsV,
    a: Seq<char>,
    b: Seq<char>,
    value: JsonV,
    other: Seq<char>,
)
    requires
        get_of(f.obj(), a) is None,
        other != a,
    ensures
        get_of(f.put(a, value).obj(), a) == Some(value),
        get_of(f.put(a, value).obj(), other) == get_of(f.obj(), other),
        get2_of(f.put(a, FieldsV::new().put(b, value).obj()).obj(), a, b) == Some(value),
        get_of(JsonV::Null, a) is None && get_of(JsonV::Arr(Seq::empty()), a) is None,
        str_of(get_of(f.text(a, b).obj(), a)) == Some(b),
        get_of(f.flag(a, true).obj(), a) == Some(JsonV::Bool(true)),
{
    broadcast use group_members;

}

/// A record may be an object, or a list of as many values as it has members.
pub proof fn law_records_have_two_forms(o: Seq<(Seq<char>, JsonV)>, a: Seq<JsonV>, name: Seq<char>,
    pos: int, min: int, n: int)
    ensures
        member_of(JsonV::Obj(o), name, pos) == get_of(JsonV::Obj(o), name),
        0 <= pos < a.len() ==> member_of(JsonV::Arr(a), name, pos) == Some(a[pos]),
        pos >= a.len() ==> member_of(JsonV::Arr(a), name, pos) is None,
        record_form(JsonV::Obj(o), min, n),
        record_form(JsonV::Arr(a), min, n) <==> min <= a.len() <= n,
        !record_form(JsonV::Null, min, n),
{
}

} // verus!
