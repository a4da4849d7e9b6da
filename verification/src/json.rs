//! JSON values as the library reads and builds them.
use serde_json::Value;
use vstd::prelude::*;

use crate::text::{decimal, decimal_int, opt_text, same, show_i64, show_u64, starts, texts};

verus! {

/// A JSON value. A number is kept as its text; an object keeps its members in
/// the order in which they were added.
#[derive(Debug, PartialEq, Eq)]
pub enum Json {
    Null,
    Bool(bool),
    Number(String),
    Str(String),
    Array(Vec<Json>),
    Object(Vec<(String, Json)>),
}

/// What a [`Json`] holds.
#[verifier::ext_equal]
pub ghost enum JsonView {
    Null,
    Bool(bool),
    Number(Seq<char>),
    Str(Seq<char>),
    Array(Seq<JsonView>),
    Object(Seq<(Seq<char>, JsonView)>),
}

/// What a [`Json`] holds.
pub open spec fn json_view(j: Json) -> JsonView
    decreases j,
{
    match j {
        Json::Null => JsonView::Null,
        Json::Bool(b) => JsonView::Bool(b),
        Json::Number(n) => JsonView::Number(n@),
        Json::Str(s) => JsonView::Str(s@),
        Json::Array(v) => JsonView::Array(
            Seq::new(
                v@.len(),
                |i: int|
                    if 0 <= i < v@.len() {
                        json_view(v@[i])
                    } else {
                        JsonView::Null
                    },
            ),
        ),
        Json::Object(v) => JsonView::Object(
            Seq::new(
                v@.len(),
                |i: int|
                    if 0 <= i < v@.len() {
                        (v@[i].0@, json_view(v@[i].1))
                    } else {
                        (Seq::<char>::empty(), JsonView::Null)
                    },
            ),
        ),
    }
}

impl View for Json {
    type V = JsonView;

    open spec fn view(&self) -> JsonView {
        json_view(*self)
    }
}

/// The values that a list of JSON values holds.
pub open spec fn views(v: Seq<Json>) -> Seq<JsonView> {
    Seq::new(v.len(), |i: int| v[i]@)
}

/// The members that a list of pairs holds.
pub open spec fn members(v: Seq<(String, Json)>) -> Seq<(Seq<char>, JsonView)> {
    Seq::new(v.len(), |i: int| (v[i].0@, v[i].1@))
}

/// The view of an optional JSON value.
pub open spec fn opt_json(o: Option<Json>) -> Option<JsonView> {
    match o {
        Some(j) => Some(j@),
        None => None,
    }
}

pub proof fn lemma_array_view(v: Vec<Json>)
    ensures
        Json::Array(v)@ == JsonView::Array(views(v@)),
{
    assert(Json::Array(v)@->Array_0 =~= views(v@));
}

pub proof fn lemma_object_view(v: Vec<(String, Json)>)
    ensures
        Json::Object(v)@ == JsonView::Object(members(v@)),
{
    assert(Json::Object(v)@->Object_0 =~= members(v@));
}

/// The text of a JSON string.
pub open spec fn jstr(s: Seq<char>) -> JsonView {
    JsonView::Str(s)
}

/// A JSON number for a natural number.
pub open spec fn jnat(n: nat) -> JsonView {
    JsonView::Number(decimal(n))
}

/// A JSON number for an integer.
pub open spec fn jint(n: int) -> JsonView {
    JsonView::Number(decimal_int(n))
}

/// A JSON string, or null.
pub open spec fn jopt_str(s: Option<Seq<char>>) -> JsonView {
    match s {
        Some(t) => jstr(t),
        None => JsonView::Null,
    }
}

/// A JSON number, or null.
pub open spec fn jopt_int(n: Option<i64>) -> JsonView {
    match n {
        Some(k) => jint(k as int),
        None => JsonView::Null,
    }
}

/// A JSON array of strings.
pub open spec fn jstrs(v: Seq<Seq<char>>) -> JsonView {
    JsonView::Array(v.map_values(|s: Seq<char>| jstr(s)))
}

/// A JSON array of strings, or null.
pub open spec fn jopt_strs(v: Option<Vec<String>>) -> JsonView {
    match v {
        Some(l) => jstrs(texts(l@)),
        None => JsonView::Null,
    }
}

/// An object without members.
pub open spec fn jempty() -> JsonView {
    JsonView::Object(Seq::empty())
}

impl JsonView {
    /// The object with one member more, at the end.
    pub open spec fn with(self, key: Seq<char>, v: JsonView) -> JsonView {
        JsonView::Object(self->Object_0.push((key, v)))
    }
}

/// The value of the first member named `key`, from position `from` on.
pub open spec fn find_member(
    m: Seq<(Seq<char>, JsonView)>,
    key: Seq<char>,
    from: int,
) -> Option<JsonView>
    decreases m.len() - from,
{
    if from < 0 || from >= m.len() {
        None
    } else if m[from].0 == key {
        Some(m[from].1)
    } else {
        find_member(m, key, from + 1)
    }
}

/// The member `key` of an object; nothing for any other value.
pub open spec fn member(j: JsonView, key: Seq<char>) -> Option<JsonView> {
    match j {
        JsonView::Object(m) => find_member(m, key, 0),
        _ => None,
    }
}

proof fn lemma_find_push(
    m: Seq<(Seq<char>, JsonView)>,
    kv: (Seq<char>, JsonView),
    key: Seq<char>,
    from: int,
)
    requires
        0 <= from <= m.len(),
    ensures
        find_member(m.push(kv), key, from) == (match find_member(m, key, from) {
            Some(v) => Some(v),
            None => if kv.0 == key {
                Some(kv.1)
            } else {
                None
            },
        }),
    decreases m.len() - from,
{
    let p = m.push(kv);
    if from < m.len() {
        assert(p[from] == m[from]);
        if m[from].0 != key {
            lemma_find_push(m, kv, key, from + 1);
        }
    } else {
        assert(p[from] == kv);
        assert(find_member(p, key, from + 1) is None);
    }
}

/// A member added at the end is found where no earlier one has its name.
pub broadcast proof fn lemma_member_with(j: JsonView, k: Seq<char>, v: JsonView, key: Seq<char>)
    requires
        j is Object,
    ensures
        #[trigger] member(j.with(k, v), key) == (match member(j, key) {
            Some(x) => Some(x),
            None => if k == key {
                Some(v)
            } else {
                None
            },
        }),
{
    lemma_find_push(j->Object_0, (k, v), key, 0);
}

impl Json {
    /// A string.
    pub fn text(s: &str) -> (r: Json)
        ensures
            r@ == jstr(s@),
    {
        Json::Str(s.to_owned())
    }

    /// A natural number.
    pub fn count(n: u64) -> (r: Json)
        ensures
            r@ == jnat(n as nat),
    {
        Json::Number(show_u64(n))
    }

    /// An integer.
    pub fn integer(n: i64) -> (r: Json)
        ensures
            r@ == jint(n as int),
    {
        Json::Number(show_i64(n))
    }

    /// A string, or null.
    pub fn opt_text(s: &Option<String>) -> (r: Json)
        ensures
            r@ == jopt_str(opt_text(*s)),
    {
        match s {
            Some(t) => Json::text(t),
            None => Json::Null,
        }
    }

    /// An integer, or null.
    pub fn opt_int(n: Option<i64>) -> (r: Json)
        ensures
            r@ == jopt_int(n),
    {
        match n {
            Some(k) => Json::integer(k),
            None => Json::Null,
        }
    }

    /// An array of strings.
    pub fn texts(v: &Vec<String>) -> (r: Json)
        ensures
            r@ == jstrs(texts(v@)),
    {
        let mut out: Vec<Json> = Vec::new();
        let mut i: usize = 0;
        while i < v.len()
            invariant
                i <= v@.len(),
                out@.len() == i,
                forall|k: int| 0 <= k < i ==> (#[trigger] out@[k])@ == jstr(v@[k]@),
            decreases v.len() - i,
        {
            out.push(Json::text(v[i].as_str()));
            i = i + 1;
        }
        proof {
            lemma_array_view(out);
            assert(views(out@) =~= texts(v@).map_values(|s: Seq<char>| jstr(s)));
        }
        Json::Array(out)
    }

    /// An array of strings, or null.
    pub fn opt_texts(v: &Option<Vec<String>>) -> (r: Json)
        ensures
            r@ == jopt_strs(*v),
    {
        match v {
            Some(l) => Json::texts(l),
            None => Json::Null,
        }
    }

    /// An array of the given values.
    pub fn array(v: Vec<Json>) -> (r: Json)
        ensures
            r@ == JsonView::Array(views(v@)),
    {
        proof {
            lemma_array_view(v);
        }
        Json::Array(v)
    }

    /// An object without members.
    pub fn object() -> (r: Json)
        ensures
            r@ == jempty(),
            r is Object,
    {
        let v: Vec<(String, Json)> = Vec::new();
        proof {
            lemma_object_view(v);
            assert(members(v@) =~= Seq::empty());
        }
        Json::Object(v)
    }

    /// The object with one member more.
    pub fn with(self, key: &str, value: Json) -> (r: Json)
        requires
            self is Object,
        ensures
            r@ == self@.with(key@, value@),
            r is Object,
    {
        match self {
            Json::Object(v0) => {
                let mut v = v0;
                proof {
                    lemma_object_view(v);
                }
                let ghost before = v@;
                let k: String = key.to_owned();
                v.push((k, value));
                proof {
                    lemma_object_view(v);
                    assert(members(v@) =~= members(before).push((key@, value@)));
                }
                Json::Object(v)
            },
            other => other,
        }
    }

    /// The member `key` of an object.
    pub fn get(&self, key: &str) -> (r: Option<&Json>)
        ensures
            match r {
                Some(v) => member(self@, key@) == Some(v@),
                None => member(self@, key@) is None,
            },
    {
        match self {
            Json::Object(v) => {
                proof {
                    lemma_object_view(*v);
                }
                let mut i: usize = 0;
                while i < v.len()
                    invariant
                        i <= v@.len(),
                        member(self@, key@) == find_member(members(v@), key@, i as int),
                    decreases v.len() - i,
                {
                    assert(members(v@)[i as int] == (v@[i as int].0@, v@[i as int].1@));
                    if same(v[i].0.as_str(), key) {
                        return Some(&v[i].1);
                    }
                    i = i + 1;
                }
                None
            },
            _ => None,
        }
    }

    /// The text of a string.
    pub fn as_text(&self) -> (r: Option<&str>)
        ensures
            match r {
                Some(s) => self@ == jstr(s@),
                None => !(self@ is Str),
            },
    {
        match self {
            Json::Str(s) => Some(s.as_str()),
            _ => None,
        }
    }

    /// A value equal to this one.
    pub fn copy(&self) -> (r: Json)
        ensures
            r@ == self@,
        decreases self,
    {
        match self {
            Json::Null => Json::Null,
            Json::Bool(b) => Json::Bool(*b),
            Json::Number(n) => Json::Number(n.clone()),
            Json::Str(s) => Json::Str(s.clone()),
            Json::Array(v) => {
                let mut out: Vec<Json> = Vec::new();
                let mut i: usize = 0;
                while i < v.len()
                    invariant
                        i <= v@.len(),
                        out@.len() == i,
                        self == Json::Array(*v),
                        forall|k: int| 0 <= k < i ==> (#[trigger] out@[k])@ == v@[k]@,
                    decreases v.len() - i,
                {
                    assert(decreases_to!(*self => self->Array_0));
                    assert(decreases_to!(*v => v@));
                    assert(decreases_to!(v@ => v@[i as int]));
                    out.push(v[i].copy());
                    i = i + 1;
                }
                proof {
                    lemma_array_view(out);
                    lemma_array_view(*v);
                    assert(views(out@) =~= views(v@));
                }
                Json::Array(out)
            },
            Json::Object(v) => {
                let mut out: Vec<(String, Json)> = Vec::new();
                let mut i: usize = 0;
                while i < v.len()
                    invariant
                        i <= v@.len(),
                        out@.len() == i,
                        self == Json::Object(*v),
                        forall|k: int|
                            0 <= k < i ==> (#[trigger] out@[k]).0@ == v@[k].0@ && out@[k].1@
                                == v@[k].1@,
                    decreases v.len() - i,
                {
                    assert(decreases_to!(*self => self->Object_0));
                    assert(decreases_to!(*v => v@));
                    assert(decreases_to!(v@ => v@[i as int]));
                    assert(decreases_to!(v@[i as int] => v@[i as int].1));
                    let k: String = v[i].0.clone();
                    out.push((k, v[i].1.copy()));
                    i = i + 1;
                }
                proof {
                    lemma_object_view(out);
                    lemma_object_view(*v);
                    assert(members(out@) =~= members(v@));
                }
                Json::Object(out)
            },
        }
    }
}

impl Clone for Json {
    fn clone(&self) -> (r: Json)
        ensures
            r@ == self@,
    {
        self.copy()
    }
}

/// A copy of an optional value.
pub fn copy_opt(o: &Option<Json>) -> (r: Option<Json>)
    ensures
        opt_json(r) == opt_json(*o),
{
    match o {
        Some(j) => Some(j.copy()),
        None => None,
    }
}

impl JsonView {
    /// The object without its members named `key`.
    pub open spec fn without(self, key: Seq<char>) -> JsonView {
        JsonView::Object(self->Object_0.filter(|kv: (Seq<char>, JsonView)| kv.0 != key))
    }

    /// The object with its first member named `key` replaced; where there is
    /// none, one is added at the end.
    pub open spec fn set(self, key: Seq<char>, v: JsonView) -> JsonView {
        let k = member_index(self->Object_0, key, 0);
        if k < self->Object_0.len() {
            JsonView::Object(self->Object_0.update(k, (key, v)))
        } else {
            self.with(key, v)
        }
    }
}

/// The position of the first member named `key`, from position `from` on; the
/// number of members where there is none.
pub open spec fn member_index(m: Seq<(Seq<char>, JsonView)>, key: Seq<char>, from: int) -> int
    decreases m.len() - from,
{
    if from >= m.len() {
        m.len() as int
    } else if m[from].0 == key {
        from
    } else {
        member_index(m, key, from + 1)
    }
}

proof fn lemma_member_index(m: Seq<(Seq<char>, JsonView)>, key: Seq<char>, from: int)
    requires
        0 <= from <= m.len(),
    ensures
        from <= member_index(m, key, from) <= m.len(),
        find_member(m, key, from) == (if member_index(m, key, from) < m.len() {
            Some(m[member_index(m, key, from)].1)
        } else {
            None
        }),
    decreases m.len() - from,
{
    if from < m.len() && m[from].0 != key {
        lemma_member_index(m, key, from + 1);
    }
}

/// A member that was set is found under its name, and the others are as before.
pub proof fn lemma_set_then_get(j: JsonView, k: Seq<char>, v: JsonView, key: Seq<char>)
    requires
        j is Object,
    ensures
        member(j.set(k, v), key) == (if k == key {
            Some(v)
        } else {
            member(j, key)
        }),
{
    let m = j->Object_0;
    lemma_member_index(m, k, 0);
    let i = member_index(m, k, 0);
    if i < m.len() {
        lemma_index_hit(m, k, 0);
        lemma_update_find(m, i, (k, v), key, 0);
        if k == key {
            lemma_no_earlier(m, k, 0);
            lemma_find_hit(m.update(i, (k, v)), k, i, 0);
        }
    } else {
        lemma_member_with(j, k, v, key);
    }
}

proof fn lemma_index_hit(m: Seq<(Seq<char>, JsonView)>, key: Seq<char>, from: int)
    requires
        0 <= from <= m.len(),
        member_index(m, key, from) < m.len(),
    ensures
        m[member_index(m, key, from)].0 == key,
    decreases m.len() - from,
{
    if m[from].0 != key {
        lemma_index_hit(m, key, from + 1);
    }
}

proof fn lemma_no_earlier(m: Seq<(Seq<char>, JsonView)>, key: Seq<char>, from: int)
    requires
        0 <= from <= m.len(),
    ensures
        forall|k: int| from <= k < member_index(m, key, from) ==> (#[trigger] m[k]).0 != key,
    decreases m.len() - from,
{
    if from < m.len() && m[from].0 != key {
        lemma_no_earlier(m, key, from + 1);
    }
}

proof fn lemma_find_hit(m: Seq<(Seq<char>, JsonView)>, key: Seq<char>, at: int, from: int)
    requires
        0 <= from <= at < m.len(),
        m[at].0 == key,
        forall|k: int| from <= k < at ==> (#[trigger] m[k]).0 != key,
    ensures
        find_member(m, key, from) == Some(m[at].1),
    decreases at - from,
{
    if from < at {
        assert(m[from].0 != key);
        lemma_find_hit(m, key, at, from + 1);
    }
}

proof fn lemma_update_find(
    m: Seq<(Seq<char>, JsonView)>,
    i: int,
    kv: (Seq<char>, JsonView),
    key: Seq<char>,
    from: int,
)
    requires
        0 <= i < m.len(),
        0 <= from <= m.len(),
        m[i].0 == kv.0,
    ensures
        kv.0 != key ==> find_member(m.update(i, kv), key, from) == find_member(m, key, from),
    decreases m.len() - from,
{
    if from < m.len() {
        lemma_update_find(m, i, kv, key, from + 1);
    }
}

/// A removed member is gone, and the others are as before.
pub proof fn lemma_without_then_get(j: JsonView, k: Seq<char>, key: Seq<char>)
    requires
        j is Object,
    ensures
        member(j.without(k), key) == (if k == key {
            None
        } else {
            member(j, key)
        }),
    decreases j->Object_0.len(),
{
    let m = j->Object_0;
    let p = |kv: (Seq<char>, JsonView)| kv.0 != k;
    reveal(Seq::filter);
    if m.len() > 0 {
        let head = JsonView::Object(m.drop_last());
        let last = m.last();
        lemma_without_then_get(head, k, key);
        assert(m.drop_last().push(last) =~= m);
        lemma_member_with(head, last.0, last.1, key);
        assert(head.with(last.0, last.1) == j);
        if p(last) {
            assert(m.filter(p) == m.drop_last().filter(p).push(last));
            lemma_member_with(head.without(k), last.0, last.1, key);
            assert(head.without(k).with(last.0, last.1) == j.without(k));
        } else {
            assert(m.filter(p) == m.drop_last().filter(p));
        }
    } else {
        assert(m.filter(p) =~= m);
    }
}

impl Json {
    /// The object without its members named `key`.
    pub fn without(self, key: &str) -> (r: Json)
        requires
            self is Object,
        ensures
            r@ == self@.without(key@),
            r is Object,
    {
        match self {
            Json::Object(v) => {
                let mut out: Vec<(String, Json)> = Vec::new();
                let mut i: usize = 0;
                proof {
                    lemma_object_view(v);
                }
                let ghost p = |kv: (Seq<char>, JsonView)| kv.0 != key@;
                reveal(Seq::filter);
                assert(members(v@).take(0).filter(p) =~= members(out@));
                while i < v.len()
                    invariant
                        i <= v@.len(),
                        p == (|kv: (Seq<char>, JsonView)| kv.0 != key@),
                        members(out@) == members(v@).take(i as int).filter(p),
                    decreases v.len() - i,
                {
                    let ghost next = members(v@).take(i + 1);
                    let ghost before = out@;
                    assert(next.drop_last() =~= members(v@).take(i as int));
                    assert(next.last() == (v@[i as int].0@, v@[i as int].1@));
                    reveal(Seq::filter);
                    if !same(v[i].0.as_str(), key) {
                        let k: String = v[i].0.clone();
                        let val = v[i].1.copy();
                        out.push((k, val));
                        assert(members(out@) =~= members(before).push(next.last()));
                    }
                    i = i + 1;
                }
                proof {
                    assert(members(v@).take(v@.len() as int) =~= members(v@));
                    lemma_object_view(out);
                }
                Json::Object(out)
            },
            other => other,
        }
    }

    /// The object with its first member named `key` replaced; where there is
    /// none, one is added at the end.
    pub fn set(self, key: &str, value: Json) -> (r: Json)
        requires
            self is Object,
        ensures
            r@ == self@.set(key@, value@),
            r is Object,
    {
        match self {
            Json::Object(v0) => {
                let mut v = v0;
                proof {
                    lemma_object_view(v);
                }
                let ghost m = members(v@);
                let mut i: usize = 0;
                while i < v.len() && !same(v[i].0.as_str(), key)
                    invariant
                        i <= v@.len(),
                        m == members(v@),
                        member_index(m, key@, 0) == member_index(m, key@, i as int),
                    decreases v.len() - i,
                {
                    i = i + 1;
                }
                let k: String = key.to_owned();
                if i < v.len() {
                    assert(m[i as int].0 == key@);
                    v.set(i, (k, value));
                    proof {
                        lemma_object_view(v);
                        assert(members(v@) =~= m.update(i as int, (key@, value@)));
                    }
                } else {
                    v.push((k, value));
                    proof {
                        lemma_object_view(v);
                        assert(members(v@) =~= m.push((key@, value@)));
                    }
                }
                Json::Object(v)
            },
            other => other,
        }
    }
}

/// The `serde_json::Value` that `serde_json` parsed.
#[verifier::external_type_specification]
#[verifier::external_body]
pub struct ExValue(serde_json::Value);

/// A `serde_json::Value` rebuilt as a [`Json`], variant for variant. A number
/// becomes the text that its `Display` writes.
#[verifier::external_body]
fn from_value(v: Value) -> Json {
    match v {
        Value::Null => Json::Null,
        Value::Bool(b) => Json::Bool(b),
        Value::Number(n) => Json::Number(n.to_string()),
        Value::String(s) => Json::Str(s),
        Value::Array(a) => Json::Array(a.into_iter().map(from_value).collect()),
        Value::Object(m) => Json::Object(m.into_iter().map(|(k, v)| (k, from_value(v))).collect()),
    }
}

/// A [`Json`] rebuilt as a `serde_json::Value`, variant for variant. A number
/// whose text is no JSON number becomes a string.
#[verifier::external_body]
fn to_value(j: &Json) -> Value {
    match j {
        Json::Null => Value::Null,
        Json::Bool(b) => Value::Bool(*b),
        Json::Number(n) => n.parse().map_or_else(|_| Value::String(n.clone()), Value::Number),
        Json::Str(s) => Value::String(s.clone()),
        Json::Array(a) => Value::Array(a.iter().map(to_value).collect()),
        Json::Object(m) => Value::Object(m.iter().map(|(k, v)| (k.clone(), to_value(v))).collect()),
    }
}

/// The JSON value that a text encodes, or the message that says why it encodes
/// none.
pub uninterp spec fn parsed_json(bytes: Seq<u8>) -> Result<JsonView, Seq<char>>;

/// The compact text of a JSON value.
pub uninterp spec fn json_text(j: JsonView) -> Seq<char>;

/// The indented text of a JSON value.
pub uninterp spec fn json_pretty(j: JsonView) -> Seq<char>;

/// The tree that a YAML text writes, or the message that says why it writes
/// none.
pub uninterp spec fn parsed_yaml(text: Seq<char>) -> Result<JsonView, Seq<char>>;

/// The YAML text of a value.
pub uninterp spec fn yaml_text(j: JsonView) -> Seq<char>;

/// Whether no two members have one name.
pub open spec fn distinct_names(m: Seq<(Seq<char>, JsonView)>) -> bool {
    forall|i: int, k: int| 0 <= i < k < m.len() ==> (#[trigger] m[i]).0 != (#[trigger] m[k]).0
}

/// Whether a number is written as an integer of 64 bits.
pub open spec fn is_integer(n: Seq<char>) -> bool {
    exists|k: int| i64::MIN <= k <= u64::MAX && n == #[trigger] decimal_int(k)
}

/// Whether a name is one that `serde_json` keeps for itself: an object with such a
/// member is read as something else.
pub open spec fn is_private(name: Seq<char>) -> bool {
    starts(name, "$serde_json::private::"@)
}

/// Whether none of the members has a name that `serde_json` keeps for itself.
pub open spec fn plain_names(m: Seq<(Seq<char>, JsonView)>) -> bool {
    forall|i: int| 0 <= i < m.len() ==> !is_private((#[trigger] m[i]).0)
}

/// A name that begins with another character than a dollar sign is not private.
pub proof fn lemma_not_private(name: Seq<char>)
    requires
        name.len() > 0,
        name[0] != '$',
    ensures
        !is_private(name),
{
    reveal_strlit("$serde_json::private::");
    let p = "$serde_json::private::"@;
    assert(p[0] == '$');
    if starts(name, p) {
        assert(name.take(p.len() as int)[0] == name[0]);
    }
}

/// Whether a value can be written as a text and read back: its numbers are
/// integers of 64 bits, no object has two members of one name or one whose name is
/// private, and arrays and objects are nested at most `depth` deep.
pub open spec fn readable(j: JsonView, depth: nat) -> bool
    decreases j,
{
    match j {
        JsonView::Number(n) => is_integer(n),
        JsonView::Array(v) => depth > 0 && forall|i: int|
            0 <= i < v.len() ==> readable(#[trigger] v[i], (depth - 1) as nat),
        JsonView::Object(m) => depth > 0 && distinct_names(m) && plain_names(m) && forall|i: int|
            0 <= i < m.len() ==> readable((#[trigger] m[i]).1, (depth - 1) as nat),
        _ => true,
    }
}

/// Whether two values are the same, whatever the order of the members of objects.
pub open spec fn alike(a: JsonView, b: JsonView) -> bool
    decreases a, 0nat,
{
    match (a, b) {
        (JsonView::Array(x), JsonView::Array(y)) => x.len() == y.len() && forall|i: int|
            0 <= i < x.len() ==> alike(#[trigger] x[i], y[i]),
        (JsonView::Object(x), JsonView::Object(y)) => {
            &&& distinct_names(y)
            &&& forall|i: int| 0 <= i < x.len() ==> has_alike((#[trigger] x[i]).0, x[i].1, y)
            &&& forall|k: int| 0 <= k < y.len() ==> has_name(x, (#[trigger] y[k]).0)
        },
        _ => a == b,
    }
}

/// Whether one of the members has the given name and a value like the given one.
pub open spec fn has_alike(name: Seq<char>, v: JsonView, m: Seq<(Seq<char>, JsonView)>) -> bool
    decreases v, 1nat,
{
    exists|k: int| 0 <= k < m.len() && (#[trigger] m[k]).0 == name && alike(v, m[k].1)
}

/// Whether one of the members has the given name.
pub open spec fn has_name(m: Seq<(Seq<char>, JsonView)>, name: Seq<char>) -> bool {
    exists|i: int| 0 <= i < m.len() && (#[trigger] m[i]).0 == name
}

proof fn lemma_found_at(m: Seq<(Seq<char>, JsonView)>, name: Seq<char>, k: int)
    requires
        distinct_names(m),
        0 <= k < m.len(),
        m[k].0 == name,
    ensures
        member(JsonView::Object(m), name) == Some(m[k].1),
{
    assert forall|i: int| 0 <= i < k implies (#[trigger] m[i]).0 != name by {
        assert(m[i].0 != m[k].0);
    }
    lemma_find_hit(m, name, k, 0);
}

/// Whether a value is no object, and an array of strings where it is an array.
pub open spec fn flat(v: JsonView) -> bool {
    match v {
        JsonView::Object(_) => false,
        JsonView::Array(a) => forall|i: int| 0 <= i < a.len() ==> (#[trigger] a[i]) is Str,
        _ => true,
    }
}

proof fn lemma_alike_flat(a: JsonView, b: JsonView)
    requires
        flat(a),
        alike(a, b),
    ensures
        a == b,
{
    if let JsonView::Array(x) = a {
        let y = b->Array_0;
        assert forall|i: int| 0 <= i < x.len() implies x[i] == y[i] by {
            assert(x[i] is Str);
            assert(alike(x[i], y[i]));
        }
        assert(x =~= y);
    }
}

/// An object whose values are flat has the same members as one that is like it.
pub proof fn lemma_alike_members(a: JsonView, b: JsonView)
    requires
        a is Object,
        distinct_names(a->Object_0),
        forall|i: int| 0 <= i < a->Object_0.len() ==> flat((#[trigger] a->Object_0[i]).1),
        alike(a, b),
    ensures
        b is Object,
        forall|name: Seq<char>| #[trigger] member(b, name) == member(a, name),
        forall|k: int|
            0 <= k < b->Object_0.len() ==> has_name(a->Object_0, (#[trigger] b->Object_0[k]).0),
{
    let (x, y) = (a->Object_0, b->Object_0);
    assert forall|name: Seq<char>| #[trigger] member(b, name) == member(a, name) by {
        lemma_member_index(x, name, 0);
        lemma_member_index(y, name, 0);
        let i = member_index(x, name, 0);
        let k = member_index(y, name, 0);
        if i < x.len() {
            lemma_index_hit(x, name, 0);
            assert(has_alike(x[i].0, x[i].1, y));
            let at = choose|n: int|
                0 <= n < y.len() && (#[trigger] y[n]).0 == x[i].0 && alike(x[i].1, y[n].1);
            lemma_found_at(y, name, at);
            lemma_alike_flat(x[i].1, y[at].1);
        } else if k < y.len() {
            lemma_index_hit(y, name, 0);
            assert(has_name(x, y[k].0));
            let at = choose|n: int| 0 <= n < x.len() && (#[trigger] x[n]).0 == y[k].0;
            lemma_found_at(x, name, at);
        }
    }
}

/// A member with a new name and a readable value can be added.
pub broadcast proof fn lemma_readable_with(j: JsonView, name: Seq<char>, v: JsonView, depth: nat)
    requires
        j is Object,
        readable(j, depth),
        depth > 0,
        readable(v, (depth - 1) as nat),
        member(j, name) is None,
        !is_private(name),
    ensures
        #[trigger] readable(j.with(name, v), depth),
{
    let m = j->Object_0;
    let n = m.push((name, v));
    lemma_member_index(m, name, 0);
    lemma_no_earlier(m, name, 0);
    assert forall|i: int, k: int| 0 <= i < k < n.len() implies (#[trigger] n[i]).0 != (
    #[trigger] n[k]).0 by {
        assert(n[i] == m[i]);
        if k < m.len() {
            assert(n[k] == m[k]);
        }
    }
    assert forall|i: int| 0 <= i < n.len() implies !is_private((#[trigger] n[i]).0) by {
        if i < m.len() {
            assert(n[i] == m[i]);
        }
    }
    assert forall|i: int| 0 <= i < n.len() implies readable(
        (#[trigger] n[i]).1,
        (depth - 1) as nat,
    ) by {
        if i < m.len() {
            assert(n[i] == m[i]);
        }
    }
}

/// A list of texts is readable.
pub proof fn lemma_texts_are_readable(v: Seq<Seq<char>>, depth: nat)
    requires
        depth > 0,
    ensures
        readable(jstrs(v), depth),
        flat(jstrs(v)),
{
    let items = v.map_values(|s: Seq<char>| jstr(s));
    assert forall|i: int| 0 <= i < items.len() implies readable(
        #[trigger] items[i],
        (depth - 1) as nat,
    ) by {
        assert(items[i] == jstr(v[i]));
    }
}

/// `serde_yaml::from_str` parses the text into a `serde_yaml::Value`, which
/// `serde_json::to_value` rebuilds; what comes out depends on the text alone.
#[verifier::external_body]
pub(crate) fn parse_yaml(text: &str) -> (r: Result<Json, String>)
    ensures
        match r {
            Ok(j) => parsed_yaml(text@) == Ok::<JsonView, Seq<char>>(j@),
            Err(e) => parsed_yaml(text@) == Err::<JsonView, Seq<char>>(e@),
        },
{
    let tree = serde_yaml::from_str::<serde_yaml::Value>(text).map_err(|e| e.to_string())?;
    serde_json::to_value(tree).map(from_value).map_err(|e| e.to_string())
}

/// `serde_yaml::to_string` writes the value; what it writes depends on the
/// value alone. It does not fail on a `serde_json::Value`.
#[verifier::external_body]
pub(crate) fn write_yaml(j: &Json) -> (r: String)
    ensures
        r@ == yaml_text(j@),
{
    serde_yaml::to_string(&to_value(j)).unwrap_or_default()
}

/// `serde_json::from_slice` parses the bytes; what it returns depends on them
/// alone.
#[verifier::external_body]
pub(crate) fn parse(bytes: &[u8]) -> (r: Result<Json, String>)
    ensures
        match r {
            Ok(j) => parsed_json(bytes@) == Ok::<JsonView, Seq<char>>(j@),
            Err(e) => parsed_json(bytes@) == Err::<JsonView, Seq<char>>(e@),
        },
{
    serde_json::from_slice::<Value>(bytes).map(from_value).map_err(|e| e.to_string())
}

/// Whether a text is read as a value like the given one.
pub open spec fn reads_as(text: Seq<char>, j: JsonView) -> bool {
    match parsed_json(vstd::utf8::encode_utf8(text)) {
        Ok(read) => alike(j, read),
        Err(_) => false,
    }
}

/// How deep arrays and objects may be nested in a text that is parsed.
pub const NESTING_MAX: u64 = 127;

/// `serde_json::to_string` writes the value; what it writes depends on the
/// value alone. It does not fail on a `serde_json::Value`. `serde_json::from_slice`
/// reads the text back as a value like it, unless a number is no integer of 64
/// bits, an object has two members of one name or one whose name `serde_json` keeps
/// for itself, or the parser's limit on nested arrays and objects is passed.
#[verifier::external_body]
pub(crate) fn write_compact(j: &Json) -> (r: String)
    ensures
        r@ == json_text(j@),
        readable(j@, NESTING_MAX as nat) ==> reads_as(r@, j@),
{
    serde_json::to_string(&to_value(j)).unwrap_or_default()
}

/// `serde_json::to_string_pretty` writes the value; what it writes depends on
/// the value alone. It does not fail on a `serde_json::Value`.
#[verifier::external_body]
pub(crate) fn write_pretty(j: &Json) -> (r: String)
    ensures
        r@ == json_pretty(j@),
{
    serde_json::to_string_pretty(&to_value(j)).unwrap_or_default()
}

/// Whether an object has a member with the given name and value.
pub open spec fn holds(j: JsonView, key: Seq<char>, v: JsonView) -> bool {
    j is Object && j->Object_0.contains((key, v))
}

/// A member that is added to an object is there, and so are those that were there.
pub broadcast proof fn lemma_with_holds(
    j: JsonView,
    k: Seq<char>,
    x: JsonView,
    key: Seq<char>,
    v: JsonView,
)
    requires
        (key == k && v == x) || holds(j, key, v),
    ensures
        #[trigger] holds(j.with(k, x), key, v),
{
    let m = j.with(k, x)->Object_0;
    if key == k && v == x {
        assert(m[m.len() - 1] == (key, v));
    } else {
        let i = j->Object_0.index_of((key, v));
        assert(m[i] == (key, v));
    }
}

/// The member that is found is the first with the name, and there is none where no member
/// has it.
pub proof fn law_first_member_with_the_name(
    m: Seq<(Seq<char>, JsonView)>,
    key: Seq<char>,
    from: int,
)
    requires
        0 <= from <= m.len(),
    ensures
        find_member(m, key, from) is None <==> forall|k: int|
            from <= k < m.len() ==> (#[trigger] m[k]).0 != key,
        find_member(m, key, from) matches Some(v) ==> exists|k: int|
            from <= k < m.len() && #[trigger] m[k] == (key, v) && forall|h: int|
                from <= h < k ==> (#[trigger] m[h]).0 != key,
        member(JsonView::Object(m), key) == find_member(m, key, 0),
    decreases m.len() - from,
{
    if from < m.len() {
        if m[from].0 == key {
            assert(m[from] == (key, m[from].1));
        } else {
            law_first_member_with_the_name(m, key, from + 1);
            if let Some(v) = find_member(m, key, from + 1) {
                let k = choose|k: int|
                    from + 1 <= k < m.len() && #[trigger] m[k] == (key, v) && forall|h: int|
                        from + 1 <= h < k ==> (#[trigger] m[h]).0 != key;
                assert forall|h: int| from <= h < k implies (#[trigger] m[h]).0 != key by {}
            }
        }
    }
}

/// A value that may be absent is there exactly if it is, and is then what it says.
pub proof fn law_absent_is_absent(j: Json)
    ensures
        opt_json(Some(j)) == Some(j@),
        opt_json(None) is None,
{
}

} // verus!
