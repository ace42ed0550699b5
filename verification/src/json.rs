//! A JSON value model, the rules that decide which members of a JSON tree
//! carry only default values, the removal of such members, and the
//! indented rendering that leaves them out.

use vstd::prelude::*;

use crate::text;
use crate::text::{chars_eq, chars_of, extend_chars, lines_exec, string_of, views};

verus! {

/// A JSON number as the parser keeps it: a non-negative integer, a negative
/// integer, or a floating-point number kept as its decimal text.
#[derive(Debug, Clone, PartialEq, Eq)]
pub enum JsonNumber {
    PosInt(u64),
    NegInt(i64),
    Float(String),
}

/// A JSON value. Objects keep their members in order; a lookup finds the
/// first member of a name.
#[derive(Debug, PartialEq, Eq)]
pub enum JsonValue {
    Null,
    Bool(bool),
    Number(JsonNumber),
    String(String),
    Array(Vec<JsonValue>),
    Object(Vec<(String, JsonValue)>),
}

/// The mathematical model of a JSON number.
pub enum Num {
    PosInt(u64),
    NegInt(i64),
    Float(Seq<char>),
}

/// The mathematical model of a JSON value.
pub enum Json {
    Null,
    Bool(bool),
    Number(Num),
    String(Seq<char>),
    Array(Seq<Json>),
    Object(Seq<(Seq<char>, Json)>),
}

impl View for JsonNumber {
    type V = Num;

    open spec fn view(&self) -> Num {
        match self {
            JsonNumber::PosInt(n) => Num::PosInt(*n),
            JsonNumber::NegInt(n) => Num::NegInt(*n),
            JsonNumber::Float(t) => Num::Float(t@),
        }
    }
}

impl View for JsonValue {
    type V = Json;

    open spec fn view(&self) -> Json
        decreases self,
    {
        match self {
            JsonValue::Null => Json::Null,
            JsonValue::Bool(b) => Json::Bool(*b),
            JsonValue::Number(n) => Json::Number(n@),
            JsonValue::String(s) => Json::String(s@),
            JsonValue::Array(a) => Json::Array(json_views(a@)),
            JsonValue::Object(f) => Json::Object(member_views(f@)),
        }
    }
}

/// The models of a sequence of values.
pub open spec fn json_views(s: Seq<JsonValue>) -> Seq<Json>
    decreases s,
{
    if s.len() == 0 {
        Seq::<Json>::empty()
    } else {
        json_views(s.drop_last()).push(s.last()@)
    }
}

/// The models of a sequence of object members.
pub open spec fn member_views(s: Seq<(String, JsonValue)>) -> Seq<(Seq<char>, Json)>
    decreases s,
{
    if s.len() == 0 {
        Seq::<(Seq<char>, Json)>::empty()
    } else {
        member_views(s.drop_last()).push((s.last().0@, s.last().1@))
    }
}

/// `json_views` keeps the length and maps each element to its model.
pub proof fn lemma_json_views(s: Seq<JsonValue>)
    ensures
        json_views(s).len() == s.len(),
        forall|i: int| 0 <= i < s.len() ==> #[trigger] json_views(s)[i] == s[i]@,
    decreases s.len(),
{
    if s.len() > 0 {
        lemma_json_views(s.drop_last());
        assert(json_views(s) == json_views(s.drop_last()).push(s.last()@));
        assert forall|i: int| 0 <= i < s.len() implies #[trigger] json_views(s)[i] == s[i]@ by {
            if i < s.len() - 1 {
                assert(s.drop_last()[i] == s[i]);
            }
        }
    }
}

/// `member_views` keeps the length and maps each member to its model.
pub proof fn lemma_member_views(s: Seq<(String, JsonValue)>)
    ensures
        member_views(s).len() == s.len(),
        forall|i: int|
            0 <= i < s.len() ==> #[trigger] member_views(s)[i] == (s[i].0@, s[i].1@),
    decreases s.len(),
{
    if s.len() > 0 {
        lemma_member_views(s.drop_last());
        assert(member_views(s) == member_views(s.drop_last()).push((s.last().0@, s.last().1@)));
        assert forall|i: int| 0 <= i < s.len() implies #[trigger] member_views(s)[i] == (
            s[i].0@,
            s[i].1@,
        ) by {
            if i < s.len() - 1 {
                assert(s.drop_last()[i] == s[i]);
            }
        }
    }
}

/// The value of the first member named `key`.
pub open spec fn member_lookup(m: Seq<(Seq<char>, Json)>, key: Seq<char>) -> Option<Json>
    decreases m.len(),
{
    if m.len() == 0 {
        None
    } else if m[0].0 == key {
        Some(m[0].1)
    } else {
        member_lookup(m.drop_first(), key)
    }
}

/// `v[key]`: the value of member `key` of an object, and `null` when `v`
/// is no object or has no such member.
pub open spec fn json_index(v: Json, key: Seq<char>) -> Json {
    match v {
        Json::Object(m) => match member_lookup(m, key) {
            Some(x) => x,
            None => Json::Null,
        },
        _ => Json::Null,
    }
}

/// The length of the mantissa of a decimal number text: the characters
/// before the first exponent marker.
pub open spec fn mantissa_len(t: Seq<char>) -> nat
    decreases t.len(),
{
    if t.len() == 0 || t[0] == 'e' || t[0] == 'E' {
        0
    } else {
        1 + mantissa_len(t.drop_first())
    }
}

/// Whether a decimal number text denotes zero: every digit of its mantissa
/// is `'0'`.
pub open spec fn float_text_is_zero(t: Seq<char>) -> bool {
    forall|i: int| 0 <= i < mantissa_len(t) ==> (text::is_digit(#[trigger] t[i]) ==> t[i] == '0')
}

/// Whether a number is zero.
pub open spec fn num_is_zero(n: Num) -> bool {
    match n {
        Num::PosInt(u) => u == 0,
        Num::NegInt(i) => i == 0,
        Num::Float(t) => float_text_is_zero(t),
    }
}

/// Whether a value carries only defaults: `null`, `false`, zero, the empty
/// string, the empty array, or an object whose members all carry only
/// defaults.
pub open spec fn json_is_default(v: Json) -> bool
    decreases v,
{
    match v {
        Json::Null => true,
        Json::Bool(b) => !b,
        Json::Number(n) => num_is_zero(n),
        Json::String(s) => s.len() == 0,
        Json::Array(a) => a.len() == 0,
        Json::Object(m) => members_default(m),
    }
}

/// Whether every member carries only defaults.
pub open spec fn members_default(m: Seq<(Seq<char>, Json)>) -> bool
    decreases m,
{
    if m.len() == 0 {
        true
    } else {
        members_default(m.drop_last()) && json_is_default(m.last().1)
    }
}

/// The value with every object member that carries only defaults removed,
/// at every depth; arrays keep all their elements.
pub open spec fn strip_defaults(v: Json) -> Json
    decreases v,
{
    match v {
        Json::Array(a) => Json::Array(strip_elems(a)),
        Json::Object(m) => Json::Object(strip_members(m)),
        _ => v,
    }
}

/// Every element with its defaults removed.
pub open spec fn strip_elems(a: Seq<Json>) -> Seq<Json>
    decreases a,
{
    if a.len() == 0 {
        Seq::<Json>::empty()
    } else {
        strip_elems(a.drop_last()).push(strip_defaults(a.last()))
    }
}

/// The members that carry something besides defaults, each with its
/// defaults removed, in order.
pub open spec fn strip_members(m: Seq<(Seq<char>, Json)>) -> Seq<(Seq<char>, Json)>
    decreases m,
{
    if m.len() == 0 {
        Seq::<(Seq<char>, Json)>::empty()
    } else if json_is_default(m.last().1) {
        strip_members(m.drop_last())
    } else {
        strip_members(m.drop_last()).push((m.last().0, strip_defaults(m.last().1)))
    }
}

/// The text of the items joined by `",\n"`.
pub open spec fn join_items(items: Seq<Seq<char>>) -> Seq<char>
    decreases items.len(),
{
    if items.len() == 0 {
        Seq::<char>::empty()
    } else if items.len() == 1 {
        items[0]
    } else {
        join_items(items.drop_last()) + seq![',', '\n'] + items.last()
    }
}

/// Every line of `s` with one space before it and a line feed after it.
pub open spec fn indent_lines(ls: Seq<Seq<char>>) -> Seq<char>
    decreases ls.len(),
{
    if ls.len() == 0 {
        Seq::<char>::empty()
    } else {
        indent_lines(ls.drop_last()) + seq![' '] + ls.last() + seq!['\n']
    }
}

/// The lines of `s`, each indented by one space and ended by a line feed.
pub open spec fn add_tab_spec(s: Seq<char>) -> Seq<char> {
    indent_lines(text::lines(s))
}

/// The compact JSON text of a value, as `serde_json` writes it.
pub uninterp spec fn spec_json_compact(v: Json) -> Seq<char>;

/// The indented JSON text of a value, as `serde_json::to_string_pretty`
/// writes it.
pub uninterp spec fn spec_json_pretty(v: Json) -> Seq<char>;

/// What `serde_json::from_str` reads from a text: the value, or the text
/// of its error when the text is no JSON.
pub uninterp spec fn spec_json_parse(text: Seq<char>) -> Result<Json, Seq<char>>;

/// The rendering that leaves out defaults: an object opens with `"{\n"`,
/// lists its members that carry more than defaults as `"key": value`,
/// joined by `",\n"` and indented by one space, and closes with `"}"`;
/// an array does the same with all its elements between `"[\n"` and `"]"`;
/// any other value is its compact JSON text.
pub open spec fn render_ignore_default(v: Json) -> Seq<char>
    decreases v,
{
    match v {
        Json::Object(m) => seq!['{', '\n'] + add_tab_spec(join_items(member_items(m))) + seq!['}'],
        Json::Array(a) => seq!['[', '\n'] + add_tab_spec(join_items(elem_items(a))) + seq![']'],
        _ => spec_json_compact(v),
    }
}

/// The rendering of each element.
pub open spec fn elem_items(a: Seq<Json>) -> Seq<Seq<char>>
    decreases a,
{
    if a.len() == 0 {
        Seq::<Seq<char>>::empty()
    } else {
        elem_items(a.drop_last()).push(render_ignore_default(a.last()))
    }
}

/// The `"key": value` item of each member that carries more than defaults.
pub open spec fn member_items(m: Seq<(Seq<char>, Json)>) -> Seq<Seq<char>>
    decreases m,
{
    if m.len() == 0 {
        Seq::<Seq<char>>::empty()
    } else if json_is_default(m.last().1) {
        member_items(m.drop_last())
    } else {
        member_items(m.drop_last()).push(
            seq!['"'] + m.last().0 + seq!['"', ':', ' '] + render_ignore_default(m.last().1),
        )
    }
}

/// The models of an optional value.
pub open spec fn opt_view(o: Option<JsonValue>) -> Option<Json> {
    match o {
        Some(v) => Some(v@),
        None => None,
    }
}

#[verifier::external_type_specification]
#[verifier::external_body]
pub struct ExSerdeValue(serde_json::Value);

#[verifier::external_type_specification]
#[verifier::external_body]
pub struct ExSerdeNumber(serde_json::Number);

/// Converts a `serde_json::Number` into a `JsonNumber`: `PosInt` when
/// `as_u64` gives it, else `NegInt` when `as_i64` gives it, else `Float`
/// with its `Display` text.
#[verifier::external_body]
fn from_serde_number(n: serde_json::Number) -> JsonNumber {
    match (n.as_u64(), n.as_i64()) {
        (Some(u), _) => JsonNumber::PosInt(u),
        (None, Some(i)) => JsonNumber::NegInt(i),
        (None, None) => JsonNumber::Float(n.to_string()),
    }
}

/// Converts a `serde_json::Value` into a `JsonValue`, variant by variant.
#[verifier::external_body]
fn from_serde_value(v: serde_json::Value) -> JsonValue {
    match v {
        serde_json::Value::Null => JsonValue::Null,
        serde_json::Value::Bool(b) => JsonValue::Bool(b),
        serde_json::Value::Number(n) => JsonValue::Number(from_serde_number(n)),
        serde_json::Value::String(s) => JsonValue::String(s),
        serde_json::Value::Array(a) => JsonValue::Array(a.into_iter().map(from_serde_value).collect()),
        serde_json::Value::Object(m) => JsonValue::Object(m.into_iter().map(|(k, x)| (k, from_serde_value(x))).collect()),
    }
}

/// Converts a `JsonValue` into a `serde_json::Value`, variant by variant;
/// a `Float` number is read back from its text.
#[verifier::external_body]
fn to_serde_value(v: &JsonValue) -> serde_json::Value {
    match v {
        JsonValue::Null => serde_json::Value::Null,
        JsonValue::Bool(b) => serde_json::Value::Bool(*b),
        JsonValue::Number(JsonNumber::PosInt(u)) => serde_json::Value::from(*u),
        JsonValue::Number(JsonNumber::NegInt(i)) => serde_json::Value::from(*i),
        JsonValue::Number(JsonNumber::Float(t)) => serde_json::from_str(t).unwrap_or(serde_json::Value::Null),
        JsonValue::String(s) => serde_json::Value::String(s.clone()),
        JsonValue::Array(a) => serde_json::Value::Array(a.iter().map(to_serde_value).collect()),
        JsonValue::Object(m) => serde_json::Value::Object(m.iter().map(|(k, x)| (k.clone(), to_serde_value(x))).collect()),
    }
}

/// Reads a JSON text with `serde_json::from_str::<serde_json::Value>`.
/// Claimed: the result is `Ok` exactly when the text is JSON, and it, or
/// the text of the error, is a function of the text alone
/// (`spec_json_parse`).
#[verifier::external_body]
pub(crate) fn parse_json(text: &str) -> (res: Result<JsonValue, String>)
    ensures
        match res {
            Ok(v) => spec_json_parse(text@) == Ok::<Json, Seq<char>>(v@),
            Err(m) => spec_json_parse(text@) == Err::<Json, Seq<char>>(m@),
        },
{
    match serde_json::from_str::<serde_json::Value>(text) {
        Ok(v) => Ok(from_serde_value(v)),
        Err(e) => Err(e.to_string()),
    }
}

/// Writes a value with `serde_json::to_string_pretty` (two-space
/// indentation, members in key order). Claimed: the text is a function of
/// the value's model alone (`spec_json_pretty`); writing a
/// `serde_json::Value` into a `String` does not fail.
#[verifier::external_body]
pub(crate) fn json_to_string_pretty(v: &JsonValue) -> (res: String)
    ensures
        res@ == spec_json_pretty(v@),
{
    serde_json::to_string_pretty(&to_serde_value(v)).unwrap_or_default()
}

/// Writes a value with `serde_json::Value`'s `Display` (compact text).
/// Claimed: the text is a function of the value's model alone
/// (`spec_json_compact`); `null`, `true` and `false` are written as such,
/// and an integer as its decimal text.
#[verifier::external_body]
pub(crate) fn json_compact_text(v: &JsonValue) -> (res: String)
    ensures
        res@ == spec_json_compact(v@),
        v@ matches Json::Number(Num::PosInt(u)) ==> res@ == text::decimal(u as nat),
        v@ matches Json::Number(Num::NegInt(i)) ==> res@ == text::decimal_int(i as int),
        v@ is Null ==> res@ == seq!['n', 'u', 'l', 'l'],
        v@ == Json::Bool(true) ==> res@ == seq!['t', 'r', 'u', 'e'],
        v@ == Json::Bool(false) ==> res@ == seq!['f', 'a', 'l', 's', 'e'],
{
    to_serde_value(v).to_string()
}

/// A copy of a number.
pub fn clone_number(n: &JsonNumber) -> (res: JsonNumber)
    ensures
        res@ == n@,
{
    match n {
        JsonNumber::PosInt(u) => JsonNumber::PosInt(*u),
        JsonNumber::NegInt(i) => JsonNumber::NegInt(*i),
        JsonNumber::Float(t) => JsonNumber::Float(t.clone()),
    }
}

/// A copy of a value, at every depth.
pub fn clone_json(v: &JsonValue) -> (res: JsonValue)
    ensures
        res@ == v@,
    decreases v,
{
    match v {
        JsonValue::Null => JsonValue::Null,
        JsonValue::Bool(b) => JsonValue::Bool(*b),
        JsonValue::Number(n) => JsonValue::Number(clone_number(n)),
        JsonValue::String(t) => JsonValue::String(t.clone()),
        JsonValue::Array(a) => {
            let mut out: Vec<JsonValue> = Vec::new();
            let mut i: usize = 0;
            while i < a.len()
                invariant
                    *v == JsonValue::Array(*a),
                    i <= a@.len(),
                    json_views(out@) == json_views(a@.subrange(0, i as int)),
                decreases a.len() - i,
            {
                proof {
                    vstd::std_specs::vec::axiom_vec_index_decreases(*a, i as int);
                    assert(decreases_to!(*v => v->Array_0));
                }
                let x = clone_json(&a[i]);
                let ghost prev = out@;
                out.push(x);
                assert(out@.drop_last() =~= prev);
                assert(a@.subrange(0, i + 1).drop_last() =~= a@.subrange(0, i as int));
                i = i + 1;
            }
            assert(a@.subrange(0, a@.len() as int) =~= a@);
            JsonValue::Array(out)
        },
        JsonValue::Object(m) => {
            let mut out: Vec<(String, JsonValue)> = Vec::new();
            let mut i: usize = 0;
            while i < m.len()
                invariant
                    *v == JsonValue::Object(*m),
                    i <= m@.len(),
                    member_views(out@) == member_views(m@.subrange(0, i as int)),
                decreases m.len() - i,
            {
                proof {
                    vstd::std_specs::vec::axiom_vec_index_decreases(*m, i as int);
                    assert(decreases_to!(*v => v->Object_0));
                }
                let x = clone_json(&m[i].1);
                let k = m[i].0.clone();
                let ghost prev = out@;
                out.push((k, x));
                assert(out@.drop_last() =~= prev);
                assert(m@.subrange(0, i + 1).drop_last() =~= m@.subrange(0, i as int));
                i = i + 1;
            }
            assert(m@.subrange(0, m@.len() as int) =~= m@);
            JsonValue::Object(out)
        },
    }
}

/// The member `key` of an object, when `v` is an object that has one.
pub open spec fn json_member(v: Json, key: Seq<char>) -> Option<Json> {
    match v {
        Json::Object(m) => member_lookup(m, key),
        _ => None,
    }
}

/// The models of an optional reference.
pub open spec fn opt_ref_view(o: Option<&JsonValue>) -> Option<Json> {
    match o {
        Some(v) => Some(v@),
        None => None,
    }
}

/// `json_index` is `null` exactly where no member is found.
pub proof fn lemma_json_index(v: Json, key: Seq<char>)
    ensures
        json_index(v, key) == match json_member(v, key) {
            Some(x) => x,
            None => Json::Null,
        },
{
}

/// The first member named `key` of an object, when `v` is an object that
/// has one.
pub fn json_get<'a>(v: &'a JsonValue, key: &str) -> (res: Option<&'a JsonValue>)
    ensures
        opt_ref_view(res) == json_member(v@, key@),
{
    match v {
        JsonValue::Object(m) => {
            let k = chars_of(key);
            let ghost mv = member_views(m@);
            assert(v@ == Json::Object(mv));
            proof {
                lemma_member_views(m@);
                assert(mv.subrange(0, mv.len() as int) =~= mv);
            }
            let mut i: usize = 0;
            while i < m.len()
                invariant
                    v@ == Json::Object(mv),
                    mv == member_views(m@),
                    mv.len() == m@.len(),
                    forall|j: int| 0 <= j < m@.len() ==> #[trigger] mv[j] == (m@[j].0@, m@[j].1@),
                    k@ == key@,
                    i <= m@.len(),
                    member_lookup(mv, key@) == member_lookup(mv.subrange(i as int, mv.len() as int), key@),
                decreases m.len() - i,
            {
                let name = chars_of(m[i].0.as_str());
                assert(mv.subrange(i as int, mv.len() as int)[0] == mv[i as int]);
                if chars_eq(&name, &k) {
                    assert(mv[i as int] == (m@[i as int].0@, m@[i as int].1@));
                    assert(member_lookup(mv.subrange(i as int, mv.len() as int), key@) == Some(
                        m@[i as int].1@,
                    ));
                    return Some(&m[i].1);
                }
                assert(mv.subrange(i as int, mv.len() as int).drop_first() =~= mv.subrange(i + 1, mv.len() as int));
                i = i + 1;
            }
            assert(mv.subrange(i as int, mv.len() as int).len() == 0);
            None
        },
        _ => None,
    }
}

/// Whether the number is zero (see `num_is_zero`).
pub fn number_is_zero(n: &JsonNumber) -> (b: bool)
    ensures
        b == num_is_zero(n@),
{
    match n {
        JsonNumber::PosInt(u) => *u == 0,
        JsonNumber::NegInt(i) => *i == 0,
        JsonNumber::Float(t) => {
            let cs = chars_of(t.as_str());
            let mut i: usize = 0;
            assert(cs@.subrange(0, cs@.len() as int) =~= cs@);
            while i < cs.len() && cs[i] != 'e' && cs[i] != 'E'
                invariant
                    *n == JsonNumber::Float(*t),
                    cs@ == t@,
                    i <= cs@.len(),
                    mantissa_len(cs@) == i + mantissa_len(cs@.subrange(i as int, cs@.len() as int)),
                    forall|j: int| 0 <= j < i ==> (text::is_digit(#[trigger] cs@[j]) ==> cs@[j] == '0'),
                decreases cs.len() - i,
            {
                let c = cs[i];
                if '1' <= c && c <= '9' {
                    let ghost sub = cs@.subrange(i as int, cs@.len() as int);
                    assert(sub[0] == c);
                    assert(mantissa_len(sub) == 1 + mantissa_len(sub.drop_first()));
                    assert(i < mantissa_len(cs@));
                    assert(!(text::is_digit(cs@[i as int]) ==> cs@[i as int] == '0'));
                    assert(!float_text_is_zero(t@));
                    return false;
                }
                assert(cs@.subrange(i as int, cs@.len() as int)[0] == c);
                assert(cs@.subrange(i as int, cs@.len() as int).drop_first() =~= cs@.subrange(i + 1, cs@.len() as int));
                i = i + 1;
            }
            if i == cs.len() {
                assert(cs@.subrange(i as int, cs@.len() as int).len() == 0);
            } else {
                assert(cs@.subrange(i as int, cs@.len() as int)[0] == cs@[i as int]);
            }
            assert(mantissa_len(cs@.subrange(i as int, cs@.len() as int)) == 0);
            assert(mantissa_len(cs@) == i);
            assert(float_text_is_zero(cs@));
            true
        },
    }
}

/// Whether a value carries only defaults (see `json_is_default`).
pub fn is_default(value: &JsonValue) -> (b: bool)
    ensures
        b == json_is_default(value@),
    decreases value,
{
    match value {
        JsonValue::Null => true,
        JsonValue::Bool(b) => !*b,
        JsonValue::Number(n) => number_is_zero(n),
        JsonValue::Array(a) => {
            proof {
                lemma_json_views(a@);
            }
            a.len() == 0
        },
        JsonValue::String(s) => {
            let cs = chars_of(s.as_str());
            cs.len() == 0
        },
        JsonValue::Object(m) => {
            let mut flag = true;
            let mut i: usize = 0;
            while i < m.len()
                invariant
                    *value == JsonValue::Object(*m),
                    i <= m@.len(),
                    flag == members_default(member_views(m@.subrange(0, i as int))),
                decreases m.len() - i,
            {
                proof {
                    vstd::std_specs::vec::axiom_vec_index_decreases(*m, i as int);
                    assert(decreases_to!(*value => value->Object_0));
                }
                let d = is_default(&m[i].1);
                if !d {
                    flag = false;
                }
                assert(m@.subrange(0, i + 1).drop_last() =~= m@.subrange(0, i as int));
                let ghost prev = member_views(m@.subrange(0, i as int));
                let ghost pair = (m@[i as int].0@, m@[i as int].1@);
                assert(member_views(m@.subrange(0, i + 1)) == prev.push(pair));
                assert(prev.push(pair).drop_last() =~= prev);
                assert(members_default(prev.push(pair)) == (members_default(prev) && json_is_default(
                    pair.1,
                )));
                i = i + 1;
            }
            assert(m@.subrange(0, m@.len() as int) =~= m@);
            flag
        },
    }
}

/// The value with its default-only members removed (see `strip_defaults`).
pub fn strip_defaults_exec(v: &JsonValue) -> (res: JsonValue)
    ensures
        res@ == strip_defaults(v@),
    decreases v,
{
    match v {
        JsonValue::Array(a) => {
            let mut out: Vec<JsonValue> = Vec::new();
            let mut i: usize = 0;
            while i < a.len()
                invariant
                    *v == JsonValue::Array(*a),
                    i <= a@.len(),
                    json_views(out@) == strip_elems(json_views(a@.subrange(0, i as int))),
                decreases a.len() - i,
            {
                proof {
                    vstd::std_specs::vec::axiom_vec_index_decreases(*a, i as int);
                    assert(decreases_to!(*v => v->Array_0));
                }
                let x = strip_defaults_exec(&a[i]);
                let ghost prev = out@;
                let ghost pv = json_views(a@.subrange(0, i as int));
                out.push(x);
                assert(out@.drop_last() =~= prev);
                assert(a@.subrange(0, i + 1).drop_last() =~= a@.subrange(0, i as int));
                assert(json_views(a@.subrange(0, i + 1)) == pv.push(a@[i as int]@));
                assert(pv.push(a@[i as int]@).drop_last() =~= pv);
                assert(strip_elems(pv.push(a@[i as int]@)) == strip_elems(pv).push(
                    strip_defaults(a@[i as int]@),
                ));
                assert(json_views(out@) == json_views(prev).push(x@));
                i = i + 1;
            }
            assert(a@.subrange(0, a@.len() as int) =~= a@);
            JsonValue::Array(out)
        },
        JsonValue::Object(m) => {
            let mut out: Vec<(String, JsonValue)> = Vec::new();
            let mut i: usize = 0;
            while i < m.len()
                invariant
                    *v == JsonValue::Object(*m),
                    i <= m@.len(),
                    member_views(out@) == strip_members(member_views(m@.subrange(0, i as int))),
                decreases m.len() - i,
            {
                proof {
                    vstd::std_specs::vec::axiom_vec_index_decreases(*m, i as int);
                    assert(decreases_to!(*v => v->Object_0));
                }
                let ghost prev = out@;
                let ghost pv = member_views(m@.subrange(0, i as int));
                let ghost pair = (m@[i as int].0@, m@[i as int].1@);
                assert(m@.subrange(0, i + 1).drop_last() =~= m@.subrange(0, i as int));
                assert(member_views(m@.subrange(0, i + 1)) == pv.push(pair));
                assert(pv.push(pair).drop_last() =~= pv);
                if !is_default(&m[i].1) {
                    let x = strip_defaults_exec(&m[i].1);
                    let k = m[i].0.clone();
                    out.push((k, x));
                    assert(out@.drop_last() =~= prev);
                    assert(member_views(out@) == member_views(prev).push((k@, x@)));
                    assert(strip_members(pv.push(pair)) == strip_members(pv).push(
                        (pair.0, strip_defaults(pair.1)),
                    ));
                } else {
                    assert(strip_members(pv.push(pair)) == strip_members(pv));
                }
                i = i + 1;
            }
            assert(m@.subrange(0, m@.len() as int) =~= m@);
            JsonValue::Object(out)
        },
        _ => clone_json(v),
    }
}

/// Removes, at every depth, the object members that carry only defaults
/// (see `strip_defaults`).
pub fn check_is_default_and_delete(value: &mut JsonValue)
    ensures
        final(value)@ == strip_defaults(old(value)@),
{
    let stripped = strip_defaults_exec(value);
    *value = stripped;
}

/// The lines of `s`, each indented by one space and ended by a line feed.
pub fn add_tab_chars(s: &Vec<char>) -> (res: Vec<char>)
    ensures
        res@ == add_tab_spec(s@),
{
    let ls = lines_exec(s);
    let mut out: Vec<char> = Vec::new();
    let mut i: usize = 0;
    while i < ls.len()
        invariant
            i <= ls@.len(),
            views(ls@) == text::lines(s@),
            out@ == indent_lines(views(ls@).subrange(0, i as int)),
        decreases ls.len() - i,
    {
        let ghost prev = out@;
        out.push(' ');
        extend_chars(&mut out, &ls[i]);
        out.push('\n');
        assert(views(ls@)[i as int] == ls@[i as int]@);
        assert(views(ls@).subrange(0, i + 1).drop_last() =~= views(ls@).subrange(0, i as int));
        assert(out@ =~= prev + seq![' '] + ls@[i as int]@ + seq!['\n']);
        i = i + 1;
    }
    assert(views(ls@).subrange(0, ls@.len() as int) =~= views(ls@));
    out
}

/// The lines of `string`, each indented by one space and ended by a line
/// feed.
pub fn add_tab(string: String) -> (res: String)
    ensures
        res@ == add_tab_spec(string@),
{
    let cs = chars_of(string.as_str());
    let out = add_tab_chars(&cs);
    string_of(&out)
}

/// `join_items` of one more item.
pub proof fn lemma_join_push(items: Seq<Seq<char>>, x: Seq<char>)
    ensures
        join_items(items.push(x)) == if items.len() == 0 {
            x
        } else {
            join_items(items) + seq![',', '\n'] + x
        },
{
    assert(items.push(x).drop_last() =~= items);
}

/// The rendering that leaves out defaults, as characters.
pub fn render_chars(value: &JsonValue) -> (out: Vec<char>)
    ensures
        out@ == render_ignore_default(value@),
    decreases value,
{
    match value {
        JsonValue::Object(m) => {
            let mut tmp: Vec<char> = Vec::new();
            let mut flag = false;
            let mut i: usize = 0;
            while i < m.len()
                invariant
                    *value == JsonValue::Object(*m),
                    i <= m@.len(),
                    tmp@ == join_items(member_items(member_views(m@.subrange(0, i as int)))),
                    flag == (member_items(member_views(m@.subrange(0, i as int))).len() > 0),
                decreases m.len() - i,
            {
                proof {
                    vstd::std_specs::vec::axiom_vec_index_decreases(*m, i as int);
                    assert(decreases_to!(*value => value->Object_0));
                }
                let ghost pv = member_views(m@.subrange(0, i as int));
                let ghost pair = (m@[i as int].0@, m@[i as int].1@);
                assert(m@.subrange(0, i + 1).drop_last() =~= m@.subrange(0, i as int));
                assert(member_views(m@.subrange(0, i + 1)) == pv.push(pair));
                assert(pv.push(pair).drop_last() =~= pv);
                if !is_default(&m[i].1) {
                    let mut item: Vec<char> = Vec::new();
                    item.push('"');
                    let key = chars_of(m[i].0.as_str());
                    extend_chars(&mut item, &key);
                    item.push('"');
                    item.push(':');
                    item.push(' ');
                    let inner = render_chars(&m[i].1);
                    extend_chars(&mut item, &inner);
                    assert(item@ =~= seq!['"'] + pair.0 + seq!['"', ':', ' '] + render_ignore_default(
                        pair.1,
                    ));
                    assert(member_items(pv.push(pair)) == member_items(pv).push(item@));
                    proof {
                        lemma_join_push(member_items(pv), item@);
                    }
                    if flag {
                        tmp.push(',');
                        tmp.push('\n');
                    }
                    flag = true;
                    extend_chars(&mut tmp, &item);
                } else {
                    assert(member_items(pv.push(pair)) == member_items(pv));
                }
                i = i + 1;
            }
            assert(m@.subrange(0, m@.len() as int) =~= m@);
            let mut out: Vec<char> = Vec::new();
            out.push('{');
            out.push('\n');
            let tabbed = add_tab_chars(&tmp);
            extend_chars(&mut out, &tabbed);
            out.push('}');
            out
        },
        JsonValue::Array(a) => {
            let mut tmp: Vec<char> = Vec::new();
            let mut flag = false;
            let mut i: usize = 0;
            while i < a.len()
                invariant
                    *value == JsonValue::Array(*a),
                    i <= a@.len(),
                    tmp@ == join_items(elem_items(json_views(a@.subrange(0, i as int)))),
                    flag == (elem_items(json_views(a@.subrange(0, i as int))).len() > 0),
                decreases a.len() - i,
            {
                proof {
                    vstd::std_specs::vec::axiom_vec_index_decreases(*a, i as int);
                    assert(decreases_to!(*value => value->Array_0));
                }
                let ghost pv = json_views(a@.subrange(0, i as int));
                let ghost e = a@[i as int]@;
                assert(a@.subrange(0, i + 1).drop_last() =~= a@.subrange(0, i as int));
                assert(json_views(a@.subrange(0, i + 1)) == pv.push(e));
                assert(pv.push(e).drop_last() =~= pv);
                let item = render_chars(&a[i]);
                assert(elem_items(pv.push(e)) == elem_items(pv).push(item@));
                proof {
                    lemma_join_push(elem_items(pv), item@);
                }
                if flag {
                    tmp.push(',');
                    tmp.push('\n');
                }
                flag = true;
                extend_chars(&mut tmp, &item);
                i = i + 1;
            }
            assert(a@.subrange(0, a@.len() as int) =~= a@);
            let mut out: Vec<char> = Vec::new();
            out.push('[');
            out.push('\n');
            let tabbed = add_tab_chars(&tmp);
            extend_chars(&mut out, &tabbed);
            out.push(']');
            out
        },
        _ => {
            let t = json_compact_text(value);
            chars_of(t.as_str())
        },
    }
}

/// The rendering of `value` that leaves out members carrying only
/// defaults (see `render_ignore_default`).
pub fn to_string_ignore_default(value: &JsonValue) -> (res: String)
    ensures
        res@ == render_ignore_default(value@),
{
    let out = render_chars(value);
    string_of(&out)
}

/// Removing defaults keeps the length of an array.
pub proof fn lemma_strip_elems_len(a: Seq<Json>)
    ensures
        strip_elems(a).len() == a.len(),
    decreases a.len(),
{
    if a.len() > 0 {
        lemma_strip_elems_len(a.drop_last());
    }
}

/// Removing defaults from the members keeps whether they all carry only
/// defaults.
pub proof fn lemma_strip_members_default(m: Seq<(Seq<char>, Json)>)
    ensures
        members_default(strip_members(m)) == members_default(m),
    decreases m,
{
    if m.len() > 0 {
        let x = m.last();
        assert(decreases_to!(m => x));
        lemma_strip_members_default(m.drop_last());
        lemma_strip_keeps_default(x.1);
    }
}

/// Removing defaults keeps whether a value carries only defaults.
pub proof fn lemma_strip_keeps_default(v: Json)
    ensures
        json_is_default(strip_defaults(v)) == json_is_default(v),
    decreases v,
{
    match v {
        Json::Object(m) => lemma_strip_members_default(m),
        Json::Array(a) => lemma_strip_elems_len(a),
        _ => {},
    }
}

/// Removing defaults from elements twice is removing them once.
pub proof fn lemma_strip_elems_idempotent(a: Seq<Json>)
    ensures
        strip_elems(strip_elems(a)) == strip_elems(a),
    decreases a,
{
    if a.len() > 0 {
        let x = a.last();
        assert(decreases_to!(a => x));
        lemma_strip_elems_idempotent(a.drop_last());
        law_strip_defaults_idempotent(x);
        assert(strip_elems(a).drop_last() =~= strip_elems(a.drop_last()));
    }
}

/// Removing defaults from members twice is removing them once.
pub proof fn lemma_strip_members_idempotent(m: Seq<(Seq<char>, Json)>)
    ensures
        strip_members(strip_members(m)) == strip_members(m),
    decreases m,
{
    if m.len() > 0 {
        let x = m.last();
        assert(decreases_to!(m => x));
        lemma_strip_members_idempotent(m.drop_last());
        if !json_is_default(x.1) {
            law_strip_defaults_idempotent(x.1);
            lemma_strip_keeps_default(x.1);
            let s = strip_members(m);
            assert(s.drop_last() =~= strip_members(m.drop_last()));
        }
    }
}

/// Removing defaults is idempotent: `check_is_default_and_delete` applied
/// twice leaves the value as applying it once does.
pub proof fn law_strip_defaults_idempotent(v: Json)
    ensures
        strip_defaults(strip_defaults(v)) == strip_defaults(v),
    decreases v,
{
    match v {
        Json::Object(m) => lemma_strip_members_idempotent(m),
        Json::Array(a) => lemma_strip_elems_idempotent(a),
        _ => {},
    }
}

/// After removing defaults, no object member at any depth carries only
/// defaults.
pub open spec fn no_default_members(v: Json) -> bool
    decreases v,
{
    match v {
        Json::Object(m) => forall|i: int|
            0 <= i < m.len() ==> !json_is_default(#[trigger] m[i].1) && no_default_members(m[i].1),
        Json::Array(a) => forall|i: int| 0 <= i < a.len() ==> no_default_members(#[trigger] a[i]),
        _ => true,
    }
}

/// The rendering that leaves out defaults is the same before and after
/// defaults are removed: `to_string_ignore_default` does not see what
/// `check_is_default_and_delete` removes.
pub proof fn law_render_ignores_stripped(v: Json)
    ensures
        render_ignore_default(strip_defaults(v)) == render_ignore_default(v),
    decreases v,
{
    match v {
        Json::Object(m) => lemma_member_items_strip(m),
        Json::Array(a) => lemma_elem_items_strip(a),
        _ => {},
    }
}

/// The items of the elements are the same before and after defaults are
/// removed.
pub proof fn lemma_elem_items_strip(a: Seq<Json>)
    ensures
        elem_items(strip_elems(a)) == elem_items(a),
    decreases a,
{
    if a.len() > 0 {
        let x = a.last();
        assert(decreases_to!(a => x));
        lemma_elem_items_strip(a.drop_last());
        law_render_ignores_stripped(x);
        assert(strip_elems(a).drop_last() =~= strip_elems(a.drop_last()));
    }
}

/// The items of the members are the same before and after defaults are
/// removed.
pub proof fn lemma_member_items_strip(m: Seq<(Seq<char>, Json)>)
    ensures
        member_items(strip_members(m)) == member_items(m),
    decreases m,
{
    if m.len() > 0 {
        let x = m.last();
        assert(decreases_to!(m => x));
        lemma_member_items_strip(m.drop_last());
        if !json_is_default(x.1) {
            law_render_ignores_stripped(x.1);
            lemma_strip_keeps_default(x.1);
            let s = strip_members(m);
            assert(s.drop_last() =~= strip_members(m.drop_last()));
        }
    }
}

/// Every member left after removing defaults carries more than defaults,
/// and has no such member inside.
pub proof fn lemma_strip_members_clean(m: Seq<(Seq<char>, Json)>)
    ensures
        forall|i: int|
            0 <= i < strip_members(m).len() ==> !json_is_default(#[trigger] strip_members(m)[i].1)
                && no_default_members(strip_members(m)[i].1),
    decreases m,
{
    if m.len() > 0 {
        let x = m.last();
        assert(decreases_to!(m => x));
        lemma_strip_members_clean(m.drop_last());
        if !json_is_default(x.1) {
            law_strip_leaves_no_defaults(x.1);
            lemma_strip_keeps_default(x.1);
            let s = strip_members(m);
            assert(s.drop_last() =~= strip_members(m.drop_last()));
            assert forall|i: int| 0 <= i < s.len() implies !json_is_default(#[trigger] s[i].1)
                && no_default_members(s[i].1) by {
                if i < s.len() - 1 {
                    assert(s[i] == strip_members(m.drop_last())[i]);
                }
            }
        }
    }
}

/// Every element left after removing defaults has no member inside that
/// carries only defaults.
pub proof fn lemma_strip_elems_clean(a: Seq<Json>)
    ensures
        forall|i: int| 0 <= i < strip_elems(a).len() ==> no_default_members(#[trigger] strip_elems(a)[i]),
    decreases a,
{
    if a.len() > 0 {
        let x = a.last();
        assert(decreases_to!(a => x));
        lemma_strip_elems_clean(a.drop_last());
        law_strip_leaves_no_defaults(x);
        let s = strip_elems(a);
        assert(s.drop_last() =~= strip_elems(a.drop_last()));
        assert forall|i: int| 0 <= i < s.len() implies no_default_members(#[trigger] s[i]) by {
            if i < s.len() - 1 {
                assert(s[i] == strip_elems(a.drop_last())[i]);
            }
        }
    }
}

/// After `check_is_default_and_delete`, no object member at any depth
/// carries only defaults.
pub proof fn law_strip_leaves_no_defaults(v: Json)
    ensures
        no_default_members(strip_defaults(v)),
    decreases v,
{
    match v {
        Json::Object(m) => {
            lemma_strip_members_clean(m);
            let s = strip_members(m);
            assert(strip_defaults(v) == Json::Object(s));
            assert forall|i: int| 0 <= i < s.len() implies !json_is_default(#[trigger] s[i].1)
                && no_default_members(s[i].1) by {}
        },
        Json::Array(a) => {
            lemma_strip_elems_clean(a);
            let s = strip_elems(a);
            assert(strip_defaults(v) == Json::Array(s));
            assert forall|i: int| 0 <= i < s.len() implies no_default_members(#[trigger] s[i]) by {}
        },
        _ => {},
    }
}

/// Whether no exponent marker stands in `t` at or before position `i`.
pub open spec fn before_exponent(t: Seq<char>, i: int) -> bool {
    forall|k: int| 0 <= k <= i ==> t[k] != 'e' && t[k] != 'E'
}

/// The mantissa is the text up to the first exponent marker.
proof fn lemma_mantissa_len(t: Seq<char>)
    ensures
        mantissa_len(t) <= t.len(),
        forall|i: int| 0 <= i < mantissa_len(t) ==> t[i] != 'e' && t[i] != 'E',
        mantissa_len(t) < t.len() ==> (t[mantissa_len(t) as int] == 'e' || t[mantissa_len(t) as int] == 'E'),
    decreases t.len(),
{
    if t.len() > 0 && t[0] != 'e' && t[0] != 'E' {
        let r = t.drop_first();
        lemma_mantissa_len(r);
        assert forall|i: int| 0 <= i < mantissa_len(t) implies t[i] != 'e' && t[i] != 'E' by {
            if i > 0 {
                assert(t[i] == r[i - 1]);
            }
        }
        if mantissa_len(t) < t.len() {
            assert(t[mantissa_len(t) as int] == r[mantissa_len(r) as int]);
        }
    }
}

/// A floating-point number carries only a default exactly when its value
/// is zero: every decimal digit of its text before the exponent, on
/// either side of the decimal point, is `'0'`.
pub proof fn law_float_default_iff_zero_digits(t: Seq<char>)
    ensures
        json_is_default(Json::Number(Num::Float(t))) <==> (forall|i: int|
            0 <= i < t.len() && before_exponent(t, i) && text::is_digit(#[trigger] t[i]) ==> t[i] == '0'),
{
    lemma_mantissa_len(t);
    let m = mantissa_len(t);
    if json_is_default(Json::Number(Num::Float(t))) {
        assert forall|i: int| 0 <= i < t.len() && before_exponent(t, i) && text::is_digit(#[trigger] t[i]) implies t[i]
            == '0' by {
            if i >= m {
                assert(t[m as int] != 'e' && t[m as int] != 'E');
            }
        }
    }
    if forall|i: int| 0 <= i < t.len() && before_exponent(t, i) && text::is_digit(#[trigger] t[i]) ==> t[i] == '0' {
        assert forall|i: int| 0 <= i < m implies (text::is_digit(#[trigger] t[i]) ==> t[i] == '0') by {
            assert(before_exponent(t, i));
        }
    }
}


/// Every member carries only defaults exactly when each one does.
proof fn lemma_members_default_all(m: Seq<(Seq<char>, Json)>)
    ensures
        members_default(m) <==> forall|i: int| 0 <= i < m.len() ==> json_is_default(#[trigger] m[i].1),
    decreases m.len(),
{
    if m.len() > 0 {
        let d = m.drop_last();
        lemma_members_default_all(d);
        if forall|i: int| 0 <= i < m.len() ==> json_is_default(#[trigger] m[i].1) {
            assert forall|i: int| 0 <= i < d.len() implies json_is_default(#[trigger] d[i].1) by {
                assert(d[i] == m[i]);
            }
            assert(json_is_default(m[m.len() - 1].1));
        }
        if members_default(m) {
            assert forall|i: int| 0 <= i < m.len() implies json_is_default(#[trigger] m[i].1) by {
                if i < m.len() - 1 {
                    assert(d[i] == m[i]);
                }
            }
        }
    }
}

/// Which values carry only defaults: `null`; `false` and not `true`; the
/// integer zero and no other; the empty string, the empty array, and an
/// object each of whose members carries only defaults.
pub proof fn law_default_values(
    b: bool,
    u: u64,
    n: i64,
    s: Seq<char>,
    a: Seq<Json>,
    m: Seq<(Seq<char>, Json)>,
)
    ensures
        json_is_default(Json::Null),
        json_is_default(Json::Bool(b)) <==> !b,
        json_is_default(Json::Number(Num::PosInt(u))) <==> u == 0,
        json_is_default(Json::Number(Num::NegInt(n))) <==> n == 0,
        json_is_default(Json::String(s)) <==> s.len() == 0,
        json_is_default(Json::Array(a)) <==> a.len() == 0,
        json_is_default(Json::Object(m)) <==> forall|i: int| 0 <= i < m.len() ==> json_is_default(#[trigger] m[i].1),
{
    lemma_members_default_all(m);
}

/// Removing defaults from members keeps exactly the members that carry
/// more than defaults, in order, each with its own defaults removed.
proof fn lemma_strip_members_filter(m: Seq<(Seq<char>, Json)>)
    ensures
        strip_members(m) == m.filter(|x: (Seq<char>, Json)| !json_is_default(x.1)).map_values(
            |x: (Seq<char>, Json)| (x.0, strip_defaults(x.1)),
        ),
    decreases m.len(),
{
    let keep = |x: (Seq<char>, Json)| !json_is_default(x.1);
    let f = |x: (Seq<char>, Json)| (x.0, strip_defaults(x.1));
    if m.len() > 0 {
        lemma_strip_members_filter(m.drop_last());
        let sub = m.drop_last().filter(keep);
        reveal(Seq::filter);
        assert(m.filter(keep) == if keep(m.last()) {
            sub.push(m.last())
        } else {
            sub
        });
        if keep(m.last()) {
            assert(sub.push(m.last()).map_values(f) =~= sub.map_values(f).push(f(m.last())));
        }
    } else {
        reveal(Seq::filter);
        assert(m.filter(keep).map_values(f) =~= Seq::<(Seq<char>, Json)>::empty());
    }
}

/// Removing defaults from elements keeps every element, each with its own
/// defaults removed.
proof fn lemma_strip_elems_map(a: Seq<Json>)
    ensures
        strip_elems(a) == a.map_values(|x: Json| strip_defaults(x)),
    decreases a.len(),
{
    if a.len() > 0 {
        lemma_strip_elems_map(a.drop_last());
        assert(a.map_values(|x: Json| strip_defaults(x)) =~= a.drop_last().map_values(|x: Json| strip_defaults(x)).push(
            strip_defaults(a.last()),
        ));
    } else {
        assert(a.map_values(|x: Json| strip_defaults(x)) =~= Seq::<Json>::empty());
    }
}

/// What `check_is_default_and_delete` leaves of an object is exactly its
/// members that carry more than defaults, in order, each with its own
/// defaults removed; of an array, every element with its defaults
/// removed; any other value it leaves as it is.
pub proof fn law_strip_keeps_exactly_non_defaults(m: Seq<(Seq<char>, Json)>, a: Seq<Json>, v: Json)
    ensures
        strip_defaults(Json::Object(m)) == Json::Object(
            m.filter(|x: (Seq<char>, Json)| !json_is_default(x.1)).map_values(
                |x: (Seq<char>, Json)| (x.0, strip_defaults(x.1)),
            ),
        ),
        strip_defaults(Json::Array(a)) == Json::Array(a.map_values(|x: Json| strip_defaults(x))),
        !(v is Object) && !(v is Array) ==> strip_defaults(v) == v,
{
    lemma_strip_members_filter(m);
    lemma_strip_elems_map(a);
}


/// The items rendered for members are exactly those of the members that
/// carry more than defaults, in order.
proof fn lemma_member_items_filter(m: Seq<(Seq<char>, Json)>)
    ensures
        member_items(m) == m.filter(|x: (Seq<char>, Json)| !json_is_default(x.1)).map_values(
            |x: (Seq<char>, Json)| seq!['"'] + x.0 + seq!['"', ':', ' '] + render_ignore_default(x.1),
        ),
    decreases m.len(),
{
    let keep = |x: (Seq<char>, Json)| !json_is_default(x.1);
    let f = |x: (Seq<char>, Json)| seq!['"'] + x.0 + seq!['"', ':', ' '] + render_ignore_default(x.1);
    reveal(Seq::filter);
    if m.len() > 0 {
        lemma_member_items_filter(m.drop_last());
        let sub = m.drop_last().filter(keep);
        if keep(m.last()) {
            assert(sub.push(m.last()).map_values(f) =~= sub.map_values(f).push(f(m.last())));
        }
    } else {
        assert(m.filter(keep).map_values(f) =~= Seq::<Seq<char>>::empty());
    }
}

/// The items rendered for elements are those of all the elements, in
/// order.
proof fn lemma_elem_items_map(a: Seq<Json>)
    ensures
        elem_items(a) == a.map_values(|x: Json| render_ignore_default(x)),
    decreases a.len(),
{
    if a.len() > 0 {
        lemma_elem_items_map(a.drop_last());
        assert(a.map_values(|x: Json| render_ignore_default(x)) =~= a.drop_last().map_values(
            |x: Json| render_ignore_default(x),
        ).push(render_ignore_default(a.last())));
    } else {
        assert(a.map_values(|x: Json| render_ignore_default(x)) =~= Seq::<Seq<char>>::empty());
    }
}

/// `to_string_ignore_default` lists of an object exactly its members that
/// carry more than defaults, in order, each as `"key": value`; of an array
/// every element, in order.
pub proof fn law_render_lists_exactly_non_defaults(m: Seq<(Seq<char>, Json)>, a: Seq<Json>)
    ensures
        render_ignore_default(Json::Object(m)) == seq!['{', '\n'] + add_tab_spec(
            join_items(
                m.filter(|x: (Seq<char>, Json)| !json_is_default(x.1)).map_values(
                    |x: (Seq<char>, Json)| seq!['"'] + x.0 + seq!['"', ':', ' '] + render_ignore_default(x.1),
                ),
            ),
        ) + seq!['}'],
        render_ignore_default(Json::Array(a)) == seq!['[', '\n'] + add_tab_spec(
            join_items(a.map_values(|x: Json| render_ignore_default(x))),
        ) + seq![']'],
{
    lemma_member_items_filter(m);
    lemma_elem_items_map(a);
}

} // verus!
