//! JSON values as the wire protocol carries them, with a verified text
//! encoder and verified structural operations.
//!
//! Numbers that are not representable as integers are kept as their literal
//! text, so the model stays exact without floating point.  Incoming lines are
//! parsed by `serde_json` behind a trusted wrapper; everything built on top of
//! the parsed value is verified.

use vstd::prelude::*;
use vstd::string::StrSliceExecFns;
use vstd::string::StringExecFns;

verus! {

/// A JSON value.
pub enum JsonValue {
    Null,
    Bool(bool),
    UInt(u64),
    NegInt(i64),
    NumText(String),
    Str(String),
    Arr(Vec<JsonValue>),
    Obj(Vec<(String, JsonValue)>),
}

/// Ghost mirror of `JsonValue`, with sequences in place of vectors and
/// strings; contracts speak of this model.
pub enum JsonModel {
    Null,
    Bool(bool),
    UInt(u64),
    NegInt(i64),
    NumText(Seq<char>),
    Str(Seq<char>),
    Arr(Seq<JsonModel>),
    Obj(Seq<(Seq<char>, JsonModel)>),
}

impl JsonValue {
    pub open spec fn view(&self) -> JsonModel
        decreases self,
    {
        match self {
            JsonValue::Null => JsonModel::Null,
            JsonValue::Bool(b) => JsonModel::Bool(*b),
            JsonValue::UInt(n) => JsonModel::UInt(*n),
            JsonValue::NegInt(n) => JsonModel::NegInt(*n),
            JsonValue::NumText(t) => JsonModel::NumText(t@),
            JsonValue::Str(s) => JsonModel::Str(s@),
            JsonValue::Arr(items) => JsonModel::Arr(Self::view_items(items@)),
            JsonValue::Obj(fields) => JsonModel::Obj(Self::view_fields(fields@)),
        }
    }

    pub open spec fn view_items(items: Seq<JsonValue>) -> Seq<JsonModel>
        decreases items,
    {
        if items.len() == 0 {
            Seq::empty()
        } else {
            Self::view_items(items.drop_last()).push(items.last().view())
        }
    }

    pub open spec fn view_fields(fields: Seq<(String, JsonValue)>) -> Seq<(Seq<char>, JsonModel)>
        decreases fields,
    {
        if fields.len() == 0 {
            Seq::empty()
        } else {
            Self::view_fields(fields.drop_last()).push(
                (fields.last().0@, fields.last().1.view()),
            )
        }
    }
}

pub broadcast proof fn lemma_view_items_index(items: Seq<JsonValue>)
    ensures
        (#[trigger] JsonValue::view_items(items)).len() == items.len(),
        forall|i: int|
            0 <= i < items.len() ==> JsonValue::view_items(items)[i] == items[i]@,
    decreases items,
{
    if items.len() > 0 {
        lemma_view_items_index(items.drop_last());
    }
}

pub broadcast proof fn lemma_view_fields_index(fields: Seq<(String, JsonValue)>)
    ensures
        (#[trigger] JsonValue::view_fields(fields)).len() == fields.len(),
        forall|i: int|
            0 <= i < fields.len()
                ==> JsonValue::view_fields(fields)[i] == (fields[i].0@, fields[i].1@),
    decreases fields,
{
    if fields.len() > 0 {
        lemma_view_fields_index(fields.drop_last());
    }
}

// ---------------------------------------------------------------------------
// The wire text of a JSON value, as a specification.
// ---------------------------------------------------------------------------

/// The decimal digit for `n < 10`.
pub open spec fn digit(n: nat) -> char {
    if n == 0 { '0' }
    else if n == 1 { '1' }
    else if n == 2 { '2' }
    else if n == 3 { '3' }
    else if n == 4 { '4' }
    else if n == 5 { '5' }
    else if n == 6 { '6' }
    else if n == 7 { '7' }
    else if n == 8 { '8' }
    else { '9' }
}

/// The hexadecimal digit for `n < 16`, lower case.
pub open spec fn hex_digit(n: nat) -> char {
    if n < 10 { digit(n) }
    else if n == 10 { 'a' }
    else if n == 11 { 'b' }
    else if n == 12 { 'c' }
    else if n == 13 { 'd' }
    else if n == 14 { 'e' }
    else { 'f' }
}

/// The decimal text of an unsigned number, no leading zeros.
pub open spec fn dec_text(n: nat) -> Seq<char>
    decreases n,
{
    if n < 10 {
        seq![digit(n)]
    } else {
        dec_text(n / 10).push(digit(n % 10))
    }
}

/// How one character appears inside a JSON string literal.
pub open spec fn esc_char(c: char) -> Seq<char> {
    if c == '"' {
        seq!['\\', '"']
    } else if c == '\\' {
        seq!['\\', '\\']
    } else if (c as u32) < 32 {
        seq!['\\', 'u', '0', '0', hex_digit((c as u32 / 16) as nat), hex_digit(
            (c as u32 % 16) as nat,
        )]
    } else {
        seq![c]
    }
}

/// A string's characters, escaped for a JSON string literal.
pub open spec fn escaped(s: Seq<char>) -> Seq<char>
    decreases s,
{
    if s.len() == 0 {
        Seq::empty()
    } else {
        escaped(s.drop_last()) + esc_char(s.last())
    }
}

/// A full JSON string literal, quotes included.
pub open spec fn str_text(s: Seq<char>) -> Seq<char> {
    seq!['"'] + escaped(s) + seq!['"']
}

/// The wire text of a JSON value: this is the grammar every line of the
/// protocol follows.
pub open spec fn json_text(m: JsonModel) -> Seq<char>
    decreases m,
{
    match m {
        JsonModel::Null => "null"@,
        JsonModel::Bool(b) => if b { "true"@ } else { "false"@ },
        JsonModel::UInt(n) => dec_text(n as nat),
        JsonModel::NegInt(n) => {
            if n >= 0 { dec_text(n as nat) } else { seq!['-'] + dec_text((-(n as int)) as nat) }
        },
        JsonModel::NumText(t) => t,
        JsonModel::Str(s) => str_text(s),
        JsonModel::Arr(items) => seq!['['] + arr_body(items) + seq![']'],
        JsonModel::Obj(fields) => seq!['{'] + obj_body(fields) + seq!['}'],
    }
}

/// Comma-separated element texts of an array.
pub open spec fn arr_body(items: Seq<JsonModel>) -> Seq<char>
    decreases items,
{
    if items.len() == 0 {
        Seq::empty()
    } else if items.len() == 1 {
        json_text(items[0])
    } else {
        arr_body(items.drop_last()) + seq![','] + json_text(items.last())
    }
}

/// One `"key":value` member text.
pub open spec fn field_text(f: (Seq<char>, JsonModel)) -> Seq<char>
    decreases f,
{
    str_text(f.0) + seq![':'] + json_text(f.1)
}

/// Comma-separated member texts of an object.
pub open spec fn obj_body(fields: Seq<(Seq<char>, JsonModel)>) -> Seq<char>
    decreases fields,
{
    if fields.len() == 0 {
        Seq::empty()
    } else if fields.len() == 1 {
        field_text(fields[0])
    } else {
        obj_body(fields.drop_last()) + seq![','] + field_text(fields.last())
    }
}

// ---------------------------------------------------------------------------
// Verified encoder.
// ---------------------------------------------------------------------------

/// Relies on `String::push`: appends exactly the given character.
#[verifier::external_body]
fn push_char(out: &mut String, c: char)
    ensures
        final(out)@ == old(out)@.push(c),
{
    out.push(c);
}

fn digit_char(n: u64) -> (c: char)
    requires
        n < 10,
    ensures
        c == digit(n as nat),
{
    if n == 0 { '0' }
    else if n == 1 { '1' }
    else if n == 2 { '2' }
    else if n == 3 { '3' }
    else if n == 4 { '4' }
    else if n == 5 { '5' }
    else if n == 6 { '6' }
    else if n == 7 { '7' }
    else if n == 8 { '8' }
    else { '9' }
}

fn hex_digit_char(n: u32) -> (c: char)
    requires
        n < 16,
    ensures
        c == hex_digit(n as nat),
{
    if n < 10 { digit_char(n as u64) }
    else if n == 10 { 'a' }
    else if n == 11 { 'b' }
    else if n == 12 { 'c' }
    else if n == 13 { 'd' }
    else if n == 14 { 'e' }
    else { 'f' }
}

/// Appends the decimal text of `n`.
pub fn write_dec(n: u64, out: &mut String)
    ensures
        final(out)@ == old(out)@ + dec_text(n as nat),
    decreases n,
{
    if n >= 10 {
        write_dec(n / 10, out);
    }
    let c = digit_char(n % 10);
    push_char(out, c);
    proof {
        if n < 10 {
            assert(old(out)@.push(c) =~= old(out)@ + dec_text(n as nat));
        } else {
            assert(old(out)@ + dec_text((n / 10) as nat).push(digit((n % 10) as nat))
                =~= old(out)@ + dec_text(n as nat));
            assert((old(out)@ + dec_text((n / 10) as nat)).push(c)
                =~= old(out)@ + dec_text((n / 10) as nat).push(digit((n % 10) as nat)));
        }
    }
}

/// The decimal text of `n`, as a `String`.
pub fn dec_string(n: u64) -> (r: String)
    ensures
        r@ == dec_text(n as nat),
{
    let mut out = String::new();
    write_dec(n, &mut out);
    proof {
        assert(Seq::<char>::empty() + dec_text(n as nat) =~= dec_text(n as nat));
    }
    out
}

proof fn lemma_escaped_snoc(s: Seq<char>, i: int)
    requires
        0 <= i < s.len(),
    ensures
        escaped(s.take(i + 1)) == escaped(s.take(i)) + esc_char(s[i]),
{
    assert(s.take(i + 1).drop_last() =~= s.take(i));
    assert(s.take(i + 1).last() == s[i]);
}

/// Appends the JSON string literal (quotes and escapes) for `s`.
fn write_str_literal(s: &str, out: &mut String)
    ensures
        final(out)@ == old(out)@ + str_text(s@),
{
    push_char(out, '"');
    let n = s.unicode_len();
    let mut i: usize = 0;
    proof {
        assert(escaped(s@.take(0)) =~= Seq::<char>::empty());
        assert(out@ =~= old(out)@ + seq!['"'] + escaped(s@.take(0)));
    }
    while i < n
        invariant
            n == s@.len(),
            i <= n,
            out@ == old(out)@ + seq!['"'] + escaped(s@.take(i as int)),
        decreases n - i,
    {
        let c = s.get_char(i);
        let ghost pre = out@;
        if c == '"' {
            out.append("\\\"");
            proof {
                reveal_strlit("\\\"");
                assert("\\\""@ =~= esc_char(c));
            }
        } else if c == '\\' {
            out.append("\\\\");
            proof {
                reveal_strlit("\\\\");
                assert("\\\\"@ =~= esc_char(c));
            }
        } else if (c as u32) < 32 {
            out.append("\\u00");
            let h = hex_digit_char((c as u32) / 16);
            push_char(out, h);
            let l = hex_digit_char((c as u32) % 16);
            push_char(out, l);
            proof {
                reveal_strlit("\\u00");
                assert(out@ =~= pre + esc_char(c));
            }
        } else {
            push_char(out, c);
            proof {
                assert(pre.push(c) =~= pre + esc_char(c));
            }
        }
        proof {
            lemma_escaped_snoc(s@, i as int);
            assert(out@ =~= old(out)@ + seq!['"'] + escaped(s@.take(i + 1)));
        }
        i = i + 1;
    }
    push_char(out, '"');
    proof {
        assert(s@.take(n as int) =~= s@);
        assert((old(out)@ + seq!['"'] + escaped(s@)).push('"')
            =~= old(out)@ + str_text(s@));
    }
}

proof fn lemma_arr_body_snoc(items: Seq<JsonModel>, i: int)
    requires
        0 <= i < items.len(),
    ensures
        i == 0 ==> arr_body(items.take(1)) == json_text(items[0]),
        i > 0 ==> arr_body(items.take(i + 1)) == arr_body(items.take(i)) + seq![','] + json_text(
            items[i],
        ),
{
    assert(items.take(i + 1).drop_last() =~= items.take(i));
    assert(items.take(i + 1).last() == items[i]);
    if i == 0 {
        assert(items.take(1)[0] == items[0]);
    }
}

proof fn lemma_obj_body_snoc(fields: Seq<(Seq<char>, JsonModel)>, i: int)
    requires
        0 <= i < fields.len(),
    ensures
        i == 0 ==> obj_body(fields.take(1)) == field_text(fields[0]),
        i > 0 ==> obj_body(fields.take(i + 1)) == obj_body(fields.take(i)) + seq![','] + field_text(
            fields[i],
        ),
{
    assert(fields.take(i + 1).drop_last() =~= fields.take(i));
    assert(fields.take(i + 1).last() == fields[i]);
    if i == 0 {
        assert(fields.take(1)[0] == fields[0]);
    }
}

/// Appends the wire text of `v`.
pub fn write_json(v: &JsonValue, out: &mut String)
    ensures
        final(out)@ == old(out)@ + json_text(v@),
    decreases *v, 0nat, 0nat,
{
    match v {
        JsonValue::Null => {
            out.append("null");
        },
        JsonValue::Bool(b) => {
            if *b {
                out.append("true");
            } else {
                out.append("false");
            }
        },
        JsonValue::UInt(n) => {
            write_dec(*n, out);
        },
        JsonValue::NegInt(n) => {
            if *n >= 0 {
                write_dec(*n as u64, out);
            } else {
                push_char(out, '-');
                let mag: u64 = ((-(*n + 1)) as u64) + 1;
                write_dec(mag, out);
                proof {
                    assert(mag as nat == (-(*n as int)) as nat);
                    assert(old(out)@.push('-') + dec_text(mag as nat)
                        =~= old(out)@ + (seq!['-'] + dec_text((-(*n as int)) as nat)));
                }
            }
        },
        JsonValue::NumText(t) => {
            out.append(t.as_str());
        },
        JsonValue::Str(s) => {
            write_str_literal(s.as_str(), out);
        },
        JsonValue::Arr(items) => {
            push_char(out, '[');
            let ghost opened = out@;
            let n = items.len();
            let mut i: usize = 0;
            proof {
                broadcast use lemma_view_items_index;

                assert(arr_body(JsonValue::view_items(items@).take(0)) =~= Seq::<char>::empty());
                assert(out@ =~= opened + arr_body(JsonValue::view_items(items@).take(0)));
            }
            while i < n
                invariant
                    *v is Arr,
                    v->Arr_0 == *items,
                    n == items@.len(),
                    i <= n,
                    JsonValue::view_items(items@).len() == n,
                    forall|k: int|
                        0 <= k < n ==> JsonValue::view_items(items@)[k] == items@[k]@,
                    out@ == opened + arr_body(JsonValue::view_items(items@).take(i as int)),
                decreases n - i,
            {
                if i > 0 {
                    push_char(out, ',');
                }
                proof {
                    assert(decreases_to!(*v => v->Arr_0));
                    assert(decreases_to!(*items => items@));
                    assert(decreases_to!(items@ => items@[i as int]));
                    assert(decreases_to!(*v => items@[i as int]));
                }
                write_json(&items[i], out);
                proof {
                    lemma_arr_body_snoc(JsonValue::view_items(items@), i as int);
                    if i == 0 {
                        assert(out@ =~= opened + arr_body(
                            JsonValue::view_items(items@).take(1),
                        ));
                    } else {
                        assert(out@ =~= opened + arr_body(
                            JsonValue::view_items(items@).take(i + 1),
                        ));
                    }
                }
                i = i + 1;
            }
            push_char(out, ']');
            proof {
                assert(JsonValue::view_items(items@).take(n as int)
                    =~= JsonValue::view_items(items@));
                assert(out@ =~= old(out)@ + json_text(v@));
            }
        },
        JsonValue::Obj(fields) => {
            push_char(out, '{');
            let ghost opened = out@;
            let n = fields.len();
            let mut i: usize = 0;
            proof {
                broadcast use lemma_view_fields_index;

                assert(obj_body(JsonValue::view_fields(fields@).take(0)) =~= Seq::<char>::empty());
                assert(out@ =~= opened + obj_body(JsonValue::view_fields(fields@).take(0)));
            }
            while i < n
                invariant
                    *v is Obj,
                    v->Obj_0 == *fields,
                    n == fields@.len(),
                    i <= n,
                    JsonValue::view_fields(fields@).len() == n,
                    forall|k: int|
                        0 <= k < n ==> JsonValue::view_fields(fields@)[k] == (
                            fields@[k].0@,
                            fields@[k].1@,
                        ),
                    out@ == opened + obj_body(JsonValue::view_fields(fields@).take(i as int)),
                decreases n - i,
            {
                if i > 0 {
                    push_char(out, ',');
                }
                write_str_literal(fields[i].0.as_str(), out);
                push_char(out, ':');
                proof {
                    assert(decreases_to!(*v => v->Obj_0));
                    assert(decreases_to!(*fields => fields@));
                    assert(decreases_to!(fields@ => fields@[i as int]));
                    assert(decreases_to!(fields@[i as int] => fields@[i as int].1));
                    assert(decreases_to!(*v => fields@[i as int].1));
                }
                write_json(&fields[i].1, out);
                proof {
                    lemma_obj_body_snoc(JsonValue::view_fields(fields@), i as int);
                    assert(field_text(JsonValue::view_fields(fields@)[i as int])
                        =~= str_text(fields@[i as int].0@) + seq![':'] + json_text(
                        fields@[i as int].1@,
                    ));
                    if i == 0 {
                        assert(out@ =~= opened + obj_body(
                            JsonValue::view_fields(fields@).take(1),
                        ));
                    } else {
                        assert(out@ =~= opened + obj_body(
                            JsonValue::view_fields(fields@).take(i + 1),
                        ));
                    }
                }
                i = i + 1;
            }
            push_char(out, '}');
            proof {
                assert(JsonValue::view_fields(fields@).take(n as int)
                    =~= JsonValue::view_fields(fields@));
                assert(out@ =~= old(out)@ + json_text(v@));
            }
        },
    }
}

/// The wire text of `v`, as a `String`.
pub fn to_json_text(v: &JsonValue) -> (r: String)
    ensures
        r@ == json_text(v@),
{
    let mut out = String::new();
    write_json(v, &mut out);
    proof {
        assert(Seq::<char>::empty() + json_text(v@) =~= json_text(v@));
    }
    out
}

// ---------------------------------------------------------------------------
// Structural operations.
// ---------------------------------------------------------------------------

/// The value of the first member named `key`, if any.
pub open spec fn fields_lookup(fields: Seq<(Seq<char>, JsonModel)>, key: Seq<char>) -> Option<
    JsonModel,
>
    decreases fields,
{
    if fields.len() == 0 {
        None
    } else if fields[0].0 == key {
        Some(fields[0].1)
    } else {
        fields_lookup(fields.drop_first(), key)
    }
}

/// Member lookup on an object; `None` on any other kind of value.
pub open spec fn json_get(m: JsonModel, key: Seq<char>) -> Option<JsonModel> {
    match m {
        JsonModel::Obj(fields) => fields_lookup(fields, key),
        _ => None,
    }
}

/// Relies on `<str as PartialEq>::eq`: character-for-character comparison.
#[verifier::external_body]
pub fn str_eq(a: &str, b: &str) -> (r: bool)
    ensures
        r == (a@ == b@),
{
    a == b
}

impl JsonValue {
    /// The first member named `key`, if this is an object that has one.
    pub fn get<'a>(&'a self, key: &str) -> (r: Option<&'a JsonValue>)
        ensures
            match r {
                Some(v) => json_get(self@, key@) == Some(v@),
                None => json_get(self@, key@) is None,
            },
    {
        match self {
            JsonValue::Obj(fields) => {
                let ghost fv = JsonValue::view_fields(fields@);
                proof {
                    lemma_view_fields_index(fields@);
                    assert(fv.skip(0) =~= fv);
                }
                let n = fields.len();
                let mut i: usize = 0;
                while i < n
                    invariant
                        self is Obj,
                        self->Obj_0 == *fields,
                        fv == JsonValue::view_fields(fields@),
                        fv.len() == n,
                        n == fields@.len(),
                        i <= n,
                        forall|k: int| 0 <= k < n ==> fv[k] == (fields@[k].0@, fields@[k].1@),
                        fields_lookup(fv, key@) == fields_lookup(fv.skip(i as int), key@),
                    decreases n - i,
                {
                    if str_eq(fields[i].0.as_str(), key) {
                        proof {
                            assert(fv.skip(i as int)[0] == fv[i as int]);
                            assert(fields_lookup(fv.skip(i as int), key@) == Some(fv[i as int].1));
                        }
                        return Some(&fields[i].1);
                    }
                    proof {
                        assert(fv.skip(i as int)[0] == fv[i as int]);
                        assert(fv.skip(i as int).drop_first() =~= fv.skip(i + 1));
                    }
                    i = i + 1;
                }
                proof {
                    assert(fv.skip(n as int) =~= Seq::empty());
                }
                None
            },
            _ => None,
        }
    }
}

/// Deep structural equality, reflected in the models.
pub fn json_eq(a: &JsonValue, b: &JsonValue) -> (r: bool)
    ensures
        r == (a@ == b@),
    decreases *a, 0nat,
{
    match (a, b) {
        (JsonValue::Null, JsonValue::Null) => true,
        (JsonValue::Bool(x), JsonValue::Bool(y)) => *x == *y,
        (JsonValue::UInt(x), JsonValue::UInt(y)) => *x == *y,
        (JsonValue::NegInt(x), JsonValue::NegInt(y)) => *x == *y,
        (JsonValue::NumText(x), JsonValue::NumText(y)) => str_eq(x.as_str(), y.as_str()),
        (JsonValue::Str(x), JsonValue::Str(y)) => str_eq(x.as_str(), y.as_str()),
        (JsonValue::Arr(va), JsonValue::Arr(vb)) => {
            proof {
                lemma_view_items_index(va@);
                lemma_view_items_index(vb@);
            }
            if va.len() != vb.len() {
                return false;
            }
            let n = va.len();
            let mut i: usize = 0;
            while i < n
                invariant
                    *a is Arr,
                    a->Arr_0 == *va,
                    *b is Arr,
                    b->Arr_0 == *vb,
                    n == va@.len(),
                    n == vb@.len(),
                    i <= n,
                    JsonValue::view_items(va@).len() == n,
                    JsonValue::view_items(vb@).len() == n,
                    forall|k: int| 0 <= k < n ==> JsonValue::view_items(va@)[k] == va@[k]@,
                    forall|k: int| 0 <= k < n ==> JsonValue::view_items(vb@)[k] == vb@[k]@,
                    forall|k: int|
                        0 <= k < i ==> JsonValue::view_items(va@)[k] == JsonValue::view_items(
                            vb@,
                        )[k],
                decreases n - i,
            {
                proof {
                    assert(decreases_to!(*a => a->Arr_0));
                    assert(decreases_to!(*va => va@));
                    assert(decreases_to!(va@ => va@[i as int]));
                }
                if !json_eq(&va[i], &vb[i]) {
                    proof {
                        assert(JsonValue::view_items(va@)[i as int] != JsonValue::view_items(
                            vb@,
                        )[i as int]);
                    }
                    return false;
                }
                i = i + 1;
            }
            proof {
                assert(JsonValue::view_items(va@) =~= JsonValue::view_items(vb@));
            }
            true
        },
        (JsonValue::Obj(fa), JsonValue::Obj(fb)) => {
            proof {
                lemma_view_fields_index(fa@);
                lemma_view_fields_index(fb@);
            }
            if fa.len() != fb.len() {
                return false;
            }
            let n = fa.len();
            let mut i: usize = 0;
            while i < n
                invariant
                    *a is Obj,
                    a->Obj_0 == *fa,
                    *b is Obj,
                    b->Obj_0 == *fb,
                    n == fa@.len(),
                    n == fb@.len(),
                    i <= n,
                    JsonValue::view_fields(fa@).len() == n,
                    JsonValue::view_fields(fb@).len() == n,
                    forall|k: int|
                        0 <= k < n ==> JsonValue::view_fields(fa@)[k] == (fa@[k].0@, fa@[k].1@),
                    forall|k: int|
                        0 <= k < n ==> JsonValue::view_fields(fb@)[k] == (fb@[k].0@, fb@[k].1@),
                    forall|k: int|
                        0 <= k < i ==> JsonValue::view_fields(fa@)[k] == JsonValue::view_fields(
                            fb@,
                        )[k],
                decreases n - i,
            {
                if !str_eq(fa[i].0.as_str(), fb[i].0.as_str()) {
                    proof {
                        assert(JsonValue::view_fields(fa@)[i as int].0 != JsonValue::view_fields(
                            fb@,
                        )[i as int].0);
                    }
                    return false;
                }
                proof {
                    assert(decreases_to!(*a => a->Obj_0));
                    assert(decreases_to!(*fa => fa@));
                    assert(decreases_to!(fa@ => fa@[i as int]));
                    assert(decreases_to!(fa@[i as int] => fa@[i as int].1));
                }
                if !json_eq(&fa[i].1, &fb[i].1) {
                    proof {
                        assert(JsonValue::view_fields(fa@)[i as int].1 != JsonValue::view_fields(
                            fb@,
                        )[i as int].1);
                    }
                    return false;
                }
                i = i + 1;
            }
            proof {
                assert(JsonValue::view_fields(fa@) =~= JsonValue::view_fields(fb@));
            }
            true
        },
        _ => {
            proof {
                assert(a@ != b@);
            }
            false
        },
    }
}

/// A deep copy with an identical model.
pub fn duplicate(v: &JsonValue) -> (r: JsonValue)
    ensures
        r@ == v@,
    decreases *v, 0nat,
{
    match v {
        JsonValue::Null => JsonValue::Null,
        JsonValue::Bool(b) => JsonValue::Bool(*b),
        JsonValue::UInt(n) => JsonValue::UInt(*n),
        JsonValue::NegInt(n) => JsonValue::NegInt(*n),
        JsonValue::NumText(t) => JsonValue::NumText(t.clone()),
        JsonValue::Str(s) => JsonValue::Str(s.clone()),
        JsonValue::Arr(items) => {
            proof {
                broadcast use lemma_view_items_index;
            }
            let n = items.len();
            let mut out: Vec<JsonValue> = Vec::new();
            let mut i: usize = 0;
            while i < n
                invariant
                    *v is Arr,
                    v->Arr_0 == *items,
                    n == items@.len(),
                    i <= n,
                    out@.len() == i,
                    JsonValue::view_items(items@).len() == n,
                    forall|k: int| 0 <= k < n ==> JsonValue::view_items(items@)[k] == items@[k]@,
                    forall|k: int| 0 <= k < out@.len() ==> #[trigger] out@[k]@ == items@[k]@,
                decreases n - i,
            {
                proof {
                    assert(decreases_to!(*v => v->Arr_0));
                    assert(decreases_to!(*items => items@));
                    assert(decreases_to!(items@ => items@[i as int]));
                }
                let d = duplicate(&items[i]);
                out.push(d);
                i = i + 1;
            }
            proof {
                broadcast use lemma_view_items_index;

                assert(JsonValue::view_items(out@) =~= JsonValue::view_items(items@));
            }
            JsonValue::Arr(out)
        },
        JsonValue::Obj(fields) => {
            proof {
                broadcast use lemma_view_fields_index;
            }
            let n = fields.len();
            let mut out: Vec<(String, JsonValue)> = Vec::new();
            let mut i: usize = 0;
            while i < n
                invariant
                    *v is Obj,
                    v->Obj_0 == *fields,
                    n == fields@.len(),
                    i <= n,
                    out@.len() == i,
                    JsonValue::view_fields(fields@).len() == n,
                    forall|k: int|
                        0 <= k < n ==> JsonValue::view_fields(fields@)[k] == (
                            fields@[k].0@,
                            fields@[k].1@,
                        ),
                    forall|k: int|
                        0 <= k < out@.len() ==> #[trigger] out@[k].0@ == fields@[k].0@
                            && out@[k].1@ == fields@[k].1@,
                decreases n - i,
            {
                proof {
                    assert(decreases_to!(*v => v->Obj_0));
                    assert(decreases_to!(*fields => fields@));
                    assert(decreases_to!(fields@ => fields@[i as int]));
                    assert(decreases_to!(fields@[i as int] => fields@[i as int].1));
                }
                let k = fields[i].0.clone();
                let d = duplicate(&fields[i].1);
                out.push((k, d));
                i = i + 1;
            }
            proof {
                broadcast use lemma_view_fields_index;

                assert(JsonValue::view_fields(out@) =~= JsonValue::view_fields(fields@));
            }
            JsonValue::Obj(out)
        },
    }
}

// ---------------------------------------------------------------------------
// Reading an unsigned number out of decimal text.
// ---------------------------------------------------------------------------

pub open spec fn is_digit_char(c: char) -> bool {
    48 <= c as u32 <= 57
}

pub open spec fn digit_value(c: char) -> nat {
    (c as u32 - 48) as nat
}

pub open spec fn all_digits(s: Seq<char>) -> bool {
    forall|i: int| 0 <= i < s.len() ==> is_digit_char(#[trigger] s[i])
}

/// The number the digit string denotes, most significant digit first.
pub open spec fn digits_value(s: Seq<char>) -> nat
    decreases s,
{
    if s.len() == 0 {
        0
    } else {
        digits_value(s.drop_last()) * 10 + digit_value(s.last())
    }
}

/// What `str::parse::<u64>` accepts: an optional leading `+`, then one or
/// more decimal digits whose value fits.
pub open spec fn parse_u64_text(s: Seq<char>) -> Option<u64> {
    let t = if s.len() > 0 && s[0] == '+' {
        s.drop_first()
    } else {
        s
    };
    if t.len() > 0 && all_digits(t) && digits_value(t) <= u64::MAX {
        Some(digits_value(t) as u64)
    } else {
        None
    }
}

proof fn lemma_digits_snoc(t: Seq<char>, j: int)
    requires
        0 <= j < t.len(),
    ensures
        digits_value(t.take(j + 1)) == digits_value(t.take(j)) * 10 + digit_value(t[j]),
{
    assert(t.take(j + 1).drop_last() =~= t.take(j));
    assert(t.take(j + 1).last() == t[j]);
}

proof fn lemma_digits_prefix_bound(t: Seq<char>, j: int)
    requires
        0 <= j <= t.len(),
        digits_value(t.take(j)) > u64::MAX,
    ensures
        digits_value(t) > u64::MAX,
    decreases t.len() - j,
{
    if j == t.len() {
        assert(t.take(j) =~= t);
    } else {
        lemma_digits_snoc(t, j);
        assert(digits_value(t.take(j + 1)) >= digits_value(t.take(j)) * 10) by (nonlinear_arith)
            requires digits_value(t.take(j + 1)) == digits_value(t.take(j)) * 10 + digit_value(t[j]);
        assert(digits_value(t.take(j)) * 10 >= digits_value(t.take(j))) by (nonlinear_arith);
        lemma_digits_prefix_bound(t, j + 1);
    }
}

/// Reads a `u64` from decimal text, exactly as `str::parse::<u64>` does.
pub fn parse_u64(s: &str) -> (r: Option<u64>)
    ensures
        r == parse_u64_text(s@),
{
    let n = s.unicode_len();
    let start: usize = if n > 0 && s.get_char(0) == '+' {
        1
    } else {
        0
    };
    let ghost t = if s@.len() > 0 && s@[0] == '+' {
        s@.drop_first()
    } else {
        s@
    };
    proof {
        assert(t.len() == n - start);
        assert(forall|k: int| 0 <= k < t.len() ==> t[k] == s@[k + start]);
    }
    if start == n {
        return None;
    }
    let mut acc: u64 = 0;
    let mut i: usize = start;
    while i < n
        invariant
            start <= i <= n,
            n == s@.len(),
            start == if s@.len() > 0 && s@[0] == '+' { 1int } else { 0int },
            t == (if s@.len() > 0 && s@[0] == '+' { s@.drop_first() } else { s@ }),
            t.len() == n - start,
            forall|k: int| 0 <= k < t.len() ==> t[k] == s@[k + start],
            all_digits(t.take(i - start)),
            acc == digits_value(t.take(i - start)),
        decreases n - i,
    {
        let c = s.get_char(i);
        if c < '0' || c > '9' {
            proof {
                assert(t[i - start] == c);
                assert(!is_digit_char(t[i - start]));
            }
            return None;
        }
        let d: u64 = (c as u32 as u64) - 48;
        proof {
            assert(d == digit_value(c));
            assert(d <= 9);
        }
        if acc > (u64::MAX - d) / 10 {
            proof {
                lemma_digits_snoc(t, i - start);
                assert(acc * 10 + d > u64::MAX) by (nonlinear_arith)
                    requires
                        acc > (u64::MAX - d) / 10,
                        d <= 9,
                ;
                assert(digits_value(t.take(i - start + 1)) > u64::MAX);
                lemma_digits_prefix_bound(t, i - start + 1);
            }
            return None;
        }
        proof {
            assert(acc * 10 + d <= u64::MAX) by (nonlinear_arith)
                requires
                    acc <= (u64::MAX - d) / 10,
                    d <= 9,
            ;
            lemma_digits_snoc(t, i - start);
        }
        acc = acc * 10 + d;
        proof {
            assert(t.take(i - start + 1).drop_last() =~= t.take(i - start));
            assert(all_digits(t.take(i - start + 1)));
        }
        i = i + 1;
    }
    proof {
        assert(t.take(n - start) =~= t);
    }
    Some(acc)
}

// ---------------------------------------------------------------------------
// Trusted parse of one incoming line.
// ---------------------------------------------------------------------------

#[verifier::external_type_specification]
#[verifier::external_body]
pub struct ExSerdeValue(serde_json::Value);

/// Relies on `serde_json::Value`'s own shape to mirror a parsed value into
/// the library's model, one arm per variant; integral numbers are told apart
/// with `Number::as_u64` / `Number::as_i64`, any other number keeps its
/// display text.
#[verifier::external_body]
fn json_of_value(v: serde_json::Value) -> JsonValue {
    match v {
        serde_json::Value::Null => JsonValue::Null,
        serde_json::Value::Bool(b) => JsonValue::Bool(b),
        serde_json::Value::Number(n) => match (n.as_u64(), n.as_i64()) {
            (Some(u), _) => JsonValue::UInt(u),
            (None, Some(i)) => JsonValue::NegInt(i),
            (None, None) => JsonValue::NumText(n.to_string()),
        },
        serde_json::Value::String(s) => JsonValue::Str(s),
        serde_json::Value::Array(a) => JsonValue::Arr(a.into_iter().map(json_of_value).collect()),
        serde_json::Value::Object(o) => JsonValue::Obj(
            o.into_iter().map(|(k, w)| (k, json_of_value(w))).collect(),
        ),
    }
}

/// The value a line of text denotes, if it is valid JSON.  Whether it parses,
/// and what it parses to, depend on the characters alone.
pub uninterp spec fn json_parsed(s: Seq<char>) -> Option<JsonModel>;

/// Relies on `serde_json::from_str::<Value>`: parses one line of JSON text;
/// the outcome is a function of the line's characters alone.  The error text
/// is serde's own message and is left unspecified.
#[verifier::external_body]
pub fn parse_json_line(line: &str) -> (r: Result<JsonValue, String>)
    ensures
        r is Ok <==> json_parsed(line@) is Some,
        r matches Ok(v) ==> Some(v@) == json_parsed(line@),
{
    match serde_json::from_str::<serde_json::Value>(line) {
        Ok(v) => Ok(json_of_value(v)),
        Err(e) => Err(format!("{e}")),
    }
}

} // verus!
