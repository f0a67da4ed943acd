//! What the compact text of a value tells of the value.

use vstd::prelude::*;
use crate::digest::{hex, hex_digit};
use crate::json::{
    char_form, compact, compact_field, compact_fields, compact_items, escaped, string_form,
    JsonView,
};
use crate::numeral::{decimal, digit_char, digits_value};

verus! {

// ---------------------------------------------------------------
// Numerals
// ---------------------------------------------------------------

/// True when a character can stand in a number.
pub open spec fn is_number_char(c: char) -> bool {
    '0' <= c <= '9' || c == '-' || c == '+' || c == '.' || c == 'e' || c == 'E'
}

/// True when a text can be that of a number.
pub open spec fn is_number_text(s: Seq<char>) -> bool {
    s.len() > 0 && forall|i: int| 0 <= i < s.len() ==> is_number_char(#[trigger] s[i])
}

/// True when the texts of all numbers in a value can be those of numbers.
pub open spec fn is_plain(value: JsonView) -> bool
    decreases value,
{
    match value {
        JsonView::Number(n) => is_number_text(n),
        JsonView::Array(items) => forall|i: int|
            0 <= i < items.len() ==> is_plain(#[trigger] items[i]),
        JsonView::Object(fields) => forall|i: int|
            0 <= i < fields.len() ==> is_plain((#[trigger] fields[i]).1),
        _ => true,
    }
}

/// A decimal numeral reads back as the number that it was written for, is made of
/// digits, and begins with a zero for zero alone.
pub proof fn law_numerals_read_back(n: nat)
    ensures
        digits_value(decimal(n)) == n,
        decimal(n).len() > 0,
        forall|i: int| 0 <= i < decimal(n).len() ==> '0' <= #[trigger] decimal(n)[i] <= '9',
        decimal(n)[0] == '0' ==> n == 0,
    decreases n,
{
    if n < 10 {
        assert(decimal(n).drop_last() =~= Seq::empty());
        assert(decimal(n).last() == digit_char(n));
        assert(digits_value(decimal(n).drop_last()) == 0);
        assert(digit_char(n) as u32 == 48 + n);
    } else {
        law_numerals_read_back(n / 10);
        assert(decimal(n).drop_last() =~= decimal(n / 10));
        assert(decimal(n).last() == digit_char(n % 10));
        assert(digit_char(n % 10) as u32 == 48 + n % 10);
        assert(n == (n / 10) * 10 + n % 10) by (nonlinear_arith);
        assert(decimal(n)[0] == decimal(n / 10)[0]);
    }
}

/// Different numbers have different numerals.
pub proof fn law_numerals_are_unique(a: nat, b: nat)
    requires
        decimal(a) == decimal(b),
    ensures
        a == b,
{
    law_numerals_read_back(a);
    law_numerals_read_back(b);
}

/// The text of a numeral can be that of a number.
pub proof fn lemma_decimal_is_number(n: nat)
    ensures
        is_number_text(decimal(n)),
{
    law_numerals_read_back(n);
}

// ---------------------------------------------------------------
// Strings
// ---------------------------------------------------------------

proof fn lemma_escaped_front(s: Seq<char>)
    requires
        s.len() > 0,
    ensures
        escaped(s) == char_form(s[0]) + escaped(s.drop_first()),
    decreases s.len(),
{
    if s.len() == 1 {
        assert(s.drop_last() =~= Seq::empty());
        assert(s.drop_first() =~= Seq::empty());
        assert(escaped(s.drop_last()) =~= Seq::empty());
        assert(escaped(s) =~= char_form(s[0]) + escaped(s.drop_first()));
    } else {
        lemma_escaped_front(s.drop_last());
        assert(s.drop_last().drop_first() =~= s.drop_first().drop_last());
        assert(s.drop_first().last() == s.last());
        assert(escaped(s) =~= char_form(s[0]) + escaped(s.drop_first()));
    }
}

proof fn lemma_hex_of_byte(b: u8)
    ensures
        hex(seq![b]) == seq![hex_digit(b / 16), hex_digit(b % 16)],
{
    let bytes = seq![b];
    assert(bytes.drop_last() =~= Seq::empty());
    assert(hex(bytes.drop_last()) =~= Seq::empty());
    assert(hex(bytes) =~= seq![hex_digit(b / 16), hex_digit(b % 16)]);
}

proof fn lemma_hex_digit_unique(a: u8, b: u8)
    requires
        a < 16,
        b < 16,
        hex_digit(a) == hex_digit(b),
    ensures
        a == b,
{
}

/// No form of a character is the beginning of another, and none begins with a
/// double quote.
proof fn lemma_char_form(c: char, d: char, s: Seq<char>, t: Seq<char>)
    ensures
        char_form(c).len() > 0,
        char_form(c)[0] != '"',
        char_form(c) + s == char_form(d) + t ==> c == d && s == t,
{
    let x = char_form(c) + s;
    let y = char_form(d) + t;
    if !(' ' <= c) {
        lemma_hex_of_byte(c as u8);
    }
    if !(' ' <= d) {
        lemma_hex_of_byte(d as u8);
    }
    assert(x.len() == char_form(c).len() + s.len());
    assert(y.len() == char_form(d).len() + t.len());
    if x == y {
        assert(x[0] == char_form(c)[0]);
        assert(y[0] == char_form(d)[0]);
        if x[0] == '\\' {
            assert(x[1] == char_form(c)[1]);
            assert(y[1] == char_form(d)[1]);
            if x[1] == 'u' {
                assert(x[4] == char_form(c)[4] && x[5] == char_form(c)[5]);
                assert(y[4] == char_form(d)[4] && y[5] == char_form(d)[5]);
                lemma_hex_digit_unique((c as u8) / 16, (d as u8) / 16);
                lemma_hex_digit_unique((c as u8) % 16, (d as u8) % 16);
                assert(c as u8 == d as u8);
                assert(c == d);
            } else {
                assert(c == d);
            }
        } else {
            assert(c == d);
        }
        assert(s =~= x.skip(char_form(c).len() as int));
        assert(t =~= y.skip(char_form(d).len() as int));
    }
}

proof fn lemma_escaped_unique(a: Seq<char>, b: Seq<char>, s: Seq<char>, t: Seq<char>)
    requires
        s.len() > 0 && s[0] == '"',
        t.len() > 0 && t[0] == '"',
        escaped(a) + s == escaped(b) + t,
    ensures
        a == b,
        s == t,
    decreases a.len(),
{
    let x = escaped(a) + s;
    let y = escaped(b) + t;
    if a.len() == 0 {
        assert(x =~= s);
        if b.len() > 0 {
            lemma_escaped_front(b);
            lemma_char_form(b[0], b[0], s, t);
            assert(y[0] == char_form(b[0])[0]);
        } else {
            assert(y =~= t);
            assert(a =~= b);
        }
    } else {
        lemma_escaped_front(a);
        lemma_char_form(a[0], a[0], s, t);
        assert(x[0] == char_form(a[0])[0]);
        if b.len() == 0 {
            assert(y =~= t);
        } else {
            lemma_escaped_front(b);
            let u = escaped(a.drop_first()) + s;
            let v = escaped(b.drop_first()) + t;
            assert(x =~= char_form(a[0]) + u);
            assert(y =~= char_form(b[0]) + v);
            lemma_char_form(a[0], b[0], u, v);
            lemma_escaped_unique(a.drop_first(), b.drop_first(), s, t);
            assert(a =~= seq![a[0]] + a.drop_first());
            assert(b =~= seq![b[0]] + b.drop_first());
        }
    }
}

proof fn lemma_string_unique(a: Seq<char>, b: Seq<char>, s: Seq<char>, t: Seq<char>)
    requires
        string_form(a) + s == string_form(b) + t,
    ensures
        a == b,
        s == t,
{
    let x = string_form(a) + s;
    let y = string_form(b) + t;
    let u = seq!['"'] + s;
    let v = seq!['"'] + t;
    assert(x.drop_first() =~= escaped(a) + u);
    assert(y.drop_first() =~= escaped(b) + v);
    lemma_escaped_unique(a, b, u, v);
    assert(s =~= u.drop_first());
    assert(t =~= v.drop_first());
}

/// Different strings have different forms.
pub proof fn law_string_forms_are_unique(a: Seq<char>, b: Seq<char>)
    requires
        string_form(a) == string_form(b),
    ensures
        a == b,
{
    assert(string_form(a) + Seq::<char>::empty() =~= string_form(a));
    assert(string_form(b) + Seq::<char>::empty() =~= string_form(b));
    lemma_string_unique(a, b, Seq::empty(), Seq::empty());
}

// ---------------------------------------------------------------
// Values
// ---------------------------------------------------------------

/// True when a text can follow a value: it is empty, or goes on with a comma or
/// the end of a list or an object.
spec fn follows(s: Seq<char>) -> bool {
    s.len() == 0 || s[0] == ',' || s[0] == ']' || s[0] == '}'
}

/// The values of a list from position `i` on, up to its end.
spec fn items_from(items: Seq<JsonView>, i: int) -> Seq<char>
    decreases items.len() - i,
{
    if i < 0 || i >= items.len() {
        "]"@
    } else if i == 0 {
        compact(items[i]) + items_from(items, i + 1)
    } else {
        ","@ + compact(items[i]) + items_from(items, i + 1)
    }
}

proof fn lemma_items_from(items: Seq<JsonView>, n: int)
    requires
        0 <= n <= items.len(),
    ensures
        compact_items(items, n) + items_from(items, n) == items_from(items, 0),
    decreases n,
{
    if n == 0 {
        assert(compact_items(items, 0) + items_from(items, 0) =~= items_from(items, 0));
    } else {
        lemma_items_from(items, n - 1);
        if n == 1 {
            assert(compact_items(items, n) + items_from(items, n) =~= compact_items(items, n - 1)
                + items_from(items, n - 1));
        } else {
            assert(compact_items(items, n) + items_from(items, n) =~= compact_items(items, n - 1)
                + items_from(items, n - 1));
        }
    }
}

/// The members of an object from position `i` on, up to its end.
spec fn fields_from(fields: Seq<(Seq<char>, JsonView)>, i: int) -> Seq<char>
    decreases fields.len() - i,
{
    if i < 0 || i >= fields.len() {
        "}"@
    } else if i == 0 {
        compact_field(fields[i]) + fields_from(fields, i + 1)
    } else {
        ","@ + compact_field(fields[i]) + fields_from(fields, i + 1)
    }
}

proof fn lemma_fields_from(fields: Seq<(Seq<char>, JsonView)>, n: int)
    requires
        0 <= n <= fields.len(),
    ensures
        compact_fields(fields, n) + fields_from(fields, n) == fields_from(fields, 0),
    decreases n,
{
    if n == 0 {
        assert(compact_fields(fields, 0) + fields_from(fields, 0) =~= fields_from(fields, 0));
    } else {
        lemma_fields_from(fields, n - 1);
        assert(compact_fields(fields, n) + fields_from(fields, n) =~= compact_fields(fields, n - 1)
            + fields_from(fields, n - 1));
    }
}

/// The members of a value are as plain as the value.
proof fn lemma_plain_members(value: JsonView)
    requires
        is_plain(value),
    ensures
        value matches JsonView::Array(items) ==> forall|i: int|
            0 <= i < items.len() ==> is_plain(#[trigger] items[i]),
        value matches JsonView::Object(fields) ==> forall|i: int|
            0 <= i < fields.len() ==> is_plain((#[trigger] fields[i]).1),
{
    match value {
        JsonView::Array(items) => {},
        JsonView::Object(fields) => {},
        _ => {},
    }
}

/// How the text of a value begins.
proof fn lemma_first_char(value: JsonView)
    requires
        is_plain(value),
    ensures
        compact(value).len() > 0,
        match value {
            JsonView::Null => compact(value)[0] == 'n',
            JsonView::Bool(b) => compact(value)[0] == if b {
                't'
            } else {
                'f'
            },
            JsonView::Number(_) => is_number_char(compact(value)[0]),
            JsonView::String(_) => compact(value)[0] == '"',
            JsonView::Array(_) => compact(value)[0] == '[',
            JsonView::Object(_) => compact(value)[0] == '{',
        },
{
    reveal_strlit("null");
    reveal_strlit("true");
    reveal_strlit("false");
    reveal_strlit("[");
    reveal_strlit("{");
}

proof fn lemma_number_unique(a: Seq<char>, b: Seq<char>, s: Seq<char>, t: Seq<char>)
    requires
        is_number_text(a),
        is_number_text(b),
        follows(s),
        follows(t),
        a + s == b + t,
    ensures
        a == b,
        s == t,
{
    let x = a + s;
    let y = b + t;
    if a.len() < b.len() {
        assert(x[a.len() as int] == s[0]);
        assert(y[a.len() as int] == b[a.len() as int]);
    }
    if b.len() < a.len() {
        assert(y[b.len() as int] == t[0]);
        assert(x[b.len() as int] == a[b.len() as int]);
    }
    assert(a =~= x.take(a.len() as int));
    assert(b =~= y.take(b.len() as int));
    assert(s =~= x.skip(a.len() as int));
    assert(t =~= y.skip(b.len() as int));
}

/// A value can be told from its text, whatever follows it.
proof fn lemma_value_unique(a: JsonView, b: JsonView, s: Seq<char>, t: Seq<char>)
    requires
        is_plain(a),
        is_plain(b),
        follows(s),
        follows(t),
        compact(a) + s == compact(b) + t,
    ensures
        a == b,
        s == t,
    decreases a, 0int,
{
    let x = compact(a) + s;
    let y = compact(b) + t;
    lemma_first_char(a);
    lemma_first_char(b);
    lemma_plain_members(a);
    lemma_plain_members(b);
    assert(x[0] == compact(a)[0]);
    assert(y[0] == compact(b)[0]);
    match a {
        JsonView::Null => {
            assert(b is Null);
            assert(s =~= x.skip(compact(a).len() as int));
            assert(t =~= y.skip(compact(b).len() as int));
        },
        JsonView::Bool(_) => {
            assert(b == a);
            assert(s =~= x.skip(compact(a).len() as int));
            assert(t =~= y.skip(compact(b).len() as int));
        },
        JsonView::Number(n) => {
            assert(b is Number);
            lemma_number_unique(n, b->Number_0, s, t);
        },
        JsonView::String(text) => {
            assert(b is String);
            lemma_string_unique(text, b->String_0, s, t);
        },
        JsonView::Array(items) => {
            assert(b is Array);
            let others = b->Array_0;
            reveal_strlit("[");
            lemma_items_from(items, items.len() as int);
            lemma_items_from(others, others.len() as int);
            assert(x =~= "["@ + (items_from(items, 0) + s));
            assert(y =~= "["@ + (items_from(others, 0) + t));
            assert(x.drop_first() =~= items_from(items, 0) + s);
            assert(y.drop_first() =~= items_from(others, 0) + t);
            lemma_items_unique(items, others, 0, s, t);
            assert(items =~= others);
        },
        JsonView::Object(fields) => {
            assert(b is Object);
            let others = b->Object_0;
            reveal_strlit("{");
            lemma_fields_from(fields, fields.len() as int);
            lemma_fields_from(others, others.len() as int);
            assert(x =~= "{"@ + (fields_from(fields, 0) + s));
            assert(y =~= "{"@ + (fields_from(others, 0) + t));
            assert(x.drop_first() =~= fields_from(fields, 0) + s);
            assert(y.drop_first() =~= fields_from(others, 0) + t);
            lemma_fields_unique(fields, others, 0, s, t);
            assert(fields =~= others);
        },
    }
}

/// How the text of a list goes on at position `i`.
proof fn lemma_items_begin(items: Seq<JsonView>, i: int)
    requires
        forall|k: int| 0 <= k < items.len() ==> is_plain(#[trigger] items[k]),
        0 <= i <= items.len(),
    ensures
        items_from(items, i).len() > 0,
        i == items.len() ==> items_from(items, i)[0] == ']',
        0 < i < items.len() ==> items_from(items, i)[0] == ',',
        i < items.len() ==> items_from(items, i)[0] != ']',
{
    reveal_strlit("]");
    reveal_strlit(",");
    if i < items.len() {
        assert(is_plain(items[i]));
        lemma_first_char(items[i]);
        if i == 0 {
            assert(items_from(items, i)[0] == compact(items[i])[0]);
        } else {
            assert(items_from(items, i)[0] == ","@[0]);
        }
    }
}

proof fn lemma_items_unique(
    items: Seq<JsonView>,
    others: Seq<JsonView>,
    i: int,
    s: Seq<char>,
    t: Seq<char>,
)
    requires
        forall|k: int| 0 <= k < items.len() ==> is_plain(#[trigger] items[k]),
        forall|k: int| 0 <= k < others.len() ==> is_plain(#[trigger] others[k]),
        0 <= i <= items.len(),
        i <= others.len(),
        items_from(items, i) + s == items_from(others, i) + t,
    ensures
        items.len() == others.len(),
        forall|k: int| i <= k < items.len() ==> items[k] == others[k],
        s == t,
    decreases items, items.len() - i,
{
    let x = items_from(items, i) + s;
    let y = items_from(others, i) + t;
    lemma_items_begin(items, i);
    lemma_items_begin(others, i);
    assert(x[0] == items_from(items, i)[0]);
    assert(y[0] == items_from(others, i)[0]);
    reveal_strlit("]");
    reveal_strlit(",");
    if i == items.len() {
        assert(s =~= x.drop_first());
        assert(t =~= y.drop_first());
    } else {
        let u = items_from(items, i + 1) + s;
        let v = items_from(others, i + 1) + t;
        lemma_items_begin(items, i + 1);
        lemma_items_begin(others, i + 1);
        assert(u[0] == items_from(items, i + 1)[0]);
        assert(v[0] == items_from(others, i + 1)[0]);
        if i == 0 {
            assert(x =~= compact(items[i]) + u);
            assert(y =~= compact(others[i]) + v);
        } else {
            assert(x.drop_first() =~= compact(items[i]) + u);
            assert(y.drop_first() =~= compact(others[i]) + v);
        }
        lemma_value_unique(items[i], others[i], u, v);
        lemma_items_unique(items, others, i + 1, s, t);
        assert forall|k: int| i <= k < items.len() implies items[k] == others[k] by {
            if k > i {
                assert(items[k] == others[k]);
            }
        }
    }
}

/// How the text of an object goes on at position `i`.
proof fn lemma_fields_begin(fields: Seq<(Seq<char>, JsonView)>, i: int)
    requires
        0 <= i <= fields.len(),
    ensures
        fields_from(fields, i).len() > 0,
        i == fields.len() ==> fields_from(fields, i)[0] == '}',
        0 < i < fields.len() ==> fields_from(fields, i)[0] == ',',
        i < fields.len() ==> fields_from(fields, i)[0] != '}',
{
    reveal_strlit("}");
    reveal_strlit(",");
    if i < fields.len() {
        assert(compact_field(fields[i])[0] == '"');
        if i == 0 {
            assert(fields_from(fields, i)[0] == compact_field(fields[i])[0]);
        } else {
            assert(fields_from(fields, i)[0] == ","@[0]);
        }
    }
}

/// The text of an object from a member on: its name, a colon, its value and the
/// rest.
proof fn lemma_field_split(fields: Seq<(Seq<char>, JsonView)>, i: int, s: Seq<char>)
    requires
        0 <= i < fields.len(),
    ensures
        ({
            let x = fields_from(fields, i) + s;
            let rest = fields_from(fields, i + 1) + s;
            string_form(fields[i].0) + (":"@ + (compact(fields[i].1) + rest)) == if i == 0 {
                x
            } else {
                x.drop_first()
            }
        }),
{
    reveal_strlit(",");
    let x = fields_from(fields, i) + s;
    let rest = fields_from(fields, i + 1) + s;
    let text = string_form(fields[i].0) + (":"@ + (compact(fields[i].1) + rest));
    assert(compact_field(fields[i]) + rest =~= text);
    if i == 0 {
        assert(x =~= compact_field(fields[i]) + rest);
    } else {
        assert(x.drop_first() =~= compact_field(fields[i]) + rest);
    }
}

proof fn lemma_fields_unique(
    fields: Seq<(Seq<char>, JsonView)>,
    others: Seq<(Seq<char>, JsonView)>,
    i: int,
    s: Seq<char>,
    t: Seq<char>,
)
    requires
        forall|k: int| 0 <= k < fields.len() ==> is_plain((#[trigger] fields[k]).1),
        forall|k: int| 0 <= k < others.len() ==> is_plain((#[trigger] others[k]).1),
        0 <= i <= fields.len(),
        i <= others.len(),
        fields_from(fields, i) + s == fields_from(others, i) + t,
    ensures
        fields.len() == others.len(),
        forall|k: int| i <= k < fields.len() ==> fields[k] == others[k],
        s == t,
    decreases fields, fields.len() - i,
{
    let x = fields_from(fields, i) + s;
    let y = fields_from(others, i) + t;
    lemma_fields_begin(fields, i);
    lemma_fields_begin(others, i);
    assert(x[0] == fields_from(fields, i)[0]);
    assert(y[0] == fields_from(others, i)[0]);
    reveal_strlit("}");
    reveal_strlit(",");
    reveal_strlit(":");
    if i == fields.len() {
        assert(s =~= x.drop_first());
        assert(t =~= y.drop_first());
    } else {
        let u = fields_from(fields, i + 1) + s;
        let v = fields_from(others, i + 1) + t;
        lemma_fields_begin(fields, i + 1);
        lemma_fields_begin(others, i + 1);
        assert(u[0] == fields_from(fields, i + 1)[0]);
        assert(v[0] == fields_from(others, i + 1)[0]);
        let p = ":"@ + (compact(fields[i].1) + u);
        let q = ":"@ + (compact(others[i].1) + v);
        lemma_field_split(fields, i, s);
        lemma_field_split(others, i, t);
        lemma_string_unique(fields[i].0, others[i].0, p, q);
        assert(p.drop_first() =~= compact(fields[i].1) + u);
        assert(q.drop_first() =~= compact(others[i].1) + v);
        lemma_value_unique(fields[i].1, others[i].1, u, v);
        lemma_fields_unique(fields, others, i + 1, s, t);
        assert(fields[i] == others[i]);
        assert forall|k: int| i <= k < fields.len() implies fields[k] == others[k] by {
            if k > i {
                assert(fields[k] == others[k]);
            }
        }
    }
}

/// Different values have different texts: the text tells the kind of the value,
/// every member of it, their names and their order.
pub proof fn law_text_determines_the_value(a: JsonView, b: JsonView)
    requires
        is_plain(a),
        is_plain(b),
        compact(a) == compact(b),
    ensures
        a == b,
{
    assert(compact(a) + Seq::<char>::empty() =~= compact(a));
    assert(compact(b) + Seq::<char>::empty() =~= compact(b));
    lemma_value_unique(a, b, Seq::empty(), Seq::empty());
}

/// How values are written: words for the null value and the truth values, the
/// members of a list in square brackets and those of an object in curly ones, with
/// commas between them, a colon behind each name, and no white space.
pub proof fn law_values_are_written_compactly(
    items: Seq<JsonView>,
    item: JsonView,
    fields: Seq<(Seq<char>, JsonView)>,
    name: Seq<char>,
)
    ensures
        compact(JsonView::Null) == "null"@,
        compact(JsonView::Bool(true)) == "true"@,
        compact(JsonView::Bool(false)) == "false"@,
        compact(JsonView::Number(name)) == name,
        compact(JsonView::String(name)) == string_form(name),
        compact(JsonView::Array(Seq::empty())) == seq!['[', ']'],
        compact(JsonView::Array(items.push(item))) == compact(JsonView::Array(items)).drop_last()
            + (if items.len() > 0 {
            seq![',']
        } else {
            Seq::empty()
        }) + compact(item) + seq![']'],
        compact(JsonView::Object(Seq::empty())) == seq!['{', '}'],
        compact(JsonView::Object(fields.push((name, item)))) == compact(
            JsonView::Object(fields),
        ).drop_last() + (if fields.len() > 0 {
            seq![',']
        } else {
            Seq::empty()
        }) + string_form(name) + seq![':'] + compact(item) + seq!['}'],
{
    reveal_strlit("[");
    reveal_strlit("]");
    reveal_strlit("{");
    reveal_strlit("}");
    reveal_strlit(",");
    reveal_strlit(":");
    assert("["@ =~= seq!['[']);
    assert("]"@ =~= seq![']']);
    assert("{"@ =~= seq!['{']);
    assert("}"@ =~= seq!['}']);
    assert(","@ =~= seq![',']);
    assert(":"@ =~= seq![':']);
    let none = Seq::<JsonView>::empty();
    let bare = Seq::<(Seq<char>, JsonView)>::empty();
    assert(compact(JsonView::Array(none)) =~= seq!['[', ']']);
    assert(compact(JsonView::Object(bare)) =~= seq!['{', '}']);
    let longer = items.push(item);
    let n = items.len() as int;
    lemma_items_of_prefix(items, item, n);
    assert(compact(JsonView::Array(items)).drop_last() =~= "["@ + compact_items(items, n));
    assert(compact_items(longer, n + 1) =~= compact_items(items, n) + (if n > 0 {
        seq![',']
    } else {
        Seq::empty()
    }) + compact(item));
    assert(compact(JsonView::Array(longer)) =~= compact(JsonView::Array(items)).drop_last() + (
    if items.len() > 0 {
        seq![',']
    } else {
        Seq::empty()
    }) + compact(item) + seq![']']);
    let wider = fields.push((name, item));
    let m = fields.len() as int;
    lemma_fields_of_prefix(fields, (name, item), m);
    assert(compact(JsonView::Object(fields)).drop_last() =~= "{"@ + compact_fields(fields, m));
    assert(compact_field((name, item)) =~= string_form(name) + seq![':'] + compact(item));
    assert(compact_fields(wider, m + 1) =~= compact_fields(fields, m) + (if m > 0 {
        seq![',']
    } else {
        Seq::empty()
    }) + compact_field((name, item)));
    assert(compact(JsonView::Object(wider)) =~= compact(JsonView::Object(fields)).drop_last() + (
    if fields.len() > 0 {
        seq![',']
    } else {
        Seq::empty()
    }) + string_form(name) + seq![':'] + compact(item) + seq!['}']);
}

proof fn lemma_items_of_prefix(items: Seq<JsonView>, item: JsonView, n: int)
    requires
        0 <= n <= items.len(),
    ensures
        compact_items(items.push(item), n) == compact_items(items, n),
    decreases n,
{
    if n > 0 {
        lemma_items_of_prefix(items, item, n - 1);
        assert(items.push(item)[n - 1] == items[n - 1]);
        assert(items.push(item)[0] == items[0]);
    }
}

proof fn lemma_fields_of_prefix(
    fields: Seq<(Seq<char>, JsonView)>,
    field: (Seq<char>, JsonView),
    n: int,
)
    requires
        0 <= n <= fields.len(),
    ensures
        compact_fields(fields.push(field), n) == compact_fields(fields, n),
    decreases n,
{
    if n > 0 {
        lemma_fields_of_prefix(fields, field, n - 1);
        assert(fields.push(field)[n - 1] == fields[n - 1]);
        assert(fields.push(field)[0] == fields[0]);
    }
}

} // verus!
