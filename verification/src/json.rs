//! The JSON value model and its text form.
//!
//! Messages travel as UTF-8 JSON text. This module gives the runtime its own
//! JSON tree (`JsonValue`), a canonical serializer, and a parser, each with a
//! mathematical model, so that the codec above them can be proved to
//! round-trip. Numbers are 64-bit signed integers. The serializer escapes
//! quotes, backslashes and control characters; the parser accepts the
//! grammar's short escapes, control-range code escapes and whitespace
//! between tokens, so every string value survives the trip.

use vstd::prelude::*;

verus! {

/// A JSON value: the unit the codec and the method parameters are made of.
pub enum JsonValue {
    Null,
    Bool(bool),
    Int(i64),
    Str(String),
    Arr(Vec<JsonValue>),
    Obj(Vec<(String, JsonValue)>),
}

/// The mathematical model of a `JsonValue`.
pub enum JsonVal {
    Null,
    Bool(bool),
    Int(i64),
    Str(Seq<char>),
    Arr(Seq<JsonVal>),
    Obj(Seq<(Seq<char>, JsonVal)>),
}

/// The model of a sequence of values.
pub open spec fn arr_view(items: Seq<JsonValue>) -> Seq<JsonVal>
    decreases items,
{
    Seq::new(items.len(), |i: int| if 0 <= i < items.len() {
        items[i]@
    } else {
        JsonVal::Null
    })
}

/// The model of a sequence of object members.
pub open spec fn obj_view(members: Seq<(String, JsonValue)>) -> Seq<(Seq<char>, JsonVal)>
    decreases members,
{
    Seq::new(members.len(), |i: int| if 0 <= i < members.len() {
        (members[i].0@, members[i].1@)
    } else {
        (Seq::empty(), JsonVal::Null)
    })
}

impl View for JsonValue {
    type V = JsonVal;

    open spec fn view(&self) -> JsonVal
        decreases self,
    {
        match self {
            JsonValue::Null => JsonVal::Null,
            JsonValue::Bool(b) => JsonVal::Bool(*b),
            JsonValue::Int(n) => JsonVal::Int(*n),
            JsonValue::Str(s) => JsonVal::Str(s@),
            JsonValue::Arr(items) => JsonVal::Arr(arr_view(items@)),
            JsonValue::Obj(members) => JsonVal::Obj(obj_view(members@)),
        }
    }
}

impl JsonValue {
    /// An owned copy of the value, equal to it in the model.
    pub fn deep_clone(&self) -> (r: JsonValue)
        ensures
            r@ == self@,
        decreases self, 0int,
    {
        match self {
            JsonValue::Null => JsonValue::Null,
            JsonValue::Bool(b) => JsonValue::Bool(*b),
            JsonValue::Int(n) => JsonValue::Int(*n),
            JsonValue::Str(s) => JsonValue::Str(s.clone()),
            JsonValue::Arr(items) => JsonValue::Arr(clone_values(items)),
            JsonValue::Obj(members) => JsonValue::Obj(clone_members(members)),
        }
    }
}

/// Copies a vector of values, element by element.
pub fn clone_values(items: &Vec<JsonValue>) -> (r: Vec<JsonValue>)
    ensures
        arr_view(r@) == arr_view(items@),
    decreases items, 1int,
{
    let mut r: Vec<JsonValue> = Vec::new();
    let mut i: usize = 0;
    while i < items.len()
        invariant
            i <= items@.len(),
            r@.len() == i,
            forall|k: int| 0 <= k < i ==> r@[k]@ == #[trigger] items@[k]@,
        decreases items@.len() - i,
    {
        r.push(items[i].deep_clone());
        i = i + 1;
    }
    proof {
        assert forall|k: int| 0 <= k < items@.len() implies arr_view(r@)[k] == arr_view(
            items@,
        )[k] by {
            assert(r@[k]@ == items@[k]@);
        }
        assert(arr_view(r@) =~= arr_view(items@));
    }
    r
}

/// Copies a vector of object members, member by member.
pub fn clone_members(members: &Vec<(String, JsonValue)>) -> (r: Vec<(String, JsonValue)>)
    ensures
        obj_view(r@) == obj_view(members@),
    decreases members, 1int,
{
    let mut r: Vec<(String, JsonValue)> = Vec::new();
    let mut i: usize = 0;
    while i < members.len()
        invariant
            i <= members@.len(),
            r@.len() == i,
            forall|k: int|
                0 <= k < i ==> r@[k].0@ == #[trigger] members@[k].0@ && r@[k].1@
                    == members@[k].1@,
        decreases members@.len() - i,
    {
        let m = &members[i];
        r.push((m.0.clone(), m.1.deep_clone()));
        i = i + 1;
    }
    proof {
        assert(i == members@.len());
        assert forall|k: int| 0 <= k < members@.len() implies obj_view(r@)[k] == obj_view(
            members@,
        )[k] by {
            assert(r@[k].0@ == members@[k].0@);
            assert(r@[k].1@ == members@[k].1@);
        }
        assert(obj_view(r@) =~= obj_view(members@));
    }
    r
}

/// The first member of an object with the given key, if any.
pub open spec fn jv_lookup(members: Seq<(Seq<char>, JsonVal)>, key: Seq<char>) -> Option<JsonVal>
    decreases members.len(),
{
    if members.len() == 0 {
        None
    } else if members[0].0 == key {
        Some(members[0].1)
    } else {
        jv_lookup(members.drop_first(), key)
    }
}

/// A character that may stand raw inside a JSON string: neither a quote, nor
/// a backslash, nor a control character.
pub open spec fn is_plain_char(c: char) -> bool {
    c != '"' && c != '\\' && (c as u32) >= 32
}

// ---------------------------------------------------------------------------
// Serialization: the canonical text of a value.
// ---------------------------------------------------------------------------
/// The decimal digit character for `d < 10`.
pub open spec fn digit_char(d: nat) -> char {
    if d == 0 {
        '0'
    } else if d == 1 {
        '1'
    } else if d == 2 {
        '2'
    } else if d == 3 {
        '3'
    } else if d == 4 {
        '4'
    } else if d == 5 {
        '5'
    } else if d == 6 {
        '6'
    } else if d == 7 {
        '7'
    } else if d == 8 {
        '8'
    } else {
        '9'
    }
}

/// The decimal digits of `n`, most significant first.
pub open spec fn dec_digits(n: nat) -> Seq<char>
    decreases n,
{
    if n < 10 {
        seq![digit_char(n)]
    } else {
        dec_digits(n / 10).push(digit_char(n % 10))
    }
}

/// The hexadecimal digit character for `d < 16`, lower case.
pub open spec fn hex_char(d: nat) -> char {
    if d == 0 {
        '0'
    } else if d == 1 {
        '1'
    } else if d == 2 {
        '2'
    } else if d == 3 {
        '3'
    } else if d == 4 {
        '4'
    } else if d == 5 {
        '5'
    } else if d == 6 {
        '6'
    } else if d == 7 {
        '7'
    } else if d == 8 {
        '8'
    } else if d == 9 {
        '9'
    } else if d == 10 {
        'a'
    } else if d == 11 {
        'b'
    } else if d == 12 {
        'c'
    } else if d == 13 {
        'd'
    } else if d == 14 {
        'e'
    } else {
        'f'
    }
}

/// The character with the given code point; used for the control range.
pub open spec fn control_char(v: nat) -> char {
    (v as u32) as char
}

/// How one character stands in a string's text: quotes and backslashes
/// behind a backslash, control characters as a four-digit code escape,
/// everything else raw.
pub open spec fn esc_char(c: char) -> Seq<char> {
    if c == '"' {
        seq!['\\', '"']
    } else if c == '\\' {
        seq!['\\', '\\']
    } else if (c as u32) < 32 {
        seq![
            '\\',
            'u',
            '0',
            '0',
            hex_char(((c as u32) / 16) as nat),
            hex_char(((c as u32) % 16) as nat),
        ]
    } else {
        seq![c]
    }
}

/// The text of a string's body, character by character.
pub open spec fn jser_str_body(s: Seq<char>) -> Seq<char>
    decreases s.len(),
{
    if s.len() == 0 {
        Seq::empty()
    } else {
        esc_char(s[0]) + jser_str_body(s.drop_first())
    }
}

/// The text of a 64-bit integer.
pub open spec fn jser_int(n: i64) -> Seq<char> {
    if n >= 0 {
        dec_digits(n as nat)
    } else {
        seq!['-'] + dec_digits((-(n as int)) as nat)
    }
}

/// The canonical text of a value: no spaces between tokens, strings escaped
/// as needed, members in order.
pub open spec fn jser(v: JsonVal) -> Seq<char>
    decreases v,
{
    match v {
        JsonVal::Null => seq!['n', 'u', 'l', 'l'],
        JsonVal::Bool(b) => if b {
            seq!['t', 'r', 'u', 'e']
        } else {
            seq!['f', 'a', 'l', 's', 'e']
        },
        JsonVal::Int(n) => jser_int(n),
        JsonVal::Str(s) => seq!['"'] + jser_str_body(s) + seq!['"'],
        JsonVal::Arr(elems) => seq!['['] + jser_elems(elems) + seq![']'],
        JsonVal::Obj(members) => seq!['{'] + jser_members(members) + seq!['}'],
    }
}

/// The text of the elements of a non-empty array, comma-separated.
/// An empty sequence gives the empty text.
pub open spec fn jser_elems(elems: Seq<JsonVal>) -> Seq<char>
    decreases elems,
{
    if elems.len() == 0 {
        Seq::empty()
    } else if elems.len() == 1 {
        jser(elems[0])
    } else {
        jser(elems[0]) + seq![','] + jser_elems(elems.drop_first())
    }
}

/// The text of the members of a non-empty object, comma-separated.
pub open spec fn jser_members(members: Seq<(Seq<char>, JsonVal)>) -> Seq<char>
    decreases members,
{
    if members.len() == 0 {
        Seq::empty()
    } else if members.len() == 1 {
        jser_member(members[0])
    } else {
        jser_member(members[0]) + seq![','] + jser_members(members.drop_first())
    }
}

/// The text of one object member: quoted key, colon, value.
pub open spec fn jser_member(member: (Seq<char>, JsonVal)) -> Seq<char>
    decreases member,
{
    seq!['"'] + jser_str_body(member.0) + seq!['"'] + seq![':'] + jser(member.1)
}

/// The one-character string for a decimal digit.
fn digit_str(d: u64) -> (r: &'static str)
    requires
        d < 10,
    ensures
        r@ =~= seq![digit_char(d as nat)],
{
    proof {
        reveal_strlit("0");
        reveal_strlit("1");
        reveal_strlit("2");
        reveal_strlit("3");
        reveal_strlit("4");
        reveal_strlit("5");
        reveal_strlit("6");
        reveal_strlit("7");
        reveal_strlit("8");
        reveal_strlit("9");
    }
    if d == 0 {
        "0"
    } else if d == 1 {
        "1"
    } else if d == 2 {
        "2"
    } else if d == 3 {
        "3"
    } else if d == 4 {
        "4"
    } else if d == 5 {
        "5"
    } else if d == 6 {
        "6"
    } else if d == 7 {
        "7"
    } else if d == 8 {
        "8"
    } else {
        "9"
    }
}

/// The one-character string for a hexadecimal digit.
fn hex_str(d: u32) -> (r: &'static str)
    requires
        d < 16,
    ensures
        r@ =~= seq![hex_char(d as nat)],
{
    proof {
        reveal_strlit("0");
        reveal_strlit("1");
        reveal_strlit("2");
        reveal_strlit("3");
        reveal_strlit("4");
        reveal_strlit("5");
        reveal_strlit("6");
        reveal_strlit("7");
        reveal_strlit("8");
        reveal_strlit("9");
        reveal_strlit("a");
        reveal_strlit("b");
        reveal_strlit("c");
        reveal_strlit("d");
        reveal_strlit("e");
        reveal_strlit("f");
    }
    if d == 0 {
        "0"
    } else if d == 1 {
        "1"
    } else if d == 2 {
        "2"
    } else if d == 3 {
        "3"
    } else if d == 4 {
        "4"
    } else if d == 5 {
        "5"
    } else if d == 6 {
        "6"
    } else if d == 7 {
        "7"
    } else if d == 8 {
        "8"
    } else if d == 9 {
        "9"
    } else if d == 10 {
        "a"
    } else if d == 11 {
        "b"
    } else if d == 12 {
        "c"
    } else if d == 13 {
        "d"
    } else if d == 14 {
        "e"
    } else {
        "f"
    }
}

/// The one-character string for a control character's code.
fn control_str(d: u32) -> (r: &'static str)
    requires
        d < 32,
    ensures
        r@ =~= seq![control_char(d as nat)],
{
    if d == 0 {
        proof {
            reveal_strlit("\u{0}");
            assert(('\u{0}' as u32) == 0);
            vstd::utf8::char_u32_cast('\u{0}', 0);
            assert(("\u{0}")@ =~= seq![control_char(0)]);
        }
        "\u{0}"
    } else if d == 1 {
        proof {
            reveal_strlit("\u{1}");
            assert(('\u{1}' as u32) == 1);
            vstd::utf8::char_u32_cast('\u{1}', 1);
            assert(("\u{1}")@ =~= seq![control_char(1)]);
        }
        "\u{1}"
    } else if d == 2 {
        proof {
            reveal_strlit("\u{2}");
            assert(('\u{2}' as u32) == 2);
            vstd::utf8::char_u32_cast('\u{2}', 2);
            assert(("\u{2}")@ =~= seq![control_char(2)]);
        }
        "\u{2}"
    } else if d == 3 {
        proof {
            reveal_strlit("\u{3}");
            assert(('\u{3}' as u32) == 3);
            vstd::utf8::char_u32_cast('\u{3}', 3);
            assert(("\u{3}")@ =~= seq![control_char(3)]);
        }
        "\u{3}"
    } else if d == 4 {
        proof {
            reveal_strlit("\u{4}");
            assert(('\u{4}' as u32) == 4);
            vstd::utf8::char_u32_cast('\u{4}', 4);
            assert(("\u{4}")@ =~= seq![control_char(4)]);
        }
        "\u{4}"
    } else if d == 5 {
        proof {
            reveal_strlit("\u{5}");
            assert(('\u{5}' as u32) == 5);
            vstd::utf8::char_u32_cast('\u{5}', 5);
            assert(("\u{5}")@ =~= seq![control_char(5)]);
        }
        "\u{5}"
    } else if d == 6 {
        proof {
            reveal_strlit("\u{6}");
            assert(('\u{6}' as u32) == 6);
            vstd::utf8::char_u32_cast('\u{6}', 6);
            assert(("\u{6}")@ =~= seq![control_char(6)]);
        }
        "\u{6}"
    } else if d == 7 {
        proof {
            reveal_strlit("\u{7}");
            assert(('\u{7}' as u32) == 7);
            vstd::utf8::char_u32_cast('\u{7}', 7);
            assert(("\u{7}")@ =~= seq![control_char(7)]);
        }
        "\u{7}"
    } else if d == 8 {
        proof {
            reveal_strlit("\u{8}");
            assert(('\u{8}' as u32) == 8);
            vstd::utf8::char_u32_cast('\u{8}', 8);
            assert(("\u{8}")@ =~= seq![control_char(8)]);
        }
        "\u{8}"
    } else if d == 9 {
        proof {
            reveal_strlit("\u{9}");
            assert(('\u{9}' as u32) == 9);
            vstd::utf8::char_u32_cast('\u{9}', 9);
            assert(("\u{9}")@ =~= seq![control_char(9)]);
        }
        "\u{9}"
    } else if d == 10 {
        proof {
            reveal_strlit("\u{a}");
            assert(('\u{a}' as u32) == 10);
            vstd::utf8::char_u32_cast('\u{a}', 10);
            assert(("\u{a}")@ =~= seq![control_char(10)]);
        }
        "\u{a}"
    } else if d == 11 {
        proof {
            reveal_strlit("\u{b}");
            assert(('\u{b}' as u32) == 11);
            vstd::utf8::char_u32_cast('\u{b}', 11);
            assert(("\u{b}")@ =~= seq![control_char(11)]);
        }
        "\u{b}"
    } else if d == 12 {
        proof {
            reveal_strlit("\u{c}");
            assert(('\u{c}' as u32) == 12);
            vstd::utf8::char_u32_cast('\u{c}', 12);
            assert(("\u{c}")@ =~= seq![control_char(12)]);
        }
        "\u{c}"
    } else if d == 13 {
        proof {
            reveal_strlit("\u{d}");
            assert(('\u{d}' as u32) == 13);
            vstd::utf8::char_u32_cast('\u{d}', 13);
            assert(("\u{d}")@ =~= seq![control_char(13)]);
        }
        "\u{d}"
    } else if d == 14 {
        proof {
            reveal_strlit("\u{e}");
            assert(('\u{e}' as u32) == 14);
            vstd::utf8::char_u32_cast('\u{e}', 14);
            assert(("\u{e}")@ =~= seq![control_char(14)]);
        }
        "\u{e}"
    } else if d == 15 {
        proof {
            reveal_strlit("\u{f}");
            assert(('\u{f}' as u32) == 15);
            vstd::utf8::char_u32_cast('\u{f}', 15);
            assert(("\u{f}")@ =~= seq![control_char(15)]);
        }
        "\u{f}"
    } else if d == 16 {
        proof {
            reveal_strlit("\u{10}");
            assert(('\u{10}' as u32) == 16);
            vstd::utf8::char_u32_cast('\u{10}', 16);
            assert(("\u{10}")@ =~= seq![control_char(16)]);
        }
        "\u{10}"
    } else if d == 17 {
        proof {
            reveal_strlit("\u{11}");
            assert(('\u{11}' as u32) == 17);
            vstd::utf8::char_u32_cast('\u{11}', 17);
            assert(("\u{11}")@ =~= seq![control_char(17)]);
        }
        "\u{11}"
    } else if d == 18 {
        proof {
            reveal_strlit("\u{12}");
            assert(('\u{12}' as u32) == 18);
            vstd::utf8::char_u32_cast('\u{12}', 18);
            assert(("\u{12}")@ =~= seq![control_char(18)]);
        }
        "\u{12}"
    } else if d == 19 {
        proof {
            reveal_strlit("\u{13}");
            assert(('\u{13}' as u32) == 19);
            vstd::utf8::char_u32_cast('\u{13}', 19);
            assert(("\u{13}")@ =~= seq![control_char(19)]);
        }
        "\u{13}"
    } else if d == 20 {
        proof {
            reveal_strlit("\u{14}");
            assert(('\u{14}' as u32) == 20);
            vstd::utf8::char_u32_cast('\u{14}', 20);
            assert(("\u{14}")@ =~= seq![control_char(20)]);
        }
        "\u{14}"
    } else if d == 21 {
        proof {
            reveal_strlit("\u{15}");
            assert(('\u{15}' as u32) == 21);
            vstd::utf8::char_u32_cast('\u{15}', 21);
            assert(("\u{15}")@ =~= seq![control_char(21)]);
        }
        "\u{15}"
    } else if d == 22 {
        proof {
            reveal_strlit("\u{16}");
            assert(('\u{16}' as u32) == 22);
            vstd::utf8::char_u32_cast('\u{16}', 22);
            assert(("\u{16}")@ =~= seq![control_char(22)]);
        }
        "\u{16}"
    } else if d == 23 {
        proof {
            reveal_strlit("\u{17}");
            assert(('\u{17}' as u32) == 23);
            vstd::utf8::char_u32_cast('\u{17}', 23);
            assert(("\u{17}")@ =~= seq![control_char(23)]);
        }
        "\u{17}"
    } else if d == 24 {
        proof {
            reveal_strlit("\u{18}");
            assert(('\u{18}' as u32) == 24);
            vstd::utf8::char_u32_cast('\u{18}', 24);
            assert(("\u{18}")@ =~= seq![control_char(24)]);
        }
        "\u{18}"
    } else if d == 25 {
        proof {
            reveal_strlit("\u{19}");
            assert(('\u{19}' as u32) == 25);
            vstd::utf8::char_u32_cast('\u{19}', 25);
            assert(("\u{19}")@ =~= seq![control_char(25)]);
        }
        "\u{19}"
    } else if d == 26 {
        proof {
            reveal_strlit("\u{1a}");
            assert(('\u{1a}' as u32) == 26);
            vstd::utf8::char_u32_cast('\u{1a}', 26);
            assert(("\u{1a}")@ =~= seq![control_char(26)]);
        }
        "\u{1a}"
    } else if d == 27 {
        proof {
            reveal_strlit("\u{1b}");
            assert(('\u{1b}' as u32) == 27);
            vstd::utf8::char_u32_cast('\u{1b}', 27);
            assert(("\u{1b}")@ =~= seq![control_char(27)]);
        }
        "\u{1b}"
    } else if d == 28 {
        proof {
            reveal_strlit("\u{1c}");
            assert(('\u{1c}' as u32) == 28);
            vstd::utf8::char_u32_cast('\u{1c}', 28);
            assert(("\u{1c}")@ =~= seq![control_char(28)]);
        }
        "\u{1c}"
    } else if d == 29 {
        proof {
            reveal_strlit("\u{1d}");
            assert(('\u{1d}' as u32) == 29);
            vstd::utf8::char_u32_cast('\u{1d}', 29);
            assert(("\u{1d}")@ =~= seq![control_char(29)]);
        }
        "\u{1d}"
    } else if d == 30 {
        proof {
            reveal_strlit("\u{1e}");
            assert(('\u{1e}' as u32) == 30);
            vstd::utf8::char_u32_cast('\u{1e}', 30);
            assert(("\u{1e}")@ =~= seq![control_char(30)]);
        }
        "\u{1e}"
    } else if d == 31 {
        proof {
            reveal_strlit("\u{1f}");
            assert(('\u{1f}' as u32) == 31);
            vstd::utf8::char_u32_cast('\u{1f}', 31);
            assert(("\u{1f}")@ =~= seq![control_char(31)]);
        }
        "\u{1f}"
    } else {
        proof {
            reveal_strlit("\u{1f}");
            assert(('\u{1f}' as u32) == 31);
            vstd::utf8::char_u32_cast('\u{1f}', 31);
            assert(("\u{1f}")@ =~= seq![control_char(31)]);
        }
        "\u{1f}"
    }
}

/// Appends the text of `s[k..]`, escaping as the grammar asks.
fn append_escaped(s: &str, n: usize, k: usize, out: &mut String)
    requires
        n == s@.len(),
        k <= n,
    ensures
        final(out)@ == old(out)@ + jser_str_body(s@.skip(k as int)),
    decreases n - k,
{
    if k >= n {
        proof {
            assert(s@.skip(k as int) =~= Seq::<char>::empty());
        }
        return ;
    }
    let c = s.get_char(k);
    let u: u32 = c as u32;
    proof {
        reveal_strlit("\\\"");
        reveal_strlit("\\\\");
        reveal_strlit("\\u00");
        assert(s@.skip(k as int)[0] == s@[k as int]);
        assert(s@.skip(k as int).drop_first() =~= s@.skip(k as int + 1));
    }
    if c == '"' {
        out.append("\\\"");
        proof {
            assert(("\\\"")@ =~= seq!['\\', '"']);
        }
    } else if c == '\\' {
        out.append("\\\\");
        proof {
            assert(("\\\\")@ =~= seq!['\\', '\\']);
        }
    } else if u < 32 {
        out.append("\\u00");
        out.append(hex_str(u / 16));
        out.append(hex_str(u % 16));
        proof {
            assert(("\\u00")@ =~= seq!['\\', 'u', '0', '0']);
        }
    } else {
        out.append(s.substring_char(k, k + 1));
        proof {
            assert(s@.subrange(k as int, k as int + 1) =~= seq![s@[k as int]]);
        }
    }
    proof {
        assert(out@ =~= old(out)@ + esc_char(s@[k as int]));
    }
    append_escaped(s, n, k + 1, out);
    proof {
        assert(out@ =~= old(out)@ + jser_str_body(s@.skip(k as int)));
    }
}

/// Appends the decimal digits of `n` to `out`.
fn append_u64(n: u64, out: &mut String)
    ensures
        final(out)@ == old(out)@ + dec_digits(n as nat),
    decreases n,
{
    if n < 10 {
        out.append(digit_str(n));
    } else {
        append_u64(n / 10, out);
        out.append(digit_str(n % 10));
    }
}

/// Appends the text of a 64-bit integer to `out`.
fn append_i64(n: i64, out: &mut String)
    ensures
        final(out)@ == old(out)@ + jser_int(n),
{
    proof {
        reveal_strlit("-");
    }
    if n >= 0 {
        append_u64(n as u64, out);
    } else if n == i64::MIN {
        out.append("-");
        append_u64(9223372036854775808u64, out);
    } else {
        out.append("-");
        append_u64((-n) as u64, out);
    }
}

/// Appends the canonical text of `v` to `out`.
pub fn append_json(v: &JsonValue, out: &mut String)
    ensures
        final(out)@ == old(out)@ + jser(v@),
    decreases v, 0int,
{
    proof {
        reveal_strlit("null");
        reveal_strlit("true");
        reveal_strlit("false");
        reveal_strlit("\"");
        reveal_strlit("[");
        reveal_strlit("]");
        reveal_strlit("{");
        reveal_strlit("}");
    }
    match v {
        JsonValue::Null => {
            out.append("null");
            assert(out@ =~= old(out)@ + jser(v@));
        },
        JsonValue::Bool(b) => {
            if *b {
                out.append("true");
                assert(out@ =~= old(out)@ + jser(v@));
            } else {
                out.append("false");
                assert(out@ =~= old(out)@ + jser(v@));
            }
        },
        JsonValue::Int(n) => {
            append_i64(*n, out);
        },
        JsonValue::Str(s) => {
            out.append("\"");
            let n = s.as_str().unicode_len();
            append_escaped(s.as_str(), n, 0, out);
            out.append("\"");
            proof {
                assert(s@.skip(0) =~= s@);
            }
            assert(out@ =~= old(out)@ + jser(v@));
        },
        JsonValue::Arr(items) => {
            out.append("[");
            append_json_elems(items, 0, out);
            out.append("]");
            assert(arr_view(items@).skip(0) =~= arr_view(items@));
            assert(out@ =~= old(out)@ + jser(v@));
        },
        JsonValue::Obj(members) => {
            out.append("{");
            append_json_members(members, 0, out);
            out.append("}");
            assert(obj_view(members@).skip(0) =~= obj_view(members@));
            assert(out@ =~= old(out)@ + jser(v@));
        },
    }
}

/// Appends the comma-separated texts of `items[i..]` to `out`.
fn append_json_elems(items: &Vec<JsonValue>, i: usize, out: &mut String)
    requires
        i <= items@.len(),
    ensures
        final(out)@ == old(out)@ + jser_elems(arr_view(items@).skip(i as int)),
    decreases items, items@.len() - i,
{
    proof {
        reveal_strlit(",");
    }
    if i < items.len() {
        append_json(&items[i as usize], out);
        if i + 1 < items.len() {
            out.append(",");
            append_json_elems(items, i + 1, out);
        }
    }
    proof {
        let rest = arr_view(items@).skip(i as int);
        if i < items@.len() {
            assert(rest[0] == items@[i as int]@);
            if i + 1 < items@.len() {
                assert(rest.drop_first() =~= arr_view(items@).skip(i + 1));
                assert(out@ =~= old(out)@ + jser_elems(rest));
            } else {
                assert(rest.len() == 1);
                assert(out@ =~= old(out)@ + jser_elems(rest));
            }
        } else {
            assert(rest.len() == 0);
            assert(out@ =~= old(out)@ + jser_elems(rest));
        }
    }
}

/// Appends the comma-separated texts of `members[i..]` to `out`.
fn append_json_members(members: &Vec<(String, JsonValue)>, i: usize, out: &mut String)
    requires
        i <= members@.len(),
    ensures
        final(out)@ == old(out)@ + jser_members(obj_view(members@).skip(i as int)),
    decreases members, members@.len() - i,
{
    proof {
        reveal_strlit(",");
        reveal_strlit("\"");
        reveal_strlit("\":");
    }
    if i < members.len() {
        let member = &members[i as usize];
        out.append("\"");
        let kn = member.0.as_str().unicode_len();
        append_escaped(member.0.as_str(), kn, 0, out);
        out.append("\":");
        proof {
            assert(member.0@.skip(0) =~= member.0@);
        }
        append_json(&member.1, out);
        if i + 1 < members.len() {
            out.append(",");
            append_json_members(members, i + 1, out);
        }
    }
    proof {
        let rest = obj_view(members@).skip(i as int);
        if i < members@.len() {
            assert(rest[0] == (members@[i as int].0@, members@[i as int].1@));
            assert(("\":")@ =~= seq!['"', ':']);
            assert(jser_member(rest[0]) =~= ("\"")@ + jser_str_body(members@[i as int].0@) + (
            "\":")@ + jser(members@[i as int].1@));
            if i + 1 < members@.len() {
                assert(rest.drop_first() =~= obj_view(members@).skip(i + 1));
                assert(jser_members(rest) == jser_member(rest[0]) + seq![','] + jser_members(
                    rest.drop_first(),
                ));
                assert(out@ =~= old(out)@ + jser_members(rest));
            } else {
                assert(rest.len() == 1);
                assert(jser_members(rest) == jser_member(rest[0]));
                assert(out@ =~= old(out)@ + jser_members(rest));
            }
        } else {
            assert(rest.len() == 0);
            assert(out@ =~= old(out)@ + jser_members(rest));
        }
    }
}

/// The canonical text of a value, as a fresh string.
pub fn to_json_text(v: &JsonValue) -> (r: String)
    ensures
        r@ == jser(v@),
{
    let mut out = String::new();
    append_json(v, &mut out);
    out
}

// ---------------------------------------------------------------------------
// Parsing: from text back to a value.
// ---------------------------------------------------------------------------
/// A decimal digit character.
pub open spec fn is_digit(c: char) -> bool {
    48 <= (c as u32) <= 57
}

/// The numeric value of a digit character.
pub open spec fn digit_val(c: char) -> nat
    recommends
        is_digit(c),
{
    ((c as u32) - 48) as nat
}

/// The value of a run of digit characters, most significant first.
pub open spec fn dvs(d: Seq<char>) -> nat
    decreases d.len(),
{
    if d.len() == 0 {
        0
    } else {
        dvs(d.drop_last()) * 10 + digit_val(d.last())
    }
}

/// A JSON whitespace character.
pub open spec fn is_ws(c: char) -> bool {
    c == ' ' || c == '\n' || c == '\t' || c == '\r'
}

/// The first non-whitespace index at or after `i`.
pub open spec fn ws_end(s: Seq<char>, i: int) -> int
    decreases s.len() - i,
{
    if i < 0 || i >= s.len() {
        i
    } else if is_ws(s[i]) {
        ws_end(s, i + 1)
    } else {
        i
    }
}

/// A hexadecimal digit character, either case.
pub open spec fn is_hex(c: char) -> bool {
    48 <= (c as u32) <= 57 || 97 <= (c as u32) <= 102 || 65 <= (c as u32) <= 70
}

/// The value of a hexadecimal digit character.
pub open spec fn hex_val(c: char) -> nat
    recommends
        is_hex(c),
{
    if 48 <= (c as u32) <= 57 {
        ((c as u32) - 48) as nat
    } else if 97 <= (c as u32) <= 102 {
        ((c as u32) - 87) as nat
    } else {
        ((c as u32) - 55) as nat
    }
}

/// The character a short escape stands for, if the letter names one.
pub open spec fn esc_of(c: char) -> Option<char> {
    if c == '"' {
        Some('"')
    } else if c == '\\' {
        Some('\\')
    } else if c == '/' {
        Some('/')
    } else if c == 'n' {
        Some('\n')
    } else if c == 't' {
        Some('\t')
    } else if c == 'r' {
        Some('\r')
    } else if c == 'b' {
        Some('\u{8}')
    } else if c == 'f' {
        Some('\u{c}')
    } else {
        None
    }
}

/// Parses a string body from `i` to its closing quote: raw plain
/// characters, short escapes, and four-digit code escapes in the control
/// range. Returns the characters and the index past the quote.
pub open spec fn sp_str_body(s: Seq<char>, i: int) -> Option<(Seq<char>, int)>
    decreases s.len() - i,
{
    if i < 0 || i >= s.len() {
        None
    } else if s[i] == '"' {
        Some((Seq::empty(), i + 1))
    } else if s[i] == '\\' {
        if i + 1 < s.len() {
            if s[i + 1] == 'u' {
                if i + 6 <= s.len() && s[i + 2] == '0' && s[i + 3] == '0' && is_hex(s[i + 4])
                    && is_hex(s[i + 5]) && hex_val(s[i + 4]) * 16 + hex_val(s[i + 5]) < 32 {
                    match sp_str_body(s, i + 6) {
                        Some((rest, e)) => Some(
                            (
                                seq![
                                    control_char(hex_val(s[i + 4]) * 16 + hex_val(s[i + 5])),
                                ] + rest,
                                e,
                            ),
                        ),
                        None => None,
                    }
                } else {
                    None
                }
            } else {
                match esc_of(s[i + 1]) {
                    Some(c) => match sp_str_body(s, i + 2) {
                        Some((rest, e)) => Some((seq![c] + rest, e)),
                        None => None,
                    },
                    None => None,
                }
            }
        } else {
            None
        }
    } else if is_plain_char(s[i]) {
        match sp_str_body(s, i + 1) {
            Some((rest, e)) => Some((seq![s[i]] + rest, e)),
            None => None,
        }
    } else {
        None
    }
}

/// The index of the first non-digit character at or after `i`.
pub open spec fn digits_end(s: Seq<char>, i: int) -> int
    decreases s.len() - i,
{
    if i < 0 || i >= s.len() {
        i
    } else if is_digit(s[i]) {
        digits_end(s, i + 1)
    } else {
        i
    }
}

/// Parses an integer at `i`: an optional minus sign and a run of digits,
/// accepted only when the value fits a 64-bit signed integer.
pub open spec fn sp_int(s: Seq<char>, i: int) -> Option<(JsonVal, int)> {
    if 0 <= i < s.len() && s[i] == '-' {
        let e = digits_end(s, i + 1);
        if e > i + 1 {
            let m = dvs(s.subrange(i + 1, e));
            if m <= 0x8000_0000_0000_0000 {
                Some((JsonVal::Int((-(m as int)) as i64), e))
            } else {
                None
            }
        } else {
            None
        }
    } else {
        let e = digits_end(s, i);
        if e > i {
            let m = dvs(s.subrange(i, e));
            if m <= 0x7fff_ffff_ffff_ffff {
                Some((JsonVal::Int(m as i64), e))
            } else {
                None
            }
        } else {
            None
        }
    }
}

/// Parses one value at `i`. Returns the value and the index just past it.
/// The fuel only bounds recursion; any value whose text fits in `s` parses
/// within `parse_fuel(s)`.
pub open spec fn sp_value(s: Seq<char>, i: int, fuel: nat) -> Option<(JsonVal, int)>
    decreases fuel,
{
    if fuel == 0 {
        None
    } else if i < 0 {
        None
    } else if ws_end(s, i) >= s.len() {
        None
    } else {
        let i2 = ws_end(s, i);
        let c = s[i2];
        if c == 'n' {
            if i2 + 4 <= s.len() && s[i2 + 1] == 'u' && s[i2 + 2] == 'l' && s[i2 + 3] == 'l' {
                Some((JsonVal::Null, i2 + 4))
            } else {
                None
            }
        } else if c == 't' {
            if i2 + 4 <= s.len() && s[i2 + 1] == 'r' && s[i2 + 2] == 'u' && s[i2 + 3] == 'e' {
                Some((JsonVal::Bool(true), i2 + 4))
            } else {
                None
            }
        } else if c == 'f' {
            if i2 + 5 <= s.len() && s[i2 + 1] == 'a' && s[i2 + 2] == 'l' && s[i2 + 3] == 's'
                && s[i2 + 4] == 'e' {
                Some((JsonVal::Bool(false), i2 + 5))
            } else {
                None
            }
        } else if c == '"' {
            match sp_str_body(s, i2 + 1) {
                Some((body, e)) => Some((JsonVal::Str(body), e)),
                None => None,
            }
        } else if c == '-' || is_digit(c) {
            sp_int(s, i2)
        } else if c == '[' {
            if ws_end(s, i2 + 1) < s.len() && s[ws_end(s, i2 + 1)] == ']' {
                Some((JsonVal::Arr(Seq::empty()), ws_end(s, i2 + 1) + 1))
            } else {
                match sp_elems(s, i2 + 1, (fuel - 1) as nat) {
                    Some((vs, j)) => if j < s.len() && s[j] == ']' {
                        Some((JsonVal::Arr(vs), j + 1))
                    } else {
                        None
                    },
                    None => None,
                }
            }
        } else if c == '{' {
            if ws_end(s, i2 + 1) < s.len() && s[ws_end(s, i2 + 1)] == '}' {
                Some((JsonVal::Obj(Seq::empty()), ws_end(s, i2 + 1) + 1))
            } else {
                match sp_members(s, i2 + 1, (fuel - 1) as nat) {
                    Some((ms, j)) => if j < s.len() && s[j] == '}' {
                        Some((JsonVal::Obj(ms), j + 1))
                    } else {
                        None
                    },
                    None => None,
                }
            }
        } else {
            None
        }
    }
}

/// Parses one or more comma-separated values starting at `i`. Returns them
/// and the index just past the last one.
pub open spec fn sp_elems(s: Seq<char>, i: int, fuel: nat) -> Option<(Seq<JsonVal>, int)>
    decreases fuel,
{
    if fuel == 0 {
        None
    } else {
        match sp_value(s, i, (fuel - 1) as nat) {
            Some((v, j)) => if ws_end(s, j) < s.len() && s[ws_end(s, j)] == ',' {
                match sp_elems(s, ws_end(s, j) + 1, (fuel - 1) as nat) {
                    Some((vs, k)) => Some((seq![v] + vs, k)),
                    None => None,
                }
            } else {
                Some((seq![v], ws_end(s, j)))
            },
            None => None,
        }
    }
}

/// Parses one or more comma-separated `"key":value` members starting at `i`.
pub open spec fn sp_members(s: Seq<char>, i: int, fuel: nat) -> Option<
    (Seq<(Seq<char>, JsonVal)>, int),
>
    decreases fuel,
{
    if fuel == 0 {
        None
    } else if 0 <= i && ws_end(s, i) < s.len() && s[ws_end(s, i)] == '"' {
        let i2 = ws_end(s, i);
        match sp_str_body(s, i2 + 1) {
            Some((key, e)) => {
                if ws_end(s, e) < s.len() && s[ws_end(s, e)] == ':' {
                    match sp_value(s, ws_end(s, e) + 1, (fuel - 1) as nat) {
                        Some((v, j)) => if ws_end(s, j) < s.len() && s[ws_end(s, j)] == ',' {
                            match sp_members(s, ws_end(s, j) + 1, (fuel - 1) as nat) {
                                Some((ms, k)) => Some((seq![(key, v)] + ms, k)),
                                None => None,
                            }
                        } else {
                            Some((seq![(key, v)], ws_end(s, j)))
                        },
                        None => None,
                    }
                } else {
                    None
                }
            },
            None => None,
        }
    } else {
        None
    }
}

/// Fuel that suffices for any value whose text fits in `s`: along any path of
/// the recursion, at most two steps pass between consuming two characters.
pub open spec fn parse_fuel(s: Seq<char>) -> nat {
    2 * s.len() + 4
}

/// The parse of a whole text: one value covering every character.
pub open spec fn spec_parse_json(s: Seq<char>) -> Option<JsonVal> {
    match sp_value(s, 0, parse_fuel(s)) {
        Some((v, j)) => if ws_end(s, j) == s.len() {
            Some(v)
        } else {
            None
        },
        None => None,
    }
}

/// Whether `c` is a decimal digit.
fn is_digit_c(c: char) -> (r: bool)
    ensures
        r == is_digit(c),
{
    let u: u32 = c as u32;
    48 <= u && u <= 57
}

/// Whether `c` is JSON whitespace.
fn is_ws_c(c: char) -> (r: bool)
    ensures
        r == is_ws(c),
{
    c == ' ' || c == '\n' || c == '\t' || c == '\r'
}

/// Finds the first non-whitespace index at or after `i`.
fn ws_end_x(s: &str, n: usize, i: usize) -> (r: usize)
    requires
        n == s@.len(),
        i <= n,
    ensures
        r as int == ws_end(s@, i as int),
        i <= r <= n,
    decreases n - i,
{
    if i >= n {
        i
    } else if is_ws_c(s.get_char(i)) {
        ws_end_x(s, n, i + 1)
    } else {
        i
    }
}

/// The value of a hexadecimal digit character.
fn hex_val_c(c: char) -> (r: u32)
    requires
        is_hex(c),
    ensures
        r as nat == hex_val(c),
        r < 16,
{
    let u: u32 = c as u32;
    if 48 <= u && u <= 57 {
        u - 48
    } else if 97 <= u && u <= 102 {
        u - 87
    } else {
        u - 55
    }
}

/// Whether `c` is a hexadecimal digit.
fn is_hex_c(c: char) -> (r: bool)
    ensures
        r == is_hex(c),
{
    let u: u32 = c as u32;
    (48 <= u && u <= 57) || (97 <= u && u <= 102) || (65 <= u && u <= 70)
}

/// Parses a string body into `out`, as `sp_str_body` describes.
fn p_str_body(s: &str, n: usize, i: usize, out: &mut String) -> (r: Option<usize>)
    requires
        n == s@.len(),
        i <= n,
    ensures
        match r {
            Some(e) => sp_str_body(s@, i as int) matches Some((body, e2)) && e2 == e as int
                && final(out)@ == old(out)@ + body && i < e <= n,
            None => sp_str_body(s@, i as int) is None,
        },
    decreases n - i,
{
    if i >= n {
        return None;
    }
    let c = s.get_char(i);
    if c == '"' {
        proof {
            assert(out@ =~= old(out)@ + Seq::<char>::empty());
        }
        return Some(i + 1);
    }
    if c == '\\' {
        if i + 1 >= n {
            return None;
        }
        let c2 = s.get_char(i + 1);
        if c2 == 'u' {
            if n - i >= 6 && s.get_char(i + 2) == '0' && s.get_char(i + 3) == '0' && is_hex_c(
                s.get_char(i + 4),
            ) && is_hex_c(s.get_char(i + 5)) {
                let v: u32 = hex_val_c(s.get_char(i + 4)) * 16 + hex_val_c(s.get_char(i + 5));
                if v < 32 {
                    out.append(control_str(v));
                    let r2 = p_str_body(s, n, i + 6, out);
                    proof {
                        if r2 is Some {
                            let body = sp_str_body(s@, i as int)->Some_0.0;
                            let rest = sp_str_body(s@, i as int + 6)->Some_0.0;
                            assert(body =~= seq![control_char(v as nat)] + rest);
                            assert(out@ =~= old(out)@ + body);
                        }
                    }
                    return r2;
                }
                return None;
            }
            return None;
        }
        let decoded: &'static str = if c2 == '"' {
            "\""
        } else if c2 == '\\' {
            "\\"
        } else if c2 == '/' {
            "/"
        } else if c2 == 'n' {
            "\n"
        } else if c2 == 't' {
            "\t"
        } else if c2 == 'r' {
            "\r"
        } else if c2 == 'b' {
            "\u{8}"
        } else if c2 == 'f' {
            "\u{c}"
        } else {
            return None;
        };
        proof {
            reveal_strlit("\"");
            reveal_strlit("\\");
            reveal_strlit("/");
            reveal_strlit("\n");
            reveal_strlit("\t");
            reveal_strlit("\r");
            reveal_strlit("\u{8}");
            reveal_strlit("\u{c}");
            assert(decoded@ =~= seq![esc_of(s@[i as int + 1])->Some_0]);
        }
        out.append(decoded);
        let r2 = p_str_body(s, n, i + 2, out);
        proof {
            if r2 is Some {
                let body = sp_str_body(s@, i as int)->Some_0.0;
                let rest = sp_str_body(s@, i as int + 2)->Some_0.0;
                assert(body =~= seq![esc_of(s@[i as int + 1])->Some_0] + rest);
                assert(out@ =~= old(out)@ + body);
            }
        }
        return r2;
    }
    let u: u32 = c as u32;
    if u < 32 {
        return None;
    }
    out.append(s.substring_char(i, i + 1));
    proof {
        assert(s@.subrange(i as int, i as int + 1) =~= seq![s@[i as int]]);
    }
    let r2 = p_str_body(s, n, i + 1, out);
    proof {
        if r2 is Some {
            let body = sp_str_body(s@, i as int)->Some_0.0;
            let rest = sp_str_body(s@, i as int + 1)->Some_0.0;
            assert(body =~= seq![s@[i as int]] + rest);
            assert(out@ =~= old(out)@ + body);
        }
    }
    r2
}

/// Finds the end of the digit run starting at `i`.
fn digits_end_x(s: &str, n: usize, i: usize) -> (r: usize)
    requires
        n == s@.len(),
        i <= n,
    ensures
        r as int == digits_end(s@, i as int),
        i <= r <= n,
    decreases n - i,
{
    if i >= n {
        i
    } else if is_digit_c(s.get_char(i)) {
        digits_end_x(s, n, i + 1)
    } else {
        i
    }
}

/// The digit run found by `digits_end` consists of digits and stops at a
/// non-digit.
proof fn lemma_digits_end_props(s: Seq<char>, i: int)
    requires
        0 <= i <= s.len(),
    ensures
        i <= digits_end(s, i) <= s.len(),
        forall|j: int| i <= j < digits_end(s, i) ==> is_digit(#[trigger] s[j]),
        digits_end(s, i) < s.len() ==> !is_digit(s[digits_end(s, i)]),
    decreases s.len() - i,
{
    if i < s.len() && is_digit(s[i]) {
        lemma_digits_end_props(s, i + 1);
    }
}

/// A longer digit run has at least the value of any of its prefixes.
proof fn lemma_dvs_prefix(s: Seq<char>, a: int, k: int, e: int)
    requires
        0 <= a <= k <= e <= s.len(),
    ensures
        dvs(s.subrange(a, e)) >= dvs(s.subrange(a, k)),
    decreases e - k,
{
    if k < e {
        assert(s.subrange(a, k + 1).drop_last() =~= s.subrange(a, k));
        assert(s.subrange(a, k + 1).last() == s[k]);
        assert(dvs(s.subrange(a, k + 1)) == dvs(s.subrange(a, k)) * 10 + digit_val(s[k]));
        lemma_dvs_prefix(s, a, k + 1, e);
    }
}

/// Parses an integer token at `i`.
#[verifier::loop_isolation(false)]
fn p_int(s: &str, n: usize, i: usize) -> (r: Option<(JsonValue, usize)>)
    requires
        n == s@.len(),
        i < n,
        s@[i as int] == '-' || is_digit(s@[i as int]),
    ensures
        match r {
            Some((v, j)) => sp_int(s@, i as int) == Some((v@, j as int)) && i < j <= n,
            None => sp_int(s@, i as int) is None,
        },
{
    let neg = s.get_char(i) == '-';
    let start: usize = if neg {
        i + 1
    } else {
        i
    };
    let e = digits_end_x(s, n, start);
    proof {
        lemma_digits_end_props(s@, start as int);
    }
    if e == start {
        return None;
    }
    let limit: u64 = 0x8000_0000_0000_0000;
    let mut k: usize = start;
    let mut acc: u64 = 0;
    while k < e
        invariant
            n == s@.len(),
            start <= k <= e <= n,
            e as int == digits_end(s@, start as int),
            forall|j: int| start <= j < e ==> is_digit(#[trigger] s@[j]),
            acc as nat == dvs(s@.subrange(start as int, k as int)),
            acc <= limit,
        decreases e - k,
    {
        let c = s.get_char(k);
        assert(is_digit(s@[k as int]));
        assert(c == s@[k as int]);
        assert(48 <= (c as u32) <= 57);
        let u: u32 = c as u32;
        let d: u64 = (u - 48) as u64;
        assert(d as int == digit_val(s@[k as int]));
        assert(d <= 9);
        if acc > (limit - d) / 10 {
            proof {
                let l = limit as int;
                let dd = d as int;
                let q = (l - dd) / 10;
                assert(l - dd == 10 * q + (l - dd) % 10);
                assert(0 <= (l - dd) % 10 < 10);
                assert(acc as int * 10 + dd > l);
                assert(s@.subrange(start as int, k + 1).drop_last() =~= s@.subrange(
                    start as int,
                    k as int,
                ));
                assert(s@.subrange(start as int, k + 1).last() == s@[k as int]);
                assert(dvs(s@.subrange(start as int, k + 1)) > limit);
                lemma_dvs_prefix(s@, start as int, k + 1, e as int);
                assert(dvs(s@.subrange(start as int, e as int)) > limit);
            }
            return None;
        }
        proof {
            let l = limit as int;
            let dd = d as int;
            let q = (l - dd) / 10;
            assert(l - dd == 10 * q + (l - dd) % 10);
            assert(0 <= (l - dd) % 10 < 10);
            assert(acc as int * 10 + dd <= l);
            assert(s@.subrange(start as int, k + 1).drop_last() =~= s@.subrange(
                start as int,
                k as int,
            ));
            assert(s@.subrange(start as int, k + 1).last() == s@[k as int]);
        }
        acc = acc * 10 + d;
        k = k + 1;
    }
    assert(s@.subrange(start as int, e as int) =~= s@.subrange(start as int, k as int));
    if neg {
        let v: i64 = if acc == limit {
            i64::MIN
        } else {
            -(acc as i64)
        };
        Some((JsonValue::Int(v), e))
    } else {
        if acc > 0x7fff_ffff_ffff_ffff {
            return None;
        }
        Some((JsonValue::Int(acc as i64), e))
    }
}

/// Parses one value at `i`, as `sp_value` describes.
fn p_value(s: &str, n: usize, i: usize, fuel: u64) -> (r: Option<(JsonValue, usize)>)
    requires
        n == s@.len(),
        i <= n,
        n < 0x1000_0000,
    ensures
        match r {
            Some((v, j)) => sp_value(s@, i as int, fuel as nat) == Some((v@, j as int)) && i < j
                <= n,
            None => sp_value(s@, i as int, fuel as nat) is None,
        },
    decreases fuel,
{
    if fuel == 0 {
        return None;
    }
    let i2 = ws_end_x(s, n, i);
    if i2 >= n {
        return None;
    }
    let c = s.get_char(i2);
    if c == 'n' {
        if i2 + 4 <= n && s.get_char(i2 + 1) == 'u' && s.get_char(i2 + 2) == 'l' && s.get_char(
            i2 + 3,
        ) == 'l' {
            Some((JsonValue::Null, i2 + 4))
        } else {
            None
        }
    } else if c == 't' {
        if i2 + 4 <= n && s.get_char(i2 + 1) == 'r' && s.get_char(i2 + 2) == 'u' && s.get_char(
            i2 + 3,
        ) == 'e' {
            Some((JsonValue::Bool(true), i2 + 4))
        } else {
            None
        }
    } else if c == 'f' {
        if i2 + 5 <= n && s.get_char(i2 + 1) == 'a' && s.get_char(i2 + 2) == 'l' && s.get_char(
            i2 + 3,
        ) == 's' && s.get_char(i2 + 4) == 'e' {
            Some((JsonValue::Bool(false), i2 + 5))
        } else {
            None
        }
    } else if c == '"' {
        let mut body = String::new();
        match p_str_body(s, n, i2 + 1, &mut body) {
            Some(e) => Some((JsonValue::Str(body), e)),
            None => None,
        }
    } else if c == '-' || is_digit_c(c) {
        p_int(s, n, i2)
    } else if c == '[' {
        let k = ws_end_x(s, n, i2 + 1);
        if k < n && s.get_char(k) == ']' {
            let empty: Vec<JsonValue> = Vec::new();
            proof {
                assert(arr_view(empty@) =~= Seq::<JsonVal>::empty());
            }
            Some((JsonValue::Arr(empty), k + 1))
        } else {
            match p_elems(s, n, i2 + 1, fuel - 1) {
                Some((vs, j)) => {
                    if j < n && s.get_char(j) == ']' {
                        Some((JsonValue::Arr(vs), j + 1))
                    } else {
                        None
                    }
                },
                None => None,
            }
        }
    } else if c == '{' {
        let k = ws_end_x(s, n, i2 + 1);
        if k < n && s.get_char(k) == '}' {
            let empty: Vec<(String, JsonValue)> = Vec::new();
            proof {
                assert(obj_view(empty@) =~= Seq::<(Seq<char>, JsonVal)>::empty());
            }
            Some((JsonValue::Obj(empty), k + 1))
        } else {
            match p_members(s, n, i2 + 1, fuel - 1) {
                Some((ms, j)) => {
                    if j < n && s.get_char(j) == '}' {
                        Some((JsonValue::Obj(ms), j + 1))
                    } else {
                        None
                    }
                },
                None => None,
            }
        }
    } else {
        None
    }
}

/// Parses one or more comma-separated values, as `sp_elems` describes.
fn p_elems(s: &str, n: usize, i: usize, fuel: u64) -> (r: Option<(Vec<JsonValue>, usize)>)
    requires
        n == s@.len(),
        i <= n,
        n < 0x1000_0000,
    ensures
        match r {
            Some((vs, j)) => sp_elems(s@, i as int, fuel as nat) == Some(
                (arr_view(vs@), j as int),
            ) && i <= j <= n,
            None => sp_elems(s@, i as int, fuel as nat) is None,
        },
    decreases fuel,
{
    if fuel == 0 {
        return None;
    }
    match p_value(s, n, i, fuel - 1) {
        Some((v, j)) => {
            let j2 = ws_end_x(s, n, j);
            if j2 < n && s.get_char(j2) == ',' {
                match p_elems(s, n, j2 + 1, fuel - 1) {
                    Some((rest, k)) => {
                        let ghost rest0 = rest@;
                        let mut vs: Vec<JsonValue> = Vec::new();
                        let ghost v0 = v@;
                        vs.push(v);
                        let mut tail = rest;
                        vs.append(&mut tail);
                        proof {
                            assert(arr_view(vs@) =~= seq![v0] + arr_view(rest0));
                        }
                        Some((vs, k))
                    },
                    None => None,
                }
            } else {
                let ghost v0 = v@;
                let mut vs: Vec<JsonValue> = Vec::new();
                vs.push(v);
                proof {
                    assert(arr_view(vs@) =~= seq![v0]);
                }
                Some((vs, j2))
            }
        },
        None => None,
    }
}

/// Parses one or more comma-separated members, as `sp_members` describes.
fn p_members(s: &str, n: usize, i: usize, fuel: u64) -> (r: Option<
    (Vec<(String, JsonValue)>, usize),
>)
    requires
        n == s@.len(),
        i <= n,
        n < 0x1000_0000,
    ensures
        match r {
            Some((ms, j)) => sp_members(s@, i as int, fuel as nat) == Some(
                (obj_view(ms@), j as int),
            ) && i <= j <= n,
            None => sp_members(s@, i as int, fuel as nat) is None,
        },
    decreases fuel,
{
    if fuel == 0 {
        return None;
    }
    let i2 = ws_end_x(s, n, i);
    if i2 < n && s.get_char(i2) == '"' {
        let mut key = String::new();
        match p_str_body(s, n, i2 + 1, &mut key) {
            Some(e) => {
                let e2 = ws_end_x(s, n, e);
                if e2 < n && s.get_char(e2) == ':' {
                    match p_value(s, n, e2 + 1, fuel - 1) {
                        Some((v, j)) => {
                            let j2 = ws_end_x(s, n, j);
                            if j2 < n && s.get_char(j2) == ',' {
                                match p_members(s, n, j2 + 1, fuel - 1) {
                                    Some((rest, k)) => {
                                        let ghost rest0 = rest@;
                                        let ghost key0 = key@;
                                        let ghost v0 = v@;
                                        let mut ms: Vec<(String, JsonValue)> = Vec::new();
                                        ms.push((key, v));
                                        let mut tail = rest;
                                        ms.append(&mut tail);
                                        proof {
                                            assert(obj_view(ms@) =~= seq![(key0, v0)] + obj_view(
                                                rest0,
                                            ));
                                        }
                                        Some((ms, k))
                                    },
                                    None => None,
                                }
                            } else {
                                let ghost key0 = key@;
                                let ghost v0 = v@;
                                let mut ms: Vec<(String, JsonValue)> = Vec::new();
                                ms.push((key, v));
                                proof {
                                    assert(obj_view(ms@) =~= seq![(key0, v0)]);
                                }
                                Some((ms, j2))
                            }
                        },
                        None => None,
                    }
                } else {
                    None
                }
            },
            None => None,
        }
    } else {
        None
    }
}

/// Parses a whole text into a value, as `spec_parse_json` describes.
pub fn parse_json_text(s: &str) -> (r: Option<JsonValue>)
    requires
        s@.len() < 0x1000_0000,
    ensures
        match r {
            Some(v) => spec_parse_json(s@) == Some(v@),
            None => spec_parse_json(s@) is None,
        },
{
    let n = s.unicode_len();
    let fuel: u64 = 2 * (n as u64) + 4;
    match p_value(s, n, 0, fuel) {
        Some((v, j)) => {
            if ws_end_x(s, n, j) == n {
                Some(v)
            } else {
                None
            }
        },
        None => None,
    }
}

// ---------------------------------------------------------------------------
// The round trip: parsing the canonical text of a value gives it back.
// ---------------------------------------------------------------------------
/// A digit character carries its digit.
proof fn lemma_digit_char_val(d: nat)
    requires
        d < 10,
    ensures
        is_digit(digit_char(d)),
        digit_val(digit_char(d)) == d,
{
}

/// The decimal text of a number is a non-empty run of digits.
proof fn lemma_dec_digits_all_digits(n: nat)
    ensures
        dec_digits(n).len() >= 1,
        forall|k: int| 0 <= k < dec_digits(n).len() ==> is_digit(#[trigger] dec_digits(n)[k]),
    decreases n,
{
    lemma_digit_char_val(n % 10);
    if n < 10 {
        lemma_digit_char_val(n);
    } else {
        lemma_dec_digits_all_digits(n / 10);
        assert forall|k: int| 0 <= k < dec_digits(n).len() implies is_digit(
            #[trigger] dec_digits(n)[k],
        ) by {
            if k < dec_digits(n / 10).len() {
                assert(dec_digits(n)[k] == dec_digits(n / 10)[k]);
            } else {
                assert(dec_digits(n)[k] == digit_char(n % 10));
            }
        }
    }
}

/// Reading the decimal text of a number gives the number back.
proof fn lemma_dvs_dec_digits(n: nat)
    ensures
        dvs(dec_digits(n)) == n,
    decreases n,
{
    lemma_digit_char_val(n % 10);
    if n < 10 {
        lemma_digit_char_val(n);
        assert(dvs(Seq::<char>::empty()) == 0);
        assert(dec_digits(n).drop_last() =~= Seq::<char>::empty());
    } else {
        lemma_dvs_dec_digits(n / 10);
        assert(dec_digits(n).drop_last() =~= dec_digits(n / 10));
        assert(dec_digits(n).last() == digit_char(n % 10));
    }
}

/// A digit run laid out in `s` and stopped by a non-digit scans to its end.
proof fn lemma_digits_end_exact(s: Seq<char>, a: int, e: int)
    requires
        0 <= a <= e <= s.len(),
        forall|j: int| a <= j < e ==> is_digit(#[trigger] s[j]),
        e < s.len() ==> !is_digit(s[e]),
    ensures
        digits_end(s, a) == e,
    decreases e - a,
{
    if a < e {
        lemma_digits_end_exact(s, a + 1, e);
    }
}

/// A hexadecimal digit character carries its value.
proof fn lemma_hex_char(d: nat)
    requires
        d < 16,
    ensures
        is_hex(hex_char(d)),
        hex_val(hex_char(d)) == d,
{
}

/// None of the characters that can open or close a token is whitespace.
proof fn lemma_nonws(c: char)
    requires
        c == 'n' || c == 't' || c == 'f' || c == '"' || c == '-' || is_digit(c) || c == '['
            || c == '{' || c == ',' || c == ':' || c == ']' || c == '}' || c == '\\',
    ensures
        !is_ws(c),
{
    assert(' ' as u32 == 32);
    assert('\n' as u32 == 10);
    assert('\t' as u32 == 9);
    assert('\r' as u32 == 13);
}

/// The laid-out text of a string body, closed by a quote, parses back to
/// exactly the body.
proof fn lemma_parse_of_jser_strbody(body: Seq<char>, s: Seq<char>, i: int)
    requires
        0 <= i,
        i + jser_str_body(body).len() < s.len(),
        s.subrange(i, i + jser_str_body(body).len() as int) == jser_str_body(body),
        s[i + jser_str_body(body).len() as int] == '"',
    ensures
        sp_str_body(s, i) == Some((body, i + jser_str_body(body).len() + 1)),
    decreases body.len(),
{
    let t = jser_str_body(body);
    let l = t.len() as int;
    assert forall|j: int| i <= j < i + l implies #[trigger] s[j] == t[j - i] by {
        assert(s.subrange(i, i + l)[j - i] == s[j]);
    }
    if body.len() == 0 {
        assert(s[i] == '"');
    } else {
        let c = body[0];
        let e = esc_char(c);
        let rest = body.drop_first();
        assert(t =~= e + jser_str_body(rest));
        let l0 = e.len() as int;
        let lr = jser_str_body(rest).len() as int;
        assert forall|k: int| 0 <= k < lr implies #[trigger] s[i + l0 + k] == jser_str_body(
            rest,
        )[k] by {
            assert(s[i + l0 + k] == t[l0 + k]);
        }
        assert(s.subrange(i + l0, i + l0 + lr) =~= jser_str_body(rest));
        assert(s[i + l0 + lr] == '"');
        lemma_parse_of_jser_strbody(rest, s, i + l0);
        assert(seq![c] + rest =~= body);
        if c == '"' {
            assert(s[i] == '\\' && s[i + 1] == '"');
        } else if c == '\\' {
            assert(s[i] == '\\' && s[i + 1] == '\\');
        } else if (c as u32) < 32 {
            let u = c as u32;
            lemma_hex_char((u as nat) / 16);
            lemma_hex_char((u as nat) % 16);
            assert(s[i] == '\\' && s[i + 1] == 'u' && s[i + 2] == '0' && s[i + 3] == '0');
            assert(s[i + 4] == hex_char((u as nat) / 16) && s[i + 5] == hex_char(
                (u as nat) % 16,
            ));
            assert(hex_val(s[i + 4]) * 16 + hex_val(s[i + 5]) == u as nat);
            vstd::utf8::char_u32_cast(c, u);
            assert(control_char(u as nat) == c);
        } else {
            assert(s[i] == c && is_plain_char(c));
        }
    }
}

/// The first character of a value's text decides its variant.
proof fn lemma_jser_first(v: JsonVal)
    ensures
        jser(v).len() >= 1,
        v is Null ==> jser(v)[0] == 'n',
        v is Bool ==> jser(v)[0] == 't' || jser(v)[0] == 'f',
        v is Int ==> jser(v)[0] == '-' || is_digit(jser(v)[0]),
        v is Str ==> jser(v)[0] == '"',
        v is Arr ==> jser(v)[0] == '[',
        v is Obj ==> jser(v)[0] == '{',
{
    match v {
        JsonVal::Int(n) => {
            if n >= 0 {
                lemma_dec_digits_all_digits(n as nat);
            } else {
                lemma_dec_digits_all_digits((-(n as int)) as nat);
            }
        },
        _ => {},
    }
}

/// Parsing at the start of the laid-out text of `v` returns `v` and stops
/// just past it. `s` may continue after the text; an integer must then not
/// be followed by a digit.
#[verifier::rlimit(100)]
proof fn lemma_parse_of_jser(v: JsonVal, s: Seq<char>, i: int, fuel: nat)
    requires
        0 <= i,
        i + jser(v).len() <= s.len(),
        s.subrange(i, i + jser(v).len() as int) == jser(v),
        v is Int ==> (i + jser(v).len() == s.len() || !is_digit(s[i + jser(v).len() as int])),
        fuel >= 2 * (s.len() - i) + 1,
    ensures
        sp_value(s, i, fuel) == Some((v, i + jser(v).len() as int)),
    decreases v, 0nat,
{
    lemma_jser_first(v);
    let t = jser(v);
    let l = t.len() as int;
    assert(s[i] == t[0]);
    assert forall|j: int| i <= j < i + l implies #[trigger] s[j] == t[j - i] by {
        assert(s.subrange(i, i + l)[j - i] == s[j]);
    }
    assert(ws_end(s, i) == i) by {
        lemma_nonws(s[i]);
    }
    match v {
        JsonVal::Null => {
            assert(s[i + 1] == 'u' && s[i + 2] == 'l' && s[i + 3] == 'l');
            assert(sp_value(s, i, fuel) == Some((v, i + jser(v).len() as int)));
        },
        JsonVal::Bool(b) => {
            if b {
                assert(s[i + 1] == 'r' && s[i + 2] == 'u' && s[i + 3] == 'e');
                assert(sp_value(s, i, fuel) == Some((v, i + jser(v).len() as int)));
            } else {
                assert(s[i + 1] == 'a' && s[i + 2] == 'l' && s[i + 3] == 's' && s[i + 4] == 'e');
                assert(sp_value(s, i, fuel) == Some((v, i + jser(v).len() as int)));
            }
        },
        JsonVal::Int(n) => {
            lemma_parse_of_jser_int(n, s, i);
            assert(sp_value(s, i, fuel) == Some((v, i + jser(v).len() as int)));
        },
        JsonVal::Str(body) => {
            let lb = jser_str_body(body).len() as int;
            assert(s[i + 1 + lb] == t[l - 1]);
            assert(t[l - 1] == '"');
            assert forall|k: int| 0 <= k < lb implies #[trigger] s[i + 1 + k] == jser_str_body(
                body,
            )[k] by {
                assert(s[i + 1 + k] == t[1 + k]);
            }
            assert(s.subrange(i + 1, i + 1 + lb) =~= jser_str_body(body));
            lemma_parse_of_jser_strbody(body, s, i + 1);
            assert(sp_value(s, i, fuel) == Some((v, i + jser(v).len() as int)));
        },
        JsonVal::Arr(elems) => {
            lemma_parse_of_jser_arr(elems, s, i, fuel);
            assert(sp_value(s, i, fuel) == Some((v, i + jser(v).len() as int)));
        },
        JsonVal::Obj(members) => {
            lemma_parse_of_jser_obj(members, s, i, fuel);
            assert(sp_value(s, i, fuel) == Some((v, i + jser(v).len() as int)));
        },
    }
}

/// The array case of `lemma_parse_of_jser`.
#[verifier::rlimit(100)]
proof fn lemma_parse_of_jser_arr(elems: Seq<JsonVal>, s: Seq<char>, i: int, fuel: nat)
    requires
        0 <= i,
        i + jser(JsonVal::Arr(elems)).len() <= s.len(),
        s.subrange(i, i + jser(JsonVal::Arr(elems)).len() as int) == jser(JsonVal::Arr(elems)),
        fuel >= 2 * (s.len() - i) + 1,
    ensures
        sp_value(s, i, fuel) == Some(
            (JsonVal::Arr(elems), i + jser(JsonVal::Arr(elems)).len() as int),
        ),
    decreases elems, 3nat,
{
    let t = jser(JsonVal::Arr(elems));
    let l = t.len() as int;
    assert forall|j: int| i <= j < i + l implies #[trigger] s[j] == t[j - i] by {
        assert(s.subrange(i, i + l)[j - i] == s[j]);
    }
    assert(s[i] == t[0]);
    assert(ws_end(s, i) == i) by {
        lemma_nonws(s[i]);
    }
    if elems.len() == 0 {
        assert(s[i + 1] == t[1]);
        assert(t =~= seq!['[', ']']);
        assert(ws_end(s, i + 1) == i + 1) by {
            lemma_nonws(s[i + 1]);
        }
        assert(elems =~= Seq::<JsonVal>::empty());
    } else {
        let body_len = jser_elems(elems).len() as int;
        let e = i + 1 + body_len;
        assert(s[e] == t[l - 1]);
        assert(t[l - 1] == ']');
        lemma_jser_first(elems[0]);
        assert(jser_elems(elems)[0] == jser(elems[0])[0]);
        assert(s[i + 1] == t[1]);
        assert(t[1] == jser_elems(elems)[0]);
        assert(s[i + 1] != ']');
        assert(ws_end(s, i + 1) == i + 1) by {
            lemma_nonws(s[i + 1]);
        }
        assert(s.subrange(i + 1, e) =~= jser_elems(elems));
        assert(!is_ws(s[e])) by {
            lemma_nonws(s[e]);
        }
        lemma_parse_of_jser_elems(elems, s, i + 1, (fuel - 1) as nat);
    }
}

/// The object case of `lemma_parse_of_jser`.
#[verifier::rlimit(100)]
proof fn lemma_parse_of_jser_obj(members: Seq<(Seq<char>, JsonVal)>, s: Seq<char>, i: int, fuel: nat)
    requires
        0 <= i,
        i + jser(JsonVal::Obj(members)).len() <= s.len(),
        s.subrange(i, i + jser(JsonVal::Obj(members)).len() as int) == jser(JsonVal::Obj(members)),
        fuel >= 2 * (s.len() - i) + 1,
    ensures
        sp_value(s, i, fuel) == Some(
            (JsonVal::Obj(members), i + jser(JsonVal::Obj(members)).len() as int),
        ),
    decreases members, 3nat,
{
    let t = jser(JsonVal::Obj(members));
    let l = t.len() as int;
    assert forall|j: int| i <= j < i + l implies #[trigger] s[j] == t[j - i] by {
        assert(s.subrange(i, i + l)[j - i] == s[j]);
    }
    assert(s[i] == t[0]);
    assert(ws_end(s, i) == i) by {
        lemma_nonws(s[i]);
    }
    if members.len() == 0 {
        assert(s[i + 1] == t[1]);
        assert(t =~= seq!['{', '}']);
        assert(ws_end(s, i + 1) == i + 1) by {
            lemma_nonws(s[i + 1]);
        }
        assert(members =~= Seq::<(Seq<char>, JsonVal)>::empty());
    } else {
        let body_len = jser_members(members).len() as int;
        let e = i + 1 + body_len;
        assert(s[e] == t[l - 1]);
        assert(t[l - 1] == '}');
        assert(jser_members(members)[0] == jser_member(members[0])[0]);
        assert(jser_member(members[0])[0] == '"');
        assert(s[i + 1] == t[1]);
        assert(t[1] == jser_members(members)[0]);
        assert(s[i + 1] != '}');
        assert(ws_end(s, i + 1) == i + 1) by {
            lemma_nonws(s[i + 1]);
        }
        assert(s.subrange(i + 1, e) =~= jser_members(members));
        assert(!is_ws(s[e])) by {
            lemma_nonws(s[e]);
        }
        lemma_parse_of_jser_members(members, s, i + 1, (fuel - 1) as nat);
    }
}

/// The integer case of `lemma_parse_of_jser`.
proof fn lemma_parse_of_jser_int(n: i64, s: Seq<char>, i: int)
    requires
        0 <= i,
        i + jser_int(n).len() <= s.len(),
        s.subrange(i, i + jser_int(n).len() as int) == jser_int(n),
        i + jser_int(n).len() == s.len() || !is_digit(s[i + jser_int(n).len() as int]),
    ensures
        sp_int(s, i) == Some((JsonVal::Int(n), i + jser_int(n).len() as int)),
{
    let t = jser_int(n);
    let l = t.len() as int;
    assert forall|j: int| i <= j < i + l implies #[trigger] s[j] == t[j - i] by {
        assert(s.subrange(i, i + l)[j - i] == s[j]);
    }
    if n >= 0 {
        let m = n as nat;
        lemma_dec_digits_all_digits(m);
        assert forall|j: int| i <= j < i + l implies is_digit(#[trigger] s[j]) by {
            assert(s[j] == t[j - i]);
        }
        lemma_digits_end_exact(s, i, i + l);
        assert(s[i] != '-');
        assert(s.subrange(i, i + l) =~= dec_digits(m));
        lemma_dvs_dec_digits(m);
    } else {
        let m = (-(n as int)) as nat;
        lemma_dec_digits_all_digits(m);
        assert(s[i] == '-');
        assert forall|j: int| i + 1 <= j < i + l implies is_digit(#[trigger] s[j]) by {
            assert(s[j] == t[j - i]);
            assert(t[j - i] == dec_digits(m)[j - i - 1]);
        }
        lemma_digits_end_exact(s, i + 1, i + l);
        assert(s.subrange(i + 1, i + l) =~= dec_digits(m));
        lemma_dvs_dec_digits(m);
        assert(m <= 0x8000_0000_0000_0000);
        assert((-(m as int)) as i64 == n);
    }
}

/// Parsing at the start of the laid-out text of one or more elements
/// returns them all, provided the text is followed by a character that
/// neither continues a number, nor reads as a separator, nor is
/// whitespace.
#[verifier::rlimit(100)]
proof fn lemma_parse_of_jser_elems(elems: Seq<JsonVal>, s: Seq<char>, i: int, fuel: nat)
    requires
        elems.len() >= 1,
        0 <= i,
        i + jser_elems(elems).len() < s.len(),
        s.subrange(i, i + jser_elems(elems).len() as int) == jser_elems(elems),
        s[i + jser_elems(elems).len() as int] != ',',
        !is_digit(s[i + jser_elems(elems).len() as int]),
        !is_ws(s[i + jser_elems(elems).len() as int]),
        fuel >= 2 * (s.len() - i) + 2,
    ensures
        sp_elems(s, i, fuel) == Some((elems, i + jser_elems(elems).len() as int)),
    decreases elems, 2nat,
{
    let v0 = elems[0];
    let l0 = jser(v0).len() as int;
    if elems.len() == 1 {
        let t = jser_elems(elems);
        let l = t.len() as int;
        assert forall|j: int| i <= j < i + l implies #[trigger] s[j] == t[j - i] by {
            assert(s.subrange(i, i + l)[j - i] == s[j]);
        }
        assert(s.subrange(i, i + l0) =~= jser(v0));
        lemma_parse_of_jser(v0, s, i, (fuel - 1) as nat);
        assert(ws_end(s, i + l0) == i + l0);
        assert(seq![v0] =~= elems);
    } else {
        lemma_parse_of_jser_elems_cons(elems, s, i, fuel);
    }
}

/// The step of `lemma_parse_of_jser_elems`: a first element, a comma, and
/// the remaining elements.
#[verifier::rlimit(100)]
proof fn lemma_parse_of_jser_elems_cons(elems: Seq<JsonVal>, s: Seq<char>, i: int, fuel: nat)
    requires
        elems.len() >= 2,
        0 <= i,
        i + jser_elems(elems).len() < s.len(),
        s.subrange(i, i + jser_elems(elems).len() as int) == jser_elems(elems),
        s[i + jser_elems(elems).len() as int] != ',',
        !is_digit(s[i + jser_elems(elems).len() as int]),
        !is_ws(s[i + jser_elems(elems).len() as int]),
        fuel >= 2 * (s.len() - i) + 2,
    ensures
        sp_elems(s, i, fuel) == Some((elems, i + jser_elems(elems).len() as int)),
    decreases elems, 1nat,
{
    let t = jser_elems(elems);
    let l = t.len() as int;
    assert forall|j: int| i <= j < i + l implies #[trigger] s[j] == t[j - i] by {
        assert(s.subrange(i, i + l)[j - i] == s[j]);
    }
    let v0 = elems[0];
    let l0 = jser(v0).len() as int;
    {
        assert(t =~= jser(v0) + seq![','] + jser_elems(elems.drop_first()));
        assert forall|k: int| 0 <= k < l0 implies #[trigger] t[k] == jser(v0)[k] by {}
        assert(s.subrange(i, i + l0) =~= jser(v0));
        assert(s[i + l0] == t[l0]);
        assert(t[l0] == ',');
        lemma_parse_of_jser(v0, s, i, (fuel - 1) as nat);
        assert(ws_end(s, i + l0) == i + l0) by {
            lemma_nonws(s[i + l0]);
        }
        let rest = elems.drop_first();
        let j = i + l0 + 1;
        assert forall|k: int| 0 <= k < jser_elems(rest).len() implies #[trigger] s[j + k]
            == jser_elems(rest)[k] by {
            assert(s[j + k] == t[l0 + 1 + k]);
        }
        assert(s.subrange(j, j + jser_elems(rest).len() as int) =~= jser_elems(rest));
        lemma_parse_of_jser_elems(rest, s, j, (fuel - 1) as nat);
        assert(seq![v0] + rest =~= elems);
    }
}

/// Parsing at the laid-out text of one member: the quoted key parses back,
/// the colon follows, and the value parses back, ending just past the text.
#[verifier::rlimit(100)]
proof fn lemma_parse_of_jser_member_head(
    kv: (Seq<char>, JsonVal),
    s: Seq<char>,
    i: int,
    fuel: nat,
)
    requires
        0 <= i,
        i + jser_member(kv).len() <= s.len(),
        s.subrange(i, i + jser_member(kv).len() as int) == jser_member(kv),
        kv.1 is Int ==> (i + jser_member(kv).len() == s.len() || !is_digit(
            s[i + jser_member(kv).len() as int],
        )),
        fuel >= 2 * (s.len() - i) + 1,
    ensures
        s[i] == '"',
        ws_end(s, i) == i,
        sp_str_body(s, i + 1) == Some((kv.0, i + 2 + jser_str_body(kv.0).len() as int)),
        s[i + 2 + jser_str_body(kv.0).len() as int] == ':',
        ws_end(s, i + 2 + jser_str_body(kv.0).len() as int) == i + 2 + jser_str_body(
            kv.0,
        ).len() as int,
        sp_value(s, i + 3 + jser_str_body(kv.0).len() as int, fuel) == Some(
            (kv.1, i + jser_member(kv).len() as int),
        ),
    decreases kv, 2nat,
{
    let key = kv.0;
    let v0 = kv.1;
    let m0 = jser_member(kv);
    let lm = m0.len() as int;
    let kl = jser_str_body(key).len() as int;
    assert forall|j: int| i <= j < i + lm implies #[trigger] s[j] == m0[j - i] by {
        assert(s.subrange(i, i + lm)[j - i] == s[j]);
    }
    // layout: a quoted key, a colon, then the value
    assert(s[i] == '"');
    assert(ws_end(s, i) == i) by {
        lemma_nonws(s[i]);
    }
    let e = i + 1 + kl;
    assert(m0[kl + 1] == '"');
    assert(s[e] == m0[kl + 1]);
    assert forall|k: int|
        0 <= k < kl implies #[trigger] s[i + 1 + k] == jser_str_body(key)[k] by {
        assert(s[i + 1 + k] == m0[1 + k]);
        assert(m0[1 + k] == jser_str_body(key)[k]);
    }
    assert(s.subrange(i + 1, e) =~= jser_str_body(key));
    lemma_parse_of_jser_strbody(key, s, i + 1);
    assert(s[e + 1] == m0[kl + 2]);
    assert(m0[kl + 2] == ':');
    assert(ws_end(s, e + 1) == e + 1) by {
        lemma_nonws(s[e + 1]);
    }
    let vi = e + 2;
    let lv = jser(v0).len() as int;
    assert forall|k: int| 0 <= k < lv implies #[trigger] s[vi + k] == jser(v0)[k] by {
        assert(s[vi + k] == m0[kl + 3 + k]);
    }
    assert(s.subrange(vi, vi + lv) =~= jser(v0));
    lemma_parse_of_jser(v0, s, vi, fuel);
}

/// Parsing at the start of the laid-out text of one or more members returns
/// them all, under the conditions of `lemma_parse_of_jser_elems`.
#[verifier::rlimit(100)]
proof fn lemma_parse_of_jser_members(
    members: Seq<(Seq<char>, JsonVal)>,
    s: Seq<char>,
    i: int,
    fuel: nat,
)
    requires
        members.len() >= 1,
        0 <= i,
        i + jser_members(members).len() < s.len(),
        s.subrange(i, i + jser_members(members).len() as int) == jser_members(members),
        s[i + jser_members(members).len() as int] != ',',
        !is_digit(s[i + jser_members(members).len() as int]),
        !is_ws(s[i + jser_members(members).len() as int]),
        fuel >= 2 * (s.len() - i) + 2,
    ensures
        sp_members(s, i, fuel) == Some((members, i + jser_members(members).len() as int)),
    decreases members, 1nat,
{
    let t = jser_members(members);
    let l = t.len() as int;
    assert forall|j: int| i <= j < i + l implies #[trigger] s[j] == t[j - i] by {
        assert(s.subrange(i, i + l)[j - i] == s[j]);
    }
    let kv = members[0];
    let key = kv.0;
    let v0 = kv.1;
    let m0 = jser_member(kv);
    let lm = m0.len() as int;
    let kl = jser_str_body(key).len() as int;
    assert forall|k: int| 0 <= k < lm implies #[trigger] t[k] == m0[k] by {
        if members.len() > 1 {
        }
    }
    assert(s.subrange(i, i + lm) =~= m0);
    if members.len() == 1 {
        assert(lm == l);
        lemma_parse_of_jser_member_head(kv, s, i, (fuel - 1) as nat);
        assert(ws_end(s, i + l) == i + l);
        assert(seq![(key, v0)] =~= members);
    } else {
        assert(s[i + lm] == t[lm]);
        assert(t[lm] == ',');
        lemma_parse_of_jser_member_head(kv, s, i, (fuel - 1) as nat);
        assert(ws_end(s, i + lm) == i + lm) by {
            lemma_nonws(s[i + lm]);
        }
        let rest = members.drop_first();
        let j = i + lm + 1;
        assert forall|k: int| 0 <= k < jser_members(rest).len() implies #[trigger] s[j + k]
            == jser_members(rest)[k] by {
            assert(s[j + k] == t[lm + 1 + k]);
        }
        assert(s.subrange(j, j + jser_members(rest).len() as int) =~= jser_members(rest));
        lemma_parse_of_jser_members(rest, s, j, (fuel - 1) as nat);
        assert(seq![(key, v0)] + rest =~= members);
    }
}

/// The round trip at the heart of the codec: the canonical text of any
/// value parses back to exactly that value.
pub proof fn lemma_json_round_trip(v: JsonVal)
    ensures
        spec_parse_json(jser(v)) == Some(v),
{
    let s = jser(v);
    assert(s.subrange(0, s.len() as int) =~= s);
    lemma_parse_of_jser(v, s, 0, parse_fuel(s));
    let j = jser(v).len() as int;
    assert(ws_end(s, j) == j);
}


} // verus!
