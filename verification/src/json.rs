//! The wire format of the control channel: JSON text frames.
//!
//! `Json` is the executable value tree; `JVal` is its mathematical model.
//! `print_json` renders a value as canonical text: no whitespace between
//! tokens, every control character escaped. `parse_json` reads frames back
//! and is more liberal: whitespace between tokens, the standard escapes
//! with surrogate pairs, and numbers the protocol has no use for, which it
//! keeps as their unparsed text. `lemma_print_then_parse` shows the two
//! are inverse on every well-formed value.

use vstd::prelude::*;

verus! {

/// An executable JSON value. Numbers are unsigned integers: the control
/// protocol carries counts, durations and cents, never fractions.
#[derive(Debug)]
pub enum Json {
    Null,
    Bool(bool),
    UInt(u64),
    /// A number the protocol has no use for (negative, fractional, or too
    /// large), kept as its unparsed text so the frame still decodes.
    Num(String),
    Str(String),
    Arr(Vec<Json>),
    Obj(Vec<(String, Json)>),
}

/// The mathematical model of a JSON value.
pub enum JVal {
    Null,
    Bool(bool),
    UInt(u64),
    Num(Seq<char>),
    Str(Seq<char>),
    Arr(Seq<JVal>),
    Obj(Seq<(Seq<char>, JVal)>),
}

impl Json {
    /// The model of this value.
    pub open spec fn jv(self) -> JVal
        decreases self,
    {
        match self {
            Json::Null => JVal::Null,
            Json::Bool(b) => JVal::Bool(b),
            Json::UInt(n) => JVal::UInt(n),
            Json::Num(s) => JVal::Num(s@),
            Json::Str(s) => JVal::Str(s@),
            Json::Arr(a) => JVal::Arr(jv_seq(a@)),
            Json::Obj(fs) => JVal::Obj(jv_members(fs@)),
        }
    }
}

/// The models of a sequence of values.
pub open spec fn jv_seq(a: Seq<Json>) -> Seq<JVal>
    decreases a,
{
    if a.len() == 0 {
        Seq::<JVal>::empty()
    } else {
        seq![a[0].jv()] + jv_seq(a.skip(1))
    }
}

/// The models of a sequence of object members.
pub open spec fn jv_members(fs: Seq<(String, Json)>) -> Seq<(Seq<char>, JVal)>
    decreases fs,
{
    if fs.len() == 0 {
        Seq::<(Seq<char>, JVal)>::empty()
    } else {
        seq![(fs[0].0@, fs[0].1.jv())] + jv_members(fs.skip(1))
    }
}

pub proof fn lemma_jv_seq(a: Seq<Json>)
    ensures
        jv_seq(a).len() == a.len(),
        forall|i: int| 0 <= i < a.len() ==> jv_seq(a)[i] == #[trigger] a[i].jv(),
    decreases a.len(),
{
    if a.len() > 0 {
        lemma_jv_seq(a.skip(1));
        assert forall|i: int| 0 <= i < a.len() implies jv_seq(a)[i] == #[trigger] a[i].jv() by {
            if i > 0 {
                assert(a.skip(1)[i - 1] == a[i]);
                assert(jv_seq(a.skip(1))[i - 1] == a.skip(1)[i - 1].jv());
                assert(jv_seq(a)[i] == jv_seq(a.skip(1))[i - 1]);
            }
        }
    }
}

pub proof fn lemma_jv_members(fs: Seq<(String, Json)>)
    ensures
        jv_members(fs).len() == fs.len(),
        forall|i: int| 0 <= i < fs.len() ==> jv_members(fs)[i]
            == (#[trigger] fs[i].0@, fs[i].1.jv()),
    decreases fs.len(),
{
    if fs.len() > 0 {
        lemma_jv_members(fs.skip(1));
        assert forall|i: int| 0 <= i < fs.len() implies jv_members(fs)[i]
            == (#[trigger] fs[i].0@, fs[i].1.jv()) by {
            if i > 0 {
                assert(fs.skip(1)[i - 1] == fs[i]);
                assert(jv_members(fs.skip(1))[i - 1] == (fs.skip(1)[i - 1].0@, fs.skip(1)[i - 1].1.jv()));
                assert(jv_members(fs)[i] == jv_members(fs.skip(1))[i - 1]);
            }
        }
    }
}

impl View for Json {
    type V = JVal;

    open spec fn view(&self) -> JVal {
        self.jv()
    }
}

pub proof fn lemma_jv_seq_take_push(a: Seq<Json>, i: int, x: Json)
    requires
        0 <= i < a.len(),
        x.jv() == a[i].jv(),
    ensures
        jv_seq(a.take(i)).push(x.jv()) == jv_seq(a.take(i + 1)),
{
    lemma_jv_seq(a.take(i));
    lemma_jv_seq(a.take(i + 1));
    assert forall|j: int| 0 <= j < i + 1 implies jv_seq(a.take(i)).push(x.jv())[j]
        == jv_seq(a.take(i + 1))[j] by {
        assert(jv_seq(a.take(i + 1))[j] == a.take(i + 1)[j].jv());
        if j < i {
            assert(jv_seq(a.take(i))[j] == a.take(i)[j].jv());
            assert(a.take(i)[j] == a[j]);
            assert(a.take(i + 1)[j] == a[j]);
        } else {
            assert(a.take(i + 1)[j] == a[i]);
        }
    }
    assert(jv_seq(a.take(i)).push(x.jv()) =~= jv_seq(a.take(i + 1)));
}

pub proof fn lemma_jv_members_take_push(fs: Seq<(String, Json)>, i: int, p: (String, Json))
    requires
        0 <= i < fs.len(),
        p.0@ == fs[i].0@,
        p.1.jv() == fs[i].1.jv(),
    ensures
        jv_members(fs.take(i)).push((p.0@, p.1.jv())) == jv_members(fs.take(i + 1)),
{
    lemma_jv_members(fs.take(i));
    lemma_jv_members(fs.take(i + 1));
    assert forall|j: int| 0 <= j < i + 1 implies jv_members(fs.take(i)).push((p.0@, p.1.jv()))[j]
        == jv_members(fs.take(i + 1))[j] by {
        assert(jv_members(fs.take(i + 1))[j] == (fs.take(i + 1)[j].0@, fs.take(i + 1)[j].1.jv()));
        if j < i {
            assert(jv_members(fs.take(i))[j] == (fs.take(i)[j].0@, fs.take(i)[j].1.jv()));
            assert(fs.take(i)[j] == fs[j]);
            assert(fs.take(i + 1)[j] == fs[j]);
        } else {
            assert(fs.take(i + 1)[j] == fs[i]);
        }
    }
    assert(jv_members(fs.take(i)).push((p.0@, p.1.jv())) =~= jv_members(fs.take(i + 1)));
}

impl Json {
    /// A deep copy with the same model.
    #[verifier::loop_isolation(false)]
    pub fn duplicate(&self) -> (r: Json)
        ensures
            r@ == self@,
        decreases self,
    {
        match self {
            Json::Null => Json::Null,
            Json::Bool(b) => Json::Bool(*b),
            Json::UInt(n) => Json::UInt(*n),
            Json::Num(s) => Json::Num(s.clone()),
            Json::Str(s) => Json::Str(s.clone()),
            Json::Arr(a) => {
                let mut out: Vec<Json> = Vec::new();
                let n = a.len();
                let mut i: usize = 0;
                proof {
                    assert(jv_seq(out@) =~= Seq::<JVal>::empty());
                    assert(jv_seq(a@.take(0)) =~= Seq::<JVal>::empty());
                }
                while i < n
                    invariant
                        0 <= i <= n,
                        jv_seq(out@) == jv_seq(a@.take(i as int)),
                    decreases n - i,
                {
                    proof {
                        assert(*a == self->Arr_0);
                        assert(decreases_to!(*self => self->Arr_0));
                        assert(decreases_to!(*a => a@));
                        assert(decreases_to!(a@ => a@[i as int]));
                    }
                    let ghost out0 = out@;
                    out.push(a[i].duplicate());
                    proof {
                        lemma_jv_seq_push(out0, out@[out@.len() - 1]);
                        lemma_jv_seq_take_push(a@, i as int, out@[out@.len() - 1]);
                    }
                    i = i + 1;
                }
                proof {
                    assert(a@.take(n as int) =~= a@);
                }
                Json::Arr(out)
            },
            Json::Obj(fs) => {
                let mut out: Vec<(String, Json)> = Vec::new();
                let n = fs.len();
                let mut i: usize = 0;
                proof {
                    assert(jv_members(out@) =~= Seq::<(Seq<char>, JVal)>::empty());
                    assert(jv_members(fs@.take(0)) =~= Seq::<(Seq<char>, JVal)>::empty());
                }
                while i < n
                    invariant
                        0 <= i <= n,
                        jv_members(out@) == jv_members(fs@.take(i as int)),
                    decreases n - i,
                {
                    proof {
                        assert(*fs == self->Obj_0);
                        assert(decreases_to!(*self => self->Obj_0));
                        assert(decreases_to!(*fs => fs@));
                        assert(decreases_to!(fs@ => fs@[i as int]));
                        assert(decreases_to!(fs@[i as int] => fs@[i as int].1));
                    }
                    let ghost out0 = out@;
                    let key = fs[i].0.clone();
                    let val = fs[i].1.duplicate();
                    out.push((key, val));
                    proof {
                        lemma_jv_members_push(out0, out@[out@.len() - 1].0, out@[out@.len() - 1].1);
                        lemma_jv_members_take_push(fs@, i as int, out@[out@.len() - 1]);
                    }
                    i = i + 1;
                }
                proof {
                    assert(fs@.take(n as int) =~= fs@);
                }
                Json::Obj(out)
            },
        }
    }
}

// ---------------------------------------------------------------------------
// Decimal digits
// ---------------------------------------------------------------------------

/// The character for one decimal digit.
pub open spec fn digit_char(d: nat) -> char {
    if d == 0 { '0' } else if d == 1 { '1' } else if d == 2 { '2' }
    else if d == 3 { '3' } else if d == 4 { '4' } else if d == 5 { '5' }
    else if d == 6 { '6' } else if d == 7 { '7' } else if d == 8 { '8' }
    else { '9' }
}

pub open spec fn is_digit(c: char) -> bool {
    '0' <= c && c <= '9'
}

/// The numeric value of a digit character.
pub open spec fn digit_val(c: char) -> nat {
    (c as nat - '0' as nat) as nat
}

/// The decimal rendering of a number, most significant digit first.
pub open spec fn spec_digits(n: nat) -> Seq<char>
    decreases n,
{
    if n < 10 {
        seq![digit_char(n)]
    } else {
        spec_digits(n / 10).push(digit_char(n % 10))
    }
}

/// The value of a digit string, read left to right.
pub open spec fn digits_value(ds: Seq<char>) -> nat
    decreases ds.len(),
{
    if ds.len() == 0 {
        0
    } else {
        digits_value(ds.drop_last()) * 10 + digit_val(ds.last())
    }
}

pub proof fn lemma_digits_shape(n: nat)
    ensures
        spec_digits(n).len() >= 1,
        forall|i: int| 0 <= i < spec_digits(n).len() ==> is_digit(#[trigger] spec_digits(n)[i]),
        digits_value(spec_digits(n)) == n,
    decreases n,
{
    if n < 10 {
        assert(spec_digits(n) =~= seq![digit_char(n)]);
        assert(spec_digits(n).drop_last() =~= Seq::<char>::empty());
        assert(digit_val(digit_char(n)) == n);
        assert(digits_value(spec_digits(n))
            == digits_value(spec_digits(n).drop_last()) * 10 + digit_val(spec_digits(n).last()));
        assert(digits_value(Seq::<char>::empty()) == 0);
        assert(spec_digits(n).last() == digit_char(n));
    } else {
        lemma_digits_shape(n / 10);
        let pre = spec_digits(n / 10);
        assert(spec_digits(n) == pre.push(digit_char(n % 10)));
        assert(spec_digits(n).drop_last() =~= pre);
        assert(spec_digits(n).last() == digit_char(n % 10));
        assert(digit_val(digit_char(n % 10)) == n % 10);
        assert(digits_value(spec_digits(n)) == (n / 10) * 10 + n % 10);
        assert(forall|i: int| 0 <= i < spec_digits(n).len() ==> is_digit(#[trigger] spec_digits(n)[i])) by {
            assert(forall|i: int| 0 <= i < pre.len() ==> is_digit(#[trigger] pre[i]));
            assert(is_digit(digit_char(n % 10)));
            assert(forall|i: int| 0 <= i < spec_digits(n).len() ==> #[trigger] spec_digits(n)[i]
                == if i < pre.len() { pre[i] } else { digit_char(n % 10) });
        }
    }
}

/// Powers of ten.
pub open spec fn pow10(k: nat) -> nat
    decreases k,
{
    if k == 0 { 1 } else { 10 * pow10((k - 1) as nat) }
}

pub proof fn lemma_digits_len_bound(n: nat, k: nat)
    requires
        k >= 1,
        n < pow10(k),
    ensures
        spec_digits(n).len() <= k,
    decreases n,
{
    if n >= 10 {
        assert(pow10(k) == 10 * pow10((k - 1) as nat));
        assert(n / 10 < pow10((k - 1) as nat)) by {
            assert(n < 10 * pow10((k - 1) as nat));
        }
        assert(k - 1 >= 1) by {
            if k == 1 {
                assert(pow10(1nat) == 10);
            }
        }
        lemma_digits_len_bound(n / 10, (k - 1) as nat);
    }
}

/// A digit string's value grows at most tenfold per digit.
pub proof fn lemma_digits_value_bound(ds: Seq<char>)
    requires
        forall|i: int| 0 <= i < ds.len() ==> is_digit(#[trigger] ds[i]),
    ensures
        digits_value(ds) < pow10(ds.len()),
    decreases ds.len(),
{
    if ds.len() == 0 {
    } else {
        lemma_digits_value_bound(ds.drop_last());
        let p = pow10((ds.len() - 1) as nat);
        assert(digits_value(ds.drop_last()) <= p - 1);
        assert(digit_val(ds.last()) <= 9);
        assert(digits_value(ds.drop_last()) * 10 <= (p - 1) * 10) by (nonlinear_arith)
            requires digits_value(ds.drop_last()) <= p - 1, p >= 1;
        assert(pow10(ds.len()) == 10 * p);
    }
}

// ---------------------------------------------------------------------------
// Printing
// ---------------------------------------------------------------------------

/// The character for one hexadecimal digit, lower case.
pub open spec fn hex_char(d: nat) -> char {
    if d == 0 { '0' } else if d == 1 { '1' } else if d == 2 { '2' }
    else if d == 3 { '3' } else if d == 4 { '4' } else if d == 5 { '5' }
    else if d == 6 { '6' } else if d == 7 { '7' } else if d == 8 { '8' }
    else if d == 9 { '9' } else if d == 10 { 'a' } else if d == 11 { 'b' }
    else if d == 12 { 'c' } else if d == 13 { 'd' } else if d == 14 { 'e' }
    else { 'f' }
}

/// The numeric value of a hexadecimal digit, either case.
pub open spec fn hex_val(c: char) -> Option<nat> {
    if is_digit(c) { Some(digit_val(c)) }
    else if 'a' <= c && c <= 'f' { Some((c as nat - 'a' as nat + 10) as nat) }
    else if 'A' <= c && c <= 'F' { Some((c as nat - 'A' as nat + 10) as nat) }
    else { None }
}

/// How one character is written inside a string literal: the two
/// metacharacters and the common controls get their short escapes, every
/// other control character its four-digit form, everything else itself.
pub open spec fn esc_char(c: char) -> Seq<char> {
    if c == '"' { seq!['\\', '"'] }
    else if c == '\\' { seq!['\\', '\\'] }
    else if c == '\n' { seq!['\\', 'n'] }
    else if c == '\r' { seq!['\\', 'r'] }
    else if c == '\t' { seq!['\\', 't'] }
    else if (c as u32) < 0x20 {
        seq!['\\', 'u', '0', '0', hex_char(((c as u32) / 16) as nat),
            hex_char(((c as u32) % 16) as nat)]
    }
    else { seq![c] }
}

/// A string body with the escapes applied.
pub open spec fn esc_string(s: Seq<char>) -> Seq<char>
    decreases s.len(),
{
    if s.len() == 0 {
        Seq::<char>::empty()
    } else {
        esc_char(s[0]) + esc_string(s.skip(1))
    }
}

/// The canonical text of a value: no whitespace between tokens, object
/// order preserved, an unparsed number kept as its own text.
pub open spec fn spec_print(v: JVal) -> Seq<char>
    decreases v,
{
    match v {
        JVal::Null => seq!['n', 'u', 'l', 'l'],
        JVal::Bool(b) => if b { seq!['t', 'r', 'u', 'e'] } else { seq!['f', 'a', 'l', 's', 'e'] },
        JVal::UInt(n) => spec_digits(n as nat),
        JVal::Num(lex) => lex,
        JVal::Str(s) => seq!['"'] + esc_string(s) + seq!['"'],
        JVal::Arr(a) => seq!['['] + spec_print_elems(a) + seq![']'],
        JVal::Obj(fs) => seq!['{'] + spec_print_members(fs) + seq!['}'],
    }
}

/// Array elements joined by commas.
pub open spec fn spec_print_elems(a: Seq<JVal>) -> Seq<char>
    decreases a,
{
    if a.len() == 0 {
        Seq::<char>::empty()
    } else if a.len() == 1 {
        spec_print(a[0])
    } else {
        spec_print(a[0]) + seq![','] + spec_print_elems(a.skip(1))
    }
}

/// Object members `"key":value` joined by commas.
pub open spec fn spec_print_members(fs: Seq<(Seq<char>, JVal)>) -> Seq<char>
    decreases fs,
{
    if fs.len() == 0 {
        Seq::<char>::empty()
    } else {
        let head = seq!['"'] + esc_string(fs[0].0) + seq!['"', ':'] + spec_print(fs[0].1);
        if fs.len() == 1 {
            head
        } else {
            head + seq![','] + spec_print_members(fs.skip(1))
        }
    }
}

// ---------------------------------------------------------------------------
// Parsing (specification)
// ---------------------------------------------------------------------------
//
// The parsers read a suffix of the frame and return the value together with
// what remains. Whitespace between tokens is skipped; strings understand the
// standard escapes, four-digit forms and surrogate pairs included; a number
// the protocol has no use for is kept as its unparsed text.

pub open spec fn is_ws(c: char) -> bool {
    c == ' ' || c == '\t' || c == '\n' || c == '\r'
}

/// The length of the leading run of whitespace.
pub open spec fn ws_len(s: Seq<char>) -> nat
    decreases s.len(),
{
    if s.len() > 0 && is_ws(s[0]) {
        1 + ws_len(s.skip(1))
    } else {
        0
    }
}

/// The text with leading whitespace dropped. The run of whitespace never
/// exceeds the text, so the guard only keeps the definition total.
pub open spec fn skip_ws(s: Seq<char>) -> Seq<char> {
    if ws_len(s) <= s.len() {
        s.skip(ws_len(s) as int)
    } else {
        s
    }
}

pub proof fn lemma_ws_len_bound(s: Seq<char>)
    ensures
        ws_len(s) <= s.len(),
        ws_len(s) < s.len() ==> !is_ws(s[ws_len(s) as int]),
        forall|k: int| 0 <= k < ws_len(s) ==> is_ws(#[trigger] s[k]),
    decreases s.len(),
{
    if s.len() > 0 && is_ws(s[0]) {
        lemma_ws_len_bound(s.skip(1));
        assert forall|k: int| 0 <= k < ws_len(s) implies is_ws(#[trigger] s[k]) by {
            if k > 0 {
                assert(s.skip(1)[k - 1] == s[k]);
                assert(is_ws(s.skip(1)[k - 1]));
            }
        }
    }
}

/// Text that does not begin with whitespace is its own remainder.
pub proof fn lemma_skip_ws_id(s: Seq<char>)
    requires
        s.len() == 0 || !is_ws(s[0]),
    ensures
        skip_ws(s) == s,
{
    assert(ws_len(s) == 0);
    assert(s.skip(0) =~= s);
}

/// The character named by a one-letter escape, if it is understood.
pub open spec fn unesc_char(e: char) -> Option<char> {
    if e == '"' { Some('"') }
    else if e == '\\' { Some('\\') }
    else if e == '/' { Some('/') }
    else if e == 'b' { Some('\u{0008}') }
    else if e == 'f' { Some('\u{000c}') }
    else if e == 'n' { Some('\n') }
    else if e == 'r' { Some('\r') }
    else if e == 't' { Some('\t') }
    else { None }
}

/// The value of the four hexadecimal digits at the front, if they are ones.
pub open spec fn hex4(s: Seq<char>) -> Option<nat> {
    if s.len() >= 4 {
        match (hex_val(s[0]), hex_val(s[1]), hex_val(s[2]), hex_val(s[3])) {
            (Option::Some(h1), Option::Some(h2), Option::Some(h3), Option::Some(h4)) =>
                Some((h1 * 4096 + h2 * 256 + h3 * 16 + h4) as nat),
            _ => None,
        }
    } else {
        None
    }
}

pub open spec fn is_high_surrogate(v: nat) -> bool {
    0xd800 <= v < 0xdc00
}

pub open spec fn is_low_surrogate(v: nat) -> bool {
    0xdc00 <= v < 0xe000
}

/// Reads a string body up to its closing quote.
pub open spec fn sp_strbody(s: Seq<char>) -> Option<(Seq<char>, Seq<char>)>
    decreases s.len(),
{
    if s.len() == 0 {
        None
    } else if s[0] == '"' {
        Some((Seq::<char>::empty(), s.skip(1)))
    } else if s[0] == '\\' {
        if s.len() < 2 {
            None
        } else if s[1] == 'u' {
            match hex4(s.skip(2)) {
                Option::None => None,
                Option::Some(v) => {
                    if is_high_surrogate(v) {
                        if s.len() >= 12 && s[6] == '\\' && s[7] == 'u' {
                            match hex4(s.skip(8)) {
                                Option::None => None,
                                Option::Some(w) => {
                                    if is_low_surrogate(w) {
                                        let scalar = 0x10000 + (v - 0xd800) * 0x400
                                            + (w - 0xdc00);
                                        match sp_strbody(s.skip(12)) {
                                            Option::None => None,
                                            Option::Some((t, r)) =>
                                                Some((seq![(scalar as u32) as char] + t, r)),
                                        }
                                    } else {
                                        None
                                    }
                                },
                            }
                        } else {
                            None
                        }
                    } else if is_low_surrogate(v) {
                        None
                    } else {
                        match sp_strbody(s.skip(6)) {
                            Option::None => None,
                            Option::Some((t, r)) => Some((seq![(v as u32) as char] + t, r)),
                        }
                    }
                },
            }
        } else {
            match unesc_char(s[1]) {
                Option::None => None,
                Option::Some(u) => match sp_strbody(s.skip(2)) {
                    Option::None => None,
                    Option::Some((t, r)) => Some((seq![u] + t, r)),
                },
            }
        }
    } else {
        match sp_strbody(s.skip(1)) {
            Option::None => None,
            Option::Some((t, r)) => Some((seq![s[0]] + t, r)),
        }
    }
}

/// The length of the leading run of digits.
pub open spec fn digit_prefix_len(s: Seq<char>) -> nat
    decreases s.len(),
{
    if s.len() > 0 && is_digit(s[0]) {
        1 + digit_prefix_len(s.skip(1))
    } else {
        0
    }
}

/// The characters a number token is made of.
pub open spec fn num_char(c: char) -> bool {
    is_digit(c) || c == '.' || c == 'e' || c == 'E' || c == '+' || c == '-'
}

/// The length of the leading run of number characters.
pub open spec fn num_prefix_len(s: Seq<char>) -> nat
    decreases s.len(),
{
    if s.len() > 0 && num_char(s[0]) {
        1 + num_prefix_len(s.skip(1))
    } else {
        0
    }
}

pub open spec fn all_digits(s: Seq<char>) -> bool {
    forall|i: int| 0 <= i < s.len() ==> is_digit(#[trigger] s[i])
}

/// Reads one number token: a plain integer that fits becomes a number the
/// protocol can use; anything else is kept as its unparsed text.
pub open spec fn sp_number(s: Seq<char>) -> Option<(JVal, Seq<char>)> {
    let k = num_prefix_len(s);
    if k == 0 {
        None
    } else {
        let lex = s.take(k as int);
        if all_digits(lex) && k <= 20 && digits_value(lex) <= u64::MAX {
            Some((JVal::UInt(digits_value(lex) as u64), s.skip(k as int)))
        } else {
            Some((JVal::Num(lex), s.skip(k as int)))
        }
    }
}

/// Reads one value, leading whitespace skipped.
pub open spec fn sp_value(s: Seq<char>) -> Option<(JVal, Seq<char>)>
    decreases s.len(), 1int,
{
    sp_value_at(skip_ws(s))
}

/// Reads one value that starts at the front.
pub open spec fn sp_value_at(s: Seq<char>) -> Option<(JVal, Seq<char>)>
    decreases s.len(), 0int,
{
    if s.len() == 0 {
        None
    } else if s[0] == 'n' {
        if s.len() >= 4 && s[1] == 'u' && s[2] == 'l' && s[3] == 'l' {
            Some((JVal::Null, s.skip(4)))
        } else {
            None
        }
    } else if s[0] == 't' {
        if s.len() >= 4 && s[1] == 'r' && s[2] == 'u' && s[3] == 'e' {
            Some((JVal::Bool(true), s.skip(4)))
        } else {
            None
        }
    } else if s[0] == 'f' {
        if s.len() >= 5 && s[1] == 'a' && s[2] == 'l' && s[3] == 's' && s[4] == 'e' {
            Some((JVal::Bool(false), s.skip(5)))
        } else {
            None
        }
    } else if s[0] == '"' {
        match sp_strbody(s.skip(1)) {
            Option::None => None,
            Option::Some((t, r)) => Some((JVal::Str(t), r)),
        }
    } else if is_digit(s[0]) || s[0] == '-' {
        sp_number(s)
    } else if s[0] == '[' {
        let u = skip_ws(s.skip(1));
        if u.len() >= 1 && u[0] == ']' {
            Some((JVal::Arr(Seq::<JVal>::empty()), u.skip(1)))
        } else {
            match sp_elems(s.skip(1)) {
                Option::None => None,
                Option::Some((es, r)) => Some((JVal::Arr(es), r)),
            }
        }
    } else if s[0] == '{' {
        let u = skip_ws(s.skip(1));
        if u.len() >= 1 && u[0] == '}' {
            Some((JVal::Obj(Seq::<(Seq<char>, JVal)>::empty()), u.skip(1)))
        } else {
            match sp_members(s.skip(1)) {
                Option::None => None,
                Option::Some((fs, r)) => Some((JVal::Obj(fs), r)),
            }
        }
    } else {
        None
    }
}

/// Reads the elements of a non-empty array, up to its closing bracket.
pub open spec fn sp_elems(s: Seq<char>) -> Option<(Seq<JVal>, Seq<char>)>
    decreases s.len(), 2int,
{
    match sp_value(s) {
        Option::None => None,
        Option::Some((v, r0)) => {
            let r = skip_ws(r0);
            if r.len() >= s.len() || r.len() == 0 {
                None
            } else if r[0] == ',' {
                match sp_elems(r.skip(1)) {
                    Option::None => None,
                    Option::Some((es, r2)) => Some((seq![v] + es, r2)),
                }
            } else if r[0] == ']' {
                Some((seq![v], r.skip(1)))
            } else {
                None
            }
        },
    }
}

/// Reads the members of a non-empty object, up to its closing brace.
pub open spec fn sp_members(s: Seq<char>) -> Option<(Seq<(Seq<char>, JVal)>, Seq<char>)>
    decreases s.len(), 2int,
{
    let t = skip_ws(s);
    if t.len() == 0 || t[0] != '"' {
        None
    } else {
        match sp_strbody(t.skip(1)) {
            Option::None => None,
            Option::Some((k, r0)) => {
                let r1 = skip_ws(r0);
                if r1.len() >= s.len() || r1.len() == 0 || r1[0] != ':' {
                    None
                } else {
                    match sp_value(r1.skip(1)) {
                        Option::None => None,
                        Option::Some((v, r20)) => {
                            let r2 = skip_ws(r20);
                            if r2.len() >= s.len() || r2.len() == 0 {
                                None
                            } else if r2[0] == ',' {
                                match sp_members(r2.skip(1)) {
                                    Option::None => None,
                                    Option::Some((fs, r3)) => Some((seq![(k, v)] + fs, r3)),
                                }
                            } else if r2[0] == '}' {
                                Some((seq![(k, v)], r2.skip(1)))
                            } else {
                                None
                            }
                        },
                    }
                }
            },
        }
    }
}

/// Reads a whole frame: one value and nothing but whitespace after it.
pub open spec fn sp_top(s: Seq<char>) -> Option<JVal> {
    match sp_value(s) {
        Option::None => None,
        Option::Some((v, r)) => if skip_ws(r).len() == 0 { Some(v) } else { None },
    }
}

// ---------------------------------------------------------------------------
// The printer and the parser are inverse
// ---------------------------------------------------------------------------

/// A number kept as text is sound to reprint: a non-empty run of number
/// characters that begins like a number, and not one the parser would have
/// taken as a plain integer.
pub open spec fn num_wf(lex: Seq<char>) -> bool {
    &&& lex.len() > 0
    &&& forall|i: int| 0 <= i < lex.len() ==> num_char(#[trigger] lex[i])
    &&& (is_digit(lex[0]) || lex[0] == '-')
    &&& !(all_digits(lex) && lex.len() <= 20 && digits_value(lex) <= u64::MAX)
}

/// A value whose printed frame parses back to itself: every number kept as
/// text must be sound to reprint. Values the library builds hold no such
/// numbers, so every frame it emits is covered.
pub open spec fn wf_json(v: JVal) -> bool
    decreases v,
{
    match v {
        JVal::Num(lex) => num_wf(lex),
        JVal::Arr(a) => forall|i: int| 0 <= i < a.len() ==> wf_json(#[trigger] a[i]),
        JVal::Obj(fs) => forall|i: int| 0 <= i < fs.len() ==> wf_json((#[trigger] fs[i]).1),
        _ => true,
    }
}

/// Characters a printed value can start with.
pub open spec fn value_start(c: char) -> bool {
    c == 'n' || c == 't' || c == 'f' || c == '"' || is_digit(c) || c == '-'
        || c == '[' || c == '{'
}

/// A printed well-formed value is never empty and starts with a value
/// character, which is never whitespace.
pub proof fn lemma_print_head(v: JVal)
    requires
        wf_json(v),
    ensures
        spec_print(v).len() >= 1,
        value_start(spec_print(v)[0]),
        !is_ws(spec_print(v)[0]),
    decreases v,
{
    match v {
        JVal::UInt(n) => {
            lemma_digits_shape(n as nat);
        },
        JVal::Num(lex) => {
            assert(spec_print(v)[0] == lex[0]);
        },
        _ => {},
    }
}

/// What the parser may find after a printed value without misreading it:
/// only a number character can extend a printed number.
pub open spec fn sep_ok(v: JVal, rest: Seq<char>) -> bool {
    (v is UInt || v is Num) ==> rest.len() == 0 || !num_char(rest[0])
}

proof fn lemma_hex_char_val(d: nat)
    requires
        d < 16,
    ensures
        hex_val(hex_char(d)) == Some(d),
{
}

#[verifier::rlimit(100)]
proof fn lemma_strbody_rt(t: Seq<char>, rest: Seq<char>)
    ensures
        sp_strbody(esc_string(t) + seq!['"'] + rest) == Some((t, rest)),
    decreases t.len(),
{
    let s = esc_string(t) + seq!['"'] + rest;
    if t.len() == 0 {
        assert(s =~= seq!['"'] + rest);
        assert(s[0] == '"');
        assert(s.skip(1) =~= rest);
    } else {
        let c = t[0];
        let tail = esc_string(t.skip(1)) + seq!['"'] + rest;
        assert(esc_string(t) == esc_char(c) + esc_string(t.skip(1)));
        lemma_strbody_rt(t.skip(1), rest);
        if c == '"' || c == '\\' || c == '\n' || c == '\r' || c == '\t' {
            let e = esc_char(c)[1];
            assert(esc_char(c).len() == 2 && esc_char(c)[0] == '\\');
            assert(s =~= seq!['\\', e] + tail);
            assert(s[0] == '\\' && s.len() >= 2 && s[1] == e);
            assert(e != 'u');
            assert(unesc_char(e) == Some(c));
            assert(s.skip(2) =~= tail);
            assert(seq![c] + t.skip(1) =~= t);
        } else if (c as u32) < 0x20 {
            let code = c as u32;
            let h3 = ((code / 16) as u32) as nat;
            let h4 = ((code % 16) as u32) as nat;
            assert(h3 < 2 && h4 < 16);
            assert(h3 * 16 + h4 == code);
            assert(esc_char(c) == seq!['\\', 'u', '0', '0', hex_char(h3), hex_char(h4)]);
            assert(s =~= seq!['\\', 'u', '0', '0', hex_char(h3), hex_char(h4)] + tail);
            assert(s[0] == '\\' && s.len() >= 2 && s[1] == 'u');
            assert(s.skip(2) =~= seq!['0', '0', hex_char(h3), hex_char(h4)] + tail);
            lemma_hex_char_val(h3);
            lemma_hex_char_val(h4);
            assert(hex_val('0') == Some(0nat));
            assert(s.skip(2)[0] == '0' && s.skip(2)[1] == '0');
            assert(s.skip(2)[2] == hex_char(h3) && s.skip(2)[3] == hex_char(h4));
            assert(hex4(s.skip(2)) == Some((h3 * 16 + h4) as nat));
            assert(h3 * 16 + h4 == code);
            let v = (h3 * 16 + h4) as nat;
            assert(!is_high_surrogate(v) && !is_low_surrogate(v));
            assert(s.skip(6) =~= tail);
            assert(v as u32 == c as u32);
            assert((v as u32) as char == c) by {
                vstd::utf8::char_u32_cast(c, c as u32);
            }
            assert(seq![c] + t.skip(1) =~= t);
        } else {
            assert(esc_char(c) =~= seq![c]);
            assert(s =~= seq![c] + tail);
            assert(s[0] == c && c != '"' && c != '\\');
            assert(s.skip(1) =~= tail);
            assert(seq![c] + t.skip(1) =~= t);
        }
    }
}

proof fn lemma_digit_prefix(d: Seq<char>, rest: Seq<char>)
    requires
        forall|i: int| 0 <= i < d.len() ==> is_digit(#[trigger] d[i]),
        rest.len() == 0 || !is_digit(rest[0]),
    ensures
        digit_prefix_len(d + rest) == d.len(),
    decreases d.len(),
{
    if d.len() == 0 {
        assert(d + rest =~= rest);
    } else {
        lemma_digit_prefix(d.skip(1), rest);
        assert((d + rest).skip(1) =~= d.skip(1) + rest);
        assert((d + rest)[0] == d[0]);
    }
}

proof fn lemma_num_prefix(d: Seq<char>, rest: Seq<char>)
    requires
        forall|i: int| 0 <= i < d.len() ==> num_char(#[trigger] d[i]),
        rest.len() == 0 || !num_char(rest[0]),
    ensures
        num_prefix_len(d + rest) == d.len(),
    decreases d.len(),
{
    if d.len() == 0 {
        assert(d + rest =~= rest);
    } else {
        lemma_num_prefix(d.skip(1), rest);
        assert((d + rest).skip(1) =~= d.skip(1) + rest);
        assert((d + rest)[0] == d[0]);
    }
}

proof fn lemma_uint_rt(n: u64, rest: Seq<char>)
    requires
        rest.len() == 0 || !num_char(rest[0]),
    ensures
        sp_number(spec_digits(n as nat) + rest) == Some((JVal::UInt(n), rest)),
{
    let d = spec_digits(n as nat);
    let s = d + rest;
    lemma_digits_shape(n as nat);
    assert(forall|i: int| 0 <= i < d.len() ==> num_char(#[trigger] d[i]));
    lemma_num_prefix(d, rest);
    assert(pow10(20) == 100000000000000000000) by {
        reveal_with_fuel(pow10, 21);
    }
    assert((n as nat) < pow10(20));
    lemma_digits_len_bound(n as nat, 20);
    let k = num_prefix_len(s);
    assert(k == d.len());
    assert(1 <= k <= 20);
    assert(s.take(k as int) =~= d);
    assert(all_digits(d));
    assert(digits_value(d) == n as nat);
    assert(s.skip(k as int) =~= rest);
}

proof fn lemma_numlex_rt(lex: Seq<char>, rest: Seq<char>)
    requires
        num_wf(lex),
        rest.len() == 0 || !num_char(rest[0]),
    ensures
        sp_number(lex + rest) == Some((JVal::Num(lex), rest)),
{
    let s = lex + rest;
    lemma_num_prefix(lex, rest);
    let k = num_prefix_len(s);
    assert(k == lex.len());
    assert(s.take(k as int) =~= lex);
    assert(s.skip(k as int) =~= rest);
}

/// Parsing what was printed returns the value and leaves `rest`.
#[verifier::rlimit(100)]
pub proof fn lemma_value_rt(v: JVal, rest: Seq<char>)
    requires
        wf_json(v),
        sep_ok(v, rest),
    ensures
        sp_value(spec_print(v) + rest) == Some((v, rest)),
    decreases v, 0int,
{
    let p = spec_print(v);
    let s = p + rest;
    lemma_print_head(v);
    assert(s[0] == p[0]);
    lemma_skip_ws_id(s);
    assert(sp_value(s) == sp_value_at(s));
    match v {
        JVal::Null => {
            assert(s =~= seq!['n', 'u', 'l', 'l'] + rest);
            assert(s.skip(4) =~= rest);
        },
        JVal::Bool(b) => {
            if b {
                assert(s =~= seq!['t', 'r', 'u', 'e'] + rest);
                assert(s.skip(4) =~= rest);
            } else {
                assert(s =~= seq!['f', 'a', 'l', 's', 'e'] + rest);
                assert(s.skip(5) =~= rest);
            }
        },
        JVal::UInt(n) => {
            lemma_digits_shape(n as nat);
            lemma_uint_rt(n, rest);
            assert(is_digit(s[0]));
        },
        JVal::Num(lex) => {
            lemma_numlex_rt(lex, rest);
            assert(s[0] == lex[0]);
            assert(is_digit(s[0]) || s[0] == '-');
        },
        JVal::Str(t) => {
            assert(s =~= seq!['"'] + (esc_string(t) + seq!['"'] + rest));
            assert(s[0] == '"');
            assert(s.skip(1) =~= esc_string(t) + seq!['"'] + rest);
            lemma_strbody_rt(t, rest);
        },
        JVal::Arr(a) => {
            lemma_value_rt_arr(a, rest);
        },
        JVal::Obj(fs) => {
            lemma_value_rt_obj(fs, rest);
        },
    }
}

#[verifier::rlimit(100)]
proof fn lemma_value_rt_arr(a: Seq<JVal>, rest: Seq<char>)
    requires
        wf_json(JVal::Arr(a)),
        sep_ok(JVal::Arr(a), rest),
    ensures
        sp_value(spec_print(JVal::Arr(a)) + rest) == Some((JVal::Arr(a), rest)),
    decreases a, 3int,
{
    let s = spec_print(JVal::Arr(a)) + rest;
    lemma_print_head(JVal::Arr(a));
    assert(s[0] == '[');
    lemma_skip_ws_id(s);
    assert(sp_value(s) == sp_value_at(s));
    if a.len() == 0 {
        assert(spec_print_elems(a) =~= Seq::<char>::empty());
        assert(s =~= seq!['[', ']'] + rest);
        assert(s.skip(1) =~= seq![']'] + rest);
        lemma_skip_ws_id(s.skip(1));
        assert(skip_ws(s.skip(1))[0] == ']');
        assert(skip_ws(s.skip(1)).skip(1) =~= rest);
        assert(a =~= Seq::<JVal>::empty());
    } else {
        let inner = spec_print_elems(a) + seq![']'] + rest;
        assert(s =~= seq!['['] + inner);
        assert(s.skip(1) =~= inner);
        lemma_elems_rt(a, rest);
        lemma_print_head(a[0]);
        assert(spec_print_elems(a)[0] == spec_print(a[0])[0]) by {
            if a.len() == 1 {
            } else {
                assert(spec_print_elems(a)
                    == spec_print(a[0]) + seq![','] + spec_print_elems(a.skip(1)));
            }
        }
        assert(inner[0] == spec_print(a[0])[0]);
        lemma_skip_ws_id(inner);
        assert(skip_ws(s.skip(1)) == inner);
        assert(inner[0] != ']');
    }
}

#[verifier::rlimit(100)]
proof fn lemma_value_rt_obj(fs: Seq<(Seq<char>, JVal)>, rest: Seq<char>)
    requires
        wf_json(JVal::Obj(fs)),
        sep_ok(JVal::Obj(fs), rest),
    ensures
        sp_value(spec_print(JVal::Obj(fs)) + rest) == Some((JVal::Obj(fs), rest)),
    decreases fs, 3int,
{
    let s = spec_print(JVal::Obj(fs)) + rest;
    lemma_print_head(JVal::Obj(fs));
    assert(s[0] == '{');
    lemma_skip_ws_id(s);
    assert(sp_value(s) == sp_value_at(s));
    if fs.len() == 0 {
        assert(spec_print_members(fs) =~= Seq::<char>::empty());
        assert(s =~= seq!['{', '}'] + rest);
        assert(s.skip(1) =~= seq!['}'] + rest);
        lemma_skip_ws_id(s.skip(1));
        assert(skip_ws(s.skip(1))[0] == '}');
        assert(skip_ws(s.skip(1)).skip(1) =~= rest);
        assert(fs =~= Seq::<(Seq<char>, JVal)>::empty());
    } else {
        let inner = spec_print_members(fs) + seq!['}'] + rest;
        assert(s =~= seq!['{'] + inner);
        assert(s.skip(1) =~= inner);
        lemma_members_rt(fs, rest);
        assert(spec_print_members(fs)[0] == '"') by {
            let head = seq!['"'] + esc_string(fs[0].0) + seq!['"', ':']
                + spec_print(fs[0].1);
            if fs.len() == 1 {
                assert(spec_print_members(fs) == head);
            } else {
                assert(spec_print_members(fs)
                    == head + seq![','] + spec_print_members(fs.skip(1)));
            }
        }
        assert(inner[0] == '"');
        lemma_skip_ws_id(inner);
        assert(skip_ws(s.skip(1)) == inner);
        assert(inner[0] != '}');
    }
}

proof fn lemma_elems_rt(a: Seq<JVal>, rest: Seq<char>)
    requires
        a.len() >= 1,
        forall|i: int| 0 <= i < a.len() ==> wf_json(#[trigger] a[i]),
    ensures
        sp_elems(spec_print_elems(a) + seq![']'] + rest) == Some((a, rest)),
    decreases a, 1int,
{
    let s = spec_print_elems(a) + seq![']'] + rest;
    lemma_print_head(a[0]);
    if a.len() == 1 {
        let tail = seq![']'] + rest;
        assert(spec_print_elems(a) == spec_print(a[0]));
        assert(s =~= spec_print(a[0]) + tail);
        lemma_value_rt(a[0], tail);
        assert(sp_value(s) == Some((a[0], tail)));
        lemma_skip_ws_id(tail);
        assert(tail.len() < s.len());
        assert(tail[0] == ']');
        assert(tail.skip(1) =~= rest);
        assert(seq![a[0]] =~= a);
    } else {
        let tail = seq![','] + spec_print_elems(a.skip(1)) + seq![']'] + rest;
        assert(spec_print_elems(a)
            == spec_print(a[0]) + seq![','] + spec_print_elems(a.skip(1)));
        assert(s =~= spec_print(a[0]) + tail);
        lemma_value_rt(a[0], tail);
        assert(sp_value(s) == Some((a[0], tail)));
        lemma_skip_ws_id(tail);
        assert(tail.len() < s.len());
        assert(tail[0] == ',');
        assert(tail.skip(1) =~= spec_print_elems(a.skip(1)) + seq![']'] + rest);
        assert(forall|i: int| 0 <= i < a.skip(1).len()
            ==> #[trigger] a.skip(1)[i] == a[i + 1]);
        lemma_elems_rt(a.skip(1), rest);
        assert(seq![a[0]] + a.skip(1) =~= a);
    }
}

#[verifier::rlimit(100)]
proof fn lemma_members_rt(fs: Seq<(Seq<char>, JVal)>, rest: Seq<char>)
    requires
        fs.len() >= 1,
        forall|i: int| 0 <= i < fs.len() ==> wf_json((#[trigger] fs[i]).1),
    ensures
        sp_members(spec_print_members(fs) + seq!['}'] + rest) == Some((fs, rest)),
    decreases fs, 1int,
{
    let k = fs[0].0;
    let v = fs[0].1;
    let head = seq!['"'] + esc_string(k) + seq!['"', ':'] + spec_print(v);
    let s = spec_print_members(fs) + seq!['}'] + rest;
    lemma_print_head(v);
    let after_v: Seq<char> = if fs.len() == 1 {
        seq!['}'] + rest
    } else {
        seq![','] + spec_print_members(fs.skip(1)) + seq!['}'] + rest
    };
    if fs.len() == 1 {
        assert(spec_print_members(fs) == head);
    } else {
        assert(spec_print_members(fs) == head + seq![','] + spec_print_members(fs.skip(1)));
    }
    assert(s =~= head + after_v);
    assert(s[0] == '"');
    lemma_skip_ws_id(s);
    assert(skip_ws(s) == s);
    assert(s.skip(1) =~= esc_string(k) + seq!['"'] + (seq![':'] + spec_print(v) + after_v));
    lemma_strbody_rt(k, seq![':'] + spec_print(v) + after_v);
    let r1 = seq![':'] + spec_print(v) + after_v;
    assert(sp_strbody(s.skip(1)) == Some((k, r1)));
    lemma_skip_ws_id(r1);
    assert(r1.len() < s.len());
    assert(r1[0] == ':');
    assert(r1.skip(1) =~= spec_print(v) + after_v);
    lemma_value_rt(v, after_v);
    assert(sp_value(r1.skip(1)) == Some((v, after_v)));
    lemma_skip_ws_id(after_v);
    assert(after_v.len() < s.len());
    if fs.len() == 1 {
        assert(after_v[0] == '}');
        assert(after_v.skip(1) =~= rest);
        assert(seq![(k, v)] =~= fs);
    } else {
        assert(after_v[0] == ',');
        assert(after_v.skip(1) =~= spec_print_members(fs.skip(1)) + seq!['}'] + rest);
        assert(forall|i: int| 0 <= i < fs.skip(1).len()
            ==> #[trigger] fs.skip(1)[i] == fs[i + 1]);
        lemma_members_rt(fs.skip(1), rest);
        assert(seq![(k, v)] + fs.skip(1) =~= fs);
    }
}

/// Printing a well-formed value and parsing the text gives the value back.
pub proof fn lemma_print_then_parse(v: JVal)
    requires
        wf_json(v),
    ensures
        sp_top(spec_print(v)) == Some(v),
{
    lemma_value_rt(v, Seq::<char>::empty());
    assert(spec_print(v) + Seq::<char>::empty() =~= spec_print(v));
    assert(ws_len(Seq::<char>::empty()) == 0);
    assert(skip_ws(Seq::<char>::empty()) =~= Seq::<char>::empty());
}

// ---------------------------------------------------------------------------
// Printing (executable)
// ---------------------------------------------------------------------------

proof fn lemma_esc_snoc(t: Seq<char>, c: char)
    ensures
        esc_string(t.push(c)) == esc_string(t) + esc_char(c),
    decreases t.len(),
{
    if t.len() == 0 {
        assert(t.push(c)[0] == c);
        assert(t.push(c).skip(1) =~= Seq::<char>::empty());
        assert(esc_string(Seq::<char>::empty()) =~= Seq::<char>::empty());
        assert(esc_string(t.push(c)) == esc_char(c) + esc_string(t.push(c).skip(1)));
        assert(esc_char(c) + Seq::<char>::empty() =~= esc_char(c));
        assert(esc_string(t) + esc_char(c) =~= esc_char(c));
    } else {
        lemma_esc_snoc(t.skip(1), c);
        assert(t.push(c)[0] == t[0]);
        assert(t.push(c).skip(1) =~= t.skip(1).push(c));
        assert(esc_string(t.push(c))
            == esc_char(t[0]) + esc_string(t.skip(1).push(c)));
        assert(esc_char(t[0]) + (esc_string(t.skip(1)) + esc_char(c))
            =~= (esc_char(t[0]) + esc_string(t.skip(1))) + esc_char(c));
    }
}

fn print_escaped(s: &str, out: &mut String)
    ensures
        final(out)@ == old(out)@ + esc_string(s@),
{
    let n = s.unicode_len();
    let mut i: usize = 0;
    proof {
        assert(s@.take(0) =~= Seq::<char>::empty());
        assert(out@ + esc_string(s@.take(0)) =~= out@);
    }
    while i < n
        invariant
            n == s@.len(),
            0 <= i <= n,
            out@ == old(out)@ + esc_string(s@.take(i as int)),
        decreases n - i,
    {
        let c = s.get_char(i);
        proof {
            assert(s@.take(i as int).push(c) =~= s@.take(i + 1));
            lemma_esc_snoc(s@.take(i as int), c);
        }
        if c == '"' {
            crate::text::push_char(out, '\\');
            crate::text::push_char(out, '"');
        } else if c == '\\' {
            crate::text::push_char(out, '\\');
            crate::text::push_char(out, '\\');
        } else if c == '\n' {
            crate::text::push_char(out, '\\');
            crate::text::push_char(out, 'n');
        } else if c == '\r' {
            crate::text::push_char(out, '\\');
            crate::text::push_char(out, 'r');
        } else if c == '\t' {
            crate::text::push_char(out, '\\');
            crate::text::push_char(out, 't');
        } else if (c as u32) < 0x20 {
            crate::text::push_char(out, '\\');
            crate::text::push_char(out, 'u');
            crate::text::push_char(out, '0');
            crate::text::push_char(out, '0');
            let code = c as u32;
            crate::text::push_char(out, crate::text::hex_to_char((code / 16) as u64));
            crate::text::push_char(out, crate::text::hex_to_char((code % 16) as u64));
        } else {
            crate::text::push_char(out, c);
        }
        proof {
            assert(out@ =~= old(out)@ + esc_string(s@.take(i + 1)));
        }
        i = i + 1;
    }
    proof {
        assert(s@.take(n as int) =~= s@);
    }
}

pub(crate) fn print_digits(n: u64, out: &mut String)
    ensures
        final(out)@ == old(out)@ + spec_digits(n as nat),
    decreases n,
{
    if n >= 10 {
        print_digits(n / 10, out);
    }
    let c = crate::text::digit_to_char(n % 10);
    crate::text::push_char(out, c);
    proof {
        if n < 10 {
            assert(spec_digits(n as nat) =~= seq![digit_char(n as nat)]);
            assert(old(out)@.push(c) =~= old(out)@ + seq![digit_char(n as nat)]);
        } else {
            assert(spec_digits(n as nat)
                == spec_digits((n as nat) / 10).push(digit_char((n as nat) % 10)));
            assert((old(out)@ + spec_digits((n as nat) / 10)).push(c)
                =~= old(out)@ + spec_digits((n as nat) / 10).push(digit_char((n as nat) % 10)));
        }
    }
}

/// The text still owed after the first `i` elements of an array are printed.
spec fn tail_elems(es: Seq<JVal>, i: int) -> Seq<char> {
    if i <= 0 {
        spec_print_elems(es)
    } else if i < es.len() {
        seq![','] + spec_print_elems(es.skip(i))
    } else {
        Seq::<char>::empty()
    }
}

proof fn lemma_tail_elems_step(es: Seq<JVal>, i: int)
    requires
        0 <= i < es.len(),
    ensures
        tail_elems(es, i) == (if i > 0 { seq![','] } else { Seq::<char>::empty() })
            + spec_print(es[i]) + tail_elems(es, i + 1),
{
    let tail = es.skip(i);
    assert(tail[0] == es[i]);
    if i + 1 < es.len() {
        assert(tail.skip(1) =~= es.skip(i + 1));
        assert(spec_print_elems(tail)
            == spec_print(es[i]) + seq![','] + spec_print_elems(es.skip(i + 1)));
    } else {
        assert(tail.len() == 1);
        assert(spec_print_elems(tail) == spec_print(es[i]));
    }
    if i > 0 {
        assert(tail_elems(es, i) =~= (seq![','] + spec_print(es[i])) + tail_elems(es, i + 1));
        assert((seq![','] + spec_print(es[i])) + tail_elems(es, i + 1)
            =~= seq![','] + spec_print(es[i]) + tail_elems(es, i + 1));
    } else {
        assert(tail_elems(es, i) =~= spec_print(es[i]) + tail_elems(es, i + 1));
        assert((Seq::<char>::empty() + spec_print(es[i])) + tail_elems(es, i + 1)
            =~= spec_print(es[i]) + tail_elems(es, i + 1));
    }
}

/// The text still owed after the first `i` members of an object are printed.
spec fn tail_members(fs: Seq<(Seq<char>, JVal)>, i: int) -> Seq<char> {
    if i <= 0 {
        spec_print_members(fs)
    } else if i < fs.len() {
        seq![','] + spec_print_members(fs.skip(i))
    } else {
        Seq::<char>::empty()
    }
}

proof fn lemma_tail_members_step(fs: Seq<(Seq<char>, JVal)>, i: int)
    requires
        0 <= i < fs.len(),
    ensures
        tail_members(fs, i) == (if i > 0 { seq![','] } else { Seq::<char>::empty() })
            + (seq!['"'] + esc_string(fs[i].0) + seq!['"', ':'] + spec_print(fs[i].1))
            + tail_members(fs, i + 1),
{
    let tail = fs.skip(i);
    let head = seq!['"'] + esc_string(fs[i].0) + seq!['"', ':'] + spec_print(fs[i].1);
    assert(tail[0] == fs[i]);
    if i + 1 < fs.len() {
        assert(tail.skip(1) =~= fs.skip(i + 1));
        assert(spec_print_members(tail) == head + seq![','] + spec_print_members(fs.skip(i + 1)));
    } else {
        assert(tail.len() == 1);
        assert(spec_print_members(tail) == head);
    }
    if i > 0 {
        assert(tail_members(fs, i) =~= (seq![','] + head) + tail_members(fs, i + 1));
        assert((seq![','] + head) + tail_members(fs, i + 1)
            =~= seq![','] + head + tail_members(fs, i + 1));
    } else {
        assert(tail_members(fs, i) =~= head + tail_members(fs, i + 1));
        assert((Seq::<char>::empty() + head) + tail_members(fs, i + 1)
            =~= head + tail_members(fs, i + 1));
    }
}

#[verifier::loop_isolation(false)]
#[verifier::rlimit(80)]
fn print_into(v: &Json, out: &mut String)
    ensures
        final(out)@ == old(out)@ + spec_print(v@),
    decreases v,
{
    match v {
        Json::Null => {
            crate::text::push_char(out, 'n');
            crate::text::push_char(out, 'u');
            crate::text::push_char(out, 'l');
            crate::text::push_char(out, 'l');
            proof {
                assert(out@ =~= old(out)@ + seq!['n', 'u', 'l', 'l']);
            }
        },
        Json::Bool(b) => {
            if *b {
                crate::text::push_char(out, 't');
                crate::text::push_char(out, 'r');
                crate::text::push_char(out, 'u');
                crate::text::push_char(out, 'e');
                proof {
                    assert(out@ =~= old(out)@ + seq!['t', 'r', 'u', 'e']);
                }
            } else {
                crate::text::push_char(out, 'f');
                crate::text::push_char(out, 'a');
                crate::text::push_char(out, 'l');
                crate::text::push_char(out, 's');
                crate::text::push_char(out, 'e');
                proof {
                    assert(out@ =~= old(out)@ + seq!['f', 'a', 'l', 's', 'e']);
                }
            }
        },
        Json::UInt(n) => {
            print_digits(*n, out);
        },
        Json::Num(lex) => {
            out.append(lex.as_str());
        },
        Json::Str(s) => {
            crate::text::push_char(out, '"');
            print_escaped(s.as_str(), out);
            crate::text::push_char(out, '"');
            proof {
                assert(out@ =~= old(out)@ + (seq!['"'] + esc_string(s@) + seq!['"']));
            }
        },
        Json::Arr(a) => {
            let ghost es = jv_seq(a@);
            proof {
                lemma_jv_seq(a@);
            }
            crate::text::push_char(out, '[');
            let n = a.len();
            let mut i: usize = 0;
            proof {
                assert(out@ + tail_elems(es, 0) =~= old(out)@ + seq!['['] + spec_print_elems(es));
            }
            while i < n
                invariant
                    n == a@.len(),
                    es == jv_seq(a@),
                    es.len() == n,
                    forall|j: int| 0 <= j < n ==> es[j] == #[trigger] a@[j].jv(),
                    0 <= i <= n,
                    out@ + tail_elems(es, i as int)
                        == old(out)@ + seq!['['] + spec_print_elems(es),
                decreases n - i,
            {
                proof {
                    lemma_tail_elems_step(es, i as int);
                }
                if i > 0 {
                    crate::text::push_char(out, ',');
                }
                proof {
                    assert(*a == v->Arr_0);
                    assert(decreases_to!(*v => v->Arr_0));
                    assert(decreases_to!(*a => a@));
                    assert(decreases_to!(a@ => a@[i as int]));
                }
                print_into(&a[i], out);
                proof {
                    if i > 0 {
                        assert(out@ + tail_elems(es, i + 1)
                            =~= old(out)@ + seq!['['] + spec_print_elems(es));
                    } else {
                        assert(out@ + tail_elems(es, i + 1)
                            =~= old(out)@ + seq!['['] + spec_print_elems(es));
                    }
                }
                i = i + 1;
            }
            crate::text::push_char(out, ']');
            proof {
                assert(tail_elems(es, n as int) =~= Seq::<char>::empty()) by {
                    if n == 0 {
                        assert(spec_print_elems(es) =~= Seq::<char>::empty());
                    }
                }
                assert(out@ =~= old(out)@ + (seq!['['] + spec_print_elems(es) + seq![']']));
            }
        },
        Json::Obj(fs) => {
            let ghost ms = jv_members(fs@);
            proof {
                lemma_jv_members(fs@);
            }
            crate::text::push_char(out, '{');
            let n = fs.len();
            let mut i: usize = 0;
            proof {
                assert(out@ + tail_members(ms, 0)
                    =~= old(out)@ + seq!['{'] + spec_print_members(ms));
            }
            while i < n
                invariant
                    n == fs@.len(),
                    ms == jv_members(fs@),
                    ms.len() == n,
                    forall|j: int| 0 <= j < n ==> ms[j] == (#[trigger] fs@[j].0@, fs@[j].1.jv()),
                    0 <= i <= n,
                    out@ + tail_members(ms, i as int)
                        == old(out)@ + seq!['{'] + spec_print_members(ms),
                decreases n - i,
            {
                proof {
                    lemma_tail_members_step(ms, i as int);
                }
                if i > 0 {
                    crate::text::push_char(out, ',');
                }
                crate::text::push_char(out, '"');
                print_escaped(fs[i].0.as_str(), out);
                crate::text::push_char(out, '"');
                crate::text::push_char(out, ':');
                proof {
                    assert(*fs == v->Obj_0);
                    assert(decreases_to!(*v => v->Obj_0));
                    assert(decreases_to!(*fs => fs@));
                    assert(decreases_to!(fs@ => fs@[i as int]));
                    assert(decreases_to!(fs@[i as int] => fs@[i as int].1));
                }
                print_into(&fs[i].1, out);
                proof {
                    assert(out@ + tail_members(ms, i + 1)
                        =~= old(out)@ + seq!['{'] + spec_print_members(ms));
                }
                i = i + 1;
            }
            crate::text::push_char(out, '}');
            proof {
                assert(tail_members(ms, n as int) =~= Seq::<char>::empty()) by {
                    if n == 0 {
                        assert(spec_print_members(ms) =~= Seq::<char>::empty());
                    }
                }
                assert(out@ =~= old(out)@ + (seq!['{'] + spec_print_members(ms) + seq!['}']));
            }
        },
    }
}

/// Renders a value as its canonical frame text.
pub fn print_json(v: &Json) -> (out: String)
    ensures
        out@ == spec_print(v@),
{
    let mut out = String::new();
    print_into(v, &mut out);
    proof {
        assert(Seq::<char>::empty() + spec_print(v@) =~= spec_print(v@));
    }
    out
}

// ---------------------------------------------------------------------------
// Parsing (executable)
// ---------------------------------------------------------------------------

proof fn lemma_skip_skip(s: Seq<char>, i: int, k: int)
    requires
        0 <= i,
        0 <= k,
        i + k <= s.len(),
    ensures
        s.skip(i).skip(k) == s.skip(i + k),
{
    assert(s.skip(i).skip(k) =~= s.skip(i + k));
}

pub proof fn lemma_jv_seq_push(a: Seq<Json>, x: Json)
    ensures
        jv_seq(a.push(x)) == jv_seq(a).push(x.jv()),
{
    lemma_jv_seq(a);
    lemma_jv_seq(a.push(x));
    assert forall|i: int| 0 <= i < a.len() + 1 implies jv_seq(a.push(x))[i]
        == jv_seq(a).push(x.jv())[i] by {
        assert(jv_seq(a.push(x))[i] == a.push(x)[i].jv());
        if i < a.len() {
            assert(a.push(x)[i] == a[i]);
            assert(jv_seq(a)[i] == a[i].jv());
            assert(jv_seq(a).push(x.jv())[i] == jv_seq(a)[i]);
        } else {
            assert(a.push(x)[i] == x);
            assert(jv_seq(a).push(x.jv())[i] == x.jv());
        }
    }
    assert(jv_seq(a.push(x)) =~= jv_seq(a).push(x.jv()));
}

pub proof fn lemma_jv_members_push(fs: Seq<(String, Json)>, k: String, x: Json)
    ensures
        jv_members(fs.push((k, x))) == jv_members(fs).push((k@, x.jv())),
{
    lemma_jv_members(fs);
    lemma_jv_members(fs.push((k, x)));
    assert forall|i: int| 0 <= i < fs.len() + 1 implies jv_members(fs.push((k, x)))[i]
        == jv_members(fs).push((k@, x.jv()))[i] by {
        assert(jv_members(fs.push((k, x)))[i]
            == (fs.push((k, x))[i].0@, fs.push((k, x))[i].1.jv()));
        if i < fs.len() {
            assert(fs.push((k, x))[i] == fs[i]);
            assert(jv_members(fs)[i] == (fs[i].0@, fs[i].1.jv()));
            assert(jv_members(fs).push((k@, x.jv()))[i] == jv_members(fs)[i]);
        } else {
            assert(fs.push((k, x))[i] == (k, x));
            assert(jv_members(fs).push((k@, x.jv()))[i] == (k@, x.jv()));
        }
    }
    assert(jv_members(fs.push((k, x))) =~= jv_members(fs).push((k@, x.jv())));
}

proof fn lemma_pow10_mono(a: nat, b: nat)
    requires
        a <= b,
    ensures
        pow10(a) <= pow10(b),
    decreases b,
{
    if a < b {
        lemma_pow10_mono(a, (b - 1) as nat);
        assert(pow10(b) == 10 * pow10((b - 1) as nat));
    }
}

/// Relies on char::from_u32: the character with the given scalar value.
/// The surrogate range and values past the last codepoint name no
/// character and are excluded.
#[verifier::external_body]
fn char_of_scalar(v: u32) -> (c: char)
    requires
        v < 0xd800 || (0xe000 <= v && v < 0x11_0000),
    ensures
        c as u32 == v,
{
    char::from_u32(v).unwrap()
}

proof fn lemma_ws_prefix(d: Seq<char>, rest: Seq<char>)
    requires
        forall|i: int| 0 <= i < d.len() ==> is_ws(#[trigger] d[i]),
        rest.len() == 0 || !is_ws(rest[0]),
    ensures
        ws_len(d + rest) == d.len(),
    decreases d.len(),
{
    if d.len() == 0 {
        assert(d + rest =~= rest);
    } else {
        lemma_ws_prefix(d.skip(1), rest);
        assert((d + rest).skip(1) =~= d.skip(1) + rest);
        assert((d + rest)[0] == d[0]);
    }
}

/// Advances past whitespace between tokens.
#[verifier::loop_isolation(false)]
fn ws_end(s: &str, n: usize, pos: usize) -> (r: usize)
    requires
        n == s@.len(),
        pos <= n,
    ensures
        pos <= r <= n,
        s@.skip(r as int) == skip_ws(s@.skip(pos as int)),
        r < n ==> !is_ws(s@[r as int]),
{
    let mut i: usize = pos;
    while i < n && crate::text::char_is_ws(s.get_char(i))
        invariant
            pos <= i <= n,
            forall|k: int| pos <= k < i ==> is_ws(#[trigger] s@[k]),
        decreases n - i,
    {
        i = i + 1;
    }
    proof {
        let suf = s@.skip(pos as int);
        assert(suf =~= s@.subrange(pos as int, i as int) + s@.skip(i as int));
        if i < n {
            assert(s@.skip(i as int)[0] == s@[i as int]);
        }
        lemma_ws_prefix(s@.subrange(pos as int, i as int), s@.skip(i as int));
        assert(ws_len(suf) == i - pos);
        assert(suf.skip(i - pos) =~= s@.skip(i as int));
    }
    i
}

#[verifier::loop_isolation(false)]
#[verifier::rlimit(100)]
fn parse_strbody(s: &str, n: usize, pos: usize) -> (res: Option<(String, usize)>)
    requires
        n == s@.len(),
        pos <= n,
    ensures
        (match res {
            Option::None => sp_strbody(s@.skip(pos as int)) is None,
            Option::Some(tp) => tp.1 <= n
                && sp_strbody(s@.skip(pos as int)) == Some((tp.0@, s@.skip(tp.1 as int))),
        }),
{
    let mut acc = String::new();
    let mut cur: usize = pos;
    loop
        invariant
            pos <= cur <= n,
            (match sp_strbody(s@.skip(cur as int)) {
                Option::None => sp_strbody(s@.skip(pos as int)) is None,
                Option::Some(p) => sp_strbody(s@.skip(pos as int)) == Some((acc@ + p.0, p.1)),
            }),
        decreases n - cur,
    {
        if cur == n {
            proof {
                assert(s@.skip(cur as int).len() == 0);
            }
            return None;
        }
        let c = s.get_char(cur);
        proof {
            assert(s@.skip(cur as int)[0] == s@[cur as int]);
        }
        if c == '"' {
            proof {
                lemma_skip_skip(s@, cur as int, 1);
                assert(acc@ + Seq::<char>::empty() =~= acc@);
            }
            return Some((acc, cur + 1));
        } else if c == '\\' {
            if cur + 1 == n {
                proof {
                    assert(s@.skip(cur as int).len() < 2);
                }
                return None;
            }
            let e = s.get_char(cur + 1);
            proof {
                assert(s@.skip(cur as int)[1] == s@[cur + 1]);
            }
            if e == 'u' {
                let ghost suf = s@.skip(cur as int);
                proof {
                    lemma_skip_skip(s@, cur as int, 2);
                    assert(suf.skip(2) =~= s@.skip(cur + 2));
                }
                if n - cur < 6 {
                    proof {
                        assert(suf.skip(2).len() < 4);
                    }
                    return None;
                }
                proof {
                    assert(forall|q: int| 0 <= q < suf.len()
                        ==> #[trigger] suf[q] == s@[cur + q]);
                }
                let h1 = crate::text::char_hex_val(s.get_char(cur + 2));
                let h2 = crate::text::char_hex_val(s.get_char(cur + 3));
                let h3 = crate::text::char_hex_val(s.get_char(cur + 4));
                let h4 = crate::text::char_hex_val(s.get_char(cur + 5));
                match (h1, h2, h3, h4) {
                    (Option::Some(d1), Option::Some(d2), Option::Some(d3), Option::Some(d4)) => {
                        let v: u64 = d1 * 4096 + d2 * 256 + d3 * 16 + d4;
                        proof {
                            assert(suf.skip(2)[0] == s@[cur + 2]);
                            assert(suf.skip(2)[1] == s@[cur + 3]);
                            assert(suf.skip(2)[2] == s@[cur + 4]);
                            assert(suf.skip(2)[3] == s@[cur + 5]);
                            assert(hex4(suf.skip(2)) == Some(v as nat));
                        }
                        if 0xd800 <= v && v < 0xdc00 {
                            if n - cur < 12 {
                                proof {
                                    assert(suf.len() < 12);
                                }
                                return None;
                            }
                            if s.get_char(cur + 6) != '\\' || s.get_char(cur + 7) != 'u' {
                                proof {
                                    assert(suf[6] == s@[cur + 6] && suf[7] == s@[cur + 7]);
                                }
                                return None;
                            }
                            let g1 = crate::text::char_hex_val(s.get_char(cur + 8));
                            let g2 = crate::text::char_hex_val(s.get_char(cur + 9));
                            let g3 = crate::text::char_hex_val(s.get_char(cur + 10));
                            let g4 = crate::text::char_hex_val(s.get_char(cur + 11));
                            proof {
                                lemma_skip_skip(s@, cur as int, 8);
                                assert(suf.skip(8) =~= s@.skip(cur + 8));
                                assert(suf.skip(8)[0] == s@[cur + 8]);
                                assert(suf.skip(8)[1] == s@[cur + 9]);
                                assert(suf.skip(8)[2] == s@[cur + 10]);
                                assert(suf.skip(8)[3] == s@[cur + 11]);
                            }
                            match (g1, g2, g3, g4) {
                                (Option::Some(e1), Option::Some(e2), Option::Some(e3),
                                    Option::Some(e4)) => {
                                    let w: u64 = e1 * 4096 + e2 * 256 + e3 * 16 + e4;
                                    proof {
                                        assert(hex4(suf.skip(8)) == Some(w as nat));
                                    }
                                    if !(0xdc00 <= w && w < 0xe000) {
                                        return None;
                                    }
                                    let scalar: u32 = 0x10000 + ((v as u32) - 0xd800) * 0x400
                                        + ((w as u32) - 0xdc00);
                                    let u = char_of_scalar(scalar);
                                    let ghost uc = ((0x10000 + ((v as nat) - 0xd800) * 0x400
                                        + ((w as nat) - 0xdc00)) as u32) as char;
                                    proof {
                                        assert(scalar as nat == 0x10000
                                            + ((v as nat) - 0xd800) * 0x400 + ((w as nat) - 0xdc00));
                                        vstd::utf8::char_u32_cast(u, scalar);
                                        assert(u == uc);
                                        lemma_skip_skip(s@, cur as int, 12);
                                    }
                                    let ghost acc0 = acc@;
                                    crate::text::push_char(&mut acc, u);
                                    proof {
                                        if sp_strbody(s@.skip(cur + 12)) is Some {
                                            let p = sp_strbody(s@.skip(cur + 12)).unwrap();
                                            assert(acc0 + (seq![uc] + p.0) =~= acc@ + p.0);
                                        }
                                    }
                                    cur = cur + 12;
                                },
                                _ => {
                                    return None;
                                },
                            }
                        } else if 0xdc00 <= v && v < 0xe000 {
                            return None;
                        } else {
                            let u = char_of_scalar(v as u32);
                            let ghost uc = ((v as nat) as u32) as char;
                            proof {
                                vstd::utf8::char_u32_cast(u, v as u32);
                                assert(u == uc);
                                lemma_skip_skip(s@, cur as int, 6);
                            }
                            let ghost acc0 = acc@;
                            crate::text::push_char(&mut acc, u);
                            proof {
                                if sp_strbody(s@.skip(cur + 6)) is Some {
                                    let p = sp_strbody(s@.skip(cur + 6)).unwrap();
                                    assert(acc0 + (seq![uc] + p.0) =~= acc@ + p.0);
                                }
                            }
                            cur = cur + 6;
                        }
                    },
                    _ => {
                        return None;
                    },
                }
            } else {
                let u: char;
                if e == '"' { u = '"'; }
                else if e == '\\' { u = '\\'; }
                else if e == '/' { u = '/'; }
                else if e == 'b' { u = '\u{0008}'; }
                else if e == 'f' { u = '\u{000c}'; }
                else if e == 'n' { u = '\n'; }
                else if e == 'r' { u = '\r'; }
                else if e == 't' { u = '\t'; }
                else {
                    proof {
                        assert(unesc_char(e) is None);
                    }
                    return None;
                }
                proof {
                    assert(unesc_char(e) == Some(u));
                    lemma_skip_skip(s@, cur as int, 2);
                }
                let ghost acc0 = acc@;
                crate::text::push_char(&mut acc, u);
                proof {
                    if sp_strbody(s@.skip(cur + 2)) is Some {
                        let p = sp_strbody(s@.skip(cur + 2)).unwrap();
                        assert(acc0 + (seq![u] + p.0) =~= acc@ + p.0);
                    }
                }
                cur = cur + 2;
            }
        } else {
            proof {
                lemma_skip_skip(s@, cur as int, 1);
            }
            let ghost acc0 = acc@;
            crate::text::push_char(&mut acc, c);
            proof {
                if sp_strbody(s@.skip(cur + 1)) is Some {
                    let p = sp_strbody(s@.skip(cur + 1)).unwrap();
                    assert(acc0 + (seq![s@[cur as int]] + p.0) =~= acc@ + p.0);
                }
            }
            cur = cur + 1;
        }
    }
}

#[verifier::loop_isolation(false)]
#[verifier::rlimit(60)]
fn parse_number(s: &str, n: usize, pos: usize) -> (res: Option<(Json, usize)>)
    requires
        n == s@.len(),
        pos <= n,
    ensures
        (match res {
            Option::None => sp_number(s@.skip(pos as int)) is None,
            Option::Some(tp) => tp.1 <= n
                && sp_number(s@.skip(pos as int)) == Some((tp.0@, s@.skip(tp.1 as int))),
        }),
{
    let ghost suf = s@.skip(pos as int);
    let mut j: usize = pos;
    while j < n && crate::text::char_is_num(s.get_char(j))
        invariant
            pos <= j <= n,
            forall|k: int| pos <= k < j ==> num_char(#[trigger] s@[k]),
        decreases n - j,
    {
        j = j + 1;
    }
    proof {
        assert(suf =~= s@.subrange(pos as int, j as int) + s@.skip(j as int));
        if j < n {
            assert(s@.skip(j as int)[0] == s@[j as int]);
        }
        lemma_num_prefix(s@.subrange(pos as int, j as int), s@.skip(j as int));
        assert(num_prefix_len(suf) == j - pos);
    }
    if j == pos {
        return None;
    }
    let ghost lex = suf.take((j - pos) as int);
    proof {
        assert(lex =~= s@.subrange(pos as int, j as int));
        assert(suf.skip((j - pos) as int) =~= s@.skip(j as int));
    }
    let k = j - pos;
    let mut all_dig = true;
    let mut m: usize = pos;
    while m < j
        invariant
            pos <= m <= j <= n,
            n == s@.len(),
            lex == s@.subrange(pos as int, j as int),
            all_dig ==> forall|q: int| pos <= q < m ==> is_digit(#[trigger] s@[q]),
            !all_dig ==> !all_digits(lex),
        decreases j - m,
    {
        if !crate::text::char_is_digit(s.get_char(m)) {
            proof {
                assert(lex[m - pos] == s@[m as int]);
                assert(!all_digits(lex));
            }
            all_dig = false;
            m = j;
        } else {
            m = m + 1;
        }
    }
    proof {
        if all_dig {
            assert forall|q: int| 0 <= q < lex.len() implies is_digit(#[trigger] lex[q]) by {
                assert(lex[q] == s@[pos + q]);
            }
            assert(all_digits(lex));
        }
    }
    if all_dig && k <= 20 {
        proof {
            assert(pow10(21) == 1000000000000000000000) by {
                reveal_with_fuel(pow10, 22);
            }
            assert(s@.subrange(pos as int, pos as int) =~= Seq::<char>::empty());
        }
        let mut acc: u128 = 0;
        let mut i: usize = pos;
        while i < j
            invariant
                pos <= i <= j <= n,
                n == s@.len(),
                j - pos <= 20,
                forall|q: int| 0 <= q < lex.len() ==> is_digit(#[trigger] lex[q]),
                lex == s@.subrange(pos as int, j as int),
                forall|q: int| pos <= q < j ==> is_digit(#[trigger] s@[q]),
                acc == digits_value(s@.subrange(pos as int, i as int)),
                acc < pow10((i - pos) as nat),
            decreases j - i,
        {
            let c = s.get_char(i);
            let d = crate::text::char_digit_val(c);
            proof {
                let pre = s@.subrange(pos as int, i as int);
                let ext = s@.subrange(pos as int, i + 1);
                assert(ext.drop_last() =~= pre);
                assert(ext.last() == s@[i as int]);
                assert(digits_value(ext) == digits_value(pre) * 10 + digit_val(s@[i as int]));
                lemma_pow10_mono((i - pos) as nat, 20);
                assert(acc * 10 + d < 10 * pow10((i - pos) as nat)) by (nonlinear_arith)
                    requires
                        acc < pow10((i - pos) as nat),
                        d < 10,
                        pow10((i - pos) as nat) >= 1;
                assert(10 * pow10((i - pos) as nat) == pow10((i - pos + 1) as nat));
                lemma_pow10_mono((i - pos + 1) as nat, 21);
            }
            acc = acc * 10 + (d as u128);
            i = i + 1;
        }
        if acc <= (u64::MAX as u128) {
            return Some((Json::UInt(acc as u64), j));
        }
        let lexeme = s.substring_char(pos, j).to_owned();
        return Some((Json::Num(lexeme), j));
    }
    let lexeme = s.substring_char(pos, j).to_owned();
    Some((Json::Num(lexeme), j))
}

#[verifier::loop_isolation(false)]
#[verifier::rlimit(60)]
fn parse_value(s: &str, n: usize, pos: usize) -> (res: Option<(Json, usize)>)
    requires
        n == s@.len(),
        pos <= n,
    ensures
        (match res {
            Option::None => sp_value(s@.skip(pos as int)) is None,
            Option::Some(tp) => tp.1 <= n
                && sp_value(s@.skip(pos as int)) == Some((tp.0@, s@.skip(tp.1 as int))),
        }),
    decreases n - pos, 0int,
{
    let start = ws_end(s, n, pos);
    proof {
        assert(sp_value(s@.skip(pos as int)) == sp_value_at(s@.skip(start as int)));
    }
    if start == n {
        proof {
            assert(s@.skip(start as int).len() == 0);
        }
        return None;
    }
    let ghost suf = s@.skip(start as int);
    let c = s.get_char(start);
    proof {
        assert(suf[0] == s@[start as int]);
        assert(forall|q: int| 0 <= q < suf.len() ==> #[trigger] suf[q] == s@[start + q]);
    }
    if c == 'n' {
        if n - start >= 4 && s.get_char(start + 1) == 'u' && s.get_char(start + 2) == 'l'
            && s.get_char(start + 3) == 'l' {
            proof {
                lemma_skip_skip(s@, start as int, 4);
            }
            Some((Json::Null, start + 4))
        } else {
            None
        }
    } else if c == 't' {
        if n - start >= 4 && s.get_char(start + 1) == 'r' && s.get_char(start + 2) == 'u'
            && s.get_char(start + 3) == 'e' {
            proof {
                lemma_skip_skip(s@, start as int, 4);
            }
            Some((Json::Bool(true), start + 4))
        } else {
            None
        }
    } else if c == 'f' {
        if n - start >= 5 && s.get_char(start + 1) == 'a' && s.get_char(start + 2) == 'l'
            && s.get_char(start + 3) == 's' && s.get_char(start + 4) == 'e' {
            proof {
                lemma_skip_skip(s@, start as int, 5);
            }
            Some((Json::Bool(false), start + 5))
        } else {
            None
        }
    } else if c == '"' {
        proof {
            lemma_skip_skip(s@, start as int, 1);
        }
        match parse_strbody(s, n, start + 1) {
            Option::None => None,
            Option::Some((t, p2)) => Some((Json::Str(t), p2)),
        }
    } else if crate::text::char_is_digit(c) || c == '-' {
        parse_number(s, n, start)
    } else if c == '[' {
        proof {
            lemma_skip_skip(s@, start as int, 1);
        }
        let inner = ws_end(s, n, start + 1);
        proof {
            assert(s@.skip(inner as int) == skip_ws(s@.skip(start + 1)));
            if inner < n {
                assert(s@.skip(inner as int)[0] == s@[inner as int]);
            }
        }
        if inner < n && s.get_char(inner) == ']' {
            proof {
                lemma_skip_skip(s@, inner as int, 1);
            }
            let out: Vec<Json> = Vec::new();
            proof {
                assert(jv_seq(out@) =~= Seq::<JVal>::empty());
            }
            Some((Json::Arr(out), inner + 1))
        } else {
            match parse_elems(s, n, start + 1) {
                Option::None => None,
                Option::Some((es, p2)) => Some((Json::Arr(es), p2)),
            }
        }
    } else if c == '{' {
        proof {
            lemma_skip_skip(s@, start as int, 1);
        }
        let inner = ws_end(s, n, start + 1);
        proof {
            assert(s@.skip(inner as int) == skip_ws(s@.skip(start + 1)));
            if inner < n {
                assert(s@.skip(inner as int)[0] == s@[inner as int]);
            }
        }
        if inner < n && s.get_char(inner) == '}' {
            proof {
                lemma_skip_skip(s@, inner as int, 1);
            }
            let out: Vec<(String, Json)> = Vec::new();
            proof {
                assert(jv_members(out@) =~= Seq::<(Seq<char>, JVal)>::empty());
            }
            Some((Json::Obj(out), inner + 1))
        } else {
            match parse_members(s, n, start + 1) {
                Option::None => None,
                Option::Some((fs, p2)) => Some((Json::Obj(fs), p2)),
            }
        }
    } else {
        None
    }
}

#[verifier::loop_isolation(false)]
#[verifier::rlimit(60)]
fn parse_elems(s: &str, n: usize, pos: usize) -> (res: Option<(Vec<Json>, usize)>)
    requires
        n == s@.len(),
        pos <= n,
    ensures
        (match res {
            Option::None => sp_elems(s@.skip(pos as int)) is None,
            Option::Some(tp) => tp.1 <= n
                && sp_elems(s@.skip(pos as int)) == Some((jv_seq(tp.0@), s@.skip(tp.1 as int))),
        }),
    decreases n - pos, 1int,
{
    let mut acc: Vec<Json> = Vec::new();
    let mut cur: usize = pos;
    proof {
        assert(jv_seq(acc@) =~= Seq::<JVal>::empty());
    }
    loop
        invariant
            pos <= cur <= n,
            (match sp_elems(s@.skip(cur as int)) {
                Option::None => sp_elems(s@.skip(pos as int)) is None,
                Option::Some(p) => sp_elems(s@.skip(pos as int))
                    == Some((jv_seq(acc@) + p.0, p.1)),
            }),
        decreases n - cur,
    {
        let r = parse_value(s, n, cur);
        match r {
            Option::None => {
                return None;
            },
            Option::Some((j, p2)) => {
                let sep = ws_end(s, n, p2);
                proof {
                    assert(s@.skip(sep as int) == skip_ws(s@.skip(p2 as int)));
                    assert(s@.skip(sep as int).len() >= s@.skip(cur as int).len()
                        <==> sep <= cur);
                }
                if sep <= cur || sep == n {
                    return None;
                }
                let c2 = s.get_char(sep);
                proof {
                    assert(s@.skip(sep as int)[0] == s@[sep as int]);
                }
                if c2 == ',' {
                    proof {
                        lemma_skip_skip(s@, sep as int, 1);
                    }
                    let ghost acc0 = acc@;
                    acc.push(j);
                    proof {
                        lemma_jv_seq_push(acc0, j);
                        if sp_elems(s@.skip(sep + 1)) is Some {
                            let p = sp_elems(s@.skip(sep + 1)).unwrap();
                            assert(jv_seq(acc0) + (seq![j.jv()] + p.0)
                                =~= jv_seq(acc@) + p.0);
                        }
                    }
                    cur = sep + 1;
                } else if c2 == ']' {
                    proof {
                        lemma_skip_skip(s@, sep as int, 1);
                    }
                    let ghost acc0 = acc@;
                    acc.push(j);
                    proof {
                        lemma_jv_seq_push(acc0, j);
                        assert(jv_seq(acc0) + seq![j.jv()] =~= jv_seq(acc@));
                    }
                    return Some((acc, sep + 1));
                } else {
                    return None;
                }
            },
        }
    }
}

#[verifier::loop_isolation(false)]
#[verifier::rlimit(60)]
fn parse_members(s: &str, n: usize, pos: usize) -> (res: Option<(Vec<(String, Json)>, usize)>)
    requires
        n == s@.len(),
        pos <= n,
    ensures
        (match res {
            Option::None => sp_members(s@.skip(pos as int)) is None,
            Option::Some(tp) => tp.1 <= n
                && sp_members(s@.skip(pos as int))
                    == Some((jv_members(tp.0@), s@.skip(tp.1 as int))),
        }),
    decreases n - pos, 1int,
{
    let mut acc: Vec<(String, Json)> = Vec::new();
    let mut cur: usize = pos;
    proof {
        assert(jv_members(acc@) =~= Seq::<(Seq<char>, JVal)>::empty());
    }
    loop
        invariant
            pos <= cur <= n,
            (match sp_members(s@.skip(cur as int)) {
                Option::None => sp_members(s@.skip(pos as int)) is None,
                Option::Some(p) => sp_members(s@.skip(pos as int))
                    == Some((jv_members(acc@) + p.0, p.1)),
            }),
        decreases n - cur,
    {
        let key_at = ws_end(s, n, cur);
        proof {
            assert(s@.skip(key_at as int) == skip_ws(s@.skip(cur as int)));
        }
        if key_at == n {
            proof {
                assert(s@.skip(key_at as int).len() == 0);
            }
            return None;
        }
        let c = s.get_char(key_at);
        proof {
            assert(s@.skip(key_at as int)[0] == s@[key_at as int]);
        }
        if c != '"' {
            return None;
        }
        proof {
            lemma_skip_skip(s@, key_at as int, 1);
        }
        let kr = parse_strbody(s, n, key_at + 1);
        match kr {
            Option::None => {
                return None;
            },
            Option::Some((key, p1)) => {
                let colon_at = ws_end(s, n, p1);
                proof {
                    assert(s@.skip(colon_at as int) == skip_ws(s@.skip(p1 as int)));
                    assert(s@.skip(colon_at as int).len() >= s@.skip(cur as int).len()
                        <==> colon_at <= cur);
                }
                if colon_at <= cur || colon_at == n {
                    return None;
                }
                let c1 = s.get_char(colon_at);
                proof {
                    assert(s@.skip(colon_at as int)[0] == s@[colon_at as int]);
                }
                if c1 != ':' {
                    return None;
                }
                proof {
                    lemma_skip_skip(s@, colon_at as int, 1);
                }
                let vr = parse_value(s, n, colon_at + 1);
                match vr {
                    Option::None => {
                        return None;
                    },
                    Option::Some((j, p2)) => {
                        let sep = ws_end(s, n, p2);
                        proof {
                            assert(s@.skip(sep as int) == skip_ws(s@.skip(p2 as int)));
                            assert(s@.skip(sep as int).len() >= s@.skip(cur as int).len()
                                <==> sep <= cur);
                        }
                        if sep <= cur || sep == n {
                            return None;
                        }
                        let c2 = s.get_char(sep);
                        proof {
                            assert(s@.skip(sep as int)[0] == s@[sep as int]);
                        }
                        if c2 == ',' {
                            proof {
                                lemma_skip_skip(s@, sep as int, 1);
                            }
                            let ghost acc0 = acc@;
                            acc.push((key, j));
                            proof {
                                lemma_jv_members_push(acc0, acc@[acc@.len() - 1].0, j);
                                if sp_members(s@.skip(sep + 1)) is Some {
                                    let p = sp_members(s@.skip(sep + 1)).unwrap();
                                    assert(jv_members(acc0)
                                        + (seq![(acc@[acc@.len() - 1].0@, j.jv())] + p.0)
                                        =~= jv_members(acc@) + p.0);
                                }
                            }
                            cur = sep + 1;
                        } else if c2 == '}' {
                            proof {
                                lemma_skip_skip(s@, sep as int, 1);
                            }
                            let ghost acc0 = acc@;
                            acc.push((key, j));
                            proof {
                                lemma_jv_members_push(acc0, acc@[acc@.len() - 1].0, j);
                                assert(jv_members(acc0) + seq![(acc@[acc@.len() - 1].0@, j.jv())]
                                    =~= jv_members(acc@));
                            }
                            return Some((acc, sep + 1));
                        } else {
                            return None;
                        }
                    },
                }
            },
        }
    }
}

/// Reads one frame: one value and nothing but whitespace after it.
pub fn parse_json(s: &str) -> (res: Option<Json>)
    ensures
        (match res {
            Option::None => sp_top(s@) is None,
            Option::Some(j) => sp_top(s@) == Some(j@),
        }),
{
    let n = s.unicode_len();
    proof {
        assert(s@.skip(0) =~= s@);
    }
    match parse_value(s, n, 0) {
        Option::None => None,
        Option::Some((j, p2)) => {
            let tail = ws_end(s, n, p2);
            proof {
                assert(s@.skip(tail as int) == skip_ws(s@.skip(p2 as int)));
            }
            if tail == n {
                proof {
                    assert(s@.skip(tail as int).len() == 0);
                }
                Some(j)
            } else {
                proof {
                    assert(s@.skip(tail as int).len() > 0);
                }
                None
            }
        },
    }
}

} // verus!
