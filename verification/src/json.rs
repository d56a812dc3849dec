//! The JSON wire format of the API: a value tree, a parser from text, and
//! the encoding primitives used to build request bodies.
//!
//! Every response body is decoded through [`parse_json`] into a [`Json`]
//! tree, and the endpoint modules then check the tree against the shape the
//! API documents. Request bodies are built character by character against an
//! exact specification of the produced text.

use vstd::prelude::*;
use vstd::string::StrSliceExecFns;

verus! {

broadcast use vstd::std_specs::vec::axiom_vec_index_decreases;

/// A JSON value. Strings hold their decoded characters; numbers keep the
/// lexeme from the wire, so no numeric precision is lost or invented.
/// Objects keep their members in wire order.
#[derive(Debug)]
pub enum Json {
    Null,
    Bool(bool),
    Num(Vec<char>),
    Str(Vec<char>),
    Arr(Vec<Json>),
    Obj(Vec<(Vec<char>, Json)>),
}

/// The mathematical form of a JSON value: the same tree over sequences,
/// which every specification of this library speaks of.
pub enum JsonV {
    Null,
    Bool(bool),
    Num(Seq<char>),
    Str(Seq<char>),
    Arr(Seq<JsonV>),
    Obj(Seq<(Seq<char>, JsonV)>),
}

/// The mathematical form of `j`.
pub open spec fn json_v(j: Json) -> JsonV
    decreases j, 0int, 0int,
{
    match j {
        Json::Null => JsonV::Null,
        Json::Bool(b) => JsonV::Bool(b),
        Json::Num(v) => JsonV::Num(v@),
        Json::Str(v) => JsonV::Str(v@),
        Json::Arr(elems) => JsonV::Arr(elems_view(elems, 0)),
        Json::Obj(fields) => JsonV::Obj(members_view(fields, 0)),
    }
}

/// The mathematical forms of the array elements from `i` on.
pub open spec fn elems_view(elems: Vec<Json>, i: int) -> Seq<JsonV>
    decreases elems, elems.len() - i, 0int,
{
    if i < 0 || i >= elems.len() {
        Seq::empty()
    } else {
        seq![json_v(elems[i])] + elems_view(elems, i + 1)
    }
}

/// The mathematical forms of the object members from `i` on.
pub open spec fn members_view(fields: Vec<(Vec<char>, Json)>, i: int) -> Seq<(Seq<char>, JsonV)>
    decreases fields, fields.len() - i, 0int,
{
    if i < 0 || i >= fields.len() {
        Seq::empty()
    } else {
        seq![(fields[i].0@, json_v(fields[i].1))] + members_view(fields, i + 1)
    }
}

impl View for Json {
    type V = JsonV;

    open spec fn view(&self) -> JsonV {
        json_v(*self)
    }
}

/// The element view has one entry per element, the view of that element.
pub proof fn lemma_elems_view(elems: Vec<Json>, i: int)
    requires
        0 <= i <= elems.len(),
    ensures
        elems_view(elems, i).len() == elems.len() - i,
        forall|k: int|
            0 <= k < elems.len() - i ==> #[trigger] elems_view(elems, i)[k] == json_v(
                elems[i + k],
            ),
    decreases elems.len() - i,
{
    if i < elems.len() {
        lemma_elems_view(elems, i + 1);
    }
}

/// The member view has one entry per member: its key's text and its value's
/// view.
pub proof fn lemma_members_view(fields: Vec<(Vec<char>, Json)>, i: int)
    requires
        0 <= i <= fields.len(),
    ensures
        members_view(fields, i).len() == fields.len() - i,
        forall|k: int|
            0 <= k < fields.len() - i ==> #[trigger] members_view(fields, i)[k] == (
                fields[i + k].0@,
                json_v(fields[i + k].1),
            ),
    decreases fields.len() - i,
{
    if i < fields.len() {
        lemma_members_view(fields, i + 1);
    }
}

/// A value whose view is a number literal is that number literal.
pub proof fn lemma_json_v_num(x: Json, v: Seq<char>)
    requires
        json_v(x) == JsonV::Num(v),
    ensures
        x matches Json::Num(xv) && xv@ == v,
{
    match x {
        Json::Null => {},
        Json::Bool(_) => {},
        Json::Num(_) => {},
        Json::Str(_) => {},
        Json::Arr(_) => {},
        Json::Obj(_) => {},
    }
}

/// A value whose view is a string is that string.
pub proof fn lemma_json_v_str(x: Json, v: Seq<char>)
    requires
        json_v(x) == JsonV::Str(v),
    ensures
        x matches Json::Str(xv) && xv@ == v,
{
    match x {
        Json::Null => {},
        Json::Bool(_) => {},
        Json::Num(_) => {},
        Json::Str(_) => {},
        Json::Arr(_) => {},
        Json::Obj(_) => {},
    }
}

/// The value of `key` among an object's members: the first member with that
/// key, as JSON objects are read by this library (later duplicates are
/// ignored).
pub open spec fn spec_obj_get(fields: Seq<(Seq<char>, JsonV)>, key: Seq<char>) -> Option<JsonV>
    decreases fields.len(),
{
    if fields.len() == 0 {
        None
    } else if fields[0].0 == key {
        Some(fields[0].1)
    } else {
        spec_obj_get(fields.drop_first(), key)
    }
}

/// The decimal digit for a value below ten.
pub open spec fn spec_digit(d: nat) -> char {
    if d == 0 { '0' }
    else if d == 1 { '1' }
    else if d == 2 { '2' }
    else if d == 3 { '3' }
    else if d == 4 { '4' }
    else if d == 5 { '5' }
    else if d == 6 { '6' }
    else if d == 7 { '7' }
    else if d == 8 { '8' }
    else { '9' }
}

/// The decimal notation of `n`, without sign or leading zeros.
pub open spec fn spec_dec_str(n: nat) -> Seq<char>
    decreases n,
{
    if n < 10 {
        seq![spec_digit(n)]
    } else {
        spec_dec_str(n / 10) + seq![spec_digit(n % 10)]
    }
}

/// Whether `c` is a decimal digit.
pub open spec fn spec_is_digit(c: char) -> bool {
    '0' <= c && c <= '9'
}

/// The numeric value of a decimal digit.
pub open spec fn spec_digit_val(c: char) -> nat {
    (c as nat - '0' as nat) as nat
}

/// Whether `s` is one or more decimal digits and nothing else.
pub open spec fn spec_is_dec_digits(s: Seq<char>) -> bool {
    s.len() >= 1 && forall|i: int| 0 <= i < s.len() ==> spec_is_digit(s[i])
}

/// The value of a string of decimal digits.
pub open spec fn spec_dec_val(s: Seq<char>) -> nat
    decreases s.len(),
{
    if s.len() == 0 {
        0
    } else {
        spec_dec_val(s.drop_last()) * 10 + spec_digit_val(s.last())
    }
}

/// How one character appears inside a JSON string literal.
pub open spec fn spec_esc_char(c: char) -> Seq<char> {
    if c == '"' { seq!['\\', '"'] }
    else if c == '\\' { seq!['\\', '\\'] }
    else if c == '\n' { seq!['\\', 'n'] }
    else if c == '\r' { seq!['\\', 'r'] }
    else if c == '\t' { seq!['\\', 't'] }
    else if c == '\u{0008}' { seq!['\\', 'b'] }
    else if c == '\u{000C}' { seq!['\\', 'f'] }
    else if (c as nat) < 0x20 {
        seq!['\\', 'u', '0', '0', spec_digit(c as nat / 16), spec_hex_digit(c as nat % 16)]
    } else {
        seq![c]
    }
}

/// The lower-case hexadecimal digit for a value below sixteen.
pub open spec fn spec_hex_digit(d: nat) -> char {
    if d < 10 { spec_digit(d) }
    else if d == 10 { 'a' }
    else if d == 11 { 'b' }
    else if d == 12 { 'c' }
    else if d == 13 { 'd' }
    else if d == 14 { 'e' }
    else { 'f' }
}

/// How a whole string appears inside a JSON string literal (without the
/// surrounding quotes).
pub open spec fn spec_esc(s: Seq<char>) -> Seq<char>
    decreases s.len(),
{
    if s.len() == 0 {
        Seq::empty()
    } else {
        spec_esc(s.drop_last()) + spec_esc_char(s.last())
    }
}

/// Escaping distributes over pushing one character.
pub proof fn lemma_esc_push(s: Seq<char>, c: char)
    ensures
        spec_esc(s.push(c)) == spec_esc(s) + spec_esc_char(c),
{
    assert(s.push(c).drop_last() =~= s);
    assert(s.push(c).last() == c);
}

/// Escaping leaves a string unchanged when no character of it needs any.
pub proof fn lemma_esc_plain(s: Seq<char>)
    requires
        forall|i: int| 0 <= i < s.len() ==> s[i] != '"' && s[i] != '\\' && (s[i] as nat) >= 0x20,
    ensures
        spec_esc(s) == s,
    decreases s.len(),
{
    if s.len() == 0 {
        assert(spec_esc(s) =~= s);
    } else {
        lemma_esc_plain(s.drop_last());
        assert(spec_esc_char(s.last()) == seq![s.last()]);
        assert(s.drop_last() + seq![s.last()] =~= s);
    }
}

/// The characters of `s`, one per unicode scalar value.
pub fn chars_of(s: &str) -> (v: Vec<char>)
    ensures
        v@ == s@,
{
    let n = s.unicode_len();
    let mut v: Vec<char> = Vec::new();
    let mut i: usize = 0;
    while i < n
        invariant
            n == s@.len(),
            i <= n,
            v@ == s@.subrange(0, i as int),
        decreases n - i,
    {
        let c = s.get_char(i);
        v.push(c);
        proof {
            assert(s@.subrange(0, i as int).push(s@[i as int]) =~= s@.subrange(0, i + 1 as int));
        }
        i = i + 1;
    }
    proof {
        assert(s@.subrange(0, n as int) =~= s@);
    }
    v
}

/// Whether a character vector spells the same text as `s`.
pub fn chars_eq_str(v: &Vec<char>, s: &str) -> (r: bool)
    ensures
        r == (v@ == s@),
{
    let n = s.unicode_len();
    if v.len() != n {
        return false;
    }
    let mut i: usize = 0;
    while i < n
        invariant
            n == s@.len(),
            v@.len() == n,
            i <= n,
            forall|k: int| 0 <= k < i ==> v@[k] == s@[k],
        decreases n - i,
    {
        if v[i] != s.get_char(i) {
            return false;
        }
        i = i + 1;
    }
    proof {
        assert(v@ =~= s@);
    }
    true
}

/// Looks a key up among an object's members; agrees with [`spec_obj_get`]
/// applied to the members' mathematical form.
pub fn obj_lookup<'a>(fields: &'a Vec<(Vec<char>, Json)>, key: &str) -> (r: Option<&'a Json>)
    ensures
        match r {
            Some(j) => spec_obj_get(members_view(*fields, 0), key@) == Some((*j)@),
            None => spec_obj_get(members_view(*fields, 0), key@) is None,
        },
{
    let ghost fv = members_view(*fields, 0);
    proof {
        lemma_members_view(*fields, 0);
        assert(fv.skip(0) =~= fv);
    }
    let mut i: usize = 0;
    while i < fields.len()
        invariant
            fv == members_view(*fields, 0),
            fv.len() == fields@.len(),
            forall|k: int|
                0 <= k < fields@.len() ==> #[trigger] fv[k] == (
                    fields@[k].0@,
                    json_v(fields@[k].1),
                ),
            i <= fields@.len(),
            spec_obj_get(fv, key@) == spec_obj_get(fv.skip(i as int), key@),
        decreases fields@.len() - i,
    {
        proof {
            assert(fv.skip(i as int)[0] == fv[i as int]);
        }
        if chars_eq_str(&fields[i].0, key) {
            return Some(&fields[i].1);
        }
        proof {
            assert(fv.skip(i as int).drop_first() =~= fv.skip(i + 1 as int));
        }
        i = i + 1;
    }
    proof {
        assert(fv.skip(fv.len() as int).len() == 0);
    }
    None
}

/// Gathers a character vector back into a `String`.
///
/// Relies on `String`'s `FromIterator<char>`: collecting characters yields
/// the string with exactly those characters in order.
#[verifier::external_body]
pub fn chars_to_string(v: &Vec<char>) -> (s: String)
    ensures
        s@ == v@,
{
    v.iter().collect()
}

/// How deep a value tree the parser accepts. Nesting beyond this bound is
/// rejected as malformed, matching the usual recursion limit of JSON
/// parsers in this ecosystem.
pub const MAX_DEPTH: u32 = 128;

/// JSON whitespace.
pub open spec fn spec_is_ws(c: char) -> bool {
    c == ' ' || c == '\t' || c == '\n' || c == '\r'
}

/// The first position at or after `i` holding no whitespace.
pub open spec fn spec_skip_ws(s: Seq<char>, i: int) -> int
    decreases s.len() - i,
{
    if i < 0 || i >= s.len() {
        i
    } else if spec_is_ws(s[i]) {
        spec_skip_ws(s, i + 1)
    } else {
        i
    }
}

/// The value of a hexadecimal digit, either case.
pub open spec fn spec_hex_val(c: char) -> Result<u32, ()> {
    if '0' <= c && c <= '9' {
        Ok(((c as int - '0' as int) as u32))
    } else if 'a' <= c && c <= 'f' {
        Ok(((c as int - 'a' as int + 10) as u32))
    } else if 'A' <= c && c <= 'F' {
        Ok(((c as int - 'A' as int + 10) as u32))
    } else {
        Err(())
    }
}

/// Four hexadecimal digits starting at `i`, as one value.
pub open spec fn spec_hex4(s: Seq<char>, i: int) -> Result<u32, int> {
    if spec_hex_val(s[i]) is Err {
        Err(i)
    } else if spec_hex_val(s[i + 1]) is Err {
        Err(i + 1)
    } else if spec_hex_val(s[i + 2]) is Err {
        Err(i + 2)
    } else if spec_hex_val(s[i + 3]) is Err {
        Err(i + 3)
    } else {
        Ok(
            ((spec_hex_val(s[i])->Ok_0 * 4096 + spec_hex_val(s[i + 1])->Ok_0 * 256 + spec_hex_val(
                s[i + 2],
            )->Ok_0 * 16 + spec_hex_val(s[i + 3])->Ok_0) as u32),
        )
    }
}

/// The character of a code point. Relied-on code builds it with
/// `char::from_u32` (see [`char_from_u32`]); outside the valid ranges the
/// name is never applied.
pub uninterp spec fn spec_char_of(v: u32) -> char;

/// Prepends one decoded character to a string-parse outcome.
pub open spec fn spec_str_cons(c: char, r: Result<(Seq<char>, int), int>) -> Result<
    (Seq<char>, int),
    int,
> {
    match r {
        Ok((t, e)) => Ok((seq![c] + t, e)),
        Err(p) => Err(p),
    }
}

/// Reads one backslash escape at `pos` (which holds the backslash): the
/// decoded character and the position after the escape.
pub open spec fn spec_unescape(s: Seq<char>, pos: int) -> Result<(char, int), int> {
    if s.len() - pos < 2 {
        Err(pos)
    } else {
        let e = s[pos + 1];
        if e == '"' {
            Ok(('"', pos + 2))
        } else if e == '\\' {
            Ok(('\\', pos + 2))
        } else if e == '/' {
            Ok(('/', pos + 2))
        } else if e == 'n' {
            Ok(('\n', pos + 2))
        } else if e == 't' {
            Ok(('\t', pos + 2))
        } else if e == 'r' {
            Ok(('\r', pos + 2))
        } else if e == 'b' {
            Ok(('\u{0008}', pos + 2))
        } else if e == 'f' {
            Ok(('\u{000C}', pos + 2))
        } else if e == 'u' {
            if s.len() - pos < 6 {
                Err(pos)
            } else {
                match spec_hex4(s, pos + 2) {
                    Err(p) => Err(p),
                    Ok(h) => if 0xD800 <= h && h < 0xDC00 {
                        if s.len() - pos < 12 {
                            Err(pos)
                        } else if s[pos + 6] != '\\' || s[pos + 7] != 'u' {
                            Err(pos + 6)
                        } else {
                            match spec_hex4(s, pos + 8) {
                                Err(p) => Err(p),
                                Ok(l) => if !(0xDC00 <= l && l < 0xE000) {
                                    Err(pos + 8)
                                } else {
                                    Ok(
                                        (
                                            spec_char_of(
                                                ((0x10000 + (h - 0xD800) * 0x400 + (l
                                                    - 0xDC00)) as u32),
                                            ),
                                            pos + 12,
                                        ),
                                    )
                                },
                            }
                        }
                    } else if 0xDC00 <= h && h < 0xE000 {
                        Err(pos + 2)
                    } else {
                        Ok((spec_char_of(h), pos + 6))
                    },
                }
            }
        } else {
            Err(pos + 1)
        }
    }
}

/// Reads the rest of a string literal from `pos` (just after the opening
/// quote): the decoded characters and the position after the closing quote.
pub open spec fn spec_parse_string_rest(s: Seq<char>, pos: int) -> Result<(Seq<char>, int), int>
    decreases s.len() - pos,
{
    if pos < 0 || pos >= s.len() {
        Err(pos)
    } else {
        let c = s[pos];
        if c == '"' {
            Ok((Seq::empty(), pos + 1))
        } else if c == '\\' {
            match spec_unescape(s, pos) {
                Err(p) => Err(p),
                Ok((ch, p2)) => if p2 <= pos || p2 > s.len() {
                    // an escape always moves forward and stays inside the text
                    Err(p2)
                } else {
                    spec_str_cons(ch, spec_parse_string_rest(s, p2))
                },
            }
        } else if (c as u32) < 0x20 {
            Err(pos)
        } else {
            spec_str_cons(c, spec_parse_string_rest(s, pos + 1))
        }
    }
}

/// The first position at or after `i` holding no decimal digit.
pub open spec fn spec_digits_end(s: Seq<char>, i: int) -> int
    decreases s.len() - i,
{
    if i < 0 || i >= s.len() {
        i
    } else if spec_is_digit(s[i]) {
        spec_digits_end(s, i + 1)
    } else {
        i
    }
}

/// The end of a number's optional fraction part starting at `p`.
pub open spec fn spec_num_frac(s: Seq<char>, p: int) -> Result<int, int> {
    if 0 <= p && p < s.len() && s[p] == '.' {
        if p + 1 >= s.len() || !spec_is_digit(s[p + 1]) {
            Err(p + 1)
        } else {
            Ok(spec_digits_end(s, p + 1))
        }
    } else {
        Ok(p)
    }
}

/// The end of a number's optional exponent part starting at `p`.
pub open spec fn spec_num_exp(s: Seq<char>, p: int) -> Result<int, int> {
    if 0 <= p && p < s.len() && (s[p] == 'e' || s[p] == 'E') {
        let ps = if p + 1 < s.len() && (s[p + 1] == '+' || s[p + 1] == '-') {
            p + 2
        } else {
            p + 1
        };
        if ps >= s.len() || !spec_is_digit(s[ps]) {
            Err(ps)
        } else {
            Ok(spec_digits_end(s, ps))
        }
    } else {
        Ok(p)
    }
}

/// Reads a number starting at `i`: its lexeme and the position after it.
pub open spec fn spec_parse_number(s: Seq<char>, i: int) -> Result<(Seq<char>, int), int> {
    let p0 = if s[i] == '-' {
        i + 1
    } else {
        i
    };
    if p0 >= s.len() || !spec_is_digit(s[p0]) {
        Err(p0)
    } else {
        let p1 = if s[p0] == '0' {
            p0 + 1
        } else {
            spec_digits_end(s, p0)
        };
        match spec_num_frac(s, p1) {
            Err(p) => Err(p),
            Ok(p2) => match spec_num_exp(s, p2) {
                Err(p) => Err(p),
                Ok(p3) => Ok((s.subrange(i, p3), p3)),
            },
        }
    }
}

/// Reads any value starting at `i`, descending at most `depth` levels into
/// arrays and objects.
pub open spec fn spec_parse_value(s: Seq<char>, i: int, depth: u32) -> Result<(JsonV, int), int>
    decreases depth, s.len() - i, 0int,
{
    if i < 0 || i >= s.len() {
        Err(i)
    } else {
        let c = s[i];
        if c == '{' {
            if depth == 0 {
                Err(i)
            } else {
                spec_parse_object(s, i, (depth - 1) as u32)
            }
        } else if c == '[' {
            if depth == 0 {
                Err(i)
            } else {
                spec_parse_array(s, i, (depth - 1) as u32)
            }
        } else if c == '"' {
            match spec_parse_string_rest(s, i + 1) {
                Ok((v, p)) => Ok((JsonV::Str(v), p)),
                Err(p) => Err(p),
            }
        } else if c == '-' || spec_is_digit(c) {
            match spec_parse_number(s, i) {
                Ok((v, p)) => Ok((JsonV::Num(v), p)),
                Err(p) => Err(p),
            }
        } else if c == 'n' {
            if s.len() - i >= 4 && s[i + 1] == 'u' && s[i + 2] == 'l' && s[i + 3] == 'l' {
                Ok((JsonV::Null, i + 4))
            } else {
                Err(i)
            }
        } else if c == 't' {
            if s.len() - i >= 4 && s[i + 1] == 'r' && s[i + 2] == 'u' && s[i + 3] == 'e' {
                Ok((JsonV::Bool(true), i + 4))
            } else {
                Err(i)
            }
        } else if c == 'f' {
            if s.len() - i >= 5 && s[i + 1] == 'a' && s[i + 2] == 'l' && s[i + 3] == 's' && s[i
                + 4] == 'e' {
                Ok((JsonV::Bool(false), i + 5))
            } else {
                Err(i)
            }
        } else {
            Err(i)
        }
    }
}

/// Reads an object starting at its opening brace.
pub open spec fn spec_parse_object(s: Seq<char>, i: int, depth: u32) -> Result<(JsonV, int), int>
    decreases depth, s.len() - i, 2int,
{
    let p0 = spec_skip_ws(s, i + 1);
    if p0 < s.len() && s[p0] == '}' {
        Ok((JsonV::Obj(Seq::empty()), p0 + 1))
    } else if p0 <= i || p0 > s.len() {
        // whitespace skipping stays inside the text and never moves left
        Err(p0)
    } else {
        match spec_obj_members(s, p0, depth) {
            Ok((ms, e)) => Ok((JsonV::Obj(ms), e)),
            Err(p) => Err(p),
        }
    }
}

/// Reads the members of an object from `pos` (at a key's opening quote) up
/// to and including the closing brace.
pub open spec fn spec_obj_members(s: Seq<char>, pos: int, depth: u32) -> Result<
    (Seq<(Seq<char>, JsonV)>, int),
    int,
>
    decreases depth, s.len() - pos, 1int,
{
    if !(0 <= pos && pos < s.len() && s[pos] == '"') {
        Err(pos)
    } else {
        match spec_parse_string_rest(s, pos + 1) {
            Err(p) => Err(p),
            Ok((key, p)) => {
                let pc = spec_skip_ws(s, p);
                if !(pc < s.len() && s[pc] == ':') {
                    Err(pc)
                } else {
                    let pv = spec_skip_ws(s, pc + 1);
                    if pv <= pos || pv > s.len() {
                        // a member's value always lies beyond its key
                        Err(pv)
                    } else {
                        match spec_parse_value(s, pv, depth) {
                            Err(p2) => Err(p2),
                            Ok((val, p2)) => {
                                let pn = spec_skip_ws(s, p2);
                                if pn < s.len() && s[pn] == ',' {
                                    let pm = spec_skip_ws(s, pn + 1);
                                    if pm <= pos || pm > s.len() {
                                        // the next member lies beyond this one
                                        Err(pm)
                                    } else {
                                        match spec_obj_members(s, pm, depth) {
                                            Err(p3) => Err(p3),
                                            Ok((ms, e)) => Ok((seq![(key, val)] + ms, e)),
                                        }
                                    }
                                } else if pn < s.len() && s[pn] == '}' {
                                    Ok((seq![(key, val)], pn + 1))
                                } else {
                                    Err(pn)
                                }
                            },
                        }
                    }
                }
            },
        }
    }
}

/// Reads an array starting at its opening bracket.
pub open spec fn spec_parse_array(s: Seq<char>, i: int, depth: u32) -> Result<(JsonV, int), int>
    decreases depth, s.len() - i, 2int,
{
    let p0 = spec_skip_ws(s, i + 1);
    if p0 < s.len() && s[p0] == ']' {
        Ok((JsonV::Arr(Seq::empty()), p0 + 1))
    } else if p0 <= i || p0 > s.len() {
        // whitespace skipping stays inside the text and never moves left
        Err(p0)
    } else {
        match spec_arr_elems(s, p0, depth) {
            Ok((es, e)) => Ok((JsonV::Arr(es), e)),
            Err(p) => Err(p),
        }
    }
}

/// Reads the elements of an array from `pos` (at an element's first
/// character) up to and including the closing bracket.
pub open spec fn spec_arr_elems(s: Seq<char>, pos: int, depth: u32) -> Result<
    (Seq<JsonV>, int),
    int,
>
    decreases depth, s.len() - pos, 1int,
{
    match spec_parse_value(s, pos, depth) {
        Err(p) => Err(p),
        Ok((val, p)) => {
            let pn = spec_skip_ws(s, p);
            if pn < s.len() && s[pn] == ',' {
                let pm = spec_skip_ws(s, pn + 1);
                if pm <= pos || pm > s.len() {
                    // the next element lies beyond this one
                    Err(pm)
                } else {
                    match spec_arr_elems(s, pm, depth) {
                        Err(p2) => Err(p2),
                        Ok((es, e)) => Ok((seq![val] + es, e)),
                    }
                }
            } else if pn < s.len() && s[pn] == ']' {
                Ok((seq![val], pn + 1))
            } else {
                Err(pn)
            }
        },
    }
}

/// Parses a whole document: leading and trailing whitespace around exactly
/// one value.
pub open spec fn spec_parse_json(s: Seq<char>) -> Result<JsonV, int> {
    let start = spec_skip_ws(s, 0);
    match spec_parse_value(s, start, MAX_DEPTH) {
        Ok((j, p)) => {
            let rest = spec_skip_ws(s, p);
            if rest == s.len() {
                Ok(j)
            } else {
                Err(rest)
            }
        },
        Err(p) => Err(p),
    }
}

/// The first position at or after `i` that holds no JSON whitespace;
/// agrees with [`spec_skip_ws`].
fn skip_ws(s: &Vec<char>, i: usize) -> (r: usize)
    requires
        i <= s@.len(),
    ensures
        i <= r <= s@.len(),
        r as int == spec_skip_ws(s@, i as int),
{
    let mut pos = i;
    while pos < s.len()
        invariant
            i <= pos <= s@.len(),
            spec_skip_ws(s@, i as int) == spec_skip_ws(s@, pos as int),
        decreases s@.len() - pos,
    {
        let c = s[pos];
        if c == ' ' || c == '\t' || c == '\n' || c == '\r' {
            pos = pos + 1;
        } else {
            return pos;
        }
    }
    pos
}

/// The value of one hexadecimal digit, either case; agrees with
/// [`spec_hex_val`].
fn hex_val(c: char) -> (r: Result<u32, ()>)
    ensures
        r matches Ok(v) ==> v < 16,
        r == spec_hex_val(c),
{
    if '0' <= c && c <= '9' {
        Ok((c as u32) - ('0' as u32))
    } else if 'a' <= c && c <= 'f' {
        Ok((c as u32) - ('a' as u32) + 10)
    } else if 'A' <= c && c <= 'F' {
        Ok((c as u32) - ('A' as u32) + 10)
    } else {
        Err(())
    }
}

/// Reads four hexadecimal digits starting at `i`; agrees with
/// [`spec_hex4`].
fn hex4(s: &Vec<char>, i: usize) -> (r: Result<u32, usize>)
    requires
        i + 4 <= s@.len(),
    ensures
        r matches Ok(v) ==> v < 0x10000,
        r matches Err(p) ==> p <= s@.len(),
        (match r {
            Ok(v) => spec_hex4(s@, i as int) == Ok::<_, int>(v),
            Err(p) => spec_hex4(s@, i as int) == Err::<u32, _>(p as int),
        }),
{
    let n = s.len();
    let d0 = match hex_val(s[i]) {
        Ok(v) => v,
        Err(_) => { return Err(i); },
    };
    let d1 = match hex_val(s[i + 1]) {
        Ok(v) => v,
        Err(_) => { return Err(i + 1); },
    };
    let d2 = match hex_val(s[i + 2]) {
        Ok(v) => v,
        Err(_) => { return Err(i + 2); },
    };
    let d3 = match hex_val(s[i + 3]) {
        Ok(v) => v,
        Err(_) => { return Err(i + 3); },
    };
    Ok(d0 * 4096 + d1 * 256 + d2 * 16 + d3)
}

/// Prepends already-decoded characters to a string-parse outcome.
pub open spec fn spec_str_prepend(prefix: Seq<char>, r: Result<(Seq<char>, int), int>) -> Result<
    (Seq<char>, int),
    int,
> {
    match r {
        Ok((t, e)) => Ok((prefix + t, e)),
        Err(p) => Err(p),
    }
}

/// Prepending nothing changes nothing.
proof fn lemma_str_prepend_empty(r: Result<(Seq<char>, int), int>)
    ensures
        spec_str_prepend(Seq::empty(), r) == r,
{
    match r {
        Ok((t, e)) => {
            assert(Seq::<char>::empty() + t =~= t);
        },
        Err(_) => {},
    }
}

/// Prepending past one decoded character moves it into the prefix.
proof fn lemma_str_prepend_cons(prefix: Seq<char>, c: char, r: Result<(Seq<char>, int), int>)
    ensures
        spec_str_prepend(prefix, spec_str_cons(c, r)) == spec_str_prepend(prefix.push(c), r),
{
    match r {
        Ok((t, e)) => {
            assert(prefix + (seq![c] + t) =~= prefix.push(c) + t);
        },
        Err(_) => {},
    }
}

/// Reads one backslash escape starting at `pos`: the decoded character and
/// the position after the escape; agrees with one [`spec_str_cons`] step of
/// [`spec_parse_string_rest`].
#[verifier::rlimit(100)]
fn unescape_at(s: &Vec<char>, pos: usize) -> (r: Result<(char, usize), usize>)
    requires
        pos < s@.len(),
        s@[pos as int] == '\\',
    ensures
        r matches Ok(p) ==> pos < p.1 <= s@.len() && spec_unescape(s@, pos as int) == Ok::<_, int>(
            (p.0, p.1 as int),
        ),
        r matches Err(p) ==> p <= s@.len() && spec_unescape(s@, pos as int) == Err::<
            (char, int),
            int,
        >(p as int),
{
    let n = s.len();
    if s.len() - pos < 2 {
        return Err(pos);
    }
    let e = s[pos + 1];
    if e == '"' {
        Ok(('"', pos + 2))
    } else if e == '\\' {
        Ok(('\\', pos + 2))
    } else if e == '/' {
        Ok(('/', pos + 2))
    } else if e == 'n' {
        Ok(('\n', pos + 2))
    } else if e == 't' {
        Ok(('\t', pos + 2))
    } else if e == 'r' {
        Ok(('\r', pos + 2))
    } else if e == 'b' {
        Ok(('\u{0008}', pos + 2))
    } else if e == 'f' {
        Ok(('\u{000C}', pos + 2))
    } else if e == 'u' {
        if s.len() - pos < 6 {
            return Err(pos);
        }
        let h = match hex4(s, pos + 2) {
            Ok(v) => v,
            Err(p) => { return Err(p); },
        };
        if 0xD800 <= h && h < 0xDC00 {
            // a high surrogate must pair with an escaped low one
            if s.len() - pos < 12 {
                return Err(pos);
            }
            if s[pos + 6] != '\\' || s[pos + 7] != 'u' {
                return Err(pos + 6);
            }
            let l = match hex4(s, pos + 8) {
                Ok(v) => v,
                Err(p) => { return Err(p); },
            };
            if !(0xDC00 <= l && l < 0xE000) {
                return Err(pos + 8);
            }
            let code: u32 = 0x10000 + (h - 0xD800) * 0x400 + (l - 0xDC00);
            match char_from_u32(code) {
                Some(ch) => Ok((ch, pos + 12)),
                None => {
                    // unreachable: a surrogate pair's code point is always a
                    // character
                    proof {
                        assert(false);
                    }
                    Err(pos)
                },
            }
        } else if 0xDC00 <= h && h < 0xE000 {
            Err(pos + 2)
        } else {
            match char_from_u32(h) {
                Some(ch) => Ok((ch, pos + 6)),
                None => {
                    // unreachable: outside the surrogate range every
                    // four-digit code is a character
                    proof {
                        assert(false);
                    }
                    Err(pos)
                },
            }
        }
    } else {
        Err(pos + 1)
    }
}

/// Reads a JSON string literal starting at the opening quote; agrees with
/// [`spec_parse_string_rest`] applied just after that quote.
#[verifier::rlimit(100)]
fn parse_string(s: &Vec<char>, i: usize) -> (r: Result<(Vec<char>, usize), usize>)
    requires
        i < s@.len(),
        s@[i as int] == '"',
    ensures
        r matches Ok(p) ==> i < p.1 <= s@.len(),
        r matches Err(p) ==> p <= s@.len(),
        (match r {
            Ok(p) => spec_parse_string_rest(s@, i + 1 as int) == Ok::<_, int>((p.0@, p.1 as int)),
            Err(p) => spec_parse_string_rest(s@, i + 1 as int) == Err::<(Seq<char>, int), _>(
                p as int,
            ),
        }),
{
    let n = s.len();
    let mut pos = i + 1;
    let mut out: Vec<char> = Vec::new();
    proof {
        lemma_str_prepend_empty(spec_parse_string_rest(s@, pos as int));
        assert(out@ =~= Seq::<char>::empty());
    }
    loop
        invariant
            n == s@.len(),
            i < pos <= n,
            spec_parse_string_rest(s@, i + 1 as int) == spec_str_prepend(
                out@,
                spec_parse_string_rest(s@, pos as int),
            ),
        decreases s@.len() - pos,
    {
        if pos >= s.len() {
            return Err(pos);
        }
        let c = s[pos];
        if c == '"' {
            proof {
                assert(out@ + Seq::<char>::empty() =~= out@);
            }
            return Ok((out, pos + 1));
        } else if c == '\\' {
            match unescape_at(s, pos) {
                Ok((ch, p2)) => {
                    proof {
                        assert(spec_parse_string_rest(s@, pos as int) == spec_str_cons(
                            ch,
                            spec_parse_string_rest(s@, p2 as int),
                        ));
                        lemma_str_prepend_cons(out@, ch, spec_parse_string_rest(s@, p2 as int));
                    }
                    out.push(ch);
                    pos = p2;
                },
                Err(p) => {
                    proof {
                        assert(spec_parse_string_rest(s@, pos as int) == Err::<
                            (Seq<char>, int),
                            int,
                        >(p as int));
                    }
                    return Err(p);
                },
            }
        } else if (c as u32) < 0x20 {
            // control characters must be escaped inside a string
            return Err(pos);
        } else {
            proof {
                assert(spec_parse_string_rest(s@, pos as int) == spec_str_cons(
                    c,
                    spec_parse_string_rest(s@, pos + 1 as int),
                ));
                lemma_str_prepend_cons(out@, c, spec_parse_string_rest(s@, pos + 1 as int));
            }
            out.push(c);
            pos = pos + 1;
        }
    }
}

/// Whether `c` is a decimal digit; agrees with [`spec_is_digit`].
pub fn is_digit(c: char) -> (r: bool)
    ensures
        r == spec_is_digit(c),
{
    '0' <= c && c <= '9'
}

/// Reads a JSON number starting at `i`; agrees with [`spec_parse_number`].
fn parse_number(s: &Vec<char>, i: usize) -> (r: Result<(Vec<char>, usize), usize>)
    requires
        i < s@.len(),
    ensures
        r matches Ok(p) ==> i < p.1 <= s@.len(),
        r matches Err(p) ==> p <= s@.len(),
        (match r {
            Ok(p) => spec_parse_number(s@, i as int) == Ok::<_, int>((p.0@, p.1 as int)),
            Err(p) => spec_parse_number(s@, i as int) == Err::<(Seq<char>, int), _>(p as int),
        }),
{
    let n = s.len();
    let mut out: Vec<char> = Vec::new();
    let mut pos = i;
    if s[pos] == '-' {
        out.push('-');
        pos = pos + 1;
    }
    if pos >= s.len() || !is_digit(s[pos]) {
        return Err(pos);
    }
    let ghost p0 = pos as int;
    proof {
        assert(out@ =~= s@.subrange(i as int, p0));
    }
    if s[pos] == '0' {
        out.push('0');
        pos = pos + 1;
    } else {
        out.push(s[pos]);
        pos = pos + 1;
        proof {
            assert(out@ =~= s@.subrange(i as int, pos as int));
        }
        while pos < s.len() && is_digit(s[pos])
            invariant
                n == s@.len(),
                i < pos <= n,
                p0 < pos,
                out@ == s@.subrange(i as int, pos as int),
                spec_digits_end(s@, p0) == spec_digits_end(s@, pos as int),
            decreases s@.len() - pos,
        {
            proof {
                assert(s@.subrange(i as int, pos as int).push(s@[pos as int]) =~= s@.subrange(
                    i as int,
                    pos + 1 as int,
                ));
            }
            out.push(s[pos]);
            pos = pos + 1;
        }
    }
    proof {
        assert(out@ =~= s@.subrange(i as int, pos as int));
    }
    let ghost p1 = pos as int;
    if pos < s.len() && s[pos] == '.' {
        out.push('.');
        pos = pos + 1;
        if pos >= s.len() || !is_digit(s[pos]) {
            return Err(pos);
        }
        proof {
            assert(out@ =~= s@.subrange(i as int, pos as int));
        }
        while pos < s.len() && is_digit(s[pos])
            invariant
                n == s@.len(),
                i < pos <= n,
                p1 + 1 <= pos,
                out@ == s@.subrange(i as int, pos as int),
                spec_digits_end(s@, p1 + 1) == spec_digits_end(s@, pos as int),
            decreases s@.len() - pos,
        {
            proof {
                assert(s@.subrange(i as int, pos as int).push(s@[pos as int]) =~= s@.subrange(
                    i as int,
                    pos + 1 as int,
                ));
            }
            out.push(s[pos]);
            pos = pos + 1;
        }
    }
    let ghost p2 = pos as int;
    if pos < s.len() && (s[pos] == 'e' || s[pos] == 'E') {
        out.push(s[pos]);
        pos = pos + 1;
        if pos < s.len() && (s[pos] == '+' || s[pos] == '-') {
            out.push(s[pos]);
            pos = pos + 1;
        }
        if pos >= s.len() || !is_digit(s[pos]) {
            return Err(pos);
        }
        proof {
            assert(out@ =~= s@.subrange(i as int, pos as int));
        }
        while pos < s.len() && is_digit(s[pos])
            invariant
                n == s@.len(),
                i < pos <= n,
                p2 + 1 <= pos,
                out@ == s@.subrange(i as int, pos as int),
                spec_digits_end(s@, pos as int) == spec_digits_end(
                    s@,
                    (if p2 + 1 < s@.len() && (s@[p2 + 1] == '+' || s@[p2 + 1] == '-') {
                        p2 + 2
                    } else {
                        p2 + 1
                    }),
                ),
            decreases s@.len() - pos,
        {
            proof {
                assert(s@.subrange(i as int, pos as int).push(s@[pos as int]) =~= s@.subrange(
                    i as int,
                    pos + 1 as int,
                ));
            }
            out.push(s[pos]);
            pos = pos + 1;
        }
    }
    Ok((out, pos))
}

/// Reads any JSON value starting at `i`, descending at most `depth` levels
/// into arrays and objects; agrees with [`spec_parse_value`].
fn parse_value(s: &Vec<char>, i: usize, depth: u32) -> (r: Result<(Json, usize), usize>)
    requires
        i <= s@.len(),
    ensures
        r matches Ok(p) ==> i < p.1 <= s@.len(),
        r matches Err(p) ==> p <= s@.len(),
        (match r {
            Ok(p) => spec_parse_value(s@, i as int, depth) == Ok::<_, int>((p.0@, p.1 as int)),
            Err(p) => spec_parse_value(s@, i as int, depth) == Err::<(JsonV, int), _>(p as int),
        }),
    decreases depth, 0int,
{
    if i >= s.len() {
        return Err(i);
    }
    let c = s[i];
    if c == '{' {
        if depth == 0 {
            return Err(i);
        }
        parse_object(s, i, depth - 1)
    } else if c == '[' {
        if depth == 0 {
            return Err(i);
        }
        parse_array(s, i, depth - 1)
    } else if c == '"' {
        match parse_string(s, i) {
            Ok((v, p)) => Ok((Json::Str(v), p)),
            Err(p) => Err(p),
        }
    } else if c == '-' || is_digit(c) {
        match parse_number(s, i) {
            Ok((v, p)) => Ok((Json::Num(v), p)),
            Err(p) => Err(p),
        }
    } else if c == 'n' {
        if s.len() - i >= 4 && s[i + 1] == 'u' && s[i + 2] == 'l' && s[i + 3] == 'l' {
            Ok((Json::Null, i + 4))
        } else {
            Err(i)
        }
    } else if c == 't' {
        if s.len() - i >= 4 && s[i + 1] == 'r' && s[i + 2] == 'u' && s[i + 3] == 'e' {
            Ok((Json::Bool(true), i + 4))
        } else {
            Err(i)
        }
    } else if c == 'f' {
        if s.len() - i >= 5 && s[i + 1] == 'a' && s[i + 2] == 'l' && s[i + 3] == 's'
            && s[i + 4] == 'e' {
            Ok((Json::Bool(false), i + 5))
        } else {
            Err(i)
        }
    } else {
        Err(i)
    }
}

/// Prepends already-read members to a member-list outcome.
pub open spec fn spec_members_prepend(
    done: Seq<(Seq<char>, JsonV)>,
    r: Result<(Seq<(Seq<char>, JsonV)>, int), int>,
) -> Result<(Seq<(Seq<char>, JsonV)>, int), int> {
    match r {
        Ok((ms, e)) => Ok((done + ms, e)),
        Err(p) => Err(p),
    }
}

/// Prepending nothing changes nothing.
proof fn lemma_members_prepend_empty(r: Result<(Seq<(Seq<char>, JsonV)>, int), int>)
    ensures
        spec_members_prepend(Seq::empty(), r) == r,
{
    match r {
        Ok((ms, e)) => {
            assert(Seq::<(Seq<char>, JsonV)>::empty() + ms =~= ms);
        },
        Err(_) => {},
    }
}

/// Prepending past one member moves it into the done part.
proof fn lemma_members_prepend_cons(
    done: Seq<(Seq<char>, JsonV)>,
    kv: (Seq<char>, JsonV),
    r: Result<(Seq<(Seq<char>, JsonV)>, int), int>,
)
    ensures
        spec_members_prepend(
            done,
            match r {
                Ok((ms, e)) => Ok::<_, int>((seq![kv] + ms, e)),
                Err(p) => Err(p),
            },
        ) == spec_members_prepend(done.push(kv), r),
{
    match r {
        Ok((ms, e)) => {
            assert(done + (seq![kv] + ms) =~= done.push(kv) + ms);
        },
        Err(_) => {},
    }
}

/// Reads an object starting at its opening brace; agrees with
/// [`spec_parse_object`].
fn parse_object(s: &Vec<char>, i: usize, depth: u32) -> (r: Result<(Json, usize), usize>)
    requires
        i < s@.len(),
        s@[i as int] == '{',
    ensures
        r matches Ok(p) ==> i < p.1 <= s@.len(),
        r matches Err(p) ==> p <= s@.len(),
        (match r {
            Ok(p) => spec_parse_object(s@, i as int, depth) == Ok::<_, int>((p.0@, p.1 as int)),
            Err(p) => spec_parse_object(s@, i as int, depth) == Err::<(JsonV, int), _>(p as int),
        }),
    decreases depth, 1int,
{
    let n = s.len();
    let mut fields: Vec<(Vec<char>, Json)> = Vec::new();
    let mut pos = skip_ws(s, i + 1);
    if pos < s.len() && s[pos] == '}' {
        proof {
            assert(members_view(fields, 0) =~= Seq::<(Seq<char>, JsonV)>::empty());
        }
        return Ok((Json::Obj(fields), pos + 1));
    }
    let ghost pos0 = pos as int;
    let ghost orig = spec_obj_members(s@, pos0, depth);
    proof {
        assert(members_view(fields, 0) =~= Seq::<(Seq<char>, JsonV)>::empty());
        lemma_members_prepend_empty(orig);
    }
    loop
        invariant
            n == s@.len(),
            i < pos <= n,
            orig == spec_members_prepend(
                members_view(fields, 0),
                spec_obj_members(s@, pos as int, depth),
            ),
            spec_parse_object(s@, i as int, depth) == (match orig {
                Ok(p) => Ok::<(JsonV, int), int>((JsonV::Obj(p.0), p.1)),
                Err(p) => Err(p),
            }),
        decreases s@.len() - pos,
    {
        if !(pos < s.len() && s[pos] == '"') {
            return Err(pos);
        }
        let (key, p) = match parse_string(s, pos) {
            Ok(kp) => kp,
            Err(e) => { return Err(e); },
        };
        let pc = skip_ws(s, p);
        if !(pc < s.len() && s[pc] == ':') {
            return Err(pc);
        }
        let pv = skip_ws(s, pc + 1);
        let (val, p2) = match parse_value(s, pv, depth) {
            Ok(vp) => vp,
            Err(e) => { return Err(e); },
        };
        let pn = skip_ws(s, p2);
        let ghost kv = (key@, json_v(val));
        let ghost prev = fields;
        if pn < s.len() && s[pn] == ',' {
            let pm = skip_ws(s, pn + 1);
            proof {
                lemma_members_prepend_cons(
                    members_view(prev, 0),
                    kv,
                    spec_obj_members(s@, pm as int, depth),
                );
            }
            fields.push((key, val));
            proof {
                lemma_members_view(prev, 0);
                lemma_members_view(fields, 0);
                assert(members_view(fields, 0) =~= members_view(prev, 0).push(kv));
            }
            pos = pm;
        } else if pn < s.len() && s[pn] == '}' {
            fields.push((key, val));
            proof {
                lemma_members_view(prev, 0);
                lemma_members_view(fields, 0);
                assert(members_view(fields, 0) =~= members_view(prev, 0).push(kv));
                assert(members_view(prev, 0) + seq![kv] =~= members_view(fields, 0));
            }
            return Ok((Json::Obj(fields), pn + 1));
        } else {
            return Err(pn);
        }
    }
}

/// Prepends already-read elements to an element-list outcome.
pub open spec fn spec_elems_prepend(done: Seq<JsonV>, r: Result<(Seq<JsonV>, int), int>) -> Result<
    (Seq<JsonV>, int),
    int,
> {
    match r {
        Ok((es, e)) => Ok((done + es, e)),
        Err(p) => Err(p),
    }
}

/// Prepending nothing changes nothing.
proof fn lemma_elems_prepend_empty(r: Result<(Seq<JsonV>, int), int>)
    ensures
        spec_elems_prepend(Seq::empty(), r) == r,
{
    match r {
        Ok((es, e)) => {
            assert(Seq::<JsonV>::empty() + es =~= es);
        },
        Err(_) => {},
    }
}

/// Prepending past one element moves it into the done part.
proof fn lemma_elems_prepend_cons(done: Seq<JsonV>, v: JsonV, r: Result<(Seq<JsonV>, int), int>)
    ensures
        spec_elems_prepend(
            done,
            match r {
                Ok((es, e)) => Ok::<_, int>((seq![v] + es, e)),
                Err(p) => Err(p),
            },
        ) == spec_elems_prepend(done.push(v), r),
{
    match r {
        Ok((es, e)) => {
            assert(done + (seq![v] + es) =~= done.push(v) + es);
        },
        Err(_) => {},
    }
}

/// Reads an array starting at its opening bracket; agrees with
/// [`spec_parse_array`].
fn parse_array(s: &Vec<char>, i: usize, depth: u32) -> (r: Result<(Json, usize), usize>)
    requires
        i < s@.len(),
        s@[i as int] == '[',
    ensures
        r matches Ok(p) ==> i < p.1 <= s@.len(),
        r matches Err(p) ==> p <= s@.len(),
        (match r {
            Ok(p) => spec_parse_array(s@, i as int, depth) == Ok::<_, int>((p.0@, p.1 as int)),
            Err(p) => spec_parse_array(s@, i as int, depth) == Err::<(JsonV, int), _>(p as int),
        }),
    decreases depth, 1int,
{
    let n = s.len();
    let mut elems: Vec<Json> = Vec::new();
    let mut pos = skip_ws(s, i + 1);
    if pos < s.len() && s[pos] == ']' {
        proof {
            assert(elems_view(elems, 0) =~= Seq::<JsonV>::empty());
        }
        return Ok((Json::Arr(elems), pos + 1));
    }
    let ghost pos0 = pos as int;
    let ghost orig = spec_arr_elems(s@, pos0, depth);
    proof {
        assert(elems_view(elems, 0) =~= Seq::<JsonV>::empty());
        lemma_elems_prepend_empty(orig);
    }
    loop
        invariant
            n == s@.len(),
            i < pos <= n,
            orig == spec_elems_prepend(
                elems_view(elems, 0),
                spec_arr_elems(s@, pos as int, depth),
            ),
            spec_parse_array(s@, i as int, depth) == (match orig {
                Ok(p) => Ok::<(JsonV, int), int>((JsonV::Arr(p.0), p.1)),
                Err(p) => Err(p),
            }),
        decreases s@.len() - pos,
    {
        let (val, p) = match parse_value(s, pos, depth) {
            Ok(vp) => vp,
            Err(e) => { return Err(e); },
        };
        let pn = skip_ws(s, p);
        let ghost vv = json_v(val);
        let ghost prev = elems;
        if pn < s.len() && s[pn] == ',' {
            let pm = skip_ws(s, pn + 1);
            proof {
                lemma_elems_prepend_cons(
                    elems_view(prev, 0),
                    vv,
                    spec_arr_elems(s@, pm as int, depth),
                );
            }
            elems.push(val);
            proof {
                lemma_elems_view(prev, 0);
                lemma_elems_view(elems, 0);
                assert(elems_view(elems, 0) =~= elems_view(prev, 0).push(vv));
            }
            pos = pm;
        } else if pn < s.len() && s[pn] == ']' {
            elems.push(val);
            proof {
                lemma_elems_view(prev, 0);
                lemma_elems_view(elems, 0);
                assert(elems_view(elems, 0) =~= elems_view(prev, 0).push(vv));
                assert(elems_view(prev, 0) + seq![vv] =~= elems_view(elems, 0));
            }
            return Ok((Json::Arr(elems), pn + 1));
        } else {
            return Err(pn);
        }
    }
}

/// Parses a whole JSON document; agrees with [`spec_parse_json`]. On
/// failure the error carries the character position at which the text
/// stopped making sense.
pub fn parse_json(s: &str) -> (r: Result<Json, usize>)
    ensures
        r matches Err(p) ==> p <= s@.len(),
        (match r {
            Ok(j) => spec_parse_json(s@) == Ok::<_, int>(j@),
            Err(p) => spec_parse_json(s@) == Err::<JsonV, _>(p as int),
        }),
{
    let cs = chars_of(s);
    let start = skip_ws(&cs, 0);
    match parse_value(&cs, start, MAX_DEPTH) {
        Ok((j, p)) => {
            let rest = skip_ws(&cs, p);
            if rest == cs.len() {
                Ok(j)
            } else {
                Err(rest)
            }
        },
        Err(p) => Err(p),
    }
}

/// The view of an optional string.
pub open spec fn opt_view(o: Option<String>) -> Option<Seq<char>> {
    match o {
        None => None,
        Some(s) => Some(s@),
    }
}

/// The optional boolean at `key`: an absent key or a null is unset, a
/// boolean is its value, and any other value breaks the shape.
pub open spec fn spec_opt_bool(fields: Seq<(Seq<char>, JsonV)>, key: Seq<char>) -> Result<
    Option<bool>,
    (),
> {
    match spec_obj_get(fields, key) {
        None => Ok(None),
        Some(j) => match j {
            JsonV::Null => Ok(None),
            JsonV::Bool(b) => Ok(Some(b)),
            _ => Err(()),
        },
    }
}

/// The optional string at `key`: an absent key or a null is unset, a string
/// is its text, and any other value breaks the shape.
pub open spec fn spec_opt_str(fields: Seq<(Seq<char>, JsonV)>, key: Seq<char>) -> Result<
    Option<Seq<char>>,
    (),
> {
    match spec_obj_get(fields, key) {
        None => Ok(None),
        Some(j) => match j {
            JsonV::Null => Ok(None),
            JsonV::Str(v) => Ok(Some(v)),
            _ => Err(()),
        },
    }
}

/// The required string at `key`: anything but a present string breaks the
/// shape.
pub open spec fn spec_req_str(fields: Seq<(Seq<char>, JsonV)>, key: Seq<char>) -> Result<
    Seq<char>,
    (),
> {
    match spec_obj_get(fields, key) {
        Some(j) => match j {
            JsonV::Str(v) => Ok(v),
            _ => Err(()),
        },
        None => Err(()),
    }
}

/// The required boolean at `key`.
pub open spec fn spec_req_bool(fields: Seq<(Seq<char>, JsonV)>, key: Seq<char>) -> Result<
    bool,
    (),
> {
    match spec_obj_get(fields, key) {
        Some(j) => match j {
            JsonV::Bool(b) => Ok(b),
            _ => Err(()),
        },
        None => Err(()),
    }
}

/// Reads an optional boolean field; agrees with [`spec_opt_bool`].
pub fn get_opt_bool(fields: &Vec<(Vec<char>, Json)>, key: &str) -> (r: Result<Option<bool>, ()>)
    ensures
        r == spec_opt_bool(members_view(*fields, 0), key@),
{
    match obj_lookup(fields, key) {
        None => Ok(None),
        Some(j) => match j {
            Json::Null => Ok(None),
            Json::Bool(b) => Ok(Some(*b)),
            _ => Err(()),
        },
    }
}

/// Reads an optional string field; agrees with [`spec_opt_str`].
pub fn get_opt_string(fields: &Vec<(Vec<char>, Json)>, key: &str) -> (r: Result<Option<String>, ()>)
    ensures
        match r {
            Ok(o) => spec_opt_str(members_view(*fields, 0), key@) == Ok::<_, ()>(opt_view(o)),
            Err(_) => spec_opt_str(members_view(*fields, 0), key@) is Err,
        },
{
    match obj_lookup(fields, key) {
        None => Ok(None),
        Some(j) => match j {
            Json::Null => Ok(None),
            Json::Str(v) => Ok(Some(chars_to_string(v))),
            _ => Err(()),
        },
    }
}

/// Reads a required string field; agrees with [`spec_req_str`].
pub fn get_req_string(fields: &Vec<(Vec<char>, Json)>, key: &str) -> (r: Result<String, ()>)
    ensures
        match r {
            Ok(s) => spec_req_str(members_view(*fields, 0), key@) == Ok::<_, ()>(s@),
            Err(_) => spec_req_str(members_view(*fields, 0), key@) is Err,
        },
{
    match obj_lookup(fields, key) {
        Some(j) => match j {
            Json::Str(v) => Ok(chars_to_string(v)),
            _ => Err(()),
        },
        None => Err(()),
    }
}

/// Reads a required boolean field; agrees with [`spec_req_bool`].
pub fn get_req_bool(fields: &Vec<(Vec<char>, Json)>, key: &str) -> (r: Result<bool, ()>)
    ensures
        r == spec_req_bool(members_view(*fields, 0), key@),
{
    match obj_lookup(fields, key) {
        Some(j) => match j {
            Json::Bool(b) => Ok(*b),
            _ => Err(()),
        },
        None => Err(()),
    }
}

/// The texts of a sequence of JSON values, if every one is a string.
pub open spec fn spec_str_elems(elems: Seq<JsonV>) -> Result<Seq<Seq<char>>, ()>
    decreases elems.len(),
{
    if elems.len() == 0 {
        Ok(Seq::empty())
    } else {
        match spec_str_elems(elems.drop_last()) {
            Ok(pre) => match elems.last() {
                JsonV::Str(v) => Ok(pre.push(v)),
                _ => Err(()),
            },
            Err(e) => Err(e),
        }
    }
}

/// Collects an array of strings; agrees with [`spec_str_elems`] applied to
/// the elements' mathematical form.
pub fn str_elems(elems: &Vec<Json>) -> (r: Result<Vec<String>, ()>)
    ensures
        match r {
            Ok(v) => spec_str_elems(elems_view(*elems, 0)) == Ok::<_, ()>(v.deep_view()),
            Err(_) => spec_str_elems(elems_view(*elems, 0)) is Err,
        },
{
    let ghost ev = elems_view(*elems, 0);
    proof {
        lemma_elems_view(*elems, 0);
    }
    let mut out: Vec<String> = Vec::new();
    let mut i: usize = 0;
    proof {
        assert(ev.subrange(0, 0) =~= Seq::<JsonV>::empty());
        assert(out.deep_view() =~= Seq::<Seq<char>>::empty());
    }
    while i < elems.len()
        invariant
            ev == elems_view(*elems, 0),
            ev.len() == elems@.len(),
            forall|k: int| 0 <= k < elems@.len() ==> #[trigger] ev[k] == json_v(elems@[k]),
            i <= elems@.len(),
            spec_str_elems(ev.subrange(0, i as int)) == Ok::<_, ()>(out.deep_view()),
        decreases elems@.len() - i,
    {
        match &elems[i] {
            Json::Str(v) => {
                let ghost old_out = out.deep_view();
                let s = chars_to_string(v);
                out.push(s);
                proof {
                    assert(ev.subrange(0, i + 1 as int).drop_last() =~= ev.subrange(0, i as int));
                    assert(ev.subrange(0, i + 1 as int).last() == ev[i as int]);
                    assert(out.deep_view() =~= old_out.push(s@));
                }
            },
            _ => {
                proof {
                    lemma_str_elems_bad(ev, i as int);
                }
                return Err(());
            },
        }
        i = i + 1;
    }
    proof {
        assert(ev.subrange(0, ev.len() as int) =~= ev);
    }
    Ok(out)
}

/// If some element is no string, the whole sequence has no string reading.
proof fn lemma_str_elems_bad(elems: Seq<JsonV>, i: int)
    requires
        0 <= i < elems.len(),
        !(elems[i] is Str),
    ensures
        spec_str_elems(elems) is Err,
    decreases elems.len(),
{
    if elems.len() > 0 {
        if i == elems.len() - 1 {
        } else {
            lemma_str_elems_bad(elems.drop_last(), i);
        }
    }
}

/// A JSON string literal: a quote, the escaped text, a quote.
pub open spec fn spec_json_str_lit(s: Seq<char>) -> Seq<char> {
    seq!['"'] + spec_esc(s) + seq!['"']
}

/// The canonical text of a JSON value: no whitespace, members in order,
/// strings escaped as [`spec_esc`] lays down.
pub open spec fn spec_render(j: Json) -> Seq<char>
    decreases j, 1int,
{
    match j {
        Json::Null => "null"@,
        Json::Bool(b) => if b { "true"@ } else { "false"@ },
        Json::Num(v) => v@,
        Json::Str(v) => spec_json_str_lit(v@),
        Json::Arr(elems) => seq!['['] + spec_render_elems(elems, 0) + seq![']'],
        Json::Obj(fields) => seq!['{'] + spec_render_members(fields, 0) + seq!['}'],
    }
}

/// The comma-separated texts of the array elements from `i` on.
pub open spec fn spec_render_elems(elems: Vec<Json>, i: int) -> Seq<char>
    decreases elems, elems.len() - i, 0int,
{
    if i < 0 || i >= elems.len() {
        Seq::empty()
    } else if i == elems.len() - 1 {
        spec_render(elems[i])
    } else {
        spec_render(elems[i]) + seq![','] + spec_render_elems(elems, i + 1)
    }
}

/// The comma-separated texts of the object members from `i` on.
pub open spec fn spec_render_members(fields: Vec<(Vec<char>, Json)>, i: int) -> Seq<char>
    decreases fields, fields.len() - i, 0int,
{
    if i < 0 || i >= fields.len() {
        Seq::empty()
    } else if i == fields.len() - 1 {
        spec_json_str_lit(fields[i].0@) + seq![':'] + spec_render(fields[i].1)
    } else {
        spec_json_str_lit(fields[i].0@) + seq![':'] + spec_render(fields[i].1) + seq![',']
            + spec_render_members(fields, i + 1)
    }
}

/// The decimal digit character for `d`; agrees with [`spec_digit`].
fn digit_char(d: u32) -> (c: char)
    requires
        d < 10,
    ensures
        c == spec_digit(d as nat),
{
    if d == 0 { '0' }
    else if d == 1 { '1' }
    else if d == 2 { '2' }
    else if d == 3 { '3' }
    else if d == 4 { '4' }
    else if d == 5 { '5' }
    else if d == 6 { '6' }
    else if d == 7 { '7' }
    else if d == 8 { '8' }
    else { '9' }
}

/// The lower-case hexadecimal digit character for `d`; agrees with
/// [`spec_hex_digit`].
fn hex_digit_char(d: u32) -> (c: char)
    requires
        d < 16,
    ensures
        c == spec_hex_digit(d as nat),
{
    if d < 10 { digit_char(d) }
    else if d == 10 { 'a' }
    else if d == 11 { 'b' }
    else if d == 12 { 'c' }
    else if d == 13 { 'd' }
    else if d == 14 { 'e' }
    else { 'f' }
}

/// Appends the text of `s` to `out`.
pub fn push_str_chars(out: &mut Vec<char>, s: &str)
    ensures
        final(out)@ == old(out)@ + s@,
{
    let n = s.unicode_len();
    let mut i: usize = 0;
    proof {
        assert(old(out)@ + s@.subrange(0, 0) =~= old(out)@);
    }
    while i < n
        invariant
            n == s@.len(),
            i <= n,
            out@ == old(out)@ + s@.subrange(0, i as int),
        decreases n - i,
    {
        let c = s.get_char(i);
        out.push(c);
        proof {
            assert(old(out)@ + s@.subrange(0, i as int).push(s@[i as int])
                =~= old(out)@ + s@.subrange(0, i + 1 as int));
        }
        i = i + 1;
    }
    proof {
        assert(s@.subrange(0, n as int) =~= s@);
    }
}

/// Appends the decimal notation of `v` to `out`.
pub fn push_u32_dec(out: &mut Vec<char>, v: u32)
    ensures
        final(out)@ == old(out)@ + spec_dec_str(v as nat),
    decreases v,
{
    if v < 10 {
        let c = digit_char(v);
        out.push(c);
        proof {
            assert(old(out)@.push(spec_digit(v as nat)) =~= old(out)@ + spec_dec_str(v as nat));
        }
    } else {
        push_u32_dec(out, v / 10);
        let c = digit_char(v % 10);
        out.push(c);
        proof {
            assert((old(out)@ + spec_dec_str((v / 10) as nat)).push(spec_digit((v % 10) as nat))
                =~= old(out)@ + spec_dec_str(v as nat));
        }
    }
}

/// The decimal notation of `v` as characters.
pub fn u32_dec_chars(v: u32) -> (r: Vec<char>)
    ensures
        r@ == spec_dec_str(v as nat),
{
    let mut out: Vec<char> = Vec::new();
    push_u32_dec(&mut out, v);
    proof {
        assert(Seq::<char>::empty() + spec_dec_str(v as nat) =~= spec_dec_str(v as nat));
    }
    out
}

/// Appends one character of a JSON string literal, escaped as needed.
fn push_esc_char(out: &mut Vec<char>, c: char)
    ensures
        final(out)@ == old(out)@ + spec_esc_char(c),
{
    if c == '"' {
        out.push('\\');
        out.push('"');
        proof { assert(old(out)@.push('\\').push('"') =~= old(out)@ + spec_esc_char(c)); }
    } else if c == '\\' {
        out.push('\\');
        out.push('\\');
        proof { assert(old(out)@.push('\\').push('\\') =~= old(out)@ + spec_esc_char(c)); }
    } else if c == '\n' {
        out.push('\\');
        out.push('n');
        proof { assert(old(out)@.push('\\').push('n') =~= old(out)@ + spec_esc_char(c)); }
    } else if c == '\r' {
        out.push('\\');
        out.push('r');
        proof { assert(old(out)@.push('\\').push('r') =~= old(out)@ + spec_esc_char(c)); }
    } else if c == '\t' {
        out.push('\\');
        out.push('t');
        proof { assert(old(out)@.push('\\').push('t') =~= old(out)@ + spec_esc_char(c)); }
    } else if c == '\u{0008}' {
        out.push('\\');
        out.push('b');
        proof { assert(old(out)@.push('\\').push('b') =~= old(out)@ + spec_esc_char(c)); }
    } else if c == '\u{000C}' {
        out.push('\\');
        out.push('f');
        proof { assert(old(out)@.push('\\').push('f') =~= old(out)@ + spec_esc_char(c)); }
    } else if (c as u32) < 0x20 {
        out.push('\\');
        out.push('u');
        out.push('0');
        out.push('0');
        let hi = digit_char((c as u32) / 16);
        out.push(hi);
        let lo = hex_digit_char((c as u32) % 16);
        out.push(lo);
        proof {
            assert(old(out)@.push('\\').push('u').push('0').push('0').push(
                spec_digit(c as nat / 16)).push(spec_hex_digit(c as nat % 16))
                =~= old(out)@ + spec_esc_char(c));
        }
    } else {
        out.push(c);
        proof { assert(old(out)@.push(c) =~= old(out)@ + spec_esc_char(c)); }
    }
}

/// Appends `s` as a JSON string literal: a quote, the escaped text, a quote.
pub fn push_json_string(out: &mut Vec<char>, s: &str)
    ensures
        final(out)@ == old(out)@ + seq!['"'] + spec_esc(s@) + seq!['"'],
{
    out.push('"');
    let n = s.unicode_len();
    let mut i: usize = 0;
    proof {
        assert(old(out)@.push('"') =~= old(out)@ + seq!['"'] + spec_esc(s@.subrange(0, 0)));
    }
    while i < n
        invariant
            n == s@.len(),
            i <= n,
            out@ == old(out)@ + seq!['"'] + spec_esc(s@.subrange(0, i as int)),
        decreases n - i,
    {
        let c = s.get_char(i);
        push_esc_char(out, c);
        proof {
            assert(s@.subrange(0, i as int).push(s@[i as int]) =~= s@.subrange(0, i + 1 as int));
            lemma_esc_push(s@.subrange(0, i as int), s@[i as int]);
            assert(old(out)@ + seq!['"'] + spec_esc(s@.subrange(0, i as int)) + spec_esc_char(s@[i as int])
                =~= old(out)@ + seq!['"'] + spec_esc(s@.subrange(0, i + 1 as int)));
        }
        i = i + 1;
    }
    out.push('"');
    proof {
        assert(s@.subrange(0, n as int) =~= s@);
        assert((old(out)@ + seq!['"'] + spec_esc(s@)).push('"')
            =~= old(out)@ + seq!['"'] + spec_esc(s@) + seq!['"']);
    }
}

/// Appends the characters of `v` to `out`.
fn push_chars(out: &mut Vec<char>, v: &Vec<char>)
    ensures
        final(out)@ == old(out)@ + v@,
{
    let mut k: usize = 0;
    proof {
        assert(old(out)@ + v@.subrange(0, 0) =~= old(out)@);
    }
    while k < v.len()
        invariant
            k <= v@.len(),
            out@ == old(out)@ + v@.subrange(0, k as int),
        decreases v@.len() - k,
    {
        out.push(v[k]);
        proof {
            assert(old(out)@ + v@.subrange(0, k as int).push(v@[k as int]) =~= old(out)@
                + v@.subrange(0, k + 1 as int));
        }
        k = k + 1;
    }
    proof {
        assert(v@.subrange(0, v@.len() as int) =~= v@);
    }
}

/// Appends the characters of `v` as a JSON string literal.
fn push_json_chars(out: &mut Vec<char>, v: &Vec<char>)
    ensures
        final(out)@ == old(out)@ + spec_json_str_lit(v@),
{
    out.push('"');
    let mut k: usize = 0;
    proof {
        assert(old(out)@.push('"') =~= old(out)@ + seq!['"'] + spec_esc(v@.subrange(0, 0)));
    }
    while k < v.len()
        invariant
            k <= v@.len(),
            out@ == old(out)@ + seq!['"'] + spec_esc(v@.subrange(0, k as int)),
        decreases v@.len() - k,
    {
        push_esc_char(out, v[k]);
        proof {
            assert(v@.subrange(0, k as int).push(v@[k as int]) =~= v@.subrange(0, k + 1 as int));
            lemma_esc_push(v@.subrange(0, k as int), v@[k as int]);
            assert(old(out)@ + seq!['"'] + spec_esc(v@.subrange(0, k as int)) + spec_esc_char(
                v@[k as int],
            ) =~= old(out)@ + seq!['"'] + spec_esc(v@.subrange(0, k + 1 as int)));
        }
        k = k + 1;
    }
    out.push('"');
    proof {
        assert(v@.subrange(0, v@.len() as int) =~= v@);
        assert((old(out)@ + seq!['"'] + spec_esc(v@)).push('"') =~= old(out)@ + spec_json_str_lit(
            v@,
        ));
    }
}

/// Appends the canonical text of `j`; agrees with [`spec_render`].
fn render_value(j: &Json, out: &mut Vec<char>)
    ensures
        final(out)@ == old(out)@ + spec_render(*j),
    decreases *j, 1int,
{
    match j {
        Json::Null => {
            push_str_chars(out, "null");
        },
        Json::Bool(b) => {
            if *b {
                push_str_chars(out, "true");
            } else {
                push_str_chars(out, "false");
            }
        },
        Json::Num(v) => {
            push_chars(out, v);
        },
        Json::Str(v) => {
            push_json_chars(out, v);
        },
        Json::Arr(elems) => {
            out.push('[');
            render_elems(elems, 0, out);
            out.push(']');
            proof {
                assert(old(out)@.push('[') =~= old(out)@ + seq!['[']);
                assert((old(out)@ + seq!['['] + spec_render_elems(*elems, 0)).push(']')
                    =~= old(out)@ + spec_render(*j));
            }
        },
        Json::Obj(fields) => {
            out.push('{');
            render_members(fields, 0, out);
            out.push('}');
            proof {
                assert(old(out)@.push('{') =~= old(out)@ + seq!['{']);
                assert((old(out)@ + seq!['{'] + spec_render_members(*fields, 0)).push('}')
                    =~= old(out)@ + spec_render(*j));
            }
        },
    }
}

/// Appends the texts of the array elements from `i` on, comma-separated.
fn render_elems(elems: &Vec<Json>, i: usize, out: &mut Vec<char>)
    ensures
        final(out)@ == old(out)@ + spec_render_elems(*elems, i as int),
    decreases *elems, elems@.len() - i, 0int,
{
    if i >= elems.len() {
        proof {
            assert(old(out)@ + spec_render_elems(*elems, i as int) =~= old(out)@);
        }
        return ;
    }
    render_value(&elems[i], out);
    if i + 1 < elems.len() {
        out.push(',');
        render_elems(elems, i + 1, out);
        proof {
            assert((old(out)@ + spec_render(elems@[i as int])).push(',') + spec_render_elems(
                *elems,
                i + 1 as int,
            ) =~= old(out)@ + spec_render_elems(*elems, i as int));
        }
    }
}

/// Appends the texts of the object members from `i` on, comma-separated.
fn render_members(fields: &Vec<(Vec<char>, Json)>, i: usize, out: &mut Vec<char>)
    ensures
        final(out)@ == old(out)@ + spec_render_members(*fields, i as int),
    decreases *fields, fields@.len() - i, 0int,
{
    if i >= fields.len() {
        proof {
            assert(old(out)@ + spec_render_members(*fields, i as int) =~= old(out)@);
        }
        return ;
    }
    push_json_chars(out, &fields[i].0);
    out.push(':');
    render_value(&fields[i].1, out);
    if i + 1 < fields.len() {
        out.push(',');
        render_members(fields, i + 1, out);
        proof {
            assert(((old(out)@ + spec_json_str_lit(fields@[i as int].0@)).push(':') + spec_render(
                fields@[i as int].1,
            )).push(',') + spec_render_members(*fields, i + 1 as int) =~= old(out)@
                + spec_render_members(*fields, i as int));
        }
    } else {
        proof {
            assert((old(out)@ + spec_json_str_lit(fields@[i as int].0@)).push(':') + spec_render(
                fields@[i as int].1,
            ) =~= old(out)@ + spec_render_members(*fields, i as int));
        }
    }
}

/// Renders any JSON value to its canonical text: no whitespace, members in
/// wire order, strings escaped as [`spec_esc`] lays down.
pub fn render_json(j: &Json) -> (r: String)
    ensures
        r@ == spec_render(*j),
{
    let mut out: Vec<char> = Vec::new();
    render_value(j, &mut out);
    proof {
        assert(Seq::<char>::empty() + spec_render(*j) =~= spec_render(*j));
    }
    chars_to_string(&out)
}

/// The decimal notation of `n` is all digits and reads back as `n`.
pub proof fn lemma_dec_str_val(n: nat)
    ensures
        spec_is_dec_digits(spec_dec_str(n)),
        spec_dec_val(spec_dec_str(n)) == n,
    decreases n,
{
    if n < 10 {
        assert(spec_dec_str(n).drop_last() =~= Seq::<char>::empty());
        assert(spec_dec_str(n).last() == spec_digit(n));
        assert(spec_dec_val(Seq::<char>::empty()) == 0);
        assert(spec_dec_val(spec_dec_str(n)) == spec_digit_val(spec_digit(n)));
        assert(spec_digit_val(spec_digit(n)) == n);
    } else {
        lemma_dec_str_val(n / 10);
        assert(spec_dec_str(n) == spec_dec_str(n / 10) + seq![spec_digit(n % 10)]);
        assert(spec_dec_str(n).drop_last() =~= spec_dec_str(n / 10));
        assert(spec_dec_str(n).last() == spec_digit(n % 10));
    }
}

/// A digit string's value only grows as more digits follow.
proof fn lemma_dec_val_prefix(s: Seq<char>, i: int)
    requires
        0 <= i <= s.len(),
    ensures
        spec_dec_val(s) >= spec_dec_val(s.subrange(0, i)),
    decreases s.len() - i,
{
    if i == s.len() {
        assert(s.subrange(0, i) =~= s);
    } else {
        lemma_dec_val_prefix(s, i + 1);
        assert(s.subrange(0, i + 1).drop_last() =~= s.subrange(0, i));
    }
}

/// Reads the value of a digit string: `Ok` exactly when the characters are
/// one or more decimal digits whose value fits in a `u32`.
pub fn dec_val_u32(v: &Vec<char>) -> (r: Result<u32, ()>)
    ensures
        r matches Ok(x) ==> spec_is_dec_digits(v@) && spec_dec_val(v@) == x,
        r is Err <==> !(spec_is_dec_digits(v@) && spec_dec_val(v@) <= u32::MAX),
{
    if v.len() == 0 {
        return Err(());
    }
    let mut acc: u64 = 0;
    let mut i: usize = 0;
    proof {
        assert(v@.subrange(0, 0) =~= Seq::<char>::empty());
    }
    while i < v.len()
        invariant
            i <= v@.len(),
            acc <= u32::MAX,
            acc == spec_dec_val(v@.subrange(0, i as int)),
            forall|k: int| 0 <= k < i ==> spec_is_digit(v@[k]),
        decreases v@.len() - i,
    {
        let c = v[i];
        if !is_digit(c) {
            return Err(());
        }
        let d: u64 = (c as u64) - ('0' as u64);
        acc = acc * 10 + d;
        proof {
            assert(v@.subrange(0, i + 1 as int).drop_last() =~= v@.subrange(0, i as int));
        }
        if acc > 0xFFFF_FFFF {
            proof {
                lemma_dec_val_prefix(v@, i + 1);
            }
            return Err(());
        }
        i = i + 1;
    }
    proof {
        assert(v@.subrange(0, v@.len() as int) =~= v@);
    }
    Ok(acc as u32)
}

/// Turns a code point into a character.
///
/// Relies on `char::from_u32`: it returns `Some` exactly for values below
/// 0x110000 that are not surrogates, and the character has that value. The
/// character it builds for `v` is named [`spec_char_of`], which the parser's
/// specification speaks of.
#[verifier::external_body]
fn char_from_u32(v: u32) -> (r: Option<char>)
    ensures
        r matches Some(c) ==> c as u32 == v && c == spec_char_of(v),
        (v < 0xD800 || (0xE000 <= v && v < 0x110000)) <==> r is Some,
{
    char::from_u32(v)
}

} // verus!
