//! Executable parsers for the atomic literal shapes, each verified against
//! its rule in the grammar.
//!
//! A parser takes the input characters and a start position and, on a
//! match, returns the position just past the consumed text together with
//! the decoded value.

use vstd::prelude::*;

use crate::parser::ast::{
    lemma_view_linkeds_push, lemma_view_props_push, view_linked, view_linkeds, view_props,
    DoubleLit, LinkedTo, ParseError, ParseResult, Prop, SpecLinkedTo, SpecProp, Uuid,
};
use crate::parser::grammar::{
    frac_digits, spec_boolean, spec_double, spec_integer, spec_kv_items, spec_kv_list,
    spec_linked_object, spec_linkedto_items, spec_linkedto_list, spec_nsloc_sep, spec_nsloc_text,
    spec_object_ref, spec_string_body, spec_string_literal, spec_uuid_literal,
};
use crate::parser::prop::prop_kv;
use crate::parser::scan::{
    digit_value, digits_val, end_alnum, end_digits, find_space, hex_char, hex_value, hexes_val,
    is_digit_char, is_hex_char, lemma_digits_val_prefix_le, lemma_end_digits_chars,
    lemma_hexes_val_bound, lemma_pow16_32, lemma_pow16_mono, pow16, skip_space, skip_ws,
    string_from_chars, substring, tag_at,
};

verus! {

/// A parser of string literals.
#[verifier::loop_isolation(false)]
pub fn string_literal(s: &Vec<char>, pos: usize) -> (r: ParseResult<String>)
    requires
        pos <= s@.len(),
    ensures
        match r {
            Ok((q, v)) => spec_string_literal(s@, pos as int) == Some((q as int, v@)) && pos < q
                <= s@.len(),
            Err(_) => spec_string_literal(s@, pos as int) is None,
        },
{
    if pos >= s.len() || s[pos] != '"' {
        return Err(ParseError::at("string literal"));
    }
    let mut cur: usize = pos + 1;
    let mut out: Vec<char> = Vec::new();
    proof {
        match spec_string_body(s@, cur as int) {
            Some((q, t)) => {
                assert(out@ + t =~= t);
            },
            None => {},
        }
    }
    loop
        invariant
            pos < cur <= s@.len(),
            pos < s@.len() && s@[pos as int] == '"',
            spec_string_literal(s@, pos as int) == (match spec_string_body(s@, cur as int) {
                Some((q, t)) => Some((q, out@ + t)),
                None => None,
            }),
        decreases s@.len() - cur,
    {
        if cur >= s.len() {
            return Err(ParseError::at("string literal"));
        }
        let c = s[cur];
        if c == '"' {
            let v = string_from_chars(&out);
            proof {
                assert(out@ + Seq::<char>::empty() =~= out@);
            }
            return Ok((cur + 1, v));
        } else if c == '\\' {
            if cur + 1 >= s.len() {
                return Err(ParseError::at("string literal"));
            }
            let e = s[cur + 1];
            let m: char;
            if e == 'n' {
                m = '\n';
            } else if e == 't' {
                m = '\t';
            } else if e == 'r' {
                m = '\r';
            } else if e == '\\' || e == '"' || e == '\'' {
                m = e;
            } else {
                return Err(ParseError::at("string literal"));
            }
            let ghost oldout = out@;
            out.push(m);
            proof {
                match spec_string_body(s@, cur + 2) {
                    Some((q, t)) => {
                        assert(oldout + (seq![m] + t) =~= out@ + t);
                    },
                    None => {},
                }
            }
            cur = cur + 2;
        } else {
            let ghost oldout = out@;
            out.push(c);
            proof {
                match spec_string_body(s@, cur + 1) {
                    Some((q, t)) => {
                        assert(oldout + (seq![c] + t) =~= out@ + t);
                    },
                    None => {},
                }
            }
            cur = cur + 1;
        }
    }
}

/// A parser of identifier literals: exactly 32 hex characters, not
/// followed by a 33rd.
#[verifier::loop_isolation(false)]
pub fn uuid_literal(s: &Vec<char>, pos: usize) -> (r: ParseResult<Uuid>)
    requires
        pos <= s@.len(),
    ensures
        match r {
            Ok((q, v)) => spec_uuid_literal(s@, pos as int) == Some((q as int, v@)) && pos < q
                <= s@.len(),
            Err(_) => spec_uuid_literal(s@, pos as int) is None,
        },
{
    if s.len() - pos < 32 {
        return Err(ParseError::at("identifier literal"));
    }
    let mut i: usize = 0;
    let mut acc: u128 = 0;
    proof {
        assert(s@.subrange(pos as int, pos as int) =~= Seq::<char>::empty());
    }
    while i < 32
        invariant
            0 <= i <= 32,
            pos + 32 <= s@.len(),
            forall|j: int| pos <= j < pos + i ==> is_hex_char(#[trigger] s@[j]),
            acc as int == hexes_val(s@.subrange(pos as int, pos + i)),
            (acc as int) < pow16(i as nat),
        decreases 32 - i,
    {
        let c = s[pos + i];
        if !hex_char(c) {
            return Err(ParseError::at("identifier literal"));
        }
        let d = hex_value(c);
        proof {
            lemma_pow16_mono((i + 1) as nat, 32);
            lemma_pow16_32();
            assert(acc * 16 + d < pow16((i + 1) as nat));
        }
        acc = acc * 16 + (d as u128);
        i = i + 1;
        proof {
            let sub = s@.subrange(pos as int, pos + i);
            assert(sub.subrange(0, sub.len() - 1) =~= s@.subrange(pos as int, pos + i - 1));
            assert(sub[sub.len() - 1] == s@[pos + i - 1]);
        }
    }
    if pos + 32 < s.len() && hex_char(s[pos + 32]) {
        return Err(ParseError::at("identifier literal"));
    }
    proof {
        lemma_hexes_val_bound(s@.subrange(pos as int, pos + 32));
    }
    Ok((pos + 32, Uuid { value: acc }))
}

impl Uuid {
    /// Re-encodes the identifier as the 32 lowercase hex characters that
    /// denote it.
    #[verifier::loop_isolation(false)]
    pub fn encode_hex(&self) -> (r: String)
        ensures
            r@ == crate::parser::scan::uuid_hex(self.value),
    {
        let ghost full = crate::parser::scan::uuid_hex(self.value);
        let mut v: u128 = self.value;
        let mut tmp: Vec<char> = Vec::new();
        let mut i: usize = 0;
        proof {
            crate::parser::scan::lemma_uuid_hex_rec_len(v as int, 32);
            assert(full.subrange(0, 32) =~= full);
        }
        while i < 32
            invariant
                0 <= i <= 32,
                full.len() == 32,
                crate::parser::scan::uuid_hex_rec(v as int, (32 - i) as nat) == full.subrange(
                    0,
                    32 - i,
                ),
                tmp@.len() == i,
                forall|j: int| 0 <= j < i ==> #[trigger] tmp@[j] == full[31 - j],
            decreases 32 - i,
        {
            let d = (v % 16) as u8;
            tmp.push(crate::parser::scan::hex_char_of(d));
            proof {
                let n = 32 - i;
                let prefix = full.subrange(0, n);
                assert(prefix == crate::parser::scan::uuid_hex_rec(v as int, n as nat));
                assert(crate::parser::scan::uuid_hex_rec(v as int, n as nat)
                    == crate::parser::scan::uuid_hex_rec((v as int) / 16, (n - 1) as nat).push(
                    crate::parser::scan::char_of_hex((v as int) % 16),
                ));
                assert(prefix.subrange(0, n - 1) =~= full.subrange(0, n - 1));
                assert(crate::parser::scan::uuid_hex_rec((v as int) / 16, (n - 1) as nat)
                    =~= full.subrange(0, n - 1));
                assert(full[n - 1] == crate::parser::scan::char_of_hex((v as int) % 16));
            }
            v = v / 16;
            i = i + 1;
        }
        let mut out: Vec<char> = Vec::new();
        let mut k: usize = 0;
        while k < 32
            invariant
                0 <= k <= 32,
                full.len() == 32,
                tmp@.len() == 32,
                forall|j: int| 0 <= j < 32 ==> #[trigger] tmp@[j] == full[31 - j],
                out@.len() == k,
                forall|j: int| 0 <= j < k ==> #[trigger] out@[j] == full[j],
            decreases 32 - k,
        {
            out.push(tmp[31 - k]);
            k = k + 1;
        }
        proof {
            assert(out@ =~= full);
        }
        crate::parser::scan::string_from_chars(&out)
    }
}

/// A parser of boolean literals: exactly `True` or `False`.
pub fn boolean(s: &Vec<char>, pos: usize) -> (r: ParseResult<bool>)
    requires
        pos <= s@.len(),
    ensures
        match r {
            Ok((q, v)) => spec_boolean(s@, pos as int) == Some((q as int, v)) && pos <= q
                <= s@.len(),
            Err(_) => spec_boolean(s@, pos as int) is None,
        },
{
    match tag_at(s, pos, "True") {
        Some(q) => Ok((q, true)),
        None => match tag_at(s, pos, "False") {
            Some(q) => Ok((q, false)),
            None => Err(ParseError::at("boolean")),
        },
    }
}

/// A parser of optionally signed 64-bit integers; a digit run whose value
/// does not fit is a failure.
#[verifier::loop_isolation(false)]
pub fn integer(s: &Vec<char>, pos: usize) -> (r: ParseResult<i64>)
    requires
        pos <= s@.len(),
    ensures
        match r {
            Ok((q, v)) => spec_integer(s@, pos as int) == Some((q as int, v)) && pos < q
                <= s@.len(),
            Err(_) => spec_integer(s@, pos as int) is None,
        },
{
    let mut p1 = pos;
    let mut neg = false;
    if pos < s.len() && (s[pos] == '-' || s[pos] == '+') {
        neg = s[pos] == '-';
        p1 = pos + 1;
    }
    let q = end_digits(s, p1);
    if q == p1 {
        return Err(ParseError::at("integer"));
    }
    proof {
        lemma_end_digits_chars(s@, p1 as int);
    }
    let ghost digits = s@.subrange(p1 as int, q as int);
    let mut i = p1;
    let mut acc: u128 = 0;
    proof {
        assert(s@.subrange(p1 as int, p1 as int) =~= Seq::<char>::empty());
    }
    while i < q
        invariant
            pos <= p1 < q <= s@.len(),
            p1 <= i <= q,
            q as int == crate::parser::scan::spec_end_digits(s@, p1 as int),
            forall|j: int| p1 <= j < q ==> is_digit_char(#[trigger] s@[j]),
            digits == s@.subrange(p1 as int, q as int),
            acc as int == digits_val(s@.subrange(p1 as int, i as int)),
            acc <= 0x8000_0000_0000_0000u128,
        decreases q - i,
    {
        let d = digit_value(s[i]);
        acc = acc * 10 + (d as u128);
        i = i + 1;
        proof {
            let sub = s@.subrange(p1 as int, i as int);
            assert(sub.subrange(0, sub.len() - 1) =~= s@.subrange(p1 as int, i - 1));
            assert(sub[sub.len() - 1] == s@[i - 1]);
        }
        if acc > 0x8000_0000_0000_0000u128 {
            proof {
                lemma_digits_val_prefix_le(digits, i - p1);
                assert(digits.subrange(0, i - p1) =~= s@.subrange(p1 as int, i as int));
            }
            return Err(ParseError::at("integer"));
        }
    }
    proof {
        assert(s@.subrange(p1 as int, i as int) =~= digits);
    }
    if neg {
        let v: i64 = if acc == 0x8000_0000_0000_0000u128 {
            i64::MIN
        } else {
            -(acc as i64)
        };
        Ok((q, v))
    } else {
        if acc > 0x7fff_ffff_ffff_ffffu128 {
            return Err(ParseError::at("integer"));
        }
        Ok((q, acc as i64))
    }
}

/// A parser for fractional literals: a signed integer part, a dot, and one
/// or more fractional digits, kept exactly as read.
#[verifier::loop_isolation(false)]
pub fn double(s: &Vec<char>, pos: usize) -> (r: ParseResult<DoubleLit>)
    requires
        pos <= s@.len(),
    ensures
        match r {
            Ok((q, v)) => spec_double(s@, pos as int) == Some((q as int, v@)) && pos < q
                <= s@.len(),
            Err(_) => spec_double(s@, pos as int) is None,
        },
{
    let (p1, n) = match integer(s, pos) {
        Ok(x) => x,
        Err(e) => {
            return Err(e.within("double"));
        },
    };
    if p1 >= s.len() || s[p1] != '.' {
        return Err(ParseError::at("double"));
    }
    let q = end_digits(s, p1 + 1);
    if q == p1 + 1 {
        return Err(ParseError::at("double"));
    }
    proof {
        lemma_end_digits_chars(s@, p1 + 1);
    }
    let mut frac: Vec<u8> = Vec::new();
    let mut i = p1 + 1;
    while i < q
        invariant
            p1 + 1 <= i <= q <= s@.len(),
            forall|j: int| p1 + 1 <= j < q ==> is_digit_char(#[trigger] s@[j]),
            frac@.len() == i - (p1 + 1),
            forall|j: int|
                0 <= j < frac@.len() ==> #[trigger] frac@[j] as int == crate::parser::scan::digit_val(
                    s@[p1 + 1 + j],
                ),
        decreases q - i,
    {
        frac.push(digit_value(s[i]));
        i = i + 1;
    }
    proof {
        assert(frac@ =~= frac_digits(s@.subrange(p1 + 1, q as int)));
    }
    let negative = pos < s.len() && s[pos] == '-';
    let int_abs: u64 = if n == i64::MIN {
        0x8000_0000_0000_0000u64
    } else if n < 0 {
        (-n) as u64
    } else {
        n as u64
    };
    Ok((q, DoubleLit { negative, int_abs, frac }))
}

/// The separator tolerated between the texts of a localized-text literal.
fn nsloc_sep(s: &Vec<char>, pos: usize) -> (r: usize)
    requires
        pos <= s@.len(),
    ensures
        r as int == spec_nsloc_sep(s@, pos as int),
        pos <= r <= s@.len(),
{
    let q = skip_ws(s, pos);
    let q2 = if q < s.len() && s[q] == ',' {
        q + 1
    } else {
        q
    };
    skip_ws(s, q2)
}

/// A parser for localized-text literals: `NSLOCTEXT(` and three string
/// literals, closed by `)` with an optional trailing comma.
pub fn nsloc_text_literal(s: &Vec<char>, pos: usize) -> (r: ParseResult<(String, String, String)>)
    requires
        pos <= s@.len(),
    ensures
        match r {
            Ok((q, v)) => spec_nsloc_text(s@, pos as int) == Some(
                (q as int, (v.0@, v.1@, v.2@)),
            ) && pos < q <= s@.len(),
            Err(_) => spec_nsloc_text(s@, pos as int) is None,
        },
{
    let p1 = match tag_at(s, pos, "NSLOCTEXT(") {
        Some(q) => q,
        None => {
            return Err(ParseError::at("localized text"));
        },
    };
    let (a1, t1) = match string_literal(s, p1) {
        Ok(x) => x,
        Err(e) => {
            return Err(e.within("localized text"));
        },
    };
    let b1 = nsloc_sep(s, a1);
    let (a2, t2) = match string_literal(s, b1) {
        Ok(x) => x,
        Err(e) => {
            return Err(e.within("localized text"));
        },
    };
    let b2 = nsloc_sep(s, a2);
    let (a3, t3) = match string_literal(s, b2) {
        Ok(x) => x,
        Err(e) => {
            return Err(e.within("localized text"));
        },
    };
    let b3 = nsloc_sep(s, a3);
    if b3 < s.len() && s[b3] == ',' && b3 + 1 < s.len() && s[b3 + 1] == ')' {
        Ok((b3 + 2, (t1, t2, t3)))
    } else if b3 < s.len() && s[b3] == ')' {
        Ok((b3 + 1, (t1, t2, t3)))
    } else {
        Err(ParseError::at("localized text"))
    }
}

/// An object reference literal parser: the sentinel `None`, or
/// `<Class>'"<path>"'`.
pub fn object_literal(s: &Vec<char>, pos: usize) -> (r: ParseResult<(String, String)>)
    requires
        pos <= s@.len(),
    ensures
        match r {
            Ok((q, v)) => spec_object_ref(s@, pos as int) == Some((q as int, (v.0@, v.1@))) && pos
                <= q <= s@.len(),
            Err(_) => spec_object_ref(s@, pos as int) is None,
        },
{
    match tag_at(s, pos, "None") {
        Some(q) => {
            return Ok((q, (String::from_str("None"), String::from_str("None"))));
        },
        None => {},
    }
    let q = end_alnum(s, pos);
    if q == pos || q >= s.len() || s[q] != '\'' {
        return Err(ParseError::at("object reference"));
    }
    match string_literal(s, q + 1) {
        Ok((r2, t)) => {
            if r2 < s.len() && s[r2] == '\'' {
                Ok((r2 + 1, (substring(s, pos, q), t)))
            } else {
                Err(ParseError::at("object reference"))
            }
        },
        Err(e) => Err(e.within("object reference")),
    }
}

/// A parser of literals representing the node's connection destination:
/// a name, spaces, and a 32-hex identifier.
pub fn linked_object_literal(s: &Vec<char>, pos: usize) -> (r: ParseResult<LinkedTo>)
    requires
        pos <= s@.len(),
    ensures
        match r {
            Ok((q, v)) => spec_linked_object(s@, pos as int) == Some((q as int, v@)) && pos < q
                <= s@.len(),
            Err(_) => spec_linked_object(s@, pos as int) is None,
        },
{
    let i = match find_space(s, pos) {
        Some(i) => i,
        None => {
            return Err(ParseError::at("linked object"));
        },
    };
    if i == pos {
        return Err(ParseError::at("linked object"));
    }
    let j = skip_space(s, i);
    match uuid_literal(s, j) {
        Ok((q, u)) => Ok((q, LinkedTo { name: substring(s, pos, i), uuid: u })),
        Err(e) => Err(e.within("linked object")),
    }
}

/// A parser for lists of `linked_object_literal`, parenthesized and
/// comma-separated, with an optional trailing comma; `()` is empty.
pub fn linkedto_list_literal(s: &Vec<char>, pos: usize) -> (r: ParseResult<Vec<LinkedTo>>)
    requires
        pos <= s@.len(),
    ensures
        match r {
            Ok((q, v)) => spec_linkedto_list(s@, pos as int) == Some(
                (q as int, view_linkeds(v@)),
            ) && pos < q <= s@.len(),
            Err(_) => spec_linkedto_list(s@, pos as int) is None,
        },
{
    if pos < s.len() && s[pos] == '(' && pos + 1 < s.len() && s[pos + 1] == ')' {
        let out: Vec<LinkedTo> = Vec::new();
        return Ok((pos + 2, out));
    }
    if pos >= s.len() || s[pos] != '(' {
        return Err(ParseError::at("linked list"));
    }
    let mut cur: usize = pos + 1;
    let mut items: Vec<LinkedTo> = Vec::new();
    let mut endq: usize = cur;
    proof {
        assert(view_linkeds(items@) + spec_linkedto_items(s@, cur as int).1 =~= spec_linkedto_items(
            s@,
            cur as int,
        ).1);
    }
    loop
        invariant_except_break
            pos < s@.len() && s@[pos as int] == '(',
            pos + 1 <= cur <= s@.len(),
            spec_linkedto_items(s@, pos + 1).0 == spec_linkedto_items(s@, cur as int).0,
            spec_linkedto_items(s@, pos + 1).1 == view_linkeds(items@) + spec_linkedto_items(
                s@,
                cur as int,
            ).1,
        ensures
            pos < s@.len() && s@[pos as int] == '(',
            pos + 1 <= endq <= s@.len(),
            spec_linkedto_items(s@, pos + 1) == (endq as int, view_linkeds(items@)),
        decreases s@.len() - cur,
    {
        match linked_object_literal(s, cur) {
            Err(_) => {
                endq = cur;
                proof {
                    assert(view_linkeds(items@) + Seq::<SpecLinkedTo>::empty() =~= view_linkeds(
                        items@,
                    ));
                }
                break ;
            },
            Ok((p1, l)) => {
                let q = skip_ws(s, p1);
                let mut advanced = false;
                let mut p2: usize = p1;
                if q < s.len() && s[q] == ',' {
                    p2 = skip_ws(s, q + 1);
                    match linked_object_literal(s, p2) {
                        Ok(_) => {
                            advanced = true;
                        },
                        Err(_) => {},
                    }
                }
                let ghost olditems = items@;
                let ghost gl = l;
                items.push(l);
                proof {
                    lemma_view_linkeds_push(olditems, gl);
                }
                if advanced {
                    proof {
                        let rest = spec_linkedto_items(s@, p2 as int).1;
                        assert(view_linkeds(olditems) + (seq![view_linked(gl)] + rest)
                            =~= view_linkeds(items@) + rest);
                    }
                    cur = p2;
                } else {
                    endq = p1;
                    proof {
                        assert(view_linkeds(olditems) + seq![view_linked(gl)] =~= view_linkeds(
                            items@,
                        ));
                    }
                    break ;
                }
            },
        }
    }
    if endq < s.len() && s[endq] == ',' && endq + 1 < s.len() && s[endq + 1] == ')' {
        Ok((endq + 2, items))
    } else if endq < s.len() && s[endq] == ')' {
        Ok((endq + 1, items))
    } else {
        Err(ParseError::at("linked list"))
    }
}

/// A parser of literals that represent a list of key/value properties,
/// parenthesized and comma-separated, with an optional trailing comma;
/// `()` is empty.
pub fn kv_list_literal(s: &Vec<char>, pos: usize) -> (r: ParseResult<Vec<Prop>>)
    requires
        pos <= s@.len(),
    ensures
        match r {
            Ok((q, v)) => spec_kv_list(s@, pos as int) == Some((q as int, view_props(v@))) && pos
                < q <= s@.len(),
            Err(_) => spec_kv_list(s@, pos as int) is None,
        },
    decreases s@.len() - pos, 2int,
{
    if pos < s.len() && s[pos] == '(' && pos + 1 < s.len() && s[pos + 1] == ')' {
        let out: Vec<Prop> = Vec::new();
        return Ok((pos + 2, out));
    }
    if pos >= s.len() || s[pos] != '(' {
        return Err(ParseError::at("kv list"));
    }
    let mut cur: usize = pos + 1;
    let mut items: Vec<Prop> = Vec::new();
    let mut endq: usize = cur;
    proof {
        assert(view_props(items@) + spec_kv_items(s@, cur as int).1 =~= spec_kv_items(
            s@,
            cur as int,
        ).1);
    }
    loop
        invariant_except_break
            pos < s@.len() && s@[pos as int] == '(',
            pos + 1 <= cur <= s@.len(),
            spec_kv_items(s@, pos + 1).0 == spec_kv_items(s@, cur as int).0,
            spec_kv_items(s@, pos + 1).1 == view_props(items@) + spec_kv_items(
                s@,
                cur as int,
            ).1,
        ensures
            pos < s@.len() && s@[pos as int] == '(',
            pos + 1 <= endq <= s@.len(),
            spec_kv_items(s@, pos + 1) == (endq as int, view_props(items@)),
        decreases s@.len() - cur,
    {
        match prop_kv(s, cur) {
            Err(_) => {
                endq = cur;
                proof {
                    assert(view_props(items@) + Seq::<SpecProp>::empty() =~= view_props(items@));
                }
                break ;
            },
            Ok((p1, v)) => {
                let q = skip_ws(s, p1);
                let mut advanced = false;
                let mut p2: usize = p1;
                if q < s.len() && s[q] == ',' {
                    p2 = skip_ws(s, q + 1);
                    match prop_kv(s, p2) {
                        Ok(_) => {
                            advanced = true;
                        },
                        Err(_) => {},
                    }
                }
                let ghost olditems = items@;
                let ghost gv = v;
                let ghost vv = v@;
                items.push(v);
                proof {
                    lemma_view_props_push(olditems, gv);
                }
                if advanced {
                    proof {
                        let rest = spec_kv_items(s@, p2 as int).1;
                        assert(view_props(olditems) + (seq![vv] + rest) =~= view_props(items@)
                            + rest);
                    }
                    cur = p2;
                } else {
                    endq = p1;
                    proof {
                        assert(view_props(olditems) + seq![vv] =~= view_props(items@));
                    }
                    break ;
                }
            },
        }
    }
    if endq < s.len() && s[endq] == ',' && endq + 1 < s.len() && s[endq + 1] == ')' {
        Ok((endq + 2, items))
    } else if endq < s.len() && s[endq] == ')' {
        Ok((endq + 1, items))
    } else {
        Err(ParseError::at("kv list"))
    }
}

} // verus!
