//! The object-dump grammar, written out as spec functions over the input's
//! `Seq<char>` view.
//!
//! Each function mirrors one grammar rule: it takes the input and a start
//! position and returns `Some((end, value))` when the rule matches there,
//! `None` when it does not.  The executable parsers are verified to return
//! exactly what these functions say.
//!
//! The ordered choice in `spec_prop_value` is load-bearing: a bare `None`
//! must become an object reference, a 32-hex-digit run an identifier, and a
//! fractional number must be tried before a plain integer.  Reordering the
//! alternatives changes which value shape wins on ambiguous tokens.

use vstd::prelude::*;

use crate::parser::ast::{
    SpecCustomProp, SpecCustomPropValue, SpecDouble, SpecLinkedTo, SpecObject, SpecObjectElement,
    SpecObjectEnd, SpecObjectHeader, SpecProp, SpecPropValue,
};
use crate::parser::scan::{
    digit_val, digits_val, hexes_val, is_alnum_char, is_hex_char, spec_end_alnum, spec_end_digits,
    spec_end_key, spec_end_line, spec_find_space, spec_skip_space, spec_skip_ws, spec_tag,
};

verus! {

// ---------------------------------------------------------------------------
// Literal rules
// ---------------------------------------------------------------------------

/// A line terminator: a line feed, or a carriage return followed by one.
pub open spec fn spec_line_ending(s: Seq<char>, p: int) -> Option<int> {
    if 0 <= p < s.len() && s[p] == '\n' {
        Some(p + 1)
    } else if 0 <= p && p + 1 < s.len() && s[p] == '\r' && s[p + 1] == '\n' {
        Some(p + 2)
    } else {
        None
    }
}

/// The characters of a string literal after the opening quote, up to and
/// including the closing quote.  Backslash escapes `\\ \" \' \n \t \r` are
/// decoded; any other escape, or running out of input, is a failure.
pub open spec fn spec_string_body(s: Seq<char>, p: int) -> Option<(int, Seq<char>)>
    decreases s.len() - p,
{
    if 0 <= p < s.len() {
        let c = s[p];
        if c == '"' {
            Some((p + 1, Seq::empty()))
        } else if c == '\\' {
            if p + 1 < s.len() {
                let e = s[p + 1];
                if e == '\\' || e == '"' || e == '\'' || e == 'n' || e == 't' || e == 'r' {
                    let m = if e == 'n' {
                        '\n'
                    } else if e == 't' {
                        '\t'
                    } else if e == 'r' {
                        '\r'
                    } else {
                        e
                    };
                    match spec_string_body(s, p + 2) {
                        Some((q, t)) => Some((q, seq![m] + t)),
                        None => None,
                    }
                } else {
                    None
                }
            } else {
                None
            }
        } else {
            match spec_string_body(s, p + 1) {
                Some((q, t)) => Some((q, seq![c] + t)),
                None => None,
            }
        }
    } else {
        None
    }
}

/// A quote-delimited string literal with the escapes above; `""` is the
/// empty string.
pub open spec fn spec_string_literal(s: Seq<char>, p: int) -> Option<(int, Seq<char>)> {
    if 0 <= p < s.len() && s[p] == '"' {
        spec_string_body(s, p + 1)
    } else {
        None
    }
}

/// The escaped form of one character: the five characters the grammar
/// escapes get their backslash form, every other character stands as
/// itself.
pub open spec fn escape_char(c: char) -> Seq<char> {
    if c == '\\' {
        seq!['\\', '\\']
    } else if c == '"' {
        seq!['\\', '"']
    } else if c == '\n' {
        seq!['\\', 'n']
    } else if c == '\t' {
        seq!['\\', 't']
    } else if c == '\r' {
        seq!['\\', 'r']
    } else {
        seq![c]
    }
}

/// The escaped form of a character sequence.
pub open spec fn escape_body(t: Seq<char>) -> Seq<char>
    decreases t.len(),
{
    if t.len() == 0 {
        Seq::empty()
    } else {
        escape_char(t[0]) + escape_body(t.subrange(1, t.len() as int))
    }
}

/// The quote-delimited escaped form of a character sequence: what the
/// string-literal rule reads back as exactly that sequence.
pub open spec fn escape_string(t: Seq<char>) -> Seq<char> {
    seq!['"'] + escape_body(t) + seq!['"']
}

/// Exactly 32 hex characters, not followed by a 33rd, decoded as a 128-bit
/// identifier.
pub open spec fn spec_uuid_literal(s: Seq<char>, p: int) -> Option<(int, u128)> {
    if 0 <= p && p + 32 <= s.len() && (forall|i: int|
        p <= i < p + 32 ==> is_hex_char(#[trigger] s[i])) && !(p + 32 < s.len() && is_hex_char(
        s[p + 32],
    )) {
        Some((p + 32, hexes_val(s.subrange(p, p + 32)) as u128))
    } else {
        None
    }
}

/// Exactly `True` or `False`, case-sensitive.
pub open spec fn spec_boolean(s: Seq<char>, p: int) -> Option<(int, bool)> {
    match spec_tag(s, p, "True"@) {
        Some(q) => Some((q, true)),
        None => match spec_tag(s, p, "False"@) {
            Some(q) => Some((q, false)),
            None => None,
        },
    }
}

/// An optionally signed run of decimal digits whose value fits a signed
/// 64-bit integer; a value out of range is a failure, not a truncation.
pub open spec fn spec_integer(s: Seq<char>, p: int) -> Option<(int, i64)> {
    if 0 <= p <= s.len() {
        let neg = p < s.len() && s[p] == '-';
        let p1 = if p < s.len() && (s[p] == '-' || s[p] == '+') {
            p + 1
        } else {
            p
        };
        let q = spec_end_digits(s, p1);
        if q > p1 {
            let v = digits_val(s.subrange(p1, q));
            if neg {
                if v <= 0x8000_0000_0000_0000 {
                    Some((q, (-v) as i64))
                } else {
                    None
                }
            } else {
                if v <= 0x7fff_ffff_ffff_ffff {
                    Some((q, v as i64))
                } else {
                    None
                }
            }
        } else {
            None
        }
    } else {
        None
    }
}

/// The numeric values of a run of decimal digit characters.
pub open spec fn frac_digits(t: Seq<char>) -> Seq<u8> {
    Seq::new(t.len(), |i: int| digit_val(t[i]) as u8)
}

/// A signed 64-bit integer part, a dot, and one or more fractional digits.
/// The sign of the whole value is the written sign, so a leading `-` before
/// a zero integer part still makes the value negative.
pub open spec fn spec_double(s: Seq<char>, p: int) -> Option<(int, SpecDouble)> {
    match spec_integer(s, p) {
        None => None,
        Some((p1, n)) => {
            if p1 < s.len() && s[p1] == '.' {
                let q = spec_end_digits(s, p1 + 1);
                if q > p1 + 1 {
                    Some(
                        (
                            q,
                            SpecDouble {
                                negative: 0 <= p < s.len() && s[p] == '-',
                                int_abs: if n < 0 {
                                    -(n as int)
                                } else {
                                    n as int
                                },
                                frac: frac_digits(s.subrange(p1 + 1, q)),
                            },
                        ),
                    )
                } else {
                    None
                }
            } else {
                None
            }
        },
    }
}

/// The separator tolerated between the three texts of a localized-text
/// literal: whitespace, an optional comma, whitespace.
pub open spec fn spec_nsloc_sep(s: Seq<char>, p: int) -> int {
    let q = spec_skip_ws(s, p);
    let q2 = if q < s.len() && s[q] == ',' {
        q + 1
    } else {
        q
    };
    spec_skip_ws(s, q2)
}

/// `NSLOCTEXT(` then three string literals with tolerant separators, closed
/// by `)` with an optional trailing comma.
pub open spec fn spec_nsloc_text(s: Seq<char>, p: int) -> Option<(int, (Seq<char>, Seq<char>, Seq<char>))> {
    match spec_tag(s, p, "NSLOCTEXT("@) {
        None => None,
        Some(p1) => match spec_string_literal(s, p1) {
            None => None,
            Some((a1, t1)) => {
                let b1 = spec_nsloc_sep(s, a1);
                match spec_string_literal(s, b1) {
                    None => None,
                    Some((a2, t2)) => {
                        let b2 = spec_nsloc_sep(s, a2);
                        match spec_string_literal(s, b2) {
                            None => None,
                            Some((a3, t3)) => {
                                let b3 = spec_nsloc_sep(s, a3);
                                if b3 + 1 < s.len() && s[b3] == ',' && s[b3 + 1] == ')' {
                                    Some((b3 + 2, (t1, t2, t3)))
                                } else if b3 < s.len() && s[b3] == ')' {
                                    Some((b3 + 1, (t1, t2, t3)))
                                } else {
                                    None
                                }
                            },
                        }
                    },
                }
            },
        },
    }
}

/// An object reference: the sentinel `None` (standing for the pair
/// `(None, None)`), or `<Class>'"<path>"'`.
pub open spec fn spec_object_ref(s: Seq<char>, p: int) -> Option<(int, (Seq<char>, Seq<char>))> {
    match spec_tag(s, p, "None"@) {
        Some(q) => Some((q, ("None"@, "None"@))),
        None => {
            let q = spec_end_alnum(s, p);
            if 0 <= p && q > p && q < s.len() && s[q] == '\'' {
                match spec_string_literal(s, q + 1) {
                    Some((r, t)) => if r < s.len() && s[r] == '\'' {
                        Some((r + 1, (s.subrange(p, q), t)))
                    } else {
                        None
                    },
                    None => None,
                }
            } else {
                None
            }
        },
    }
}

/// A connection destination: a name running up to the first space, one or
/// more spaces, then a 32-hex identifier.
pub open spec fn spec_linked_object(s: Seq<char>, p: int) -> Option<(int, SpecLinkedTo)> {
    match spec_find_space(s, p) {
        None => None,
        Some(i) => if i > p {
            let j = spec_skip_space(s, i);
            match spec_uuid_literal(s, j) {
                Some((q, u)) => Some((q, SpecLinkedTo { name: s.subrange(p, i), uuid: u })),
                None => None,
            }
        } else {
            None
        },
    }
}

/// The comma-separated run of connection destinations inside a list; stops
/// before the first separator not followed by another destination.
pub open spec fn spec_linkedto_items(s: Seq<char>, p: int) -> (int, Seq<SpecLinkedTo>)
    decreases s.len() - p,
{
    match spec_linked_object(s, p) {
        None => (p, Seq::empty()),
        Some((p1, l)) => {
            let q = spec_skip_ws(s, p1);
            if q < s.len() && s[q] == ',' {
                let p2 = spec_skip_ws(s, q + 1);
                if p < p2 <= s.len() && spec_linked_object(s, p2) is Some {
                    let (r, rest) = spec_linkedto_items(s, p2);
                    (r, seq![l] + rest)
                } else {
                    (p1, seq![l])
                }
            } else {
                (p1, seq![l])
            }
        },
    }
}

/// A parenthesized, comma-separated list of connection destinations with an
/// optional trailing comma; `()` is the empty list.
pub open spec fn spec_linkedto_list(s: Seq<char>, p: int) -> Option<(int, Seq<SpecLinkedTo>)> {
    if 0 <= p && p + 1 < s.len() && s[p] == '(' && s[p + 1] == ')' {
        Some((p + 2, Seq::empty()))
    } else if 0 <= p && p < s.len() && s[p] == '(' {
        let (q, items) = spec_linkedto_items(s, p + 1);
        if q + 1 < s.len() && s[q] == ',' && s[q + 1] == ')' {
            Some((q + 2, items))
        } else if q < s.len() && s[q] == ')' {
            Some((q + 1, items))
        } else {
            None
        }
    } else {
        None
    }
}

// ---------------------------------------------------------------------------
// The value dispatcher and the property grammar (mutually recursive)
// ---------------------------------------------------------------------------

/// One property value, decided by ordered choice over the literal shapes:
/// boolean, identifier, string, localized text, object reference, fraction,
/// integer, key/value list, destination list.  The first match wins.
pub open spec fn spec_prop_value(s: Seq<char>, p: int) -> Option<(int, SpecPropValue)>
    decreases s.len() - p, 3int,
{
    match spec_boolean(s, p) {
        Some((q, b)) => Some((q, SpecPropValue::Boolean(b))),
        None => match spec_uuid_literal(s, p) {
            Some((q, u)) => Some((q, SpecPropValue::Uuid(u))),
            None => match spec_string_literal(s, p) {
                Some((q, t)) => Some((q, SpecPropValue::String(t))),
                None => match spec_nsloc_text(s, p) {
                    Some((q, t)) => Some((q, SpecPropValue::NslocText(t.0, t.1, t.2))),
                    None => match spec_object_ref(s, p) {
                        Some((q, t)) => Some((q, SpecPropValue::ObjectReference(t.0, t.1))),
                        None => match spec_double(s, p) {
                            Some((q, d)) => Some((q, SpecPropValue::Double(d))),
                            None => match spec_integer(s, p) {
                                Some((q, n)) => Some((q, SpecPropValue::Integer(n))),
                                None => match spec_kv_list(s, p) {
                                    Some((q, ps)) => Some((q, SpecPropValue::PropList(ps))),
                                    None => match spec_linkedto_list(s, p) {
                                        Some((q, ls)) => Some(
                                            (q, SpecPropValue::LinkedToList(ls)),
                                        ),
                                        None => None,
                                    },
                                },
                            },
                        },
                    },
                },
            },
        },
    }
}

/// A parenthesized, comma-separated list of properties with an optional
/// trailing comma; `()` is the empty list.
pub open spec fn spec_kv_list(s: Seq<char>, p: int) -> Option<(int, Seq<SpecProp>)>
    decreases s.len() - p, 2int,
{
    if 0 <= p && p + 1 < s.len() && s[p] == '(' && s[p + 1] == ')' {
        Some((p + 2, Seq::empty()))
    } else if 0 <= p && p < s.len() && s[p] == '(' {
        let (q, items) = spec_kv_items(s, p + 1);
        if q + 1 < s.len() && s[q] == ',' && s[q + 1] == ')' {
            Some((q + 2, items))
        } else if q < s.len() && s[q] == ')' {
            Some((q + 1, items))
        } else {
            None
        }
    } else {
        None
    }
}

/// The comma-separated run of properties inside a list; stops before the
/// first separator not followed by another property.
pub open spec fn spec_kv_items(s: Seq<char>, p: int) -> (int, Seq<SpecProp>)
    decreases s.len() - p, 1int,
{
    match spec_prop_kv(s, p) {
        None => (p, Seq::empty()),
        Some((p1, v)) => {
            let q = spec_skip_ws(s, p1);
            if q < s.len() && s[q] == ',' {
                let p2 = spec_skip_ws(s, q + 1);
                if p < p2 <= s.len() && spec_prop_kv(s, p2) is Some {
                    let (r, rest) = spec_kv_items(s, p2);
                    (r, seq![v] + rest)
                } else {
                    (p1, seq![v])
                }
            } else {
                (p1, seq![v])
            }
        },
    }
}

/// One `key=value` property: leading whitespace, a nonempty key running up
/// to whitespace or `=`, the `=`, then one value.
pub open spec fn spec_prop_kv(s: Seq<char>, p: int) -> Option<(int, SpecProp)>
    decreases s.len() - p, 0int,
{
    let k0 = spec_skip_ws(s, p);
    let k1 = spec_end_key(s, k0);
    if k1 > k0 {
        let e = spec_skip_ws(s, k1);
        if 0 <= e && e < s.len() && s[e] == '=' {
            let v0 = spec_skip_ws(s, e + 1);
            if p < v0 <= s.len() {
                match spec_prop_value(s, v0) {
                    Some((q, v)) => Some((q, SpecProp { key: s.subrange(k0, k1), value: v })),
                    None => None,
                }
            } else {
                None
            }
        } else {
            None
        }
    } else {
        None
    }
}

// ---------------------------------------------------------------------------
// Custom properties
// ---------------------------------------------------------------------------

/// `CustomProperties <Domain> (...)`: the rest of the line is parsed as a
/// key/value list.  Only the domain `Pin` is recognized.
pub open spec fn spec_custom_props(s: Seq<char>, p: int) -> Option<(int, SpecCustomProp)> {
    match spec_tag(s, p, "CustomProperties"@) {
        None => None,
        Some(p1) => {
            let q = spec_skip_space(s, p1);
            if q > p1 {
                let d = spec_end_alnum(s, q);
                if d > q {
                    let q2 = spec_skip_space(s, d);
                    if q2 > d {
                        let r = spec_end_line(s, q2);
                        if r > q2 {
                            if s.subrange(q, d) == "Pin"@ {
                                match spec_kv_list(s.subrange(q2, r), 0) {
                                    Some((_junk, items)) => Some(
                                        (
                                            r,
                                            SpecCustomProp {
                                                domain: s.subrange(q, d),
                                                value: SpecCustomPropValue::Pin(items),
                                            },
                                        ),
                                    ),
                                    None => None,
                                }
                            } else {
                                None
                            }
                        } else {
                            None
                        }
                    } else {
                        None
                    }
                } else {
                    None
                }
            } else {
                None
            }
        },
    }
}

// ---------------------------------------------------------------------------
// Object envelope
// ---------------------------------------------------------------------------

/// One element of an object body: a property line or a custom-property line.
pub open spec fn spec_element(s: Seq<char>, p: int) -> Option<(int, SpecObjectElement)> {
    match spec_prop_kv(s, p) {
        Some((q, pr)) => Some((q, SpecObjectElement::Prop(pr))),
        None => match spec_custom_props(s, p) {
            Some((q, c)) => Some((q, SpecObjectElement::CustomProp(c))),
            None => None,
        },
    }
}

/// The elements of an object body, each with surrounding whitespace; stops
/// at the first position where no element matches, consuming nothing of the
/// failed attempt.
pub open spec fn spec_content_items(s: Seq<char>, p: int) -> (int, Seq<SpecObjectElement>)
    decreases s.len() - p,
{
    let q = spec_skip_ws(s, p);
    match spec_element(s, q) {
        None => (p, Seq::empty()),
        Some((q2, e)) => {
            let p2 = spec_skip_ws(s, q2);
            if p < p2 <= s.len() {
                let (r, rest) = spec_content_items(s, p2);
                (r, seq![e] + rest)
            } else {
                (p2, seq![e])
            }
        },
    }
}

/// One header token: `Class=` takes everything up to the next space
/// verbatim; otherwise an ordinary `key=value` property.
pub open spec fn spec_header_item(s: Seq<char>, p: int) -> Option<(int, SpecProp)> {
    match spec_tag(s, p, "Class="@) {
        Some(q) => match spec_find_space(s, q) {
            Some(i) => if i > q {
                Some(
                    (
                        i,
                        SpecProp {
                            key: "Class"@,
                            value: SpecPropValue::String(s.subrange(q, i)),
                        },
                    ),
                )
            } else {
                spec_prop_kv(s, p)
            },
            None => spec_prop_kv(s, p),
        },
        None => spec_prop_kv(s, p),
    }
}

/// Header tokens separated by single spaces; stops before the first
/// separator not followed by another token.
pub open spec fn spec_header_items(s: Seq<char>, p: int) -> (int, Seq<SpecProp>)
    decreases s.len() - p,
{
    match spec_header_item(s, p) {
        None => (p, Seq::empty()),
        Some((p1, v)) => {
            if p1 < s.len() && s[p1] == ' ' {
                let p2 = p1 + 1;
                if p < p2 <= s.len() && spec_header_item(s, p2) is Some {
                    let (q, rest) = spec_header_items(s, p2);
                    (q, seq![v] + rest)
                } else {
                    (p1, seq![v])
                }
            } else {
                (p1, seq![v])
            }
        },
    }
}

/// `Begin <Type>` with its header tokens, closed by a line terminator.
pub open spec fn spec_object_begin(s: Seq<char>, p: int) -> Option<(int, SpecObjectHeader)> {
    match spec_tag(s, p, "Begin "@) {
        None => None,
        Some(p1) => {
            let q = spec_end_alnum(s, p1);
            if q > p1 {
                let q2 = spec_skip_space(s, q);
                let (q3, props) = spec_header_items(s, q2);
                match spec_line_ending(s, q3) {
                    Some(q4) => Some(
                        (
                            q4,
                            SpecObjectHeader {
                                object_type: s.subrange(p1, q),
                                header_props: props,
                            },
                        ),
                    ),
                    None => None,
                }
            } else {
                None
            }
        },
    }
}

/// `End <Type>` closed by a line terminator or the end of the input.
pub open spec fn spec_object_end(s: Seq<char>, p: int) -> Option<(int, SpecObjectEnd)> {
    match spec_tag(s, p, "End "@) {
        None => None,
        Some(p1) => {
            let q = spec_end_alnum(s, p1);
            if q > p1 {
                match spec_line_ending(s, q) {
                    Some(q2) => Some((q2, SpecObjectEnd { object_type: s.subrange(p1, q) })),
                    None => if q == s.len() {
                        Some((q, SpecObjectEnd { object_type: s.subrange(p1, q) }))
                    } else {
                        None
                    },
                }
            } else {
                None
            }
        },
    }
}

/// A whole object block: header, body elements, and the closing `End` line.
/// The identifier after `End` is read but deliberately not compared to the
/// opening type: the envelope fails only when the closing keyword or its
/// identifier is absent or malformed, so a well-formed closing line with a
/// different identifier still closes the block and a mismatch error never
/// arises.
pub open spec fn spec_object(s: Seq<char>, p: int) -> Option<(int, SpecObject)> {
    match spec_object_begin(s, p) {
        None => None,
        Some((p1, h)) => {
            let (p2, elems) = spec_content_items(s, p1);
            match spec_object_end(s, p2) {
                Some((p3, _e)) => Some((p3, SpecObject { header: h, elements: elems })),
                None => None,
            }
        },
    }
}

/// The run of back-to-back object blocks starting at `p`.
pub open spec fn spec_objects_items(s: Seq<char>, p: int) -> (int, Seq<SpecObject>)
    decreases s.len() - p,
{
    match spec_object(s, p) {
        None => (p, Seq::empty()),
        Some((p1, o)) => {
            if p < p1 <= s.len() {
                let (q, rest) = spec_objects_items(s, p1);
                (q, seq![o] + rest)
            } else {
                (p1, seq![o])
            }
        },
    }
}

/// The document rule: one or more back-to-back object blocks.
pub open spec fn spec_objects(s: Seq<char>, p: int) -> Option<(int, Seq<SpecObject>)> {
    let (q, list) = spec_objects_items(s, p);
    if list.len() == 0 {
        None
    } else {
        Some((q, list))
    }
}

} // verus!
