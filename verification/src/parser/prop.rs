//! The property grammar: the ordered-choice value dispatcher, `key=value`
//! lines, and domain-tagged custom-property lines.

use vstd::prelude::*;

use crate::parser::ast::{
    CustomProp, CustomPropValue, ParseError, ParseResult, Prop, PropValue,
};
use crate::parser::grammar::{
    spec_custom_props, spec_kv_list, spec_prop_kv, spec_prop_value,
};
use crate::parser::literal::{
    boolean, double, integer, kv_list_literal, linkedto_list_literal, nsloc_text_literal,
    object_literal, string_literal, uuid_literal,
};
use crate::parser::scan::{end_alnum, end_key, end_line, skip_space, skip_ws, substring, tag_at};

verus! {

/// One property value, decided by ordered choice over the literal shapes.
/// The order is load-bearing; see the grammar.
pub fn prop_value(s: &Vec<char>, pos: usize) -> (r: ParseResult<PropValue>)
    requires
        pos <= s@.len(),
    ensures
        match r {
            Ok((q, v)) => spec_prop_value(s@, pos as int) == Some((q as int, v@)) && pos <= q
                <= s@.len(),
            Err(_) => spec_prop_value(s@, pos as int) is None,
        },
    decreases s@.len() - pos, 3int,
{
    match boolean(s, pos) {
        Ok((q, b)) => {
            return Ok((q, PropValue::Boolean(b)));
        },
        Err(_) => {},
    }
    match uuid_literal(s, pos) {
        Ok((q, u)) => {
            return Ok((q, PropValue::Uuid(u)));
        },
        Err(_) => {},
    }
    match string_literal(s, pos) {
        Ok((q, t)) => {
            return Ok((q, PropValue::String(t)));
        },
        Err(_) => {},
    }
    match nsloc_text_literal(s, pos) {
        Ok((q, t)) => {
            return Ok((q, PropValue::NslocText(t.0, t.1, t.2)));
        },
        Err(_) => {},
    }
    match object_literal(s, pos) {
        Ok((q, t)) => {
            return Ok((q, PropValue::ObjectReference(t.0, t.1)));
        },
        Err(_) => {},
    }
    match double(s, pos) {
        Ok((q, d)) => {
            return Ok((q, PropValue::Double(d)));
        },
        Err(_) => {},
    }
    match integer(s, pos) {
        Ok((q, n)) => {
            return Ok((q, PropValue::Integer(n)));
        },
        Err(_) => {},
    }
    match kv_list_literal(s, pos) {
        Ok((q, ps)) => {
            return Ok((q, PropValue::PropList(ps)));
        },
        Err(_) => {},
    }
    match linkedto_list_literal(s, pos) {
        Ok((q, ls)) => {
            return Ok((q, PropValue::LinkedToList(ls)));
        },
        Err(_) => {},
    }
    Err(ParseError::at("property value"))
}

/// One `key=value` property: leading whitespace, a nonempty key running up
/// to whitespace or `=`, the `=`, then one value.
pub fn prop_kv(s: &Vec<char>, pos: usize) -> (r: ParseResult<Prop>)
    requires
        pos <= s@.len(),
    ensures
        match r {
            Ok((q, v)) => spec_prop_kv(s@, pos as int) == Some((q as int, v@)) && pos < q
                <= s@.len(),
            Err(_) => spec_prop_kv(s@, pos as int) is None,
        },
    decreases s@.len() - pos, 0int,
{
    let k0 = skip_ws(s, pos);
    let k1 = end_key(s, k0);
    if k1 == k0 {
        return Err(ParseError::at("property"));
    }
    let e = skip_ws(s, k1);
    if e >= s.len() || s[e] != '=' {
        return Err(ParseError::at("property"));
    }
    let v0 = skip_ws(s, e + 1);
    match prop_value(s, v0) {
        Ok((q, v)) => {
            let key = substring(s, k0, k1);
            Ok((q, Prop { key, value: v }))
        },
        Err(er) => Err(er.within("property")),
    }
}

/// A parser for custom-property lines: `CustomProperties <Domain> (...)`,
/// where the rest of the line is a key/value list.  Only the domain `Pin`
/// is recognized; any other domain is a failure.
pub fn prop_custom_props(s: &Vec<char>, pos: usize) -> (r: ParseResult<CustomProp>)
    requires
        pos <= s@.len(),
    ensures
        match r {
            Ok((q, v)) => spec_custom_props(s@, pos as int) == Some((q as int, v@)) && pos < q
                <= s@.len(),
            Err(_) => spec_custom_props(s@, pos as int) is None,
        },
{
    let p1 = match tag_at(s, pos, "CustomProperties") {
        Some(q) => q,
        None => {
            return Err(ParseError::at("custom properties"));
        },
    };
    let q = skip_space(s, p1);
    if q == p1 {
        return Err(ParseError::at("custom properties"));
    }
    let d = end_alnum(s, q);
    if d == q {
        return Err(ParseError::at("custom properties"));
    }
    let q2 = skip_space(s, d);
    if q2 == d {
        return Err(ParseError::at("custom properties"));
    }
    let r = end_line(s, q2);
    if r == q2 {
        return Err(ParseError::at("custom properties"));
    }
    let pin = match tag_at(s, q, "Pin") {
        Some(e) => e == d,
        None => false,
    };
    if !pin {
        proof {
            assert(s@.subrange(q as int, d as int) != "Pin"@) by {
                if s@.subrange(q as int, d as int) == "Pin"@ {
                    assert("Pin"@.len() == d - q);
                }
            }
        }
        return Err(ParseError::at("unsupported custom-property domain"));
    }
    let line = crate::parser::scan::copy_range(s, q2, r);
    match kv_list_literal(&line, 0) {
        Ok((_consumed, items)) => {
            let domain = substring(s, q, d);
            Ok((r, CustomProp { domain, value: CustomPropValue::Pin(items) }))
        },
        Err(e) => Err(e.within("custom properties")),
    }
}

} // verus!
