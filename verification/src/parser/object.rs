//! The object envelope and document grammar: `Begin ... / End ...` blocks
//! and the flat sequence of blocks that makes a document.

use vstd::prelude::*;

use crate::parser::ast::{
    lemma_view_elements_push, lemma_view_objects_push, lemma_view_props_push, view_elements,
    view_objects, view_props, Object, ObjectElement, ObjectEnd, ObjectHeader, Objects, ParseError,
    ParseResult, Prop, PropValue, SpecObject, SpecObjectElement, SpecProp,
};
use crate::parser::grammar::{
    spec_content_items, spec_element, spec_header_item, spec_header_items, spec_line_ending,
    spec_object, spec_object_begin, spec_object_end, spec_objects, spec_objects_items,
};
use crate::parser::prop::{prop_custom_props, prop_kv};
use crate::parser::scan::{end_alnum, find_space, skip_space, skip_ws, substring, tag_at};

verus! {

/// A line terminator: a line feed, or a carriage return followed by one.
fn line_ending(s: &Vec<char>, pos: usize) -> (r: Option<usize>)
    requires
        pos <= s@.len(),
    ensures
        match r {
            Some(q) => spec_line_ending(s@, pos as int) == Some(q as int) && pos < q <= s@.len(),
            None => spec_line_ending(s@, pos as int) is None,
        },
{
    if pos < s.len() && s[pos] == '\n' {
        Some(pos + 1)
    } else if pos < s.len() && s[pos] == '\r' && pos + 1 < s.len() && s[pos + 1] == '\n' {
        Some(pos + 2)
    } else {
        None
    }
}

/// One header token: `Class=` takes everything up to the next space
/// verbatim; otherwise an ordinary `key=value` property.
fn header_item(s: &Vec<char>, pos: usize) -> (r: ParseResult<Prop>)
    requires
        pos <= s@.len(),
    ensures
        match r {
            Ok((q, v)) => spec_header_item(s@, pos as int) == Some((q as int, v@)) && pos < q
                <= s@.len(),
            Err(_) => spec_header_item(s@, pos as int) is None,
        },
{
    match tag_at(s, pos, "Class=") {
        Some(q) => {
            match find_space(s, q) {
                Some(i) => {
                    if i > q {
                        let key = String::from_str("Class");
                        let val = substring(s, q, i);
                        return Ok((i, Prop { key, value: PropValue::String(val) }));
                    }
                },
                None => {},
            }
        },
        None => {},
    }
    match prop_kv(s, pos) {
        Ok(x) => Ok(x),
        Err(e) => Err(e.within("object header")),
    }
}

/// A parser of the opening line of a block: `Begin <Type>` and its header
/// tokens, closed by a line terminator.
pub fn object_begin(s: &Vec<char>, pos: usize) -> (r: ParseResult<ObjectHeader>)
    requires
        pos <= s@.len(),
    ensures
        match r {
            Ok((q, v)) => spec_object_begin(s@, pos as int) == Some((q as int, v@)) && pos < q
                <= s@.len(),
            Err(_) => spec_object_begin(s@, pos as int) is None,
        },
{
    let p1 = match tag_at(s, pos, "Begin ") {
        Some(q) => q,
        None => {
            return Err(ParseError::at("object begin"));
        },
    };
    let q = end_alnum(s, p1);
    if q == p1 {
        return Err(ParseError::at("object begin"));
    }
    let q2 = skip_space(s, q);
    let mut cur: usize = q2;
    let mut items: Vec<Prop> = Vec::new();
    let mut endq: usize = cur;
    proof {
        assert(view_props(items@) + spec_header_items(s@, cur as int).1 =~= spec_header_items(
            s@,
            cur as int,
        ).1);
    }
    loop
        invariant_except_break
            q2 <= cur <= s@.len(),
            spec_header_items(s@, q2 as int).0 == spec_header_items(s@, cur as int).0,
            spec_header_items(s@, q2 as int).1 == view_props(items@) + spec_header_items(
                s@,
                cur as int,
            ).1,
        ensures
            q2 <= endq <= s@.len(),
            spec_header_items(s@, q2 as int) == (endq as int, view_props(items@)),
        decreases s@.len() - cur,
    {
        match header_item(s, cur) {
            Err(_) => {
                endq = cur;
                proof {
                    assert(view_props(items@) + Seq::<SpecProp>::empty() =~= view_props(items@));
                }
                break ;
            },
            Ok((p1i, v)) => {
                let mut advanced = false;
                let mut p2: usize = p1i;
                if p1i < s.len() && s[p1i] == ' ' {
                    p2 = p1i + 1;
                    match header_item(s, p2) {
                        Ok(_) => {
                            advanced = true;
                        },
                        Err(_) => {},
                    }
                }
                let ghost olditems = items@;
                let ghost gv = v;
                items.push(v);
                proof {
                    lemma_view_props_push(olditems, gv);
                }
                if advanced {
                    proof {
                        let rest = spec_header_items(s@, p2 as int).1;
                        assert(view_props(olditems) + (seq![gv@] + rest) =~= view_props(items@)
                            + rest);
                    }
                    cur = p2;
                } else {
                    endq = p1i;
                    proof {
                        assert(view_props(olditems) + seq![gv@] =~= view_props(items@));
                    }
                    break ;
                }
            },
        }
    }
    match line_ending(s, endq) {
        Some(q4) => Ok(
            (q4, ObjectHeader { object_type: substring(s, p1, q), header_props: items }),
        ),
        None => Err(ParseError::at("object begin")),
    }
}

/// One element of an object body: a property line or a custom-property
/// line.
fn object_element(s: &Vec<char>, pos: usize) -> (r: ParseResult<ObjectElement>)
    requires
        pos <= s@.len(),
    ensures
        match r {
            Ok((q, v)) => spec_element(s@, pos as int) == Some((q as int, v@)) && pos < q
                <= s@.len(),
            Err(_) => spec_element(s@, pos as int) is None,
        },
{
    match prop_kv(s, pos) {
        Ok((q, p)) => {
            return Ok((q, ObjectElement::Prop(p)));
        },
        Err(_) => {},
    }
    match prop_custom_props(s, pos) {
        Ok((q, c)) => Ok((q, ObjectElement::CustomProp(c))),
        Err(e) => Err(e),
    }
}

/// A parser of an object body: property and custom-property lines with
/// surrounding whitespace, up to the first line that is neither.  It never
/// fails; an unrecognized line simply ends the body.
pub fn object_content(s: &Vec<char>, pos: usize) -> (r: ParseResult<Vec<ObjectElement>>)
    requires
        pos <= s@.len(),
    ensures
        match r {
            Ok((q, v)) => spec_content_items(s@, pos as int) == (
                q as int,
                view_elements(v@),
            ) && pos <= q <= s@.len(),
            Err(_) => false,
        },
{
    let mut cur: usize = pos;
    let mut items: Vec<ObjectElement> = Vec::new();
    let mut endq: usize = cur;
    proof {
        assert(view_elements(items@) + spec_content_items(s@, cur as int).1 =~= spec_content_items(
            s@,
            cur as int,
        ).1);
    }
    loop
        invariant_except_break
            pos <= cur <= s@.len(),
            spec_content_items(s@, pos as int).0 == spec_content_items(s@, cur as int).0,
            spec_content_items(s@, pos as int).1 == view_elements(items@) + spec_content_items(
                s@,
                cur as int,
            ).1,
        ensures
            pos <= endq <= s@.len(),
            spec_content_items(s@, pos as int) == (endq as int, view_elements(items@)),
        decreases s@.len() - cur,
    {
        let q = skip_ws(s, cur);
        match object_element(s, q) {
            Err(_) => {
                endq = cur;
                proof {
                    assert(view_elements(items@) + Seq::<SpecObjectElement>::empty()
                        =~= view_elements(items@));
                }
                break ;
            },
            Ok((q2, e)) => {
                let p2 = skip_ws(s, q2);
                let ghost olditems = items@;
                let ghost ge = e;
                items.push(e);
                proof {
                    lemma_view_elements_push(olditems, ge);
                    let rest = spec_content_items(s@, p2 as int).1;
                    assert(view_elements(olditems) + (seq![ge@] + rest) =~= view_elements(items@)
                        + rest);
                }
                cur = p2;
            },
        }
    }
    Ok((endq, items))
}

/// A parser of the closing line of a block: `End <Type>` and a line
/// terminator or the end of the input.
pub fn object_end(s: &Vec<char>, pos: usize) -> (r: ParseResult<ObjectEnd>)
    requires
        pos <= s@.len(),
    ensures
        match r {
            Ok((q, v)) => spec_object_end(s@, pos as int) == Some((q as int, v@)) && pos < q
                <= s@.len(),
            Err(_) => spec_object_end(s@, pos as int) is None,
        },
{
    let p1 = match tag_at(s, pos, "End ") {
        Some(q) => q,
        None => {
            return Err(ParseError::at("object end"));
        },
    };
    let q = end_alnum(s, p1);
    if q == p1 {
        return Err(ParseError::at("object end"));
    }
    match line_ending(s, q) {
        Some(q2) => Ok((q2, ObjectEnd { object_type: substring(s, p1, q) })),
        None => {
            if q == s.len() {
                Ok((q, ObjectEnd { object_type: substring(s, p1, q) }))
            } else {
                Err(ParseError::at("object end"))
            }
        },
    }
}

/// A parser of one whole object block: the opening line, the body, and the
/// closing line.  The closing line's identifier is read but deliberately
/// not compared to the opening type; see the grammar rule.
pub fn object(s: &Vec<char>, pos: usize) -> (r: ParseResult<Object>)
    requires
        pos <= s@.len(),
    ensures
        match r {
            Ok((q, v)) => spec_object(s@, pos as int) == Some((q as int, v@)) && pos < q
                <= s@.len(),
            Err(_) => spec_object(s@, pos as int) is None,
        },
{
    let (p1, header) = match object_begin(s, pos) {
        Ok(x) => x,
        Err(e) => {
            return Err(e.within("object"));
        },
    };
    let (p2, elements) = match object_content(s, p1) {
        Ok(x) => x,
        Err(e) => {
            return Err(e);
        },
    };
    match object_end(s, p2) {
        Ok((p3, _end)) => Ok((p3, Object { header, elements })),
        Err(e) => Err(e.within("object")),
    }
}

/// The document parser: one or more back-to-back object blocks, in source
/// order.
pub fn objects(s: &Vec<char>, pos: usize) -> (r: ParseResult<Objects>)
    requires
        pos <= s@.len(),
    ensures
        match r {
            Ok((q, v)) => spec_objects(s@, pos as int) == Some((q as int, v@)) && pos < q
                <= s@.len(),
            Err(_) => spec_objects(s@, pos as int) is None,
        },
{
    let mut cur: usize = pos;
    let mut items: Vec<Object> = Vec::new();
    let mut endq: usize = cur;
    proof {
        assert(view_objects(items@) + spec_objects_items(s@, cur as int).1 =~= spec_objects_items(
            s@,
            cur as int,
        ).1);
    }
    loop
        invariant_except_break
            pos <= cur <= s@.len(),
            items@.len() > 0 ==> pos < cur,
            spec_objects_items(s@, pos as int).0 == spec_objects_items(s@, cur as int).0,
            spec_objects_items(s@, pos as int).1 == view_objects(items@) + spec_objects_items(
                s@,
                cur as int,
            ).1,
        ensures
            pos <= endq <= s@.len(),
            items@.len() > 0 ==> pos < endq,
            spec_objects_items(s@, pos as int) == (endq as int, view_objects(items@)),
        decreases s@.len() - cur,
    {
        match object(s, cur) {
            Err(_) => {
                endq = cur;
                proof {
                    assert(view_objects(items@) + Seq::<SpecObject>::empty() =~= view_objects(
                        items@,
                    ));
                }
                break ;
            },
            Ok((p1, o)) => {
                let ghost olditems = items@;
                let ghost go = o;
                items.push(o);
                proof {
                    lemma_view_objects_push(olditems, go);
                    let rest = spec_objects_items(s@, p1 as int).1;
                    assert(view_objects(olditems) + (seq![go@] + rest) =~= view_objects(items@)
                        + rest);
                }
                cur = p1;
            },
        }
    }
    if items.len() == 0 {
        Err(ParseError::at("document"))
    } else {
        Ok((endq, Objects(items)))
    }
}

} // verus!
