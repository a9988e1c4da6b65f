//! General properties of the grammar, stated and proved against the spec
//! functions that the executable parsers are verified against.

use vstd::prelude::*;

use vstd::arithmetic::div_mod::lemma_fundamental_div_mod;

use crate::parser::ast::{SpecObject, SpecProp, SpecPropValue};
use crate::parser::grammar::{
    escape_body, escape_char, escape_string, spec_boolean, spec_kv_items, spec_kv_list,
    spec_nsloc_text, spec_object, spec_object_ref, spec_objects, spec_objects_items,
    spec_prop_value, spec_string_body, spec_string_literal, spec_uuid_literal,
};
use crate::parser::scan::{
    char_of_hex, hex_val, hexes_val, is_hex_char, lemma_hexes_val_bound, lemma_pow16_32,
    lemma_uuid_hex_rec_len, pow16, spec_tag, uuid_hex, uuid_hex_rec,
};

verus! {

/// Decoding a hex character that was produced for a value below 16 gives
/// that value back.
proof fn lemma_hex_char_round_trip(d: int)
    requires
        0 <= d < 16,
    ensures
        is_hex_char(char_of_hex(d)),
        hex_val(char_of_hex(d)) == d,
{
}

/// The hex text of a value below `16^n` has length `n`, holds only hex
/// characters, and decodes back to the value.
proof fn lemma_uuid_hex_rec_val(u: int, n: nat)
    requires
        0 <= u < pow16(n),
    ensures
        uuid_hex_rec(u, n).len() == n,
        forall|j: int| 0 <= j < n ==> is_hex_char(#[trigger] uuid_hex_rec(u, n)[j]),
        hexes_val(uuid_hex_rec(u, n)) == u,
    decreases n,
{
    lemma_uuid_hex_rec_len(u, n);
    if n > 0 {
        let m = (n - 1) as nat;
        assert(pow16(n) == 16 * pow16(m));
        assert(0 <= u / 16 < pow16(m)) by (nonlinear_arith)
            requires
                0 <= u < 16 * pow16(m),
        ;
        lemma_uuid_hex_rec_val(u / 16, m);
        let rec = uuid_hex_rec(u, n);
        let prev = uuid_hex_rec(u / 16, m);
        let c = char_of_hex(u % 16);
        assert(rec == prev.push(c));
        assert(rec.subrange(0, rec.len() - 1) =~= prev);
        assert(rec[rec.len() - 1] == c);
        lemma_hex_char_round_trip(u % 16);
        lemma_fundamental_div_mod(u, 16);
        assert(hexes_val(rec) == hexes_val(prev) * 16 + hex_val(c));
        assert(forall|j: int| 0 <= j < n - 1 ==> #[trigger] rec[j] == prev[j]);
    }
}

/// Identifier literals round-trip: on any input that carries exactly 32
/// hex characters at `p`, not followed by a 33rd, the identifier rule
/// succeeds, and re-encoding the decoded value gives a 32-character hex
/// text that the same rule decodes back to the very value.
pub proof fn lemma_uuid_literal_round_trip(s: Seq<char>, p: int)
    requires
        0 <= p,
        p + 32 <= s.len(),
        forall|i: int| p <= i < p + 32 ==> is_hex_char(#[trigger] s[i]),
        !(p + 32 < s.len() && is_hex_char(s[p + 32])),
    ensures
        spec_uuid_literal(s, p) is Some,
        (spec_uuid_literal(s, p)->0).0 == p + 32,
        ({
            let u = (spec_uuid_literal(s, p)->0).1;
            uuid_hex(u).len() == 32 && spec_uuid_literal(uuid_hex(u), 0) == Some((32int, u))
        }),
{
    let sub = s.subrange(p, p + 32);
    lemma_hexes_val_bound(sub);
    lemma_pow16_32();
    let u = (spec_uuid_literal(s, p)->0).1;
    assert(u as int == hexes_val(sub));
    let enc = uuid_hex(u);
    lemma_uuid_hex_rec_val(u as int, 32);
    assert(enc.subrange(0, 32) =~= enc);
    assert(spec_uuid_literal(enc, 0) == Some((32int, hexes_val(enc.subrange(0, 32)) as u128)));
    assert(hexes_val(enc.subrange(0, 32)) == u as int);
}

/// Pointwise reading of a subrange equality.
proof fn lemma_subrange_index(s: Seq<char>, p: int, t: Seq<char>, i: int)
    requires
        0 <= p,
        p + t.len() <= s.len(),
        s.subrange(p, p + t.len() as int) == t,
        0 <= i < t.len(),
    ensures
        s[p + i] == t[i],
{
    assert(s.subrange(p, p + t.len() as int)[i] == s[p + i]);
}

/// String escaping round-trips through the string-literal rule: decoding
/// the escaped text of any character sequence, at any position where the
/// input carries it, returns exactly that sequence.
proof fn lemma_escape_body_round_trip(t: Seq<char>, s: Seq<char>, p: int)
    requires
        0 <= p,
        p + escape_body(t).len() + 1 <= s.len(),
        s.subrange(p, p + escape_body(t).len() + 1) == escape_body(t).push('"'),
    ensures
        spec_string_body(s, p) == Some((p + escape_body(t).len() + 1, t)),
    decreases t.len(),
{
    let eb = escape_body(t);
    let full = eb.push('"');
    assert(full.len() == eb.len() + 1);
    assert(s.subrange(p, p + full.len() as int) == full);
    if t.len() == 0 {
        lemma_subrange_index(s, p, full, 0);
        assert(s[p] == '"');
    } else {
        let c = t[0];
        let rest = t.subrange(1, t.len() as int);
        let ec = escape_char(c);
        let ebr = escape_body(rest);
        assert(eb == ec + ebr);
        let k = ec.len() as int;
        assert(1 <= k <= 2);
        assert forall|i: int|
            0 <= i < ebr.len() + 1 implies s.subrange(p + k, p + k + ebr.len() + 1)[i]
            == ebr.push('"')[i] by {
            lemma_subrange_index(s, p, full, k + i);
            if k + i < eb.len() {
                assert(full[k + i] == eb[k + i]);
                assert(eb[k + i] == ebr[i]);
            } else {
                assert(full[k + i] == '"');
            }
            assert(s.subrange(p + k, p + k + ebr.len() + 1)[i] == s[p + k + i]);
        }
        assert(s.subrange(p + k, p + k + ebr.len() + 1) =~= ebr.push('"'));
        assert(s.subrange(p + k, p + k + escape_body(rest).len() + 1) == escape_body(rest).push(
            '"',
        ));
        lemma_escape_body_round_trip(rest, s, p + k);
        assert(spec_string_body(s, p + k) == Some((p + k + ebr.len() + 1, rest)));
        lemma_subrange_index(s, p, full, 0);
        assert(s[p] == full[0]);
        assert(full[0] == eb[0]);
        assert(eb[0] == ec[0]);
        if c == '\\' || c == '"' || c == '\n' || c == '\t' || c == '\r' {
            assert(k == 2);
            lemma_subrange_index(s, p, full, 1);
            assert(full[1] == eb[1]);
            assert(eb[1] == ec[1]);
            assert(s[p] == '\\');
            assert(spec_string_body(s, p) == Some((p + k + ebr.len() + 1, seq![c] + rest)));
        } else {
            assert(k == 1);
            assert(s[p] == c);
            assert(c != '"' && c != '\\');
            assert(spec_string_body(s, p) == Some((p + k + ebr.len() + 1, seq![c] + rest)));
        }
        assert(seq![c] + rest =~= t);
        assert(p + k + ebr.len() + 1 == p + eb.len() + 1);
    }
}

/// Escaping is inverted by the string-literal rule: for every character
/// sequence, parsing its escaped, quote-delimited form succeeds, consumes
/// all of it, and returns the original sequence.
pub proof fn lemma_string_escape_round_trip(t: Seq<char>)
    ensures
        spec_string_literal(escape_string(t), 0) == Some((escape_string(t).len() as int, t)),
{
    let s = escape_string(t);
    let eb = escape_body(t);
    assert(s.len() == eb.len() + 2);
    assert(s[0] == '"');
    assert(s.subrange(1, 1 + eb.len() as int + 1) =~= eb.push('"')) by {
        assert(forall|i: int| 0 <= i < eb.len() ==> #[trigger] s[1 + i] == eb[i]);
        assert(s[1 + eb.len() as int] == '"');
    }
    lemma_escape_body_round_trip(t, s, 1);
}

/// The empty pair of parentheses is the empty key/value list.
pub proof fn lemma_kv_list_empty(s: Seq<char>, p: int)
    requires
        0 <= p,
        p + 1 < s.len(),
        s[p] == '(',
        s[p + 1] == ')',
    ensures
        spec_kv_list(s, p) == Some((p + 2, Seq::<SpecProp>::empty())),
{
}

/// A trailing comma before the closing parenthesis does not change a
/// nonempty key/value list: whichever of the two closers stands where the
/// item run ends, the list succeeds with exactly the items of that run.
pub proof fn lemma_kv_list_trailing_comma(s: Seq<char>, p: int, q: int, items: Seq<SpecProp>)
    requires
        0 <= p < s.len(),
        s[p] == '(',
        !(p + 1 < s.len() && s[p + 1] == ')'),
        spec_kv_items(s, p + 1) == (q, items),
        items.len() > 0,
    ensures
        (q + 1 < s.len() && s[q] == ',' && s[q + 1] == ')') ==> spec_kv_list(s, p) == Some(
            (q + 2, items),
        ),
        (q < s.len() && s[q] == ')') ==> spec_kv_list(s, p) == Some((q + 1, items)),
{
}

/// Two back-to-back well-formed blocks are exactly two document entries,
/// in source order: where one block parse ends, the next entry begins, and
/// the document holds their objects as its first and second entry and
/// nothing more.
pub proof fn lemma_two_blocks_parse_in_source_order(
    s: Seq<char>,
    p1: int,
    p2: int,
    o1: SpecObject,
    o2: SpecObject,
)
    requires
        spec_object(s, 0) == Some((p1, o1)),
        0 < p1 <= s.len(),
        spec_object(s, p1) == Some((p2, o2)),
        p1 < p2 <= s.len(),
        spec_object(s, p2) is None,
    ensures
        spec_objects(s, 0) == Some((p2, seq![o1, o2])),
{
    assert(spec_objects_items(s, p2) == (p2, Seq::<SpecObject>::empty()));
    assert(spec_objects_items(s, p1) == (p2, seq![o2] + Seq::<SpecObject>::empty()));
    assert(spec_objects_items(s, 0) == (p2, seq![o1] + (seq![o2] + Seq::<SpecObject>::empty())));
    assert(seq![o1] + (seq![o2] + Seq::<SpecObject>::empty()) =~= seq![o1, o2]);
}

/// The token `None` always parses as the object-reference sentinel
/// `("None", "None")`, never as a string or any other value shape,
/// wherever it stands.
pub proof fn lemma_none_parses_as_object_reference(s: Seq<char>, p: int)
    requires
        spec_tag(s, p, "None"@) is Some,
    ensures
        spec_prop_value(s, p) == Some(
            (p + 4, SpecPropValue::ObjectReference("None"@, "None"@)),
        ),
{
    reveal_strlit("None");
    reveal_strlit("True");
    reveal_strlit("False");
    reveal_strlit("NSLOCTEXT(");
    assert(s.subrange(p, p + 4) == "None"@);
    assert(s[p] == 'N' && s[p + 1] == 'o') by {
        assert(s.subrange(p, p + 4)[0] == s[p]);
        assert(s.subrange(p, p + 4)[1] == s[p + 1]);
    }
    assert(spec_boolean(s, p) is None) by {
        if spec_tag(s, p, "True"@) is Some {
            assert(s.subrange(p, p + 4)[0] == s[p]);
            assert("True"@[0] == 'T');
        }
        if spec_tag(s, p, "False"@) is Some {
            assert(s.subrange(p, p + 5)[0] == s[p]);
        }
    }
    assert(spec_uuid_literal(s, p) is None) by {
        assert(!is_hex_char('N'));
    }
    assert(spec_string_literal(s, p) is None);
    assert(spec_nsloc_text(s, p) is None) by {
        if spec_tag(s, p, "NSLOCTEXT("@) is Some {
            assert(s.subrange(p, p + 10)[1] == s[p + 1]);
            assert("NSLOCTEXT("@[1] == 'S');
        }
    }
    assert(spec_object_ref(s, p) == Some((p + 4, ("None"@, "None"@))));
}

} // verus!
