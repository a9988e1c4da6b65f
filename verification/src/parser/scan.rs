//! Character classes, low-level text scanning, and the numeric value of
//! digit runs: the shared substrate of all the grammar rules.
//!
//! Every executable scanner is specified against a recursive spec function
//! over the input's `Seq<char>` view.

use vstd::prelude::*;

verus! {

// ---------------------------------------------------------------------------
// Character classes
// ---------------------------------------------------------------------------

/// Whitespace as the grammar skips it between tokens.
pub open spec fn is_ws_char(c: char) -> bool {
    c == ' ' || c == '\t' || c == '\n' || c == '\r'
}

/// Horizontal space: the only whitespace accepted between same-line tokens.
pub open spec fn is_space_char(c: char) -> bool {
    c == ' ' || c == '\t'
}

pub open spec fn is_digit_char(c: char) -> bool {
    48 <= c as int && c as int <= 57
}

pub open spec fn is_hex_char(c: char) -> bool {
    is_digit_char(c) || (65 <= c as int && c as int <= 70) || (97 <= c as int && c as int
        <= 102)
}

/// ASCII alphanumeric, as identifiers in the grammar are made of.
pub open spec fn is_alnum_char(c: char) -> bool {
    is_digit_char(c) || (65 <= c as int && c as int <= 90) || (97 <= c as int && c as int
        <= 122)
}

pub fn ws_char(c: char) -> (r: bool)
    ensures
        r == is_ws_char(c),
{
    c == ' ' || c == '\t' || c == '\n' || c == '\r'
}

pub fn space_char(c: char) -> (r: bool)
    ensures
        r == is_space_char(c),
{
    c == ' ' || c == '\t'
}

pub fn digit_char(c: char) -> (r: bool)
    ensures
        r == is_digit_char(c),
{
    let u = c as u32;
    48 <= u && u <= 57
}

pub fn hex_char(c: char) -> (r: bool)
    ensures
        r == is_hex_char(c),
{
    let u = c as u32;
    (48 <= u && u <= 57) || (65 <= u && u <= 70) || (97 <= u && u <= 102)
}

pub fn alnum_char(c: char) -> (r: bool)
    ensures
        r == is_alnum_char(c),
{
    let u = c as u32;
    (48 <= u && u <= 57) || (65 <= u && u <= 90) || (97 <= u && u <= 122)
}

// ---------------------------------------------------------------------------
// Scanning: positions past runs of a character class
// ---------------------------------------------------------------------------

/// First position at or after `p` that does not hold grammar whitespace.
pub open spec fn spec_skip_ws(s: Seq<char>, p: int) -> int
    decreases s.len() - p,
{
    if 0 <= p < s.len() && is_ws_char(s[p]) {
        spec_skip_ws(s, p + 1)
    } else {
        p
    }
}

/// First position at or after `p` that does not hold horizontal space.
pub open spec fn spec_skip_space(s: Seq<char>, p: int) -> int
    decreases s.len() - p,
{
    if 0 <= p < s.len() && is_space_char(s[p]) {
        spec_skip_space(s, p + 1)
    } else {
        p
    }
}

/// End of the alphanumeric run starting at `p`.
pub open spec fn spec_end_alnum(s: Seq<char>, p: int) -> int
    decreases s.len() - p,
{
    if 0 <= p < s.len() && is_alnum_char(s[p]) {
        spec_end_alnum(s, p + 1)
    } else {
        p
    }
}

/// End of the decimal digit run starting at `p`.
pub open spec fn spec_end_digits(s: Seq<char>, p: int) -> int
    decreases s.len() - p,
{
    if 0 <= p < s.len() && is_digit_char(s[p]) {
        spec_end_digits(s, p + 1)
    } else {
        p
    }
}

/// End of a property key: the first position holding whitespace or `=`.
pub open spec fn spec_end_key(s: Seq<char>, p: int) -> int
    decreases s.len() - p,
{
    if 0 <= p < s.len() && !is_ws_char(s[p]) && s[p] != '=' {
        spec_end_key(s, p + 1)
    } else {
        p
    }
}

/// End of the current line: the first position holding a line feed.
pub open spec fn spec_end_line(s: Seq<char>, p: int) -> int
    decreases s.len() - p,
{
    if 0 <= p < s.len() && s[p] != '\n' {
        spec_end_line(s, p + 1)
    } else {
        p
    }
}

/// Position of the first space character at or after `p`, if any.
pub open spec fn spec_find_space(s: Seq<char>, p: int) -> Option<int>
    decreases s.len() - p,
{
    if 0 <= p < s.len() {
        if s[p] == ' ' {
            Some(p)
        } else {
            spec_find_space(s, p + 1)
        }
    } else {
        None
    }
}

pub fn skip_ws(s: &Vec<char>, pos: usize) -> (r: usize)
    requires
        pos <= s@.len(),
    ensures
        r as int == spec_skip_ws(s@, pos as int),
        pos <= r <= s@.len(),
{
    let mut cur = pos;
    while cur < s.len() && ws_char(s[cur])
        invariant
            pos <= cur <= s@.len(),
            spec_skip_ws(s@, pos as int) == spec_skip_ws(s@, cur as int),
        decreases s@.len() - cur,
    {
        cur = cur + 1;
    }
    cur
}

pub fn skip_space(s: &Vec<char>, pos: usize) -> (r: usize)
    requires
        pos <= s@.len(),
    ensures
        r as int == spec_skip_space(s@, pos as int),
        pos <= r <= s@.len(),
{
    let mut cur = pos;
    while cur < s.len() && space_char(s[cur])
        invariant
            pos <= cur <= s@.len(),
            spec_skip_space(s@, pos as int) == spec_skip_space(s@, cur as int),
        decreases s@.len() - cur,
    {
        cur = cur + 1;
    }
    cur
}

pub fn end_alnum(s: &Vec<char>, pos: usize) -> (r: usize)
    requires
        pos <= s@.len(),
    ensures
        r as int == spec_end_alnum(s@, pos as int),
        pos <= r <= s@.len(),
{
    let mut cur = pos;
    while cur < s.len() && alnum_char(s[cur])
        invariant
            pos <= cur <= s@.len(),
            spec_end_alnum(s@, pos as int) == spec_end_alnum(s@, cur as int),
        decreases s@.len() - cur,
    {
        cur = cur + 1;
    }
    cur
}

pub fn end_digits(s: &Vec<char>, pos: usize) -> (r: usize)
    requires
        pos <= s@.len(),
    ensures
        r as int == spec_end_digits(s@, pos as int),
        pos <= r <= s@.len(),
{
    let mut cur = pos;
    while cur < s.len() && digit_char(s[cur])
        invariant
            pos <= cur <= s@.len(),
            spec_end_digits(s@, pos as int) == spec_end_digits(s@, cur as int),
        decreases s@.len() - cur,
    {
        cur = cur + 1;
    }
    cur
}

pub fn end_key(s: &Vec<char>, pos: usize) -> (r: usize)
    requires
        pos <= s@.len(),
    ensures
        r as int == spec_end_key(s@, pos as int),
        pos <= r <= s@.len(),
{
    let mut cur = pos;
    while cur < s.len() && !ws_char(s[cur]) && s[cur] != '='
        invariant
            pos <= cur <= s@.len(),
            spec_end_key(s@, pos as int) == spec_end_key(s@, cur as int),
        decreases s@.len() - cur,
    {
        cur = cur + 1;
    }
    cur
}

pub fn end_line(s: &Vec<char>, pos: usize) -> (r: usize)
    requires
        pos <= s@.len(),
    ensures
        r as int == spec_end_line(s@, pos as int),
        pos <= r <= s@.len(),
{
    let mut cur = pos;
    while cur < s.len() && s[cur] != '\n'
        invariant
            pos <= cur <= s@.len(),
            spec_end_line(s@, pos as int) == spec_end_line(s@, cur as int),
        decreases s@.len() - cur,
    {
        cur = cur + 1;
    }
    cur
}

pub fn find_space(s: &Vec<char>, pos: usize) -> (r: Option<usize>)
    requires
        pos <= s@.len(),
    ensures
        match r {
            Some(i) => spec_find_space(s@, pos as int) == Some(i as int) && pos <= i < s@.len(),
            None => spec_find_space(s@, pos as int) is None,
        },
{
    let mut cur = pos;
    while cur < s.len() && s[cur] != ' '
        invariant
            pos <= cur <= s@.len(),
            spec_find_space(s@, pos as int) == spec_find_space(s@, cur as int),
        decreases s@.len() - cur,
    {
        cur = cur + 1;
    }
    if cur < s.len() {
        Some(cur)
    } else {
        None
    }
}

// ---------------------------------------------------------------------------
// Fixed text
// ---------------------------------------------------------------------------

/// Position just past the text `t` if the input carries `t` at `p`.
pub open spec fn spec_tag(s: Seq<char>, p: int, t: Seq<char>) -> Option<int> {
    if 0 <= p && p + t.len() <= s.len() && s.subrange(p, p + t.len() as int) == t {
        Some(p + t.len() as int)
    } else {
        None
    }
}

/// Turns a string into the vector of its characters, by walking its
/// character iterator.
pub fn chars_of(s: &str) -> (r: Vec<char>)
    ensures
        r@ == s@,
{
    proof {
        broadcast use vstd::string::group_string_axioms;

    }
    let mut it = s.chars();
    let mut r: Vec<char> = Vec::new();
    loop
        invariant_except_break
            vstd::std_specs::iter::IteratorSpec::obeys_prophetic_iter_laws(&it),
            vstd::std_specs::iter::IteratorSpec::decrease(&it) is Some,
            r@ + vstd::std_specs::iter::IteratorSpec::remaining(&it) == s@,
        ensures
            r@ == s@,
        decreases vstd::std_specs::iter::IteratorSpec::decrease(&it)->0,
    {
        proof {
            broadcast use vstd::string::group_string_axioms;

        }
        let ghost prev = vstd::std_specs::iter::IteratorSpec::remaining(&it);
        match it.next() {
            Some(c) => {
                r.push(c);
                proof {
                    assert(r@ + vstd::std_specs::iter::IteratorSpec::remaining(&it) =~= s@);
                }
            },
            None => {
                proof {
                    assert(prev.len() == 0);
                    assert(r@ =~= s@);
                }
                break ;
            },
        }
    }
    r
}

/// Relies on `String`'s `FromIterator` implementation: collecting the
/// characters of `v`, in order, yields the `String` with exactly those
/// characters.
#[verifier::external_body]
pub fn string_from_chars(v: &Vec<char>) -> (r: String)
    ensures
        r@ == v@,
{
    v.iter().collect()
}

/// Checks whether the input carries the text `t` at `pos`.
pub fn tag_at(s: &Vec<char>, pos: usize, t: &str) -> (r: Option<usize>)
    requires
        pos <= s@.len(),
    ensures
        match r {
            Some(q) => spec_tag(s@, pos as int, t@) == Some(q as int) && pos <= q <= s@.len(),
            None => spec_tag(s@, pos as int, t@) is None,
        },
{
    let tv = chars_of(t);
    let n = tv.len();
    if n > s.len() - pos {
        return None;
    }
    let mut i: usize = 0;
    while i < n
        invariant
            0 <= i <= n,
            n == t@.len(),
            tv@ == t@,
            pos + n <= s@.len(),
            pos + n <= usize::MAX,
            forall|j: int| 0 <= j < i ==> s@[pos + j] == t@[j],
        decreases n - i,
    {
        if s[pos + i] != tv[i] {
            proof {
                let sub = s@.subrange(pos as int, pos + n);
                assert(sub[i as int] == s@[pos + i]);
                assert(sub != t@);
            }
            return None;
        }
        i = i + 1;
    }
    proof {
        assert(s@.subrange(pos as int, pos + n) =~= t@);
    }
    Some(pos + n)
}

// ---------------------------------------------------------------------------
// Numeric value of digit and hex runs
// ---------------------------------------------------------------------------

pub open spec fn digit_val(c: char) -> int {
    c as int - 48
}

/// Value of a run of decimal digits, most significant first.
pub open spec fn digits_val(s: Seq<char>) -> int
    decreases s.len(),
{
    if s.len() == 0 {
        0
    } else {
        digits_val(s.subrange(0, s.len() - 1)) * 10 + digit_val(s[s.len() - 1])
    }
}

pub open spec fn hex_val(c: char) -> int {
    if is_digit_char(c) {
        c as int - 48
    } else if 65 <= c as int && c as int <= 70 {
        c as int - 55
    } else if 97 <= c as int && c as int <= 102 {
        c as int - 87
    } else {
        0
    }
}

/// Value of a run of hex digits, most significant first.
pub open spec fn hexes_val(s: Seq<char>) -> int
    decreases s.len(),
{
    if s.len() == 0 {
        0
    } else {
        hexes_val(s.subrange(0, s.len() - 1)) * 16 + hex_val(s[s.len() - 1])
    }
}

pub open spec fn pow16(n: nat) -> int
    decreases n,
{
    if n == 0 {
        1
    } else {
        16 * pow16((n - 1) as nat)
    }
}

pub fn digit_value(c: char) -> (d: u8)
    requires
        is_digit_char(c),
    ensures
        d as int == digit_val(c),
        d < 10,
{
    let u = c as u32;
    (u - 48) as u8
}

pub fn hex_value(c: char) -> (d: u8)
    requires
        is_hex_char(c),
    ensures
        d as int == hex_val(c),
        d < 16,
{
    let u = c as u32;
    if 48 <= u && u <= 57 {
        (u - 48) as u8
    } else if 65 <= u && u <= 70 {
        (u - 55) as u8
    } else {
        (u - 87) as u8
    }
}

/// The characters between two positions, as a fresh vector.
pub fn copy_range(s: &Vec<char>, a: usize, b: usize) -> (r: Vec<char>)
    requires
        a <= b <= s@.len(),
    ensures
        r@ == s@.subrange(a as int, b as int),
{
    let mut v: Vec<char> = Vec::new();
    let mut i = a;
    while i < b
        invariant
            a <= i <= b <= s@.len(),
            v@ =~= s@.subrange(a as int, i as int),
        decreases b - i,
    {
        v.push(s[i]);
        i = i + 1;
        proof {
            assert(v@ =~= s@.subrange(a as int, i as int));
        }
    }
    proof {
        assert(v@ =~= s@.subrange(a as int, b as int));
    }
    v
}

/// The text between two positions, as a fresh `String`.
pub fn substring(s: &Vec<char>, a: usize, b: usize) -> (r: String)
    requires
        a <= b <= s@.len(),
    ensures
        r@ == s@.subrange(a as int, b as int),
{
    let v = copy_range(s, a, b);
    string_from_chars(&v)
}

/// Every character of a digit run is a digit.
pub proof fn lemma_end_digits_chars(s: Seq<char>, p: int)
    ensures
        forall|j: int| p <= j < spec_end_digits(s, p) ==> is_digit_char(#[trigger] s[j]),
    decreases s.len() - p,
{
    if 0 <= p < s.len() && is_digit_char(s[p]) {
        lemma_end_digits_chars(s, p + 1);
    }
}

/// The lowercase hex character for a value below 16.
pub open spec fn char_of_hex(d: int) -> char {
    if d == 0 {
        '0'
    } else if d == 1 {
        '1'
    } else if d == 2 {
        '2'
    } else if d == 3 {
        '3'
    } else if d == 4 {
        '4'
    } else if d == 5 {
        '5'
    } else if d == 6 {
        '6'
    } else if d == 7 {
        '7'
    } else if d == 8 {
        '8'
    } else if d == 9 {
        '9'
    } else if d == 10 {
        'a'
    } else if d == 11 {
        'b'
    } else if d == 12 {
        'c'
    } else if d == 13 {
        'd'
    } else if d == 14 {
        'e'
    } else if d == 15 {
        'f'
    } else {
        '0'
    }
}

/// The last `n` hex digits of `u`, most significant first.
pub open spec fn uuid_hex_rec(u: int, n: nat) -> Seq<char>
    decreases n,
{
    if n == 0 {
        Seq::empty()
    } else {
        uuid_hex_rec(u / 16, (n - 1) as nat).push(char_of_hex(u % 16))
    }
}

/// The 32 lowercase hex characters that denote a 128-bit identifier.
pub open spec fn uuid_hex(u: u128) -> Seq<char> {
    uuid_hex_rec(u as int, 32)
}

pub proof fn lemma_uuid_hex_rec_len(u: int, n: nat)
    ensures
        uuid_hex_rec(u, n).len() == n,
    decreases n,
{
    if n > 0 {
        lemma_uuid_hex_rec_len(u / 16, (n - 1) as nat);
    }
}

pub fn hex_char_of(d: u8) -> (c: char)
    requires
        d < 16,
    ensures
        c == char_of_hex(d as int),
{
    if d == 0 {
        '0'
    } else if d == 1 {
        '1'
    } else if d == 2 {
        '2'
    } else if d == 3 {
        '3'
    } else if d == 4 {
        '4'
    } else if d == 5 {
        '5'
    } else if d == 6 {
        '6'
    } else if d == 7 {
        '7'
    } else if d == 8 {
        '8'
    } else if d == 9 {
        '9'
    } else if d == 10 {
        'a'
    } else if d == 11 {
        'b'
    } else if d == 12 {
        'c'
    } else if d == 13 {
        'd'
    } else if d == 14 {
        'e'
    } else {
        'f'
    }
}

pub proof fn lemma_digits_val_nonneg(s: Seq<char>)
    requires
        forall|i: int| 0 <= i < s.len() ==> is_digit_char(#[trigger] s[i]),
    ensures
        0 <= digits_val(s),
    decreases s.len(),
{
    if s.len() > 0 {
        lemma_digits_val_nonneg(s.subrange(0, s.len() - 1));
    }
}

/// Extending a digit run to the right can only grow its value.
pub proof fn lemma_digits_val_prefix_le(s: Seq<char>, k: int)
    requires
        0 <= k <= s.len(),
        forall|i: int| 0 <= i < s.len() ==> is_digit_char(#[trigger] s[i]),
    ensures
        digits_val(s.subrange(0, k)) <= digits_val(s),
    decreases s.len() - k,
{
    if k < s.len() {
        let t = s.subrange(0, s.len() - 1);
        assert(t.subrange(0, k) =~= s.subrange(0, k));
        lemma_digits_val_prefix_le(t, k);
        lemma_digits_val_nonneg(t);
    } else {
        assert(s.subrange(0, k) =~= s);
    }
}

pub proof fn lemma_pow16_pos(n: nat)
    ensures
        pow16(n) >= 1,
    decreases n,
{
    if n > 0 {
        lemma_pow16_pos((n - 1) as nat);
    }
}

pub proof fn lemma_pow16_mono(i: nat, j: nat)
    requires
        i <= j,
    ensures
        pow16(i) <= pow16(j),
    decreases j,
{
    if i < j {
        lemma_pow16_mono(i, (j - 1) as nat);
        lemma_pow16_pos((j - 1) as nat);
    }
}

pub proof fn lemma_pow16_32()
    ensures
        pow16(32) == 0x1_0000_0000_0000_0000_0000_0000_0000_0000,
{
    reveal_with_fuel(pow16, 33);
}

pub proof fn lemma_hexes_val_bound(s: Seq<char>)
    requires
        forall|i: int| 0 <= i < s.len() ==> is_hex_char(#[trigger] s[i]),
    ensures
        0 <= hexes_val(s) < pow16(s.len()),
    decreases s.len(),
{
    if s.len() > 0 {
        let t = s.subrange(0, s.len() - 1);
        lemma_hexes_val_bound(t);
        assert(0 <= hex_val(s[s.len() - 1]) < 16);
        assert(hexes_val(t) * 16 <= (pow16(t.len()) - 1) * 16) by (nonlinear_arith)
            requires
                hexes_val(t) <= pow16(t.len()) - 1,
        ;
    }
}

} // verus!
