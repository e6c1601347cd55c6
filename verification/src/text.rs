//! Text primitives over sequences of characters.
use vstd::prelude::*;
use vstd::string::*;
use vstd::utf8::*;

verus! {

/// `String::push` appends one character to the end of the string.
pub assume_specification[ String::push ](s: &mut String, ch: char)
    ensures
        final(s)@ == old(s)@.push(ch),
;

/// The characters of a string, in order.
pub fn to_chars(s: &str) -> (r: Vec<char>)
    ensures
        r@ == s@,
{
    let mut out: Vec<char> = Vec::new();
    for c in it: s.chars()
        invariant
            out@ == it.seq().take(it.index() as int),
            it.seq() == s@,
    {
        out.push(c);
        assert(it.seq().take(it.index() as int + 1) =~= it.seq().take(it.index() as int).push(c));
    }
    assert(s@.take(s@.len() as int) =~= s@);
    out
}

/// The string made of the given characters.
pub fn from_chars(chars: &[char]) -> (r: String)
    ensures
        r@ == chars@,
{
    let mut out = String::new();
    let mut i: usize = 0;
    while i < chars.len()
        invariant
            i <= chars.len(),
            out@ == chars@.take(i as int),
        decreases chars.len() - i,
    {
        out.push(chars[i]);
        assert(chars@.take(i as int + 1) =~= chars@.take(i as int).push(chars@[i as int]));
        i = i + 1;
    }
    assert(chars@.take(chars@.len() as int) =~= chars@);
    out
}

/// Whether two strings hold the same characters.
pub fn str_eq(a: &str, b: &str) -> (r: bool)
    ensures
        r == (a@ == b@),
{
    let x = a.as_bytes();
    let y = b.as_bytes();
    proof {
        encode_utf8_decode_utf8(a@);
        encode_utf8_decode_utf8(b@);
    }
    if x.len() != y.len() {
        return false;
    }
    let mut i: usize = 0;
    while i < x.len()
        invariant
            i <= x.len(),
            x.len() == y.len(),
            x@ == encode_utf8(a@),
            y@ == encode_utf8(b@),
            forall|k: int| 0 <= k < i ==> x@[k] == y@[k],
        decreases x.len() - i,
    {
        if x[i] != y[i] {
            return false;
        }
        i = i + 1;
    }
    assert(x@ =~= y@);
    true
}

// ---------------------------------------------------------------------
// Decimal numbers
// ---------------------------------------------------------------------

/// The character of a decimal digit.
pub open spec fn digit_char(d: nat) -> char {
    ((48 + d) as u32) as char
}

/// The decimal digits of `n`, most significant first, without leading zeros.
pub open spec fn dec(n: nat) -> Seq<char>
    decreases n,
{
    if n < 10 {
        seq![digit_char(n)]
    } else {
        dec(n / 10).push(digit_char(n % 10))
    }
}

/// The decimal text of a signed number.
pub open spec fn dec_int(n: int) -> Seq<char> {
    if n < 0 {
        seq!['-'] + dec((-n) as nat)
    } else {
        dec(n as nat)
    }
}

pub(crate) fn digit_to_char(d: u8) -> (r: char)
    requires
        d < 10,
    ensures
        r == digit_char(d as nat),
{
    (48 + d) as char
}

/// The decimal text of `n`.
pub fn dec_u64(n: u64) -> (r: String)
    ensures
        r@ == dec(n as nat),
    decreases n,
{
    if n < 10 {
        let mut s = String::new();
        s.push(digit_to_char(n as u8));
        assert(s@ =~= dec(n as nat));
        s
    } else {
        let mut s = dec_u64(n / 10);
        s.push(digit_to_char((n % 10) as u8));
        s
    }
}

/// The decimal text of `n`.
pub fn dec_usize(n: usize) -> (r: String)
    ensures
        r@ == dec(n as nat),
{
    dec_u64(n as u64)
}

/// The decimal text of `n`.
pub fn dec_i64(n: i64) -> (r: String)
    ensures
        r@ == dec_int(n as int),
{
    if n < 0 {
        let mut s = String::new();
        s.push('-');
        let m: u64 = if n == i64::MIN {
            9223372036854775808
        } else {
            (-n) as u64
        };
        let d = dec_u64(m);
        let t = s.concat(d.as_str());
        assert(t@ =~= dec_int(n as int));
        t
    } else {
        dec_u64(n as u64)
    }
}

// ---------------------------------------------------------------------
// Searching
// ---------------------------------------------------------------------

/// Whether `part` stands in `whole` at position `i`.
pub open spec fn occurs_at(whole: Seq<char>, part: Seq<char>, i: int) -> bool {
    0 <= i && i + part.len() <= whole.len() && whole.subrange(i, i + part.len()) == part
}

/// Whether `part` stands anywhere in `whole`.
pub open spec fn contains_text(whole: Seq<char>, part: Seq<char>) -> bool {
    exists|i: int| #[trigger] occurs_at(whole, part, i)
}

/// Whether `whole` begins with `part`.
pub open spec fn begins_with(whole: Seq<char>, part: Seq<char>) -> bool {
    occurs_at(whole, part, 0)
}

/// Whether `whole` ends with `part`.
pub open spec fn ends_in(whole: Seq<char>, part: Seq<char>) -> bool {
    occurs_at(whole, part, whole.len() - part.len())
}

/// Whether `part` stands in `whole` at position `i`.
pub fn chars_occur_at(whole: &[char], part: &[char], i: usize) -> (r: bool)
    ensures
        r == occurs_at(whole@, part@, i as int),
{
    if part.len() > whole.len() || i > whole.len() - part.len() {
        return false;
    }
    let mut k: usize = 0;
    while k < part.len()
        invariant
            k <= part.len(),
            i + part.len() <= whole.len(),
            forall|j: int| 0 <= j < k ==> whole@[i + j] == part@[j],
        decreases part.len() - k,
    {
        if whole[i + k] != part[k] {
            assert(whole@.subrange(i as int, i + part.len())[k as int] != part@[k as int]);
            return false;
        }
        k = k + 1;
    }
    assert(whole@.subrange(i as int, i + part.len()) =~= part@);
    true
}

/// Whether `part` stands anywhere in `whole`.
pub fn chars_contain(whole: &[char], part: &[char]) -> (r: bool)
    ensures
        r == contains_text(whole@, part@),
{
    if part.len() > whole.len() {
        return false;
    }
    let last: usize = whole.len() - part.len();
    let mut i: usize = 0;
    while i < last
        invariant
            i <= last,
            last == whole.len() - part.len(),
            forall|j: int| 0 <= j < i ==> !occurs_at(whole@, part@, j),
        decreases last - i,
    {
        if chars_occur_at(whole, part, i) {
            return true;
        }
        i = i + 1;
    }
    let r = chars_occur_at(whole, part, last);
    assert(!r ==> forall|j: int| !occurs_at(whole@, part@, j));
    r
}

/// Whether `part` stands anywhere in `whole`.
pub fn contains(whole: &str, part: &str) -> (r: bool)
    ensures
        r == contains_text(whole@, part@),
{
    chars_contain(to_chars(whole).as_slice(), to_chars(part).as_slice())
}

/// Whether `whole` begins with `part`.
pub fn starts_with(whole: &str, part: &str) -> (r: bool)
    ensures
        r == begins_with(whole@, part@),
{
    chars_occur_at(to_chars(whole).as_slice(), to_chars(part).as_slice(), 0)
}

/// Whether `whole` ends with `part`.
pub fn ends_with(whole: &str, part: &str) -> (r: bool)
    ensures
        r == ends_in(whole@, part@),
{
    let w = to_chars(whole);
    let p = to_chars(part);
    if p.len() > w.len() {
        return false;
    }
    chars_occur_at(w.as_slice(), p.as_slice(), w.len() - p.len())
}

// ---------------------------------------------------------------------
// Rewriting
// ---------------------------------------------------------------------

/// The lower-case letter of an ASCII capital; any other character as it is.
pub open spec fn lower_char(c: char) -> char {
    if 'A' <= c && c <= 'Z' {
        ((c as u32 + 32) as u32) as char
    } else {
        c
    }
}

/// The text with its ASCII capitals made lower case.
pub open spec fn lower(s: Seq<char>) -> Seq<char> {
    s.map_values(|c: char| lower_char(c))
}

fn lower_of(c: char) -> (r: char)
    ensures
        r == lower_char(c),
{
    if 'A' <= c && c <= 'Z' {
        ((c as u8) + 32) as char
    } else {
        c
    }
}

/// The text with its ASCII capitals made lower case.
pub fn to_ascii_lowercase(s: &str) -> (r: String)
    ensures
        r@ == lower(s@),
{
    let chars = to_chars(s);
    let mut out = String::new();
    let mut i: usize = 0;
    while i < chars.len()
        invariant
            i <= chars.len(),
            chars@ == s@,
            out@ == lower(s@).take(i as int),
        decreases chars.len() - i,
    {
        out.push(lower_of(chars[i]));
        assert(lower(s@).take(i as int + 1) =~= lower(s@).take(i as int).push(
            lower_char(s@[i as int]),
        ));
        i = i + 1;
    }
    assert(lower(s@).take(s@.len() as int) =~= lower(s@));
    out
}

/// The text without the occurrences of `part`, taken from left to right.
pub open spec fn without(s: Seq<char>, part: Seq<char>) -> Seq<char>
    decreases s.len(),
{
    if part.len() == 0 || s.len() == 0 {
        s
    } else if occurs_at(s, part, 0) {
        without(s.skip(part.len() as int), part)
    } else {
        seq![s[0]] + without(s.skip(1), part)
    }
}

/// The text without the occurrences of `part`, taken from left to right.
pub fn remove_all(s: &str, part: &str) -> (r: String)
    ensures
        r@ == without(s@, part@),
{
    let chars = to_chars(s);
    let pat = to_chars(part);
    if pat.len() == 0 {
        return String::from_str(s);
    }
    let mut out = String::new();
    let mut i: usize = 0;
    assert(s@.skip(0) =~= s@);
    assert(Seq::<char>::empty() + without(s@, part@) =~= without(s@, part@));
    while i < chars.len()
        invariant
            i <= chars.len(),
            chars@ == s@,
            pat@ == part@,
            pat@.len() > 0,
            without(s@, part@) == out@ + without(s@.skip(i as int), part@),
        decreases chars.len() - i,
    {
        let ghost rest = s@.skip(i as int);
        if chars_occur_at(chars.as_slice(), pat.as_slice(), i) {
            proof {
                assert(rest.subrange(0, part@.len() as int) =~= s@.subrange(
                    i as int,
                    i + part@.len(),
                ));
                assert(rest.skip(part@.len() as int) =~= s@.skip(i + part@.len()));
            }
            i = i + pat.len();
        } else {
            proof {
                if occurs_at(rest, part@, 0) {
                    assert(s@.subrange(i as int, i + part@.len()) =~= rest.subrange(
                        0,
                        part@.len() as int,
                    ));
                }
                assert(rest.skip(1) =~= s@.skip(i as int + 1));
                assert(rest[0] == s@[i as int]);
                assert(out@ + (seq![rest[0]] + without(rest.skip(1), part@)) =~= out@.push(
                    rest[0],
                ) + without(rest.skip(1), part@));
            }
            out.push(chars[i]);
            i = i + 1;
        }
    }
    assert(s@.skip(i as int) =~= Seq::<char>::empty());
    assert(out@ + Seq::<char>::empty() =~= out@);
    out
}

/// The text from its first character on that does not meet `p`.
pub open spec fn strip_start(s: Seq<char>, p: spec_fn(char) -> bool) -> Seq<char>
    decreases s.len(),
{
    if s.len() > 0 && p(s[0]) {
        strip_start(s.skip(1), p)
    } else {
        s
    }
}

/// The text up to its last character that does not meet `p`.
pub open spec fn strip_end(s: Seq<char>, p: spec_fn(char) -> bool) -> Seq<char>
    decreases s.len(),
{
    if s.len() > 0 && p(s.last()) {
        strip_end(s.drop_last(), p)
    } else {
        s
    }
}

/// The text without the characters at its two ends that meet `p`.
pub open spec fn strip_both(s: Seq<char>, p: spec_fn(char) -> bool) -> Seq<char> {
    strip_end(strip_start(s, p), p)
}

/// The part of the text between the characters at its two ends that are flagged.
fn strip_flagged(chars: &Vec<char>, flags: &Vec<bool>, p: Ghost<spec_fn(char) -> bool>) -> (r:
    String)
    requires
        flags@.len() == chars@.len(),
        forall|i: int| 0 <= i < chars@.len() ==> flags@[i] == p@(#[trigger] chars@[i]),
    ensures
        r@ == strip_both(chars@, p@),
{
    let mut lo: usize = 0;
    assert(chars@.skip(0) =~= chars@);
    while lo < chars.len() && flags[lo]
        invariant
            lo <= chars@.len(),
            flags@.len() == chars@.len(),
            forall|i: int| 0 <= i < chars@.len() ==> flags@[i] == p@(#[trigger] chars@[i]),
            strip_start(chars@, p@) == strip_start(chars@.skip(lo as int), p@),
        decreases chars@.len() - lo,
    {
        proof {
            let rest = chars@.skip(lo as int);
            assert(rest[0] == chars@[lo as int]);
            assert(rest.skip(1) =~= chars@.skip(lo as int + 1));
        }
        lo = lo + 1;
    }
    let ghost rest = chars@.skip(lo as int);
    assert(strip_start(rest, p@) == rest) by {
        if rest.len() > 0 {
            assert(rest[0] == chars@[lo as int]);
        }
    }
    let mut hi: usize = chars.len();
    assert(chars@.subrange(lo as int, hi as int) =~= rest);
    while hi > lo && flags[hi - 1]
        invariant
            lo <= hi <= chars@.len(),
            flags@.len() == chars@.len(),
            forall|i: int| 0 <= i < chars@.len() ==> flags@[i] == p@(#[trigger] chars@[i]),
            strip_end(rest, p@) == strip_end(chars@.subrange(lo as int, hi as int), p@),
        decreases hi - lo,
    {
        proof {
            let cur = chars@.subrange(lo as int, hi as int);
            assert(cur.last() == chars@[hi - 1]);
            assert(cur.drop_last() =~= chars@.subrange(lo as int, hi - 1));
        }
        hi = hi - 1;
    }
    proof {
        let cur = chars@.subrange(lo as int, hi as int);
        if cur.len() > 0 {
            assert(cur.last() == chars@[hi - 1]);
        }
    }
    from_chars(vstd::slice::slice_subrange(chars.as_slice(), lo, hi))
}

/// Whether a character is a hyphen or an underscore.
pub open spec fn is_dash(c: char) -> bool {
    c == '-' || c == '_'
}

/// The text without hyphens and underscores at its ends.
pub fn trim_dashes(s: &str) -> (r: String)
    ensures
        r@ == strip_both(s@, |c: char| is_dash(c)),
{
    let chars = to_chars(s);
    let mut flags: Vec<bool> = Vec::new();
    let mut i: usize = 0;
    while i < chars.len()
        invariant
            i <= chars@.len(),
            flags@.len() == i,
            forall|k: int| 0 <= k < i ==> flags@[k] == is_dash(#[trigger] chars@[k]),
        decreases chars@.len() - i,
    {
        let c = chars[i];
        flags.push(c == '-' || c == '_');
        i = i + 1;
    }
    strip_flagged(&chars, &flags, Ghost(|c: char| is_dash(c)))
}

/// Whether a character has the Unicode property White_Space.
pub open spec fn is_space(c: char) -> bool {
    let v = c as u32;
    ||| 0x09 <= v <= 0x0d
    ||| v == 0x20
    ||| v == 0x85
    ||| v == 0xa0
    ||| v == 0x1680
    ||| 0x2000 <= v <= 0x200a
    ||| v == 0x2028
    ||| v == 0x2029
    ||| v == 0x202f
    ||| v == 0x205f
    ||| v == 0x3000
}

/// Whether a character has the Unicode property White_Space.
pub fn char_is_space(c: char) -> (r: bool)
    ensures
        r == is_space(c),
{
    let v: u32 = c as u32;
    (0x09 <= v && v <= 0x0d) || v == 0x20 || v == 0x85 || v == 0xa0 || v == 0x1680 || (0x2000 <= v
        && v <= 0x200a) || v == 0x2028 || v == 0x2029 || v == 0x202f || v == 0x205f || v == 0x3000
}

/// The text without white space at its ends.
pub open spec fn trimmed(s: Seq<char>) -> Seq<char> {
    strip_both(s, |c: char| is_space(c))
}

/// The text without white space at its ends.
pub fn trim(s: &str) -> (r: String)
    ensures
        r@ == trimmed(s@),
{
    let chars = to_chars(s);
    let mut flags: Vec<bool> = Vec::new();
    let mut i: usize = 0;
    while i < chars.len()
        invariant
            i <= chars@.len(),
            flags@.len() == i,
            forall|k: int| 0 <= k < i ==> flags@[k] == is_space(#[trigger] chars@[k]),
        decreases chars@.len() - i,
    {
        flags.push(char_is_space(chars[i]));
        i = i + 1;
    }
    strip_flagged(&chars, &flags, Ghost(|c: char| is_space(c)))
}

// ---------------------------------------------------------------------
// Splitting and ordering
// ---------------------------------------------------------------------

/// The pieces of a text between the occurrences of a separator. There is always at least one.
pub open spec fn pieces(s: Seq<char>, sep: char) -> Seq<Seq<char>>
    decreases s.len(),
{
    if s.len() == 0 {
        seq![Seq::empty()]
    } else {
        let before = pieces(s.drop_last(), sep);
        if s.last() == sep {
            before.push(Seq::empty())
        } else {
            before.drop_last().push(before.last().push(s.last()))
        }
    }
}

/// Character lists as sequences.
pub open spec fn char_lists(v: Seq<Vec<char>>) -> Seq<Seq<char>> {
    v.map_values(|c: Vec<char>| c@)
}

/// Strings as sequences of characters.
pub open spec fn strings(v: Seq<String>) -> Seq<Seq<char>> {
    v.map_values(|c: String| c@)
}

/// The pieces of a text between the occurrences of a separator.
pub fn split_chars(chars: &[char], sep: char) -> (r: Vec<Vec<char>>)
    ensures
        char_lists(r@) == pieces(chars@, sep),
        r@.len() > 0,
{
    let mut out: Vec<Vec<char>> = Vec::new();
    let mut current: Vec<char> = Vec::new();
    let mut i: usize = 0;
    assert(chars@.take(0) =~= Seq::<char>::empty());
    assert(char_lists(out@).push(current@) =~= pieces(chars@.take(0), sep));
    while i < chars.len()
        invariant
            i <= chars@.len(),
            char_lists(out@).push(current@) == pieces(chars@.take(i as int), sep),
        decreases chars@.len() - i,
    {
        let c = chars[i];
        let ghost sofar = chars@.take(i as int);
        let ghost next = chars@.take(i as int + 1);
        let ghost old_out = out@;
        let ghost old_current = current@;
        assert(next.drop_last() =~= sofar);
        assert(next.last() == c);
        assert(pieces(sofar, sep).drop_last() =~= char_lists(old_out));
        assert(pieces(sofar, sep).last() == old_current);
        if c == sep {
            out.push(current);
            current = Vec::new();
            assert(char_lists(out@) =~= char_lists(old_out).push(old_current));
            assert(current@ =~= Seq::<char>::empty());
        } else {
            current.push(c);
        }
        i = i + 1;
    }
    assert(chars@.take(i as int) =~= chars@);
    let ghost before = out@;
    let ghost tail = current@;
    out.push(current);
    assert(char_lists(out@) =~= char_lists(before).push(tail));
    out
}

/// The pieces, put back together with the separator between them.
pub open spec fn joined(parts: Seq<Seq<char>>, sep: Seq<char>) -> Seq<char>
    decreases parts.len(),
{
    if parts.len() == 0 {
        Seq::empty()
    } else if parts.len() == 1 {
        parts[0]
    } else {
        joined(parts.drop_last(), sep) + sep + parts.last()
    }
}

/// Putting the pieces of a text back together gives the text.
pub proof fn pieces_join_back(s: Seq<char>, sep: char)
    ensures
        joined(pieces(s, sep), seq![sep]) == s,
        pieces(s, sep).len() > 0,
    decreases s.len(),
{
    if s.len() > 0 {
        let init = s.drop_last();
        let before = pieces(init, sep);
        pieces_join_back(init, sep);
        assert(s =~= init.push(s.last()));
        if s.last() == sep {
            let now = before.push(Seq::empty());
            assert(now.drop_last() =~= before);
            assert(joined(now, seq![sep]) =~= init + seq![sep]);
        } else {
            let now = before.drop_last().push(before.last().push(s.last()));
            assert(now.drop_last() =~= before.drop_last());
            if before.len() > 1 {
                let front = joined(before.drop_last(), seq![sep]);
                assert(joined(before, seq![sep]) == front + seq![sep] + before.last());
                assert(joined(now, seq![sep]) =~= front + seq![sep] + before.last().push(s.last()));
            }
            assert(joined(now, seq![sep]) =~= s);
        }
    } else {
        assert(joined(pieces(s, sep), seq![sep]) =~= s);
    }
}

/// The order of two texts by their characters.
pub open spec fn text_le(a: Seq<char>, b: Seq<char>) -> bool
    decreases a.len(),
{
    if a.len() == 0 {
        true
    } else if b.len() == 0 {
        false
    } else if a[0] != b[0] {
        a[0] < b[0]
    } else {
        text_le(a.skip(1), b.skip(1))
    }
}

/// The order of texts compares any two of them, consistently and up to equality.
pub proof fn text_order_is_total(a: Seq<char>, b: Seq<char>, c: Seq<char>)
    ensures
        text_le(a, b) || text_le(b, a),
        text_le(a, b) && text_le(b, c) ==> text_le(a, c),
        text_le(a, b) && text_le(b, a) ==> a == b,
    decreases a.len() + b.len() + c.len(),
{
    if a.len() > 0 && b.len() > 0 && a[0] == b[0] {
        let c1 = if c.len() > 0 { c.skip(1) } else { c };
        text_order_is_total(a.skip(1), b.skip(1), c1);
        if text_le(a, b) && text_le(b, a) {
            assert(a =~= seq![a[0]] + a.skip(1));
            assert(b =~= seq![b[0]] + b.skip(1));
        }
    } else if a.len() == 0 && b.len() == 0 {
        assert(a =~= b);
    }
}

/// Whether one text does not come behind another.
pub fn chars_le(a: &[char], b: &[char]) -> (r: bool)
    ensures
        r == text_le(a@, b@),
{
    let mut i: usize = 0;
    assert(a@.skip(0) =~= a@);
    assert(b@.skip(0) =~= b@);
    while i < a.len() && i < b.len()
        invariant
            i <= a@.len(),
            i <= b@.len(),
            text_le(a@, b@) == text_le(a@.skip(i as int), b@.skip(i as int)),
        decreases a@.len() - i,
    {
        proof {
            assert(a@.skip(i as int).skip(1) =~= a@.skip(i as int + 1));
            assert(b@.skip(i as int).skip(1) =~= b@.skip(i as int + 1));
        }
        if a[i] != b[i] {
            return a[i] < b[i];
        }
        i = i + 1;
    }
    i >= a.len()
}

/// Strings put together with a separator between them.
pub fn join_strings(parts: &Vec<String>, sep: &str) -> (r: String)
    ensures
        r@ == joined(strings(parts@), sep@),
{
    let ghost texts = strings(parts@);
    let mut out = String::new();
    let mut i: usize = 0;
    assert(out@ =~= joined(texts.take(0), sep@));
    while i < parts.len()
        invariant
            i <= parts@.len(),
            texts == strings(parts@),
            out@ == joined(texts.take(i as int), sep@),
        decreases parts@.len() - i,
    {
        let ghost next = texts.take(i as int + 1);
        assert(next.drop_last() =~= texts.take(i as int));
        assert(next.last() == parts@[i as int]@);
        if i > 0 {
            out = out.concat(sep);
        } else {
            assert(out@ + parts@[i as int]@ =~= parts@[i as int]@);
        }
        out = out.concat(parts[i].as_str());
        i = i + 1;
    }
    assert(texts.take(i as int) =~= texts);
    out
}

/// The decimal texts of numbers.
pub open spec fn decimals(items: Seq<nat>) -> Seq<Seq<char>> {
    items.map_values(|n: nat| dec(n))
}

/// Numbers as a list with brackets around it and commas between them.
pub open spec fn list_text(items: Seq<nat>) -> Seq<char> {
    "["@ + joined(decimals(items), ", "@) + "]"@
}

/// Numbers as a set with braces around it and commas between them.
pub open spec fn set_text(items: Seq<nat>) -> Seq<char> {
    "{"@ + joined(decimals(items), ", "@) + "}"@
}

/// Sizes as natural numbers.
pub open spec fn sizes(items: Seq<usize>) -> Seq<nat> {
    items.map_values(|n: usize| n as nat)
}

/// Long numbers as natural numbers.
pub open spec fn longs(items: Seq<u64>) -> Seq<nat> {
    items.map_values(|n: u64| n as nat)
}

fn decimal_sizes(items: &[usize]) -> (r: Vec<String>)
    ensures
        strings(r@) == decimals(sizes(items@)),
{
    let mut out: Vec<String> = Vec::new();
    let mut i: usize = 0;
    while i < items.len()
        invariant
            i <= items@.len(),
            strings(out@) == decimals(sizes(items@)).take(i as int),
        decreases items@.len() - i,
    {
        let ghost before = out@;
        out.push(dec_usize(items[i]));
        assert(strings(out@) =~= strings(before).push(dec(items@[i as int] as nat)));
        assert(decimals(sizes(items@)).take(i as int + 1) =~= decimals(sizes(items@)).take(
            i as int,
        ).push(dec(items@[i as int] as nat)));
        i = i + 1;
    }
    assert(decimals(sizes(items@)).take(i as int) =~= decimals(sizes(items@)));
    out
}

fn decimal_longs(items: &[u64]) -> (r: Vec<String>)
    ensures
        strings(r@) == decimals(longs(items@)),
{
    let mut out: Vec<String> = Vec::new();
    let mut i: usize = 0;
    while i < items.len()
        invariant
            i <= items@.len(),
            strings(out@) == decimals(longs(items@)).take(i as int),
        decreases items@.len() - i,
    {
        let ghost before = out@;
        out.push(dec_u64(items[i]));
        assert(strings(out@) =~= strings(before).push(dec(items@[i as int] as nat)));
        assert(decimals(longs(items@)).take(i as int + 1) =~= decimals(longs(items@)).take(
            i as int,
        ).push(dec(items@[i as int] as nat)));
        i = i + 1;
    }
    assert(decimals(longs(items@)).take(i as int) =~= decimals(longs(items@)));
    out
}

/// Sizes as a list with brackets around it.
pub fn show_sizes(items: &[usize]) -> (r: String)
    ensures
        r@ == list_text(sizes(items@)),
{
    let body = join_strings(&decimal_sizes(items), ", ");
    String::from_str("[").concat(body.as_str()).concat("]")
}

/// Sizes as a set with braces around it.
pub fn show_size_set(items: &[usize]) -> (r: String)
    ensures
        r@ == set_text(sizes(items@)),
{
    let body = join_strings(&decimal_sizes(items), ", ");
    String::from_str("{").concat(body.as_str()).concat("}")
}

/// Long numbers as a list with brackets around it.
pub fn show_longs(items: &[u64]) -> (r: String)
    ensures
        r@ == list_text(longs(items@)),
{
    let body = join_strings(&decimal_longs(items), ", ");
    String::from_str("[").concat(body.as_str()).concat("]")
}

/// Long numbers with the letter x between them.
pub fn show_longs_by_x(items: &[u64]) -> (r: String)
    ensures
        r@ == joined(decimals(longs(items@)), "x"@),
{
    join_strings(&decimal_longs(items), "x")
}

} // verus!
