//! Helpers of the evidence reports: JSON string escaping and reading a
//! string field back from a frozen band.

use vstd::prelude::*;

use crate::digest::{hex_digit, hex_digit_char};
use crate::text::push_char;

verus! {

/// The characters of a string slice, in order.
pub fn chars_of(s: &str) -> (r: Vec<char>)
    ensures
        r@ == s@,
{
    let mut v: Vec<char> = Vec::new();
    for c in iter: s.chars()
        invariant
            v@ == iter.seq().take(iter.index() as int),
    {
        v.push(c);
    }
    v
}

/// JSON escape of one character: backslash, quote, newline, carriage
/// return and tab by their short escapes, other control characters as
/// `\u00XX`, everything else unchanged.
pub open spec fn escape_char(c: char) -> Seq<char> {
    if c == '\\' {
        seq!['\\', '\\']
    } else if c == '"' {
        seq!['\\', '"']
    } else if c == '\n' {
        seq!['\\', 'n']
    } else if c == '\r' {
        seq!['\\', 'r']
    } else if c == '\t' {
        seq!['\\', 't']
    } else if (c as u32) < 0x20 {
        seq![
            '\\',
            'u',
            '0',
            '0',
            hex_digit(((c as u32) / 16) as int),
            hex_digit(((c as u32) % 16) as int),
        ]
    } else {
        seq![c]
    }
}

/// JSON escape of a string, character by character.
pub open spec fn escaped(s: Seq<char>) -> Seq<char>
    decreases s.len(),
{
    if s.len() == 0 {
        Seq::<char>::empty()
    } else {
        escaped(s.drop_last()) + escape_char(s.last())
    }
}

/// Appends the JSON escape of `c`.
fn push_escaped(out: &mut String, c: char)
    ensures
        final(out)@ == old(out)@ + escape_char(c),
{
    if c == '\\' {
        push_char(out, '\\');
        push_char(out, '\\');
    } else if c == '"' {
        push_char(out, '\\');
        push_char(out, '"');
    } else if c == '\n' {
        push_char(out, '\\');
        push_char(out, 'n');
    } else if c == '\r' {
        push_char(out, '\\');
        push_char(out, 'r');
    } else if c == '\t' {
        push_char(out, '\\');
        push_char(out, 't');
    } else if (c as u32) < 0x20 {
        let v = c as u32;
        push_char(out, '\\');
        push_char(out, 'u');
        push_char(out, '0');
        push_char(out, '0');
        push_char(out, hex_digit_char((v / 16) as u8));
        push_char(out, hex_digit_char((v % 16) as u8));
    } else {
        push_char(out, c);
    }
    assert(out@ =~= old(out)@ + escape_char(c));
}

/// JSON string escape (the text between the quotes of a JSON string).
pub fn json_escape(s: &str) -> (r: String)
    ensures
        r@ == escaped(s@),
{
    let cs = chars_of(s);
    let mut out = String::new();
    let n = cs.len();
    let mut i: usize = 0;
    while i < n
        invariant
            n == cs@.len(),
            cs@ == s@,
            i <= n,
            out@ == escaped(cs@.take(i as int)),
        decreases n - i,
    {
        proof {
            assert(cs@.take(i + 1).drop_last() =~= cs@.take(i as int));
        }
        push_escaped(&mut out, cs[i]);
        i = i + 1;
    }
    assert(cs@.take(n as int) =~= cs@);
    out
}

/// `needle` occurs in `hay` at position `i`.
pub open spec fn chars_at(hay: Seq<char>, needle: Seq<char>, i: int) -> bool {
    0 <= i && i + needle.len() <= hay.len() && hay.subrange(i, i + needle.len()) == needle
}

/// The first position at which `needle` occurs in `hay`.
pub open spec fn is_first_occurrence(hay: Seq<char>, needle: Seq<char>, i: int) -> bool {
    chars_at(hay, needle, i) && forall|j: int| 0 <= j < i ==> !chars_at(hay, needle, j)
}

/// The pattern that introduces a string field: `"key": "`.
pub open spec fn field_pattern(key: Seq<char>) -> Seq<char> {
    seq!['"'] + key + seq!['"', ':', ' ', '"']
}

/// The value of string field `key` in `text`: after the first `"key": "`,
/// up to the next quote.
pub open spec fn field_value(text: Seq<char>, key: Seq<char>) -> Option<Seq<char>> {
    let p = field_pattern(key);
    if exists|i: int| is_first_occurrence(text, p, i) {
        let i = choose|i: int| is_first_occurrence(text, p, i);
        let start = i + p.len();
        if exists|q: int| start <= q < text.len() && text[q] == '"' && forall|m: int|
            start <= m < q ==> text[m] != '"' {
            let q = choose|q: int|
                start <= q < text.len() && text[q] == '"' && forall|m: int|
                    start <= m < q ==> text[m] != '"';
            Some(text.subrange(start, q))
        } else {
            None
        }
    } else {
        None
    }
}

proof fn lemma_first_occurrence_unique(hay: Seq<char>, needle: Seq<char>, i: int, j: int)
    requires
        is_first_occurrence(hay, needle, i),
        is_first_occurrence(hay, needle, j),
    ensures
        i == j,
{
}

fn chars_at_exec(hay: &Vec<char>, needle: &Vec<char>, i: usize) -> (r: bool)
    ensures
        r == chars_at(hay@, needle@, i as int),
{
    if i > hay.len() || needle.len() > hay.len() - i {
        return false;
    }
    let mut k: usize = 0;
    while k < needle.len()
        invariant
            i + needle@.len() <= hay@.len(),
            hay@.len() == hay.len(),
            k <= needle@.len(),
            forall|m: int| 0 <= m < k ==> hay@[i + m] == needle@[m],
        decreases needle@.len() - k,
    {
        if hay[i + k] != needle[k] {
            assert(hay@.subrange(i as int, i + needle@.len())[k as int] != needle@[k as int]);
            return false;
        }
        k = k + 1;
    }
    assert(hay@.subrange(i as int, i + needle@.len()) =~= needle@);
    true
}

/// Reads string field `key` back from a flat JSON text: the characters after
/// the first `"key": "` up to the next quote (`None` when either is
/// missing).
pub fn json_str<'a>(text: &'a str, key: &str) -> (r: Option<&'a str>)
    ensures
        r is Some <==> field_value(text@, key@) is Some,
        r matches Some(v) ==> field_value(text@, key@) == Some(v@),
{
    let hay = chars_of(text);
    let mut pat: Vec<char> = Vec::new();
    pat.push('"');
    let kc = chars_of(key);
    let mut t: usize = 0;
    while t < kc.len()
        invariant
            t <= kc@.len(),
            pat@ == seq!['"'] + kc@.take(t as int),
        decreases kc@.len() - t,
    {
        pat.push(kc[t]);
        assert(kc@.take(t + 1) =~= kc@.take(t as int).push(kc@[t as int]));
        t = t + 1;
    }
    pat.push('"');
    pat.push(':');
    pat.push(' ');
    pat.push('"');
    assert(kc@.take(kc@.len() as int) =~= kc@);
    assert(pat@ =~= field_pattern(key@));
    let ghost p = field_pattern(key@);
    let n = hay.len();
    let mut i: usize = 0;
    let mut found = false;
    while i < n
        invariant_except_break
            !found,
        invariant
            n == hay@.len(),
            hay@ == text@,
            pat@ == p,
            p == field_pattern(key@),
            i <= n,
            forall|j: int| 0 <= j < i ==> !chars_at(hay@, p, j),
        ensures
            found ==> i < n && chars_at(hay@, p, i as int),
            !found ==> forall|j: int| 0 <= j < n ==> !chars_at(hay@, p, j),
        decreases n - i,
    {
        if chars_at_exec(&hay, &pat, i) {
            found = true;
            break;
        }
        i = i + 1;
    }
    if !found {
        assert(!exists|j: int| is_first_occurrence(text@, p, j)) by {
            if exists|j: int| is_first_occurrence(text@, p, j) {
                let j = choose|j: int| is_first_occurrence(text@, p, j);
                assert(j < n);
            }
        }
        return None;
    }
    assert(is_first_occurrence(text@, p, i as int));
    assert((choose|c: int| is_first_occurrence(text@, p, c)) == i) by {
        let c = choose|c: int| is_first_occurrence(text@, p, c);
        lemma_first_occurrence_unique(text@, p, i as int, c);
    }
    let start = i + pat.len();
    let mut q = start;
    while q < n
        invariant
            n == hay@.len(),
            hay@ == text@,
            p == field_pattern(key@),
            start as int == i + p.len(),
            (choose|c: int| is_first_occurrence(text@, p, c)) == i,
            is_first_occurrence(text@, p, i as int),
            start <= q <= n,
            forall|m: int| start <= m < q ==> hay@[m] != '"',
        decreases n - q,
    {
        if hay[q] == '"' {
            let v = text.substring_char(start, q);
            assert(start <= q < text@.len() && text@[q as int] == '"' && forall|m: int|
                start <= m < q ==> text@[m] != '"');
            assert((choose|qq: int|
                start <= qq < text@.len() && text@[qq] == '"' && forall|m: int|
                    start <= m < qq ==> text@[m] != '"') == q) by {
                let qq = choose|qq: int|
                    start <= qq < text@.len() && text@[qq] == '"' && forall|m: int|
                        start <= m < qq ==> text@[m] != '"';
                if qq < q {
                    assert(hay@[qq] != '"');
                }
                if q < qq {
                    assert(text@[q as int] != '"');
                }
            }
            assert(exists|c: int| is_first_occurrence(text@, p, c));
            assert(p == field_pattern(key@));
            assert(v@ == text@.subrange(start as int, q as int));
            assert(field_value(text@, key@) == Some(text@.subrange(start as int, q as int)));
            return Some(v);
        }
        q = q + 1;
    }
    assert(!exists|qq: int|
        start <= qq < text@.len() && text@[qq] == '"' && forall|m: int|
            start <= m < qq ==> text@[m] != '"');
    None
}

/// Escaped text holds no raw control character (below U+0020), so it can
/// stand between the quotes of a JSON string.
pub proof fn law_escaped_has_no_control_chars(s: Seq<char>)
    ensures
        forall|i: int| 0 <= i < escaped(s).len() ==> (#[trigger] escaped(s)[i] as u32) >= 0x20,
    decreases s.len(),
{
    if s.len() > 0 {
        law_escaped_has_no_control_chars(s.drop_last());
        let a = escaped(s.drop_last());
        let b = escape_char(s.last());
        assert forall|i: int| 0 <= i < escaped(s).len() implies (#[trigger] escaped(s)[i] as u32)
            >= 0x20 by {
            if i < a.len() {
                assert(escaped(s)[i] == a[i]);
            } else {
                assert(escaped(s)[i] == b[i - a.len()]);
                let v = s.last() as u32;
                if (v < 0x20) && s.last() != '\n' && s.last() != '\r' && s.last() != '\t' {
                    let k = i - a.len();
                    if k == 4 {
                        assert(v / 16 < 2);
                    }
                    if k == 5 {
                        assert(v % 16 < 16);
                    }
                }
            }
        }
    }
}

/// Reading a field back gives what was written: in `prefix + "key": "v" +
/// suffix`, where the pattern does not start inside `prefix` and `v` holds
/// no quote, the field value of `key` is `v`.
pub proof fn law_field_roundtrip(prefix: Seq<char>, key: Seq<char>, v: Seq<char>, suffix: Seq<char>)
    requires
        forall|j: int|
            0 <= j < prefix.len() ==> !chars_at(
                prefix + field_pattern(key) + v + seq!['"'] + suffix,
                field_pattern(key),
                j,
            ),
        forall|m: int| 0 <= m < v.len() ==> v[m] != '"',
    ensures
        field_value(prefix + field_pattern(key) + v + seq!['"'] + suffix, key) == Some(v),
{
    let p = field_pattern(key);
    let text = prefix + p + v + seq!['"'] + suffix;
    let i = prefix.len() as int;
    assert(text.subrange(i, i + p.len()) =~= p);
    assert(is_first_occurrence(text, p, i));
    let c = choose|c: int| is_first_occurrence(text, p, c);
    lemma_first_occurrence_unique(text, p, i, c);
    let start = i + p.len();
    let q = start + v.len();
    assert(text[q] == '"');
    assert forall|m: int| start <= m < q implies text[m] != '"' by {
        assert(text[m] == v[m - start]);
    }
    let qq = choose|qq: int|
        start <= qq < text.len() && text[qq] == '"' && forall|m: int| start <= m < qq ==> text[m] != '"';
    if qq < q {
        assert(text[qq] == v[qq - start]);
    }
    if q < qq {
        assert(text[q] != '"');
    }
    assert(text.subrange(start, q) =~= v);
}


/// JSON escaping, character by character: backslash, quote, newline,
/// carriage return and tab get their two-character escapes; another control
/// character `c` becomes `\u00` and two lowercase hex digits of value `c`;
/// every other character stands for itself; and escaping a longer string
/// appends the escape of the new character.
pub proof fn law_escape_cases(s: Seq<char>, c: char)
    ensures
        escaped(s.push(c)) == escaped(s) + escape_char(c),
        escaped(Seq::<char>::empty()) == Seq::<char>::empty(),
        escape_char('\\') == seq!['\\', '\\'],
        escape_char('"') == seq!['\\', '"'],
        escape_char('\n') == seq!['\\', 'n'],
        escape_char('\r') == seq!['\\', 'r'],
        escape_char('\t') == seq!['\\', 't'],
        (c as u32) >= 0x20 && c != '\\' && c != '"' ==> escape_char(c) == seq![c],
        (c as u32) < 0x20 && c != '\n' && c != '\r' && c != '\t' ==> {
            let e = escape_char(c);
            &&& e.len() == 6
            &&& e.take(4) == seq!['\\', 'u', '0', '0']
            &&& crate::digest::is_lower_hex(e[4]) && crate::digest::is_lower_hex(e[5])
            &&& 16 * crate::digest::hex_char_value(e[4]) + crate::digest::hex_char_value(e[5])
                == c as u32
        },
{
    assert(s.push(c).drop_last() =~= s);
    assert('\n' as u32 == 10 && '\r' as u32 == 13 && '\t' as u32 == 9);
    if (c as u32) < 0x20 && c != '\n' && c != '\r' && c != '\t' {
        let v = c as u32;
        let e = escape_char(c);
        assert(e.take(4) =~= seq!['\\', 'u', '0', '0']);
        let bytes = seq![v as u8];
        crate::digest::law_hex_reads_back(bytes);
        assert(crate::digest::hex_text(bytes) =~= crate::digest::hex_byte(v as u8));
        assert(crate::digest::hex_text(bytes)[2 * 0int] == e[4]);
        assert(crate::digest::hex_text(bytes)[2 * 0int + 1] == e[5]);
    }
}

/// The pattern that introduces a field, with its literal characters.
pub proof fn law_field_pattern(key: Seq<char>)
    ensures
        field_pattern(key) == seq!['"'] + key + seq!['"', ':', ' ', '"'],
{
}

} // verus!
