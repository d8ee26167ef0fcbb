//! Pieces of text that requests and messages are made of: percent-encoding, ids
//! in paths, and HTML.
use crate::bytes;
use crate::text;
use vstd::utf8::{
    decode_utf8,
    encode_utf8,
    encode_utf8_decode_utf8,
    encode_utf8_valid_utf8,
    is_ascii_chars,
    is_ascii_chars_encode_utf8,
};
use vstd::prelude::*;

verus! {

// -- Percent-encoding --

/// True of a byte that stands for itself in an encoded text.
pub open spec fn is_unreserved(b: u8) -> bool {
    ('a' as u8 <= b <= 'z' as u8) || ('A' as u8 <= b <= 'Z' as u8) || ('0' as u8 <= b <= '9' as u8)
        || b == '-' as u8 || b == '_' as u8 || b == '.' as u8 || b == '~' as u8
}

/// A byte in an encoded text.
pub open spec fn encoded_byte(b: u8) -> Seq<char> {
    if is_unreserved(b) {
        seq![b as char]
    } else {
        seq!['%', text::hex_upper(b as int / 16), text::hex_upper(b as int % 16)]
    }
}

/// Bytes as an encoded text.
pub open spec fn encoded_bytes(s: Seq<u8>) -> Seq<char>
    decreases s.len(),
{
    if s.len() == 0 {
        Seq::empty()
    } else {
        encoded_bytes(s.drop_last()) + encoded_byte(s.last())
    }
}

/// A text with all but its unreserved characters percent-encoded.
pub open spec fn encoded(s: Seq<char>) -> Seq<char> {
    encoded_bytes(encode_utf8(s))
}

/// True of a hexadecimal digit.
pub open spec fn is_hex(b: u8) -> bool {
    ('a' as u8 <= b <= 'f' as u8) || ('A' as u8 <= b <= 'F' as u8) || ('0' as u8 <= b <= '9' as u8)
}

/// The value of a hexadecimal digit.
pub open spec fn hex_value(b: u8) -> int {
    if 'a' as u8 <= b {
        b - 'a' as u8 + 10
    } else if 'A' as u8 <= b {
        b - 'A' as u8 + 10
    } else {
        b - '0' as u8
    }
}

/// True when an encoded byte stands at the start of `s`.
pub open spec fn starts_encoded(s: Seq<u8>) -> bool {
    s.len() >= 3 && s[0] == '%' as u8 && is_hex(s[1]) && is_hex(s[2])
}

/// Bytes with their encoded bytes decoded; what is malformed stays.
pub open spec fn decoded_bytes(s: Seq<u8>) -> Seq<u8>
    decreases s.len(),
{
    if s.len() == 0 {
        Seq::empty()
    } else if starts_encoded(s) {
        seq![(hex_value(s[1]) * 16 + hex_value(s[2])) as u8] + decoded_bytes(s.skip(3))
    } else {
        seq![s[0]] + decoded_bytes(s.skip(1))
    }
}

/// A text with its encoded bytes decoded.
pub open spec fn decoded(s: Seq<char>) -> Seq<char> {
    bytes::utf8_lossy(decoded_bytes(encode_utf8(s)))
}

fn upper_hex(d: u8) -> (r: char)
    requires
        d < 16,
    ensures
        r == text::hex_upper(d as int),
{
    if d < 10 {
        ('0' as u8 + d) as char
    } else {
        ('A' as u8 + (d - 10)) as char
    }
}

/// Percent-encodes all but the unreserved characters.
pub fn encode(s: &str) -> (r: String)
    ensures
        r@ == encoded(s@),
{
    let b = s.as_bytes();
    let n: usize = b.len();
    let mut out = String::new();
    let mut i: usize = 0;
    proof {
        assert(b@.take(0) =~= Seq::empty());
    }
    while i < n
        invariant
            i <= n,
            n == b@.len(),
            out@ == encoded_bytes(b@.take(i as int)),
        decreases n - i,
    {
        let c: u8 = b[i];
        let ghost before = out@;
        if (c >= 'a' as u8 && c <= 'z' as u8) || (c >= 'A' as u8 && c <= 'Z' as u8)
            || (c >= '0' as u8 && c <= '9' as u8) || c
            == '-' as u8 || c == '_' as u8 || c == '.' as u8 || c == '~' as u8 {
            out.push(c as char);
        } else {
            out.push('%');
            out.push(upper_hex(c / 16));
            out.push(upper_hex(c % 16));
        }
        proof {
            assert(b@.take(i + 1).drop_last() =~= b@.take(i as int));
            assert(out@ =~= before + encoded_byte(c));
        }
        i = i + 1;
    }
    proof {
        assert(b@.take(n as int) =~= b@);
    }
    out
}

fn hex_digit(b: u8) -> (r: Option<u8>)
    ensures
        match r {
            Some(v) => is_hex(b) && v == hex_value(b) && v < 16,
            None => !is_hex(b),
        },
{
    if b >= '0' as u8 && b <= '9' as u8 {
        Some(b - '0' as u8)
    } else if b >= 'a' as u8 && b <= 'f' as u8 {
        Some(b - 'a' as u8 + 10)
    } else if b >= 'A' as u8 && b <= 'F' as u8 {
        Some(b - 'A' as u8 + 10)
    } else {
        None
    }
}

/// Decodes percent-encoded bytes; what is malformed stays.
pub fn decode_bytes(b: &[u8]) -> (r: Vec<u8>)
    ensures
        r@ == decoded_bytes(b@),
{
    let n: usize = b.len();
    let mut out: Vec<u8> = Vec::new();
    let mut i: usize = 0;
    proof {
        assert(b@.skip(0) =~= b@);
        assert(out@ + decoded_bytes(b@) =~= decoded_bytes(b@));
    }
    while i < n
        invariant
            i <= n,
            n == b@.len(),
            out@ + decoded_bytes(b@.skip(i as int)) == decoded_bytes(b@),
        decreases n - i,
    {
        let ghost before = out@;
        let ghost rest = b@.skip(i as int);
        let mut hit: Option<u8> = None;
        if b[i] == '%' as u8 && n - i > 2 {
            if let (Some(h), Some(l)) = (hex_digit(b[i + 1]), hex_digit(b[i + 2])) {
                hit = Some(h * 16 + l);
            }
        }
        match hit {
            Some(v) => {
                proof {
                    assert(starts_encoded(rest));
                    assert(rest.skip(3) =~= b@.skip(i + 3));
                    assert((before + seq![v]) + decoded_bytes(b@.skip(i + 3)) =~= before + (seq![v]
                        + decoded_bytes(b@.skip(i + 3))));
                }
                out.push(v);
                proof {
                    assert(out@ =~= before + seq![v]);
                }
                i = i + 3;
            },
            None => {
                let c: u8 = b[i];
                proof {
                    assert(!starts_encoded(rest));
                    assert(rest.skip(1) =~= b@.skip(i + 1));
                    assert((before + seq![c]) + decoded_bytes(b@.skip(i + 1)) =~= before + (seq![c]
                        + decoded_bytes(b@.skip(i + 1))));
                }
                out.push(c);
                proof {
                    assert(out@ =~= before + seq![c]);
                }
                i = i + 1;
            },
        }
    }
    proof {
        assert(b@.skip(n as int) =~= Seq::empty());
        assert(out@ + Seq::empty() =~= out@);
    }
    out
}

/// Decodes a percent-encoded text; what is malformed stays.
pub fn decode(s: &str) -> (r: String)
    ensures
        r@ == decoded(s@),
        vstd::utf8::valid_utf8(decoded_bytes(encode_utf8(s@))) ==> r@ == decode_utf8(
            decoded_bytes(encode_utf8(s@)),
        ),
{
    let out = decode_bytes(s.as_bytes());
    bytes::text_lossy(out.as_slice())
}

// The bytes of an ASCII text are its characters.
spec fn ascii_bytes(s: Seq<char>) -> Seq<u8> {
    Seq::new(s.len(), |i: int| s[i] as u8)
}

proof fn lemma_ascii_bytes(s: Seq<char>)
    requires
        is_ascii_chars(s),
    ensures
        encode_utf8(s) == ascii_bytes(s),
{
    is_ascii_chars_encode_utf8(s);
    assert(encode_utf8(s) =~= ascii_bytes(s));
}

proof fn lemma_encoded_ascii(s: Seq<u8>)
    ensures
        is_ascii_chars(encoded_bytes(s)),
    decreases s.len(),
{
    if s.len() > 0 {
        let before = encoded_bytes(s.drop_last());
        lemma_encoded_ascii(s.drop_last());
        let e = encoded_byte(s.last());
        assert forall|i: int| 0 <= i < encoded_bytes(s).len()
            implies '\0' <= #[trigger] encoded_bytes(
            s,
        )[i] <= '\u{7f}' by {
            if i < before.len() {
                assert(encoded_bytes(s)[i] == before[i]);
            } else {
                assert(encoded_bytes(s)[i] == e[i - before.len()]);
            }
        }
    }
}

proof fn lemma_encoded_head(s: Seq<u8>)
    requires
        s.len() > 0,
    ensures
        encoded_bytes(s) == encoded_byte(s[0]) + encoded_bytes(s.skip(1)),
    decreases s.len(),
{
    if s.len() == 1 {
        assert(s.drop_last() =~= Seq::empty());
        assert(s.skip(1) =~= Seq::empty());
        assert(encoded_bytes(s) =~= encoded_byte(s[0]) + encoded_bytes(s.skip(1)));
    } else {
        let t = s.drop_last();
        lemma_encoded_head(t);
        assert(t.skip(1) =~= s.skip(1).drop_last());
        assert(s.skip(1).last() == s.last());
        assert(encoded_bytes(s) =~= encoded_byte(s[0]) + encoded_bytes(s.skip(1)));
    }
}

proof fn lemma_decode_encoded_bytes(s: Seq<u8>)
    ensures
        decoded_bytes(ascii_bytes(encoded_bytes(s))) == s,
    decreases s.len(),
{
    let e = ascii_bytes(encoded_bytes(s));
    if s.len() == 0 {
        assert(e =~= Seq::empty());
        assert(decoded_bytes(e) =~= s);
    } else {
        let b = s[0];
        lemma_encoded_head(s);
        lemma_decode_encoded_bytes(s.skip(1));
        let rest = ascii_bytes(encoded_bytes(s.skip(1)));
        if is_unreserved(b) {
            assert(e[0] == b);
            assert(!starts_encoded(e));
            assert(e.skip(1) =~= rest);
        } else {
            assert(e[0] == '%' as u8);
            assert(e[1] == text::hex_upper(b as int / 16) as u8);
            assert(e[2] == text::hex_upper(b as int % 16) as u8);
            assert(starts_encoded(e));
            assert(e.skip(3) =~= rest);
        }
        assert(decoded_bytes(e) =~= seq![b] + s.skip(1));
        assert(seq![b] + s.skip(1) =~= s);
    }
}

/// Decoding undoes encoding: the bytes of every text come back, and they are the
/// UTF-8 of that text.
pub proof fn law_decode_undoes_encode(s: Seq<char>)
    ensures
        decoded_bytes(encode_utf8(encoded(s))) == encode_utf8(s),
        decode_utf8(decoded_bytes(encode_utf8(encoded(s)))) == s,
{
    lemma_encoded_ascii(encode_utf8(s));
    lemma_ascii_bytes(encoded(s));
    lemma_decode_encoded_bytes(encode_utf8(s));
    encode_utf8_decode_utf8(s);
    encode_utf8_valid_utf8(s);
}

/// True of a character that an encoded text may hold.
pub open spec fn is_encoded_char(c: char) -> bool {
    c == '%' || exists|b: u8| is_unreserved(b) && c == #[trigger] (b as char)
}

/// An encoded text holds nothing but unreserved characters and percent signs, so
/// it cannot end the part of a path or of a query that it stands in.
pub proof fn law_encoded_is_safe(s: Seq<char>)
    ensures
        forall|i: int| 0 <= i < encoded(s).len() ==> is_encoded_char(#[trigger] encoded(s)[i]),
{
    lemma_encoded_safe(encode_utf8(s));
}

proof fn lemma_hex_upper_safe(d: int)
    requires
        0 <= d < 16,
    ensures
        is_encoded_char(text::hex_upper(d)),
{
    let b: u8 = if d < 10 {
        ('0' as u8 + d) as u8
    } else {
        ('A' as u8 + d - 10) as u8
    };
    assert(is_unreserved(b));
    assert(text::hex_upper(d) == b as char);
}

proof fn lemma_encoded_safe(s: Seq<u8>)
    ensures
        forall|i: int|
            0 <= i < encoded_bytes(s).len() ==> is_encoded_char(#[trigger] encoded_bytes(s)[i]),
    decreases s.len(),
{
    if s.len() > 0 {
        let before = encoded_bytes(s.drop_last());
        let b = s.last();
        lemma_encoded_safe(s.drop_last());
        lemma_hex_upper_safe(b as int / 16);
        lemma_hex_upper_safe(b as int % 16);
        if is_unreserved(b) {
            assert(is_encoded_char(b as char));
        }
        assert forall|i: int| 0 <= i < encoded_bytes(s).len() implies is_encoded_char(
            #[trigger] encoded_bytes(s)[i],
        ) by {
            if i < before.len() {
                assert(encoded_bytes(s)[i] == before[i]);
            } else {
                assert(encoded_bytes(s)[i] == encoded_byte(b)[i - before.len()]);
            }
        }
    }
}

// -- Ids in paths --

/// True of an id that stays within its path segment.
pub open spec fn is_path_id(id: Seq<char>) -> bool {
    forall|i: int|
        0 <= i < id.len() ==> #[trigger] id[i] != '/' && id[i] != '?' && id[i] != '#'
            && !text::is_space(id[i])
}

/// Why an id cannot stand in a path; nothing of one that can.
pub open spec fn id_error(what: Seq<char>, id: Seq<char>) -> Option<Seq<char>> {
    if text::blank(id) {
        Some("empty "@ + what)
    } else if !is_path_id(id) {
        Some(what + " must not contain '/', '?', '#' or whitespace"@)
    } else {
        None
    }
}

/// True when no character of the id ends or splits its path segment.
pub fn within_segment(id: &str) -> (r: bool)
    ensures
        r == is_path_id(id@),
{
    let v = text::chars_of(id);
    let mut i: usize = 0;
    while i < v.len()
        invariant
            i <= v@.len(),
            v@ == id@,
            forall|j: int|
                0 <= j < i ==> #[trigger] id@[j] != '/' && id@[j] != '?' && id@[j] != '#'
                    && !text::is_space(id@[j]),
        decreases v@.len() - i,
    {
        let c = v[i];
        if c == '/' || c == '?' || c == '#' || text::is_space_char(c) {
            assert(id@[i as int] == c);
            return false;
        }
        i = i + 1;
    }
    true
}

/// Refuses ids that would break out of their path segment.
pub fn check_id(what: &str, id: &str) -> (r: Result<(), String>)
    ensures
        match r {
            Ok(_) => id_error(what@, id@) is None,
            Err(e) => id_error(what@, id@) == Some(e@),
        },
{
    if text::is_blank(id) {
        return Err(text::join2("empty ", what));
    }
    if !within_segment(id) {
        return Err(text::join2(what, " must not contain '/', '?', '#' or whitespace"));
    }
    Ok(())
}

// -- Words --

/// The words of a text: its longest stretches without white space.
pub open spec fn words(s: Seq<char>) -> Seq<Seq<char>>
    decreases s.len(),
{
    if s.len() == 0 {
        Seq::empty()
    } else {
        let before = words(s.drop_last());
        if text::is_space(s.last()) {
            before
        } else if ends_in_word(s.drop_last()) {
            before.drop_last().push(before.last().push(s.last()))
        } else {
            before.push(seq![s.last()])
        }
    }
}

/// True of a text whose last character belongs to a word.
pub open spec fn ends_in_word(s: Seq<char>) -> bool {
    s.len() > 0 && !text::is_space(s.last())
}

/// A text with one blank between its words, and none around them.
pub open spec fn collapsed(s: Seq<char>) -> Seq<char> {
    text::joined(words(s), " "@)
}

/// The words of a text.
pub fn split_words(s: &str) -> (r: Vec<String>)
    ensures
        text::texts(r@) == words(s@),
{
    let v = text::chars_of(s);
    let n: usize = v.len();
    let mut out: Vec<String> = Vec::new();
    let mut word = String::new();
    let mut open = false;
    let mut i: usize = 0;
    proof {
        assert(v@.take(0) =~= Seq::empty());
        assert(text::texts(out@) =~= words(Seq::empty()));
    }
    while i < n
        invariant
            i <= n,
            n == v@.len(),
            open == ends_in_word(v@.take(i as int)),
            open ==> words(v@.take(i as int)) == text::texts(out@).push(word@),
            !open ==> words(v@.take(i as int)) == text::texts(out@) && word@.len() == 0,
        decreases n - i,
    {
        let c = v[i];
        proof {
            assert(v@.take(i + 1).drop_last() =~= v@.take(i as int));
            assert(v@.take(i + 1).last() == c);
        }
        if text::is_space_char(c) {
            if open {
                let ghost before = out@;
                let ghost w = word@;
                out.push(word);
                word = String::new();
                open = false;
                proof {
                    assert(text::texts(out@) =~= text::texts(before).push(w));
                }
            }
        } else {
            let ghost w = word@;
            word.push(c);
            proof {
                let all = text::texts(out@);
                if open {
                    assert(all.push(w).drop_last() =~= all);
                } else {
                    assert(word@ =~= seq![c]);
                }
            }
            open = true;
        }
        i = i + 1;
    }
    proof {
        assert(v@.take(n as int) =~= v@);
    }
    if open {
        let ghost before = out@;
        let ghost w = word@;
        out.push(word);
        proof {
            assert(text::texts(out@) =~= text::texts(before).push(w));
        }
    }
    out
}

/// Puts one blank between the words of a text, and none around them.
pub fn collapse(s: &str) -> (r: String)
    ensures
        r@ == collapsed(s@),
{
    let parts = split_words(s);
    text::join_texts(&parts, " ")
}

/// True of a text in which one blank stands between words and nothing else parts
/// them; it may end in one.
pub open spec fn spaced_singly(s: Seq<char>) -> bool {
    &&& s.len() > 0 ==> !text::is_space(s[0])
    &&& forall|i: int|
        0 <= i < s.len() && text::is_space(#[trigger] s[i]) ==> s[i] == ' ' && (i + 1 < s.len()
            ==> !text::is_space(s[i + 1]))
}

// No word is empty, and none holds white space.
proof fn lemma_words_whole(s: Seq<char>)
    ensures
        forall|k: int| 0 <= k < words(s).len() ==> (#[trigger] words(s)[k]).len() > 0,
        forall|k: int, i: int|
            0 <= k < words(s).len() && 0 <= i < words(s)[k].len() ==> !text::is_space(
                #[trigger] words(s)[k][i],
            ),
        ends_in_word(s) ==> words(s).len() > 0,
    decreases s.len(),
{
    if s.len() > 0 {
        let p = s.drop_last();
        lemma_words_whole(p);
        let before = words(p);
        let c = s.last();
        assert forall|k: int| 0 <= k < words(s).len() implies (#[trigger] words(s)[k]).len() > 0
            && forall|i: int|
            0 <= i < words(s)[k].len() ==> !text::is_space(#[trigger] words(s)[k][i]) by {
            let w = words(s)[k];
            if k < before.len() - 1 || text::is_space(c) || (k < before.len() && !ends_in_word(p)) {
                assert(w == before[k]);
            } else if ends_in_word(p) {
                assert(w == before.last().push(c));
                assert forall|i: int| 0 <= i < w.len() implies !text::is_space(#[trigger] w[i]) by {
                    if i < w.len() - 1 {
                        assert(w[i] == before[before.len() - 1][i]);
                    }
                }
            } else {
                assert(w == seq![c]);
            }
        }
    }
}

proof fn lemma_joined_spaced(parts: Seq<Seq<char>>)
    requires
        forall|k: int| 0 <= k < parts.len() ==> (#[trigger] parts[k]).len() > 0,
        forall|k: int, i: int|
            0 <= k < parts.len() && 0 <= i < parts[k].len() ==> !text::is_space(
                #[trigger] parts[k][i],
            ),
    ensures
        spaced_singly(text::joined(parts, " "@)),
        parts.len() > 0 ==> ends_in_word(text::joined(parts, " "@)),
    decreases parts.len(),
{
    reveal_strlit(" ");
    if parts.len() > 1 {
        let p = parts.drop_last();
        lemma_joined_spaced(p);
        let a = text::joined(p, " "@);
        let w = parts.last();
        let s = text::joined(parts, " "@);
        assert(s == a + " "@ + w);
        assert(w == parts[parts.len() - 1]);
        assert forall|i: int| 0 <= i < s.len() && text::is_space(#[trigger] s[i]) implies s[i]
            == ' ' && (i + 1 < s.len() ==> !text::is_space(s[i + 1])) by {
            if i < a.len() {
                assert(s[i] == a[i]);
                if i + 1 < a.len() {
                    assert(s[i + 1] == a[i + 1]);
                }
            } else if i > a.len() {
                assert(s[i] == w[i - a.len() - 1]);
            } else {
                assert(s[i + 1] == w[0]);
            }
        }
        assert(s[0] == a[0]);
        assert(s.last() == w[w.len() - 1]);
    }
}

// Joining the words of a singly spaced text gives it back, but for a last blank.
proof fn lemma_spaced_words(s: Seq<char>)
    requires
        spaced_singly(s),
    ensures
        collapsed(s) == if s.len() > 0 && text::is_space(s.last()) {
            s.drop_last()
        } else {
            s
        },
    decreases s.len(),
{
    reveal_strlit(" ");
    if s.len() > 0 {
        let p = s.drop_last();
        assert forall|i: int| 0 <= i < p.len() && text::is_space(#[trigger] p[i]) implies p[i]
            == ' ' && (i + 1 < p.len() ==> !text::is_space(p[i + 1])) by {
            assert(p[i] == s[i]);
            if i + 1 < p.len() {
                assert(p[i + 1] == s[i + 1]);
            }
        }
        assert(p.len() > 0 ==> p[0] == s[0]);
        lemma_spaced_words(p);
        lemma_words_whole(p);
        let before = words(p);
        let c = s.last();
        if text::is_space(c) {
            assert(p.len() > 0);
            if text::is_space(p.last()) {
                assert(text::is_space(s[p.len() - 1]));
            }
        } else if ends_in_word(p) {
            let after = before.drop_last().push(before.last().push(c));
            assert(after.drop_last() =~= before.drop_last());
            assert(text::joined(after, " "@) =~= text::joined(before, " "@).push(c));
            assert(p.push(c) =~= s);
        } else {
            let after = before.push(seq![c]);
            assert(after.drop_last() =~= before);
            if p.len() == 0 {
                assert(before =~= Seq::empty());
                assert(text::joined(after, " "@) =~= s);
            } else {
                assert(p[p.len() - 1] == ' ');
                let q = p.drop_last();
                assert(q.len() > 0);
                assert(collapsed(p) == q);
                assert(before.len() > 0);
                assert(text::joined(after, " "@) == q + " "@ + seq![c]);
                assert(q + " "@ + seq![c] =~= s);
            }
        }
    }
}

/// A text that is collapsed is singly spaced, and does not end in a blank.
pub proof fn lemma_collapsed_spaced(s: Seq<char>)
    ensures
        spaced_singly(collapsed(s)),
        collapsed(s).len() > 0 ==> ends_in_word(collapsed(s)),
{
    lemma_words_whole(s);
    lemma_joined_spaced(words(s));
}

/// Collapsing leaves a text as it is that is singly spaced and does not end in a
/// blank.
pub proof fn law_spaced_text_stays(s: Seq<char>)
    requires
        spaced_singly(s),
        s.len() > 0 ==> ends_in_word(s),
    ensures
        collapsed(s) == s,
{
    lemma_spaced_words(s);
}

/// Collapsing a second time changes nothing.
pub proof fn law_collapse_twice(s: Seq<char>)
    ensures
        collapsed(collapsed(s)) == collapsed(s),
{
    lemma_collapsed_spaced(s);
    law_spaced_text_stays(collapsed(s));
}

// -- HTML --

/// True when a text ends inside a tag.
pub open spec fn ends_in_tag(s: Seq<char>) -> bool
    decreases s.len(),
{
    if s.len() == 0 {
        false
    } else if s.last() == '<' {
        true
    } else if s.last() == '>' {
        false
    } else {
        ends_in_tag(s.drop_last())
    }
}

/// The characters outside tags, with `gap` behind each tag.
pub open spec fn outside_tags(s: Seq<char>, gap: Seq<char>) -> Seq<char>
    decreases s.len(),
{
    if s.len() == 0 {
        Seq::empty()
    } else {
        let before = outside_tags(s.drop_last(), gap);
        if s.last() == '<' {
            before
        } else if s.last() == '>' {
            before + gap
        } else if ends_in_tag(s.drop_last()) {
            before
        } else {
            before.push(s.last())
        }
    }
}

/// The common entity at the start of a text, by its length and by the character that
/// it stands for.
pub open spec fn leading_entity(s: Seq<char>) -> Option<(int, char)> {
    if "&amp;"@.is_prefix_of(s) {
        Some((5, '&'))
    } else if "&lt;"@.is_prefix_of(s) {
        Some((4, '<'))
    } else if "&gt;"@.is_prefix_of(s) {
        Some((4, '>'))
    } else if "&quot;"@.is_prefix_of(s) {
        Some((6, '"'))
    } else if "&#39;"@.is_prefix_of(s) {
        Some((5, '\''))
    } else if "&nbsp;"@.is_prefix_of(s) {
        Some((6, ' '))
    } else {
        None
    }
}

/// A text with the common entities decoded. What an entity stands for is not read
/// again.
pub open spec fn decoded_entities(s: Seq<char>) -> Seq<char>
    decreases s.len(),
{
    if s.len() == 0 {
        Seq::empty()
    } else {
        proof {
            reveal_strlit("&amp;");
            reveal_strlit("&lt;");
            reveal_strlit("&gt;");
            reveal_strlit("&quot;");
            reveal_strlit("&#39;");
            reveal_strlit("&nbsp;");
        }
        match leading_entity(s) {
            Some((n, c)) => seq![c] + decoded_entities(s.skip(n)),
            None => seq![s[0]] + decoded_entities(s.skip(1)),
        }
    }
}

// The entity that stands at a place, if one does.
fn entity_at(v: &Vec<char>, at: usize) -> (r: Option<(usize, char)>)
    requires
        at <= v@.len(),
    ensures
        match r {
            Some((n, c)) => leading_entity(v@.skip(at as int)) == Some((n as int, c)) && n > 0
                && at + n <= v@.len(),
            None => leading_entity(v@.skip(at as int)) is None,
        },
{
    proof {
        reveal_strlit("&amp;");
        reveal_strlit("&lt;");
        reveal_strlit("&gt;");
        reveal_strlit("&quot;");
        reveal_strlit("&#39;");
        reveal_strlit("&nbsp;");
    }
    if stands_here(v, "&amp;", at) {
        Some((5, '&'))
    } else if stands_here(v, "&lt;", at) {
        Some((4, '<'))
    } else if stands_here(v, "&gt;", at) {
        Some((4, '>'))
    } else if stands_here(v, "&quot;", at) {
        Some((6, '"'))
    } else if stands_here(v, "&#39;", at) {
        Some((5, '\''))
    } else if stands_here(v, "&nbsp;", at) {
        Some((6, ' '))
    } else {
        None
    }
}

fn stands_here(v: &Vec<char>, p: &str, at: usize) -> (r: bool)
    requires
        at <= v@.len(),
    ensures
        r == p@.is_prefix_of(v@.skip(at as int)),
        r ==> at + p@.len() <= v@.len(),
{
    let w = text::chars_of(p);
    let r = text::stands_at(v, &w, at);
    proof {
        let rest = v@.skip(at as int);
        if at + p@.len() <= v@.len() {
            assert(v@.subrange(at as int, at + p@.len()) =~= rest.take(p@.len() as int));
            assert(p@.is_prefix_of(rest) <==> rest.take(p@.len() as int) =~= p@);
        }
    }
    r
}

/// Decodes the common entities.
pub fn decode_entities(s: &str) -> (r: String)
    ensures
        r@ == decoded_entities(s@),
{
    let v = text::chars_of(s);
    let n: usize = v.len();
    let mut out = String::new();
    let mut i: usize = 0;
    proof {
        assert(v@.skip(0) =~= v@);
        assert(out@ + decoded_entities(v@) =~= decoded_entities(v@));
    }
    while i < n
        invariant
            i <= n,
            n == v@.len(),
            out@ + decoded_entities(v@.skip(i as int)) == decoded_entities(v@),
        decreases n - i,
    {
        let ghost before = out@;
        let (len, c): (usize, char) = match entity_at(&v, i) {
            Some(e) => e,
            None => (1, v[i]),
        };
        out.push(c);
        proof {
            let rest = v@.skip(i + len);
            assert(v@.skip(i as int).skip(len as int) =~= rest);
            assert(out@ + decoded_entities(rest) =~= before + (seq![c] + decoded_entities(rest)));
        }
        i = i + len;
    }
    proof {
        assert(v@.skip(n as int) =~= Seq::empty());
        assert(out@ + Seq::empty() =~= out@);
    }
    out
}

/// The visible text of HTML, with `gap` in the place of each tag.
pub open spec fn visible_text(html: Seq<char>, gap: Seq<char>) -> Seq<char> {
    decoded_entities(outside_tags(html, gap))
}

/// Takes the tags out of HTML and decodes the common entities.
pub fn strip_tags(html: &str, gap: &str) -> (r: String)
    ensures
        r@ == visible_text(html@, gap@),
{
    let v = text::chars_of(html);
    let n: usize = v.len();
    let mut out = String::new();
    let mut in_tag = false;
    let mut i: usize = 0;
    proof {
        assert(v@.take(0) =~= Seq::empty());
    }
    while i < n
        invariant
            i <= n,
            n == v@.len(),
            in_tag == ends_in_tag(v@.take(i as int)),
            out@ == outside_tags(v@.take(i as int), gap@),
        decreases n - i,
    {
        let c = v[i];
        proof {
            assert(v@.take(i + 1).drop_last() =~= v@.take(i as int));
            assert(v@.take(i + 1).last() == c);
        }
        if c == '<' {
            in_tag = true;
        } else if c == '>' {
            in_tag = false;
            out.append(gap);
        } else if !in_tag {
            out.push(c);
        }
        i = i + 1;
    }
    proof {
        assert(v@.take(n as int) =~= v@);
    }
    decode_entities(out.as_str())
}

/// A character as it stands in HTML text; quotes matter in attributes only.
pub open spec fn escaped_char(c: char, quotes: bool) -> Seq<char> {
    if c == '&' {
        "&amp;"@
    } else if c == '<' {
        "&lt;"@
    } else if c == '>' {
        "&gt;"@
    } else if quotes && c == '"' {
        "&quot;"@
    } else if quotes && c == '\'' {
        "&#39;"@
    } else {
        seq![c]
    }
}

/// A text as it stands in HTML.
pub open spec fn escaped(s: Seq<char>, quotes: bool) -> Seq<char>
    decreases s.len(),
{
    if s.len() == 0 {
        Seq::empty()
    } else {
        escaped_char(s[0], quotes) + escaped(s.skip(1), quotes)
    }
}

/// Writes a text so that it can stand in HTML.
pub fn escape(s: &str, quotes: bool) -> (r: String)
    ensures
        r@ == escaped(s@, quotes),
{
    let v = text::chars_of(s);
    let n: usize = v.len();
    let mut out = String::new();
    let mut i: usize = 0;
    proof {
        assert(v@.skip(0) =~= v@);
        assert(out@ + escaped(v@, quotes) =~= escaped(v@, quotes));
    }
    while i < n
        invariant
            i <= n,
            n == v@.len(),
            out@ + escaped(v@.skip(i as int), quotes) == escaped(v@, quotes),
        decreases n - i,
    {
        let c = v[i];
        let ghost before = out@;
        if c == '&' {
            out.append("&amp;");
        } else if c == '<' {
            out.append("&lt;");
        } else if c == '>' {
            out.append("&gt;");
        } else if quotes && c == '"' {
            out.append("&quot;");
        } else if quotes && c == '\'' {
            out.append("&#39;");
        } else {
            out.push(c);
        }
        proof {
            let rest = escaped(v@.skip(i + 1), quotes);
            assert(v@.skip(i as int).skip(1) =~= v@.skip(i + 1));
            assert(out@ =~= before + escaped_char(c, quotes));
            assert(out@ + rest =~= before + (escaped_char(c, quotes) + rest));
        }
        i = i + 1;
    }
    proof {
        assert(v@.skip(n as int) =~= Seq::empty());
        assert(out@ + Seq::empty() =~= out@);
    }
    out
}

/// An escaped text has no tags in it, and no quotes where quotes are escaped.
pub proof fn lemma_escaped_plain(s: Seq<char>, quotes: bool)
    ensures
        forall|i: int|
            0 <= i < escaped(s, quotes).len() ==> #[trigger] escaped(s, quotes)[i] != '<'
                && escaped(s, quotes)[i] != '>' && (quotes ==> escaped(s, quotes)[i] != '"'
                && escaped(s, quotes)[i] != '\''),
    decreases s.len(),
{
    reveal_strlit("&amp;");
    reveal_strlit("&lt;");
    reveal_strlit("&gt;");
    reveal_strlit("&quot;");
    reveal_strlit("&#39;");
    if s.len() > 0 {
        lemma_escaped_plain(s.skip(1), quotes);
        let head = escaped_char(s[0], quotes);
        let rest = escaped(s.skip(1), quotes);
        let whole = escaped(s, quotes);
        assert(whole =~= head + rest);
        assert forall|i: int| 0 <= i < whole.len() implies #[trigger] whole[i] != '<' && whole[i]
            != '>' && (quotes ==> whole[i] != '"' && whole[i] != '\'') by {
            if i < head.len() {
                assert(whole[i] == head[i]);
            } else {
                assert(whole[i] == rest[i - head.len()]);
            }
        }
    }
}

// -- Reading an escaped text back --

/// Decoding undoes escaping.
pub proof fn law_decode_undoes_escape(s: Seq<char>, quotes: bool)
    ensures
        decoded_entities(escaped(s, quotes)) == s,
    decreases s.len(),
{
    if s.len() > 0 {
        let c = s[0];
        let head = escaped_char(c, quotes);
        let rest = escaped(s.skip(1), quotes);
        law_decode_undoes_escape(s.skip(1), quotes);
        lemma_escaped_leads(c, rest, quotes);
        assert((head + rest).skip(head.len() as int) =~= rest);
        assert(seq![c] + s.skip(1) =~= s);
    } else {
        assert(s =~= Seq::empty());
    }
}

// What leads an escaped text.
proof fn lemma_escaped_leads(c: char, rest: Seq<char>, quotes: bool)
    ensures
        escaped_char(c, quotes).len() > 0,
        leading_entity(escaped_char(c, quotes) + rest) == if escaped_char(c, quotes) == seq![c] {
            None::<(int, char)>
        } else {
            Some((escaped_char(c, quotes).len() as int, c))
        },
        escaped_char(c, quotes) == seq![c] ==> (escaped_char(c, quotes) + rest)[0] == c,
{
    reveal_strlit("&amp;");
    reveal_strlit("&lt;");
    reveal_strlit("&gt;");
    reveal_strlit("&quot;");
    reveal_strlit("&#39;");
    reveal_strlit("&nbsp;");
    let head = escaped_char(c, quotes);
    let s = head + rest;
    assert(s.take(head.len() as int) =~= head);
    assert(head.is_prefix_of(s));
    if head.len() > 1 {
        assert(s[1] == head[1]);
        assert(head != seq![c]);
    } else {
        assert(s[0] == c);
    }
    lemma_leads(s, "&amp;"@);
    lemma_leads(s, "&lt;"@);
    lemma_leads(s, "&gt;"@);
    lemma_leads(s, "&quot;"@);
    lemma_leads(s, "&#39;"@);
    lemma_leads(s, "&nbsp;"@);
}

proof fn lemma_leads(s: Seq<char>, p: Seq<char>)
    requires
        p.len() > 1,
    ensures
        p.is_prefix_of(s) ==> s.len() > 1 && s[0] == p[0] && s[1] == p[1],
{
    if p.is_prefix_of(s) {
        assert(s.take(p.len() as int)[0] == p[0]);
        assert(s.take(p.len() as int)[1] == p[1]);
    }
}

proof fn lemma_tags_then_text(a: Seq<char>, b: Seq<char>)
    requires
        !ends_in_tag(a),
        forall|i: int| 0 <= i < b.len() ==> #[trigger] b[i] != '<' && b[i] != '>',
    ensures
        outside_tags(a + b, Seq::empty()) == outside_tags(a, Seq::empty()) + b,
        !ends_in_tag(a + b),
    decreases b.len(),
{
    if b.len() == 0 {
        assert(a + b =~= a);
        assert(outside_tags(a, Seq::empty()) + b =~= outside_tags(a, Seq::empty()));
    } else {
        let c = b.drop_last();
        assert((a + b).drop_last() =~= a + c);
        assert((a + b).last() == b.last());
        lemma_tags_then_text(a, c);
        assert(outside_tags(a, Seq::empty()) + b =~= (outside_tags(a, Seq::empty()) + c).push(
            b.last(),
        ));
    }
}

// What stands outside the tags of a paragraph.
proof fn lemma_paragraph_text(e: Seq<char>)
    requires
        forall|i: int| 0 <= i < e.len() ==> #[trigger] e[i] != '<' && e[i] != '>',
    ensures
        outside_tags("<p>"@ + e + "</p>"@, ""@) == e,
{
    reveal_strlit("<p>");
    reveal_strlit("</p>");
    reveal_strlit("");
    assert(""@ =~= Seq::empty());
    let open = "<p>"@;
    let o0 = Seq::<char>::empty();
    let o1 = o0.push('<');
    let o2 = o1.push('p');
    assert(open =~= o2.push('>'));
    assert(open.drop_last() =~= o2 && o2.drop_last() =~= o1 && o1.drop_last() =~= o0);
    assert(ends_in_tag(o1));
    assert(ends_in_tag(o2));
    assert(outside_tags(o1, Seq::empty()) == outside_tags(o0, Seq::empty()));
    assert(outside_tags(o2, Seq::empty()) == outside_tags(o1, Seq::empty()));
    assert(!ends_in_tag(open) && outside_tags(open, Seq::empty()) =~= Seq::empty());
    lemma_tags_then_text(open, e);
    let w0 = open + e;
    assert(outside_tags(w0, Seq::empty()) =~= e);
    let w1 = w0.push('<');
    let w2 = w1.push('/');
    let w3 = w2.push('p');
    let w4 = w3.push('>');
    assert(w1.drop_last() =~= w0 && w2.drop_last() =~= w1 && w3.drop_last() =~= w2
        && w4.drop_last() =~= w3);
    assert(ends_in_tag(w1));
    assert(ends_in_tag(w2));
    assert(ends_in_tag(w3));
    assert(outside_tags(w1, Seq::empty()) == e);
    assert(outside_tags(w2, Seq::empty()) == e);
    assert(outside_tags(w3, Seq::empty()) == e);
    assert(outside_tags(w4, Seq::empty()) =~= e);
    assert(open + e + "</p>"@ =~= w4);
}

/// A paragraph reads back as the text that was escaped into it.
pub proof fn law_visible_undoes_escape(s: Seq<char>)
    ensures
        visible_text("<p>"@ + escaped(s, true) + "</p>"@, ""@) == s,
{
    lemma_escaped_plain(s, true);
    lemma_paragraph_text(escaped(s, true));
    law_decode_undoes_escape(s, true);
}

// -- What the operations on addresses and HTML do --

/// Tags are left out, with the gap in their place, and what stands around them stays.
pub proof fn law_tags_are_left_out(
    a: Seq<char>,
    tag: Seq<char>,
    b: Seq<char>,
    gap: Seq<char>,
)
    requires
        !a.contains('<') && !a.contains('>'),
        !tag.contains('<') && !tag.contains('>'),
    ensures
        outside_tags(a, gap) == a,
        outside_tags(a + Seq::empty().push('<') + tag + Seq::empty().push('>') + b, gap) == a + gap
            + outside_tags(b, gap),
    decreases b.len(),
{
    lemma_no_tags(a, gap);
    let head = a + Seq::empty().push('<');
    assert(head.drop_last() =~= a);
    lemma_inside_tag(head, tag, gap);
    let open = head + tag;
    let closed = open + Seq::empty().push('>');
    assert(closed.drop_last() =~= open);
    assert(outside_tags(closed, gap) == a + gap);
    assert(!ends_in_tag(closed));
    lemma_behind_tag(closed, b, gap);
}

proof fn lemma_no_tags(a: Seq<char>, gap: Seq<char>)
    requires
        !a.contains('<') && !a.contains('>'),
    ensures
        outside_tags(a, gap) == a,
        !ends_in_tag(a),
    decreases a.len(),
{
    if a.len() > 0 {
        let t = a.drop_last();
        assert(a.contains(a.last()));
        assert(!t.contains('<') && !t.contains('>')) by {
            if t.contains('<') {
                let i = choose|i: int| 0 <= i < t.len() && t[i] == '<';
                assert(a[i] == '<');
            }
            if t.contains('>') {
                let i = choose|i: int| 0 <= i < t.len() && t[i] == '>';
                assert(a[i] == '>');
            }
        }
        lemma_no_tags(t, gap);
        assert(t.push(a.last()) =~= a);
    }
}

proof fn lemma_inside_tag(head: Seq<char>, tag: Seq<char>, gap: Seq<char>)
    requires
        ends_in_tag(head),
        !tag.contains('<') && !tag.contains('>'),
    ensures
        ends_in_tag(head + tag),
        outside_tags(head + tag, gap) == outside_tags(head, gap),
    decreases tag.len(),
{
    if tag.len() == 0 {
        assert(head + tag =~= head);
    } else {
        let t = tag.drop_last();
        assert(tag.contains(tag.last()));
        assert(!t.contains('<') && !t.contains('>')) by {
            if t.contains('<') {
                let i = choose|i: int| 0 <= i < t.len() && t[i] == '<';
                assert(tag[i] == '<');
            }
            if t.contains('>') {
                let i = choose|i: int| 0 <= i < t.len() && t[i] == '>';
                assert(tag[i] == '>');
            }
        }
        lemma_inside_tag(head, t, gap);
        assert((head + tag).drop_last() =~= head + t);
        assert((head + tag).last() == tag.last());
    }
}

proof fn lemma_behind_tag(a: Seq<char>, b: Seq<char>, gap: Seq<char>)
    requires
        !ends_in_tag(a),
    ensures
        outside_tags(a + b, gap) == outside_tags(a, gap) + outside_tags(b, gap),
        ends_in_tag(a + b) == ends_in_tag(b),
    decreases b.len(),
{
    if b.len() == 0 {
        assert(a + b =~= a);
        assert(outside_tags(a, gap) + outside_tags(b, gap) =~= outside_tags(a, gap));
    } else {
        lemma_behind_tag(a, b.drop_last(), gap);
        assert((a + b).drop_last() =~= a + b.drop_last());
        assert((a + b).last() == b.last());
        assert(outside_tags(a + b, gap) =~= outside_tags(a, gap) + outside_tags(b, gap));
    }
}

/// An entity stands for its character, and what follows is read in the same way.
pub proof fn law_entities_stand_for_characters(rest: Seq<char>, c: char)
    ensures
        decoded_entities("&amp;"@ + rest) == Seq::empty().push('&') + decoded_entities(rest),
        decoded_entities("&lt;"@ + rest) == Seq::empty().push('<') + decoded_entities(rest),
        decoded_entities("&gt;"@ + rest) == Seq::empty().push('>') + decoded_entities(rest),
        decoded_entities("&quot;"@ + rest) == Seq::empty().push('"') + decoded_entities(rest),
        decoded_entities("&#39;"@ + rest) == Seq::empty().push('\'') + decoded_entities(rest),
        decoded_entities("&nbsp;"@ + rest) == Seq::empty().push(' ') + decoded_entities(rest),
        c != '&' ==> decoded_entities(Seq::empty().push(c) + rest) == Seq::empty().push(c)
            + decoded_entities(rest),
{
    lemma_escaped_entity('&', rest);
    lemma_escaped_entity('<', rest);
    lemma_escaped_entity('>', rest);
    lemma_escaped_entity('"', rest);
    lemma_escaped_entity('\'', rest);
    lemma_blank_entity(rest);
    if c != '&' {
        lemma_plain_character(c, rest);
    }
}

proof fn lemma_escaped_entity(c: char, rest: Seq<char>)
    requires
        c == '&' || c == '<' || c == '>' || c == '"' || c == '\'',
    ensures
        decoded_entities(escaped_char(c, true) + rest) == Seq::empty().push(c) + decoded_entities(
            rest,
        ),
{
    lemma_escaped_leads(c, rest, true);
    let head = escaped_char(c, true);
    assert(head.len() > 1) by {
        reveal_strlit("&amp;");
        reveal_strlit("&lt;");
        reveal_strlit("&gt;");
        reveal_strlit("&quot;");
        reveal_strlit("&#39;");
    }
    assert((head + rest).skip(head.len() as int) =~= rest);
}

proof fn lemma_blank_entity(rest: Seq<char>)
    ensures
        decoded_entities("&nbsp;"@ + rest) == Seq::empty().push(' ') + decoded_entities(rest),
{
    reveal_strlit("&amp;");
    reveal_strlit("&lt;");
    reveal_strlit("&gt;");
    reveal_strlit("&quot;");
    reveal_strlit("&#39;");
    reveal_strlit("&nbsp;");
    let s = "&nbsp;"@ + rest;
    assert(s.take(6) =~= "&nbsp;"@);
    assert(s.skip(6) =~= rest);
    assert(s[1] == 'n');
    lemma_leads(s, "&amp;"@);
    lemma_leads(s, "&lt;"@);
    lemma_leads(s, "&gt;"@);
    lemma_leads(s, "&quot;"@);
    lemma_leads(s, "&#39;"@);
}

proof fn lemma_plain_character(c: char, rest: Seq<char>)
    requires
        c != '&',
    ensures
        decoded_entities(Seq::empty().push(c) + rest) == Seq::empty().push(c) + decoded_entities(
            rest,
        ),
{
    reveal_strlit("&amp;");
    reveal_strlit("&lt;");
    reveal_strlit("&gt;");
    reveal_strlit("&quot;");
    reveal_strlit("&#39;");
    reveal_strlit("&nbsp;");
    let s = Seq::empty().push(c) + rest;
    assert(s[0] == c);
    assert(s.skip(1) =~= rest);
    lemma_leads(s, "&amp;"@);
    lemma_leads(s, "&lt;"@);
    lemma_leads(s, "&gt;"@);
    lemma_leads(s, "&quot;"@);
    lemma_leads(s, "&#39;"@);
    lemma_leads(s, "&nbsp;"@);
}

/// Escaping treats each character by itself: the five that HTML gives a meaning become
/// their entities, and every other stays.
pub proof fn law_escaping_goes_by_characters(a: Seq<char>, b: Seq<char>, quotes: bool, c: char)
    ensures
        escaped(a + b, quotes) == escaped(a, quotes) + escaped(b, quotes),
        escaped(Seq::empty(), quotes) == Seq::<char>::empty(),
        escaped_char('&', quotes) == "&amp;"@,
        escaped_char('<', quotes) == "&lt;"@,
        escaped_char('>', quotes) == "&gt;"@,
        escaped_char('"', true) == "&quot;"@,
        escaped_char('\'', true) == "&#39;"@,
        escaped_char('"', false) == Seq::empty().push('"'),
        escaped_char('\'', false) == Seq::empty().push('\''),
        c != '&' && c != '<' && c != '>' && c != '"' && c != '\'' ==> escaped_char(c, quotes)
            == Seq::empty().push(c),
        escaped(Seq::empty().push(c), quotes) == escaped_char(c, quotes),
    decreases a.len(),
{
    let one = Seq::empty().push(c);
    assert(one.skip(1) =~= Seq::empty());
    assert(escaped(one.skip(1), quotes) =~= Seq::empty());
    assert(escaped(one, quotes) =~= escaped_char(c, quotes));
    if a.len() == 0 {
        assert(a + b =~= b);
        assert(escaped(a, quotes) + escaped(b, quotes) =~= escaped(b, quotes));
    } else {
        law_escaping_goes_by_characters(a.skip(1), b, quotes, c);
        assert((a + b).skip(1) =~= a.skip(1) + b);
        assert((a + b)[0] == a[0]);
        assert(escaped(a + b, quotes) =~= escaped(a, quotes) + escaped(b, quotes));
    }
}

/// Unreserved bytes stand for themselves in an address, and each other is a percent sign
/// and its two digits.
pub proof fn law_unreserved_bytes_stay(a: Seq<u8>, b: u8)
    ensures
        encoded_bytes(a.push(b)) == encoded_bytes(a) + encoded_byte(b),
        ('a' as u8 <= b <= 'z' as u8) || ('A' as u8 <= b <= 'Z' as u8) || ('0' as u8 <= b
            <= '9' as u8) || b == 45 || b == 95 || b == 46 || b == 126 ==> encoded_byte(b)
            == Seq::empty().push(b as char),
        b == 32 ==> encoded_byte(b) == Seq::empty().push('%').push('2').push('0'),
        b == 47 ==> encoded_byte(b) == Seq::empty().push('%').push('2').push('F'),
        b == 37 ==> encoded_byte(b) == Seq::empty().push('%').push('2').push('5'),
        encoded_byte(b).len() == 1 || (encoded_byte(b).len() == 3 && encoded_byte(b)[0] == '%'),
{
    assert(a.push(b).drop_last() =~= a);
}

/// An id may stand in a path where it is not blank and holds neither a slash, a question
/// mark, a hash sign nor a blank; the error says which of the two it is.
pub proof fn law_path_ids(what: Seq<char>, id: Seq<char>)
    ensures
        id_error(what, id) is None <==> !text::blank(id) && !id.contains('/') && !id.contains('?')
            && !id.contains('#') && !text::has_space(id),
        text::blank(id) ==> id_error(what, id) == Some("empty "@ + what),
        !text::blank(id) && id_error(what, id) is Some ==> id_error(what, id) == Some(
            what + " must not contain '/', '?', '#' or whitespace"@,
        ),
{
    if is_path_id(id) {
        assert(!id.contains('/') && !id.contains('?') && !id.contains('#'));
        assert(!text::has_space(id));
    } else {
        let i = choose|i: int|
            0 <= i < id.len() && !(#[trigger] id[i] != '/' && id[i] != '?' && id[i] != '#'
                && !text::is_space(id[i]));
        assert(id.contains(id[i]));
    }
}

/// Words are what stands between blanks: none holds one, and those of two texts with a
/// blank between them are the words of the first and then of the second.
pub proof fn law_words_stand_between_blanks(a: Seq<char>, c: char, b: Seq<char>)
    requires
        text::is_space(c),
    ensures
        words(a + Seq::empty().push(c) + b) == words(a) + words(b),
        a.len() > 0 && !text::has_space(a) ==> words(a) == Seq::empty().push(a),
        text::blank(a) ==> words(a) == Seq::<Seq<char>>::empty(),
    decreases b.len(),
{
    if a.len() > 0 && !text::has_space(a) {
        lemma_one_word(a);
    }
    if text::blank(a) {
        lemma_no_word(a);
    }
    let head = a + Seq::empty().push(c);
    assert(head.drop_last() =~= a);
    assert(words(head) == words(a));
    lemma_more_words(head, b);
    assert(head + b =~= a + Seq::empty().push(c) + b);
}

proof fn lemma_one_word(a: Seq<char>)
    requires
        a.len() > 0,
        !text::has_space(a),
    ensures
        words(a) == Seq::empty().push(a),
    decreases a.len(),
{
    let t = a.drop_last();
    assert(!text::is_space(a[a.len() - 1]));
    if t.len() == 0 {
        assert(words(t) =~= Seq::empty());
        assert(seq![a.last()] =~= a);
    } else {
        assert(!text::has_space(t)) by {
            if text::has_space(t) {
                let i = choose|i: int| 0 <= i < t.len() && text::is_space(#[trigger] t[i]);
                assert(text::is_space(a[i]));
            }
        }
        lemma_one_word(t);
        assert(!text::is_space(a[a.len() - 2]));
        assert(ends_in_word(t));
        assert(words(a) =~= Seq::empty().push(t.push(a.last())));
        assert(t.push(a.last()) =~= a);
    }
}

proof fn lemma_no_word(a: Seq<char>)
    requires
        text::blank(a),
    ensures
        words(a) == Seq::<Seq<char>>::empty(),
    decreases a.len(),
{
    if a.len() > 0 {
        assert(text::is_space(a[a.len() - 1]));
        assert forall|i: int| 0 <= i < a.drop_last().len() implies text::is_space(
            #[trigger] a.drop_last()[i],
        ) by {
            assert(a.drop_last()[i] == a[i]);
        }
        lemma_no_word(a.drop_last());
    }
}

proof fn lemma_more_words(head: Seq<char>, b: Seq<char>)
    requires
        head.len() > 0,
        text::is_space(head.last()),
    ensures
        words(head + b) == words(head) + words(b),
        b.len() > 0 ==> ends_in_word(head + b) == ends_in_word(b),
        ends_in_word(b) ==> words(b).len() > 0,
    decreases b.len(),
{
    if b.len() == 0 {
        assert(head + b =~= head);
        assert(words(b) =~= Seq::empty());
        assert(words(head) + words(b) =~= words(head));
    } else {
        let t = b.drop_last();
        lemma_more_words(head, t);
        let s = head + b;
        assert(s.drop_last() =~= head + t);
        assert(s.last() == b.last());
        if t.len() == 0 {
            assert(head + t =~= head);
        }
        if !text::is_space(b.last()) {
            if ends_in_word(t) {
                assert(words(t).len() > 0);
                assert((words(head) + words(t)).drop_last() =~= words(head) + words(t).drop_last());
                assert((words(head) + words(t)).last() == words(t).last());
            }
            assert(words(s) =~= words(head) + words(b));
        }
    }
}

} // verus!
