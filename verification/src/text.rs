//! Text as a sequence of characters: the vocabulary that the contracts of the
//! crate speak, and the verified operations behind it.
use vstd::prelude::*;
use vstd::utf8::*;

verus! {

/// `String::push` appends one character.
pub assume_specification[ String::push ](s: &mut String, c: char)
    ensures
        final(s)@ == old(s)@.push(c),
;

/// The characters with the Unicode `White_Space` property.
pub open spec fn is_space(c: char) -> bool {
    ||| '\u{9}' <= c <= '\u{d}'
    ||| c == ' '
    ||| c == '\u{85}'
    ||| c == '\u{a0}'
    ||| c == '\u{1680}'
    ||| '\u{2000}' <= c <= '\u{200a}'
    ||| c == '\u{2028}'
    ||| c == '\u{2029}'
    ||| c == '\u{202f}'
    ||| c == '\u{205f}'
    ||| c == '\u{3000}'
}

/// `s` without its leading white space.
pub open spec fn trim_start_of(s: Seq<char>) -> Seq<char>
    decreases s.len(),
{
    if s.len() > 0 && is_space(s[0]) {
        trim_start_of(s.skip(1))
    } else {
        s
    }
}

/// `s` without its trailing white space.
pub open spec fn trim_end_of(s: Seq<char>) -> Seq<char>
    decreases s.len(),
{
    if s.len() > 0 && is_space(s.last()) {
        trim_end_of(s.drop_last())
    } else {
        s
    }
}

/// `s` without the characters of `set` at its end.
pub open spec fn trimmed_end_of(s: Seq<char>, set: Seq<char>) -> Seq<char>
    decreases s.len(),
{
    if s.len() > 0 && set.contains(s.last()) {
        trimmed_end_of(s.drop_last(), set)
    } else {
        s
    }
}

/// `s` without the characters of `set` at its start.
pub open spec fn trimmed_start_of(s: Seq<char>, set: Seq<char>) -> Seq<char>
    decreases s.len(),
{
    if s.len() > 0 && set.contains(s[0]) {
        trimmed_start_of(s.skip(1), set)
    } else {
        s
    }
}

/// `s` without the characters of `set` at its ends.
pub open spec fn trimmed_of(s: Seq<char>, set: Seq<char>) -> Seq<char> {
    trimmed_end_of(trimmed_start_of(s, set), set)
}

/// True when a text holds white space.
pub open spec fn has_space(s: Seq<char>) -> bool {
    exists|i: int| 0 <= i < s.len() && is_space(#[trigger] s[i])
}

/// `s` without white space at either end.
pub open spec fn trimmed(s: Seq<char>) -> Seq<char> {
    trim_end_of(trim_start_of(s))
}

/// True of a text that holds nothing but white space.
pub open spec fn blank(s: Seq<char>) -> bool {
    forall|i: int| 0 <= i < s.len() ==> is_space(#[trigger] s[i])
}

/// The ASCII lower case of `c`; other characters stand for themselves.
pub open spec fn ascii_lower(c: char) -> char {
    if 'A' <= c <= 'Z' {
        ((c as u32) + 32) as char
    } else {
        c
    }
}

/// `s` with its ASCII capitals in lower case.
pub open spec fn lowered(s: Seq<char>) -> Seq<char> {
    Seq::new(s.len(), |i: int| ascii_lower(s[i]))
}

/// True where `p` stands in `s` at position `i`.
pub open spec fn occurs_at<T>(s: Seq<T>, p: Seq<T>, i: int) -> bool {
    0 <= i && i + p.len() <= s.len() && s.subrange(i, i + p.len()) == p
}

/// The first position at or after `from` at which `p` stands in `s`.
pub open spec fn find_from<T>(s: Seq<T>, p: Seq<T>, from: int) -> Option<int>
    decreases s.len() + 1 - from,
{
    if from < 0 || from + p.len() > s.len() {
        None
    } else if s.subrange(from, from + p.len()) == p {
        Some(from)
    } else {
        find_from(s, p, from + 1)
    }
}

/// The first position at which `p` stands in `s`.
pub open spec fn find_in<T>(s: Seq<T>, p: Seq<T>) -> Option<int> {
    find_from(s, p, 0)
}

/// The last position at or before `to` at which `p` stands in `s`.
pub open spec fn find_last(s: Seq<char>, p: Seq<char>, to: int) -> Option<int>
    decreases to + 1,
{
    if to < 0 {
        None
    } else if occurs_at(s, p, to) {
        Some(to)
    } else {
        find_last(s, p, to - 1)
    }
}

/// The first position at or after `from` that holds one of `stops`.
pub open spec fn first_of(s: Seq<char>, stops: Seq<char>, from: int) -> Option<int>
    decreases s.len() - from,
{
    if from < 0 || from >= s.len() {
        None
    } else if stops.contains(s[from]) {
        Some(from)
    } else {
        first_of(s, stops, from + 1)
    }
}

/// What stands before the first of `stops`, or all of `s`.
pub open spec fn before_any(s: Seq<char>, stops: Seq<char>) -> Seq<char> {
    match first_of(s, stops, 0) {
        Some(i) => s.take(i),
        None => s,
    }
}

/// True when `p` stands somewhere in `s`.
pub open spec fn contains_text(s: Seq<char>, p: Seq<char>) -> bool {
    exists|i: int| occurs_at(s, p, i)
}

/// The first position at or after `from` that holds `c`.
pub open spec fn index_from(s: Seq<char>, c: char, from: int) -> Option<int>
    decreases s.len() - from,
{
    if from < 0 || from >= s.len() {
        None
    } else if s[from] == c {
        Some(from)
    } else {
        index_from(s, c, from + 1)
    }
}

/// The last position before `to` that holds `c`.
pub open spec fn last_index_before(s: Seq<char>, c: char, to: int) -> Option<int>
    decreases to,
{
    if to <= 0 || to > s.len() {
        None
    } else if s[to - 1] == c {
        Some(to - 1)
    } else {
        last_index_before(s, c, to - 1)
    }
}

/// The first position of `c` in `s`.
pub open spec fn first_index(s: Seq<char>, c: char) -> Option<int> {
    index_from(s, c, 0)
}

/// The last position of `c` in `s`.
pub open spec fn last_index(s: Seq<char>, c: char) -> Option<int> {
    last_index_before(s, c, s.len() as int)
}

/// What stands before the first `c`, or all of `s`.
pub open spec fn before_first(s: Seq<char>, c: char) -> Seq<char> {
    match first_index(s, c) {
        Some(i) => s.take(i),
        None => s,
    }
}

/// What stands behind the last `c`, or all of `s`.
pub open spec fn after_last(s: Seq<char>, c: char) -> Seq<char> {
    match last_index(s, c) {
        Some(i) => s.skip(i + 1),
        None => s,
    }
}

/// `s` with each `c` replaced by `with`.
pub open spec fn replaced(s: Seq<char>, c: char, with: Seq<char>) -> Seq<char>
    decreases s.len(),
{
    if s.len() == 0 {
        s
    } else if s.last() == c {
        replaced(s.drop_last(), c, with) + with
    } else {
        replaced(s.drop_last(), c, with).push(s.last())
    }
}

/// The character of one decimal digit.
pub open spec fn digit(d: nat) -> char {
    ('0' as u32 + d) as char
}

/// `n` in decimal, without leading zeros.
pub open spec fn decimal(n: nat) -> Seq<char>
    decreases n,
{
    if n < 10 {
        seq![digit(n)]
    } else {
        decimal(n / 10).push(digit(n % 10))
    }
}

/// True of a decimal digit.
pub open spec fn is_digit(c: char) -> bool {
    '0' <= c <= '9'
}

/// A number in decimal is made of digits, and has at least one.
pub proof fn lemma_decimal_digits(n: nat)
    ensures
        decimal(n).len() > 0,
        forall|i: int| 0 <= i < decimal(n).len() ==> is_digit(#[trigger] decimal(n)[i]),
    decreases n,
{
    if n >= 10 {
        lemma_decimal_digits(n / 10);
        let before = decimal(n / 10);
        assert forall|i: int| 0 <= i < decimal(n).len() implies is_digit(
            #[trigger] decimal(n)[i],
        ) by {
            if i < before.len() {
                assert(decimal(n)[i] == before[i]);
            }
        }
    }
}

/// No two numbers have the same decimal form.
pub proof fn law_decimal_is_unique(a: nat, b: nat)
    requires
        decimal(a) == decimal(b),
    ensures
        a == b,
    decreases a,
{
    lemma_decimal_digits(a / 10);
    lemma_decimal_digits(b / 10);
    assert(a < 10 <==> decimal(a).len() == 1);
    assert(b < 10 <==> decimal(b).len() == 1);
    if a < 10 && b < 10 {
        assert(decimal(a)[0] == digit(a) && decimal(b)[0] == digit(b));
    } else if a >= 10 && b >= 10 {
        assert(decimal(a).drop_last() =~= decimal(a / 10));
        assert(decimal(b).drop_last() =~= decimal(b / 10));
        assert(decimal(a).last() == digit(a % 10) && decimal(b).last() == digit(b % 10));
        law_decimal_is_unique(a / 10, b / 10);
    }
}

/// An optional text by its characters.
pub open spec fn opt_text(o: Option<String>) -> Option<Seq<char>> {
    match o {
        Some(s) => Some(s@),
        None => None,
    }
}

/// An optional borrowed text by its characters.
pub open spec fn opt_str(o: Option<&str>) -> Option<Seq<char>> {
    match o {
        Some(s) => Some(s@),
        None => None,
    }
}

/// A list of texts by their characters.
pub open spec fn texts(v: Seq<String>) -> Seq<Seq<char>> {
    v.map_values(|s: String| s@)
}

/// A list of pairs of texts by their characters.
pub open spec fn pairs(v: Seq<(String, String)>) -> Seq<(Seq<char>, Seq<char>)> {
    Seq::new(v.len(), |i: int| (v[i].0@, v[i].1@))
}

/// `s` without the `c`s at its end.
pub open spec fn without_trailing(s: Seq<char>, c: char) -> Seq<char>
    decreases s.len(),
{
    if s.len() > 0 && s.last() == c {
        without_trailing(s.drop_last(), c)
    } else {
        s
    }
}

/// The character of one hexadecimal digit, letters in lower case.
pub open spec fn hex_lower(d: int) -> char {
    if d < 10 {
        ('0' as u32 + d) as char
    } else {
        ('a' as u32 + (d - 10)) as char
    }
}

/// The character of one hexadecimal digit, letters in upper case.
pub open spec fn hex_upper(d: int) -> char {
    if d < 10 {
        ('0' as u32 + d) as char
    } else {
        ('A' as u32 + (d - 10)) as char
    }
}

/// The last `k` of the hexadecimal digits of `n`.
pub open spec fn hex_digits(n: int, k: nat) -> Seq<char>
    decreases k,
{
    if k == 0 {
        Seq::empty()
    } else {
        hex_digits(n / 16, (k - 1) as nat).push(hex_lower(n % 16))
    }
}

/// `n` as eight hexadecimal digits.
pub open spec fn hex8(n: u32) -> Seq<char> {
    hex_digits(n as int, 8)
}

/// `s` with each occurrence of `p`, from the left, replaced by `with`; `p` may
/// not be empty.
pub open spec fn replaced_all(s: Seq<char>, p: Seq<char>, with: Seq<char>) -> Seq<char>
    decreases s.len(),
{
    match find_in(s, p) {
        Some(i) => if p.len() > 0 && 0 <= i && i + p.len() <= s.len() {
            s.take(i) + with + replaced_all(s.skip(i + p.len()), p, with)
        } else {
            s
        },
        None => s,
    }
}

/// The texts one behind the other, with `sep` between them.
pub open spec fn joined(parts: Seq<Seq<char>>, sep: Seq<char>) -> Seq<char>
    decreases parts.len(),
{
    if parts.len() == 0 {
        Seq::empty()
    } else if parts.len() == 1 {
        parts[0]
    } else {
        joined(parts.drop_last(), sep) + sep + parts.last()
    }
}

/// What follows the prefix `p`, where `s` has it.
pub open spec fn after_prefix(s: Seq<char>, p: Seq<char>) -> Option<Seq<char>> {
    if p.is_prefix_of(s) {
        Some(s.skip(p.len() as int))
    } else {
        None
    }
}

/// What stands before the suffix `p`, where `s` has it.
pub open spec fn before_suffix(s: Seq<char>, p: Seq<char>) -> Option<Seq<char>> {
    if p.is_suffix_of(s) {
        Some(s.take(s.len() - p.len()))
    } else {
        None
    }
}

/// A byte as two hexadecimal digits, letters in lower case.
pub open spec fn hex2(b: u8) -> Seq<char> {
    Seq::empty().push(hex_lower(b as int / 16)).push(hex_lower(b as int % 16))
}

// -- Lemmas --

proof fn lemma_trim_start_shape(s: Seq<char>)
    ensures
        exists|i: int|
            0 <= i <= s.len() && trim_start_of(s) == #[trigger] s.skip(i) && (forall|j: int|
                0 <= j < i ==> is_space(#[trigger] s[j])) && (i < s.len() ==> !is_space(s[i])),
    decreases s.len(),
{
    if s.len() > 0 && is_space(s[0]) {
        lemma_trim_start_shape(s.skip(1));
        let t = s.skip(1);
        let k = choose|i: int|
            0 <= i <= t.len() && trim_start_of(t) == #[trigger] t.skip(i) && (forall|j: int|
                0 <= j < i ==> is_space(#[trigger] t[j])) && (i < t.len() ==> !is_space(t[i]));
        assert(t.skip(k) =~= s.skip(k + 1));
        assert forall|j: int| 0 <= j < k + 1 implies is_space(#[trigger] s[j]) by {
            if j > 0 {
                assert(t[j - 1] == s[j]);
            }
        }
        if k + 1 < s.len() {
            assert(t[k] == s[k + 1]);
        }
    } else {
        assert(s.skip(0) =~= s);
    }
}

proof fn lemma_trim_end_shape(s: Seq<char>)
    ensures
        exists|i: int|
            0 <= i <= s.len() && trim_end_of(s) == #[trigger] s.take(i) && (forall|j: int|
                i <= j < s.len() ==> is_space(#[trigger] s[j])) && (i > 0 ==> !is_space(s[i - 1])),
    decreases s.len(),
{
    if s.len() > 0 && is_space(s.last()) {
        let t = s.drop_last();
        lemma_trim_end_shape(t);
        let k = choose|i: int|
            0 <= i <= t.len() && trim_end_of(t) == #[trigger] t.take(i) && (forall|j: int|
                i <= j < t.len() ==> is_space(#[trigger] t[j])) && (i > 0 ==> !is_space(t[i - 1]));
        assert(t.take(k) =~= s.take(k));
        assert forall|j: int| k <= j < s.len() implies is_space(#[trigger] s[j]) by {
            if j < t.len() {
                assert(t[j] == s[j]);
            }
        }
    } else {
        assert(s.take(s.len() as int) =~= s);
    }
}

/// Nothing is left of a text after trimming exactly when it is blank.
pub proof fn lemma_trimmed_empty(s: Seq<char>)
    ensures
        trimmed(s).len() == 0 <==> blank(s),
{
    lemma_trim_start_shape(s);
    lemma_trim_end_shape(trim_start_of(s));
    let t = trim_start_of(s);
    let i = choose|i: int|
        0 <= i <= s.len() && trim_start_of(s) == #[trigger] s.skip(i) && (forall|j: int|
            0 <= j < i ==> is_space(#[trigger] s[j])) && (i < s.len() ==> !is_space(s[i]));
    let k = choose|i: int|
        0 <= i <= t.len() && trim_end_of(t) == #[trigger] t.take(i) && (forall|j: int|
            i <= j < t.len() ==> is_space(#[trigger] t[j])) && (i > 0 ==> !is_space(t[i - 1]));
    if blank(s) {
        assert(i == s.len());
    }
    if trimmed(s).len() == 0 {
        assert(k == 0);
        assert forall|j: int| 0 <= j < s.len() implies is_space(#[trigger] s[j]) by {
            if j >= i {
                assert(t[j - i] == s[j]);
            }
        }
    }
}

/// A text with no white space at its ends is its own trimmed form.
pub proof fn lemma_trimmed_tight(s: Seq<char>)
    requires
        s.len() > 0 ==> !is_space(s[0]) && !is_space(s.last()),
    ensures
        trimmed(s) == s,
{
}

/// A trimmed text has no white space at its ends, and trims to itself.
pub proof fn lemma_trimmed_ends(s: Seq<char>)
    ensures
        trimmed(s).len() > 0 ==> !is_space(trimmed(s)[0]) && !is_space(trimmed(s).last()),
        trimmed(trimmed(s)) == trimmed(s),
{
    lemma_trim_start_shape(s);
    lemma_trim_end_shape(trim_start_of(s));
    let t = trim_start_of(s);
    let i = choose|i: int|
        0 <= i <= s.len() && trim_start_of(s) == #[trigger] s.skip(i) && (forall|j: int|
            0 <= j < i ==> is_space(#[trigger] s[j])) && (i < s.len() ==> !is_space(s[i]));
    let k = choose|i: int|
        0 <= i <= t.len() && trim_end_of(t) == #[trigger] t.take(i) && (forall|j: int|
            i <= j < t.len() ==> is_space(#[trigger] t[j])) && (i > 0 ==> !is_space(t[i - 1]));
    if k > 0 {
        assert(trimmed(s)[0] == s[i]);
        assert(trimmed(s).last() == t[k - 1]);
    }
    lemma_trimmed_tight(trimmed(s));
}

/// `find_from` gives the first occurrence, where there is one.
pub proof fn lemma_find_from<T>(s: Seq<T>, p: Seq<T>, from: int)
    requires
        0 <= from,
    ensures
        match find_from(s, p, from) {
            Some(i) => from <= i && occurs_at(s, p, i) && forall|j: int|
                from <= j < i ==> !#[trigger] occurs_at(s, p, j),
            None => forall|j: int| from <= j ==> !#[trigger] occurs_at(s, p, j),
        },
    decreases s.len() + 1 - from,
{
    if from + p.len() > s.len() {
    } else if s.subrange(from, from + p.len()) == p {
    } else {
        lemma_find_from(s, p, from + 1);
    }
}

/// A text contains `p` exactly when `find_in` finds it.
pub proof fn lemma_contains_find(s: Seq<char>, p: Seq<char>)
    ensures
        contains_text(s, p) <==> find_in(s, p) is Some,
{
    lemma_find_from(s, p, 0);
}

/// `index_from` gives the first position of the character, where there is one.
pub proof fn lemma_index_from(s: Seq<char>, c: char, from: int)
    requires
        0 <= from,
    ensures
        match index_from(s, c, from) {
            Some(i) => from <= i < s.len() && s[i] == c && forall|j: int|
                from <= j < i ==> #[trigger] s[j] != c,
            None => forall|j: int| from <= j < s.len() ==> #[trigger] s[j] != c,
        },
    decreases s.len() - from,
{
    if from < s.len() && s[from] != c {
        lemma_index_from(s, c, from + 1);
    }
}

/// `last_index_before` gives the last position of the character, where there is one.
pub proof fn lemma_last_index_before(s: Seq<char>, c: char, to: int)
    requires
        0 <= to <= s.len(),
    ensures
        match last_index_before(s, c, to) {
            Some(i) => 0 <= i < to && s[i] == c && forall|j: int|
                i < j < to ==> #[trigger] s[j] != c,
            None => forall|j: int| 0 <= j < to ==> #[trigger] s[j] != c,
        },
    decreases to,
{
    if to > 0 && s[to - 1] != c {
        lemma_last_index_before(s, c, to - 1);
    }
}

/// Two texts with the same UTF-8 bytes are the same text.
pub proof fn lemma_bytes_injective(a: Seq<char>, b: Seq<char>)
    ensures
        encode_utf8(a) == encode_utf8(b) <==> a == b,
{
    encode_utf8_decode_utf8(a);
    encode_utf8_decode_utf8(b);
}

// -- Operations --

/// The text that `str::to_lowercase` makes of a text.
pub uninterp spec fn unicode_lower(s: Seq<char>) -> Seq<char>;

/// `str::to_lowercase`: the text in lower case by the rules of Unicode, which
/// change nothing but the letters `A` to `Z` of an ASCII text.
#[verifier::external_body]
pub(crate) fn to_lowercase(s: &str) -> (r: String)
    ensures
        r@ == unicode_lower(s@),
        is_ascii_chars(s@) ==> r@ == lowered(s@),
{
    s.to_lowercase()
}

/// The characters of a text.
pub fn chars_of(s: &str) -> (v: Vec<char>)
    ensures
        v@ == s@,
{
    let mut v: Vec<char> = Vec::new();
    for c in it: s.chars()
        invariant
            v@ == it.seq().take(it.index()),
            it.seq() == s@,
    {
        v.push(c);
    }
    v
}

/// The text made of the characters `v[from..to]`.
pub fn text_of(v: &Vec<char>, from: usize, to: usize) -> (s: String)
    requires
        from <= to <= v@.len(),
    ensures
        s@ == v@.subrange(from as int, to as int),
{
    let mut s: String = String::new();
    let mut i: usize = from;
    while i < to
        invariant
            from <= i <= to <= v@.len(),
            s@ == v@.subrange(from as int, i as int),
        decreases to - i,
    {
        s.push(v[i]);
        i = i + 1;
    }
    s
}

/// True when two texts are equal.
pub fn same(a: &str, b: &str) -> (r: bool)
    ensures
        r == (a@ == b@),
{
    let x = a.as_bytes();
    let y = b.as_bytes();
    proof {
        lemma_bytes_injective(a@, b@);
    }
    if x.len() != y.len() {
        return false;
    }
    let mut i: usize = 0;
    while i < x.len()
        invariant
            i <= x@.len(),
            x@.len() == y@.len(),
            x@.take(i as int) == y@.take(i as int),
            x@ == encode_utf8(a@),
            y@ == encode_utf8(b@),
            x@ == y@ <==> a@ == b@,
        decreases x@.len() - i,
    {
        if x[i] != y[i] {
            return false;
        }
        proof {
            assert(x@.take(i + 1) =~= x@.take(i as int).push(x@[i as int]));
            assert(y@.take(i + 1) =~= y@.take(i as int).push(y@[i as int]));
        }
        i = i + 1;
    }
    proof {
        assert(x@.take(i as int) =~= x@);
        assert(y@.take(i as int) =~= y@);
    }
    true
}

/// True of white space.
pub fn is_space_char(c: char) -> (r: bool)
    ensures
        r == is_space(c),
{
    ('\u{9}' <= c && c <= '\u{d}') || c == ' ' || c == '\u{85}' || c == '\u{a0}' || c == '\u{1680}'
        || ('\u{2000}' <= c && c <= '\u{200a}') || c == '\u{2028}' || c == '\u{2029}' || c
        == '\u{202f}' || c == '\u{205f}' || c == '\u{3000}'
}

/// Removes white space from both ends of a text.
pub fn trim(s: &str) -> (r: String)
    ensures
        r@ == trimmed(s@),
{
    let v = chars_of(s);
    let mut from: usize = 0;
    proof {
        assert(v@.skip(0) =~= v@);
    }
    while from < v.len() && is_space_char(v[from])
        invariant
            from <= v@.len(),
            trim_start_of(v@) == trim_start_of(v@.skip(from as int)),
        decreases v@.len() - from,
    {
        proof {
            assert(v@.skip(from as int).skip(1) =~= v@.skip(from + 1));
        }
        from = from + 1;
    }
    let ghost t = v@.skip(from as int);
    let mut to: usize = v.len();
    proof {
        assert(t == trim_start_of(v@));
        assert(t.take(t.len() as int) =~= t);
    }
    while to > from && is_space_char(v[to - 1])
        invariant
            from <= to <= v@.len(),
            t == v@.skip(from as int),
            trim_end_of(t) == trim_end_of(t.take(to - from)),
        decreases to - from,
    {
        proof {
            assert(t.take(to - from).drop_last() =~= t.take(to - from - 1));
        }
        to = to - 1;
    }
    proof {
        assert(t.take(to - from) =~= v@.subrange(from as int, to as int));
    }
    text_of(&v, from, to)
}

/// True when a text holds nothing but white space.
pub fn is_blank(s: &str) -> (r: bool)
    ensures
        r == blank(s@),
        r == (trimmed(s@).len() == 0),
{
    proof {
        lemma_trimmed_empty(s@);
    }
    let v = chars_of(s);
    let mut i: usize = 0;
    while i < v.len()
        invariant
            i <= v@.len(),
            v@ == s@,
            blank(s@) <==> trimmed(s@).len() == 0,
            forall|j: int| 0 <= j < i ==> is_space(#[trigger] v@[j]),
        decreases v@.len() - i,
    {
        if !is_space_char(v[i]) {
            return false;
        }
        i = i + 1;
    }
    true
}

/// True when `p` stands in `v` at position `at`.
pub fn stands_at(v: &Vec<char>, p: &Vec<char>, at: usize) -> (r: bool)
    ensures
        r == occurs_at(v@, p@, at as int),
{
    if p.len() > v.len() || at > v.len() - p.len() {
        return false;
    }
    let mut i: usize = 0;
    while i < p.len()
        invariant
            i <= p@.len(),
            at + p.len() <= v.len(),
            forall|j: int| 0 <= j < i ==> v@[at + j] == #[trigger] p@[j],
        decreases p@.len() - i,
    {
        if v[at + i] != p[i] {
            proof {
                assert(v@.subrange(at as int, at + p@.len())[i as int] != p@[i as int]);
            }
            return false;
        }
        i = i + 1;
    }
    proof {
        assert(v@.subrange(at as int, at + p@.len()) =~= p@);
    }
    true
}

/// The first position at or after `from` at which `p` stands in `v`.
pub fn search_from(v: &Vec<char>, p: &Vec<char>, from: usize) -> (r: Option<usize>)
    ensures
        match r {
            Some(i) => find_from(v@, p@, from as int) == Some(i as int),
            None => find_from(v@, p@, from as int) is None,
        },
        r matches Some(i) ==> from <= i && i + p@.len() <= v@.len(),
{
    let mut i: usize = from;
    while p.len() <= v.len() && i <= v.len() - p.len()
        invariant
            from <= i,
            find_from(v@, p@, from as int) == find_from(v@, p@, i as int),
        decreases v@.len() + 1 - i,
    {
        if stands_at(v, p, i) {
            return Some(i);
        }
        proof {
            if p@.len() == 0 {
                assert(v@.subrange(i as int, i as int) =~= p@);
            }
        }
        i = i + 1;
    }
    None
}

/// The first position at which `p` stands in `s`, counted in characters.
pub fn find(s: &str, p: &str) -> (r: Option<usize>)
    ensures
        match r {
            Some(i) => find_in(s@, p@) == Some(i as int) && i + p@.len() <= s@.len(),
            None => find_in(s@, p@) is None,
        },
{
    search_from(&chars_of(s), &chars_of(p), 0)
}

/// True when `p` stands somewhere in `s`.
pub fn contains(s: &str, p: &str) -> (r: bool)
    ensures
        r == contains_text(s@, p@),
{
    proof {
        lemma_contains_find(s@, p@);
    }
    find(s, p).is_some()
}

/// The last position at which `p` stands in `v`.
pub fn search_last(v: &Vec<char>, p: &Vec<char>) -> (r: Option<usize>)
    ensures
        match r {
            Some(i) => find_last(v@, p@, v@.len() as int) == Some(i as int) && i + p@.len()
                <= v@.len(),
            None => find_last(v@, p@, v@.len() as int) is None,
        },
{
    let mut i: usize = v.len();
    loop
        invariant
            i <= v@.len(),
            find_last(v@, p@, v@.len() as int) == find_last(v@, p@, i as int),
        decreases i,
    {
        if stands_at(v, p, i) {
            return Some(i);
        }
        if i == 0 {
            proof {
                assert(find_last(v@, p@, -1) is None);
            }
            return None;
        }
        i = i - 1;
    }
}

/// The first position at or after `from` that holds one of `stops`.
pub fn stop_index(v: &Vec<char>, stops: &Vec<char>, from: usize) -> (r: Option<usize>)
    ensures
        match r {
            Some(i) => first_of(v@, stops@, from as int) == Some(i as int) && from <= i < v@.len(),
            None => first_of(v@, stops@, from as int) is None,
        },
{
    let mut i: usize = from;
    while i < v.len()
        invariant
            from <= i,
            first_of(v@, stops@, from as int) == first_of(v@, stops@, i as int),
        decreases v@.len() - i,
    {
        proof {
            lemma_index_from(stops@, v@[i as int], 0);
        }
        if char_index_from(stops, v[i], 0).is_some() {
            return Some(i);
        }
        i = i + 1;
    }
    None
}

/// What stands before the first of `stops`, or the whole text.
pub fn take_before_any(s: &str, stops: &str) -> (r: String)
    ensures
        r@ == before_any(s@, stops@),
{
    let v = chars_of(s);
    match stop_index(&v, &chars_of(stops), 0) {
        Some(i) => {
            proof {
                assert(v@.subrange(0, i as int) =~= v@.take(i as int));
            }
            text_of(&v, 0, i)
        },
        None => s.to_string(),
    }
}

/// The first position of `c` at or after `from`.
pub fn char_index_from(v: &Vec<char>, c: char, from: usize) -> (r: Option<usize>)
    ensures
        match r {
            Some(i) => index_from(v@, c, from as int) == Some(i as int) && from <= i < v@.len()
                && v@[i as int] == c,
            None => index_from(v@, c, from as int) is None,
        },
{
    let mut i: usize = from;
    while i < v.len()
        invariant
            from <= i,
            index_from(v@, c, from as int) == index_from(v@, c, i as int),
        decreases v@.len() - i,
    {
        if v[i] == c {
            return Some(i);
        }
        i = i + 1;
    }
    None
}

/// The last position of `c`.
pub fn char_last_index(v: &Vec<char>, c: char) -> (r: Option<usize>)
    ensures
        match r {
            Some(i) => last_index(v@, c) == Some(i as int) && i < v@.len() && v@[i as int] == c,
            None => last_index(v@, c) is None,
        },
{
    let mut i: usize = v.len();
    while i > 0
        invariant
            i <= v@.len(),
            last_index(v@, c) == last_index_before(v@, c, i as int),
        decreases i,
    {
        if v[i - 1] == c {
            return Some(i - 1);
        }
        i = i - 1;
    }
    None
}

/// True when `c` stands somewhere in `s`.
pub fn contains_char(s: &str, c: char) -> (r: bool)
    ensures
        r == s@.contains(c),
{
    proof {
        lemma_index_from(s@, c, 0);
    }
    char_index_from(&chars_of(s), c, 0).is_some()
}

/// What stands before the first `c`, or the whole text.
pub fn take_before(s: &str, c: char) -> (r: String)
    ensures
        r@ == before_first(s@, c),
{
    let v = chars_of(s);
    match char_index_from(&v, c, 0) {
        Some(i) => text_of(&v, 0, i),
        None => s.to_string(),
    }
}

/// What stands behind the last `c`, or the whole text.
pub fn take_after_last(s: &str, c: char) -> (r: String)
    ensures
        r@ == after_last(s@, c),
{
    let v = chars_of(s);
    let n: usize = v.len();
    match char_last_index(&v, c) {
        Some(i) => text_of(&v, i + 1, n),
        None => s.to_string(),
    }
}

/// True when `s` begins with `p`.
pub fn starts_with(s: &str, p: &str) -> (r: bool)
    ensures
        r == p@.is_prefix_of(s@),
{
    let v = chars_of(s);
    let w = chars_of(p);
    let r = stands_at(&v, &w, 0);
    proof {
        if w@.len() <= v@.len() {
            assert(v@.subrange(0, w@.len() as int) =~= v@.take(w@.len() as int));
            assert(w@.is_prefix_of(v@) <==> v@.subrange(0, w@.len() as int) =~= w@);
        }
    }
    r
}

/// True when `s` ends with `p`.
pub fn ends_with(s: &str, p: &str) -> (r: bool)
    ensures
        r == p@.is_suffix_of(s@),
{
    let v = chars_of(s);
    let w = chars_of(p);
    if w.len() > v.len() {
        return false;
    }
    let r = stands_at(&v, &w, v.len() - w.len());
    proof {
        assert(w@.is_suffix_of(v@) <==> v@.subrange(v@.len() - w@.len(), v@.len() as int) =~= w@);
    }
    r
}

/// The ASCII lower case of one character.
pub fn lower_char(c: char) -> (r: char)
    ensures
        r == ascii_lower(c),
{
    if 'A' <= c && c <= 'Z' {
        let b: u8 = c as u8;
        (b + 32) as char
    } else {
        c
    }
}

/// The text with its ASCII capitals in lower case.
pub fn lower(s: &str) -> (r: String)
    ensures
        r@ == lowered(s@),
{
    let v = chars_of(s);
    let mut out: String = String::new();
    let mut i: usize = 0;
    while i < v.len()
        invariant
            i <= v@.len(),
            out@ == lowered(v@.take(i as int)),
        decreases v@.len() - i,
    {
        out.push(lower_char(v[i]));
        proof {
            assert(lowered(v@.take(i + 1)) =~= lowered(v@.take(i as int)).push(
                ascii_lower(v@[i as int]),
            ));
        }
        i = i + 1;
    }
    proof {
        assert(v@.take(i as int) =~= v@);
    }
    out
}

/// True when two texts are equal up to ASCII case.
pub fn same_ignoring_case(a: &str, b: &str) -> (r: bool)
    ensures
        r == (lowered(a@) == lowered(b@)),
{
    let x = lower(a);
    let y = lower(b);
    same(x.as_str(), y.as_str())
}

/// The text with each `c` replaced by `with`.
pub fn replace_char(s: &str, c: char, with: &str) -> (r: String)
    ensures
        r@ == replaced(s@, c, with@),
{
    let v = chars_of(s);
    let mut out: String = String::new();
    let mut i: usize = 0;
    while i < v.len()
        invariant
            i <= v@.len(),
            out@ == replaced(v@.take(i as int), c, with@),
        decreases v@.len() - i,
    {
        proof {
            assert(v@.take(i + 1).drop_last() =~= v@.take(i as int));
        }
        if v[i] == c {
            out.append(with);
        } else {
            out.push(v[i]);
        }
        i = i + 1;
    }
    proof {
        assert(v@.take(i as int) =~= v@);
    }
    out
}

/// The decimal form of a number.
pub fn to_decimal(n: u64) -> (r: String)
    ensures
        r@ == decimal(n as nat),
    decreases n,
{
    let d: u8 = (n % 10) as u8;
    let c: char = (48u8 + d) as char;
    if n < 10 {
        let mut s: String = String::new();
        s.push(c);
        proof {
            assert(s@ =~= decimal(n as nat));
        }
        s
    } else {
        let mut s = to_decimal(n / 10);
        s.push(c);
        s
    }
}

/// The decimal form of a large number.
pub fn to_decimal_wide(n: u128) -> (r: String)
    ensures
        r@ == decimal(n as nat),
    decreases n,
{
    if n <= u64::MAX as u128 {
        return to_decimal(n as u64);
    }
    let d: u8 = (n % 10) as u8;
    let mut s = to_decimal_wide(n / 10);
    s.push((48u8 + d) as char);
    s
}

/// The two texts, one behind the other.
pub fn join2(a: &str, b: &str) -> (r: String)
    ensures
        r@ == a@ + b@,
{
    let mut s = a.to_string();
    s.append(b);
    s
}

/// The three texts, one behind the other.
pub fn join3(a: &str, b: &str, c: &str) -> (r: String)
    ensures
        r@ == a@ + b@ + c@,
{
    let mut s = a.to_string();
    s.append(b);
    s.append(c);
    s
}

/// An empty list of pairs.
pub fn no_pairs() -> (v: Vec<(String, String)>)
    ensures
        pairs(v@) == Seq::<(Seq<char>, Seq<char>)>::empty(),
{
    let v: Vec<(String, String)> = Vec::new();
    proof {
        assert(pairs(v@) =~= Seq::empty());
    }
    v
}

/// Appends a pair of texts.
pub fn add_pair(v: &mut Vec<(String, String)>, a: &str, b: &str)
    ensures
        pairs(final(v)@) == pairs(old(v)@).push((a@, b@)),
{
    v.push((a.to_string(), b.to_string()));
    proof {
        assert(pairs(v@) =~= pairs(old(v)@).push((a@, b@)));
    }
}

/// The text without the `c`s at its end.
pub fn drop_trailing(s: &str, c: char) -> (r: String)
    ensures
        r@ == without_trailing(s@, c),
{
    let v = chars_of(s);
    let mut to: usize = v.len();
    proof {
        assert(v@.take(to as int) =~= v@);
    }
    while to > 0 && v[to - 1] == c
        invariant
            to <= v@.len(),
            without_trailing(v@, c) == without_trailing(v@.take(to as int), c),
        decreases to,
    {
        proof {
            assert(v@.take(to as int).drop_last() =~= v@.take(to - 1));
        }
        to = to - 1;
    }
    proof {
        assert(v@.subrange(0, to as int) =~= v@.take(to as int));
    }
    text_of(&v, 0, to)
}

fn lower_hex_char(d: u8) -> (r: char)
    requires
        d < 16,
    ensures
        r == hex_lower(d as int),
{
    if d < 10 {
        (48u8 + d) as char
    } else {
        (97u8 + (d - 10)) as char
    }
}

fn push_hex(s: &mut String, n: u32, k: u8)
    ensures
        final(s)@ == old(s)@ + hex_digits(n as int, k as nat),
    decreases k,
{
    if k > 0 {
        push_hex(s, n / 16, k - 1);
        s.push(lower_hex_char((n % 16) as u8));
        proof {
            assert(s@ =~= old(s)@ + hex_digits(n as int, k as nat));
        }
    } else {
        proof {
            assert(s@ =~= old(s)@ + hex_digits(n as int, 0));
        }
    }
}

/// Appends a byte as two hexadecimal digits.
pub fn push_hex2(s: &mut String, b: u8)
    ensures
        final(s)@ == old(s)@ + hex2(b),
{
    s.push(lower_hex_char(b / 16));
    s.push(lower_hex_char(b % 16));
    proof {
        assert(s@ =~= old(s)@ + hex2(b));
    }
}

/// The text with each occurrence of `p` replaced by `with`.
pub fn replace_all(s: &str, p: &str, with: &str) -> (r: String)
    requires
        p@.len() > 0,
    ensures
        r@ == replaced_all(s@, p@, with@),
    decreases s@.len(),
{
    let v = chars_of(s);
    let n: usize = v.len();
    let w = chars_of(p);
    match search_from(&v, &w, 0) {
        Some(i) => {
            let head = text_of(&v, 0, i);
            let tail = text_of(&v, i + w.len(), n);
            proof {
                assert(v@.subrange(0, i as int) =~= v@.take(i as int));
                assert(v@.subrange(i + w@.len(), n as int) =~= v@.skip(i + w@.len()));
            }
            let rest = replace_all(tail.as_str(), p, with);
            join3(head.as_str(), with, rest.as_str())
        },
        None => s.to_string(),
    }
}

/// The texts one behind the other, with `sep` between them.
pub fn join_texts(parts: &Vec<String>, sep: &str) -> (r: String)
    ensures
        r@ == joined(texts(parts@), sep@),
{
    let mut out: String = String::new();
    let mut i: usize = 0;
    let ghost all = texts(parts@);
    proof {
        assert(all.take(0) =~= Seq::empty());
    }
    while i < parts.len()
        invariant
            i <= parts@.len(),
            all == texts(parts@),
            out@ == joined(all.take(i as int), sep@),
        decreases parts@.len() - i,
    {
        proof {
            assert(all.take(i + 1).drop_last() =~= all.take(i as int));
            assert(all.take(i + 1).last() == parts@[i as int]@);
        }
        if i > 0 {
            out.append(sep);
        } else {
            proof {
                assert(out@ + parts@[0]@ =~= parts@[0]@);
            }
        }
        out.append(parts[i].as_str());
        i = i + 1;
    }
    proof {
        assert(all.take(i as int) =~= all);
    }
    out
}

/// What follows the prefix `p`, where the text has it.
pub fn strip_prefix(s: &str, p: &str) -> (r: Option<String>)
    ensures
        opt_text(r) == after_prefix(s@, p@),
{
    if starts_with(s, p) {
        let v = chars_of(s);
        let n: usize = v.len();
        let k: usize = chars_of(p).len();
        proof {
            assert(v@.subrange(k as int, n as int) =~= v@.skip(k as int));
        }
        Some(text_of(&v, k, n))
    } else {
        None
    }
}

/// What stands before the suffix `p`, where the text has it.
pub fn strip_suffix(s: &str, p: &str) -> (r: Option<String>)
    ensures
        opt_text(r) == before_suffix(s@, p@),
{
    if ends_with(s, p) {
        let v = chars_of(s);
        let n: usize = v.len();
        let k: usize = chars_of(p).len();
        proof {
            assert(v@.subrange(0, n - k) =~= v@.take(n - k));
        }
        Some(text_of(&v, 0, n - k))
    } else {
        None
    }
}

/// A number as eight hexadecimal digits.
pub fn to_hex8(n: u32) -> (r: String)
    ensures
        r@ == hex8(n),
{
    let mut s: String = String::new();
    push_hex(&mut s, n, 8);
    proof {
        assert(s@ =~= hex8(n));
    }
    s
}

/// Takes the characters of `set` off the end.
pub fn trim_end_chars(s: &str, set: &str) -> (r: String)
    ensures
        r@ == trimmed_end_of(s@, set@),
{
    let v = chars_of(s);
    let mut to: usize = v.len();
    proof {
        assert(v@.take(to as int) =~= v@);
    }
    while to > 0 && contains_char(set, v[to - 1])
        invariant
            to <= v@.len(),
            trimmed_end_of(v@.take(to as int), set@) == trimmed_end_of(v@, set@),
        decreases to,
    {
        proof {
            assert(v@.take(to as int).drop_last() =~= v@.take(to - 1));
            assert(v@.take(to as int).last() == v@[to - 1]);
        }
        to = to - 1;
    }
    proof {
        if to > 0 {
            assert(v@.take(to as int).last() == v@[to - 1]);
        }
        assert(v@.subrange(0, to as int) =~= v@.take(to as int));
    }
    text_of(&v, 0, to)
}

/// Takes the characters of `set` off both ends.
pub fn trim_chars(s: &str, set: &str) -> (r: String)
    ensures
        r@ == trimmed_of(s@, set@),
{
    let v = chars_of(s);
    let n: usize = v.len();
    let mut from: usize = 0;
    proof {
        assert(v@.skip(0) =~= v@);
    }
    while from < n && contains_char(set, v[from])
        invariant
            from <= n,
            n == v@.len(),
            trimmed_start_of(v@.skip(from as int), set@) == trimmed_start_of(v@, set@),
        decreases n - from,
    {
        proof {
            assert(v@.skip(from as int).skip(1) =~= v@.skip(from + 1));
            assert(v@.skip(from as int)[0] == v@[from as int]);
        }
        from = from + 1;
    }
    let rest = text_of(&v, from, n);
    proof {
        if from < n {
            assert(v@.skip(from as int)[0] == v@[from as int]);
        }
        assert(rest@ =~= v@.skip(from as int));
    }
    trim_end_chars(rest.as_str(), set)
}

/// True when a text holds white space.
pub fn contains_space(s: &str) -> (r: bool)
    ensures
        r == has_space(s@),
{
    let v = chars_of(s);
    let mut i: usize = 0;
    while i < v.len()
        invariant
            i <= v@.len(),
            v@ == s@,
            forall|j: int| 0 <= j < i ==> !is_space(#[trigger] s@[j]),
        decreases v@.len() - i,
    {
        if is_space_char(v[i]) {
            assert(is_space(s@[i as int]));
            return true;
        }
        i = i + 1;
    }
    false
}

/// A copy of an optional text.
pub fn copy_opt(o: &Option<String>) -> (r: Option<String>)
    ensures
        r == *o,
{
    match o {
        Some(s) => Some(s.clone()),
        None => None,
    }
}

/// A text with spaces behind it, up to a width.
pub open spec fn filled(s: Seq<char>, width: nat) -> Seq<char> {
    if s.len() >= width {
        s
    } else {
        s + Seq::new((width - s.len()) as nat, |i: int| ' ')
    }
}

/// A text with spaces behind it, up to a width.
pub fn fill(s: &str, width: usize) -> (r: String)
    ensures
        r@ == filled(s@, width as nat),
{
    let mut r = s.to_string();
    let mut n: usize = chars_of(s).len();
    while n < width
        invariant
            r@ == s@ + Seq::new((r@.len() - s@.len()) as nat, |i: int| ' '),
            n == r@.len(),
            s@.len() <= n,
            n <= width || n == s@.len(),
        decreases width - n,
    {
        let ghost before = r@;
        r.push(' ');
        proof {
            assert(r@ =~= s@ + Seq::new((r@.len() - s@.len()) as nat, |i: int| ' '));
        }
        n = n + 1;
    }
    proof {
        assert(r@ =~= filled(s@, width as nat));
    }
    r
}

/// The decimal text of a number that may be negative.
pub open spec fn signed_decimal(n: int) -> Seq<char> {
    if n < 0 {
        "-"@ + decimal((-n) as nat)
    } else {
        decimal(n as nat)
    }
}

/// The decimal text of a number that may be negative.
pub fn to_signed_decimal(n: i64) -> (r: String)
    ensures
        r@ == signed_decimal(n as int),
{
    if n >= 0 {
        to_decimal(n as u64)
    } else {
        let m: u64 = (-(n as i128)) as u64;
        join2("-", to_decimal(m).as_str())
    }
}

// -- Pairs by their names --

/// The value of the first pair of a name.
pub open spec fn paired(pairs: Seq<(Seq<char>, Seq<char>)>, name: Seq<char>) -> Option<Seq<char>>
    decreases pairs.len(),
{
    if pairs.len() == 0 {
        None
    } else {
        match paired(pairs.drop_last(), name) {
            Some(v) => Some(v),
            None => if pairs.last().0 == name {
                Some(pairs.last().1)
            } else {
                None
            },
        }
    }
}

/// No pair, no value.
pub broadcast proof fn lemma_no_pair(name: Seq<char>)
    ensures
        #[trigger] paired(Seq::empty(), name) is None,
{
}

/// A pair behind others is found under its name, unless one before it has the name.
pub broadcast proof fn lemma_pushed_pair(
    pairs: Seq<(Seq<char>, Seq<char>)>,
    p: (Seq<char>, Seq<char>),
    name: Seq<char>,
)
    ensures
        #[trigger] paired(pairs.push(p), name) == match paired(pairs, name) {
            Some(v) => Some(v),
            None => if p.0 == name {
                Some(p.1)
            } else {
                None
            },
        },
{
    assert(pairs.push(p).drop_last() =~= pairs);
}

/// How a pair is found.
pub broadcast group group_pairs {
    lemma_no_pair,
    lemma_pushed_pair,
}

// -- What the operations on texts do --

/// Trimming takes away blanks at both ends and nothing else: what is left stands in the
/// text, with blanks alone before it and behind it, and neither begins nor ends with one.
pub proof fn law_trimming_takes_blanks_only(s: Seq<char>) -> (at: int)
    ensures
        0 <= at,
        at + trimmed(s).len() <= s.len(),
        s.subrange(at, at + trimmed(s).len()) == trimmed(s),
        blank(s.take(at)),
        blank(s.skip(at + trimmed(s).len())),
        trimmed(s).len() > 0 ==> !is_space(trimmed(s)[0]) && !is_space(trimmed(s).last()),
{
    lemma_trimmed_ends(s);
    lemma_trim_start_shape(s);
    lemma_trim_end_shape(trim_start_of(s));
    let t = trim_start_of(s);
    let i = choose|i: int|
        0 <= i <= s.len() && trim_start_of(s) == #[trigger] s.skip(i) && (forall|j: int|
            0 <= j < i ==> is_space(#[trigger] s[j])) && (i < s.len() ==> !is_space(s[i]));
    let k = choose|i: int|
        0 <= i <= t.len() && trim_end_of(t) == #[trigger] t.take(i) && (forall|j: int|
            i <= j < t.len() ==> is_space(#[trigger] t[j])) && (i > 0 ==> !is_space(t[i - 1]));
    assert(s.subrange(i, i + k) =~= t.take(k));
    assert forall|j: int| 0 <= j < s.take(i).len() implies is_space(#[trigger] s.take(i)[j]) by {
        assert(s.take(i)[j] == s[j]);
    }
    let rest = s.skip(i + k);
    assert forall|j: int| 0 <= j < rest.len() implies is_space(#[trigger] rest[j]) by {
        assert(rest[j] == t[k + j]);
    }
    i
}

/// Blanks are the space, what lies from tab to carriage return, and the spaces of other
/// scripts; letters, digits and marks are none.
pub proof fn law_blanks(c: char)
    ensures
        is_space(' ') && is_space('\t') && is_space('\n') && is_space('\r') && is_space('\u{a0}')
            && is_space('\u{3000}'),
        '!' <= c <= '~' ==> !is_space(c),
{
}

/// Letters from A to Z become small, and every other character stays, at its place.
pub proof fn law_lowering_keeps_places(s: Seq<char>, i: int)
    requires
        0 <= i < s.len(),
    ensures
        lowered(s).len() == s.len(),
        'A' <= s[i] <= 'Z' ==> lowered(s)[i] as u32 == s[i] as u32 + 32,
        !('A' <= s[i] <= 'Z') ==> lowered(s)[i] == s[i],
{
}

/// Parts are joined in their order, with the separator between each two.
pub proof fn law_joining_puts_separators_between(
    parts: Seq<Seq<char>>,
    sep: Seq<char>,
    x: Seq<char>,
)
    ensures
        joined(Seq::empty(), sep) == Seq::<char>::empty(),
        joined(Seq::empty().push(x), sep) == x,
        parts.len() > 0 ==> joined(parts.push(x), sep) == joined(parts, sep) + sep + x,
{
    assert(parts.push(x).drop_last() =~= parts);
}

/// A character is replaced wherever it stands, and no other is.
pub proof fn law_character_is_replaced(a: Seq<char>, b: Seq<char>, c: char, with: Seq<char>)
    ensures
        replaced(a + b, c, with) == replaced(a, c, with) + replaced(b, c, with),
        !a.contains(c) ==> replaced(a, c, with) == a,
        replaced(Seq::empty().push(c), c, with) == with,
    decreases b.len(),
{
    let one = Seq::empty().push(c);
    assert(one.drop_last() =~= Seq::empty());
    assert(replaced(one.drop_last(), c, with) =~= Seq::empty());
    assert(Seq::<char>::empty() + with =~= with);
    if !a.contains(c) {
        lemma_nothing_replaced(a, c, with);
    }
    if b.len() == 0 {
        assert(a + b =~= a);
        assert(replaced(a, c, with) + replaced(b, c, with) =~= replaced(a, c, with));
    } else {
        law_character_is_replaced(a, b.drop_last(), c, with);
        assert((a + b).drop_last() =~= a + b.drop_last());
        assert((a + b).last() == b.last());
        assert(replaced(a + b, c, with) =~= replaced(a, c, with) + replaced(b, c, with));
    }
}

proof fn lemma_nothing_replaced(a: Seq<char>, c: char, with: Seq<char>)
    requires
        !a.contains(c),
    ensures
        replaced(a, c, with) == a,
    decreases a.len(),
{
    if a.len() > 0 {
        let t = a.drop_last();
        assert(!t.contains(c)) by {
            if t.contains(c) {
                let i = choose|i: int| 0 <= i < t.len() && t[i] == c;
                assert(a[i] == c);
            }
        }
        lemma_nothing_replaced(t, c, with);
        assert(a.contains(a.last()));
        assert(t.push(a.last()) =~= a);
    }
}

/// A text that holds no occurrence stays; else the first is replaced, what stands before
/// it stays, and the rest is treated in the same way.
pub proof fn law_occurrences_are_replaced(s: Seq<char>, p: Seq<char>, with: Seq<char>, i: int)
    requires
        p.len() > 0,
    ensures
        !contains_text(s, p) ==> replaced_all(s, p, with) == s,
        occurs_at(s, p, i) && (forall|j: int| 0 <= j < i ==> !#[trigger] occurs_at(s, p, j))
            ==> replaced_all(s, p, with) == s.take(i) + with + replaced_all(
            s.skip(i + p.len()),
            p,
            with,
        ),
{
    lemma_contains_find(s, p);
    lemma_find_from(s, p, 0);
}

/// Eight hexadecimal digits spell a number, the highest digit first; a byte has two.
pub proof fn law_hexadecimal_digits(n: u32, b: u8)
    ensures
        hex8(n).len() == 8,
        hex8(n)[0] == hex_lower(n as int / 0x1000_0000),
        hex8(n)[1] == hex_lower(n as int / 0x100_0000 % 16),
        hex8(n)[2] == hex_lower(n as int / 0x10_0000 % 16),
        hex8(n)[3] == hex_lower(n as int / 0x1_0000 % 16),
        hex8(n)[4] == hex_lower(n as int / 0x1000 % 16),
        hex8(n)[5] == hex_lower(n as int / 0x100 % 16),
        hex8(n)[6] == hex_lower(n as int / 0x10 % 16),
        hex8(n)[7] == hex_lower(n as int % 16),
        hex2(b).len() == 2 && hex2(b)[0] == hex_lower(b as int / 16) && hex2(b)[1] == hex_lower(
            b as int % 16,
        ),
        forall|d: int| 0 <= d < 10 ==> #[trigger] hex_lower(d) as u32 == 48 + d,
        forall|d: int| 10 <= d < 16 ==> #[trigger] hex_lower(d) as u32 == 87 + d,
        forall|d: int| 0 <= d < 10 ==> #[trigger] hex_upper(d) as u32 == 48 + d,
        forall|d: int| 10 <= d < 16 ==> #[trigger] hex_upper(d) as u32 == 55 + d,
{
    let m = n as int;
    let d1 = hex_digits(m / 0x1000_0000, 1);
    let d2 = hex_digits(m / 0x100_0000, 2);
    let d3 = hex_digits(m / 0x10_0000, 3);
    let d4 = hex_digits(m / 0x1_0000, 4);
    let d5 = hex_digits(m / 0x1000, 5);
    let d6 = hex_digits(m / 0x100, 6);
    let d7 = hex_digits(m / 0x10, 7);
    reveal_with_fuel(hex_digits, 2);
    assert(m / 0x1000_0000 % 16 == m / 0x1000_0000);
    assert(m / 0x100_0000 / 16 == m / 0x1000_0000);
    assert(m / 0x10_0000 / 16 == m / 0x100_0000);
    assert(m / 0x1_0000 / 16 == m / 0x10_0000);
    assert(m / 0x1000 / 16 == m / 0x1_0000);
    assert(m / 0x100 / 16 == m / 0x1000);
    assert(m / 0x10 / 16 == m / 0x100);
    assert(d1.len() == 1 && d1[0] == hex_lower(m / 0x1000_0000));
    assert(d2 == d1.push(hex_lower(m / 0x100_0000 % 16)));
    assert(d3 == d2.push(hex_lower(m / 0x10_0000 % 16)));
    assert(d4 == d3.push(hex_lower(m / 0x1_0000 % 16)));
    assert(d5 == d4.push(hex_lower(m / 0x1000 % 16)));
    assert(d6 == d5.push(hex_lower(m / 0x100 % 16)));
    assert(d7 == d6.push(hex_lower(m / 0x10 % 16)));
    assert(hex8(n) == d7.push(hex_lower(m % 16)));
}

/// A negative number is spelled with a minus sign before the digits of its amount.
pub proof fn law_minus_before_negative(n: nat)
    ensures
        signed_decimal(n as int) == decimal(n),
        n > 0 ==> signed_decimal(-(n as int)) == "-"@ + decimal(n),
{
}

/// A text is filled up with blanks behind it, and never cut.
pub proof fn law_filled_with_blanks(s: Seq<char>, width: nat)
    ensures
        s.is_prefix_of(filled(s, width)),
        filled(s, width).len() == if s.len() >= width {
            s.len()
        } else {
            width
        },
        forall|i: int| s.len() <= i < filled(s, width).len()
            ==> #[trigger] filled(s, width)[i] == ' ',
{
    let f = filled(s, width);
    assert(f.subrange(0, s.len() as int) =~= s);
}

/// What stands before the first of some characters holds none of them, and is followed by
/// one or is all.
pub proof fn law_before_any_holds_none(s: Seq<char>, stops: Seq<char>)
    ensures
        before_any(s, stops).is_prefix_of(s),
        forall|i: int|
            0 <= i < before_any(s, stops).len() ==> !stops.contains(
                #[trigger] before_any(s, stops)[i],
            ),
        before_any(s, stops).len() < s.len() ==> stops.contains(
            s[before_any(s, stops).len() as int],
        ),
{
    lemma_first_of(s, stops, 0);
    let b = before_any(s, stops);
    assert(b =~= s.subrange(0, b.len() as int));
    assert forall|i: int| 0 <= i < b.len() implies !stops.contains(#[trigger] b[i]) by {
        assert(b[i] == s[i]);
    }
}

proof fn lemma_first_of(s: Seq<char>, stops: Seq<char>, from: int)
    requires
        0 <= from,
    ensures
        match first_of(s, stops, from) {
            Some(i) => from <= i < s.len() && stops.contains(s[i]) && forall|j: int|
                from <= j < i ==> !stops.contains(#[trigger] s[j]),
            None => forall|j: int| from <= j < s.len() ==> !stops.contains(#[trigger] s[j]),
        },
    decreases s.len() - from,
{
    if from < s.len() && !stops.contains(s[from]) {
        lemma_first_of(s, stops, from + 1);
    }
}

/// Prefixes and suffixes are taken off where they are there.
pub proof fn law_prefix_and_suffix_come_off(s: Seq<char>, p: Seq<char>)
    ensures
        after_prefix(p + s, p) == Some(s),
        before_suffix(s + p, p) == Some(s),
        after_prefix(s, p) matches Some(r) ==> s == p + r,
        before_suffix(s, p) matches Some(r) ==> s == r + p,
{
    let n = p.len() as int;
    assert((p + s).subrange(0, n) =~= p);
    assert((p + s).skip(n) =~= s);
    let m = s.len() as int;
    assert((s + p).subrange(m, m + n) =~= p);
    assert((s + p).take(m) =~= s);
    if p.is_prefix_of(s) {
        assert(s.subrange(0, n) == p);
        assert(s =~= p + s.skip(n));
    }
    if p.is_suffix_of(s) {
        assert(s.subrange(m - n, m) == p);
        assert(s =~= s.take(m - n) + p);
    }
}

/// What stands before the first of a character, and behind the last.
pub proof fn law_parts_at_a_character(a: Seq<char>, b: Seq<char>, c: char)
    ensures
        !a.contains(c) ==> before_first(a + Seq::empty().push(c) + b, c) == a,
        !b.contains(c) ==> after_last(a + Seq::empty().push(c) + b, c) == b,
        !a.contains(c) ==> before_first(a, c) == a && after_last(a, c) == a,
{
    let s = a + Seq::empty().push(c) + b;
    let n = a.len() as int;
    assert(s[n] == c);
    lemma_index_from(s, c, 0);
    lemma_index_from(a, c, 0);
    lemma_last_index_before(s, c, s.len() as int);
    lemma_last_index_before(a, c, n);
    if !a.contains(c) {
        assert forall|j: int| 0 <= j < n implies #[trigger] s[j] != c by {
            assert(s[j] == a[j]);
            assert(a.contains(a[j]));
        }
        if let Some(i) = first_index(a, c) {
            assert(a.contains(a[i]));
        }
        if let Some(i) = last_index(a, c) {
            assert(a.contains(a[i]));
        }
        assert(s.take(n) =~= a);
    }
    if !b.contains(c) {
        assert forall|j: int| n < j < s.len() implies #[trigger] s[j] != c by {
            assert(s[j] == b[j - n - 1]);
            assert(b.contains(b[j - n - 1]));
        }
        assert(s.skip(n + 1) =~= b);
    }
}

/// The last occurrence up to a place is one, and none stands between it and the place.
pub proof fn law_last_occurrence(s: Seq<char>, p: Seq<char>, to: int)
    ensures
        match find_last(s, p, to) {
            Some(i) => 0 <= i <= to && occurs_at(s, p, i) && forall|j: int|
                i < j <= to ==> !#[trigger] occurs_at(s, p, j),
            None => forall|j: int| 0 <= j <= to ==> !#[trigger] occurs_at(s, p, j),
        },
    decreases to + 1,
{
    if to >= 0 && !occurs_at(s, p, to) {
        law_last_occurrence(s, p, to - 1);
    }
}

/// Characters of a set are taken off the end, and no others.
pub proof fn law_set_is_taken_off_the_end(s: Seq<char>, set: Seq<char>, c: char)
    ensures
        trimmed_end_of(s, set).is_prefix_of(s),
        trimmed_end_of(s, set).len() > 0 ==> !set.contains(trimmed_end_of(s, set).last()),
        forall|i: int|
            trimmed_end_of(s, set).len() <= i < s.len() ==> set.contains(#[trigger] s[i]),
        without_trailing(s, c).is_prefix_of(s),
        without_trailing(s, c).len() > 0 ==> without_trailing(s, c).last() != c,
        forall|i: int| without_trailing(s, c).len() <= i < s.len() ==> #[trigger] s[i] == c,
    decreases s.len(),
{
    assert(s.subrange(0, s.len() as int) =~= s);
    if s.len() > 0 {
        let t = s.drop_last();
        law_set_is_taken_off_the_end(t, set, c);
        let a = trimmed_end_of(s, set);
        let b = without_trailing(s, c);
        if set.contains(s.last()) {
            assert(t.subrange(0, a.len() as int) =~= s.subrange(0, a.len() as int));
            assert forall|i: int| a.len() <= i < s.len() implies set.contains(#[trigger] s[i]) by {
                if i < t.len() {
                    assert(t[i] == s[i]);
                }
            }
        }
        if s.last() == c {
            assert(t.subrange(0, b.len() as int) =~= s.subrange(0, b.len() as int));
            assert forall|i: int| b.len() <= i < s.len() implies #[trigger] s[i] == c by {
                if i < t.len() {
                    assert(t[i] == s[i]);
                }
            }
        }
    }
}

/// Characters of a set are taken off the beginning, and no others.
pub proof fn law_set_is_taken_off_the_beginning(s: Seq<char>, set: Seq<char>)
    ensures
        trimmed_start_of(s, set).is_suffix_of(s),
        trimmed_start_of(s, set).len() > 0 ==> !set.contains(trimmed_start_of(s, set)[0]),
        forall|i: int|
            0 <= i < s.len() - trimmed_start_of(s, set).len() ==> set.contains(#[trigger] s[i]),
        trimmed_of(s, set) == trimmed_end_of(trimmed_start_of(s, set), set),
    decreases s.len(),
{
    assert(s.subrange(0, s.len() as int) =~= s);
    if s.len() > 0 && set.contains(s[0]) {
        let t = s.skip(1);
        law_set_is_taken_off_the_beginning(t, set);
        let a = trimmed_start_of(s, set);
        assert(t.subrange(t.len() - a.len(), t.len() as int) =~= s.subrange(
            s.len() - a.len(),
            s.len() as int,
        ));
        assert forall|i: int| 0 <= i < s.len() - a.len() implies set.contains(#[trigger] s[i]) by {
            if i > 0 {
                assert(t[i - 1] == s[i]);
            }
        }
    }
}

} // verus!
