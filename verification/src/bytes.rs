//! Byte strings: big-endian numbers, copying, and numbers in decimal text.
use crate::text;
use vstd::prelude::*;
use vstd::utf8::*;

verus! {

/// The two bytes of `n`, the high one first.
pub open spec fn be16(n: int) -> Seq<u8> {
    Seq::empty().push((n / 256) as u8).push((n % 256) as u8)
}

/// The four bytes of `n`, the highest first.
pub open spec fn be32(n: int) -> Seq<u8> {
    be16(n / 65536) + be16(n % 65536)
}

/// The number that two bytes stand for.
pub open spec fn number16(a: u8, b: u8) -> int {
    a * 256 + b
}

/// The number that four bytes stand for.
pub open spec fn number32(a: u8, b: u8, c: u8, d: u8) -> int {
    number16(a, b) * 65536 + number16(c, d)
}

/// `n` zero bytes.
pub open spec fn zeros(n: nat) -> Seq<u8> {
    Seq::new(n, |i: int| 0u8)
}

/// The number that a run of decimal digits stands for.
pub open spec fn digits_value(s: Seq<char>) -> nat
    decreases s.len(),
{
    if s.len() == 0 {
        0
    } else {
        digits_value(s.drop_last()) * 10 + (s.last() as nat - '0' as nat) as nat
    }
}

/// True of a non-empty run of decimal digits.
pub open spec fn all_digits(s: Seq<char>) -> bool {
    s.len() > 0 && forall|i: int| 0 <= i < s.len() ==> '0' <= #[trigger] s[i] <= '9'
}

/// `s` without one leading plus sign.
pub open spec fn without_plus(s: Seq<char>) -> Seq<char> {
    if s.len() > 0 && s[0] == '+' {
        s.skip(1)
    } else {
        s
    }
}

/// The 16-bit number that a text spells: decimal digits behind an optional
/// plus sign.
pub open spec fn port_number(s: Seq<char>) -> Option<u16> {
    let d = without_plus(s);
    if all_digits(d) && digits_value(d) <= 65535 {
        Some(digits_value(d) as u16)
    } else {
        None
    }
}

/// What `String::from_utf8_lossy` makes of bytes that are not UTF-8.
pub uninterp spec fn utf8_lossy(bytes: Seq<u8>) -> Seq<char>;

/// Two bytes give back the number that they were made of.
pub proof fn lemma_be16_number(n: int)
    requires
        0 <= n < 65536,
    ensures
        be16(n).len() == 2,
        number16(be16(n)[0], be16(n)[1]) == n,
{
}

/// Four bytes give back the number that they were made of.
pub proof fn lemma_be32_number(n: int)
    requires
        0 <= n < 0x1_0000_0000,
    ensures
        be32(n).len() == 4,
        number32(be32(n)[0], be32(n)[1], be32(n)[2], be32(n)[3]) == n,
{
    lemma_be16_number(n / 65536);
    lemma_be16_number(n % 65536);
}

proof fn lemma_digits_monotone(s: Seq<char>, i: int)
    requires
        0 <= i <= s.len(),
    ensures
        digits_value(s.take(i)) <= digits_value(s),
    decreases s.len() - i,
{
    if i < s.len() {
        lemma_digits_monotone(s, i + 1);
        assert(s.take(i + 1).drop_last() =~= s.take(i));
    } else {
        assert(s.take(i) =~= s);
    }
}

/// Appends bytes.
pub fn append_bytes(buf: &mut Vec<u8>, more: &[u8])
    ensures
        final(buf)@ == old(buf)@ + more@,
{
    let mut i: usize = 0;
    proof {
        assert(old(buf)@ + more@.take(0) =~= old(buf)@);
    }
    while i < more.len()
        invariant
            i <= more@.len(),
            buf@ == old(buf)@ + more@.take(i as int),
        decreases more@.len() - i,
    {
        buf.push(more[i]);
        proof {
            assert(old(buf)@ + more@.take(i + 1) =~= (old(buf)@ + more@.take(i as int)).push(
                more@[i as int],
            ));
        }
        i = i + 1;
    }
    proof {
        assert(more@.take(i as int) =~= more@);
    }
}

/// The bytes `data[from..to]`.
pub fn copy_range(data: &[u8], from: usize, to: usize) -> (r: Vec<u8>)
    requires
        from <= to <= data@.len(),
    ensures
        r@ == data@.subrange(from as int, to as int),
{
    let mut r: Vec<u8> = Vec::new();
    let mut i: usize = from;
    while i < to
        invariant
            from <= i <= to <= data@.len(),
            r@ == data@.subrange(from as int, i as int),
        decreases to - i,
    {
        r.push(data[i]);
        i = i + 1;
    }
    r
}

/// Appends a 16-bit number.
pub fn append_be16(buf: &mut Vec<u8>, n: u16)
    ensures
        final(buf)@ == old(buf)@ + be16(n as int),
{
    buf.push((n / 256) as u8);
    buf.push((n % 256) as u8);
    proof {
        assert(buf@ =~= old(buf)@ + be16(n as int));
    }
}

/// Appends a 32-bit number.
pub fn append_be32(buf: &mut Vec<u8>, n: u32)
    ensures
        final(buf)@ == old(buf)@ + be32(n as int),
{
    append_be16(buf, (n / 65536) as u16);
    append_be16(buf, (n % 65536) as u16);
    proof {
        assert(buf@ =~= old(buf)@ + be32(n as int));
    }
}

/// Appends `n` zero bytes.
pub fn append_zeros(buf: &mut Vec<u8>, n: usize)
    ensures
        final(buf)@ == old(buf)@ + zeros(n as nat),
{
    let mut i: usize = 0;
    proof {
        assert(old(buf)@ + zeros(0) =~= old(buf)@);
    }
    while i < n
        invariant
            i <= n,
            buf@ == old(buf)@ + zeros(i as nat),
        decreases n - i,
    {
        buf.push(0u8);
        proof {
            assert(old(buf)@ + zeros((i + 1) as nat) =~= (old(buf)@ + zeros(i as nat)).push(0u8));
        }
        i = i + 1;
    }
}

/// The 16-bit number at `data[at]`.
pub fn read_be16(data: &[u8], at: usize) -> (r: u16)
    requires
        at + 2 <= data@.len(),
    ensures
        r == number16(data@[at as int], data@[at + 1]),
{
    (data[at] as u16) * 256 + data[at + 1] as u16
}

/// The 32-bit number at `data[at]`.
pub fn read_be32(data: &[u8], at: usize) -> (r: u32)
    requires
        at + 4 <= data@.len(),
    ensures
        r == number32(data@[at as int], data@[at + 1], data@[at + 2], data@[at + 3]),
{
    let hi: u32 = (data[at] as u32) * 256 + data[at + 1] as u32;
    let lo: u32 = (data[at + 2] as u32) * 256 + data[at + 3] as u32;
    hi * 65536 + lo
}

/// True when two byte strings are equal.
pub fn same_bytes(a: &[u8], b: &[u8]) -> (r: bool)
    ensures
        r == (a@ == b@),
{
    if a.len() != b.len() {
        return false;
    }
    let mut i: usize = 0;
    while i < a.len()
        invariant
            i <= a@.len(),
            a@.len() == b@.len(),
            forall|j: int| 0 <= j < i ==> a@[j] == b@[j],
        decreases a@.len() - i,
    {
        if a[i] != b[i] {
            return false;
        }
        i = i + 1;
    }
    proof {
        assert(a@ =~= b@);
    }
    true
}

fn bytes_stand_at(data: &[u8], p: &[u8], at: usize) -> (r: bool)
    ensures
        r == text::occurs_at(data@, p@, at as int),
{
    if p.len() > data.len() || at > data.len() - p.len() {
        return false;
    }
    let mut i: usize = 0;
    while i < p.len()
        invariant
            i <= p@.len(),
            at + p.len() <= data.len(),
            forall|j: int| 0 <= j < i ==> data@[at + j] == #[trigger] p@[j],
        decreases p@.len() - i,
    {
        if data[at + i] != p[i] {
            proof {
                assert(data@.subrange(at as int, at + p@.len())[i as int] != p@[i as int]);
            }
            return false;
        }
        i = i + 1;
    }
    proof {
        assert(data@.subrange(at as int, at + p@.len()) =~= p@);
    }
    true
}

/// The first position at which `p` stands in `data`.
pub fn find_bytes(data: &[u8], p: &[u8]) -> (r: Option<usize>)
    ensures
        match r {
            Some(i) => text::find_in(data@, p@) == Some(i as int) && i + p@.len() <= data@.len(),
            None => text::find_in(data@, p@) is None,
        },
{
    let mut i: usize = 0;
    while p.len() <= data.len() && i <= data.len() - p.len()
        invariant
            text::find_in(data@, p@) == text::find_from(data@, p@, i as int),
        decreases data@.len() + 1 - i,
    {
        if bytes_stand_at(data, p, i) {
            return Some(i);
        }
        proof {
            if p@.len() == 0 {
                assert(data@.subrange(i as int, i as int) =~= p@);
            }
        }
        i = i + 1;
    }
    None
}

/// Reads a 16-bit number from decimal text.
pub fn parse_port(s: &str) -> (r: Option<u16>)
    ensures
        r == port_number(s@),
{
    let v = text::chars_of(s);
    let from: usize = if v.len() > 0 && v[0] == '+' {
        1
    } else {
        0
    };
    let ghost d = without_plus(v@);
    proof {
        assert(d =~= v@.skip(from as int));
    }
    if from == v.len() {
        return None;
    }
    let mut n: u32 = 0;
    let mut i: usize = from;
    proof {
        assert(d.take(0) =~= Seq::empty());
    }
    while i < v.len()
        invariant
            from <= i <= v@.len(),
            from < v@.len(),
            d == v@.skip(from as int),
            v@ == s@,
            d == without_plus(s@),
            n <= 65535,
            n == digits_value(d.take(i - from)),
            forall|j: int| 0 <= j < i - from ==> '0' <= #[trigger] d[j] <= '9',
        decreases v@.len() - i,
    {
        let c: char = v[i];
        proof {
            assert(d[i - from] == c);
            assert(d.take(i + 1 - from).drop_last() =~= d.take(i - from));
            lemma_digits_monotone(d, i + 1 - from);
        }
        if !('0' <= c && c <= '9') {
            return None;
        }
        let next: u32 = n * 10 + (c as u32 - 48);
        if next > 65535 {
            return None;
        }
        n = next;
        i = i + 1;
    }
    proof {
        assert(d.take(i - from) =~= d);
    }
    Some(n as u16)
}

/// `String::from_utf8_lossy`: the text of the bytes, with a replacement
/// character wherever they are not UTF-8.
#[verifier::external_body]
pub(crate) fn text_lossy(data: &[u8]) -> (r: String)
    ensures
        r@ == utf8_lossy(data@),
        valid_utf8(data@) ==> r@ == decode_utf8(data@),
{
    String::from_utf8_lossy(data).into_owned()
}

/// A number that is spelled in decimal digits reads back as itself.
pub proof fn law_spelled_number_reads_back(n: nat)
    ensures
        digits_value(text::decimal(n)) == n,
        all_digits(text::decimal(n)),
        n <= 65535 ==> port_number(text::decimal(n)) == Some(n as u16),
        n > 65535 ==> port_number(text::decimal(n)) is None,
{
    lemma_spelled(n);
    assert(text::decimal(n)[0] != '+');
}

proof fn lemma_spelled(n: nat)
    ensures
        digits_value(text::decimal(n)) == n,
        all_digits(text::decimal(n)),
    decreases n,
{
    reveal_with_fuel(digits_value, 2);
    let d = text::decimal(n);
    if n < 10 {
        assert(d.drop_last() =~= Seq::empty());
    } else {
        lemma_spelled(n / 10);
        assert(d.drop_last() =~= text::decimal(n / 10));
        assert forall|i: int| 0 <= i < d.len() implies '0' <= #[trigger] d[i] <= '9' by {
            if i < d.len() - 1 {
                assert(d[i] == text::decimal(n / 10)[i]);
            }
        }
    }
}

/// A number in two or four bytes has its highest byte first.
pub proof fn law_highest_byte_comes_first(n: int)
    ensures
        0 <= n < 0x1_0000 ==> be16(n).len() == 2 && be16(n)[0] == n / 256 && be16(n)[1] == n % 256,
        0 <= n < 0x1_0000_0000 ==> be32(n).len() == 4 && be32(n)[0] == n / 0x100_0000 && be32(n)[1]
            == n / 0x1_0000 % 256 && be32(n)[2] == n / 0x100 % 256 && be32(n)[3] == n % 256,
{
}

} // verus!
