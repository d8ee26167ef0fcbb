//! The order of texts: by their UTF-8 bytes, as in a dictionary.
use crate::text;
use vstd::utf8::encode_utf8;
use vstd::prelude::*;

verus! {

/// True when `a` stands before `b` in the dictionary order of bytes.
pub open spec fn bytes_less(a: Seq<u8>, b: Seq<u8>) -> bool
    decreases b.len(),
{
    if b.len() == 0 {
        false
    } else if a.len() == 0 {
        true
    } else if a[0] == b[0] {
        bytes_less(a.skip(1), b.skip(1))
    } else {
        a[0] < b[0]
    }
}

/// True when the text `a` stands before the text `b`.
pub open spec fn text_less(a: Seq<char>, b: Seq<char>) -> bool {
    bytes_less(encode_utf8(a), encode_utf8(b))
}

/// The order of optional texts: nothing stands before every text.
pub open spec fn opt_less(a: Option<Seq<char>>, b: Option<Seq<char>>) -> bool {
    match (a, b) {
        (Some(x), Some(y)) => text_less(x, y),
        (None, Some(_)) => true,
        _ => false,
    }
}

proof fn lemma_bytes_less_total(a: Seq<u8>, b: Seq<u8>)
    ensures
        !(bytes_less(a, b) && bytes_less(b, a)),
        !bytes_less(a, b) && !bytes_less(b, a) ==> a == b,
    decreases b.len(),
{
    if a.len() > 0 && b.len() > 0 && a[0] == b[0] {
        let x = a.skip(1);
        let y = b.skip(1);
        lemma_bytes_less_total(x, y);
        if !bytes_less(a, b) && !bytes_less(b, a) {
            assert(x == y);
            assert forall|i: int| 0 <= i < a.len() implies a[i] == b[i] by {
                if i > 0 {
                    assert(x[i - 1] == a[i] && y[i - 1] == b[i]);
                }
            }
            assert(a.len() == x.len() + 1 && b.len() == y.len() + 1);
            assert(a =~= b);
        }
    } else if a.len() == 0 && b.len() == 0 {
        assert(a =~= b);
    }
}

proof fn lemma_bytes_less_transitive(a: Seq<u8>, b: Seq<u8>, c: Seq<u8>)
    requires
        bytes_less(a, b),
        bytes_less(b, c),
    ensures
        bytes_less(a, c),
    decreases c.len(),
{
    if a.len() > 0 && b.len() > 0 && c.len() > 0 {
        if a[0] == b[0] && b[0] == c[0] {
            lemma_bytes_less_transitive(a.skip(1), b.skip(1), c.skip(1));
        }
    }
}

/// Of two optional texts one stands before the other, unless they are equal.
pub proof fn lemma_opt_less_total(a: Option<Seq<char>>, b: Option<Seq<char>>)
    ensures
        !(opt_less(a, b) && opt_less(b, a)),
        !opt_less(a, b) && !opt_less(b, a) ==> a == b,
{
    if let (Some(x), Some(y)) = (a, b) {
        lemma_text_less_total(x, y);
    }
}

/// The order of optional texts is transitive.
pub proof fn lemma_opt_less_transitive(
    a: Option<Seq<char>>,
    b: Option<Seq<char>>,
    c: Option<Seq<char>>,
)
    requires
        opt_less(a, b),
        opt_less(b, c),
    ensures
        opt_less(a, c),
{
    if let (Some(x), Some(y), Some(z)) = (a, b, c) {
        lemma_text_less_transitive(x, y, z);
    }
}

/// Of two texts one stands before the other, unless they are equal.
pub proof fn lemma_text_less_total(a: Seq<char>, b: Seq<char>)
    ensures
        !(text_less(a, b) && text_less(b, a)),
        !text_less(a, b) && !text_less(b, a) ==> a == b,
{
    lemma_bytes_less_total(encode_utf8(a), encode_utf8(b));
    text::lemma_bytes_injective(a, b);
}

/// The order of texts is transitive.
pub proof fn lemma_text_less_transitive(a: Seq<char>, b: Seq<char>, c: Seq<char>)
    requires
        text_less(a, b),
        text_less(b, c),
    ensures
        text_less(a, c),
{
    lemma_bytes_less_transitive(encode_utf8(a), encode_utf8(b), encode_utf8(c));
}

proof fn lemma_common_prefix(a: Seq<u8>, b: Seq<u8>, i: int)
    requires
        0 <= i <= a.len(),
        i <= b.len(),
        forall|j: int| 0 <= j < i ==> #[trigger] a[j] == b[j],
    ensures
        bytes_less(a, b) == bytes_less(a.skip(i), b.skip(i)),
    decreases i,
{
    if i == 0 {
        assert(a.skip(0) =~= a);
        assert(b.skip(0) =~= b);
    } else {
        assert(a[0] == b[0]);
        let x = a.skip(1);
        let y = b.skip(1);
        assert forall|j: int| 0 <= j < i - 1 implies #[trigger] x[j] == y[j] by {
            assert(a[j + 1] == b[j + 1]);
        }
        lemma_common_prefix(x, y, i - 1);
        assert(x.skip(i - 1) =~= a.skip(i));
        assert(y.skip(i - 1) =~= b.skip(i));
    }
}

/// True when `a` stands before `b`.
pub fn less(a: &str, b: &str) -> (r: bool)
    ensures
        r == text_less(a@, b@),
{
    let x = a.as_bytes();
    let y = b.as_bytes();
    let m: usize = x.len();
    let n: usize = y.len();
    let mut i: usize = 0;
    while i < m && i < n && x[i] == y[i]
        invariant
            i <= m,
            i <= n,
            m == x@.len(),
            n == y@.len(),
            forall|j: int| 0 <= j < i ==> #[trigger] x@[j] == y@[j],
        decreases m - i,
    {
        i = i + 1;
    }
    proof {
        lemma_common_prefix(x@, y@, i as int);
        if i < m && i < n {
            assert(x@.skip(i as int)[0] == x@[i as int]);
            assert(y@.skip(i as int)[0] == y@[i as int]);
        }
    }
    if i < m && i < n {
        x[i] < y[i]
    } else {
        i < n
    }
}

/// True when the optional text `a` stands before `b`.
pub fn less_opt(a: &Option<String>, b: &Option<String>) -> (r: bool)
    ensures
        r == opt_less(text::opt_text(*a), text::opt_text(*b)),
{
    match (a, b) {
        (Some(x), Some(y)) => less(x.as_str(), y.as_str()),
        (None, Some(_)) => true,
        _ => false,
    }
}

// -- Newest first --

/// What decides the place of an entry in a list: when it was changed and made,
/// and its name.
pub struct StampV {
    pub modified: Option<Seq<char>>,
    pub created: Option<Seq<char>>,
    pub name: Seq<char>,
}

/// True when `a` stands before `b` in a list with the newest first: by the time
/// of the change, then by the time at which it was made, then by the name.
pub open spec fn newer(a: StampV, b: StampV) -> bool {
    opt_less(b.modified, a.modified) || (a.modified == b.modified && (opt_less(
        b.created,
        a.created,
    ) || (a.created == b.created && text_less(a.name, b.name))))
}

/// Of two stamps one stands before the other, unless they are equal.
pub proof fn lemma_newer_total(a: StampV, b: StampV)
    ensures
        !(newer(a, b) && newer(b, a)),
        !newer(a, b) && !newer(b, a) ==> a == b,
{
    lemma_opt_less_total(a.modified, b.modified);
    lemma_opt_less_total(a.created, b.created);
    lemma_text_less_total(a.name, b.name);
}

/// What stands before what stands before a stamp stands before it too.
pub proof fn lemma_newer_transitive(a: StampV, b: StampV, c: StampV)
    requires
        newer(a, b),
        newer(b, c),
    ensures
        newer(a, c),
{
    if opt_less(b.modified, a.modified) && opt_less(c.modified, b.modified) {
        lemma_opt_less_transitive(c.modified, b.modified, a.modified);
    }
    if opt_less(b.created, a.created) && opt_less(c.created, b.created) {
        lemma_opt_less_transitive(c.created, b.created, a.created);
    }
    if text_less(a.name, b.name) && text_less(b.name, c.name) {
        lemma_text_less_transitive(a.name, b.name, c.name);
    }
}

/// A list with one more entry: behind all that do not stand after it.
pub open spec fn insert_newest<T>(s: Seq<T>, x: T, key: spec_fn(T) -> StampV) -> Seq<T>
    decreases s.len(),
{
    if s.len() > 0 && newer(key(x), key(s.last())) {
        insert_newest(s.drop_last(), x, key).push(s.last())
    } else {
        s.push(x)
    }
}

/// The entries of a list with the newest first; those with equal stamps keep
/// their order.
pub open spec fn newest_first<T>(s: Seq<T>, key: spec_fn(T) -> StampV) -> Seq<T>
    decreases s.len(),
{
    if s.len() == 0 {
        s
    } else {
        insert_newest(newest_first(s.drop_last(), key), s.last(), key)
    }
}

/// True of a list with the newest first.
pub open spec fn is_newest_first<T>(s: Seq<T>, key: spec_fn(T) -> StampV) -> bool {
    forall|i: int, j: int|
        0 <= i < j < s.len() ==> !newer(key(#[trigger] s[j]), key(#[trigger] s[i]))
}

/// The place at which an entry is inserted.
pub proof fn lemma_insert_at<T>(s: Seq<T>, x: T, key: spec_fn(T) -> StampV, at: int)
    requires
        0 <= at <= s.len(),
        forall|k: int| at <= k < s.len() ==> newer(key(x), key(#[trigger] s[k])),
        at > 0 ==> !newer(key(x), key(s[at - 1])),
    ensures
        insert_newest(s, x, key) == s.insert(at, x),
    decreases s.len(),
{
    if at < s.len() {
        assert(s.last() == s[s.len() - 1]);
        lemma_insert_at(s.drop_last(), x, key, at);
        assert(s.drop_last().insert(at, x).push(s.last()) =~= s.insert(at, x));
    } else {
        assert(s.push(x) =~= s.insert(at, x));
    }
}

proof fn lemma_insert_keeps<T>(s: Seq<T>, x: T, key: spec_fn(T) -> StampV)
    requires
        is_newest_first(s, key),
    ensures
        is_newest_first(insert_newest(s, x, key), key),
        insert_newest(s, x, key).to_multiset() == s.to_multiset().insert(x),
        insert_newest(s, x, key).len() == s.len() + 1,
        forall|i: int|
            0 <= i < insert_newest(s, x, key).len() ==> s.contains(
                #[trigger] insert_newest(s, x, key)[i],
            ) || insert_newest(s, x, key)[i] == x,
    decreases s.len(),
{
    broadcast use vstd::seq_lib::group_to_multiset_ensures;

    let r = insert_newest(s, x, key);
    if s.len() > 0 && newer(key(x), key(s.last())) {
        let front = s.drop_last();
        let low = insert_newest(front, x, key);
        lemma_insert_keeps(front, x, key);
        lemma_newer_total(key(x), key(s.last()));
        assert(s =~= front.push(s.last()));
        assert(r.to_multiset() =~= s.to_multiset().insert(x));
        assert forall|i: int| 0 <= i < r.len() implies s.contains(#[trigger] r[i]) || r[i] == x by {
            if i < low.len() {
                assert(r[i] == low[i]);
                if front.contains(low[i]) {
                    let k = choose|k: int| 0 <= k < front.len() && front[k] == low[i];
                    assert(s[k] == low[i]);
                }
            } else {
                assert(r[i] == s[s.len() - 1]);
            }
        }
        assert forall|i: int, j: int| 0 <= i < j < r.len() implies !newer(
            key(#[trigger] r[j]),
            key(#[trigger] r[i]),
        ) by {
            if j < low.len() {
                assert(r[i] == low[i] && r[j] == low[j]);
            } else {
                assert(r[i] == low[i]);
                if low[i] != x {
                    assert(front.contains(low[i]));
                    let k = choose|k: int| 0 <= k < front.len() && front[k] == low[i];
                    assert(s[k] == low[i]);
                    assert(s[s.len() - 1] == r[j]);
                }
            }
        }
    } else {
        assert forall|i: int, j: int| 0 <= i < j < r.len() implies !newer(
            key(#[trigger] r[j]),
            key(#[trigger] r[i]),
        ) by {
            if j < s.len() {
                assert(r[i] == s[i] && r[j] == s[j]);
            } else {
                let last = s[s.len() - 1];
                assert(r[i] == s[i] && r[j] == x);
                if newer(key(x), key(s[i])) {
                    lemma_newer_total(key(x), key(last));
                    if newer(key(last), key(x)) {
                        lemma_newer_transitive(key(last), key(x), key(s[i]));
                    }
                    assert(newer(key(last), key(s[i])));
                    lemma_newer_total(key(last), key(s[i]));
                }
            }
        }
        assert forall|i: int| 0 <= i < r.len() implies s.contains(#[trigger] r[i]) || r[i] == x by {
            if i < s.len() {
                assert(r[i] == s[i]);
            }
        }
    }
}

/// Sorting a list puts the newest first and keeps every entry.
pub proof fn law_newest_first_sorts<T>(s: Seq<T>, key: spec_fn(T) -> StampV)
    ensures
        is_newest_first(newest_first(s, key), key),
        newest_first(s, key).to_multiset() == s.to_multiset(),
        newest_first(s, key).len() == s.len(),
    decreases s.len(),
{
    broadcast use vstd::seq_lib::group_to_multiset_ensures;

    if s.len() > 0 {
        law_newest_first_sorts(s.drop_last(), key);
        lemma_insert_keeps(newest_first(s.drop_last(), key), s.last(), key);
        assert(s =~= s.drop_last().push(s.last()));
    }
}

/// True when an entry stands before another, by what decides their places.
pub fn is_newer(
    modified: &Option<String>,
    created: &Option<String>,
    name: &String,
    other_modified: &Option<String>,
    other_created: &Option<String>,
    other_name: &String,
) -> (r: bool)
    ensures
        r == newer(
            StampV {
                modified: text::opt_text(*modified),
                created: text::opt_text(*created),
                name: name@,
            },
            StampV {
                modified: text::opt_text(*other_modified),
                created: text::opt_text(*other_created),
                name: other_name@,
            },
        ),
{
    let ghost m = text::opt_text(*modified);
    let ghost n = text::opt_text(*other_modified);
    let ghost c = text::opt_text(*created);
    let ghost d = text::opt_text(*other_created);
    proof {
        lemma_opt_less_total(m, n);
        lemma_opt_less_total(c, d);
    }
    if less_opt(other_modified, modified) {
        return true;
    }
    if less_opt(modified, other_modified) {
        return false;
    }
    if less_opt(other_created, created) {
        return true;
    }
    if less_opt(created, other_created) {
        return false;
    }
    less(name.as_str(), other_name.as_str())
}

/// Of two entries the one that was changed later is newer; of those changed at one time
/// the one made later, and of those the one whose name comes first. One without a time
/// is older than one with a time.
pub proof fn law_newer_by_change_then_making_then_name(a: StampV, b: StampV)
    ensures
        (a.modified matches Some(x) && b.modified matches Some(y) && text_less(y, x))
            ==> newer(a, b),
        (a.modified matches Some(x) && b.modified matches Some(y) && text_less(y, x)) ==> !newer(
            b,
            a,
        ),
        a.modified is Some && b.modified is None ==> newer(a, b) && !newer(b, a),
        a.modified == b.modified && (a.created matches Some(x) && b.created matches Some(y)
            && text_less(y, x)) ==> newer(a, b) && !newer(b, a),
        a.modified == b.modified && a.created == b.created ==> (newer(a, b) <==> text_less(
            a.name,
            b.name,
        )),
{
    if let (Some(x), Some(y)) = (a.modified, b.modified) {
        lemma_bytes_less_total(encode_utf8(x), encode_utf8(y));
    }
    if let (Some(x), Some(y)) = (a.created, b.created) {
        lemma_bytes_less_total(encode_utf8(x), encode_utf8(y));
    }
    lemma_bytes_less_irreflexive(a);
}

proof fn lemma_bytes_less_irreflexive(a: StampV)
    ensures
        !opt_less(a.modified, a.modified),
        !opt_less(a.created, a.created),
{
    if let Some(x) = a.modified {
        lemma_bytes_less_total(encode_utf8(x), encode_utf8(x));
    }
    if let Some(x) = a.created {
        lemma_bytes_less_total(encode_utf8(x), encode_utf8(x));
    }
}

/// Bytes are ordered by the first place at which they differ; what continues another
/// comes behind it.
pub proof fn law_first_difference_orders(p: Seq<u8>, a: Seq<u8>, b: Seq<u8>)
    ensures
        a.len() > 0 && b.len() > 0 && a[0] < b[0] ==> bytes_less(p + a, p + b) && !bytes_less(
            p + b,
            p + a,
        ),
        b.len() > 0 ==> bytes_less(p, p + b) && !bytes_less(p + b, p),
        !bytes_less(p, p),
    decreases p.len(),
{
    if p.len() == 0 {
        assert(p + a =~= a);
        assert(p + b =~= b);
    } else {
        law_first_difference_orders(p.skip(1), a, b);
        assert((p + a).skip(1) =~= p.skip(1) + a);
        assert((p + b).skip(1) =~= p.skip(1) + b);
        assert((p + a)[0] == p[0] && (p + b)[0] == p[0]);
    }
}

} // verus!
