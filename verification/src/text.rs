//! Text primitives: the order of map keys, equality of string slices.

use vstd::prelude::*;
use vstd::string::{StringSliceAdditionalSpecFns, StringExecFns};
use vstd::utf8::{encode_utf8, encode_utf8_decode_utf8};

verus! {

/// The outcome of comparing two keys.
#[derive(Clone, Copy, Debug, PartialEq, Eq)]
pub enum KeyOrder {
    Less,
    Equal,
    Greater,
}

/// `a` and `b` agree on their first `i` bytes, and at position `i` either `a`
/// has ended while `b` goes on, or `a` holds the smaller byte.
pub open spec fn bytes_part_at(a: Seq<u8>, b: Seq<u8>, i: int) -> bool {
    &&& 0 <= i <= a.len()
    &&& i < b.len()
    &&& forall|j: int| 0 <= j < i ==> a[j] == b[j]
    &&& i < a.len() ==> a[i] < b[i]
}

/// Lexicographic order on byte strings.
pub open spec fn bytes_lt(a: Seq<u8>, b: Seq<u8>) -> bool {
    exists|i: int| bytes_part_at(a, b, i)
}

/// The order of keys: strings compare as their UTF-8 encodings do, byte by
/// byte, which is the order `str` has in Rust.
pub open spec fn str_lt(a: Seq<char>, b: Seq<char>) -> bool {
    bytes_lt(encode_utf8(a), encode_utf8(b))
}

/// Of two byte strings at most one is below the other, and none is below
/// itself.
pub proof fn lemma_bytes_lt_asymmetric(a: Seq<u8>, b: Seq<u8>)
    requires
        bytes_lt(a, b),
    ensures
        !bytes_lt(b, a),
        a != b,
{
    let i = choose|i: int| bytes_part_at(a, b, i);
    if bytes_lt(b, a) {
        let j = choose|j: int| bytes_part_at(b, a, j);
        if i < j {
            assert(b[i] == a[i]);
        } else if j < i {
            assert(a[j] == b[j]);
        }
    }
    if a == b {
        assert(a[i] == b[i]);
    }
}

/// The order of byte strings is transitive.
pub proof fn lemma_bytes_lt_transitive(a: Seq<u8>, b: Seq<u8>, c: Seq<u8>)
    requires
        bytes_lt(a, b),
        bytes_lt(b, c),
    ensures
        bytes_lt(a, c),
{
    let i = choose|i: int| bytes_part_at(a, b, i);
    let j = choose|j: int| bytes_part_at(b, c, j);
    let k = if i <= j { i } else { j };
    assert forall|x: int| 0 <= x < k implies a[x] == c[x] by {
        assert(a[x] == b[x]);
        assert(b[x] == c[x]);
    }
    if i < j {
        assert(b[i] == c[i]);
    }
    assert(bytes_part_at(a, c, k));
}

/// Distinct byte strings are ordered one way or the other.
pub proof fn lemma_bytes_lt_total(a: Seq<u8>, b: Seq<u8>)
    requires
        a != b,
    ensures
        bytes_lt(a, b) || bytes_lt(b, a),
    decreases a.len(),
{
    if a.len() == 0 {
        assert(b.len() > 0) by {
            if b.len() == 0 {
                assert(a =~= b);
            }
        }
        assert(bytes_part_at(a, b, 0));
    } else if b.len() == 0 {
        assert(bytes_part_at(b, a, 0));
    } else if a[0] < b[0] {
        assert(bytes_part_at(a, b, 0));
    } else if b[0] < a[0] {
        assert(bytes_part_at(b, a, 0));
    } else {
        let a1 = a.drop_first();
        let b1 = b.drop_first();
        assert(a1 != b1) by {
            if a1 == b1 {
                assert forall|x: int| 0 <= x < a.len() implies a[x] == b[x] by {
                    if x > 0 {
                        assert(a[x] == a1[x - 1]);
                        assert(b[x] == b1[x - 1]);
                    }
                }
                assert(a.len() == a1.len() + 1);
                assert(b.len() == b1.len() + 1);
                assert(a =~= b);
            }
        }
        lemma_bytes_lt_total(a1, b1);
        if bytes_lt(a1, b1) {
            let i = choose|i: int| bytes_part_at(a1, b1, i);
            assert forall|x: int| 0 <= x < i + 1 implies a[x] == b[x] by {
                if x > 0 {
                    assert(a[x] == a1[x - 1]);
                    assert(b[x] == b1[x - 1]);
                }
            }
            assert(i < a1.len() ==> a[i + 1] == a1[i] && b[i + 1] == b1[i]);
            assert(bytes_part_at(a, b, i + 1));
        } else {
            let i = choose|i: int| bytes_part_at(b1, a1, i);
            assert forall|x: int| 0 <= x < i + 1 implies b[x] == a[x] by {
                if x > 0 {
                    assert(a[x] == a1[x - 1]);
                    assert(b[x] == b1[x - 1]);
                }
            }
            assert(i < b1.len() ==> a[i + 1] == a1[i] && b[i + 1] == b1[i]);
            assert(bytes_part_at(b, a, i + 1));
        }
    }
}

/// No key is below itself, and of two keys at most one is below the other.
pub proof fn lemma_str_lt_asymmetric(a: Seq<char>, b: Seq<char>)
    requires
        str_lt(a, b),
    ensures
        !str_lt(b, a),
        a != b,
{
    lemma_bytes_lt_asymmetric(encode_utf8(a), encode_utf8(b));
}

/// The order of keys is transitive.
pub proof fn lemma_str_lt_transitive(a: Seq<char>, b: Seq<char>, c: Seq<char>)
    requires
        str_lt(a, b),
        str_lt(b, c),
    ensures
        str_lt(a, c),
{
    lemma_bytes_lt_transitive(encode_utf8(a), encode_utf8(b), encode_utf8(c));
}

/// Two different keys are always ordered.
pub proof fn lemma_str_lt_total(a: Seq<char>, b: Seq<char>)
    requires
        a != b,
    ensures
        str_lt(a, b) || str_lt(b, a),
{
    encode_utf8_decode_utf8(a);
    encode_utf8_decode_utf8(b);
    lemma_bytes_lt_total(encode_utf8(a), encode_utf8(b));
}

/// Compares two string slices as keys.
pub fn compare(a: &str, b: &str) -> (r: KeyOrder)
    ensures
        r == KeyOrder::Less <==> str_lt(a@, b@),
        r == KeyOrder::Equal <==> a@ == b@,
        r == KeyOrder::Greater <==> str_lt(b@, a@),
{
    let x = a.as_bytes();
    let y = b.as_bytes();
    let n: usize = x.len();
    let m: usize = y.len();
    let mut i: usize = 0;
    while i < n && i < m
        invariant
            n == x@.len(),
            m == y@.len(),
            x@ == encode_utf8(a@),
            y@ == encode_utf8(b@),
            i <= n,
            i <= m,
            forall|j: int| 0 <= j < i ==> x@[j] == y@[j],
        decreases n - i,
    {
        let p: u8 = x[i];
        let q: u8 = y[i];
        if p < q {
            proof {
                assert(bytes_part_at(x@, y@, i as int));
                lemma_str_lt_asymmetric(a@, b@);
            }
            return KeyOrder::Less;
        }
        if q < p {
            proof {
                assert(bytes_part_at(y@, x@, i as int));
                lemma_str_lt_asymmetric(b@, a@);
            }
            return KeyOrder::Greater;
        }
        i = i + 1;
    }
    if n < m {
        proof {
            assert(bytes_part_at(x@, y@, i as int));
            lemma_str_lt_asymmetric(a@, b@);
        }
        KeyOrder::Less
    } else if m < n {
        proof {
            assert(bytes_part_at(y@, x@, i as int));
            lemma_str_lt_asymmetric(b@, a@);
        }
        KeyOrder::Greater
    } else {
        proof {
            assert(x@ =~= y@);
            encode_utf8_decode_utf8(a@);
            encode_utf8_decode_utf8(b@);
            assert(a@ == b@);
            if str_lt(a@, b@) {
                lemma_str_lt_asymmetric(a@, b@);
            }
        }
        KeyOrder::Equal
    }
}

/// Whether two string slices hold the same text.
pub fn same_text(a: &str, b: &str) -> (r: bool)
    ensures
        r == (a@ == b@),
{
    let x = a.to_owned();
    let y = b.to_owned();
    x == y
}

/// `String::push`: appends `c` to the end of `s`.
#[verifier::external_body]
pub(crate) fn push_char(s: &mut String, c: char)
    ensures
        final(s)@ == old(s)@.push(c),
{
    s.push(c)
}

/// What `char::is_whitespace` answers for `c`.
pub uninterp spec fn is_white_space(c: char) -> bool;

/// `char::is_whitespace`: whether `c` has the Unicode property White_Space.
/// The answer depends on `c` alone.
#[verifier::external_body]
pub(crate) fn white_space(c: char) -> (r: bool)
    ensures
        r == is_white_space(c),
{
    c.is_whitespace()
}

/// What `str::to_lowercase` makes of `s`.
pub uninterp spec fn lowercased(s: Seq<char>) -> Seq<char>;

/// `str::to_lowercase`: the text in lower case, as Unicode defines it. The
/// result depends on the text alone.
#[verifier::external_body]
pub(crate) fn lowercase_text(s: &str) -> (r: String)
    ensures
        r@ == lowercased(s@),
{
    s.to_lowercase()
}

/// The characters of a string slice.
pub fn chars_of(s: &str) -> (r: Vec<char>)
    ensures
        r@ == s@,
{
    let mut out: Vec<char> = Vec::new();
    for c in it: s.chars()
        invariant
            it.seq() == s@,
            out@ == s@.take(it.index()),
    {
        out.push(c);
    }
    assert(s@.take(s@.len() as int) =~= s@);
    out
}

/// `s` with every occurrence of `from` replaced by `to`, reading from the
/// left and going on behind each occurrence. An empty `from` occurs nowhere.
pub open spec fn replaced(s: Seq<char>, from: Seq<char>, to: Seq<char>) -> Seq<char>
    decreases s.len(),
{
    if from.len() == 0 || s.len() == 0 {
        s
    } else if from.is_prefix_of(s) {
        to + replaced(s.skip(from.len() as int), from, to)
    } else {
        seq![s[0]] + replaced(s.drop_first(), from, to)
    }
}

/// `p` stands in `s` at position `i`.
pub open spec fn occurs_at(s: Seq<char>, p: Seq<char>, i: int) -> bool {
    &&& 0 <= i
    &&& i + p.len() <= s.len()
    &&& s.subrange(i, i + p.len()) == p
}

/// Whether `p` stands in `s` at position `i`.
pub fn matches_at(s: &Vec<char>, p: &Vec<char>, i: usize) -> (r: bool)
    requires
        i <= s@.len(),
    ensures
        r == occurs_at(s@, p@, i as int),
{
    let n: usize = s.len();
    let m: usize = p.len();
    if m > n - i {
        return false;
    }
    let mut j: usize = 0;
    while j < m
        invariant
            n == s@.len(),
            m == p@.len(),
            i + m <= n,
            j <= m,
            forall|k: int| 0 <= k < j ==> s@[i + k] == p@[k],
        decreases m - j,
    {
        if s[i + j] != p[j] {
            assert(s@.subrange(i as int, i + m)[j as int] == s@[i + j]);
            return false;
        }
        j = j + 1;
    }
    assert(s@.subrange(i as int, i + m) =~= p@);
    true
}

/// Replaces every occurrence of `from` in `s` by `to`.
pub fn replace_all(s: &str, from: &str, to: &str) -> (r: String)
    ensures
        r@ == replaced(s@, from@, to@),
{
    let text = chars_of(s);
    let pat = chars_of(from);
    let n: usize = text.len();
    let m: usize = pat.len();
    if m == 0 {
        return String::from_str(s);
    }
    let mut out = String::new();
    let mut i: usize = 0;
    assert(s@.skip(0) =~= s@);
    while i < n
        invariant
            n == text@.len(),
            m == pat@.len(),
            m > 0,
            text@ == s@,
            pat@ == from@,
            i <= n,
            out@ + replaced(s@.skip(i as int), from@, to@) == replaced(s@, from@, to@),
        decreases n - i,
    {
        let ghost rest = s@.skip(i as int);
        let ghost before = out@;
        if matches_at(&text, &pat, i) {
            proof {
                assert(rest.subrange(0, m as int) =~= s@.subrange(i as int, i + m));
                assert(from@.is_prefix_of(rest));
                assert(rest.skip(m as int) =~= s@.skip(i + m));
            }
            out.append(to);
            assert(out@ + replaced(s@.skip(i + m), from@, to@) =~= before + replaced(
                rest,
                from@,
                to@,
            ));
            i = i + m;
        } else {
            proof {
                if from@.is_prefix_of(rest) {
                    assert(rest.subrange(0, m as int) =~= s@.subrange(i as int, i + m));
                }
                assert(rest.drop_first() =~= s@.skip(i + 1));
                assert(rest[0] == text@[i as int]);
            }
            push_char(&mut out, text[i]);
            assert(out@ + replaced(s@.skip(i + 1), from@, to@) =~= before + replaced(
                rest,
                from@,
                to@,
            ));
            i = i + 1;
        }
    }
    assert(out@ + replaced(s@.skip(n as int), from@, to@) =~= out@);
    out
}

/// The digit character of `d`.
pub open spec fn digit(d: nat) -> char
    recommends
        d < 10,
{
    ((48 + d) as u8) as char
}

/// The decimal numeral of `n`, without leading zeros.
pub open spec fn decimal(n: nat) -> Seq<char>
    decreases n,
{
    if n < 10 {
        seq![digit(n)]
    } else {
        decimal(n / 10).push(digit(n % 10))
    }
}

/// Writes `n` in decimal.
pub fn decimal_text(n: u64) -> (r: String)
    ensures
        r@ == decimal(n as nat),
{
    let mut digits: Vec<char> = Vec::new();
    let mut rest: u64 = n;
    // The digits come out last first.
    while rest >= 10
        invariant
            decimal(n as nat) == decimal(rest as nat) + digits@.reverse(),
        decreases rest,
    {
        let d: u8 = (rest % 10) as u8;
        let c: char = (48 + d) as char;
        let ghost before = digits@;
        digits.push(c);
        proof {
            assert(decimal(rest as nat) == decimal((rest / 10) as nat).push(c));
            assert(digits@.reverse() =~= seq![c] + before.reverse());
            assert(decimal((rest / 10) as nat) + digits@.reverse() =~= decimal(rest as nat)
                + before.reverse());
        }
        rest = rest / 10;
    }
    let d: u8 = rest as u8;
    let mut out = String::new();
    push_char(&mut out, (48 + d) as char);
    let mut k: usize = digits.len();
    assert(digits@.reverse().take(0) =~= Seq::<char>::empty());
    while k > 0
        invariant
            k <= digits@.len(),
            out@ == decimal(rest as nat) + digits@.reverse().take(digits@.len() - k),
        decreases k,
    {
        k = k - 1;
        let ghost before = out@;
        push_char(&mut out, digits[k]);
        proof {
            let rv = digits@.reverse();
            let t: int = digits@.len() - k - 1;
            assert(rv[t] == digits@[k as int]);
            assert(rv.take(t + 1) =~= rv.take(t).push(rv[t]));
            assert(out@ =~= decimal(rest as nat) + rv.take(t + 1));
        }
    }
    assert(digits@.reverse().take(digits@.len() as int) =~= digits@.reverse());
    out
}

/// The texts that a list of strings holds.
pub open spec fn texts(v: Seq<String>) -> Seq<Seq<char>> {
    Seq::new(v.len(), |i: int| v[i]@)
}

/// Appends a copy of `s` to the list.
pub fn push_text(v: &mut Vec<String>, s: &str)
    ensures
        texts(final(v)@) == texts(old(v)@).push(s@),
{
    let ghost before = texts(v@);
    v.push(String::from_str(s));
    assert(texts(v@) =~= before.push(s@));
}

/// The longest beginning of `s` without the character `c`.
pub open spec fn until(s: Seq<char>, c: char) -> Seq<char>
    decreases s.len(),
{
    if s.len() == 0 || s[0] == c {
        Seq::empty()
    } else {
        seq![s[0]] + until(s.drop_first(), c)
    }
}

/// The beginning of `s`, from position `from` on, up to the next `c`.
pub fn take_until(s: &Vec<char>, from: usize, c: char) -> (r: String)
    requires
        from <= s@.len(),
    ensures
        r@ == until(s@.skip(from as int), c),
        r@.len() <= s@.len() - from,
        from + r@.len() < s@.len() ==> s@[from + r@.len()] == c,
        forall|k: int| from <= k < from + r@.len() ==> s@[k] != c,
{
    let n: usize = s.len();
    let mut out = String::new();
    let mut i: usize = from;
    assert(s@.skip(from as int).take(0) =~= Seq::<char>::empty());
    while i < n && s[i] != c
        invariant
            n == s@.len(),
            from <= i <= n,
            out@ == s@.subrange(from as int, i as int),
            out@ + until(s@.skip(i as int), c) == until(s@.skip(from as int), c),
            forall|k: int| from <= k < i ==> s@[k] != c,
        decreases n - i,
    {
        let ghost before = out@;
        let ghost rest = s@.skip(i as int);
        push_char(&mut out, s[i]);
        proof {
            assert(rest[0] == s@[i as int]);
            assert(rest.drop_first() =~= s@.skip(i + 1));
            assert(out@ + until(s@.skip(i + 1), c) =~= before + until(rest, c));
            assert(out@ =~= s@.subrange(from as int, i + 1));
        }
        i = i + 1;
    }
    proof {
        let rest = s@.skip(i as int);
        if i < n {
            assert(rest[0] == s@[i as int]);
        }
        assert(until(rest, c) =~= Seq::<char>::empty());
        assert(out@ + until(rest, c) =~= out@);
    }
    out
}

/// `p` stands in `s` at position `i` and nowhere before.
pub open spec fn first_at(s: Seq<char>, p: Seq<char>, i: int) -> bool {
    &&& occurs_at(s, p, i)
    &&& forall|j: int| 0 <= j < i ==> !occurs_at(s, p, j)
}

/// `p` stands somewhere in `s`.
pub open spec fn occurs(s: Seq<char>, p: Seq<char>) -> bool {
    exists|i: int| occurs_at(s, p, i)
}

/// The position of the first occurrence of `p` in `s`.
pub open spec fn found_at(s: Seq<char>, p: Seq<char>) -> Option<int> {
    if occurs(s, p) {
        Some(choose|i: int| first_at(s, p, i))
    } else {
        None
    }
}

/// The first occurrence is where `first_at` says.
pub proof fn lemma_found_at(s: Seq<char>, p: Seq<char>, i: int)
    requires
        first_at(s, p, i),
    ensures
        found_at(s, p) == Some(i),
{
    let j = choose|j: int| first_at(s, p, j);
    if j < i {
        assert(!occurs_at(s, p, j));
    } else if i < j {
        assert(!occurs_at(s, p, i));
    }
}

/// Finds the first occurrence of `p` in `s` at or behind position `from`,
/// counted from `from`.
pub fn find_from(s: &Vec<char>, p: &Vec<char>, from: usize) -> (r: Option<usize>)
    requires
        from <= s@.len(),
    ensures
        match r {
            Some(i) => found_at(s@.skip(from as int), p@) == Some(i as int) && from + i + p@.len()
                <= s@.len(),
            None => found_at(s@.skip(from as int), p@) is None,
        },
{
    let n: usize = s.len();
    let ghost rest = s@.skip(from as int);
    let mut i: usize = from;
    while i <= n
        invariant
            n == s@.len(),
            from <= i <= n + 1,
            rest == s@.skip(from as int),
            forall|j: int| 0 <= j < i - from ==> !occurs_at(rest, p@, j),
        decreases n + 1 - i,
    {
        let hit = matches_at(s, p, i);
        proof {
            let k = i - from;
            if k + p@.len() <= rest.len() {
                assert(rest.subrange(k, k + p@.len()) =~= s@.subrange(i as int, i + p@.len()));
            }
        }
        if hit {
            proof {
                lemma_found_at(rest, p@, i - from);
            }
            return Some(i - from);
        }
        if i == n {
            proof {
                if occurs(rest, p@) {
                    let w = choose|w: int| occurs_at(rest, p@, w);
                    assert(w <= n - from);
                }
            }
            return None;
        }
        i = i + 1;
    }
    proof {
        if occurs(rest, p@) {
            let w = choose|w: int| occurs_at(rest, p@, w);
            assert(w <= n - from);
        }
    }
    None
}

/// `s` without the characters `c` at its end.
pub open spec fn strip_end(s: Seq<char>, c: char) -> Seq<char>
    decreases s.len(),
{
    if s.len() > 0 && s.last() == c {
        strip_end(s.drop_last(), c)
    } else {
        s
    }
}

/// `s` without the characters `c` at its beginning.
pub open spec fn strip_start(s: Seq<char>, c: char) -> Seq<char>
    decreases s.len(),
{
    if s.len() > 0 && s[0] == c {
        strip_start(s.drop_first(), c)
    } else {
        s
    }
}

/// The end of the part of `s` between `from` and `to` once the characters
/// `c` at its end are taken off.
pub fn strip_end_index(s: &Vec<char>, from: usize, to: usize, c: char) -> (r: usize)
    requires
        from <= to <= s@.len(),
    ensures
        from <= r <= to,
        s@.subrange(from as int, r as int) == strip_end(s@.subrange(from as int, to as int), c),
{
    let mut e: usize = to;
    while e > from && s[e - 1] == c
        invariant
            from <= e <= to,
            to <= s@.len(),
            strip_end(s@.subrange(from as int, e as int), c) == strip_end(
                s@.subrange(from as int, to as int),
                c,
            ),
        decreases e,
    {
        proof {
            let cur = s@.subrange(from as int, e as int);
            assert(cur.last() == s@[e - 1]);
            assert(cur.drop_last() =~= s@.subrange(from as int, e - 1));
        }
        e = e - 1;
    }
    proof {
        let cur = s@.subrange(from as int, e as int);
        if e > from {
            assert(cur.last() == s@[e - 1]);
        }
    }
    e
}

/// The beginning of the part of `s` between `from` and `to` once the
/// characters `c` at its beginning are taken off.
pub fn strip_start_index(s: &Vec<char>, from: usize, to: usize, c: char) -> (r: usize)
    requires
        from <= to <= s@.len(),
    ensures
        from <= r <= to,
        s@.subrange(r as int, to as int) == strip_start(s@.subrange(from as int, to as int), c),
{
    let mut b: usize = from;
    while b < to && s[b] == c
        invariant
            from <= b <= to,
            to <= s@.len(),
            strip_start(s@.subrange(b as int, to as int), c) == strip_start(
                s@.subrange(from as int, to as int),
                c,
            ),
        decreases to - b,
    {
        proof {
            let cur = s@.subrange(b as int, to as int);
            assert(cur[0] == s@[b as int]);
            assert(cur.drop_first() =~= s@.subrange(b + 1, to as int));
        }
        b = b + 1;
    }
    proof {
        let cur = s@.subrange(b as int, to as int);
        if b < to {
            assert(cur[0] == s@[b as int]);
        }
    }
    b
}

/// Appends the characters of `s` between `from` and `to` to `out`.
pub fn push_range(out: &mut String, s: &Vec<char>, from: usize, to: usize)
    requires
        from <= to <= s@.len(),
    ensures
        final(out)@ == old(out)@ + s@.subrange(from as int, to as int),
{
    let ghost start = out@;
    let mut i: usize = from;
    assert(start + s@.subrange(from as int, from as int) =~= start);
    while i < to
        invariant
            from <= i <= to,
            to <= s@.len(),
            out@ == start + s@.subrange(from as int, i as int),
        decreases to - i,
    {
        push_char(out, s[i]);
        assert(out@ =~= start + s@.subrange(from as int, i + 1));
        i = i + 1;
    }
}

/// `s` without the white space at its beginning.
pub open spec fn skip_blank(s: Seq<char>) -> Seq<char>
    decreases s.len(),
{
    if s.len() > 0 && is_white_space(s[0]) {
        skip_blank(s.drop_first())
    } else {
        s
    }
}

/// The characters of `s` up to the first white space.
pub open spec fn word(s: Seq<char>) -> Seq<char>
    decreases s.len(),
{
    if s.len() == 0 || is_white_space(s[0]) {
        Seq::empty()
    } else {
        seq![s[0]] + word(s.drop_first())
    }
}

/// Where the white space from `from` on ends.
pub fn skip_blank_index(s: &Vec<char>, from: usize) -> (r: usize)
    requires
        from <= s@.len(),
    ensures
        from <= r <= s@.len(),
        s@.skip(r as int) == skip_blank(s@.skip(from as int)),
{
    let n: usize = s.len();
    let mut i: usize = from;
    while i < n && white_space(s[i])
        invariant
            n == s@.len(),
            from <= i <= n,
            skip_blank(s@.skip(i as int)) == skip_blank(s@.skip(from as int)),
        decreases n - i,
    {
        proof {
            let cur = s@.skip(i as int);
            assert(cur[0] == s@[i as int]);
            assert(cur.drop_first() =~= s@.skip(i + 1));
        }
        i = i + 1;
    }
    proof {
        let cur = s@.skip(i as int);
        if i < n {
            assert(cur[0] == s@[i as int]);
        }
    }
    i
}

/// Where the word that begins at `from` ends.
pub fn word_end(s: &Vec<char>, from: usize) -> (r: usize)
    requires
        from <= s@.len(),
    ensures
        from <= r <= s@.len(),
        s@.subrange(from as int, r as int) == word(s@.skip(from as int)),
{
    let n: usize = s.len();
    let mut i: usize = from;
    assert(s@.subrange(from as int, from as int) + word(s@.skip(from as int)) =~= word(
        s@.skip(from as int),
    ));
    while i < n && !white_space(s[i])
        invariant
            n == s@.len(),
            from <= i <= n,
            s@.subrange(from as int, i as int) + word(s@.skip(i as int)) == word(
                s@.skip(from as int),
            ),
        decreases n - i,
    {
        proof {
            let cur = s@.skip(i as int);
            assert(cur[0] == s@[i as int]);
            assert(cur.drop_first() =~= s@.skip(i + 1));
            assert(s@.subrange(from as int, i + 1) + word(s@.skip(i + 1)) =~= s@.subrange(
                from as int,
                i as int,
            ) + word(cur));
        }
        i = i + 1;
    }
    proof {
        let cur = s@.skip(i as int);
        if i < n {
            assert(cur[0] == s@[i as int]);
        }
        assert(s@.subrange(from as int, i as int) + word(cur) =~= s@.subrange(
            from as int,
            i as int,
        ));
    }
    i
}

/// `s` without the white space at its end.
pub open spec fn strip_blank_end(s: Seq<char>) -> Seq<char>
    decreases s.len(),
{
    if s.len() > 0 && is_white_space(s.last()) {
        strip_blank_end(s.drop_last())
    } else {
        s
    }
}

/// `s` without the white space around it.
pub open spec fn trim_blank(s: Seq<char>) -> Seq<char> {
    strip_blank_end(skip_blank(s))
}

/// The end of the part of `s` between `from` and `to` once the white space
/// at its end is taken off.
pub fn strip_blank_end_index(s: &Vec<char>, from: usize, to: usize) -> (r: usize)
    requires
        from <= to <= s@.len(),
    ensures
        from <= r <= to,
        s@.subrange(from as int, r as int) == strip_blank_end(s@.subrange(from as int, to as int)),
{
    let mut e: usize = to;
    while e > from && white_space(s[e - 1])
        invariant
            from <= e <= to,
            to <= s@.len(),
            strip_blank_end(s@.subrange(from as int, e as int)) == strip_blank_end(
                s@.subrange(from as int, to as int),
            ),
        decreases e,
    {
        proof {
            let cur = s@.subrange(from as int, e as int);
            assert(cur.last() == s@[e - 1]);
            assert(cur.drop_last() =~= s@.subrange(from as int, e - 1));
        }
        e = e - 1;
    }
    proof {
        let cur = s@.subrange(from as int, e as int);
        if e > from {
            assert(cur.last() == s@[e - 1]);
        }
    }
    e
}

/// The text without the white space around it.
pub fn trim_line(line: &str) -> (r: String)
    ensures
        r@ == trim_blank(line@),
{
    let s = chars_of(line);
    let n: usize = s.len();
    assert(s@.skip(0) =~= s@);
    let a: usize = skip_blank_index(&s, 0);
    let e: usize = strip_blank_end_index(&s, a, n);
    assert(s@.subrange(a as int, n as int) =~= s@.skip(a as int));
    text_of_range(&s, a, e)
}

/// Whether `s` ends with `p`.
pub fn ends_with(s: &Vec<char>, p: &Vec<char>) -> (r: bool)
    ensures
        r == p@.is_suffix_of(s@),
{
    let n: usize = s.len();
    let m: usize = p.len();
    if m > n {
        return false;
    }
    let hit = matches_at(s, p, n - m);
    proof {
        assert(s@.subrange(n - m, n as int) =~= s@.skip(n - m));
    }
    hit
}

/// Whether `s` begins with `p`.
pub fn starts_with(s: &Vec<char>, p: &Vec<char>) -> (r: bool)
    ensures
        r == p@.is_prefix_of(s@),
{
    let hit = matches_at(s, p, 0);
    proof {
        if p@.len() <= s@.len() {
            assert(s@.subrange(0, p@.len() as int) =~= s@.take(p@.len() as int));
        }
    }
    hit
}

/// The characters of `s` between `from` and `to` as a string.
pub fn text_of_range(s: &Vec<char>, from: usize, to: usize) -> (r: String)
    requires
        from <= to <= s@.len(),
    ensures
        r@ == s@.subrange(from as int, to as int),
{
    let mut out = String::new();
    push_range(&mut out, s, from, to);
    assert(out@ =~= s@.subrange(from as int, to as int));
    out
}

/// The texts one after the other.
pub fn concat2(a: &str, b: &str) -> (r: String)
    ensures
        r@ == a@ + b@,
{
    let mut out = String::from_str(a);
    out.append(b);
    out
}

/// The three texts one after the other.
pub fn concat3(a: &str, b: &str, c: &str) -> (r: String)
    ensures
        r@ == a@ + b@ + c@,
{
    let mut out = String::from_str(a);
    out.append(b);
    out.append(c);
    out
}

/// The pieces one after the other.
pub open spec fn joined_all(parts: Seq<Seq<char>>) -> Seq<char>
    decreases parts.len(),
{
    if parts.len() == 0 {
        Seq::empty()
    } else {
        joined_all(parts.drop_last()) + parts.last()
    }
}

/// The texts that a list of string slices holds.
pub open spec fn slices(v: Seq<&str>) -> Seq<Seq<char>> {
    Seq::new(v.len(), |i: int| v[i]@)
}

/// Joins the pieces into one text.
pub fn join_all(parts: &Vec<&str>) -> (r: String)
    ensures
        r@ == joined_all(slices(parts@)),
{
    let n: usize = parts.len();
    let mut out = String::new();
    let mut i: usize = 0;
    let ghost all = slices(parts@);
    assert(all.take(0) =~= Seq::<Seq<char>>::empty());
    while i < n
        invariant
            n == parts@.len(),
            all == slices(parts@),
            i <= n,
            out@ == joined_all(all.take(i as int)),
        decreases n - i,
    {
        out.append(parts[i]);
        proof {
            assert(all.take(i + 1).drop_last() =~= all.take(i as int));
            assert(all.take(i + 1).last() == parts@[i as int]@);
        }
        i = i + 1;
    }
    assert(all.take(n as int) =~= all);
    out
}

} // verus!
