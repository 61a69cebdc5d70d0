//! Character-level helpers for the string handling of the library.

use vstd::prelude::*;
use vstd::string::StringExecFns;

verus! {

/// A fresh `String` holding the characters of `s`.
pub fn lit(s: &str) -> (r: String)
    ensures
        r@ == s@,
{
    String::from_str(s)
}

/// The text `a`, then the characters `c`, then the text `b`.
pub fn concat3(a: &str, c: &[char], b: &str) -> (r: String)
    ensures
        r@ == a@ + c@ + b@,
{
    let mut v = chars_of(a);
    push_all(&mut v, c);
    let w = chars_of(b);
    push_all(&mut v, w.as_slice());
    string_from_chars(v.as_slice())
}

/// The first fault that `f` finds among the items of `s`, scanning from the front.
pub open spec fn first_fault<A>(s: Seq<A>, f: spec_fn(A) -> Option<Seq<char>>) -> Option<Seq<char>>
    decreases s.len(),
{
    if s.len() == 0 {
        None
    } else {
        match first_fault(s.drop_last(), f) {
            Some(m) => Some(m),
            None => f(s.last()),
        }
    }
}

/// One more item scanned.
pub proof fn lemma_first_fault_step<A>(s: Seq<A>, f: spec_fn(A) -> Option<Seq<char>>, i: int)
    requires
        0 <= i < s.len(),
    ensures
        first_fault(s.take(i + 1), f) == (match first_fault(s.take(i), f) {
            Some(m) => Some(m),
            None => f(s[i]),
        }),
{
    assert(s.take(i + 1).drop_last() =~= s.take(i));
    assert(s.take(i + 1).last() == s[i]);
}

/// A fault found in a prefix is the fault of the whole sequence.
pub proof fn lemma_first_fault_prefix<A>(s: Seq<A>, f: spec_fn(A) -> Option<Seq<char>>, k: int)
    requires
        0 <= k <= s.len(),
        first_fault(s.take(k), f) is Some,
    ensures
        first_fault(s, f) == first_fault(s.take(k), f),
    decreases s.len() - k,
{
    if k == s.len() {
        assert(s.take(k) =~= s);
    } else {
        lemma_first_fault_step(s, f, k);
        lemma_first_fault_prefix(s, f, k + 1);
    }
}

/// With no fault in any item, there is none in the sequence.
pub proof fn lemma_first_fault_whole<A>(s: Seq<A>, f: spec_fn(A) -> Option<Seq<char>>)
    ensures
        first_fault(s.take(s.len() as int), f) == first_fault(s, f),
{
    assert(s.take(s.len() as int) =~= s);
}

/// The characters of `s`, in order.
pub fn chars_of(s: &str) -> (v: Vec<char>)
    ensures
        v@ == s@,
{
    let mut v: Vec<char> = Vec::new();
    for c in it: s.chars()
        invariant
            v@ == it.seq().take(it.index() as int),
            it.seq() == s@,
    {
        v.push(c);
    }
    v
}

/// Collects characters into a `String` (`String::from_iter`).
#[verifier::external_body]
pub(crate) fn string_from_chars(v: &[char]) -> (r: String)
    ensures
        r@ == v@,
{
    v.iter().collect()
}

/// Whether two character sequences are equal.
pub fn chars_eq(a: &[char], b: &[char]) -> (r: bool)
    ensures
        r == (a@ == b@),
{
    if a.len() != b.len() {
        return false;
    }
    let mut i: usize = 0;
    while i < a.len()
        invariant
            a@.len() == b@.len(),
            0 <= i <= a@.len(),
            forall|j: int| 0 <= j < i ==> a@[j] == b@[j],
        decreases a@.len() - i,
    {
        if a[i] != b[i] {
            return false;
        }
        i = i + 1;
    }
    assert(a@ =~= b@);
    true
}

/// Whether two strings hold the same characters.
pub fn str_eq(a: &str, b: &str) -> (r: bool)
    ensures
        r == (a@ == b@),
{
    let ca = chars_of(a);
    let cb = chars_of(b);
    chars_eq(ca.as_slice(), cb.as_slice())
}

/// Whether two byte sequences are equal.
pub fn bytes_eq(a: &[u8], b: &[u8]) -> (r: bool)
    ensures
        r == (a@ == b@),
{
    if a.len() != b.len() {
        return false;
    }
    let mut i: usize = 0;
    while i < a.len()
        invariant
            a@.len() == b@.len(),
            0 <= i <= a@.len(),
            forall|j: int| 0 <= j < i ==> a@[j] == b@[j],
        decreases a@.len() - i,
    {
        if a[i] != b[i] {
            return false;
        }
        i = i + 1;
    }
    assert(a@ =~= b@);
    true
}

/// A fresh copy of a byte vector.
pub fn copy_bytes(v: &[u8]) -> (r: Vec<u8>)
    ensures
        r@ == v@,
{
    vstd::slice::slice_to_vec(v)
}

/// A fresh copy of a string.
pub fn copy_string(s: &str) -> (r: String)
    ensures
        r@ == s@,
{
    let v = chars_of(s);
    string_from_chars(v.as_slice())
}


/// `s` begins with `p`.
pub open spec fn seq_starts_with<A>(s: Seq<A>, p: Seq<A>) -> bool {
    p.len() <= s.len() && s.take(p.len() as int) == p
}

/// `s` ends with `p`.
pub open spec fn seq_ends_with<A>(s: Seq<A>, p: Seq<A>) -> bool {
    p.len() <= s.len() && s.skip(s.len() - p.len()) == p
}

/// `p` occurs in `s` as a contiguous run.
pub open spec fn seq_has_infix<A>(s: Seq<A>, p: Seq<A>) -> bool {
    exists|i: int| 0 <= i && i + p.len() <= s.len() && #[trigger] s.subrange(i, i + p.len()) == p
}

/// The pieces of `s` between occurrences of `sep`, the current piece being `cur`.
pub open spec fn split_acc(s: Seq<char>, sep: char, cur: Seq<char>) -> Seq<Seq<char>>
    decreases s.len(),
{
    if s.len() == 0 {
        seq![cur]
    } else if s[0] == sep {
        seq![cur] + split_acc(s.drop_first(), sep, Seq::empty())
    } else {
        split_acc(s.drop_first(), sep, cur.push(s[0]))
    }
}

/// `s` split at every `sep` (as `str::split` with a char pattern).
pub open spec fn seq_split(s: Seq<char>, sep: char) -> Seq<Seq<char>> {
    split_acc(s, sep, Seq::empty())
}

/// The pieces joined with `sep` between them.
pub open spec fn seq_join(parts: Seq<Seq<char>>, sep: Seq<char>) -> Seq<char>
    decreases parts.len(),
{
    if parts.len() == 0 {
        Seq::empty()
    } else if parts.len() == 1 {
        parts[0]
    } else {
        seq_join(parts.drop_last(), sep) + sep + parts.last()
    }
}

/// The index of the last `c` in `s`, or -1.
pub open spec fn seq_rfind(s: Seq<char>, c: char) -> int
    decreases s.len(),
{
    if s.len() == 0 {
        -1
    } else if s.last() == c {
        s.len() - 1
    } else {
        seq_rfind(s.drop_last(), c)
    }
}

/// The views of a list of character vectors.
pub open spec fn char_views(s: Seq<Vec<char>>) -> Seq<Seq<char>> {
    s.map_values(|v: Vec<char>| v@)
}

/// Whether `s` begins with `p`.
pub fn starts_with(s: &[char], p: &[char]) -> (r: bool)
    ensures
        r == seq_starts_with(s@, p@),
{
    if p.len() > s.len() {
        return false;
    }
    let mut i: usize = 0;
    while i < p.len()
        invariant
            p@.len() <= s@.len(),
            0 <= i <= p@.len(),
            forall|j: int| 0 <= j < i ==> s@[j] == p@[j],
        decreases p@.len() - i,
    {
        if s[i] != p[i] {
            assert(s@.take(p@.len() as int)[i as int] != p@[i as int]);
            return false;
        }
        i = i + 1;
    }
    assert(s@.take(p@.len() as int) =~= p@);
    true
}

/// Whether `s` ends with `p`.
pub fn ends_with(s: &[char], p: &[char]) -> (r: bool)
    ensures
        r == seq_ends_with(s@, p@),
{
    if p.len() > s.len() {
        return false;
    }
    let off = s.len() - p.len();
    let mut i: usize = 0;
    while i < p.len()
        invariant
            p@.len() <= s@.len(),
            s@.len() <= usize::MAX,
            off == s@.len() - p@.len(),
            0 <= i <= p@.len(),
            forall|j: int| 0 <= j < i ==> s@[off + j] == p@[j],
        decreases p@.len() - i,
    {
        assert(off + i < s@.len());
        if s[off + i] != p[i] {
            assert(s@.skip(off as int)[i as int] != p@[i as int]);
            return false;
        }
        i = i + 1;
    }
    assert(s@.skip(off as int) =~= p@);
    true
}

/// Whether `p` matches `s` at position `at`.
pub fn matches_at(s: &[char], p: &[char], at: usize) -> (r: bool)
    requires
        at + p@.len() <= s@.len(),
        s@.len() <= usize::MAX,
    ensures
        r == (s@.subrange(at as int, at + p@.len()) == p@),
{
    let mut i: usize = 0;
    while i < p.len()
        invariant
            at + p@.len() <= s@.len(),
            s@.len() <= usize::MAX,
            0 <= i <= p@.len(),
            forall|j: int| 0 <= j < i ==> s@[at + j] == p@[j],
        decreases p@.len() - i,
    {
        assert(at + i < s@.len());
        if s[at + i] != p[i] {
            assert(s@.subrange(at as int, at + p@.len())[i as int] != p@[i as int]);
            return false;
        }
        i = i + 1;
    }
    assert(s@.subrange(at as int, at + p@.len()) =~= p@);
    true
}

/// Whether `p` occurs in `s`.
pub fn has_infix(s: &[char], p: &[char]) -> (r: bool)
    ensures
        r == seq_has_infix(s@, p@),
{
    if p.len() > s.len() {
        return false;
    }
    if p.len() == 0 {
        assert(s@.subrange(0int, 0int + p@.len()) =~= p@);
        return true;
    }
    let last = s.len() - p.len();
    let mut at: usize = 0;
    while at <= last
        invariant
            p@.len() <= s@.len(),
            p@.len() > 0,
            s@.len() <= usize::MAX,
            last == s@.len() - p@.len(),
            0 <= at <= last + 1,
            forall|j: int| 0 <= j < at ==> #[trigger] s@.subrange(j, j + p@.len()) != p@,
        decreases last + 1 - at,
    {
        if matches_at(s, p, at) {
            return true;
        }
        at = at + 1;
    }
    false
}

/// Whether `c` occurs in `s`.
pub fn has_char(s: &[char], c: char) -> (r: bool)
    ensures
        r == s@.contains(c),
{
    let mut i: usize = 0;
    while i < s.len()
        invariant
            0 <= i <= s@.len(),
            forall|j: int| 0 <= j < i ==> s@[j] != c,
        decreases s@.len() - i,
    {
        if s[i] == c {
            return true;
        }
        i = i + 1;
    }
    false
}

proof fn lemma_split_step(s: Seq<char>, i: int, sep: char, cur: Seq<char>)
    requires
        0 <= i < s.len(),
    ensures
        split_acc(s.skip(i), sep, cur) == (if s[i] == sep {
            seq![cur] + split_acc(s.skip(i + 1), sep, Seq::empty())
        } else {
            split_acc(s.skip(i + 1), sep, cur.push(s[i]))
        }),
{
    assert(s.skip(i).drop_first() =~= s.skip(i + 1));
    assert(s.skip(i)[0] == s[i]);
}

/// `s` split at every `sep`.
pub fn split_chars(s: &[char], sep: char) -> (r: Vec<Vec<char>>)
    ensures
        char_views(r@) == seq_split(s@, sep),
{
    let mut parts: Vec<Vec<char>> = Vec::new();
    let mut cur: Vec<char> = Vec::new();
    let mut i: usize = 0;
    proof {
        assert(s@.skip(0) =~= s@);
    }
    while i < s.len()
        invariant
            0 <= i <= s@.len(),
            char_views(parts@) + split_acc(s@.skip(i as int), sep, cur@) == seq_split(s@, sep),
        decreases s@.len() - i,
    {
        proof {
            lemma_split_step(s@, i as int, sep, cur@);
        }
        if s[i] == sep {
            let ghost before = parts@;
            let ghost cv = cur@;
            parts.push(cur);
            cur = Vec::new();
            proof {
                assert(char_views(parts@) =~= char_views(before).push(cv));
                assert(char_views(parts@) + split_acc(s@.skip(i + 1), sep, cur@) =~= char_views(
                    before,
                ) + (seq![cv] + split_acc(s@.skip(i + 1), sep, Seq::empty())));
            }
        } else {
            cur.push(s[i]);
        }
        i = i + 1;
    }
    proof {
        assert(s@.skip(i as int) =~= Seq::<char>::empty());
    }
    let ghost before = parts@;
    let ghost cv = cur@;
    parts.push(cur);
    proof {
        assert(char_views(parts@) =~= char_views(before).push(cv));
        assert(char_views(parts@) =~= char_views(before) + seq![cv]);
    }
    parts
}

/// The pieces joined with `sep` between them.
pub fn join_chars(parts: &Vec<Vec<char>>, sep: &[char]) -> (r: Vec<char>)
    ensures
        r@ == seq_join(char_views(parts@), sep@),
{
    let mut r: Vec<char> = Vec::new();
    let mut i: usize = 0;
    while i < parts.len()
        invariant
            0 <= i <= parts@.len(),
            r@ == seq_join(char_views(parts@).take(i as int), sep@),
        decreases parts@.len() - i,
    {
        let ghost pv = char_views(parts@);
        proof {
            assert(pv.take(i + 1).drop_last() =~= pv.take(i as int));
            assert(pv.take(i + 1).last() == parts@[i as int]@);
        }
        if i > 0 {
            let mut k: usize = 0;
            let ghost r0 = r@;
            while k < sep.len()
                invariant
                    0 <= k <= sep@.len(),
                    r@ == r0 + sep@.take(k as int),
                decreases sep@.len() - k,
            {
                r.push(sep[k]);
                proof {
                    assert(sep@.take(k + 1) =~= sep@.take(k as int).push(sep@[k as int]));
                }
                k = k + 1;
            }
            assert(sep@.take(k as int) =~= sep@);
        }
        let part = &parts[i];
        let mut k: usize = 0;
        let ghost r1 = r@;
        while k < part.len()
            invariant
                0 <= k <= part@.len(),
                r@ == r1 + part@.take(k as int),
            decreases part@.len() - k,
        {
            r.push(part[k]);
            proof {
                assert(part@.take(k + 1) =~= part@.take(k as int).push(part@[k as int]));
            }
            k = k + 1;
        }
        proof {
            assert(part@.take(k as int) =~= part@);
            if i == 0 {
                assert(r@ =~= seq_join(pv.take(1), sep@));
            } else {
                assert(r@ =~= seq_join(pv.take(i + 1), sep@));
            }
        }
        i = i + 1;
    }
    proof {
        assert(char_views(parts@).take(i as int) =~= char_views(parts@));
    }
    r
}

/// The index of the last `c` in `s`.
pub fn rfind_char(s: &[char], c: char) -> (r: Option<usize>)
    ensures
        match r {
            Some(i) => i == seq_rfind(s@, c) && i < s@.len(),
            None => seq_rfind(s@, c) == -1,
        },
{
    let mut i: usize = s.len();
    assert(s@.take(s@.len() as int) =~= s@);
    while i > 0
        invariant
            0 <= i <= s@.len(),
            seq_rfind(s@, c) == seq_rfind(s@.take(i as int), c),
        decreases i,
    {
        proof {
            let t = s@.take(i as int);
            assert(t.drop_last() =~= s@.take(i - 1));
            assert(t.last() == s@[i - 1]);
        }
        if s[i - 1] == c {
            return Some(i - 1);
        }
        i = i - 1;
    }
    proof {
        assert(s@.take(0) =~= Seq::<char>::empty());
    }
    None
}

/// The characters of `s` from `from` on.
pub fn chars_from(s: &[char], from: usize) -> (r: Vec<char>)
    requires
        from <= s@.len(),
    ensures
        r@ == s@.skip(from as int),
{
    let mut r: Vec<char> = Vec::new();
    let mut i: usize = from;
    while i < s.len()
        invariant
            from <= i <= s@.len(),
            r@ == s@.subrange(from as int, i as int),
        decreases s@.len() - i,
    {
        r.push(s[i]);
        proof {
            assert(s@.subrange(from as int, i + 1) =~= s@.subrange(from as int, i as int).push(s@[i as int]));
        }
        i = i + 1;
    }
    assert(s@.subrange(from as int, i as int) =~= s@.skip(from as int));
    r
}

/// The first `n` characters of `s`.
pub fn chars_take(s: &[char], n: usize) -> (r: Vec<char>)
    requires
        n <= s@.len(),
    ensures
        r@ == s@.take(n as int),
{
    let mut r: Vec<char> = Vec::new();
    let mut i: usize = 0;
    while i < n
        invariant
            0 <= i <= n <= s@.len(),
            r@ == s@.take(i as int),
        decreases n - i,
    {
        r.push(s[i]);
        proof {
            assert(s@.take(i + 1) =~= s@.take(i as int).push(s@[i as int]));
        }
        i = i + 1;
    }
    r
}

/// Appends the characters of `t` to `v`.
pub fn push_all(v: &mut Vec<char>, t: &[char])
    ensures
        final(v)@ == old(v)@ + t@,
{
    let ghost v0 = v@;
    let mut i: usize = 0;
    while i < t.len()
        invariant
            0 <= i <= t@.len(),
            v@ == v0 + t@.take(i as int),
        decreases t@.len() - i,
    {
        v.push(t[i]);
        proof {
            assert(t@.take(i + 1) =~= t@.take(i as int).push(t@[i as int]));
        }
        i = i + 1;
    }
    assert(t@.take(i as int) =~= t@);
}

/// The decimal digits of `n`, most significant first.
pub open spec fn decimal(n: nat) -> Seq<char>
    decreases n,
{
    if n < 10 {
        seq![digit_char(n)]
    } else {
        decimal(n / 10).push(digit_char(n % 10))
    }
}

/// The character of a decimal digit.
pub open spec fn digit_char(d: nat) -> char {
    if d == 0 { '0' } else if d == 1 { '1' } else if d == 2 { '2' } else if d == 3 { '3' }
    else if d == 4 { '4' } else if d == 5 { '5' } else if d == 6 { '6' } else if d == 7 { '7' }
    else if d == 8 { '8' } else { '9' }
}

fn digit(d: u64) -> (c: char)
    requires
        d < 10,
    ensures
        c == digit_char(d as nat),
{
    if d == 0 { '0' } else if d == 1 { '1' } else if d == 2 { '2' } else if d == 3 { '3' }
    else if d == 4 { '4' } else if d == 5 { '5' } else if d == 6 { '6' } else if d == 7 { '7' }
    else if d == 8 { '8' } else { '9' }
}

/// The decimal representation of `n` (as `u64::to_string`).
pub fn decimal_chars(n: u64) -> (r: Vec<char>)
    ensures
        r@ == decimal(n as nat),
    decreases n,
{
    if n < 10 {
        let c = digit(n);
        vec![c]
    } else {
        let mut r = decimal_chars(n / 10);
        let c = digit(n % 10);
        r.push(c);
        r
    }
}


/// `c` is an ASCII letter or digit.
pub open spec fn is_ascii_alnum(c: char) -> bool {
    ('a' <= c && c <= 'z') || ('A' <= c && c <= 'Z') || ('0' <= c && c <= '9')
}

/// What `char::is_alphanumeric` gives: the Unicode Alphabetic or Numeric property.
pub uninterp spec fn spec_is_alphanumeric(c: char) -> bool;

/// Whether `c` is alphabetic or numeric (`char::is_alphanumeric`). Among
/// ASCII characters exactly the letters and digits have these properties.
#[verifier::external_body]
pub(crate) fn is_alphanumeric(c: char) -> (r: bool)
    ensures
        r == spec_is_alphanumeric(c),
        (c as u32) < 128 ==> (r <==> is_ascii_alnum(c)),
{
    c.is_alphanumeric()
}

/// `c` is an ASCII decimal digit.
pub open spec fn is_digit(c: char) -> bool {
    '0' <= c && c <= '9'
}

/// The value of a run of ASCII digits.
pub open spec fn digits_value(s: Seq<char>) -> nat
    decreases s.len(),
{
    if s.len() == 0 {
        0
    } else {
        digits_value(s.drop_last()) * 10 + ((s.last() as u32) - ('0' as u32)) as nat
    }
}

/// The digits of an unsigned integer literal, after an optional `+`.
pub open spec fn unsigned_digits(s: Seq<char>) -> Seq<char> {
    if s.len() > 0 && s[0] == '+' {
        s.drop_first()
    } else {
        s
    }
}

/// `s` is accepted by `str::parse::<u32>`: an optional `+`, then at least one
/// ASCII digit, with a value that fits in 32 bits.
pub open spec fn is_u32_text(s: Seq<char>) -> bool {
    let d = unsigned_digits(s);
    &&& d.len() > 0
    &&& forall|i: int| 0 <= i < d.len() ==> is_digit(#[trigger] d[i])
    &&& digits_value(d) <= u32::MAX
}

/// Whether `s` parses as a `u32` (as `str::parse::<u32>` does).
pub fn parses_as_u32(s: &[char]) -> (r: bool)
    ensures
        r == is_u32_text(s@),
{
    let start: usize = if s.len() > 0 && s[0] == '+' { 1 } else { 0 };
    let ghost d = unsigned_digits(s@);
    proof {
        assert(d =~= s@.skip(start as int));
    }
    if start >= s.len() {
        return false;
    }
    let mut value: u64 = 0;
    let mut i: usize = start;
    while i < s.len()
        invariant
            start <= i <= s@.len(),
            d == unsigned_digits(s@),
            d =~= s@.skip(start as int),
            value == digits_value(d.take(i - start)),
            value <= u32::MAX,
            forall|j: int| 0 <= j < i - start ==> is_digit(#[trigger] d[j]),
        decreases s@.len() - i,
    {
        let c = s[i];
        proof {
            assert(d[i - start] == c);
            assert(d.take(i - start + 1).drop_last() =~= d.take(i - start));
            assert(d.take(i - start + 1).last() == c);
        }
        if !('0' <= c && c <= '9') {
            proof {
                let j = i - start;
                assert(0 <= j < d.len());
                assert(!is_digit(d[j]));
                assert(unsigned_digits(s@) == d);
                assert(!is_u32_text(s@));
            }
            return false;
        }
        let next: u64 = value * 10 + ((c as u32) - ('0' as u32)) as u64;
        if next > 4294967295 {
            proof {
                assert(digits_value(d.take(i - start + 1)) == next);
                if forall|j: int| 0 <= j < d.len() ==> is_digit(#[trigger] d[j]) {
                    lemma_digits_monotone(d, i - start + 1);
                    assert(digits_value(d) > u32::MAX);
                }
                assert(unsigned_digits(s@) == d);
                assert(!is_u32_text(s@));
            }
            return false;
        }
        value = next;
        i = i + 1;
    }
    proof {
        assert(d.take(i - start) =~= d);
    }
    true
}

proof fn lemma_digits_monotone(d: Seq<char>, k: int)
    requires
        0 <= k <= d.len(),
        forall|j: int| 0 <= j < d.len() ==> is_digit(#[trigger] d[j]),
    ensures
        digits_value(d.take(k)) <= digits_value(d),
    decreases d.len() - k,
{
    if k < d.len() {
        lemma_digits_monotone(d, k + 1);
        assert(d.take(k + 1).drop_last() =~= d.take(k));
    } else {
        assert(d.take(k) =~= d);
    }
}


/// No item has a fault exactly when the scan finds none.
pub proof fn lemma_first_fault_none<A>(s: Seq<A>, f: spec_fn(A) -> Option<Seq<char>>)
    ensures
        (first_fault(s, f) is None) <==> (forall|i: int| 0 <= i < s.len() ==> #[trigger] f(s[i]) is None),
    decreases s.len(),
{
    if s.len() > 0 {
        lemma_first_fault_none(s.drop_last(), f);
        if first_fault(s, f) is None {
            assert forall|i: int| 0 <= i < s.len() implies #[trigger] f(s[i]) is None by {
                if i < s.len() - 1 {
                    assert(s.drop_last()[i] == s[i]);
                }
            }
        }
        if forall|i: int| 0 <= i < s.len() ==> #[trigger] f(s[i]) is None {
            assert forall|i: int| 0 <= i < s.drop_last().len() implies #[trigger] f(s.drop_last()[i]) is None by {
                assert(s.drop_last()[i] == s[i]);
            }
            assert(f(s[s.len() - 1]) is None);
        }
    }
}

/// The text held by an optional string.
pub open spec fn opt_text(o: Option<String>) -> Option<Seq<char>> {
    match o {
        Some(s) => Some(s@),
        None => None,
    }
}

/// The text of an optional borrowed string.
pub open spec fn opt_str_text(o: Option<&str>) -> Option<Seq<char>> {
    match o {
        Some(s) => Some(s@),
        None => None,
    }
}

/// The texts of a list of strings.
pub open spec fn texts_of(v: Seq<String>) -> Seq<Seq<char>> {
    v.map_values(|s: String| s@)
}

/// The UTF-8 bytes of a text.
pub open spec fn utf8(s: Seq<char>) -> Seq<u8> {
    vstd::utf8::encode_utf8(s)
}

/// The UTF-8 bytes of a string.
pub fn text_bytes(s: &str) -> (r: Vec<u8>)
    ensures
        r@ == utf8(s@),
{
    copy_bytes(s.as_bytes())
}

/// A fresh copy of an optional string.
pub fn copy_opt(o: &Option<String>) -> (r: Option<String>)
    ensures
        opt_text(r) == opt_text(*o),
{
    match o {
        Some(s) => Some(copy_string(s.as_str())),
        None => None,
    }
}

/// A fresh copy of a list of strings.
pub fn copy_strings(v: &Vec<String>) -> (r: Vec<String>)
    ensures
        texts_of(r@) == texts_of(v@),
{
    let mut out: Vec<String> = Vec::new();
    let mut i: usize = 0;
    while i < v.len()
        invariant
            0 <= i <= v@.len(),
            texts_of(out@) == texts_of(v@.take(i as int)),
        decreases v@.len() - i,
    {
        let s = copy_string(v[i].as_str());
        proof {
            assert(texts_of(out@.push(s)) =~= texts_of(out@).push(s@));
            assert(texts_of(v@.take(i + 1)) =~= texts_of(v@.take(i as int)).push(v@[i as int]@));
        }
        out.push(s);
        i = i + 1;
    }
    proof {
        assert(v@.take(v@.len() as int) =~= v@);
    }
    out
}

/// Whether `s` is one of the strings of `v`.
pub fn contains_text(v: &Vec<String>, s: &str) -> (r: bool)
    ensures
        r == texts_of(v@).contains(s@),
{
    let mut i: usize = 0;
    while i < v.len()
        invariant
            0 <= i <= v@.len(),
            forall|k: int| 0 <= k < i ==> texts_of(v@)[k] != s@,
        decreases v@.len() - i,
    {
        if str_eq(v[i].as_str(), s) {
            assert(texts_of(v@)[i as int] == s@);
            return true;
        }
        i = i + 1;
    }
    false
}

/// A fresh copy of a character vector.
pub fn copy_chars(v: &[char]) -> (r: Vec<char>)
    ensures
        r@ == v@,
{
    let r = chars_take(v, v.len());
    assert(v@.take(v@.len() as int) =~= v@);
    r
}

/// `c` with an ASCII capital turned into its small letter.
pub open spec fn ascii_lower(c: char) -> char {
    if 'A' <= c && c <= 'Z' {
        ((c as u32) + 32) as char
    } else {
        c
    }
}

/// What `str::to_lowercase` gives: the Unicode lowercase mapping of the text.
pub uninterp spec fn spec_to_lowercase(s: Seq<char>) -> Seq<char>;

/// The lowercase form of `s` (`str::to_lowercase`). On ASCII text this is
/// the ASCII mapping of capitals to small letters, all else unchanged.
#[verifier::external_body]
pub(crate) fn to_lowercase(s: &str) -> (r: String)
    ensures
        r@ == spec_to_lowercase(s@),
        (forall|i: int| 0 <= i < s@.len() ==> (#[trigger] s@[i] as u32) < 128) ==> r@ == s@.map_values(
            |c: char| ascii_lower(c),
        ),
{
    s.to_lowercase()
}


/// The index of the first `c` in `s`, or -1.
pub open spec fn seq_find(s: Seq<char>, c: char) -> int
    decreases s.len(),
{
    if s.len() == 0 {
        -1
    } else {
        let f = seq_find(s.drop_last(), c);
        if f >= 0 {
            f
        } else if s.last() == c {
            s.len() - 1
        } else {
            -1
        }
    }
}

proof fn lemma_seq_find_prefix(s: Seq<char>, c: char, k: int)
    requires
        0 <= k <= s.len(),
        seq_find(s.take(k), c) >= 0,
    ensures
        seq_find(s, c) == seq_find(s.take(k), c),
    decreases s.len() - k,
{
    if k == s.len() {
        assert(s.take(k) =~= s);
    } else {
        assert(s.take(k + 1).drop_last() =~= s.take(k));
        lemma_seq_find_prefix(s, c, k + 1);
    }
}

/// The index of the first `c` in `s`.
pub fn find_char(s: &[char], c: char) -> (r: Option<usize>)
    ensures
        match r {
            Some(i) => i == seq_find(s@, c) && i < s@.len(),
            None => seq_find(s@, c) == -1,
        },
{
    let mut i: usize = 0;
    while i < s.len()
        invariant
            0 <= i <= s@.len(),
            seq_find(s@.take(i as int), c) == -1,
        decreases s@.len() - i,
    {
        proof {
            assert(s@.take(i + 1).drop_last() =~= s@.take(i as int));
            assert(s@.take(i + 1).last() == s@[i as int]);
        }
        if s[i] == c {
            proof {
                lemma_seq_find_prefix(s@, c, i + 1);
            }
            return Some(i);
        }
        i = i + 1;
    }
    proof {
        assert(s@.take(s@.len() as int) =~= s@);
    }
    None
}


/// Appends the bytes `t` to `v`.
pub fn push_all_bytes(v: &mut Vec<u8>, t: &[u8])
    ensures
        final(v)@ == old(v)@ + t@,
{
    let ghost v0 = v@;
    let mut i: usize = 0;
    while i < t.len()
        invariant
            0 <= i <= t@.len(),
            v@ == v0 + t@.take(i as int),
        decreases t@.len() - i,
    {
        v.push(t[i]);
        proof {
            assert(t@.take(i + 1) =~= t@.take(i as int).push(t@[i as int]));
        }
        i = i + 1;
    }
    assert(t@.take(i as int) =~= t@);
}

/// The bytes of `s` from `from` on.
pub fn bytes_from(s: &[u8], from: usize) -> (r: Vec<u8>)
    requires
        from <= s@.len(),
    ensures
        r@ == s@.skip(from as int),
{
    let mut r: Vec<u8> = Vec::new();
    let mut i: usize = from;
    while i < s.len()
        invariant
            from <= i <= s@.len(),
            r@ == s@.subrange(from as int, i as int),
        decreases s@.len() - i,
    {
        r.push(s[i]);
        proof {
            assert(s@.subrange(from as int, i + 1) =~= s@.subrange(from as int, i as int).push(s@[i as int]));
        }
        i = i + 1;
    }
    assert(s@.subrange(from as int, i as int) =~= s@.skip(from as int));
    r
}

/// The first `n` bytes of `s`.
pub fn bytes_take(s: &[u8], n: usize) -> (r: Vec<u8>)
    requires
        n <= s@.len(),
    ensures
        r@ == s@.take(n as int),
{
    let mut r: Vec<u8> = Vec::new();
    let mut i: usize = 0;
    while i < n
        invariant
            0 <= i <= n,
            n <= s@.len(),
            r@ == s@.take(i as int),
        decreases n - i,
    {
        r.push(s[i]);
        proof {
            assert(s@.take(i + 1) =~= s@.take(i as int).push(s@[i as int]));
        }
        i = i + 1;
    }
    r
}


/// What `char::is_whitespace` gives: the Unicode White_Space property.
pub uninterp spec fn spec_is_whitespace(c: char) -> bool;

/// Whether `c` is whitespace (`char::is_whitespace`). Among ASCII characters
/// exactly tab, line feed, vertical tab, form feed, carriage return and
/// space are.
#[verifier::external_body]
pub(crate) fn is_whitespace(c: char) -> (r: bool)
    ensures
        r == spec_is_whitespace(c),
        (c as u32) < 128 ==> (r <==> (c == ' ' || ('\t' <= c && c <= '\r'))),
{
    c.is_whitespace()
}

/// `s` without its leading whitespace.
pub open spec fn trim_start_ws(s: Seq<char>) -> Seq<char>
    decreases s.len(),
{
    if s.len() > 0 && spec_is_whitespace(s[0]) {
        trim_start_ws(s.drop_first())
    } else {
        s
    }
}

/// `s` without its trailing whitespace.
pub open spec fn trim_end_ws(s: Seq<char>) -> Seq<char>
    decreases s.len(),
{
    if s.len() > 0 && spec_is_whitespace(s.last()) {
        trim_end_ws(s.drop_last())
    } else {
        s
    }
}

/// `s` without leading and trailing whitespace (as `str::trim`).
pub open spec fn trimmed(s: Seq<char>) -> Seq<char> {
    trim_end_ws(trim_start_ws(s))
}

/// The characters of `s` without leading and trailing whitespace.
pub fn trim_chars(s: &[char]) -> (r: Vec<char>)
    ensures
        r@ == trimmed(s@),
{
    let mut start: usize = 0;
    assert(s@.skip(0) =~= s@);
    while start < s.len() && is_whitespace(s[start])
        invariant
            0 <= start <= s@.len(),
            trim_start_ws(s@.skip(start as int)) == trim_start_ws(s@),
        decreases s@.len() - start,
    {
        assert(s@.skip(start as int).drop_first() =~= s@.skip(start + 1));
        start = start + 1;
    }
    let ghost front = s@.skip(start as int);
    assert(trim_start_ws(front) == front);
    let mut end: usize = s.len();
    assert(s@.subrange(start as int, end as int) =~= front);
    while end > start && is_whitespace(s[end - 1])
        invariant
            start <= end <= s@.len(),
            front == s@.skip(start as int),
            trim_start_ws(s@) == front,
            trim_end_ws(s@.subrange(start as int, end as int)) == trim_end_ws(front),
        decreases end - start,
    {
        assert(s@.subrange(start as int, end as int).drop_last() =~= s@.subrange(start as int, end - 1));
        end = end - 1;
    }
    let mut out: Vec<char> = Vec::new();
    let mut i: usize = start;
    while i < end
        invariant
            start <= i <= end,
            end <= s@.len(),
            out@ == s@.subrange(start as int, i as int),
        decreases end - i,
    {
        out.push(s[i]);
        assert(s@.subrange(start as int, i + 1) =~= s@.subrange(start as int, i as int).push(s@[i as int]));
        i = i + 1;
    }
    proof {
        let mid = s@.subrange(start as int, end as int);
        assert(trim_end_ws(mid) == mid);
        assert(trim_end_ws(s@.subrange(start as int, s@.len() as int)) == trim_end_ws(front)) by {
            assert(s@.subrange(start as int, s@.len() as int) =~= front);
        }
    }
    out
}

/// The display text of the error `String::from_utf8` reports for bytes
/// that are not UTF-8.
pub uninterp spec fn spec_utf8_error_text(data: Seq<u8>) -> Seq<char>;

/// Text from UTF-8 bytes (`String::from_utf8`): the text the bytes encode,
/// or, for bytes that are not UTF-8, the display text of the error.
#[verifier::external_body]
pub(crate) fn utf8_string(data: &[u8]) -> (r: Result<String, String>)
    ensures
        r is Ok <==> vstd::utf8::valid_utf8(data@),
        r is Ok ==> vstd::utf8::encode_utf8(r->Ok_0@) == data@ && r->Ok_0@ == vstd::utf8::decode_utf8(data@),
        r is Err ==> r->Err_0@ == spec_utf8_error_text(data@),
{
    match String::from_utf8(data.to_vec()) {
        Ok(s) => Ok(s),
        Err(e) => Err(e.to_string()),
    }
}

/// `s` with every occurrence of `from` replaced by `to`, scanning from
/// the front without overlaps (as `str::replace` does).
pub open spec fn replaced(s: Seq<char>, from: Seq<char>, to: Seq<char>) -> Seq<char>
    decreases s.len(),
{
    if from.len() == 0 || s.len() < from.len() {
        s
    } else if s.take(from.len() as int) == from {
        to + replaced(s.skip(from.len() as int), from, to)
    } else {
        seq![s[0]] + replaced(s.skip(1), from, to)
    }
}

/// `s` with every occurrence of a non-empty `from` replaced by `to`.
pub fn replace_all(s: &str, from: &str, to: &str) -> (r: String)
    requires
        from@.len() > 0,
    ensures
        r@ == replaced(s@, from@, to@),
{
    let sc = chars_of(s);
    let fc = chars_of(from);
    let tc = chars_of(to);
    let mut out: Vec<char> = Vec::new();
    let mut i: usize = 0;
    proof {
        assert(sc@.skip(0) =~= sc@);
        assert(out@ + replaced(sc@, fc@, tc@) =~= replaced(sc@, fc@, tc@));
    }
    while i < sc.len()
        invariant
            0 <= i <= sc@.len(),
            fc@.len() > 0,
            sc@ == s@,
            fc@ == from@,
            tc@ == to@,
            out@ + replaced(sc@.skip(i as int), fc@, tc@) == replaced(sc@, fc@, tc@),
        decreases sc@.len() - i,
    {
        let ghost rest = sc@.skip(i as int);
        if fc.len() <= sc.len() - i && matches_at(sc.as_slice(), fc.as_slice(), i) {
            proof {
                assert(rest.take(fc@.len() as int) =~= sc@.subrange(i as int, i + fc@.len()));
                assert(rest.skip(fc@.len() as int) =~= sc@.skip(i + fc@.len()));
                assert(out@ + tc@ + replaced(sc@.skip(i + fc@.len()), fc@, tc@) =~= out@ + replaced(
                    rest,
                    fc@,
                    tc@,
                ));
            }
            push_all(&mut out, tc.as_slice());
            i = i + fc.len();
        } else {
            proof {
                if rest.len() >= fc@.len() {
                    assert(rest.take(fc@.len() as int) =~= sc@.subrange(i as int, i + fc@.len()));
                }
                assert(rest.skip(1) =~= sc@.skip(i + 1));
                assert(rest[0] == sc@[i as int]);
                assert(out@.push(sc@[i as int]) + replaced(sc@.skip(i + 1), fc@, tc@) =~= out@ + replaced(
                    rest,
                    fc@,
                    tc@,
                ));
            }
            out.push(sc[i]);
            i = i + 1;
        }
    }
    proof {
        assert(sc@.skip(i as int) =~= Seq::<char>::empty());
        assert(out@ + Seq::<char>::empty() =~= out@);
    }
    string_from_chars(out.as_slice())
}

} // verus!
