//! Text as a sequence of characters: trimming, searching and character classes.
use vstd::prelude::*;
use vstd::utf8::{encode_scalar, encode_utf8};

verus! {

/// The characters with the Unicode `White_Space` property.
pub open spec fn white(c: char) -> bool {
    let u = c as u32;
    ||| 0x09 <= u <= 0x0d
    ||| u == 0x20
    ||| u == 0x85
    ||| u == 0xa0
    ||| u == 0x1680
    ||| 0x2000 <= u <= 0x200a
    ||| u == 0x2028
    ||| u == 0x2029
    ||| u == 0x202f
    ||| u == 0x205f
    ||| u == 0x3000
}

/// The characters of the Unicode category `Cc`.
pub open spec fn control(c: char) -> bool {
    c as u32 <= 0x1f || 0x7f <= c as u32 <= 0x9f
}

/// Nothing but white space.
pub open spec fn blank(s: Seq<char>) -> bool {
    forall|i: int| 0 <= i < s.len() ==> white(#[trigger] s[i])
}

/// `s` without the white space that it starts with.
pub open spec fn trimmed_start(s: Seq<char>) -> Seq<char>
    decreases s.len(),
{
    if s.len() > 0 && white(s[0]) {
        trimmed_start(s.drop_first())
    } else {
        s
    }
}

/// `s` without the characters of `set` that it ends with.
pub open spec fn trimmed_end(s: Seq<char>, set: spec_fn(char) -> bool) -> Seq<char>
    decreases s.len(),
{
    if s.len() > 0 && set(s.last()) {
        trimmed_end(s.drop_last(), set)
    } else {
        s
    }
}

/// `s` without white space at either end.
pub open spec fn trimmed(s: Seq<char>) -> Seq<char> {
    trimmed_end(trimmed_start(s), |c: char| white(c))
}

/// `pattern` stands in `s` from position `i` on.
pub open spec fn occurs_at(s: Seq<char>, pattern: Seq<char>, i: int) -> bool {
    0 <= i && i + pattern.len() <= s.len() && s.subrange(i, i + pattern.len()) == pattern
}

/// `pattern` stands somewhere in `s`.
#[verifier::opaque]
pub open spec fn found(s: Seq<char>, pattern: Seq<char>) -> bool {
    exists|i: int| occurs_at(s, pattern, i)
}

/// Where `pattern` stands in `s` for the first time.
#[verifier::opaque]
pub open spec fn first_at(s: Seq<char>, pattern: Seq<char>) -> Option<int> {
    if found(s, pattern) {
        Some(
            choose|i: int|
                occurs_at(s, pattern, i) && forall|j: int| 0 <= j < i ==> !occurs_at(s, pattern, j),
        )
    } else {
        None
    }
}

/// `needle` is one of the characters of `set`.
pub open spec fn among(set: Seq<char>) -> spec_fn(char) -> bool {
    |c: char| set.contains(c)
}

/// The view of a text that may be absent.
pub open spec fn view_of(s: Option<&str>) -> Option<Seq<char>> {
    match s {
        Some(t) => Some(t@),
        None => None,
    }
}

/// The view of an owned text that may be absent.
pub open spec fn owned_view(s: Option<String>) -> Option<Seq<char>> {
    match s {
        Some(t) => Some(t@),
        None => None,
    }
}

pub proof fn lemma_trimmed_start_range(s: Seq<char>) -> (a: int)
    ensures
        0 <= a <= s.len(),
        trimmed_start(s) == s.subrange(a, s.len() as int),
        forall|i: int| 0 <= i < a ==> white(#[trigger] s[i]),
        a < s.len() ==> !white(s[a]),
    decreases s.len(),
{
    if s.len() > 0 && white(s[0]) {
        let b = lemma_trimmed_start_range(s.drop_first());
        assert(s.drop_first().subrange(b, s.len() - 1) =~= s.subrange(b + 1, s.len() as int));
        assert forall|i: int| 0 <= i < b + 1 implies white(#[trigger] s[i]) by {
            if i > 0 {
                assert(s.drop_first()[i - 1] == s[i]);
            }
        }
        b + 1
    } else {
        assert(s.subrange(0, s.len() as int) =~= s);
        0
    }
}

pub proof fn lemma_trimmed_start_at(s: Seq<char>, a: int)
    requires
        0 <= a <= s.len(),
        forall|i: int| 0 <= i < a ==> white(#[trigger] s[i]),
        a < s.len() ==> !white(s[a]),
    ensures
        trimmed_start(s) == s.subrange(a, s.len() as int),
{
    let b = lemma_trimmed_start_range(s);
    if a < b {
        assert(white(s[a]));
    }
    if b < a {
        assert(white(s[b]));
    }
}

pub proof fn lemma_trimmed_end_range(s: Seq<char>, set: spec_fn(char) -> bool) -> (b: int)
    ensures
        0 <= b <= s.len(),
        trimmed_end(s, set) == s.subrange(0, b),
        forall|i: int| b <= i < s.len() ==> set(#[trigger] s[i]),
        b > 0 ==> !set(s[b - 1]),
    decreases s.len(),
{
    if s.len() > 0 && set(s.last()) {
        let b = lemma_trimmed_end_range(s.drop_last(), set);
        assert(s.drop_last().subrange(0, b) =~= s.subrange(0, b));
        assert forall|i: int| b <= i < s.len() implies set(#[trigger] s[i]) by {
            if i < s.len() - 1 {
                assert(s.drop_last()[i] == s[i]);
            }
        }
        b
    } else {
        assert(s.subrange(0, s.len() as int) =~= s);
        s.len() as int
    }
}

pub proof fn lemma_trimmed_end_at(s: Seq<char>, set: spec_fn(char) -> bool, b: int)
    requires
        0 <= b <= s.len(),
        forall|i: int| b <= i < s.len() ==> set(#[trigger] s[i]),
        b > 0 ==> !set(s[b - 1]),
    ensures
        trimmed_end(s, set) == s.subrange(0, b),
{
    let c = lemma_trimmed_end_range(s, set);
    if b < c {
        assert(set(s[c - 1]));
    }
    if c < b {
        assert(set(s[b - 1]));
    }
}

/// Where a pattern stands, it is found.
pub proof fn lemma_found(s: Seq<char>, pattern: Seq<char>, i: int)
    requires
        occurs_at(s, pattern, i),
    ensures
        found(s, pattern),
{
    reveal(found);
}

/// Among the first `n` characters of `s` there is no `a` with a `b` behind it.
pub open spec fn never_followed(s: Seq<char>, a: char, b: char, n: nat) -> bool
    decreases n,
{
    n == 0 || (!(s[n - 1] == a && s[n as int] == b) && never_followed(s, a, b, (n - 1) as nat))
}

proof fn lemma_never_followed(s: Seq<char>, a: char, b: char, n: nat, i: int)
    requires
        never_followed(s, a, b, n),
        0 <= i < n,
    ensures
        !(s[i] == a && s[i + 1] == b),
    decreases n,
{
    if i < n - 1 {
        lemma_never_followed(s, a, b, (n - 1) as nat, i);
    }
}

/// A pattern is not found where two characters that are neighbours in it, the first of them
/// at `k`, never stand together.
pub proof fn lemma_not_found(s: Seq<char>, pattern: Seq<char>, k: int)
    requires
        s.len() > 0,
        0 <= k < pattern.len() - 1,
        never_followed(s, pattern[k], pattern[k + 1], (s.len() - 1) as nat),
    ensures
        !found(s, pattern),
{
    reveal(found);
    assert forall|i: int| !occurs_at(s, pattern, i) by {
        if occurs_at(s, pattern, i) {
            lemma_never_followed(s, pattern[k], pattern[k + 1], (s.len() - 1) as nat, i + k);
            assert(s.subrange(i, i + pattern.len())[k] == s[i + k]);
            assert(s.subrange(i, i + pattern.len())[k + 1] == s[i + k + 1]);
        }
    }
}

/// How many of the first `n` characters of `s` take more than one byte.
pub open spec fn wide(s: Seq<char>, n: nat) -> nat
    decreases n,
{
    if n == 0 {
        0
    } else if (s[n - 1] as int) < 0x80 {
        wide(s, (n - 1) as nat)
    } else {
        wide(s, (n - 1) as nat) + 1
    }
}

proof fn lemma_bytes_of_one(c: char)
    ensures
        encode_scalar(c as u32).len() <= 4,
        (c as int) < 0x80 ==> encode_scalar(c as u32).len() == 1,
{
}

proof fn lemma_bytes_from(s: Seq<char>, i: int)
    requires
        0 <= i <= s.len(),
    ensures
        encode_utf8(s.skip(i)).len() + 3 * wide(s, i as nat) <= s.len() - i + 3 * wide(s, s.len()),
    decreases s.len() - i,
{
    if i < s.len() {
        lemma_bytes_from(s, i + 1);
        assert(s.skip(i)[0] == s[i]);
        assert(s.skip(i).drop_first() =~= s.skip(i + 1));
        lemma_bytes_of_one(s[i]);
    } else {
        assert(s.skip(i) =~= Seq::<char>::empty());
    }
}

/// A text takes no more bytes than one for each character and three for each wide one.
pub proof fn lemma_bytes(s: Seq<char>)
    ensures
        encode_utf8(s).len() <= s.len() + 3 * wide(s, s.len()),
{
    lemma_bytes_from(s, 0);
    assert(s.skip(0) =~= s);
}

/// A first occurrence is what `first_at` names.
pub proof fn lemma_first_at(s: Seq<char>, pattern: Seq<char>, i: int)
    requires
        occurs_at(s, pattern, i),
        forall|j: int| 0 <= j < i ==> !occurs_at(s, pattern, j),
    ensures
        first_at(s, pattern) == Some(i),
{
    reveal(found);
    reveal(first_at);
    let k = choose|k: int|
        occurs_at(s, pattern, k) && forall|j: int| 0 <= j < k ==> !occurs_at(s, pattern, j);
    assert(occurs_at(s, pattern, k) && forall|j: int| 0 <= j < k ==> !occurs_at(s, pattern, j));
    if i < k {
        assert(!occurs_at(s, pattern, i));
    }
    if k < i {
        assert(!occurs_at(s, pattern, k));
    }
}

/// Where there is an occurrence there is a first one.
pub proof fn lemma_has_first(s: Seq<char>, pattern: Seq<char>)
    requires
        found(s, pattern),
    ensures
        first_at(s, pattern) is Some,
        occurs_at(s, pattern, first_at(s, pattern)->0),
        forall|j: int| 0 <= j < first_at(s, pattern)->0 ==> !occurs_at(s, pattern, j),
{
    reveal(found);
    reveal(first_at);
    let i = choose|i: int| occurs_at(s, pattern, i);
    lemma_least(s, pattern, i);
}

proof fn lemma_least(s: Seq<char>, pattern: Seq<char>, i: int)
    requires
        occurs_at(s, pattern, i),
    ensures
        exists|k: int|
            occurs_at(s, pattern, k) && forall|j: int| 0 <= j < k ==> !occurs_at(s, pattern, j),
    decreases i,
{
    if exists|j: int| 0 <= j < i && occurs_at(s, pattern, j) {
        let j = choose|j: int| 0 <= j < i && occurs_at(s, pattern, j);
        lemma_least(s, pattern, j);
    } else {
        assert(occurs_at(s, pattern, i) && forall|j: int|
            0 <= j < i ==> !occurs_at(s, pattern, j));
    }
}

/// The character has the `White_Space` property.
pub fn is_whitespace(c: char) -> (r: bool)
    ensures
        r == white(c),
{
    let u: u32 = c as u32;
    (u >= 0x09 && u <= 0x0d) || u == 0x20 || u == 0x85 || u == 0xa0 || u == 0x1680 || (u >= 0x2000
        && u <= 0x200a) || u == 0x2028 || u == 0x2029 || u == 0x202f || u == 0x205f || u == 0x3000
}

/// The character is a control character.
pub fn is_control(c: char) -> (r: bool)
    ensures
        r == control(c),
{
    let u: u32 = c as u32;
    u <= 0x1f || (u >= 0x7f && u <= 0x9f)
}

/// The characters of a text, in order.
pub fn chars_of(s: &str) -> (v: Vec<char>)
    ensures
        v@ == s@,
{
    let mut v: Vec<char> = Vec::new();
    for c in it: s.chars()
        invariant
            v@ == it.seq().take(it.index() as int),
            it.seq() == s@,
    {
        v.push(c);
    }
    v
}

/// The two texts hold the same characters.
pub fn same(a: &str, b: &str) -> (r: bool)
    ensures
        r == (a@ == b@),
{
    let left = chars_of(a);
    let right = chars_of(b);
    same_chars(&left, &right)
}

fn same_chars(left: &Vec<char>, right: &Vec<char>) -> (r: bool)
    ensures
        r == (left@ == right@),
{
    if left.len() != right.len() {
        return false;
    }
    let mut i: usize = 0;
    while i < left.len()
        invariant
            left.len() == right.len(),
            i <= left.len(),
            forall|j: int| 0 <= j < i ==> left@[j] == right@[j],
        decreases left.len() - i,
    {
        if left[i] != right[i] {
            return false;
        }
        i += 1;
    }
    assert(left@ =~= right@);
    true
}

/// Nothing but white space, or nothing at all.
pub fn is_blank(s: &str) -> (r: bool)
    ensures
        r == blank(s@),
{
    let v = chars_of(s);
    let mut i: usize = 0;
    while i < v.len()
        invariant
            v@ == s@,
            i <= v.len(),
            forall|j: int| 0 <= j < i ==> white(#[trigger] v@[j]),
        decreases v.len() - i,
    {
        if !is_whitespace(v[i]) {
            assert(!white(s@[i as int]));
            return false;
        }
        i += 1;
    }
    true
}

/// Some character of the text is a control character.
pub fn has_control(s: &str) -> (r: bool)
    ensures
        r == exists|i: int| 0 <= i < s@.len() && control(#[trigger] s@[i]),
{
    let v = chars_of(s);
    let mut i: usize = 0;
    while i < v.len()
        invariant
            v@ == s@,
            i <= v.len(),
            forall|j: int| 0 <= j < i ==> !control(#[trigger] v@[j]),
        decreases v.len() - i,
    {
        if is_control(v[i]) {
            assert(control(s@[i as int]));
            return true;
        }
        i += 1;
    }
    false
}

/// The text has the character `c`.
pub fn has_char(s: &str, c: char) -> (r: bool)
    ensures
        r == s@.contains(c),
{
    let v = chars_of(s);
    let mut i: usize = 0;
    while i < v.len()
        invariant
            v@ == s@,
            i <= v.len(),
            forall|j: int| 0 <= j < i ==> v@[j] != c,
        decreases v.len() - i,
    {
        if v[i] == c {
            assert(s@[i as int] == c);
            return true;
        }
        i += 1;
    }
    false
}

/// The text without white space at either end.
pub fn trim<'a>(s: &'a str) -> (r: &'a str)
    ensures
        r@ == trimmed(s@),
{
    let v = chars_of(s);
    let mut a: usize = 0;
    while a < v.len() && is_whitespace(v[a])
        invariant
            a <= v.len(),
            forall|j: int| 0 <= j < a ==> white(#[trigger] v@[j]),
        decreases v.len() - a,
    {
        a += 1;
    }
    let mut b: usize = v.len();
    while b > a && is_whitespace(v[b - 1])
        invariant
            a <= b <= v.len(),
            forall|j: int| b <= j < v.len() ==> white(#[trigger] v@[j]),
        decreases b,
    {
        b -= 1;
    }
    proof {
        lemma_trimmed_start_at(s@, a as int);
        let t = s@.subrange(a as int, s@.len() as int);
        let p = |c: char| white(c);
        assert forall|i: int| b - a <= i < t.len() implies p(#[trigger] t[i]) by {
            assert(t[i] == v@[i + a]);
        }
        if b > a {
            assert(t[b - a - 1] == v@[b - 1]);
        }
        lemma_trimmed_end_at(t, p, b - a);
        assert(t.subrange(0, b - a) =~= s@.subrange(a as int, b as int));
    }
    s.substring_char(a, b)
}

/// The text without the characters of `set` that it ends with.
pub fn trim_end_matches<'a>(s: &'a str, set: &str) -> (r: &'a str)
    ensures
        r@ == trimmed_end(s@, among(set@)),
{
    let v = chars_of(s);
    let mut b: usize = v.len();
    while b > 0 && has_char(set, v[b - 1])
        invariant
            b <= v.len(),
            forall|j: int| b <= j < v.len() ==> set@.contains(#[trigger] v@[j]),
        decreases b,
    {
        b -= 1;
    }
    proof {
        let p = among(set@);
        assert forall|i: int| b <= i < s@.len() implies p(#[trigger] s@[i]) by {
            assert(set@.contains(v@[i]));
        }
        lemma_trimmed_end_at(s@, p, b as int);
    }
    s.substring_char(0, b)
}

fn stands_at(v: &Vec<char>, p: &Vec<char>, i: usize) -> (r: bool)
    requires
        i + p.len() <= v.len(),
    ensures
        r == occurs_at(v@, p@, i as int),
{
    let mut j: usize = 0;
    while j < p.len()
        invariant
            i + p.len() <= v.len(),
            j <= p.len(),
            forall|k: int| 0 <= k < j ==> v@[i + k] == p@[k],
        decreases p.len() - j,
    {
        if v[i + j] != p[j] {
            assert(v@.subrange(i as int, i + p@.len())[j as int] != p@[j as int]);
            return false;
        }
        j += 1;
    }
    assert(v@.subrange(i as int, i + p@.len()) =~= p@);
    true
}

/// The position, in characters, of the first occurrence of `pattern`.
pub fn find(s: &str, pattern: &str) -> (r: Option<usize>)
    ensures
        match r {
            Some(i) => {
                &&& first_at(s@, pattern@) == Some(i as int)
                &&& occurs_at(s@, pattern@, i as int)
                &&& found(s@, pattern@)
            },
            None => first_at(s@, pattern@) is None && !found(s@, pattern@),
        },
{
    proof {
        reveal(found);
        reveal(first_at);
    }
    let v = chars_of(s);
    let p = chars_of(pattern);
    if p.len() > v.len() {
        return None;
    }
    let last: usize = v.len() - p.len();
    let mut i: usize = 0;
    while i <= last
        invariant
            v@ == s@,
            p@ == pattern@,
            p.len() <= v.len(),
            last == v.len() - p.len(),
            i <= last + 1,
            forall|j: int| 0 <= j < i ==> !occurs_at(v@, p@, j),
        decreases last + 1 - i,
    {
        if stands_at(&v, &p, i) {
            proof {
                lemma_found(s@, pattern@, i as int);
                lemma_first_at(s@, pattern@, i as int);
            }
            return Some(i);
        }
        if i == last {
            proof {
                reveal(found);
                reveal(first_at);
            }
            return None;
        }
        i += 1;
    }
    None
}

/// `pattern` stands somewhere in the text.
pub fn contains(s: &str, pattern: &str) -> (r: bool)
    ensures
        r == found(s@, pattern@),
{
    match find(s, pattern) {
        Some(_) => true,
        None => false,
    }
}

/// The text ends with `pattern`.
pub fn ends_with(s: &str, pattern: &str) -> (r: bool)
    ensures
        r == occurs_at(s@, pattern@, s@.len() - pattern@.len()),
{
    let v = chars_of(s);
    let p = chars_of(pattern);
    if p.len() > v.len() {
        return false;
    }
    stands_at(&v, &p, v.len() - p.len())
}

/// The decimal digits of a number.
pub open spec fn digits(n: nat) -> Seq<char>
    decreases n,
{
    if n < 10 {
        seq!["0123456789"@[n as int]]
    } else {
        digits(n / 10).push("0123456789"@[(n % 10) as int])
    }
}

/// `a` comes before `b` in the order of a dictionary whose alphabet is the code points.
pub open spec fn precedes(a: Seq<char>, b: Seq<char>) -> bool
    decreases a.len(),
{
    if b.len() == 0 {
        false
    } else if a.len() == 0 {
        true
    } else if a[0] == b[0] {
        precedes(a.drop_first(), b.drop_first())
    } else {
        (a[0] as int) < (b[0] as int)
    }
}

pub proof fn lemma_precedes_irreflexive(a: Seq<char>)
    ensures
        !precedes(a, a),
    decreases a.len(),
{
    if a.len() > 0 {
        lemma_precedes_irreflexive(a.drop_first());
    }
}

pub proof fn lemma_precedes_transitive(a: Seq<char>, b: Seq<char>, c: Seq<char>)
    requires
        precedes(a, b),
        precedes(b, c),
    ensures
        precedes(a, c),
    decreases a.len(),
{
    if a.len() > 0 && a[0] == b[0] && b[0] == c[0] {
        lemma_precedes_transitive(a.drop_first(), b.drop_first(), c.drop_first());
    }
}

pub proof fn lemma_precedes_total(a: Seq<char>, b: Seq<char>)
    ensures
        precedes(a, b) || precedes(b, a) || a == b,
    decreases a.len(),
{
    if a.len() == 0 {
        if b.len() == 0 {
            assert(a =~= b);
        }
    } else if b.len() > 0 && a[0] == b[0] {
        lemma_precedes_total(a.drop_first(), b.drop_first());
        if a.drop_first() == b.drop_first() {
            assert(a =~= seq![a[0]] + a.drop_first());
            assert(b =~= seq![b[0]] + b.drop_first());
        }
    }
}

/// The number in decimal.
pub fn decimal(n: u64) -> (r: String)
    ensures
        r@ == digits(n as nat),
    decreases n,
{
    proof {
        reveal_strlit("0123456789");
    }
    let mut out = if n < 10 {
        String::new()
    } else {
        decimal(n / 10)
    };
    let d: usize = (n % 10) as usize;
    out.append("0123456789".substring_char(d, d + 1));
    assert(out@ =~= digits(n as nat));
    out
}

fn code_point(c: char) -> (u: u32)
    ensures
        u == c as int,
{
    c as u32
}

/// `a` comes before `b` in the order of their code points.
pub fn comes_before(a: &str, b: &str) -> (r: bool)
    ensures
        r == precedes(a@, b@),
{
    let left = chars_of(a);
    let right = chars_of(b);
    let mut i: usize = 0;
    assert(left@.skip(0) =~= left@);
    assert(right@.skip(0) =~= right@);
    while i < left.len() && i < right.len() && left[i] == right[i]
        invariant
            left@ == a@,
            right@ == b@,
            i <= left.len(),
            i <= right.len(),
            precedes(a@, b@) == precedes(left@.skip(i as int), right@.skip(i as int)),
        decreases left.len() - i,
    {
        assert(left@.skip(i as int).drop_first() =~= left@.skip(i + 1));
        assert(right@.skip(i as int).drop_first() =~= right@.skip(i + 1));
        i += 1;
    }
    if i == right.len() {
        false
    } else if i == left.len() {
        true
    } else {
        code_point(left[i]) < code_point(right[i])
    }
}

/// Trimming takes white space off both ends and nothing else.
pub proof fn trimming_keeps_the_middle(s: Seq<char>) -> (ends: (Seq<char>, Seq<char>))
    ensures
        s == ends.0 + trimmed(s) + ends.1,
        forall|i: int| 0 <= i < ends.0.len() ==> white(#[trigger] ends.0[i]),
        forall|i: int| 0 <= i < ends.1.len() ==> white(#[trigger] ends.1[i]),
        trimmed(s).len() > 0 ==> !white(trimmed(s)[0]) && !white(trimmed(s).last()),
{
    let a = lemma_trimmed_start_range(s);
    let t = trimmed_start(s);
    let p = |c: char| white(c);
    let b = lemma_trimmed_end_range(t, p);
    let front = s.take(a);
    let back = t.skip(b);
    assert(trimmed(s) =~= t.take(b));
    assert(s =~= front + trimmed(s) + back);
    assert forall|i: int| 0 <= i < back.len() implies white(#[trigger] back[i]) by {
        assert(p(t[b + i]));
    }
    if b > 0 {
        assert(!p(t[b - 1]));
        assert(t[0] == s[a]);
    }
    (front, back)
}

/// A text is blank as long as white space is added to nothing.
pub proof fn blank_texts_hold_white_space_only(s: Seq<char>, c: char)
    ensures
        blank(Seq::<char>::empty()),
        blank(s.push(c)) <==> blank(s) && white(c),
{
    assert forall|i: int| blank(s.push(c)) && 0 <= i < s.len() implies white(#[trigger] s[i]) by {
        assert(s.push(c)[i] == s[i]);
    }
    if blank(s.push(c)) {
        assert(s.push(c)[s.len() as int] == c);
    }
}

/// A pattern is found in a text exactly where the text can be parted around it.
pub proof fn patterns_are_found_anywhere(a: Seq<char>, pattern: Seq<char>, b: Seq<char>)
    ensures
        found(a + pattern + b, pattern),
{
    let s = a + pattern + b;
    let n = a.len() as int;
    assert(s.subrange(n, n + pattern.len()) =~= pattern);
    lemma_found(s, pattern, n);
}

/// Where a pattern is found, the text can be parted around it.
pub proof fn found_patterns_are_there(s: Seq<char>, pattern: Seq<char>) -> (sides: (
    Seq<char>,
    Seq<char>,
))
    requires
        found(s, pattern),
    ensures
        s == sides.0 + pattern + sides.1,
{
    reveal(found);
    let i = choose|i: int| occurs_at(s, pattern, i);
    let front = s.take(i);
    let back = s.skip(i + pattern.len());
    assert(s =~= front + s.subrange(i, i + pattern.len()) + back);
    (front, back)
}

/// The first place of a pattern is one, and no earlier one is.
pub proof fn first_places_are_first(s: Seq<char>, pattern: Seq<char>, a: Seq<char>, b: Seq<char>)
    requires
        s == a + pattern + b,
    ensures
        first_at(s, pattern) is Some,
        first_at(s, pattern)->0 <= a.len(),
        s.subrange(first_at(s, pattern)->0, first_at(s, pattern)->0 + pattern.len()) == pattern,
{
    patterns_are_found_anywhere(a, pattern, b);
    lemma_has_first(s, pattern);
    let n = a.len() as int;
    assert(s.subrange(n, n + pattern.len()) =~= pattern);
    assert(occurs_at(s, pattern, n));
}

/// A number is written by its tens and then its last digit.
pub proof fn digits_spell_the_number(tens: nat, last: nat)
    requires
        last < 10,
    ensures
        ({
            let written = digits(10 * tens + last);
            &&& written.last() as int == 48 + last
            &&& written.drop_last() == if tens == 0 {
                Seq::<char>::empty()
            } else {
                digits(tens)
            }
        }),
{
    reveal_strlit("0123456789");
    let n = 10 * tens + last;
    assert(n / 10 == tens && n % 10 == last);
    assert("0123456789"@[last as int] as int == 48 + last);
    assert(digits(n).drop_last() =~= if tens == 0 {
        Seq::<char>::empty()
    } else {
        digits(tens)
    });
}

/// The first characters that differ decide which text comes first, and a text comes before
/// what continues it.
pub proof fn first_difference_decides(
    same: Seq<char>,
    x: char,
    y: char,
    a: Seq<char>,
    b: Seq<char>,
)
    requires
        x != y,
    ensures
        precedes(same.push(x) + a, same.push(y) + b) <==> (x as int) < (y as int),
        precedes(same, same.push(x) + a),
        !precedes(same.push(x) + a, same),
    decreases same.len(),
{
    let p = same.push(x) + a;
    let q = same.push(y) + b;
    if same.len() > 0 {
        first_difference_decides(same.drop_first(), x, y, a, b);
        assert(p.drop_first() =~= same.drop_first().push(x) + a);
        assert(q.drop_first() =~= same.drop_first().push(y) + b);
    } else {
        assert(p[0] == x && q[0] == y);
    }
}

/// Different numbers are written differently.
pub proof fn digits_tell_numbers_apart(a: nat, b: nat)
    ensures
        digits(a) == digits(b) <==> a == b,
    decreases a,
{
    digits_spell_the_number(a / 10, a % 10);
    digits_spell_the_number(b / 10, b % 10);
    assert(10 * (a / 10) + a % 10 == a);
    assert(10 * (b / 10) + b % 10 == b);
    if digits(a) == digits(b) {
        if a / 10 > 0 && b / 10 > 0 {
            digits_tell_numbers_apart(a / 10, b / 10);
        } else if a / 10 > 0 {
            digits_spell_the_number((a / 10) / 10, (a / 10) % 10);
            assert(digits(a / 10).len() > 0);
        } else if b / 10 > 0 {
            assert(digits(b / 10).len() > 0);
        }
    }
}

/// The characters of a set are those that stand in it.
pub proof fn sets_hold_their_characters(set: Seq<char>, more: char, c: char)
    ensures
        !among(Seq::<char>::empty())(c),
        among(set.push(more))(c) <==> among(set)(c) || c == more,
{
    let all = set.push(more);
    if set.contains(c) {
        let i = choose|i: int| 0 <= i < set.len() && set[i] == c;
        assert(all[i] == c);
    }
    if c == more {
        assert(all[set.len() as int] == c);
    }
    if all.contains(c) && c != more {
        let i = choose|i: int| 0 <= i < all.len() && all[i] == c;
        assert(set[i] == c);
    }
}

} // verus!
