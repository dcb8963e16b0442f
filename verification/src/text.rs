//! Verified text primitives for the extractors: substring search, prefix
//! tests, trimming, line splitting, tokenization and decimal rendering, each
//! specified exactly over character sequences.

use vstd::prelude::*;

verus! {

/// What `str::to_lowercase` returns for a given character sequence: the
/// result depends on the characters alone.
pub uninterp spec fn lower_of(s: Seq<char>) -> Seq<char>;

/// What `char::is_whitespace` returns for a given character: the Unicode
/// white-space property of that character.
pub uninterp spec fn is_space_char(c: char) -> bool;

/// Relies on str::to_lowercase: the result is a function of the characters
/// alone, and an empty string stays empty.
#[verifier::external_body]
pub fn to_lowercase(s: &str) -> (r: String)
    ensures
        r@ == lower_of(s@),
        s@.len() == 0 ==> r@.len() == 0,
{
    s.to_lowercase()
}

/// Relies on char::is_whitespace: the Unicode white-space property, which
/// holds of the blank, tab, line feed and carriage return characters.
#[verifier::external_body]
pub fn char_is_whitespace(c: char) -> (r: bool)
    ensures
        r == is_space_char(c),
        c == ' ' || c == '\t' || c == '\n' || c == '\r' ==> r,
{
    c.is_whitespace()
}

/// Whether `p` occurs in `s` starting at position `i`.
pub open spec fn has_sub_at(s: Seq<char>, p: Seq<char>, i: int) -> bool {
    0 <= i && i + p.len() <= s.len() && s.subrange(i, i + p.len() as int) == p
}

/// Whether `p` occurs anywhere in `s`.
pub open spec fn has_sub(s: Seq<char>, p: Seq<char>) -> bool {
    exists|i: int| has_sub_at(s, p, i)
}

/// Whether `p` is a prefix of `s`.
pub open spec fn is_prefix(s: Seq<char>, p: Seq<char>) -> bool {
    p.len() <= s.len() && s.subrange(0, p.len() as int) == p
}

/// Whether `p` occurs in `s` starting exactly at position `i`.
fn matches_at(s: &str, p: &str, i: usize) -> (r: bool)
    requires
        i + p@.len() <= s@.len(),
    ensures
        r == has_sub_at(s@, p@, i as int),
{
    let n = s.unicode_len();
    let m = p.unicode_len();
    for k in 0..m
        invariant
            n == s@.len(),
            m == p@.len(),
            i + m <= n,
            forall|k2: int| 0 <= k2 < k ==> s@[i + k2] == p@[k2],
    {
        if s.get_char(i + k) != p.get_char(k) {
            proof {
                assert(s@[i + k as int] != p@[k as int]);
                if has_sub_at(s@, p@, i as int) {
                    assert(s@.subrange(i as int, i + p@.len() as int)[k as int] == p@[k as int]);
                }
            }
            return false;
        }
    }
    proof {
        assert(s@.subrange(i as int, i + p@.len() as int) =~= p@);
    }
    true
}

/// Whether `p` occurs anywhere in `s`, by scanning every position.
pub fn contains_sub(s: &str, p: &str) -> (r: bool)
    ensures
        r == has_sub(s@, p@),
{
    let n = s.unicode_len();
    let m = p.unicode_len();
    if m > n {
        proof {
            if has_sub(s@, p@) {
                let i = choose|i: int| has_sub_at(s@, p@, i);
                assert(i + p@.len() <= s@.len());
            }
        }
        return false;
    }
    if m == 0 {
        proof {
            assert(s@.subrange(0, 0) =~= p@);
            assert(has_sub_at(s@, p@, 0));
        }
        return true;
    }
    let last = n - m;
    let mut i: usize = 0;
    while i <= last
        invariant
            n == s@.len(),
            m == p@.len(),
            1 <= m <= n,
            last == n - m,
            forall|i2: int| 0 <= i2 < i ==> !has_sub_at(s@, p@, i2),
        decreases last - i + 1,
    {
        if matches_at(s, p, i) {
            return true;
        }
        i = i + 1;
    }
    proof {
        if has_sub(s@, p@) {
            let i2 = choose|i2: int| has_sub_at(s@, p@, i2);
            assert(i2 + p@.len() <= s@.len());
            assert(i2 < i);
        }
    }
    false
}

/// Whether `p` is a prefix of `s`.
pub fn starts_with_sub(s: &str, p: &str) -> (r: bool)
    ensures
        r == is_prefix(s@, p@),
{
    let n = s.unicode_len();
    let m = p.unicode_len();
    if m > n {
        return false;
    }
    let r = matches_at(s, p, 0);
    proof {
        assert(has_sub_at(s@, p@, 0) == is_prefix(s@, p@));
    }
    r
}

/// Whether two strings hold the same characters.
pub fn str_eq(a: &str, b: &str) -> (r: bool)
    ensures
        r == (a@ == b@),
{
    let n = a.unicode_len();
    if n != b.unicode_len() {
        return false;
    }
    let r = matches_at(a, b, 0);
    proof {
        if r {
            assert(a@.subrange(0, b@.len() as int) =~= a@);
        }
        if a@ == b@ {
            assert(a@.subrange(0, b@.len() as int) =~= b@);
        }
    }
    r
}

/// Whether some element of `v` holds the characters of `s`.
pub fn vec_contains_str(v: &Vec<String>, s: &str) -> (r: bool)
    ensures
        r == v.deep_view().contains(s@),
{
    let n = v.len();
    for i in 0..n
        invariant
            n == v@.len(),
            forall|k: int| 0 <= k < i ==> v.deep_view()[k] != s@,
    {
        if str_eq(v[i].as_str(), s) {
            proof {
                assert(v.deep_view()[i as int] == s@);
            }
            return true;
        }
        proof {
            assert(v.deep_view()[i as int] != s@);
        }
    }
    proof {
        if v.deep_view().contains(s@) {
            let k = choose|k: int| 0 <= k < v.deep_view().len() && v.deep_view()[k] == s@;
            assert(v.deep_view()[k] != s@);
        }
    }
    false
}

/// How many leading characters of `s` are white space.
pub open spec fn lead_spaces(s: Seq<char>, i: int) -> int
    decreases s.len() - i,
{
    if i < 0 || i >= s.len() {
        s.len() as int
    } else if !is_space_char(s[i]) {
        i
    } else {
        lead_spaces(s, i + 1)
    }
}

/// Where the trailing white space of `s` begins.
pub open spec fn trail_start(s: Seq<char>, j: int) -> int
    decreases j,
{
    if j <= 0 {
        0
    } else if j > s.len() {
        0
    } else if !is_space_char(s[j - 1]) {
        j
    } else {
        trail_start(s, j - 1)
    }
}

/// What trimming white space from both ends of `s` leaves.
pub open spec fn trim_spec(s: Seq<char>) -> Seq<char> {
    let a = lead_spaces(s, 0);
    if a == s.len() {
        Seq::empty()
    } else {
        s.subrange(a, trail_start(s, s.len() as int))
    }
}

/// Trim white space from both ends of `s`.
pub fn trim_ws<'a>(s: &'a str) -> (r: &'a str)
    ensures
        r@ == trim_spec(s@),
{
    let n = s.unicode_len();
    let mut a: usize = 0;
    while a < n && char_is_whitespace(s.get_char(a))
        invariant
            n == s@.len(),
            0 <= a <= n,
            lead_spaces(s@, 0) == lead_spaces(s@, a as int),
        decreases n - a,
    {
        a = a + 1;
    }
    if a == n {
        proof {
            assert(lead_spaces(s@, a as int) == s@.len());
        }
        let r = s.substring_char(n, n);
        proof {
            assert(r@ =~= trim_spec(s@));
        }
        return r;
    }
    proof {
        assert(lead_spaces(s@, 0) == a as int);
    }
    let mut b: usize = n;
    while b > a && char_is_whitespace(s.get_char(b - 1))
        invariant
            n == s@.len(),
            a < b <= n,
            a < n,
            !is_space_char(s@[a as int]),
            trail_start(s@, n as int) == trail_start(s@, b as int),
        decreases b,
    {
        b = b - 1;
        proof {
            if b == a {
                assert(false);
            }
        }
    }
    proof {
        assert(!is_space_char(s@[b - 1]));
        assert(trail_start(s@, b as int) == b);
        assert(trim_spec(s@) == s@.subrange(a as int, b as int));
    }
    s.substring_char(a, b)
}

/// The first position at or after `i` where the character `c` stands in
/// `s`, or the length of `s` when it does not occur there.
pub open spec fn find_from(s: Seq<char>, c: char, i: int) -> int
    decreases s.len() - i,
{
    if i < 0 || i >= s.len() {
        s.len() as int
    } else if s[i] == c {
        i
    } else {
        find_from(s, c, i + 1)
    }
}

/// Bounds and characterization of `find_from`.
pub proof fn lemma_find_from(s: Seq<char>, c: char, i: int)
    requires
        0 <= i <= s.len(),
    ensures
        i <= find_from(s, c, i) <= s.len(),
        find_from(s, c, i) < s.len() ==> s[find_from(s, c, i)] == c,
        forall|k: int| i <= k < find_from(s, c, i) ==> s[k] != c,
    decreases s.len() - i,
{
    if i < s.len() && s[i] != c {
        lemma_find_from(s, c, i + 1);
    }
}

/// A line with a trailing carriage return loses it.
pub open spec fn strip_cr(l: Seq<char>) -> Seq<char> {
    if l.len() > 0 && l[l.len() - 1] == '\r' {
        l.subrange(0, l.len() - 1)
    } else {
        l
    }
}

/// The lines of `s` from position `i` on: split at each line feed, drop a
/// carriage return that ends a line, and omit the empty tail after a final
/// line feed.
pub open spec fn lines_from(s: Seq<char>, i: int) -> Seq<Seq<char>>
    decreases s.len() - i,
    via lines_from_decreases
{
    if i < 0 || i >= s.len() {
        Seq::empty()
    } else {
        let j = find_from(s, '\n', i);
        if j >= s.len() {
            seq![strip_cr(s.subrange(i, s.len() as int))]
        } else {
            seq![strip_cr(s.subrange(i, j))] + lines_from(s, j + 1)
        }
    }
}

#[via_fn]
proof fn lines_from_decreases(s: Seq<char>, i: int) {
    if 0 <= i && i < s.len() {
        lemma_find_from(s, '\n', i);
    }
}

/// The lines of `s`.
pub open spec fn lines_spec(s: Seq<char>) -> Seq<Seq<char>> {
    lines_from(s, 0)
}

/// Split `s` into its lines.
pub fn split_lines(s: &str) -> (r: Vec<String>)
    ensures
        r.deep_view() == lines_spec(s@),
{
    let n = s.unicode_len();
    let mut r: Vec<String> = Vec::new();
    proof {
        assert(r.deep_view() =~= Seq::<Seq<char>>::empty());
    }
    let mut start: usize = 0;
    while start < n
        invariant
            n == s@.len(),
            start <= n,
            lines_spec(s@) =~= r.deep_view() + lines_from(s@, start as int),
        decreases n - start,
    {
        let mut j: usize = start;
        while j < n && s.get_char(j) != '\n'
            invariant
                n == s@.len(),
                start <= j <= n,
                find_from(s@, '\n', start as int) == find_from(s@, '\n', j as int),
            decreases n - j,
        {
            j = j + 1;
        }
        proof {
            assert(find_from(s@, '\n', start as int) == j as int);
        }
        let end = if j > start && s.get_char(j - 1) == '\r' {
            j - 1
        } else {
            j
        };
        let line = s.substring_char(start, end).to_owned();
        proof {
            let sub = s@.subrange(start as int, j as int);
            if j > start && s@[j - 1] == '\r' {
                assert(sub.len() > 0 && sub[sub.len() - 1] == '\r');
                assert(line@ =~= sub.subrange(0, sub.len() - 1));
                assert(line@ == strip_cr(sub));
            } else {
                assert(line@ =~= strip_cr(sub));
            }
        }
        let ghost r_old = r.deep_view();
        r.push(line);
        proof {
            assert(r.deep_view() =~= r_old.push(line@));
            if j == n {
                assert(lines_from(s@, start as int) =~= seq![line@]);
                assert(lines_from(s@, n as int) =~= Seq::<Seq<char>>::empty());
            } else {
                assert(lines_from(s@, start as int) =~= seq![line@] + lines_from(
                    s@,
                    j + 1,
                ));
            }
            assert(lines_spec(s@) =~= r.deep_view() + lines_from(
                s@,
                if j < n {
                    j + 1
                } else {
                    n as int
                },
            ));
        }
        start = if j < n {
            j + 1
        } else {
            n
        };
    }
    proof {
        assert(lines_from(s@, start as int) =~= Seq::<Seq<char>>::empty());
        assert(r.deep_view() =~= lines_spec(s@));
    }
    r
}

/// The first position at or after `i` that holds a character that is not
/// white space, or the length of `s`.
pub open spec fn skip_spaces(s: Seq<char>, i: int) -> int
    decreases s.len() - i,
{
    if i < 0 || i >= s.len() {
        s.len() as int
    } else if is_space_char(s[i]) {
        skip_spaces(s, i + 1)
    } else {
        i
    }
}

/// The first position at or after `i` that holds white space, or the length
/// of `s`.
pub open spec fn skip_token(s: Seq<char>, i: int) -> int
    decreases s.len() - i,
{
    if i < 0 || i >= s.len() {
        s.len() as int
    } else if !is_space_char(s[i]) {
        skip_token(s, i + 1)
    } else {
        i
    }
}

/// Where the second white-space-separated token of `s` begins, or the
/// length of `s` when there is no second token.
pub open spec fn second_token_start(s: Seq<char>) -> int {
    skip_spaces(s, skip_token(s, skip_spaces(s, 0)))
}

/// The second white-space-separated token of `s`, if any.
pub open spec fn second_token(s: Seq<char>) -> Option<Seq<char>> {
    let a = second_token_start(s);
    if a >= s.len() {
        None
    } else {
        Some(s.subrange(a, skip_token(s, a)))
    }
}

/// The second white-space-separated token of `s`, if any.
pub fn nth1_token<'a>(s: &'a str) -> (r: Option<&'a str>)
    ensures
        (r matches Some(t) ==> second_token(s@) == Some(t@)),
        (r is None ==> second_token(s@) is None),
{
    let n = s.unicode_len();
    let mut i: usize = 0;
    while i < n && char_is_whitespace(s.get_char(i))
        invariant
            n == s@.len(),
            i <= n,
            skip_spaces(s@, 0) == skip_spaces(s@, i as int),
        decreases n - i,
    {
        i = i + 1;
    }
    proof {
        assert(skip_spaces(s@, 0) == i as int);
    }
    let mut b: usize = i;
    while b < n && !char_is_whitespace(s.get_char(b))
        invariant
            n == s@.len(),
            b <= n,
            skip_token(s@, i as int) == skip_token(s@, b as int),
        decreases n - b,
    {
        b = b + 1;
    }
    proof {
        assert(skip_token(s@, i as int) == b as int);
    }
    let mut a: usize = b;
    while a < n && char_is_whitespace(s.get_char(a))
        invariant
            n == s@.len(),
            a <= n,
            skip_spaces(s@, b as int) == skip_spaces(s@, a as int),
        decreases n - a,
    {
        a = a + 1;
    }
    proof {
        assert(skip_spaces(s@, b as int) == a as int);
        assert(second_token_start(s@) == a as int);
    }
    if a == n {
        return None;
    }
    let mut e: usize = a;
    while e < n && !char_is_whitespace(s.get_char(e))
        invariant
            n == s@.len(),
            a <= e <= n,
            skip_token(s@, a as int) == skip_token(s@, e as int),
        decreases n - e,
    {
        e = e + 1;
    }
    proof {
        assert(skip_token(s@, a as int) == e as int);
    }
    Some(s.substring_char(a, e))
}

/// What repeatedly stripping the prefix `p` off `s` leaves.
pub open spec fn strip_prefix_rep(s: Seq<char>, p: Seq<char>) -> Seq<char>
    decreases s.len(),
{
    if p.len() > 0 && is_prefix(s, p) {
        strip_prefix_rep(s.subrange(p.len() as int, s.len() as int), p)
    } else {
        s
    }
}

/// Whether `p` is a suffix of `s`.
pub open spec fn is_suffix(s: Seq<char>, p: Seq<char>) -> bool {
    p.len() <= s.len() && s.subrange(s.len() - p.len(), s.len() as int) == p
}

/// What repeatedly stripping the suffix `p` off `s` leaves.
pub open spec fn strip_suffix_rep(s: Seq<char>, p: Seq<char>) -> Seq<char>
    decreases s.len(),
{
    if p.len() > 0 && is_suffix(s, p) {
        strip_suffix_rep(s.subrange(0, s.len() - p.len()), p)
    } else {
        s
    }
}

/// Strip every leading repetition of `p` off `s`.
pub fn strip_prefix_repeated<'a>(s: &'a str, p: &str) -> (r: &'a str)
    requires
        p@.len() > 0,
    ensures
        r@ == strip_prefix_rep(s@, p@),
{
    let mut cur: &'a str = s;
    let m = p.unicode_len();
    loop
        invariant_except_break
            m == p@.len(),
            m > 0,
            strip_prefix_rep(s@, p@) == strip_prefix_rep(cur@, p@),
        ensures
            cur@ == strip_prefix_rep(s@, p@),
        decreases cur@.len(),
    {
        if !starts_with_sub(cur, p) {
            proof {
                assert(strip_prefix_rep(cur@, p@) == cur@);
            }
            break;
        }
        let next = cur.substring_char(m, cur.unicode_len());
        proof {
            assert(next@ == cur@.subrange(p@.len() as int, cur@.len() as int));
            assert(strip_prefix_rep(cur@, p@) == strip_prefix_rep(next@, p@));
        }
        cur = next;
    }
    cur
}

/// Strip every trailing repetition of `p` off `s`.
pub fn strip_suffix_repeated<'a>(s: &'a str, p: &str) -> (r: &'a str)
    requires
        p@.len() > 0,
    ensures
        r@ == strip_suffix_rep(s@, p@),
{
    let mut cur: &'a str = s;
    let m = p.unicode_len();
    loop
        invariant_except_break
            m == p@.len(),
            m > 0,
            strip_suffix_rep(s@, p@) == strip_suffix_rep(cur@, p@),
        ensures
            cur@ == strip_suffix_rep(s@, p@),
        decreases cur@.len(),
    {
        let n = cur.unicode_len();
        let ends = if m <= n {
            matches_at(cur, p, n - m)
        } else {
            false
        };
        proof {
            assert(ends == is_suffix(cur@, p@));
        }
        if !ends {
            proof {
                assert(strip_suffix_rep(cur@, p@) == cur@);
            }
            break;
        }
        let next = cur.substring_char(0, n - m);
        proof {
            assert(next@ == cur@.subrange(0, cur@.len() - p@.len()));
            assert(strip_suffix_rep(cur@, p@) == strip_suffix_rep(next@, p@));
        }
        cur = next;
    }
    cur
}

/// The parts joined with the separator between neighbours.
pub open spec fn join_spec(parts: Seq<Seq<char>>, sep: Seq<char>) -> Seq<char>
    decreases parts.len(),
{
    if parts.len() == 0 {
        Seq::empty()
    } else if parts.len() == 1 {
        parts[0]
    } else {
        parts[0] + sep + join_spec(parts.drop_first(), sep)
    }
}

/// Appending one more part extends the join by a separator and that part.
pub proof fn lemma_join_push(parts: Seq<Seq<char>>, sep: Seq<char>, x: Seq<char>)
    ensures
        parts.len() == 0 ==> join_spec(parts.push(x), sep) == x,
        parts.len() > 0 ==> join_spec(parts.push(x), sep) =~= join_spec(parts, sep) + sep + x,
    decreases parts.len(),
{
    if parts.len() == 0 {
        assert(parts.push(x).len() == 1);
        assert(join_spec(parts.push(x), sep) == parts.push(x)[0]);
    } else {
        lemma_join_push(parts.drop_first(), sep, x);
        assert(parts.push(x).drop_first() =~= parts.drop_first().push(x));
        if parts.len() == 1 {
            assert(parts.drop_first().len() == 0);
            assert(join_spec(parts.push(x), sep) =~= parts[0] + sep + x);
            assert(join_spec(parts, sep) == parts[0]);
        }
    }
}

/// Join the parts with the separator between neighbours.
pub fn join_with(parts: &Vec<String>, sep: &str) -> (r: String)
    ensures
        r@ == join_spec(parts.deep_view(), sep@),
{
    let mut r = String::new();
    let n = parts.len();
    proof {
        assert(parts.deep_view().take(0) =~= Seq::<Seq<char>>::empty());
    }
    for i in 0..n
        invariant
            n == parts@.len(),
            r@ =~= join_spec(parts.deep_view().take(i as int), sep@),
    {
        if i > 0 {
            r.append(sep);
        }
        r.append(parts[i].as_str());
        proof {
            let pre = parts.deep_view().take(i as int);
            assert(parts.deep_view().take(i + 1) =~= pre.push(parts@[i as int]@));
            lemma_join_push(pre, sep@, parts@[i as int]@);
        }
    }
    proof {
        assert(parts.deep_view().take(n as int) =~= parts.deep_view());
    }
    r
}

/// The decimal digit characters.
pub open spec fn digit_char(d: int) -> char {
    if d == 0 {
        '0'
    } else if d == 1 {
        '1'
    } else if d == 2 {
        '2'
    } else if d == 3 {
        '3'
    } else if d == 4 {
        '4'
    } else if d == 5 {
        '5'
    } else if d == 6 {
        '6'
    } else if d == 7 {
        '7'
    } else if d == 8 {
        '8'
    } else {
        '9'
    }
}

/// The decimal rendering of a number, most significant digit first.
pub open spec fn dec_rep(n: int) -> Seq<char>
    decreases n,
{
    if n < 0 {
        Seq::empty()
    } else if n < 10 {
        seq![digit_char(n)]
    } else {
        dec_rep(n / 10).push(digit_char(n % 10))
    }
}

/// The digit characters of collected remainders, most significant first.
pub open spec fn rendered(ds: Seq<usize>) -> Seq<char> {
    Seq::new(ds.len(), |i: int| digit_char(ds[ds.len() - 1 - i] as int))
}

/// One decimal digit as text.
fn digit_str(d: usize) -> (r: &'static str)
    requires
        d < 10,
    ensures
        r@ == seq![digit_char(d as int)],
{
    if d == 0 {
        proof {
            reveal_strlit("0");
            assert("0"@ =~= seq![digit_char(0)]);
        }
        "0"
    } else if d == 1 {
        proof {
            reveal_strlit("1");
            assert("1"@ =~= seq![digit_char(1)]);
        }
        "1"
    } else if d == 2 {
        proof {
            reveal_strlit("2");
            assert("2"@ =~= seq![digit_char(2)]);
        }
        "2"
    } else if d == 3 {
        proof {
            reveal_strlit("3");
            assert("3"@ =~= seq![digit_char(3)]);
        }
        "3"
    } else if d == 4 {
        proof {
            reveal_strlit("4");
            assert("4"@ =~= seq![digit_char(4)]);
        }
        "4"
    } else if d == 5 {
        proof {
            reveal_strlit("5");
            assert("5"@ =~= seq![digit_char(5)]);
        }
        "5"
    } else if d == 6 {
        proof {
            reveal_strlit("6");
            assert("6"@ =~= seq![digit_char(6)]);
        }
        "6"
    } else if d == 7 {
        proof {
            reveal_strlit("7");
            assert("7"@ =~= seq![digit_char(7)]);
        }
        "7"
    } else if d == 8 {
        proof {
            reveal_strlit("8");
            assert("8"@ =~= seq![digit_char(8)]);
        }
        "8"
    } else {
        proof {
            reveal_strlit("9");
            assert("9"@ =~= seq![digit_char(9)]);
        }
        "9"
    }
}

/// The decimal rendering of `n`.
pub fn decimal_string(n: usize) -> (r: String)
    ensures
        r@ == dec_rep(n as int),
{
    let mut digits: Vec<usize> = Vec::new();
    let mut m: usize = n;
    loop
        invariant_except_break
            digits@.len() == 0 ==> m == n,
            digits@.len() > 0 ==> m > 0 && dec_rep(n as int) =~= dec_rep(m as int) + rendered(
                digits@,
            ),
            forall|t: int| 0 <= t < digits@.len() ==> (#[trigger] digits@[t]) < 10,
        ensures
            dec_rep(n as int) =~= rendered(digits@),
            forall|t: int| 0 <= t < digits@.len() ==> (#[trigger] digits@[t]) < 10,
        decreases m,
    {
        let d = m % 10;
        let ghost ds_old = digits@;
        digits.push(d);
        let next = m / 10;
        proof {
            assert(rendered(digits@) =~= seq![digit_char(d as int)] + rendered(ds_old));
            if m < 10 {
                assert(dec_rep(m as int) == seq![digit_char(m as int)]);
                assert(d == m);
            } else {
                assert(dec_rep(m as int) == dec_rep(m as int / 10).push(digit_char(m as int % 10)));
                assert(dec_rep(m as int) =~= dec_rep(next as int) + seq![digit_char(d as int)]);
            }
            if next == 0 {
                assert(dec_rep(n as int) =~= rendered(digits@));
            } else {
                assert(dec_rep(n as int) =~= dec_rep(next as int) + rendered(digits@));
            }
        }
        m = next;
        if m == 0 {
            break;
        }
    }
    let mut r = String::new();
    let total = digits.len();
    let mut k: usize = total;
    proof {
        assert(rendered(digits@).take(0) =~= Seq::<char>::empty());
    }
    while k > 0
        invariant
            total == digits@.len(),
            k <= total,
            forall|t: int| 0 <= t < digits@.len() ==> (#[trigger] digits@[t]) < 10,
            dec_rep(n as int) =~= rendered(digits@),
            r@ =~= rendered(digits@).take(total - k),
        decreases k,
    {
        k = k - 1;
        r.append(digit_str(digits[k]));
        proof {
            assert(rendered(digits@).take(total - k) =~= rendered(digits@).take(
                total - (k + 1),
            ).push(digit_char(digits@[k as int] as int)));
        }
    }
    proof {
        assert(rendered(digits@).take(total as int) =~= rendered(digits@));
    }
    r
}

} // verus!
