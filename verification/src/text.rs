//! Character-level text handling: the whitespace, line, search and number
//! rules that the status parser and the git output handling rely on.

use vstd::prelude::*;

verus! {

broadcast use vstd::string::group_string_axioms;

/// `String::push`. Claimed, as its documentation says: the character is
/// appended to the end of the string, which is otherwise unchanged.
pub assume_specification[ String::push ](string: &mut String, ch: char)
    ensures
        final(string)@ == old(string)@.push(ch),
;

/// The characters of `s`, in order.
pub fn chars_of(s: &str) -> (v: Vec<char>)
    ensures
        v@ == s@,
{
    let mut it = s.chars();
    let mut v: Vec<char> = Vec::new();
    loop
        invariant
            v@ + vstd::std_specs::iter::IteratorSpec::remaining(&it) == s@,
            vstd::std_specs::iter::IteratorSpec::decrease(&it) is Some,
        decreases vstd::std_specs::iter::IteratorSpec::decrease(&it)->0,
    {
        let ghost before = vstd::std_specs::iter::IteratorSpec::remaining(&it);
        match it.next() {
            Some(c) => {
                v.push(c);
                assert(v@ + vstd::std_specs::iter::IteratorSpec::remaining(&it) =~= s@) by {
                    assert(before == seq![c] + vstd::std_specs::iter::IteratorSpec::remaining(&it));
                }
            },
            None => {
                assert(v@ =~= s@);
                return v;
            },
        }
    }
}

/// A `String` holding the characters `v[from..to]`.
pub fn string_from_range(v: &Vec<char>, from: usize, to: usize) -> (r: String)
    requires
        from <= to <= v.len(),
    ensures
        r@ == v@.subrange(from as int, to as int),
{
    let mut r = String::new();
    let mut i = from;
    while i < to
        invariant
            from <= i <= to <= v.len(),
            r@ == v@.subrange(from as int, i as int),
        decreases to - i,
    {
        r.push(v[i]);
        assert(r@ =~= v@.subrange(from as int, i + 1));
        i = i + 1;
    }
    r
}

} // verus!

verus! {

/// The Unicode `White_Space` property, which `char::is_whitespace` tests and
/// which `str::trim` and `str::split_whitespace` split on.
pub open spec fn is_ws(c: char) -> bool {
    let u = c as int;
    ||| 9 <= u <= 13
    ||| u == 0x20
    ||| u == 0x85
    ||| u == 0xA0
    ||| u == 0x1680
    ||| 0x2000 <= u <= 0x200A
    ||| u == 0x2028
    ||| u == 0x2029
    ||| u == 0x202F
    ||| u == 0x205F
    ||| u == 0x3000
}

/// ASCII decimal digit `'0'..='9'`.
pub open spec fn is_digit(c: char) -> bool {
    48 <= c as int <= 57
}

/// The value of an ASCII digit.
pub open spec fn digit_value(c: char) -> nat {
    (c as int - 48) as nat
}

pub fn is_whitespace(c: char) -> (b: bool)
    ensures
        b == is_ws(c),
{
    let u = c as u32;
    (9 <= u && u <= 13) || u == 0x20 || u == 0x85 || u == 0xA0 || u == 0x1680 || (0x2000 <= u
        && u <= 0x200A) || u == 0x2028 || u == 0x2029 || u == 0x202F || u == 0x205F || u == 0x3000
}

pub fn is_ascii_digit(c: char) -> (b: bool)
    ensures
        b == is_digit(c),
{
    let u = c as u32;
    48 <= u && u <= 57
}

/// First index at or after `i` that does not hold whitespace (`s.len()` if none).
pub open spec fn skip_ws(s: Seq<char>, i: int) -> int
    decreases s.len() - i,
{
    if i < 0 || i >= s.len() || !is_ws(s[i]) {
        i
    } else {
        skip_ws(s, i + 1)
    }
}

/// First index at or after `i` that holds whitespace (`s.len()` if none).
pub open spec fn skip_non_ws(s: Seq<char>, i: int) -> int
    decreases s.len() - i,
{
    if i < 0 || i >= s.len() || is_ws(s[i]) {
        i
    } else {
        skip_non_ws(s, i + 1)
    }
}

/// Walking back from `j`, the end of the text once trailing whitespace is dropped.
pub open spec fn rskip_ws(s: Seq<char>, j: int) -> int
    decreases j,
{
    if j <= 0 || j > s.len() || !is_ws(s[j - 1]) {
        j
    } else {
        rskip_ws(s, j - 1)
    }
}

/// First index at or after `i` that holds an ASCII digit (`s.len()` if none).
pub open spec fn skip_non_digit(s: Seq<char>, i: int) -> int
    decreases s.len() - i,
{
    if i < 0 || i >= s.len() || is_digit(s[i]) {
        i
    } else {
        skip_non_digit(s, i + 1)
    }
}

/// First index at or after `i` that does not hold an ASCII digit (`s.len()` if none).
pub open spec fn skip_digit(s: Seq<char>, i: int) -> int
    decreases s.len() - i,
{
    if i < 0 || i >= s.len() || !is_digit(s[i]) {
        i
    } else {
        skip_digit(s, i + 1)
    }
}

/// `s` without leading and trailing whitespace, as `str::trim` gives it.
pub open spec fn trim(s: Seq<char>) -> Seq<char> {
    let a = skip_ws(s, 0);
    let b = rskip_ws(s, s.len() as int);
    if a < b {
        s.subrange(a, b)
    } else {
        Seq::empty()
    }
}

/// Every character of `s` is whitespace.
pub open spec fn all_ws(s: Seq<char>) -> bool {
    forall|k: int| 0 <= k < s.len() ==> is_ws(#[trigger] s[k])
}

/// `pat` occurs in `s` starting at index `i`.
pub open spec fn matches_at(s: Seq<char>, pat: Seq<char>, i: int) -> bool {
    0 <= i && i + pat.len() <= s.len() && s.subrange(i, i + pat.len()) == pat
}

/// The first index at or after `i` where `pat` occurs in `s`, as `str::find` reports it.
pub open spec fn find_from(s: Seq<char>, pat: Seq<char>, i: int) -> Option<int>
    decreases s.len() + 1 - i,
{
    if i < 0 || i + pat.len() > s.len() {
        None
    } else if matches_at(s, pat, i) {
        Some(i)
    } else {
        find_from(s, pat, i + 1)
    }
}

/// What `find_from` reports is a match, at or after the start, with none before it.
pub proof fn lemma_find_from(s: Seq<char>, pat: Seq<char>, i: int)
    requires
        0 <= i,
    ensures
        find_from(s, pat, i) matches Some(j) ==> i <= j && matches_at(s, pat, j) && forall|k: int|
            i <= k < j ==> !matches_at(s, pat, k),
        find_from(s, pat, i) is None ==> forall|k: int| i <= k ==> !matches_at(s, pat, k),
    decreases s.len() + 1 - i,
{
    if i < 0 || i + pat.len() > s.len() {
    } else if matches_at(s, pat, i) {
    } else {
        lemma_find_from(s, pat, i + 1);
    }
}

/// The first index of `pat` in `s`.
pub open spec fn find(s: Seq<char>, pat: Seq<char>) -> Option<int> {
    find_from(s, pat, 0)
}

/// `pat` occurs somewhere in `s`.
pub open spec fn contains(s: Seq<char>, pat: Seq<char>) -> bool {
    find(s, pat) is Some
}

/// The first index at or after `i` that holds `c` (`s.len()` if none).
pub open spec fn index_of_char_from(s: Seq<char>, c: char, i: int) -> int
    decreases s.len() - i,
{
    if i < 0 || i >= s.len() || s[i] == c {
        i
    } else {
        index_of_char_from(s, c, i + 1)
    }
}

/// The decimal value of a run of ASCII digits, most significant first.
pub open spec fn digits_value(d: Seq<char>) -> nat
    decreases d.len(),
{
    if d.len() == 0 {
        0
    } else {
        digits_value(d.drop_last()) * 10 + digit_value(d.last())
    }
}

/// The ASCII digit for `d < 10`.
pub open spec fn digit_char(d: nat) -> char {
    if d == 0 {
        '0'
    } else if d == 1 {
        '1'
    } else if d == 2 {
        '2'
    } else if d == 3 {
        '3'
    } else if d == 4 {
        '4'
    } else if d == 5 {
        '5'
    } else if d == 6 {
        '6'
    } else if d == 7 {
        '7'
    } else if d == 8 {
        '8'
    } else {
        '9'
    }
}

/// The decimal rendering of `n`, as `format!("{n}")` writes it.
pub open spec fn decimal(n: nat) -> Seq<char>
    decreases n,
{
    if n < 10 {
        seq![digit_char(n)]
    } else {
        decimal(n / 10).push(digit_char(n % 10))
    }
}

/// Index of the first whitespace-free character at or after `i`.
pub fn skip_ws_exec(v: &Vec<char>, i: usize) -> (r: usize)
    requires
        i <= v.len(),
    ensures
        r == skip_ws(v@, i as int),
        i <= r <= v.len(),
{
    let mut k = i;
    while k < v.len() && is_whitespace(v[k])
        invariant
            i <= k <= v.len(),
            skip_ws(v@, k as int) == skip_ws(v@, i as int),
        decreases v.len() - k,
    {
        k = k + 1;
    }
    k
}

/// Index of the first whitespace character at or after `i`.
pub fn skip_non_ws_exec(v: &Vec<char>, i: usize) -> (r: usize)
    requires
        i <= v.len(),
    ensures
        r == skip_non_ws(v@, i as int),
        i <= r <= v.len(),
{
    let mut k = i;
    while k < v.len() && !is_whitespace(v[k])
        invariant
            i <= k <= v.len(),
            skip_non_ws(v@, k as int) == skip_non_ws(v@, i as int),
        decreases v.len() - k,
    {
        k = k + 1;
    }
    k
}

/// Index of the first ASCII digit at or after `i`.
pub fn skip_non_digit_exec(v: &Vec<char>, i: usize) -> (r: usize)
    requires
        i <= v.len(),
    ensures
        r == skip_non_digit(v@, i as int),
        i <= r <= v.len(),
{
    let mut k = i;
    while k < v.len() && !is_ascii_digit(v[k])
        invariant
            i <= k <= v.len(),
            skip_non_digit(v@, k as int) == skip_non_digit(v@, i as int),
        decreases v.len() - k,
    {
        k = k + 1;
    }
    k
}

/// Index of the first non-digit at or after `i`.
pub fn skip_digit_exec(v: &Vec<char>, i: usize) -> (r: usize)
    requires
        i <= v.len(),
    ensures
        r == skip_digit(v@, i as int),
        i <= r <= v.len(),
        forall|k: int| i <= k < r ==> is_digit(#[trigger] v@[k]),
{
    let mut k = i;
    while k < v.len() && is_ascii_digit(v[k])
        invariant
            i <= k <= v.len(),
            forall|m: int| i <= m < k ==> is_digit(#[trigger] v@[m]),
            skip_digit(v@, k as int) == skip_digit(v@, i as int),
        decreases v.len() - k,
    {
        k = k + 1;
    }
    k
}

/// End of the text before `j` once trailing whitespace is dropped.
pub fn rskip_ws_exec(v: &Vec<char>, j: usize) -> (r: usize)
    requires
        j <= v.len(),
    ensures
        r == rskip_ws(v@, j as int),
        r <= j,
{
    let mut k = j;
    while k > 0 && is_whitespace(v[k - 1])
        invariant
            k <= j <= v.len(),
            rskip_ws(v@, k as int) == rskip_ws(v@, j as int),
        decreases k,
    {
        k = k - 1;
    }
    k
}

/// First index at or after `i` holding `c`, or `v.len()`.
pub fn index_of_char_exec(v: &Vec<char>, c: char, i: usize) -> (r: usize)
    requires
        i <= v.len(),
    ensures
        r == index_of_char_from(v@, c, i as int),
        i <= r <= v.len(),
{
    let mut k = i;
    while k < v.len() && v[k] != c
        invariant
            i <= k <= v.len(),
            index_of_char_from(v@, c, k as int) == index_of_char_from(v@, c, i as int),
        decreases v.len() - k,
    {
        k = k + 1;
    }
    k
}

/// Whether `pat` occurs in `v` at index `i`.
pub fn matches_at_exec(v: &Vec<char>, pat: &Vec<char>, i: usize) -> (b: bool)
    ensures
        b == matches_at(v@, pat@, i as int),
{
    if i > v.len() || pat.len() > v.len() - i {
        return false;
    }
    let mut k: usize = 0;
    while k < pat.len()
        invariant
            i + pat.len() <= v.len(),
            k <= pat.len(),
            forall|m: int| 0 <= m < k ==> v@[i + m] == pat@[m],
        decreases pat.len() - k,
    {
        if v[i + k] != pat[k] {
            assert(v@.subrange(i as int, i + pat.len())[k as int] != pat@[k as int]);
            return false;
        }
        k = k + 1;
    }
    assert(v@.subrange(i as int, i + pat.len()) =~= pat@);
    true
}

/// The first index of `pat` in `v`, as `str::find` reports it.
pub fn find_exec(v: &Vec<char>, pat: &Vec<char>) -> (r: Option<usize>)
    ensures
        r matches Some(i) ==> find(v@, pat@) == Some(i as int) && i + pat.len() <= v.len(),
        r is None ==> find(v@, pat@) is None,
{
    proof {
        lemma_find_from(v@, pat@, 0);
    }
    if pat.len() > v.len() {
        return None;
    }
    let mut i: usize = 0;
    while i <= v.len() - pat.len()
        invariant
            pat.len() <= v.len(),
            i <= v.len() - pat.len(),
            find_from(v@, pat@, i as int) == find_from(v@, pat@, 0),
        decreases v.len() - i,
    {
        if matches_at_exec(v, pat, i) {
            return Some(i);
        }
        if i == v.len() - pat.len() {
            assert(find_from(v@, pat@, i + 1) is None);
            return None;
        }
        i = i + 1;
    }
    None
}

/// `s` with leading and trailing whitespace removed, as `str::trim` gives it.
pub fn trim_exec(s: &str) -> (r: String)
    ensures
        r@ == trim(s@),
{
    let v = chars_of(s);
    let a = skip_ws_exec(&v, 0);
    let b = rskip_ws_exec(&v, v.len());
    if a < b {
        string_from_range(&v, a, b)
    } else {
        let r = String::new();
        assert(r@ =~= trim(s@));
        r
    }
}

/// The digit character for `d < 10`.
pub fn digit_char_exec(d: usize) -> (c: char)
    requires
        d < 10,
    ensures
        c == digit_char(d as nat),
{
    if d == 0 {
        '0'
    } else if d == 1 {
        '1'
    } else if d == 2 {
        '2'
    } else if d == 3 {
        '3'
    } else if d == 4 {
        '4'
    } else if d == 5 {
        '5'
    } else if d == 6 {
        '6'
    } else if d == 7 {
        '7'
    } else if d == 8 {
        '8'
    } else {
        '9'
    }
}

/// Appends the decimal rendering of `n` to `s`.
pub fn push_decimal(s: &mut String, n: usize)
    ensures
        final(s)@ == old(s)@ + decimal(n as nat),
    decreases n,
{
    if n >= 10 {
        push_decimal(s, n / 10);
    }
    s.push(digit_char_exec(n % 10));
    assert(final(s)@ =~= old(s)@ + decimal(n as nat)) by {
        if n >= 10 {
            assert(decimal(n as nat) == decimal((n / 10) as nat).push(digit_char((n % 10) as nat)));
        }
    }
}

/// The characters `v[from..to]` as a vector of their own.
pub fn sub_vec(v: &Vec<char>, from: usize, to: usize) -> (r: Vec<char>)
    requires
        from <= to <= v.len(),
    ensures
        r@ == v@.subrange(from as int, to as int),
{
    let mut r: Vec<char> = Vec::new();
    let mut i = from;
    while i < to
        invariant
            from <= i <= to <= v.len(),
            r@ == v@.subrange(from as int, i as int),
        decreases to - i,
    {
        r.push(v[i]);
        assert(r@ =~= v@.subrange(from as int, i + 1));
        i = i + 1;
    }
    r
}

/// Values of digit runs grow as the run grows.
pub proof fn lemma_digits_value_prefix(d: Seq<char>, j: int)
    requires
        0 <= j <= d.len(),
    ensures
        digits_value(d.subrange(0, j)) <= digits_value(d),
    decreases d.len() - j,
{
    if j < d.len() {
        lemma_digits_value_prefix(d, j + 1);
        assert(d.subrange(0, j + 1).drop_last() =~= d.subrange(0, j));
    } else {
        assert(d.subrange(0, j) =~= d);
    }
}

/// The value of the ASCII digits `v[from..to]`, or `None` when it exceeds `usize::MAX`,
/// as `str::parse::<usize>` reads a run of digits.
pub fn digits_to_usize(v: &Vec<char>, from: usize, to: usize) -> (r: Option<usize>)
    requires
        from <= to <= v.len(),
        forall|k: int| from <= k < to ==> is_digit(#[trigger] v@[k]),
    ensures
        r matches Some(n) ==> n as nat == digits_value(v@.subrange(from as int, to as int)),
        r is None ==> digits_value(v@.subrange(from as int, to as int)) > usize::MAX,
{
    let mut acc: usize = 0;
    let mut i = from;
    assert(v@.subrange(from as int, from as int) =~= Seq::<char>::empty());
    while i < to
        invariant
            from <= i <= to <= v.len(),
            forall|k: int| from <= k < to ==> is_digit(#[trigger] v@[k]),
            acc as nat == digits_value(v@.subrange(from as int, i as int)),
        decreases to - i,
    {
        let ghost whole = v@.subrange(from as int, to as int);
        assert(v@.subrange(from as int, i + 1).drop_last() =~= v@.subrange(from as int, i as int));
        assert(v@.subrange(from as int, i + 1).last() == v@[i as int]);
        let d = (v[i] as u32 - 48) as usize;
        assert(is_digit(v@[i as int]));
        let step = match acc.checked_mul(10) {
            Some(t) => t.checked_add(d),
            None => None,
        };
        match step {
            Some(next) => {
                acc = next;
                i = i + 1;
            },
            None => {
                proof {
                    assert(whole.subrange(0, i + 1 - from) =~= v@.subrange(from as int, i + 1));
                    lemma_digits_value_prefix(whole, i + 1 - from);
                }
                return None;
            },
        }
    }
    Some(acc)
}

/// The lower-case form of a text, as `str::to_lowercase` gives it.
pub uninterp spec fn lowercase(s: Seq<char>) -> Seq<char>;

/// Calls `str::to_lowercase`. Claimed: the result is `lowercase` of `s`.
#[verifier::external_body]
pub(crate) fn to_lowercase(s: &str) -> (r: String)
    ensures
        r@ == lowercase(s@),
{
    s.to_lowercase()
}

/// A `String` holding the characters of the literal or slice `s`.
pub fn owned(s: &str) -> (r: String)
    ensures
        r@ == s@,
{
    s.to_owned()
}

/// Whether `t` from position `i` on matches the pattern `p` from position `j`
/// on, by the rules of SQL `LIKE`: `%` stands for any run of characters, the
/// empty one included, `_` for any single character, and every other
/// character for itself.
pub open spec fn like_from(t: Seq<char>, p: Seq<char>, i: int, j: int) -> bool
    decreases t.len() - i + p.len() - j,
{
    if i < 0 || j < 0 || i > t.len() || j > p.len() {
        false
    } else if j == p.len() {
        i == t.len()
    } else if p[j] == '%' {
        like_from(t, p, i, j + 1) || (i < t.len() && like_from(t, p, i + 1, j))
    } else if i == t.len() {
        false
    } else if p[j] == '_' || p[j] == t[i] {
        like_from(t, p, i + 1, j + 1)
    } else {
        false
    }
}

/// Whether the whole of `t` matches the `LIKE` pattern `p`.
pub open spec fn like(t: Seq<char>, p: Seq<char>) -> bool {
    like_from(t, p, 0, 0)
}

/// Matches `t` against the `LIKE` pattern `p`, one row of suffix results at
/// a time, from the end of `t` back to its start.
pub fn like_exec(t: &Vec<char>, p: &Vec<char>) -> (r: bool)
    ensures
        r == like(t@, p@),
{
    let n = t.len();
    let m = p.len();
    // `row[j]` holds the result for the text after position `i` (one past the
    // end to begin with, where nothing matches) and the pattern from `j` on.
    let mut row: Vec<bool> = Vec::new();
    while row.len() < m
        invariant
            row.len() <= m,
            forall|k: int| 0 <= k < row.len() ==> !#[trigger] row[k],
        decreases m - row.len(),
    {
        row.push(false);
    }
    let mut i: usize = n;
    loop
        invariant
            i <= n,
            n == t.len(),
            m == p.len(),
            row.len() == m,
            forall|k: int| 0 <= k < m ==> #[trigger] row[k] == like_from(t@, p@, i + 1, k),
        decreases i,
    {
        let mut j: usize = m;
        let mut after: bool = i == n;
        let mut diag: bool = n - i == 1;
        while j > 0
            invariant
                i <= n,
                n == t.len(),
                m == p.len(),
                j <= m,
                row.len() == m,
                after == like_from(t@, p@, i as int, j as int),
                diag == like_from(t@, p@, i + 1, j as int),
                forall|k: int| 0 <= k < j ==> #[trigger] row[k] == like_from(t@, p@, i + 1, k),
                forall|k: int|
                    j <= k < m ==> #[trigger] row[k] == like_from(t@, p@, i as int, k),
            decreases j,
        {
            j = j - 1;
            let down = row[j];
            let c = p[j];
            let v = if c == '%' {
                after || (i < n && down)
            } else if i == n {
                false
            } else if c == '_' || c == t[i] {
                diag
            } else {
                false
            };
            assert(v == like_from(t@, p@, i as int, j as int));
            row.set(j, v);
            after = v;
            diag = down;
        }
        if i == 0 {
            return after;
        }
        i = i - 1;
    }
}

/// `p` is the pattern `%`, then the characters of `f`, then `%`.
pub open spec fn wrapped_in_any(p: Seq<char>, f: Seq<char>) -> bool {
    &&& p.len() == f.len() + 2
    &&& p[0] == '%'
    &&& p[f.len() + 1int] == '%'
    &&& forall|j: int| 1 <= j <= f.len() ==> #[trigger] p[j] == f[j - 1]
}

/// `f` holds neither of the `LIKE` wildcards.
pub open spec fn no_wildcards(f: Seq<char>) -> bool {
    forall|k: int| 0 <= k < f.len() ==> #[trigger] f[k] != '%' && f[k] != '_'
}

/// A pattern that ends in `%` matches, from its last position, any rest of a text.
proof fn lemma_like_trailing_any(t: Seq<char>, p: Seq<char>, i: int)
    requires
        p.len() >= 1,
        p[p.len() - 1] == '%',
        0 <= i <= t.len(),
    ensures
        like_from(t, p, i, p.len() - 1),
    decreases t.len() - i,
{
    assert(like_from(t, p, i, p.len() as int) == (i == t.len()));
    if i < t.len() {
        lemma_like_trailing_any(t, p, i + 1);
    }
}

/// Within the characters of `f`, the pattern `%f%` matches from `i` exactly
/// when the text goes on with the rest of `f`.
proof fn lemma_like_literal(t: Seq<char>, f: Seq<char>, p: Seq<char>, i: int, j: int)
    requires
        wrapped_in_any(p, f),
        no_wildcards(f),
        1 <= j <= f.len() + 1,
        0 <= i <= t.len(),
    ensures
        like_from(t, p, i, j) <==> (i + (f.len() + 1 - j) <= t.len() && forall|k: int|
            0 <= k < f.len() + 1 - j ==> #[trigger] t[i + k] == f[j - 1 + k]),
    decreases f.len() + 1 - j,
{
    if j == f.len() + 1 {
        lemma_like_trailing_any(t, p, i);
    } else {
        assert(p[j] == f[j - 1]);
        assert(f[j - 1] != '%' && f[j - 1] != '_');
        if i < t.len() {
            lemma_like_literal(t, f, p, i + 1, j + 1);
            let rest = f.len() + 1 - j;
            if i + rest <= t.len() && forall|k: int| 0 <= k < rest ==> #[trigger] t[i + k] == f[j
                - 1 + k] {
                assert(t[i + 0] == f[j - 1 + 0]);
                assert forall|k: int| 0 <= k < rest - 1 implies #[trigger] t[i + 1 + k] == f[j + k] by {
                    assert(t[i + (k + 1)] == f[j - 1 + (k + 1)]);
                }
            }
            if t[i] == f[j - 1] && i + 1 + (rest - 1) <= t.len() && forall|k: int|
                0 <= k < rest - 1 ==> #[trigger] t[i + 1 + k] == f[j + k] {
                assert forall|k: int| 0 <= k < rest implies #[trigger] t[i + k] == f[j - 1 + k] by {
                    if k > 0 {
                        assert(t[i + 1 + (k - 1)] == f[j + (k - 1)]);
                    }
                }
            }
        }
    }
}

/// The pattern `%f%` matches the text from `i` on exactly when `f` occurs in
/// it at or after `i`.
proof fn lemma_like_anywhere(t: Seq<char>, f: Seq<char>, p: Seq<char>, i: int)
    requires
        wrapped_in_any(p, f),
        no_wildcards(f),
        0 <= i <= t.len(),
    ensures
        like_from(t, p, i, 0) <==> find_from(t, f, i) is Some,
    decreases t.len() - i,
{
    lemma_like_literal(t, f, p, i, 1);
    if i + f.len() <= t.len() {
        if forall|k: int| 0 <= k < f.len() ==> #[trigger] t[i + k] == f[1 - 1 + k] {
            assert forall|k: int| 0 <= k < f.len() implies #[trigger] t.subrange(
                i,
                i + f.len(),
            )[k] == f[k] by {
                assert(t[i + k] == f[1 - 1 + k]);
            }
            assert(t.subrange(i, i + f.len()) =~= f);
        }
        if matches_at(t, f, i) {
            assert forall|k: int| 0 <= k < f.len() implies #[trigger] t[i + k] == f[1 - 1 + k] by {
                assert(t.subrange(i, i + f.len())[k] == t[i + k]);
            }
        }
    }
    if i < t.len() {
        lemma_like_anywhere(t, f, p, i + 1);
    }
}

/// `c` occurs nowhere in `s`.
pub open spec fn lacks(s: Seq<char>, c: char) -> bool {
    forall|k: int| 0 <= k < s.len() ==> #[trigger] s[k] != c
}

/// A character missing from two texts is missing from the two joined.
pub proof fn lemma_lacks_concat(x: Seq<char>, y: Seq<char>, c: char)
    requires
        lacks(x, c),
        lacks(y, c),
    ensures
        lacks(x + y, c),
{
    assert forall|k: int| 0 <= k < (x + y).len() implies #[trigger] (x + y)[k] != c by {
        if k < x.len() {
            assert((x + y)[k] == x[k]);
        } else {
            assert((x + y)[k] == y[k - x.len()]);
        }
    }
}

/// A text occurs in any text built around it.
pub proof fn lemma_contains_inside(a: Seq<char>, p: Seq<char>, b: Seq<char>)
    ensures
        contains(a + p + b, p),
{
    let s = a + p + b;
    assert(s.subrange(a.len() as int, (a.len() + p.len()) as int) =~= p);
    assert(matches_at(s, p, a.len() as int));
    lemma_find_from(s, p, 0);
}

/// A text that lacks the first character of `p` does not contain `p`.
pub proof fn lemma_lacks_first_char(t: Seq<char>, p: Seq<char>)
    requires
        p.len() > 0,
        lacks(t, p[0]),
    ensures
        !contains(t, p),
{
    lemma_find_from(t, p, 0);
    if let Some(j) = find(t, p) {
        assert(t.subrange(j, j + p.len())[0] == t[j]);
    }
}

/// A `LIKE` pattern made of a text without wildcards between two `%`
/// matches exactly the texts that contain that text.
pub proof fn lemma_like_plain_text_is_contains(t: Seq<char>, f: Seq<char>)
    requires
        no_wildcards(f),
    ensures
        like(t, seq!['%'] + f + seq!['%']) <==> contains(t, f),
{
    let p = seq!['%'] + f + seq!['%'];
    assert(wrapped_in_any(p, f));
    lemma_like_anywhere(t, f, p, 0);
}

} // verus!

verus! {

/// A digit character is a digit and reads back as its value.
pub proof fn lemma_digit_char(d: nat)
    requires
        d < 10,
    ensures
        is_digit(digit_char(d)),
        digit_value(digit_char(d)) == d,
{
    assert('0' as int == 48 && '1' as int == 49 && '2' as int == 50 && '3' as int == 51 && '4' as int
        == 52 && '5' as int == 53 && '6' as int == 54 && '7' as int == 55 && '8' as int == 56
        && '9' as int == 57);
}

/// A decimal rendering consists of digits and reads back as its number.
pub proof fn lemma_decimal_reads_back(n: nat)
    ensures
        decimal(n).len() > 0,
        forall|i: int| 0 <= i < decimal(n).len() ==> is_digit(#[trigger] decimal(n)[i]),
        digits_value(decimal(n)) == n,
    decreases n,
{
    lemma_digit_char(n % 10);
    if n < 10 {
        assert(seq![digit_char(n)].drop_last() =~= Seq::<char>::empty());
        assert(seq![digit_char(n)].last() == digit_char(n));
        assert(digits_value(decimal(n)) == digits_value(Seq::<char>::empty()) * 10 + digit_value(
            digit_char(n),
        ));
    }
    if n >= 10 {
        lemma_decimal_reads_back(n / 10);
        assert(n == (n / 10) * 10 + n % 10);
        let d = decimal(n / 10);
        assert(decimal(n).drop_last() =~= d);
        assert(decimal(n).last() == digit_char(n % 10));
        assert(digits_value(decimal(n)) == digits_value(d) * 10 + digit_value(digit_char(n % 10)));
        assert forall|i: int| 0 <= i < decimal(n).len() implies is_digit(#[trigger] decimal(n)[i]) by {
            if i < d.len() {
                assert(decimal(n)[i] == d[i]);
            }
        }
    }
}

/// Skipping digits from `i` stops at `j` when `s[i..j]` are digits and `s[j]`
/// is not one (or `j` is the end).
pub proof fn lemma_skip_digit_to(s: Seq<char>, i: int, j: int)
    requires
        0 <= i <= j <= s.len(),
        forall|k: int| i <= k < j ==> is_digit(#[trigger] s[k]),
        j < s.len() ==> !is_digit(s[j]),
    ensures
        skip_digit(s, i) == j,
    decreases j - i,
{
    if i < j {
        lemma_skip_digit_to(s, i + 1, j);
    }
}

/// The first `c` at or after `i` is at `j` when `s[j]` is `c` and none before it is.
pub proof fn lemma_index_of_char(s: Seq<char>, c: char, i: int, j: int)
    requires
        0 <= i <= j < s.len(),
        s[j] == c,
        forall|k: int| i <= k < j ==> s[k] != c,
    ensures
        index_of_char_from(s, c, i) == j,
    decreases j - i,
{
    if i < j {
        lemma_index_of_char(s, c, i + 1, j);
    }
}

/// With no `c` at or after `i`, the search for `c` runs to the end.
pub proof fn lemma_index_of_char_absent(s: Seq<char>, c: char, i: int)
    requires
        0 <= i <= s.len(),
        forall|k: int| i <= k < s.len() ==> s[k] != c,
    ensures
        index_of_char_from(s, c, i) == s.len(),
    decreases s.len() - i,
{
    if i < s.len() {
        lemma_index_of_char_absent(s, c, i + 1);
    }
}

} // verus!
