//! Lines into tokens, and the value extractors that read a token.
use vstd::prelude::*;

verus! {

/// Relies on `str::chars` collected into a `Vec`: the characters of `s` in order.
#[verifier::external_body]
pub(crate) fn chars_of(s: &str) -> (r: Vec<char>)
    ensures
        r@ == s@,
{
    s.chars().collect()
}

/// Relies on `String: FromIterator<&char>`: the string made of the characters in order.
#[verifier::external_body]
pub(crate) fn string_of(c: &Vec<char>) -> (r: String)
    ensures
        r@ == c@,
{
    c.iter().collect()
}

/// The characters that `char::is_whitespace` accepts: those with the Unicode
/// `White_Space` property.
pub open spec fn is_white(c: char) -> bool {
    let u = c as u32;
    (0x09 <= u <= 0x0D) || u == 0x20 || u == 0x85 || u == 0xA0 || u == 0x1680
        || (0x2000 <= u <= 0x200A) || u == 0x2028 || u == 0x2029 || u == 0x202F
        || u == 0x205F || u == 0x3000
}

pub fn is_white_char(c: char) -> (r: bool)
    ensures
        r == is_white(c),
{
    let u = c as u32;
    (0x09 <= u && u <= 0x0D) || u == 0x20 || u == 0x85 || u == 0xA0 || u == 0x1680 || (0x2000
        <= u && u <= 0x200A) || u == 0x2028 || u == 0x2029 || u == 0x202F || u == 0x205F || u
        == 0x3000
}

/// `s` without its leading characters equal to `c`.
pub open spec fn trim_start_char(s: Seq<char>, c: char) -> Seq<char>
    decreases s.len(),
{
    if s.len() > 0 && s[0] == c {
        trim_start_char(s.drop_first(), c)
    } else {
        s
    }
}

/// `s` without its trailing characters equal to `c`.
pub open spec fn trim_end_char(s: Seq<char>, c: char) -> Seq<char>
    decreases s.len(),
{
    if s.len() > 0 && s.last() == c {
        trim_end_char(s.drop_last(), c)
    } else {
        s
    }
}

/// What `str::trim_matches(c)` leaves of `s`.
pub open spec fn trim_char(s: Seq<char>, c: char) -> Seq<char> {
    trim_end_char(trim_start_char(s, c), c)
}

pub open spec fn trim_start_white(s: Seq<char>) -> Seq<char>
    decreases s.len(),
{
    if s.len() > 0 && is_white(s[0]) {
        trim_start_white(s.drop_first())
    } else {
        s
    }
}

pub open spec fn trim_end_white(s: Seq<char>) -> Seq<char>
    decreases s.len(),
{
    if s.len() > 0 && is_white(s.last()) {
        trim_end_white(s.drop_last())
    } else {
        s
    }
}

/// What `str::trim` leaves of `s`.
pub open spec fn trim_white(s: Seq<char>) -> Seq<char> {
    trim_end_white(trim_start_white(s))
}

/// A token stripped of the delimiters that surround literals: braces,
/// parentheses, quotes, slashes and commas, then of white space.
pub open spec fn strip_delimiters(s: Seq<char>) -> Seq<char> {
    trim_white(
        trim_char(
            trim_char(
                trim_char(
                    trim_char(
                        trim_char(trim_char(trim_char(trim_char(s, '{'), '}'), ')'), '('),
                        '"',
                    ),
                    '/',
                ),
                ',',
            ),
            '}',
        ),
    )
}

/// Narrows the window `[lo, hi)` of `v` to what `trim_char` leaves of it.
fn trim_window(v: &Vec<char>, lo: usize, hi: usize, c: char) -> (r: (usize, usize))
    requires
        lo <= hi <= v@.len(),
    ensures
        lo <= r.0 <= r.1 <= hi,
        v@.subrange(r.0 as int, r.1 as int) == trim_char(v@.subrange(lo as int, hi as int), c),
{
    let mut a = lo;
    while a < hi && v[a] == c
        invariant
            lo <= a <= hi <= v@.len(),
            trim_start_char(v@.subrange(a as int, hi as int), c) == trim_start_char(
                v@.subrange(lo as int, hi as int),
                c,
            ),
        decreases hi - a,
    {
        assert(v@.subrange(a as int, hi as int).drop_first() =~= v@.subrange(
            a + 1,
            hi as int,
        ));
        a = a + 1;
    }
    let ghost started = v@.subrange(a as int, hi as int);
    assert(trim_start_char(started, c) == started);
    let mut b = hi;
    while b > a && v[b - 1] == c
        invariant
            lo <= a <= b <= hi <= v@.len(),
            trim_end_char(v@.subrange(a as int, b as int), c) == trim_end_char(started, c),
        decreases b - a,
    {
        assert(v@.subrange(a as int, b as int).drop_last() =~= v@.subrange(
            a as int,
            b - 1,
        ));
        b = b - 1;
    }
    (a, b)
}

/// Narrows the window `[lo, hi)` of `v` to what `trim_white` leaves of it.
fn trim_white_window(v: &Vec<char>, lo: usize, hi: usize) -> (r: (usize, usize))
    requires
        lo <= hi <= v@.len(),
    ensures
        lo <= r.0 <= r.1 <= hi,
        v@.subrange(r.0 as int, r.1 as int) == trim_white(v@.subrange(lo as int, hi as int)),
{
    let mut a = lo;
    while a < hi && is_white_char(v[a])
        invariant
            lo <= a <= hi <= v@.len(),
            trim_start_white(v@.subrange(a as int, hi as int)) == trim_start_white(
                v@.subrange(lo as int, hi as int),
            ),
        decreases hi - a,
    {
        assert(v@.subrange(a as int, hi as int).drop_first() =~= v@.subrange(
            a + 1,
            hi as int,
        ));
        a = a + 1;
    }
    let ghost started = v@.subrange(a as int, hi as int);
    assert(trim_start_white(started) == started);
    let mut b = hi;
    while b > a && is_white_char(v[b - 1])
        invariant
            lo <= a <= b <= hi <= v@.len(),
            trim_end_white(v@.subrange(a as int, b as int)) == trim_end_white(started),
        decreases b - a,
    {
        assert(v@.subrange(a as int, b as int).drop_last() =~= v@.subrange(
            a as int,
            b - 1,
        ));
        b = b - 1;
    }
    (a, b)
}

/// The window of `v` that `strip_delimiters` leaves.
pub(crate) fn delimiter_window(v: &Vec<char>) -> (r: (usize, usize))
    ensures
        r.0 <= r.1 <= v@.len(),
        v@.subrange(r.0 as int, r.1 as int) == strip_delimiters(v@),
{
    let ghost s = v@;
    assert(s.subrange(0, s.len() as int) =~= s);
    let (a, b) = trim_window(v, 0, v.len(), '{');
    let (a, b) = trim_window(v, a, b, '}');
    let (a, b) = trim_window(v, a, b, ')');
    let (a, b) = trim_window(v, a, b, '(');
    let (a, b) = trim_window(v, a, b, '"');
    let (a, b) = trim_window(v, a, b, '/');
    let (a, b) = trim_window(v, a, b, ',');
    let (a, b) = trim_window(v, a, b, '}');
    trim_white_window(v, a, b)
}

/// A copy of the characters `v[lo..hi]`.
pub(crate) fn slice_chars(v: &Vec<char>, lo: usize, hi: usize) -> (r: Vec<char>)
    requires
        lo <= hi <= v@.len(),
    ensures
        r@ == v@.subrange(lo as int, hi as int),
{
    let mut r: Vec<char> = Vec::new();
    let mut i = lo;
    while i < hi
        invariant
            lo <= i <= hi <= v@.len(),
            r@ == v@.subrange(lo as int, i as int),
        decreases hi - i,
    {
        r.push(v[i]);
        i = i + 1;
        assert(r@ =~= v@.subrange(lo as int, i as int));
    }
    r
}

/// The token with its delimiters stripped (see `strip_delimiters`).
pub(crate) fn strip_token(t: &Vec<char>) -> (r: Vec<char>)
    ensures
        r@ == strip_delimiters(t@),
{
    let (a, b) = delimiter_window(t);
    slice_chars(t, a, b)
}

/// The literal inside a token such as `{"texture.png"}},`: braces, parentheses,
/// quotes, leading and trailing slashes and commas, and white space are removed.
pub fn remove_brackets(v: &str) -> (r: &str)
    ensures
        r@ == strip_delimiters(v@),
{
    let c = chars_of(v);
    let (a, b) = delimiter_window(&c);
    v.substring_char(a, b)
}


/// The pieces of `s` between occurrences of `sep`, as `str::split` gives them:
/// there is one more piece than there are separators, and pieces may be empty.
pub open spec fn split_on(s: Seq<char>, sep: char) -> Seq<Seq<char>>
    decreases s.len(),
{
    if s.len() == 0 {
        seq![Seq::<char>::empty()]
    } else {
        let r = split_on(s.drop_last(), sep);
        if s.last() == sep {
            r.push(Seq::<char>::empty())
        } else {
            r.update(r.len() - 1, r.last().push(s.last()))
        }
    }
}

pub proof fn lemma_split_nonempty(s: Seq<char>, sep: char)
    ensures
        split_on(s, sep).len() >= 1,
    decreases s.len(),
{
    if s.len() > 0 {
        lemma_split_nonempty(s.drop_last(), sep);
    }
}

pub open spec fn views_of(v: Seq<Vec<char>>) -> Seq<Seq<char>> {
    v.map_values(|t: Vec<char>| t@)
}

/// The pieces of `v` between occurrences of `sep`.
pub(crate) fn split_chars(v: &Vec<char>, sep: char) -> (r: Vec<Vec<char>>)
    ensures
        views_of(r@) == split_on(v@, sep),
{
    let mut done: Vec<Vec<char>> = Vec::new();
    let mut cur: Vec<char> = Vec::new();
    let mut i: usize = 0;
    assert(v@.subrange(0, 0) =~= Seq::<char>::empty());
    assert(views_of(done@).push(cur@) =~= split_on(v@.subrange(0, 0), sep));
    while i < v.len()
        invariant
            i <= v@.len(),
            views_of(done@).push(cur@) == split_on(v@.subrange(0, i as int), sep),
        decreases v@.len() - i,
    {
        let ghost before = v@.subrange(0, i as int);
        let ghost after = v@.subrange(0, i + 1);
        assert(after.drop_last() =~= before);
        assert(after.last() == v@[i as int]);
        proof {
            lemma_split_nonempty(before, sep);
        }
        if v[i] == sep {
            done.push(cur);
            cur = Vec::new();
            assert(views_of(done@).push(cur@) =~= split_on(before, sep).push(
                Seq::<char>::empty(),
            ));
        } else {
            cur.push(v[i]);
            let ghost r = split_on(before, sep);
            assert(views_of(done@).push(cur@) =~= r.update(r.len() - 1, r.last().push(v@[i as int])));
        }
        i = i + 1;
    }
    assert(v@.subrange(0, v@.len() as int) =~= v@);
    done.push(cur);
    assert(views_of(done@) =~= split_on(v@, sep));
    done
}

/// Whether the token is exactly the word `w`.
pub(crate) fn is_word(t: &Vec<char>, w: &str) -> (r: bool)
    ensures
        r == (t@ == w@),
{
    let n = w.unicode_len();
    if t.len() != n {
        return false;
    }
    let mut i: usize = 0;
    while i < n
        invariant
            n == w@.len() == t@.len(),
            i <= n,
            forall|j: int| 0 <= j < i ==> t@[j] == w@[j],
        decreases n - i,
    {
        if t[i] != w.get_char(i) {
            return false;
        }
        i = i + 1;
    }
    assert(t@ =~= w@);
    true
}

/// Whether `k` occurs in `s` as a run of consecutive characters.
pub open spec fn contains_text(s: Seq<char>, k: Seq<char>) -> bool {
    exists|i: int| 0 <= i && i + k.len() <= s.len() && #[trigger] s.subrange(i, i + k.len()) == k
}

/// Whether `k` stands in `t` at position `i`.
fn matches_at(t: &Vec<char>, k: &Vec<char>, i: usize) -> (r: bool)
    requires
        i + k.len() <= t.len(),
    ensures
        r == (forall|q: int| 0 <= q < k@.len() ==> t@[i + q] == k@[q]),
{
    let mut m: usize = 0;
    while m < k.len()
        invariant
            i + k.len() <= t.len(),
            m <= k@.len(),
            forall|q: int| 0 <= q < m ==> t@[i + q] == k@[q],
        decreases k@.len() - m,
    {
        if t[i + m] != k[m] {
            return false;
        }
        m = m + 1;
    }
    true
}

pub(crate) fn contains_word(t: &Vec<char>, w: &str) -> (r: bool)
    ensures
        r == contains_text(t@, w@),
{
    let k = chars_of(w);
    if k.len() > t.len() {
        return false;
    }
    let mut i: usize = 0;
    while i <= t.len() - k.len()
        invariant
            k@ == w@,
            k@.len() <= t@.len(),
            i <= t@.len() - k@.len() + 1,
            forall|j: int| 0 <= j < i ==> #[trigger] t@.subrange(j, j + k@.len()) != k@,
        decreases t@.len() - i,
    {
        let same = matches_at(t, &k, i);
        if same {
            assert(t@.subrange(i as int, i + k@.len()) =~= k@);
            return true;
        }
        assert(t@.subrange(i as int, i + k@.len()) != k@) by {
            let q = choose|q: int| 0 <= q < k@.len() && t@[i + q] != k@[q];
            assert(t@.subrange(i as int, i + k@.len())[q] == t@[i + q]);
        }
        i = i + 1;
    }
    assert(!contains_text(t@, w@)) by {
        if exists|j: int| 0 <= j && j + k@.len() <= t@.len() && #[trigger] t@.subrange(j, j + k@.len()) == k@ {
            let j = choose|j: int| 0 <= j && j + k@.len() <= t@.len() && #[trigger] t@.subrange(j, j + k@.len()) == k@;
            assert(j < i);
        }
    }
    false
}

/// What follows the first occurrence of `c` in `s`, if it occurs.
pub open spec fn after_first(s: Seq<char>, c: char) -> Option<Seq<char>>
    decreases s.len(),
{
    if s.len() == 0 {
        None
    } else if s[0] == c {
        Some(s.drop_first())
    } else {
        after_first(s.drop_first(), c)
    }
}

/// The longest prefix of `s` without a brace.
pub open spec fn before_brace(s: Seq<char>) -> Seq<char>
    decreases s.len(),
{
    if s.len() == 0 || s[0] == '{' || s[0] == '}' {
        Seq::<char>::empty()
    } else {
        seq![s[0]] + before_brace(s.drop_first())
    }
}

/// The text of a token such as `{"z"}}` between its first opening brace and
/// the next brace; `None` where the token opens no brace.
pub open spec fn braced_value(t: Seq<char>) -> Option<Seq<char>> {
    match after_first(t, '{') {
        Some(rest) => Some(before_brace(rest)),
        None => None,
    }
}

/// The window of `t` that `braced_value` gives, if any.
fn braced_window(t: &Vec<char>) -> (r: Option<(usize, usize)>)
    ensures
        match r {
            Some((a, b)) => a <= b <= t@.len() && braced_value(t@) == Some(
                t@.subrange(a as int, b as int),
            ),
            None => braced_value(t@) is None,
        },
{
    let n = t.len();
    let mut p: usize = 0;
    assert(t@.subrange(0, n as int) =~= t@);
    while p < n && t[p] != '{'
        invariant
            p <= n == t@.len(),
            after_first(t@.subrange(p as int, n as int), '{') == after_first(t@, '{'),
        decreases n - p,
    {
        assert(t@.subrange(p as int, n as int).drop_first() =~= t@.subrange(p + 1, n as int));
        p = p + 1;
    }
    assert(t@.subrange(0, n as int) =~= t@);
    if p == n {
        return None;
    }
    assert(t@.subrange(p as int, n as int).drop_first() =~= t@.subrange(p + 1, n as int));
    let a = p + 1;
    let mut q = a;
    while q < n && t[q] != '{' && t[q] != '}'
        invariant
            a <= q <= n == t@.len(),
            before_brace(t@.subrange(a as int, n as int)) == t@.subrange(a as int, q as int)
                + before_brace(t@.subrange(q as int, n as int)),
        decreases n - q,
    {
        let ghost rest = t@.subrange(q as int, n as int);
        assert(rest.drop_first() =~= t@.subrange(q + 1, n as int));
        assert(t@.subrange(a as int, q + 1) =~= t@.subrange(a as int, q as int) + seq![rest[0]]);
        q = q + 1;
    }
    assert(t@.subrange(a as int, q as int) + Seq::<char>::empty() =~= t@.subrange(a as int, q as int));
    Some((a, q))
}

/// The braced text of the first token (see `braced_value`), or `None` where
/// there is no token or it opens no brace.
pub fn get_string_value<'a>(v: Vec<&'a str>) -> (r: Option<&'a str>)
    ensures
        v@.len() == 0 ==> r is None,
        v@.len() > 0 ==> match r {
            Some(x) => braced_value(v@[0]@) == Some(x@),
            None => braced_value(v@[0]@) is None,
        },
{
    if v.len() == 0 {
        return None;
    }
    let t: &'a str = v[0];
    let c = chars_of(t);
    match braced_window(&c) {
        Some((a, b)) => Some(t.substring_char(a, b)),
        None => None,
    }
}

/// The braced text of a token as characters (see `braced_value`).
pub(crate) fn braced_chars(t: &Vec<char>) -> (r: Option<Vec<char>>)
    ensures
        match r {
            Some(x) => braced_value(t@) == Some(x@),
            None => braced_value(t@) is None,
        },
{
    match braced_window(t) {
        Some((a, b)) => Some(slice_chars(t, a, b)),
        None => None,
    }
}


pub open spec fn is_digit(c: char) -> bool {
    0x30 <= (c as u32) <= 0x39
}

/// A nonempty run of decimal digits.
pub open spec fn is_digits(d: Seq<char>) -> bool {
    d.len() >= 1 && forall|i: int| 0 <= i < d.len() ==> is_digit(#[trigger] d[i])
}

/// `s` without one leading `+` or `-`.
pub open spec fn unsigned_part(s: Seq<char>) -> Seq<char> {
    if s.len() > 0 && (s[0] == '+' || s[0] == '-') {
        s.drop_first()
    } else {
        s
    }
}

pub open spec fn is_mantissa_char(c: char) -> bool {
    is_digit(c) || c == '.'
}

/// Digits with at most one decimal point, at least one digit among them.
pub open spec fn is_mantissa(m: Seq<char>) -> bool {
    &&& forall|i: int| 0 <= i < m.len() ==> is_mantissa_char(#[trigger] m[i])
    &&& forall|i: int, j: int|
        0 <= i < m.len() && 0 <= j < m.len() && #[trigger] m[i] == '.' && #[trigger] m[j] == '.'
            ==> i == j
    &&& exists|i: int| 0 <= i < m.len() && is_digit(#[trigger] m[i])
}

/// `e` or `E`, an optional sign, and digits.
pub open spec fn is_exponent(e: Seq<char>) -> bool {
    e.len() >= 1 && (e[0] == 'e' || e[0] == 'E') && is_digits(unsigned_part(e.drop_first()))
}

pub open spec fn is_decimal(s: Seq<char>) -> bool {
    exists|k: int|
        0 <= k <= s.len() && is_mantissa(#[trigger] s.subrange(0, k)) && (k == s.len()
            || is_exponent(s.subrange(k, s.len() as int)))
}

/// `s` is the word `w` (written in lower case) in any mix of cases.
pub open spec fn same_ignoring_case(s: Seq<char>, w: Seq<char>) -> bool {
    s.len() == w.len() && forall|i: int|
        0 <= i < s.len() ==> #[trigger] s[i] == w[i] || (s[i] as u32) + 32 == (w[i] as u32)
}

/// The grammar of the text that `f32::from_str` accepts, as its documentation
/// gives it: an optional sign, then `inf`, `infinity` or `nan` in any case, or
/// a decimal number with an optional exponent.
pub open spec fn is_float_text(s: Seq<char>) -> bool {
    let b = unsigned_part(s);
    same_ignoring_case(b, "inf"@) || same_ignoring_case(b, "infinity"@) || same_ignoring_case(
        b,
        "nan"@,
    ) || is_decimal(b)
}

fn is_digit_char(c: char) -> (r: bool)
    ensures
        r == is_digit(c),
{
    0x30 <= (c as u32) && (c as u32) <= 0x39
}

/// Whether `t[from..]` is a nonempty run of digits.
fn digits_from(t: &Vec<char>, from: usize) -> (r: bool)
    requires
        from <= t@.len(),
    ensures
        r == is_digits(t@.subrange(from as int, t@.len() as int)),
{
    let n = t.len();
    if from >= n {
        return false;
    }
    let mut i = from;
    while i < n
        invariant
            from <= i <= n == t@.len(),
            forall|j: int| from <= j < i ==> is_digit(#[trigger] t@[j]),
        decreases n - i,
    {
        if !is_digit_char(t[i]) {
            assert(!is_digit(t@.subrange(from as int, n as int)[i - from]));
            return false;
        }
        i = i + 1;
    }
    assert forall|j: int| 0 <= j < t@.subrange(from as int, n as int).len() implies is_digit(
        #[trigger] t@.subrange(from as int, n as int)[j],
    ) by {
        assert(is_digit(t@[from + j]));
    }
    true
}

fn same_ignoring_case_at(t: &Vec<char>, from: usize, w: &str) -> (r: bool)
    requires
        from <= t@.len(),
    ensures
        r == same_ignoring_case(t@.subrange(from as int, t@.len() as int), w@),
{
    let n = w.unicode_len();
    if t.len() - from != n {
        return false;
    }
    let ghost s = t@.subrange(from as int, t@.len() as int);
    let mut i: usize = 0;
    while i < n
        invariant
            n == w@.len() == s.len(),
            from + n == t.len(),
            s == t@.subrange(from as int, t@.len() as int),
            i <= n,
            forall|j: int| 0 <= j < i ==> #[trigger] s[j] == w@[j] || (s[j] as u32) + 32 == (
            w@[j] as u32),
        decreases n - i,
    {
        let c = t[from + i];
        let d = w.get_char(i);
        assert(s[i as int] == c);
        if c != d && (c as u32) as u64 + 32 != (d as u32) as u64 {
            return false;
        }
        i = i + 1;
    }
    true
}

proof fn lemma_decimal_split(s: Seq<char>, k: int)
    requires
        0 <= k <= s.len(),
        forall|i: int| 0 <= i < k ==> is_mantissa_char(#[trigger] s[i]),
        k == s.len() || !is_mantissa_char(s[k]),
    ensures
        is_decimal(s) == (is_mantissa(s.subrange(0, k)) && (k == s.len() || is_exponent(
            s.subrange(k, s.len() as int),
        ))),
{
    if is_decimal(s) {
        let k2 = choose|k2: int|
            0 <= k2 <= s.len() && is_mantissa(#[trigger] s.subrange(0, k2)) && (k2 == s.len()
                || is_exponent(s.subrange(k2, s.len() as int)));
        if k2 < k {
            assert(s.subrange(k2, s.len() as int)[0] == s[k2]);
            assert(is_mantissa_char(s[k2]));
        } else if k2 > k {
            assert(s.subrange(0, k2)[k] == s[k]);
            assert(is_mantissa_char(s.subrange(0, k2)[k]));
        }
    }
}

/// Whether the token is text that `f32::from_str` accepts (see `is_float_text`).
pub fn is_float_token(t: &Vec<char>) -> (r: bool)
    ensures
        r == is_float_text(t@),
{
    let n = t.len();
    let start: usize = if n > 0 && (t[0] == '+' || t[0] == '-') {
        1
    } else {
        0
    };
    let ghost b = unsigned_part(t@);
    assert(b =~= t@.subrange(start as int, n as int));
    if same_ignoring_case_at(t, start, "inf") || same_ignoring_case_at(t, start, "infinity")
        || same_ignoring_case_at(t, start, "nan") {
        return true;
    }
    let mut k = start;
    let mut dots: usize = 0;
    let mut digits: usize = 0;
    while k < n && (is_digit_char(t[k]) || t[k] == '.')
        invariant
            start <= k <= n == t@.len(),
            b == t@.subrange(start as int, n as int),
            forall|i: int| 0 <= i < k - start ==> is_mantissa_char(#[trigger] b[i]),
            dots <= k - start,
            digits <= k - start,
            dots == 0 ==> forall|i: int| 0 <= i < k - start ==> #[trigger] b[i] != '.',
            dots == 1 ==> exists|i: int| 0 <= i < k - start && #[trigger] b[i] == '.' && forall|
                j: int,
            |
                0 <= j < k - start && #[trigger] b[j] == '.' ==> j == i,
            dots >= 2 ==> exists|i: int, j: int|
                0 <= i < j < k - start && #[trigger] b[i] == '.' && #[trigger] b[j] == '.',
            digits == 0 ==> forall|i: int| 0 <= i < k - start ==> !is_digit(#[trigger] b[i]),
            digits > 0 ==> exists|i: int| 0 <= i < k - start && is_digit(#[trigger] b[i]),
        decreases n - k,
    {
        assert(b[k - start] == t@[k as int]);
        if t[k] == '.' {
            if dots == 1 {
                let ghost i0 = choose|i: int|
                    0 <= i < k - start && #[trigger] b[i] == '.' && forall|j: int|
                        0 <= j < k - start && #[trigger] b[j] == '.' ==> j == i;
                assert(b[i0] == '.' && b[k - start] == '.');
            }
            if dots < 2 {
                dots = dots + 1;
            }
        } else {
            if digits < 1 {
                digits = digits + 1;
            }
        }
        k = k + 1;
    }
    let ghost m = k - start;
    proof {
        if m < b.len() {
            assert(b[m] == t@[k as int]);
        }
        lemma_decimal_split(b, m);
        assert(b.subrange(0, m).len() == m);
        assert forall|i: int| 0 <= i < m implies b.subrange(0, m)[i] == b[i] by {}
    }
    let mant_ok = dots <= 1 && digits > 0;
    assert(mant_ok == is_mantissa(b.subrange(0, m))) by {
        let bm = b.subrange(0, m);
        if dots >= 2 {
            let (i, j) = choose|i: int, j: int|
                0 <= i < j < k - start && #[trigger] b[i] == '.' && #[trigger] b[j] == '.';
            assert(bm[i] == '.' && bm[j] == '.');
        }
        if digits == 0 {
            if exists|i: int| 0 <= i < m && is_digit(#[trigger] bm[i]) {
                let i = choose|i: int| 0 <= i < m && is_digit(#[trigger] bm[i]);
                assert(bm[i] == b[i]);
            }
        }
        if mant_ok {
            if dots == 1 {
                let i0 = choose|i: int|
                    0 <= i < k - start && #[trigger] b[i] == '.' && forall|j: int|
                        0 <= j < k - start && #[trigger] b[j] == '.' ==> j == i;
                assert forall|i: int, j: int|
                    0 <= i < m && 0 <= j < m && #[trigger] bm[i] == '.' && #[trigger] bm[j]
                        == '.' implies i == j by {
                    assert(bm[i] == b[i] && bm[j] == b[j]);
                }
            } else {
                assert forall|i: int, j: int|
                    0 <= i < m && 0 <= j < m && #[trigger] bm[i] == '.' && #[trigger] bm[j]
                        == '.' implies i == j by {
                    assert(bm[i] == b[i]);
                }
            }
            let i = choose|i: int| 0 <= i < k - start && is_digit(#[trigger] b[i]);
            assert(bm[i] == b[i]);
        }
    }
    if !mant_ok {
        return false;
    }
    if k == n {
        return true;
    }
    if t[k] != 'e' && t[k] != 'E' {
        return false;
    }
    let ghost e = b.subrange(m, b.len() as int);
    assert(e[0] == t@[k as int]);
    let es: usize = if k + 1 < n && (t[k + 1] == '+' || t[k + 1] == '-') {
        k + 2
    } else {
        k + 1
    };
    assert(unsigned_part(e.drop_first()) =~= t@.subrange(es as int, n as int));
    digits_from(t, es)
}

/// The value of a run of decimal digits.
pub open spec fn digits_value(d: Seq<char>) -> nat
    decreases d.len(),
{
    if d.len() == 0 {
        0
    } else {
        digits_value(d.drop_last()) * 10 + ((d.last() as u32) - 0x30) as nat
    }
}

proof fn lemma_digits_value_prefix(d: Seq<char>, i: int)
    requires
        0 <= i <= d.len(),
        forall|j: int| 0 <= j < d.len() ==> is_digit(#[trigger] d[j]),
    ensures
        digits_value(d.subrange(0, i)) <= digits_value(d),
    decreases d.len() - i,
{
    if i < d.len() {
        lemma_digits_value_prefix(d, i + 1);
        assert(d.subrange(0, i + 1).drop_last() =~= d.subrange(0, i));
    } else {
        assert(d.subrange(0, i) =~= d);
    }
}

/// The value of the digits `t[from..]`, or `None` where they are not a nonempty
/// run of digits or their value exceeds `limit`.
fn digits_at_most(t: &Vec<char>, from: usize, limit: u64) -> (r: Option<u64>)
    requires
        from <= t@.len(),
        limit <= u32::MAX + 1,
    ensures
        ({
            let d = t@.subrange(from as int, t@.len() as int);
            match r {
                Some(v) => is_digits(d) && digits_value(d) <= limit && v == digits_value(d),
                None => !is_digits(d) || digits_value(d) > limit,
            }
        }),
{
    if !digits_from(t, from) {
        return None;
    }
    let n = t.len();
    let ghost d = t@.subrange(from as int, n as int);
    let mut v: u64 = 0;
    let mut i = from;
    assert(d.subrange(0, 0) =~= Seq::<char>::empty());
    while i < n
        invariant
            from <= i <= n == t@.len(),
            d == t@.subrange(from as int, n as int),
            is_digits(d),
            v <= limit,
            limit <= u32::MAX + 1,
            v == digits_value(d.subrange(0, i - from)),
        decreases n - i,
    {
        assert(d.subrange(0, i - from + 1).drop_last() =~= d.subrange(0, i - from));
        assert(d.subrange(0, i - from + 1).last() == t@[i as int]);
        assert(is_digit(d[i - from]));
        let dig = (t[i] as u32 - 0x30) as u64;
        let next = v * 10 + dig;
        if next > limit {
            proof {
                lemma_digits_value_prefix(d, i - from + 1);
            }
            return None;
        }
        v = next;
        i = i + 1;
    }
    assert(d.subrange(0, n - from) =~= d);
    Some(v)
}

/// The value `u32::from_str` gives: an optional `+`, then digits whose value fits.
pub open spec fn u32_value(t: Seq<char>) -> Option<u32> {
    let d = if t.len() > 0 && t[0] == '+' {
        t.drop_first()
    } else {
        t
    };
    if is_digits(d) && digits_value(d) <= u32::MAX {
        Some(digits_value(d) as u32)
    } else {
        None
    }
}

/// The value `i32::from_str` gives: an optional sign, then digits whose signed
/// value fits.
pub open spec fn i32_value(t: Seq<char>) -> Option<i32> {
    let d = unsigned_part(t);
    let negative = t.len() > 0 && t[0] == '-';
    if !is_digits(d) {
        None
    } else if negative && digits_value(d) <= 0x8000_0000 {
        Some((-digits_value(d)) as i32)
    } else if !negative && digits_value(d) <= i32::MAX {
        Some(digits_value(d) as i32)
    } else {
        None
    }
}

pub fn parse_u32(t: &Vec<char>) -> (r: Option<u32>)
    ensures
        r == u32_value(t@),
{
    let from: usize = if t.len() > 0 && t[0] == '+' {
        1
    } else {
        0
    };
    assert(t@.subrange(from as int, t@.len() as int) =~= (if t@.len() > 0 && t@[0] == '+' {
        t@.drop_first()
    } else {
        t@
    }));
    match digits_at_most(t, from, 0xFFFF_FFFF) {
        Some(v) => Some(v as u32),
        None => None,
    }
}

pub fn parse_i32(t: &Vec<char>) -> (r: Option<i32>)
    ensures
        r == i32_value(t@),
{
    let signed = t.len() > 0 && (t[0] == '+' || t[0] == '-');
    let negative = t.len() > 0 && t[0] == '-';
    let from: usize = if signed {
        1
    } else {
        0
    };
    assert(t@.subrange(from as int, t@.len() as int) =~= unsigned_part(t@));
    if negative {
        match digits_at_most(t, from, 0x8000_0000) {
            Some(v) => Some((0 - (v as i64)) as i32),
            None => None,
        }
    } else {
        match digits_at_most(t, from, 0x7FFF_FFFF) {
            Some(v) => Some(v as i32),
            None => None,
        }
    }
}


/// A first token that names a typed array (`float[2]`, `float[3]`,
/// `unsigned_int32[3]`) with punctuation around it.
pub open spec fn is_array_header(t: Seq<char>) -> bool {
    contains_text(t, "float[2]"@) || contains_text(t, "float[3]"@) || contains_text(
        t,
        "unsigned_int32[3]"@,
    )
}

/// The tokens of a line: the line without surrounding white space, split at
/// each single space, the first token stripped of delimiters where it names
/// a typed array.
pub open spec fn line_tokens(line: Seq<char>) -> Seq<Seq<char>> {
    let v = split_on(trim_white(line), ' ');
    if is_array_header(v[0]) {
        v.update(0, strip_delimiters(v[0]))
    } else {
        v
    }
}

pub fn tokenize(line: &str) -> (r: Vec<Vec<char>>)
    ensures
        views_of(r@) == line_tokens(line@),
        r@.len() >= 1,
{
    let c = chars_of(line);
    let (a, b) = trim_white_window(&c, 0, c.len());
    assert(c@.subrange(0, c@.len() as int) =~= c@);
    let trimmed = slice_chars(&c, a, b);
    let mut v = split_chars(&trimmed, ' ');
    proof {
        lemma_split_nonempty(trimmed@, ' ');
    }
    assert(v@.len() >= 1);
    if contains_word(&v[0], "float[2]") || contains_word(&v[0], "float[3]") || contains_word(
        &v[0],
        "unsigned_int32[3]",
    ) {
        let first = strip_token(&v[0]);
        v.set(0, first);
        assert(views_of(v@) =~= split_on(trimmed@, ' ').update(0, strip_delimiters(split_on(trimmed@, ' ')[0])));
    }
    v
}


/// Whether `char::is_numeric` holds of `c`: the Unicode general categories
/// `Nd`, `Nl` and `No`.
pub uninterp spec fn numeric_char(c: char) -> bool;

/// Relies on `char::is_numeric`, which holds of the ASCII digits among others.
#[verifier::external_body]
pub(crate) fn is_numeric_char(c: char) -> (r: bool)
    ensures
        r == numeric_char(c),
        is_digit(c) ==> r,
{
    c.is_numeric()
}

} // verus!
