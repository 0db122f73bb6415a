//! Verified text utilities: the report pipeline works on command output as
//! plain text, so splitting, trimming, searching and formatting are all
//! specified over `Seq<char>` views and proved here.

use vstd::prelude::*;

verus! {

/// The views of a vector of strings, as a sequence of character sequences.
pub open spec fn views_of(v: Seq<String>) -> Seq<Seq<char>> {
    v.map_values(|t: String| t@)
}

/// ASCII whitespace. Command output handled here is ASCII, so the exotic
/// Unicode space characters are deliberately not treated as separators.
pub open spec fn is_ws_char(c: char) -> bool {
    c == ' ' || c == '\t' || c == '\n' || c == '\r'
}

/// Runtime test for [`is_ws_char`].
pub fn ws_char(c: char) -> (b: bool)
    ensures
        b == is_ws_char(c),
{
    c == ' ' || c == '\t' || c == '\n' || c == '\r'
}

/// Index of the first occurrence of `c` in `s`, or -1 if `c` does not occur.
pub open spec fn find_first(s: Seq<char>, c: char) -> int
    decreases s.len(),
{
    if s.len() == 0 {
        -1
    } else if s[0] == c {
        0
    } else {
        let r = find_first(s.drop_first(), c);
        if r < 0 {
            -1
        } else {
            r + 1
        }
    }
}

/// What `find_first` returns: the least index holding `c`, or -1.
pub proof fn lemma_find_first(s: Seq<char>, c: char)
    ensures
        find_first(s, c) == -1 ==> forall|i: int| 0 <= i < s.len() ==> s[i] != c,
        find_first(s, c) != -1 ==> {
            let k = find_first(s, c);
            &&& 0 <= k < s.len()
            &&& s[k] == c
            &&& forall|i: int| 0 <= i < k ==> s[i] != c
        },
    decreases s.len(),
{
    if s.len() > 0 && s[0] != c {
        lemma_find_first(s.drop_first(), c);
        assert(forall|j: int| 0 <= j < s.drop_first().len() ==> s.drop_first()[j] == s[j + 1]);
        assert forall|i: int| 0 <= i < s.len() && s[i] == c implies find_first(s, c) != -1 by {
            if i > 0 {
                assert(s.drop_first()[i - 1] == c);
            }
        }
        if find_first(s, c) != -1 {
            let k = find_first(s, c);
            assert(s.drop_first()[k - 1] == c);
            assert forall|i: int| 0 <= i < k implies s[i] != c by {
                if i > 0 {
                    assert(s.drop_first()[i - 1] != c);
                }
            }
        }
    }
}

/// `find_first` from a witness: `k` is an occurrence of `c` preceded by none.
pub proof fn lemma_find_first_at(s: Seq<char>, c: char, k: int)
    requires
        0 <= k < s.len(),
        s[k] == c,
        forall|i: int| 0 <= i < k ==> s[i] != c,
    ensures
        find_first(s, c) == k,
    decreases s.len(),
{
    if k > 0 {
        lemma_find_first_at(s.drop_first(), c, k - 1);
    }
}

/// `find_first` when `c` occurs nowhere in `s`.
pub proof fn lemma_find_first_none(s: Seq<char>, c: char)
    requires
        forall|i: int| 0 <= i < s.len() ==> s[i] != c,
    ensures
        find_first(s, c) == -1,
    decreases s.len(),
{
    if s.len() > 0 {
        lemma_find_first_none(s.drop_first(), c);
    }
}

/// The decimal digit character for `d`.
pub open spec fn digit_char(d: int) -> char {
    if d == 0 {
        '0'
    } else if d == 1 {
        '1'
    } else if d == 2 {
        '2'
    } else if d == 3 {
        '3'
    } else if d == 4 {
        '4'
    } else if d == 5 {
        '5'
    } else if d == 6 {
        '6'
    } else if d == 7 {
        '7'
    } else if d == 8 {
        '8'
    } else {
        '9'
    }
}

/// Decimal representation of a non-negative integer, most significant digit
/// first, with no leading zeros (a single `'0'` for zero).
pub open spec fn decimal_digits(n: int) -> Seq<char>
    decreases n,
{
    if n < 10 {
        seq![digit_char(n)]
    } else {
        decimal_digits(n / 10).push(digit_char(n % 10))
    }
}

fn digit_str(d: u64) -> (r: &'static str)
    requires
        d < 10,
    ensures
        r@ == seq![digit_char(d as int)],
{
    proof {
        reveal_strlit("0");
        reveal_strlit("1");
        reveal_strlit("2");
        reveal_strlit("3");
        reveal_strlit("4");
        reveal_strlit("5");
        reveal_strlit("6");
        reveal_strlit("7");
        reveal_strlit("8");
        reveal_strlit("9");
    }
    let r = match d {
        0 => "0",
        1 => "1",
        2 => "2",
        3 => "3",
        4 => "4",
        5 => "5",
        6 => "6",
        7 => "7",
        8 => "8",
        _ => "9",
    };
    proof {
        assert(r@ =~= seq![digit_char(d as int)]);
    }
    r
}

/// `s` with leading whitespace removed.
pub open spec fn trim_start_rec(s: Seq<char>) -> Seq<char>
    decreases s.len(),
{
    if s.len() > 0 && is_ws_char(s.first()) {
        trim_start_rec(s.drop_first())
    } else {
        s
    }
}

/// `s` with trailing whitespace removed.
pub open spec fn trim_end_rec(s: Seq<char>) -> Seq<char>
    decreases s.len(),
{
    if s.len() > 0 && is_ws_char(s.last()) {
        trim_end_rec(s.drop_last())
    } else {
        s
    }
}

/// `s` with whitespace removed from both ends.
pub open spec fn trimmed(s: Seq<char>) -> Seq<char> {
    trim_end_rec(trim_start_rec(s))
}

/// Trims whitespace from both ends, as [`trimmed`] describes.
pub fn trim_str(s: &str) -> (r: String)
    ensures
        r@ == trimmed(s@),
{
    let n = s.unicode_len();
    let mut a: usize = 0;
    proof {
        assert(s@.skip(0) =~= s@);
    }
    while a < n && ws_char(s.get_char(a))
        invariant
            a <= n,
            n == s@.len(),
            trim_start_rec(s@) == trim_start_rec(s@.skip(a as int)),
        decreases n - a,
    {
        proof {
            let t = s@.skip(a as int);
            assert(t.first() == s@[a as int]);
            assert(t.drop_first() =~= s@.skip(a + 1));
        }
        a = a + 1;
    }
    proof {
        let t = s@.skip(a as int);
        if a < n {
            assert(t.first() == s@[a as int]);
        }
        assert(trim_start_rec(t) == t);
        assert(s@.subrange(a as int, n as int) =~= t);
    }
    let mut b: usize = n;
    while b > a && ws_char(s.get_char(b - 1))
        invariant
            a <= b <= n,
            n == s@.len(),
            trim_end_rec(s@.skip(a as int)) == trim_end_rec(s@.subrange(a as int, b as int)),
        decreases b,
    {
        proof {
            let u = s@.subrange(a as int, b as int);
            assert(u.last() == s@[b - 1]);
            assert(u.drop_last() =~= s@.subrange(a as int, b - 1));
        }
        b = b - 1;
    }
    proof {
        let u = s@.subrange(a as int, b as int);
        if b > a {
            assert(u.last() == s@[b - 1]);
        }
        assert(trim_end_rec(u) == u);
    }
    s.substring_char(a, b).to_owned()
}

/// Index of the first whitespace character in `s`, or -1 if there is none.
pub open spec fn first_ws(s: Seq<char>) -> int
    decreases s.len(),
{
    if s.len() == 0 {
        -1
    } else if is_ws_char(s[0]) {
        0
    } else {
        let r = first_ws(s.drop_first());
        if r < 0 {
            -1
        } else {
            r + 1
        }
    }
}

/// `first_ws` from a witness: `k` holds whitespace, nothing before it does.
pub proof fn lemma_first_ws_at(s: Seq<char>, k: int)
    requires
        0 <= k < s.len(),
        is_ws_char(s[k]),
        forall|i: int| 0 <= i < k ==> !is_ws_char(s[i]),
    ensures
        first_ws(s) == k,
    decreases s.len(),
{
    if k > 0 {
        lemma_first_ws_at(s.drop_first(), k - 1);
    }
}

/// `first_ws` when `s` holds no whitespace at all.
pub proof fn lemma_first_ws_none(s: Seq<char>)
    requires
        forall|i: int| 0 <= i < s.len() ==> !is_ws_char(s[i]),
    ensures
        first_ws(s) == -1,
    decreases s.len(),
{
    if s.len() > 0 {
        lemma_first_ws_none(s.drop_first());
    }
}

/// Range of `first_ws`: -1, or a whitespace position preceded by none.
pub proof fn lemma_first_ws(s: Seq<char>)
    ensures
        first_ws(s) == -1 || (0 <= first_ws(s) < s.len() && is_ws_char(s[first_ws(s)])),
        first_ws(s) != 0 ==> s.len() == 0 || !is_ws_char(s[0]),
    decreases s.len(),
{
    if s.len() > 0 && !is_ws_char(s[0]) {
        lemma_first_ws(s.drop_first());
    }
}

/// The maximal non-whitespace tokens of `s`, in order, separators dropped.
pub open spec fn ws_split(s: Seq<char>) -> Seq<Seq<char>>
    decreases s.len(),
    via ws_split_decreases
{
    if s.len() == 0 {
        Seq::empty()
    } else if is_ws_char(s[0]) {
        ws_split(s.drop_first())
    } else {
        let k = if first_ws(s) < 0 {
            s.len() as int
        } else {
            first_ws(s)
        };
        seq![s.take(k)] + ws_split(s.skip(k))
    }
}

#[via_fn]
proof fn ws_split_decreases(s: Seq<char>) {
    lemma_first_ws(s);
}

/// Splits `s` into whitespace-separated tokens, as [`ws_split`] describes.
pub fn split_whitespace_vec(s: &str) -> (r: Vec<String>)
    ensures
        views_of(r@) == ws_split(s@),
{
    let n = s.unicode_len();
    let mut r: Vec<String> = Vec::new();
    let mut i: usize = 0;
    proof {
        assert(views_of(r@) =~= Seq::<Seq<char>>::empty());
        assert(s@.skip(0) =~= s@);
    }
    while i < n
        invariant
            i <= n,
            n == s@.len(),
            ws_split(s@) == views_of(r@) + ws_split(s@.skip(i as int)),
        decreases n - i,
    {
        if ws_char(s.get_char(i)) {
            proof {
                let t = s@.skip(i as int);
                assert(t[0] == s@[i as int]);
                assert(t.drop_first() =~= s@.skip(i + 1));
            }
            i = i + 1;
        } else {
            let start = i;
            i = i + 1;
            while i < n && !ws_char(s.get_char(i))
                invariant
                    start < i <= n,
                    n == s@.len(),
                    forall|j: int| start <= j < i ==> !is_ws_char(s@[j]),
                decreases n - i,
            {
                i = i + 1;
            }
            let seg = s.substring_char(start, i).to_owned();
            proof {
                let t = s@.skip(start as int);
                assert(forall|j: int| 0 <= j < t.len() ==> t[j] == s@[start + j]);
                let k = i - start;
                if i < n {
                    lemma_first_ws_at(t, k as int);
                } else {
                    lemma_first_ws_none(t);
                }
                assert(t.take(k as int) =~= s@.subrange(start as int, i as int));
                assert(t.skip(k as int) =~= s@.skip(i as int));
                assert(ws_split(t) == seq![seg@] + ws_split(s@.skip(i as int)));
            }
            let ghost old_views = views_of(r@);
            r.push(seg);
            proof {
                assert(views_of(r@) =~~= old_views.push(seg@));
                assert(old_views.push(seg@) =~~= old_views + seq![seg@]);
                assert((old_views + seq![seg@]) + ws_split(s@.skip(i as int)) =~~= old_views + (
                seq![seg@] + ws_split(s@.skip(i as int))));
            }
        }
    }
    proof {
        assert(s@.skip(i as int) =~= Seq::<char>::empty());
        assert(views_of(r@) + ws_split(s@.skip(i as int)) =~~= views_of(r@));
    }
    r
}

/// Drops one trailing carriage return, if present.
pub open spec fn strip_cr(s: Seq<char>) -> Seq<char> {
    if s.len() > 0 && s.last() == '\r' {
        s.drop_last()
    } else {
        s
    }
}

/// The lines of `s`: segments between `'\n'` separators, each with one
/// trailing `'\r'` removed. A final line break does not open an extra empty
/// line, and a last segment without a line break keeps any `'\r'` it ends in.
pub open spec fn line_split(s: Seq<char>) -> Seq<Seq<char>>
    decreases s.len(),
    via line_split_decreases
{
    if s.len() == 0 {
        Seq::empty()
    } else {
        let k = find_first(s, '\n');
        if k < 0 {
            seq![s]
        } else {
            seq![strip_cr(s.take(k))] + line_split(s.skip(k + 1))
        }
    }
}

#[via_fn]
proof fn line_split_decreases(s: Seq<char>) {
    lemma_find_first(s, '\n');
}

/// Splits `s` into its lines, as [`line_split`] describes.
pub fn split_lines(s: &str) -> (r: Vec<String>)
    ensures
        views_of(r@) == line_split(s@),
{
    let n = s.unicode_len();
    let mut r: Vec<String> = Vec::new();
    let mut start: usize = 0;
    let mut i: usize = 0;
    proof {
        assert(views_of(r@) =~= Seq::<Seq<char>>::empty());
        assert(s@.skip(0) =~= s@);
    }
    while i < n
        invariant
            start <= i <= n,
            n == s@.len(),
            forall|j: int| start <= j < i ==> s@[j] != '\n',
            line_split(s@) == views_of(r@) + line_split(s@.skip(start as int)),
        decreases n - i,
    {
        if s.get_char(i) == '\n' {
            let end = if i > start && s.get_char(i - 1) == '\r' {
                i - 1
            } else {
                i
            };
            let seg = s.substring_char(start, end).to_owned();
            proof {
                let t = s@.skip(start as int);
                let k = i - start;
                assert(forall|j: int| 0 <= j < t.len() ==> t[j] == s@[start + j]);
                lemma_find_first_at(t, '\n', k as int);
                assert(t.take(k as int) =~= s@.subrange(start as int, i as int));
                assert(strip_cr(t.take(k as int)) =~= seg@);
                assert(t.skip(k + 1) =~= s@.skip(i + 1));
                assert(line_split(t) == seq![seg@] + line_split(s@.skip(i + 1)));
            }
            let ghost old_views = views_of(r@);
            r.push(seg);
            proof {
                assert(views_of(r@) =~~= old_views.push(seg@));
                assert(old_views.push(seg@) =~~= old_views + seq![seg@]);
                assert((old_views + seq![seg@]) + line_split(s@.skip(i + 1)) =~~= old_views + (
                seq![seg@] + line_split(s@.skip(i + 1))));
            }
            start = i + 1;
        }
        i = i + 1;
    }
    if start < n {
        let seg = s.substring_char(start, n).to_owned();
        proof {
            let t = s@.skip(start as int);
            assert(forall|j: int| 0 <= j < t.len() ==> t[j] == s@[start + j]);
            lemma_find_first_none(t, '\n');
            assert(t =~= seg@);
            assert(line_split(t) == seq![seg@]);
        }
        let ghost old_views = views_of(r@);
        r.push(seg);
        proof {
            assert(views_of(r@) =~~= old_views.push(seg@));
            assert(old_views.push(seg@) =~~= old_views + seq![seg@]);
        }
    } else {
        proof {
            assert(s@.skip(start as int) =~= Seq::<char>::empty());
            assert(views_of(r@) + line_split(s@.skip(start as int)) =~~= views_of(r@));
        }
    }
    r
}

/// The elements of `v` concatenated, with `sep` between neighbours.
pub open spec fn joined_with(v: Seq<Seq<char>>, sep: Seq<char>) -> Seq<char>
    decreases v.len(),
{
    if v.len() == 0 {
        Seq::empty()
    } else if v.len() == 1 {
        v[0]
    } else {
        v[0] + sep + joined_with(v.drop_first(), sep)
    }
}

/// Appending one element extends the joined text by a separator and it.
pub proof fn lemma_joined_with_push(v: Seq<Seq<char>>, sep: Seq<char>, x: Seq<char>)
    requires
        v.len() >= 1,
    ensures
        joined_with(v.push(x), sep) == joined_with(v, sep) + sep + x,
    decreases v.len(),
{
    if v.len() == 1 {
        assert(v.push(x).drop_first() =~~= seq![x]);
        assert(v.push(x)[0] == v[0]);
        assert(seq![x].len() == 1 && seq![x][0] == x);
        assert(joined_with(seq![x], sep) == x);
        assert(joined_with(v.push(x), sep) == v[0] + sep + x);
        assert(joined_with(v, sep) == v[0]);
    } else {
        assert(v.push(x).drop_first() =~~= v.drop_first().push(x));
        assert(v.push(x)[0] == v[0]);
        lemma_joined_with_push(v.drop_first(), sep, x);
        assert(v[0] + sep + (joined_with(v.drop_first(), sep) + sep + x) =~= (v[0] + sep
            + joined_with(v.drop_first(), sep)) + sep + x);
    }
}

/// Joins the strings of `v` with `sep`, as [`joined_with`] describes.
pub fn join_with(v: &Vec<String>, sep: &str) -> (r: String)
    ensures
        r@ == joined_with(views_of(v@), sep@),
{
    if v.len() == 0 {
        return String::new();
    }
    let mut out = v[0].clone();
    proof {
        assert(views_of(v@).take(1) =~~= seq![views_of(v@)[0]]);
    }
    let mut i: usize = 1;
    while i < v.len()
        invariant
            1 <= i <= v@.len(),
            out@ == joined_with(views_of(v@).take(i as int), sep@),
        decreases v@.len() - i,
    {
        out.append(sep);
        out.append(v[i].as_str());
        proof {
            let w = views_of(v@);
            assert(w.take(i + 1) =~~= w.take(i as int).push(w[i as int]));
            lemma_joined_with_push(w.take(i as int), sep@, w[i as int]);
        }
        i = i + 1;
    }
    proof {
        assert(views_of(v@).take(v@.len() as int) =~~= views_of(v@));
    }
    out
}

/// An explicit affirmative answer: exactly `y` once trimmed. Anything else
/// declines.
pub open spec fn affirmative(answer: Seq<char>) -> bool {
    trimmed(answer) == "y"@
}

/// Runtime test for [`affirmative`].
pub fn is_affirmative(answer: &str) -> (b: bool)
    ensures
        b == affirmative(answer@),
{
    let t = trim_str(answer);
    t.eq(&"y".to_owned())
}

/// Whether one of the strings of `v` reads as `x`.
pub fn contains_string(v: &Vec<String>, x: &String) -> (b: bool)
    ensures
        b == views_of(v@).contains(x@),
{
    let mut i: usize = 0;
    while i < v.len()
        invariant
            i <= v@.len(),
            forall|j: int| 0 <= j < i ==> views_of(v@)[j] != x@,
        decreases v@.len() - i,
    {
        if v[i].eq(x) {
            proof {
                assert(views_of(v@)[i as int] == x@);
            }
            return true;
        }
        i = i + 1;
    }
    false
}

/// `t` occurs in `s` starting at position `i`.
pub open spec fn has_substring_at(s: Seq<char>, t: Seq<char>, i: int) -> bool {
    0 <= i && i + t.len() <= s.len() && s.subrange(i, i + t.len()) == t
}

/// `t` occurs somewhere in `s`.
pub open spec fn contains_seq(s: Seq<char>, t: Seq<char>) -> bool {
    exists|i: int| has_substring_at(s, t, i)
}

/// Substring search, as [`contains_seq`] describes.
pub fn contains_str(s: &str, t: &str) -> (b: bool)
    ensures
        b == contains_seq(s@, t@),
{
    let n = s.unicode_len();
    let m = t.unicode_len();
    if m > n {
        return false;
    }
    let mut i: usize = 0;
    while i <= n - m
        invariant
            m <= n,
            n == s@.len(),
            m == t@.len(),
            i <= n - m + 1,
            forall|j: int| 0 <= j < i ==> !has_substring_at(s@, t@, j),
        decreases n - m - i + 1,
    {
        let mut k: usize = 0;
        while k < m && s.get_char(i + k) == t.get_char(k)
            invariant
                k <= m,
                i + m <= n,
                n == s@.len(),
                m == t@.len(),
                forall|j: int| 0 <= j < k ==> s@[i + j] == t@[j],
            decreases m - k,
        {
            k = k + 1;
        }
        if k == m {
            proof {
                assert(s@.subrange(i as int, i + m) =~= t@);
                assert(has_substring_at(s@, t@, i as int));
            }
            return true;
        }
        proof {
            assert(!has_substring_at(s@, t@, i as int)) by {
                if has_substring_at(s@, t@, i as int) {
                    assert(s@.subrange(i as int, i + m)[k as int] == t@[k as int]);
                }
            }
        }
        i = i + 1;
    }
    proof {
        assert forall|j: int| !has_substring_at(s@, t@, j) by {
            if j >= i {
                assert(j + t@.len() > s@.len());
            }
        }
    }
    false
}

/// A decimal digit, and its value.
pub open spec fn is_digit_char(c: char) -> bool {
    48 <= c as int <= 57
}

pub open spec fn digit_of(c: char) -> int {
    c as int - 48
}

/// The value of a digit string, most significant digit first.
pub open spec fn digits_val(s: Seq<char>) -> int
    decreases s.len(),
{
    if s.len() == 0 {
        0
    } else {
        digits_val(s.drop_last()) * 10 + digit_of(s.last())
    }
}

pub open spec fn all_digits(s: Seq<char>) -> bool {
    forall|i: int| 0 <= i < s.len() ==> is_digit_char(s[i])
}

/// What a size field parses to: its digit value if the field is a plain,
/// non-empty digit string no larger than `i32::MAX`, and zero otherwise.
pub open spec fn parsed_size(s: Seq<char>) -> int {
    if s.len() > 0 && all_digits(s) && digits_val(s) <= 0x7fffffff {
        digits_val(s)
    } else {
        0
    }
}

/// A digit string has a non-negative value.
pub proof fn lemma_digits_val_nonneg(s: Seq<char>)
    requires
        all_digits(s),
    ensures
        digits_val(s) >= 0,
    decreases s.len(),
{
    if s.len() > 0 {
        assert(forall|i: int| 0 <= i < s.drop_last().len() ==> s.drop_last()[i] == s[i]);
        lemma_digits_val_nonneg(s.drop_last());
    }
}

/// A prefix of a digit string is worth no more than the whole.
pub proof fn lemma_digits_val_prefix(s: Seq<char>, k: int)
    requires
        all_digits(s),
        0 <= k <= s.len(),
    ensures
        digits_val(s.take(k)) <= digits_val(s),
    decreases s.len() - k,
{
    if k < s.len() {
        assert(forall|i: int| 0 <= i < k + 1 ==> s.take(k + 1)[i] == s[i]);
        assert(s.take(k + 1).drop_last() =~= s.take(k));
        assert(forall|i: int| 0 <= i < k ==> s.take(k)[i] == s[i]);
        lemma_digits_val_nonneg(s.take(k));
        assert(digits_val(s.take(k + 1)) == digits_val(s.take(k)) * 10 + digit_of(s[k]));
        lemma_digits_val_prefix(s, k + 1);
    } else {
        assert(s.take(k) =~= s);
    }
}

/// Parses a size field, as [`parsed_size`] describes.
pub fn parse_size(s: &str) -> (r: u64)
    ensures
        r as int == parsed_size(s@),
        r <= 0x7fffffff,
{
    let n = s.unicode_len();
    if n == 0 {
        return 0;
    }
    let mut acc: u64 = 0;
    let mut i: usize = 0;
    proof {
        assert(s@.take(0) =~= Seq::<char>::empty());
    }
    while i < n
        invariant
            i <= n,
            n == s@.len(),
            n > 0,
            all_digits(s@.take(i as int)),
            acc as int == digits_val(s@.take(i as int)),
            acc <= 0x7fffffff,
        decreases n - i,
    {
        let c = s.get_char(i);
        let u = c as u32;
        if u < 48 || u > 57 {
            proof {
                assert(!is_digit_char(s@[i as int]));
            }
            return 0;
        }
        let d = (u - 48) as u64;
        proof {
            assert(forall|j: int| 0 <= j < i + 1 ==> s@.take(i + 1)[j] == s@[j]);
            assert(s@.take(i + 1).drop_last() =~= s@.take(i as int));
            assert(digits_val(s@.take(i + 1)) == acc * 10 + d);
        }
        if acc > (0x7fffffff - d) / 10 {
            proof {
                assert(acc * 10 + d > 0x7fffffff) by (nonlinear_arith)
                    requires
                        acc > (0x7fffffffu64 - d) / 10,
                        d <= 9,
                ;
                if all_digits(s@) {
                    lemma_digits_val_prefix(s@, i + 1);
                    assert(digits_val(s@) > 0x7fffffff);
                }
            }
            return 0;
        }
        proof {
            assert(acc * 10 + d <= 0x7fffffff) by (nonlinear_arith)
                requires
                    acc <= (0x7fffffffu64 - d) / 10,
                    d <= 9,
            ;
        }
        acc = acc * 10 + d;
        i = i + 1;
    }
    proof {
        assert(s@.take(n as int) =~= s@);
    }
    acc
}

/// Splits `s` at its first tab character, which is dropped; `None` when `s`
/// holds no tab.
pub fn split_at_tab(s: &str) -> (r: Option<(String, String)>)
    ensures
        match r {
            Some(parts) => {
                let k = find_first(s@, '\t');
                &&& k >= 0
                &&& parts.0@ == s@.take(k)
                &&& parts.1@ == s@.skip(k + 1)
            },
            None => find_first(s@, '\t') == -1,
        },
{
    let n = s.unicode_len();
    let mut i: usize = 0;
    while i < n && s.get_char(i) != '\t'
        invariant
            i <= n,
            n == s@.len(),
            forall|j: int| 0 <= j < i ==> s@[j] != '\t',
        decreases n - i,
    {
        i = i + 1;
    }
    if i == n {
        proof {
            lemma_find_first_none(s@, '\t');
        }
        None
    } else {
        proof {
            lemma_find_first_at(s@, '\t', i as int);
            assert(s@.subrange(0, i as int) =~= s@.take(i as int));
            assert(s@.subrange(i + 1, n as int) =~= s@.skip(i + 1));
        }
        let head = s.substring_char(0, i).to_owned();
        let tail = s.substring_char(i + 1, n).to_owned();
        Some((head, tail))
    }
}

/// Renders `n` in decimal.
pub fn u64_to_string(n: u64) -> (r: String)
    ensures
        r@ == decimal_digits(n as int),
    decreases n,
{
    let last = digit_str(n % 10);
    if n < 10 {
        last.to_owned()
    } else {
        let front = u64_to_string(n / 10);
        let r = front.concat(last);
        proof {
            assert(r@ =~= decimal_digits(n as int));
        }
        r
    }
}

} // verus!

