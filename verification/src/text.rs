use vstd::prelude::*;
use vstd::string::*;

verus! {

/// `String::push` appends one character at the end (std documentation of `String::push`).
pub assume_specification[ String::push ](s: &mut String, ch: char)
    ensures
        final(s)@ == old(s)@.push(ch),
;

/// `char::from_u32` gives the character with that code when the code is a Unicode scalar
/// value (at most `0x10FFFF` and no surrogate), and nothing otherwise (std documentation of
/// `char::from_u32`).
pub assume_specification[ core::char::from_u32 ](i: u32) -> (res: Option<char>)
    ensures
        res == (if i <= 0x10FFFF && !(0xD800 <= i && i <= 0xDFFF) { Some(i as char) } else { None::<char> }),
;

/// Character-wise equality of two string slices.
pub fn str_eq(a: &str, b: &str) -> (res: bool)
    ensures
        res == (a@ == b@),
{
    let n = a.unicode_len();
    let m = b.unicode_len();
    if n != m {
        return false;
    }
    let mut i: usize = 0;
    while i < n
        invariant
            n == a@.len(),
            m == b@.len(),
            n == m,
            i <= n,
            forall|j: int| 0 <= j < i ==> a@[j] == b@[j],
        decreases n - i,
    {
        if a.get_char(i) != b.get_char(i) {
            return false;
        }
        i = i + 1;
    }
    assert(a@ =~= b@);
    true
}

/// A fresh `String` holding the characters of `s`.
pub fn owned(s: &str) -> (res: String)
    ensures
        res@ == s@,
{
    String::from_str(s)
}

} // verus!

verus! {

/// The characters with the Unicode `White_Space` property, which is what
/// `char::is_whitespace` (and so `str::trim`) tests for.
pub open spec fn is_ws(c: char) -> bool {
    ||| ('\u{9}' <= c && c <= '\u{d}')
    ||| c == ' '
    ||| c == '\u{85}'
    ||| c == '\u{a0}'
    ||| c == '\u{1680}'
    ||| ('\u{2000}' <= c && c <= '\u{200a}')
    ||| c == '\u{2028}'
    ||| c == '\u{2029}'
    ||| c == '\u{202f}'
    ||| c == '\u{205f}'
    ||| c == '\u{3000}'
}

pub fn is_whitespace(c: char) -> (res: bool)
    ensures
        res == is_ws(c),
{
    ('\u{9}' <= c && c <= '\u{d}') || c == ' ' || c == '\u{85}' || c == '\u{a0}' || c == '\u{1680}'
        || ('\u{2000}' <= c && c <= '\u{200a}') || c == '\u{2028}' || c == '\u{2029}' || c == '\u{202f}'
        || c == '\u{205f}' || c == '\u{3000}'
}

/// `s` without its leading whitespace.
pub open spec fn trim_start(s: Seq<char>) -> Seq<char>
    decreases s.len(),
{
    if s.len() > 0 && is_ws(s[0]) {
        trim_start(s.drop_first())
    } else {
        s
    }
}

/// `s` without its trailing whitespace.
pub open spec fn trim_end(s: Seq<char>) -> Seq<char>
    decreases s.len(),
{
    if s.len() > 0 && is_ws(s.last()) {
        trim_end(s.drop_last())
    } else {
        s
    }
}

/// `s` without leading and trailing whitespace.
pub open spec fn trim(s: Seq<char>) -> Seq<char> {
    trim_end(trim_start(s))
}

/// Removes trailing whitespace.
pub fn str_trim_end(s: &str) -> (res: &str)
    ensures
        res@ == trim_end(s@),
{
    let n = s.unicode_len();
    let mut k: usize = n;
    assert(s@.take(n as int) =~= s@);
    while k > 0 && is_whitespace(s.get_char(k - 1))
        invariant
            n == s@.len(),
            k <= n,
            trim_end(s@) == trim_end(s@.take(k as int)),
        decreases k,
    {
        assert(s@.take(k as int).drop_last() =~= s@.take(k - 1));
        k = k - 1;
    }
    let res = s.substring_char(0, k);
    assert(res@ =~= s@.take(k as int));
    res
}

/// Removes leading whitespace.
pub fn str_trim_start(s: &str) -> (res: &str)
    ensures
        res@ == trim_start(s@),
{
    let n = s.unicode_len();
    let mut k: usize = 0;
    assert(s@.skip(0) =~= s@);
    while k < n && is_whitespace(s.get_char(k))
        invariant
            n == s@.len(),
            k <= n,
            trim_start(s@) == trim_start(s@.skip(k as int)),
        decreases n - k,
    {
        assert(s@.skip(k as int).drop_first() =~= s@.skip(k + 1));
        k = k + 1;
    }
    let res = s.substring_char(k, n);
    assert(res@ =~= s@.skip(k as int));
    res
}

/// Removes leading and trailing whitespace, as `str::trim` does.
pub fn str_trim(s: &str) -> (res: &str)
    ensures
        res@ == trim(s@),
{
    str_trim_end(str_trim_start(s))
}

/// A string of `n` spaces.
pub open spec fn spaces(n: nat) -> Seq<char> {
    Seq::new(n, |i: int| ' ')
}

pub fn push_spaces(out: &mut String, n: usize)
    ensures
        final(out)@ == old(out)@ + spaces(n as nat),
{
    let mut i: usize = 0;
    while i < n
        invariant
            i <= n,
            out@ == old(out)@ + spaces(i as nat),
        decreases n - i,
    {
        out.push(' ');
        assert(spaces(i as nat).push(' ') =~= spaces((i + 1) as nat));
        assert(out@ =~= old(out)@ + spaces((i + 1) as nat));
        i = i + 1;
    }
}

} // verus!

verus! {

/// The position of the first `c` in `s` at or after `i`.
pub open spec fn find_char_from(s: Seq<char>, c: char, i: int) -> Option<int>
    decreases s.len() - i,
{
    if i < 0 || i >= s.len() {
        None
    } else if s[i] == c {
        Some(i)
    } else {
        find_char_from(s, c, i + 1)
    }
}

/// The position of the first `c` in `s`.
pub open spec fn find_char(s: Seq<char>, c: char) -> Option<int> {
    find_char_from(s, c, 0)
}

pub proof fn lemma_find_char_from(s: Seq<char>, c: char, i: int)
    requires
        0 <= i <= s.len(),
    ensures
        match find_char_from(s, c, i) {
            Some(k) => i <= k < s.len() && s[k] == c && forall|j: int| i <= j < k ==> s[j] != c,
            None => forall|j: int| i <= j < s.len() ==> s[j] != c,
        },
    decreases s.len() - i,
{
    if i < s.len() && s[i] != c {
        lemma_find_char_from(s, c, i + 1);
    }
}

pub proof fn lemma_find_char(s: Seq<char>, c: char)
    ensures
        match find_char(s, c) {
            Some(k) => 0 <= k < s.len() && s[k] == c && forall|j: int| 0 <= j < k ==> s[j] != c,
            None => forall|j: int| 0 <= j < s.len() ==> s[j] != c,
        },
{
    lemma_find_char_from(s, c, 0);
}

pub proof fn lemma_find_char_is(s: Seq<char>, c: char, k: int)
    requires
        0 <= k < s.len(),
        s[k] == c,
        forall|j: int| 0 <= j < k ==> s[j] != c,
    ensures
        find_char(s, c) == Some(k),
{
    lemma_find_char(s, c);
}

/// The position of the first `c` in `s`, if there is one.
pub fn str_find_char(s: &str, c: char) -> (res: Option<usize>)
    ensures
        match res {
            Some(k) => find_char(s@, c) == Some(k as int),
            None => find_char(s@, c) == None::<int>,
        },
{
    let n = s.unicode_len();
    let mut i: usize = 0;
    while i < n
        invariant
            n == s@.len(),
            i <= n,
            forall|j: int| 0 <= j < i ==> s@[j] != c,
        decreases n - i,
    {
        if s.get_char(i) == c {
            proof {
                lemma_find_char_is(s@, c, i as int);
            }
            return Some(i);
        }
        i = i + 1;
    }
    proof {
        lemma_find_char(s@, c);
    }
    None
}

/// The pieces of `s` between the occurrences of `sep`, as `str::split` yields them
/// (an empty string gives one empty piece).
pub open spec fn split(s: Seq<char>, sep: char) -> Seq<Seq<char>>
    decreases s.len(),
{
    if s.len() == 0 {
        seq![Seq::empty()]
    } else {
        let p = split(s.drop_last(), sep);
        if s.last() == sep {
            p.push(Seq::empty())
        } else {
            p.update(p.len() - 1, p.last().push(s.last()))
        }
    }
}

/// Text without the separator is one piece.
pub proof fn lemma_split_no_sep(l: Seq<char>, sep: char)
    requires
        forall|k: int| 0 <= k < l.len() ==> l[k] != sep,
    ensures
        split(l, sep) == seq![l],
    decreases l.len(),
{
    if l.len() > 0 {
        lemma_split_no_sep(l.drop_last(), sep);
        assert(l.drop_last().push(l.last()) =~= l);
        assert(split(l, sep) =~= seq![l]);
    } else {
        assert(l =~= Seq::<char>::empty());
    }
}

/// Joining two texts with the separator joins their pieces.
pub proof fn lemma_split_join(a: Seq<char>, b: Seq<char>, sep: char)
    ensures
        split(a + seq![sep] + b, sep) == split(a, sep) + split(b, sep),
    decreases b.len(),
{
    let t = a + seq![sep] + b;
    lemma_split_nonempty(a, sep);
    if b.len() == 0 {
        assert(t.drop_last() =~= a);
        assert(t.last() == sep);
        assert(split(t, sep) =~= split(a, sep) + split(b, sep));
    } else {
        lemma_split_join(a, b.drop_last(), sep);
        lemma_split_nonempty(b.drop_last(), sep);
        assert(t.drop_last() =~= a + seq![sep] + b.drop_last());
        assert(t.last() == b.last());
        assert(split(t, sep) =~= split(a, sep) + split(b, sep));
    }
}

pub proof fn lemma_split_nonempty(s: Seq<char>, sep: char)
    ensures
        split(s, sep).len() >= 1,
    decreases s.len(),
{
    if s.len() > 0 {
        lemma_split_nonempty(s.drop_last(), sep);
    }
}

/// Views of a list of strings.
pub open spec fn strings_view(v: Seq<String>) -> Seq<Seq<char>> {
    v.map_values(|x: String| x@)
}

/// Splits `s` at every `sep`, as `str::split` does.
pub fn split_char(s: &str, sep: char) -> (res: Vec<String>)
    ensures
        strings_view(res@) == split(s@, sep),
{
    let n = s.unicode_len();
    let mut done: Vec<String> = Vec::new();
    let mut cur = String::new();
    let mut i: usize = 0;
    while i < n
        invariant
            n == s@.len(),
            i <= n,
            strings_view(done@).push(cur@) == split(s@.take(i as int), sep),
        decreases n - i,
    {
        let c = s.get_char(i);
        let ghost t = s@.take(i + 1);
        proof {
            assert(t.drop_last() =~= s@.take(i as int));
            lemma_split_nonempty(s@.take(i as int), sep);
        }
        if c == sep {
            let ghost prev = strings_view(done@).push(cur@);
            done.push(cur);
            cur = String::new();
            assert(strings_view(done@).push(cur@) =~= prev.push(Seq::empty()));
        } else {
            let ghost prev = strings_view(done@).push(cur@);
            cur.push(c);
            assert(strings_view(done@).push(cur@) =~= prev.update(prev.len() - 1, prev.last().push(c)));
        }
        i = i + 1;
    }
    assert(s@.take(n as int) =~= s@);
    let ghost prev = strings_view(done@).push(cur@);
    done.push(cur);
    assert(strings_view(done@) =~= prev);
    done
}

/// `s` begins with `p`.
pub open spec fn starts_with(s: Seq<char>, p: Seq<char>) -> bool {
    p.len() <= s.len() && s.take(p.len() as int) == p
}

/// What follows the prefix `p` of `s`, when `s` begins with `p`.
pub open spec fn strip_prefix(s: Seq<char>, p: Seq<char>) -> Option<Seq<char>> {
    if starts_with(s, p) {
        Some(s.skip(p.len() as int))
    } else {
        None
    }
}

pub fn str_strip_prefix<'a>(s: &'a str, p: &str) -> (res: Option<&'a str>)
    ensures
        match res {
            Some(r) => strip_prefix(s@, p@) == Some(r@),
            None => strip_prefix(s@, p@) == None::<Seq<char>>,
        },
{
    let n = s.unicode_len();
    let m = p.unicode_len();
    if m > n {
        return None;
    }
    let mut i: usize = 0;
    while i < m
        invariant
            n == s@.len(),
            m == p@.len(),
            m <= n,
            i <= m,
            forall|j: int| 0 <= j < i ==> s@[j] == p@[j],
        decreases m - i,
    {
        if s.get_char(i) != p.get_char(i) {
            assert(s@.take(m as int)[i as int] != p@[i as int]);
            return None;
        }
        i = i + 1;
    }
    assert(s@.take(m as int) =~= p@);
    let r = s.substring_char(m, n);
    assert(r@ =~= s@.skip(m as int));
    Some(r)
}

/// Every character of `s` is an ASCII digit.
pub open spec fn all_ascii_digits(s: Seq<char>) -> bool {
    forall|i: int| 0 <= i < s.len() ==> '0' <= #[trigger] s[i] <= '9'
}

pub fn str_all_ascii_digits(s: &str) -> (res: bool)
    ensures
        res == all_ascii_digits(s@),
{
    let n = s.unicode_len();
    let mut i: usize = 0;
    while i < n
        invariant
            n == s@.len(),
            i <= n,
            forall|j: int| 0 <= j < i ==> '0' <= #[trigger] s@[j] <= '9',
        decreases n - i,
    {
        let c = s.get_char(i);
        if !('0' <= c && c <= '9') {
            return false;
        }
        i = i + 1;
    }
    true
}

/// `s` with every `from` replaced by the string `to`.
pub open spec fn replace_char(s: Seq<char>, from: char, to: Seq<char>) -> Seq<char>
    decreases s.len(),
{
    if s.len() == 0 {
        Seq::empty()
    } else if s.last() == from {
        replace_char(s.drop_last(), from, to) + to
    } else {
        replace_char(s.drop_last(), from, to).push(s.last())
    }
}

/// Appends `s` with every `from` replaced by `to`, as `str::replace` with a character
/// pattern produces it.
pub fn push_replaced(out: &mut String, s: &str, from: char, to: &str)
    ensures
        final(out)@ == old(out)@ + replace_char(s@, from, to@),
{
    let n = s.unicode_len();
    let mut i: usize = 0;
    while i < n
        invariant
            n == s@.len(),
            i <= n,
            out@ == old(out)@ + replace_char(s@.take(i as int), from, to@),
        decreases n - i,
    {
        let c = s.get_char(i);
        assert(s@.take(i + 1).drop_last() =~= s@.take(i as int));
        if c == from {
            out.append(to);
        } else {
            out.push(c);
        }
        assert(out@ =~= old(out)@ + replace_char(s@.take(i + 1), from, to@));
        i = i + 1;
    }
    assert(s@.take(n as int) =~= s@);
}

} // verus!

verus! {

pub open spec fn digit_char(d: nat) -> char {
    if d == 0 { '0' }
    else if d == 1 { '1' }
    else if d == 2 { '2' }
    else if d == 3 { '3' }
    else if d == 4 { '4' }
    else if d == 5 { '5' }
    else if d == 6 { '6' }
    else if d == 7 { '7' }
    else if d == 8 { '8' }
    else { '9' }
}

/// The decimal digits of `n`, as `{}` prints an unsigned integer.
pub open spec fn decimal(n: nat) -> Seq<char>
    decreases n,
{
    if n < 10 {
        seq![digit_char(n)]
    } else {
        decimal(n / 10).push(digit_char(n % 10))
    }
}

fn digit(d: usize) -> (res: char)
    requires
        d < 10,
    ensures
        res == digit_char(d as nat),
{
    if d == 0 { '0' }
    else if d == 1 { '1' }
    else if d == 2 { '2' }
    else if d == 3 { '3' }
    else if d == 4 { '4' }
    else if d == 5 { '5' }
    else if d == 6 { '6' }
    else if d == 7 { '7' }
    else if d == 8 { '8' }
    else { '9' }
}

/// Appends the decimal digits of `n`.
pub fn push_decimal(out: &mut String, n: usize)
    ensures
        final(out)@ == old(out)@ + decimal(n as nat),
    decreases n,
{
    if n < 10 {
        out.push(digit(n));
        assert(out@ =~= old(out)@ + decimal(n as nat));
    } else {
        push_decimal(out, n / 10);
        out.push(digit(n % 10));
        assert(out@ =~= old(out)@ + decimal(n as nat));
    }
}

} // verus!

verus! {

/// The code of a character after ASCII lower-casing.
pub open spec fn lower_code(c: char) -> u32 {
    if 'A' <= c <= 'Z' {
        (c as u32 + 32) as u32
    } else {
        c as u32
    }
}

/// `p` occurs in `s` at position `i` once `s` is lower-cased (ASCII letters only).
pub open spec fn occurs_lowered_at(s: Seq<char>, p: Seq<char>, i: int) -> bool {
    0 <= i && i + p.len() <= s.len() && forall|k: int| 0 <= k < p.len() ==> lower_code(#[trigger] s[i + k]) == p[k] as u32
}

/// `p` occurs somewhere in `s` once `s` is lower-cased (ASCII letters only).
pub open spec fn contains_lowered(s: Seq<char>, p: Seq<char>) -> bool {
    exists|i: int| occurs_lowered_at(s, p, i)
}

fn lower_matches(c: char, p: char) -> (res: bool)
    ensures
        res == (lower_code(c) == p as u32),
{
    if 'A' <= c && c <= 'Z' {
        (c as u32) + 32 == (p as u32)
    } else {
        (c as u32) == (p as u32)
    }
}

/// Whether `p` occurs in `s` with the ASCII letters of `s` lower-cased.
pub fn str_contains_lowered(s: &str, p: &str) -> (res: bool)
    ensures
        res == contains_lowered(s@, p@),
{
    let n = s.unicode_len();
    let m = p.unicode_len();
    if m > n {
        assert forall|i: int| !occurs_lowered_at(s@, p@, i) by {}
        return false;
    }
    let mut i: usize = 0;
    while i <= n - m
        invariant
            n == s@.len(),
            m == p@.len(),
            m <= n,
            i <= n - m + 1,
            forall|j: int| 0 <= j < i ==> !occurs_lowered_at(s@, p@, j),
        decreases n - m + 1 - i,
    {
        let mut k: usize = 0;
        let mut ok = true;
        while k < m
            invariant
                n == s@.len(),
                m == p@.len(),
                m <= n,
                i <= n - m,
                k <= m,
                ok ==> forall|q: int| 0 <= q < k ==> lower_code(#[trigger] s@[i + q]) == p@[q] as u32,
                !ok ==> !occurs_lowered_at(s@, p@, i as int),
            decreases m - k,
        {
            if ok && !lower_matches(s.get_char(i + k), p.get_char(k)) {
                ok = false;
                assert(lower_code(s@[i + k]) != p@[k as int] as u32);
            }
            k = k + 1;
        }
        if ok {
            assert(occurs_lowered_at(s@, p@, i as int));
            return true;
        }
        i = i + 1;
    }
    assert forall|j: int| !occurs_lowered_at(s@, p@, j) by {
        if 0 <= j && j + m <= n {
            assert(j < i);
        }
    }
    false
}

} // verus!
