//! Character-level helpers shared by the whole crate: ASCII classes,
//! Unicode white space, trimming, prefixes and string building.
use vstd::prelude::*;

verus! {

/// `char::is_ascii_alphanumeric`.
pub open spec fn is_ascii_alnum(c: char) -> bool {
    ('a' <= c && c <= 'z') || ('A' <= c && c <= 'Z') || ('0' <= c && c <= '9')
}

/// `char::to_ascii_lowercase`.
pub open spec fn ascii_lower(c: char) -> char {
    if 'A' <= c && c <= 'Z' {
        ((c as u32) + 32) as char
    } else {
        c
    }
}

/// `char::to_ascii_uppercase`.
pub open spec fn ascii_upper(c: char) -> char {
    if 'a' <= c && c <= 'z' {
        ((c as u32) - 32) as char
    } else {
        c
    }
}

/// `str::to_ascii_uppercase`.
pub open spec fn ascii_upper_str(s: Seq<char>) -> Seq<char> {
    s.map_values(|c: char| ascii_upper(c))
}

/// `char::to_ascii_lowercase`.
pub fn lower_char(c: char) -> (r: char)
    ensures r == ascii_lower(c),
{
    if 'A' <= c && c <= 'Z' {
        let b: u8 = c as u8;
        (b + 32) as char
    } else {
        c
    }
}

/// `char::is_whitespace`: the characters with the Unicode `White_Space` property.
pub open spec fn is_white(c: char) -> bool {
    ||| ('\u{9}' <= c && c <= '\u{d}')
    ||| c == ' '
    ||| c == '\u{85}'
    ||| c == '\u{a0}'
    ||| c == '\u{1680}'
    ||| ('\u{2000}' <= c && c <= '\u{200a}')
    ||| c == '\u{2028}'
    ||| c == '\u{2029}'
    ||| c == '\u{202f}'
    ||| c == '\u{205f}'
    ||| c == '\u{3000}'
}

/// The characters that a trim removes: white space, dashes or slashes.
pub enum TrimSet {
    White,
    Dash,
    Slash,
}

pub open spec fn in_trim_set(set: TrimSet, c: char) -> bool {
    match set {
        TrimSet::White => is_white(c),
        TrimSet::Dash => c == '-',
        TrimSet::Slash => c == '/',
    }
}

/// Removes every leading character of the set.
pub open spec fn trim_start_spec(set: TrimSet, s: Seq<char>) -> Seq<char>
    decreases s.len(),
{
    if s.len() > 0 && in_trim_set(set, s[0]) {
        trim_start_spec(set, s.drop_first())
    } else {
        s
    }
}

/// Removes every trailing character of the set.
pub open spec fn trim_end_spec(set: TrimSet, s: Seq<char>) -> Seq<char>
    decreases s.len(),
{
    if s.len() > 0 && in_trim_set(set, s.last()) {
        trim_end_spec(set, s.drop_last())
    } else {
        s
    }
}

/// `str::trim` (for `White`) and `str::trim_matches('-')` (for `Dash`).
pub open spec fn trim_spec(set: TrimSet, s: Seq<char>) -> Seq<char> {
    trim_end_spec(set, trim_start_spec(set, s))
}

pub fn in_trim_set_exec(set: &TrimSet, c: char) -> (r: bool)
    ensures r == in_trim_set(*set, c),
{
    match set {
        TrimSet::White => {
            ('\u{9}' <= c && c <= '\u{d}') || c == ' ' || c == '\u{85}' || c == '\u{a0}'
                || c == '\u{1680}' || ('\u{2000}' <= c && c <= '\u{200a}') || c == '\u{2028}'
                || c == '\u{2029}' || c == '\u{202f}' || c == '\u{205f}' || c == '\u{3000}'
        },
        TrimSet::Dash => c == '-',
        TrimSet::Slash => c == '/',
    }
}

proof fn lemma_trim_start_skip(set: TrimSet, s: Seq<char>, i: int)
    requires
        0 <= i < s.len(),
        in_trim_set(set, s[i]),
    ensures
        trim_start_spec(set, s.subrange(i, s.len() as int)) == trim_start_spec(set, s.subrange(i + 1, s.len() as int)),
{
    let t = s.subrange(i, s.len() as int);
    assert(t.drop_first() =~= s.subrange(i + 1, s.len() as int));
}

proof fn lemma_trim_end_skip(set: TrimSet, s: Seq<char>, j: int)
    requires
        0 < j <= s.len(),
        in_trim_set(set, s[j - 1]),
    ensures
        trim_end_spec(set, s.subrange(0, j)) == trim_end_spec(set, s.subrange(0, j - 1)),
{
    let t = s.subrange(0, j);
    assert(t.drop_last() =~= s.subrange(0, j - 1));
}

/// Trims the characters of `set` from both ends of `s`.
pub fn trim_chars(s: &str, set: TrimSet) -> (r: String)
    ensures r@ == trim_spec(set, s@),
{
    let n = s.unicode_len();
    let mut start: usize = 0;
    assert(s@.subrange(0, n as int) =~= s@);
    while start < n && in_trim_set_exec(&set, s.get_char(start))
        invariant
            start <= n,
            n == s@.len(),
            trim_start_spec(set, s@) == trim_start_spec(set, s@.subrange(start as int, n as int)),
        decreases n - start,
    {
        proof { lemma_trim_start_skip(set, s@, start as int); }
        start += 1;
    }
    let ghost mid = s@.subrange(start as int, n as int);
    assert(trim_start_spec(set, s@) == mid) by {
        if start < n {
            assert(mid[0] == s@[start as int]);
        } else {
            assert(mid.len() == 0);
        }
    }
    let mut end: usize = n;
    assert(mid.subrange(0, end - start) =~= mid);
    while end > start && in_trim_set_exec(&set, s.get_char(end - 1))
        invariant
            start <= end <= n,
            n == s@.len(),
            mid == s@.subrange(start as int, n as int),
            trim_end_spec(set, mid) == trim_end_spec(set, mid.subrange(0, end - start)),
        decreases end - start,
    {
        proof {
            assert(mid[end - start - 1] == s@[end - 1]);
            lemma_trim_end_skip(set, mid, (end - start) as int);
        }
        end -= 1;
    }
    let ghost fin = mid.subrange(0, end - start);
    assert(trim_end_spec(set, fin) == fin) by {
        if end > start {
            assert(fin.last() == s@[end - 1]);
        }
    }
    assert(fin =~= s@.subrange(start as int, end as int));
    let piece = s.substring_char(start, end);
    piece.to_owned()
}

/// Trims the characters of `set` from the end of `s` (`str::trim_end_matches`).
pub fn trim_end_chars(s: &str, set: TrimSet) -> (r: String)
    ensures r@ == trim_end_spec(set, s@),
{
    let n = s.unicode_len();
    let mut end: usize = n;
    assert(s@.subrange(0, n as int) =~= s@);
    while end > 0 && in_trim_set_exec(&set, s.get_char(end - 1))
        invariant
            end <= n,
            n == s@.len(),
            trim_end_spec(set, s@) == trim_end_spec(set, s@.subrange(0, end as int)),
        decreases end,
    {
        proof { lemma_trim_end_skip(set, s@, end as int); }
        end -= 1;
    }
    let ghost fin = s@.subrange(0, end as int);
    assert(trim_end_spec(set, fin) == fin) by {
        if end > 0 {
            assert(fin.last() == s@[end - 1]);
        }
    }
    s.substring_char(0, end).to_owned()
}

/// The decimal text of a number.
pub open spec fn decimal_spec(n: nat) -> Seq<char>
    decreases n,
{
    if n < 10 {
        seq![(('0' as u32) + n) as char]
    } else {
        decimal_spec(n / 10).push((('0' as u32) + (n % 10)) as char)
    }
}

/// The decimal text of a number (as `Display` writes it).
pub fn decimal_text(n: u32) -> (r: String)
    ensures r@ == decimal_spec(n as nat),
    decreases n,
{
    if n < 10 {
        let mut out = String::new();
        push_char(&mut out, ((n as u8) + 48u8) as char);
        out
    } else {
        let mut out = decimal_text(n / 10);
        push_char(&mut out, (((n % 10) as u8) + 48u8) as char);
        out
    }
}

/// Whether `str::trim` leaves nothing.
pub fn trim_is_empty(s: &str) -> (r: bool)
    ensures r == (trim_spec(TrimSet::White, s@).len() == 0),
{
    let t = trim_chars(s, TrimSet::White);
    t.as_str().unicode_len() == 0
}

/// Appends one character to a string (`String::push`).
#[verifier::external_body]
pub fn push_char(s: &mut String, c: char)
    ensures
        final(s)@ == old(s)@.push(c),
{
    s.push(c);
}

/// `str::strip_prefix`.
pub open spec fn strip_prefix_spec(s: Seq<char>, prefix: Seq<char>) -> Option<Seq<char>> {
    if prefix.is_prefix_of(s) {
        Some(s.subrange(prefix.len() as int, s.len() as int))
    } else {
        None
    }
}

/// Whether `prefix` begins `s`.
pub fn starts_with(s: &str, prefix: &str) -> (r: bool)
    ensures r == prefix@.is_prefix_of(s@),
{
    let n = s.unicode_len();
    let m = prefix.unicode_len();
    if m > n {
        return false;
    }
    let mut i: usize = 0;
    while i < m
        invariant
            i <= m <= n,
            n == s@.len(),
            m == prefix@.len(),
            forall|k: int| 0 <= k < i ==> prefix@[k] == s@[k],
        decreases m - i,
    {
        if s.get_char(i) != prefix.get_char(i) {
            return false;
        }
        i += 1;
    }
    true
}

/// `str::strip_prefix`, giving an owned string.
pub fn strip_prefix(s: &str, prefix: &str) -> (r: Option<String>)
    ensures
        match r {
            Some(rest) => strip_prefix_spec(s@, prefix@) == Some(rest@),
            None => strip_prefix_spec(s@, prefix@) is None,
        },
{
    if starts_with(s, prefix) {
        let n = s.unicode_len();
        let m = prefix.unicode_len();
        Some(s.substring_char(m, n).to_owned())
    } else {
        None
    }
}

/// Concatenation of two strings.
pub fn concat_str(a: &str, b: &str) -> (r: String)
    ensures r@ == a@ + b@,
{
    let mut out = a.to_owned();
    out.append(b);
    out
}

/// Equality of two strings by their characters.
pub fn str_eq(a: &str, b: &str) -> (r: bool)
    ensures r == (a@ == b@),
{
    let n = a.unicode_len();
    if n != b.unicode_len() {
        return false;
    }
    let mut i: usize = 0;
    while i < n
        invariant
            i <= n,
            n == a@.len(),
            n == b@.len(),
            forall|k: int| 0 <= k < i ==> a@[k] == b@[k],
        decreases n - i,
    {
        if a.get_char(i) != b.get_char(i) {
            return false;
        }
        i += 1;
    }
    assert(a@ =~= b@);
    true
}

} // verus!
