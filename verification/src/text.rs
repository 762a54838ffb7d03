//! Character-level text helpers used by the parsers and validators.

use vstd::prelude::*;

verus! {

/// The characters of `s`, in order.
pub fn chars_of(s: &str) -> (v: Vec<char>)
    ensures
        v@ == s@,
{
    let mut v: Vec<char> = Vec::new();
    for c in it: s.chars()
        invariant
            v@ == it.seq().take(it.index() as int),
    {
        v.push(c);
    }
    v
}

/// `String::push`: appends one character.
#[verifier::external_body]
pub(crate) fn push_char(s: &mut String, c: char)
    ensures
        final(s)@ == old(s)@.push(c),
{
    s.push(c);
}

/// Appends the text `b` to `a`.
pub fn append_text(a: &mut String, b: &str)
    ensures
        final(a)@ == old(a)@ + b@,
{
    let chars = chars_of(b);
    let mut i: usize = 0;
    let ghost a0 = a@;
    while i < chars.len()
        invariant
            i <= chars.len(),
            chars@ == b@,
            a@ == a0 + b@.take(i as int),
        decreases chars.len() - i,
    {
        push_char(a, chars[i]);
        assert(b@.take(i + 1) =~= b@.take(i as int).push(chars@[i as int]));
        i = i + 1;
    }
    assert(b@.take(chars.len() as int) =~= b@);
}

/// The string made of `chars[from..to]`.
pub fn string_from_range(chars: &Vec<char>, from: usize, to: usize) -> (s: String)
    requires
        from <= to <= chars.len(),
    ensures
        s@ == chars@.subrange(from as int, to as int),
{
    let mut s = String::new();
    let mut i = from;
    while i < to
        invariant
            from <= i <= to <= chars.len(),
            s@ == chars@.subrange(from as int, i as int),
        decreases to - i,
    {
        push_char(&mut s, chars[i]);
        proof {
            assert(chars@.subrange(from as int, i + 1) =~= chars@.subrange(from as int, i as int).push(chars@[i as int]));
        }
        i = i + 1;
    }
    s
}

/// Unicode `White_Space`, the property that `char::is_whitespace` and
/// `str::trim` go by.
pub open spec fn is_white_space(c: char) -> bool {
    ||| ('\u{9}' <= c && c <= '\u{d}')
    ||| c == ' '
    ||| c == '\u{85}'
    ||| c == '\u{a0}'
    ||| c == '\u{1680}'
    ||| ('\u{2000}' <= c && c <= '\u{200a}')
    ||| c == '\u{2028}'
    ||| c == '\u{2029}'
    ||| c == '\u{202f}'
    ||| c == '\u{205f}'
    ||| c == '\u{3000}'
}

/// Whether `c` is Unicode white space.
pub fn is_whitespace_char(c: char) -> (r: bool)
    ensures
        r == is_white_space(c),
{
    ('\u{9}' <= c && c <= '\u{d}') || c == ' ' || c == '\u{85}' || c == '\u{a0}' || c == '\u{1680}'
        || ('\u{2000}' <= c && c <= '\u{200a}') || c == '\u{2028}' || c == '\u{2029}'
        || c == '\u{202f}' || c == '\u{205f}' || c == '\u{3000}'
}

/// Number of leading white-space characters.
pub open spec fn leading_ws(s: Seq<char>) -> nat
    decreases s.len(),
{
    if s.len() > 0 && is_white_space(s[0]) {
        1 + leading_ws(s.drop_first())
    } else {
        0
    }
}

/// Number of trailing white-space characters.
pub open spec fn trailing_ws(s: Seq<char>) -> nat
    decreases s.len(),
{
    if s.len() > 0 && is_white_space(s.last()) {
        1 + trailing_ws(s.drop_last())
    } else {
        0
    }
}

/// `s` without its leading white space.
pub open spec fn trim_start_spec(s: Seq<char>) -> Seq<char> {
    s.skip(leading_ws(s) as int)
}

/// `s` without its trailing white space.
pub open spec fn trim_end_spec(s: Seq<char>) -> Seq<char> {
    s.take(s.len() - trailing_ws(s))
}

/// `s` without leading or trailing white space, as `str::trim` gives it.
pub open spec fn trim_spec(s: Seq<char>) -> Seq<char> {
    trim_end_spec(trim_start_spec(s))
}

proof fn lemma_leading_ws_bound(s: Seq<char>)
    ensures
        leading_ws(s) <= s.len(),
        forall|i: int| 0 <= i < leading_ws(s) ==> is_white_space(#[trigger] s[i]),
        leading_ws(s) < s.len() ==> !is_white_space(s[leading_ws(s) as int]),
    decreases s.len(),
{
    if s.len() > 0 && is_white_space(s[0]) {
        lemma_leading_ws_bound(s.drop_first());
        assert forall|i: int| 0 <= i < leading_ws(s) implies is_white_space(#[trigger] s[i]) by {
            if i > 0 {
                assert(s[i] == s.drop_first()[i - 1]);
            }
        }
    }
}

proof fn lemma_trailing_ws_bound(s: Seq<char>)
    ensures
        trailing_ws(s) <= s.len(),
        forall|i: int| s.len() - trailing_ws(s) <= i < s.len() ==> is_white_space(#[trigger] s[i]),
        trailing_ws(s) < s.len() ==> !is_white_space(s[s.len() - trailing_ws(s) - 1]),
    decreases s.len(),
{
    if s.len() > 0 && is_white_space(s.last()) {
        lemma_trailing_ws_bound(s.drop_last());
        assert forall|i: int| s.len() - trailing_ws(s) <= i < s.len() implies is_white_space(#[trigger] s[i]) by {
            if i < s.len() - 1 {
                assert(s[i] == s.drop_last()[i]);
            }
        }
    }
}

/// The leading white space count is fixed by where the first other character is.
proof fn lemma_leading_ws_at(s: Seq<char>, k: int)
    requires
        0 <= k <= s.len(),
        forall|i: int| 0 <= i < k ==> is_white_space(#[trigger] s[i]),
        k < s.len() ==> !is_white_space(s[k]),
    ensures
        leading_ws(s) == k,
    decreases s.len(),
{
    if k > 0 {
        assert(is_white_space(s[0]));
        assert forall|i: int| 0 <= i < k - 1 implies is_white_space(#[trigger] s.drop_first()[i]) by {
            assert(s.drop_first()[i] == s[i + 1]);
        }
        if k - 1 < s.drop_first().len() {
            assert(s.drop_first()[k - 1] == s[k]);
        }
        lemma_leading_ws_at(s.drop_first(), k - 1);
    } else {
        if s.len() > 0 {
            assert(!is_white_space(s[0]));
        }
    }
}

/// The trailing white space count is fixed by where the last other character is.
proof fn lemma_trailing_ws_at(s: Seq<char>, k: int)
    requires
        0 <= k <= s.len(),
        forall|i: int| s.len() - k <= i < s.len() ==> is_white_space(#[trigger] s[i]),
        k < s.len() ==> !is_white_space(s[s.len() - k - 1]),
    ensures
        trailing_ws(s) == k,
    decreases s.len(),
{
    if k > 0 {
        assert(is_white_space(s[s.len() - 1]));
        assert forall|i: int| s.drop_last().len() - (k - 1) <= i < s.drop_last().len() implies is_white_space(#[trigger] s.drop_last()[i]) by {
            assert(s.drop_last()[i] == s[i]);
        }
        if k - 1 < s.drop_last().len() {
            assert(s.drop_last()[s.drop_last().len() - (k - 1) - 1] == s[s.len() - k - 1]);
        }
        lemma_trailing_ws_at(s.drop_last(), k - 1);
    } else {
        if s.len() > 0 {
            assert(!is_white_space(s.last()));
        }
    }
}

/// Bounds `[start, end)` of `trim_spec(chars[from..to])` inside `chars`.
pub fn trim_bounds(chars: &Vec<char>, from: usize, to: usize) -> (r: (usize, usize))
    requires
        from <= to <= chars.len(),
    ensures
        from <= r.0 <= r.1 <= to,
        chars@.subrange(r.0 as int, r.1 as int) == trim_spec(chars@.subrange(from as int, to as int)),
{
    let ghost s = chars@.subrange(from as int, to as int);
    let mut start = from;
    while start < to && is_whitespace_char(chars[start])
        invariant
            from <= start <= to <= chars.len(),
            s == chars@.subrange(from as int, to as int),
            forall|i: int| from <= i < start ==> is_white_space(#[trigger] chars@[i]),
        decreases to - start,
    {
        start = start + 1;
    }
    proof {
        assert forall|i: int| 0 <= i < start - from implies is_white_space(#[trigger] s[i]) by {
            assert(s[i] == chars@[from + i]);
        }
        if start < to {
            assert(s[start - from] == chars@[start as int]);
        }
        lemma_leading_ws_at(s, start - from);
    }
    let ghost t = chars@.subrange(start as int, to as int);
    assert(t =~= trim_start_spec(s));
    let mut end = to;
    while end > start && is_whitespace_char(chars[end - 1])
        invariant
            from <= start <= end <= to <= chars.len(),
            forall|i: int| end <= i < to ==> is_white_space(#[trigger] chars@[i]),
        decreases end - start,
    {
        end = end - 1;
    }
    proof {
        assert forall|i: int| t.len() - (to - end) <= i < t.len() implies is_white_space(#[trigger] t[i]) by {
            assert(t[i] == chars@[start + i]);
        }
        if end > start {
            assert(t[t.len() - (to - end) - 1] == chars@[end - 1]);
        }
        lemma_trailing_ws_at(t, to - end);
        assert(chars@.subrange(start as int, end as int) =~= trim_end_spec(t));
    }
    (start, end)
}

/// `str::trim`: the text without leading and trailing white space.
pub fn trim(s: &str) -> (r: String)
    ensures
        r@ == trim_spec(s@),
{
    let chars = chars_of(s);
    let (start, end) = trim_bounds(&chars, 0, chars.len());
    assert(chars@.subrange(0, chars@.len() as int) =~= s@);
    string_from_range(&chars, start, end)
}


/// Position of the first line break in `s`, or its length when there is none.
pub open spec fn newline_index(s: Seq<char>) -> nat
    decreases s.len(),
{
    if s.len() == 0 || s[0] == '\n' {
        0
    } else {
        1 + newline_index(s.drop_first())
    }
}

/// The first line of `s` (split at `\n`) that is not empty once trimmed,
/// trimmed; `None` when every line is blank.
pub open spec fn first_nonempty_line(s: Seq<char>) -> Option<Seq<char>>
    decreases s.len(),
{
    let k = newline_index(s);
    if k >= s.len() {
        if trim_spec(s).len() > 0 { Some(trim_spec(s)) } else { None }
    } else if trim_spec(s.take(k as int)).len() > 0 {
        Some(trim_spec(s.take(k as int)))
    } else {
        first_nonempty_line(s.skip(k + 1 as int))
    }
}

proof fn lemma_newline_index_at(s: Seq<char>, k: int)
    requires
        0 <= k <= s.len(),
        forall|i: int| 0 <= i < k ==> #[trigger] s[i] != '\n',
        k < s.len() ==> s[k] == '\n',
    ensures
        newline_index(s) == k,
    decreases s.len(),
{
    if k > 0 {
        assert forall|i: int| 0 <= i < k - 1 implies #[trigger] s.drop_first()[i] != '\n' by {
            assert(s.drop_first()[i] == s[i + 1]);
        }
        if k - 1 < s.drop_first().len() {
            assert(s.drop_first()[k - 1] == s[k]);
        }
        lemma_newline_index_at(s.drop_first(), k - 1);
    }
}

/// The first line of `text` that is not blank, trimmed (`lines`, `trim`,
/// `find` of the first non-empty one).
pub fn first_nonempty_trimmed_line(text: &str) -> (r: Option<String>)
    ensures
        r matches Some(line) ==> first_nonempty_line(text@) == Some(line@),
        r is None ==> first_nonempty_line(text@) is None,
{
    let chars = chars_of(text);
    let n = chars.len();
    let mut pos: usize = 0;
    assert(chars@.skip(0) =~= text@);
    while pos <= n
        invariant
            pos <= n + 1,
            n == chars.len(),
            chars@ == text@,
            pos <= n ==> first_nonempty_line(text@) == first_nonempty_line(chars@.skip(pos as int)),
            pos > n ==> first_nonempty_line(text@) is None,
        decreases n + 1 - pos,
    {
        let mut j = pos;
        while j < n && chars[j] != '\n'
            invariant
                pos <= j <= n,
                n == chars.len(),
                forall|i: int| pos <= i < j ==> #[trigger] chars@[i] != '\n',
            decreases n - j,
        {
            j = j + 1;
        }
        let ghost rest = chars@.skip(pos as int);
        proof {
            assert forall|i: int| 0 <= i < j - pos implies #[trigger] rest[i] != '\n' by {
                assert(rest[i] == chars@[pos + i]);
            }
            if j < n {
                assert(rest[j - pos] == chars@[j as int]);
            }
            lemma_newline_index_at(rest, j - pos);
            assert(rest.take(j - pos) =~= chars@.subrange(pos as int, j as int));
        }
        let (start, end) = trim_bounds(&chars, pos, j);
        if start < end {
            let line = string_from_range(&chars, start, end);
            proof {
                if j >= n {
                    assert(rest =~= chars@.subrange(pos as int, j as int));
                }
            }
            return Some(line);
        }
        if j >= n {
            proof {
                assert(rest =~= chars@.subrange(pos as int, j as int));
            }
            return None;
        }
        proof {
            assert(rest.skip(j - pos + 1) =~= chars@.skip(j + 1));
        }
        pos = j + 1;
    }
    None
}


/// What `str::to_lowercase` returns for a text.
pub uninterp spec fn spec_to_lowercase(s: Seq<char>) -> Seq<char>;

/// ASCII lowercase of one character.
pub open spec fn ascii_lower(c: char) -> char {
    if 'A' <= c && c <= 'Z' {
        ((c as u32) + 32) as char
    } else {
        c
    }
}

/// Whether every character is ASCII.
pub open spec fn all_ascii(s: Seq<char>) -> bool {
    forall|i: int| 0 <= i < s.len() ==> (#[trigger] s[i] as u32) < 128
}

/// `str::to_lowercase`. Its result is named by `spec_to_lowercase`; for
/// ASCII-only text the documentation fixes it: `A`..`Z` become `a`..`z`
/// and every other ASCII character stays. Nothing is stated of other text.
#[verifier::external_body]
pub(crate) fn to_lowercase(s: &str) -> (r: String)
    ensures
        r@ == spec_to_lowercase(s@),
        all_ascii(s@) ==> r@ == s@.map_values(|c: char| ascii_lower(c)),
{
    s.to_lowercase()
}

/// What `char::is_alphanumeric` returns for a character.
pub uninterp spec fn spec_is_alphanumeric(c: char) -> bool;

/// ASCII letters and digits.
pub open spec fn is_ascii_alphanumeric(c: char) -> bool {
    ('a' <= c && c <= 'z') || ('A' <= c && c <= 'Z') || ('0' <= c && c <= '9')
}

/// `char::is_alphanumeric` (Unicode `Alphabetic` or `Numeric`). Its result is
/// named by `spec_is_alphanumeric`; for an ASCII character it holds exactly of
/// letters and digits. Nothing more is stated of other characters.
#[verifier::external_body]
pub(crate) fn char_is_alphanumeric(c: char) -> (r: bool)
    ensures
        r == spec_is_alphanumeric(c),
        (c as u32) < 128 ==> (r == is_ascii_alphanumeric(c)),
{
    c.is_alphanumeric()
}

/// Every character of `s` is alphanumeric or one of `extra`.
pub open spec fn alphanumeric_with(s: Seq<char>, extra: Seq<char>) -> bool {
    forall|i: int| 0 <= i < s.len() ==> spec_is_alphanumeric(#[trigger] s[i]) || extra.contains(s[i])
}

/// Whether `c` is one of `set`.
pub fn contains_char(set: &Vec<char>, c: char) -> (r: bool)
    ensures
        r == set@.contains(c),
{
    let mut i: usize = 0;
    while i < set.len()
        invariant
            i <= set.len(),
            forall|k: int| 0 <= k < i ==> set@[k] != c,
        decreases set.len() - i,
    {
        if set[i] == c {
            return true;
        }
        i = i + 1;
    }
    false
}

/// Whether every character of `s` is alphanumeric or one of the characters
/// of `extra`.
pub fn is_alphanumeric_with(s: &str, extra: &str) -> (r: bool)
    ensures
        r == alphanumeric_with(s@, extra@),
{
    let chars = chars_of(s);
    let extra_chars = chars_of(extra);
    let mut i: usize = 0;
    while i < chars.len()
        invariant
            i <= chars.len(),
            chars@ == s@,
            extra_chars@ == extra@,
            forall|k: int| 0 <= k < i ==> spec_is_alphanumeric(#[trigger] s@[k]) || extra@.contains(s@[k]),
        decreases chars.len() - i,
    {
        if !char_is_alphanumeric(chars[i]) && !contains_char(&extra_chars, chars[i]) {
            return false;
        }
        i = i + 1;
    }
    true
}

/// Whether every character of `s` is alphanumeric.
pub fn is_alphanumeric(s: &str) -> (r: bool)
    ensures
        r == alphanumeric_with(s@, Seq::<char>::empty()),
{
    let r = is_alphanumeric_with(s, "");
    proof {
        reveal_strlit("");
    }
    r
}


/// Lexicographic order of texts by character (the order of `String`'s `Ord`,
/// since UTF-8 byte order and code point order agree).
pub open spec fn text_less(a: Seq<char>, b: Seq<char>) -> bool
    decreases a.len(),
{
    if a.len() == 0 {
        b.len() > 0
    } else if b.len() == 0 {
        false
    } else if a[0] < b[0] {
        true
    } else if a[0] == b[0] {
        text_less(a.drop_first(), b.drop_first())
    } else {
        false
    }
}

pub proof fn lemma_text_less_irreflexive(a: Seq<char>)
    ensures
        !text_less(a, a),
    decreases a.len(),
{
    if a.len() > 0 {
        lemma_text_less_irreflexive(a.drop_first());
    }
}

pub proof fn lemma_text_less_transitive(a: Seq<char>, b: Seq<char>, c: Seq<char>)
    requires
        text_less(a, b),
        text_less(b, c),
    ensures
        text_less(a, c),
    decreases a.len(),
{
    if a.len() > 0 && b.len() > 0 && c.len() > 0 {
        if a[0] == b[0] && b[0] == c[0] {
            lemma_text_less_transitive(a.drop_first(), b.drop_first(), c.drop_first());
        }
    }
}

pub proof fn lemma_text_less_total(a: Seq<char>, b: Seq<char>)
    requires
        a != b,
    ensures
        text_less(a, b) || text_less(b, a),
    decreases a.len(),
{
    if a.len() > 0 && b.len() > 0 && a[0] == b[0] {
        if a.drop_first() == b.drop_first() {
            assert(a =~= seq![a[0]] + a.drop_first());
            assert(b =~= seq![b[0]] + b.drop_first());
        }
        lemma_text_less_total(a.drop_first(), b.drop_first());
    } else if a.len() == 0 && b.len() == 0 {
        assert(a =~= b);
    }
}

pub proof fn lemma_text_less_asymmetric(a: Seq<char>, b: Seq<char>)
    requires
        text_less(a, b),
    ensures
        !text_less(b, a),
    decreases a.len(),
{
    if a.len() > 0 && b.len() > 0 && a[0] == b[0] {
        lemma_text_less_asymmetric(a.drop_first(), b.drop_first());
    }
}

/// Whether `a` comes strictly before `b` in `String` order.
pub fn text_is_less(a: &str, b: &str) -> (r: bool)
    ensures
        r == text_less(a@, b@),
{
    let x = chars_of(a);
    let y = chars_of(b);
    let mut i: usize = 0;
    assert(a@.skip(0) =~= a@);
    assert(b@.skip(0) =~= b@);
    while i < x.len() && i < y.len()
        invariant
            x@ == a@,
            y@ == b@,
            i <= x.len(),
            i <= y.len(),
            text_less(a@, b@) == text_less(a@.skip(i as int), b@.skip(i as int)),
        decreases x.len() - i,
    {
        let ghost sa = a@.skip(i as int);
        let ghost sb = b@.skip(i as int);
        assert(sa[0] == x@[i as int]);
        assert(sb[0] == y@[i as int]);
        if x[i] < y[i] {
            return true;
        }
        if x[i] != y[i] {
            return false;
        }
        assert(sa.drop_first() =~= a@.skip(i + 1));
        assert(sb.drop_first() =~= b@.skip(i + 1));
        i = i + 1;
    }
    let ghost sa = a@.skip(i as int);
    let ghost sb = b@.skip(i as int);
    i < y.len() && i >= x.len()
}


/// The decimal digit character for `d < 10`.
pub open spec fn digit_char(d: nat) -> char {
    ((48 + d) as u32) as char
}

/// Decimal digits of `n`, most significant first, without leading zeros.
pub open spec fn digits_of(n: nat) -> Seq<char>
    decreases n,
{
    if n < 10 {
        seq![digit_char(n)]
    } else {
        digits_of(n / 10).push(digit_char(n % 10))
    }
}

/// Decimal text of `i`, with a minus sign when negative.
pub open spec fn decimal_text(i: int) -> Seq<char> {
    if i < 0 {
        seq!['-'] + digits_of((-i) as nat)
    } else {
        digits_of(i as nat)
    }
}

fn push_digits(s: &mut String, n: u64)
    ensures
        final(s)@ == old(s)@ + digits_of(n as nat),
    decreases n,
{
    if n >= 10 {
        push_digits(s, n / 10);
    }
    let d: u8 = (n % 10) as u8;
    let c: char = (48u8 + d) as char;
    assert(c == digit_char((n % 10) as nat));
    push_char(s, c);
}

/// Appends the decimal text of `i` to `s` (as `format!("{}", i)` writes it).
pub fn append_decimal(s: &mut String, i: i64)
    ensures
        final(s)@ == old(s)@ + decimal_text(i as int),
{
    if i < 0 {
        push_char(s, '-');
        let magnitude: u64 = if i == i64::MIN {
            9_223_372_036_854_775_808u64
        } else {
            (-i) as u64
        };
        push_digits(s, magnitude);
        assert(s@ =~= old(s)@ + (seq!['-'] + digits_of(magnitude as nat)));
    } else {
        push_digits(s, i as u64);
    }
}

/// Position of the first `c` in `s`, or its length when there is none.
pub open spec fn char_index(s: Seq<char>, c: char) -> nat
    decreases s.len(),
{
    if s.len() == 0 || s[0] == c {
        0
    } else {
        1 + char_index(s.drop_first(), c)
    }
}

/// The pieces of `s` between occurrences of `c` (`str::split` with a
/// character): empty pieces included, and always at least one piece.
pub open spec fn split_on(s: Seq<char>, c: char) -> Seq<Seq<char>>
    decreases s.len(),
{
    let k = char_index(s, c);
    if k >= s.len() {
        seq![s]
    } else {
        seq![s.take(k as int)] + split_on(s.skip(k + 1 as int), c)
    }
}

proof fn lemma_char_index_at(s: Seq<char>, c: char, k: int)
    requires
        0 <= k <= s.len(),
        forall|i: int| 0 <= i < k ==> #[trigger] s[i] != c,
        k < s.len() ==> s[k] == c,
    ensures
        char_index(s, c) == k,
    decreases s.len(),
{
    if k > 0 {
        assert forall|i: int| 0 <= i < k - 1 implies #[trigger] s.drop_first()[i] != c by {
            assert(s.drop_first()[i] == s[i + 1]);
        }
        if k - 1 < s.drop_first().len() {
            assert(s.drop_first()[k - 1] == s[k]);
        }
        lemma_char_index_at(s.drop_first(), c, k - 1);
    }
}

/// Splits `s` at every `c` (`str::split`).
pub fn split_on_char(s: &str, c: char) -> (r: Vec<String>)
    ensures
        r@.map_values(|p: String| p@) == split_on(s@, c),
{
    let chars = chars_of(s);
    let n = chars.len();
    let mut pieces: Vec<String> = Vec::new();
    let mut start: usize = 0;
    assert(chars@.skip(0) =~= s@);
    loop
        invariant
            start <= n,
            n == chars.len(),
            chars@ == s@,
            pieces@.map_values(|p: String| p@) + split_on(chars@.skip(start as int), c) == split_on(s@, c),
        decreases n - start,
    {
        let mut j = start;
        while j < n && chars[j] != c
            invariant
                start <= j <= n,
                n == chars.len(),
                forall|i: int| start <= i < j ==> #[trigger] chars@[i] != c,
            decreases n - j,
        {
            j = j + 1;
        }
        let ghost rest = chars@.skip(start as int);
        proof {
            assert forall|i: int| 0 <= i < j - start implies #[trigger] rest[i] != c by {
                assert(rest[i] == chars@[start + i]);
            }
            if j < n {
                assert(rest[j - start] == chars@[j as int]);
            }
            lemma_char_index_at(rest, c, j - start);
            assert(rest.take(j - start) =~= chars@.subrange(start as int, j as int));
        }
        let piece = string_from_range(&chars, start, j);
        let ghost before = pieces@.map_values(|p: String| p@);
        pieces.push(piece);
        assert(pieces@.map_values(|p: String| p@) =~= before.push(piece@));
        if j >= n {
            proof {
                assert(rest =~= chars@.subrange(start as int, j as int));
                assert(split_on(rest, c) =~= seq![piece@]);
                assert(before.push(piece@) =~= before + seq![piece@]);
            }
            return pieces;
        }
        proof {
            assert(rest.skip(j - start + 1) =~= chars@.skip(j + 1));
            assert(split_on(rest, c) == seq![piece@] + split_on(chars@.skip(j + 1), c));
            assert(before.push(piece@) + split_on(chars@.skip(j + 1), c) =~= before + (seq![piece@] + split_on(chars@.skip(j + 1), c)));
        }
        start = j + 1;
    }
}

/// Whether `s` begins with `p`.
pub open spec fn begins_with(s: Seq<char>, p: Seq<char>) -> bool {
    p.len() <= s.len() && s.take(p.len() as int) == p
}

/// Whether `p` occurs somewhere in `s`.
pub open spec fn occurs_in(s: Seq<char>, p: Seq<char>) -> bool {
    exists|i: int| 0 <= i <= s.len() - p.len() && #[trigger] s.subrange(i, i + p.len()) == p
}

/// `s` with each occurrence of a non-empty `p`, left to right and not
/// overlapping, replaced by `w` (`str::replace`).
pub open spec fn replaced(s: Seq<char>, p: Seq<char>, w: Seq<char>) -> Seq<char>
    decreases s.len(),
{
    if s.len() == 0 || p.len() == 0 {
        s
    } else if begins_with(s, p) {
        w + replaced(s.skip(p.len() as int), p, w)
    } else {
        seq![s[0]] + replaced(s.drop_first(), p, w)
    }
}

/// Whether `p` matches `chars` at position `i`.
fn matches_at(chars: &Vec<char>, i: usize, p: &Vec<char>) -> (r: bool)
    requires
        i <= chars.len(),
    ensures
        r == begins_with(chars@.skip(i as int), p@),
{
    if p.len() > chars.len() - i {
        return false;
    }
    let mut k: usize = 0;
    while k < p.len()
        invariant
            k <= p.len(),
            i + p.len() <= chars.len(),
            forall|j: int| 0 <= j < k ==> chars@[i + j] == p@[j],
        decreases p.len() - k,
    {
        if chars[i + k] != p[k] {
            assert(chars@.skip(i as int).take(p.len() as int)[k as int] != p@[k as int]);
            return false;
        }
        k = k + 1;
    }
    assert(chars@.skip(i as int).take(p.len() as int) =~= p@);
    true
}

/// Whether the text `p` occurs in `s` (`str::contains`).
pub fn contains_str(s: &str, p: &str) -> (r: bool)
    ensures
        r == occurs_in(s@, p@),
{
    let chars = chars_of(s);
    let pat = chars_of(p);
    if pat.len() > chars.len() {
        return false;
    }
    let limit = chars.len() - pat.len();
    let mut i: usize = 0;
    loop
        invariant
            chars@ == s@,
            pat@ == p@,
            limit == chars.len() - pat.len(),
            i <= limit,
            forall|j: int| 0 <= j < i ==> #[trigger] s@.subrange(j, j + p@.len()) != p@,
        decreases limit - i,
    {
        assert(s@.subrange(i as int, i + p@.len()) =~= s@.skip(i as int).take(p@.len() as int));
        if matches_at(&chars, i, &pat) {
            return true;
        }
        if i == limit {
            return false;
        }
        i = i + 1;
    }
}

/// `s` with every occurrence of the non-empty `p` replaced by `w`.
pub fn replace_text(s: &str, p: &str, w: &str) -> (r: String)
    ensures
        r@ == replaced(s@, p@, w@),
{
    let chars = chars_of(s);
    let pat = chars_of(p);
    let mut out = String::new();
    if pat.len() == 0 {
        append_text(&mut out, s);
        return out;
    }
    let n = chars.len();
    let mut i: usize = 0;
    assert(chars@.skip(0) =~= s@);
    while i < n
        invariant
            n == chars.len(),
            chars@ == s@,
            pat@ == p@,
            pat.len() > 0,
            i <= n,
            out@ + replaced(chars@.skip(i as int), p@, w@) == replaced(s@, p@, w@),
        decreases n - i,
    {
        let ghost rest = chars@.skip(i as int);
        let ghost before = out@;
        if matches_at(&chars, i, &pat) {
            append_text(&mut out, w);
            proof {
                assert(rest.skip(p@.len() as int) =~= chars@.skip(i + pat.len()));
                assert(before + (w@ + replaced(rest.skip(p@.len() as int), p@, w@)) =~= out@ + replaced(chars@.skip(i + pat.len()), p@, w@));
            }
            i = i + pat.len();
        } else {
            push_char(&mut out, chars[i]);
            proof {
                assert(rest[0] == chars@[i as int]);
                assert(rest.drop_first() =~= chars@.skip(i + 1));
                assert(before + (seq![rest[0]] + replaced(rest.drop_first(), p@, w@)) =~= out@ + replaced(chars@.skip(i + 1), p@, w@));
            }
            i = i + 1;
        }
    }
    proof {
        assert(chars@.skip(n as int) =~= Seq::<char>::empty());
        assert(out@ + Seq::<char>::empty() =~= out@);
    }
    out
}

/// Value of a text of decimal digits.
pub open spec fn digits_value(s: Seq<char>) -> nat
    decreases s.len(),
{
    if s.len() == 0 {
        0
    } else {
        digits_value(s.drop_last()) * 10 + ((s.last() as u32) - 48) as nat
    }
}

/// Whether every character is a decimal digit.
pub open spec fn all_digits(s: Seq<char>) -> bool {
    forall|i: int| 0 <= i < s.len() ==> '0' <= #[trigger] s[i] && s[i] <= '9'
}

/// The digits of an unsigned number's text: without one leading `+`.
pub open spec fn unsigned_digits(s: Seq<char>) -> Seq<char> {
    if s.len() > 0 && s[0] == '+' {
        s.drop_first()
    } else {
        s
    }
}

/// What `u8`'s `FromStr` gives for a text: an optional `+` and at least one
/// decimal digit, with a value that fits.
pub open spec fn parsed_u8(s: Seq<char>) -> Option<u8> {
    let d = unsigned_digits(s);
    if d.len() > 0 && all_digits(d) && digits_value(d) <= 255 {
        Some(digits_value(d) as u8)
    } else {
        None
    }
}

/// Parses a small unsigned number as `str::parse::<u8>` does.
pub fn parse_u8(s: &str) -> (r: Option<u8>)
    ensures
        r == parsed_u8(s@),
{
    let cs = chars_of(s);
    let start: usize = if cs.len() > 0 && cs[0] == '+' { 1 } else { 0 };
    let ghost d = unsigned_digits(s@);
    assert(d =~= cs@.skip(start as int));
    if start >= cs.len() {
        return None;
    }
    let mut value: u32 = 0;
    let mut i: usize = start;
    while i < cs.len()
        invariant
            cs@ == s@,
            start <= i <= cs.len(),
            d == cs@.skip(start as int),
            d == unsigned_digits(s@),
            all_digits(cs@.subrange(start as int, i as int)),
            (value <= 255 && value == digits_value(cs@.subrange(start as int, i as int))) || (value == 256
                && digits_value(cs@.subrange(start as int, i as int)) > 255),
        decreases cs.len() - i,
    {
        let c = cs[i];
        if c < '0' || c > '9' {
            proof {
                assert(d[i - start] == cs@[i as int]);
                assert(!('0' <= d[i - start] && d[i - start] <= '9'));
                assert(!all_digits(d));
            }
            return None;
        }
        let digit = (c as u32) - 48;
        let ghost prefix = cs@.subrange(start as int, i as int);
        let ghost next = cs@.subrange(start as int, i + 1);
        assert(next.drop_last() =~= prefix);
        assert(next.last() == c);
        if value == 256 {
            value = 256;
        } else {
            let v = value * 10 + digit;
            if v > 255 {
                value = 256;
            } else {
                value = v;
            }
        }
        i = i + 1;
    }
    assert(cs@.subrange(start as int, cs.len() as int) =~= d);
    if value <= 255 {
        Some(value as u8)
    } else {
        None
    }
}

} // verus!
