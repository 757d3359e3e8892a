//! Text handling shared by the scanner and the dashboard: Unicode white space,
//! splitting on it, trimming it, unsigned decimal numbers in and out.

use vstd::prelude::*;

verus! {

// ---------------------------------------------------------------------------
// White space
// ---------------------------------------------------------------------------

/// The Unicode `White_Space` property, which is what `char::is_whitespace` tests.
pub open spec fn is_space(c: char) -> bool {
    let n = c as u32;
    ||| 0x09 <= n <= 0x0d
    ||| n == 0x20
    ||| n == 0x85
    ||| n == 0xa0
    ||| n == 0x1680
    ||| 0x2000 <= n <= 0x200a
    ||| n == 0x2028
    ||| n == 0x2029
    ||| n == 0x202f
    ||| n == 0x205f
    ||| n == 0x3000
}

pub fn char_is_space(c: char) -> (b: bool)
    ensures
        b == is_space(c),
{
    let n = c as u32;
    (0x09 <= n && n <= 0x0d) || n == 0x20 || n == 0x85 || n == 0xa0 || n == 0x1680 || (0x2000
        <= n && n <= 0x200a) || n == 0x2028 || n == 0x2029 || n == 0x202f || n == 0x205f || n
        == 0x3000
}

/// Copies the characters of a string into a vector.
pub fn chars_of(s: &str) -> (v: Vec<char>)
    ensures
        v@ == s@,
{
    let mut v: Vec<char> = Vec::new();
    for c in it: s.chars()
        invariant
            v@ == it.seq().take(it.index() as int),
    {
        v.push(c);
    }
    v
}

// ---------------------------------------------------------------------------
// Words: the maximal runs of non-space characters, as `str::split_whitespace`
// yields them.
// ---------------------------------------------------------------------------

/// The length of the run of non-space characters at the start of `s`.
pub open spec fn word_len(s: Seq<char>) -> nat
    decreases s.len(),
{
    if s.len() == 0 || is_space(s[0]) {
        0
    } else {
        1 + word_len(s.drop_first())
    }
}

pub proof fn lemma_word_len_bound(s: Seq<char>)
    ensures
        word_len(s) <= s.len(),
        s.len() > 0 && !is_space(s[0]) ==> word_len(s) >= 1,
    decreases s.len(),
{
    if s.len() > 0 && !is_space(s[0]) {
        lemma_word_len_bound(s.drop_first());
    }
}

/// The words of `s`, in order.
pub open spec fn words(s: Seq<char>) -> Seq<Seq<char>>
    decreases s.len(),
{
    if s.len() == 0 {
        Seq::empty()
    } else if is_space(s[0]) {
        words(s.drop_first())
    } else {
        proof {
            lemma_word_len_bound(s);
        }
        seq![s.take(word_len(s) as int)] + words(s.skip(word_len(s) as int))
    }
}

/// A run of `m` non-space characters that ends at the end of `s` or at a
/// space is the first word's length.
proof fn lemma_word_len_exact(s: Seq<char>, m: int)
    requires
        0 <= m <= s.len(),
        forall|k: int| 0 <= k < m ==> !is_space(#[trigger] s[k]),
        m == s.len() || is_space(s[m]),
    ensures
        word_len(s) == m,
    decreases m,
{
    if m > 0 {
        let t = s.drop_first();
        assert forall|k: int| 0 <= k < m - 1 implies !is_space(#[trigger] t[k]) by {
            assert(t[k] == s[k + 1]);
        }
        if m < s.len() {
            assert(t[m - 1] == s[m]);
        }
        lemma_word_len_exact(t, m - 1);
    }
}

/// The words of a string, in order.
pub fn split_words(s: &Vec<char>) -> (w: Vec<Vec<char>>)
    ensures
        w@.len() == words(s@).len(),
        forall|k: int| 0 <= k < w@.len() ==> #[trigger] w@[k]@ == words(s@)[k],
{
    let n = s.len();
    let mut w: Vec<Vec<char>> = Vec::new();
    let ghost mut done: Seq<Seq<char>> = Seq::empty();
    let mut i: usize = 0;
    assert(s@.skip(0) =~= s@);
    assert(done + words(s@) =~= words(s@));
    while i < n
        invariant
            n == s@.len(),
            i <= n,
            words(s@) == done + words(s@.skip(i as int)),
            w@.len() == done.len(),
            forall|k: int| 0 <= k < w@.len() ==> #[trigger] w@[k]@ == done[k],
        decreases n - i,
    {
        let ghost rest = s@.skip(i as int);
        if char_is_space(s[i]) {
            assert(rest.drop_first() =~= s@.skip(i + 1));
            i = i + 1;
        } else {
            let mut word: Vec<char> = Vec::new();
            let mut j: usize = i;
            while j < n && !char_is_space(s[j])
                invariant
                    n == s@.len(),
                    i <= j <= n,
                    word@ == s@.subrange(i as int, j as int),
                    forall|k: int| i <= k < j ==> !is_space(#[trigger] s@[k]),
                decreases n - j,
            {
                word.push(s[j]);
                j = j + 1;
            }
            proof {
                let m = j - i;
                assert forall|k: int| 0 <= k < m implies !is_space(#[trigger] rest[k]) by {
                    assert(rest[k] == s@[i + k]);
                }
                if j < n {
                    assert(rest[m] == s@[j as int]);
                }
                lemma_word_len_exact(rest, m);
                assert(rest.take(m) =~= word@);
                assert(rest.skip(m) =~= s@.skip(j as int));
                assert(words(rest) == seq![word@] + words(s@.skip(j as int)));
                done = done.push(word@);
                assert(seq![word@] + words(s@.skip(j as int)) + Seq::empty() == seq![word@]
                    + words(s@.skip(j as int)));
            }
            w.push(word);
            i = j;
            proof {
                assert(words(s@) =~= done + words(s@.skip(i as int)));
            }
        }
    }
    proof {
        assert(s@.skip(n as int) =~= Seq::<char>::empty());
        assert(done + Seq::<Seq<char>>::empty() =~= done);
    }
    w
}

// ---------------------------------------------------------------------------
// Unsigned decimal numbers, as `str::parse` reads them for `u32` and `u64`
// ---------------------------------------------------------------------------

pub open spec fn is_digit(c: char) -> bool {
    48 <= (c as u32) <= 57
}

pub open spec fn digit_value(c: char) -> nat {
    ((c as u32) - 48) as nat
}

pub open spec fn all_digits(s: Seq<char>) -> bool {
    forall|k: int| 0 <= k < s.len() ==> is_digit(#[trigger] s[k])
}

/// The number that a run of decimal digits spells, most significant first.
pub open spec fn digits_value(s: Seq<char>) -> nat
    decreases s.len(),
{
    if s.len() == 0 {
        0
    } else {
        digits_value(s.drop_last()) * 10 + digit_value(s.last())
    }
}

/// The digits after an optional leading `+`.
pub open spec fn unsigned_digits(s: Seq<char>) -> Seq<char> {
    if s.len() > 0 && s[0] == '+' {
        s.drop_first()
    } else {
        s
    }
}

/// What `str::parse` gives for an unsigned integer type whose largest value
/// is `max`: an optional `+`, then one or more ASCII digits whose value fits.
pub open spec fn parse_unsigned(s: Seq<char>, max: nat) -> Option<nat> {
    let d = unsigned_digits(s);
    if d.len() > 0 && all_digits(d) && digits_value(d) <= max {
        Some(digits_value(d))
    } else {
        None
    }
}

proof fn lemma_digits_value_prefix(s: Seq<char>, i: int, j: int)
    requires
        0 <= i <= j <= s.len(),
    ensures
        digits_value(s.take(i)) <= digits_value(s.take(j)),
    decreases j - i,
{
    if i < j {
        lemma_digits_value_prefix(s, i, j - 1);
        assert(s.take(j).drop_last() =~= s.take(j - 1));
    }
}

/// `str::parse::<u64>`, with the error dropped.
pub fn parse_u64(s: &Vec<char>) -> (r: Option<u64>)
    ensures
        r matches Some(v) ==> parse_unsigned(s@, u64::MAX as nat) == Some(v as nat),
        r is None ==> parse_unsigned(s@, u64::MAX as nat) is None,
{
    let n = s.len();
    let start: usize = if n > 0 && s[0] == '+' {
        1
    } else {
        0
    };
    let ghost d = unsigned_digits(s@);
    assert(d =~= s@.skip(start as int));
    if start == n {
        return None;
    }
    let mut value: u64 = 0;
    let mut i: usize = start;
    assert(d.take(0) =~= Seq::<char>::empty());
    while i < n
        invariant
            n == s@.len(),
            start <= i <= n,
            d =~= s@.skip(start as int),
            d == unsigned_digits(s@),
            value as nat == digits_value(d.take(i - start)),
            all_digits(d.take(i - start)),
        decreases n - i,
    {
        let c = s[i];
        let ghost k: int = i - start;
        assert(d[k] == c);
        if !(48 <= (c as u32) && (c as u32) <= 57) {
            assert(!is_digit(d[k]));
            return None;
        }
        let digit = (c as u32 - 48) as u64;
        assert(d.take(k + 1).drop_last() =~= d.take(k));
        assert(d.take(k + 1).last() == c);
        match value.checked_mul(10) {
            Some(tens) => match tens.checked_add(digit) {
                Some(next) => {
                    value = next;
                },
                None => {
                    proof {
                        if all_digits(d) {
                            lemma_digits_value_prefix(d, k + 1, d.len() as int);
                            assert(d.take(d.len() as int) =~= d);
                        }
                    }
                    return None;
                },
            },
            None => {
                proof {
                    if all_digits(d) {
                        lemma_digits_value_prefix(d, k + 1, d.len() as int);
                        assert(d.take(d.len() as int) =~= d);
                    }
                }
                return None;
            },
        }
        i = i + 1;
        assert(all_digits(d.take(i - start))) by {
            assert forall|q: int| 0 <= q < i - start implies is_digit(
                #[trigger] d.take(i - start)[q],
            ) by {
                if q < k {
                    assert(d.take(i - start)[q] == d.take(k)[q]);
                }
            }
        }
    }
    assert(d.take(n - start) =~= d);
    Some(value)
}

/// `str::parse::<u32>`, with the error dropped.
pub fn parse_u32(s: &Vec<char>) -> (r: Option<u32>)
    ensures
        r matches Some(v) ==> parse_unsigned(s@, u32::MAX as nat) == Some(v as nat),
        r is None ==> parse_unsigned(s@, u32::MAX as nat) is None,
{
    match parse_u64(s) {
        Some(v) => {
            if v <= u32::MAX as u64 {
                Some(v as u32)
            } else {
                None
            }
        },
        None => None,
    }
}

// ---------------------------------------------------------------------------
// Trimming white space at both ends, as `str::trim` does
// ---------------------------------------------------------------------------

pub open spec fn leading_spaces(s: Seq<char>) -> nat
    decreases s.len(),
{
    if s.len() > 0 && is_space(s[0]) {
        1 + leading_spaces(s.drop_first())
    } else {
        0
    }
}

pub open spec fn trailing_spaces(s: Seq<char>) -> nat
    decreases s.len(),
{
    if s.len() > 0 && is_space(s.last()) {
        1 + trailing_spaces(s.drop_last())
    } else {
        0
    }
}

/// `s` without the white space at its start and at its end.
pub open spec fn trimmed(s: Seq<char>) -> Seq<char> {
    let t = s.skip(leading_spaces(s) as int);
    t.take(t.len() - trailing_spaces(t))
}

proof fn lemma_leading_exact(s: Seq<char>, m: int)
    requires
        0 <= m <= s.len(),
        forall|k: int| 0 <= k < m ==> is_space(#[trigger] s[k]),
        m == s.len() || !is_space(s[m]),
    ensures
        leading_spaces(s) == m,
    decreases m,
{
    if m > 0 {
        let t = s.drop_first();
        assert forall|k: int| 0 <= k < m - 1 implies is_space(#[trigger] t[k]) by {
            assert(t[k] == s[k + 1]);
        }
        if m < s.len() {
            assert(t[m - 1] == s[m]);
        }
        lemma_leading_exact(t, m - 1);
    }
}

proof fn lemma_trailing_exact(s: Seq<char>, m: int)
    requires
        0 <= m <= s.len(),
        forall|k: int| s.len() - m <= k < s.len() ==> is_space(#[trigger] s[k]),
        m == s.len() || !is_space(s[s.len() - m - 1]),
    ensures
        trailing_spaces(s) == m,
    decreases m,
{
    if m > 0 {
        let t = s.drop_last();
        assert forall|k: int| t.len() - (m - 1) <= k < t.len() implies is_space(
            #[trigger] t[k],
        ) by {
            assert(t[k] == s[k]);
        }
        if m < s.len() {
            assert(t[t.len() - (m - 1) - 1] == s[s.len() - m - 1]);
        }
        assert(is_space(s[s.len() - 1]));
        lemma_trailing_exact(t, m - 1);
    }
}

/// `str::trim`, into a new `String`.
pub fn trim(s: &str) -> (r: String)
    ensures
        r@ == trimmed(s@),
{
    let v = chars_of(s);
    let n = v.len();
    let mut i: usize = 0;
    while i < n && char_is_space(v[i])
        invariant
            n == v@.len(),
            i <= n,
            forall|k: int| 0 <= k < i ==> is_space(#[trigger] v@[k]),
        decreases n - i,
    {
        i = i + 1;
    }
    proof {
        lemma_leading_exact(v@, i as int);
    }
    let mut j: usize = n;
    while j > i && char_is_space(v[j - 1])
        invariant
            n == v@.len(),
            i <= j <= n,
            forall|k: int| j <= k < n ==> is_space(#[trigger] v@[k]),
        decreases j,
    {
        j = j - 1;
    }
    proof {
        let t = v@.skip(i as int);
        let m = n - j;
        assert forall|k: int| t.len() - m <= k < t.len() implies is_space(#[trigger] t[k]) by {
            assert(t[k] == v@[i + k]);
        }
        if m < t.len() {
            assert(t[t.len() - m - 1] == v@[j - 1]);
        }
        lemma_trailing_exact(t, m);
        assert(t.take(t.len() - m) =~= s@.subrange(i as int, j as int));
    }
    String::from_str(s.substring_char(i, j))
}

// ---------------------------------------------------------------------------
// Decimal notation, as `Display` writes unsigned integers
// ---------------------------------------------------------------------------

pub open spec fn digit_char(d: nat) -> char {
    (d + 48) as char
}

/// The decimal notation of `n`: no sign, no leading zeros, "0" for zero.
pub open spec fn decimal(n: nat) -> Seq<char>
    decreases n,
{
    if n < 10 {
        seq![digit_char(n)]
    } else {
        decimal(n / 10).push(digit_char(n % 10))
    }
}

fn digit_str(d: u64) -> (s: &'static str)
    requires
        d < 10,
    ensures
        s@ == seq![digit_char(d as nat)],
{
    proof {
        reveal_strlit("0");
        reveal_strlit("1");
        reveal_strlit("2");
        reveal_strlit("3");
        reveal_strlit("4");
        reveal_strlit("5");
        reveal_strlit("6");
        reveal_strlit("7");
        reveal_strlit("8");
        reveal_strlit("9");
    }
    match d {
        0 => "0",
        1 => "1",
        2 => "2",
        3 => "3",
        4 => "4",
        5 => "5",
        6 => "6",
        7 => "7",
        8 => "8",
        _ => "9",
    }
}

/// Writes `n` in decimal.
pub fn to_decimal(n: u64) -> (s: String)
    ensures
        s@ == decimal(n as nat),
    decreases n,
{
    if n < 10 {
        String::from_str(digit_str(n))
    } else {
        let mut s = to_decimal(n / 10);
        s.append(digit_str(n % 10));
        s
    }
}

// ---------------------------------------------------------------------------
// What std computes on text that this crate does not restate
// ---------------------------------------------------------------------------

/// What `String::from_utf8_lossy` decodes from `bytes`.
pub uninterp spec fn lossy_utf8(bytes: Seq<u8>) -> Seq<char>;

/// What `str::to_lowercase` gives for `s`.
pub uninterp spec fn lowercase(s: Seq<char>) -> Seq<char>;

/// Calls `String::from_utf8_lossy`. Claimed: the result is `lossy_utf8` of the
/// bytes, and on valid UTF-8 it is exactly the decoded text (std's documentation:
/// valid input comes back unchanged; only invalid sequences are replaced).
#[verifier::external_body]
pub(crate) fn decode_lossy(bytes: &[u8]) -> (s: String)
    ensures
        s@ == lossy_utf8(bytes@),
        vstd::utf8::valid_utf8(bytes@) ==> s@ == vstd::utf8::decode_utf8(bytes@),
{
    String::from_utf8_lossy(bytes).into_owned()
}

/// Calls `str::to_lowercase` and hands back the characters of its result.
/// Claimed: they are `lowercase` of the input's characters.
#[verifier::external_body]
pub(crate) fn lowercase_chars(s: &str) -> (v: Vec<char>)
    ensures
        v@ == lowercase(s@),
{
    s.to_lowercase().chars().collect()
}

} // verus!
