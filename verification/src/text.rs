//! Text helpers: Unicode white space, trimming, word counting and decimal
//! rendering of integers.
use vstd::prelude::*;

verus! {

/// `c` has the Unicode `White_Space` property (the definition of
/// `char::is_whitespace`).
pub open spec fn is_white_space(c: char) -> bool {
    let n: int = c as int;
    ||| 9 <= n <= 13
    ||| n == 32
    ||| n == 0x85
    ||| n == 0xA0
    ||| n == 0x1680
    ||| 0x2000 <= n <= 0x200A
    ||| n == 0x2028
    ||| n == 0x2029
    ||| n == 0x202F
    ||| n == 0x205F
    ||| n == 0x3000
}

/// Executable form of [`is_white_space`].
pub fn white_space(c: char) -> (b: bool)
    ensures
        b == is_white_space(c),
{
    let n: u32 = c as u32;
    (9 <= n && n <= 13) || n == 32 || n == 0x85 || n == 0xA0 || n == 0x1680 || (0x2000 <= n && n
        <= 0x200A) || n == 0x2028 || n == 0x2029 || n == 0x202F || n == 0x205F || n == 0x3000
}

/// Number of white-space characters at the start of `s`.
pub open spec fn leading_white_space(s: Seq<char>) -> nat
    decreases s.len(),
{
    if s.len() > 0 && is_white_space(s[0]) {
        1 + leading_white_space(s.drop_first())
    } else {
        0
    }
}

/// Number of white-space characters at the end of `s`.
pub open spec fn trailing_white_space(s: Seq<char>) -> nat
    decreases s.len(),
{
    if s.len() > 0 && is_white_space(s.last()) {
        1 + trailing_white_space(s.drop_last())
    } else {
        0
    }
}

/// `s` without its leading and trailing white space (what `str::trim` gives).
pub open spec fn trim(s: Seq<char>) -> Seq<char> {
    let t = s.skip(leading_white_space(s) as int);
    t.take(t.len() - trailing_white_space(t))
}

/// `s[i]` begins a word: it is not white space and the character before it,
/// if any, is.
pub open spec fn starts_word(s: Seq<char>, i: int) -> bool {
    &&& !is_white_space(s[i])
    &&& (i == 0 || is_white_space(s[i - 1]))
}

/// Number of maximal runs of non-white-space characters in `s` (what
/// `str::split_whitespace().count()` gives).
pub open spec fn word_count(s: Seq<char>) -> nat
    decreases s.len(),
{
    if s.len() == 0 {
        0
    } else {
        word_count(s.drop_last()) + if starts_word(s, s.len() - 1) {
            1nat
        } else {
            0nat
        }
    }
}

proof fn lemma_leading_step(s: Seq<char>, i: int)
    requires
        0 <= i < s.len(),
        is_white_space(s[i]),
    ensures
        leading_white_space(s.skip(i)) == 1 + leading_white_space(s.skip(i + 1)),
{
    assert(s.skip(i).drop_first() =~= s.skip(i + 1));
}

proof fn lemma_trailing_step(s: Seq<char>, j: int)
    requires
        0 < j <= s.len(),
        is_white_space(s[j - 1]),
    ensures
        trailing_white_space(s.take(j)) == 1 + trailing_white_space(s.take(j - 1)),
{
    assert(s.take(j).drop_last() =~= s.take(j - 1));
}

/// Character positions `(start, end)` such that `s[start..end]` is `trim(s)`.
fn trim_bounds(s: &str) -> (r: (usize, usize))
    ensures
        r.0 <= r.1 <= s@.len(),
        s@.subrange(r.0 as int, r.1 as int) == trim(s@),
{
    let n: usize = s.unicode_len();
    let mut i: usize = 0;
    assert(s@.skip(0) =~= s@);
    while i < n && white_space(s.get_char(i))
        invariant
            n == s@.len(),
            i <= n,
            leading_white_space(s@) == i + leading_white_space(s@.skip(i as int)),
        decreases n - i,
    {
        proof {
            lemma_leading_step(s@, i as int);
        }
        i = i + 1;
    }
    assert(leading_white_space(s@.skip(i as int)) == 0);
    let ghost t = s@.skip(i as int);
    let mut j: usize = n;
    assert(t.take(n - i) =~= t);
    while j > i && white_space(s.get_char(j - 1))
        invariant
            n == s@.len(),
            i <= j <= n,
            t == s@.skip(i as int),
            trailing_white_space(t) == (n - j) + trailing_white_space(t.take(j - i)),
        decreases j,
    {
        proof {
            lemma_trailing_step(t, j - i);
        }
        j = j - 1;
    }
    assert(trailing_white_space(t.take(j - i)) == 0) by {
        if j > i {
            assert(t.take(j - i).last() == s@[j - 1]);
        }
    }
    assert(t.take(t.len() - trailing_white_space(t)) =~= s@.subrange(i as int, j as int));
    (i, j)
}

proof fn lemma_leading_bound(s: Seq<char>)
    ensures
        leading_white_space(s) <= s.len(),
        leading_white_space(s) < s.len() ==> !is_white_space(s[leading_white_space(s) as int]),
    decreases s.len(),
{
    if s.len() > 0 && is_white_space(s[0]) {
        lemma_leading_bound(s.drop_first());
    }
}

proof fn lemma_trailing_bound(s: Seq<char>)
    ensures
        trailing_white_space(s) <= s.len(),
        trailing_white_space(s) < s.len() ==> !is_white_space(
            s[s.len() - 1 - trailing_white_space(s)],
        ),
    decreases s.len(),
{
    if s.len() > 0 && is_white_space(s.last()) {
        lemma_trailing_bound(s.drop_last());
    }
}

/// A trimmed text that is not empty starts and ends with characters that are
/// not white space.
pub proof fn lemma_trim_ends(s: Seq<char>)
    ensures
        trim(s).len() > 0 ==> !is_white_space(trim(s)[0]) && !is_white_space(trim(s).last()),
{
    let t = s.skip(leading_white_space(s) as int);
    lemma_leading_bound(s);
    lemma_trailing_bound(t);
    if trim(s).len() > 0 {
        assert(trim(s)[0] == t[0]);
        assert(trim(s).last() == t[t.len() - 1 - trailing_white_space(t)]);
    }
}

/// A text that has a word is not empty.
pub proof fn lemma_words_need_text(s: Seq<char>)
    ensures
        word_count(s) > 0 ==> s.len() > 0,
{
}

/// Joining after white space adds the words of both parts.
pub proof fn lemma_word_count_join(p: Seq<char>, t: Seq<char>)
    requires
        p.len() > 0,
        is_white_space(p.last()),
    ensures
        word_count(p + t) == word_count(p) + word_count(t),
    decreases t.len(),
{
    if t.len() > 0 {
        lemma_word_count_join(p, t.drop_last());
        assert((p + t).drop_last() =~= p + t.drop_last());
        let n = (p + t).len() - 1;
        if t.len() == 1 {
            assert((p + t)[n - 1] == p.last());
        } else {
            assert((p + t)[n - 1] == t[t.len() - 2]);
        }
        assert((p + t)[n] == t[t.len() - 1]);
    }
}

/// `s` without its leading and trailing white space.
pub fn trimmed(s: &str) -> (r: &str)
    ensures
        r@ == trim(s@),
{
    let (start, end) = trim_bounds(s);
    s.substring_char(start, end)
}

/// Number of white-space separated words in `s`.
pub fn count_words(s: &str) -> (n: usize)
    ensures
        n == word_count(s@),
{
    let len: usize = s.unicode_len();
    let mut count: usize = 0;
    let mut prev_white = true;
    let mut i: usize = 0;
    while i < len
        invariant
            len == s@.len(),
            i <= len,
            count == word_count(s@.take(i as int)),
            count <= i,
            prev_white == (i == 0 || is_white_space(s@[i - 1])),
        decreases len - i,
    {
        let c = s.get_char(i);
        let w = white_space(c);
        assert(s@.take(i + 1).drop_last() =~= s@.take(i as int));
        assert(starts_word(s@.take(i + 1), i as int) == (!w && prev_white));
        if !w && prev_white {
            count = count + 1;
        }
        prev_white = w;
        i = i + 1;
    }
    assert(s@.take(len as int) =~= s@);
    count
}

/// The decimal digit `d` as a character.
pub open spec fn digit_char(d: nat) -> char {
    (48 + d) as char
}

/// Decimal rendering of `n`, without sign or leading zeros.
pub open spec fn decimal(n: nat) -> Seq<char>
    decreases n,
{
    if n < 10 {
        seq![digit_char(n)]
    } else {
        decimal(n / 10).push(digit_char(n % 10))
    }
}

fn digit_text(d: usize) -> (r: &'static str)
    requires
        d < 10,
    ensures
        r@ == seq![digit_char(d as nat)],
{
    if d == 0 {
        proof { reveal_strlit("0"); }
        "0"
    } else if d == 1 {
        proof { reveal_strlit("1"); }
        "1"
    } else if d == 2 {
        proof { reveal_strlit("2"); }
        "2"
    } else if d == 3 {
        proof { reveal_strlit("3"); }
        "3"
    } else if d == 4 {
        proof { reveal_strlit("4"); }
        "4"
    } else if d == 5 {
        proof { reveal_strlit("5"); }
        "5"
    } else if d == 6 {
        proof { reveal_strlit("6"); }
        "6"
    } else if d == 7 {
        proof { reveal_strlit("7"); }
        "7"
    } else if d == 8 {
        proof { reveal_strlit("8"); }
        "8"
    } else {
        proof { reveal_strlit("9"); }
        "9"
    }
}

/// Decimal rendering of `n` (what `n.to_string()` gives).
pub fn decimal_string(n: usize) -> (s: String)
    ensures
        s@ == decimal(n as nat),
    decreases n,
{
    if n < 10 {
        String::from_str(digit_text(n))
    } else {
        let mut s = decimal_string(n / 10);
        s.append(digit_text(n % 10));
        s
    }
}

} // verus!
