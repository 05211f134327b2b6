//! Character-level helpers on strings, specified over `Seq<char>`.
use vstd::prelude::*;
use vstd::std_specs::iter::IteratorSpec;
use vstd::string::*;

verus! {

broadcast use vstd::string::group_string_axioms;

/// `prefix` is an initial segment of `s`.
pub open spec fn is_prefix_of(prefix: Seq<char>, s: Seq<char>) -> bool {
    prefix.len() <= s.len() && s.subrange(0, prefix.len() as int) == prefix
}

/// ASCII lowercasing of one character; every other character is kept.
pub open spec fn ascii_lower(c: char) -> char {
    if 'A' <= c && c <= 'Z' {
        ((c as u32) + 32) as char
    } else {
        c
    }
}

/// The two texts are equal once ASCII letters are folded to lower case.
pub open spec fn eq_ignoring_ascii_case(a: Seq<char>, b: Seq<char>) -> bool {
    a.len() == b.len() && forall|i: int| 0 <= i < a.len() ==> ascii_lower(#[trigger] a[i]) == ascii_lower(b[i])
}

/// The characters of `s`, in order.
pub fn chars_of(s: &str) -> (out: Vec<char>)
    ensures
        out@ == s@,
{
    let mut out: Vec<char> = Vec::new();
    for c in it: s.chars()
        invariant
            it.seq() == s@,
            out@ == it.seq().take(it.index()),
    {
        out.push(c);
    }
    out
}

/// Whether `s` begins with `prefix`.
pub fn starts_with(s: &str, prefix: &str) -> (b: bool)
    ensures
        b == is_prefix_of(prefix@, s@),
{
    let sc = chars_of(s);
    let pc = chars_of(prefix);
    if pc.len() > sc.len() {
        return false;
    }
    let mut i: usize = 0;
    while i < pc.len()
        invariant
            sc@ == s@,
            pc@ == prefix@,
            pc.len() <= sc.len(),
            i <= pc.len(),
            forall|j: int| 0 <= j < i ==> sc@[j] == pc@[j],
        decreases pc.len() - i,
    {
        if sc[i] != pc[i] {
            return false;
        }
        i = i + 1;
    }
    assert(s@.subrange(0, prefix@.len() as int) =~= prefix@);
    true
}

fn lower_char(c: char) -> (l: char)
    ensures
        l == ascii_lower(c),
{
    if 'A' <= c && c <= 'Z' {
        let b: u8 = c as u8;
        ((b + 32) as char)
    } else {
        c
    }
}

/// Whether `a` and `b` are equal when ASCII letters are compared without regard to case.
pub fn eq_ignore_ascii_case(a: &str, b: &str) -> (r: bool)
    ensures
        r == eq_ignoring_ascii_case(a@, b@),
{
    let ac = chars_of(a);
    let bc = chars_of(b);
    if ac.len() != bc.len() {
        return false;
    }
    let mut i: usize = 0;
    while i < ac.len()
        invariant
            ac@ == a@,
            bc@ == b@,
            ac.len() == bc.len(),
            i <= ac.len(),
            forall|j: int| 0 <= j < i ==> ascii_lower(#[trigger] ac@[j]) == ascii_lower(bc@[j]),
        decreases ac.len() - i,
    {
        if lower_char(ac[i]) != lower_char(bc[i]) {
            return false;
        }
        i = i + 1;
    }
    true
}

/// Whether the two texts are identical.
pub fn same_text(a: &str, b: &str) -> (r: bool)
    ensures
        r == (a@ == b@),
{
    let x = String::from_str(a);
    let y = String::from_str(b);
    x == y
}

/// The decimal digit for `d` (below ten).
pub open spec fn digit_char(d: nat) -> char {
    (('0' as nat) + d) as char
}

/// The decimal representation of `n`, most significant digit first, with no leading zeros.
pub open spec fn decimal(n: nat) -> Seq<char>
    decreases n,
{
    if n < 10 {
        seq![digit_char(n)]
    } else {
        decimal(n / 10).push(digit_char(n % 10))
    }
}

fn digit_text(d: u64) -> (s: &'static str)
    requires
        d < 10,
    ensures
        s@ == seq![digit_char(d as nat)],
{
    match d {
        0 => {
            proof { reveal_strlit("0"); }
            "0"
        },
        1 => {
            proof { reveal_strlit("1"); }
            "1"
        },
        2 => {
            proof { reveal_strlit("2"); }
            "2"
        },
        3 => {
            proof { reveal_strlit("3"); }
            "3"
        },
        4 => {
            proof { reveal_strlit("4"); }
            "4"
        },
        5 => {
            proof { reveal_strlit("5"); }
            "5"
        },
        6 => {
            proof { reveal_strlit("6"); }
            "6"
        },
        7 => {
            proof { reveal_strlit("7"); }
            "7"
        },
        8 => {
            proof { reveal_strlit("8"); }
            "8"
        },
        _ => {
            proof { reveal_strlit("9"); }
            "9"
        },
    }
}

/// Appends the decimal representation of `n` to `out`.
pub fn push_decimal(out: &mut String, n: u64)
    ensures
        final(out)@ == old(out)@ + decimal(n as nat),
    decreases n,
{
    if n >= 10 {
        push_decimal(out, n / 10);
    }
    out.append(digit_text(n % 10));
}

/// Unicode `White_Space` characters, as `char::is_whitespace` classifies them.
pub open spec fn is_space(c: char) -> bool {
    ||| ('\u{9}' <= c && c <= '\u{d}')
    ||| c == ' '
    ||| c == '\u{85}'
    ||| c == '\u{a0}'
    ||| c == '\u{1680}'
    ||| ('\u{2000}' <= c && c <= '\u{200a}')
    ||| c == '\u{2028}'
    ||| c == '\u{2029}'
    ||| c == '\u{202f}'
    ||| c == '\u{205f}'
    ||| c == '\u{3000}'
}

fn space_char(c: char) -> (b: bool)
    ensures
        b == is_space(c),
{
    ('\u{9}' <= c && c <= '\u{d}') || c == ' ' || c == '\u{85}' || c == '\u{a0}' || c == '\u{1680}'
        || ('\u{2000}' <= c && c <= '\u{200a}') || c == '\u{2028}' || c == '\u{2029}' || c == '\u{202f}'
        || c == '\u{205f}' || c == '\u{3000}'
}

/// The length of the run of non-space characters that `s` starts with.
pub open spec fn word_len(s: Seq<char>) -> nat
    decreases s.len(),
{
    if s.len() == 0 || is_space(s[0]) {
        0
    } else {
        1 + word_len(s.drop_first())
    }
}

/// The maximal runs of non-space characters in `s`, in order (what `str::split_whitespace` yields).
pub open spec fn words(s: Seq<char>) -> Seq<Seq<char>>
    decreases s.len(),
{
    if s.len() == 0 {
        seq![]
    } else if is_space(s[0]) {
        words(s.drop_first())
    } else {
        let n = word_len(s);
        if n == 0 || n > s.len() {
            seq![]
        } else {
            seq![s.take(n as int)] + words(s.skip(n as int))
        }
    }
}

proof fn lemma_words_skip_spaces(s: Seq<char>, a: int)
    requires
        0 <= a <= s.len(),
        forall|k: int| 0 <= k < a ==> is_space(#[trigger] s[k]),
    ensures
        words(s) == words(s.skip(a)),
    decreases a,
{
    if a > 0 {
        assert(is_space(s[0]));
        let t = s.drop_first();
        assert forall|k: int| 0 <= k < a - 1 implies is_space(#[trigger] t[k]) by {
            assert(t[k] == s[k + 1]);
        }
        lemma_words_skip_spaces(t, a - 1);
        assert(t.skip(a - 1) =~= s.skip(a));
    } else {
        assert(s.skip(0) =~= s);
    }
}

proof fn lemma_word_len(s: Seq<char>, n: int)
    requires
        0 <= n <= s.len(),
        forall|k: int| 0 <= k < n ==> !is_space(#[trigger] s[k]),
        n == s.len() || is_space(s[n]),
    ensures
        word_len(s) == n,
    decreases n,
{
    if n > 0 {
        let t = s.drop_first();
        assert forall|k: int| 0 <= k < n - 1 implies !is_space(#[trigger] t[k]) by {
            assert(t[k] == s[k + 1]);
        }
        if n < s.len() {
            assert(t[n - 1] == s[n]);
        }
        lemma_word_len(t, n - 1);
    }
}

proof fn lemma_words_from(s: Seq<char>, a: int, b: int)
    requires
        0 <= a < b <= s.len(),
        forall|k: int| a <= k < b ==> !is_space(#[trigger] s[k]),
        b == s.len() || is_space(s[b]),
    ensures
        words(s.skip(a)) == seq![s.subrange(a, b)] + words(s.skip(b)),
{
    let t = s.skip(a);
    assert forall|k: int| 0 <= k < b - a implies !is_space(#[trigger] t[k]) by {
        assert(t[k] == s[a + k]);
    }
    if b < s.len() {
        assert(t[b - a] == s[b]);
    }
    lemma_word_len(t, b - a);
    assert(!is_space(t[0]));
    assert(t.take(b - a) =~= s.subrange(a, b));
    assert(t.skip(b - a) =~= s.skip(b));
}

/// Scans from `start` to the end of the run of characters that are (`space`) or are not
/// (`!space`) space characters.
fn scan_run(cs: &Vec<char>, start: usize, space: bool) -> (end: usize)
    requires
        start <= cs.len(),
    ensures
        start <= end <= cs.len(),
        forall|k: int| start <= k < end ==> is_space(#[trigger] cs@[k]) == space,
        end == cs.len() || is_space(cs@[end as int]) != space,
{
    let mut i = start;
    while i < cs.len()
        invariant
            start <= i <= cs.len(),
            forall|k: int| start <= k < i ==> is_space(#[trigger] cs@[k]) == space,
        decreases cs.len() - i,
    {
        if space_char(cs[i]) != space {
            return i;
        }
        i = i + 1;
    }
    i
}

/// The first two words of `line`, when it has at least two.
pub fn first_two_words(line: &str) -> (r: Option<(String, String)>)
    ensures
        r is Some <==> words(line@).len() >= 2,
        r matches Some((a, b)) ==> a@ == words(line@)[0] && b@ == words(line@)[1],
{
    let cs = chars_of(line);
    let ghost s = line@;
    let a = scan_run(&cs, 0, true);
    proof {
        lemma_words_skip_spaces(s, a as int);
    }
    if a == cs.len() {
        assert(s.skip(a as int).len() == 0);
        return None;
    }
    let b = scan_run(&cs, a, false);
    proof {
        lemma_words_from(s, a as int, b as int);
    }
    let c = scan_run(&cs, b, true);
    proof {
        let t = s.skip(b as int);
        assert forall|k: int| 0 <= k < c - b implies is_space(#[trigger] t[k]) by {
            assert(t[k] == s[b + k]);
        }
        lemma_words_skip_spaces(t, (c - b) as int);
        assert(t.skip((c - b) as int) =~= s.skip(c as int));
    }
    if c == cs.len() {
        assert(s.skip(c as int).len() == 0);
        assert(words(s) =~= seq![s.subrange(a as int, b as int)]);
        return None;
    }
    let d = scan_run(&cs, c, false);
    proof {
        lemma_words_from(s, c as int, d as int);
    }
    let first = String::from_str(line.substring_char(a, b));
    let second = String::from_str(line.substring_char(c, d));
    Some((first, second))
}

/// The first line of `text` as `str::lines` yields it: the text before the first `'\n'`, less a
/// `'\r'` that ends it, or the whole text when there is no `'\n'`; `None` for empty text.
pub open spec fn first_line(text: Seq<char>) -> Option<Seq<char>> {
    if text.len() == 0 {
        None
    } else if exists|k: int| 0 <= k < text.len() && text[k] == '\n' {
        let k = choose|k: int| 0 <= k < text.len() && text[k] == '\n' && forall|j: int| 0 <= j < k ==> text[j] != '\n';
        let line = text.take(k);
        if line.len() > 0 && line.last() == '\r' {
            Some(line.drop_last())
        } else {
            Some(line)
        }
    } else {
        Some(text)
    }
}

/// The first line of `text`, or `None` when `text` is empty.
pub fn first_line_of(text: &str) -> (r: Option<&str>)
    ensures
        match r {
            Some(line) => first_line(text@) == Some(line@),
            None => first_line(text@) is None,
        },
{
    let cs = chars_of(text);
    if cs.len() == 0 {
        return None;
    }
    let mut k: usize = 0;
    while k < cs.len()
        invariant
            k <= cs.len(),
            cs@ == text@,
            forall|j: int| 0 <= j < k ==> cs@[j] != '\n',
        ensures
            k <= cs.len(),
            forall|j: int| 0 <= j < k ==> cs@[j] != '\n',
            k < cs.len() ==> cs@[k as int] == '\n',
        decreases cs.len() - k,
    {
        if cs[k] == '\n' {
            break;
        }
        k = k + 1;
    }
    if k == cs.len() {
        return Some(text);
    }
    proof {
        let w = choose|w: int| 0 <= w < text@.len() && text@[w] == '\n' && forall|j: int| 0 <= j < w ==> text@[j] != '\n';
        assert(0 <= k < text@.len() && text@[k as int] == '\n' && forall|j: int| 0 <= j < k ==> text@[j] != '\n');
        assert(w == k);
    }
    if k > 0 && cs[k - 1] == '\r' {
        let line = text.substring_char(0, k - 1);
        assert(line@ =~= text@.take(k as int).drop_last());
        Some(line)
    } else {
        let line = text.substring_char(0, k);
        assert(line@ =~= text@.take(k as int));
        Some(line)
    }
}

} // verus!
