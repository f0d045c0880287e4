//! Character-level text handling: Unicode whitespace, splitting into words,
//! substring search, and case mapping.

use vstd::prelude::*;
use crate::config::ascii_lower;

verus! {

/// The Unicode `White_Space` property, which `char::is_whitespace` tests.
pub open spec fn is_ws(c: char) -> bool {
    let u = c as u32;
    ||| 0x09 <= u <= 0x0d
    ||| u == 0x20
    ||| u == 0x85
    ||| u == 0xa0
    ||| u == 0x1680
    ||| 0x2000 <= u <= 0x200a
    ||| u == 0x2028
    ||| u == 0x2029
    ||| u == 0x202f
    ||| u == 0x205f
    ||| u == 0x3000
}

/// Whether `c` is Unicode whitespace.
pub fn is_whitespace(c: char) -> (b: bool)
    ensures
        b == is_ws(c),
{
    let u = c as u32;
    (0x09 <= u && u <= 0x0d) || u == 0x20 || u == 0x85 || u == 0xa0 || u == 0x1680 || (0x2000
        <= u && u <= 0x200a) || u == 0x2028 || u == 0x2029 || u == 0x202f || u == 0x205f || u
        == 0x3000
}

/// The characters of a string, in order.
pub fn chars_of(s: &str) -> (v: Vec<char>)
    ensures
        v@ == s@,
{
    let mut v: Vec<char> = Vec::new();
    for c in it: s.chars()
        invariant
            v@ == it.seq().take(it.index()),
            it.seq() == s@,
    {
        v.push(c);
    }
    v
}

/// A string made of the given characters.
pub fn string_of(v: &Vec<char>) -> (s: String)
    ensures
        s@ == v@,
{
    let mut s = String::new();
    for i in 0..v.len()
        invariant
            s@ == v@.take(i as int),
    {
        push_char(&mut s, v[i]);
        assert(v@.take(i as int).push(v@[i as int]) =~= v@.take(i + 1));
    }
    assert(v@.take(v@.len() as int) =~= v@);
    s
}

/// Calls `String::push`: the character is appended to the string.
#[verifier::external_body]
pub(crate) fn push_char(s: &mut String, c: char)
    ensures
        final(s)@ == old(s)@.push(c),
{
    s.push(c);
}

/// Whether the characters of `v` are exactly those of `lit`.
pub fn eq_lit(v: &Vec<char>, lit: &str) -> (b: bool)
    ensures
        b == (v@ == lit@),
{
    let n = lit.unicode_len();
    if n != v.len() {
        return false;
    }
    for i in 0..n
        invariant
            n == lit@.len(),
            n == v@.len(),
            forall|j: int| 0 <= j < i ==> v@[j] == lit@[j],
    {
        if v[i] != lit.get_char(i) {
            return false;
        }
    }
    assert(v@ =~= lit@);
    true
}

/// Whether two character vectors hold the same characters.
pub fn same_chars(a: &Vec<char>, b: &Vec<char>) -> (r: bool)
    ensures
        r == (a@ == b@),
{
    if a.len() != b.len() {
        return false;
    }
    for i in 0..a.len()
        invariant
            a@.len() == b@.len(),
            forall|j: int| 0 <= j < i ==> a@[j] == b@[j],
    {
        if a[i] != b[i] {
            return false;
        }
    }
    assert(a@ =~= b@);
    true
}

/// Whether `v` begins with the characters of `lit`.
pub fn starts_with_lit(v: &Vec<char>, lit: &str) -> (b: bool)
    ensures
        b == (lit@.len() <= v@.len() && v@.take(lit@.len() as int) == lit@),
{
    let n = lit.unicode_len();
    if n > v.len() {
        return false;
    }
    for i in 0..n
        invariant
            n == lit@.len(),
            n <= v@.len(),
            forall|j: int| 0 <= j < i ==> v@[j] == lit@[j],
    {
        if v[i] != lit.get_char(i) {
            assert(v@.take(n as int)[i as int] != lit@[i as int]);
            return false;
        }
    }
    assert(v@.take(n as int) =~= lit@);
    true
}

/// The characters of `v` from position `start` on.
pub fn skip_chars(v: &Vec<char>, start: usize) -> (r: Vec<char>)
    requires
        start <= v@.len(),
    ensures
        r@ == v@.skip(start as int),
{
    let mut r: Vec<char> = Vec::new();
    let mut i = start;
    while i < v.len()
        invariant
            start <= i <= v@.len(),
            r@ == v@.subrange(start as int, i as int),
        decreases v@.len() - i,
    {
        r.push(v[i]);
        assert(v@.subrange(start as int, i as int).push(v@[i as int]) =~= v@.subrange(
            start as int,
            i + 1,
        ));
        i = i + 1;
    }
    assert(v@.subrange(start as int, v@.len() as int) =~= v@.skip(start as int));
    r
}

/// Whether every character of `s` is whitespace (so that trimming leaves
/// nothing).
pub open spec fn is_blank(s: Seq<char>) -> bool {
    forall|i: int| 0 <= i < s.len() ==> is_ws(#[trigger] s[i])
}

/// Whether `s` is empty once surrounding whitespace is trimmed.
pub fn blank(s: &str) -> (b: bool)
    ensures
        b == is_blank(s@),
{
    let v = chars_of(s);
    for i in 0..v.len()
        invariant
            v@ == s@,
            forall|j: int| 0 <= j < i ==> is_ws(#[trigger] v@[j]),
    {
        if !is_whitespace(v[i]) {
            return false;
        }
    }
    true
}

/// The whitespace-separated words of `s`, in order, as `str::split_whitespace`
/// yields them: the maximal runs of non-whitespace characters.
pub open spec fn words(s: Seq<char>) -> Seq<Seq<char>>
    decreases s.len(),
{
    if s.len() == 0 {
        seq![]
    } else {
        let w = words(s.drop_last());
        let c = s.last();
        if is_ws(c) {
            w
        } else if s.len() >= 2 && !is_ws(s[s.len() - 2]) {
            w.update(w.len() - 1, w.last().push(c))
        } else {
            w.push(seq![c])
        }
    }
}

/// The first word of `s`, or the empty text when `s` has none.
pub open spec fn first_word(s: Seq<char>) -> Seq<char> {
    if words(s).len() > 0 {
        words(s)[0]
    } else {
        seq![]
    }
}

/// A text that ends in a non-whitespace character has at least one word.
pub proof fn lemma_words_nonempty(s: Seq<char>)
    requires
        s.len() > 0,
        !is_ws(s.last()),
    ensures
        words(s).len() > 0,
    decreases s.len(),
{
    if s.len() >= 2 && !is_ws(s[s.len() - 2]) {
        let t = s.drop_last();
        assert(t.last() == s[s.len() - 2]);
        lemma_words_nonempty(t);
    }
}

/// The views of a vector of character vectors.
pub open spec fn char_rows(v: Seq<Vec<char>>) -> Seq<Seq<char>> {
    v.map_values(|w: Vec<char>| w@)
}

/// Each text lower-cased.
pub open spec fn lowered(v: Seq<Seq<char>>) -> Seq<Seq<char>> {
    v.map_values(|w: Seq<char>| lowercase_of(w))
}

/// The words of `s`, split as `str::split_whitespace` does.
pub fn split_words(s: &str) -> (out: Vec<Vec<char>>)
    ensures
        char_rows(out@) == words(s@),
{
    let v = chars_of(s);
    let mut out: Vec<Vec<char>> = Vec::new();
    let mut i: usize = 0;
    while i < v.len()
        invariant
            v@ == s@,
            i <= v@.len(),
            char_rows(out@) == words(v@.take(i as int)),
        decreases v@.len() - i,
    {
        let c = v[i];
        let ghost before = v@.take(i as int);
        let ghost after = v@.take(i + 1);
        assert(after.drop_last() =~= before);
        assert(after.last() == c);
        if is_whitespace(c) {
        } else if i >= 1 && !is_whitespace(v[i - 1]) {
            assert(after[after.len() - 2] == v@[i - 1]);
            proof {
                assert(before.last() == v@[i - 1]);
                lemma_words_nonempty(before);
            }
            let mut w = out.pop().unwrap();
            w.push(c);
            out.push(w);
            assert(char_rows(out@) =~= words(after));
        } else {
            let mut w: Vec<char> = Vec::new();
            w.push(c);
            out.push(w);
            assert(char_rows(out@) =~= words(after));
        }
        i = i + 1;
    }
    assert(v@.take(v@.len() as int) =~= v@);
    out
}

/// Whether `needle` occurs in `hay` as a contiguous run (the empty text
/// occurs everywhere).
pub open spec fn occurs_in(hay: Seq<char>, needle: Seq<char>) -> bool {
    exists|i: int|
        0 <= i && i + needle.len() <= hay.len() && #[trigger] hay.subrange(i, i + needle.len())
            == needle
}

/// Whether `needle` occurs in `hay`, as `str::contains` tests it.
pub fn contains_chars(hay: &Vec<char>, needle: &Vec<char>) -> (b: bool)
    ensures
        b == occurs_in(hay@, needle@),
{
    let n = needle.len();
    if n == 0 {
        assert(hay@.subrange(0, 0int + needle@.len()) =~= needle@);
        return true;
    }
    if n > hay.len() {
        assert(!occurs_in(hay@, needle@));
        return false;
    }
    let last = hay.len() - n;
    let mut i: usize = 0;
    while i <= last
        invariant
            n == needle@.len(),
            n > 0,
            last + n == hay.len(),
            forall|k: int| 0 <= k < i ==> #[trigger] hay@.subrange(k, k + n) != needle@,
        decreases last + 1 - i,
    {
        let mut j: usize = 0;
        let mut same = true;
        while j < n
            invariant
                i <= last,
                n == needle@.len(),
                last + n == hay.len(),
                j <= n,
                same == (forall|t: int| 0 <= t < j ==> hay@[i + t] == needle@[t]),
            decreases n - j,
        {
            if hay[i + j] != needle[j] {
                same = false;
            }
            j = j + 1;
        }
        if same {
            assert(hay@.subrange(i as int, i + n) =~= needle@);
            return true;
        }
        assert(hay@.subrange(i as int, i + n)[0] == hay@[i as int]);
        assert(exists|t: int| 0 <= t < n && hay@[i + t] != needle@[t]);
        let ghost t = choose|t: int| 0 <= t < n && hay@[i + t] != needle@[t];
        assert(hay@.subrange(i as int, i + n)[t] != needle@[t]);
        i = i + 1;
    }
    proof {
        true_is_absent(hay@, needle@, last as int);
    }
    false
}

proof fn true_is_absent(hay: Seq<char>, needle: Seq<char>, last: int)
    requires
        last + needle.len() == hay.len(),
        forall|k: int| 0 <= k < last + 1 ==> #[trigger] hay.subrange(k, k + needle.len()) != needle,
    ensures
        !occurs_in(hay, needle),
{
}

/// The lower-case form of a text, as `str::to_lowercase` computes it.
pub uninterp spec fn lowercase_of(s: Seq<char>) -> Seq<char>;

/// Whether every character of a text is ASCII.
pub open spec fn is_ascii_text(s: Seq<char>) -> bool {
    forall|i: int| 0 <= i < s.len() ==> (#[trigger] s[i] as u32) < 0x80
}

/// Calls `str::to_lowercase`. Believed: the result depends on the text alone
/// (std's fixed Unicode case tables), and on ASCII text it makes the
/// capitals `A`–`Z` small and keeps every other character (their Unicode
/// lowercase mapping); beyond that, what it is is left to the name.
#[verifier::external_body]
pub(crate) fn to_lowercase(s: &str) -> (r: String)
    ensures
        r@ == lowercase_of(s@),
        is_ascii_text(s@) ==> r@ == ascii_lower(s@),
{
    s.to_lowercase()
}

/// The upper-case form of a text, as `str::to_uppercase` computes it.
pub uninterp spec fn uppercase_of(s: Seq<char>) -> Seq<char>;

/// Calls `str::to_uppercase`. Believed: the result depends on the text alone
/// (std's fixed Unicode case tables); what it is is left to the name.
#[verifier::external_body]
pub(crate) fn to_uppercase(s: &str) -> (r: String)
    ensures
        r@ == uppercase_of(s@),
{
    s.to_uppercase()
}

/// Decimal digits of a number, most significant first, without leading zeros
/// (`"0"` for zero).
pub open spec fn decimal(n: nat) -> Seq<char>
    decreases n,
{
    if n < 10 {
        seq![digit(n)]
    } else {
        decimal(n / 10).push(digit(n % 10))
    }
}

/// The ASCII digit for a value below ten.
pub open spec fn digit(d: nat) -> char {
    if d == 0 { '0' } else if d == 1 { '1' } else if d == 2 { '2' } else if d == 3 { '3' }
    else if d == 4 { '4' } else if d == 5 { '5' } else if d == 6 { '6' } else if d == 7 { '7' }
    else if d == 8 { '8' } else { '9' }
}

fn digit_char(d: u8) -> (c: char)
    requires
        d < 10,
    ensures
        c == digit(d as nat),
{
    if d == 0 { '0' } else if d == 1 { '1' } else if d == 2 { '2' } else if d == 3 { '3' }
    else if d == 4 { '4' } else if d == 5 { '5' } else if d == 6 { '6' } else if d == 7 { '7' }
    else if d == 8 { '8' } else { '9' }
}

/// The decimal text of a byte value, as `u8::to_string` writes it.
pub fn decimal_u8(n: u8) -> (s: String)
    ensures
        s@ == decimal(n as nat),
{
    let mut s = String::new();
    if n >= 100 {
        push_char(&mut s, digit_char(n / 100));
        push_char(&mut s, digit_char((n / 10) % 10));
        push_char(&mut s, digit_char(n % 10));
        assert((n / 10) / 10 == n / 100) by (nonlinear_arith);
        assert(decimal((n / 100) as nat) == seq![digit((n / 100) as nat)]);
        assert(decimal((n / 10) as nat) == decimal((n / 100) as nat).push(digit(((n / 10) % 10) as nat)));
        assert(decimal(n as nat) == decimal((n / 10) as nat).push(digit((n % 10) as nat)));
    } else if n >= 10 {
        push_char(&mut s, digit_char(n / 10));
        push_char(&mut s, digit_char(n % 10));
        assert(decimal((n / 10) as nat) == seq![digit((n / 10) as nat)]);
        assert(decimal(n as nat) == decimal((n / 10) as nat).push(digit((n % 10) as nat)));
    } else {
        push_char(&mut s, digit_char(n));
    }
    assert(s@ =~= decimal(n as nat));
    s
}

} // verus!
