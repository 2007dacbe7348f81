//! Text as sequences of characters: words, trimming, splitting, searching.

use vstd::prelude::*;

verus! {

/// The `White_Space` property of Unicode.
pub open spec fn is_white_space(c: char) -> bool {
    ||| 0x09 <= c as u32 <= 0x0D
    ||| c as u32 == 0x20
    ||| c as u32 == 0x85
    ||| c as u32 == 0xA0
    ||| c as u32 == 0x1680
    ||| 0x2000 <= c as u32 <= 0x200A
    ||| c as u32 == 0x2028
    ||| c as u32 == 0x2029
    ||| c as u32 == 0x202F
    ||| c as u32 == 0x205F
    ||| c as u32 == 0x3000
}

/// Whether `c` is white space.
pub fn white_space(c: char) -> (r: bool)
    ensures
        r == is_white_space(c),
{
    let n: u32 = c as u32;
    (0x09 <= n && n <= 0x0D) || n == 0x20 || n == 0x85 || n == 0xA0 || n == 0x1680 || (0x2000 <= n
        && n <= 0x200A) || n == 0x2028 || n == 0x2029 || n == 0x202F || n == 0x205F || n == 0x3000
}

/// The characters of `s`, one by one.
pub fn chars_of(s: &str) -> (r: Vec<char>)
    ensures
        r@ == s@,
{
    let mut r: Vec<char> = Vec::new();
    for c in it: s.chars()
        invariant
            r@ == it.seq().take(it.index() as int),
    {
        r.push(c);
    }
    r
}

/// Whether `a` and `b` hold the same characters.
pub fn same_text(a: &str, b: &str) -> (r: bool)
    ensures
        r == (a@ == b@),
{
    a.to_owned() == b.to_owned()
}

/// How many characters at the front of `s` satisfy `p`, up to the first that
/// does not.
pub open spec fn span(s: Seq<char>, p: spec_fn(char) -> bool) -> nat
    decreases s.len(),
{
    if s.len() == 0 || !p(s[0]) {
        0
    } else {
        1 + span(s.drop_first(), p)
    }
}

/// `span` is the first position where `p` fails, or the length.
pub proof fn lemma_span(s: Seq<char>, p: spec_fn(char) -> bool)
    ensures
        span(s, p) <= s.len(),
        forall|i: int| 0 <= i < span(s, p) ==> p(#[trigger] s[i]),
        span(s, p) < s.len() ==> !p(s[span(s, p) as int]),
    decreases s.len(),
{
    if s.len() != 0 && p(s[0]) {
        let rest = s.drop_first();
        lemma_span(rest, p);
        assert forall|i: int| 0 <= i < span(s, p) implies p(#[trigger] s[i]) by {
            if i > 0 {
                assert(rest[i - 1] == s[i]);
            }
        }
        if span(s, p) < s.len() {
            assert(rest[span(rest, p) as int] == s[span(s, p) as int]);
        }
    }
}

/// A position that looks like the end of the leading run is that end.
pub proof fn lemma_span_at(s: Seq<char>, p: spec_fn(char) -> bool, n: int)
    requires
        0 <= n <= s.len(),
        forall|i: int| 0 <= i < n ==> p(#[trigger] s[i]),
        n < s.len() ==> !p(s[n]),
    ensures
        span(s, p) == n,
{
    lemma_span(s, p);
    if span(s, p) < n {
        assert(p(s[span(s, p) as int]));
    }
}

/// The characters that are white space.
pub open spec fn spaces() -> spec_fn(char) -> bool {
    |c: char| is_white_space(c)
}

/// The characters that are not white space.
pub open spec fn solids() -> spec_fn(char) -> bool {
    |c: char| !is_white_space(c)
}

/// The characters other than `c`.
pub open spec fn all_but(c: char) -> spec_fn(char) -> bool {
    |d: char| d != c
}

/// The words of `s`: its maximal runs without white space, in order.
pub open spec fn words(s: Seq<char>) -> Seq<Seq<char>>
    decreases s.len(),
{
    if s.len() == 0 {
        Seq::empty()
    } else if is_white_space(s[0]) {
        words(s.drop_first())
    } else {
        proof {
            lemma_span(s, solids());
        }
        seq![s.take(span(s, solids()) as int)] + words(s.skip(span(s, solids()) as int))
    }
}

/// Splits `s` into its words.
pub fn split_whitespace(s: &str) -> (r: Vec<String>)
    ensures
        r.deep_view() == words(s@),
{
    let chars = chars_of(s);
    let mut r: Vec<String> = Vec::new();
    let mut i: usize = 0;
    assert(s@.skip(0) == s@);
    while i < chars.len()
        invariant
            chars@ == s@,
            i <= chars.len(),
            words(s@) == r.deep_view() + words(s@.skip(i as int)),
        decreases chars.len() - i,
    {
        let ghost rest = s@.skip(i as int);
        if white_space(chars[i]) {
            assert(rest.drop_first() == s@.skip(i + 1));
            i = i + 1;
        } else {
            let mut j: usize = i + 1;
            while j < chars.len() && !white_space(chars[j])
                invariant
                    chars@ == s@,
                    i < j <= chars.len(),
                    forall|k: int| i <= k < j ==> !is_white_space(#[trigger] chars[k]),
                decreases chars.len() - j,
            {
                j = j + 1;
            }
            proof {
                lemma_span_at(rest, solids(), j - i);
                assert(rest.take(j - i) == s@.subrange(i as int, j as int));
                assert(rest.skip(j - i) == s@.skip(j as int));
            }
            let ghost before = r.deep_view();
            r.push(s.substring_char(i, j).to_owned());
            assert(r.deep_view() == before.push(rest.take(j - i)));
            i = j;
        }
    }
    r
}

/// `s` without the white space at its end.
pub open spec fn trim_end(s: Seq<char>) -> Seq<char>
    decreases s.len(),
{
    if s.len() > 0 && is_white_space(s.last()) {
        trim_end(s.drop_last())
    } else {
        s
    }
}

/// `s` without the white space at both ends.
pub open spec fn trimmed(s: Seq<char>) -> Seq<char> {
    trim_end(s.skip(span(s, spaces()) as int))
}

/// Cuts the white space off both ends of `s`.
pub fn trim<'a>(s: &'a str) -> (r: &'a str)
    ensures
        r@ == trimmed(s@),
{
    let chars = chars_of(s);
    let mut from: usize = 0;
    while from < chars.len() && white_space(chars[from])
        invariant
            chars@ == s@,
            from <= chars.len(),
            forall|k: int| 0 <= k < from ==> is_white_space(#[trigger] chars[k]),
        decreases chars.len() - from,
    {
        from = from + 1;
    }
    proof {
        lemma_span_at(s@, spaces(), from as int);
    }
    let mut to: usize = chars.len();
    assert(s@.subrange(from as int, to as int) == s@.skip(from as int));
    while from < to && white_space(chars[to - 1])
        invariant
            chars@ == s@,
            from <= to <= chars.len(),
            trim_end(s@.subrange(from as int, to as int)) == trimmed(s@),
        decreases to,
    {
        assert(s@.subrange(from as int, to as int).drop_last() == s@.subrange(
            from as int,
            to - 1,
        ));
        to = to - 1;
    }
    s.substring_char(from, to)
}

/// The pieces of `s` between the occurrences of `sep`; one piece more than
/// there are occurrences.
pub open spec fn pieces(s: Seq<char>, sep: char) -> Seq<Seq<char>>
    decreases s.len(),
{
    let n = span(s, all_but(sep)) as int;
    if n >= s.len() {
        seq![s]
    } else {
        seq![s.take(n)] + pieces(s.skip(n + 1), sep)
    }
}

/// The part of `s` before the first `sep`; all of `s` where there is none.
pub open spec fn before(s: Seq<char>, sep: char) -> Seq<char> {
    s.take(span(s, all_but(sep)) as int)
}

/// Splits `s` at every `sep`.
pub fn split(s: &str, sep: char) -> (r: Vec<String>)
    ensures
        r.deep_view() == pieces(s@, sep),
{
    let chars = chars_of(s);
    let mut r: Vec<String> = Vec::new();
    let mut i: usize = 0;
    let mut j: usize = 0;
    assert(s@.skip(0) == s@);
    assert(r.deep_view() + pieces(s@, sep) == pieces(s@, sep));
    while j < chars.len()
        invariant
            chars@ == s@,
            i <= j <= chars.len(),
            forall|k: int| i <= k < j ==> #[trigger] chars[k] != sep,
            pieces(s@, sep) == r.deep_view() + pieces(s@.skip(i as int), sep),
        decreases chars.len() - j,
    {
        if chars[j] == sep {
            let ghost rest = s@.skip(i as int);
            proof {
                lemma_span_at(rest, all_but(sep), j - i);
                assert(rest.take(j - i) == s@.subrange(i as int, j as int));
                assert(rest.skip(j - i + 1) == s@.skip(j + 1));
            }
            let ghost done = r.deep_view();
            r.push(s.substring_char(i, j).to_owned());
            assert(r.deep_view() == done.push(rest.take(j - i)));
            i = j + 1;
        }
        j = j + 1;
    }
    proof {
        let rest = s@.skip(i as int);
        lemma_span_at(rest, all_but(sep), j - i);
        assert(rest == s@.subrange(i as int, j as int));
    }
    let ghost done = r.deep_view();
    r.push(s.substring_char(i, j).to_owned());
    assert(r.deep_view() == done.push(s@.skip(i as int)));
    r
}

/// The part of `s` before the first `sep`.
pub fn split_first<'a>(s: &'a str, sep: char) -> (r: &'a str)
    ensures
        r@ == before(s@, sep),
{
    let chars = chars_of(s);
    let mut n: usize = 0;
    while n < chars.len() && chars[n] != sep
        invariant
            chars@ == s@,
            n <= chars.len(),
            forall|k: int| 0 <= k < n ==> #[trigger] chars[k] != sep,
        decreases chars.len() - n,
    {
        n = n + 1;
    }
    proof {
        lemma_span_at(s@, all_but(sep), n as int);
    }
    s.substring_char(0, n)
}

/// Whether `s` begins with `p`.
pub fn starts_with(s: &str, p: &str) -> (r: bool)
    ensures
        r == p@.is_prefix_of(s@),
{
    let n = s.unicode_len();
    let m = p.unicode_len();
    m <= n && same_text(s.substring_char(0, m), p)
}

/// Whether `s` ends with `p`.
pub fn ends_with(s: &str, p: &str) -> (r: bool)
    ensures
        r == p@.is_suffix_of(s@),
{
    let n = s.unicode_len();
    let m = p.unicode_len();
    m <= n && same_text(s.substring_char(n - m, n), p)
}

/// `p` occurs somewhere in `s`.
pub open spec fn has_part(s: Seq<char>, p: Seq<char>) -> bool {
    exists|i: int|
        0 <= i <= s.len() - p.len() && #[trigger] s.subrange(i, i + p.len()) == p
}

/// Whether `p` occurs somewhere in `s`.
pub fn contains(s: &str, p: &str) -> (r: bool)
    ensures
        r == has_part(s@, p@),
{
    let n = s.unicode_len();
    let m = p.unicode_len();
    let mut i: usize = 0;
    while m <= n && i <= n - m
        invariant
            n == s@.len(),
            m == p@.len(),
            m <= n ==> i <= n - m + 1,
            forall|k: int| 0 <= k < i && k <= n - m ==> #[trigger] s@.subrange(k, k + m) != p@,
        decreases n - i,
    {
        if same_text(s.substring_char(i, i + m), p) {
            return true;
        }
        if i == n - m {
            return false;
        }
        i = i + 1;
    }
    false
}

/// Whether `c` is one of the digits `0` to `9`.
pub open spec fn is_digit(c: char) -> bool {
    '0' <= c <= '9'
}

/// The digits `0` to `9`.
pub open spec fn digits() -> spec_fn(char) -> bool {
    |c: char| is_digit(c)
}

/// The number that a run of digits denotes.
pub open spec fn number(s: Seq<char>) -> nat
    decreases s.len(),
{
    if s.len() == 0 {
        0
    } else {
        number(s.drop_last()) * 10 + (s.last() as nat - '0' as nat) as nat
    }
}

/// `n` in decimal digits, without leading zeros.
pub open spec fn decimal(n: nat) -> Seq<char>
    decreases n,
{
    let last = ('0' as nat + n % 10) as char;
    if n < 10 {
        seq![last]
    } else {
        decimal(n / 10).push(last)
    }
}

/// The decimal text of a number consists of digits and denotes that number.
pub proof fn lemma_decimal(n: nat)
    ensures
        decimal(n).len() > 0,
        forall|i: int| 0 <= i < decimal(n).len() ==> is_digit(#[trigger] decimal(n)[i]),
        number(decimal(n)) == n,
    decreases n,
{
    let last = ('0' as nat + n % 10) as char;
    assert(last as nat == '0' as nat + n % 10);
    if n < 10 {
        reveal_with_fuel(number, 2);
        assert(decimal(n).drop_last() == Seq::<char>::empty());
    } else {
        lemma_decimal(n / 10);
        assert(decimal(n).drop_last() == decimal(n / 10));
    }
}

/// Writes `n` in decimal.
pub fn decimal_text(n: u32) -> (r: String)
    ensures
        r@ == decimal(n as nat),
    decreases n,
{
    let d: usize = (n % 10) as usize;
    let all = "0123456789";
    proof {
        reveal_strlit("0123456789");
        assert(all@[d as int] == ('0' as nat + n as nat % 10) as char);
    }
    let last = all.substring_char(d, d + 1);
    if n < 10 {
        assert(last@ == decimal(n as nat));
        last.to_owned()
    } else {
        let mut r = decimal_text(n / 10);
        r.append(last);
        assert(r@ == decimal(n as nat));
        r
    }
}

/// Every item of `list` with `sep` in front of it.
pub open spec fn prefixed(list: Seq<Seq<char>>, sep: Seq<char>) -> Seq<char>
    decreases list.len(),
{
    if list.len() == 0 {
        Seq::empty()
    } else {
        sep + list[0] + prefixed(list.drop_first(), sep)
    }
}

/// The items of `list` with `sep` between them.
pub open spec fn joined(list: Seq<Seq<char>>, sep: Seq<char>) -> Seq<char> {
    if list.len() == 0 {
        Seq::empty()
    } else {
        list[0] + prefixed(list.drop_first(), sep)
    }
}

/// Joins the items of `list` with `sep`.
pub fn join(list: &Vec<String>, sep: &str) -> (r: String)
    ensures
        r@ == joined(list.deep_view(), sep@),
{
    let mut r = String::new();
    if list.len() == 0 {
        return r;
    }
    r.append(list[0].as_str());
    let ghost all = list.deep_view();
    assert(all.skip(1) == all.drop_first());
    assert(r@ == all[0]);
    let mut i: usize = 1;
    while i < list.len()
        invariant
            all == list.deep_view(),
            1 <= i <= list.len(),
            joined(all, sep@) == r@ + prefixed(all.skip(i as int), sep@),
        decreases list.len() - i,
    {
        let ghost so_far = r@;
        r.append(sep);
        r.append(list[i].as_str());
        proof {
            let rest = all.skip(i as int);
            assert(rest.drop_first() == all.skip(i + 1));
            assert(rest[0] == list[i as int]@);
            assert(so_far + (sep@ + rest[0] + prefixed(rest.drop_first(), sep@)) == r@ + prefixed(
                rest.drop_first(),
                sep@,
            ));
        }
        i = i + 1;
    }
    assert(all.skip(i as int).len() == 0);
    assert(r@ + Seq::<char>::empty() == r@);
    r
}

/// No word is empty, and none holds white space.
pub proof fn law_words_are_solid(s: Seq<char>)
    ensures
        forall|i: int| 0 <= i < words(s).len() ==> (#[trigger] words(s)[i]).len() > 0,
        forall|i: int, k: int|
            0 <= i < words(s).len() && 0 <= k < words(s)[i].len() ==> !is_white_space(
                #[trigger] words(s)[i][k],
            ),
    decreases s.len(),
{
    if s.len() > 0 {
        if is_white_space(s[0]) {
            law_words_are_solid(s.drop_first());
            assert(words(s) == words(s.drop_first()));
        } else {
            let n = span(s, solids()) as int;
            lemma_span(s, solids());
            law_words_are_solid(s.skip(n));
            let rest = words(s.skip(n));
            assert forall|i: int| 0 <= i < words(s).len() implies (#[trigger] words(s)[i]).len()
                > 0 by {
                if i > 0 {
                    assert(words(s)[i] == rest[i - 1]);
                }
            }
            assert forall|i: int, k: int|
                0 <= i < words(s).len() && 0 <= k < words(s)[i].len() implies !is_white_space(
                #[trigger] words(s)[i][k],
            ) by {
                if i > 0 {
                    assert(words(s)[i] == rest[i - 1]);
                } else {
                    assert(solids()(s[k]));
                }
            }
        }
    }
}

/// Splitting into words loses the white space and nothing else: the words, one
/// after the other, are the characters of `s` that are not white space.
pub proof fn law_words_keep_all_solids(s: Seq<char>)
    ensures
        words(s).flatten() == s.filter(solids()),
    decreases s.len(),
{
    reveal(Seq::filter);
    if s.len() > 0 {
        if is_white_space(s[0]) {
            let rest = s.drop_first();
            law_words_keep_all_solids(rest);
            assert(s == seq![s[0]] + rest);
            Seq::filter_distributes_over_add(seq![s[0]], rest, solids());
            reveal_with_fuel(Seq::filter, 2);
            assert(seq![s[0]].drop_last() == Seq::<char>::empty());
            assert(seq![s[0]].filter(solids()) == Seq::<char>::empty());
        } else {
            let n = span(s, solids()) as int;
            lemma_span(s, solids());
            let rest = s.skip(n);
            law_words_keep_all_solids(rest);
            lemma_filter_all(s.take(n), solids());
            assert(s == s.take(n) + rest);
            Seq::filter_distributes_over_add(s.take(n), rest, solids());
            assert(words(s).drop_first() == words(rest));
        }
    }
}

proof fn lemma_filter_all(s: Seq<char>, p: spec_fn(char) -> bool)
    requires
        forall|i: int| 0 <= i < s.len() ==> p(#[trigger] s[i]),
    ensures
        s.filter(p) == s,
    decreases s.len(),
{
    reveal(Seq::filter);
    if s.len() > 0 {
        lemma_filter_all(s.drop_last(), p);
        assert(s == s.drop_last().push(s.last()));
    }
}

/// A text that is not all white space has a word.
pub proof fn lemma_words_exist(s: Seq<char>, i: int)
    requires
        0 <= i < s.len(),
        !is_white_space(s[i]),
    ensures
        words(s).len() > 0,
    decreases s.len(),
{
    if is_white_space(s[0]) {
        assert(s.drop_first()[i - 1] == s[i]);
        lemma_words_exist(s.drop_first(), i - 1);
    }
}

/// Trimming leaves no white space at either end, and trimming again changes
/// nothing.
pub proof fn law_trimmed(s: Seq<char>)
    ensures
        trimmed(s).len() > 0 ==> !is_white_space(trimmed(s)[0]) && !is_white_space(
            trimmed(s).last(),
        ),
        trimmed(trimmed(s)) == trimmed(s),
{
    let n = span(s, spaces()) as int;
    lemma_span(s, spaces());
    let t = s.skip(n);
    lemma_trim_end(t);
    let r = trimmed(s);
    if r.len() > 0 {
        assert(r[0] == t[0]);
        assert(!spaces()(s[n]));
        lemma_span_at(r, spaces(), 0);
    } else {
        lemma_span_at(r, spaces(), 0);
    }
    assert(r.skip(0) == r);
}

proof fn lemma_trim_end(s: Seq<char>)
    ensures
        trim_end(s).is_prefix_of(s),
        trim_end(s).len() > 0 ==> !is_white_space(trim_end(s).last()),
    decreases s.len(),
{
    if s.len() > 0 && is_white_space(s.last()) {
        lemma_trim_end(s.drop_last());
    }
}

/// The pieces between separators, joined by the separator, are the text again;
/// and the first piece is what stands before the first separator.
pub proof fn law_pieces_rejoin(s: Seq<char>, sep: char)
    ensures
        pieces(s, sep).len() > 0,
        joined(pieces(s, sep), seq![sep]) == s,
        pieces(s, sep)[0] == before(s, sep),
    decreases s.len(),
{
    lemma_span(s, all_but(sep));
    let n = span(s, all_but(sep)) as int;
    if n >= s.len() {
        assert(s.take(n) == s);
        assert(pieces(s, sep).drop_first() == Seq::<Seq<char>>::empty());
        assert(s + Seq::<char>::empty() == s);
    } else {
        let rest = s.skip(n + 1);
        law_pieces_rejoin(rest, sep);
        let ps = pieces(rest, sep);
        assert(pieces(s, sep).drop_first() == ps);
        assert(prefixed(ps, seq![sep]) == seq![sep] + ps[0] + prefixed(ps.drop_first(), seq![sep]));
        assert(s[n] == sep);
        assert(prefixed(ps, seq![sep]) == seq![sep] + rest);
        assert(s == s.take(n) + (seq![sep] + rest));
    }
}

/// White space is the tab, the line breaks, the space, and the blanks of other
/// scripts: these code points and no others.
pub proof fn law_white_space_characters(c: char)
    ensures
        is_white_space(c) <==> seq![
            0x09u32,
            0x0A,
            0x0B,
            0x0C,
            0x0D,
            0x20,
            0x85,
            0xA0,
            0x1680,
            0x2000,
            0x2001,
            0x2002,
            0x2003,
            0x2004,
            0x2005,
            0x2006,
            0x2007,
            0x2008,
            0x2009,
            0x200A,
            0x2028,
            0x2029,
            0x202F,
            0x205F,
            0x3000,
        ].contains(c as u32),
{
    let all = seq![
        0x09u32,
        0x0A,
        0x0B,
        0x0C,
        0x0D,
        0x20,
        0x85,
        0xA0,
        0x1680,
        0x2000,
        0x2001,
        0x2002,
        0x2003,
        0x2004,
        0x2005,
        0x2006,
        0x2007,
        0x2008,
        0x2009,
        0x200A,
        0x2028,
        0x2029,
        0x202F,
        0x205F,
        0x3000,
    ];
    let n = c as u32;
    if is_white_space(c) {
        let i: int = if n <= 0x0D {
            n - 0x09
        } else if n == 0x20 {
            5
        } else if n == 0x85 {
            6
        } else if n == 0xA0 {
            7
        } else if n == 0x1680 {
            8
        } else if n <= 0x200A {
            9 + (n - 0x2000)
        } else if n == 0x2028 {
            20
        } else if n == 0x2029 {
            21
        } else if n == 0x202F {
            22
        } else if n == 0x205F {
            23
        } else {
            24
        };
        assert(all[i] == n);
    }
}

/// White space between two texts keeps their words apart: the words of the whole
/// are those of the one, then those of the other.
pub proof fn law_words_of_both(a: Seq<char>, c: char, b: Seq<char>)
    requires
        is_white_space(c),
    ensures
        words(a + seq![c] + b) == words(a) + words(b),
    decreases a.len(),
{
    let s = a + seq![c] + b;
    if a.len() == 0 {
        assert(s.drop_first() =~= b);
        assert(words(a) + words(b) =~= words(b));
    } else if is_white_space(a[0]) {
        assert(s.drop_first() =~= a.drop_first() + seq![c] + b);
        law_words_of_both(a.drop_first(), c, b);
    } else {
        let n = span(a, solids()) as int;
        lemma_span(a, solids());
        assert forall|i: int| 0 <= i < n implies solids()(#[trigger] s[i]) by {
            assert(solids()(a[i]));
        }
        assert(s[n] == if n < a.len() {
            a[n]
        } else {
            c
        });
        lemma_span_at(s, solids(), n);
        assert(s.take(n) =~= a.take(n));
        assert(s.skip(n) =~= a.skip(n) + seq![c] + b);
        law_words_of_both(a.skip(n), c, b);
        assert(words(s) =~= words(a) + words(b));
    }
}

/// A text without white space is one word, and no text has no words.
pub proof fn law_one_word(w: Seq<char>)
    requires
        forall|i: int| 0 <= i < w.len() ==> !is_white_space(#[trigger] w[i]),
    ensures
        w.len() > 0 ==> words(w) == seq![w],
        w.len() == 0 ==> words(w).len() == 0,
{
    if w.len() > 0 {
        lemma_span_at(w, solids(), w.len() as int);
        assert(w.take(w.len() as int) =~= w);
        assert(words(w.skip(w.len() as int)) =~= Seq::<Seq<char>>::empty());
        assert(words(w) =~= seq![w]);
    }
}

/// Trimming takes off the white space around a text, all of it, and nothing else.
pub proof fn law_trimming_takes_off_the_rim(lead: Seq<char>, text: Seq<char>, tail: Seq<char>)
    requires
        forall|i: int| 0 <= i < lead.len() ==> is_white_space(#[trigger] lead[i]),
        forall|i: int| 0 <= i < tail.len() ==> is_white_space(#[trigger] tail[i]),
        text.len() > 0 ==> !is_white_space(text[0]) && !is_white_space(text.last()),
    ensures
        trimmed(lead + text + tail) == text,
{
    let s = lead + text + tail;
    if text.len() > 0 {
        assert forall|i: int| 0 <= i < lead.len() implies spaces()(#[trigger] s[i]) by {
            assert(s[i] == lead[i]);
        }
        assert(s[lead.len() as int] == text[0]);
        lemma_span_at(s, spaces(), lead.len() as int);
        assert(s.skip(lead.len() as int) =~= text + tail);
        lemma_trim_end_off(text, tail);
    } else {
        assert forall|i: int| 0 <= i < s.len() implies spaces()(#[trigger] s[i]) by {
            if i < lead.len() {
                assert(s[i] == lead[i]);
            } else {
                assert(s[i] == tail[i - lead.len()]);
            }
        }
        lemma_span_at(s, spaces(), s.len() as int);
        assert(trimmed(s) =~= text);
    }
}

proof fn lemma_trim_end_off(text: Seq<char>, tail: Seq<char>)
    requires
        text.len() > 0,
        !is_white_space(text.last()),
        forall|i: int| 0 <= i < tail.len() ==> is_white_space(#[trigger] tail[i]),
    ensures
        trim_end(text + tail) == text,
    decreases tail.len(),
{
    if tail.len() == 0 {
        assert(text + tail =~= text);
    } else {
        assert((text + tail).last() == tail.last());
        assert((text + tail).drop_last() =~= text + tail.drop_last());
        assert forall|i: int| 0 <= i < tail.drop_last().len() implies is_white_space(
            #[trigger] tail.drop_last()[i],
        ) by {
            assert(tail.drop_last()[i] == tail[i]);
        }
        lemma_trim_end_off(text, tail.drop_last());
    }
}

/// Splitting cuts at every separator and nowhere else: what stands before the
/// first one is a piece, and the rest is split in turn.
pub proof fn law_split_at_separators(a: Seq<char>, sep: char, b: Seq<char>)
    requires
        !a.contains(sep),
    ensures
        pieces(a, sep) == seq![a],
        pieces(a + seq![sep] + b, sep) == seq![a] + pieces(b, sep),
        before(a, sep) == a,
        before(a + seq![sep] + b, sep) == a,
{
    let n = a.len() as int;
    let s = a + seq![sep] + b;
    assert forall|i: int| 0 <= i < n implies all_but(sep)(#[trigger] a[i]) by {
        assert(a.contains(a[i]));
    }
    assert forall|i: int| 0 <= i < n implies all_but(sep)(#[trigger] s[i]) by {
        assert(s[i] == a[i] && all_but(sep)(a[i]));
    }
    lemma_span_at(a, all_but(sep), n);
    lemma_span_at(s, all_but(sep), n);
    assert(a.take(n) =~= a);
    assert(s.take(n) =~= a);
    assert(s.skip(n + 1) =~= b);
}

/// A text has another in it if and only if it is that text with something, or
/// nothing, around it.
pub proof fn law_part_is_surrounded(s: Seq<char>, p: Seq<char>)
    ensures
        has_part(s, p) <==> exists|lead: Seq<char>, tail: Seq<char>| s == #[trigger] (lead + p + tail),
{
    if has_part(s, p) {
        let i = choose|i: int|
            0 <= i <= s.len() - p.len() && #[trigger] s.subrange(i, i + p.len()) == p;
        let lead = s.take(i);
        let tail = s.skip(i + p.len());
        assert(s =~= lead + s.subrange(i, i + p.len()) + tail);
        assert(s == lead + p + tail);
    }
    if exists|lead: Seq<char>, tail: Seq<char>| s == #[trigger] (lead + p + tail) {
        let (lead, tail) = choose|lead: Seq<char>, tail: Seq<char>| s == #[trigger] (lead + p
            + tail);
        let i = lead.len() as int;
        assert(s.subrange(i, i + p.len()) =~= p);
    }
}

/// The digits are the ten characters `0` to `9`.
pub proof fn law_ten_digits(c: char)
    ensures
        is_digit(c) <==> "0123456789"@.contains(c),
{
    reveal_strlit("0123456789");
    let all = "0123456789"@;
    assert(all.len() == 10);
    if is_digit(c) {
        assert(all[c as int - '0' as int] == c);
    }
}

/// A number is written in decimal: a further digit makes it ten times as much and
/// adds that digit.
pub proof fn law_number_is_decimal(s: Seq<char>, d: int)
    requires
        0 <= d < 10,
    ensures
        number(Seq::empty()) == 0,
        number(s.push("0123456789"@[d])) == 10 * number(s) + d,
{
    reveal_strlit("0123456789");
    let all = "0123456789"@;
    assert(all[d] as int == '0' as int + d);
    assert(s.push(all[d]).drop_last() =~= s);
}

/// The decimal text of a number denotes that number, in digits, and begins with a
/// zero only where it is zero.
pub proof fn law_decimal_text(n: nat)
    ensures
        decimal(n).len() > 0,
        forall|i: int|
            0 <= i < decimal(n).len() ==> "0123456789"@.contains(#[trigger] decimal(n)[i]),
        number(decimal(n)) == n,
        decimal(n)[0] == '0' ==> n == 0 && decimal(n).len() == 1,
    decreases n,
{
    lemma_decimal(n);
    assert forall|i: int| 0 <= i < decimal(n).len() implies "0123456789"@.contains(
        #[trigger] decimal(n)[i],
    ) by {
        law_ten_digits(decimal(n)[i]);
    }
    if n >= 10 {
        law_decimal_text(n / 10);
        assert(decimal(n)[0] == decimal(n / 10)[0]);
    }
}

/// Joining puts the separator between the items, and only there.
pub proof fn law_joined_between(a: Seq<Seq<char>>, b: Seq<Seq<char>>, x: Seq<char>, sep: Seq<char>)
    ensures
        joined(Seq::empty(), sep) == Seq::<char>::empty(),
        joined(seq![x], sep) == x,
        a.len() > 0 && b.len() > 0 ==> joined(a + b, sep) == joined(a, sep) + sep + joined(b, sep),
{
    reveal_with_fuel(prefixed, 2);
    assert(seq![x].drop_first() =~= Seq::<Seq<char>>::empty());
    assert(joined(seq![x], sep) =~= x);
    if a.len() > 0 && b.len() > 0 {
        law_prefixed_before_each(a.drop_first(), b, x, sep);
        assert((a + b).drop_first() =~= a.drop_first() + b);
        assert(prefixed(b, sep) =~= sep + joined(b, sep));
        assert(joined(a + b, sep) =~= joined(a, sep) + sep + joined(b, sep));
    }
}

/// The separator stands before every item, and nothing else is put in.
pub proof fn law_prefixed_before_each(
    a: Seq<Seq<char>>,
    b: Seq<Seq<char>>,
    x: Seq<char>,
    sep: Seq<char>,
)
    ensures
        prefixed(Seq::empty(), sep) == Seq::<char>::empty(),
        prefixed(seq![x], sep) == sep + x,
        prefixed(a + b, sep) == prefixed(a, sep) + prefixed(b, sep),
    decreases a.len(),
{
    reveal_with_fuel(prefixed, 2);
    assert(seq![x].drop_first() =~= Seq::<Seq<char>>::empty());
    assert(prefixed(seq![x], sep) =~= sep + x);
    if a.len() == 0 {
        assert(a + b =~= b);
        assert(prefixed(a, sep) + prefixed(b, sep) =~= prefixed(b, sep));
    } else {
        law_prefixed_before_each(a.drop_first(), b, x, sep);
        assert((a + b).drop_first() =~= a.drop_first() + b);
        assert(prefixed(a + b, sep) =~= prefixed(a, sep) + prefixed(b, sep));
    }
}

/// Trimming leaves nothing if and only if all is white space.
pub proof fn law_blank_is_all_white_space(s: Seq<char>)
    ensures
        trimmed(s).len() == 0 <==> forall|i: int|
            0 <= i < s.len() ==> is_white_space(#[trigger] s[i]),
{
    let none = Seq::<char>::empty();
    if forall|i: int| 0 <= i < s.len() ==> is_white_space(#[trigger] s[i]) {
        law_trimming_takes_off_the_rim(s, none, none);
        assert(s + none + none =~= s);
    } else {
        lemma_span(s, spaces());
        let n = span(s, spaces()) as int;
        if n >= s.len() {
            assert forall|i: int| 0 <= i < s.len() implies is_white_space(#[trigger] s[i]) by {
                assert(spaces()(s[i]));
            }
        } else {
            assert(!spaces()(s[n]));
            assert(s.skip(n)[0] == s[n]);
            lemma_trim_end_stops(s.skip(n));
        }
    }
}

proof fn lemma_trim_end_stops(s: Seq<char>)
    requires
        s.len() > 0,
        !is_white_space(s[0]),
    ensures
        trim_end(s).len() > 0,
    decreases s.len(),
{
    if is_white_space(s.last()) {
        assert(s.drop_last()[0] == s[0]);
        lemma_trim_end_stops(s.drop_last());
    }
}

} // verus!
