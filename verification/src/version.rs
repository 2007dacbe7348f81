//! Version text: the `X.Y` key of a version, and which of two versions is newer.
//!
//! Versions are compared as text in which a run of digits counts as the number
//! it denotes, so `3.12.10` is newer than `3.12.9`. A letter comes before
//! everything else, the end of the text included, so a pre-release such as
//! `3.13.0rc1` is older than `3.13.0`. Texts that agree in all of this are told
//! apart by their characters.

use vstd::prelude::*;

use crate::error::EnvError;
use crate::text::{
    all_but, chars_of, decimal, digits, is_digit, law_pieces_rejoin, law_split_at_separators,
    lemma_decimal, lemma_span, lemma_span_at, number, pieces, prefixed, span, split,
};

verus! {

/// Whether `c` is a letter of the ASCII alphabet.
pub open spec fn is_letter(c: char) -> bool {
    'a' <= c <= 'z' || 'A' <= c <= 'Z'
}

/// The mark of a character that is no digit. Letters come first, then the
/// characters below the digits, then those above; within each group the code
/// decides.
pub open spec fn char_mark(c: char) -> (int, int) {
    if is_letter(c) {
        (0, c as int)
    } else if (c as int) < ('0' as int) {
        (2, c as int)
    } else {
        (4, c as int)
    }
}

/// The mark of the end of the text: after any letter, before anything else.
pub open spec fn end_mark() -> (int, int) {
    (1, 0)
}

/// The mark of a run of digits that denotes `n`.
pub open spec fn number_mark(n: nat) -> (int, int) {
    (3, n as int)
}

/// The marks of a text, in order: one for each run of digits, one for each
/// other character, one for the end.
pub open spec fn marks(s: Seq<char>) -> Seq<(int, int)>
    decreases s.len(),
{
    if s.len() == 0 {
        seq![end_mark()]
    } else if is_digit(s[0]) {
        proof {
            lemma_span(s, digits());
        }
        let n = span(s, digits()) as int;
        seq![number_mark(number(s.take(n)))] + marks(s.skip(n))
    } else {
        seq![char_mark(s[0])] + marks(s.drop_first())
    }
}

/// The plain character codes of a text.
pub open spec fn codes(s: Seq<char>) -> Seq<(int, int)> {
    s.map_values(|c: char| (0int, c as int))
}

/// `a` is the smaller mark.
pub open spec fn mark_less(a: (int, int), b: (int, int)) -> bool {
    a.0 < b.0 || (a.0 == b.0 && a.1 < b.1)
}

/// `a` comes before `b` in the order of a dictionary.
pub open spec fn comes_before(a: Seq<(int, int)>, b: Seq<(int, int)>) -> bool
    decreases a.len(),
{
    if b.len() == 0 {
        false
    } else if a.len() == 0 {
        true
    } else {
        mark_less(a[0], b[0]) || (a[0] == b[0] && comes_before(a.drop_first(), b.drop_first()))
    }
}

/// Text `a` comes before text `b` by their plain character codes.
pub open spec fn text_before(a: Seq<char>, b: Seq<char>) -> bool {
    comes_before(codes(a), codes(b))
}

/// Version text `a` is older than version text `b`.
pub open spec fn older(a: Seq<char>, b: Seq<char>) -> bool {
    comes_before(marks(a), marks(b)) || (marks(a) == marks(b) && text_before(a, b))
}

proof fn lemma_before_self(a: Seq<(int, int)>)
    ensures
        !comes_before(a, a),
    decreases a.len(),
{
    if a.len() > 0 {
        lemma_before_self(a.drop_first());
    }
}

proof fn lemma_before_transitive(a: Seq<(int, int)>, b: Seq<(int, int)>, c: Seq<(int, int)>)
    requires
        comes_before(a, b),
        comes_before(b, c),
    ensures
        comes_before(a, c),
    decreases a.len(),
{
    if a.len() > 0 && a[0] == b[0] && b[0] == c[0] {
        lemma_before_transitive(a.drop_first(), b.drop_first(), c.drop_first());
    }
}

proof fn lemma_before_total(a: Seq<(int, int)>, b: Seq<(int, int)>)
    ensures
        a == b || comes_before(a, b) || comes_before(b, a),
    decreases a.len(),
{
    if a.len() > 0 && b.len() > 0 {
        if a[0] == b[0] {
            lemma_before_total(a.drop_first(), b.drop_first());
            if a.drop_first() == b.drop_first() {
                assert(a == seq![a[0]] + a.drop_first());
                assert(b == seq![b[0]] + b.drop_first());
            }
        }
    } else if a.len() == 0 && b.len() == 0 {
        assert(a == b);
    }
}

proof fn lemma_codes_injective(a: Seq<char>, b: Seq<char>)
    requires
        codes(a) == codes(b),
    ensures
        a == b,
{
    assert(codes(a).len() == a.len() && codes(b).len() == b.len());
    assert forall|i: int| 0 <= i < a.len() implies a[i] == b[i] by {
        assert(codes(a)[i].1 == a[i] as int);
        assert(codes(b)[i].1 == b[i] as int);
    }
    assert(a =~= b);
}

/// No text comes before itself.
pub proof fn law_text_before_irreflexive(a: Seq<char>)
    ensures
        !text_before(a, a),
{
    lemma_before_self(codes(a));
}

/// What comes before an earlier text comes before the later one.
pub proof fn law_text_before_transitive(a: Seq<char>, b: Seq<char>, c: Seq<char>)
    requires
        text_before(a, b),
        text_before(b, c),
    ensures
        text_before(a, c),
{
    lemma_before_transitive(codes(a), codes(b), codes(c));
}

/// Of two different texts one comes before the other.
pub proof fn law_text_before_total(a: Seq<char>, b: Seq<char>)
    ensures
        a == b || text_before(a, b) || text_before(b, a),
{
    lemma_before_total(codes(a), codes(b));
    if codes(a) == codes(b) {
        lemma_codes_injective(a, b);
    }
}

/// Among finitely many positions, of which some satisfy `ok`, one is not below
/// any other.
pub(crate) proof fn lemma_greatest(
    n: int,
    ok: spec_fn(int) -> bool,
    less: spec_fn(int, int) -> bool,
    k: int,
) -> (i: int)
    requires
        0 <= k < n,
        ok(k),
        forall|a: int| !#[trigger] less(a, a),
        forall|a: int, b: int, c: int| #[trigger] less(a, b) && #[trigger] less(b, c) ==> less(a, c),
    ensures
        0 <= i < n,
        ok(i),
        forall|j: int| 0 <= j < n && ok(j) ==> !#[trigger] less(i, j),
{
    lemma_greatest_up_to(n, ok, less, k, n)
}

proof fn lemma_greatest_up_to(
    n: int,
    ok: spec_fn(int) -> bool,
    less: spec_fn(int, int) -> bool,
    k: int,
    m: int,
) -> (i: int)
    requires
        0 <= k < n,
        0 <= m <= n,
        ok(k),
        forall|a: int| !#[trigger] less(a, a),
        forall|a: int, b: int, c: int| #[trigger] less(a, b) && #[trigger] less(b, c) ==> less(a, c),
    ensures
        0 <= i < n,
        ok(i),
        forall|j: int| 0 <= j < m && ok(j) ==> !#[trigger] less(i, j),
    decreases m,
{
    if m == 0 {
        k
    } else {
        let b = lemma_greatest_up_to(n, ok, less, k, m - 1);
        if ok(m - 1) && less(b, m - 1) {
            assert forall|j: int| 0 <= j < m && ok(j) implies !#[trigger] less(m - 1, j) by {
                if less(m - 1, j) {
                    assert(less(b, j));
                    assert(!less(j, j));
                }
            }
            m - 1
        } else {
            b
        }
    }
}

/// No version is older than itself.
pub proof fn law_older_irreflexive(a: Seq<char>)
    ensures
        !older(a, a),
{
    lemma_before_self(marks(a));
    lemma_before_self(codes(a));
}

/// What is older than an older version is older.
pub proof fn law_older_transitive(a: Seq<char>, b: Seq<char>, c: Seq<char>)
    requires
        older(a, b),
        older(b, c),
    ensures
        older(a, c),
{
    if comes_before(marks(a), marks(b)) && comes_before(marks(b), marks(c)) {
        lemma_before_transitive(marks(a), marks(b), marks(c));
    } else if marks(a) == marks(b) && marks(b) == marks(c) {
        lemma_before_transitive(codes(a), codes(b), codes(c));
    }
}

/// Of two different versions one is older.
pub proof fn law_older_total(a: Seq<char>, b: Seq<char>)
    ensures
        a == b || older(a, b) || older(b, a),
{
    lemma_before_total(marks(a), marks(b));
    if marks(a) == marks(b) {
        lemma_before_total(codes(a), codes(b));
        if codes(a) == codes(b) {
            lemma_codes_injective(a, b);
        }
    }
}

proof fn lemma_before_common(c: Seq<(int, int)>, a: Seq<(int, int)>, b: Seq<(int, int)>)
    ensures
        comes_before(c + a, c + b) == comes_before(a, b),
    decreases c.len(),
{
    if c.len() == 0 {
        assert(c + a == a);
        assert(c + b == b);
    } else {
        lemma_before_common(c.drop_first(), a, b);
        assert((c + a).drop_first() == c.drop_first() + a);
        assert((c + b).drop_first() == c.drop_first() + b);
    }
}

/// Where no run of digits crosses the seam, the marks of a concatenation are
/// the marks of its parts.
proof fn lemma_marks_concat(x: Seq<char>, y: Seq<char>)
    requires
        x.len() == 0 || y.len() == 0 || !is_digit(x.last()) || !is_digit(y[0]),
    ensures
        marks(x).len() > 0,
        marks(x + y) == marks(x).drop_last() + marks(y),
    decreases x.len(),
{
    if x.len() == 0 {
        assert(x + y == y);
        assert(marks(x).drop_last() + marks(y) == marks(y));
    } else if is_digit(x[0]) {
        let n = span(x, digits()) as int;
        lemma_span(x, digits());
        let rest = x.skip(n);
        assert(rest.len() > 0 ==> rest.last() == x.last());
        assert(n == x.len() ==> digits()(x[n - 1]));
        lemma_marks_concat(rest, y);
        assert forall|i: int| 0 <= i < n implies digits()(#[trigger] (x + y)[i]) by {
            assert(digits()(x[i]));
        }
        assert(n < (x + y).len() ==> (x + y)[n] == if n < x.len() {
            x[n]
        } else {
            y[0]
        });
        lemma_span_at(x + y, digits(), n);
        assert((x + y).take(n) == x.take(n));
        assert((x + y).skip(n) == rest + y);
        let head = seq![number_mark(number(x.take(n)))];
        assert(marks(x) == head + marks(rest));
        assert(marks(x).drop_last() == head + marks(rest).drop_last());
        assert(marks(x + y) == head + marks(rest + y));
    } else {
        let rest = x.drop_first();
        assert(rest.len() > 0 ==> rest.last() == x.last());
        lemma_marks_concat(rest, y);
        assert((x + y).drop_first() == rest + y);
        let head = seq![char_mark(x[0])];
        assert(marks(x) == head + marks(rest));
        assert(marks(x).drop_last() == head + marks(rest).drop_last());
        assert(marks(x + y) == head + marks(rest + y));
    }
}

/// The marks of a text with a number in it.
proof fn lemma_marks_number(lead: Seq<char>, n: nat, tail: Seq<char>)
    requires
        lead.len() > 0 ==> !is_digit(lead.last()),
        tail.len() > 0 ==> !is_digit(tail[0]),
    ensures
        marks(lead).len() > 0,
        marks(lead + decimal(n) + tail) == marks(lead).drop_last() + (seq![number_mark(n)] + marks(
            tail,
        )),
{
    lemma_decimal(n);
    let d = decimal(n);
    let rest = d + tail;
    assert forall|i: int| 0 <= i < d.len() implies digits()(#[trigger] rest[i]) by {
        assert(rest[i] == d[i]);
    }
    assert(rest.len() > d.len() ==> rest[d.len() as int] == tail[0]);
    lemma_span_at(rest, digits(), d.len() as int);
    assert(is_digit(d[0]));
    assert(rest.take(d.len() as int) == d);
    assert(rest.skip(d.len() as int) == tail);
    assert(marks(rest) == seq![number_mark(n)] + marks(tail));
    lemma_marks_concat(lead, rest);
    assert(lead + decimal(n) + tail == lead + rest);
}

/// Newer means a greater number: where two versions agree up to a number, the
/// one with the smaller number there is older, whatever follows.
pub proof fn law_smaller_number_is_older(
    lead: Seq<char>,
    n: nat,
    m: nat,
    tail_n: Seq<char>,
    tail_m: Seq<char>,
)
    requires
        n < m,
        lead.len() > 0 ==> !is_digit(lead.last()),
        tail_n.len() > 0 ==> !is_digit(tail_n[0]),
        tail_m.len() > 0 ==> !is_digit(tail_m[0]),
    ensures
        older(lead + decimal(n) + tail_n, lead + decimal(m) + tail_m),
{
    lemma_marks_number(lead, n, tail_n);
    lemma_marks_number(lead, m, tail_m);
    lemma_before_common(
        marks(lead).drop_last(),
        seq![number_mark(n)] + marks(tail_n),
        seq![number_mark(m)] + marks(tail_m),
    );
}

/// A pre-release is older than its release: a version that goes on with a
/// letter after some number is older than one that ends there or goes on with
/// neither a letter nor a digit.
pub proof fn law_pre_release_is_older(lead: Seq<char>, n: nat, pre: Seq<char>, tail: Seq<char>)
    requires
        lead.len() > 0 ==> !is_digit(lead.last()),
        pre.len() > 0,
        is_letter(pre[0]),
        tail.len() > 0 ==> !is_digit(tail[0]) && !is_letter(tail[0]),
    ensures
        older(lead + decimal(n) + pre, lead + decimal(n) + tail),
{
    lemma_marks_number(lead, n, pre);
    lemma_marks_number(lead, n, tail);
    let a = seq![number_mark(n)] + marks(pre);
    let b = seq![number_mark(n)] + marks(tail);
    lemma_before_common(marks(lead).drop_last(), a, b);
    lemma_before_common(seq![number_mark(n)], marks(pre), marks(tail));
}

/// How one value stands to another.
enum Standing {
    Below,
    Level,
    Above,
}

/// How `a` stands to `b`.
spec fn standing(a: int, b: int) -> Standing {
    if a < b {
        Standing::Below
    } else if a == b {
        Standing::Level
    } else {
        Standing::Above
    }
}

/// Leading zeros do not count.
proof fn lemma_number_zero(s: Seq<char>)
    requires
        s.len() > 0,
        s[0] == '0',
    ensures
        number(s.drop_first()) == number(s),
    decreases s.len(),
{
    if s.len() == 1 {
        reveal_with_fuel(number, 2);
        assert(s.drop_last() == Seq::<char>::empty());
        assert(s.drop_first() == Seq::<char>::empty());
    } else {
        lemma_number_zero(s.drop_last());
        assert(s.drop_first().drop_last() == s.drop_last().drop_first());
    }
}

/// Digits that do not begin with a zero denote more than any fewer digits.
proof fn lemma_number_longer(a: Seq<char>, b: Seq<char>)
    requires
        forall|i: int| 0 <= i < a.len() ==> is_digit(#[trigger] a[i]),
        forall|i: int| 0 <= i < b.len() ==> is_digit(#[trigger] b[i]),
        a.len() < b.len(),
        b[0] != '0',
    ensures
        number(a) < number(b),
    decreases b.len(),
{
    assert(is_digit(b.last()));
    if b.len() == 1 {
        reveal_with_fuel(number, 2);
    } else if a.len() == 0 {
        assert forall|i: int| 0 <= i < b.drop_last().len() implies is_digit(
            #[trigger] b.drop_last()[i],
        ) by {
            assert(b.drop_last()[i] == b[i]);
        }
        lemma_number_longer(a, b.drop_last());
    } else {
        assert(is_digit(a.last()));
        assert forall|i: int| 0 <= i < b.drop_last().len() implies is_digit(
            #[trigger] b.drop_last()[i],
        ) by {
            assert(b.drop_last()[i] == b[i]);
        }
        assert forall|i: int| 0 <= i < a.drop_last().len() implies is_digit(
            #[trigger] a.drop_last()[i],
        ) by {
            assert(a.drop_last()[i] == a[i]);
        }
        lemma_number_longer(a.drop_last(), b.drop_last());
    }
}

/// Among equally many digits, the first difference decides.
proof fn lemma_number_prefix(a: Seq<char>, b: Seq<char>, k: int)
    requires
        forall|i: int| 0 <= i < a.len() ==> is_digit(#[trigger] a[i]),
        forall|i: int| 0 <= i < b.len() ==> is_digit(#[trigger] b[i]),
        a.len() == b.len(),
        0 <= k <= a.len(),
        number(a.take(k)) < number(b.take(k)),
    ensures
        number(a) < number(b),
    decreases a.len() - k,
{
    if k == a.len() {
        assert(a.take(k) == a);
        assert(b.take(k) == b);
    } else {
        assert(a.take(k + 1).drop_last() == a.take(k));
        assert(b.take(k + 1).drop_last() == b.take(k));
        assert(is_digit(a[k]) && is_digit(b[k]));
        lemma_number_prefix(a, b, k + 1);
    }
}

/// Whether `c` is a digit.
fn digit(c: char) -> (r: bool)
    ensures
        r == is_digit(c),
{
    '0' <= c && c <= '9'
}

/// The end of the run of digits that begins at `from`.
fn digits_end(s: &Vec<char>, from: usize) -> (to: usize)
    requires
        from <= s.len(),
    ensures
        from <= to <= s.len(),
        to == from + span(s@.skip(from as int), digits()),
        forall|i: int| from <= i < to ==> is_digit(#[trigger] s[i]),
{
    let mut to: usize = from;
    while to < s.len() && digit(s[to])
        invariant
            from <= to <= s.len(),
            forall|i: int| from <= i < to ==> is_digit(#[trigger] s[i]),
        decreases s.len() - to,
    {
        to = to + 1;
    }
    proof {
        lemma_span_at(s@.skip(from as int), digits(), to - from);
    }
    to
}

/// Where the digits from `from` to `to` begin once leading zeros are dropped.
fn skip_zeros(s: &Vec<char>, from: usize, to: usize) -> (r: usize)
    requires
        from <= to <= s.len(),
    ensures
        from <= r <= to,
        number(s@.subrange(r as int, to as int)) == number(s@.subrange(from as int, to as int)),
        r < to ==> s[r as int] != '0',
{
    let mut r: usize = from;
    while r < to && s[r] == '0'
        invariant
            from <= r <= to <= s.len(),
            number(s@.subrange(r as int, to as int)) == number(
                s@.subrange(from as int, to as int),
            ),
        decreases to - r,
    {
        proof {
            let rest = s@.subrange(r as int, to as int);
            lemma_number_zero(rest);
            assert(rest.drop_first() == s@.subrange(r + 1, to as int));
        }
        r = r + 1;
    }
    r
}

/// Compares the numbers that two runs of digits denote. The runs may be of any
/// length.
fn compare_numbers(
    a: &Vec<char>,
    a_from: usize,
    a_to: usize,
    b: &Vec<char>,
    b_from: usize,
    b_to: usize,
) -> (r: Standing)
    requires
        a_from <= a_to <= a.len(),
        b_from <= b_to <= b.len(),
        forall|i: int| a_from <= i < a_to ==> is_digit(#[trigger] a[i]),
        forall|i: int| b_from <= i < b_to ==> is_digit(#[trigger] b[i]),
    ensures
        r == standing(
            number(a@.subrange(a_from as int, a_to as int)) as int,
            number(b@.subrange(b_from as int, b_to as int)) as int,
        ),
{
    let p = skip_zeros(a, a_from, a_to);
    let q = skip_zeros(b, b_from, b_to);
    let ghost x = a@.subrange(p as int, a_to as int);
    let ghost y = b@.subrange(q as int, b_to as int);
    assert forall|i: int| 0 <= i < x.len() implies is_digit(#[trigger] x[i]) by {
        assert(x[i] == a[p + i]);
    }
    assert forall|i: int| 0 <= i < y.len() implies is_digit(#[trigger] y[i]) by {
        assert(y[i] == b[q + i]);
    }
    if a_to - p < b_to - q {
        proof {
            lemma_number_longer(x, y);
        }
        return Standing::Below;
    }
    if a_to - p > b_to - q {
        proof {
            lemma_number_longer(y, x);
        }
        return Standing::Above;
    }
    let n: usize = a_to - p;
    let mut k: usize = 0;
    assert(x.take(0) == y.take(0));
    while k < n
        invariant
            p + n == a_to <= a.len(),
            q + n == b_to <= b.len(),
            k <= n,
            x == a@.subrange(p as int, a_to as int),
            y == b@.subrange(q as int, b_to as int),
            number(x) == number(a@.subrange(a_from as int, a_to as int)),
            number(y) == number(b@.subrange(b_from as int, b_to as int)),
            forall|i: int| 0 <= i < x.len() ==> is_digit(#[trigger] x[i]),
            forall|i: int| 0 <= i < y.len() ==> is_digit(#[trigger] y[i]),
            number(x.take(k as int)) == number(y.take(k as int)),
        decreases n - k,
    {
        let c = a[p + k];
        let d = b[q + k];
        proof {
            assert(x.take(k + 1).drop_last() == x.take(k as int));
            assert(y.take(k + 1).drop_last() == y.take(k as int));
            assert(x[k as int] == c && y[k as int] == d);
        }
        if c < d {
            proof {
                lemma_number_prefix(x, y, k + 1);
            }
            return Standing::Below;
        }
        if d < c {
            proof {
                lemma_number_prefix(y, x, k + 1);
            }
            return Standing::Above;
        }
        k = k + 1;
    }
    assert(x.take(k as int) == x);
    assert(y.take(k as int) == y);
    Standing::Level
}

/// Compares the marks of two characters, neither of which is a digit.
fn compare_chars(c: char, d: char) -> (r: Standing)
    requires
        !is_digit(c),
        !is_digit(d),
    ensures
        r is Below <==> mark_less(char_mark(c), char_mark(d)),
        r is Level <==> char_mark(c) == char_mark(d),
        r is Above <==> mark_less(char_mark(d), char_mark(c)),
{
    let g: u8 = group(c);
    let h: u8 = group(d);
    if g < h || (g == h && c < d) {
        Standing::Below
    } else if g == h && c == d {
        Standing::Level
    } else {
        Standing::Above
    }
}

/// The group of a character: letters, below the digits, digits, above them.
fn group(c: char) -> (r: u8)
    ensures
        !is_digit(c) ==> r == char_mark(c).0,
        is_digit(c) ==> r == 3,
{
    if ('a' <= c && c <= 'z') || ('A' <= c && c <= 'Z') {
        0
    } else if '0' > c {
        2
    } else if c <= '9' {
        3
    } else {
        4
    }
}

/// Compares two texts by their character codes.
fn codes_before(a: &Vec<char>, b: &Vec<char>) -> (r: bool)
    ensures
        r == comes_before(codes(a@), codes(b@)),
{
    let mut i: usize = 0;
    assert(codes(a@).skip(0) == codes(a@));
    assert(codes(b@).skip(0) == codes(b@));
    while i < a.len() && i < b.len()
        invariant
            i <= a.len(),
            i <= b.len(),
            comes_before(codes(a@), codes(b@)) == comes_before(
                codes(a@).skip(i as int),
                codes(b@).skip(i as int),
            ),
        decreases a.len() - i,
    {
        proof {
            let x = codes(a@).skip(i as int);
            let y = codes(b@).skip(i as int);
            assert(x[0] == (0int, a[i as int] as int));
            assert(y[0] == (0int, b[i as int] as int));
            assert(x.drop_first() == codes(a@).skip(i + 1));
            assert(y.drop_first() == codes(b@).skip(i + 1));
        }
        if a[i] < b[i] {
            return true;
        }
        if b[i] < a[i] {
            return false;
        }
        i = i + 1;
    }
    assert(codes(a@).skip(i as int).len() == a.len() - i);
    assert(codes(b@).skip(i as int).len() == b.len() - i);
    i < b.len()
}

/// Whether text `a` comes before text `b` by their plain character codes.
pub fn is_text_before(a: &str, b: &str) -> (r: bool)
    ensures
        r == text_before(a@, b@),
{
    codes_before(&chars_of(a), &chars_of(b))
}

/// Whether version text `a` is older than version text `b`.
pub fn is_older(a: &str, b: &str) -> (r: bool)
    ensures
        r == older(a@, b@),
{
    let x = chars_of(a);
    let y = chars_of(b);
    let mut i: usize = 0;
    let mut j: usize = 0;
    assert(x@.skip(0) == x@);
    assert(y@.skip(0) == y@);
    while i < x.len() && j < y.len()
        invariant
            x@ == a@,
            y@ == b@,
            i <= x.len(),
            j <= y.len(),
            comes_before(marks(a@), marks(b@)) == comes_before(
                marks(x@.skip(i as int)),
                marks(y@.skip(j as int)),
            ),
            (marks(a@) == marks(b@)) == (marks(x@.skip(i as int)) == marks(y@.skip(j as int))),
        decreases x.len() - i,
    {
        let ghost s = x@.skip(i as int);
        let ghost t = y@.skip(j as int);
        let c = x[i];
        let d = y[j];
        assert(s[0] == c && t[0] == d);
        if digit(c) && digit(d) {
            let p = digits_end(&x, i);
            let q = digits_end(&y, j);
            proof {
                lemma_span(s, digits());
                lemma_span(t, digits());
                assert(s.take(p - i) == x@.subrange(i as int, p as int));
                assert(t.take(q - j) == y@.subrange(j as int, q as int));
                assert(s.skip(p - i) == x@.skip(p as int));
                assert(t.skip(q - j) == y@.skip(q as int));
                lemma_heads(s, t);
            }
            match compare_numbers(&x, i, p, &y, j, q) {
                Standing::Below => {
                    return true;
                },
                Standing::Above => {
                    return false;
                },
                Standing::Level => {
                    i = p;
                    j = q;
                },
            }
        } else if digit(c) || digit(d) {
            proof {
                lemma_heads(s, t);
            }
            return group(c) < group(d);
        } else {
            proof {
                assert(s.drop_first() == x@.skip(i + 1));
                assert(t.drop_first() == y@.skip(j + 1));
                lemma_heads(s, t);
            }
            match compare_chars(c, d) {
                Standing::Below => {
                    return true;
                },
                Standing::Above => {
                    return false;
                },
                Standing::Level => {
                    i = i + 1;
                    j = j + 1;
                },
            }
        }
    }
    let ghost s = x@.skip(i as int);
    let ghost t = y@.skip(j as int);
    proof {
        lemma_heads(s, t);
    }
    if i < x.len() {
        // `b` ends here: `a` is older if it goes on with a letter.
        group(x[i]) == 0
    } else if j < y.len() {
        group(y[j]) != 0
    } else {
        assert(s == t);
        proof {
            lemma_before_self(marks(s));
        }
        codes_before(&x, &y)
    }
}

/// The first mark of a text.
spec fn head(s: Seq<char>) -> (int, int) {
    if s.len() == 0 {
        end_mark()
    } else if is_digit(s[0]) {
        number_mark(number(s.take(span(s, digits()) as int)))
    } else {
        char_mark(s[0])
    }
}

/// What follows the first mark of a text.
spec fn after_head(s: Seq<char>) -> Seq<char> {
    if is_digit(s[0]) {
        s.skip(span(s, digits()) as int)
    } else {
        s.drop_first()
    }
}

/// Different first marks decide; equal first marks leave it to the rest.
proof fn lemma_heads(s: Seq<char>, t: Seq<char>)
    ensures
        mark_less(head(s), head(t)) ==> comes_before(marks(s), marks(t)),
        head(s) != head(t) ==> marks(s) != marks(t),
        mark_less(head(t), head(s)) ==> !comes_before(marks(s), marks(t)),
        s.len() > 0 && t.len() > 0 && head(s) == head(t) ==> {
            &&& comes_before(marks(s), marks(t)) == comes_before(
                marks(after_head(s)),
                marks(after_head(t)),
            )
            &&& (marks(s) == marks(t)) == (marks(after_head(s)) == marks(after_head(t)))
        },
{
    lemma_head(s);
    lemma_head(t);
}

proof fn lemma_head(s: Seq<char>)
    ensures
        marks(s).len() > 0,
        marks(s)[0] == head(s),
        s.len() > 0 ==> marks(s).drop_first() == marks(after_head(s)) && marks(s) == seq![head(s)]
            + marks(after_head(s)),
{
    if s.len() > 0 {
        assert((seq![head(s)] + marks(after_head(s))).drop_first() == marks(after_head(s)));
    }
}

/// The `X.Y` key of a version `X.Y` or `X.Y.Z`; nothing for any other text.
pub open spec fn major_minor(version: Seq<char>) -> Option<Seq<char>> {
    let parts = pieces(version, '.');
    if parts.len() == 2 || parts.len() == 3 {
        Some(parts[0] + seq!['.'] + parts[1])
    } else {
        None
    }
}

/// Normalizes `X.Y` or `X.Y.Z` to the `X.Y` key.
pub fn parse_major_minor(version_str: &str) -> (r: Result<String, EnvError>)
    ensures
        match r {
            Ok(key) => major_minor(version_str@) == Some(key@),
            Err(e) => major_minor(version_str@) is None && (e matches EnvError::InvalidVersion(v)
                && v@ == version_str@),
        },
{
    let parts = split(version_str, '.');
    assert(parts.deep_view().len() == parts.len());
    if parts.len() == 2 || parts.len() == 3 {
        proof {
            reveal_strlit(".");
            assert("."@ =~= seq!['.']);
        }
        let mut key = parts[0].clone();
        key.append(".");
        key.append(parts[1].as_str());
        Ok(key)
    } else {
        Err(EnvError::InvalidVersion(version_str.to_owned()))
    }
}

/// No piece holds the separator.
proof fn lemma_pieces_free(s: Seq<char>, sep: char, i: int, k: int)
    requires
        0 <= i < pieces(s, sep).len(),
        0 <= k < pieces(s, sep)[i].len(),
    ensures
        pieces(s, sep)[i][k] != sep,
    decreases s.len(),
{
    let n = span(s, all_but(sep)) as int;
    lemma_span(s, all_but(sep));
    if n >= s.len() {
        assert(all_but(sep)(s[k]));
    } else if i == 0 {
        assert(all_but(sep)(s[k]));
    } else {
        assert(pieces(s, sep)[i] == pieces(s.skip(n + 1), sep)[i - 1]);
        lemma_pieces_free(s.skip(n + 1), sep, i - 1, k);
    }
}

/// Two texts without the separator, with one separator between them, are the
/// two pieces of the whole.
proof fn lemma_two_pieces(a: Seq<char>, b: Seq<char>, sep: char)
    requires
        forall|k: int| 0 <= k < a.len() ==> #[trigger] a[k] != sep,
        forall|k: int| 0 <= k < b.len() ==> #[trigger] b[k] != sep,
    ensures
        pieces(a + seq![sep] + b, sep) == seq![a, b],
{
    let s = a + seq![sep] + b;
    let n = a.len() as int;
    assert forall|k: int| 0 <= k < n implies all_but(sep)(#[trigger] s[k]) by {
        assert(s[k] == a[k]);
    }
    lemma_span_at(s, all_but(sep), n);
    assert(s.take(n) == a);
    assert(s.skip(n + 1) == b);
    lemma_span_at(b, all_but(sep), b.len() as int);
    assert(pieces(b, sep) == seq![b]);
    assert(pieces(s, sep) == seq![a] + seq![b]);
}

/// A key has two pieces.
pub(crate) proof fn lemma_key_pieces(version: Seq<char>)
    requires
        major_minor(version) is Some,
    ensures
        pieces(major_minor(version)->0, '.').len() == 2,
        major_minor(major_minor(version)->0) == major_minor(version),
{
    let parts = pieces(version, '.');
    assert forall|k: int| 0 <= k < parts[0].len() implies #[trigger] parts[0][k] != '.' by {
        lemma_pieces_free(version, '.', 0, k);
    }
    assert forall|k: int| 0 <= k < parts[1].len() implies #[trigger] parts[1][k] != '.' by {
        lemma_pieces_free(version, '.', 1, k);
    }
    lemma_two_pieces(parts[0], parts[1], '.');
}

/// The key of a key is that key: normalizing twice is normalizing once.
pub proof fn law_major_minor_idempotent(version: Seq<char>)
    requires
        major_minor(version) is Some,
    ensures
        major_minor(major_minor(version)->0) == major_minor(version),
{
    lemma_key_pieces(version);
}

/// A patch number does not enter the key: `X.Y` and `X.Y.Z` have the key `X.Y`.
pub proof fn law_patch_does_not_enter_key(x: Seq<char>, y: Seq<char>, z: Seq<char>)
    requires
        !x.contains('.'),
        !y.contains('.'),
        !z.contains('.'),
    ensures
        major_minor(x + seq!['.'] + y) == Some(x + seq!['.'] + y),
        major_minor(x + seq!['.'] + y + seq!['.'] + z) == Some(x + seq!['.'] + y),
{
    lemma_two_pieces(x, y, '.');
    lemma_two_pieces(y, z, '.');
    let rest = y + seq!['.'] + z;
    let s = x + seq!['.'] + y + seq!['.'] + z;
    let n = x.len() as int;
    assert forall|k: int| 0 <= k < n implies all_but('.')(#[trigger] s[k]) by {
        assert(s[k] == x[k]);
        assert(x.contains(x[k]));
    }
    assert(s[n] == '.');
    lemma_span_at(s, all_but('.'), n);
    assert(s.take(n) == x);
    assert(s.skip(n + 1) == rest);
    assert(pieces(s, '.') == seq![x] + seq![y, z]);
}

/// The letters are those of the ASCII alphabet, large and small.
pub proof fn law_letters(c: char)
    ensures
        is_letter(c) <==> "ABCDEFGHIJKLMNOPQRSTUVWXYZabcdefghijklmnopqrstuvwxyz"@.contains(c),
{
    reveal_strlit("ABCDEFGHIJKLMNOPQRSTUVWXYZabcdefghijklmnopqrstuvwxyz");
    let all = "ABCDEFGHIJKLMNOPQRSTUVWXYZabcdefghijklmnopqrstuvwxyz"@;
    assert(all.len() == 52);
    if 'A' <= c <= 'Z' {
        assert(all[c as int - 'A' as int] == c);
    }
    if 'a' <= c <= 'z' {
        assert(all[26 + (c as int - 'a' as int)] == c);
    }
}

proof fn lemma_codes_concat(a: Seq<char>, b: Seq<char>)
    ensures
        codes(a + b) == codes(a) + codes(b),
{
    assert(codes(a + b) =~= codes(a) + codes(b));
}

/// Plain texts are ordered by the first character in which they differ; a text
/// comes before those that it is the beginning of.
pub proof fn law_first_difference_decides(
    lead: Seq<char>,
    x: char,
    s: Seq<char>,
    y: char,
    t: Seq<char>,
)
    requires
        x != y,
    ensures
        text_before(lead + seq![x] + s, lead + seq![y] + t) <==> (x as int) < (y as int),
        text_before(lead, lead + seq![x] + s),
        !text_before(lead + seq![x] + s, lead),
{
    let a = seq![x] + s;
    let b = seq![y] + t;
    let none = Seq::<char>::empty();
    assert(lead + seq![x] + s =~= lead + a);
    assert(lead + seq![y] + t =~= lead + b);
    assert(lead =~= lead + none);
    lemma_codes_concat(lead, a);
    lemma_codes_concat(lead, b);
    lemma_codes_concat(lead, none);
    assert(codes(a)[0] == (0int, x as int));
    assert(codes(b)[0] == (0int, y as int));
    lemma_before_common(codes(lead), codes(a), codes(b));
    lemma_before_common(codes(lead), codes(none), codes(a));
    lemma_before_common(codes(lead), codes(a), codes(none));
}

/// What two texts have in common at their front does not enter their order.
pub proof fn law_text_before_behind(lead: Seq<char>, s: Seq<char>, t: Seq<char>)
    ensures
        text_before(lead + s, lead + t) <==> text_before(s, t),
{
    lemma_codes_concat(lead, s);
    lemma_codes_concat(lead, t);
    lemma_before_common(codes(lead), codes(s), codes(t));
}

/// Where two versions first differ in characters that are no digits, a letter is
/// older than anything else, and otherwise the lesser character is.
pub proof fn law_older_by_character(
    lead: Seq<char>,
    x: char,
    s: Seq<char>,
    y: char,
    t: Seq<char>,
)
    requires
        x != y,
        !is_digit(x),
        !is_digit(y),
    ensures
        older(lead + seq![x] + s, lead + seq![y] + t) <==> if is_letter(x) == is_letter(y) {
            (x as int) < (y as int)
        } else {
            is_letter(x)
        },
{
    let a = seq![x] + s;
    let b = seq![y] + t;
    assert(lead + seq![x] + s =~= lead + a);
    assert(lead + seq![y] + t =~= lead + b);
    lemma_marks_concat(lead, a);
    lemma_marks_concat(lead, b);
    assert(a.drop_first() =~= s);
    assert(b.drop_first() =~= t);
    assert(marks(a)[0] == char_mark(x));
    assert(marks(b)[0] == char_mark(y));
    let front = marks(lead).drop_last();
    lemma_before_common(front, marks(a), marks(b));
    assert(char_mark(x) != char_mark(y));
    assert((front + marks(a))[front.len() as int] == char_mark(x));
    assert((front + marks(b))[front.len() as int] == char_mark(y));
}

/// A version that goes on is newer than one that ends, unless it goes on with a
/// letter.
pub proof fn law_older_than_its_extension(lead: Seq<char>, x: char, s: Seq<char>)
    requires
        is_digit(x) ==> lead.len() == 0 || !is_digit(lead.last()),
    ensures
        older(lead, lead + seq![x] + s) <==> !is_letter(x),
        older(lead + seq![x] + s, lead) <==> is_letter(x),
{
    let a = seq![x] + s;
    let none = Seq::<char>::empty();
    assert(lead + seq![x] + s =~= lead + a);
    assert(lead + none =~= lead);
    lemma_marks_concat(lead, a);
    lemma_marks_concat(lead, none);
    let front = marks(lead).drop_last();
    lemma_before_common(front, marks(none), marks(a));
    lemma_before_common(front, marks(a), marks(none));
    lemma_before_self(marks(none));
    assert(a[0] == x);
    assert(marks(none)[0] == end_mark());
    assert(marks(none).drop_first() =~= Seq::<(int, int)>::empty());
    if is_digit(x) {
        assert(marks(a)[0].0 == 3);
    } else {
        assert(marks(a)[0] == char_mark(x));
    }
    assert((front + marks(a))[front.len() as int] == marks(a)[0]);
    assert((front + marks(none))[front.len() as int] == end_mark());
}

/// A number and another character: letters and the characters below the digits
/// are older than any number, the others are newer.
pub proof fn law_older_number_or_character(
    lead: Seq<char>,
    n: nat,
    s: Seq<char>,
    y: char,
    t: Seq<char>,
)
    requires
        lead.len() > 0 ==> !is_digit(lead.last()),
        s.len() > 0 ==> !is_digit(s[0]),
        !is_digit(y),
    ensures
        older(lead + seq![y] + t, lead + decimal(n) + s) <==> is_letter(y) || (y as int) < (
        '0' as int),
        older(lead + decimal(n) + s, lead + seq![y] + t) <==> !is_letter(y) && (y as int) > (
        '9' as int),
{
    lemma_marks_number(lead, n, s);
    let a = seq![number_mark(n)] + marks(s);
    let b = seq![y] + t;
    assert(lead + seq![y] + t =~= lead + b);
    lemma_marks_concat(lead, b);
    assert(b[0] == y);
    assert(marks(b)[0] == char_mark(y));
    let front = marks(lead).drop_last();
    lemma_before_common(front, a, marks(b));
    lemma_before_common(front, marks(b), a);
    assert((front + a)[front.len() as int] == number_mark(n));
    assert((front + marks(b))[front.len() as int] == char_mark(y));
}

/// Versions that differ in a leading zero alone are told apart as plain texts.
pub proof fn law_leading_zero_counts_as_text(lead: Seq<char>, n: nat, tail: Seq<char>)
    requires
        lead.len() > 0 ==> !is_digit(lead.last()),
        tail.len() > 0 ==> !is_digit(tail[0]),
    ensures
        ({
            let padded = lead + seq!['0'] + decimal(n) + tail;
            let plain = lead + decimal(n) + tail;
            &&& older(padded, plain) <==> text_before(padded, plain)
            &&& older(plain, padded) <==> text_before(plain, padded)
        }),
{
    let padded = lead + seq!['0'] + decimal(n) + tail;
    let plain = lead + decimal(n) + tail;
    lemma_marks_number(lead, n, tail);
    lemma_decimal(n);
    let d = seq!['0'] + decimal(n);
    let rest = d + tail;
    assert(padded =~= lead + rest);
    assert forall|i: int| 0 <= i < d.len() implies digits()(#[trigger] rest[i]) by {
        assert(rest[i] == d[i]);
        if i > 0 {
            assert(d[i] == decimal(n)[i - 1]);
        }
    }
    assert(rest.len() > d.len() ==> rest[d.len() as int] == tail[0]);
    lemma_span_at(rest, digits(), d.len() as int);
    assert(is_digit(rest[0]));
    assert(rest.take(d.len() as int) =~= d);
    assert(rest.skip(d.len() as int) =~= tail);
    lemma_number_zero(d);
    assert(d.drop_first() =~= decimal(n));
    lemma_marks_concat(lead, rest);
    assert(marks(padded) =~= marks(plain));
    lemma_before_self(marks(plain));
}

/// A version has the key `X.Y` if and only if it is `X.Y`, or `X.Y` with a third
/// part behind it.
pub proof fn law_key_is_the_front(version: Seq<char>, x: Seq<char>, y: Seq<char>)
    requires
        !x.contains('.'),
        !y.contains('.'),
    ensures
        major_minor(version) == Some(x + seq!['.'] + y) <==> version == x + seq!['.'] + y || exists|
            z: Seq<char>,
        | !z.contains('.') && version == #[trigger] (x + seq!['.'] + y + seq!['.'] + z),
{
    let key = x + seq!['.'] + y;
    law_patch_does_not_enter_key(x, y, Seq::empty());
    if exists|z: Seq<char>|
        !z.contains('.') && version == #[trigger] (x + seq!['.'] + y + seq!['.'] + z) {
        let z = choose|z: Seq<char>|
            !z.contains('.') && version == #[trigger] (x + seq!['.'] + y + seq!['.'] + z);
        law_patch_does_not_enter_key(x, y, z);
    }
    if major_minor(version) == Some(key) {
        let parts = pieces(version, '.');
        lemma_key_pieces(version);
        assert forall|k: int| 0 <= k < parts[0].len() implies #[trigger] parts[0][k] != '.' by {
            lemma_pieces_free(version, '.', 0, k);
        }
        assert forall|k: int| 0 <= k < parts[1].len() implies #[trigger] parts[1][k] != '.' by {
            lemma_pieces_free(version, '.', 1, k);
        }
        lemma_two_pieces(parts[0], parts[1], '.');
        law_split_at_separators(x, '.', y);
        law_split_at_separators(y, '.', Seq::empty());
        assert(pieces(key, '.')[0] == x && pieces(key, '.')[1] == y);
        assert(seq![parts[0], parts[1]][0] == x && seq![parts[0], parts[1]][1] == y);
        law_pieces_rejoin(version, '.');
        reveal_with_fuel(prefixed, 3);
        if parts.len() == 2 {
            assert(version =~= key);
        } else {
            let z = parts[2];
            assert(!z.contains('.')) by {
                if z.contains('.') {
                    let k = choose|k: int| 0 <= k < z.len() && z[k] == '.';
                    lemma_pieces_free(version, '.', 2, k);
                }
            }
            assert(version =~= x + seq!['.'] + y + seq!['.'] + z);
        }
    }
}

/// A text without a dot, or with more than two, is no version.
pub proof fn law_one_or_two_dots(x: Seq<char>, y: Seq<char>, z: Seq<char>, rest: Seq<char>)
    requires
        !x.contains('.'),
        !y.contains('.'),
        !z.contains('.'),
    ensures
        major_minor(x) is None,
        major_minor(x + seq!['.'] + y + seq!['.'] + z + seq!['.'] + rest) is None,
{
    let third = z + seq!['.'] + rest;
    let second = y + seq!['.'] + third;
    let all = x + seq!['.'] + second;
    law_split_at_separators(x, '.', second);
    law_split_at_separators(y, '.', third);
    law_split_at_separators(z, '.', rest);
    law_pieces_rejoin(rest, '.');
    assert(all =~= x + seq!['.'] + y + seq!['.'] + z + seq!['.'] + rest);
}

/// The marks of a text with a run of digits in it.
proof fn lemma_marks_run(lead: Seq<char>, run: Seq<char>, tail: Seq<char>)
    requires
        lead.len() > 0 ==> !is_digit(lead.last()),
        run.len() > 0,
        forall|i: int| 0 <= i < run.len() ==> is_digit(#[trigger] run[i]),
        tail.len() > 0 ==> !is_digit(tail[0]),
    ensures
        marks(lead).len() > 0,
        marks(lead + run + tail) == marks(lead).drop_last() + (seq![number_mark(number(run))]
            + marks(tail)),
{
    let rest = run + tail;
    let n = run.len() as int;
    assert forall|i: int| 0 <= i < n implies digits()(#[trigger] rest[i]) by {
        assert(rest[i] == run[i]);
    }
    assert(rest.len() > n ==> rest[n] == tail[0]);
    lemma_span_at(rest, digits(), n);
    assert(is_digit(rest[0]));
    assert(rest.take(n) =~= run);
    assert(rest.skip(n) =~= tail);
    lemma_marks_concat(lead, rest);
    assert(lead + run + tail =~= lead + rest);
}

/// Runs of digits count as the numbers that they denote, however many zeros they
/// begin with: the smaller number is older, whatever follows, and where the
/// numbers and what follows are the same, the plain texts decide.
pub proof fn law_older_by_digits(
    lead: Seq<char>,
    p: Seq<char>,
    s: Seq<char>,
    q: Seq<char>,
    t: Seq<char>,
)
    requires
        lead.len() > 0 ==> !is_digit(lead.last()),
        p.len() > 0,
        q.len() > 0,
        forall|i: int| 0 <= i < p.len() ==> is_digit(#[trigger] p[i]),
        forall|i: int| 0 <= i < q.len() ==> is_digit(#[trigger] q[i]),
        s.len() > 0 ==> !is_digit(s[0]),
        t.len() > 0 ==> !is_digit(t[0]),
    ensures
        number(p) < number(q) ==> older(lead + p + s, lead + q + t),
        number(p) == number(q) && s == t ==> (older(lead + p + s, lead + q + t) <==> text_before(
            lead + p + s,
            lead + q + t,
        )),
{
    lemma_marks_run(lead, p, s);
    lemma_marks_run(lead, q, t);
    let a = seq![number_mark(number(p))] + marks(s);
    let b = seq![number_mark(number(q))] + marks(t);
    lemma_before_common(marks(lead).drop_last(), a, b);
    lemma_before_self(marks(lead + p + s));
}

} // verus!
