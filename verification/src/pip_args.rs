//! The `pip_args` of a profile, and what `uv` is given for them.

use vstd::prelude::*;
use vstd::seq_lib::group_to_multiset_ensures;

use crate::text::{
    all_but, before, ends_with, is_white_space, law_one_word, law_split_at_separators,
    law_words_of_both, lemma_span, same_text, span, split_first, split_whitespace, words,
};

verus! {

/// Stands in `pip_args` for the index that the user chose for GPU builds of
/// torch.
pub const PIP_TORCH_INDEX_URL_PLACEHOLDER: &'static str = "{PIP_TORCH_INDEX_URL}";

/// An argument with the placeholder at its end, if it is there, replaced.
pub open spec fn expanded_arg(arg: Seq<char>, torch_url: Seq<char>) -> Seq<char> {
    if PIP_TORCH_INDEX_URL_PLACEHOLDER@.is_suffix_of(arg) {
        arg.take(arg.len() - PIP_TORCH_INDEX_URL_PLACEHOLDER@.len()) + torch_url
    } else {
        arg
    }
}

/// The arguments in `pip_args`, each with its placeholder replaced.
pub open spec fn expanded_args(pip_args: Seq<char>, torch_url: Seq<char>) -> Seq<Seq<char>> {
    words(pip_args).map_values(|arg: Seq<char>| expanded_arg(arg, torch_url))
}

/// Splits `pip_args` into arguments and replaces the placeholder, which may
/// stand for itself (`--extra-index-url {PIP_TORCH_INDEX_URL}`) or follow an
/// equals sign (`--extra-index-url={PIP_TORCH_INDEX_URL}`).
pub fn expand_torch_placeholder(pip_args: &str, torch_url: &str) -> (r: Vec<String>)
    ensures
        r.deep_view() == expanded_args(pip_args@, torch_url@),
{
    let args = split_whitespace(pip_args);
    let ghost all = args.deep_view();
    let mut r: Vec<String> = Vec::new();
    let mut i: usize = 0;
    while i < args.len()
        invariant
            i <= args.len(),
            r.len() == i,
            all == args.deep_view(),
            forall|k: int|
                0 <= k < i ==> (#[trigger] r.deep_view()[k]) == expanded_arg(all[k], torch_url@),
        decreases args.len() - i,
    {
        let ghost done = r.deep_view();
        let arg = expand_arg(args[i].as_str(), torch_url);
        r.push(arg);
        assert(r.deep_view() == done.push(expanded_arg(all[i as int], torch_url@)));
        i = i + 1;
    }
    assert(r.deep_view() =~= expanded_args(pip_args@, torch_url@));
    r
}

/// Replaces the placeholder at the end of an argument.
fn expand_arg(arg: &str, torch_url: &str) -> (r: String)
    ensures
        r@ == expanded_arg(arg@, torch_url@),
{
    if ends_with(arg, PIP_TORCH_INDEX_URL_PLACEHOLDER) {
        let n: usize = arg.unicode_len() - PIP_TORCH_INDEX_URL_PLACEHOLDER.unicode_len();
        let mut r = arg.substring_char(0, n).to_owned();
        r.append(torch_url);
        r
    } else {
        arg.to_owned()
    }
}

/// The argument is one for `uv` to see. The only other is the flag that silences
/// a warning which `uv` never gives, alone or with a value attached.
pub open spec fn is_for_uv(arg: Seq<char>) -> bool {
    before(arg, '=') != "--no-warn-script-location"@
}

/// The arguments that `uv` is given for `pip_args`.
pub open spec fn translated_args(pip_args: Seq<char>, torch_url: Seq<char>) -> Seq<Seq<char>> {
    expanded_args(pip_args, torch_url).filter(|arg: Seq<char>| is_for_uv(arg))
}

/// Translates a profile's `pip_args` into arguments for `uv`. All but the one
/// flag that means nothing to `uv` passes through, for `uv` to take or to
/// reject.
pub fn translate_pip_args(pip_args: &str, torch_index_url: &str) -> (r: Vec<String>)
    ensures
        r.deep_view() == translated_args(pip_args@, torch_index_url@),
{
    let args = expand_torch_placeholder(pip_args, torch_index_url);
    let ghost all = args.deep_view();
    let ghost keep = |arg: Seq<char>| is_for_uv(arg);
    let mut r: Vec<String> = Vec::new();
    let mut i: usize = 0;
    proof {
        reveal(Seq::filter);
        assert(all.take(0).filter(keep) =~= Seq::<Seq<char>>::empty());
    }
    while i < args.len()
        invariant
            i <= args.len(),
            all == args.deep_view(),
            keep == (|arg: Seq<char>| is_for_uv(arg)),
            r.deep_view() == all.take(i as int).filter(keep),
        decreases args.len() - i,
    {
        let ghost done = r.deep_view();
        let arg = args[i].as_str();
        if !same_text(split_first(arg, '='), "--no-warn-script-location") {
            r.push(arg.to_owned());
            assert(r.deep_view() == done.push(all[i as int]));
        }
        proof {
            reveal(Seq::filter);
            assert(all.take(i + 1).drop_last() == all.take(i as int));
        }
        i = i + 1;
    }
    assert(all.take(i as int) == all);
    r
}

/// The arguments name a package index of their own.
pub open spec fn names_index(pip_args: Seq<char>) -> bool {
    words(pip_args).contains("--index-url"@) || words(pip_args).contains("-i"@)
}

/// Whether `pip_args` names a package index of its own.
pub fn has_index_option(pip_args: &str) -> (r: bool)
    ensures
        r == names_index(pip_args@),
{
    let args = split_whitespace(pip_args);
    let ghost all = args.deep_view();
    let mut i: usize = 0;
    while i < args.len()
        invariant
            i <= args.len(),
            all == args.deep_view(),
            all == words(pip_args@),
            forall|k: int|
                0 <= k < i ==> (#[trigger] all[k]) != "--index-url"@ && all[k] != "-i"@,
        decreases args.len() - i,
    {
        let arg = args[i].as_str();
        assert(all[i as int] == arg@);
        if same_text(arg, "--index-url") || same_text(arg, "-i") {
            return true;
        }
        i = i + 1;
    }
    false
}

/// Arguments without the placeholder are left as they are, whatever the index
/// that the user chose.
pub proof fn law_no_placeholder_no_change(pip_args: Seq<char>, torch_url: Seq<char>)
    requires
        forall|i: int|
            0 <= i < words(pip_args).len() ==> !PIP_TORCH_INDEX_URL_PLACEHOLDER@.is_suffix_of(
                #[trigger] words(pip_args)[i],
            ),
    ensures
        expanded_args(pip_args, torch_url) == words(pip_args),
{
    assert(expanded_args(pip_args, torch_url) =~= words(pip_args));
}

/// A placeholder that stands for itself becomes the index, and one that follows
/// other text leaves that text in place.
pub proof fn law_placeholder_becomes_index(lead: Seq<char>, torch_url: Seq<char>)
    ensures
        expanded_arg(PIP_TORCH_INDEX_URL_PLACEHOLDER@, torch_url) == torch_url,
        expanded_arg(lead + PIP_TORCH_INDEX_URL_PLACEHOLDER@, torch_url) == lead + torch_url,
{
    let placeholder = PIP_TORCH_INDEX_URL_PLACEHOLDER@;
    assert(placeholder.take(0) + torch_url == torch_url);
    assert(placeholder.subrange(0, placeholder.len() as int) == placeholder);
    let arg = lead + placeholder;
    assert(arg.subrange(lead.len() as int, arg.len() as int) == placeholder);
    assert(arg.take(lead.len() as int) == lead);
}

/// No placeholder reaches `uv`: after expansion no argument ends with it, unless
/// the index itself ends with the placeholder or is an end of it.
pub proof fn law_no_placeholder_left(pip_args: Seq<char>, torch_url: Seq<char>, i: int)
    requires
        0 <= i < expanded_args(pip_args, torch_url).len(),
        !PIP_TORCH_INDEX_URL_PLACEHOLDER@.is_suffix_of(torch_url),
        !torch_url.is_suffix_of(PIP_TORCH_INDEX_URL_PLACEHOLDER@),
    ensures
        !PIP_TORCH_INDEX_URL_PLACEHOLDER@.is_suffix_of(expanded_args(pip_args, torch_url)[i]),
{
    let placeholder = PIP_TORCH_INDEX_URL_PLACEHOLDER@;
    if placeholder.is_suffix_of(expanded_args(pip_args, torch_url)[i]) {
        let arg = words(pip_args)[i];
        let made = arg.take(arg.len() - placeholder.len()) + torch_url;
        let n = made.len() as int;
        let p = placeholder.len() as int;
        let u = torch_url.len() as int;
        assert(expanded_args(pip_args, torch_url)[i] == made);
        assert(made.subrange(n - p, n) == placeholder);
        if u >= p {
            assert(torch_url.subrange(u - p, u) =~= placeholder);
        } else {
            assert(made.subrange(n - p, n).subrange(p - u, p) =~= torch_url);
        }
    }
}

/// Expanding keeps the number of arguments: none is dropped, split or merged.
pub proof fn law_expanding_keeps_count(pip_args: Seq<char>, torch_url: Seq<char>)
    ensures
        expanded_args(pip_args, torch_url).len() == words(pip_args).len(),
{
}

/// Nothing but the meaningless flag is dropped: an argument that has a meaning
/// for `uv` is still there after translation, and nothing new is.
pub proof fn law_translation_drops_one_flag(
    pip_args: Seq<char>,
    torch_url: Seq<char>,
    arg: Seq<char>,
)
    ensures
        translated_args(pip_args, torch_url).contains(arg) <==> is_for_uv(arg) && expanded_args(
            pip_args,
            torch_url,
        ).contains(arg),
{
    lemma_filter_members(
        expanded_args(pip_args, torch_url),
        |a: Seq<char>| is_for_uv(a),
        arg,
    );
}

proof fn lemma_filter_members(s: Seq<Seq<char>>, p: spec_fn(Seq<char>) -> bool, x: Seq<char>)
    ensures
        s.filter(p).contains(x) <==> p(x) && s.contains(x),
    decreases s.len(),
{
    reveal(Seq::filter);
    if s.len() > 0 {
        let rest = s.drop_last();
        let last = s.last();
        lemma_filter_members(rest, p, x);
        assert(s =~= rest.push(last));
        assert(s.contains(x) <==> rest.contains(x) || last == x) by {
            if rest.contains(x) {
                let k = choose|k: int| 0 <= k < rest.len() && rest[k] == x;
                assert(s[k] == x);
            }
        }
        if p(last) {
            let kept = rest.filter(p);
            assert(kept.push(last).contains(x) <==> kept.contains(x) || last == x) by {
                if kept.contains(x) {
                    let k = choose|k: int| 0 <= k < kept.len() && kept[k] == x;
                    assert(kept.push(last)[k] == x);
                }
                if last == x {
                    assert(kept.push(last)[kept.len() as int] == x);
                }
            }
        }
    }
}

/// Every argument stays in its place, and is what it was, with the index in the
/// place of the placeholder where it ended with that.
pub proof fn law_expanding_in_place(
    pip_args: Seq<char>,
    torch_url: Seq<char>,
    i: int,
    lead: Seq<char>,
)
    requires
        0 <= i < words(pip_args).len(),
    ensures
        expanded_args(pip_args, torch_url).len() == words(pip_args).len(),
        words(pip_args)[i] == lead + "{PIP_TORCH_INDEX_URL}"@ ==> expanded_args(
            pip_args,
            torch_url,
        )[i] == lead + torch_url,
        !"{PIP_TORCH_INDEX_URL}"@.is_suffix_of(words(pip_args)[i]) ==> expanded_args(
            pip_args,
            torch_url,
        )[i] == words(pip_args)[i],
{
    law_placeholder_becomes_index(lead, torch_url);
}

/// The one flag that is not for `uv` is `--no-warn-script-location`, as it stands
/// or with an equals sign and anything behind it.
pub proof fn law_flag_not_for_uv(arg: Seq<char>)
    ensures
        !is_for_uv(arg) <==> arg == "--no-warn-script-location"@
            || "--no-warn-script-location="@.is_prefix_of(arg),
{
    reveal_strlit("--no-warn-script-location");
    reveal_strlit("--no-warn-script-location=");
    let flag = "--no-warn-script-location"@;
    let with_value = "--no-warn-script-location="@;
    assert(with_value =~= flag + seq!['=']);
    assert(forall|i: int| 0 <= i < flag.len() ==> #[trigger] flag[i] != '=');
    assert(!flag.contains('='));
    law_split_at_separators(flag, '=', Seq::empty());
    if with_value.is_prefix_of(arg) {
        let value = arg.skip(with_value.len() as int);
        assert(arg =~= with_value + value);
        assert(arg =~= flag + seq!['='] + value);
        law_split_at_separators(flag, '=', value);
    }
    if before(arg, '=') == flag {
        lemma_span(arg, all_but('='));
        let n = span(arg, all_but('=')) as int;
        assert(arg.take(n) == flag);
        if n < arg.len() {
            assert(arg[n] == '=');
            assert(arg.take(n + 1) =~= with_value);
        } else {
            assert(arg.take(n) =~= arg);
        }
    }
}

/// Translation goes argument by argument: what is written before some white space
/// and what is written behind it are translated one after the other. So the
/// arguments keep their order and their number of occurrences.
pub proof fn law_translation_of_both(a: Seq<char>, c: char, b: Seq<char>, torch_url: Seq<char>)
    requires
        is_white_space(c),
    ensures
        expanded_args(a + seq![c] + b, torch_url) == expanded_args(a, torch_url) + expanded_args(
            b,
            torch_url,
        ),
        translated_args(a + seq![c] + b, torch_url) == translated_args(a, torch_url)
            + translated_args(b, torch_url),
{
    law_words_of_both(a, c, b);
    assert(expanded_args(a + seq![c] + b, torch_url) =~= expanded_args(a, torch_url)
        + expanded_args(b, torch_url));
    Seq::filter_distributes_over_add(
        expanded_args(a, torch_url),
        expanded_args(b, torch_url),
        |arg: Seq<char>| is_for_uv(arg),
    );
}

/// A single argument is translated to itself, or, where it ends with the
/// placeholder, to itself with the index in that place; only the meaningless flag
/// is translated to nothing.
pub proof fn law_translation_of_one(arg: Seq<char>, lead: Seq<char>, torch_url: Seq<char>)
    requires
        arg.len() > 0,
        forall|i: int| 0 <= i < arg.len() ==> !is_white_space(#[trigger] arg[i]),
    ensures
        !"{PIP_TORCH_INDEX_URL}"@.is_suffix_of(arg) ==> translated_args(arg, torch_url) == if arg
            == "--no-warn-script-location"@ || "--no-warn-script-location="@.is_prefix_of(arg) {
            Seq::empty()
        } else {
            seq![arg]
        },
        arg == lead + "{PIP_TORCH_INDEX_URL}"@ ==> translated_args(arg, torch_url) == if lead
            + torch_url == "--no-warn-script-location"@
            || "--no-warn-script-location="@.is_prefix_of(lead + torch_url) {
            Seq::empty()
        } else {
            seq![lead + torch_url]
        },
{
    law_one_word(arg);
    law_expanding_in_place(arg, torch_url, 0, lead);
    let expanded = expanded_args(arg, torch_url);
    let made = expanded[0];
    assert(expanded =~= seq![made]);
    law_flag_not_for_uv(made);
    reveal_with_fuel(Seq::filter, 2);
    assert(expanded.drop_last() =~= Seq::<Seq<char>>::empty());
    if is_for_uv(made) {
        assert(translated_args(arg, torch_url) =~= seq![made]);
    } else {
        assert(translated_args(arg, torch_url) =~= Seq::<Seq<char>>::empty());
    }
}

/// Every argument but the meaningless flag is passed on exactly as often as it is
/// written, and the flag never is. Where it is not written at all, the arguments
/// are passed on as they are.
pub proof fn law_translation_keeps_occurrences(
    pip_args: Seq<char>,
    torch_url: Seq<char>,
    arg: Seq<char>,
)
    ensures
        translated_args(pip_args, torch_url).to_multiset().count(arg) == if arg
            == "--no-warn-script-location"@ || "--no-warn-script-location="@.is_prefix_of(arg) {
            0
        } else {
            expanded_args(pip_args, torch_url).to_multiset().count(arg)
        },
        (forall|i: int|
            0 <= i < words(pip_args).len() ==> {
                let made = #[trigger] expanded_args(pip_args, torch_url)[i];
                made != "--no-warn-script-location"@
                    && !"--no-warn-script-location="@.is_prefix_of(made)
            }) ==> translated_args(pip_args, torch_url) == expanded_args(pip_args, torch_url),
{
    let expanded = expanded_args(pip_args, torch_url);
    let keep = |a: Seq<char>| is_for_uv(a);
    law_flag_not_for_uv(arg);
    lemma_filter_count(expanded, keep, arg);
    if forall|i: int|
        0 <= i < words(pip_args).len() ==> {
            let made = #[trigger] expanded[i];
            made != "--no-warn-script-location"@ && !"--no-warn-script-location="@.is_prefix_of(
                made,
            )
        } {
        assert forall|i: int| 0 <= i < expanded.len() implies keep(#[trigger] expanded[i]) by {
            law_flag_not_for_uv(expanded[i]);
        }
        lemma_filter_keeps_all(expanded, keep);
    }
}

proof fn lemma_filter_count(s: Seq<Seq<char>>, p: spec_fn(Seq<char>) -> bool, x: Seq<char>)
    ensures
        s.filter(p).to_multiset().count(x) == if p(x) {
            s.to_multiset().count(x)
        } else {
            0
        },
    decreases s.len(),
{
    broadcast use group_to_multiset_ensures;

    reveal(Seq::filter);
    if s.len() > 0 {
        let rest = s.drop_last();
        lemma_filter_count(rest, p, x);
        assert(s =~= rest.push(s.last()));
    } else {
        assert(s.filter(p).len() == 0);
        assert(s.to_multiset().len() == 0);
        assert(s.filter(p).to_multiset().len() == 0);
    }
}

proof fn lemma_filter_keeps_all(s: Seq<Seq<char>>, p: spec_fn(Seq<char>) -> bool)
    requires
        forall|i: int| 0 <= i < s.len() ==> p(#[trigger] s[i]),
    ensures
        s.filter(p) == s,
    decreases s.len(),
{
    reveal(Seq::filter);
    if s.len() > 0 {
        lemma_filter_keeps_all(s.drop_last(), p);
        assert(s =~= s.drop_last().push(s.last()));
    }
}

/// The profile names an index of its own if and only if one of its arguments is
/// `--index-url` or `-i`, wherever it stands among them.
pub proof fn law_index_is_named(pip_args: Seq<char>, a: Seq<char>, c: char, b: Seq<char>)
    ensures
        names_index(pip_args) <==> exists|i: int|
            0 <= i < words(pip_args).len() && (#[trigger] words(pip_args)[i] == "--index-url"@
                || words(pip_args)[i] == "-i"@),
        is_white_space(c) ==> (names_index(a + seq![c] + b) <==> names_index(a) || names_index(b)),
        names_index("--index-url"@),
        names_index("-i"@),
{
    if names_index(pip_args) {
        let url = "--index-url"@;
        let short = "-i"@;
        let w = words(pip_args);
        if w.contains(url) {
            let i = choose|i: int| 0 <= i < w.len() && w[i] == url;
            assert(w[i] == url);
        } else {
            let i = choose|i: int| 0 <= i < w.len() && w[i] == short;
            assert(w[i] == short);
        }
    }
    if is_white_space(c) {
        law_words_of_both(a, c, b);
        lemma_contains_either(words(a), words(b), "--index-url"@);
        lemma_contains_either(words(a), words(b), "-i"@);
    }
    reveal_strlit("--index-url");
    reveal_strlit("-i");
    law_one_word("--index-url"@);
    law_one_word("-i"@);
    assert(seq!["--index-url"@][0] == "--index-url"@);
    assert(seq!["-i"@][0] == "-i"@);
}

proof fn lemma_contains_either(a: Seq<Seq<char>>, b: Seq<Seq<char>>, x: Seq<char>)
    ensures
        (a + b).contains(x) <==> a.contains(x) || b.contains(x),
{
    if a.contains(x) {
        let i = choose|i: int| 0 <= i < a.len() && a[i] == x;
        assert((a + b)[i] == x);
    }
    if b.contains(x) {
        let i = choose|i: int| 0 <= i < b.len() && b[i] == x;
        assert((a + b)[a.len() + i] == x);
    }
}

} // verus!
