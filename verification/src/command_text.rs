//! A command as one line of text, for showing and logging.

use vstd::prelude::*;

use crate::text::{chars_of, prefixed};

verus! {

/// What of a command can be shown: its program and its arguments, each missing
/// where it is no valid text.
#[derive(Debug, PartialEq, Eq)]
pub struct CommandParts {
    pub program: Option<String>,
    pub args: Vec<Option<String>>,
}

/// `s` with every quotation mark doubled.
pub open spec fn doubled(s: Seq<char>) -> Seq<char>
    decreases s.len(),
{
    if s.len() == 0 {
        Seq::empty()
    } else if s[0] == '"' {
        seq!['"', '"'] + doubled(s.drop_first())
    } else {
        seq![s[0]] + doubled(s.drop_first())
    }
}

/// The argument has to stand in quotation marks.
pub open spec fn needs_quotes(arg: Seq<char>) -> bool {
    arg.contains(' ') || arg.contains('"')
}

/// The argument as it is shown.
pub open spec fn quoted(arg: Seq<char>) -> Seq<char> {
    if needs_quotes(arg) {
        seq!['"'] + doubled(arg) + seq!['"']
    } else {
        arg
    }
}

/// The arguments as they are shown, with a space before each.
pub open spec fn args_text(args: Seq<Seq<char>>) -> Seq<char> {
    prefixed(args.map_values(|arg: Seq<char>| quoted(arg)), seq![' '])
}

/// The arguments that are valid text.
pub open spec fn legible(args: Seq<Option<String>>) -> Seq<Seq<char>> {
    args.filter_map(
        |arg: Option<String>|
            match arg {
                Some(text) => Some(text@),
                None => None,
            },
    )
}

/// The program as it is shown.
pub open spec fn program_text(program: Option<String>) -> Seq<char> {
    match program {
        Some(text) => text@,
        None => "<non-UTF8 program path>"@,
    }
}

proof fn lemma_doubled_concat(a: Seq<char>, b: Seq<char>)
    ensures
        doubled(a + b) == doubled(a) + doubled(b),
    decreases a.len(),
{
    if a.len() == 0 {
        assert(a + b =~= b);
        assert(doubled(a) + doubled(b) =~= doubled(b));
    } else {
        lemma_doubled_concat(a.drop_first(), b);
        assert((a + b).drop_first() =~= a.drop_first() + b);
        assert(doubled(a + b) =~= doubled(a) + doubled(b));
    }
}

proof fn lemma_doubled_plain(s: Seq<char>)
    requires
        forall|i: int| 0 <= i < s.len() ==> #[trigger] s[i] != '"',
    ensures
        doubled(s) == s,
    decreases s.len(),
{
    if s.len() > 0 {
        let rest = s.drop_first();
        assert forall|i: int| 0 <= i < rest.len() implies #[trigger] rest[i] != '"' by {
            assert(rest[i] == s[i + 1]);
        }
        lemma_doubled_plain(rest);
        assert(doubled(s) =~= s);
    }
}

proof fn lemma_prefixed_push(list: Seq<Seq<char>>, item: Seq<char>, sep: Seq<char>)
    ensures
        prefixed(list.push(item), sep) == prefixed(list, sep) + sep + item,
    decreases list.len(),
{
    reveal_with_fuel(prefixed, 2);
    if list.len() == 0 {
        assert(list.push(item).drop_first() =~= Seq::<Seq<char>>::empty());
        assert(prefixed(list.push(item), sep) =~= prefixed(list, sep) + sep + item);
    } else {
        lemma_prefixed_push(list.drop_first(), item, sep);
        assert(list.push(item).drop_first() =~= list.drop_first().push(item));
        assert(prefixed(list.push(item), sep) =~= prefixed(list, sep) + sep + item);
    }
}

/// The argument as it is shown.
pub fn quote(arg: &str) -> (r: String)
    ensures
        r@ == quoted(arg@),
{
    proof {
        reveal_strlit("\"");
        reveal_strlit("\"\"");
        assert("\""@ =~= seq!['"']);
        assert("\"\""@ =~= seq!['"', '"']);
    }
    let chars = chars_of(arg);
    let mut marked = false;
    let mut from: usize = 0;
    let mut i: usize = 0;
    let mut body = String::new();
    assert(arg@.take(0) =~= Seq::<char>::empty());
    while i < chars.len()
        invariant
            chars@ == arg@,
            from <= i <= chars.len(),
            "\"\""@ == seq!['"', '"'],
            marked <==> exists|k: int|
                0 <= k < i && (#[trigger] chars[k] == ' ' || chars[k] == '"'),
            body@ == doubled(arg@.take(from as int)),
            forall|k: int| from <= k < i ==> #[trigger] chars[k] != '"',
        decreases chars.len() - i,
    {
        if chars[i] == '"' {
            proof {
                lemma_doubled_plain(arg@.subrange(from as int, i as int));
                lemma_doubled_concat(
                    arg@.take(from as int),
                    arg@.subrange(from as int, i as int),
                );
                assert(arg@.take(from as int) + arg@.subrange(from as int, i as int) =~= arg@.take(
                    i as int,
                ));
                reveal_with_fuel(doubled, 2);
                lemma_doubled_concat(arg@.take(i as int), seq!['"']);
                assert(seq!['"'].drop_first() =~= Seq::<char>::empty());
                assert(doubled(seq!['"']) =~= seq!['"', '"']);
                assert(arg@.take(i + 1) =~= arg@.take(i as int) + seq!['"']);
            }
            body.append(arg.substring_char(from, i));
            body.append("\"\"");
            from = i + 1;
            marked = true;
        } else if chars[i] == ' ' {
            marked = true;
        }
        i = i + 1;
    }
    proof {
        lemma_doubled_plain(arg@.subrange(from as int, i as int));
        lemma_doubled_concat(arg@.take(from as int), arg@.subrange(from as int, i as int));
        assert(arg@.take(from as int) + arg@.subrange(from as int, i as int) =~= arg@);
        assert(marked <==> needs_quotes(arg@)) by {
            if marked {
                let k = choose|k: int| 0 <= k < i && (#[trigger] chars[k] == ' ' || chars[k] == '"');
                assert(arg@[k] == ' ' || arg@[k] == '"');
            }
            if arg@.contains(' ') {
                let k = choose|k: int| 0 <= k < arg@.len() && arg@[k] == ' ';
                assert(chars[k] == ' ');
            }
            if arg@.contains('"') {
                let k = choose|k: int| 0 <= k < arg@.len() && arg@[k] == '"';
                assert(chars[k] == '"');
            }
        }
    }
    if marked {
        body.append(arg.substring_char(from, i));
        let mut r = "\"".to_owned();
        r.append(body.as_str());
        r.append("\"");
        assert(r@ =~= quoted(arg@));
        r
    } else {
        arg.to_owned()
    }
}

/// The command as one line of text. Arguments that are no valid text are left
/// out.
pub fn command_to_string(command: &CommandParts) -> (r: String)
    ensures
        r@ == program_text(command.program) + args_text(legible(command.args@)),
{
    let mut r = String::new();
    match &command.program {
        Some(text) => r.append(text.as_str()),
        None => r.append("<non-UTF8 program path>"),
    }
    let ghost program = program_text(command.program);
    let ghost args = command.args@;
    proof {
        reveal_strlit(" ");
        assert(" "@ =~= seq![' ']);
        assert(r@ =~= program);
        assert(args.take(0) =~= Seq::empty());
        assert(legible(args.take(0)) =~= Seq::<Seq<char>>::empty());
        assert(args_text(legible(args.take(0))) =~= Seq::<char>::empty());
    }
    let mut i: usize = 0;
    while i < command.args.len()
        invariant
            i <= command.args.len(),
            args == command.args@,
            " "@ == seq![' '],
            r@ == program + args_text(legible(args.take(i as int))),
        decreases command.args.len() - i,
    {
        proof {
            assert(args.take(i + 1).drop_last() =~= args.take(i as int));
            assert(args.take(i + 1).last() == args[i as int]);
        }
        let ghost shown = legible(args.take(i as int));
        match &command.args[i] {
            Some(text) => {
                r.append(" ");
                let arg = quote(text.as_str());
                r.append(arg.as_str());
                proof {
                    assert(legible(args.take(i + 1)) =~= shown.push(text@));
                    let f = |arg: Seq<char>| quoted(arg);
                    assert(shown.push(text@).map_values(f) =~= shown.map_values(f).push(
                        quoted(text@),
                    ));
                    lemma_prefixed_push(shown.map_values(f), quoted(text@), seq![' ']);
                    assert(r@ =~= program + args_text(legible(args.take(i + 1))));
                }
            },
            None => {
                assert(legible(args.take(i + 1)) =~= shown);
            },
        }
        i = i + 1;
    }
    assert(args.take(i as int) =~= args);
    r
}

/// `rest` can follow an argument: it is empty or begins with a space.
spec fn is_rest(rest: Seq<char>) -> bool {
    rest.len() == 0 || rest[0] == ' '
}

/// The closing quotation mark cannot be mistaken for a doubled one.
proof fn lemma_doubled_unambiguous(a: Seq<char>, b: Seq<char>, s: Seq<char>, t: Seq<char>)
    requires
        is_rest(s),
        is_rest(t),
        doubled(a) + seq!['"'] + s == doubled(b) + seq!['"'] + t,
    ensures
        a == b,
        s == t,
    decreases a.len(),
{
    let left = doubled(a) + seq!['"'] + s;
    let right = doubled(b) + seq!['"'] + t;
    if a.len() == 0 && b.len() == 0 {
        assert(a =~= b);
        assert(left.skip(1) =~= s);
        assert(right.skip(1) =~= t);
    } else if a.len() == 0 {
        assert(left[0] == '"');
        assert(right[0] == b[0]);
        assert(right[1] == '"');
        assert(left[1] == s[0]);
        assert(false);
    } else if b.len() == 0 {
        assert(right[0] == '"');
        assert(left[0] == a[0]);
        assert(left[1] == '"');
        assert(right[1] == t[0]);
        assert(false);
    } else {
        assert(left[0] == a[0]);
        assert(right[0] == b[0]);
        let n: int = if a[0] == '"' {
            2
        } else {
            1
        };
        assert(left.skip(n) =~= doubled(a.drop_first()) + seq!['"'] + s);
        assert(right.skip(n) =~= doubled(b.drop_first()) + seq!['"'] + t);
        lemma_doubled_unambiguous(a.drop_first(), b.drop_first(), s, t);
        assert(a =~= seq![a[0]] + a.drop_first());
        assert(b =~= seq![b[0]] + b.drop_first());
    }
}

/// An argument without quotation marks around it ends at the first space.
proof fn lemma_plain_unambiguous(a: Seq<char>, b: Seq<char>, s: Seq<char>, t: Seq<char>)
    requires
        is_rest(s),
        is_rest(t),
        !a.contains(' '),
        !b.contains(' '),
        a + s == b + t,
    ensures
        a == b,
        s == t,
{
    if a.len() < b.len() {
        assert((a + s)[a.len() as int] == s[0]);
        assert((b + t)[a.len() as int] == b[a.len() as int]);
        assert(false);
    }
    if b.len() < a.len() {
        assert((b + t)[b.len() as int] == t[0]);
        assert((a + s)[b.len() as int] == a[b.len() as int]);
        assert(false);
    }
    let n = a.len() as int;
    assert((a + s).take(n) =~= a);
    assert((b + t).take(n) =~= b);
    assert((a + s).skip(n) =~= s);
    assert((b + t).skip(n) =~= t);
}

proof fn lemma_quoted_unambiguous(a: Seq<char>, b: Seq<char>, s: Seq<char>, t: Seq<char>)
    requires
        is_rest(s),
        is_rest(t),
        quoted(a) + s == quoted(b) + t,
    ensures
        a == b,
        s == t,
{
    let left = quoted(a) + s;
    let right = quoted(b) + t;
    if needs_quotes(a) && needs_quotes(b) {
        assert(left.skip(1) =~= doubled(a) + seq!['"'] + s);
        assert(right.skip(1) =~= doubled(b) + seq!['"'] + t);
        lemma_doubled_unambiguous(a, b, s, t);
    } else if !needs_quotes(a) && !needs_quotes(b) {
        lemma_plain_unambiguous(a, b, s, t);
    } else if needs_quotes(a) {
        assert(left[0] == '"');
        if b.len() > 0 {
            assert(right[0] == b[0]);
            assert(b.contains(b[0]));
        } else {
            assert(right[0] == t[0]);
        }
        assert(false);
    } else {
        assert(right[0] == '"');
        if a.len() > 0 {
            assert(left[0] == a[0]);
            assert(a.contains(a[0]));
        } else {
            assert(left[0] == s[0]);
        }
        assert(false);
    }
}

proof fn lemma_args_text_first(args: Seq<Seq<char>>)
    requires
        args.len() > 0,
    ensures
        args_text(args) == seq![' '] + (quoted(args[0]) + args_text(args.drop_first())),
{
    let f = |arg: Seq<char>| quoted(arg);
    assert(args.map_values(f).drop_first() =~= args.drop_first().map_values(f));
    assert(args_text(args) =~= seq![' '] + (quoted(args[0]) + args_text(args.drop_first())));
}

/// The text tells the arguments apart: different lists of arguments are shown
/// differently.
pub proof fn law_args_text_is_unambiguous(a: Seq<Seq<char>>, b: Seq<Seq<char>>)
    requires
        args_text(a) == args_text(b),
    ensures
        a == b,
    decreases a.len(),
{
    if a.len() > 0 {
        lemma_args_text_first(a);
    }
    if b.len() > 0 {
        lemma_args_text_first(b);
    }
    if a.len() > 0 && b.len() > 0 {
        let s = args_text(a.drop_first());
        let t = args_text(b.drop_first());
        if a.len() > 1 {
            lemma_args_text_first(a.drop_first());
        }
        if b.len() > 1 {
            lemma_args_text_first(b.drop_first());
        }
        assert((seq![' '] + (quoted(a[0]) + s)).skip(1) =~= quoted(a[0]) + s);
        assert((seq![' '] + (quoted(b[0]) + t)).skip(1) =~= quoted(b[0]) + t);
        lemma_quoted_unambiguous(a[0], b[0], s, t);
        law_args_text_is_unambiguous(a.drop_first(), b.drop_first());
        assert(a =~= seq![a[0]] + a.drop_first());
        assert(b =~= seq![b[0]] + b.drop_first());
    } else {
        assert(a.len() == 0 && b.len() == 0);
        assert(a =~= b);
    }
}

/// Doubling goes character by character: a quotation mark becomes two, and
/// everything else stays.
pub proof fn law_quotation_marks_are_doubled(a: Seq<char>, c: char, b: Seq<char>)
    ensures
        doubled(Seq::empty()) == Seq::<char>::empty(),
        doubled(seq![c]) == if c == '"' {
            seq!['"', '"']
        } else {
            seq![c]
        },
        doubled(a + b) == doubled(a) + doubled(b),
{
    lemma_doubled_concat(a, b);
    reveal_with_fuel(doubled, 2);
    assert(seq![c].drop_first() =~= Seq::<char>::empty());
    assert(doubled(seq![c]) =~= if c == '"' {
        seq!['"', '"']
    } else {
        seq![c]
    });
}

/// An argument stands in quotation marks, with its own doubled, if it holds a space
/// or a quotation mark, and as it is if it holds neither.
pub proof fn law_quoted_where_needed(arg: Seq<char>)
    ensures
        arg.contains(' ') || arg.contains('"') ==> quoted(arg) == seq!['"'] + doubled(arg) + seq![
            '"',
        ],
        !arg.contains(' ') && !arg.contains('"') ==> quoted(arg) == arg,
{
}

/// A further argument is shown behind the others, after a space.
pub proof fn law_args_are_shown_in_order(args: Seq<Seq<char>>, arg: Seq<char>)
    ensures
        args_text(Seq::empty()) == Seq::<char>::empty(),
        args_text(args.push(arg)) == args_text(args) + seq![' '] + quoted(arg),
{
    let f = |arg: Seq<char>| quoted(arg);
    assert(args.push(arg).map_values(f) =~= args.map_values(f).push(quoted(arg)));
    lemma_prefixed_push(args.map_values(f), quoted(arg), seq![' ']);
    assert(Seq::<Seq<char>>::empty().map_values(f) =~= Seq::<Seq<char>>::empty());
}

/// An argument that is valid text is shown, and one that is not is left out.
pub proof fn law_legible_args_are_kept(args: Seq<Option<String>>, text: String)
    ensures
        legible(Seq::empty()) == Seq::<Seq<char>>::empty(),
        legible(args.push(Some(text))) == legible(args).push(text@),
        legible(args.push(None)) == legible(args),
{
    assert(args.push(Some(text)).drop_last() =~= args);
    assert(args.push(None).drop_last() =~= args);
    assert(legible(Seq::empty()) =~= Seq::<Seq<char>>::empty());
    assert(legible(args.push(Some(text))) =~= legible(args).push(text@));
    assert(legible(args.push(None)) =~= legible(args));
}

/// The program is shown as it is, or as what cannot be shown.
pub proof fn law_program_is_shown(text: String)
    ensures
        program_text(Some(text)) == text@,
        program_text(None) == "<non-UTF8 program path>"@,
{
}

} // verus!
