use pyappify::command_text::{command_to_string, quote, CommandParts};

fn shown(program: Option<&str>, args: &[Option<&str>]) -> String {
    command_to_string(&CommandParts {
        program: program.map(str::to_string),
        args: args.iter().map(|arg| arg.map(str::to_string)).collect(),
    })
}

#[test]
fn a_command_is_shown_on_one_line() {
    assert_eq!(
        shown(
            Some("uv"),
            &[Some("pip"), Some("install"), Some("a b"), Some("say \"hi\"")]
        ),
        "uv pip install \"a b\" \"say \"\"hi\"\"\""
    );
    assert_eq!(shown(Some("uv"), &[]), "uv");
    assert_eq!(shown(Some("uv"), &[Some("")]), "uv ");
}

#[test]
fn what_is_no_text_is_left_out() {
    assert_eq!(
        shown(None, &[None, Some("x"), None]),
        "<non-UTF8 program path> x"
    );
}

#[test]
fn arguments_are_quoted_where_needed() {
    assert_eq!(quote("plain"), "plain");
    assert_eq!(quote("tab\tstays"), "tab\tstays");
    assert_eq!(quote("a b"), "\"a b\"");
    assert_eq!(quote("\""), "\"\"\"\"");
    assert_eq!(quote("a\"\"b"), "\"a\"\"\"\"b\"");
}

#[test]
fn different_arguments_are_shown_differently() {
    let lists: Vec<Vec<Option<&str>>> = vec![
        vec![],
        vec![Some("")],
        vec![Some(""), Some("")],
        vec![Some(" ")],
        vec![Some("a"), Some("b")],
        vec![Some("a b")],
        vec![Some("\"a"), Some("b\"")],
        vec![Some("\"a b\"")],
        vec![Some("a\" \"b")],
    ];
    for (i, a) in lists.iter().enumerate() {
        for (j, b) in lists.iter().enumerate() {
            assert_eq!(i == j, shown(Some("p"), a) == shown(Some("p"), b));
        }
    }
}
