use pyappify::pip_args::{
    expand_torch_placeholder, has_index_option, translate_pip_args, PIP_TORCH_INDEX_URL_PLACEHOLDER,
};

#[test]
fn expands_space_separated_placeholder() {
    let args = expand_torch_placeholder(
        "--extra-index-url {PIP_TORCH_INDEX_URL}",
        "https://mirror.nju.edu.cn/pytorch/whl/cu126",
    );
    assert_eq!(
        args,
        vec![
            "--extra-index-url",
            "https://mirror.nju.edu.cn/pytorch/whl/cu126"
        ]
    );
}

#[test]
fn expands_equals_attached_placeholder() {
    let args = expand_torch_placeholder(
        "--extra-index-url={PIP_TORCH_INDEX_URL}",
        "https://download.pytorch.org/whl/cu126",
    );
    assert_eq!(
        args,
        vec!["--extra-index-url=https://download.pytorch.org/whl/cu126"]
    );
}

#[test]
fn leaves_args_without_placeholder_untouched() {
    let args = expand_torch_placeholder(
        "--no-deps --index-url https://pypi.tuna.tsinghua.edu.cn/simple",
        "https://download.pytorch.org/whl/cu126",
    );
    assert_eq!(
        args,
        vec![
            "--no-deps",
            "--index-url",
            "https://pypi.tuna.tsinghua.edu.cn/simple"
        ]
    );
}

#[test]
fn translates_pip_args_for_uv() {
    let args = translate_pip_args(
        "--no-deps --extra-index-url {PIP_TORCH_INDEX_URL} --no-warn-script-location",
        "https://mirror.nju.edu.cn/pytorch/whl/cu126",
    );
    assert_eq!(
        args,
        vec![
            "--no-deps",
            "--extra-index-url",
            "https://mirror.nju.edu.cn/pytorch/whl/cu126"
        ]
    );
}

#[test]
fn placeholder_constant_is_the_documented_token() {
    assert_eq!(PIP_TORCH_INDEX_URL_PLACEHOLDER, "{PIP_TORCH_INDEX_URL}");
}

#[test]
fn placeholder_inside_an_argument_stays() {
    assert_eq!(
        expand_torch_placeholder("a{PIP_TORCH_INDEX_URL}b {PIP_TORCH_INDEX_URL}", "u"),
        vec!["a{PIP_TORCH_INDEX_URL}b", "u"]
    );
    assert!(expand_torch_placeholder(" \t\n", "u").is_empty());
}

#[test]
fn the_meaningless_flag_goes_with_its_value() {
    assert_eq!(
        translate_pip_args("--no-warn-script-location=1 -q --no-warn-script-locations", "u"),
        vec!["-q", "--no-warn-script-locations"]
    );
}

#[test]
fn unknown_arguments_pass_through() {
    assert_eq!(
        translate_pip_args("--cache-dir c --upgrade --find-links=x", "u"),
        vec!["--cache-dir", "c", "--upgrade", "--find-links=x"]
    );
}

#[test]
fn index_options_are_recognized() {
    assert!(has_index_option("--no-deps --index-url https://x"));
    assert!(has_index_option("-i https://x"));
    assert!(!has_index_option("--extra-index-url https://x"));
    assert!(!has_index_option(""));
}
