use cargo_embed::args::{forwarded_args, strip_subcommand, Argument};
use cargo_embed::config::config_name;

/// Arguments, each with its number; an empty text stands for one that is not Unicode.
fn arguments(texts: &[&str]) -> Vec<Argument<usize>> {
    texts
        .iter()
        .enumerate()
        .map(|(raw, text)| Argument {
            text: if text.is_empty() { None } else { Some(text.to_string()) },
            raw,
        })
        .collect()
}

fn raw(args: Vec<Argument<usize>>) -> Vec<usize> {
    args.into_iter().map(|argument| argument.raw).collect()
}

#[test]
fn the_subcommand_is_removed() {
    assert_eq!(raw(strip_subcommand(arguments(&["cargo-embed", "embed", "release"]))), vec![0, 2]);
    assert_eq!(raw(strip_subcommand(arguments(&["cargo-embed", "embed"]))), vec![0]);
    assert_eq!(raw(strip_subcommand(arguments(&["cargo-embed", "embed", "embed"]))), vec![0, 2]);
}

#[test]
fn other_arguments_stay() {
    assert_eq!(raw(strip_subcommand(arguments(&[]))), Vec::<usize>::new());
    assert_eq!(raw(strip_subcommand(arguments(&["embed"]))), vec![0]);
    assert_eq!(raw(strip_subcommand(arguments(&["x", "Embed"]))), vec![0, 1]);
    assert_eq!(raw(strip_subcommand(arguments(&["x", "--chip", "embed"]))), vec![0, 1, 2]);
    assert_eq!(raw(strip_subcommand(arguments(&["x", "", "embed"]))), vec![0, 1, 2]);
}

#[test]
fn called_by_cargo_or_by_the_user() {
    let by_cargo = strip_subcommand(arguments(&["x", "embed", "--chip", "nrf52"]));
    let by_user = strip_subcommand(arguments(&["x", "--chip", "nrf52"]));
    let texts = |args: Vec<Argument<usize>>| -> Vec<Option<String>> {
        args.into_iter().map(|argument| argument.text).collect()
    };
    assert_eq!(texts(by_cargo), texts(by_user));
}

#[test]
fn the_first_name_of_the_profile_is_removed() {
    assert_eq!(raw(forwarded_args(arguments(&["x", "a", "release", "b", "release"]), "release")), vec![1, 3, 4]);
    assert_eq!(raw(forwarded_args(arguments(&["release", "a", ""]), "release")), vec![1, 2]);
    assert_eq!(raw(forwarded_args(arguments(&["x"]), "default")), Vec::<usize>::new());
}

#[test]
fn the_profile_has_a_default() {
    assert_eq!(config_name(&None), "default");
    assert_eq!(config_name(&Some("release".to_string())), "release");
}
