use scadline::cli::{parse_args, Argument, CliAction, HELP};
use scadline::config::ModelBackend;
use std::path::PathBuf;

fn arguments(words: &[&str]) -> Vec<Argument> {
    words
        .iter()
        .map(|word| Argument {
            text: word.to_string(),
            is_utf8: true,
        })
        .collect()
}

fn refusal(words: &[Argument]) -> String {
    let words = words
        .iter()
        .map(|word| Argument {
            text: word.text.clone(),
            is_utf8: word.is_utf8,
        })
        .collect();
    match parse_args(&words) {
        Err(message) => message,
        Ok(_) => panic!("expected a refusal"),
    }
}

#[test]
fn parses_backend_and_source_in_any_order() {
    let words = arguments(&["examples/demo.scad", "--backend=manifold"]);
    let CliAction::Run(options) = parse_args(&words).expect("arguments should parse") else {
        panic!("expected run action");
    };
    assert_eq!(
        options
            .source_path
            .map(|place| PathBuf::from(&words[place].text)),
        Some(PathBuf::from("examples/demo.scad"))
    );
    assert_eq!(options.backend, Some(ModelBackend::Manifold));

    let words = arguments(&["--backend=manifold", "examples/demo.scad"]);
    let CliAction::Run(options) = parse_args(&words).expect("arguments should parse") else {
        panic!("expected run action");
    };
    assert_eq!(options.source_path, Some(1));
    assert_eq!(options.backend, Some(ModelBackend::Manifold));
}

#[test]
fn rejects_unknown_backend() {
    assert!(parse_args(&arguments(&["--backend", "fast"])).is_err());
    assert_eq!(
        refusal(&arguments(&["--backend", "fast"])),
        "不明なモデルバックエンドです: fast (cgal、manifold、openrscad のいずれかを指定してください)"
    );
}

#[test]
fn parses_openrscad_backend() {
    let CliAction::Run(options) = parse_args(&arguments(&["--backend=openrscad"]))
        .expect("OpenRSCAD backend should parse")
    else {
        panic!("expected run action");
    };
    assert_eq!(options.backend, Some(ModelBackend::Openrscad));
}

#[test]
fn help_is_asked_for_in_two_ways() {
    assert_eq!(parse_args(&arguments(&["-h"])), Ok(CliAction::Help));
    assert_eq!(
        parse_args(&arguments(&["a.scad", "--help", "--nonsense"])),
        Ok(CliAction::Help)
    );
    assert!(parse_args(&arguments(&["--nonsense", "--help"])).is_err());
    assert!(HELP.starts_with("Scadline - OpenSCAD viewer\n\nUsage: scadline [OPTIONS] [FILE.scad]\n"));
}

#[test]
fn no_arguments_ask_for_nothing() {
    let Ok(CliAction::Run(options)) = parse_args(&Vec::new()) else {
        panic!("expected run action");
    };
    assert_eq!(options.source_path, None);
    assert_eq!(options.backend, None);
}

#[test]
fn the_last_backend_counts() {
    let Ok(CliAction::Run(options)) =
        parse_args(&arguments(&["--backend", "CGAL", "--backend=Manifold"]))
    else {
        panic!("expected run action");
    };
    assert_eq!(options.backend, Some(ModelBackend::Manifold));
}

#[test]
fn refusals_tell_what_is_wrong() {
    assert_eq!(
        refusal(&arguments(&["--backend"])),
        "--backend には値が必要です"
    );
    assert_eq!(
        refusal(&[
            Argument {
                text: "--backend".to_owned(),
                is_utf8: true
            },
            Argument {
                text: "\u{fffd}".to_owned(),
                is_utf8: false
            }
        ]),
        "--backend の値はUTF-8で指定してください"
    );
    assert_eq!(
        refusal(&arguments(&["--fast"])),
        "不明なオプションです: --fast"
    );
    assert_eq!(
        refusal(&[Argument {
            text: "--backend=\u{fffd}".to_owned(),
            is_utf8: false
        }]),
        "不明なオプションです: --backend=\u{fffd}"
    );
    assert_eq!(
        refusal(&arguments(&["a.scad", "b.scad"])),
        "指定できるファイルは1つだけです"
    );
}
