//! The command line.

use crate::config::{backend_named, unknown_backend, ModelBackend};
use crate::text::{same_text, starts_with, without_first};
use vstd::prelude::*;

verus! {

/// What `--help` prints.
pub const HELP: &'static str =
    "Scadline - OpenSCAD viewer\n\nUsage: scadline [OPTIONS] [FILE.scad]\n\nOptions:\n      --backend <BACKEND>  Model backend: cgal, manifold, or openrscad\n  -h, --help               Print help\n";

/// A command-line argument.
pub struct Argument {
    /// The argument, with a replacement character for what is not UTF-8.
    pub text: String,
    /// Whether all of the argument is UTF-8.
    pub is_utf8: bool,
}

/// An argument as text.
#[verifier::ext_equal]
pub struct ArgumentView {
    pub text: Seq<char>,
    pub is_utf8: bool,
}

impl View for Argument {
    type V = ArgumentView;

    open spec fn view(&self) -> ArgumentView {
        ArgumentView { text: self.text@, is_utf8: self.is_utf8 }
    }
}

impl ArgumentView {
    /// Whether the argument is this very text.
    pub open spec fn is(self, text: Seq<char>) -> bool {
        self.is_utf8 && self.text == text
    }
}

/// What the command line asks for.
#[derive(Clone, Copy, Debug, Eq, PartialEq, Structural)]
pub struct CliOptions {
    /// The place, among the arguments, of the one that is the model file.
    pub source_path: Option<usize>,
    pub backend: Option<ModelBackend>,
}

/// What the program is to do.
#[derive(Clone, Copy, Debug, Eq, PartialEq, Structural)]
pub enum CliAction {
    Run(CliOptions),
    Help,
}

/// What the arguments from number `at` on ask for, or the message that refuses them, where
/// `options` is what the arguments before it asked for.
pub open spec fn parsed(arguments: Seq<ArgumentView>, at: int, options: CliOptions) -> Result<
    CliAction,
    Seq<char>,
>
    decreases arguments.len() - at, 0int,
{
    if at < 0 || at >= arguments.len() {
        Ok(CliAction::Run(options))
    } else {
        let argument = arguments[at];
        if argument.is("-h"@) || argument.is("--help"@) {
            Ok(CliAction::Help)
        } else if argument.is("--backend"@) {
            if at + 1 >= arguments.len() {
                Err("--backend には値が必要です"@)
            } else if !arguments[at + 1].is_utf8 {
                Err("--backend の値はUTF-8で指定してください"@)
            } else {
                with_backend(arguments, at + 2, options, arguments[at + 1].text)
            }
        } else if argument.is_utf8 && "--backend="@.is_prefix_of(argument.text) {
            with_backend(
                arguments,
                at + 1,
                options,
                argument.text.skip("--backend="@.len() as int),
            )
        } else if argument.text.len() > 0 && argument.text[0] == '-' {
            Err("不明なオプションです: "@ + argument.text)
        } else if options.source_path is Some {
            Err("指定できるファイルは1つだけです"@)
        } else {
            parsed(
                arguments,
                at + 1,
                CliOptions { source_path: Some(at as usize), backend: options.backend },
            )
        }
    }
}

/// What the arguments from number `at` on ask for, once a backend was asked for by name.
pub open spec fn with_backend(
    arguments: Seq<ArgumentView>,
    at: int,
    options: CliOptions,
    name: Seq<char>,
) -> Result<CliAction, Seq<char>>
    decreases arguments.len() - at, 1int,
{
    match backend_named(name) {
        Some(backend) => parsed(
            arguments,
            at,
            CliOptions { source_path: options.source_path, backend: Some(backend) },
        ),
        None => Err(unknown_backend(name)),
    }
}

/// The views of a list of arguments.
pub open spec fn argument_views(arguments: Seq<Argument>) -> Seq<ArgumentView> {
    arguments.map_values(|a: Argument| a@)
}

/// Nothing asked for yet.
pub open spec fn no_options() -> CliOptions {
    CliOptions { source_path: None, backend: None }
}

/// Reads the arguments that follow the name of the program.
pub fn parse_args(arguments: &Vec<Argument>) -> (action: Result<CliAction, String>)
    ensures
        match parsed(argument_views(arguments@), 0, no_options()) {
            Ok(expected) => action == Ok::<CliAction, String>(expected),
            Err(message) => action matches Err(text) && text@ == message,
        },
{
    let ghost all = argument_views(arguments@);
    let mut options = CliOptions { source_path: None, backend: None };
    let mut at: usize = 0;
    while at < arguments.len()
        invariant
            all == argument_views(arguments@),
            at <= arguments@.len(),
            parsed(all, 0, no_options()) == parsed(all, at as int, options),
        decreases arguments@.len() - at,
    {
        proof {
            reveal_with_fuel(parsed, 2);
            reveal_with_fuel(with_backend, 2);
        }
        let argument = &arguments[at];
        assert(all[at as int] == argument@);
        let text = argument.text.as_str();
        if argument.is_utf8 && (same_text(text, "-h") || same_text(text, "--help")) {
            return Ok(CliAction::Help);
        }
        if argument.is_utf8 && same_text(text, "--backend") {
            if at + 1 >= arguments.len() {
                return Err("--backend には値が必要です".to_owned());
            }
            let value = &arguments[at + 1];
            assert(all[at + 1] == value@);
            if !value.is_utf8 {
                return Err("--backend の値はUTF-8で指定してください".to_owned());
            }
            match ModelBackend::from_str(value.text.as_str()) {
                Ok(backend) => {
                    options.backend = Some(backend);
                },
                Err(message) => {
                    return Err(message);
                },
            }
            at = at + 2;
            continue ;
        }
        if argument.is_utf8 && starts_with(text, "--backend=") {
            proof {
                reveal_strlit("--backend=");
            }
            let value = without_first(text, 10);
            match ModelBackend::from_str(value.as_str()) {
                Ok(backend) => {
                    options.backend = Some(backend);
                },
                Err(message) => {
                    return Err(message);
                },
            }
            at = at + 1;
            continue ;
        }
        if starts_with_dash(text) {
            return Err("不明なオプションです: ".to_owned().concat(text));
        }
        if options.source_path.is_some() {
            return Err("指定できるファイルは1つだけです".to_owned());
        }
        options.source_path = Some(at);
        at = at + 1;
    }
    Ok(CliAction::Run(options))
}

fn starts_with_dash(text: &str) -> (answer: bool)
    ensures
        answer == (text@.len() > 0 && text@[0] == '-'),
{
    proof {
        reveal_strlit("-");
        if "-"@.is_prefix_of(text@) {
            assert(text@.subrange(0, 1)[0] == "-"@[0]);
        }
        if text@.len() > 0 && text@[0] == '-' {
            assert(text@.subrange(0, 1) =~= "-"@);
        }
    }
    starts_with(text, "-")
}

/// The file and the backend may come in either order, and the backend in one word or in two.
pub proof fn law_order_does_not_matter(
    file: ArgumentView,
    name: Seq<char>,
    backend: ModelBackend,
)
    requires
        backend_named(name) == Some(backend),
        file.text.len() == 0 || file.text[0] != '-',
    ensures
        ({
            let joined = ArgumentView { text: "--backend="@ + name, is_utf8: true };
            let word = ArgumentView { text: "--backend"@, is_utf8: true };
            let value = ArgumentView { text: name, is_utf8: true };
            let run = |place: usize|
                Ok::<CliAction, Seq<char>>(
                    CliAction::Run(
                        CliOptions { source_path: Some(place), backend: Some(backend) },
                    ),
                );
            &&& parsed(seq![file, joined], 0, no_options()) == run(0)
            &&& parsed(seq![joined, file], 0, no_options()) == run(1)
            &&& parsed(seq![file, word, value], 0, no_options()) == run(0)
            &&& parsed(seq![word, value, file], 0, no_options()) == run(2)
        }),
{
    reveal_with_fuel(parsed, 4);
    reveal_with_fuel(with_backend, 4);
    reveal_strlit("-h");
    reveal_strlit("--help");
    reveal_strlit("--backend");
    reveal_strlit("--backend=");
    let joined = ArgumentView { text: "--backend="@ + name, is_utf8: true };
    assert(joined.text.len() >= 10 && joined.text[2] == 'b' && joined.text[9] == '=');
    assert("--help"@[2] == 'h' && "--backend"@[2] == 'b');
    assert(joined.text.subrange(0, 10) =~= "--backend="@);
    assert(joined.text.skip(10) =~= name);
    assert("-h"@[0] == '-' && "--help"@[0] == '-' && "--backend"@[0] == '-' && "--backend="@[0]
        == '-');
    if "--backend="@.is_prefix_of(file.text) {
        assert(file.text.subrange(0, 10)[0] == file.text[0]);
    }
}

proof fn lemma_parsed_goes_on(
    arguments: Seq<ArgumentView>,
    count: int,
    at: int,
    options: CliOptions,
    after: CliOptions,
)
    requires
        0 <= at <= count <= arguments.len(),
        parsed(arguments.take(count), at, options) == Ok::<CliAction, Seq<char>>(
            CliAction::Run(after),
        ),
    ensures
        parsed(arguments, at, options) == parsed(arguments, count, after),
    decreases count - at,
{
    reveal_with_fuel(parsed, 2);
    reveal_with_fuel(with_backend, 2);
    if at < count {
        let argument = arguments[at];
        if argument.is("--backend"@) {
            if let Some(backend) = backend_named(arguments[at + 1].text) {
                let next = CliOptions { source_path: options.source_path, backend: Some(backend) };
                lemma_parsed_goes_on(arguments, count, at + 2, next, after);
            }
        } else if argument.is_utf8 && "--backend="@.is_prefix_of(argument.text) {
            if let Some(backend) = backend_named(
                argument.text.skip("--backend="@.len() as int),
            ) {
                let next = CliOptions { source_path: options.source_path, backend: Some(backend) };
                lemma_parsed_goes_on(arguments, count, at + 1, next, after);
            }
        } else {
            let next = CliOptions { source_path: Some(at as usize), backend: options.backend };
            lemma_parsed_goes_on(arguments, count, at + 1, next, after);
        }
    }
}

/// Whether argument number `at` asks for help, and nothing before it is refused.
pub open spec fn asks_for_help(arguments: Seq<ArgumentView>, at: int) -> bool {
    &&& 0 <= at < arguments.len()
    &&& arguments[at].is("-h"@) || arguments[at].is("--help"@)
    &&& parsed(arguments.take(at), 0, no_options()) matches Ok(CliAction::Run(_))
}

proof fn lemma_help_was_asked_for(arguments: Seq<ArgumentView>, at: int, options: CliOptions)
    requires
        0 <= at <= arguments.len(),
        parsed(arguments.take(at), 0, no_options()) == Ok::<CliAction, Seq<char>>(
            CliAction::Run(options),
        ),
        parsed(arguments, at, options) == Ok::<CliAction, Seq<char>>(CliAction::Help),
    ensures
        exists|place: int| asks_for_help(arguments, place),
    decreases arguments.len() - at,
{
    reveal_with_fuel(parsed, 2);
    reveal_with_fuel(with_backend, 2);
    let argument = arguments[at];
    if argument.is("-h"@) || argument.is("--help"@) {
        assert(asks_for_help(arguments, at));
    } else {
        let (next, after) = if argument.is("--backend"@) {
            (
                at + 2,
                CliOptions {
                    source_path: options.source_path,
                    backend: backend_named(arguments[at + 1].text),
                },
            )
        } else if argument.is_utf8 && "--backend="@.is_prefix_of(argument.text) {
            (
                at + 1,
                CliOptions {
                    source_path: options.source_path,
                    backend: backend_named(argument.text.skip("--backend="@.len() as int)),
                },
            )
        } else {
            (at + 1, CliOptions { source_path: Some(at as usize), backend: options.backend })
        };
        let start = arguments.take(next);
        assert(start.take(at) =~= arguments.take(at));
        lemma_parsed_goes_on(start, at, 0, no_options(), options);
        assert(parsed(start, next, after) == Ok::<CliAction, Seq<char>>(CliAction::Run(after)));
        assert(parsed(start, at, options) == parsed(start, next, after));
        lemma_help_was_asked_for(arguments, next, after);
    }
}

/// Help is given if and only if it is asked for behind arguments of which none is refused,
/// whatever follows.
pub proof fn law_help_is_given(arguments: Seq<ArgumentView>)
    ensures
        parsed(arguments, 0, no_options()) == Ok::<CliAction, Seq<char>>(CliAction::Help) <==> exists|
            at: int,
        | asks_for_help(arguments, at),
{
    if exists|at: int| asks_for_help(arguments, at) {
        let at = choose|at: int| asks_for_help(arguments, at);
        if let Ok(CliAction::Run(after)) = parsed(arguments.take(at), 0, no_options()) {
            lemma_parsed_goes_on(arguments, at, 0, no_options(), after);
        }
    }
    if parsed(arguments, 0, no_options()) == Ok::<CliAction, Seq<char>>(CliAction::Help) {
        lemma_help_was_asked_for(arguments, 0, no_options());
    }
}

/// Without arguments nothing is asked for: neither a file nor a backend.
pub proof fn law_no_arguments_ask_for_nothing()
    ensures
        parsed(Seq::empty(), 0, no_options()) == Ok::<CliAction, Seq<char>>(
            CliAction::Run(CliOptions { source_path: None, backend: None }),
        ),
{
}

/// What one argument more does, behind arguments that were accepted: it asks for help; or chooses
/// a backend, which replaces the one before it; or lacks a value; or is refused as an option that
/// there is not; or is the model file, of which there can be one only.
pub proof fn law_one_argument_more(
    arguments: Seq<ArgumentView>,
    before: CliOptions,
    more: ArgumentView,
)
    requires
        parsed(arguments, 0, no_options()) == Ok::<CliAction, Seq<char>>(CliAction::Run(before)),
    ensures
        ({
            let result = parsed(arguments.push(more), 0, no_options());
            let is_option = more.text.len() > 0 && more.text[0] == '-';
            if more.is_utf8 && (more.text == "-h"@ || more.text == "--help"@) {
                result == Ok::<CliAction, Seq<char>>(CliAction::Help)
            } else if more.is_utf8 && more.text == "--backend"@ {
                result == Err::<CliAction, Seq<char>>("--backend には値が必要です"@)
            } else if more.is_utf8 && "--backend="@.is_prefix_of(more.text) {
                let name = more.text.skip(10);
                match backend_named(name) {
                    Some(backend) => result == Ok::<CliAction, Seq<char>>(
                        CliAction::Run(
                            CliOptions { source_path: before.source_path, backend: Some(backend) },
                        ),
                    ),
                    None => result == Err::<CliAction, Seq<char>>(unknown_backend(name)),
                }
            } else if is_option {
                result == Err::<CliAction, Seq<char>>("不明なオプションです: "@ + more.text)
            } else if before.source_path is Some {
                result == Err::<CliAction, Seq<char>>("指定できるファイルは1つだけです"@)
            } else {
                result == Ok::<CliAction, Seq<char>>(
                    CliAction::Run(
                        CliOptions {
                            source_path: Some(arguments.len() as usize),
                            backend: before.backend,
                        },
                    ),
                )
            }
        }),
{
    let all = arguments.push(more);
    let count = arguments.len() as int;
    assert(all.take(count) =~= arguments);
    lemma_parsed_goes_on(all, count, 0, no_options(), before);
    reveal_with_fuel(parsed, 3);
    reveal_with_fuel(with_backend, 3);
    reveal_strlit("--backend=");
}

/// What `--backend` and the argument behind it do, behind arguments that were accepted: they
/// choose a backend, unless that argument is not text, or names none.
pub proof fn law_backend_in_two_words(
    arguments: Seq<ArgumentView>,
    before: CliOptions,
    value: ArgumentView,
)
    requires
        parsed(arguments, 0, no_options()) == Ok::<CliAction, Seq<char>>(CliAction::Run(before)),
    ensures
        ({
            let word = ArgumentView { text: "--backend"@, is_utf8: true };
            let result = parsed(arguments.push(word).push(value), 0, no_options());
            if !value.is_utf8 {
                result == Err::<CliAction, Seq<char>>("--backend の値はUTF-8で指定してください"@)
            } else {
                match backend_named(value.text) {
                    Some(backend) => result == Ok::<CliAction, Seq<char>>(
                        CliAction::Run(
                            CliOptions { source_path: before.source_path, backend: Some(backend) },
                        ),
                    ),
                    None => result == Err::<CliAction, Seq<char>>(unknown_backend(value.text)),
                }
            }
        }),
{
    let word = ArgumentView { text: "--backend"@, is_utf8: true };
    let all = arguments.push(word).push(value);
    let count = arguments.len() as int;
    assert(all.take(count) =~= arguments);
    lemma_parsed_goes_on(all, count, 0, no_options(), before);
    reveal_with_fuel(parsed, 3);
    reveal_with_fuel(with_backend, 3);
    reveal_strlit("-h");
    reveal_strlit("--help");
    reveal_strlit("--backend");
    assert("--help"@.len() == 6 && "--backend"@.len() == 9);
}

proof fn lemma_refusal_stays(
    arguments: Seq<ArgumentView>,
    count: int,
    at: int,
    options: CliOptions,
)
    requires
        0 <= at <= count <= arguments.len(),
        !(parsed(arguments.take(count), at, options) matches Ok(CliAction::Run(_))),
        parsed(arguments.take(count), at, options) != Err::<CliAction, Seq<char>>(
            "--backend には値が必要です"@,
        ),
    ensures
        parsed(arguments, at, options) == parsed(arguments.take(count), at, options),
    decreases count - at,
{
    reveal_with_fuel(parsed, 2);
    reveal_with_fuel(with_backend, 2);
    let start = arguments.take(count);
    if at < count {
        let argument = arguments[at];
        assert(start[at] == argument);
        if argument.is("-h"@) || argument.is("--help"@) {
        } else if argument.is("--backend"@) {
            if at + 1 < count {
                assert(start[at + 1] == arguments[at + 1]);
                if let Some(backend) = backend_named(arguments[at + 1].text) {
                    let next = CliOptions {
                        source_path: options.source_path,
                        backend: Some(backend),
                    };
                    if arguments[at + 1].is_utf8 {
                        lemma_refusal_stays(arguments, count, at + 2, next);
                    }
                }
            }
        } else if argument.is_utf8 && "--backend="@.is_prefix_of(argument.text) {
            if let Some(backend) = backend_named(
                argument.text.skip("--backend="@.len() as int),
            ) {
                let next = CliOptions { source_path: options.source_path, backend: Some(backend) };
                lemma_refusal_stays(arguments, count, at + 1, next);
            }
        } else if !(argument.text.len() > 0 && argument.text[0] == '-')
            && options.source_path is None {
            let next = CliOptions { source_path: Some(at as usize), backend: options.backend };
            lemma_refusal_stays(arguments, count, at + 1, next);
        }
    }
}

/// Help and refusals are final: what follows them does not matter. Only the refusal of an option
/// without its value is lifted by what follows.
pub proof fn law_help_and_refusals_are_final(
    arguments: Seq<ArgumentView>,
    more: Seq<ArgumentView>,
)
    requires
        !(parsed(arguments, 0, no_options()) matches Ok(CliAction::Run(_))),
        parsed(arguments, 0, no_options()) != Err::<CliAction, Seq<char>>(
            "--backend には値が必要です"@,
        ),
    ensures
        parsed(arguments + more, 0, no_options()) == parsed(arguments, 0, no_options()),
{
    let all = arguments + more;
    let count = arguments.len() as int;
    assert(all.take(count) =~= arguments);
    lemma_refusal_stays(all, count, 0, no_options());
}

/// An argument is known by its text and by whether it is UTF-8, and arguments keep their order.
pub proof fn law_arguments_are_in_order(arguments: Seq<Argument>, i: int)
    requires
        0 <= i < arguments.len(),
    ensures
        argument_views(arguments).len() == arguments.len(),
        argument_views(arguments)[i].text == arguments[i].text@,
        argument_views(arguments)[i].is_utf8 == arguments[i].is_utf8,
{
}

/// What `--help` prints tells how the program is called, and each option that it has, with the
/// names of the backends.
pub proof fn law_help_tells_each_option()
    ensures
        HELP@.len() == 185,
        HELP@.subrange(28, 66) == "Usage: scadline [OPTIONS] [FILE.scad]\n"@,
        HELP@.subrange(82, 147) == "--backend <BACKEND>  Model backend: cgal, manifold, or openrscad\n"@,
        HELP@.subrange(149, 185) == "-h, --help               Print help\n"@,
{
    reveal_strlit(
        "Scadline - OpenSCAD viewer\n\nUsage: scadline [OPTIONS] [FILE.scad]\n\nOptions:\n      --backend <BACKEND>  Model backend: cgal, manifold, or openrscad\n  -h, --help               Print help\n",
    );
    reveal_strlit("Usage: scadline [OPTIONS] [FILE.scad]\n");
    assert(HELP@.subrange(28, 66) =~= "Usage: scadline [OPTIONS] [FILE.scad]\n"@);
    reveal_strlit("--backend <BACKEND>  Model backend: cgal, manifold, or openrscad\n");
    assert(HELP@.subrange(82, 147) =~= "--backend <BACKEND>  Model backend: cgal, manifold, or openrscad\n"@);
    reveal_strlit("-h, --help               Print help\n");
    assert(HELP@.subrange(149, 185) =~= "-h, --help               Print help\n"@);
}

} // verus!
