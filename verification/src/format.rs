//! Which formatter runs on the generated code of each language, and how.
//!
//! Running the commands is left to the caller; this module decides them.
use vstd::prelude::*;
use crate::json::strings_view;
use crate::text::str_eq;

verus! {

/// `base` with `part` adjoined as a path component (what `camino::Utf8Path::join` gives).
pub uninterp spec fn utf8_path_join(base: Seq<char>, part: Seq<char>) -> Seq<char>;

/// Calls `camino::Utf8Path::join`: the result is named by `utf8_path_join`.
#[verifier::external_body]
pub(crate) fn path_join(base: &str, part: &str) -> (r: String)
    ensures
        r@ == utf8_path_join(base@, part@),
{
    camino::Utf8Path::new(base).join(part).into_string()
}

/// The languages that have a formatter.
#[derive(PartialEq, Eq, Structural)]
pub enum FormatterKind {
    Rust,
    Python,
    TypeScript,
    Go,
    Ruby,
    Java,
    CSharp,
    Php,
    Elixir,
    C,
}

/// The formatter for a language name.
pub open spec fn formatter_of(lang: Seq<char>) -> Option<FormatterKind> {
    if lang == "rust"@ {
        Some(FormatterKind::Rust)
    } else if lang == "python"@ {
        Some(FormatterKind::Python)
    } else if lang == "typescript"@ || lang == "wasm"@ {
        Some(FormatterKind::TypeScript)
    } else if lang == "go"@ {
        Some(FormatterKind::Go)
    } else if lang == "ruby"@ {
        Some(FormatterKind::Ruby)
    } else if lang == "java"@ {
        Some(FormatterKind::Java)
    } else if lang == "csharp"@ {
        Some(FormatterKind::CSharp)
    } else if lang == "php"@ {
        Some(FormatterKind::Php)
    } else if lang == "elixir"@ {
        Some(FormatterKind::Elixir)
    } else if lang == "c"@ {
        Some(FormatterKind::C)
    } else {
        None
    }
}

/// The formatter for a language name (`"typescript"` and `"wasm"` share one);
/// `None` for a language without one.
pub fn formatter_for_language(lang: &str) -> (r: Option<FormatterKind>)
    ensures
        r == formatter_of(lang@),
{
    if str_eq(lang, "rust") {
        Some(FormatterKind::Rust)
    } else if str_eq(lang, "python") {
        Some(FormatterKind::Python)
    } else if str_eq(lang, "typescript") || str_eq(lang, "wasm") {
        Some(FormatterKind::TypeScript)
    } else if str_eq(lang, "go") {
        Some(FormatterKind::Go)
    } else if str_eq(lang, "ruby") {
        Some(FormatterKind::Ruby)
    } else if str_eq(lang, "java") {
        Some(FormatterKind::Java)
    } else if str_eq(lang, "csharp") {
        Some(FormatterKind::CSharp)
    } else if str_eq(lang, "php") {
        Some(FormatterKind::Php)
    } else if str_eq(lang, "elixir") {
        Some(FormatterKind::Elixir)
    } else if str_eq(lang, "c") {
        Some(FormatterKind::C)
    } else {
        None
    }
}

/// The directory that holds the generated code of a language.
pub fn language_dir(output_root: &str, lang: &str) -> (r: String)
    ensures
        r@ == utf8_path_join(output_root@, lang@),
{
    path_join(output_root, lang)
}

/// The file or directory whose existence a formatter depends on.
pub open spec fn probe_name(kind: FormatterKind) -> Option<Seq<char>> {
    match kind {
        FormatterKind::Rust => Some("Cargo.toml"@),
        FormatterKind::Python => Some("tests"@),
        FormatterKind::Java => Some("pom.xml"@),
        FormatterKind::Elixir => Some("mix.exs"@),
        _ => None,
    }
}

/// The path whose existence decides how a formatter runs in `dir`:
/// the Cargo manifest for Rust, the tests directory for Python, the Maven
/// project file for Java, the Mix project file for Elixir; none for the others.
pub fn formatter_probe(kind: &FormatterKind, dir: &str) -> (r: Option<String>)
    ensures
        r is Some <==> probe_name(*kind) is Some,
        r is Some ==> r.unwrap()@ == utf8_path_join(dir@, probe_name(*kind).unwrap()),
{
    match kind {
        FormatterKind::Rust => Some(path_join(dir, "Cargo.toml")),
        FormatterKind::Python => Some(path_join(dir, "tests")),
        FormatterKind::Java => Some(path_join(dir, "pom.xml")),
        FormatterKind::Elixir => Some(path_join(dir, "mix.exs")),
        _ => None,
    }
}

/// One formatter invocation: a label for reports, the program, its
/// arguments, and the directory to run it in (the current one when `None`).
pub struct FormatterCommand {
    pub label: String,
    pub program: String,
    pub args: Vec<String>,
    pub current_dir: Option<String>,
}

/// A formatter invocation as characters.
pub struct CommandPlan {
    pub label: Seq<char>,
    pub program: Seq<char>,
    pub args: Seq<Seq<char>>,
    pub current_dir: Option<Seq<char>>,
}

/// The characters of a formatter invocation.
pub open spec fn command_view(c: FormatterCommand) -> CommandPlan {
    CommandPlan {
        label: c.label@,
        program: c.program@,
        args: strings_view(c.args@),
        current_dir: match c.current_dir {
            Some(d) => Some(d@),
            None => None,
        },
    }
}

/// The characters of a list of formatter invocations.
pub open spec fn commands_view(v: Seq<FormatterCommand>) -> Seq<CommandPlan> {
    Seq::new(v.len(), |i: int| command_view(v[i]))
}

/// An invocation in the current directory.
pub open spec fn plan(label: Seq<char>, program: Seq<char>, args: Seq<Seq<char>>) -> CommandPlan {
    CommandPlan { label, program, args, current_dir: None }
}

/// The formatter invocations for `kind` in `dir`, where `probed` tells
/// whether the path of `formatter_probe` exists.
pub open spec fn planned_commands(kind: FormatterKind, dir: Seq<char>, probed: bool) -> Seq<CommandPlan> {
    match kind {
        FormatterKind::Rust => if probed {
            seq![
                plan(
                    "cargo fmt"@,
                    "cargo"@,
                    seq!["fmt"@, "--manifest-path"@, utf8_path_join(dir, "Cargo.toml"@)],
                ),
            ]
        } else {
            Seq::empty()
        },
        FormatterKind::Python => {
            let target = if probed {
                utf8_path_join(dir, "tests"@)
            } else {
                dir
            };
            seq![
                plan("ruff check --fix"@, "ruff"@, seq!["check"@, "--fix"@, "--quiet"@, target]),
                plan("ruff format"@, "ruff"@, seq!["format"@, "--quiet"@, target]),
            ]
        },
        FormatterKind::TypeScript => seq![
            plan(
                "biome check --fix"@,
                "biome"@,
                seq!["check"@, "--fix"@, "--unsafe"@, "--write"@, dir],
            ),
            plan("biome format"@, "biome"@, seq!["format"@, "--write"@, dir]),
        ],
        FormatterKind::Go => seq![
            plan("gofmt"@, "gofmt"@, seq!["-w"@, dir]),
            plan("goimports"@, "goimports"@, seq!["-w"@, dir]),
        ],
        FormatterKind::Ruby => seq![
            plan(
                "rubocop --autocorrect"@,
                "rubocop"@,
                seq!["--autocorrect-all"@, "--no-color"@, dir],
            ),
        ],
        FormatterKind::Java => if probed {
            seq![
                CommandPlan {
                    label: "mvn spotless:apply"@,
                    program: "mvn"@,
                    args: seq!["spotless:apply"@, "-q"@],
                    current_dir: Some(dir),
                },
            ]
        } else {
            Seq::empty()
        },
        FormatterKind::CSharp => seq![
            plan(
                "dotnet format"@,
                "dotnet"@,
                seq!["format"@, "--verbosity"@, "quiet"@, dir],
            ),
        ],
        FormatterKind::Php => seq![
            plan(
                "php-cs-fixer fix"@,
                "php-cs-fixer"@,
                seq!["fix"@, "--rules=@PSR12"@, "--quiet"@, dir],
            ),
        ],
        FormatterKind::Elixir => if probed {
            seq![
                CommandPlan {
                    label: "mix format"@,
                    program: "mix"@,
                    args: seq!["format"@],
                    current_dir: Some(dir),
                },
            ]
        } else {
            Seq::empty()
        },
        FormatterKind::C => seq![
            plan(
                "clang-format"@,
                "clang-format"@,
                seq!["-i"@, "--style=file"@, utf8_path_join(dir, "test_liter_llm.c"@)],
            ),
        ],
    }
}

fn command(label: &str, program: &str, args: Vec<String>, current_dir: Option<String>) -> (r: FormatterCommand)
    ensures
        r.label@ == label@,
        r.program@ == program@,
        r.args@ == args@,
        r.current_dir == current_dir,
{
    FormatterCommand { label: label.to_owned(), program: program.to_owned(), args, current_dir }
}

fn s(text: &str) -> (r: String)
    ensures
        r@ == text@,
{
    text.to_owned()
}

/// The formatter invocations for `kind` in `dir`, where `probed` tells whether
/// the path of `formatter_probe` exists. Rust, Java and Elixir run nothing
/// without their project file; Python formats its tests directory when there
/// is one and `dir` otherwise.
pub fn formatter_commands(kind: &FormatterKind, dir: &str, probed: bool) -> (r: Vec<FormatterCommand>)
    ensures
        commands_view(r@) == planned_commands(*kind, dir@, probed),
{
    let r: Vec<FormatterCommand> = match kind {
        FormatterKind::Rust => {
            if probed {
                let manifest = path_join(dir, "Cargo.toml");
                let args = vec![s("fmt"), s("--manifest-path"), manifest];
                assert(strings_view(args@) =~= seq!["fmt"@, "--manifest-path"@, utf8_path_join(dir@, "Cargo.toml"@)]);
                vec![command("cargo fmt", "cargo", args, None)]
            } else {
                Vec::new()
            }
        },
        FormatterKind::Python => {
            let target = if probed {
                path_join(dir, "tests")
            } else {
                s(dir)
            };
            let a1 = vec![s("check"), s("--fix"), s("--quiet"), target.clone()];
            let a2 = vec![s("format"), s("--quiet"), target];
            assert(strings_view(a1@) =~= seq!["check"@, "--fix"@, "--quiet"@, target@]);
            assert(strings_view(a2@) =~= seq!["format"@, "--quiet"@, target@]);
            vec![command("ruff check --fix", "ruff", a1, None), command("ruff format", "ruff", a2, None)]
        },
        FormatterKind::TypeScript => {
            let a1 = vec![s("check"), s("--fix"), s("--unsafe"), s("--write"), s(dir)];
            let a2 = vec![s("format"), s("--write"), s(dir)];
            assert(strings_view(a1@) =~= seq!["check"@, "--fix"@, "--unsafe"@, "--write"@, dir@]);
            assert(strings_view(a2@) =~= seq!["format"@, "--write"@, dir@]);
            vec![command("biome check --fix", "biome", a1, None), command("biome format", "biome", a2, None)]
        },
        FormatterKind::Go => {
            let a1 = vec![s("-w"), s(dir)];
            let a2 = vec![s("-w"), s(dir)];
            assert(strings_view(a1@) =~= seq!["-w"@, dir@]);
            assert(strings_view(a2@) =~= seq!["-w"@, dir@]);
            vec![command("gofmt", "gofmt", a1, None), command("goimports", "goimports", a2, None)]
        },
        FormatterKind::Ruby => {
            let a = vec![s("--autocorrect-all"), s("--no-color"), s(dir)];
            assert(strings_view(a@) =~= seq!["--autocorrect-all"@, "--no-color"@, dir@]);
            vec![command("rubocop --autocorrect", "rubocop", a, None)]
        },
        FormatterKind::Java => {
            if probed {
                let a = vec![s("spotless:apply"), s("-q")];
                assert(strings_view(a@) =~= seq!["spotless:apply"@, "-q"@]);
                vec![command("mvn spotless:apply", "mvn", a, Some(s(dir)))]
            } else {
                Vec::new()
            }
        },
        FormatterKind::CSharp => {
            let a = vec![s("format"), s("--verbosity"), s("quiet"), s(dir)];
            assert(strings_view(a@) =~= seq!["format"@, "--verbosity"@, "quiet"@, dir@]);
            vec![command("dotnet format", "dotnet", a, None)]
        },
        FormatterKind::Php => {
            let a = vec![s("fix"), s("--rules=@PSR12"), s("--quiet"), s(dir)];
            assert(strings_view(a@) =~= seq!["fix"@, "--rules=@PSR12"@, "--quiet"@, dir@]);
            vec![command("php-cs-fixer fix", "php-cs-fixer", a, None)]
        },
        FormatterKind::Elixir => {
            if probed {
                let a = vec![s("format")];
                assert(strings_view(a@) =~= seq!["format"@]);
                vec![command("mix format", "mix", a, Some(s(dir)))]
            } else {
                Vec::new()
            }
        },
        FormatterKind::C => {
            let file = path_join(dir, "test_liter_llm.c");
            let a = vec![s("-i"), s("--style=file"), file];
            assert(strings_view(a@) =~= seq!["-i"@, "--style=file"@, utf8_path_join(dir@, "test_liter_llm.c"@)]);
            vec![command("clang-format", "clang-format", a, None)]
        },
    };
    assert(commands_view(r@) =~= planned_commands(*kind, dir@, probed));
    r
}

} // verus!
