//! How ripgrep is called, and what no search looks into.
use crate::text::concat3;
use crate::text::number::{decimal, to_decimal};
use crate::text::same_text;
use crate::text::split::views;
use vstd::prelude::*;

verus! {

/// The names of the directories and files that no search looks into.
pub open spec fn ignored_names() -> Seq<Seq<char>> {
    seq![
        "node_modules"@,
        ".git"@,
        ".next"@,
        ".cache"@,
        ".turbo"@,
        "dist"@,
        "build"@,
        ".output"@,
        ".nuxt"@,
        ".svelte-kit"@,
        "__pycache__"@,
        ".pytest_cache"@,
        "venv"@,
        ".env"@,
        "coverage"@,
        ".nyc_output"@,
    ]
}

/// The views of borrowed texts.
pub open spec fn str_views(texts: Seq<&str>) -> Seq<Seq<char>> {
    texts.map_values(|t: &str| t@)
}

fn list_ignored_names() -> (names: Vec<&'static str>)
    ensures
        str_views(names@) == ignored_names(),
{
    let names: Vec<&'static str> = vec![
        "node_modules",
        ".git",
        ".next",
        ".cache",
        ".turbo",
        "dist",
        "build",
        ".output",
        ".nuxt",
        ".svelte-kit",
        "__pycache__",
        ".pytest_cache",
        "venv",
        ".env",
        "coverage",
        ".nyc_output",
    ];
    assert(str_views(names@) =~= ignored_names());
    names
}

/// Is it the name of something that no search looks into?
pub fn is_ignored_name(name: &str) -> (ignored: bool)
    ensures
        ignored == ignored_names().contains(name@),
{
    let names = list_ignored_names();
    let mut i: usize = 0;
    while i < names.len()
        invariant
            i <= names@.len(),
            str_views(names@) == ignored_names(),
            forall|j: int| 0 <= j < i ==> ignored_names()[j] != name@,
        decreases names.len() - i,
    {
        assert(ignored_names()[i as int] == names@[i as int]@);
        if same_text(names[i], name) {
            return true;
        }
        i += 1;
    }
    false
}

/// The arguments that keep ripgrep out of everything below the named directories.
pub open spec fn ignore_args(names: Seq<Seq<char>>) -> Seq<Seq<char>>
    decreases names.len(),
{
    if names.len() == 0 {
        Seq::empty()
    } else {
        ignore_args(names.drop_last()).push("-g"@).push("!**/"@ + names.last() + "/**"@)
    }
}

/// The arguments with which ripgrep searches for the literal text `query` below `root`, whatever
/// the case of its letters: at most `max` matches of a file, no file above a megabyte.
pub open spec fn search_args(query: Seq<char>, root: Seq<char>, max: nat) -> Seq<Seq<char>> {
    seq!["--json"@, "-F"@, "-i"@, "-n"@, "--max-filesize"@, "1M"@, "--max-count"@, decimal(max)]
        + ignore_args(ignored_names()) + seq!["-g"@, "!**/.env"@, "--"@, query, root]
}

fn push_view(args: &mut Vec<String>, arg: String)
    ensures
        views(final(args)@) == views(old(args)@).push(arg@),
{
    let ghost was = views(args@);
    args.push(arg);
    assert(views(args@) =~= was.push(arg@));
}

/// The arguments with which ripgrep searches for `query` below `root_path`.
pub fn build_search_args(query: &str, root_path: &str, max_matches_per_file: usize) -> (args: Vec<
    String,
>)
    ensures
        views(args@) == search_args(query@, root_path@, max_matches_per_file as nat),
{
    let mut args: Vec<String> = Vec::new();
    assert(views(args@) =~= Seq::<Seq<char>>::empty());
    push_view(&mut args, "--json".to_owned());
    push_view(&mut args, "-F".to_owned());
    push_view(&mut args, "-i".to_owned());
    push_view(&mut args, "-n".to_owned());
    push_view(&mut args, "--max-filesize".to_owned());
    push_view(&mut args, "1M".to_owned());
    push_view(&mut args, "--max-count".to_owned());
    push_view(&mut args, to_decimal(max_matches_per_file as u128));
    let ghost head = seq![
        "--json"@,
        "-F"@,
        "-i"@,
        "-n"@,
        "--max-filesize"@,
        "1M"@,
        "--max-count"@,
        decimal(max_matches_per_file as nat),
    ];
    assert(views(args@) =~= head);
    let names = list_ignored_names();
    let mut i: usize = 0;
    assert(head + ignore_args(ignored_names().take(0)) =~= head);
    while i < names.len()
        invariant
            i <= names@.len(),
            str_views(names@) == ignored_names(),
            views(args@) == head + ignore_args(ignored_names().take(i as int)),
        decreases names.len() - i,
    {
        let ghost now = ignored_names().take(i + 1);
        assert(now.drop_last() =~= ignored_names().take(i as int));
        assert(now.last() == names@[i as int]@);
        push_view(&mut args, "-g".to_owned());
        push_view(&mut args, concat3("!**/", names[i], "/**"));
        assert(views(args@) =~= head + ignore_args(now));
        i += 1;
    }
    assert(ignored_names().take(i as int) =~= ignored_names());
    push_view(&mut args, "-g".to_owned());
    push_view(&mut args, "!**/.env".to_owned());
    push_view(&mut args, "--".to_owned());
    push_view(&mut args, query.to_owned());
    push_view(&mut args, root_path.to_owned());
    assert(views(args@) =~= search_args(query@, root_path@, max_matches_per_file as nat));
    args
}

/// What a user types is never read as an option: the query stands right behind `--`, and the
/// directory behind the query.
pub proof fn law_query_follows_the_separator(query: Seq<char>, root: Seq<char>, max: nat)
    ensures
        ({
            let args = search_args(query, root, max);
            let n = args.len() as int;
            n >= 3 && args[n - 3] == "--"@ && args[n - 2] == query && args[n - 1] == root
        }),
{
}

}
