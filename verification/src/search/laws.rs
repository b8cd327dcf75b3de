//! What searches find and report, whatever the project holds.
use super::args::{build_search_args, ignore_args, ignored_names, is_ignored_name, search_args};
use super::commands::{begin_search_content, search_content, search_content_stream, Begun, RgRun};
use super::files::{
    search_file_names, visit, visit_all, DirEntry, EntryView, FileNameSearch, FileNameStep,
    WalkView,
};
use super::hits::{hit_of_fields, hit_of_line, Hit, HitView};
use super::rg::{
    detect_rg_path, resolve_rg_path, rg_plan, rg_sidecar_name, RgBase, RgPlan, RgSetting,
};
use super::{
    FileSearchResponse, SearchContentDoneEvent, SearchContentRequest,
    SearchContentStreamRequest, SearchFileNamesRequest,
};
use crate::ipc::IpcResult;
use crate::json::{json_at, JsonField, JsonFieldView};
use crate::lookup::{answer_views, first_find, lemma_misses, misses};
use crate::platform::{Arch, Os};
use crate::text::laws::{is_middle, lemma_trimmed, lemma_without_line_breaks};
use crate::text::number::decimal;
use crate::text::split::{trimmed, views, white_space};
use crate::text::{has_text, lowercase, utf8_lossy};
use vstd::prelude::*;

verus! {

// ---------------------------------------------------------------------------------------------
// Hits
// ---------------------------------------------------------------------------------------------

/// A text is the path of a file as it is shown: `/` stands where the path has `\`, and nothing else
/// is changed.
pub open spec fn shows_path(shown: Seq<char>, path: Seq<char>) -> bool {
    &&& shown.len() == path.len()
    &&& forall|i: int|
        0 <= i < path.len() ==> #[trigger] shown[i] == if path[i] == '\\' {
            '/'
        } else {
            path[i]
        }
}

/// A text is a line as it is shown: line breaks at its end are gone, and nothing else.
pub open spec fn shows_line(shown: Seq<char>, line: Seq<char>) -> bool {
    &&& shown.len() <= line.len()
    &&& forall|i: int| 0 <= i < shown.len() ==> #[trigger] shown[i] == line[i]
    &&& forall|i: int|
        shown.len() <= i < line.len() ==> (#[trigger] line[i]) == '\r' || line[i] == '\n'
    &&& shown.len() > 0 ==> shown.last() != '\r' && shown.last() != '\n'
}

/// The hit is the match on this line of this file.
pub open spec fn is_hit_at(hit: HitView, path: Seq<char>, number: int, line: Option<Seq<char>>) -> bool {
    &&& shows_path(hit.file_path, path)
    &&& hit.found.line_number == number
    &&& match line {
        Some(text) => shows_line(hit.found.line_text, text),
        None => hit.found.line_text.len() == 0,
    }
}

/// A match that names its file and its line is a hit there: in exactly that file, at exactly that
/// line number, with the text of exactly that line.
pub proof fn law_match_is_reported_where_it_is(
    path: String,
    number: u64,
    text: JsonField,
    hit: Option<Hit>,
    kind: String,
)
    requires
        kind@ == "match"@,
        number <= usize::MAX,
        call_ensures(
            hit_of_fields,
            (
                JsonField::Text(kind),
                JsonField::Text(path),
                JsonField::Number(Some(number)),
                text,
            ),
            hit,
        ),
    ensures
        hit is Some,
        hit->0.found.line_number == number,
        is_hit_at(
            hit->0@,
            path@,
            number as int,
            match text {
                JsonField::Text(t) => Some(t@),
                _ => None,
            },
        ),
{
    if let JsonField::Text(t) = text {
        lemma_shown_line(t@);
    }
}

proof fn lemma_shown_line(t: Seq<char>)
    ensures
        shows_line(crate::text::split::without_line_breaks_at_end(t), t),
{
    lemma_without_line_breaks(t);
    let inner = crate::text::split::without_line_breaks_at_end(t);
    assert forall|i: int| 0 <= i < inner.len() implies #[trigger] inner[i] == t[i] by {
        assert(t.take(inner.len() as int)[i] == t[i]);
    }
}

/// What is no match, names no file or has no line number is no hit.
pub proof fn law_nothing_else_is_a_hit(
    kind: JsonField,
    path: JsonField,
    number: JsonField,
    text: JsonField,
    hit: Option<Hit>,
)
    requires
        call_ensures(hit_of_fields, (kind, path, number, text), hit),
        !(kind is Text && kind->Text_0@ == "match"@) || !(path is Text) || !(number is Number
            && number->Number_0 is Some),
    ensures
        hit is None,
{
}

/// A line of output is read at the places where ripgrep writes: what kind of message it is, the path
/// of the file, the number of the line and its text.
pub proof fn law_line_of_output_is_read(
    line: &str,
    path: Seq<char>,
    number: u64,
    text: JsonFieldView,
    hit: Option<Hit>,
)
    requires
        json_at(line@, "/type"@) == Some(JsonFieldView::Text("match"@)),
        json_at(line@, "/data/path/text"@) == Some(JsonFieldView::Text(path)),
        json_at(line@, "/data/line_number"@) == Some(JsonFieldView::Number(Some(number))),
        json_at(line@, "/data/lines/text"@) == Some(text),
        number <= usize::MAX,
        call_ensures(hit_of_line, (line,), hit),
    ensures
        hit is Some,
        is_hit_at(
            hit->0@,
            path,
            number as int,
            match text {
                JsonFieldView::Text(t) => Some(t),
                _ => None,
            },
        ),
{
    if let JsonFieldView::Text(t) = text {
        lemma_shown_line(t);
    }
}

/// A line that is no message of a match is no hit.
pub proof fn law_other_lines_are_no_hits(line: &str, hit: Option<Hit>)
    requires
        json_at(line@, "/type"@) != Some(JsonFieldView::Text("match"@)),
        call_ensures(hit_of_line, (line,), hit),
    ensures
        hit is None,
{
}

/// Matches at different lines are reported at different lines.
pub proof fn law_lines_are_told_apart(
    kind: String,
    path: String,
    a: u64,
    b: u64,
    text: JsonField,
    first: Option<Hit>,
    second: Option<Hit>,
)
    requires
        kind@ == "match"@,
        a <= usize::MAX,
        b <= usize::MAX,
        a != b,
        call_ensures(
            hit_of_fields,
            (JsonField::Text(kind), JsonField::Text(path), JsonField::Number(Some(a)), text),
            first,
        ),
        call_ensures(
            hit_of_fields,
            (JsonField::Text(kind), JsonField::Text(path), JsonField::Number(Some(b)), text),
            second,
        ),
    ensures
        first->0.found.line_number != second->0.found.line_number,
{
}

// ---------------------------------------------------------------------------------------------
// What no search looks into
// ---------------------------------------------------------------------------------------------

/// The name is one of the sixteen that no search looks into.
pub open spec fn is_one_of_the_sixteen(name: Seq<char>) -> bool {
    ||| name == "node_modules"@
    ||| name == ".git"@
    ||| name == ".next"@
    ||| name == ".cache"@
    ||| name == ".turbo"@
    ||| name == "dist"@
    ||| name == "build"@
    ||| name == ".output"@
    ||| name == ".nuxt"@
    ||| name == ".svelte-kit"@
    ||| name == "__pycache__"@
    ||| name == ".pytest_cache"@
    ||| name == "venv"@
    ||| name == ".env"@
    ||| name == "coverage"@
    ||| name == ".nyc_output"@
}

pub(crate) proof fn lemma_ignored(name: Seq<char>)
    ensures
        ignored_names().contains(name) <==> is_one_of_the_sixteen(name),
        ignored_names().len() == 16,
{
    let all = ignored_names();
    assert(all[0] == "node_modules"@ && all[1] == ".git"@ && all[2] == ".next"@ && all[3]
        == ".cache"@ && all[4] == ".turbo"@ && all[5] == "dist"@ && all[6] == "build"@ && all[7]
        == ".output"@ && all[8] == ".nuxt"@ && all[9] == ".svelte-kit"@ && all[10]
        == "__pycache__"@ && all[11] == ".pytest_cache"@ && all[12] == "venv"@ && all[13]
        == ".env"@ && all[14] == "coverage"@ && all[15] == ".nyc_output"@);
}

/// A name is ignored exactly where it is one of the sixteen.
pub proof fn law_sixteen_names_are_ignored(name: &str, ignored: bool)
    requires
        call_ensures(is_ignored_name, (name,), ignored),
    ensures
        ignored <==> is_one_of_the_sixteen(name@),
{
    lemma_ignored(name@);
}

/// A name that begins otherwise than the sixteen do is not ignored: nothing is skipped but them.
pub proof fn law_plain_names_are_not_ignored(name: &str, ignored: bool)
    requires
        call_ensures(is_ignored_name, (name,), ignored),
        name@.len() > 0,
        name@[0] != '.',
        name@[0] != '_',
        name@[0] != 'n',
        name@[0] != 'd',
        name@[0] != 'b',
        name@[0] != 'v',
        name@[0] != 'c',
    ensures
        !ignored,
{
    lemma_ignored(name@);
    reveal_strlit("node_modules");
    reveal_strlit(".git");
    reveal_strlit(".next");
    reveal_strlit(".cache");
    reveal_strlit(".turbo");
    reveal_strlit("dist");
    reveal_strlit("build");
    reveal_strlit(".output");
    reveal_strlit(".nuxt");
    reveal_strlit(".svelte-kit");
    reveal_strlit("__pycache__");
    reveal_strlit(".pytest_cache");
    reveal_strlit("venv");
    reveal_strlit(".env");
    reveal_strlit("coverage");
    reveal_strlit(".nyc_output");
}

// ---------------------------------------------------------------------------------------------
// How ripgrep is called
// ---------------------------------------------------------------------------------------------

proof fn lemma_ignore_args(names: Seq<Seq<char>>, i: int)
    requires
        0 <= i < names.len(),
    ensures
        ignore_args(names).len() == 2 * names.len(),
        ignore_args(names)[2 * i] == "-g"@,
        ignore_args(names)[2 * i + 1] == "!**/"@ + names[i] + "/**"@,
    decreases names.len(),
{
    let rest = names.drop_last();
    if rest.len() > 0 {
        lemma_ignore_args(rest, if i < rest.len() {
            i
        } else {
            0
        });
    } else {
        assert(ignore_args(rest).len() == 0);
    }
    if i < rest.len() {
        assert(rest[i] == names[i]);
    }
}

/// An argument keeps ripgrep out of what is below a directory of this name.
pub open spec fn keeps_out(args: Seq<String>, name: Seq<char>) -> bool {
    exists|i: int|
        0 <= i < args.len() - 1 && args[i]@ == "-g"@ && (#[trigger] args[i + 1])@ == "!**/"@ + name
            + "/**"@
}

/// Ripgrep searches as it is meant to: it writes JSON, takes the query as it stands, disregards the
/// case of letters, numbers the lines, leaves large files out and stops at the number of matches
/// that is asked for. It is kept out of the sixteen, and the query and the directory come last,
/// behind the sign that no option follows.
pub proof fn law_ripgrep_is_called_so(
    query: &str,
    root: &str,
    max: usize,
    args: Vec<String>,
    name: Seq<char>,
)
    requires
        call_ensures(build_search_args, (query, root, max), args),
    ensures
        args@.len() == 45,
        args@[0]@ == "--json"@,
        args@[1]@ == "-F"@,
        args@[2]@ == "-i"@,
        args@[3]@ == "-n"@,
        args@[4]@ == "--max-filesize"@ && args@[5]@ == "1M"@,
        args@[6]@ == "--max-count"@ && args@[7]@ == decimal(max as nat),
        is_one_of_the_sixteen(name) ==> keeps_out(args@, name),
        args@[40]@ == "-g"@ && args@[41]@ == "!**/.env"@,
        args@[42]@ == "--"@ && args@[43]@ == query@ && args@[44]@ == root@,
        forall|i: int|
            4 <= i < 20 ==> exists|n: Seq<char>|
                is_one_of_the_sixteen(n) && (#[trigger] args@[2 * i + 1])@ == #[trigger] ("!**/"@ + n
                    + "/**"@),
{
    let shown = views(args@);
    let all = ignored_names();
    lemma_ignored(name);
    lemma_ignore_args(all, 0);
    assert(shown.len() == args@.len());
    assert forall|i: int| 0 <= i < 45 implies shown[i] == (#[trigger] args@[i])@ by {}
    if is_one_of_the_sixteen(name) {
        let k = choose|k: int| 0 <= k < all.len() && all[k] == name;
        lemma_ignore_args(all, k);
        assert(shown[8 + 2 * k] == ignore_args(all)[2 * k]);
        assert(shown[9 + 2 * k] == ignore_args(all)[2 * k + 1]);
        assert(args@[8 + 2 * k]@ == "-g"@);
        assert(args@[(8 + 2 * k) + 1]@ == "!**/"@ + name + "/**"@);
    }
    assert forall|i: int| 4 <= i < 20 implies exists|n: Seq<char>|
        is_one_of_the_sixteen(n) && (#[trigger] args@[2 * i + 1])@ == #[trigger] ("!**/"@ + n
            + "/**"@) by {
        let k = i - 4;
        lemma_ignore_args(all, k);
        lemma_ignored(all[k]);
        assert(all.contains(all[k]));
        assert(shown[9 + 2 * k] == ignore_args(all)[2 * k + 1]);
        assert(args@[2 * i + 1]@ == "!**/"@ + all[k] + "/**"@);
    }
}

/// A text of white space alone, or nothing at all.
pub open spec fn is_blank(s: Seq<char>) -> bool {
    forall|i: int| 0 <= i < s.len() ==> white_space(#[trigger] s[i])
}

proof fn lemma_blank(s: Seq<char>)
    ensures
        trimmed(s).len() == 0 <==> is_blank(s),
{
    let (from, to) = lemma_trimmed(s);
    if is_blank(s) && from < to {
        assert(white_space(s[from]));
    }
}

/// A content search runs ripgrep for every query but a blank one: with what is left of the query
/// once the white space around it is gone, in the directory that was asked for, with thirty matches
/// of a file. A blank query is answered at once, with nothing.
pub proof fn law_content_search_begins(
    request: SearchContentRequest,
    begun: Begun<IpcResult<FileSearchResponse>>,
)
    requires
        call_ensures(begin_search_content, (&request,), begun),
    ensures
        begun is Answer <==> is_blank(request.query@),
        begun is Answer ==> {
            &&& begun->Answer_0.success
            &&& begun->Answer_0.data->0.results@.len() == 0
            &&& !begun->Answer_0.data->0.truncated
        },
        begun is Run ==> {
            let args = begun->Run_0@;
            &&& args.len() == 45
            &&& args[7]@ == "30"@
            &&& exists|from: int, to: int| is_middle(request.query@, args[43]@, from, to)
            &&& args[44]@ == request.root_path@
        },
{
    lemma_blank(request.query@);
    if begun is Run {
        let args = begun->Run_0@;
        lemma_run_args(args, trimmed(request.query@), request.root_path@);
        let (from, to) = lemma_trimmed(request.query@);
        assert(is_middle(request.query@, args[43]@, from, to));
    }
}

proof fn lemma_run_args(args: Seq<String>, query: Seq<char>, root: Seq<char>)
    requires
        views(args) == search_args(query, root, 30),
    ensures
        args.len() == 45,
        args[7]@ == "30"@,
        args[43]@ == query,
        args[44]@ == root,
{
    lemma_ignored(query);
    lemma_ignore_args(ignored_names(), 0);
    let shown = views(args);
    assert(shown.len() == args.len());
    assert(shown[7] == args[7]@ && shown[43] == args[43]@ && shown[44] == args[44]@);
    reveal_strlit("30");
    reveal_with_fuel(decimal, 2);
    assert(decimal(30) =~= "30"@);
}

/// A content search in batches begins as one that is answered at once does; a blank query ends it.
pub proof fn law_streamed_search_begins(
    request: SearchContentStreamRequest,
    begun: Begun<SearchContentDoneEvent>,
)
    requires
        call_ensures(search_content_stream, (&request,), begun),
    ensures
        begun is Answer <==> is_blank(request.query@),
        begun is Answer ==> {
            &&& begun->Answer_0.search_id@ == request.search_id@
            &&& begun->Answer_0.error is None
            &&& !begun->Answer_0.truncated
        },
        begun is Run ==> {
            let args = begun->Run_0@;
            &&& args.len() == 45
            &&& args[7]@ == "30"@
            &&& exists|from: int, to: int| is_middle(request.query@, args[43]@, from, to)
            &&& args[44]@ == request.root_path@
        },
{
    lemma_blank(request.query@);
    if begun is Run {
        let args = begun->Run_0@;
        lemma_run_args(args, trimmed(request.query@), request.root_path@);
        let (from, to) = lemma_trimmed(request.query@);
        assert(is_middle(request.query@, args[43]@, from, to));
    }
}

/// A run of ripgrep that could not be started, or that ended with a code above one, fails the
/// search, and what the system or ripgrep said is told. Any other run answers it.
pub proof fn law_failed_runs_fail_the_search(
    path: &str,
    run: RgRun,
    answer: IpcResult<FileSearchResponse>,
)
    requires
        call_ensures(search_content, (path, &run), answer),
    ensures
        answer.success <==> run is Ended && (run->code is None || run->code->0 <= 1),
        answer.success <==> answer.data is Some,
        answer.success <==> answer.error is None,
        !answer.success ==> answer.code is Some && answer.code->0@ == "SEARCH_ERROR"@,
        run is NotStarted ==> answer.error->0@ == "rg spawn failed (path: "@ + path@ + "): "@
            + run->reason@,
        run is Ended && !answer.success ==> answer.error->0@ == "rg failed ("@ + decimal(
            run->code->0 as nat,
        ) + "): "@ + utf8_lossy(run->stderr@),
{
}

// ---------------------------------------------------------------------------------------------
// File names
// ---------------------------------------------------------------------------------------------

/// Of a directory that is read, an entry that is a directory is gone down into exactly where its
/// name is none of the sixteen, whatever is looked for.
pub proof fn law_directories_are_gone_down_into(walk: WalkView, entry: EntryView, query: Seq<char>)
    requires
        walk.files.len() < 100,
        entry.is_dir,
        entry.file_name is Some,
    ensures
        visit(walk, entry, query).files == walk.files,
        visit(walk, entry, query).stack == if is_one_of_the_sixteen(entry.file_name->0) {
            walk.stack
        } else {
            walk.stack.push(entry.path)
        },
{
    lemma_ignored(entry.file_name->0);
}

/// A file is reported exactly where its name is none of the sixteen and has what is looked for in
/// it, whatever the case of the letters; it is reported by its path.
pub proof fn law_files_are_reported(walk: WalkView, entry: EntryView, query: Seq<char>)
    requires
        walk.files.len() < 100,
        !entry.is_dir,
        entry.file_name is Some,
    ensures
        visit(walk, entry, query).stack == walk.stack,
        ({
            let after = visit(walk, entry, query).files;
            if !is_one_of_the_sixteen(entry.file_name->0) && has_text(
                lowercase(entry.file_name->0),
                query,
            ) {
                &&& after.len() == walk.files.len() + 1
                &&& after.drop_last() == walk.files
                &&& shows_path(after.last(), entry.path)
            } else {
                after == walk.files
            }
        }),
{
    lemma_ignored(entry.file_name->0);
    let after = visit(walk, entry, query).files;
    if after.len() > walk.files.len() {
        assert(after.drop_last() =~= walk.files);
    }
}

/// An entry without a name is passed over, and so is every entry once a hundred files were found.
pub proof fn law_nothing_else_is_visited(walk: WalkView, entry: EntryView, query: Seq<char>)
    requires
        entry.file_name is None || walk.files.len() >= 100,
    ensures
        visit(walk, entry, query) == walk,
{
}

/// The entries of a directory are visited one after the other, in their order.
pub proof fn law_entries_are_visited_in_order(
    walk: WalkView,
    front: Seq<EntryView>,
    entry: EntryView,
    query: Seq<char>,
)
    ensures
        visit_all(walk, Seq::empty(), query) == walk,
        visit_all(walk, front.push(entry), query) == visit(
            visit_all(walk, front, query),
            entry,
            query,
        ),
{
    assert(front.push(entry).drop_last() =~= front);
}

/// A search for file names begins at its root, unless the query is blank: then it looks nowhere. It
/// looks for what is left of the query once the white space around it is gone, in lowercase.
pub proof fn law_file_name_search_begins(request: SearchFileNamesRequest, search: FileNameSearch)
    requires
        call_ensures(FileNameSearch::new, (&request,), search),
    ensures
        search@.files.len() == 0,
        exists|inner: Seq<char>, from: int, to: int|
            #[trigger] is_middle(request.query@, inner, from, to) && search.query() == lowercase(
                inner,
            ),
        search.query().len() > 0 ==> search@.stack == seq![request.root_path@],
        search.query().len() == 0 ==> search@.stack.len() == 0,
{
    let (from, to) = lemma_trimmed(request.query@);
    assert(is_middle(request.query@, trimmed(request.query@), from, to));
}

/// A search goes on with the directory that it came upon last, until there is none left or a hundred
/// files were found; then it answers with all it found, and says whether those were a hundred.
pub proof fn law_file_name_search_goes_on(
    search: FileNameSearch,
    entries: Vec<DirEntry>,
    step: (Option<FileNameSearch>, FileNameStep),
)
    requires
        call_ensures(search_file_names, (search, &entries), step),
    ensures
        ({
            let found = visit_all(search@, super::files::entry_views(entries@), search.query());
            if found.files.len() < 100 && found.stack.len() > 0 {
                &&& step.1 is Read
                &&& step.1->Read_0@ == found.stack[found.stack.len() - 1]
                &&& step.0 is Some
                &&& step.0->0.query() == search.query()
                &&& step.0->0@.files == found.files
                &&& step.0->0@.stack == found.stack.take(found.stack.len() - 1)
            } else {
                &&& step.1 is Done
                &&& step.0 is None
                &&& step.1->Done_0.success
                &&& views(step.1->Done_0.data->0.files@) == found.files
                &&& step.1->Done_0.data->0.truncated == (found.files.len() >= 100)
            }
        }),
{
    let found = visit_all(search@, super::files::entry_views(entries@), search.query());
    if found.stack.len() > 0 {
        assert(found.stack.take(found.stack.len() - 1) =~= found.stack.drop_last());
    }
}

// ---------------------------------------------------------------------------------------------
// Which ripgrep is run
// ---------------------------------------------------------------------------------------------

/// The ripgrep that is shipped is the one for the system and the processor.
pub proof fn law_shipped_ripgrep_fits_the_system(os: Os, arch: Arch, name: &'static str)
    requires
        call_ensures(rg_sidecar_name, (os, arch), name),
    ensures
        os is Windows ==> name@ == "rg-x86_64-pc-windows-msvc.exe"@,
        os is MacOs && arch is Aarch64 ==> name@ == "rg-aarch64-apple-darwin"@,
        os is MacOs && !(arch is Aarch64) ==> name@ == "rg-x86_64-apple-darwin"@,
        os is Linux && arch is Aarch64 ==> name@ == "rg-aarch64-unknown-linux-gnu"@,
        os is Linux && arch is Arm ==> name@ == "rg-armv7-unknown-linux-gnueabihf"@,
        os is Linux && arch is Other ==> name@ == "rg-x86_64-unknown-linux-musl"@,
        os is Other ==> name@ == "rg"@,
{
}

/// The candidate is a file of these parts below a base.
pub open spec fn is_place(plan: RgPlan, i: int, base: RgBase, parts: Seq<Seq<char>>) -> bool {
    &&& 0 <= i < plan.candidates@.len()
    &&& plan.candidates@[i].base == base
    &&& views(plan.candidates@[i].parts@) == parts
}

/// Where the environment names a ripgrep, that one is run and no other: looked for below the working
/// directory and its `src-tauri` if the path is relative, and else as it stands.
pub proof fn law_named_ripgrep_is_run(setting: RgSetting, plan: RgPlan)
    requires
        call_ensures(rg_plan, (&setting,), plan),
        setting.env_path is Some,
        !is_blank(setting.env_path->0@),
    ensures
        plan.source@ == "env"@,
        plan.fallback@ == setting.env_path->0@,
        plan.fallback_source@ == "env"@,
        setting.env_path_is_absolute || !setting.has_working_directory ==> plan.candidates@.len()
            == 0,
        !setting.env_path_is_absolute && setting.has_working_directory ==> {
            &&& plan.candidates@.len() == 2
            &&& is_place(plan, 0, RgBase::WorkingDirectory, seq![setting.env_path->0@])
            &&& is_place(
                plan,
                1,
                RgBase::WorkingDirectory,
                seq!["src-tauri"@, setting.env_path->0@],
            )
        },
{
    lemma_blank(setting.env_path->0@);
    lemma_candidates(plan);
}

proof fn lemma_candidates(plan: RgPlan)
    ensures
        plan@.candidates.len() == plan.candidates@.len(),
        forall|i: int|
            0 <= i < plan.candidates@.len() ==> plan@.candidates[i] == (
            #[trigger] plan.candidates@[i])@,
{
}

/// Where the environment names none, the shipped ripgrep is looked for in `src-tauri/bin` and `bin`
/// of the working directory, then beside the program, in its resources and its libraries; where none
/// of them has it, `rg` is left to the search path.
pub proof fn law_shipped_ripgrep_is_looked_for(
    setting: RgSetting,
    plan: RgPlan,
    name: &'static str,
)
    requires
        call_ensures(rg_plan, (&setting,), plan),
        call_ensures(rg_sidecar_name, (setting.os, setting.arch), name),
        setting.env_path is None || is_blank(setting.env_path->0@),
    ensures
        plan.source@ == "sidecar"@,
        plan.fallback@ == "rg"@,
        plan.fallback_source@ == "path"@,
        ({
            let w = if setting.has_working_directory {
                2int
            } else {
                0
            };
            let e = if setting.has_executable_directory {
                3int
            } else {
                0
            };
            &&& plan.candidates@.len() == w + e
            &&& w > 0 ==> is_place(
                plan,
                0,
                RgBase::WorkingDirectory,
                seq!["src-tauri"@, "bin"@, name@],
            )
            &&& w > 0 ==> is_place(plan, 1, RgBase::WorkingDirectory, seq!["bin"@, name@])
            &&& e > 0 ==> is_place(plan, w, RgBase::ExecutableDirectory, seq![name@])
            &&& e > 0 ==> is_place(
                plan,
                w + 1,
                RgBase::ExecutableDirectory,
                seq!["../Resources"@, name@],
            )
            &&& e > 0 ==> is_place(
                plan,
                w + 2,
                RgBase::ExecutableDirectory,
                seq!["../lib"@, name@],
            )
        }),
{
    if setting.env_path is Some {
        lemma_blank(setting.env_path->0@);
    }
    lemma_candidates(plan);
    assert(plan@ == super::rg::rg_plan_of(setting));
}

/// The first candidate that was found is run, from the source of the plan; where none was, the
/// fallback of the plan.
pub proof fn law_first_ripgrep_found_is_run(
    plan: RgPlan,
    answers: Vec<Option<String>>,
    found: (String, String),
    i: int,
)
    requires
        call_ensures(resolve_rg_path, (&plan, &answers), found),
        0 <= i <= answers@.len(),
        forall|j: int| 0 <= j < i ==> #[trigger] answers@[j] is None,
        i < answers@.len() ==> answers@[i] is Some,
    ensures
        i < answers@.len() ==> found.0@ == answers@[i]->0@ && found.1@ == plan.source@,
        i == answers@.len() ==> found.0@ == plan.fallback@ && found.1@ == plan.fallback_source@,
{
    let seen = answer_views(answers@);
    lemma_misses(seen);
    let n = misses(seen) as int;
    if n < i {
        assert(answers@[n] is None);
    } else if i < n {
        assert(seen[i] is None);
    }
}

/// Which ripgrep to run is looked for once: once it is known, it stays so, whatever is found later.
pub proof fn law_known_ripgrep_stays(
    cache: &mut Option<String>,
    plan: RgPlan,
    answers: Vec<Option<String>>,
    path: String,
    found: (String, String),
)
    requires
        call_ensures(resolve_rg_path, (&plan, &answers), found),
        call_ensures(detect_rg_path, (cache, &plan, &answers), path),
    ensures
        *old(cache) is Some ==> path@ == (*old(cache))->0@,
        *old(cache) is None ==> path@ == found.0@,
        *final(cache) is Some,
        (*final(cache))->0@ == path@,
{
}

// ---------------------------------------------------------------------------------------------
// The walk
// ---------------------------------------------------------------------------------------------

/// An entry is gone down into, reported or passed over as its name and its kind say.
pub proof fn law_entry_is_visited(
    search: &mut FileNameSearch,
    entry: DirEntry,
    lower: &str,
)
    requires
        call_ensures(FileNameSearch::visit_entry_as, (search, &entry, lower), ()),
        old(search)@.files.len() < 100,
        entry.file_name is Some,
    ensures
        final(search).query() == old(search).query(),
        entry.is_dir && !is_one_of_the_sixteen(entry.file_name->0@) ==> {
            &&& final(search)@.stack == old(search)@.stack.push(entry.path@)
            &&& final(search)@.files == old(search)@.files
        },
        is_one_of_the_sixteen(entry.file_name->0@) ==> final(search)@ == old(search)@,
        !entry.is_dir && !has_text(lower@, old(search).query()) ==> final(search)@ == old(
            search,
        )@,
        !entry.is_dir && !is_one_of_the_sixteen(entry.file_name->0@) && has_text(
            lower@,
            old(search).query(),
        ) ==> {
            &&& final(search)@.stack == old(search)@.stack
            &&& final(search)@.files.len() == old(search)@.files.len() + 1
            &&& final(search)@.files.drop_last() == old(search)@.files
            &&& shows_path(final(search)@.files.last(), entry.path@)
        },
{
    lemma_ignored(entry.file_name->0@);
    if final(search)@.files.len() > old(search)@.files.len() {
        assert(final(search)@.files.drop_last() =~= old(search)@.files);
    }
}

/// The directory that was come upon last is read next, while there is one and fewer than a hundred
/// files were found. The answer has all that was found.
pub proof fn law_next_directory_is_the_last_one(
    search: &mut FileNameSearch,
    dir: Option<String>,
    ended: FileNameSearch,
    answer: IpcResult<super::SearchFileNamesResponse>,
)
    requires
        call_ensures(FileNameSearch::next_directory, (search,), dir),
        call_ensures(FileNameSearch::into_answer, (ended,), answer),
    ensures
        dir is Some <==> old(search)@.files.len() < 100 && old(search)@.stack.len() > 0,
        dir is Some ==> dir->0@ == old(search)@.stack[old(search)@.stack.len() - 1],
        dir is Some ==> final(search)@.stack == old(search)@.stack.take(
            old(search)@.stack.len() - 1,
        ),
        dir is None ==> final(search)@.stack == old(search)@.stack,
        final(search)@.files == old(search)@.files,
        answer.success,
        views(answer.data->0.files@) == ended@.files,
        answer.data->0.truncated <==> ended@.files.len() >= 100,
{
    if old(search)@.stack.len() > 0 {
        assert(old(search)@.stack.take(old(search)@.stack.len() - 1)
            =~= old(search)@.stack.drop_last());
    }
}

/// The entries of a directory are visited as the walk does it, and a search for a text in lowercase
/// begins at its root.
pub proof fn law_entries_are_visited(
    search: &mut FileNameSearch,
    entries: Vec<DirEntry>,
    query: String,
    root: &str,
    begun: FileNameSearch,
)
    requires
        call_ensures(FileNameSearch::visit_entries, (search, &entries), ()),
        call_ensures(FileNameSearch::for_lowercase, (query, root), begun),
    ensures
        final(search)@ == visit_all(
            old(search)@,
            super::files::entry_views(entries@),
            old(search).query(),
        ),
        begun.query() == query@,
        begun@.files.len() == 0,
        query@.len() > 0 ==> begun@.stack == seq![root@],
        query@.len() == 0 ==> begun@.stack.len() == 0,
{
}

/// The first answer that found something is the one that counts.
pub proof fn law_first_find_counts(answers: Vec<Option<String>>, at: Option<usize>)
    requires
        call_ensures(first_find, (&answers,), at),
    ensures
        at is Some ==> {
            &&& at->0 < answers@.len()
            &&& answers@[at->0 as int] is Some
            &&& forall|j: int| 0 <= j < at->0 ==> #[trigger] answers@[j] is None
        },
        at is None ==> forall|j: int| 0 <= j < answers@.len() ==> #[trigger] answers@[j] is None,
{
    let seen = answer_views(answers@);
    lemma_misses(seen);
    assert forall|j: int| 0 <= j < misses(seen) implies #[trigger] answers@[j] is None by {
        assert(seen[j] is None);
    }
}

}
