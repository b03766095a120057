use vstd::prelude::*;

use crate::json::{is_null, is_null_text, json_null};
use crate::page::PageToFileMapping;
use crate::path::{
    eq_ignore_ascii_case, file_extension, is_markdown_extension, lemma_markdown_file, spec_extension,
    spec_is_markdown_extension,
};
use crate::text::{contains_str, str_equal};

verus! {

/// A column of the mapping table.
#[derive(Debug, PartialEq, Eq, Structural, Clone, Copy)]
pub enum Column {
    PageId,
    MarkdownName,
}

/// The value of a line of the table in a column.
pub open spec fn cell(line: (Seq<char>, Seq<char>), column: Column) -> Seq<char> {
    match column {
        Column::PageId => line.0,
        Column::MarkdownName => line.1,
    }
}

/// The lines of a mapping table as plain values.
pub open spec fn table_view(mappings: Seq<PageToFileMapping>) -> Seq<(Seq<char>, Seq<char>)> {
    mappings.map_values(|m: PageToFileMapping| m@)
}

/// Whether line `i` repeats, in `column`, the value of an earlier line.
pub open spec fn repeats_earlier(table: Seq<(Seq<char>, Seq<char>)>, column: Column, i: int) -> bool {
    exists|j: int| 0 <= j < i && #[trigger] cell(table[j], column) == cell(table[i], column)
}

/// The lines among the first `n` that repeat, in `column`, the value of an earlier line.
pub open spec fn repeated_lines(table: Seq<(Seq<char>, Seq<char>)>, column: Column, n: int) -> Seq<
    (Seq<char>, Seq<char>),
>
    decreases n,
{
    if n <= 0 {
        seq![]
    } else {
        let earlier = repeated_lines(table, column, n - 1);
        if repeats_earlier(table, column, n - 1) {
            earlier.push(table[n - 1])
        } else {
            earlier
        }
    }
}

/// The distinct values of `column` among the first `n` lines, in the order of their first lines.
pub open spec fn distinct_values(table: Seq<(Seq<char>, Seq<char>)>, column: Column, n: int) -> Seq<
    Seq<char>,
>
    decreases n,
{
    if n <= 0 {
        seq![]
    } else {
        let earlier = distinct_values(table, column, n - 1);
        if repeats_earlier(table, column, n - 1) {
            earlier
        } else {
            earlier.push(cell(table[n - 1], column))
        }
    }
}

/// Whether no two lines of the table share a value in `column`.
pub open spec fn column_is_unique(table: Seq<(Seq<char>, Seq<char>)>, column: Column) -> bool {
    forall|i: int, j: int|
        0 <= i < j < table.len() ==> #[trigger] cell(table[i], column) != #[trigger] cell(
            table[j],
            column,
        )
}

/// Whether a file of the Markdown directory does not end in `.md` (ignoring ASCII case):
/// its extension is another one, or it has none.
pub open spec fn has_wrong_extension(file: Seq<char>) -> bool {
    !(spec_extension(file) matches Some(ext) && spec_is_markdown_extension(ext))
}

/// Whether a file of the Markdown directory is listed in the table.
pub open spec fn is_listed(table: Seq<(Seq<char>, Seq<char>)>, file: Seq<char>) -> bool {
    exists|k: int| 0 <= k < table.len() && #[trigger] table[k].1 == file
}

/// The files whose extension is not `md`.
pub open spec fn files_with_wrong_extension(files: Seq<Seq<char>>) -> Seq<Seq<char>> {
    files.filter(|file: Seq<char>| has_wrong_extension(file))
}

/// The files that the table does not list.
pub open spec fn unlisted_files(table: Seq<(Seq<char>, Seq<char>)>, files: Seq<Seq<char>>) -> Seq<
    Seq<char>,
> {
    files.filter(|file: Seq<char>| !is_listed(table, file))
}

/// The Markdown names of the table (each once) that are not among the files.
pub open spec fn missing_files(table: Seq<(Seq<char>, Seq<char>)>, files: Seq<Seq<char>>) -> Seq<
    Seq<char>,
> {
    names_not_among(distinct_values(table, Column::MarkdownName, table.len() as int), files)
}

/// The names that are not among the files.
pub open spec fn names_not_among(names: Seq<Seq<char>>, files: Seq<Seq<char>>) -> Seq<Seq<char>> {
    names.filter(|name: Seq<char>| !files.contains(name))
}

/// Why the mapping table does not fit the Markdown directory or the site.
#[derive(Debug)]
pub enum TableError {
    /// Lines that repeat the page id, and lines that repeat the Markdown name, of an earlier line.
    DuplicateEntries {
        duplicate_ids: Vec<PageToFileMapping>,
        duplicate_names: Vec<PageToFileMapping>,
    },
    /// Files of the Markdown directory that do not end in `.md`.
    NotMarkdown(Vec<String>),
    /// Files of the Markdown directory that the table does not list.
    UnlistedFiles(Vec<String>),
    /// Markdown names of the table that are not files of the directory.
    MissingFiles(Vec<String>),
    /// The answer for a page id could not be parsed as JSON.
    InvalidPageJson { id: String, error: serde_json::Error },
    /// Page ids of the table that do not exist on the site.
    MissingIds(Vec<String>),
}

/// Where no line repeats an earlier value, no two lines share one, and the other way round.
pub proof fn lemma_repeated_lines_empty(table: Seq<(Seq<char>, Seq<char>)>, column: Column, n: int)
    requires
        0 <= n <= table.len(),
    ensures
        repeated_lines(table, column, n).len() == 0 <==> forall|i: int, j: int|
            0 <= i < j < n ==> #[trigger] cell(table[i], column) != #[trigger] cell(
                table[j],
                column,
            ),
    decreases n,
{
    if n > 0 {
        lemma_repeated_lines_empty(table, column, n - 1);
        if repeats_earlier(table, column, n - 1) {
            let j = choose|j: int|
                0 <= j < n - 1 && #[trigger] cell(table[j], column) == cell(table[n - 1], column);
            assert(cell(table[j], column) == cell(table[n - 1], column));
        }
    }
}

/// The distinct values of a column are values of its lines, and hold the value of every line.
pub proof fn lemma_distinct_values(table: Seq<(Seq<char>, Seq<char>)>, column: Column, n: int)
    requires
        0 <= n <= table.len(),
    ensures
        forall|k: int|
            0 <= k < n ==> #[trigger] distinct_values(table, column, n).contains(
                cell(table[k], column),
            ),
        forall|v: Seq<char>|
            #[trigger] distinct_values(table, column, n).contains(v) ==> exists|k: int|
                0 <= k < n && cell(table[k], column) == v,
    decreases n,
{
    if n > 0 {
        lemma_distinct_values(table, column, n - 1);
        let earlier = distinct_values(table, column, n - 1);
        let all = distinct_values(table, column, n);
        assert forall|k: int| 0 <= k < n implies #[trigger] all.contains(cell(table[k], column)) by {
            if k < n - 1 {
                assert(earlier.contains(cell(table[k], column)));
                let i = choose|i: int| 0 <= i < earlier.len() && earlier[i] == cell(table[k], column);
                assert(all[i] == earlier[i]);
            } else if repeats_earlier(table, column, n - 1) {
                let j = choose|j: int|
                    0 <= j < n - 1 && #[trigger] cell(table[j], column) == cell(table[n - 1], column);
                assert(earlier.contains(cell(table[j], column)));
            } else {
                assert(all[all.len() - 1] == cell(table[k], column));
            }
        }
        assert forall|v: Seq<char>| #[trigger] all.contains(v) implies exists|k: int|
            0 <= k < n && cell(table[k], column) == v by {
            let i = choose|i: int| 0 <= i < all.len() && all[i] == v;
            if i < earlier.len() {
                assert(earlier[i] == v);
                assert(earlier.contains(v));
            } else {
                assert(cell(table[n - 1], column) == v);
            }
        }
    }
}

/// No value occurs twice among the distinct values of a column.
pub proof fn lemma_distinct_values_no_duplicates(
    table: Seq<(Seq<char>, Seq<char>)>,
    column: Column,
    n: int,
)
    requires
        0 <= n <= table.len(),
    ensures
        distinct_values(table, column, n).no_duplicates(),
    decreases n,
{
    if n > 0 {
        lemma_distinct_values_no_duplicates(table, column, n - 1);
        lemma_distinct_values(table, column, n - 1);
        let earlier = distinct_values(table, column, n - 1);
        if !repeats_earlier(table, column, n - 1) {
            let v = cell(table[n - 1], column);
            if earlier.contains(v) {
                let k = choose|k: int| 0 <= k < n - 1 && cell(table[k], column) == v;
                assert(cell(table[k], column) == cell(table[n - 1], column));
            }
            let all = earlier.push(v);
            assert forall|i: int, j: int| 0 <= i < all.len() && 0 <= j < all.len() && i != j implies all[i] != all[j] by {
                if i < earlier.len() && j < earlier.len() {
                    assert(earlier[i] != earlier[j]);
                } else if i < earlier.len() {
                    assert(earlier.contains(earlier[i]));
                } else {
                    assert(earlier.contains(earlier[j]));
                }
            }
        }
    }
}

/// Once both checks of the table against the Markdown directory have passed, the table and
/// the directory match one to one: each file of the directory is the Markdown name of
/// exactly one line, and each line names a file of the directory.
pub proof fn lemma_checked_table_matches_directory(
    table: Seq<(Seq<char>, Seq<char>)>,
    files: Seq<Seq<char>>,
)
    requires
        column_is_unique(table, Column::MarkdownName),
        files_fit_table(table, files),
    ensures
        forall|i: int| 0 <= i < files.len() ==> is_listed(table, #[trigger] files[i]),
        forall|i: int, k1: int, k2: int|
            #![trigger files[i], table[k1], table[k2]]
            0 <= i < files.len() && 0 <= k1 < table.len() && 0 <= k2 < table.len() && table[k1].1
                == files[i] && table[k2].1 == files[i] ==> k1 == k2,
        forall|k: int| 0 <= k < table.len() ==> files.contains(#[trigger] table[k].1),
{
    assert forall|i: int, k1: int, k2: int|
        #![trigger files[i], table[k1], table[k2]]
        0 <= i < files.len() && 0 <= k1 < table.len() && 0 <= k2 < table.len() && table[k1].1
            == files[i] && table[k2].1 == files[i] implies k1 == k2 by {
        if k1 < k2 {
            assert(cell(table[k1], Column::MarkdownName) != cell(table[k2], Column::MarkdownName));
        } else if k2 < k1 {
            assert(cell(table[k2], Column::MarkdownName) != cell(table[k1], Column::MarkdownName));
        }
    }
}

/// Whether some line of the table names the file `file`, character for character.
pub open spec fn some_line_names(table: Seq<(Seq<char>, Seq<char>)>, file: Seq<char>) -> bool {
    exists|k: int| #![trigger table[k]] 0 <= k < table.len() && table[k].1 == file
}

/// What it takes for the Markdown directory to fit the table, in the terms of the task:
/// the directory passes exactly when the extension of every file equals `md` under ASCII
/// case folding, every file is, character for character, the Markdown name of some line,
/// and the Markdown name of every line is among the files. A file that no line names exactly
/// (say `research/smash.md` beside a line for `research/julea.md`) makes it fail.
pub proof fn lemma_files_fit_table_exactly(table: Seq<(Seq<char>, Seq<char>)>, files: Seq<Seq<char>>)
    ensures
        files_fit_table(table, files) <==> {
            &&& forall|i: int|
                0 <= i < files.len() ==> (spec_extension(#[trigger] files[i]) matches Some(ext)
                    && eq_ignore_ascii_case(ext, seq!['m', 'd']))
            &&& forall|i: int| 0 <= i < files.len() ==> some_line_names(table, #[trigger] files[i])
            &&& forall|k: int| 0 <= k < table.len() ==> files.contains(#[trigger] table[k].1)
        },
{
    assert forall|i: int| 0 <= i < files.len() implies (!has_wrong_extension(#[trigger] files[i])
        <==> (spec_extension(files[i]) matches Some(ext) && eq_ignore_ascii_case(
        ext,
        seq!['m', 'd'],
    ))) by {
        lemma_markdown_file(files[i]);
    }
    assert forall|i: int| 0 <= i < files.len() implies (is_listed(table, #[trigger] files[i])
        <==> some_line_names(table, files[i])) by {
        if is_listed(table, files[i]) {
            let k = choose|k: int| 0 <= k < table.len() && #[trigger] table[k].1 == files[i];
            assert(table[k].1 == files[i]);
        }
        if some_line_names(table, files[i]) {
            let k = choose|k: int| #![trigger table[k]] 0 <= k < table.len() && table[k].1 == files[i];
            assert(table[k].1 == files[i]);
        }
    }
}

/// The files reported as unlisted are exactly the files that no line names, character for
/// character.
pub proof fn lemma_unlisted_files_exactly(table: Seq<(Seq<char>, Seq<char>)>, files: Seq<Seq<char>>)
    ensures
        forall|f: Seq<char>|
            #[trigger] unlisted_files(table, files).contains(f) <==> files.contains(f)
                && !some_line_names(table, f),
{
    broadcast use vstd::seq_lib::group_filter_ensures;

    let pred = |file: Seq<char>| !is_listed(table, file);
    assert forall|f: Seq<char>| #[trigger] unlisted_files(table, files).contains(f) <==> files.contains(f)
        && !some_line_names(table, f) by {
        assert(is_listed(table, f) <==> some_line_names(table, f)) by {
            if is_listed(table, f) {
                let k = choose|k: int| 0 <= k < table.len() && #[trigger] table[k].1 == f;
                assert(table[k].1 == f);
            }
            if some_line_names(table, f) {
                let k = choose|k: int| #![trigger table[k]] 0 <= k < table.len() && table[k].1 == f;
                assert(table[k].1 == f);
            }
        }
        if unlisted_files(table, files).contains(f) {
            files.lemma_filter_contains_rev(pred, f);
            let j = choose|j: int| 0 <= j < unlisted_files(table, files).len() && unlisted_files(table, files)[j] == f;
            assert(pred(unlisted_files(table, files)[j]));
        }
        if files.contains(f) && !some_line_names(table, f) {
            let i = choose|i: int| 0 <= i < files.len() && files[i] == f;
            assert(pred(files[i]));
            assert(files.filter(pred).contains(files[i]));
        }
    }
}

/// A filtered sequence is empty exactly when no element passes the filter.
pub proof fn lemma_filter_empty<A>(s: Seq<A>, pred: spec_fn(A) -> bool)
    ensures
        s.filter(pred).len() == 0 <==> forall|i: int| 0 <= i < s.len() ==> !pred(#[trigger] s[i]),
{
    broadcast use vstd::seq_lib::group_filter_ensures;

    if s.filter(pred).len() != 0 {
        let x = s.filter(pred)[0];
        assert(pred(x));
        s.lemma_filter_contains_rev(pred, x);
        let i = choose|i: int| 0 <= i < s.len() && s[i] == x;
        assert(pred(s[i]));
    }
    if exists|i: int| 0 <= i < s.len() && pred(#[trigger] s[i]) {
        let i = choose|i: int| 0 <= i < s.len() && pred(#[trigger] s[i]);
        assert(s.filter(pred).contains(s[i]));
    }
}

/// The value of a line in a column.
fn cell_of(mapping: &PageToFileMapping, column: Column) -> (c: &String)
    ensures
        c@ == cell(mapping@, column),
{
    match column {
        Column::PageId => &mapping.page_id,
        Column::MarkdownName => &mapping.markdown_name,
    }
}

/// Whether line `i` repeats, in `column`, the value of an earlier line.
fn line_repeats_earlier(mappings: &[PageToFileMapping], column: Column, i: usize) -> (r: bool)
    requires
        i < mappings@.len(),
    ensures
        r == repeats_earlier(table_view(mappings@), column, i as int),
{
    let ghost table = table_view(mappings@);
    let value = cell_of(&mappings[i], column);
    let mut j: usize = 0;
    while j < i
        invariant
            i < mappings@.len(),
            j <= i,
            table == table_view(mappings@),
            value@ == cell(table[i as int], column),
            forall|k: int| 0 <= k < j ==> #[trigger] cell(table[k], column) != cell(table[i as int], column),
        decreases i - j,
    {
        if str_equal(cell_of(&mappings[j], column).as_str(), value.as_str()) {
            assert(cell(table[j as int], column) == cell(table[i as int], column));
            return true;
        }
        j = j + 1;
    }
    false
}

/// The lines that repeat, in `column`, the value of an earlier line.
pub fn find_repeated(mappings: &[PageToFileMapping], column: Column) -> (r: Vec<PageToFileMapping>)
    ensures
        table_view(r@) == repeated_lines(table_view(mappings@), column, mappings@.len() as int),
{
    let ghost table = table_view(mappings@);
    let mut r: Vec<PageToFileMapping> = Vec::new();
    let mut i: usize = 0;
    while i < mappings.len()
        invariant
            i <= mappings@.len(),
            table == table_view(mappings@),
            table_view(r@) == repeated_lines(table, column, i as int),
        decreases mappings@.len() - i,
    {
        if line_repeats_earlier(mappings, column, i) {
            let line = mappings[i].duplicate();
            let ghost before = r@;
            r.push(line);
            assert(table_view(r@) =~= table_view(before).push(table[i as int]));
        }
        i = i + 1;
    }
    r
}

/// The distinct values of `column`, in the order of their first lines.
pub fn distinct_column(mappings: &[PageToFileMapping], column: Column) -> (r: Vec<String>)
    ensures
        r.deep_view() == distinct_values(table_view(mappings@), column, mappings@.len() as int),
{
    let ghost table = table_view(mappings@);
    let mut r: Vec<String> = Vec::new();
    let mut i: usize = 0;
    while i < mappings.len()
        invariant
            i <= mappings@.len(),
            table == table_view(mappings@),
            r.deep_view() == distinct_values(table, column, i as int),
        decreases mappings@.len() - i,
    {
        if !line_repeats_earlier(mappings, column, i) {
            let value = cell_of(&mappings[i], column).clone();
            let ghost before = r.deep_view();
            r.push(value);
            assert(r.deep_view() =~= before.push(cell(table[i as int], column)));
        }
        i = i + 1;
    }
    r
}

/// Checks that all page ids and all Markdown names of the table are unique; otherwise names
/// the lines that repeat an earlier id or name.
pub fn check_unique(mappings: &[PageToFileMapping]) -> (r: Result<(), TableError>)
    ensures
        r is Ok <==> column_is_unique(table_view(mappings@), Column::PageId) && column_is_unique(
            table_view(mappings@),
            Column::MarkdownName,
        ),
        r matches Err(e) ==> e matches TableError::DuplicateEntries { duplicate_ids, duplicate_names }
            && table_view(duplicate_ids@) == repeated_lines(
            table_view(mappings@),
            Column::PageId,
            mappings@.len() as int,
        ) && table_view(duplicate_names@) == repeated_lines(
            table_view(mappings@),
            Column::MarkdownName,
            mappings@.len() as int,
        ),
{
    let ghost table = table_view(mappings@);
    proof {
        lemma_repeated_lines_empty(table, Column::PageId, table.len() as int);
        lemma_repeated_lines_empty(table, Column::MarkdownName, table.len() as int);
    }
    let duplicate_ids = find_repeated(mappings, Column::PageId);
    let duplicate_names = find_repeated(mappings, Column::MarkdownName);
    proof {
        assert(table_view(duplicate_ids@).len() == duplicate_ids@.len());
        assert(table_view(duplicate_names@).len() == duplicate_names@.len());
    }
    if duplicate_ids.len() == 0 && duplicate_names.len() == 0 {
        Ok(())
    } else {
        Err(TableError::DuplicateEntries { duplicate_ids, duplicate_names })
    }
}

/// Whether the Markdown directory fits the table: every file ends in `.md`, the table lists
/// every file, and every Markdown name of the table is a file of the directory.
pub open spec fn files_fit_table(table: Seq<(Seq<char>, Seq<char>)>, files: Seq<Seq<char>>) -> bool {
    &&& forall|i: int| 0 <= i < files.len() ==> !has_wrong_extension(#[trigger] files[i])
    &&& forall|i: int| 0 <= i < files.len() ==> is_listed(table, #[trigger] files[i])
    &&& forall|k: int| 0 <= k < table.len() ==> files.contains(#[trigger] table[k].1)
}

/// Whether the table lists the file `file`.
fn lists_file(mappings: &[PageToFileMapping], file: &str) -> (r: bool)
    ensures
        r == is_listed(table_view(mappings@), file@),
{
    let ghost table = table_view(mappings@);
    let mut k: usize = 0;
    while k < mappings.len()
        invariant
            k <= mappings@.len(),
            table == table_view(mappings@),
            forall|j: int| 0 <= j < k ==> #[trigger] table[j].1 != file@,
        decreases mappings@.len() - k,
    {
        if str_equal(mappings[k].markdown_name.as_str(), file) {
            assert(table[k as int].1 == file@);
            return true;
        }
        k = k + 1;
    }
    false
}

/// Checks the files of the Markdown directory (their paths relative to it) against the table:
/// that every file ends in `.md`, that the table lists every file, and that every Markdown
/// name of the table is a file; the first check that fails names the files it failed on.
pub fn check_markdown_files(mappings: &[PageToFileMapping], md_file_names: &[String]) -> (r: Result<
    (),
    TableError,
>)
    ensures
        r is Ok <==> files_fit_table(table_view(mappings@), md_file_names.deep_view()),
        r matches Err(e) ==> if files_with_wrong_extension(md_file_names.deep_view()).len() > 0 {
            e matches TableError::NotMarkdown(files) && files.deep_view()
                == files_with_wrong_extension(md_file_names.deep_view())
        } else if unlisted_files(table_view(mappings@), md_file_names.deep_view()).len() > 0 {
            e matches TableError::UnlistedFiles(files) && files.deep_view() == unlisted_files(
                table_view(mappings@),
                md_file_names.deep_view(),
            )
        } else {
            e matches TableError::MissingFiles(names) && names.deep_view() == missing_files(
                table_view(mappings@),
                md_file_names.deep_view(),
            )
        },
{
    let ghost table = table_view(mappings@);
    let ghost files = md_file_names.deep_view();
    let n: usize = md_file_names.len();
    proof {
        reveal(Seq::filter);
        lemma_filter_empty(files, |file: Seq<char>| has_wrong_extension(file));
        lemma_filter_empty(files, |file: Seq<char>| !is_listed(table, file));
        lemma_distinct_values(table, Column::MarkdownName, table.len() as int);
        lemma_filter_empty(
            distinct_values(table, Column::MarkdownName, table.len() as int),
            |name: Seq<char>| !files.contains(name),
        );
        assert(files.take(n as int) =~= files);
    }
    // Do all files end in `.md`?
    let mut wrong: Vec<String> = Vec::new();
    let mut i: usize = 0;
    while i < n
        invariant
            n == md_file_names@.len(),
            i <= n,
            files == md_file_names.deep_view(),
            wrong.deep_view() == files_with_wrong_extension(files.take(i as int)),
        decreases n - i,
    {
        let ends_in_md: bool = match file_extension(md_file_names[i].as_str()) {
            Some(ext) => is_markdown_extension(ext.as_str()),
            None => false,
        };
        let ghost before = wrong.deep_view();
        if !ends_in_md {
            wrong.push(md_file_names[i].clone());
            assert(wrong.deep_view() =~= before.push(files[i as int]));
        }
        proof {
            reveal(Seq::filter);
            assert(files.take(i + 1).drop_last() =~= files.take(i as int));
        }
        i = i + 1;
    }
    if wrong.len() > 0 {
        return Err(TableError::NotMarkdown(wrong));
    }
    // Does the table list all files?
    let mut unlisted: Vec<String> = Vec::new();
    let mut i: usize = 0;
    while i < n
        invariant
            n == md_file_names@.len(),
            i <= n,
            files == md_file_names.deep_view(),
            table == table_view(mappings@),
            unlisted.deep_view() == unlisted_files(table, files.take(i as int)),
        decreases n - i,
    {
        let ghost before = unlisted.deep_view();
        if !lists_file(mappings, md_file_names[i].as_str()) {
            unlisted.push(md_file_names[i].clone());
            assert(unlisted.deep_view() =~= before.push(files[i as int]));
        }
        proof {
            reveal(Seq::filter);
            assert(files.take(i + 1).drop_last() =~= files.take(i as int));
        }
        i = i + 1;
    }
    if unlisted.len() > 0 {
        return Err(TableError::UnlistedFiles(unlisted));
    }
    // Do all Markdown names of the table exist?
    let names = distinct_column(mappings, Column::MarkdownName);
    let ghost all_names = names.deep_view();
    let mut missing: Vec<String> = Vec::new();
    let mut k: usize = 0;
    while k < names.len()
        invariant
            k <= names@.len(),
            all_names == names.deep_view(),
            files == md_file_names.deep_view(),
            missing.deep_view() == names_not_among(all_names.take(k as int), files),
        decreases names@.len() - k,
    {
        let ghost before = missing.deep_view();
        let found = contains_str(md_file_names, names[k].as_str());
        assert(found == files.contains(all_names[k as int])) by {
            if found {
                let j = choose|j: int| 0 <= j < md_file_names@.len() && #[trigger] md_file_names@[j]@ == names@[k as int]@;
                assert(files[j] == all_names[k as int]);
            }
            if files.contains(all_names[k as int]) {
                let j = choose|j: int| 0 <= j < files.len() && files[j] == all_names[k as int];
                assert(md_file_names@[j]@ == names@[k as int]@);
            }
        }
        if !found {
            missing.push(names[k].clone());
            assert(missing.deep_view() =~= before.push(all_names[k as int]));
        }
        proof {
            reveal(Seq::filter);
            assert(all_names.take(k + 1).drop_last() =~= all_names.take(k as int));
        }
        k = k + 1;
    }
    proof {
        assert(all_names.take(names@.len() as int) =~= all_names);
        let names_listed = forall|i: int| 0 <= i < all_names.len() ==> files.contains(#[trigger] all_names[i]);
        let table_names_exist = forall|k: int| 0 <= k < table.len() ==> files.contains(#[trigger] table[k].1);
        assert(names_listed ==> table_names_exist) by {
            if names_listed {
                assert forall|k: int| 0 <= k < table.len() implies files.contains(#[trigger] table[k].1) by {
                    assert(all_names.contains(cell(table[k], Column::MarkdownName)));
                    let i = choose|i: int| 0 <= i < all_names.len() && all_names[i] == cell(table[k], Column::MarkdownName);
                    assert(files.contains(all_names[i]));
                }
            }
        }
        assert(table_names_exist ==> names_listed) by {
            if table_names_exist {
                assert forall|i: int| 0 <= i < all_names.len() implies files.contains(#[trigger] all_names[i]) by {
                    assert(all_names.contains(all_names[i]));
                    let k = choose|k: int| 0 <= k < table.len() && cell(table[k], Column::MarkdownName) == all_names[i];
                    assert(files.contains(table[k].1));
                }
            }
        }
    }
    if missing.len() > 0 {
        return Err(TableError::MissingFiles(missing));
    }
    Ok(())
}

/// The last check: that every page id of the table exists on the site. For each id in turn
/// (each once, in the order of its first line) the site is asked for the page, and its
/// answer handed back; the API answers JSON `null` for a page that does not exist.
pub struct IdCheck {
    ids: Vec<String>,
    next: usize,
    missing: Vec<String>,
}

/// What an id check holds, as plain values: the ids to ask for, how many have been
/// answered, and those whose page does not exist.
pub struct IdCheckView {
    pub ids: Seq<Seq<char>>,
    pub next: int,
    pub missing: Seq<Seq<char>>,
}

impl View for IdCheck {
    type V = IdCheckView;

    closed spec fn view(&self) -> IdCheckView {
        IdCheckView { ids: self.ids.deep_view(), next: self.next as int, missing: self.missing.deep_view() }
    }
}

/// What holds of an id check at every step: no more ids have been answered than there are,
/// and every missing id is one that has been answered.
pub open spec fn id_check_consistent(check: IdCheckView) -> bool {
    &&& 0 <= check.next <= check.ids.len()
    &&& forall|i: int|
        0 <= i < check.missing.len() ==> check.ids.take(check.next).contains(
            #[trigger] check.missing[i],
        )
}

impl IdCheck {
    #[verifier::type_invariant]
    spec fn well_formed(self) -> bool {
        id_check_consistent(self@)
    }

    /// A check of the distinct page ids of the table, none of them answered yet.
    pub fn new(mappings: &[PageToFileMapping]) -> (c: IdCheck)
        ensures
            c@.ids == distinct_values(table_view(mappings@), Column::PageId, mappings@.len() as int),
            c@.ids.no_duplicates(),
            forall|k: int|
                0 <= k < mappings@.len() ==> c@.ids.contains(#[trigger] mappings@[k].page_id@),
            c@.next == 0,
            c@.missing == Seq::<Seq<char>>::empty(),
            id_check_consistent(c@),
    {
        let ids = distinct_column(mappings, Column::PageId);
        proof {
            let table = table_view(mappings@);
            lemma_distinct_values(table, Column::PageId, table.len() as int);
            lemma_distinct_values_no_duplicates(table, Column::PageId, table.len() as int);
            assert forall|k: int| 0 <= k < mappings@.len() implies ids.deep_view().contains(
                #[trigger] mappings@[k].page_id@,
            ) by {
                assert(cell(table[k], Column::PageId) == mappings@[k].page_id@);
            }
        }
        let missing: Vec<String> = Vec::new();
        let c = IdCheck { ids, next: 0, missing };
        assert(c@.missing =~= Seq::<Seq<char>>::empty());
        c
    }

    /// The id whose page is to be asked for next, if any is left.
    pub fn next_id(&self) -> (r: Option<String>)
        ensures
            r.deep_view() == if self@.next < self@.ids.len() {
                Some(self@.ids[self@.next])
            } else {
                None
            },
    {
        if self.next < self.ids.len() {
            Some(self.ids[self.next].clone())
        } else {
            None
        }
    }

    /// Hands back the answer `page_json` for the id that `next_id` gives: a page answered
    /// with JSON `null` does not exist. An answer that is not JSON is refused, naming the id.
    pub fn record(&mut self, page_json: &str) -> (r: Result<(), TableError>)
        requires
            old(self)@.next < old(self)@.ids.len(),
        ensures
            match json_null(page_json@) {
                None => {
                    &&& r matches Err(TableError::InvalidPageJson { id, .. }) && id@ == old(
                        self,
                    )@.ids[old(self)@.next]
                    &&& final(self)@ == old(self)@
                },
                Some(null) => {
                    &&& r is Ok
                    &&& null == is_null_text(page_json@)
                    &&& id_check_consistent(final(self)@)
                    &&& final(self)@.ids == old(self)@.ids
                    &&& final(self)@.next == old(self)@.next + 1
                    &&& final(self)@.missing == if null {
                        old(self)@.missing.push(old(self)@.ids[old(self)@.next])
                    } else {
                        old(self)@.missing
                    }
                },
            },
            is_null_text(page_json@) ==> r is Ok,
    {
        proof {
            use_type_invariant(&*self);
        }
        let count: usize = self.ids.len();
        assert(self.ids.deep_view().len() == count);
        let id = self.ids[self.next].clone();
        match is_null(page_json) {
            Err(error) => Err(TableError::InvalidPageJson { id, error }),
            Ok(null) => {
                let ghost before = self@;
                let ghost asked = before.ids.take(before.next + 1);
                assert forall|i: int| 0 <= i < before.missing.len() implies asked.contains(
                    #[trigger] before.missing[i],
                ) by {
                    let j = choose|j: int|
                        0 <= j < before.next && before.ids.take(before.next)[j] == before.missing[i];
                    assert(asked[j] == before.missing[i]);
                }
                assert(asked[before.next] == before.ids[before.next]);
                self.next = self.next + 1;
                if null {
                    let mut missing: Vec<String> = self.missing.clone();
                    missing.push(id);
                    assert(missing.deep_view() =~= before.missing.push(before.ids[before.next]));
                    self.missing = missing;
                }
                Ok(())
            },
        }
    }

    /// The outcome of the check: the ids whose page does not exist, if there are any.
    pub fn finish(&self) -> (r: Result<(), TableError>)
        ensures
            r is Ok <==> self@.missing.len() == 0,
            r matches Err(e) ==> e matches TableError::MissingIds(ids) && ids.deep_view()
                == self@.missing,
    {
        if self.missing.len() == 0 {
            Ok(())
        } else {
            Err(TableError::MissingIds(self.missing.clone()))
        }
    }
}

} // verus!
