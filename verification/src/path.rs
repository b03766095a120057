use vstd::prelude::*;

verus! {

/// The index of the last `c` among the first `end` characters of `s`, or -1 when there is none.
pub open spec fn last_index_before(s: Seq<char>, c: char, end: int) -> int
    decreases end,
{
    if end <= 0 {
        -1
    } else if s[end - 1] == c {
        end - 1
    } else {
        last_index_before(s, c, end - 1)
    }
}

/// The last index of a character before `end` is below `end`.
pub proof fn lemma_last_index_before_bounds(s: Seq<char>, c: char, end: int)
    requires
        end >= 0,
    ensures
        -1 <= last_index_before(s, c, end) < end,
    decreases end,
{
    if end > 0 && s[end - 1] != c {
        lemma_last_index_before_bounds(s, c, end - 1);
    }
}

/// The file name of the first `end` characters of the path `path`, as
/// `std::path::Path::file_name` finds it on Unix: the last `/`-separated part that is neither
/// empty nor `.`; none when there is no such part, or when that part is `..`.
pub open spec fn file_name_before(path: Seq<char>, end: int) -> Option<Seq<char>>
    decreases end,
{
    if end <= 0 {
        None
    } else {
        let start: int = last_index_before(path, '/', end) + 1;
        let part = path.subrange(start, end);
        if part.len() == 0 || part == seq!['.'] {
            if start <= 0 {
                None
            } else {
                proof {
                    lemma_last_index_before_bounds(path, '/', end);
                }
                file_name_before(path, start - 1)
            }
        } else if part == seq!['.', '.'] {
            None
        } else {
            Some(part)
        }
    }
}

/// The file name of the path `path` (see `file_name_before`).
pub open spec fn spec_file_name(path: Seq<char>) -> Option<Seq<char>> {
    file_name_before(path, path.len() as int)
}

/// The extension of a file name, as `std::path::Path::extension` takes it: the part after
/// the last `.`; none when there is no `.`, or when the only `.` is the first character.
pub open spec fn extension_of_file_name(name: Seq<char>) -> Option<Seq<char>> {
    let dot: int = last_index_before(name, '.', name.len() as int);
    if dot <= 0 {
        None
    } else {
        Some(name.subrange(dot + 1, name.len() as int))
    }
}

/// The extension of the path `path`, as `std::path::Path::extension` gives it on Unix.
pub open spec fn spec_extension(path: Seq<char>) -> Option<Seq<char>> {
    match spec_file_name(path) {
        Some(name) => extension_of_file_name(name),
        None => None,
    }
}

/// Whether an extension reads `md`, ignoring ASCII case.
pub open spec fn spec_is_markdown_extension(ext: Seq<char>) -> bool {
    &&& ext.len() == 2
    &&& ext[0] == 'm' || ext[0] == 'M'
    &&& ext[1] == 'd' || ext[1] == 'D'
}

/// The characters of `s`.
fn chars_of(s: &str) -> (r: Vec<char>)
    ensures
        r@ == s@,
{
    let n: usize = s.unicode_len();
    let mut r: Vec<char> = Vec::new();
    let mut i: usize = 0;
    while i < n
        invariant
            n == s@.len(),
            i <= n,
            r@ == s@.subrange(0, i as int),
        decreases n - i,
    {
        r.push(s.get_char(i));
        i = i + 1;
    }
    assert(r@ =~= s@);
    r
}

/// One past the last `c` among the first `end` characters of `cs` (0 when there is none).
fn after_last_index(cs: &Vec<char>, c: char, end: usize) -> (r: usize)
    requires
        end <= cs@.len(),
    ensures
        r == last_index_before(cs@, c, end as int) + 1,
{
    let mut i: usize = end;
    while i > 0
        invariant
            i <= end <= cs@.len(),
            last_index_before(cs@, c, end as int) == last_index_before(cs@, c, i as int),
        decreases i,
    {
        if cs[i - 1] == c {
            return i;
        }
        i = i - 1;
    }
    0
}

/// Where the file name of the path `cs` stands in it: its first index and one past its last.
fn file_name_bounds(cs: &Vec<char>) -> (r: Option<(usize, usize)>)
    ensures
        match r {
            None => spec_file_name(cs@) is None,
            Some((start, end)) => {
                &&& start <= end <= cs@.len()
                &&& spec_file_name(cs@) == Some(cs@.subrange(start as int, end as int))
            },
        },
{
    let mut end: usize = cs.len();
    loop
        invariant
            end <= cs@.len(),
            file_name_before(cs@, end as int) == spec_file_name(cs@),
        decreases end,
    {
        if end == 0 {
            return None;
        }
        let start: usize = after_last_index(cs, '/', end);
        proof {
            lemma_last_index_before_bounds(cs@, '/', end as int);
        }
        let ghost part = cs@.subrange(start as int, end as int);
        let len: usize = end - start;
        if len == 0 || (len == 1 && cs[start] == '.') {
            assert(len == 1 ==> part =~= seq!['.']);
            if start == 0 {
                return None;
            }
            end = start - 1;
        } else if len == 2 && cs[start] == '.' && cs[start + 1] == '.' {
            assert(part =~= seq!['.', '.']);
            return None;
        } else {
            assert(part != seq!['.']) by {
                if part == seq!['.'] {
                    assert(seq!['.'][0] == '.' && seq!['.'].len() == 1);
                    assert(part[0] == cs@[start as int]);
                }
            }
            assert(part != seq!['.', '.']) by {
                if part == seq!['.', '.'] {
                    assert(seq!['.', '.'][0] == '.' && seq!['.', '.'][1] == '.');
                    assert(seq!['.', '.'].len() == 2);
                    assert(part[0] == cs@[start as int]);
                    assert(part[1] == cs@[start + 1]);
                }
            }
            return Some((start, end));
        }
    }
}

/// The extension of the path `name`, as `std::path::Path::extension` gives it on Unix.
pub fn file_extension(name: &str) -> (r: Option<String>)
    ensures
        r.deep_view() == spec_extension(name@),
{
    let cs = chars_of(name);
    match file_name_bounds(&cs) {
        None => None,
        Some((start, end)) => {
            let mut file_name: Vec<char> = Vec::new();
            let mut i: usize = start;
            while i < end
                invariant
                    start <= i <= end <= cs@.len(),
                    file_name@ == cs@.subrange(start as int, i as int),
                decreases end - i,
            {
                file_name.push(cs[i]);
                i = i + 1;
            }
            let after_dot: usize = after_last_index(&file_name, '.', file_name.len());
            if after_dot <= 1 {
                None
            } else {
                proof {
                    lemma_last_index_before_bounds(file_name@, '.', file_name@.len() as int);
                }
                let ext = name.substring_char(start + after_dot, end);
                assert(ext@ =~= file_name@.subrange(after_dot as int, file_name@.len() as int));
                Some(ext.to_owned())
            }
        },
    }
}

/// Whether the extension `ext` reads `md`, ignoring ASCII case.
pub fn is_markdown_extension(ext: &str) -> (r: bool)
    ensures
        r == spec_is_markdown_extension(ext@),
{
    if ext.unicode_len() != 2 {
        return false;
    }
    let first = ext.get_char(0);
    let second = ext.get_char(1);
    (first == 'm' || first == 'M') && (second == 'd' || second == 'D')
}

/// The code point of a character after ASCII lowercasing: `A` to `Z` become `a` to `z`, every
/// other character stays.
pub open spec fn ascii_lowercase_code(c: char) -> int {
    if 65 <= (c as int) && (c as int) <= 90 {
        c as int + 32
    } else {
        c as int
    }
}

/// Whether two texts are equal under ASCII case folding: as long as each other, and
/// character by character equal once lowercased.
pub open spec fn eq_ignore_ascii_case(a: Seq<char>, b: Seq<char>) -> bool {
    &&& a.len() == b.len()
    &&& forall|i: int| 0 <= i < a.len() ==> ascii_lowercase_code(#[trigger] a[i]) == ascii_lowercase_code(b[i])
}

/// An extension counts as Markdown exactly when it equals `md` under ASCII case folding; in
/// particular it has exactly two characters, so `mdx`, `mdown` or `md~` do not count.
pub proof fn lemma_markdown_extension_is_md(ext: Seq<char>)
    ensures
        spec_is_markdown_extension(ext) <==> eq_ignore_ascii_case(ext, seq!['m', 'd']),
        spec_is_markdown_extension(ext) ==> ext.len() == 2,
{
    let md = seq!['m', 'd'];
    assert(md.len() == 2 && md[0] == 'm' && md[1] == 'd');
    assert('m' as int == 109 && 'M' as int == 77 && 'd' as int == 100 && 'D' as int == 68);
    if spec_is_markdown_extension(ext) {
        assert forall|i: int| 0 <= i < ext.len() implies ascii_lowercase_code(#[trigger] ext[i])
            == ascii_lowercase_code(md[i]) by {
            if i == 0 {
                assert(ext[0] == 'm' || ext[0] == 'M');
            } else {
                assert(ext[1] == 'd' || ext[1] == 'D');
            }
        }
    }
    if eq_ignore_ascii_case(ext, md) {
        assert(ascii_lowercase_code(ext[0]) == ascii_lowercase_code(md[0]));
        assert(ascii_lowercase_code(ext[1]) == ascii_lowercase_code(md[1]));
        assert(ext[0] as int == 'm' as int || ext[0] as int == 'M' as int);
        assert(ext[1] as int == 'd' as int || ext[1] as int == 'D' as int);
        assert(ext[0] == 'm' || ext[0] == 'M');
        assert(ext[1] == 'd' || ext[1] == 'D');
    }
}

/// A file counts as Markdown exactly when its extension exists and equals `md` under ASCII
/// case folding: `notes.mdx` and `README` do not, `a.MD` does.
pub proof fn lemma_markdown_file(path: Seq<char>)
    ensures
        (spec_extension(path) matches Some(ext) && spec_is_markdown_extension(ext)) <==> (
        spec_extension(path) matches Some(ext) && eq_ignore_ascii_case(ext, seq!['m', 'd'])),
{
    if let Some(ext) = spec_extension(path) {
        lemma_markdown_extension_is_md(ext);
    }
}

} // verus!
