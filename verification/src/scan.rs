//! The aggregation pipeline over already-read file contents, and the path
//! rule of the file scanner.
//!
//! The caller walks the directory tree and reads each selected file; this
//! module decides which paths are selected and turns file contents into the
//! flat collection of task records.  Processing is per line and per file
//! with no shared state, so a caller may fan the per-file work out to
//! workers and flatten the partial results: the outcome is the same
//! collection.

use vstd::prelude::*;

use crate::date::DateTime;
use crate::text::{ends_with, ends_with_str, lemma_split_char_len, split_char, split_char_str};
use crate::todo::{spec_build, Todo};

verus! {

/// Views of a vector of strings.
pub open spec fn string_views(v: Seq<String>) -> Seq<Seq<char>> {
    v.map_values(|s: String| s@)
}

/// Views of a vector of records.
pub open spec fn todo_views(v: Seq<Todo>) -> Seq<(Seq<char>, DateTime)> {
    v.map_values(|t: Todo| t@)
}

/// A line with its trailing carriage return removed.
pub open spec fn strip_cr(l: Seq<char>) -> Seq<char> {
    if l.len() > 0 && l[l.len() - 1] == '\r' {
        l.subrange(0, l.len() - 1)
    } else {
        l
    }
}

/// The lines of a file's text: split on newline, a carriage return
/// stripped from the end of every newline-terminated line, and no empty
/// final line after a trailing newline.  A final line that no newline
/// terminates keeps a trailing carriage return.
pub open spec fn lines_of(s: Seq<char>) -> Seq<Seq<char>> {
    if s.len() == 0 {
        Seq::empty()
    } else {
        let segs = split_char(s, '\n');
        if segs.last().len() == 0 {
            segs.drop_last().map_values(|l: Seq<char>| strip_cr(l))
        } else {
            segs.drop_last().map_values(|l: Seq<char>| strip_cr(l)).push(segs.last())
        }
    }
}

/// The records contributed by a sequence of lines, in line order.
pub open spec fn todos_of_lines(ls: Seq<Seq<char>>) -> Seq<(Seq<char>, DateTime)>
    decreases ls.len(),
{
    if ls.len() == 0 {
        Seq::empty()
    } else {
        let rest = todos_of_lines(ls.skip(1));
        match spec_build(ls[0]) {
            Some(r) => seq![r] + rest,
            None => rest,
        }
    }
}

/// The records contributed by one file's text.
pub open spec fn file_todos(s: Seq<char>) -> Seq<(Seq<char>, DateTime)> {
    todos_of_lines(lines_of(s))
}

/// The records of a whole scan: every file's records, concatenated.
pub open spec fn todos_of_files(files: Seq<Seq<char>>) -> Seq<(Seq<char>, DateTime)>
    decreases files.len(),
{
    if files.len() == 0 {
        Seq::empty()
    } else {
        file_todos(files[0]) + todos_of_files(files.skip(1))
    }
}

/// Exec split of a file's text into its lines.
pub fn split_lines(s: &str) -> (r: Vec<String>)
    ensures
        string_views(r@) == lines_of(s@),
{
    if s.unicode_len() == 0 {
        let r: Vec<String> = Vec::new();
        proof {
            assert(string_views(r@) =~= lines_of(s@));
        }
        return r;
    }
    let mut segs = split_char_str(s, '\n');
    proof {
        lemma_split_char_len(s@, '\n');
        assert(segs@.len() == split_char(s@, '\n').len());
    }
    let ghost whole = split_char(s@, '\n');
    let last_line = segs.remove(segs.len() - 1);
    proof {
        assert(string_views(segs@) =~= whole.drop_last());
        assert(last_line@ == whole.last());
    }
    let terminated = last_line.as_str().unicode_len() == 0;
    let ghost kept = string_views(segs@);
    let mut out: Vec<String> = Vec::new();
    let mut k: usize = 0;
    while k < segs.len()
        invariant
            0 <= k <= segs.len(),
            out@.len() == k,
            kept == string_views(segs@),
            forall|j: int| 0 <= j < k ==> out@[j]@ == strip_cr(#[trigger] kept[j]),
        decreases segs.len() - k,
    {
        let line = &segs[k];
        let n = line.as_str().unicode_len();
        if n > 0 && line.as_str().get_char(n - 1) == '\r' {
            let stripped = line.as_str().substring_char(0, n - 1);
            out.push(stripped.to_owned());
        } else {
            out.push(line.clone());
        }
        k += 1;
    }
    proof {
        assert(string_views(out@) =~= kept.map_values(|l: Seq<char>| strip_cr(l)));
    }
    if !terminated {
        out.push(last_line);
        proof {
            assert(string_views(out@) =~= whole.drop_last().map_values(
                |l: Seq<char>| strip_cr(l),
            ).push(whole.last()));
        }
    }
    proof {
        assert(string_views(out@) =~= lines_of(s@));
    }
    out
}

/// Apply the record builder to every line of one file's text, keeping the
/// records of the lines that qualify, in line order.
pub fn iterate_over_file(file: &str) -> (r: Vec<Todo>)
    ensures
        todo_views(r@) == file_todos(file@),
{
    let lines = split_lines(file);
    let ghost lsv = string_views(lines@);
    let mut out: Vec<Todo> = Vec::new();
    proof {
        assert(lsv.skip(0) =~= lsv);
        assert(todo_views(out@) + todos_of_lines(lsv) =~= todos_of_lines(lsv));
    }
    let mut k: usize = 0;
    while k < lines.len()
        invariant
            0 <= k <= lines.len(),
            lsv == string_views(lines@),
            lsv == lines_of(file@),
            todo_views(out@) + todos_of_lines(lsv.skip(k as int)) == todos_of_lines(lsv),
        decreases lines.len() - k,
    {
        proof {
            assert(lsv.skip(k as int)[0] == lsv[k as int]);
            assert(lsv.skip(k as int).skip(1) =~= lsv.skip(k as int + 1));
        }
        let ghost prev = todo_views(out@);
        match Todo::build(string_at(&lines, k)) {
            Some(t) => {
                proof {
                    assert(spec_build(lsv[k as int]) == Some(t@));
                }
                let ghost tv = t@;
                out.push(t);
                proof {
                    assert(todo_views(out@) =~= prev + seq![tv]);
                }
            },
            None => {},
        }
        proof {
            assert(todos_of_lines(lsv.skip(k as int)) == (match spec_build(lsv[k as int]) {
                Some(r) => seq![r] + todos_of_lines(lsv.skip(k as int + 1)),
                None => todos_of_lines(lsv.skip(k as int + 1)),
            }));
            assert(todo_views(out@) + todos_of_lines(lsv.skip(k as int + 1)) =~= todos_of_lines(
                lsv,
            ));
        }
        k += 1;
    }
    proof {
        assert(lsv.skip(lines@.len() as int) =~= Seq::empty());
        assert(todo_views(out@) + todos_of_lines(lsv.skip(lines@.len() as int)) =~= todo_views(
            out@,
        ));
    }
    out
}

/// Reference to the string at index `k`.
fn string_at<'a>(v: &'a Vec<String>, k: usize) -> (r: &'a str)
    requires
        k < v@.len(),
    ensures
        r@ == v@[k as int]@,
{
    v[k].as_str()
}

/// Scan the contents of every file, in order, and concatenate the records:
/// the whole pipeline after the caller's reads.
pub fn generate_todos(files: &Vec<String>) -> (r: Vec<Todo>)
    ensures
        todo_views(r@) == todos_of_files(string_views(files@)),
{
    let ghost fsv = string_views(files@);
    let mut out: Vec<Todo> = Vec::new();
    proof {
        assert(fsv.skip(0) =~= fsv);
        assert(todo_views(out@) + todos_of_files(fsv) =~= todos_of_files(fsv));
    }
    let mut k: usize = 0;
    while k < files.len()
        invariant
            0 <= k <= files.len(),
            fsv == string_views(files@),
            todo_views(out@) + todos_of_files(fsv.skip(k as int)) == todos_of_files(fsv),
        decreases files.len() - k,
    {
        proof {
            assert(fsv.skip(k as int)[0] == fsv[k as int]);
            assert(fsv.skip(k as int).skip(1) =~= fsv.skip(k as int + 1));
        }
        let ghost prev = todo_views(out@);
        let mut part = iterate_over_file(string_at(files, k));
        let ghost part_views = todo_views(part@);
        out.append(&mut part);
        proof {
            assert(todo_views(out@) =~= prev + part_views);
            assert(todo_views(out@) + todos_of_files(fsv.skip(k as int + 1)) =~= todos_of_files(
                fsv,
            ));
        }
        k += 1;
    }
    proof {
        assert(fsv.skip(files@.len() as int) =~= Seq::empty());
        assert(todo_views(out@) + todos_of_files(fsv.skip(files@.len() as int)) =~= todo_views(
            out@,
        ));
    }
    out
}

/// Concatenation of partial record lists, in order.
pub open spec fn concat_todo_views(parts: Seq<Seq<(Seq<char>, DateTime)>>) -> Seq<
    (Seq<char>, DateTime),
>
    decreases parts.len(),
{
    if parts.len() == 0 {
        Seq::empty()
    } else {
        parts[0] + concat_todo_views(parts.skip(1))
    }
}

/// Flatten per-file record lists into one collection, in order: the fan-in
/// step of a caller that processed the files in parallel.
pub fn flatten_todos(parts: Vec<Vec<Todo>>) -> (r: Vec<Todo>)
    ensures
        todo_views(r@) == concat_todo_views(parts@.map_values(|p: Vec<Todo>| todo_views(p@))),
{
    let ghost psv = parts@.map_values(|p: Vec<Todo>| todo_views(p@));
    let mut out: Vec<Todo> = Vec::new();
    let mut rest = parts;
    proof {
        assert(rest@.map_values(|p: Vec<Todo>| todo_views(p@)) =~= psv);
        assert(todo_views(out@) + concat_todo_views(psv) =~= concat_todo_views(psv));
    }
    while rest.len() > 0
        invariant
            todo_views(out@) + concat_todo_views(rest@.map_values(|p: Vec<Todo>| todo_views(p@)))
                == concat_todo_views(psv),
        decreases rest@.len(),
    {
        let ghost prev = todo_views(out@);
        let ghost rsv = rest@.map_values(|p: Vec<Todo>| todo_views(p@));
        let mut part = rest.remove(0);
        let ghost part_views = todo_views(part@);
        proof {
            assert(part_views == rsv[0]);
            assert(rest@.map_values(|p: Vec<Todo>| todo_views(p@)) =~= rsv.skip(1));
        }
        out.append(&mut part);
        proof {
            assert(todo_views(out@) =~= prev + part_views);
            assert(todo_views(out@) + concat_todo_views(rsv.skip(1)) =~= prev + concat_todo_views(
                rsv,
            ));
        }
    }
    proof {
        assert(rest@.map_values(|p: Vec<Todo>| todo_views(p@)) =~= Seq::empty());
        assert(todo_views(out@) + concat_todo_views(Seq::empty()) =~= todo_views(out@));
    }
    out
}

/// Per-file fan-out and fan-in gives the same collection as the sequential
/// scan: flattening per-file results equals scanning the files in order.
pub proof fn lemma_flatten_matches_scan(parts: Seq<Seq<(Seq<char>, DateTime)>>, files: Seq<
    Seq<char>,
>)
    requires
        parts.len() == files.len(),
        forall|i: int| 0 <= i < files.len() ==> #[trigger] parts[i] == file_todos(files[i]),
    ensures
        concat_todo_views(parts) == todos_of_files(files),
    decreases files.len(),
{
    if files.len() > 0 {
        assert forall|i: int| 0 <= i < files.skip(1).len() implies #[trigger] parts.skip(1)[i]
            == file_todos(files.skip(1)[i]) by {
            assert(parts.skip(1)[i] == parts[i + 1]);
            assert(files.skip(1)[i] == files[i + 1]);
        }
        lemma_flatten_matches_scan(parts.skip(1), files.skip(1));
    }
}

/// Scanning the same contents twice yields the same records: the result is
/// a function of the contents alone, so two runs agree as sequences and
/// hence as multisets.
pub proof fn lemma_scan_deterministic(
    files: Seq<Seq<char>>,
    r1: Seq<(Seq<char>, DateTime)>,
    r2: Seq<(Seq<char>, DateTime)>,
)
    requires
        r1 == todos_of_files(files),
        r2 == todos_of_files(files),
    ensures
        r1 == r2,
        r1.to_multiset() == r2.to_multiset(),
{
}

/// A file or directory name that starts with a dot.
pub open spec fn is_hidden_name(n: Seq<char>) -> bool {
    n.len() > 0 && n[0] == '.'
}

/// The path rule of the file scanner: the name ends with the org extension
/// and no directory on the way to it (any component but the last of the
/// `/`-separated path) is hidden.
pub open spec fn spec_selects_path(p: Seq<char>) -> bool {
    ends_with(p, ".org"@) && forall|i: int|
        0 <= i < split_char(p, '/').len() - 1 ==> !is_hidden_name(#[trigger] split_char(p, '/')[i])
}

/// Whether a file name carries the org extension.
pub fn is_org_name(name: &str) -> (r: bool)
    ensures
        r == ends_with(name@, ".org"@),
{
    ends_with_str(name, ".org")
}

/// Decide whether the scanner takes the file at this (root-relative) path:
/// its name must end with the org extension and no directory component on
/// the way may start with a dot.
pub fn selects_path(path: &str) -> (r: bool)
    ensures
        r == spec_selects_path(path@),
{
    if !is_org_name(path) {
        return false;
    }
    let comps = split_char_str(path, '/');
    let ghost csv = split_char(path@, '/');
    proof {
        lemma_split_char_len(path@, '/');
        assert(csv == string_views(comps@));
    }
    let mut k: usize = 0;
    while k < comps.len() - 1
        invariant
            0 <= k <= comps@.len() - 1,
            comps@.len() >= 1,
            csv == string_views(comps@),
            csv == split_char(path@, '/'),
            forall|j: int| 0 <= j < k ==> !is_hidden_name(#[trigger] csv[j]),
        decreases comps@.len() - k,
    {
        let c = string_at(&comps, k);
        if c.unicode_len() > 0 && c.get_char(0) == '.' {
            proof {
                assert(is_hidden_name(csv[k as int]));
            }
            return false;
        }
        k += 1;
    }
    true
}

/// A path that passes through a hidden directory is never selected,
/// whatever its file name.
pub proof fn lemma_hidden_dir_excluded(p: Seq<char>, i: int)
    requires
        0 <= i < split_char(p, '/').len() - 1,
        is_hidden_name(split_char(p, '/')[i]),
    ensures
        !spec_selects_path(p),
{
}

} // verus!
