//! Paths as text, with `/` between their parts.

use crate::text::{
    chars_of, is_empty, is_part_at, opt_str, part_at, push_text, same, strs, text_of_range,
};
use vstd::prelude::*;
use vstd::string::*;

verus! {

/// A relative path below a directory.
pub open spec fn below(dir: Seq<char>, rel: Seq<char>) -> Seq<char> {
    if dir.len() == 0 || dir.last() == '/' {
        dir + rel
    } else {
        dir + "/"@ + rel
    }
}

/// A relative path below a directory.
pub fn join_path(dir: &str, rel: &str) -> (r: String)
    ensures
        r@ == below(dir@, rel@),
{
    let cs: Vec<char> = chars_of(dir);
    let n: usize = cs.len();
    let mut out: String = dir.to_owned();
    if n > 0 && cs[n - 1] != '/' {
        out.append("/");
    }
    out.append(rel);
    out
}

/// Where the part of a path that ends at `end` begins: after the last slash.
pub open spec fn part_start(s: Seq<char>, end: int) -> int
    decreases end,
{
    if end <= 0 || s[end - 1] == '/' {
        end
    } else {
        part_start(s, end - 1)
    }
}

/// The start of a part lies before its end.
pub proof fn lemma_part_start(s: Seq<char>, end: int)
    requires
        0 <= end <= s.len(),
    ensures
        0 <= part_start(s, end) <= end,
        part_start(s, end) > 0 ==> s[part_start(s, end) - 1] == '/',
    decreases end,
{
    if end > 0 && s[end - 1] != '/' {
        lemma_part_start(s, end - 1);
    }
}

/// The last part of the path that ends at `end`: empty parts and single dots do not
/// count, and one that leads upwards names nothing.
pub open spec fn last_part(s: Seq<char>, end: int) -> Option<Seq<char>>
    decreases end,
    when 0 <= end <= s.len()
{
    proof {
        lemma_part_start(s, end);
    }
    let start = part_start(s, end);
    let part = s.subrange(start, end);
    if part == ".."@ {
        None
    } else if part.len() > 0 && part != "."@ {
        Some(part)
    } else if start == 0 {
        None
    } else {
        last_part(s, start - 1)
    }
}

/// The name of the file that a path leads to.
pub open spec fn file_name(s: Seq<char>) -> Option<Seq<char>> {
    last_part(s, s.len() as int)
}

/// The name of the file that a path leads to.
pub fn file_name_of(path: &str) -> (r: Option<String>)
    ensures
        opt_str(r) == file_name(path@),
{
    let cs: Vec<char> = chars_of(path);
    let mut end: usize = cs.len();
    loop
        invariant
            end <= cs@.len(),
            last_part(cs@, end as int) == file_name(path@),
        decreases end,
    {
        proof {
            lemma_part_start(cs@, end as int);
        }
        let mut start: usize = end;
        while start > 0 && cs[start - 1] != '/'
            invariant
                start <= end <= cs@.len(),
                part_start(cs@, start as int) == part_start(cs@, end as int),
            decreases start,
        {
            start -= 1;
        }
        let part: String = text_of_range(&cs, start, end);
        if same(part.as_str(), "..") {
            return None;
        }
        if start < end && !same(part.as_str(), ".") {
            return Some(part);
        }
        if start == 0 {
            return None;
        }
        end = start - 1;
    }
}

/// The last part of the path of a program, by which it is called in messages; the
/// whole path where there is none.
pub open spec fn label(executable: Seq<char>) -> Seq<char> {
    match file_name(executable) {
        Some(s) => s,
        None => executable,
    }
}

/// What a program is called in messages.
pub fn cli_label(executable: &str) -> (r: String)
    ensures
        r@ == label(executable@),
{
    match file_name_of(executable) {
        Some(s) => s,
        None => executable.to_owned(),
    }
}

/// A directory that is named outright, or one below the home directory, where that
/// is known.
pub open spec fn own_dir(
    named: Option<Seq<char>>,
    home: Option<Seq<char>>,
    rel: Seq<char>,
) -> Seq<Seq<char>> {
    match (named, home) {
        (Some(d), _) => seq![d],
        (None, Some(h)) => seq![below(h, rel)],
        (None, None) => seq![],
    }
}

/// A directory that is named outright, or one below the home directory.
pub fn resolve_own_dir(named: Option<String>, home: Option<String>, rel: &str) -> (r: Vec<String>)
    ensures
        strs(r@) == own_dir(opt_str(named), opt_str(home), rel@),
{
    let mut out: Vec<String> = Vec::new();
    assert(strs(out@) =~= seq![]);
    if let Some(d) = named {
        push_text(&mut out, d);
    } else if let Some(h) = home {
        push_text(&mut out, join_path(h.as_str(), rel));
    }
    assert(strs(out@) =~= own_dir(opt_str(named), opt_str(home), rel@));
    out
}

/// The parts of the path that ends at `end`. Empty parts and single dots do not count,
/// but for a dot at the very beginning.
pub open spec fn parts_before(s: Seq<char>, end: int) -> Seq<Seq<char>>
    decreases end,
    when 0 <= end <= s.len()
{
    proof {
        lemma_part_start(s, end);
    }
    let start = part_start(s, end);
    let part = s.subrange(start, end);
    let front = if start == 0 {
        seq![]
    } else {
        parts_before(s, start - 1)
    };
    if part.len() == 0 || (start > 0 && part == "."@) {
        front
    } else {
        front.push(part)
    }
}

/// Whether two paths are the same: both begin at the root or neither does, and their
/// parts are the same.
pub open spec fn is_same_path(a: Seq<char>, b: Seq<char>) -> bool {
    &&& part_at(a, "/"@, 0) == part_at(b, "/"@, 0)
    &&& parts_before(a, a.len() as int) == parts_before(b, b.len() as int)
}

/// The parts of the path that ends at `end`.
fn split_path(cs: &Vec<char>, end: usize) -> (r: Vec<String>)
    requires
        end <= cs@.len(),
    ensures
        strs(r@) == parts_before(cs@, end as int),
    decreases end,
{
    let mut start: usize = end;
    proof {
        lemma_part_start(cs@, end as int);
    }
    while start > 0 && cs[start - 1] != '/'
        invariant
            start <= end <= cs@.len(),
            part_start(cs@, start as int) == part_start(cs@, end as int),
        decreases start,
    {
        start -= 1;
    }
    let mut out: Vec<String> = if start == 0 {
        Vec::new()
    } else {
        split_path(cs, start - 1)
    };
    assert(start == 0 ==> strs(out@) =~= seq![]);
    let part: String = text_of_range(cs, start, end);
    if !is_empty(part.as_str()) && !(start > 0 && same(part.as_str(), ".")) {
        push_text(&mut out, part);
    }
    out
}

/// Whether two lists of texts are the same.
fn same_texts(a: &Vec<String>, b: &Vec<String>) -> (r: bool)
    ensures
        r == (strs(a@) == strs(b@)),
{
    let ghost x = strs(a@);
    let ghost y = strs(b@);
    if a.len() != b.len() {
        assert(x.len() != y.len());
        return false;
    }
    let mut i: usize = 0;
    while i < a.len()
        invariant
            i <= a@.len() == b@.len(),
            x == strs(a@),
            y == strs(b@),
            forall|j: int| 0 <= j < i ==> #[trigger] x[j] == y[j],
        decreases a@.len() - i,
    {
        if !same(a[i].as_str(), b[i].as_str()) {
            assert(x[i as int] != y[i as int]);
            return false;
        }
        i += 1;
    }
    assert(x =~= y);
    true
}

/// Whether two paths are the same.
pub fn same_path(a: &str, b: &str) -> (r: bool)
    ensures
        r == is_same_path(a@, b@),
{
    let ca: Vec<char> = chars_of(a);
    let cb: Vec<char> = chars_of(b);
    let root: Vec<char> = chars_of("/");
    is_part_at(&ca, &root, 0) == is_part_at(&cb, &root, 0) && same_texts(
        &split_path(&ca, ca.len()),
        &split_path(&cb, cb.len()),
    )
}

} // verus!
