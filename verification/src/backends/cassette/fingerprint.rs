//! The fingerprint of a request: a hash of its text, in which the paths that vary
//! from run to run have been replaced.

use std::collections::hash_map::DefaultHasher;
use std::hash::{Hash, Hasher};

use crate::text::{chars_of, digit, digit_char, is_part_at, is_space, part_at, space, text_of_range};
use vstd::prelude::*;
use vstd::std_specs::hash::*;
use vstd::string::*;

verus! {

/// What every working copy of a fixer has in its path.
pub const NEEDLE: &'static str = "worktrees/fix-";

/// What stands for the path of a working copy.
pub const REPLACEMENT: &'static str = "NORMROOT/worktrees/fix-NORM";

/// Whether a character beyond ASCII is a letter or a number.
pub uninterp spec fn alphanumeric_beyond_ascii(c: char) -> bool;

/// `char::is_alphanumeric` on a character beyond ASCII: a function of the
/// character, by Unicode's tables.
#[verifier::external_body]
fn is_alphanumeric_beyond_ascii(c: char) -> (r: bool)
    ensures
        r == alphanumeric_beyond_ascii(c),
{
    c.is_alphanumeric()
}

/// Whether a character can be part of the id of a working copy: a letter, a
/// number, a hyphen or an underscore.
pub open spec fn is_id_char(c: char) -> bool {
    if (c as u32) < 0x80 {
        ||| '0' <= c && c <= '9'
        ||| 'A' <= c && c <= 'Z'
        ||| 'a' <= c && c <= 'z'
        ||| c == '-'
        ||| c == '_'
    } else {
        alphanumeric_beyond_ascii(c)
    }
}

/// Whether a character ends a path towards its front: a delimiter of a JSON
/// string, or white space.
pub open spec fn ends_path(c: char) -> bool {
    c == '"' || c == '\\' || is_space(c)
}

/// The first place at or after `from` where the needle stands.
pub open spec fn next_part(s: Seq<char>, needle: Seq<char>, from: int) -> Option<int>
    decreases s.len() + 1 - from,
{
    if from < 0 || from + needle.len() > s.len() {
        None
    } else if part_at(s, needle, from) {
        Some(from)
    } else {
        next_part(s, needle, from + 1)
    }
}

/// Where the path that goes on at `at` begins, not before `from`.
pub open spec fn path_start(s: Seq<char>, from: int, at: int) -> int
    decreases at - from,
{
    if at <= from || ends_path(s[at - 1]) {
        at
    } else {
        path_start(s, from, at - 1)
    }
}

/// Where the id that begins at `at` ends.
pub open spec fn id_end(s: Seq<char>, at: int) -> int
    decreases s.len() - at,
{
    if at < 0 || at >= s.len() || !is_id_char(s[at]) {
        at
    } else {
        id_end(s, at + 1)
    }
}

/// The rest of a text from `from` on, with the path of each working copy replaced
/// as a whole.
pub open spec fn normalized_from(s: Seq<char>, from: int) -> Seq<char>
    decreases s.len() - from,
    when 0 <= from <= s.len()
{
    proof {
        lemma_next_part(s, NEEDLE@, from);
        lemma_needle_len();
        if let Some(k) = next_part(s, NEEDLE@, from) {
            lemma_id_end(s, k + NEEDLE@.len());
        }
    }
    match next_part(s, NEEDLE@, from) {
        None => s.skip(from),
        Some(k) => s.subrange(from, path_start(s, from, k)) + REPLACEMENT@ + normalized_from(
            s,
            id_end(s, k + NEEDLE@.len()),
        ),
    }
}

/// A text with the path of each working copy replaced as a whole.
pub open spec fn normalized(s: Seq<char>) -> Seq<char> {
    normalized_from(s, 0)
}

/// The length of the needle.
pub proof fn lemma_needle_len()
    ensures
        NEEDLE@.len() == 14,
{
    reveal_strlit("worktrees/fix-");
}

/// The place that is found holds the needle, and none before it does.
pub proof fn lemma_next_part(s: Seq<char>, needle: Seq<char>, from: int)
    ensures
        match next_part(s, needle, from) {
            Some(k) => from <= k && part_at(s, needle, k) && (forall|j: int|
                from <= j < k ==> !part_at(s, needle, j)),
            None => forall|j: int| from >= 0 && from <= j ==> !part_at(s, needle, j),
        },
    decreases s.len() + 1 - from,
{
    if from >= 0 && from + needle.len() <= s.len() && !part_at(s, needle, from) {
        lemma_next_part(s, needle, from + 1);
    }
}

/// The end of an id lies within the text, not before its start.
pub proof fn lemma_id_end(s: Seq<char>, at: int)
    requires
        0 <= at <= s.len(),
    ensures
        at <= id_end(s, at) <= s.len(),
    decreases s.len() - at,
{
    if at < s.len() && is_id_char(s[at]) {
        lemma_id_end(s, at + 1);
    }
}

/// The start of a path lies between the bounds.
pub proof fn lemma_path_start(s: Seq<char>, from: int, at: int)
    requires
        from <= at,
    ensures
        from <= path_start(s, from, at) <= at,
    decreases at - from,
{
    if at > from && !ends_path(s[at - 1]) {
        lemma_path_start(s, from, at - 1);
    }
}

/// Finds the needle at or after `from`.
fn find_part(s: &Vec<char>, needle: &Vec<char>, from: usize) -> (r: Option<usize>)
    requires
        from <= s@.len(),
    ensures
        match r {
            Some(k) => next_part(s@, needle@, from as int) == Some(k as int),
            None => next_part(s@, needle@, from as int) is None,
        },
{
    let n: usize = s.len();
    let m: usize = needle.len();
    let mut i: usize = from;
    while i <= n && m <= n - i
        invariant
            from <= i,
            n == s@.len(),
            m == needle@.len(),
            i <= n + 1,
            next_part(s@, needle@, from as int) == next_part(s@, needle@, i as int),
        decreases n + 1 - i,
    {
        if is_part_at(s, needle, i) {
            return Some(i);
        }
        if i == n {
            assert(next_part(s@, needle@, i + 1) is None);
            return None;
        }
        i += 1;
    }
    None
}

/// Whether a character can be part of the id of a working copy.
fn id_char(c: char) -> (r: bool)
    ensures
        r == is_id_char(c),
{
    if (c as u32) < 0x80 {
        ('0' <= c && c <= '9') || ('A' <= c && c <= 'Z') || ('a' <= c && c <= 'z') || c == '-' || c
            == '_'
    } else {
        is_alphanumeric_beyond_ascii(c)
    }
}

/// Replaces the path of each working copy as a whole, so that a text does not
/// depend on where the copy lies and what it is called.
pub fn normalize_volatile(canon: &str) -> (r: String)
    ensures
        r@ == normalized(canon@),
{
    proof {
        lemma_needle_len();
    }
    let cs: Vec<char> = chars_of(canon);
    let needle: Vec<char> = chars_of(NEEDLE);
    let n: usize = cs.len();
    let mut out: String = String::new();
    let mut cursor: usize = 0;
    assert(out@ + normalized_from(cs@, 0) =~= normalized(cs@));
    loop
        invariant
            cursor <= n == cs@.len(),
            needle@ == NEEDLE@,
            NEEDLE@.len() == 14,
            out@ + normalized_from(cs@, cursor as int) == normalized(cs@),
        ensures
            out@ + cs@.skip(cursor as int) == normalized(cs@),
        decreases n - cursor,
    {
        let at: usize = match find_part(&cs, &needle, cursor) {
            Some(at) => at,
            None => {
                break;
            },
        };
        proof {
            lemma_next_part(cs@, NEEDLE@, cursor as int);
            lemma_path_start(cs@, cursor as int, at as int);
            lemma_id_end(cs@, at + 14);
        }
        let mut start: usize = at;
        while start > cursor && cs[start - 1] != '"' && cs[start - 1] != '\\' && !space(
            cs[start - 1],
        )
            invariant
                cursor <= start <= at <= n == cs@.len(),
                path_start(cs@, cursor as int, start as int) == path_start(
                    cs@,
                    cursor as int,
                    at as int,
                ),
            decreases start,
        {
            start -= 1;
        }
        assert(start == path_start(cs@, cursor as int, at as int));
        let mut end: usize = at + needle.len();
        while end < n && id_char(cs[end])
            invariant
                at + 14 <= end <= n == cs@.len(),
                id_end(cs@, end as int) == id_end(cs@, at + 14),
            decreases n - end,
        {
            end += 1;
        }
        assert(end == id_end(cs@, at + 14));
        let ghost before = out@;
        out.append(text_of_range(&cs, cursor, start).as_str());
        out.append(REPLACEMENT);
        assert(out@ + normalized_from(cs@, end as int) =~= before + (cs@.subrange(
            cursor as int,
            start as int,
        ) + REPLACEMENT@ + normalized_from(cs@, end as int)));
        cursor = end;
    }
    out.append(text_of_range(&cs, cursor, n).as_str());
    assert(cs@.subrange(cursor as int, n as int) =~= cs@.skip(cursor as int));
    out
}

/// A text in which no path of a working copy occurs is left as it is.
pub proof fn law_other_texts_unchanged(s: Seq<char>)
    requires
        forall|j: int| 0 <= j ==> !part_at(s, NEEDLE@, j),
    ensures
        normalized(s) == s,
{
    lemma_next_part(s, NEEDLE@, 0);
    assert(s.skip(0) =~= s);
}

/// Where a text goes on after a front, the needle is found as in the rest alone.
proof fn lemma_next_part_shift(s: Seq<char>, off: int, from: int)
    requires
        0 <= off <= s.len(),
        0 <= from <= s.len() - off,
    ensures
        next_part(s, NEEDLE@, off + from) == (match next_part(s.skip(off), NEEDLE@, from) {
            Some(k) => Some(off + k),
            None => None,
        }),
    decreases s.len() - off - from,
{
    lemma_needle_len();
    let rest = s.skip(off);
    if from + NEEDLE@.len() <= rest.len() {
        assert(s.subrange(off + from, off + from + NEEDLE@.len()) =~= rest.subrange(
            from,
            from + NEEDLE@.len(),
        ));
        if !part_at(rest, NEEDLE@, from) {
            lemma_next_part_shift(s, off, from + 1);
        }
    }
}

proof fn lemma_path_start_shift(s: Seq<char>, off: int, from: int, at: int)
    requires
        0 <= off,
        0 <= from <= at <= s.len() - off,
    ensures
        path_start(s, off + from, off + at) == off + path_start(s.skip(off), from, at),
    decreases at - from,
{
    if at > from {
        assert(s.skip(off)[at - 1] == s[off + at - 1]);
        lemma_path_start_shift(s, off, from, at - 1);
    }
}

proof fn lemma_id_end_shift(s: Seq<char>, off: int, at: int)
    requires
        0 <= off,
        0 <= at <= s.len() - off,
    ensures
        id_end(s, off + at) == off + id_end(s.skip(off), at),
    decreases s.len() - off - at,
{
    if at < s.len() - off {
        assert(s.skip(off)[at] == s[off + at]);
        lemma_id_end_shift(s, off, at + 1);
    }
}

/// What is replaced in the rest of a text depends on the rest alone.
pub proof fn lemma_normalized_shift(s: Seq<char>, off: int, from: int)
    requires
        0 <= off,
        0 <= from <= s.len() - off,
    ensures
        normalized_from(s, off + from) == normalized_from(s.skip(off), from),
    decreases s.len() - off - from,
{
    let rest = s.skip(off);
    lemma_needle_len();
    lemma_next_part_shift(s, off, from);
    lemma_next_part(rest, NEEDLE@, from);
    match next_part(rest, NEEDLE@, from) {
        None => {
            assert(s.skip(off + from) =~= rest.skip(from));
        },
        Some(k) => {
            lemma_path_start(rest, from, k);
            lemma_path_start_shift(s, off, from, k);
            lemma_id_end_shift(s, off, k + 14);
            lemma_id_end(rest, k + 14);
            lemma_normalized_shift(s, off, id_end(rest, k + 14));
            assert(s.subrange(off + from, off + path_start(rest, from, k)) =~= rest.subrange(
                from,
                path_start(rest, from, k),
            ));
        },
    }
}

/// Where a text has the path of a working copy: the front, the directory in which
/// the copies lie, the id and what follows.
pub open spec fn with_path(
    front: Seq<char>,
    root: Seq<char>,
    id: Seq<char>,
    rest: Seq<char>,
) -> Seq<char> {
    front + root + NEEDLE@ + id + rest
}

/// Whether the parts of such a text are what they stand for: the front ends where
/// the path begins, root and id are within the path, what follows is not, and no
/// other path comes before.
pub open spec fn is_first_path(
    front: Seq<char>,
    root: Seq<char>,
    id: Seq<char>,
    rest: Seq<char>,
) -> bool {
    &&& front.len() > 0 ==> ends_path(front.last())
    &&& forall|i: int| 0 <= i < root.len() ==> !ends_path(#[trigger] root[i])
    &&& forall|i: int| 0 <= i < id.len() ==> is_id_char(#[trigger] id[i])
    &&& rest.len() > 0 ==> !is_id_char(rest[0])
    &&& forall|j: int|
        0 <= j < front.len() + root.len() ==> !part_at(with_path(front, root, id, rest), NEEDLE@, j)
}

proof fn lemma_path_start_at(s: Seq<char>, p: int, at: int)
    requires
        0 <= p <= at <= s.len(),
        p > 0 ==> ends_path(s[p - 1]),
        forall|i: int| p <= i < at ==> !ends_path(#[trigger] s[i]),
    ensures
        path_start(s, 0, at) == p,
    decreases at,
{
    if at > p {
        assert(!ends_path(s[at - 1]));
        lemma_path_start_at(s, p, at - 1);
    }
}

proof fn lemma_id_end_at(s: Seq<char>, at: int, end: int)
    requires
        0 <= at <= end <= s.len(),
        end < s.len() ==> !is_id_char(s[end]),
        forall|i: int| at <= i < end ==> is_id_char(#[trigger] s[i]),
    ensures
        id_end(s, at) == end,
    decreases end - at,
{
    if at < end {
        assert(is_id_char(s[at]));
        lemma_id_end_at(s, at + 1, end);
    }
}

proof fn lemma_next_part_at(s: Seq<char>, from: int, at: int)
    requires
        0 <= from <= at,
        part_at(s, NEEDLE@, at),
        forall|j: int| from <= j < at ==> !part_at(s, NEEDLE@, j),
    ensures
        next_part(s, NEEDLE@, from) == Some(at),
    decreases at - from,
{
    if from < at {
        lemma_next_part_at(s, from + 1, at);
    }
}

/// The text of a request depends neither on where a working copy lies nor on its
/// id: whatever they are, the path is replaced by the same text.
pub proof fn law_paths_are_portable(
    front: Seq<char>,
    root: Seq<char>,
    id: Seq<char>,
    rest: Seq<char>,
)
    requires
        is_first_path(front, root, id, rest),
    ensures
        normalized(with_path(front, root, id, rest)) == front + REPLACEMENT@ + normalized(rest),
{
    lemma_needle_len();
    let s = with_path(front, root, id, rest);
    let at: int = (front.len() + root.len()) as int;
    let end: int = at + 14 + id.len();
    assert(s.subrange(at, at + 14) =~= NEEDLE@);
    lemma_next_part_at(s, 0, at);
    assert forall|i: int| front.len() <= i < at implies !ends_path(#[trigger] s[i]) by {
        assert(s[i] == root[i - front.len()]);
    }
    lemma_path_start_at(s, front.len() as int, at);
    assert forall|i: int| at + 14 <= i < end implies is_id_char(#[trigger] s[i]) by {
        assert(s[i] == id[i - at - 14]);
    }
    lemma_id_end_at(s, at + 14, end);
    lemma_normalized_shift(s, end, 0);
    assert(s.skip(end) =~= rest);
    assert(s.subrange(0, front.len() as int) =~= front);
}

/// Where a path has been replaced: the directory that stands for all of them.
spec fn norm_root() -> Seq<char> {
    "NORMROOT/"@
}

/// The id that stands for all of them.
spec fn norm_id() -> Seq<char> {
    "NORM"@
}

proof fn lemma_replacement()
    ensures
        REPLACEMENT@ == norm_root() + NEEDLE@ + norm_id(),
        norm_root().len() == 9,
        norm_id().len() == 4,
        norm_root()[8] == '/',
        forall|i: int| 0 <= i < 9 ==> !ends_path(#[trigger] norm_root()[i]),
        forall|i: int| 0 <= i < 8 ==> is_id_char(#[trigger] norm_root()[i]),
        forall|i: int| 0 <= i < 4 ==> is_id_char(#[trigger] norm_id()[i]),
{
    reveal_strlit("worktrees/fix-");
    reveal_strlit("NORMROOT/worktrees/fix-NORM");
    reveal_strlit("NORMROOT/");
    reveal_strlit("NORM");
    assert(REPLACEMENT@ =~= norm_root() + NEEDLE@ + norm_id());
}

/// A front without the needle and a root that holds nothing of it: no needle begins
/// before the one behind them.
proof fn lemma_no_needle_before(front: Seq<char>, root: Seq<char>, tail: Seq<char>)
    requires
        forall|j: int| 0 <= j ==> !part_at(front, NEEDLE@, j),
        root == norm_root() || root == seq!['/'],
        root == seq!['/'] ==> front.len() == 0,
    ensures
        forall|j: int|
            0 <= j < front.len() + root.len() ==> !part_at(
                front + root + NEEDLE@ + tail,
                NEEDLE@,
                j,
            ),
{
    reveal_strlit("worktrees/fix-");
    reveal_strlit("NORMROOT/");
    let s = front + root + NEEDLE@ + tail;
    assert forall|j: int| 0 <= j < front.len() + root.len() implies !part_at(s, NEEDLE@, j) by {
        if part_at(s, NEEDLE@, j) {
            let part = s.subrange(j, j + 14);
            assert(part == NEEDLE@);
            if j >= front.len() {
                assert(part[0] == root[j - front.len()]);
            } else if j + 14 <= front.len() {
                assert(front.subrange(j, j + 14) =~= part);
                assert(part_at(front, NEEDLE@, j));
            } else {
                assert(part[front.len() - j] == root[0]);
            }
        }
    }
}

/// The front of a text, up to its first path, holds no needle, and ends where a path
/// begins.
proof fn lemma_first_front(s: Seq<char>, k: int)
    requires
        next_part(s, NEEDLE@, 0) == Some(k),
    ensures
        ({
            let p = path_start(s, 0, k);
            &&& 0 <= p <= k <= s.len() - 14
            &&& p > 0 ==> ends_path(s[p - 1])
            &&& forall|j: int| 0 <= j ==> !part_at(s.take(p), NEEDLE@, j)
        }),
{
    lemma_needle_len();
    lemma_next_part(s, NEEDLE@, 0);
    lemma_path_start(s, 0, k);
    lemma_path_front(s, k);
    let p = path_start(s, 0, k);
    let front = s.take(p);
    assert forall|j: int| 0 <= j implies !part_at(front, NEEDLE@, j) by {
        if part_at(front, NEEDLE@, j) {
            assert(front.subrange(j, j + 14) =~= s.subrange(j, j + 14));
            assert(part_at(s, NEEDLE@, j));
        }
    }
}

proof fn lemma_path_front(s: Seq<char>, at: int)
    requires
        0 <= at,
    ensures
        path_start(s, 0, at) > 0 ==> ends_path(s[path_start(s, 0, at) - 1]),
    decreases at,
{
    if at > 0 && !ends_path(s[at - 1]) {
        lemma_path_front(s, at - 1);
    }
}

proof fn lemma_id_stops(s: Seq<char>, at: int)
    requires
        0 <= at <= s.len(),
    ensures
        at <= id_end(s, at) <= s.len(),
        id_end(s, at) < s.len() ==> !is_id_char(s[id_end(s, at)]),
    decreases s.len() - at,
{
    if at < s.len() && is_id_char(s[at]) {
        lemma_id_stops(s, at + 1);
    }
}

/// What is made of a text with a path: the front, the replacement, and what is made of
/// the rest, which goes on with no character of the id.
proof fn lemma_taken_apart(s: Seq<char>, k: int)
    requires
        next_part(s, NEEDLE@, 0) == Some(k),
    ensures
        ({
            let end = id_end(s, k + 14);
            let rest = s.skip(end);
            &&& 14 <= end <= s.len()
            &&& rest.len() > 0 ==> !is_id_char(rest[0])
            &&& normalized(s) == s.take(path_start(s, 0, k)) + REPLACEMENT@ + normalized(rest)
        }),
{
    lemma_first_front(s, k);
    lemma_needle_len();
    let end = id_end(s, k + 14);
    lemma_id_stops(s, k + 14);
    lemma_normalized_shift(s, end, 0);
    assert(s.subrange(0, path_start(s, 0, k)) =~= s.take(path_start(s, 0, k)));
}

/// Replacing the path that stands for all of them, with what is made of a text behind
/// it.
proof fn lemma_replaced_again(front: Seq<char>, root: Seq<char>, u: Seq<char>)
    requires
        front.len() > 0 ==> ends_path(front.last()),
        forall|j: int| 0 <= j ==> !part_at(front, NEEDLE@, j),
        root == norm_root() || root == seq!['/'],
        root == seq!['/'] ==> front.len() == 0,
        u.len() > 0 ==> !is_id_char(u[0]),
    ensures
        normalized(front + root + NEEDLE@ + norm_id() + normalized(u)) == front + REPLACEMENT@
            + normalized(u),
    decreases u.len(), 1int,
{
    lemma_replacement();
    lemma_needle_len();
    let n = normalized(u);
    lemma_next_part(u, NEEDLE@, 0);
    let first = next_part(u, NEEDLE@, 0);
    if first is Some && path_start(u, 0, first->0) == 0 {
        let k = first->0;
        lemma_taken_apart(u, k);
        let u2 = u.skip(id_end(u, k + 14));
        let n2 = normalized(u2);
        assert(n =~= REPLACEMENT@ + n2);
        let id = norm_id() + norm_root().take(8);
        let tail = seq!['/'] + NEEDLE@ + norm_id() + n2;
        let s = front + root + NEEDLE@ + norm_id() + n;
        assert(norm_root() =~= norm_root().take(8) + seq!['/']);
        assert(s =~= with_path(front, root, id, tail));
        lemma_no_needle_before(front, root, id + tail);
        assert(with_path(front, root, id, tail) =~= front + root + NEEDLE@ + (id + tail));
        law_paths_are_portable(front, root, id, tail);
        lemma_replaced_again(seq![], seq!['/'], u2);
        assert(seq![] + seq!['/'] + NEEDLE@ + norm_id() + n2 =~= tail);
        assert(seq![] + REPLACEMENT@ + n2 =~= n);
    } else {
        law_second_pass_changes_nothing(u);
        if first is None {
            assert(u.skip(0) =~= u);
            assert(n == u);
        } else {
            lemma_taken_apart(u, first->0);
            lemma_first_front(u, first->0);
            assert(n[0] == u.take(path_start(u, 0, first->0))[0]);
            assert(n[0] == u[0]);
        }
        let s = front + root + NEEDLE@ + norm_id() + n;
        assert(s =~= with_path(front, root, norm_id(), n));
        lemma_no_needle_before(front, root, norm_id() + n);
        assert(s =~= front + root + NEEDLE@ + (norm_id() + n));
        law_paths_are_portable(front, root, norm_id(), n);
    }
}

/// A text in which the paths have been replaced stays as it is when they are replaced
/// again.
pub proof fn law_second_pass_changes_nothing(s: Seq<char>)
    ensures
        normalized(normalized(s)) == normalized(s),
    decreases s.len(), 0int,
{
    lemma_needle_len();
    lemma_next_part(s, NEEDLE@, 0);
    match next_part(s, NEEDLE@, 0) {
        None => {
            assert(s.skip(0) =~= s);
        },
        Some(k) => {
            lemma_first_front(s, k);
            lemma_taken_apart(s, k);
            lemma_replacement();
            let front = s.take(path_start(s, 0, k));
            let rest = s.skip(id_end(s, k + 14));
            lemma_replaced_again(front, norm_root(), rest);
            assert(front + norm_root() + NEEDLE@ + norm_id() + normalized(rest) =~= front
                + REPLACEMENT@ + normalized(rest));
        },
    }
}

/// A number in base sixteen with a fixed number of digits.
pub open spec fn hex_fixed(n: nat, width: nat) -> Seq<char>
    decreases width,
{
    if width == 0 {
        seq![]
    } else {
        hex_fixed(n / 16, (width - 1) as nat).push(digit(n % 16))
    }
}

/// A `u64` in base sixteen, in the lowest `width` digits.
fn hex_of(n: u64, width: usize) -> (r: String)
    ensures
        r@ == hex_fixed(n as nat, width as nat),
    decreases width,
{
    if width == 0 {
        String::new()
    } else {
        let mut s: String = hex_of(n / 16, width - 1);
        s.push(digit_char((n % 16) as u8));
        s
    }
}

/// What a string hands to a hasher.
pub uninterp spec fn text_writes(s: Seq<char>) -> Seq<Seq<u8>>;

/// `Hash::hash` of a `str`: it hands a `DefaultHasher` what depends on the string
/// alone.
#[verifier::external_body]
fn feed_text(h: &mut DefaultHasher, s: &str)
    ensures
        final(h)@ == old(h)@ + text_writes(s@),
{
    s.hash(h);
}

/// The fingerprint of a text: the hash that a fresh `DefaultHasher` gives for it, in
/// sixteen digits.
pub open spec fn fingerprint(canon: Seq<char>) -> Seq<char> {
    hex_fixed(DefaultHasher::spec_finish(text_writes(canon)) as nat, 16)
}

/// The fingerprint of a text.
pub fn fingerprint_of(canon: &str) -> (r: String)
    ensures
        r@ == fingerprint(canon@),
{
    let mut h: DefaultHasher = DefaultHasher::new();
    feed_text(&mut h, canon);
    assert(h@ =~= text_writes(canon@));
    hex_of(h.finish(), 16)
}

} // verus!
