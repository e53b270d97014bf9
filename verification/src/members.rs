//! JSON texts taken apart: the members of an object and the items of a list, in the
//! order in which they are written. Unlike a value, a text may hold a member twice.

use crate::json::{parse_lenient, parse_or_null, Json, JsonView};
use crate::text::{
    byte_count, byte_len, chars_of, decimal, decimal_of, digit_char, push_text, same, strs,
    text_of_range,
};
use vstd::prelude::*;
use vstd::string::*;

verus! {

/// Whether a character separates the parts of a JSON text.
pub open spec fn is_blank(c: char) -> bool {
    c == ' ' || c == '\n' || c == '\t' || c == '\r'
}

/// The first position from `i` on that holds no blank.
pub open spec fn past_blank(t: Seq<char>, i: int) -> int
    decreases t.len() - i,
{
    if 0 <= i < t.len() && is_blank(t[i]) {
        past_blank(t, i + 1)
    } else {
        i
    }
}

/// The position behind the last character between `from` and `to` that is no blank.
pub open spec fn before_blank(t: Seq<char>, from: int, to: int) -> int
    decreases to - from,
{
    if 0 <= from < to <= t.len() && is_blank(t[to - 1]) {
        before_blank(t, from, to - 1)
    } else {
        to
    }
}

/// The position behind the quote that ends a string, from a position inside it.
/// `escaped` says whether a backslash stands before that position.
pub open spec fn past_text(t: Seq<char>, i: int, escaped: bool) -> int
    decreases t.len() - i,
{
    if !(0 <= i < t.len()) {
        i
    } else if escaped {
        past_text(t, i + 1, false)
    } else if t[i] == '"' {
        i + 1
    } else {
        past_text(t, i + 1, t[i] == '\\')
    }
}

/// Where a position of a JSON text lies.
#[derive(Debug, Clone, Copy, PartialEq, Eq, Structural)]
pub enum Mode {
    /// Outside of strings.
    Plain,
    /// In a string.
    Quoted,
    /// In a string, behind a backslash.
    Escaped,
}

/// Where the position behind a character lies.
pub open spec fn mode_after(mode: Mode, c: char) -> Mode {
    match mode {
        Mode::Plain => if c == '"' {
            Mode::Quoted
        } else {
            Mode::Plain
        },
        Mode::Quoted => if c == '"' {
            Mode::Plain
        } else if c == '\\' {
            Mode::Escaped
        } else {
            Mode::Quoted
        },
        Mode::Escaped => Mode::Quoted,
    }
}

/// How many brackets are open behind a character.
pub open spec fn depth_after(depth: nat, mode: Mode, c: char) -> nat {
    if mode != Mode::Plain {
        depth
    } else if c == '{' || c == '[' {
        depth + 1
    } else if (c == '}' || c == ']') && depth > 0 {
        (depth - 1) as nat
    } else {
        depth
    }
}

/// Whether a character ends a value in whose front `depth` brackets are open.
pub open spec fn ends_value(depth: nat, mode: Mode, c: char) -> bool {
    mode == Mode::Plain && depth == 0 && (c == ',' || c == '}' || c == ']')
}

/// The position that ends the value to which position `i` belongs: that of the comma or
/// the bracket behind it.
pub open spec fn value_end(t: Seq<char>, i: int, depth: nat, mode: Mode) -> int
    decreases t.len() - i,
{
    if !(0 <= i < t.len()) || ends_value(depth, mode, t[i]) {
        i
    } else {
        value_end(t, i + 1, depth_after(depth, mode, t[i]), mode_after(mode, t[i]))
    }
}

/// A member of an object: its key, the position of the colon, that of the value, and
/// the text of the value.
pub struct MemberView {
    pub key: Seq<char>,
    pub colon: int,
    pub from: int,
    pub text: Seq<char>,
}

impl MemberView {
    /// The value.
    pub open spec fn value(self) -> JsonView {
        parse_or_null(self.text)
    }
}

/// The text that a string stands for.
pub open spec fn key_of(literal: Seq<char>) -> Seq<char> {
    match parse_or_null(literal) {
        JsonView::Str(s) => s,
        _ => ""@,
    }
}

/// Skipping blanks leads on, and not past the end.
pub proof fn lemma_past_blank(t: Seq<char>, i: int)
    ensures
        past_blank(t, i) >= i,
        i <= t.len() ==> past_blank(t, i) <= t.len(),
    decreases t.len() - i,
{
    if 0 <= i < t.len() && is_blank(t[i]) {
        lemma_past_blank(t, i + 1);
    }
}

/// Skipping a string leads on, and not past the end.
pub proof fn lemma_past_text(t: Seq<char>, i: int, escaped: bool)
    ensures
        past_text(t, i, escaped) >= i,
        i <= t.len() ==> past_text(t, i, escaped) <= t.len(),
    decreases t.len() - i,
{
    if 0 <= i < t.len() && (escaped || t[i] != '"') {
        lemma_past_text(t, i + 1, !escaped && t[i] == '\\');
    }
}

/// Skipping a value leads on, and not past the end.
pub proof fn lemma_value_end(t: Seq<char>, i: int, depth: nat, mode: Mode)
    ensures
        value_end(t, i, depth, mode) >= i,
        i <= t.len() ==> value_end(t, i, depth, mode) <= t.len(),
    decreases t.len() - i,
{
    if 0 <= i < t.len() && !ends_value(depth, mode, t[i]) {
        lemma_value_end(t, i + 1, depth_after(depth, mode, t[i]), mode_after(mode, t[i]));
    }
}

/// The members of an object from position `i` on, which lies in front of one of them or
/// of the bracket that ends it.
pub open spec fn members_from(t: Seq<char>, i: int) -> Seq<MemberView>
    decreases t.len() - i,
{
    let start = past_blank(t, i);
    let key_end = past_text(t, start + 1, false);
    let colon = past_blank(t, key_end);
    if !(0 <= i && start < t.len() && t[start] == '"' && colon < t.len()) {
        seq![]
    } else {
        let from = past_blank(t, colon + 1);
        let end = value_end(t, from, 0, Mode::Plain);
        let member = MemberView {
            key: key_of(t.subrange(start, key_end)),
            colon,
            from,
            text: t.subrange(from, before_blank(t, from, end)),
        };
        proof {
            lemma_past_blank(t, i);
            lemma_past_text(t, start + 1, false);
            lemma_past_blank(t, key_end);
            lemma_past_blank(t, colon + 1);
            lemma_value_end(t, from, 0, Mode::Plain);
        }
        seq![member] + if end < t.len() && t[end] == ',' {
            members_from(t, end + 1)
        } else {
            seq![]
        }
    }
}

/// The members of the object that a text holds.
pub open spec fn members_of(t: Seq<char>) -> Seq<MemberView> {
    members_from(t, past_blank(t, 0) + 1)
}

/// The texts of the items of a list from position `i` on, which lies in front of one of
/// them or of the bracket that ends it.
pub open spec fn items_from(t: Seq<char>, i: int) -> Seq<Seq<char>>
    decreases t.len() - i,
{
    let from = past_blank(t, i);
    if !(0 <= i && from < t.len() && t[from] != ']') {
        seq![]
    } else {
        let end = value_end(t, from, 0, Mode::Plain);
        proof {
            lemma_past_blank(t, i);
            lemma_value_end(t, from, 0, Mode::Plain);
        }
        seq![t.subrange(from, before_blank(t, from, end))] + if end < t.len() && t[end] == ',' {
            items_from(t, end + 1)
        } else {
            seq![]
        }
    }
}

/// The texts of the items of the list that a text holds.
pub open spec fn items_of(t: Seq<char>) -> Seq<Seq<char>> {
    items_from(t, past_blank(t, 0) + 1)
}

/// A member of an object, in the order of the text.
#[derive(Debug)]
pub struct Member {
    pub key: String,
    pub colon: usize,
    pub from: usize,
    pub text: String,
}

impl View for Member {
    type V = MemberView;

    open spec fn view(&self) -> MemberView {
        MemberView {
            key: self.key@,
            colon: self.colon as int,
            from: self.from as int,
            text: self.text@,
        }
    }
}

impl Member {
    /// The value.
    pub fn value(&self) -> (r: Json)
        ensures
            r@ == self@.value(),
    {
        parse_lenient(self.text.as_str())
    }
}

/// What members say.
pub open spec fn member_views(s: Seq<Member>) -> Seq<MemberView> {
    s.map_values(|m: Member| m@)
}

/// Whether the positions of a member lie in a text.
pub open spec fn lies_in(m: MemberView, t: Seq<char>) -> bool {
    0 <= m.colon < m.from && m.from + m.text.len() <= t.len()
}

fn skip_blank(cs: &Vec<char>, i: usize) -> (r: usize)
    requires
        i <= cs@.len(),
    ensures
        r == past_blank(cs@, i as int),
        i <= r <= cs@.len(),
{
    let mut at: usize = i;
    while at < cs.len() && (cs[at] == ' ' || cs[at] == '\n' || cs[at] == '\t' || cs[at] == '\r')
        invariant
            i <= at <= cs@.len(),
            past_blank(cs@, at as int) == past_blank(cs@, i as int),
        decreases cs@.len() - at,
    {
        at += 1;
    }
    at
}

fn strip_blank(cs: &Vec<char>, from: usize, to: usize) -> (r: usize)
    requires
        from <= to <= cs@.len(),
    ensures
        r == before_blank(cs@, from as int, to as int),
        from <= r <= to,
{
    let mut at: usize = to;
    while from < at && (cs[at - 1] == ' ' || cs[at - 1] == '\n' || cs[at - 1] == '\t' || cs[at - 1]
        == '\r')
        invariant
            from <= at <= to <= cs@.len(),
            before_blank(cs@, from as int, at as int) == before_blank(cs@, from as int, to as int),
        decreases at,
    {
        at -= 1;
    }
    at
}

fn skip_text(cs: &Vec<char>, i: usize) -> (r: usize)
    requires
        i <= cs@.len(),
    ensures
        r == past_text(cs@, i as int, false),
        i <= r <= cs@.len(),
{
    let mut at: usize = i;
    let mut escaped: bool = false;
    while at < cs.len()
        invariant
            i <= at <= cs@.len(),
            past_text(cs@, at as int, escaped) == past_text(cs@, i as int, false),
        decreases cs@.len() - at,
    {
        if escaped {
            escaped = false;
        } else if cs[at] == '"' {
            return at + 1;
        } else {
            escaped = cs[at] == '\\';
        }
        at += 1;
    }
    at
}

fn find_value_end(cs: &Vec<char>, i: usize) -> (r: usize)
    requires
        i <= cs@.len(),
    ensures
        r == value_end(cs@, i as int, 0, Mode::Plain),
        i <= r <= cs@.len(),
{
    let mut at: usize = i;
    let mut depth: usize = 0;
    let mut mode: Mode = Mode::Plain;
    while at < cs.len()
        invariant
            i <= at <= cs@.len(),
            depth <= at,
            value_end(cs@, at as int, depth as nat, mode) == value_end(
                cs@,
                i as int,
                0,
                Mode::Plain,
            ),
        decreases cs@.len() - at,
    {
        let c: char = cs[at];
        match mode {
            Mode::Plain => {
                if depth == 0 && (c == ',' || c == '}' || c == ']') {
                    return at;
                }
                if c == '{' || c == '[' {
                    depth += 1;
                } else if c == '}' || c == ']' {
                    depth -= 1;
                }
                if c == '"' {
                    mode = Mode::Quoted;
                }
            },
            Mode::Quoted => {
                if c == '"' {
                    mode = Mode::Plain;
                } else if c == '\\' {
                    mode = Mode::Escaped;
                }
            },
            Mode::Escaped => {
                mode = Mode::Quoted;
            },
        }
        at += 1;
    }
    at
}

fn read_key(literal: &str) -> (r: String)
    ensures
        r@ == key_of(literal@),
{
    match parse_lenient(literal) {
        Json::Str(s) => s,
        _ => "".to_owned(),
    }
}

/// Takes the object that a text holds apart.
pub fn split_members(text: &str) -> (r: Vec<Member>)
    ensures
        member_views(r@) == members_of(text@),
        forall|i: int| 0 <= i < r@.len() ==> lies_in((#[trigger] r@[i])@, text@),
{
    let cs: Vec<char> = chars_of(text);
    let mut out: Vec<Member> = Vec::new();
    let open: usize = skip_blank(&cs, 0);
    if open == cs.len() {
        assert(member_views(out@) =~= members_of(text@));
        return out;
    }
    let mut i: usize = open + 1;
    assert(member_views(out@) + members_from(cs@, i as int) =~= members_of(text@));
    loop
        invariant_except_break
            i <= cs@.len(),
            member_views(out@) + members_from(cs@, i as int) == members_of(cs@),
            forall|j: int| 0 <= j < out@.len() ==> lies_in((#[trigger] out@[j])@, cs@),
        ensures
            member_views(out@) == members_of(cs@),
            forall|j: int| 0 <= j < out@.len() ==> lies_in((#[trigger] out@[j])@, cs@),
        decreases cs@.len() - i,
    {
        let ghost done = member_views(out@);
        let start: usize = skip_blank(&cs, i);
        if start == cs.len() || cs[start] != '"' {
            assert(done + members_from(cs@, i as int) =~= done);
            break;
        }
        let key_end: usize = skip_text(&cs, start + 1);
        let colon: usize = skip_blank(&cs, key_end);
        if colon == cs.len() {
            assert(done + members_from(cs@, i as int) =~= done);
            break;
        }
        let from: usize = skip_blank(&cs, colon + 1);
        let end: usize = find_value_end(&cs, from);
        let to: usize = strip_blank(&cs, from, end);
        let literal: String = text_of_range(&cs, start, key_end);
        let member: Member = Member {
            key: read_key(literal.as_str()),
            colon,
            from,
            text: text_of_range(&cs, from, to),
        };
        assert(lies_in(member@, cs@));
        out.push(member);
        assert(member_views(out@) =~= done.push(member@));
        if end == cs.len() || cs[end] != ',' {
            assert(done + members_from(cs@, i as int) =~= member_views(out@));
            break;
        }
        assert(done + members_from(cs@, i as int) =~= member_views(out@) + members_from(
            cs@,
            end + 1,
        ));
        i = end + 1;
    }
    out
}

/// Takes the list that a text holds apart.
pub fn split_items(text: &str) -> (r: Vec<String>)
    ensures
        strs(r@) == items_of(text@),
{
    let cs: Vec<char> = chars_of(text);
    let mut out: Vec<String> = Vec::new();
    let open: usize = skip_blank(&cs, 0);
    if open == cs.len() {
        assert(strs(out@) =~= items_of(text@));
        return out;
    }
    let mut i: usize = open + 1;
    assert(strs(out@) + items_from(cs@, i as int) =~= items_of(text@));
    loop
        invariant_except_break
            i <= cs@.len(),
            strs(out@) + items_from(cs@, i as int) == items_of(cs@),
        ensures
            strs(out@) == items_of(cs@),
        decreases cs@.len() - i,
    {
        let ghost done = strs(out@);
        let from: usize = skip_blank(&cs, i);
        if from == cs.len() || cs[from] == ']' {
            assert(done + items_from(cs@, i as int) =~= done);
            break;
        }
        let end: usize = find_value_end(&cs, from);
        let to: usize = strip_blank(&cs, from, end);
        push_text(&mut out, text_of_range(&cs, from, to));
        if end == cs.len() || cs[end] != ',' {
            assert(done + items_from(cs@, i as int) =~= strs(out@));
            break;
        }
        assert(done + items_from(cs@, i as int) =~= strs(out@) + items_from(cs@, end + 1));
        i = end + 1;
    }
    out
}

/// The first member with a key from the member `i` on.
pub open spec fn next_named(ms: Seq<MemberView>, key: Seq<char>, i: int) -> int
    decreases ms.len() - i,
{
    if 0 <= i < ms.len() && ms[i].key != key {
        next_named(ms, key, i + 1)
    } else {
        i
    }
}

/// The first member with a key, if there is one.
pub open spec fn named(ms: Seq<MemberView>, key: Seq<char>) -> Option<MemberView> {
    let i = next_named(ms, key, 0);
    if i < ms.len() {
        Some(ms[i])
    } else {
        None
    }
}

/// The second member with a key, if there is one.
pub open spec fn named_again(ms: Seq<MemberView>, key: Seq<char>) -> Option<MemberView> {
    let i = next_named(ms, key, next_named(ms, key, 0) + 1);
    if i < ms.len() {
        Some(ms[i])
    } else {
        None
    }
}

/// Whether a key occurs more than once.
pub open spec fn is_repeated(ms: Seq<MemberView>, key: Seq<char>) -> bool {
    named_again(ms, key) is Some
}

/// What a member that may be missing says.
pub open spec fn opt_member(m: Option<&Member>) -> Option<MemberView> {
    match m {
        Some(m) => Some(m@),
        None => None,
    }
}

fn find_next(ms: &Vec<Member>, key: &str, from: usize) -> (r: usize)
    requires
        from <= ms@.len(),
    ensures
        r == next_named(member_views(ms@), key@, from as int),
        from <= r <= ms@.len(),
{
    let mut i: usize = from;
    while i < ms.len() && !same(ms[i].key.as_str(), key)
        invariant
            from <= i <= ms@.len(),
            next_named(member_views(ms@), key@, i as int) == next_named(
                member_views(ms@),
                key@,
                from as int,
            ),
        decreases ms@.len() - i,
    {
        assert(member_views(ms@)[i as int] == ms@[i as int]@);
        i += 1;
    }
    assert(i < ms@.len() ==> member_views(ms@)[i as int] == ms@[i as int]@);
    i
}

/// Finds the first member with a key.
pub fn find_named<'a>(ms: &'a Vec<Member>, key: &str) -> (r: Option<&'a Member>)
    ensures
        opt_member(r) == named(member_views(ms@), key@),
        r matches Some(m) ==> ms@.contains(*m),
{
    let i: usize = find_next(ms, key, 0);
    if i < ms.len() {
        assert(member_views(ms@)[i as int] == ms@[i as int]@);
        Some(&ms[i])
    } else {
        None
    }
}

/// Finds the second member with a key.
pub fn find_again<'a>(ms: &'a Vec<Member>, key: &str) -> (r: Option<&'a Member>)
    ensures
        opt_member(r) == named_again(member_views(ms@), key@),
        r matches Some(m) ==> ms@.contains(*m),
{
    let first: usize = find_next(ms, key, 0);
    if first == ms.len() {
        return None;
    }
    let i: usize = find_next(ms, key, first + 1);
    if i < ms.len() {
        assert(member_views(ms@)[i as int] == ms@[i as int]@);
        Some(&ms[i])
    } else {
        None
    }
}

/// Whether a key occurs more than once.
pub fn repeats(ms: &Vec<Member>, key: &str) -> (r: bool)
    ensures
        r == is_repeated(member_views(ms@), key@),
{
    find_again(ms, key).is_some()
}

/// The number of line breaks before a position.
pub open spec fn breaks(t: Seq<char>, i: int) -> nat
    decreases i,
{
    if !(0 < i <= t.len()) {
        0
    } else {
        breaks(t, i - 1) + if t[i - 1] == '\n' {
            1nat
        } else {
            0nat
        }
    }
}

/// Where the line of a position begins.
pub open spec fn line_start(t: Seq<char>, i: int) -> int
    decreases i,
{
    if 0 < i <= t.len() && t[i - 1] != '\n' {
        line_start(t, i - 1)
    } else {
        i
    }
}

/// How a complaint says where in a text it belongs: the line, and the bytes before the
/// position in it.
pub open spec fn place(t: Seq<char>, i: int) -> Seq<char> {
    " at line "@ + decimal(breaks(t, i) + 1) + " column "@ + decimal(
        byte_len(t.subrange(line_start(t, i), i)),
    )
}

/// The number after a `u64`, in decimal.
fn decimal_after(n: u64) -> (r: String)
    ensures
        r@ == decimal(n as nat + 1),
{
    if n < u64::MAX {
        decimal_of(n + 1)
    } else {
        let mut s: String = decimal_of(1_844_674_407_370_955_161);
        s.push(digit_char(6));
        s
    }
}

/// Says where in a text a position lies.
pub fn place_of(text: &str, at: usize) -> (r: String)
    requires
        at <= text@.len(),
    ensures
        r@ == place(text@, at as int),
{
    let cs: Vec<char> = chars_of(text);
    let mut lines: usize = 0;
    let mut start: usize = 0;
    let mut i: usize = 0;
    while i < at
        invariant
            i <= at <= cs@.len(),
            lines == breaks(cs@, i as int),
            lines <= i,
            start <= i,
            start == line_start(cs@, i as int),
        decreases at - i,
    {
        i += 1;
        if cs[i - 1] == '\n' {
            lines += 1;
            start = i;
        }
    }
    let mut out: String = " at line ".to_owned();
    out.append(decimal_after(lines as u64).as_str());
    out.append(" column ");
    out.append(decimal_of(byte_count(text_of_range(&cs, start, at).as_str()) as u64).as_str());
    out
}

/// Where a value that stands alone in a text begins.
pub fn value_start(text: &str) -> (r: usize)
    ensures
        r == past_blank(text@, 0),
        r <= text@.len(),
{
    skip_blank(&chars_of(text), 0)
}

/// The position behind a value that stands alone in a text.
pub open spec fn behind_value(t: Seq<char>) -> int {
    before_blank(t, past_blank(t, 0), t.len() as int)
}

/// Finds the position behind a value that stands alone in a text.
pub fn value_stop(text: &str) -> (r: usize)
    ensures
        r == behind_value(text@),
        r <= text@.len(),
{
    let cs: Vec<char> = chars_of(text);
    let from: usize = skip_blank(&cs, 0);
    strip_blank(&cs, from, cs.len())
}

/// The position from which a reader goes on that has read a member: behind the bracket
/// that ends the object, if that follows.
pub open spec fn behind_member(t: Seq<char>, m: MemberView) -> int {
    let end = past_blank(t, m.from + m.text.len());
    if 0 <= end < t.len() && t[end] == '}' {
        end + 1
    } else {
        end
    }
}

/// Finds the position from which a reader goes on that has read a member.
pub fn member_stop(text: &str, m: &Member) -> (r: usize)
    requires
        lies_in(m@, text@),
    ensures
        r == behind_member(text@, m@),
        r <= text@.len(),
{
    let cs: Vec<char> = chars_of(text);
    assert(m.from + m.text@.len() <= cs@.len());
    let size: usize = m.text.as_str().unicode_len();
    let whole: usize = cs.len();
    assert(m.from + size <= whole);
    let end: usize = skip_blank(&cs, m.from + size);
    if end < cs.len() && cs[end] == '}' {
        end + 1
    } else {
        end
    }
}

/// Whether a text writes out the members of an object, each of them once, and the
/// objects among their values likewise, down to this depth.
pub open spec fn spelled(t: Seq<char>, v: JsonView, depth: nat) -> bool
    decreases depth,
{
    match v {
        JsonView::Obj(m) if depth > 0 => {
            let ms = members_of(t);
            &&& forall|k: Seq<char>| #![trigger named(ms, k)]
                (named(ms, k) is Some <==> m.contains_key(k)) && !is_repeated(ms, k)
            &&& forall|i: int|
                0 <= i < ms.len() ==> (#[trigger] ms[i]).value() == m[ms[i].key] && spelled(
                    ms[i].text,
                    m[ms[i].key],
                    (depth - 1) as nat,
                )
        },
        _ => true,
    }
}

/// The member that is found has the key.
pub proof fn lemma_next_named(ms: Seq<MemberView>, key: Seq<char>, i: int)
    requires
        0 <= i <= ms.len(),
    ensures
        i <= next_named(ms, key, i) <= ms.len(),
        next_named(ms, key, i) < ms.len() ==> ms[next_named(ms, key, i)].key == key,
        forall|j: int| i <= j < next_named(ms, key, i) ==> (#[trigger] ms[j]).key != key,
    decreases ms.len() - i,
{
    if i < ms.len() && ms[i].key != key {
        lemma_next_named(ms, key, i + 1);
    }
}

/// A member of an object that is written out stands in the text once, with its value.
pub proof fn lemma_spelled_member(
    t: Seq<char>,
    m: Map<Seq<char>, JsonView>,
    key: Seq<char>,
    depth: nat,
)
    requires
        depth > 0,
        spelled(t, JsonView::Obj(m), depth),
    ensures
        !is_repeated(members_of(t), key),
        named(members_of(t), key) is Some <==> m.contains_key(key),
        named(members_of(t), key) matches Some(x) ==> x.value() == m[key] && spelled(
            x.text,
            m[key],
            (depth - 1) as nat,
        ),
{
    let ms = members_of(t);
    lemma_next_named(ms, key, 0);
    assert(named(ms, key) is Some <==> m.contains_key(key));
}

/// Two members of an object that is written out have different keys.
pub proof fn lemma_spelled_once(
    t: Seq<char>,
    m: Map<Seq<char>, JsonView>,
    depth: nat,
    i: int,
    j: int,
)
    requires
        depth > 0,
        spelled(t, JsonView::Obj(m), depth),
        0 <= i < j < members_of(t).len(),
    ensures
        members_of(t)[i].key != members_of(t)[j].key,
{
    let ms = members_of(t);
    let key = ms[j].key;
    if ms[i].key == key {
        lemma_next_named(ms, key, 0);
        let first = next_named(ms, key, 0);
        assert(first <= i);
        lemma_next_named(ms, key, first + 1);
        assert(named(ms, key) is Some <==> m.contains_key(key));
        assert(!is_repeated(ms, key));
        assert(next_named(ms, key, first + 1) <= j);
    }
}

} // verus!
