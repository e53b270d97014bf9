//! A conversation as the one text that a command-line program reads.

use crate::text::{chars_of, decimal, decimal_of, join, joined, push_text, strs};
use crate::types::{ChatRequest, ContentBlock, ErrorView, Message, ProviderError};
use vstd::prelude::*;
use vstd::string::*;

verus! {

/// A text without square brackets.
pub open spec fn without_brackets(s: Seq<char>) -> Seq<char> {
    s.filter(|c: char| c != '[' && c != ']')
}

/// A block as text. Of an image only the type is named; with `safe`, in a form that
/// cannot close the marker.
pub open spec fn block_text(b: ContentBlock, safe: bool) -> Seq<char> {
    match b {
        ContentBlock::Text { text } => text@,
        ContentBlock::Image { mime, data } => "[image:"@ + (if safe {
            without_brackets(mime@)
        } else {
            mime@
        }) + "]"@,
    }
}

/// The blocks of a message as text, one per line.
pub open spec fn blocks_text(s: Seq<ContentBlock>, safe: bool) -> Seq<char> {
    joined(s.map_values(|b: ContentBlock| block_text(b, safe)), "\n"@)
}

/// Whose turn a message is.
pub open spec fn role_name(m: Message) -> Seq<char> {
    match m {
        Message::User { content } => "user"@,
        Message::Assistant { content, tool_calls } => "assistant"@,
        Message::Tool { tool_call_id, content, is_error } => "tool"@,
        Message::System { content } => "system"@,
    }
}

/// The blocks of a message.
pub open spec fn blocks_of(m: Message) -> Seq<ContentBlock> {
    match m {
        Message::User { content } => content@,
        Message::Assistant { content, tool_calls } => content@,
        Message::Tool { tool_call_id, content, is_error } => content@,
        Message::System { content } => content@,
    }
}

/// What someone says, under their name.
pub open spec fn turn_text(name: Seq<char>, said: Seq<char>) -> Seq<char> {
    "["@ + name + "]\n"@ + said
}

/// The turns of a conversation.
pub open spec fn turns(s: Seq<Message>, safe: bool) -> Seq<Seq<char>> {
    s.map_values(|m: Message| turn_text(role_name(m), blocks_text(blocks_of(m), safe)))
}

/// The turns of a conversation as one text.
pub open spec fn messages_text(req: ChatRequest) -> Seq<char> {
    joined(turns(req.messages@, true), "\n\n"@)
}

/// The system prompt, where there is one, and the turns of a conversation as one
/// text.
pub open spec fn prompt_text(req: ChatRequest) -> Seq<char> {
    let first = match req.system {
        Some(s) => seq![turn_text("system"@, s@)],
        None => seq![],
    };
    joined(first + turns(req.messages@, false), "\n\n"@)
}

/// Removes the square brackets from a text.
fn remove_brackets(s: &str) -> (r: String)
    ensures
        r@ == without_brackets(s@),
{
    let cs: Vec<char> = chars_of(s);
    let ghost keep = |c: char| c != '[' && c != ']';
    let mut out: String = String::new();
    let mut i: usize = 0;
    proof {
        reveal(Seq::filter);
        assert(out@ =~= cs@.take(0).filter(keep));
    }
    while i < cs.len()
        invariant
            i <= cs@.len(),
            keep == (|c: char| c != '[' && c != ']'),
            out@ == cs@.take(i as int).filter(keep),
        decreases cs@.len() - i,
    {
        let c: char = cs[i];
        proof {
            reveal(Seq::filter);
            assert(cs@.take(i + 1).drop_last() =~= cs@.take(i as int));
        }
        if c != '[' && c != ']' {
            out.push(c);
        }
        i += 1;
    }
    assert(cs@.take(cs@.len() as int) =~= cs@);
    out
}

/// A block as text.
fn flatten_block(b: &ContentBlock, safe: bool) -> (r: String)
    ensures
        r@ == block_text(*b, safe),
{
    match b {
        ContentBlock::Text { text } => text.clone(),
        ContentBlock::Image { mime, data: _ } => {
            let mut out: String = "[image:".to_owned();
            if safe {
                out.append(remove_brackets(mime.as_str()).as_str());
            } else {
                out.append(mime.as_str());
            }
            out.append("]");
            out
        },
    }
}

/// The blocks of a message as text.
pub fn flatten_blocks(s: &Vec<ContentBlock>, safe: bool) -> (r: String)
    ensures
        r@ == blocks_text(s@, safe),
{
    let ghost whole = s@.map_values(|b: ContentBlock| block_text(b, safe));
    let mut out: Vec<String> = Vec::new();
    let mut i: usize = 0;
    assert(strs(out@) =~= whole.take(0));
    while i < s.len()
        invariant
            i <= s@.len(),
            whole == s@.map_values(|b: ContentBlock| block_text(b, safe)),
            strs(out@) == whole.take(i as int),
        decreases s@.len() - i,
    {
        push_text(&mut out, flatten_block(&s[i], safe));
        assert(whole.take(i + 1) =~= whole.take(i as int).push(block_text(s@[i as int], safe)));
        i += 1;
    }
    assert(whole.take(s@.len() as int) =~= whole);
    join(&out, "\n")
}

/// What someone says, under their name.
pub fn under_name(name: &str, said: &str) -> (r: String)
    ensures
        r@ == turn_text(name@, said@),
{
    let mut out: String = "[".to_owned();
    out.append(name);
    out.append("]\n");
    out.append(said);
    out
}

/// Whose turn a message is, and its blocks.
pub fn role_and_blocks<'a>(m: &'a Message) -> (r: (&'static str, &'a Vec<ContentBlock>))
    ensures
        r.0@ == role_name(*m),
        r.1@ == blocks_of(*m),
{
    match m {
        Message::User { content } => ("user", content),
        Message::Assistant { content, tool_calls: _ } => ("assistant", content),
        Message::Tool { tool_call_id: _, content, is_error: _ } => ("tool", content),
        Message::System { content } => ("system", content),
    }
}

/// Appends the turns of a conversation.
fn push_turns(out: &mut Vec<String>, s: &Vec<Message>, safe: bool)
    ensures
        strs(final(out)@) == strs(old(out)@) + turns(s@, safe),
{
    let ghost before = strs(out@);
    let mut i: usize = 0;
    assert(strs(out@) =~= before + turns(s@, safe).take(0));
    while i < s.len()
        invariant
            i <= s@.len(),
            strs(out@) == before + turns(s@, safe).take(i as int),
        decreases s@.len() - i,
    {
        let (name, blocks): (&'static str, &Vec<ContentBlock>) = role_and_blocks(&s[i]);
        push_text(out, under_name(name, flatten_blocks(blocks, safe).as_str()));
        assert(before + turns(s@, safe).take(i + 1) =~= (before + turns(s@, safe).take(
            i as int,
        )).push(turns(s@, safe)[i as int]));
        i += 1;
    }
    assert(turns(s@, safe).take(s@.len() as int) =~= turns(s@, safe));
}

/// The turns of a conversation as one text. What the content itself says in the
/// form of a turn cannot be told from one.
pub fn serialize_messages_for_cli(req: &ChatRequest) -> (r: String)
    ensures
        r@ == messages_text(*req),
{
    let mut parts: Vec<String> = Vec::new();
    push_turns(&mut parts, &req.messages, true);
    assert(strs(parts@) =~= turns(req.messages@, true));
    join(&parts, "\n\n")
}

/// The system prompt and the turns of a conversation as one text.
pub fn render_prompt_for_cli(req: &ChatRequest) -> (r: String)
    ensures
        r@ == prompt_text(*req),
{
    let mut parts: Vec<String> = Vec::new();
    assert(strs(parts@) =~= seq![]);
    if let Some(s) = &req.system {
        push_text(&mut parts, under_name("system", s.as_str()));
        assert(strs(parts@) =~= seq![turn_text("system"@, s@)]);
    }
    push_turns(&mut parts, &req.messages, false);
    join(&parts, "\n\n")
}

/// The longest prompt that is put among the arguments of a program, in bytes.
pub const MAX_PROMPT_BYTES: usize = 262144;

/// The error for a prompt that is too long.
pub open spec fn too_long(size: nat, program: Seq<char>) -> ErrorView {
    ErrorView::InvalidRequest(
        "prompt size "@ + decimal(size) + " exceeds "@ + program + " CLI argv cap "@ + decimal(
            MAX_PROMPT_BYTES as nat,
        ) + " bytes"@,
    )
}

/// The error for a prompt that is too long.
pub fn too_long_error(size: usize, program: &str) -> (r: ProviderError)
    ensures
        r@ == too_long(size as nat, program@),
{
    let mut msg: String = "prompt size ".to_owned();
    msg.append(decimal_of(size as u64).as_str());
    msg.append(" exceeds ");
    msg.append(program);
    msg.append(" CLI argv cap ");
    msg.append(decimal_of(MAX_PROMPT_BYTES as u64).as_str());
    msg.append(" bytes");
    ProviderError::InvalidRequest(msg)
}

/// The marker of an image cannot be closed early, whatever its type is called: it has
/// one opening bracket, its first character, and one closing bracket, its last.
pub proof fn law_image_marker_is_closed_once(mime: Seq<char>, i: int)
    requires
        0 <= i < ("[image:"@ + without_brackets(mime) + "]"@).len(),
    ensures
        ({
            let marker = "[image:"@ + without_brackets(mime) + "]"@;
            &&& marker[i] == '[' <==> i == 0
            &&& marker[i] == ']' <==> i == marker.len() - 1
        }),
{
    reveal_strlit("[image:");
    reveal_strlit("]");
    let keep = |c: char| c != '[' && c != ']';
    let kept = without_brackets(mime);
    let marker = "[image:"@ + kept + "]"@;
    if 7 <= i < 7 + kept.len() {
        mime.lemma_filter_pred(keep, i - 7);
        assert(marker[i] == kept[i - 7]);
    }
}

} // verus!
