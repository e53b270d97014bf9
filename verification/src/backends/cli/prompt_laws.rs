//! What holds of a conversation that is written as one text.

use crate::backends::cli::prompt::{
    block_text, blocks_of, blocks_text, messages_text, prompt_text, role_name, turn_text, turns,
};
use crate::types::{ChatRequest, ContentBlock, Message};
use vstd::prelude::*;
use vstd::string::*;

verus! {

/// What a block says. Of an image only the type is named.
pub open spec fn said(b: ContentBlock, safe: bool) -> Seq<char> {
    match b {
        ContentBlock::Text { text } => text@,
        ContentBlock::Image { mime, .. } => if safe {
            "[image:"@ + mime@.filter(|c: char| c != '[' && c != ']') + "]"@
        } else {
            "[image:"@ + mime@ + "]"@
        },
    }
}

/// What the blocks say, each on a line of its own.
pub open spec fn all_said(s: Seq<ContentBlock>, safe: bool) -> Seq<char>
    decreases s.len(),
{
    if s.len() == 0 {
        seq![]
    } else if s.len() == 1 {
        said(s[0], safe)
    } else {
        all_said(s.drop_last(), safe).push('\n') + said(s.last(), safe)
    }
}

/// A turn under the name of who says it.
pub open spec fn is_turn(t: Seq<char>, m: Message, safe: bool) -> bool {
    match m {
        Message::User { content } => t == "[user]\n"@ + all_said(content@, safe),
        Message::Assistant { content, .. } => t == "[assistant]\n"@ + all_said(content@, safe),
        Message::Tool { content, .. } => t == "[tool]\n"@ + all_said(content@, safe),
        Message::System { content } => t == "[system]\n"@ + all_said(content@, safe),
    }
}

proof fn lemma_blocks(s: Seq<ContentBlock>, safe: bool)
    ensures
        blocks_text(s, safe) == all_said(s, safe),
    decreases s.len(),
{
    let f = |b: ContentBlock| block_text(b, safe);
    let parts = s.map_values(f);
    reveal_strlit("\n");
    if s.len() == 1 {
        assert(parts[0] == block_text(s[0], safe));
    } else if s.len() > 1 {
        lemma_blocks(s.drop_last(), safe);
        assert(parts.drop_last() =~= s.drop_last().map_values(f));
        assert(parts.last() == block_text(s.last(), safe));
        assert(blocks_text(s, safe) =~= all_said(s, safe));
    } else {
        assert(blocks_text(s, safe) =~= all_said(s, safe));
    }
}

/// What a message says.
pub open spec fn said_by(m: Message) -> Seq<char> {
    match m {
        Message::User { content } => all_said(content@, false),
        Message::Assistant { content, .. } => all_said(content@, false),
        Message::Tool { content, .. } => all_said(content@, false),
        Message::System { content } => all_said(content@, false),
    }
}

/// A message is written as its turn.
pub proof fn lemma_turn(m: Message, safe: bool)
    ensures
        is_turn(turn_text(role_name(m), blocks_text(blocks_of(m), safe)), m, safe),
        blocks_text(blocks_of(m), false) == said_by(m),
{
    lemma_blocks(blocks_of(m), safe);
    lemma_blocks(blocks_of(m), false);
    reveal_strlit("[");
    reveal_strlit("]\n");
    reveal_strlit("user");
    reveal_strlit("assistant");
    reveal_strlit("tool");
    reveal_strlit("system");
    reveal_strlit("[user]\n");
    reveal_strlit("[assistant]\n");
    reveal_strlit("[tool]\n");
    reveal_strlit("[system]\n");
    let t = turn_text(role_name(m), blocks_text(blocks_of(m), safe));
    match m {
        Message::User { content } => {
            assert("["@ + "user"@ + "]\n"@ =~= "[user]\n"@);
            assert(t =~= "[user]\n"@ + all_said(content@, safe));
        },
        Message::Assistant { content, .. } => {
            assert("["@ + "assistant"@ + "]\n"@ =~= "[assistant]\n"@);
            assert(t =~= "[assistant]\n"@ + all_said(content@, safe));
        },
        Message::Tool { content, .. } => {
            assert("["@ + "tool"@ + "]\n"@ =~= "[tool]\n"@);
            assert(t =~= "[tool]\n"@ + all_said(content@, safe));
        },
        Message::System { content } => {
            assert("["@ + "system"@ + "]\n"@ =~= "[system]\n"@);
            assert(t =~= "[system]\n"@ + all_said(content@, safe));
        },
    }
}

/// A conversation without turns is the system prompt under its name, or nothing.
pub proof fn law_prompt_begins_with_the_system(req: ChatRequest)
    requires
        req.messages@.len() == 0,
    ensures
        prompt_text(req) == (match req.system {
            Some(s) => "[system]\n"@ + s@,
            None => seq![],
        }),
        messages_text(req).len() == 0,
{
    reveal_strlit("[");
    reveal_strlit("]\n");
    reveal_strlit("system");
    reveal_strlit("[system]\n");
    assert(turns(req.messages@, false) =~= seq![]);
    assert(turns(req.messages@, true) =~= seq![]);
    if let Some(s) = req.system {
        assert("["@ + "system"@ + "]\n"@ =~= "[system]\n"@);
        let first = seq![turn_text("system"@, s@)];
        assert(first + turns(req.messages@, false) =~= first);
        assert(prompt_text(req) =~= "[system]\n"@ + s@);
    } else {
        let none = Seq::<Seq<char>>::empty();
        assert(none + turns(req.messages@, false) =~= none);
        assert(prompt_text(req) =~= seq![]);
    }
    assert(messages_text(req) =~= seq![]);
}

/// One turn more is that turn behind everything else, under the name of who says it, and
/// with all that its blocks say; what stood there before stays as it is.
pub proof fn law_turns_follow_each_other(a: ChatRequest, b: ChatRequest, m: Message, t: Seq<char>)
    requires
        b.system == a.system,
        b.messages@ == a.messages@.push(m),
    ensures
        is_turn(t, m, false) ==> prompt_text(b) == (if a.messages@.len() == 0 && a.system is None {
            t
        } else {
            prompt_text(a) + "\n\n"@ + t
        }),
        is_turn(t, m, true) ==> messages_text(b) == (if a.messages@.len() == 0 {
            t
        } else {
            messages_text(a) + "\n\n"@ + t
        }),
{
    lemma_turn(m, false);
    lemma_turn(m, true);
    let p = turn_text(role_name(m), blocks_text(blocks_of(m), false));
    let q = turn_text(role_name(m), blocks_text(blocks_of(m), true));
    let first = match a.system {
        Some(s) => seq![turn_text("system"@, s@)],
        None => seq![],
    };
    let old_parts = first + turns(a.messages@, false);
    let new_parts = first + turns(b.messages@, false);
    assert(new_parts =~= old_parts.push(p));
    assert(new_parts.drop_last() =~= old_parts);
    assert(turns(b.messages@, true) =~= turns(a.messages@, true).push(q));
    assert(turns(b.messages@, true).drop_last() =~= turns(a.messages@, true));
}

} // verus!
