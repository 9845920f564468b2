//! Card study helpers: the text a card is built from, and the recall question
//! requested for it.
use vstd::prelude::*;

use crate::domain::card::{source_text, Card};
use crate::domain::section::Section;
use crate::text::{push_all, push_char, trim, trim_chars};

verus! {

/// The text a card is built from: the raw text of its section when the
/// section exists, else the snapshot stored with the card, else nothing.
pub fn card_source_text(card: &Card, section: Option<&Section>) -> (r: String)
    ensures
        r@ == source_text(
            *card,
            match section {
                Some(s) => Some(*s),
                None => None,
            },
        ),
{
    match section {
        Some(s) => s.text_raw.clone(),
        None => match &card.last_section_snapshot {
            Some(t) => t.clone(),
            None => String::new(),
        },
    }
}

/// The fence of three backquotes that delimits a quoted block.
pub open spec fn fence() -> Seq<char> {
    seq!['`', '`', '`']
}

/// Opening of the prompt that asks for a recall question, up to the fence
/// that opens the quoted text.
pub open spec fn question_prompt_head() -> Seq<char> {
    "Based on the following text, generate a single, concise active recall question. The question should be direct and test the reader's understanding of the core concepts in the text.\n\nText:\n"@
        + fence() + "\n"@
}

/// Closing of the prompt that asks for a recall question, from the fence
/// that closes the quoted text.
pub open spec fn question_prompt_tail() -> Seq<char> {
    "\n"@ + fence()
        + "\n\nOutput only the question and nothing else. Do not include any greeting, markdown formatting (like bolding), or introductory phrases."@
}

/// Appends the fence to `s`.
fn push_fence(s: &mut String)
    ensures
        final(s)@ == old(s)@ + fence(),
{
    push_char(s, '`');
    push_char(s, '`');
    push_char(s, '`');
    assert(s@ =~= old(s)@ + fence());
}

/// The request for one active-recall question about `section_text`, which
/// it quotes in a fenced block.
pub fn recall_question_prompt(section_text: &str) -> (r: String)
    ensures
        r@ == question_prompt_head() + section_text@ + question_prompt_tail(),
{
    let mut p = "Based on the following text, generate a single, concise active recall question. The question should be direct and test the reader's understanding of the core concepts in the text.\n\nText:\n".to_owned();
    push_fence(&mut p);
    push_all(&mut p, "\n");
    push_all(&mut p, section_text);
    push_all(&mut p, "\n");
    push_fence(&mut p);
    push_all(&mut p, "\n\nOutput only the question and nothing else. Do not include any greeting, markdown formatting (like bolding), or introductory phrases.");
    p
}

/// The question kept from a reply: the reply without surrounding whitespace.
pub fn generated_question(response_text: &str) -> (r: String)
    ensures
        r@ == trim_chars(response_text@),
{
    trim(response_text)
}

} // verus!
