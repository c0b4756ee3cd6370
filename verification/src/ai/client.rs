//! Reply handling for the natural-language planning client: assembling the
//! text of a Messages API reply, stripping markdown code fences from the
//! JSON the model returns, and the checks around the API key and the
//! extraction result.

use vstd::prelude::*;
use vstd::string::*;
use crate::chars::{chars_of, trim, trim_at, starts_with, ends_with, has_at, has_before};
use crate::types::str_eq;

verus! {

/// Errors of the planning client.
pub enum AiError {
    /// `ANTHROPIC_API_KEY` is unset or blank.
    MissingApiKey,
    /// The HTTP exchange failed.
    Http(String),
    /// The API answered with a non-success status.
    Api { status: u16, message: String },
    /// The reply body could not be understood.
    ResponseParse(String),
    /// The model could not extract plan parameters.
    ExtractionFailed(String),
}

/// The reply with surrounding whitespace, one leading fence (```` ```json ````
/// or ```` ``` ````) and one trailing fence removed, then trimmed again.
pub open spec fn spec_strip_code_fences(s: Seq<char>) -> Seq<char> {
    let t = trim(s);
    let a = if starts_with(t, "```json"@) {
        t.skip(7)
    } else if starts_with(t, "```"@) {
        t.skip(3)
    } else {
        t
    };
    let b = if ends_with(a, "```"@) {
        a.take(a.len() - 3)
    } else {
        a
    };
    trim(b)
}

/// Strip optional markdown code fences from a model reply. The system
/// prompt asks for raw JSON; this is a safety net in case the model wraps
/// it in a fenced block.
pub fn strip_code_fences(s: &str) -> (r: &str)
    ensures
        r@ == spec_strip_code_fences(s@),
{
    let v = chars_of(s);
    let n = v.len();
    let (a0, b0) = trim_at(&v, 0, n);
    assert(v@.subrange(0, n as int) =~= s@);
    let ghost t = v@.subrange(a0 as int, b0 as int);
    let mut a = a0;
    if has_at(&v, a0, b0, "```json") {
        proof { reveal_strlit("```json"); }
        a = a0 + 7;
        assert(v@.subrange(a as int, b0 as int) =~= t.skip(7));
    } else if has_at(&v, a0, b0, "```") {
        proof { reveal_strlit("```"); }
        a = a0 + 3;
        assert(v@.subrange(a as int, b0 as int) =~= t.skip(3));
    } else {
        assert(v@.subrange(a as int, b0 as int) =~= t);
    }
    let ghost u = v@.subrange(a as int, b0 as int);
    let mut b = b0;
    if has_before(&v, a, b0, "```") {
        proof { reveal_strlit("```"); }
        b = b0 - 3;
        assert(v@.subrange(a as int, b as int) =~= u.take(u.len() - 3));
    }
    let (c, d) = trim_at(&v, a, b);
    s.substring_char(c, d)
}

/// A reply that is already bare JSON (no surrounding whitespace, no
/// fence at either end) passes through unchanged.
pub proof fn law_raw_reply_unchanged(s: Seq<char>)
    requires
        trim(s) == s,
        !starts_with(s, "```"@),
        !ends_with(s, "```"@),
    ensures
        spec_strip_code_fences(s) == s,
{
    reveal_strlit("```json");
    reveal_strlit("```");
    if starts_with(s, "```json"@) {
        assert(s.take(3) =~= s.take(7).take(3));
        assert("```json"@.take(3) =~= "```"@);
    }
}

/// The reply text: the text of every `"text"` block, in order, joined
/// with nothing between them.
pub open spec fn reply_text(blocks: Seq<(Seq<char>, Option<Seq<char>>)>) -> Seq<char>
    decreases blocks.len(),
{
    if blocks.len() == 0 {
        Seq::empty()
    } else {
        let last = blocks.last();
        let rest = reply_text(blocks.drop_last());
        if last.0 == "text"@ && last.1 is Some {
            rest + last.1->0
        } else {
            rest
        }
    }
}

/// Views of the content blocks of a reply, each a block type and its text.
pub open spec fn blocks_view(blocks: Seq<(String, Option<String>)>) -> Seq<
    (Seq<char>, Option<Seq<char>>),
> {
    blocks.map_values(
        |b: (String, Option<String>)|
            (
                b.0@,
                match b.1 {
                    Some(t) => Some(t@),
                    None => None,
                },
            ),
    )
}

/// Assemble the text of a Messages API reply from its content blocks
/// (block type, optional text). A reply without any text is refused.
pub fn join_text_blocks(blocks: &Vec<(String, Option<String>)>) -> (r: Result<String, AiError>)
    ensures
        match r {
            Ok(t) => t@ == reply_text(blocks_view(blocks@)) && t@.len() > 0,
            Err(e) => reply_text(blocks_view(blocks@)).len() == 0 && e == AiError::ResponseParse(
                e->ResponseParse_0,
            ) && e->ResponseParse_0@ == "no text block in response"@,
        },
{
    let mut text = String::new();
    let mut i: usize = 0;
    while i < blocks.len()
        invariant
            i <= blocks.len(),
            text@ == reply_text(blocks_view(blocks@.take(i as int))),
        decreases blocks.len() - i,
    {
        let ghost pre = blocks@.take(i as int);
        assert(blocks_view(blocks@.take(i + 1)).drop_last() =~= blocks_view(pre));
        let b = &blocks[i];
        let is_text = str_eq(b.0.as_str(), "text");
        assert(is_text == (b.0@ == "text"@));
        let ghost bv = blocks_view(blocks@.take(i + 1));
        assert(bv.last() == blocks_view(blocks@)[i as int]);
        if is_text {
            match &b.1 {
                Some(t) => {
                    text.append(t.as_str());
                },
                None => {},
            }
        }
        i = i + 1;
    }
    assert(blocks@.take(blocks.len() as int) =~= blocks@);
    if text.as_str().unicode_len() == 0 {
        proof { reveal_strlit("no text block in response"); }
        Err(AiError::ResponseParse(String::from_str("no text block in response")))
    } else {
        Ok(text)
    }
}

/// Accept the API key read from the environment: an unset or blank key is
/// refused.
pub fn check_api_key(key: Option<String>) -> (r: Result<String, AiError>)
    ensures
        match key {
            Some(k) => if trim(k@).len() == 0 {
                r == Err::<String, AiError>(AiError::MissingApiKey)
            } else {
                r == Ok::<String, AiError>(k)
            },
            None => r == Err::<String, AiError>(AiError::MissingApiKey),
        },
{
    match key {
        Some(k) => {
            let v = chars_of(k.as_str());
            let (a, b) = trim_at(&v, 0, v.len());
            assert(v@.subrange(0, v@.len() as int) =~= k@);
            if a == b {
                Err(AiError::MissingApiKey)
            } else {
                Ok(k)
            }
        },
        None => Err(AiError::MissingApiKey),
    }
}

/// Refuse an extraction result in which the model reported an error
/// (typically that the description gave no coordinates).
pub fn check_extraction_error(error: Option<String>) -> (r: Result<(), AiError>)
    ensures
        match error {
            Some(m) => r == Err::<(), AiError>(AiError::ExtractionFailed(m)),
            None => r == Ok::<(), AiError>(()),
        },
{
    match error {
        Some(m) => Err(AiError::ExtractionFailed(m)),
        None => Ok(()),
    }
}

} // verus!
