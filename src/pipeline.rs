//! The decisions taken for one inbound message, from its arrival to the reply.
use vstd::prelude::*;

use crate::external::{
    blocks_in, convert_block, converted_block, engine_blocks, input_stream, octet_stream,
    parse_media_type, parsed_media_type, stream_contents, tokens_of,
};
use crate::normalize::{
    exceeds_size_cap, should_respond, strip_mentions, strip_mentions_spec, total_size,
};
use crate::render::{
    pieces_of, render, rendered_files, rendered_text, ContentBlock, ExecutionResult, OutputGroup,
    Rendered,
};
use yozuk_sdk::prelude::{CommandArgs, InputStream, Token, Tokenizer};

verus! {

/// Largest total size of the attachments of one message, in bytes (10 MiB).
pub const MAX_ATTACHMENT_BYTES: u64 = 10485760;

/// Longest text, in characters, that is shown inline rather than attached.
pub const INLINE_LIMIT: usize = 1024;

/// What becomes of an inbound message before the engine sees it.
pub enum Admission {
    /// Not for the bot: its own message, or one in a channel that does not
    /// mention it.
    Ignore,
    /// Its attachments are too large: answered with a fixed notice.
    TooLarge,
    /// To be handled.
    Proceed,
}

/// Decides whether an inbound message is handled, answered with the
/// oversize notice, or ignored.
pub fn admission(
    author: u64,
    bot: u64,
    direct: bool,
    mentions: &Vec<u64>,
    attachment_sizes: &Vec<u64>,
    cap: u64,
) -> (r: Admission)
    ensures
        !(author != bot && (direct || mentions@.contains(bot))) <==> r is Ignore,
        (author != bot && (direct || mentions@.contains(bot))) ==> (r is TooLarge <==> total_size(
            attachment_sizes@,
        ) > cap),
        r is Proceed ==> total_size(attachment_sizes@) <= cap,
{
    if !should_respond(author, bot, direct, mentions) {
        Admission::Ignore
    } else if exceeds_size_cap(attachment_sizes, cap) {
        Admission::TooLarge
    } else {
        Admission::Proceed
    }
}

/// The notice sent for a message whose attachments are too large.
pub fn too_large_notice() -> (r: String)
    ensures
        r@ == "Too large file input (10MiB max.)"@,
{
    String::from_str("Too large file input (10MiB max.)")
}

/// The notice sent when no command matches a request.
pub fn not_understood_notice() -> (r: String)
    ensures
        r@ == "Sorry, I can't understand your request."@,
{
    String::from_str("Sorry, I can't understand your request.")
}

/// What follows the resolution of a request.
pub enum Resolution {
    /// No candidate command: answered with this fixed notice, nothing is run.
    NotUnderstood(String),
    /// The candidates are run.
    Execute,
}

/// Decides, from the candidate commands, whether anything is run.
pub fn resolution(commands: &Vec<CommandArgs>) -> (r: Resolution)
    ensures
        r is NotUnderstood <==> commands@.len() == 0,
        r matches Resolution::NotUnderstood(n) ==> n@ == "Sorry, I can't understand your request."@,
{
    if commands.len() == 0 {
        Resolution::NotUnderstood(not_understood_notice())
    } else {
        Resolution::Execute
    }
}

/// The engine's tokens for a message text, with its mentions removed first.
pub fn tokens_for(text: &str) -> (r: (String, Vec<Token>))
    ensures
        r.0@ == strip_mentions_spec(text@),
        r.1@ == tokens_of(r.0@),
{
    let cleaned = strip_mentions(text);
    let tokens = Tokenizer::new().tokenize(cleaned.as_str());
    (cleaned, tokens)
}

/// The media type of an attachment's stream: its declared content type when
/// that parses, `application/octet-stream` otherwise.
pub open spec fn stream_media_type(content_type: Option<String>) -> Seq<char> {
    match content_type {
        Some(t) => match parsed_media_type(t@) {
            Some(m) => m,
            None => "application/octet-stream"@,
        },
        None => "application/octet-stream"@,
    }
}

/// Both halves of preparing a request are repeatable: two preparations of
/// one text give the same cleaned text and the same tokens.
pub proof fn lemma_preparation_is_repeatable(
    text: Seq<char>,
    first: (Seq<char>, Seq<Token>),
    second: (Seq<char>, Seq<Token>),
)
    requires
        first.0 == strip_mentions_spec(text),
        first.1 == tokens_of(first.0),
        second.0 == strip_mentions_spec(text),
        second.1 == tokens_of(second.0),
    ensures
        first == second,
{
}

/// The blocks of one engine output, each in the library's form, in order.
pub open spec fn converted_blocks(output: yozuk_sdk::output::Output) -> Seq<ContentBlock> {
    blocks_in(output).map_values(|b: yozuk_sdk::block::Block| converted_block(b))
}

/// `groups` is the library's form of the engine's `outputs`: one group for
/// each output, holding its blocks converted, in order.
pub open spec fn converts(groups: Seq<OutputGroup>, outputs: Seq<yozuk_sdk::output::Output>) -> bool {
    &&& groups.len() == outputs.len()
    &&& forall|i: int| 0 <= i < groups.len() ==> #[trigger] groups[i].blocks@ == converted_blocks(outputs[i])
}

/// Whether the engine reported success or failure, the same outputs are
/// shown the same way: any two conversions of one list of engine outputs
/// render to the same text and the same attachments.
pub proof fn lemma_either_variant_renders_alike(
    outputs: Seq<yozuk_sdk::output::Output>,
    from_ok: Seq<OutputGroup>,
    from_err: Seq<OutputGroup>,
    limit: nat,
)
    requires
        converts(from_ok, outputs),
        converts(from_err, outputs),
    ensures
        rendered_text(from_ok, limit) == rendered_text(from_err, limit),
        rendered_files(from_ok, limit) == rendered_files(from_err, limit),
{
    lemma_same_blocks_same_pieces(from_ok, from_err, limit);
}

proof fn lemma_same_blocks_same_pieces(a: Seq<OutputGroup>, b: Seq<OutputGroup>, limit: nat)
    requires
        a.len() == b.len(),
        forall|i: int| 0 <= i < a.len() ==> #[trigger] a[i].blocks@ == b[i].blocks@,
    ensures
        pieces_of(a, limit) == pieces_of(b, limit),
    decreases a.len(),
{
    if a.len() > 0 {
        let (a1, b1) = (a.drop_last(), b.drop_last());
        assert forall|i: int| 0 <= i < a1.len() implies #[trigger] a1[i].blocks@ == b1[i].blocks@ by {
            assert(a1[i] == a[i] && b1[i] == b[i]);
        }
        lemma_same_blocks_same_pieces(a1, b1, limit);
        assert(a.last().blocks@ == b[b.len() - 1].blocks@);
    }
}

/// An input stream for a downloaded attachment: its declared content type
/// when that is a valid media type, `application/octet-stream` otherwise.
pub fn stream_for(data: Vec<u8>, content_type: Option<String>) -> (r: InputStream)
    ensures
        stream_contents(r).0 == data@,
        stream_contents(r).1 == stream_media_type(content_type),
{
    let parsed = match content_type {
        Some(t) => parse_media_type(t),
        None => None,
    };
    let media_type = match parsed {
        Some(m) => m,
        None => octet_stream(),
    };
    input_stream(data, media_type)
}

/// The library's form of the engine's outputs, in the same order.
pub fn convert_outputs(outputs: Vec<yozuk_sdk::output::Output>) -> (r: Vec<OutputGroup>)
    ensures
        converts(r@, outputs@),
{
    let mut rest = outputs;
    let mut r: Vec<OutputGroup> = Vec::new();
    let ghost all = outputs@;
    while rest.len() > 0
        invariant
            r@.len() + rest@.len() == all.len(),
            rest@ == all.subrange(r@.len() as int, all.len() as int),
            converts(r@, all.subrange(0, r@.len() as int)),
        decreases rest@.len(),
    {
        let ghost k = r@.len() as int;
        let o = rest.remove(0);
        assert(o == all[k]);
        let mut engine = engine_blocks(o);
        let ghost eall = engine@;
        let mut blocks: Vec<ContentBlock> = Vec::new();
        while engine.len() > 0
            invariant
                blocks@.len() + engine@.len() == eall.len(),
                engine@ == eall.subrange(blocks@.len() as int, eall.len() as int),
                blocks@ == eall.subrange(0, blocks@.len() as int).map_values(
                    |b: yozuk_sdk::block::Block| converted_block(b),
                ),
            decreases engine@.len(),
        {
            let ghost j = blocks@.len() as int;
            let b = engine.remove(0);
            assert(b == eall[j]);
            blocks.push(convert_block(b));
            assert(blocks@ =~= eall.subrange(0, j + 1).map_values(
                |b: yozuk_sdk::block::Block| converted_block(b),
            ));
        }
        assert(eall.subrange(0, blocks@.len() as int) =~= eall);
        let ghost prev = r@;
        r.push(OutputGroup { blocks });
        assert forall|i: int| 0 <= i < r@.len() implies #[trigger] r@[i].blocks@ == converted_blocks(
            all.subrange(0, r@.len() as int)[i],
        ) by {
            if i < k {
                assert(r@[i] == prev[i]);
                assert(all.subrange(0, k)[i] == all.subrange(0, k + 1)[i]);
            }
        }
    }
    assert(all.subrange(0, r@.len() as int) =~= all);
    r
}

/// The library's form of what the engine's run returned: `Ok` is a success,
/// `Err` a failure.
pub fn execution_result(
    result: Result<Vec<yozuk_sdk::output::Output>, Vec<yozuk_sdk::output::Output>>,
) -> (r: ExecutionResult)
    ensures
        result is Ok <==> r is Success,
        converts(
            r.outputs_spec(),
            match result {
                Ok(o) => o@,
                Err(o) => o@,
            },
        ),
{
    match result {
        Ok(o) => ExecutionResult::Success(convert_outputs(o)),
        Err(o) => ExecutionResult::Failure(convert_outputs(o)),
    }
}

/// The reply to an executed request: one combined message, with text of at
/// most [`INLINE_LIMIT`] characters shown inline.
pub fn reply(result: &ExecutionResult) -> (r: Rendered)
    ensures
        r.text@ == crate::render::rendered_text(result.outputs_spec(), INLINE_LIMIT as nat),
        crate::render::attachments_view(r.files@) == crate::render::rendered_files(
            result.outputs_spec(),
            INLINE_LIMIT as nat,
        ),
{
    render(result, INLINE_LIMIT)
}

/// What a transport puts in place of a message it could not decrypt.
pub open spec fn decrypt_failure_marker() -> Seq<char> {
    "[This message was encrypted for another setup.]"@
}

/// What becomes of an incoming mail-like chat message.
pub enum Incoming {
    /// No text, or a system message: nothing is answered.
    Ignore,
    /// The message could not be decrypted: answered with a fixed notice.
    Undecryptable,
    /// To be handled as a request.
    Request,
}

/// Whether `s` ends with `suffix`.
pub open spec fn ends_with(s: Seq<char>, suffix: Seq<char>) -> bool {
    suffix.len() <= s.len() && s.subrange(s.len() - suffix.len(), s.len() as int) == suffix
}

fn ends_with_exec(s: &str, suffix: &str) -> (r: bool)
    ensures
        r == ends_with(s@, suffix@),
{
    let n = s.unicode_len();
    let m = suffix.unicode_len();
    if m > n {
        return false;
    }
    let mut i: usize = 0;
    while i < m
        invariant
            n == s@.len(),
            m == suffix@.len(),
            m <= n,
            i <= m,
            forall|k: int| 0 <= k < i ==> s@[n - m + k] == suffix@[k],
        decreases m - i,
    {
        if s.get_char(n - m + i) != suffix.get_char(i) {
            assert(s@.subrange(n - m, n as int)[i as int] != suffix@[i as int]);
            return false;
        }
        i = i + 1;
    }
    assert(s@.subrange(n - m, n as int) =~= suffix@);
    true
}

/// Decides what is done with an incoming message: its text ending with the
/// marker of a failed decryption gets a notice, a system message or one
/// without text is ignored, and any other is a request.
pub fn classify_incoming(text: Option<&str>, system_message: bool) -> (r: Incoming)
    ensures
        text is None ==> r is Ignore,
        text matches Some(t) ==> (r is Undecryptable <==> ends_with(t@, decrypt_failure_marker())),
        text matches Some(t) ==> (r is Request <==> !ends_with(t@, decrypt_failure_marker())
            && !system_message),
{
    match text {
        None => Incoming::Ignore,
        Some(t) => {
            if ends_with_exec(t, "[This message was encrypted for another setup.]") {
                Incoming::Undecryptable
            } else if system_message {
                Incoming::Ignore
            } else {
                Incoming::Request
            }
        },
    }
}

/// The notice sent for a message that could not be decrypted.
pub fn undecryptable_notice() -> (r: String)
    ensures
        r@ == "Sorry, I can't decrypt your message. Please send the message again."@,
{
    String::from_str("Sorry, I can't decrypt your message. Please send the message again.")
}

} // verus!
