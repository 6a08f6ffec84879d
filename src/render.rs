//! Turning the engine's output blocks into what a chat transport can send.
use vstd::prelude::*;

use crate::external::{decode_utf8, extension_of, file_extension, utf8_text};

verus! {

/// One renderable unit of engine output.
pub enum ContentBlock {
    /// Human-readable text.
    Comment(String),
    /// A payload with its media type and, possibly empty, file name.
    Data { data: Vec<u8>, media_type: String, file_name: String },
    /// A kind of block this library does not know how to show.
    Unsupported,
}

/// The blocks emitted for one resolved command, in order.
pub struct OutputGroup {
    pub blocks: Vec<ContentBlock>,
}

/// What the engine returned: both variants carry outputs that are shown the
/// same way; a failure only explains itself through its blocks.
pub enum ExecutionResult {
    Success(Vec<OutputGroup>),
    Failure(Vec<OutputGroup>),
}

/// A file to attach to a message, with its media type.
pub struct Attachment {
    pub data: Vec<u8>,
    pub name: String,
    pub media_type: String,
}

/// What one block becomes: text for the message body, or a file.
pub enum Unit {
    Text(String),
    File(Attachment),
}

/// One combined message: its text, then its attachments.
pub struct Rendered {
    pub text: String,
    pub files: Vec<Attachment>,
}

/// The mathematical content of a [`Unit`].
pub enum Piece {
    Text(Seq<char>),
    File(Seq<u8>, Seq<char>, Seq<char>),
}

impl View for Unit {
    type V = Piece;

    open spec fn view(&self) -> Piece {
        match self {
            Unit::Text(t) => Piece::Text(t@),
            Unit::File(a) => Piece::File(a.data@, a.name@, a.media_type@),
        }
    }
}

impl View for Attachment {
    type V = (Seq<u8>, Seq<char>, Seq<char>);

    open spec fn view(&self) -> (Seq<u8>, Seq<char>, Seq<char>) {
        (self.data@, self.name@, self.media_type@)
    }
}

impl ExecutionResult {
    pub open spec fn outputs_spec(&self) -> Seq<OutputGroup> {
        match self {
            ExecutionResult::Success(o) => o@,
            ExecutionResult::Failure(o) => o@,
        }
    }

    /// The outputs, whichever the variant.
    pub fn outputs(&self) -> (r: &Vec<OutputGroup>)
        ensures
            r@ == self.outputs_spec(),
    {
        match self {
            ExecutionResult::Success(o) => o,
            ExecutionResult::Failure(o) => o,
        }
    }
}

pub open spec fn fenced(t: Seq<char>) -> Seq<char> {
    "```\n"@ + t + "\n```"@
}

/// The name of an attachment: its own, or `data.` and an extension for its
/// media type when it has none.
pub open spec fn attachment_name(media_type: Seq<char>, file_name: Seq<char>) -> Seq<char> {
    if file_name.len() == 0 {
        "data."@ + extension_of(media_type)
    } else {
        file_name
    }
}

/// What one block is shown as, where text of at most `limit` characters is
/// shown inline.
pub open spec fn piece_of(b: ContentBlock, limit: nat) -> Piece {
    match b {
        ContentBlock::Comment(t) => Piece::Text(t@),
        ContentBlock::Data { data, media_type, file_name } => match utf8_text(data@) {
            Some(t) if t.len() <= limit => Piece::Text(fenced(t)),
            _ => Piece::File(data@, attachment_name(media_type@, file_name@), media_type@),
        },
        ContentBlock::Unsupported => Piece::Text("[unimplemented]"@),
    }
}

pub open spec fn pieces_of_blocks(bs: Seq<ContentBlock>, limit: nat) -> Seq<Piece> {
    bs.map_values(|b: ContentBlock| piece_of(b, limit))
}

/// The pieces of all outputs, in the order they were emitted.
pub open spec fn pieces_of(os: Seq<OutputGroup>, limit: nat) -> Seq<Piece>
    decreases os.len(),
{
    if os.len() == 0 {
        Seq::empty()
    } else {
        pieces_of(os.drop_last(), limit) + pieces_of_blocks(os.last().blocks@, limit)
    }
}

/// The text pieces, in order.
pub open spec fn texts_of(ps: Seq<Piece>) -> Seq<Seq<char>>
    decreases ps.len(),
{
    if ps.len() == 0 {
        Seq::empty()
    } else {
        match ps.last() {
            Piece::Text(t) => texts_of(ps.drop_last()).push(t),
            Piece::File(_, _, _) => texts_of(ps.drop_last()),
        }
    }
}

/// The file pieces, in order.
pub open spec fn files_of(ps: Seq<Piece>) -> Seq<(Seq<u8>, Seq<char>, Seq<char>)>
    decreases ps.len(),
{
    if ps.len() == 0 {
        Seq::empty()
    } else {
        match ps.last() {
            Piece::Text(_) => files_of(ps.drop_last()),
            Piece::File(d, n, m) => files_of(ps.drop_last()).push((d, n, m)),
        }
    }
}

/// The lines joined with a newline between each two.
pub open spec fn join_lines(lines: Seq<Seq<char>>) -> Seq<char>
    decreases lines.len(),
{
    if lines.len() == 0 {
        Seq::empty()
    } else if lines.len() == 1 {
        lines[0]
    } else {
        join_lines(lines.drop_last()) + "\n"@ + lines.last()
    }
}

fn copy_bytes(v: &Vec<u8>) -> (r: Vec<u8>)
    ensures
        r@ == v@,
{
    let mut r: Vec<u8> = Vec::with_capacity(v.len());
    let mut i: usize = 0;
    while i < v.len()
        invariant
            i <= v@.len(),
            r@ == v@.subrange(0, i as int),
        decreases v@.len() - i,
    {
        r.push(v[i]);
        i = i + 1;
    }
    assert(r@ =~= v@);
    r
}

/// Renders one block; text of at most `limit` characters is shown inline in
/// a code fence.
pub fn render_block(b: &ContentBlock, limit: usize) -> (u: Unit)
    ensures
        u@ == piece_of(*b, limit as nat),
{
    match b {
        ContentBlock::Comment(t) => Unit::Text(t.clone()),
        ContentBlock::Data { data, media_type, file_name } => {
            match decode_utf8(data) {
                Some(t) if t.unicode_len() <= limit => {
                    let mut s = String::from_str("```\n");
                    s.append(t);
                    s.append("\n```");
                    Unit::Text(s)
                },
                _ => {
                    let name = if file_name.unicode_len() == 0 {
                        let mut n = String::from_str("data.");
                        n.append(file_extension(media_type.as_str()));
                        n
                    } else {
                        file_name.clone()
                    };
                    Unit::File(Attachment { data: copy_bytes(data), name, media_type: media_type.clone() })
                },
            }
        },
        ContentBlock::Unsupported => Unit::Text(String::from_str("[unimplemented]")),
    }
}

pub open spec fn pieces_view(us: Seq<Unit>) -> Seq<Piece> {
    us.map_values(|u: Unit| u@)
}

pub open spec fn attachments_view(fs: Seq<Attachment>) -> Seq<(Seq<u8>, Seq<char>, Seq<char>)> {
    fs.map_values(|a: Attachment| a@)
}

/// Renders every block of every output, one unit per block, in the order they
/// were emitted; for transports that send one message per block.
pub fn render_units(outputs: &Vec<OutputGroup>, limit: usize) -> (r: Vec<Unit>)
    ensures
        pieces_view(r@) == pieces_of(outputs@, limit as nat),
{
    let mut r: Vec<Unit> = Vec::new();
    let mut i: usize = 0;
    while i < outputs.len()
        invariant
            i <= outputs@.len(),
            pieces_view(r@) == pieces_of(outputs@.subrange(0, i as int), limit as nat),
        decreases outputs@.len() - i,
    {
        let blocks = &outputs[i].blocks;
        let ghost before = pieces_view(r@);
        let mut j: usize = 0;
        while j < blocks.len()
            invariant
                i < outputs@.len(),
                blocks@ == outputs@[i as int].blocks@,
                j <= blocks@.len(),
                pieces_view(r@) == before + pieces_of_blocks(blocks@.subrange(0, j as int), limit as nat),
            decreases blocks@.len() - j,
        {
            let u = render_block(&blocks[j], limit);
            let ghost prev = r@;
            r.push(u);
            assert(pieces_view(r@) =~= pieces_view(prev).push(u@));
            assert(pieces_of_blocks(blocks@.subrange(0, j + 1), limit as nat) =~= pieces_of_blocks(
                blocks@.subrange(0, j as int),
                limit as nat,
            ).push(piece_of(blocks@[j as int], limit as nat)));
            j = j + 1;
        }
        assert(blocks@.subrange(0, j as int) =~= blocks@);
        assert(outputs@.subrange(0, i + 1).drop_last() =~= outputs@.subrange(0, i as int));
        i = i + 1;
    }
    assert(outputs@.subrange(0, i as int) =~= outputs@);
    r
}

/// Puts the units into one message: the texts joined by newlines, and the
/// files after them, each group in its original order.
pub fn combine(units: Vec<Unit>) -> (r: Rendered)
    ensures
        r.text@ == join_lines(texts_of(pieces_view(units@))),
        attachments_view(r.files@) == files_of(pieces_view(units@)),
{
    let mut text = String::new();
    let mut any_text = false;
    let mut files: Vec<Attachment> = Vec::new();
    let mut rest = units;
    let ghost all = units@;
    let ghost mut k: int = 0;
    while rest.len() > 0
        invariant
            0 <= k <= all.len(),
            rest@ == all.subrange(k, all.len() as int),
            text@ == join_lines(texts_of(pieces_view(all.subrange(0, k)))),
            any_text == (texts_of(pieces_view(all.subrange(0, k))).len() > 0),
            attachments_view(files@) == files_of(pieces_view(all.subrange(0, k))),
        decreases rest@.len(),
    {
        let u = rest.remove(0);
        let ghost pv = pieces_view(all.subrange(0, k + 1));
        assert(pv.drop_last() =~= pieces_view(all.subrange(0, k)));
        assert(pv.last() == u@);
        match u {
            Unit::Text(t) => {
                let ghost prev = texts_of(pieces_view(all.subrange(0, k)));
                assert(texts_of(pv) == prev.push(t@));
                assert(prev.push(t@).drop_last() =~= prev);
                if any_text {
                    text.append("\n");
                } else {
                    assert(prev.push(t@) =~= seq![t@]);
                }
                text.append(t.as_str());
                any_text = true;
            },
            Unit::File(a) => {
                files.push(a);
                assert(attachments_view(files@) =~= files_of(pv));
            },
        }
        proof {
            k = k + 1;
        }
    }
    assert(all.subrange(0, k) =~= all);
    Rendered { text, files }
}

/// The text of the combined message for these outputs.
pub open spec fn rendered_text(os: Seq<OutputGroup>, limit: nat) -> Seq<char> {
    join_lines(texts_of(pieces_of(os, limit)))
}

/// The attachments of the combined message for these outputs.
pub open spec fn rendered_files(os: Seq<OutputGroup>, limit: nat) -> Seq<(Seq<u8>, Seq<char>, Seq<char>)> {
    files_of(pieces_of(os, limit))
}

/// Renders an execution result as one combined message, the same way for
/// either variant.
pub fn render(result: &ExecutionResult, limit: usize) -> (r: Rendered)
    ensures
        r.text@ == rendered_text(result.outputs_spec(), limit as nat),
        attachments_view(r.files@) == rendered_files(result.outputs_spec(), limit as nat),
{
    combine(render_units(result.outputs(), limit))
}

/// All blocks of all outputs, in the order they were emitted.
pub open spec fn all_blocks(os: Seq<OutputGroup>) -> Seq<ContentBlock>
    decreases os.len(),
{
    if os.len() == 0 {
        Seq::empty()
    } else {
        all_blocks(os.drop_last()) + os.last().blocks@
    }
}

/// Rendering keeps the emission order: the rendered pieces are exactly the
/// blocks of all outputs, one for each, in the order the engine emitted them.
pub proof fn lemma_render_keeps_order(os: Seq<OutputGroup>, limit: nat)
    ensures
        pieces_of(os, limit) == all_blocks(os).map_values(|b: ContentBlock| piece_of(b, limit)),
    decreases os.len(),
{
    if os.len() > 0 {
        lemma_render_keeps_order(os.drop_last(), limit);
        assert(pieces_of(os, limit) =~= all_blocks(os).map_values(|b: ContentBlock| piece_of(b, limit)));
    }
}

/// A failure is shown exactly as a success carrying the same outputs.
pub proof fn lemma_failure_renders_as_success(outputs: Vec<OutputGroup>, limit: nat)
    ensures
        rendered_text(ExecutionResult::Failure(outputs).outputs_spec(), limit) == rendered_text(
            ExecutionResult::Success(outputs).outputs_spec(),
            limit,
        ),
        rendered_files(ExecutionResult::Failure(outputs).outputs_spec(), limit) == rendered_files(
            ExecutionResult::Success(outputs).outputs_spec(),
            limit,
        ),
{
}

/// Text data of exactly `limit` characters is shown inline; one character
/// more and it becomes an attachment.
pub proof fn lemma_inline_boundary(
    data: Vec<u8>,
    media_type: String,
    file_name: String,
    limit: nat,
)
    requires
        utf8_text(data@) is Some,
    ensures
        utf8_text(data@).unwrap().len() == limit ==> piece_of(
            ContentBlock::Data { data, media_type, file_name },
            limit,
        ) == Piece::Text(fenced(utf8_text(data@).unwrap())),
        utf8_text(data@).unwrap().len() == limit + 1 ==> piece_of(
            ContentBlock::Data { data, media_type, file_name },
            limit,
        ) == Piece::File(data@, attachment_name(media_type@, file_name@), media_type@),
{
}

} // verus!
