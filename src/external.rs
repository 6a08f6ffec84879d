//! Everything this library takes on trust from std and from the Yozuk crates.
use vstd::prelude::*;

use crate::render::ContentBlock;
use mediatype::MediaTypeBuf;
use yozuk_sdk::prelude::{CommandArgs, InputStream, Token, Tokenizer};

verus! {

/// What the bytes read as UTF-8 text, or `None` when they are not valid UTF-8.
pub uninterp spec fn utf8_text(bytes: Seq<u8>) -> Option<Seq<char>>;

/// The file extension that yozuk-helper-filetype picks for a media type.
pub uninterp spec fn extension_of(media_type: Seq<char>) -> Seq<char>;

/// Relies on `std::str::from_utf8`: the bytes as text exactly when they are
/// valid UTF-8.
#[verifier::external_body]
pub(crate) fn decode_utf8(bytes: &Vec<u8>) -> (r: Option<&str>)
    ensures
        match r {
            Some(t) => utf8_text(bytes@) == Some(t@),
            None => utf8_text(bytes@) is None,
        },
{
    std::str::from_utf8(bytes.as_slice()).ok()
}

/// Relies on `yozuk_helper_filetype::get_file_extension`: an extension looked
/// up from the media type's text.
#[verifier::external_body]
pub(crate) fn file_extension(media_type: &str) -> (r: &'static str)
    ensures
        r@ == extension_of(media_type@),
{
    yozuk_helper_filetype::get_file_extension(media_type)
}

#[verifier::external_type_specification]
#[verifier::external_body]
pub struct ExToken(Token);

#[verifier::external_type_specification]
#[verifier::external_body]
pub struct ExCommandArgs(CommandArgs);

#[verifier::external_type_specification]
#[verifier::external_body]
pub struct ExInputStream(InputStream);

#[verifier::external_type_specification]
#[verifier::external_body]
pub struct ExOutput(yozuk_sdk::output::Output);

#[verifier::external_type_specification]
#[verifier::external_body]
pub struct ExEngineBlock(yozuk_sdk::block::Block);

#[verifier::external_type_specification]
#[verifier::external_body]
pub struct ExMediaTypeBuf(MediaTypeBuf);

#[verifier::external_type_specification]
#[verifier::external_body]
pub struct ExTokenizer(Tokenizer);

/// Relies on `yozuk_sdk::Tokenizer::new`: a tokenizer, which holds no state.
pub assume_specification[ Tokenizer::new ]() -> Tokenizer;

/// The engine's tokens for a command line.
pub uninterp spec fn tokens_of(text: Seq<char>) -> Seq<Token>;

/// Relies on `yozuk_sdk::Tokenizer::tokenize`: splits a command line into the
/// engine's tokens; the tokenizer holds no state, so they depend on the text
/// alone.
pub assume_specification[ Tokenizer::tokenize ](tokenizer: &Tokenizer, input: &str) -> (r: Vec<Token>)
    ensures
        r@ == tokens_of(input@),
;

/// The blocks that an engine output holds, in order.
pub uninterp spec fn blocks_in(output: yozuk_sdk::output::Output) -> Seq<yozuk_sdk::block::Block>;

/// The library's form of one engine block.
pub uninterp spec fn converted_block(block: yozuk_sdk::block::Block) -> ContentBlock;

/// The media type's text.
pub uninterp spec fn media_type_text(media_type: MediaTypeBuf) -> Seq<char>;

/// The text of the media type that a content type parses to, or `None` when
/// it is not a valid media type.
pub uninterp spec fn parsed_media_type(text: Seq<char>) -> Option<Seq<char>>;

/// The bytes an input stream reads and the text of its media type.
pub uninterp spec fn stream_contents(stream: InputStream) -> (Seq<u8>, Seq<char>);

/// Relies on the public `blocks` field of `yozuk_sdk::output::Output`: the blocks of
/// one output, in order.
#[verifier::external_body]
pub(crate) fn engine_blocks(output: yozuk_sdk::output::Output) -> (r: Vec<yozuk_sdk::block::Block>)
    ensures
        r@ == blocks_in(output),
{
    output.blocks
}

/// Relies on the variants and public fields of `yozuk_sdk::block::Block`: takes the
/// text of a comment, and the bytes, media type text and file name of data;
/// any other kind becomes `Unsupported`.
#[verifier::external_body]
pub(crate) fn convert_block(block: yozuk_sdk::block::Block) -> (r: ContentBlock)
    ensures
        r == converted_block(block),
{
    match block {
        yozuk_sdk::block::Block::Comment(c) => ContentBlock::Comment(c.text),
        yozuk_sdk::block::Block::Data(d) => ContentBlock::Data {
            data: d.data.to_vec(),
            media_type: d.media_type.to_string(),
            file_name: d.file_name,
        },
        _ => ContentBlock::Unsupported,
    }
}

/// Relies on `mediatype::MediaTypeBuf::from_string`: parses a declared
/// content type, `None` when it is not a valid media type.
#[verifier::external_body]
pub(crate) fn parse_media_type(text: String) -> (r: Option<MediaTypeBuf>)
    ensures
        match r {
            Some(m) => parsed_media_type(text@) == Some(media_type_text(m)),
            None => parsed_media_type(text@) is None,
        },
{
    MediaTypeBuf::from_string(text).ok()
}

/// Relies on `mediatype::MediaTypeBuf::new`: the media type
/// `application/octet-stream`.
#[verifier::external_body]
pub(crate) fn octet_stream() -> (r: MediaTypeBuf)
    ensures
        media_type_text(r) == "application/octet-stream"@,
{
    MediaTypeBuf::new(mediatype::names::APPLICATION, mediatype::names::OCTET_STREAM)
}

/// Relies on `yozuk_sdk::InputStream::new`: an in-memory stream of the bytes
/// with the given media type.
#[verifier::external_body]
pub(crate) fn input_stream(data: Vec<u8>, media_type: MediaTypeBuf) -> (r: InputStream)
    ensures
        stream_contents(r) == (data@, media_type_text(media_type)),
{
    InputStream::new(std::io::Cursor::new(data), media_type)
}

} // verus!
