//! The line protocol of test servers.

use vstd::prelude::*;

use crate::text::{
    begins_with, decimal, leading_words, lossy_text, parse_signed, parsed_signed, read_lossy,
    same_text, starts_with, to_chars, to_decimal, trim_line_end, two_words, without_line_end,
};

verus! {

/// The most bytes that a line may have.
pub const MAX_LINE_BYTES: usize = 512;

/// The most bytes that are read or written at once: 32 KiB.
pub const IO_BUFFER_BYTES: usize = 32_768;

/// The byte that uploads are made of.
pub const DATA_BYTE: u8 = 0x42;

/// What is waited for when something goes wrong.
#[derive(Clone, Copy, Debug, PartialEq, Eq, Structural)]
pub enum LineKind {
    Ping,
    Upload,
}

impl LineKind {
    pub open spec fn name(self) -> Seq<char> {
        match self {
            LineKind::Ping => "PING response"@,
            LineKind::Upload => "UPLOAD response"@,
        }
    }

    pub fn label(self) -> (r: &'static str)
        ensures
            r@ == self.name(),
    {
        match self {
            LineKind::Ping => "PING response",
            LineKind::Upload => "UPLOAD response",
        }
    }
}

#[derive(Debug)]
pub enum ModernError {
    LineTooLong(LineKind),
    LineCutOff(LineKind),
    DownloadCutOff,
    UploadRefused(String),
    PongMissing,
    NotPong,
    PongTokenMissing,
    PongTokenNotNumeric(String),
}

impl ModernError {
    pub open spec fn text(self) -> Seq<char> {
        match self {
            ModernError::LineTooLong(kind) => "modern speedtest "@ + kind.name() + " exceeded "@
                + decimal(MAX_LINE_BYTES as int) + " bytes"@,
            ModernError::LineCutOff(kind) => "modern speedtest "@ + kind.name()
                + " closed before line terminator"@,
            ModernError::DownloadCutOff =>
                "modern DOWNLOAD stream closed before receiving all requested bytes"@,
            ModernError::UploadRefused(line) => "modern UPLOAD received invalid response '"@ + line@
                + "'"@,
            ModernError::PongMissing => "modern PING response missing command token"@,
            ModernError::NotPong => "modern PING response did not start with PONG"@,
            ModernError::PongTokenMissing => "modern PING response missing token"@,
            ModernError::PongTokenNotNumeric(token) =>
                "modern PING response token is not numeric ('"@ + token@ + "')"@,
        }
    }

    pub fn message(&self) -> (r: String)
        ensures
            r@ == self.text(),
    {
        match self {
            ModernError::LineTooLong(kind) => {
                let mut out = "modern speedtest ".to_owned();
                out.append(kind.label());
                out.append(" exceeded ");
                out.append(to_decimal(MAX_LINE_BYTES as u64).as_str());
                out.append(" bytes");
                out
            },
            ModernError::LineCutOff(kind) => {
                let mut out = "modern speedtest ".to_owned();
                out.append(kind.label());
                out.append(" closed before line terminator");
                out
            },
            ModernError::DownloadCutOff =>
                "modern DOWNLOAD stream closed before receiving all requested bytes".to_owned(),
            ModernError::UploadRefused(line) => {
                let mut out = "modern UPLOAD received invalid response '".to_owned();
                out.append(line.as_str());
                out.append("'");
                out
            },
            ModernError::PongMissing => "modern PING response missing command token".to_owned(),
            ModernError::NotPong => "modern PING response did not start with PONG".to_owned(),
            ModernError::PongTokenMissing => "modern PING response missing token".to_owned(),
            ModernError::PongTokenNotNumeric(token) => {
                let mut out = "modern PING response token is not numeric ('".to_owned();
                out.append(token.as_str());
                out.append("')");
                out
            },
        }
    }
}

/// The command that asks for an echo of a token.
pub fn ping_command(token: u64) -> (r: String)
    ensures
        r@ == "PING "@ + decimal(token as int) + seq!['\n'],
{
    let mut out = "PING ".to_owned();
    out.append(to_decimal(token).as_str());
    out.push('\n');
    assert(out@ =~= "PING "@ + decimal(token as int) + seq!['\n']);
    out
}

/// The command that asks for bytes.
pub fn download_command(bytes: usize) -> (r: String)
    ensures
        r@ == "DOWNLOAD "@ + decimal(bytes as int) + seq!['\n'],
{
    let mut out = "DOWNLOAD ".to_owned();
    out.append(to_decimal(bytes as u64).as_str());
    out.push('\n');
    assert(out@ =~= "DOWNLOAD "@ + decimal(bytes as int) + seq!['\n']);
    out
}

/// The command that announces an upload.
pub open spec fn upload_line(total_size: int) -> Seq<char> {
    "UPLOAD "@ + decimal(total_size) + " 0\n"@
}

pub fn upload_command(total_size: usize) -> (r: String)
    ensures
        r@ == upload_line(total_size as int),
{
    let mut out = "UPLOAD ".to_owned();
    out.append(to_decimal(total_size as u64).as_str());
    out.append(" 0\n");
    assert(out@ =~= upload_line(total_size as int));
    out
}

/// The command that ends the conversation.
pub fn quit_command() -> (r: &'static str)
    ensures
        r@ == "QUIT\n"@,
{
    "QUIT\n"
}

/// The bytes that follow an upload command. The command itself counts towards the total; it is
/// made of one-byte characters.
pub open spec fn upload_payload(total_size: int) -> int {
    if total_size <= upload_line(total_size).len() {
        0
    } else {
        total_size - upload_line(total_size).len()
    }
}

pub fn upload_payload_size(total_size: usize) -> (r: usize)
    ensures
        r == upload_payload(total_size as int),
{
    let command = upload_command(total_size);
    let length: usize = command.as_str().unicode_len();
    if total_size <= length {
        0
    } else {
        total_size - length
    }
}

/// How many of the remaining bytes are read or written next.
pub fn next_chunk(remaining: usize) -> (r: usize)
    ensures
        r == if remaining < IO_BUFFER_BYTES {
            remaining
        } else {
            IO_BUFFER_BYTES
        },
{
    if remaining < IO_BUFFER_BYTES {
        remaining
    } else {
        IO_BUFFER_BYTES
    }
}

/// The bytes that remain of a download after a read.
pub fn after_read(remaining: usize, read: usize) -> (r: Result<usize, ModernError>)
    requires
        read <= remaining,
    ensures
        match r {
            Ok(left) => read > 0 && left == remaining - read,
            Err(error) => read == 0 && error == ModernError::DownloadCutOff,
        },
{
    if read == 0 {
        Err(ModernError::DownloadCutOff)
    } else {
        Ok(remaining - read)
    }
}

/// What is to be done for a line.
#[derive(Debug)]
pub enum LineStep {
    ReadByte,
    /// The line, without its end.
    Line(String),
    Failed(ModernError),
}

/// A line that is being read.
#[derive(Debug)]
pub struct LineReader {
    pub kind: LineKind,
    pub bytes: Vec<u8>,
}

impl LineReader {
    pub fn new(kind: LineKind) -> (r: LineReader)
        ensures
            r.kind == kind,
            r.bytes@ == Seq::<u8>::empty(),
    {
        LineReader { kind, bytes: Vec::new() }
    }

    /// Takes the outcome of a read into account: a byte, or the end of the stream.
    pub fn on_read(&mut self, read: Option<u8>) -> (step: LineStep)
        ensures
            final(self).kind == old(self).kind,
            match read {
                None => final(self).bytes@ == old(self).bytes@ && step == LineStep::Failed(
                    ModernError::LineCutOff(old(self).kind),
                ),
                Some(byte) => final(self).bytes@ == old(self).bytes@.push(byte) && match step {
                    LineStep::Line(line) => byte == 10 && line@ == without_line_end(
                        lossy_text(final(self).bytes@),
                    ),
                    LineStep::Failed(error) => byte != 10 && final(self).bytes@.len()
                        >= MAX_LINE_BYTES && error == ModernError::LineTooLong(old(self).kind),
                    LineStep::ReadByte => byte != 10 && final(self).bytes@.len() < MAX_LINE_BYTES,
                },
            },
    {
        match read {
            None => LineStep::Failed(ModernError::LineCutOff(self.kind)),
            Some(byte) => {
                self.bytes.push(byte);
                if byte == 10 {
                    let text = read_lossy(&self.bytes);
                    return LineStep::Line(trim_line_end(text.as_str()));
                }
                if self.bytes.len() >= MAX_LINE_BYTES {
                    return LineStep::Failed(ModernError::LineTooLong(self.kind));
                }
                LineStep::ReadByte
            },
        }
    }
}

/// Whether the answer to an upload confirms it.
pub fn check_upload_reply(line: String) -> (r: Result<(), ModernError>)
    ensures
        match r {
            Ok(()) => begins_with(line@, "OK "@),
            Err(error) => !begins_with(line@, "OK "@) && error == ModernError::UploadRefused(line),
        },
{
    if starts_with(&to_chars(line.as_str()), "OK ") {
        Ok(())
    } else {
        Err(ModernError::UploadRefused(line))
    }
}

/// Whether a line is the echo of a number.
pub fn validate_pong_line(line: &str) -> (r: Result<(), ModernError>)
    ensures
        match leading_words(line@).0 {
            None => r == Err::<(), ModernError>(ModernError::PongMissing),
            Some(command) => if command != "PONG"@ {
                r == Err::<(), ModernError>(ModernError::NotPong)
            } else {
                match leading_words(line@).1 {
                    None => r == Err::<(), ModernError>(ModernError::PongTokenMissing),
                    Some(token) => if parsed_signed(token) is Some {
                        r is Ok
                    } else {
                        r matches Err(ModernError::PongTokenNotNumeric(shown)) && shown@ == token
                    },
                }
            },
        },
{
    let (command, token) = two_words(line);
    match command {
        None => Err(ModernError::PongMissing),
        Some(name) => {
            if !same_text(name.as_str(), "PONG") {
                return Err(ModernError::NotPong);
            }
            match token {
                None => Err(ModernError::PongTokenMissing),
                Some(number) => match parse_signed(number.as_str()) {
                    Some(_) => Ok(()),
                    None => Err(ModernError::PongTokenNotNumeric(number)),
                },
            }
        },
    }
}

/// An upload is as large as it was announced: its command and what follows make up the total.
pub proof fn commands_count_towards_the_upload(total_size: int)
    requires
        total_size >= upload_line(total_size).len(),
    ensures
        upload_line(total_size).len() + upload_payload(total_size) == total_size,
{
}

} // verus!
