//! Turning the lines of one output channel into events for the buffer.

use vstd::prelude::*;
use crate::event::LogEvent;

verus! {

/// The two channels of a process's output.
#[derive(Clone, Copy, Debug, PartialEq, Eq, Structural)]
pub enum Channel {
    Stdout,
    Stderr,
}

/// How lines are ingested.
#[derive(Clone, Copy, Debug, PartialEq, Eq, Structural)]
pub struct IngestConfig {
    /// Put the channel's tag in front of each stored message.
    pub tag_stream_names: bool,
    /// Mirror each line, without its tag, to the local output.
    pub tee_output: bool,
}

/// What one read from a channel's source gave.
#[derive(Debug)]
pub enum LineRead {
    /// A line, without its line terminator.
    Line(Vec<u8>),
    /// The source has ended.
    EndOfStream,
    /// The read failed for another reason than the end of the source.
    Failed,
}

/// What the ingestor of a channel does after a read.
#[derive(Debug)]
pub enum IngestStep {
    /// Append `event` to the buffer, after mirroring `passthrough` where there is one,
    /// and read on.
    Append { event: LogEvent, passthrough: Option<Vec<u8>> },
    /// The channel has ended: stop reading.
    Finished,
}

/// Why the ingestor of a channel gave up.
#[derive(Clone, Copy, Debug, PartialEq, Eq, Structural)]
pub enum IngestError {
    /// A read from the channel's source failed.
    ReadFailed,
}

/// The tag of a channel: `[STDOUT] ` or `[STDERR] `, in ASCII.
pub open spec fn channel_tag(channel: Channel) -> Seq<u8> {
    match channel {
        Channel::Stdout => seq![91u8, 83u8, 84u8, 68u8, 79u8, 85u8, 84u8, 93u8, 32u8],
        Channel::Stderr => seq![91u8, 83u8, 84u8, 68u8, 69u8, 82u8, 82u8, 93u8, 32u8],
    }
}

/// The message stored for a line: the line itself, behind the channel's tag where
/// tagging is on.
pub open spec fn stored_message(config: IngestConfig, channel: Channel, line: Seq<u8>) -> Seq<u8> {
    if config.tag_stream_names {
        channel_tag(channel) + line
    } else {
        line
    }
}

/// The bytes of a channel's tag.
pub fn tag_bytes(channel: Channel) -> (tag: Vec<u8>)
    ensures
        tag@ == channel_tag(channel),
{
    let mut tag: Vec<u8> = Vec::new();
    tag.push(91);
    tag.push(83);
    tag.push(84);
    tag.push(68);
    match channel {
        Channel::Stdout => {
            tag.push(79);
            tag.push(85);
            tag.push(84);
        },
        Channel::Stderr => {
            tag.push(69);
            tag.push(82);
            tag.push(82);
        },
    }
    tag.push(93);
    tag.push(32);
    assert(tag@ =~= channel_tag(channel));
    tag
}

/// Builds the message that is stored for a line.
pub fn tag_line(config: &IngestConfig, channel: Channel, line: &Vec<u8>) -> (message: Vec<u8>)
    ensures
        message@ == stored_message(*config, channel, line@),
{
    let mut message: Vec<u8> = if config.tag_stream_names {
        tag_bytes(channel)
    } else {
        Vec::new()
    };
    let ghost prefix = message@;
    let mut copied: usize = 0;
    while copied < line.len()
        invariant
            copied <= line.len(),
            message@ == prefix + line@.take(copied as int),
        decreases line.len() - copied,
    {
        message.push(line[copied]);
        copied = copied + 1;
        assert(line@.take(copied as int) =~= line@.take(copied - 1).push(line@[copied - 1]));
    }
    assert(line@.take(copied as int) =~= line@);
    assert(prefix + line@ =~= stored_message(*config, channel, line@));
    message
}

/// Decides what follows a read. A line becomes an event with the stored message and
/// the time `received` at which the line was read; where mirroring is on, the line
/// itself is handed back for the local output. The end of the source ends the
/// ingestion. A failed read is an error of this channel alone.
pub fn ingest(config: &IngestConfig, channel: Channel, read: LineRead, received: i64) -> (step:
    Result<IngestStep, IngestError>)
    ensures
        match read {
            LineRead::Line(line) => step matches Ok(IngestStep::Append { event, passthrough })
                && event.message@ == stored_message(*config, channel, line@)
                && event.timestamp == received
                && passthrough == (if config.tee_output {
                Some(line)
            } else {
                None
            }),
            LineRead::EndOfStream => step matches Ok(IngestStep::Finished),
            LineRead::Failed => step == Err::<IngestStep, IngestError>(IngestError::ReadFailed),
        },
{
    match read {
        LineRead::Line(line) => {
            let message = tag_line(config, channel, &line);
            let passthrough = if config.tee_output {
                Some(line)
            } else {
                None
            };
            Ok(IngestStep::Append { event: LogEvent { message, timestamp: received }, passthrough })
        },
        LineRead::EndOfStream => Ok(IngestStep::Finished),
        LineRead::Failed => Err(IngestError::ReadFailed),
    }
}

} // verus!
