use vstd::prelude::*;
use crate::text::{decimal, decimal_text};

verus! {

/// What a download task reports to the progress printer.
#[derive(Debug)]
pub enum ProgressEvent {
    /// Chunk `id` received this many bytes.
    ByteDownloaded(usize, u64),
    /// Chunk `id` is written to disk.
    ChunkComplete(usize),
    /// Chunk `id` failed with this message.
    Error(usize, String),
}

/// The line printed for an event; `None` means every task is done.
pub open spec fn report_text(event: Option<ProgressEvent>) -> Seq<char> {
    match event {
        Some(ProgressEvent::ByteDownloaded(id, bytes)) => "Chunk "@ + decimal(id as nat) + " :"@
            + decimal(bytes as nat) + " bytes received"@,
        Some(ProgressEvent::ChunkComplete(id)) => "Chunk "@ + decimal(id as nat) + " completed"@,
        Some(ProgressEvent::Error(id, msg)) => "Chunk "@ + decimal(id as nat) + " error : "@ + msg@,
        None => "All task finised!"@,
    }
}

/// One step of the progress printer: the line to print for what the
/// channel gave (`None` once every sender is gone), and whether to keep
/// listening.
pub fn report_step(event: &Option<ProgressEvent>) -> (r: (String, bool))
    ensures
        r.0@ == report_text(*event),
        r.1 == event is Some,
{
    match event {
        Some(ProgressEvent::ByteDownloaded(id, bytes)) => {
            let mut line = String::from_str("Chunk ");
            line.append(decimal_text(*id as u64).as_str());
            line.append(" :");
            line.append(decimal_text(*bytes).as_str());
            line.append(" bytes received");
            (line, true)
        },
        Some(ProgressEvent::ChunkComplete(id)) => {
            let mut line = String::from_str("Chunk ");
            line.append(decimal_text(*id as u64).as_str());
            line.append(" completed");
            (line, true)
        },
        Some(ProgressEvent::Error(id, msg)) => {
            let mut line = String::from_str("Chunk ");
            line.append(decimal_text(*id as u64).as_str());
            line.append(" error : ");
            line.append(msg.as_str());
            (line, true)
        },
        None => (String::from_str("All task finised!"), false),
    }
}

} // verus!
