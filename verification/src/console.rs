//! The lines that the server prints on its console.

use vstd::prelude::*;
use vstd::string::StringExecFns;
use crate::budget::ByteBudget;
use crate::decimal::append_decimal;
use crate::decimal::decimal_text;
use crate::size::append_readable_size;
use crate::size::readable_text;

verus! {

/// The address that the server listens on: every interface, at `port`.
pub fn listen_address(port: u16) -> (addr: String)
    ensures
        addr@ == "0.0.0.0:"@ + decimal_text(port as nat),
{
    let mut addr = String::from_str("0.0.0.0:");
    append_decimal(&mut addr, port as u128);
    addr
}

/// The banner printed once the listener is bound.
pub fn startup_banner(addr: &str, log_file: &str, max_size: usize) -> (line: String)
    ensures
        line@ == "Server listening on port "@ + addr@ + " and writing to "@ + log_file@
            + " (max file size: "@ + readable_text(max_size as nat) + ")"@,
{
    let mut line = String::from_str("Server listening on port ");
    line.append(addr);
    line.append(" and writing to ");
    line.append(log_file);
    line.append(" (max file size: ");
    append_readable_size(&mut line, max_size as u128);
    line.append(")");
    line
}

/// The line printed when the file on disk is over the cap at startup.
pub fn oversize_notice(max_size: usize) -> (line: String)
    ensures
        line@ == "File size exceeds the limit of "@ + decimal_text(max_size as nat)
            + " bytes | Exiting..."@,
{
    let mut line = String::from_str("File size exceeds the limit of ");
    append_decimal(&mut line, max_size as u128);
    line.append(" bytes | Exiting...");
    line
}

/// The line printed when a record has taken the log over its cap.
pub fn overflow_notice(max_size: usize) -> (line: String)
    ensures
        line@ == "File size exceeds the limit of "@ + readable_text(max_size as nat)
            + " | Exiting..."@,
{
    let mut line = String::from_str("File size exceeds the limit of ");
    append_readable_size(&mut line, max_size as u128);
    line.append(" | Exiting...");
    line
}

/// The line printed for each message received.
pub fn receipt_notice(length: usize, client: &str) -> (line: String)
    ensures
        line@ == "Received "@ + readable_text(length as nat) + " from "@ + client@,
{
    let mut line = String::from_str("Received ");
    append_readable_size(&mut line, length as u128);
    line.append(" from ");
    line.append(client);
    line
}

/// The line printed when a connection's message could not be logged.
pub fn log_failure_notice(client: &str, reason: &str) -> (line: String)
    ensures
        line@ == "Failed to log message from "@ + client@ + ": "@ + reason@,
{
    let mut line = String::from_str("Failed to log message from ");
    line.append(client);
    line.append(": ");
    line.append(reason);
    line
}

/// The line printed when a connection's socket could not be shut down.
pub fn socket_failure_notice(client: &str, reason: &str) -> (line: String)
    ensures
        line@ == "Failed to shutdown client socket "@ + client@ + ": "@ + reason@,
{
    let mut line = String::from_str("Failed to shutdown client socket ");
    line.append(client);
    line.append(": ");
    line.append(reason);
    line
}

/// The line printed when the log could not be flushed on shutdown.
pub fn flush_failure_notice(reason: &str) -> (line: String)
    ensures
        line@ == "Failed to flush log file: "@ + reason@,
{
    let mut line = String::from_str("Failed to flush log file: ");
    line.append(reason);
    line
}

/// The line that opens a shutdown: the interrupt came, or waiting for it
/// failed for the reason given.
pub fn shutdown_message(failure: Option<&str>) -> (line: String)
    ensures
        line@ == (match failure {
            None => "Ctrl+C received, shutting down server..."@,
            Some(reason) => "Failed to listen for Ctrl+C: "@ + reason@,
        }),
{
    match failure {
        None => String::from_str("Ctrl+C received, shutting down server..."),
        Some(reason) => {
            let mut line = String::from_str("Failed to listen for Ctrl+C: ");
            line.append(reason);
            line
        },
    }
}

/// The summary printed on shutdown: the cumulative count, and the bytes
/// written since startup.
pub fn session_summary(budget: &ByteBudget) -> (line: String)
    ensures
        line@ == "Total log size: "@ + readable_text(budget@.total)
            + " | Written in this session: "@ + readable_text(
            (budget@.total - budget@.startup) as nat,
        ),
{
    let mut line = String::from_str("Total log size: ");
    append_readable_size(&mut line, budget.total());
    line.append(" | Written in this session: ");
    append_readable_size(&mut line, budget.written_this_session());
    line
}

} // verus!
