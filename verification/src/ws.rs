//! The terminal WebSocket bridge: what it does with each message from the
//! frontend, and what it tells the frontend.
use vstd::prelude::*;
use crate::text::{concat3, owned, str_eq};

verus! {

/// A control message from the terminal frontend (JSON with a `type` field).
#[derive(Debug)]
pub struct TerminalControl {
    pub msg_type: String,
    pub cols: Option<u16>,
    pub rows: Option<u16>,
}

/// A message arriving on a terminal WebSocket.
#[derive(Debug)]
pub enum TerminalInput {
    /// A text frame, with the control message it parses as, if it does.
    Text { text: String, control: Option<TerminalControl> },
    /// A binary frame.
    Binary(Vec<u8>),
    /// The frontend closed the connection.
    Close,
    /// Receiving failed.
    Failed,
    /// Any other frame (ping, pong).
    Other,
}

/// What the bridge does with an incoming message.
#[derive(Debug)]
pub enum TerminalAction {
    /// Resize the terminal.
    Resize { cols: u16, rows: u16 },
    /// Write this text to the terminal.
    WriteText(String),
    /// Write these bytes to the terminal.
    WriteBytes(Vec<u8>),
    /// Nothing.
    Ignore,
    /// Stop bridging input.
    Stop,
}

/// Decides what to do with a message from the terminal frontend: a control
/// message resizes the terminal when it is a `resize` with both sizes (and is
/// otherwise ignored); other text and binary data are written to the
/// terminal; a close or a receive failure stops the bridge.
pub fn terminal_action(input: TerminalInput) -> (r: TerminalAction)
    ensures
        match input {
            TerminalInput::Text { text, control } => match control {
                Some(c) => if c.msg_type@ == "resize"@ && c.cols is Some && c.rows is Some {
                    r == TerminalAction::Resize { cols: c.cols->0, rows: c.rows->0 }
                } else {
                    r is Ignore
                },
                None => r == TerminalAction::WriteText(text),
            },
            TerminalInput::Binary(data) => r == TerminalAction::WriteBytes(data),
            TerminalInput::Close => r is Stop,
            TerminalInput::Failed => r is Stop,
            TerminalInput::Other => r is Ignore,
        },
{
    match input {
        TerminalInput::Text { text, control } => match control {
            Some(c) => {
                if str_eq(c.msg_type.as_str(), "resize") {
                    match (c.cols, c.rows) {
                        (Some(cols), Some(rows)) => TerminalAction::Resize { cols, rows },
                        _ => TerminalAction::Ignore,
                    }
                } else {
                    TerminalAction::Ignore
                }
            },
            None => TerminalAction::WriteText(text),
        },
        TerminalInput::Binary(data) => TerminalAction::WriteBytes(data),
        TerminalInput::Close => TerminalAction::Stop,
        TerminalInput::Failed => TerminalAction::Stop,
        TerminalInput::Other => TerminalAction::Ignore,
    }
}

/// What the frontend is told when it connects to a terminal that does not run.
pub fn missing_terminal_text(terminal_id: &str) -> (r: String)
    ensures
        r@ == "\r\nTerminal '"@ + terminal_id@ + "' not found. Create it first.\r\n"@,
{
    concat3("\r\nTerminal '", terminal_id, "' not found. Create it first.\r\n")
}

/// What the frontend is told when the terminal's output ends.
pub fn terminal_closed_text() -> (r: String)
    ensures
        r@ == "\r\n[Terminal closed]\r\n"@,
{
    owned("\r\n[Terminal closed]\r\n")
}

} // verus!
