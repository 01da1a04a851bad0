//! The client side of the VBus-over-TCP handshake: the text dialog that
//! precedes the binary phase of a connection.
use vstd::prelude::*;
use vstd::string::*;

use crate::error::{Error, Result};
use crate::line_buffer::{first_lf, LineBuffer};
use crate::text::{decimal, decimal_string};

verus! {

/// What a reply line starting with byte `first` means: `+` accepts, `-`
/// refuses, anything else is unexpected.
pub open spec fn reply_accepted(first: u8) -> bool {
    first == 43
}

/// The error message for a reply line starting with byte `first` that does not accept.
pub open spec fn reply_error(first: u8) -> Seq<char> {
    if first == 45 {
        "Negative reply"@
    } else {
        "Unexpected reply"@
    }
}

/// The command line `CMD ARGS\r\n`, or `CMD\r\n` without arguments.
pub open spec fn command_text(cmd: Seq<char>, args: Option<Seq<char>>) -> Seq<char> {
    match args {
        Some(a) => cmd + " "@ + a + "\r\n"@,
        None => cmd + "\r\n"@,
    }
}

/// The client side of the handshake: the received text not yet taken as replies.
#[derive(Debug)]
pub struct TcpClientHandshake {
    buf: LineBuffer,
}

impl View for TcpClientHandshake {
    type V = Seq<u8>;

    closed spec fn view(&self) -> Seq<u8> {
        self.buf@
    }
}

impl TcpClientHandshake {
    /// A handshake with nothing received yet. The service's greeting is the
    /// first reply to take.
    pub fn new() -> (r: TcpClientHandshake)
        ensures
            r@ == Seq::<u8>::empty(),
    {
        TcpClientHandshake { buf: LineBuffer::new() }
    }

    /// Appends bytes received from the service.
    pub fn extend_from_slice(&mut self, bytes: &[u8])
        ensures
            final(self)@ == old(self)@ + bytes@,
    {
        self.buf.extend_from_slice(bytes)
    }

    /// Takes the next reply line, through its line feed, and tells whether it
    /// accepts. Returns `None`, taking nothing, while no whole line has arrived.
    pub fn read_reply(&mut self) -> (r: Option<Result<()>>)
        ensures
            first_lf(old(self)@) == old(self)@.len() ==> r is None && final(self)@ == old(self)@,
            first_lf(old(self)@) < old(self)@.len() ==> {
                &&& final(self)@ == old(self)@.skip(first_lf(old(self)@) + 1)
                &&& reply_accepted(old(self)@[0]) ==> r == Some(Ok::<(), Error>(()))
                &&& !reply_accepted(old(self)@[0]) ==> (r matches Some(Err(e)) && e@ == reply_error(old(self)@[0]))
            },
    {
        match self.buf.find_line_end() {
            None => None,
            Some(idx) => {
                let first = self.buf.range(0, 1)[0];
                self.buf.consume(idx + 1);
                if first == 43 {
                    Some(Ok(()))
                } else if first == 45 {
                    Some(Err(Error::new("Negative reply")))
                } else {
                    Some(Err(Error::new("Unexpected reply")))
                }
            },
        }
    }

    /// The line that sends command `cmd` with optional arguments `args`.
    pub fn command_line(cmd: &str, args: Option<&str>) -> (r: String)
        ensures
            r@ == command_text(cmd@, match args {
                Some(a) => Some(a@),
                None => None,
            }),
    {
        let mut line = String::from_str(cmd);
        match args {
            Some(a) => {
                line.append(" ");
                line.append(a);
                line.append("\r\n");
            },
            None => {
                line.append("\r\n");
            },
        }
        line
    }

    /// The `CONNECT via_tag` command line.
    pub fn connect_command(via_tag: &str) -> (r: String)
        ensures
            r@ == command_text("CONNECT"@, Some(via_tag@)),
    {
        TcpClientHandshake::command_line("CONNECT", Some(via_tag))
    }

    /// The `PASS password` command line.
    pub fn pass_command(password: &str) -> (r: String)
        ensures
            r@ == command_text("PASS"@, Some(password@)),
    {
        TcpClientHandshake::command_line("PASS", Some(password))
    }

    /// The `CHANNEL n` command line, with `n` in decimal.
    pub fn channel_command(channel: u8) -> (r: String)
        ensures
            r@ == command_text("CHANNEL"@, Some(decimal(channel as nat))),
    {
        let digits = decimal_string(channel as u64);
        TcpClientHandshake::command_line("CHANNEL", Some(digits.as_str()))
    }

    /// The `DATA` command line.
    pub fn data_command() -> (r: String)
        ensures
            r@ == command_text("DATA"@, None),
    {
        TcpClientHandshake::command_line("DATA", None)
    }

    /// The `QUIT` command line.
    pub fn quit_command() -> (r: String)
        ensures
            r@ == command_text("QUIT"@, None),
    {
        TcpClientHandshake::command_line("QUIT", None)
    }
}

} // verus!
