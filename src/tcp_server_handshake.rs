//! The server side of the VBus-over-TCP handshake.
use vstd::prelude::*;
use vstd::string::*;
use vstd::utf8::{decode_utf8, valid_utf8};

use crate::error::{Error, Result};
use crate::line_buffer::{first_lf, LineBuffer};
use crate::text::{
    first_space, is_whitespace, lemma_first_space, to_uppercase, trim_range, trimmed, uppercase, utf8_error_message,
    utf8_to_string,
};

verus! {

/// Whether `r` is a reply line: it starts with `+` or `-` and ends with CR LF.
pub open spec fn is_reply_line(r: Seq<char>) -> bool {
    &&& r.len() >= 3
    &&& r[0] == '+' || r[0] == '-'
    &&& r[r.len() - 2] == '\r'
    &&& r[r.len() - 1] == '\n'
}

/// The command word and the optional argument of a received line: the line
/// is trimmed and split at its first white space; the word is upper-cased and
/// the argument trimmed.
pub open spec fn command_parts(line: Seq<char>) -> (Seq<char>, Option<Seq<char>>) {
    let t = trimmed(line);
    let i = first_space(t);
    if i < t.len() {
        (uppercase(t.take(i)), Some(trimmed(t.skip(i))))
    } else {
        (uppercase(t), None)
    }
}

/// The value of a string of decimal digits.
pub open spec fn digits_value(d: Seq<char>) -> nat
    decreases d.len(),
{
    if d.len() == 0 {
        0
    } else {
        digits_value(d.drop_last()) * 10 + ((d.last() as u32) - 48) as nat
    }
}

pub open spec fn is_digit(c: char) -> bool {
    '0' <= c && c <= '9'
}

/// What `str::parse::<u8>` makes of `s`: an optional `+`, then one or more
/// decimal digits whose value is at most 255.
pub open spec fn parse_u8(s: Seq<char>) -> Option<u8> {
    let d = unsigned_part(s);
    if d.len() > 0 && all_digits(d) && digits_value(d) <= 255 {
        Some(digits_value(d) as u8)
    } else {
        None
    }
}

/// `s` without a leading `+`.
pub open spec fn unsigned_part(s: Seq<char>) -> Seq<char> {
    if s.len() > 0 && s[0] == '+' {
        s.drop_first()
    } else {
        s
    }
}

pub open spec fn all_digits(d: Seq<char>) -> bool {
    forall|i: int| 0 <= i < d.len() ==> is_digit(d[i])
}

proof fn lemma_digits_value_grows(d: Seq<char>, i: int)
    requires
        0 <= i <= d.len(),
        forall|j: int| 0 <= j < d.len() ==> is_digit(d[j]),
    ensures
        digits_value(d.take(i)) <= digits_value(d),
    decreases d.len() - i,
{
    if i < d.len() {
        lemma_digits_value_grows(d, i + 1);
        assert(d.take(i + 1).drop_last() =~= d.take(i));
    } else {
        assert(d.take(i) =~= d);
    }
}

/// The number in `s` when it reads as a `u8`, with an optional leading `+`.
pub fn parse_channel(s: &str) -> (r: Option<u8>)
    ensures
        r == parse_u8(s@),
{
    let n = s.unicode_len();
    let start: usize = if n > 0 && s.get_char(0) == '+' {
        1
    } else {
        0
    };
    let ghost d = unsigned_part(s@);
    assert(d =~= s@.skip(start as int));
    if start >= n {
        assert(d.len() == 0);
        return None;
    }
    let mut value: u64 = 0;
    let mut i = start;
    while i < n
        invariant
            start <= i <= n == s@.len(),
            d == s@.skip(start as int),
            d == unsigned_part(s@),
            forall|j: int| 0 <= j < i - start ==> is_digit(d[j]),
            value == digits_value(d.take(i - start)),
            value <= 255,
        decreases n - i,
    {
        let c = s.get_char(i);
        assert(d[i - start] == c);
        if !('0' <= c && c <= '9') {
            assert(!is_digit(d[i - start]));
            assert(!all_digits(d));
            return None;
        }
        let ghost k = i - start;
        assert(d.take(k + 1).drop_last() =~= d.take(k));
        assert(d.take(k + 1).last() == c);
        value = value * 10 + ((c as u32) - 48) as u64;
        i = i + 1;
        assert(value == digits_value(d.take(k + 1)));
        if value > 255 {
            assert(!(all_digits(d) && digits_value(d) <= 255)) by {
                if all_digits(d) {
                    lemma_digits_value_grows(d, k + 1);
                }
            }
            return None;
        }
    }
    assert(d.take(n - start) =~= d);
    assert(d.len() > 0);
    Some(value as u8)
}

/// The server side of the handshake: the received text not yet taken as lines.
#[derive(Debug)]
pub struct TcpServerHandshake {
    buf: LineBuffer,
}

impl View for TcpServerHandshake {
    type V = Seq<u8>;

    closed spec fn view(&self) -> Seq<u8> {
        self.buf@
    }
}

impl TcpServerHandshake {
    /// A handshake with nothing received yet. The greeting goes out first.
    pub fn new() -> (r: TcpServerHandshake)
        ensures
            r@ == Seq::<u8>::empty(),
    {
        TcpServerHandshake { buf: LineBuffer::new() }
    }

    /// The greeting that the server sends when the connection opens.
    pub fn greeting() -> (r: &'static str)
        ensures
            r@ == "+HELLO\r\n"@,
            is_reply_line(r@),
    {
        proof {
            reveal_strlit("+HELLO\r\n");
        }
        "+HELLO\r\n"
    }

    /// The reply to an accepted command.
    pub fn ok_reply() -> (r: &'static str)
        ensures
            r@ == "+OK\r\n"@,
            is_reply_line(r@),
    {
        proof {
            reveal_strlit("+OK\r\n");
        }
        "+OK\r\n"
    }

    /// Appends bytes received from the client.
    pub fn extend_from_slice(&mut self, bytes: &[u8])
        ensures
            final(self)@ == old(self)@ + bytes@,
    {
        self.buf.extend_from_slice(bytes)
    }

    /// Takes the next line, without its line feed, decoded as UTF-8. Returns
    /// `None`, taking nothing, while no whole line has arrived. A line that is
    /// not UTF-8 gives an error and stays in the buffer.
    pub fn receive_line(&mut self) -> (r: Option<Result<String>>)
        ensures
            first_lf(old(self)@) == old(self)@.len() ==> r is None && final(self)@ == old(self)@,
            first_lf(old(self)@) < old(self)@.len() ==> {
                let line = old(self)@.take(first_lf(old(self)@));
                &&& valid_utf8(line) ==> (r matches Some(Ok(s)) && s@ == decode_utf8(line)
                    && final(self)@ == old(self)@.skip(first_lf(old(self)@) + 1))
                &&& !valid_utf8(line) ==> (r matches Some(Err(_)) && final(self)@ == old(self)@)
            },
    {
        match self.buf.find_line_end() {
            None => None,
            Some(idx) => {
                let bytes = self.buf.range(0, idx);
                assert(bytes@ =~= old(self)@.take(idx as int));
                match utf8_to_string(bytes) {
                    Ok(line) => {
                        self.buf.consume(idx + 1);
                        Some(Ok(line))
                    },
                    Err(e) => Some(Err(Error::new(utf8_error_message(&e).as_str()))),
                }
            },
        }
    }

    /// Splits a received line into its command word and optional argument.
    pub fn split_command(line: &str) -> (r: (String, Option<String>))
        ensures
            r.0@ == command_parts(line@).0,
            match r.1 {
                Some(a) => command_parts(line@).1 == Some(a@),
                None => command_parts(line@).1 is None,
            },
    {
        let t = trim_range(line, 0, line.unicode_len());
        assert(line@.subrange(0, line@.len() as int) =~= line@);
        let n = t.unicode_len();
        let mut i: usize = 0;
        while i < n && !is_whitespace(t.get_char(i))
            invariant
                i <= n == t@.len(),
                forall|j: int| 0 <= j < i ==> !crate::text::is_space(t@[j]),
            decreases n - i,
        {
            i = i + 1;
        }
        proof {
            lemma_first_space(t@, i as int);
        }
        if i < n {
            let word = t.substring_char(0, i);
            let args = trim_range(t, i, n);
            assert(t@.subrange(i as int, n as int) =~= t@.skip(i as int));
            assert(word@ =~= t@.take(i as int));
            (to_uppercase(word), Some(args.to_string()))
        } else {
            (to_uppercase(t), None)
        }
    }

    /// Whether `command` is `QUIT`, which ends the handshake.
    pub fn is_quit(command: &String) -> (r: bool)
        ensures
            r == (command@ == "QUIT"@),
    {
        *command == String::from_str("QUIT")
    }

    /// The reply to `QUIT` and the error that ends the handshake.
    pub fn quit_outcome() -> (r: (&'static str, Error))
        ensures
            r.0@ == "+OK\r\n"@,
            is_reply_line(r.0@),
            r.1@ == "Received QUIT command"@,
    {
        (TcpServerHandshake::ok_reply(), Error::new("Received QUIT command"))
    }

    /// Accepts `CONNECT <via_tag>` and yields the via tag.
    pub fn connect_argument(command: &String, args: Option<String>) -> (r: core::result::Result<String, &'static str>)
        ensures
            command@ != "CONNECT"@ ==> (r matches Err(e) && e@ == "-ERROR Expected CONNECT command\r\n"@),
            command@ == "CONNECT"@ ==> match args {
                Some(a) => r == Ok::<String, &'static str>(a),
                None => r matches Err(e) && e@ == "-ERROR Expected argument\r\n"@,
            },
            r matches Err(e) ==> is_reply_line(e@),
    {
        proof {
            reveal_strlit("-ERROR Expected CONNECT command\r\n");
        }
        TcpServerHandshake::text_argument(command, "CONNECT", "-ERROR Expected CONNECT command\r\n", args)
    }

    /// Accepts `PASS <password>` and yields the password.
    pub fn pass_argument(command: &String, args: Option<String>) -> (r: core::result::Result<String, &'static str>)
        ensures
            command@ != "PASS"@ ==> (r matches Err(e) && e@ == "-ERROR Expected PASS command\r\n"@),
            command@ == "PASS"@ ==> match args {
                Some(a) => r == Ok::<String, &'static str>(a),
                None => r matches Err(e) && e@ == "-ERROR Expected argument\r\n"@,
            },
            r matches Err(e) ==> is_reply_line(e@),
    {
        proof {
            reveal_strlit("-ERROR Expected PASS command\r\n");
        }
        TcpServerHandshake::text_argument(command, "PASS", "-ERROR Expected PASS command\r\n", args)
    }

    fn text_argument(command: &String, keyword: &str, wrong_command: &'static str, args: Option<String>) -> (r:
        core::result::Result<String, &'static str>)
        requires
            is_reply_line(wrong_command@),
        ensures
            command@ != keyword@ ==> (r matches Err(e) && e@ == wrong_command@),
            command@ == keyword@ ==> match args {
                Some(a) => r == Ok::<String, &'static str>(a),
                None => r matches Err(e) && e@ == "-ERROR Expected argument\r\n"@,
            },
            r matches Err(e) ==> is_reply_line(e@),
    {
        proof {
            reveal_strlit("-ERROR Expected argument\r\n");
        }
        if *command != String::from_str(keyword) {
            Err(wrong_command)
        } else {
            match args {
                Some(a) => Ok(a),
                None => Err("-ERROR Expected argument\r\n"),
            }
        }
    }

    /// Accepts `CHANNEL <n>` for a number `n` that fits in 8 bits and yields it.
    pub fn channel_argument(command: &String, args: Option<String>) -> (r: core::result::Result<u8, &'static str>)
        ensures
            command@ != "CHANNEL"@ ==> (r matches Err(e) && e@ == "-ERROR Expected CHANNEL command\r\n"@),
            command@ == "CHANNEL"@ ==> match args {
                Some(a) => match parse_u8(a@) {
                    Some(n) => r == Ok::<u8, &'static str>(n),
                    None => r matches Err(e) && e@ == "-ERROR Expected 8 bit number argument\r\n"@,
                },
                None => r matches Err(e) && e@ == "-ERROR Expected argument\r\n"@,
            },
            r matches Err(e) ==> is_reply_line(e@),
    {
        proof {
            reveal_strlit("-ERROR Expected CHANNEL command\r\n");
            reveal_strlit("-ERROR Expected argument\r\n");
            reveal_strlit("-ERROR Expected 8 bit number argument\r\n");
        }
        if *command != String::from_str("CHANNEL") {
            Err("-ERROR Expected CHANNEL command\r\n")
        } else {
            match args {
                Some(a) => match parse_channel(a.as_str()) {
                    Some(n) => Ok(n),
                    None => Err("-ERROR Expected 8 bit number argument\r\n"),
                },
                None => Err("-ERROR Expected argument\r\n"),
            }
        }
    }

    /// Accepts `DATA` without an argument.
    pub fn data_argument(command: &String, args: &Option<String>) -> (r: core::result::Result<(), &'static str>)
        ensures
            command@ != "DATA"@ ==> (r matches Err(e) && e@ == "-ERROR Expected DATA command\r\n"@),
            command@ == "DATA"@ && args is Some ==> (r matches Err(e) && e@ == "-ERROR Unexpected argument\r\n"@),
            command@ == "DATA"@ && args is None ==> r is Ok,
            r matches Err(e) ==> is_reply_line(e@),
    {
        proof {
            reveal_strlit("-ERROR Expected DATA command\r\n");
            reveal_strlit("-ERROR Unexpected argument\r\n");
        }
        if *command != String::from_str("DATA") {
            Err("-ERROR Expected DATA command\r\n")
        } else if args.is_some() {
            Err("-ERROR Unexpected argument\r\n")
        } else {
            Ok(())
        }
    }

    /// The reply to a command after validation, and the accepted value: `+OK`
    /// with the value when it was accepted, the validator's reply otherwise (the
    /// client then sends another command).
    pub fn respond<T>(verdict: core::result::Result<T, &'static str>) -> (r: (&'static str, Option<T>))
        requires
            verdict matches Err(reply) ==> is_reply_line(reply@),
        ensures
            is_reply_line(r.0@),
            match verdict {
                Ok(v) => r.0@ == "+OK\r\n"@ && r.1 == Some(v),
                Err(reply) => r.0@ == reply@ && r.1 is None,
            },
    {
        match verdict {
            Ok(v) => (TcpServerHandshake::ok_reply(), Some(v)),
            Err(reply) => (reply, None),
        }
    }
}

} // verus!
