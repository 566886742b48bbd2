//! The formatted writer: text and rendered templates, sent to the port.
//!
//! One request is sent under one hold of the port's lock, from its first byte
//! to its last. The bytes of two requests therefore never mix on the wire,
//! whichever contexts they come from: this is the one locking policy of the
//! library, and every function that writes goes through
//! [`HostWriter::write_bytes`], which implements it.

use crate::console::{lemma_request_is_whole, ConsolePort, PortModel};
use crate::format::{arg_models, render, render_line, rendered, rendered_line, Arg, FormatError};
use vstd::prelude::*;
use vstd::string::StringSliceAdditionalSpecFns;

verus! {

/// Why a request did not reach the port.
#[derive(Debug, Clone, Copy, PartialEq, Eq)]
pub enum PrintError {
    /// The lock of the port was held. A caller that may wait tries again.
    Busy,
    /// The template could not be rendered; nothing was tried on the port.
    Format(FormatError),
}

/// The port after a context tried to print what rendering gave: the text as
/// one request, or nothing where rendering failed.
pub open spec fn printed(port: PortModel, outcome: Result<Seq<u8>, FormatError>) -> PortModel {
    match outcome {
        Ok(text) => port.deliver(text),
        Err(_) => port,
    }
}

/// What a context is told that tried to print what rendering gave.
pub open spec fn print_result(port: PortModel, outcome: Result<Seq<u8>, FormatError>) -> Result<
    (),
    PrintError,
> {
    match outcome {
        Err(e) => Err(PrintError::Format(e)),
        Ok(_) => if port.holder is None {
            Ok(())
        } else {
            Err(PrintError::Busy)
        },
    }
}

/// The writer of one execution context.
pub struct HostWriter {
    /// The context that this writer writes for.
    pub context: u64,
}

impl HostWriter {
    /// The writer of the context `context`.
    pub fn new(context: u64) -> (writer: HostWriter)
        ensures
            writer.context == context,
    {
        HostWriter { context }
    }

    /// Sends `bytes` to the port as one request; `true` when they were sent.
    ///
    /// On a free port every byte is sent, in order, under one hold of the
    /// lock, and the port is free again afterwards. On a held port nothing is
    /// sent.
    pub fn write_bytes(&self, port: &mut ConsolePort, bytes: &[u8]) -> (sent: bool)
        ensures
            sent == (old(port)@.holder is None),
            final(port)@ == old(port)@.deliver(bytes@),
    {
        if !port.try_lock(self.context) {
            return false;
        }
        let ghost locked = port@;
        let mut i: usize = 0;
        while i < bytes.len()
            invariant
                i <= bytes@.len(),
                locked == old(port)@.acquire(self.context),
                port@ == locked.write_all(self.context, bytes@.subrange(0, i as int)),
            decreases bytes@.len() - i,
        {
            port.put(self.context, bytes[i]);
            proof {
                let now = bytes@.subrange(0, i + 1);
                assert(now.drop_last() == bytes@.subrange(0, i as int));
                assert(now.last() == bytes@[i as int]);
            }
            i = i + 1;
        }
        assert(bytes@.subrange(0, bytes@.len() as int) == bytes@);
        port.unlock(self.context);
        proof {
            lemma_request_is_whole(old(port)@, self.context, bytes@);
        }
        true
    }

    /// Sends the UTF-8 bytes of `s` to the port as one request; `true` when
    /// they were sent.
    pub fn write_str(&self, port: &mut ConsolePort, s: &str) -> (sent: bool)
        ensures
            sent == (old(port)@.holder is None),
            final(port)@ == old(port)@.deliver(s.spec_bytes()),
    {
        self.write_bytes(port, s.as_bytes())
    }

    /// Renders `template` with `args` and sends the text as one request.
    pub fn write_fmt(&self, port: &mut ConsolePort, template: &str, args: &Vec<Arg>) -> (r: Result<
        (),
        PrintError,
    >)
        ensures
            r == print_result(old(port)@, rendered(template.spec_bytes(), arg_models(args@))),
            final(port)@ == printed(
                old(port)@,
                rendered(template.spec_bytes(), arg_models(args@)),
            ),
    {
        match render(template, args) {
            Err(e) => Err(PrintError::Format(e)),
            Ok(text) => {
                if self.write_bytes(port, text.as_slice()) {
                    Ok(())
                } else {
                    Err(PrintError::Busy)
                }
            },
        }
    }

    /// Renders `template` with `args`, ends the text with one newline and
    /// sends it as one request.
    pub fn write_line(&self, port: &mut ConsolePort, template: &str, args: &Vec<Arg>) -> (r:
        Result<(), PrintError>)
        ensures
            r == print_result(
                old(port)@,
                rendered_line(template.spec_bytes(), arg_models(args@)),
            ),
            final(port)@ == printed(
                old(port)@,
                rendered_line(template.spec_bytes(), arg_models(args@)),
            ),
    {
        match render_line(template, args) {
            Err(e) => Err(PrintError::Format(e)),
            Ok(text) => {
                if self.write_bytes(port, text.as_slice()) {
                    Ok(())
                } else {
                    Err(PrintError::Busy)
                }
            },
        }
    }
}

/// Sends `s` to the port for the context `ctx`, as one request; `true` when it
/// was sent. No newline is added.
pub fn host_write(port: &mut ConsolePort, ctx: u64, s: &str) -> (sent: bool)
    ensures
        sent == (old(port)@.holder is None),
        final(port)@ == old(port)@.deliver(s.spec_bytes()),
{
    let writer = HostWriter::new(ctx);
    writer.write_str(port, s)
}

/// Renders `template` with `args` and sends the text to the port for the
/// context `ctx`, as one request.
///
/// A template that cannot be rendered gives its error and leaves the port
/// alone. Otherwise the text is sent if the port is free, and `Busy` is
/// returned if it is held.
pub fn _print(port: &mut ConsolePort, ctx: u64, template: &str, args: &Vec<Arg>) -> (r: Result<
    (),
    PrintError,
>)
    ensures
        r == print_result(old(port)@, rendered(template.spec_bytes(), arg_models(args@))),
        final(port)@ == printed(
            old(port)@,
            rendered(template.spec_bytes(), arg_models(args@)),
        ),
{
    let writer = HostWriter::new(ctx);
    writer.write_fmt(port, template, args)
}

/// Prints without a newline: exactly the bytes that the template renders to.
pub fn print(port: &mut ConsolePort, ctx: u64, template: &str, args: &Vec<Arg>) -> (r: Result<
    (),
    PrintError,
>)
    ensures
        r == print_result(old(port)@, rendered(template.spec_bytes(), arg_models(args@))),
        final(port)@ == printed(
            old(port)@,
            rendered(template.spec_bytes(), arg_models(args@)),
        ),
{
    _print(port, ctx, template, args)
}

/// Prints with a newline: the bytes that the template renders to and then
/// exactly one newline, all in one request.
pub fn println(port: &mut ConsolePort, ctx: u64, template: &str, args: &Vec<Arg>) -> (r: Result<
    (),
    PrintError,
>)
    ensures
        r == print_result(
            old(port)@,
            rendered_line(template.spec_bytes(), arg_models(args@)),
        ),
        final(port)@ == printed(
            old(port)@,
            rendered_line(template.spec_bytes(), arg_models(args@)),
        ),
{
    let writer = HostWriter::new(ctx);
    writer.write_line(port, template, args)
}

/// Two requests that both reach the port appear one after the other, each
/// whole: the bytes of the second begin after the last byte of the first.
pub proof fn lemma_requests_do_not_mix(port: PortModel, a: Seq<u8>, b: Seq<u8>)
    requires
        port.holder is None,
    ensures
        port.deliver(a).deliver(b).transcript == port.transcript + a + b,
        port.deliver(a).deliver(b).holder is None,
{
}

} // verus!
