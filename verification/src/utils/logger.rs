//! The console logger's settings: which messages the `developer` level
//! lets through, the coloured prefix of each message level, and the C
//! string line that goes to the console.

use vstd::prelude::*;

verus! {

/// The level of a log message.
#[derive(Copy, Clone, Debug, PartialEq, Eq, Structural)]
pub enum Level {
    Error,
    Warn,
    Info,
    Debug,
    Trace,
}

/// The most detailed level that the logger lets through.
#[derive(Copy, Clone, Debug, PartialEq, Eq, Structural)]
pub enum LevelFilter {
    Info,
    Debug,
    Trace,
}

/// The level filter for the engine's `developer` setting: 2 shows
/// everything, 1 debug messages and up, any other value info and up.
pub fn level_filter_for_developer(dev: i32) -> (r: LevelFilter)
    ensures
        r == if dev == 2 {
            LevelFilter::Trace
        } else if dev == 1 {
            LevelFilter::Debug
        } else {
            LevelFilter::Info
        },
{
    match dev {
        2 => LevelFilter::Trace,
        1 => LevelFilter::Debug,
        _ => LevelFilter::Info,
    }
}

/// The prefix of a message of `level` in the console, with the engine's
/// colour codes; info messages have none.
pub open spec fn spec_level_prefix(level: Level) -> &'static str {
    match level {
        Level::Trace => "^6Trace:^7 ",
        Level::Debug => "^4Debug:^7 ",
        Level::Info => "",
        Level::Warn => "^3Warning:^7 ",
        Level::Error => "^1Error:^7 ",
    }
}

/// The prefix of a message of `level` in the console.
pub fn level_prefix(level: Level) -> (r: &'static str)
    ensures
        r == spec_level_prefix(level),
{
    match level {
        Level::Trace => "^6Trace:^7 ",
        Level::Debug => "^4Debug:^7 ",
        Level::Info => "",
        Level::Warn => "^3Warning:^7 ",
        Level::Error => "^1Error:^7 ",
    }
}

/// The console line buffer holds this many bytes, the final NUL included.
pub const LINE_SIZE: usize = 8192;

/// The bytes of `s` that go into a console line: its bytes other than NUL,
/// in order, as long as fewer than `LINE_SIZE - 1` are kept; the rest is
/// cut off.
pub open spec fn kept_bytes(s: Seq<u8>) -> Seq<u8>
    decreases s.len(),
{
    if s.len() == 0 {
        Seq::empty()
    } else {
        let k = kept_bytes(s.drop_last());
        if s.last() != 0 && k.len() < LINE_SIZE - 1 {
            k.push(s.last())
        } else {
            k
        }
    }
}

/// The console line for a message: the level's prefix, the message and a
/// line feed, without NUL bytes and cut to `LINE_SIZE - 1` bytes, then a
/// NUL.
pub open spec fn spec_console_line(prefix: Seq<u8>, message: Seq<u8>) -> Seq<u8> {
    kept_bytes(prefix + message + seq![0x0au8]).push(0)
}

proof fn lemma_kept_bytes_len(s: Seq<u8>)
    ensures
        kept_bytes(s).len() <= LINE_SIZE - 1,
    decreases s.len(),
{
    if s.len() > 0 {
        lemma_kept_bytes_len(s.drop_last());
    }
}

/// Builds the console line for a message (see `spec_console_line`).
pub fn console_line(prefix: &[u8], message: &[u8]) -> (r: Vec<u8>)
    ensures
        r@ == spec_console_line(prefix@, message@),
        r@.len() <= LINE_SIZE,
{
    let ghost text = prefix@ + message@ + seq![0x0au8];
    let mut out: Vec<u8> = Vec::new();
    let total = prefix.len() as u128 + message.len() as u128 + 1;
    let mut k: u128 = 0;
    while k < total
        invariant
            text == prefix@ + message@ + seq![0x0au8],
            total == text.len(),
            k <= total,
            out@ == kept_bytes(text.take(k as int)),
        decreases total - k,
    {
        let b: u8 = if k < prefix.len() as u128 {
            prefix[k as usize]
        } else if k < prefix.len() as u128 + message.len() as u128 {
            message[(k - prefix.len() as u128) as usize]
        } else {
            0x0a
        };
        assert(b == text[k as int]);
        assert(text.take(k + 1).drop_last() =~= text.take(k as int));
        if b != 0 && out.len() < LINE_SIZE - 1 {
            out.push(b);
        }
        k += 1;
    }
    assert(text.take(total as int) =~= text);
    proof {
        lemma_kept_bytes_len(text);
    }
    out.push(0);
    out
}

} // verus!
