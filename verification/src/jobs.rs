//! Messages that carry jobs: `recorder:{time};{path}`, or `recorder:halt`.

use vstd::prelude::*;

use crate::error::{Error, Result};
use crate::text;
use crate::text::{equals, find_char, starts_with};

verus! {

/// The start of every message.
pub const MESSAGE_PREFIX: &'static str = "recorder:";

/// The body of the message that stops the recording.
pub const HALT_MESSAGE: &'static str = "halt";

/// What a message asks for.
pub enum Job {
    /// Stop.
    Halt,
    /// Record the system in the configuration file `config` at the time
    /// written in `time`.
    Work { time: String, config: String },
}

/// The parts of a job body `{time};{path}`: what precedes the first `;` and
/// what follows it.
pub open spec fn spec_split(body: Seq<char>) -> Option<(Seq<char>, Seq<char>)> {
    match text::find(body, ';') {
        Some(i) => Some((body.take(i), body.skip(i + 1))),
        None => None,
    }
}

/// What a message asks for: `None` for a halt, the parts of the job
/// otherwise; an error where the message lacks the prefix or the `;`.
pub open spec fn spec_read(message: Seq<char>) -> Result<Option<(Seq<char>, Seq<char>)>> {
    if !text::has_prefix(message, MESSAGE_PREFIX@) {
        Err(Error::MalformedMessage)
    } else {
        let body = message.skip(MESSAGE_PREFIX@.len() as int);
        if body == HALT_MESSAGE@ {
            Ok(None)
        } else {
            match spec_split(body) {
                Some(parts) => Ok(Some(parts)),
                None => Err(Error::MalformedMessage),
            }
        }
    }
}

/// A message `recorder:{time};{path}`, with `time` free of `;` and other
/// than the halt body, asks to record the system in `path` at `time`; the
/// message `recorder:halt` asks to stop.
pub proof fn law_message(time: Seq<char>, path: Seq<char>)
    requires
        !time.contains(';'),
    ensures
        spec_read(MESSAGE_PREFIX@ + time + seq![';'] + path) == Ok::<
            Option<(Seq<char>, Seq<char>)>,
            Error,
        >(Some((time, path))),
        spec_read(MESSAGE_PREFIX@ + HALT_MESSAGE@) == Ok::<Option<(Seq<char>, Seq<char>)>, Error>(
            None,
        ),
{
    reveal_strlit("recorder:");
    reveal_strlit("halt");
    let body = time + seq![';'] + path;
    let message = MESSAGE_PREFIX@ + body;
    assert(MESSAGE_PREFIX@ + time + seq![';'] + path =~= message);
    assert(message.take(MESSAGE_PREFIX@.len() as int) =~= MESSAGE_PREFIX@);
    assert(message.skip(MESSAGE_PREFIX@.len() as int) =~= body);
    assert(body.len() > time.len());
    assert(body != HALT_MESSAGE@) by {
        if body == HALT_MESSAGE@ {
            assert(body.len() == 4);
            assert(body[time.len() as int] == ';');
        }
    }
    let k = time.len() as int;
    assert forall|i: int| 0 <= i < k implies body[i] != ';' by {
        assert(body[i] == time[i]);
    }
    assert(text::is_first(body, ';', k));
    text::lemma_find_is(body, ';', k);
    assert(body.take(k) =~= time);
    assert(body.skip(k + 1) =~= path);
    let halt = MESSAGE_PREFIX@ + HALT_MESSAGE@;
    assert(halt.take(MESSAGE_PREFIX@.len() as int) =~= MESSAGE_PREFIX@);
    assert(halt.skip(MESSAGE_PREFIX@.len() as int) =~= HALT_MESSAGE@);
}

/// Splits a job body at its first `;`.
pub fn decode(body: &str) -> (res: Option<(String, String)>)
    ensures
        match res {
            Some((time, config)) => spec_split(body@) == Some((time@, config@)),
            None => spec_split(body@) is None,
        },
{
    match find_char(body, ';') {
        Some(i) => {
            let len = body.unicode_len();
            let time = body.substring_char(0, i);
            let config = body.substring_char(i + 1, len);
            assert(time@ =~= body@.take(i as int));
            assert(config@ =~= body@.skip(i + 1));
            Some((time.to_string(), config.to_string()))
        },
        None => None,
    }
}

/// Reads what a message asks for.
pub fn read_message(message: &str) -> (res: Result<Job>)
    ensures
        match res {
            Ok(Job::Halt) => spec_read(message@) == Ok::<Option<(Seq<char>, Seq<char>)>, Error>(None),
            Ok(Job::Work { time, config }) => spec_read(message@) == Ok::<
                Option<(Seq<char>, Seq<char>)>,
                Error,
            >(Some((time@, config@))),
            Err(e) => spec_read(message@) == Err::<Option<(Seq<char>, Seq<char>)>, Error>(e),
        },
{
    if !starts_with(message, MESSAGE_PREFIX) {
        return Err(Error::MalformedMessage);
    }
    let len = message.unicode_len();
    let n = MESSAGE_PREFIX.unicode_len();
    let body = message.substring_char(n, len);
    assert(body@ =~= message@.skip(MESSAGE_PREFIX@.len() as int));
    if equals(body, HALT_MESSAGE) {
        return Ok(Job::Halt);
    }
    match decode(body) {
        Some((time, config)) => Ok(Job::Work { time, config }),
        None => Err(Error::MalformedMessage),
    }
}

} // verus!
