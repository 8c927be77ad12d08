//! Telling the session what it cannot know in advance: a line of `KEY=VALUE` for each fact.
use vstd::prelude::*;

use crate::pidfile::text_of;
use crate::scan::same_text;

verus! {

/// Whether the process was started by something that waits to be told; `handshake` is what the
/// environment says.
pub fn enabled(handshake: Option<&str>) -> (r: bool)
    ensures
        r == (text_of(handshake) == Some("1"@)),
{
    match handshake {
        Some(value) => same_text(value, "1"),
        None => false,
    }
}

/// The line that reports one fact.
pub fn fact_line(key: &str, value: &str) -> (line: String)
    ensures
        line@ == key@.push('=') + value@.push('\n'),
{
    let mut line = key.to_owned();
    line.push('=');
    line.append(value);
    line.push('\n');
    assert(line@ =~= key@.push('=') + value@.push('\n'));
    line
}

/// What is reported of one fact: nothing unless something waits for it.
pub fn announce(handshake: Option<&str>, key: &str, value: &str) -> (reported: Option<String>)
    ensures
        match reported {
            Some(reported) => text_of(handshake) == Some("1"@) && reported@ == key@.push('=')
                + value@.push('\n'),
            None => text_of(handshake) != Some("1"@),
        },
{
    if enabled(handshake) {
        Some(fact_line(key, value))
    } else {
        None
    }
}

/// A fact is reported as one line, its key before the first sign of equality and its value behind.
pub proof fn a_fact_is_one_line(key: &str, value: &str, line: String)
    requires
        call_ensures(fact_line, (key, value), line),
    ensures
        line@.len() == key@.len() + value@.len() + 2,
        line@.take(key@.len() as int) == key@,
        line@[key@.len() as int] == '=',
        line@.subrange(key@.len() as int + 1, line@.len() - 1) == value@,
        line@.last() == '\n',
{
    assert(line@.take(key@.len() as int) =~= key@);
    assert(line@.subrange(key@.len() as int + 1, line@.len() - 1) =~= value@);
}

} // verus!
