//! Messages between the user interface and the connection to the game, and
//! the texts that the connection reports.

use vstd::prelude::*;
use vstd::string::StringExecFns;
use crate::decimal::{decimal_string, decimal_text};
use crate::keyframes::is_keyframe_report;

verus! {

/// What the user interface asks of the connection.
#[derive(Debug)]
pub enum NetCommand {
    /// Send these bytes to the game.
    SendBytes(Vec<u8>),
    /// Send the frames of the named sequence to the game, one by one.
    LoadSequence(String),
}

/// What the connection reports to the user interface.
#[derive(Debug, Clone)]
pub enum NetEvent {
    ServerStarted(String),
    ClientConnected(String),
    ClientDisconnected,
    LogMessage(String),
    Error(String),
}

/// The event for a line the game sent: a keyframe report is acknowledged
/// with the name of the sequence it was stored in; any other line is shown
/// as it is.
pub open spec fn game_line_text(line: Seq<char>, sequence_name: Seq<char>) -> Seq<char> {
    if "KEYFRAME"@.is_prefix_of(line) {
        "收到关键帧: "@ + sequence_name
    } else {
        line
    }
}

/// The event to report for a line the game sent.
pub fn game_line_event(line: String, sequence_name: &str) -> (r: NetEvent)
    ensures
        r matches NetEvent::LogMessage(t) && t@ == game_line_text(line@, sequence_name@),
{
    if is_keyframe_report(line.as_str()) {
        let mut t = "收到关键帧: ".to_owned();
        t.append(sequence_name);
        NetEvent::LogMessage(t)
    } else {
        NetEvent::LogMessage(line)
    }
}

/// The report that a named sequence is not stored.
pub fn missing_sequence_event(name: &str) -> (r: NetEvent)
    ensures
        r matches NetEvent::Error(t) && t@ == "序列 \""@ + name@ + "\" 不存在"@,
{
    let mut t = "序列 \"".to_owned();
    t.append(name);
    t.append("\" 不存在");
    NetEvent::Error(t)
}

/// The report that all `count` frames of a sequence were sent.
pub fn sequence_loaded_event(name: &str, count: u32) -> (r: NetEvent)
    ensures
        r matches NetEvent::LogMessage(t) && t@ == "序列 \""@ + name@ + "\" 加载完成 ("@
            + decimal_text(count as nat) + " 帧)"@,
{
    let mut t = "序列 \"".to_owned();
    t.append(name);
    t.append("\" 加载完成 (");
    let n = decimal_string(count);
    t.append(n.as_str());
    t.append(" 帧)");
    NetEvent::LogMessage(t)
}

} // verus!
