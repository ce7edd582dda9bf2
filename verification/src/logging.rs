//! The log: which records are kept, how each is named and written as a
//! line of the log file, and how a serialised record is framed for sending.

use crate::scripts::bytes::{spec_u32_bytes, u32_le_bytes};
use vstd::prelude::*;

verus! {

/// The level of a log record, as the logging facade has them.
#[derive(Clone, Copy, PartialEq, Eq, Structural, Debug)]
pub enum Level {
    Error,
    Warn,
    Info,
    Debug,
    Trace,
}

/// The kind of a message in CLEO's log.
#[derive(Clone, Copy, PartialEq, Eq, Structural, Debug)]
pub enum MessageType {
    Normal,
    Error,
    Warning,
    Debug,
}

/// The kind of message that a record of level `l` becomes.
pub open spec fn spec_message_type(l: Level) -> MessageType {
    match l {
        Level::Error => MessageType::Error,
        Level::Warn => MessageType::Warning,
        Level::Info => MessageType::Normal,
        Level::Debug | Level::Trace => MessageType::Debug,
    }
}

/// `needle` occurs in `s`.
pub open spec fn contains_text(s: Seq<char>, needle: Seq<char>) -> bool {
    exists|i: int| 0 <= i <= s.len() - needle.len() && #[trigger] s.subrange(i, i + needle.len()) == needle
}

/// The part of `s` after its last "::" (all of `s` if it has none).
pub open spec fn last_segment(s: Seq<char>) -> Seq<char>
    decreases s.len(),
{
    if s.len() < 2 {
        s
    } else if s[s.len() - 2] == ':' && s[s.len() - 1] == ':' {
        Seq::empty()
    } else {
        last_segment(s.drop_last()).push(s.last())
    }
}

/// What becomes of a record of level `level` from the module whose path is `source`:
/// records without a module, and those of the network libraries (whose path
/// holds "mio::" or "reqwest"), are dropped; the others are kept under the
/// last part of their module path.
pub open spec fn spec_commit(level: Level, source: Option<Seq<char>>) -> Option<
    (MessageType, Seq<char>),
> {
    match source {
        None => None,
        Some(p) => if contains_text(p, "mio::"@) || contains_text(p, "reqwest"@) {
            None
        } else {
            Some((spec_message_type(level), last_segment(p)))
        },
    }
}

/// Returns the kind of message that a record of level `level` becomes.
pub fn message_type(level: Level) -> (t: MessageType)
    ensures
        t == spec_message_type(level),
{
    match level {
        Level::Error => MessageType::Error,
        Level::Warn => MessageType::Warning,
        Level::Info => MessageType::Normal,
        Level::Debug | Level::Trace => MessageType::Debug,
    }
}

/// Returns `true` if `needle` occurs in `s`.
pub fn contains(s: &str, needle: &str) -> (found: bool)
    ensures
        found == contains_text(s@, needle@),
{
    let n = s.unicode_len();
    let m = needle.unicode_len();
    if m > n {
        proof {
            assert forall|i: int| 0 <= i <= n - m implies #[trigger] s@.subrange(i, i + m) != needle@ by {
            }
        }
        return false;
    }
    let mut i: usize = 0;
    while i <= n - m
        invariant
            n == s@.len(),
            m == needle@.len(),
            m <= n,
            0 <= i <= n - m + 1,
            forall|k: int| 0 <= k < i ==> #[trigger] s@.subrange(k, k + m) != needle@,
        decreases n - m + 1 - i,
    {
        let mut j: usize = 0;
        while j < m && s.get_char(i + j) == needle.get_char(j)
            invariant
                n == s@.len(),
                m == needle@.len(),
                i + m <= n,
                0 <= j <= m,
                forall|k: int| 0 <= k < j ==> s@[i + k] == needle@[k],
            decreases m - j,
        {
            j = j + 1;
        }
        if j == m {
            proof {
                assert(s@.subrange(i as int, i + m) =~= needle@);
            }
            return true;
        }
        proof {
            assert(s@.subrange(i as int, i + m)[j as int] != needle@[j as int]);
        }
        i = i + 1;
    }
    false
}

/// Returns the part of `path` after its last "::".
pub fn module_name(path: &str) -> (name: String)
    ensures
        name@ == last_segment(path@),
{
    let n = path.unicode_len();
    let mut start: usize = 0;
    let mut i: usize = 2;
    proof {
        assert(last_segment(path@.take(0)) =~= path@.take(0));
        if n >= 1 {
            assert(last_segment(path@.take(1)) =~= path@.take(1));
        }
    }
    let ghost limit: int = if n < 2 { n as int } else { 2 };
    if n < 2 {
        proof {
            assert(path@.take(n as int) =~= path@);
        }
        return path.to_owned();
    }
    proof {
        assert(path@.take(2)[0] == path@[0]);
        assert(path@.take(2)[1] == path@[1]);
        assert(path@.take(2).drop_last() =~= path@.take(1));
        assert(last_segment(path@.take(2)) == if path@[0] == ':' && path@[1] == ':' {
            Seq::<char>::empty()
        } else {
            last_segment(path@.take(1)).push(path@[1])
        });
        assert(path@.take(2).drop_last() =~= path@.take(1));
        assert(last_segment(path@.take(1)) =~= path@.take(1));
    }
    if path.get_char(0) == ':' && path.get_char(1) == ':' {
        start = 2;
        proof {
            assert(path@.subrange(2, 2) =~= Seq::<char>::empty());
        }
    } else {
        proof {
            assert(path@.subrange(0, 2) =~= path@.take(1).push(path@[1]));
        }
    }
    while i < n
        invariant
            n == path@.len(),
            2 <= i <= n,
            start <= i,
            path@.subrange(start as int, i as int) == last_segment(path@.take(i as int)),
        decreases n - i,
    {
        proof {
            assert(path@.take(i + 1).drop_last() =~= path@.take(i as int));
            assert(path@.take(i + 1)[i - 1] == path@[i - 1]);
            assert(path@.take(i + 1)[i as int] == path@[i as int]);
        }
        if path.get_char(i - 1) == ':' && path.get_char(i) == ':' {
            start = i + 1;
            proof {
                assert(path@.subrange(start as int, i + 1) =~= Seq::<char>::empty());
            }
        } else {
            proof {
                assert(path@.subrange(start as int, i + 1) =~= path@.subrange(start as int, i as int).push(
                    path@[i as int],
                ));
            }
        }
        i = i + 1;
    }
    proof {
        assert(path@.take(n as int) =~= path@);
    }
    let mut name = String::new();
    let mut k = start;
    while k < n
        invariant
            n == path@.len(),
            start <= k <= n,
            name@ == path@.subrange(start as int, k as int),
        decreases n - k,
    {
        crate::scripts::bytes::string_push(&mut name, path.get_char(k));
        proof {
            assert(path@.subrange(start as int, k + 1) =~= path@.subrange(start as int, k as int).push(
                path@[k as int],
            ));
        }
        k = k + 1;
    }
    name
}

/// Decides what becomes of a record of level `level` from the module
/// `source`: `None` if it is dropped, and otherwise its message kind
/// and the name it is logged under.
pub fn commit(level: Level, source: Option<&str>) -> (kept: Option<(MessageType, String)>)
    ensures
        match kept {
            Some((t, name)) => spec_commit(
                level,
                match source {
                    Some(p) => Some(p@),
                    None => None,
                },
            ) == Some((t, name@)),
            None => spec_commit(
                level,
                match source {
                    Some(p) => Some(p@),
                    None => None,
                },
            ) is None,
        },
{
    let path = match source {
        Some(p) => p,
        None => return None,
    };
    if contains(path, "mio::") || contains(path, "reqwest") {
        return None;
    }
    Some((message_type(level), module_name(path)))
}

/// The name of the level of a message, as the log file shows it.
pub open spec fn spec_level_name(t: MessageType) -> Seq<char> {
    match t {
        MessageType::Normal => "info"@,
        MessageType::Error => "error"@,
        MessageType::Warning => "warning"@,
        MessageType::Debug => "debug"@,
    }
}

/// Returns the line that the log file gets for a message: the time, the
/// module and the level in brackets, then the text.
pub fn file_line(time: &str, module: &str, msg_type: MessageType, text: &str) -> (line: String)
    ensures
        line@ == "["@ + time@ + "] ["@ + module@ + "] ["@ + spec_level_name(msg_type) + "] "@ + text@
            + "\n"@,
{
    let level = match msg_type {
        MessageType::Normal => "info",
        MessageType::Error => "error",
        MessageType::Warning => "warning",
        MessageType::Debug => "debug",
    };
    let mut line = "[".to_owned();
    line.append(time);
    line.append("] [");
    line.append(module);
    line.append("] [");
    line.append(level);
    line.append("] ");
    line.append(text);
    line.append("\n");
    line
}

/// Frames a serialised message for sending: its length plus four, as four
/// little-endian bytes, then the message.
pub fn pack(serialised: &[u8]) -> (framed: Vec<u8>)
    requires
        serialised@.len() + 4 <= u32::MAX,
    ensures
        framed@ == spec_u32_bytes(serialised@.len() + 4int) + serialised@,
{
    let len = u32_le_bytes((serialised.len() as u32) + 4);
    let mut framed: Vec<u8> = Vec::new();
    framed.extend_from_slice(&len);
    framed.extend_from_slice(serialised);
    framed
}

} // verus!
