//! The interactive client's command language: a line is split into words
//! at white space, and the words name a command.
//!
//! ```text
//! pub <topic> [ttl_ms] <message...>
//! sub <topic>
//! unsub <topic>
//! help | exit | quit
//! ```

use vstd::prelude::*;
use crate::text::{chars_of, str_equal, string_push, string_push_str};
use crate::wal::{parse_u64, parsed_u64};

verus! {

/// Unicode white space, as `char::is_whitespace` decides it: the
/// characters with the `White_Space` property.
pub open spec fn white(c: char) -> bool {
    let u = c as u32;
    (0x09 <= u <= 0x0d) || u == 0x20 || u == 0x85 || u == 0xa0 || u == 0x1680 || (0x2000 <= u <= 0x200a)
        || u == 0x2028 || u == 0x2029 || u == 0x202f || u == 0x205f || u == 0x3000
}

/// Whether a character is white space.
pub fn is_white(c: char) -> (r: bool)
    ensures
        r == white(c),
{
    let u = c as u32;
    (0x09 <= u && u <= 0x0d) || u == 0x20 || u == 0x85 || u == 0xa0 || u == 0x1680 || (0x2000 <= u && u <= 0x200a)
        || u == 0x2028 || u == 0x2029 || u == 0x202f || u == 0x205f || u == 0x3000
}

/// The words of a text: its maximal runs of characters other than white
/// space, in order.
pub open spec fn words(s: Seq<char>) -> Seq<Seq<char>>
    decreases s.len(),
{
    if s.len() == 0 {
        Seq::empty()
    } else {
        let w = words(s.drop_last());
        let c = s.last();
        if white(c) {
            w
        } else if s.len() >= 2 && !white(s[s.len() - 2]) {
            w.update(w.len() - 1, w.last().push(c))
        } else {
            w.push(seq![c])
        }
    }
}

/// Words joined with single spaces.
pub open spec fn joined(ws: Seq<Seq<char>>) -> Seq<char>
    decreases ws.len(),
{
    if ws.len() == 0 {
        Seq::empty()
    } else if ws.len() == 1 {
        ws[0]
    } else {
        joined(ws.drop_last()) + seq![' '] + ws.last()
    }
}

/// The words of a line.
pub fn split_words(line: &str) -> (r: Vec<String>)
    ensures
        r@.map_values(|w: String| w@) == words(line@),
{
    let cs = chars_of(line);
    let mut r: Vec<String> = Vec::new();
    let mut in_word = false;
    let mut i: usize = 0;
    while i < cs.len()
        invariant
            cs@ == line@,
            i <= cs@.len(),
            r@.map_values(|w: String| w@) == words(cs@.subrange(0, i as int)),
            in_word == (i > 0 && !white(cs@[i - 1])),
            in_word ==> r@.len() > 0,
        decreases cs@.len() - i,
    {
        let c = cs[i];
        let ghost pre = cs@.subrange(0, i as int);
        let ghost next = cs@.subrange(0, i + 1);
        proof {
            assert(next.drop_last() =~= pre);
            assert(next.last() == c);
            if i > 0 {
                assert(next[next.len() - 2] == cs@[i - 1]);
            }
        }
        let ghost before = r@.map_values(|w: String| w@);
        if is_white(c) {
            in_word = false;
        } else if in_word {
            let mut last = r.pop().unwrap();
            string_push(&mut last, c);
            r.push(last);
            proof {
                assert(r@.map_values(|w: String| w@) =~= before.update(before.len() - 1, before.last().push(c)));
            }
        } else {
            let mut w = String::new();
            string_push(&mut w, c);
            r.push(w);
            proof {
                assert(r@.map_values(|w: String| w@) =~= before.push(seq![c]));
            }
        }
        if !is_white(c) {
            in_word = true;
        }
        i = i + 1;
    }
    proof {
        assert(cs@.subrange(0, cs@.len() as int) =~= cs@);
    }
    r
}

/// A command of the interactive client.
#[derive(Debug, PartialEq, Eq)]
pub enum ReplCommand {
    Help,
    Exit,
    Publish { topic: String, ttl_ms: u64, payload: String },
    Subscribe { topic: String },
    Unsubscribe { topic: String },
    /// Anything else, the empty line included.
    Unknown,
}

/// The command a line's words name, messages being published with
/// `default_ttl_ms` unless a number follows the topic (and a message
/// follows the number).
pub open spec fn command_of(ws: Seq<Seq<char>>, default_ttl_ms: u64, r: ReplCommand) -> bool {
    if ws == seq!["help"@] {
        r == ReplCommand::Help
    } else if ws == seq!["exit"@] || ws == seq!["quit"@] {
        r == ReplCommand::Exit
    } else if ws.len() >= 4 && ws[0] == "pub"@ && parsed_u64(ws[2]) is Some {
        r matches ReplCommand::Publish { topic, ttl_ms, payload } && topic@ == ws[1]
            && ttl_ms == parsed_u64(ws[2])->0 && payload@ == joined(ws.subrange(3, ws.len() as int))
    } else if ws.len() >= 3 && ws[0] == "pub"@ {
        r matches ReplCommand::Publish { topic, ttl_ms, payload } && topic@ == ws[1]
            && ttl_ms == default_ttl_ms && payload@ == joined(ws.subrange(2, ws.len() as int))
    } else if ws.len() == 2 && ws[0] == "sub"@ {
        r matches ReplCommand::Subscribe { topic } && topic@ == ws[1]
    } else if ws.len() == 2 && ws[0] == "unsub"@ {
        r matches ReplCommand::Unsubscribe { topic } && topic@ == ws[1]
    } else {
        r == ReplCommand::Unknown
    }
}

/// The words from position `from` on, joined with single spaces.
fn join_from(ws: &Vec<String>, from: usize) -> (s: String)
    requires
        from < ws@.len(),
    ensures
        s@ == joined(ws@.map_values(|w: String| w@).subrange(from as int, ws@.len() as int)),
{
    let ghost v = ws@.map_values(|w: String| w@);
    let n = ws.len();
    let mut s = String::new();
    string_push_str(&mut s, ws[from].as_str());
    let mut i: usize = from + 1;
    proof {
        assert(v.subrange(from as int, from + 1) =~= seq![v[from as int]]);
        assert(s@ =~= ws@[from as int]@);
    }
    while i < ws.len()
        invariant
            v == ws@.map_values(|w: String| w@),
            from < i <= ws@.len(),
            s@ == joined(v.subrange(from as int, i as int)),
        decreases ws@.len() - i,
    {
        proof {
            assert(v.subrange(from as int, i + 1).drop_last() =~= v.subrange(from as int, i as int));
            assert(v.subrange(from as int, i + 1).last() == ws@[i as int]@);
        }
        string_push(&mut s, ' ');
        string_push_str(&mut s, ws[i].as_str());
        proof {
            assert(s@ =~= joined(v.subrange(from as int, i as int)) + seq![' '] + ws@[i as int]@);
        }
        i = i + 1;
    }
    s
}

/// Reads a line typed at the interactive client.
pub fn parse_repl_line(line: &str, default_ttl_ms: u64) -> (r: ReplCommand)
    ensures
        command_of(words(line@), default_ttl_ms, r),
{
    let ws = split_words(line);
    let ghost v = ws@.map_values(|w: String| w@);
    proof {
        reveal_strlit("help");
        reveal_strlit("exit");
        reveal_strlit("quit");
        reveal_strlit("pub");
        reveal_strlit("sub");
        reveal_strlit("unsub");
    }
    let n = ws.len();
    proof {
        assert(v.len() == n);
        if n > 0 {
            assert(v[0] == ws@[0]@);
        }
        if n > 1 {
            assert(v[1] == ws@[1]@);
        }
        if n > 2 {
            assert(v[2] == ws@[2]@);
        }
    }
    if n == 1 && str_equal(ws[0].as_str(), "help") {
        proof {
            assert(v =~= seq!["help"@]);
        }
        return ReplCommand::Help;
    }
    if n == 1 && (str_equal(ws[0].as_str(), "exit") || str_equal(ws[0].as_str(), "quit")) {
        proof {
            if v[0] == "exit"@ {
                assert(v =~= seq!["exit"@]);
            } else {
                assert(v =~= seq!["quit"@]);
            }
        }
        return ReplCommand::Exit;
    }
    proof {
        if v == seq!["help"@] {
            assert(v[0] == "help"@);
        }
        if v == seq!["exit"@] {
            assert(v[0] == "exit"@);
        }
        if v == seq!["quit"@] {
            assert(v[0] == "quit"@);
        }
    }
    if n >= 3 && str_equal(ws[0].as_str(), "pub") {
        if n >= 4 {
            match parse_u64(ws[2].as_str()) {
                Some(ttl) => {
                    return ReplCommand::Publish { topic: ws[1].clone(), ttl_ms: ttl, payload: join_from(&ws, 3) };
                },
                None => {},
            }
        }
        return ReplCommand::Publish { topic: ws[1].clone(), ttl_ms: default_ttl_ms, payload: join_from(&ws, 2) };
    }
    if n == 2 && str_equal(ws[0].as_str(), "sub") {
        return ReplCommand::Subscribe { topic: ws[1].clone() };
    }
    if n == 2 && str_equal(ws[0].as_str(), "unsub") {
        return ReplCommand::Unsubscribe { topic: ws[1].clone() };
    }
    ReplCommand::Unknown
}

} // verus!
