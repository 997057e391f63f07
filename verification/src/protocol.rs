//! The protocol dispatcher.
//!
//! Each inbound line reads `TAG|payload`. The tag picks one of the three
//! worker categories, case-sensitively; a line without a separator or with
//! an unknown tag is dropped on the floor, with no effect on any worker.

use vstd::prelude::*;

use crate::parse::{find_char, first_at, lemma_first_at_unique, trim_str, trimmed};
use crate::senders::Senders;

verus! {

/// The category tag of a wire line.
#[derive(Debug)]
pub enum Protocol {
    Osu,
    Keyboard,
    Mouse,
    Unknown(String),
}

/// Compare two strings character by character.
fn str_eq(a: &str, b: &str) -> (r: bool)
    ensures
        r == (a@ == b@),
{
    let al = a.unicode_len();
    let bl = b.unicode_len();
    if al != bl {
        return false;
    }
    let mut i: usize = 0;
    while i < al
        invariant
            i <= al,
            al == a@.len(),
            bl == b@.len(),
            al == bl,
            forall|j: int| 0 <= j < i ==> a@[j] == b@[j],
        decreases al - i,
    {
        if a.get_char(i) != b.get_char(i) {
            return false;
        }
        i += 1;
    }
    proof {
        assert(a@ =~= b@);
    }
    true
}

impl Protocol {
    /// Classify a tag: exactly `OSU`, `KEYBOARD` or `MOUSE` name a category;
    /// any other tag is unknown and carried along for the log line.
    pub fn from_str(s: &str) -> (p: Protocol)
        ensures
            s@ == "OSU"@ ==> p is Osu,
            s@ == "KEYBOARD"@ ==> p is Keyboard,
            s@ == "MOUSE"@ ==> p is Mouse,
            !(s@ == "OSU"@ || s@ == "KEYBOARD"@ || s@ == "MOUSE"@) ==> (p matches Protocol::Unknown(
                u,
            ) && u@ == s@),
    {
        proof {
            // The three tags have different lengths, so matching one rules
            // out the others.
            reveal_strlit("OSU");
            reveal_strlit("KEYBOARD");
            reveal_strlit("MOUSE");
            assert("OSU"@.len() == 3);
            assert("KEYBOARD"@.len() == 8);
            assert("MOUSE"@.len() == 5);
        }
        if str_eq(s, "OSU") {
            Protocol::Osu
        } else if str_eq(s, "KEYBOARD") {
            Protocol::Keyboard
        } else if str_eq(s, "MOUSE") {
            Protocol::Mouse
        } else {
            Protocol::Unknown(s.to_owned())
        }
    }
}

/// Where a raw line goes: the worker category and the payload handed to its
/// queue, or `None` for a line the dispatcher drops. The line is trimmed,
/// split at its first `|`, and the payload trimmed again.
pub open spec fn route_spec(s: Seq<char>) -> Option<(Protocol, Seq<char>)> {
    let t = trimmed(s);
    if exists|k: int| first_at(t, '|', k) {
        let k = choose|k: int| first_at(t, '|', k);
        let tag = t.take(k);
        let payload = trimmed(t.skip(k + 1));
        if tag == "OSU"@ {
            Some((Protocol::Osu, payload))
        } else if tag == "KEYBOARD"@ {
            Some((Protocol::Keyboard, payload))
        } else if tag == "MOUSE"@ {
            Some((Protocol::Mouse, payload))
        } else {
            None
        }
    } else {
        None
    }
}

/// Split one raw line into its worker category and payload; `None` for a
/// line the dispatcher drops (no `|`, or an unknown tag).
pub fn route_message(message: &str) -> (r: Option<(Protocol, String)>)
    ensures
        r matches Some(t) ==> route_spec(message@) == Some((t.0, t.1@)),
        r is None ==> route_spec(message@) is None,
{
    let t = trim_str(message);
    let tl = t.unicode_len();
    let sep = find_char(t, 0, tl, '|');
    match sep {
        None => {
            proof {
                if exists|k: int| first_at(t@, '|', k) {
                    let k = choose|k: int| first_at(t@, '|', k);
                    assert(t@[k] == '|');
                }
            }
            None
        },
        Some(k) => {
            proof {
                assert(first_at(t@, '|', k as int));
                if exists|j: int| first_at(t@, '|', j) {
                    let j = choose|j: int| first_at(t@, '|', j);
                    lemma_first_at_unique(t@, '|', j, k as int);
                }
            }
            let tag = t.substring_char(0, k);
            let payload_raw = t.substring_char(k + 1, tl);
            let payload = trim_str(payload_raw);
            proof {
                assert(tag@ =~= t@.take(k as int));
                assert(payload_raw@ =~= t@.skip(k + 1));
            }
            match Protocol::from_str(tag) {
                Protocol::Osu => Some((Protocol::Osu, payload.to_owned())),
                Protocol::Keyboard => Some((Protocol::Keyboard, payload.to_owned())),
                Protocol::Mouse => Some((Protocol::Mouse, payload.to_owned())),
                Protocol::Unknown(_) => None,
            }
        },
    }
}

/// The fate of one raw line at the dispatcher.
#[derive(Debug)]
pub enum DispatchOutcome {
    /// The payload was queued for this category's worker.
    Sent(Protocol),
    /// The line routed to this category, but the worker's queue is gone.
    Closed(Protocol),
    /// The line had no separator or an unknown tag and was dropped;
    /// no worker sees anything.
    Dropped,
}

/// Route one raw line: drop it, or queue its payload for the one worker its
/// tag names. Queues of the other categories are never touched.
pub fn sort_and_run_message(message: &str, senders: &Senders) -> (r: DispatchOutcome)
    ensures
        r is Dropped <==> route_spec(message@) is None,
        r matches DispatchOutcome::Sent(p) ==> route_spec(message@) matches Some(t) && t.0 == p,
        r matches DispatchOutcome::Closed(p) ==> route_spec(message@) matches Some(t) && t.0 == p,
{
    match route_message(message) {
        None => DispatchOutcome::Dropped,
        Some((p, payload)) => {
            let sent: Result<(), std::sync::mpsc::SendError<String>> = match &p {
                Protocol::Osu => senders.osu_sender.send(payload),
                Protocol::Keyboard => senders.keyboard_sender.send(payload),
                Protocol::Mouse => senders.mouse_sender.send(payload),
                Protocol::Unknown(_) => {
                    // route_message never routes an unknown tag.
                    proof {
                        assert(false);
                    }
                    Ok(())
                },
            };
            match sent {
                Ok(_) => DispatchOutcome::Sent(p),
                Err(_) => DispatchOutcome::Closed(p),
            }
        },
    }
}

/// How many of a sequence of raw lines are dispatched to any worker at all.
pub open spec fn routed_count(lines: Seq<Seq<char>>) -> int
    decreases lines.len(),
{
    if lines.len() == 0 {
        0
    } else {
        routed_count(lines.drop_last()) + if route_spec(lines.last()) is Some {
            1int
        } else {
            0int
        }
    }
}

/// Law: a connection that delivers its lines and closes puts at most one
/// frame per line on the workers' queues; dropped lines contribute nothing.
pub proof fn lemma_at_most_one_frame_per_line(lines: Seq<Seq<char>>)
    ensures
        0 <= routed_count(lines) <= lines.len(),
    decreases lines.len(),
{
    if lines.len() > 0 {
        lemma_at_most_one_frame_per_line(lines.drop_last());
    }
}

} // verus!
