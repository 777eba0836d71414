//! The control message grammar: colon-delimited text, one message per
//! connection, decoded into sequencer operations.
//!
//! `set` and `queue` carry a motion identity; a missing class field means
//! the empty class. Malformed input decodes to nothing and is dropped by
//! the caller, never fatal.

use vstd::prelude::*;

verus! {

use crate::text::{spec_split, spec_views, split_str, str_eq};

/// One decoded control message.
#[derive(Debug)]
pub enum Message {
    SetMotion((String, String)),
    QueueMotion((String, String)),
    Toggle,
    Pause,
    Play,
    Exit,
}

/// A message with its payload strings as character sequences.
pub enum MessageView {
    SetMotion(Seq<char>, Seq<char>),
    QueueMotion(Seq<char>, Seq<char>),
    Toggle,
    Pause,
    Play,
    Exit,
}

impl Message {
    /// The message's view.
    pub open spec fn view(self) -> MessageView {
        match self {
            Message::SetMotion(p) => MessageView::SetMotion(p.0@, p.1@),
            Message::QueueMotion(p) => MessageView::QueueMotion(p.0@, p.1@),
            Message::Toggle => MessageView::Toggle,
            Message::Pause => MessageView::Pause,
            Message::Play => MessageView::Play,
            Message::Exit => MessageView::Exit,
        }
    }
}

/// `s` without one trailing newline, if it carries one.
pub open spec fn spec_strip_newline(s: Seq<char>) -> Seq<char> {
    if s.len() > 0 && s.last() == '\n' {
        s.drop_last()
    } else {
        s
    }
}

/// What a control line decodes to: the first colon field picks the verb;
/// `set` and `queue` read a motion identity from the next one or two
/// fields, a single field meaning the empty class; anything else is
/// dropped.
pub open spec fn spec_parse(input: Seq<char>) -> Option<MessageView> {
    let parts = spec_split(spec_strip_newline(input), ':');
    let verb = parts[0];
    if verb == "toggle"@ {
        Some(MessageView::Toggle)
    } else if verb == "pause"@ {
        Some(MessageView::Pause)
    } else if verb == "play"@ {
        Some(MessageView::Play)
    } else if verb == "exit"@ {
        Some(MessageView::Exit)
    } else if verb == "queue"@ {
        if parts.len() < 2 {
            None
        } else if parts.len() == 2 {
            Some(MessageView::QueueMotion(Seq::empty(), parts[1]))
        } else {
            Some(MessageView::QueueMotion(parts[1], parts[2]))
        }
    } else if verb == "set"@ {
        if parts.len() < 2 {
            None
        } else if parts.len() == 2 {
            Some(MessageView::SetMotion(Seq::empty(), parts[1]))
        } else {
            Some(MessageView::SetMotion(parts[1], parts[2]))
        }
    } else {
        None
    }
}

impl Message {
    /// Decode one control line, exactly as `spec_parse` describes.
    pub fn parse(input: String) -> (r: Option<Message>)
        ensures
            match r {
                Some(m) => spec_parse(input@) == Some(m.view()),
                None => spec_parse(input@) is None,
            },
    {
        let s = input.as_str();
        let n = s.unicode_len();
        let stripped: String = if n > 0 && s.get_char(n - 1) == '\n' {
            String::from_str(s.substring_char(0, n - 1))
        } else {
            String::from_str(s)
        };
        proof {
            assert(stripped@ =~= spec_strip_newline(input@));
        }
        let parts = split_str(stripped.as_str(), ':');
        let verb = &parts[0];
        proof {
            assert(verb@ == spec_views(parts@)[0]);
        }
        if str_eq(verb.as_str(), "toggle") {
            Some(Message::Toggle)
        } else if str_eq(verb.as_str(), "pause") {
            Some(Message::Pause)
        } else if str_eq(verb.as_str(), "play") {
            Some(Message::Play)
        } else if str_eq(verb.as_str(), "exit") {
            Some(Message::Exit)
        } else if str_eq(verb.as_str(), "queue") {
            if parts.len() < 2 {
                None
            } else if parts.len() == 2 {
                let name = parts[1].clone();
                proof {
                    assert(name@ == spec_views(parts@)[1]);
                }
                Some(Message::QueueMotion((String::new(), name)))
            } else {
                let class = parts[1].clone();
                let name = parts[2].clone();
                proof {
                    assert(class@ == spec_views(parts@)[1]);
                    assert(name@ == spec_views(parts@)[2]);
                }
                Some(Message::QueueMotion((class, name)))
            }
        } else if str_eq(verb.as_str(), "set") {
            if parts.len() < 2 {
                None
            } else if parts.len() == 2 {
                let name = parts[1].clone();
                proof {
                    assert(name@ == spec_views(parts@)[1]);
                }
                Some(Message::SetMotion((String::new(), name)))
            } else {
                let class = parts[1].clone();
                let name = parts[2].clone();
                proof {
                    assert(class@ == spec_views(parts@)[1]);
                    assert(name@ == spec_views(parts@)[2]);
                }
                Some(Message::SetMotion((class, name)))
            }
        } else {
            None
        }
    }
}

/// The wire text of a message, the inverse grammar of `spec_parse` for
/// well-formed payloads.
pub open spec fn spec_encode(m: MessageView) -> Seq<char> {
    match m {
        MessageView::SetMotion(c, n) => "set:"@ + c + ":"@ + n,
        MessageView::QueueMotion(c, n) => "queue:"@ + c + ":"@ + n,
        MessageView::Toggle => "toggle:"@,
        MessageView::Pause => "pause:"@,
        MessageView::Play => "play:"@,
        MessageView::Exit => "exit:"@,
    }
}

/// A payload field that survives the wire grammar: free of the field
/// separator and of the line terminator.
pub open spec fn wire_safe(p: Seq<char>) -> bool {
    forall|k: int| 0 <= k < p.len() ==> p[k] != ':' && p[k] != '\n'
}

/// A wire line `verb:class:name` splits into exactly those three fields
/// when both payload fields are wire-safe.
proof fn lemma_split_wire_line(verb: Seq<char>, c: Seq<char>, n: Seq<char>)
    requires
        forall|k: int| 0 <= k < verb.len() ==> verb[k] != ':',
        wire_safe(c),
        wire_safe(n),
    ensures
        spec_split(verb + seq![':'] + (c + seq![':'] + n), ':') == seq![verb, c, n],
{
    crate::text::lemma_split_on_first(verb, ':', c + seq![':'] + n);
    crate::text::lemma_split_on_first(c, ':', n);
    crate::text::lemma_split_whole(n, ':');
    assert(seq![verb] + (seq![c] + seq![n]) =~= seq![verb, c, n]);
}

/// Law: a message's wire text parses back to the message itself, for
/// wire-safe payload fields.
pub proof fn lemma_encode_parse_round_trip(m: MessageView)
    requires
        match m {
            MessageView::SetMotion(c, n) => wire_safe(c) && wire_safe(n),
            MessageView::QueueMotion(c, n) => wire_safe(c) && wire_safe(n),
            _ => true,
        },
    ensures
        spec_parse(spec_encode(m)) == Some(m),
{
    reveal_strlit("set:");
    reveal_strlit("queue:");
    reveal_strlit("toggle:");
    reveal_strlit("pause:");
    reveal_strlit("play:");
    reveal_strlit("exit:");
    reveal_strlit(":");
    reveal_strlit("set");
    reveal_strlit("queue");
    reveal_strlit("toggle");
    reveal_strlit("pause");
    reveal_strlit("play");
    reveal_strlit("exit");
    let s = spec_encode(m);
    match m {
        MessageView::SetMotion(c, n) => {
            assert(s =~= "set"@ + seq![':'] + (c + seq![':'] + n));
            if n.len() > 0 {
                assert(s.last() == n[n.len() - 1]);
            } else {
                assert(s.last() == ':');
            }
            assert(spec_strip_newline(s) == s);
            lemma_split_wire_line("set"@, c, n);
        },
        MessageView::QueueMotion(c, n) => {
            assert(s =~= "queue"@ + seq![':'] + (c + seq![':'] + n));
            if n.len() > 0 {
                assert(s.last() == n[n.len() - 1]);
            } else {
                assert(s.last() == ':');
            }
            assert(spec_strip_newline(s) == s);
            lemma_split_wire_line("queue"@, c, n);
        },
        MessageView::Toggle => {
            assert(s =~= "toggle"@ + seq![':'] + Seq::<char>::empty());
            assert(s.last() == ':');
            assert(spec_strip_newline(s) == s);
            crate::text::lemma_split_on_first("toggle"@, ':', Seq::empty());
        },
        MessageView::Pause => {
            assert(s =~= "pause"@ + seq![':'] + Seq::<char>::empty());
            assert(s.last() == ':');
            assert(spec_strip_newline(s) == s);
            crate::text::lemma_split_on_first("pause"@, ':', Seq::empty());
        },
        MessageView::Play => {
            assert(s =~= "play"@ + seq![':'] + Seq::<char>::empty());
            assert(s.last() == ':');
            assert(spec_strip_newline(s) == s);
            crate::text::lemma_split_on_first("play"@, ':', Seq::empty());
        },
        MessageView::Exit => {
            assert(s =~= "exit"@ + seq![':'] + Seq::<char>::empty());
            assert(s.last() == ':');
            assert(spec_strip_newline(s) == s);
            crate::text::lemma_split_on_first("exit"@, ':', Seq::empty());
        },
    }
}

impl Message {
    /// Encode this message as one control line.
    pub fn encode(&self) -> (r: String)
        ensures
            r@ == spec_encode(self.view()),
    {
        match self {
            Message::SetMotion(p) => {
                let mut out = String::from_str("set:");
                out.append(p.0.as_str());
                out.append(":");
                out.append(p.1.as_str());
                proof {
                    assert(out@ =~= "set:"@ + p.0@ + ":"@ + p.1@);
                }
                out
            },
            Message::QueueMotion(p) => {
                let mut out = String::from_str("queue:");
                out.append(p.0.as_str());
                out.append(":");
                out.append(p.1.as_str());
                proof {
                    assert(out@ =~= "queue:"@ + p.0@ + ":"@ + p.1@);
                }
                out
            },
            Message::Toggle => String::from_str("toggle:"),
            Message::Pause => String::from_str("pause:"),
            Message::Play => String::from_str("play:"),
            Message::Exit => String::from_str("exit:"),
        }
    }
}

} // verus!
