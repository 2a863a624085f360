//! Turning typed user commands into framed outbound bytes, deposited in
//! the single-slot outbound mailbox for the transport side to drain.

use vstd::prelude::*;

use crate::bytes::{chars_fit, enc_chars, enc_u64};
use crate::frame::{encode_frame, spec_frames};
use crate::msg::{JoinMsg, Msg, PlayerMsg, SerializedEvent};
use crate::strings::{chars_vec, string_from_chars};

verus! {

/// The payload wrapped as one wire frame: its 2-byte big-endian length,
/// then the payload.
pub open spec fn spec_framed(payload: Seq<u8>) -> Seq<u8>
    recommends
        payload.len() <= 65535,
{
    seq![(payload.len() / 256) as u8, (payload.len() % 256) as u8] + payload
}

/// The single-slot handoff of the next outbound frame from the command
/// side to the transport side. Depositing overwrites whatever was not yet
/// drained: last intent wins.
#[derive(Debug)]
pub struct Mailbox {
    slot: Option<Vec<u8>>,
}

impl Mailbox {
    /// The pending frame, if any.
    pub closed spec fn slot(self) -> Option<Seq<u8>> {
        match self.slot {
            Some(v) => Some(v@),
            None => None,
        }
    }

    pub fn new() -> (r: Mailbox)
        ensures
            r.slot() is None,
    {
        Mailbox { slot: None }
    }

    /// Deposit the next outbound frame, overwriting any undrained one.
    pub fn deposit(&mut self, frame: Vec<u8>)
        ensures
            final(self).slot() == Some(frame@),
    {
        self.slot = Some(frame);
    }

    /// Drain the pending frame, leaving the slot empty.
    pub fn drain(&mut self) -> (r: Option<Vec<u8>>)
        ensures
            final(self).slot() is None,
            match r {
                Some(v) => old(self).slot() == Some(v@),
                None => old(self).slot() is None,
            },
    {
        self.slot.take()
    }
}

/// Strip one trailing newline, carriage return included, as read lines
/// carry it.
pub open spec fn spec_clean(s: Seq<char>) -> Seq<char> {
    let no_nl = if s.len() > 0 && s[s.len() - 1] == '\n' {
        s.drop_last()
    } else {
        s
    };
    if no_nl.len() > 0 && no_nl[no_nl.len() - 1] == '\r' {
        no_nl.drop_last()
    } else {
        no_nl
    }
}

/// The room number named by the characters after a `j` command: the
/// digits, after at most one leading plus sign, parsed as a decimal
/// number, or 0 when they are missing, hold a stray character, or
/// overflow.
pub open spec fn spec_room_of(cs: Seq<char>) -> u64 {
    match spec_parse_u64(cs) {
        Some(v) => v,
        None => 0,
    }
}

pub open spec fn spec_parse_u64(cs: Seq<char>) -> Option<u64>
    decreases cs.len(),
{
    if cs.len() == 0 {
        None
    } else if cs[0] == '+' {
        if cs.len() == 1 {
            None
        } else {
            spec_parse_u64_acc(cs.drop_first(), 0)
        }
    } else {
        spec_parse_u64_acc(cs, 0)
    }
}

pub open spec fn spec_parse_u64_acc(cs: Seq<char>, acc: u64) -> Option<u64>
    decreases cs.len(),
{
    if cs.len() == 0 {
        Some(acc)
    } else if '0' as u32 <= cs[0] as u32 <= '9' as u32 {
        let d = (cs[0] as u32 - '0' as u32) as u64;
        if acc <= (u64::MAX - d) / 10 {
            spec_parse_u64_acc(cs.drop_first(), (acc * 10 + d) as u64)
        } else {
            None
        }
    } else {
        None
    }
}

/// The characters of a command line past its one-letter verb and the
/// separating space.
pub open spec fn spec_rest(cs: Seq<char>) -> Seq<char> {
    if cs.len() >= 2 {
        cs.skip(2)
    } else {
        Seq::empty()
    }
}

/// Produces outbound frames from the user's typed commands and leaves
/// them in the shared mailbox.
pub struct KeyHandler {
    pub send_buf: Mailbox,
}

impl KeyHandler {
    pub fn new(send_buf: Mailbox) -> (r: KeyHandler)
        ensures
            r.send_buf == send_buf,
    {
        KeyHandler { send_buf }
    }

    /// Strip the trailing end-of-line, as [`spec_clean`] says.
    pub fn clean_string(string: String) -> (r: String)
        ensures
            r@ == spec_clean(string@),
    {
        let mut cs = chars_vec(string.as_str());
        if cs.len() > 0 {
            let last = cs[cs.len() - 1];
            if last == '\n' {
                cs.pop();
            }
        }
        if cs.len() > 0 {
            let last = cs[cs.len() - 1];
            if last == '\r' {
                cs.pop();
            }
        }
        proof {
            assert(cs@ =~= spec_clean(string@));
        }
        string_from_chars(&cs)
    }

    /// Frame the payload and deposit it for the transport side; a payload
    /// beyond what the 2-byte length prefix can carry is refused and
    /// everything is left as it was. On success the payload buffer is
    /// emptied and the deposited bytes decode back to exactly that
    /// payload.
    pub fn send_rtp(&mut self, send: &mut Vec<u8>)
        ensures
            if old(send)@.len() <= 65535 {
                &&& final(self).send_buf.slot() == Some(spec_framed(old(send)@))
                &&& final(send)@ == Seq::<u8>::empty()
                &&& spec_frames(spec_framed(old(send)@)) == seq![old(send)@]
            } else {
                &&& *final(self) == *old(self)
                &&& final(send)@ == old(send)@
            },
    {
        if send.len() > 65535 {
            return;
        }
        let frame = encode_frame(send.as_slice());
        self.send_buf.deposit(frame);
        send.clear();
    }

    /// Send the player's name ahead of joining, or do nothing for a name
    /// beyond what one frame can carry.
    pub fn submit_name(&mut self, name: String)
        ensures
            if chars_fit(name@) && enc_chars("player"@).len() + enc_chars(name@).len() <= 65535 {
                final(self).send_buf.slot() == Some(
                    spec_framed(enc_chars("player"@) + enc_chars(name@)),
                )
            } else {
                *final(self) == *old(self)
            },
    {
        proof {
            reveal_strlit("player");
            crate::strings::lemma_enc_char_payload_len("player"@);
            crate::strings::lemma_enc_char_payload_len(name@);
        }
        let cs = chars_vec(name.as_str());
        if cs.len() > 65535 {
            return;
        }
        let msg = PlayerMsg::new(name);
        let buf = msg.to_vec();
        if buf.len() > 65535 {
            return;
        }
        let frame = encode_frame(buf.as_slice());
        self.send_buf.deposit(frame);
    }

    /// Turn one cleaned command line into its outbound frame: `c` creates
    /// a room, `l` leaves it, `g` launches the game, a space drops a
    /// bomb, and `j <room>` joins the numbered room. Anything else
    /// deposits nothing.
    pub fn handle_command(&mut self, s: &str)
        ensures
            ({
                let cs = s@;
                if cs == "c"@ {
                    final(self).send_buf.slot() == Some(spec_framed(enc_chars("create"@)))
                } else if cs == "l"@ {
                    final(self).send_buf.slot() == Some(spec_framed(enc_chars("leave"@)))
                } else if cs == "g"@ {
                    final(self).send_buf.slot() == Some(spec_framed(enc_chars("launch"@)))
                } else if cs == " "@ {
                    final(self).send_buf.slot() == Some(spec_framed(enc_chars("bomb"@)))
                } else if cs.len() >= 1 && cs[0] == 'j' {
                    final(self).send_buf.slot() == Some(
                        spec_framed(enc_chars("join"@) + enc_u64(spec_room_of(spec_rest(cs)))),
                    )
                } else {
                    *final(self) == *old(self)
                }
            }),
    {
        proof {
            reveal_strlit("create");
            reveal_strlit("leave");
            reveal_strlit("launch");
            reveal_strlit("bomb");
        }
        let cs = chars_vec(s);
        if chars_is(&cs, 'c') {
            self.deposit_msg("create");
        } else if chars_is(&cs, 'l') {
            self.deposit_msg("leave");
        } else if chars_is(&cs, 'g') {
            self.deposit_msg("launch");
        } else if chars_is(&cs, ' ') {
            self.deposit_msg("bomb");
        } else if cs.len() >= 1 && cs[0] == 'j' {
            let room = parse_room(&cs);
            let msg = JoinMsg::new(room);
            proof {
                reveal_strlit("join");
                crate::strings::lemma_enc_char_payload_len("join"@);
            }
            let buf = msg.to_vec();
            let frame = encode_frame(buf.as_slice());
            self.send_buf.deposit(frame);
        }
        proof {
            reveal_strlit("c");
            reveal_strlit("l");
            reveal_strlit("g");
            reveal_strlit(" ");
            assert("c"@ =~= seq!['c']);
            assert("l"@ =~= seq!['l']);
            assert("g"@ =~= seq!['g']);
            assert(" "@ =~= seq![' ']);
        }
    }

    fn deposit_msg(&mut self, tag: &str)
        requires
            tag@.len() <= 100,
        ensures
            final(self).send_buf.slot() == Some(spec_framed(enc_chars(tag@))),
    {
        let msg = Msg::new(tag.to_owned());
        proof {
            crate::strings::lemma_enc_char_payload_len(tag@);
        }
        let buf = msg.to_vec();
        let frame = encode_frame(buf.as_slice());
        self.send_buf.deposit(frame);
    }
}

/// Whether the characters are exactly the one given.
fn chars_is(cs: &Vec<char>, c: char) -> (r: bool)
    ensures
        r == (cs@ == seq![c]),
{
    if cs.len() == 1 {
        if cs[0] == c {
            proof {
                assert(cs@ =~= seq![c]);
            }
            true
        } else {
            proof {
                assert(cs@[0] != seq![c][0]);
            }
            false
        }
    } else {
        proof {
            assert(cs@.len() != seq![c].len());
        }
        false
    }
}

/// Parse the room number after a `j` command, as [`spec_room_of`] of the
/// characters past the first two says.
fn parse_room(cs: &Vec<char>) -> (r: u64)
    ensures
        r == spec_room_of(spec_rest(cs@)),
{
    let n = cs.len();
    if n <= 2 {
        proof {
            if cs@.len() == 2 {
                assert(cs@.skip(2).len() == 0);
            }
            assert(spec_rest(cs@).len() == 0);
        }
        return 0;
    }
    let mut i: usize = 2;
    if cs[2] == '+' {
        i = 3;
        if n == 3 {
            proof {
                assert(cs@.skip(2).len() == 1);
                assert(cs@.skip(2)[0] == '+');
            }
            return 0;
        }
        proof {
            assert(cs@.skip(2)[0] == '+');
            assert(cs@.skip(2).len() > 1);
            assert(cs@.skip(2).drop_first() =~= cs@.skip(3));
        }
    } else {
        proof {
            assert(cs@.skip(2)[0] != '+');
            assert(cs@.skip(2).len() > 0);
        }
    }
    let ghost start = i as int;
    let mut acc: u64 = 0;
    while i < n
        invariant
            2 <= start <= i <= n,
            n == cs@.len(),
            n > 2,
            spec_parse_u64(cs@.skip(2)) == spec_parse_u64_acc(cs@.skip(i as int), acc),
        decreases n - i,
    {
        let c = cs[i];
        let cu = c as u32;
        if cu < '0' as u32 || cu > '9' as u32 {
            proof {
                assert(spec_parse_u64_acc(cs@.skip(i as int), acc) is None);
            }
            return 0;
        }
        let d: u64 = (cu - '0' as u32) as u64;
        if acc > (u64::MAX - d) / 10 {
            proof {
                assert(spec_parse_u64_acc(cs@.skip(i as int), acc) is None);
            }
            return 0;
        }
        acc = acc * 10 + d;
        i += 1;
        proof {
            assert(cs@.skip(i - 1).drop_first() =~= cs@.skip(i as int));
        }
    }
    proof {
        assert(cs@.skip(n as int).len() == 0);
        assert(spec_parse_u64_acc(cs@.skip(n as int), acc) == Some(acc));
    }
    acc
}

} // verus!
