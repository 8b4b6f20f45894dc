//! Telnet option negotiation: the terminal type and the window size that
//! the console server is told of.
use vstd::prelude::*;

verus! {

pub const IAC: u8 = 255;

pub const SB: u8 = 250;

pub const SE: u8 = 240;

pub const TELOPT_TTYPE: u8 = 24;

pub const TELOPT_NAWS: u8 = 31;

/// The window-size announcement: width and height as big-endian 16-bit
/// values, framed as a sub-negotiation.
pub open spec fn naws_bytes(width: u16, height: u16) -> Seq<u8> {
    seq![
        IAC,
        SB,
        TELOPT_NAWS,
        (width / 256) as u8,
        (width % 256) as u8,
        (height / 256) as u8,
        (height % 256) as u8,
        IAC,
        SE,
    ]
}

/// The terminal-type announcement: the terminal type's name, framed as a
/// sub-negotiation.
pub open spec fn ttype_bytes(term: Seq<u8>) -> Seq<u8> {
    seq![IAC, SB, TELOPT_TTYPE] + term + seq![IAC, SE]
}

pub fn naws_message(width: u16, height: u16) -> (r: Vec<u8>)
    ensures
        r@ == naws_bytes(width, height),
{
    let r = vec![
        IAC,
        SB,
        TELOPT_NAWS,
        (width / 256) as u8,
        (width % 256) as u8,
        (height / 256) as u8,
        (height % 256) as u8,
        IAC,
        SE,
    ];
    proof {
        assert(r@ =~= naws_bytes(width, height));
    }
    r
}

pub fn ttype_message(term: &[u8]) -> (r: Vec<u8>)
    ensures
        r@ == ttype_bytes(term@),
{
    let mut r = vec![IAC, SB, TELOPT_TTYPE];
    let mut i: usize = 0;
    while i < term.len()
        invariant
            0 <= i <= term@.len(),
            r@ == seq![IAC, SB, TELOPT_TTYPE] + term@.take(i as int),
        decreases term@.len() - i,
    {
        r.push(term[i]);
        proof {
            assert(term@.take(i + 1) =~= term@.take(i as int).push(term@[i as int]));
            assert(seq![IAC, SB, TELOPT_TTYPE] + term@.take(i + 1) =~= (seq![IAC, SB, TELOPT_TTYPE]
                + term@.take(i as int)).push(term@[i as int]));
        }
        i = i + 1;
    }
    r.push(IAC);
    r.push(SE);
    proof {
        assert(term@.take(term@.len() as int) =~= term@);
        assert(r@ =~= ttype_bytes(term@));
    }
    r
}

} // verus!
