//! The VISCA-over-IP front end: framing of the byte stream, decoding of
//! commands and inquiries, and the bytes of each reply.
use vstd::prelude::*;
use crate::actor::{CamCmd, PanTilt, Ratio, Reply};
use crate::nibbles::{
    nibbles_of, nibbles_to_int, nibbles_to_sec_angle, sec_angle_to_nibbles, sec_to_visca,
    signed_value, visca_to_sec,
};

verus! {

/// The longest unterminated input kept before the connection is closed.
pub const MAX_PENDING: usize = 200;

/// Splits `data`, read after the unterminated bytes `cur`, at each `0xFF`:
/// the complete frames, without their terminators, and the bytes left over.
pub open spec fn split_frames(cur: Seq<u8>, data: Seq<u8>) -> (Seq<Seq<u8>>, Seq<u8>)
    decreases data.len(),
{
    if data.len() == 0 {
        (Seq::empty(), cur)
    } else {
        let (frames, rest) = split_frames(cur, data.drop_last());
        if data.last() == 0xFF {
            (frames.push(rest), Seq::empty())
        } else {
            (frames, rest.push(data.last()))
        }
    }
}

/// The inquiries that get an answer of their own.
#[derive(Debug, Clone, Copy, PartialEq, Eq, Structural)]
pub enum Inquiry {
    Version,
    PanTiltPos,
    FocusMode,
    WhiteBalance,
    LensBlock,
}

/// What one frame asks for.
#[derive(Debug, Clone, Copy, PartialEq, Eq, Structural)]
pub enum Request {
    /// Too short, or not addressed to this camera: no reply.
    Ignored,
    /// A command, acknowledged and completed; it sends this to the camera,
    /// if anything.
    Command(Option<CamCmd>),
    Inquiry(Inquiry),
    /// An inquiry or a message that is not supported: answered with an error.
    Unsupported,
}

/// Pan speed in arc-seconds per second of the speed byte `vv`.
pub open spec fn pan_speed(vv: u8) -> int {
    let base = (vv % 25) as int * 3600;
    let once = if vv > 0x08 { 2 * base } else { base };
    if vv > 0x12 { 2 * once } else { once }
}

/// Tilt speed in arc-seconds per second of the speed byte `ww`.
pub open spec fn tilt_speed(ww: u8) -> int {
    (ww % 21) as int * 3600
}

/// Direction of pan: `1` left (negative), `2` right (positive).
pub open spec fn pan_sign(xx: u8) -> int {
    if xx == 1 {
        -1
    } else if xx == 2 {
        1
    } else {
        0
    }
}

/// Direction of tilt: `1` up (positive), `2` down (negative).
pub open spec fn tilt_sign(yy: u8) -> int {
    if yy == 1 {
        1
    } else if yy == 2 {
        -1
    } else {
        0
    }
}

/// The speed fraction of a zoom or focus drive byte: `2` full ahead, `3`
/// full back, `0x2p` ahead and `0x3p` back at `(p % 8 + 1) / 8`, else still.
pub open spec fn drive_ratio(v: u8) -> Ratio {
    if v == 2 {
        Ratio { num: 1, den: 1 }
    } else if v == 3 {
        Ratio { num: -1i32, den: 1 }
    } else if v / 16 == 2 {
        Ratio { num: (1 + v % 8) as i32, den: 8 }
    } else if v / 16 == 3 {
        Ratio { num: (-(1 + v % 8)) as i32, den: 8 }
    } else {
        Ratio { num: 0, den: 1 }
    }
}

/// Pan and tilt in arc-seconds from the nibbles at `dg[6..10]` and `dg[10..14]`.
pub open spec fn pan_tilt_arg(dg: Seq<u8>) -> PanTilt {
    PanTilt {
        pan: visca_to_sec(signed_value(dg.subrange(6, 10))) as i64,
        tilt: visca_to_sec(signed_value(dg.subrange(10, 14))) as i64,
    }
}

/// The command of a frame `81 01 ...`, given its length and bytes.
pub open spec fn command_of(dg: Seq<u8>) -> Option<CamCmd> {
    let n = dg.len();
    if n < 4 {
        None
    } else {
        let (a, b) = (dg[2], dg[3]);
        if a == 0x04 && b == 0x3F {
            if n < 6 {
                None
            } else if dg[4] == 0 {
                Some(CamCmd::ResetPreset(dg[5]))
            } else if dg[4] == 1 {
                Some(CamCmd::RecordPreset(dg[5]))
            } else if dg[4] == 2 {
                Some(CamCmd::RecoverPreset(dg[5]))
            } else {
                None
            }
        } else if a == 0x06 && b == 0x04 {
            Some(CamCmd::Home)
        } else if a == 0x06 && b == 0x01 {
            if n < 8 {
                None
            } else {
                Some(
                    CamCmd::MoveContinuous(
                        PanTilt {
                            pan: (pan_speed(dg[4]) * pan_sign(dg[6])) as i64,
                            tilt: (tilt_speed(dg[5]) * tilt_sign(dg[7])) as i64,
                        },
                    ),
                )
            }
        } else if a == 0x06 && b == 0x03 {
            if n < 14 {
                None
            } else {
                Some(CamCmd::MoveRelative(pan_tilt_arg(dg)))
            }
        } else if a == 0x06 && b == 0x02 {
            if n < 14 {
                None
            } else {
                Some(CamCmd::MoveAbsolute(pan_tilt_arg(dg)))
            }
        } else if a == 0x04 && b == 0x07 {
            if n < 5 {
                None
            } else {
                Some(CamCmd::ZoomContinuous(drive_ratio(dg[4])))
            }
        } else if a == 0x04 && b == 0x47 {
            if n < 8 {
                None
            } else {
                Some(
                    CamCmd::ZoomDirect(
                        Ratio { num: signed_value(dg.subrange(4, 8)) as i32, den: 0x4000 },
                    ),
                )
            }
        } else if a == 0x04 && b == 0x38 {
            if n < 5 {
                None
            } else if dg[4] == 2 {
                Some(CamCmd::AutoFocus(true))
            } else if dg[4] == 3 {
                Some(CamCmd::AutoFocus(false))
            } else if dg[4] == 0x10 {
                Some(CamCmd::AutoFocusToggle)
            } else {
                None
            }
        } else if a == 0x04 && b == 0x08 {
            if n < 5 {
                None
            } else {
                Some(CamCmd::FocusContinuous(drive_ratio(dg[4])))
            }
        } else if a == 0x04 && b == 0x48 {
            if n < 8 {
                None
            } else {
                Some(
                    CamCmd::FocusDirect(
                        Ratio { num: signed_value(dg.subrange(4, 8)) as i32, den: 0xF000 },
                    ),
                )
            }
        } else if a == 0x04 && b == 0x18 {
            if n < 5 {
                None
            } else if dg[4] == 1 {
                Some(CamCmd::FocusOnePushTrigger)
            } else if dg[4] == 2 {
                Some(CamCmd::FocusDirect(Ratio { num: 0, den: 1 }))
            } else {
                None
            }
        } else if a == 0x04 && b == 0x10 {
            if n >= 5 && dg[4] == 0x05 {
                Some(CamCmd::WhiteBalanceTrigger)
            } else {
                None
            }
        } else if a == 0x04 && b == 0x35 {
            if n < 5 {
                None
            } else {
                Some(CamCmd::WhiteBalanceMode(dg[4]))
            }
        } else {
            None
        }
    }
}

/// The inquiry of a frame `81 09 ...`, if it is one that gets an answer.
pub open spec fn inquiry_of(dg: Seq<u8>) -> Option<Inquiry> {
    if dg.len() < 4 {
        None
    } else if dg[2] == 0x00 && dg[3] == 0x02 {
        Some(Inquiry::Version)
    } else if dg[2] == 0x06 && dg[3] == 0x12 {
        Some(Inquiry::PanTiltPos)
    } else if dg[2] == 0x04 && dg[3] == 0x38 {
        Some(Inquiry::FocusMode)
    } else if dg[2] == 0x04 && dg[3] == 0x35 {
        Some(Inquiry::WhiteBalance)
    } else if dg[2] == 0x7E && dg[3] == 0x7E && dg.len() >= 5 && dg[4] == 0x00 {
        Some(Inquiry::LensBlock)
    } else {
        None
    }
}

/// What the frame `dg` (without its terminator) asks for.
pub open spec fn request_of(dg: Seq<u8>) -> Request {
    if dg.len() < 2 || dg[0] != 0x81 {
        Request::Ignored
    } else if dg[1] == 0x01 {
        Request::Command(command_of(dg))
    } else if dg[1] == 0x09 {
        match inquiry_of(dg) {
            Some(q) => Request::Inquiry(q),
            None => Request::Unsupported,
        }
    } else {
        Request::Unsupported
    }
}

/// Every command decoded from a frame is one the camera actor accepts.
pub proof fn lemma_decoded_commands_valid(dg: Seq<u8>)
    ensures
        request_of(dg) matches Request::Command(Some(c)) ==> c.valid(),
{
    if dg.len() >= 8 && dg[0] == 0x81 && dg[1] == 0x01 && dg[2] == 0x04 && (dg[3] == 0x47
        || dg[3] == 0x48) {
        crate::nibbles::lemma_signed_value_bounds(dg.subrange(4, 8));
    }
}

/// The connection's framing state: the bytes received after the last
/// terminator.
pub struct ViscaIpCon {
    buf: Vec<u8>,
}

impl ViscaIpCon {
    pub closed spec fn pending(&self) -> Seq<u8> {
        self.buf@
    }

    pub fn new() -> (r: ViscaIpCon)
        ensures
            r.pending() == Seq::<u8>::empty(),
    {
        ViscaIpCon { buf: Vec::new() }
    }

    /// Takes the bytes of one read and returns the complete frames, without
    /// their terminators, in order.
    pub fn process(&mut self, data: &[u8]) -> (r: Vec<Vec<u8>>)
        ensures
            r@.len() == split_frames(old(self).pending(), data@).0.len(),
            forall|i: int|
                0 <= i < r@.len() ==> #[trigger] r@[i]@ == split_frames(
                    old(self).pending(),
                    data@,
                ).0[i],
            final(self).pending() == split_frames(old(self).pending(), data@).1,
    {
        let ghost cur0 = self.buf@;
        let mut frames: Vec<Vec<u8>> = Vec::new();
        let mut i: usize = 0;
        while i < data.len()
            invariant
                i <= data@.len(),
                frames@.len() == split_frames(cur0, data@.take(i as int)).0.len(),
                forall|k: int|
                    0 <= k < frames@.len() ==> #[trigger] frames@[k]@ == split_frames(
                        cur0,
                        data@.take(i as int),
                    ).0[k],
                self.buf@ == split_frames(cur0, data@.take(i as int)).1,
            decreases data@.len() - i,
        {
            proof {
                assert(data@.take(i as int + 1).drop_last() =~= data@.take(i as int));
            }
            let b = data[i];
            if b == 0xFF {
                let frame = self.buf.clone();
                assert(frame@ =~= self.buf@);
                frames.push(frame);
                self.buf = Vec::new();
            } else {
                self.buf.push(b);
            }
            i = i + 1;
        }
        assert(data@.take(data@.len() as int) =~= data@);
        frames
    }

    /// The unterminated input has grown past the limit: the connection
    /// closes.
    pub fn overflowed(&self) -> (r: bool)
        ensures
            r == (self.pending().len() > MAX_PENDING),
    {
        self.buf.len() > MAX_PENDING
    }
}

fn drive_ratio_of(v: u8) -> (r: Ratio)
    ensures
        r == drive_ratio(v),
{
    if v == 2 {
        Ratio { num: 1, den: 1 }
    } else if v == 3 {
        Ratio { num: -1, den: 1 }
    } else if v / 16 == 2 {
        Ratio { num: (1 + v % 8) as i32, den: 8 }
    } else if v / 16 == 3 {
        Ratio { num: -((1 + v % 8) as i32), den: 8 }
    } else {
        Ratio { num: 0, den: 1 }
    }
}

fn pan_tilt_arg_of(dg: &[u8]) -> (r: PanTilt)
    requires
        dg@.len() >= 14,
    ensures
        r == pan_tilt_arg(dg@),
{
    let pan = nibbles_to_sec_angle(slice_of(dg, 6, 10).as_slice());
    let tilt = nibbles_to_sec_angle(slice_of(dg, 10, 14).as_slice());
    PanTilt { pan, tilt }
}

fn slice_of(dg: &[u8], start: usize, end: usize) -> (r: Vec<u8>)
    requires
        start <= end <= dg@.len(),
    ensures
        r@ == dg@.subrange(start as int, end as int),
{
    let mut r: Vec<u8> = Vec::new();
    let mut i: usize = start;
    while i < end
        invariant
            start <= i <= end,
            end <= dg@.len(),
            r@ == dg@.subrange(start as int, i as int),
        decreases end - i,
    {
        r.push(dg[i]);
        i = i + 1;
        assert(r@ =~= dg@.subrange(start as int, i as int));
    }
    r
}

fn fraction_arg(dg: &[u8], den: i32) -> (r: Ratio)
    requires
        dg@.len() >= 8,
    ensures
        r == (Ratio { num: signed_value(dg@.subrange(4, 8)) as i32, den }),
{
    let v = nibbles_to_int(slice_of(dg, 4, 8).as_slice());
    proof {
        crate::nibbles::lemma_signed_value_bounds(dg@.subrange(4, 8));
        reveal_with_fuel(crate::nibbles::pow16, 5);
    }
    Ratio { num: v as i32, den }
}

fn command_of_frame(dg: &[u8]) -> (r: Option<CamCmd>)
    ensures
        r == command_of(dg@),
{
    let n = dg.len();
    if n < 4 {
        return None;
    }
    let a = dg[2];
    let b = dg[3];
    if a == 0x04 && b == 0x3F {
        if n < 6 {
            None
        } else if dg[4] == 0 {
            Some(CamCmd::ResetPreset(dg[5]))
        } else if dg[4] == 1 {
            Some(CamCmd::RecordPreset(dg[5]))
        } else if dg[4] == 2 {
            Some(CamCmd::RecoverPreset(dg[5]))
        } else {
            None
        }
    } else if a == 0x06 && b == 0x04 {
        Some(CamCmd::Home)
    } else if a == 0x06 && b == 0x01 {
        if n < 8 {
            None
        } else {
            let vv = dg[4];
            let mut panspeed: i64 = (vv % 25) as i64 * 3600;
            if vv > 0x08 {
                panspeed = 2 * panspeed;
            }
            if vv > 0x12 {
                panspeed = 2 * panspeed;
            }
            let tiltspeed: i64 = (dg[5] % 21) as i64 * 3600;
            let pan: i64 = if dg[6] == 1 {
                -panspeed
            } else if dg[6] == 2 {
                panspeed
            } else {
                0
            };
            let tilt: i64 = if dg[7] == 1 {
                tiltspeed
            } else if dg[7] == 2 {
                -tiltspeed
            } else {
                0
            };
            Some(CamCmd::MoveContinuous(PanTilt { pan, tilt }))
        }
    } else if a == 0x06 && b == 0x03 {
        if n < 14 {
            None
        } else {
            Some(CamCmd::MoveRelative(pan_tilt_arg_of(dg)))
        }
    } else if a == 0x06 && b == 0x02 {
        if n < 14 {
            None
        } else {
            Some(CamCmd::MoveAbsolute(pan_tilt_arg_of(dg)))
        }
    } else if a == 0x04 && b == 0x07 {
        if n < 5 {
            None
        } else {
            Some(CamCmd::ZoomContinuous(drive_ratio_of(dg[4])))
        }
    } else if a == 0x04 && b == 0x47 {
        if n < 8 {
            None
        } else {
            Some(CamCmd::ZoomDirect(fraction_arg(dg, 0x4000)))
        }
    } else if a == 0x04 && b == 0x38 {
        if n < 5 {
            None
        } else if dg[4] == 2 {
            Some(CamCmd::AutoFocus(true))
        } else if dg[4] == 3 {
            Some(CamCmd::AutoFocus(false))
        } else if dg[4] == 0x10 {
            Some(CamCmd::AutoFocusToggle)
        } else {
            None
        }
    } else if a == 0x04 && b == 0x08 {
        if n < 5 {
            None
        } else {
            Some(CamCmd::FocusContinuous(drive_ratio_of(dg[4])))
        }
    } else if a == 0x04 && b == 0x48 {
        if n < 8 {
            None
        } else {
            Some(CamCmd::FocusDirect(fraction_arg(dg, 0xF000)))
        }
    } else if a == 0x04 && b == 0x18 {
        if n < 5 {
            None
        } else if dg[4] == 1 {
            Some(CamCmd::FocusOnePushTrigger)
        } else if dg[4] == 2 {
            Some(CamCmd::FocusDirect(Ratio { num: 0, den: 1 }))
        } else {
            None
        }
    } else if a == 0x04 && b == 0x10 {
        if n >= 5 && dg[4] == 0x05 {
            Some(CamCmd::WhiteBalanceTrigger)
        } else {
            None
        }
    } else if a == 0x04 && b == 0x35 {
        if n < 5 {
            None
        } else {
            Some(CamCmd::WhiteBalanceMode(dg[4]))
        }
    } else {
        None
    }
}

/// Decodes one frame, without its terminator.
pub fn data_received(dg: &[u8]) -> (r: Request)
    ensures
        r == request_of(dg@),
{
    if dg.len() < 2 || dg[0] != 0x81 {
        return Request::Ignored;
    }
    if dg[1] == 0x01 {
        return Request::Command(command_of_frame(dg));
    }
    if dg[1] != 0x09 {
        return Request::Unsupported;
    }
    if dg.len() < 4 {
        Request::Unsupported
    } else if dg[2] == 0x00 && dg[3] == 0x02 {
        Request::Inquiry(Inquiry::Version)
    } else if dg[2] == 0x06 && dg[3] == 0x12 {
        Request::Inquiry(Inquiry::PanTiltPos)
    } else if dg[2] == 0x04 && dg[3] == 0x38 {
        Request::Inquiry(Inquiry::FocusMode)
    } else if dg[2] == 0x04 && dg[3] == 0x35 {
        Request::Inquiry(Inquiry::WhiteBalance)
    } else if dg[2] == 0x7E && dg[3] == 0x7E && dg.len() >= 5 && dg[4] == 0x00 {
        Request::Inquiry(Inquiry::LensBlock)
    } else {
        Request::Unsupported
    }
}

impl Inquiry {
    /// The query that the camera actor answers for this inquiry, if any.
    pub open spec fn query_spec(self) -> Option<CamCmd> {
        match self {
            Inquiry::Version => None,
            Inquiry::PanTiltPos => Some(CamCmd::QueryPanTilt),
            Inquiry::FocusMode => Some(CamCmd::QueryFocusMode),
            Inquiry::WhiteBalance => Some(CamCmd::QueryWhiteBalanceMode),
            Inquiry::LensBlock => Some(CamCmd::QueryFocusMode),
        }
    }

    pub fn query(&self) -> (r: Option<CamCmd>)
        ensures
            r == self.query_spec(),
    {
        match self {
            Inquiry::Version => None,
            Inquiry::PanTiltPos => Some(CamCmd::QueryPanTilt),
            Inquiry::FocusMode => Some(CamCmd::QueryFocusMode),
            Inquiry::WhiteBalance => Some(CamCmd::QueryWhiteBalanceMode),
            Inquiry::LensBlock => Some(CamCmd::QueryFocusMode),
        }
    }
}

/// A reply datagram: address `0x91`, the payload, and the terminator.
pub open spec fn datagram_spec(payload: Seq<u8>) -> Seq<u8> {
    seq![0x91u8] + payload + seq![0xFFu8]
}

/// The payload of the answer to an inquiry, or `None` when the camera's
/// answer does not fit the inquiry.
pub open spec fn inquiry_payload(q: Inquiry, answer: Option<Reply>) -> Option<Seq<u8>> {
    match (q, answer) {
        (Inquiry::Version, _) => Some(seq![0x50u8, 0x09, 0x99, 0x00, 0x01, 0x00, 0x01, 0x02]),
        (Inquiry::PanTiltPos, Some(Reply::PanTilt(pt))) => Some(
            seq![0x50u8] + nibbles_of(sec_to_visca(pt.pan as int), 5) + nibbles_of(
                sec_to_visca(pt.tilt as int),
                4,
            ),
        ),
        (Inquiry::FocusMode, Some(Reply::FocusMode(auto))) => Some(
            seq![0x50u8, if auto { 0x02u8 } else { 0x03u8 }],
        ),
        (Inquiry::WhiteBalance, Some(Reply::WhiteBalanceMode(m))) => Some(seq![0x50u8, m]),
        (Inquiry::LensBlock, Some(Reply::FocusMode(auto))) => Some(
            seq![0x50u8] + Seq::new(11, |i: int| 0u8) + seq![if auto { 1u8 } else { 0u8 }, 0u8],
        ),
        _ => None,
    }
}

/// The error answer `60 02`, for what is not supported.
pub open spec fn error_payload() -> Seq<u8> {
    seq![0x60u8, 0x02]
}

/// Frames `payload` as a reply datagram.
pub fn send_datagram(payload: &[u8]) -> (r: Vec<u8>)
    ensures
        r@ == datagram_spec(payload@),
{
    let mut buf: Vec<u8> = Vec::new();
    buf.push(0x91);
    let mut i: usize = 0;
    while i < payload.len()
        invariant
            i <= payload@.len(),
            buf@ == seq![0x91u8] + payload@.take(i as int),
        decreases payload@.len() - i,
    {
        buf.push(payload[i]);
        i = i + 1;
        assert(buf@ =~= seq![0x91u8] + payload@.take(i as int));
    }
    buf.push(0xFF);
    assert(payload@.take(payload@.len() as int) =~= payload@);
    assert(buf@ =~= datagram_spec(payload@));
    buf
}

/// The bytes that answer a request: acknowledge and completion for a
/// command, the inquiry's answer (given the camera's reply to its query),
/// or the error datagram; nothing for an ignored frame.
pub open spec fn response_spec(req: Request, answer: Option<Reply>) -> Seq<u8> {
    match req {
        Request::Ignored => Seq::empty(),
        Request::Command(_) => datagram_spec(seq![0x41u8]) + datagram_spec(seq![0x51u8]),
        Request::Inquiry(q) => match inquiry_payload(q, answer) {
            Some(p) => datagram_spec(p),
            None => datagram_spec(error_payload()),
        },
        Request::Unsupported => datagram_spec(error_payload()),
    }
}

fn append(dst: &mut Vec<u8>, src: Vec<u8>)
    ensures
        final(dst)@ == old(dst)@ + src@,
{
    let mut i: usize = 0;
    while i < src.len()
        invariant
            i <= src@.len(),
            dst@ == old(dst)@ + src@.take(i as int),
        decreases src@.len() - i,
    {
        dst.push(src[i]);
        i = i + 1;
        assert(dst@ =~= old(dst)@ + src@.take(i as int));
    }
    assert(src@.take(src@.len() as int) =~= src@);
}

/// The bytes written back for a request; `answer` is the camera's reply to
/// the inquiry's query.
pub fn response(req: &Request, answer: Option<Reply>) -> (r: Vec<u8>)
    ensures
        r@ == response_spec(*req, answer),
{
    match req {
        Request::Ignored => Vec::new(),
        Request::Command(_) => {
            let mut r = send_datagram(&[0x41u8]);
            append(&mut r, send_datagram(&[0x51u8]));
            assert(r@ =~= response_spec(*req, answer));
            r
        },
        Request::Unsupported => send_datagram(&[0x60u8, 0x02u8]),
        Request::Inquiry(q) => {
            let mut p: Vec<u8> = Vec::new();
            p.push(0x50);
            match (q, answer) {
                (Inquiry::Version, _) => {
                    append(&mut p, vec![0x09u8, 0x99, 0x00, 0x01, 0x00, 0x01, 0x02]);
                },
                (Inquiry::PanTiltPos, Some(Reply::PanTilt(pt))) => {
                    append(&mut p, sec_angle_to_nibbles(pt.pan, 5));
                    append(&mut p, sec_angle_to_nibbles(pt.tilt, 4));
                },
                (Inquiry::FocusMode, Some(Reply::FocusMode(auto))) => {
                    p.push(if auto { 0x02 } else { 0x03 });
                },
                (Inquiry::WhiteBalance, Some(Reply::WhiteBalanceMode(m))) => {
                    p.push(m);
                },
                (Inquiry::LensBlock, Some(Reply::FocusMode(auto))) => {
                    let mut k: usize = 0;
                    while k < 11
                        invariant
                            k <= 11,
                            p@ == seq![0x50u8] + Seq::new(k as nat, |i: int| 0u8),
                        decreases 11 - k,
                    {
                        p.push(0);
                        k = k + 1;
                        assert(p@ =~= seq![0x50u8] + Seq::new(k as nat, |i: int| 0u8));
                    }
                    p.push(if auto { 1 } else { 0 });
                    p.push(0);
                },
                _ => {
                    return send_datagram(&[0x60u8, 0x02u8]);
                },
            }
            assert(inquiry_payload(*q, answer) == Some(p@)) by {
                assert(p@ =~= inquiry_payload(*q, answer).unwrap());
            }
            send_datagram(p.as_slice())
        },
    }
}

} // verus!
