//! The per-camera control state: commanded values of each control, the
//! speeds of continuous motion, and the writes to the device that each
//! command or tick asks for.
use vstd::prelude::*;
use crate::control::{CamControl, Description};
use crate::error::UVIError;
use crate::nibbles::div_toward_zero;

verus! {

/// `v` brought into `[lo, hi]`.
pub open spec fn clamp(v: int, lo: int, hi: int) -> int {
    if v > hi {
        hi
    } else if v < lo {
        lo
    } else {
        v
    }
}

/// The distance in arc-seconds (two degrees) by which the actuator may trail
/// the commanded pan or tilt before continuous motion waits for it.
pub const PAN_TILT_LAG_LIMIT: i64 = 7200;

/// One numeric control: its range and the commanded value.
#[derive(Debug, Clone, Copy, PartialEq, Eq, Structural)]
pub struct CamCtrl {
    pub minimum: i64,
    pub maximum: i64,
    pub value: i64,
    pub step: u64,
}

/// `c` with its value set to `v`, clamped into the range.
pub open spec fn ctrl_set(c: CamCtrl, v: int) -> CamCtrl {
    CamCtrl { value: clamp(v, c.minimum as int, c.maximum as int) as i64, ..c }
}

/// The commanded value stands on a limit of the range.
pub open spec fn at_limit(c: CamCtrl) -> bool {
    c.value >= c.maximum || c.value <= c.minimum
}

impl CamCtrl {
    pub open spec fn wf(self) -> bool {
        self.minimum <= self.value <= self.maximum
    }

    /// A control with the range of `descr`, holding `value` clamped into it;
    /// an empty range is refused.
    pub fn init(descr: &Description, value: i64) -> (r: Result<CamCtrl, UVIError>)
        ensures
            descr.minimum > descr.maximum <==> r is Err,
            r is Err ==> r == Err::<CamCtrl, UVIError>(UVIError::CamControlNotFound),
            r matches Ok(c) ==> c.wf() && c == ctrl_set(
                CamCtrl {
                    minimum: descr.minimum,
                    maximum: descr.maximum,
                    value: descr.minimum,
                    step: descr.step,
                },
                value as int,
            ),
    {
        if descr.minimum > descr.maximum {
            return Err(UVIError::CamControlNotFound);
        }
        let mut c = CamCtrl {
            minimum: descr.minimum,
            maximum: descr.maximum,
            value: descr.minimum,
            step: descr.step,
        };
        c.set(value);
        Ok(c)
    }

    /// Sets the commanded value, clamped into the range.
    pub fn set(&mut self, newval: i64)
        ensures
            *final(self) == ctrl_set(*old(self), newval as int),
    {
        if newval > self.maximum {
            self.value = self.maximum;
        } else {
            if newval < self.minimum {
                self.value = self.minimum;
            } else {
                self.value = newval;
            }
        }
    }

    /// Sets the commanded value to `v`, clamped; `v` may lie outside `i64`.
    fn set_wide(&mut self, v: i128)
        requires
            old(self).wf(),
        ensures
            *final(self) == ctrl_set(*old(self), v as int),
            final(self).wf(),
    {
        if v > self.maximum as i128 {
            self.value = self.maximum;
        } else if v < self.minimum as i128 {
            self.value = self.minimum;
        } else {
            self.value = v as i64;
        }
    }

    /// The distance between a physical reading and the commanded value.
    fn distance(&self, phys: i64) -> (r: i128)
        ensures
            r as int == abs_diff(phys as int, self.value as int),
    {
        let d: i128 = phys as i128 - self.value as i128;
        if d < 0 {
            -d
        } else {
            d
        }
    }

    /// A tenth of the range, the lag that zoom and focus tolerate.
    fn tenth_of_range(&self) -> (r: i128)
        requires
            self.wf(),
        ensures
            r as int == (self.maximum - self.minimum) / 10,
    {
        (self.maximum as i128 - self.minimum as i128) / 10
    }
}

pub open spec fn abs_diff(a: int, b: int) -> int {
    if a >= b {
        a - b
    } else {
        b - a
    }
}

/// One write of a value to a control of the device.
#[derive(Debug, Clone, Copy, PartialEq, Eq, Structural)]
pub struct CtrlWrite {
    pub ctrl: CamControl,
    pub value: i64,
}

pub open spec fn write_of(ctrl: CamControl, c: CamCtrl) -> CtrlWrite {
    CtrlWrite { ctrl, value: c.value }
}

fn push_write(w: &mut Vec<CtrlWrite>, ctrl: CamControl, value: i64)
    ensures
        final(w)@ == old(w)@.push(CtrlWrite { ctrl, value }),
{
    w.push(CtrlWrite { ctrl, value });
}

/// Pan and tilt, in arc-seconds, with their speeds in arc-seconds per second.
#[derive(Debug, Clone, Copy, PartialEq, Eq, Structural)]
pub struct PanTiltState {
    pub pan: CamCtrl,
    pub tilt: CamCtrl,
    pub panspeed: i64,
    pub tiltspeed: i64,
}

/// The writes that push pan and tilt to the device.
pub open spec fn pan_tilt_writes(s: PanTiltState) -> Seq<CtrlWrite> {
    seq![write_of(CamControl::PanAbsolute, s.pan), write_of(CamControl::TiltAbsolute, s.tilt)]
}

/// The move of one 50 ms tick at `speed` units per second.
pub open spec fn tick_move(speed: int) -> int {
    div_toward_zero(speed, 20)
}

/// The actuator trails the commanded value by more than the lag limit.
pub open spec fn pan_tilt_lagging(phys: int, c: CamCtrl) -> bool {
    abs_diff(phys, c.value as int) > PAN_TILT_LAG_LIMIT
}

impl PanTiltState {
    pub open spec fn wf(self) -> bool {
        self.pan.wf() && self.tilt.wf()
    }

    pub open spec fn absolute_spec(self, pan: int, tilt: int) -> PanTiltState {
        PanTiltState {
            pan: ctrl_set(self.pan, pan),
            tilt: ctrl_set(self.tilt, tilt),
            panspeed: 0,
            tiltspeed: 0,
        }
    }

    pub open spec fn relative_spec(self, dpan: int, dtilt: int) -> PanTiltState {
        let pan = ctrl_set(self.pan, self.pan.value + dpan);
        let tilt = ctrl_set(self.tilt, self.tilt.value + dtilt);
        PanTiltState {
            pan,
            tilt,
            panspeed: if at_limit(pan) { 0 } else { self.panspeed },
            tiltspeed: if at_limit(tilt) { 0 } else { self.tiltspeed },
        }
    }

    /// Continuous motion is under way: a tick would move some axis.
    pub open spec fn moving(self) -> bool {
        tick_move(self.panspeed as int) != 0 || tick_move(self.tiltspeed as int) != 0
    }

    /// One tick of continuous motion, given the physical pan and tilt: each
    /// moving axis advances by its speed over 50 ms unless its actuator lags.
    pub open spec fn tick_spec(self, phys_pan: int, phys_tilt: int) -> PanTiltState {
        if !self.moving() {
            self
        } else {
            let dpan = if tick_move(self.panspeed as int) != 0 && pan_tilt_lagging(
                phys_pan,
                self.pan,
            ) {
                0
            } else {
                tick_move(self.panspeed as int)
            };
            let dtilt = if self.tiltspeed != 0 && pan_tilt_lagging(phys_tilt, self.tilt) {
                0
            } else {
                tick_move(self.tiltspeed as int)
            };
            self.relative_spec(dpan, dtilt)
        }
    }

    pub(crate) fn absolute_move(&mut self, pan: i64, tilt: i64, w: &mut Vec<CtrlWrite>)
        requires
            old(self).wf(),
        ensures
            *final(self) == old(self).absolute_spec(pan as int, tilt as int),
            final(self).wf(),
            final(w)@ == old(w)@ + pan_tilt_writes(*final(self)),
    {
        self.panspeed = 0;
        self.tiltspeed = 0;
        self.pan.set(pan);
        push_write(w, CamControl::PanAbsolute, self.pan.value);
        self.tilt.set(tilt);
        push_write(w, CamControl::TiltAbsolute, self.tilt.value);
    }

    pub(crate) fn relative_move(&mut self, pan_move: i64, tilt_move: i64, w: &mut Vec<CtrlWrite>)
        requires
            old(self).wf(),
        ensures
            *final(self) == old(self).relative_spec(pan_move as int, tilt_move as int),
            final(self).wf(),
            final(w)@ == old(w)@ + pan_tilt_writes(*final(self)),
    {
        self.pan.set_wide(self.pan.value as i128 + pan_move as i128);
        if self.pan.value >= self.pan.maximum || self.pan.value <= self.pan.minimum {
            self.panspeed = 0;
        }
        push_write(w, CamControl::PanAbsolute, self.pan.value);
        self.tilt.set_wide(self.tilt.value as i128 + tilt_move as i128);
        if self.tilt.value >= self.tilt.maximum || self.tilt.value <= self.tilt.minimum {
            self.tiltspeed = 0;
        }
        push_write(w, CamControl::TiltAbsolute, self.tilt.value);
    }

    fn is_moving(&self) -> (r: bool)
        ensures
            r == self.moving(),
    {
        self.panspeed / 20 != 0 || self.tiltspeed / 20 != 0
    }

    pub(crate) fn periodic_move(&mut self, phys_pan: i64, phys_tilt: i64, w: &mut Vec<CtrlWrite>)
        requires
            old(self).wf(),
        ensures
            *final(self) == old(self).tick_spec(phys_pan as int, phys_tilt as int),
            final(self).wf(),
            final(w)@ == old(w)@ + if old(self).moving() {
                pan_tilt_writes(*final(self))
            } else {
                Seq::empty()
            },
    {
        if !self.is_moving() {
            assert(old(w)@ + Seq::<CtrlWrite>::empty() =~= old(w)@);
            return;
        }
        let mut pan_move: i64 = speed_per_tick(self.panspeed);
        let mut tilt_move: i64 = speed_per_tick(self.tiltspeed);
        if pan_move != 0 && self.pan.distance(phys_pan) > PAN_TILT_LAG_LIMIT as i128 {
            pan_move = 0;
        }
        if self.tiltspeed != 0 && self.tilt.distance(phys_tilt) > PAN_TILT_LAG_LIMIT as i128 {
            tilt_move = 0;
        }
        self.relative_move(pan_move, tilt_move, w);
    }
}

/// A speed per second as a move per 50 ms tick, rounded toward zero.
fn speed_per_tick(speed: i64) -> (r: i64)
    ensures
        r as int == tick_move(speed as int),
{
    if speed >= 0 {
        speed / 20
    } else {
        -((-(speed as i128) / 20) as i64)
    }
}

/// Zoom in device units, with its speed in units per tick.
#[derive(Debug, Clone, Copy, PartialEq, Eq, Structural)]
pub struct Zoom {
    pub zoom: CamCtrl,
    pub zoomspeed: i64,
}

/// One tick of continuous motion of a zoom or focus control: the commanded
/// value advances by `speed` while the actuator trails it by less than a
/// tenth of the range; reaching a limit stops the motion.
pub open spec fn axis_tick(c: CamCtrl, speed: int, phys: int) -> (CamCtrl, int) {
    if speed != 0 && abs_diff(phys, c.value as int) < (c.maximum - c.minimum) / 10 {
        let n = ctrl_set(c, c.value + speed);
        (n, if at_limit(n) { 0 } else { speed })
    } else {
        (c, speed)
    }
}

/// The tick of a zoom or focus control writes to the device.
pub open spec fn axis_tick_writes(c: CamCtrl, speed: int, phys: int) -> bool {
    speed != 0 && abs_diff(phys, c.value as int) < (c.maximum - c.minimum) / 10
}

/// Advances `c` by one tick of `speed`; returns whether it moved, and the
/// speed that remains.
fn axis_periodic_move(c: &mut CamCtrl, speed: i64, phys: i64) -> (r: (bool, i64))
    requires
        old(c).wf(),
    ensures
        final(c).wf(),
        r.0 == axis_tick_writes(*old(c), speed as int, phys as int),
        (*final(c), r.1 as int) == axis_tick(*old(c), speed as int, phys as int),
{
    if speed != 0 && c.distance(phys) < c.tenth_of_range() {
        c.set_wide(c.value as i128 + speed as i128);
        if c.value >= c.maximum || c.value <= c.minimum {
            (true, 0)
        } else {
            (true, speed)
        }
    } else {
        (false, speed)
    }
}

impl Zoom {
    pub open spec fn wf(self) -> bool {
        self.zoom.wf()
    }

    pub open spec fn absolute_spec(self, zoom: int) -> Zoom {
        Zoom { zoom: ctrl_set(self.zoom, zoom), zoomspeed: 0 }
    }

    pub open spec fn tick_spec(self, phys: int) -> Zoom {
        let (c, s) = axis_tick(self.zoom, self.zoomspeed as int, phys);
        Zoom { zoom: c, zoomspeed: s as i64 }
    }

    pub(crate) fn absolute(&mut self, zoom: i128, w: &mut Vec<CtrlWrite>)
        requires
            old(self).wf(),
        ensures
            *final(self) == old(self).absolute_spec(zoom as int),
            final(self).wf(),
            final(w)@ == old(w)@.push(write_of(CamControl::ZoomAbsolute, final(self).zoom)),
    {
        self.zoomspeed = 0;
        self.zoom.set_wide(zoom);
        push_write(w, CamControl::ZoomAbsolute, self.zoom.value);
    }

    pub(crate) fn periodic_move(&mut self, phys: i64, w: &mut Vec<CtrlWrite>)
        requires
            old(self).wf(),
        ensures
            *final(self) == old(self).tick_spec(phys as int),
            final(self).wf(),
            final(w)@ == if axis_tick_writes(old(self).zoom, old(self).zoomspeed as int, phys as int) {
                old(w)@.push(write_of(CamControl::ZoomAbsolute, final(self).zoom))
            } else {
                old(w)@
            },
    {
        let (moved, speed) = axis_periodic_move(&mut self.zoom, self.zoomspeed, phys);
        self.zoomspeed = speed;
        if moved {
            push_write(w, CamControl::ZoomAbsolute, self.zoom.value);
        }
    }
}

/// Focus: the auto-focus flag, the focus position, and its speed per tick.
#[derive(Debug, Clone, Copy, PartialEq, Eq, Structural)]
pub struct Focus {
    pub auto: CamCtrl,
    pub focus: CamCtrl,
    pub focusspeed: i64,
}

/// The writes of an absolute focus or white-balance setting: the auto flag,
/// and the manual value when the flag is off.
pub open spec fn auto_writes(
    auto_ctrl: CamControl,
    value_ctrl: CamControl,
    auto: bool,
    flag: CamCtrl,
    value: CamCtrl,
) -> Seq<CtrlWrite> {
    if auto {
        seq![write_of(auto_ctrl, flag)]
    } else {
        seq![write_of(auto_ctrl, flag), write_of(value_ctrl, value)]
    }
}

impl Focus {
    pub open spec fn wf(self) -> bool {
        self.auto.wf() && self.focus.wf()
    }

    pub open spec fn absolute_spec(self, auto: bool, focus: int) -> Focus {
        Focus {
            auto: ctrl_set(self.auto, if auto { 1 } else { 0 }),
            focus: ctrl_set(self.focus, focus),
            focusspeed: 0,
        }
    }

    pub open spec fn tick_spec(self, phys: int) -> Focus {
        let (c, s) = axis_tick(self.focus, self.focusspeed as int, phys);
        Focus { auto: self.auto, focus: c, focusspeed: s as i64 }
    }

    pub(crate) fn absolute(&mut self, auto: bool, focus: i128, w: &mut Vec<CtrlWrite>)
        requires
            old(self).wf(),
        ensures
            *final(self) == old(self).absolute_spec(auto, focus as int),
            final(self).wf(),
            final(w)@ == old(w)@ + auto_writes(
                CamControl::FocusAuto,
                CamControl::FocusAbsolute,
                auto,
                final(self).auto,
                final(self).focus,
            ),
    {
        self.focusspeed = 0;
        self.auto.set_wide(if auto { 1 } else { 0 });
        self.focus.set_wide(focus);
        push_write(w, CamControl::FocusAuto, self.auto.value);
        if !auto {
            push_write(w, CamControl::FocusAbsolute, self.focus.value);
        }
    }

    pub(crate) fn periodic_move(&mut self, phys: i64, w: &mut Vec<CtrlWrite>)
        requires
            old(self).wf(),
        ensures
            *final(self) == old(self).tick_spec(phys as int),
            final(self).wf(),
            final(w)@ == if axis_tick_writes(old(self).focus, old(self).focusspeed as int, phys as int) {
                old(w)@.push(write_of(CamControl::FocusAbsolute, final(self).focus))
            } else {
                old(w)@
            },
    {
        let (moved, speed) = axis_periodic_move(&mut self.focus, self.focusspeed, phys);
        self.focusspeed = speed;
        if moved {
            push_write(w, CamControl::FocusAbsolute, self.focus.value);
        }
    }
}

/// White balance: the automatic flag and the colour temperature in Kelvin.
#[derive(Debug, Clone, Copy, PartialEq, Eq, Structural)]
pub struct WhiteBal {
    pub auto: CamCtrl,
    pub temp: CamCtrl,
}

impl WhiteBal {
    pub open spec fn wf(self) -> bool {
        self.auto.wf() && self.temp.wf()
    }

    pub open spec fn absolute_spec(self, auto: bool, temp: int) -> WhiteBal {
        WhiteBal {
            auto: ctrl_set(self.auto, if auto { 1 } else { 0 }),
            temp: ctrl_set(self.temp, temp),
        }
    }

    pub(crate) fn absolute(&mut self, auto: bool, temp: i64, w: &mut Vec<CtrlWrite>)
        requires
            old(self).wf(),
        ensures
            *final(self) == old(self).absolute_spec(auto, temp as int),
            final(self).wf(),
            final(w)@ == old(w)@ + auto_writes(
                CamControl::WhiteBalanceTemperatureAuto,
                CamControl::WhiteBalanceTemperature,
                auto,
                final(self).auto,
                final(self).temp,
            ),
    {
        self.auto.set_wide(if auto { 1 } else { 0 });
        self.temp.set(temp);
        push_write(w, CamControl::WhiteBalanceTemperatureAuto, self.auto.value);
        if !auto {
            push_write(w, CamControl::WhiteBalanceTemperature, self.temp.value);
        }
    }
}

} // verus!
