//! The camera actor's decisions: how each command changes one camera's
//! state, which writes it sends to the device, what it asks of the preset
//! store and what it answers to queries.
use vstd::prelude::*;
use crate::camera::{
    at_limit, auto_writes, ctrl_set, pan_tilt_writes, write_of, CamCtrl, CtrlWrite, Focus,
    PanTiltState, WhiteBal, Zoom,
};
use crate::control::CamControl;
use crate::error::UVIError;
use crate::nibbles::div_toward_zero;
use vstd::arithmetic::div_mod::{lemma_fundamental_div_mod, lemma_mod_bound};

verus! {

/// A pan and a tilt in arc-seconds (or arc-seconds per second).
#[derive(Debug, Clone, Copy, PartialEq, Eq, Structural)]
pub struct PanTilt {
    pub pan: i64,
    pub tilt: i64,
}

/// The fraction `num / den`, for `den > 0`.
#[derive(Debug, Clone, Copy, PartialEq, Eq, Structural)]
pub struct Ratio {
    pub num: i32,
    pub den: i32,
}

impl Ratio {
    pub open spec fn valid(self) -> bool {
        self.den > 0
    }

    /// A valid fraction in `[-1, 1]`.
    pub open spec fn unit(self) -> bool {
        self.den > 0 && -self.den <= self.num <= self.den
    }
}

/// A pose of the camera kept in a preset slot.
#[derive(Debug, Clone, Copy, PartialEq, Eq, Structural)]
pub struct Preset {
    pub pan: i64,
    pub tilt: i64,
    pub zoom: i64,
    pub focusauto: bool,
    pub focus: i64,
    pub whitebalauto: bool,
    pub temperature: i64,
}

/// The commands of the camera actor.
#[derive(Debug, Clone, Copy, PartialEq, Eq, Structural)]
pub enum CamCmd {
    SetPresetNcam(u8),
    ResetPreset(u8),
    RecordPreset(u8),
    RecoverPreset(u8),
    Home,
    MoveContinuous(PanTilt),
    MoveRelative(PanTilt),
    MoveAbsolute(PanTilt),
    /// A speed as a fraction of the range in `[-1, 1]`.
    ZoomContinuous(Ratio),
    /// A position as a fraction of the range.
    ZoomDirect(Ratio),
    AutoFocus(bool),
    AutoFocusToggle,
    /// A speed as a fraction of the range in `[-1, 1]`.
    FocusContinuous(Ratio),
    /// A position as a fraction of the range.
    FocusDirect(Ratio),
    FocusOnePushTrigger,
    WhiteBalanceTrigger,
    WhiteBalanceMode(u8),
    QueryPanTilt,
    QueryFocusMode,
    QueryWhiteBalanceMode,
}

impl CamCmd {
    pub open spec fn valid(self) -> bool {
        match self {
            CamCmd::ZoomContinuous(f) => f.unit(),
            CamCmd::FocusContinuous(f) => f.unit(),
            CamCmd::ZoomDirect(f) => f.valid(),
            CamCmd::FocusDirect(f) => f.valid(),
            _ => true,
        }
    }

    /// The command works on the preset store.
    pub open spec fn uses_store(self) -> bool {
        self is ResetPreset || self is RecordPreset || self is RecoverPreset
    }
}

/// What the actor asks of the preset store.
#[derive(Debug, Clone, Copy, PartialEq, Eq, Structural)]
pub enum StoreOp {
    /// Open the store for this camera.
    Bind(u8),
    /// Delete the slot `(camera, slot)`.
    Clear(u8, u8),
    /// Write a preset into `(camera, slot)`.
    Record(u8, u8, Preset),
    /// Read `(camera, slot)` and hand the preset, if any, to `apply_preset`.
    Recover(u8, u8),
}

/// An answer to a query.
#[derive(Debug, Clone, Copy, PartialEq, Eq, Structural)]
pub enum Reply {
    PanTilt(PanTilt),
    /// `true` when focus is automatic.
    FocusMode(bool),
    /// `0` automatic, `1` indoor (below 4000 K), `2` outdoor.
    WhiteBalanceMode(u8),
}

/// The tick that a command asks to run at once, with fresh readings.
#[derive(Debug, Clone, Copy, PartialEq, Eq, Structural)]
pub enum Follow {
    Nothing,
    PanTiltTick,
    ZoomTick,
    FocusTick,
}

/// What handling one command produced.
pub struct Outcome {
    /// Writes to send to the device, in order.
    pub writes: Vec<CtrlWrite>,
    pub store: Option<StoreOp>,
    pub reply: Option<Reply>,
    pub follow: Follow,
}

/// The speed per tick for a fraction `f` of the range: a twentieth of
/// `range * f`, rounded down.
pub open spec fn continuous_speed(c: CamCtrl, f: Ratio) -> int {
    ((c.maximum - c.minimum) * f.num) / (f.den * 20)
}

/// The position at a fraction `f` of the range, rounded toward the minimum.
pub open spec fn direct_target(c: CamCtrl, f: Ratio) -> int {
    c.minimum + div_toward_zero((c.maximum - c.minimum) * f.num, f.den as int)
}

/// White balance of a preset mode: automatic, indoor or outdoor.
pub open spec fn wb_mode_setting(mode: u8) -> (bool, int) {
    if mode == 0 {
        (true, 6500)
    } else if mode == 1 {
        (false, 3200)
    } else {
        (false, 5800)
    }
}

/// The state of one camera as its actor sees it.
#[derive(Debug, Clone, Copy, PartialEq, Eq, Structural)]
pub struct AutoCamera {
    /// The camera id under which presets are stored, once bound.
    pub preset_cam: Option<u8>,
    pub pantilt: PanTiltState,
    pub zoom: Zoom,
    pub focus: Focus,
    pub whitebal: WhiteBal,
}

impl AutoCamera {
    /// Every control's commanded value lies in its range.
    pub open spec fn wf(self) -> bool {
        self.pantilt.wf() && self.zoom.wf() && self.focus.wf() && self.whitebal.wf()
    }

    pub open spec fn snapshot_spec(self) -> Preset {
        Preset {
            pan: self.pantilt.pan.value,
            tilt: self.pantilt.tilt.value,
            zoom: self.zoom.zoom.value,
            focusauto: self.focus.auto.value > 0,
            focus: self.focus.focus.value,
            whitebalauto: self.whitebal.auto.value > 0,
            temperature: self.whitebal.temp.value,
        }
    }

    pub open spec fn apply_preset_spec(self, p: Preset) -> AutoCamera {
        AutoCamera {
            pantilt: self.pantilt.absolute_spec(p.pan as int, p.tilt as int),
            zoom: self.zoom.absolute_spec(p.zoom as int),
            focus: self.focus.absolute_spec(p.focusauto, p.focus as int),
            whitebal: self.whitebal.absolute_spec(p.whitebalauto, p.temperature as int),
            ..self
        }
    }

    /// The writes that recovering `p` sends: pan, tilt, zoom, focus, white
    /// balance.
    pub open spec fn preset_writes(self, p: Preset) -> Seq<CtrlWrite> {
        let n = self.apply_preset_spec(p);
        pan_tilt_writes(n.pantilt) + seq![write_of(CamControl::ZoomAbsolute, n.zoom.zoom)]
            + auto_writes(
            CamControl::FocusAuto,
            CamControl::FocusAbsolute,
            p.focusauto,
            n.focus.auto,
            n.focus.focus,
        ) + auto_writes(
            CamControl::WhiteBalanceTemperatureAuto,
            CamControl::WhiteBalanceTemperature,
            p.whitebalauto,
            n.whitebal.auto,
            n.whitebal.temp,
        )
    }

    pub open spec fn home_spec(self) -> AutoCamera {
        AutoCamera {
            pantilt: self.pantilt.absolute_spec(0, 0),
            zoom: self.zoom.absolute_spec(self.zoom.zoom.minimum as int),
            focus: self.focus.absolute_spec(true, self.focus.focus.value as int),
            ..self
        }
    }

    /// The state after command `ev`, when it succeeds.
    pub open spec fn next_state(self, ev: CamCmd) -> AutoCamera {
        match ev {
            CamCmd::SetPresetNcam(n) => AutoCamera { preset_cam: Some(n), ..self },
            CamCmd::Home => self.home_spec(),
            CamCmd::MoveContinuous(pt) => AutoCamera {
                pantilt: PanTiltState { panspeed: pt.pan, tiltspeed: pt.tilt, ..self.pantilt },
                ..self
            },
            CamCmd::MoveRelative(pt) => AutoCamera {
                pantilt: self.pantilt.relative_spec(pt.pan as int, pt.tilt as int),
                ..self
            },
            CamCmd::MoveAbsolute(pt) => AutoCamera {
                pantilt: self.pantilt.absolute_spec(pt.pan as int, pt.tilt as int),
                ..self
            },
            CamCmd::ZoomContinuous(f) => AutoCamera {
                zoom: Zoom { zoomspeed: continuous_speed(self.zoom.zoom, f) as i64, ..self.zoom },
                ..self
            },
            CamCmd::ZoomDirect(f) => AutoCamera {
                zoom: self.zoom.absolute_spec(direct_target(self.zoom.zoom, f)),
                ..self
            },
            CamCmd::AutoFocus(b) => AutoCamera {
                focus: self.focus.absolute_spec(b, self.focus.focus.value as int),
                ..self
            },
            CamCmd::AutoFocusToggle => AutoCamera {
                focus: self.focus.absolute_spec(
                    self.focus.auto.value == 0,
                    self.focus.focus.value as int,
                ),
                ..self
            },
            CamCmd::FocusContinuous(f) => AutoCamera {
                focus: Focus {
                    focusspeed: continuous_speed(self.focus.focus, f) as i64,
                    ..self.focus.absolute_spec(false, self.focus.focus.value as int)
                },
                ..self
            },
            CamCmd::FocusDirect(f) => AutoCamera {
                focus: self.focus.absolute_spec(true, direct_target(self.focus.focus, f)),
                ..self
            },
            CamCmd::WhiteBalanceMode(m) => if m <= 2 {
                AutoCamera {
                    whitebal: self.whitebal.absolute_spec(
                        wb_mode_setting(m).0,
                        wb_mode_setting(m).1,
                    ),
                    ..self
                }
            } else {
                self
            },
            _ => self,
        }
    }

    /// The writes to the device that command `ev` sends, when it succeeds.
    pub open spec fn writes_for(self, ev: CamCmd) -> Seq<CtrlWrite> {
        let n = self.next_state(ev);
        match ev {
            CamCmd::Home => pan_tilt_writes(n.pantilt) + seq![
                write_of(CamControl::ZoomAbsolute, n.zoom.zoom),
                write_of(CamControl::FocusAuto, n.focus.auto),
            ],
            CamCmd::MoveRelative(_) => pan_tilt_writes(n.pantilt),
            CamCmd::MoveAbsolute(_) => pan_tilt_writes(n.pantilt),
            CamCmd::ZoomDirect(_) => seq![write_of(CamControl::ZoomAbsolute, n.zoom.zoom)],
            CamCmd::AutoFocus(b) => auto_writes(
                CamControl::FocusAuto,
                CamControl::FocusAbsolute,
                b,
                n.focus.auto,
                n.focus.focus,
            ),
            CamCmd::AutoFocusToggle => auto_writes(
                CamControl::FocusAuto,
                CamControl::FocusAbsolute,
                self.focus.auto.value == 0,
                n.focus.auto,
                n.focus.focus,
            ),
            CamCmd::FocusContinuous(_) => seq![
                write_of(CamControl::FocusAuto, n.focus.auto),
                write_of(CamControl::FocusAbsolute, n.focus.focus),
            ],
            CamCmd::FocusDirect(_) => seq![write_of(CamControl::FocusAuto, n.focus.auto)],
            CamCmd::WhiteBalanceMode(m) => if m <= 2 {
                auto_writes(
                    CamControl::WhiteBalanceTemperatureAuto,
                    CamControl::WhiteBalanceTemperature,
                    wb_mode_setting(m).0,
                    n.whitebal.auto,
                    n.whitebal.temp,
                )
            } else {
                Seq::empty()
            },
            _ => Seq::empty(),
        }
    }

    /// What command `ev` asks of the preset store, when it succeeds.
    pub open spec fn store_for(self, ev: CamCmd) -> Option<StoreOp> {
        let cam = self.preset_cam.unwrap();
        match ev {
            CamCmd::SetPresetNcam(n) => Some(StoreOp::Bind(n)),
            CamCmd::ResetPreset(slot) => Some(StoreOp::Clear(cam, slot)),
            CamCmd::RecordPreset(slot) => Some(StoreOp::Record(cam, slot, self.snapshot_spec())),
            CamCmd::RecoverPreset(slot) => Some(StoreOp::Recover(cam, slot)),
            _ => None,
        }
    }

    pub open spec fn wb_mode_spec(self) -> u8 {
        if self.whitebal.auto.value > 0 {
            0
        } else if self.whitebal.temp.value < 4000 {
            1
        } else {
            2
        }
    }

    /// The answer to command `ev`, if it is a query.
    pub open spec fn reply_for(self, ev: CamCmd) -> Option<Reply> {
        match ev {
            CamCmd::QueryPanTilt => Some(
                Reply::PanTilt(
                    PanTilt { pan: self.pantilt.pan.value, tilt: self.pantilt.tilt.value },
                ),
            ),
            CamCmd::QueryFocusMode => Some(Reply::FocusMode(self.focus.auto.value > 0)),
            CamCmd::QueryWhiteBalanceMode => Some(Reply::WhiteBalanceMode(self.wb_mode_spec())),
            _ => None,
        }
    }

    pub open spec fn follow_for(ev: CamCmd) -> Follow {
        match ev {
            CamCmd::MoveContinuous(_) => Follow::PanTiltTick,
            CamCmd::ZoomContinuous(_) => Follow::ZoomTick,
            CamCmd::FocusContinuous(_) => Follow::FocusTick,
            _ => Follow::Nothing,
        }
    }

    /// A camera whose controls start at the given values, motionless and
    /// not yet bound to the preset store.
    pub fn new(
        pan: CamCtrl,
        tilt: CamCtrl,
        zoom: CamCtrl,
        focus_auto: CamCtrl,
        focus: CamCtrl,
        wb_auto: CamCtrl,
        wb_temp: CamCtrl,
    ) -> (r: AutoCamera)
        requires
            pan.wf(),
            tilt.wf(),
            zoom.wf(),
            focus_auto.wf(),
            focus.wf(),
            wb_auto.wf(),
            wb_temp.wf(),
        ensures
            r.wf(),
            r.preset_cam is None,
            r.pantilt == (PanTiltState { pan, tilt, panspeed: 0, tiltspeed: 0 }),
            r.zoom == (Zoom { zoom, zoomspeed: 0 }),
            r.focus == (Focus { auto: focus_auto, focus, focusspeed: 0 }),
            r.whitebal == (WhiteBal { auto: wb_auto, temp: wb_temp }),
    {
        AutoCamera {
            preset_cam: None,
            pantilt: PanTiltState { pan, tilt, panspeed: 0, tiltspeed: 0 },
            zoom: Zoom { zoom, zoomspeed: 0 },
            focus: Focus { auto: focus_auto, focus, focusspeed: 0 },
            whitebal: WhiteBal { auto: wb_auto, temp: wb_temp },
        }
    }

    /// The current pose, as a preset records it.
    pub fn snapshot(&self) -> (r: Preset)
        ensures
            r == self.snapshot_spec(),
    {
        Preset {
            pan: self.pantilt.pan.value,
            tilt: self.pantilt.tilt.value,
            zoom: self.zoom.zoom.value,
            focusauto: self.focus.auto.value > 0,
            focus: self.focus.focus.value,
            whitebalauto: self.whitebal.auto.value > 0,
            temperature: self.whitebal.temp.value,
        }
    }

    /// Handles one command. Commands on presets fail with `CameraNotFound`
    /// until the camera is bound to the store, and then change nothing.
    pub fn run_ev(&mut self, ev: CamCmd) -> (r: Result<Outcome, UVIError>)
        requires
            old(self).wf(),
            ev.valid(),
        ensures
            final(self).wf(),
            r is Err <==> ev.uses_store() && old(self).preset_cam is None,
            r is Err ==> *final(self) == *old(self) && r matches Err(UVIError::CameraNotFound),
            r matches Ok(out) ==> {
                &&& *final(self) == old(self).next_state(ev)
                &&& out.writes@ == old(self).writes_for(ev)
                &&& out.store == old(self).store_for(ev)
                &&& out.reply == old(self).reply_for(ev)
                &&& out.follow == AutoCamera::follow_for(ev)
            },
    {
        let mut w: Vec<CtrlWrite> = Vec::new();
        let mut store: Option<StoreOp> = None;
        let mut reply: Option<Reply> = None;
        let mut follow = Follow::Nothing;
        match ev {
            CamCmd::SetPresetNcam(n) => {
                self.preset_cam = Some(n);
                store = Some(StoreOp::Bind(n));
            },
            CamCmd::ResetPreset(slot) => {
                match self.preset_cam {
                    Some(cam) => {
                        store = Some(StoreOp::Clear(cam, slot));
                    },
                    None => {
                        return Err(UVIError::CameraNotFound);
                    },
                }
            },
            CamCmd::RecordPreset(slot) => {
                match self.preset_cam {
                    Some(cam) => {
                        store = Some(StoreOp::Record(cam, slot, self.snapshot()));
                    },
                    None => {
                        return Err(UVIError::CameraNotFound);
                    },
                }
            },
            CamCmd::RecoverPreset(slot) => {
                match self.preset_cam {
                    Some(cam) => {
                        store = Some(StoreOp::Recover(cam, slot));
                    },
                    None => {
                        return Err(UVIError::CameraNotFound);
                    },
                }
            },
            CamCmd::Home => {
                self.pantilt.absolute_move(0, 0, &mut w);
                let zmin = self.zoom.zoom.minimum;
                self.zoom.absolute(zmin as i128, &mut w);
                let f = self.focus.focus.value;
                self.focus.absolute(true, f as i128, &mut w);
            },
            CamCmd::MoveContinuous(pt) => {
                self.pantilt.panspeed = pt.pan;
                self.pantilt.tiltspeed = pt.tilt;
                follow = Follow::PanTiltTick;
            },
            CamCmd::MoveRelative(pt) => {
                self.pantilt.relative_move(pt.pan, pt.tilt, &mut w);
            },
            CamCmd::MoveAbsolute(pt) => {
                self.pantilt.absolute_move(pt.pan, pt.tilt, &mut w);
            },
            CamCmd::ZoomContinuous(f) => {
                self.zoom.zoomspeed = continuous_speed_of(&self.zoom.zoom, f);
                follow = Follow::ZoomTick;
            },
            CamCmd::ZoomDirect(f) => {
                let target = direct_target_of(&self.zoom.zoom, f);
                self.zoom.absolute(target, &mut w);
            },
            CamCmd::AutoFocus(active) => {
                let v = self.focus.focus.value;
                self.focus.absolute(active, v as i128, &mut w);
            },
            CamCmd::AutoFocusToggle => {
                let active = self.focus.auto.value == 0;
                let v = self.focus.focus.value;
                self.focus.absolute(active, v as i128, &mut w);
            },
            CamCmd::FocusContinuous(f) => {
                let v = self.focus.focus.value;
                self.focus.absolute(false, v as i128, &mut w);
                self.focus.focusspeed = continuous_speed_of(&self.focus.focus, f);
                follow = Follow::FocusTick;
            },
            CamCmd::FocusDirect(f) => {
                let target = direct_target_of(&self.focus.focus, f);
                self.focus.absolute(true, target, &mut w);
            },
            CamCmd::FocusOnePushTrigger => {},
            CamCmd::WhiteBalanceTrigger => {},
            CamCmd::WhiteBalanceMode(m) => {
                if m == 0 {
                    self.whitebal.absolute(true, 6500, &mut w);
                } else if m == 1 {
                    self.whitebal.absolute(false, 3200, &mut w);
                } else if m == 2 {
                    self.whitebal.absolute(false, 5800, &mut w);
                }
            },
            CamCmd::QueryPanTilt => {
                reply = Some(
                    Reply::PanTilt(
                        PanTilt { pan: self.pantilt.pan.value, tilt: self.pantilt.tilt.value },
                    ),
                );
            },
            CamCmd::QueryFocusMode => {
                reply = Some(Reply::FocusMode(self.focus.auto.value > 0));
            },
            CamCmd::QueryWhiteBalanceMode => {
                let mode: u8 = if self.whitebal.auto.value > 0 {
                    0
                } else if self.whitebal.temp.value < 4000 {
                    1
                } else {
                    2
                };
                reply = Some(Reply::WhiteBalanceMode(mode));
            },
        }
        proof {
            if !(ev is Home || ev is MoveRelative || ev is MoveAbsolute || ev is ZoomDirect
                || ev is AutoFocus || ev is AutoFocusToggle || ev is FocusContinuous
                || ev is FocusDirect || ev is WhiteBalanceMode) {
                assert(w@ =~= Seq::<CtrlWrite>::empty());
            }
            if ev is WhiteBalanceMode {
                assert(w@ =~= old(self).writes_for(ev));
            }
        }
        Ok(Outcome { writes: w, store, reply, follow })
    }

    /// Applies a preset read back from the store: absolute pan and tilt,
    /// zoom, focus with its auto flag, and white balance.
    pub fn apply_preset(&mut self, p: &Preset) -> (r: Vec<CtrlWrite>)
        requires
            old(self).wf(),
        ensures
            final(self).wf(),
            *final(self) == old(self).apply_preset_spec(*p),
            r@ == old(self).preset_writes(*p),
    {
        let mut w: Vec<CtrlWrite> = Vec::new();
        self.pantilt.absolute_move(p.pan, p.tilt, &mut w);
        self.zoom.absolute(p.zoom as i128, &mut w);
        self.focus.absolute(p.focusauto, p.focus as i128, &mut w);
        self.whitebal.absolute(p.whitebalauto, p.temperature, &mut w);
        proof {
            let n = old(self).apply_preset_spec(*p);
            assert(w@ =~= old(self).preset_writes(*p));
        }
        w
    }

    /// Continuous pan or tilt is under way, so a tick needs the physical
    /// pan and tilt.
    pub fn pan_tilt_moving(&self) -> (r: bool)
        ensures
            r == self.pantilt.moving(),
    {
        self.pantilt.panspeed / 20 != 0 || self.pantilt.tiltspeed / 20 != 0
    }

    /// Continuous zoom is under way, so a tick needs the physical zoom.
    pub fn zoom_moving(&self) -> (r: bool)
        ensures
            r == (self.zoom.zoomspeed != 0),
    {
        self.zoom.zoomspeed != 0
    }

    /// Continuous focus is under way, so a tick needs the physical focus.
    pub fn focus_moving(&self) -> (r: bool)
        ensures
            r == (self.focus.focusspeed != 0),
    {
        self.focus.focusspeed != 0
    }

    /// The pan and tilt part of the 50 ms tick, given the physical readings.
    pub fn pan_tilt_tick(&mut self, phys_pan: i64, phys_tilt: i64) -> (r: Vec<CtrlWrite>)
        requires
            old(self).wf(),
        ensures
            final(self).wf(),
            *final(self) == (AutoCamera {
                pantilt: old(self).pantilt.tick_spec(phys_pan as int, phys_tilt as int),
                ..*old(self)
            }),
            r@ == if old(self).pantilt.moving() {
                pan_tilt_writes(final(self).pantilt)
            } else {
                Seq::empty()
            },
    {
        let mut w: Vec<CtrlWrite> = Vec::new();
        self.pantilt.periodic_move(phys_pan, phys_tilt, &mut w);
        assert(w@ =~= if old(self).pantilt.moving() {
            pan_tilt_writes(self.pantilt)
        } else {
            Seq::empty()
        });
        w
    }

    /// The zoom part of the 50 ms tick, given the physical zoom.
    pub fn zoom_tick(&mut self, phys: i64) -> (r: Vec<CtrlWrite>)
        requires
            old(self).wf(),
        ensures
            final(self).wf(),
            *final(self) == (AutoCamera { zoom: old(self).zoom.tick_spec(phys as int), ..*old(self) }),
            r@ == if crate::camera::axis_tick_writes(
                old(self).zoom.zoom,
                old(self).zoom.zoomspeed as int,
                phys as int,
            ) {
                seq![write_of(CamControl::ZoomAbsolute, final(self).zoom.zoom)]
            } else {
                Seq::empty()
            },
    {
        let mut w: Vec<CtrlWrite> = Vec::new();
        self.zoom.periodic_move(phys, &mut w);
        proof {
            if crate::camera::axis_tick_writes(
                old(self).zoom.zoom,
                old(self).zoom.zoomspeed as int,
                phys as int,
            ) {
                assert(w@ =~= seq![write_of(CamControl::ZoomAbsolute, self.zoom.zoom)]);
            } else {
                assert(w@ =~= Seq::<CtrlWrite>::empty());
            }
        }
        w
    }

    /// The focus part of the 50 ms tick, given the physical focus.
    pub fn focus_tick(&mut self, phys: i64) -> (r: Vec<CtrlWrite>)
        requires
            old(self).wf(),
        ensures
            final(self).wf(),
            *final(self) == (AutoCamera { focus: old(self).focus.tick_spec(phys as int), ..*old(self) }),
            r@ == if crate::camera::axis_tick_writes(
                old(self).focus.focus,
                old(self).focus.focusspeed as int,
                phys as int,
            ) {
                seq![write_of(CamControl::FocusAbsolute, final(self).focus.focus)]
            } else {
                Seq::empty()
            },
    {
        let mut w: Vec<CtrlWrite> = Vec::new();
        self.focus.periodic_move(phys, &mut w);
        proof {
            if crate::camera::axis_tick_writes(
                old(self).focus.focus,
                old(self).focus.focusspeed as int,
                phys as int,
            ) {
                assert(w@ =~= seq![write_of(CamControl::FocusAbsolute, self.focus.focus)]);
            } else {
                assert(w@ =~= Seq::<CtrlWrite>::empty());
            }
        }
        w
    }
}

/// Absolute and direct commands stop the continuous motion of every axis
/// that they set: pan and tilt, zoom, focus; recovering a preset stops all
/// four.
pub proof fn lemma_absolute_zeroes_speed(s: AutoCamera, ev: CamCmd, p: Preset)
    ensures
        (ev is MoveAbsolute || ev is Home) ==> s.next_state(ev).pantilt.panspeed == 0
            && s.next_state(ev).pantilt.tiltspeed == 0,
        (ev is ZoomDirect || ev is Home) ==> s.next_state(ev).zoom.zoomspeed == 0,
        (ev is FocusDirect || ev is AutoFocus || ev is AutoFocusToggle || ev is Home)
            ==> s.next_state(ev).focus.focusspeed == 0,
        s.apply_preset_spec(p).pantilt.panspeed == 0,
        s.apply_preset_spec(p).pantilt.tiltspeed == 0,
        s.apply_preset_spec(p).zoom.zoomspeed == 0,
        s.apply_preset_spec(p).focus.focusspeed == 0,
{
}

/// A relative move, by command or by a tick of continuous motion, that
/// leaves an axis on a limit of its range stops that axis.
pub proof fn lemma_limit_braking(s: AutoCamera, ev: CamCmd, phys_pan: int, phys_tilt: int, phys: int)
    ensures
        ev is MoveRelative && at_limit(s.next_state(ev).pantilt.pan) ==> s.next_state(
            ev,
        ).pantilt.panspeed == 0,
        ev is MoveRelative && at_limit(s.next_state(ev).pantilt.tilt) ==> s.next_state(
            ev,
        ).pantilt.tiltspeed == 0,
        s.pantilt.moving() && at_limit(s.pantilt.tick_spec(phys_pan, phys_tilt).pan)
            ==> s.pantilt.tick_spec(phys_pan, phys_tilt).panspeed == 0,
        s.pantilt.moving() && at_limit(s.pantilt.tick_spec(phys_pan, phys_tilt).tilt)
            ==> s.pantilt.tick_spec(phys_pan, phys_tilt).tiltspeed == 0,
        crate::camera::axis_tick_writes(s.zoom.zoom, s.zoom.zoomspeed as int, phys) && at_limit(
            s.zoom.tick_spec(phys).zoom,
        ) ==> s.zoom.tick_spec(phys).zoomspeed == 0,
        crate::camera::axis_tick_writes(s.focus.focus, s.focus.focusspeed as int, phys)
            && at_limit(s.focus.tick_spec(phys).focus) ==> s.focus.tick_spec(phys).focusspeed == 0,
{
}

/// Every command and every tick keeps each control's commanded value
/// within its range.
pub proof fn lemma_clamp(s: AutoCamera, ev: CamCmd, p: Preset, phys_pan: int, phys_tilt: int, phys: int)
    requires
        s.wf(),
        ev.valid(),
    ensures
        s.next_state(ev).wf(),
        s.apply_preset_spec(p).wf(),
        (AutoCamera { pantilt: s.pantilt.tick_spec(phys_pan, phys_tilt), ..s }).wf(),
        (AutoCamera { zoom: s.zoom.tick_spec(phys), ..s }).wf(),
        (AutoCamera { focus: s.focus.tick_spec(phys), ..s }).wf(),
{
    assert forall|c: CamCtrl, v: int| c.wf() implies #[trigger] ctrl_set(c, v).wf() by {}
}

/// The speed per tick for fraction `f` of the range of `c`.
fn continuous_speed_of(c: &CamCtrl, f: Ratio) -> (r: i64)
    requires
        c.wf(),
        f.unit(),
    ensures
        r as int == continuous_speed(*c, f),
{
    let range: i128 = c.maximum as i128 - c.minimum as i128;
    assert(-0x8000_0000 * range <= range * f.num <= 0x8000_0000 * range) by (nonlinear_arith)
        requires
            range >= 0,
            -0x8000_0000 <= f.num <= 0x7fff_ffff,
    ;
    let num: i128 = range * f.num as i128;
    let den: i128 = f.den as i128 * 20;
    let q: i128 = match num.checked_div_euclid(den) {
        Some(q) => q,
        None => 0,
    };
    proof {
        let fden = f.den as int;
        assert(-(range * fden) <= num <= range * fden) by (nonlinear_arith)
            requires
                num == range * f.num,
                range >= 0,
                -fden <= f.num <= fden,
        ;
        lemma_fundamental_div_mod(num as int, den as int);
        lemma_mod_bound(num as int, den as int);
        assert(-range - 20 < 20 * (num / den) <= range) by (nonlinear_arith)
            requires
                -(range * fden) <= num <= range * fden,
                num == den * (num / den) + num % den,
                0 <= num % den < den,
                den == fden * 20,
                fden > 0,
                range >= 0,
        ;
    }
    q as i64
}

/// The position at fraction `f` of the range of `c`.
fn direct_target_of(c: &CamCtrl, f: Ratio) -> (r: i128)
    requires
        c.wf(),
        f.valid(),
    ensures
        r as int == direct_target(*c, f),
{
    let range: i128 = c.maximum as i128 - c.minimum as i128;
    assert(-0x8000_0000 * range <= range * f.num <= 0x8000_0000 * range) by (nonlinear_arith)
        requires
            range >= 0,
            -0x8000_0000 <= f.num <= 0x7fff_ffff,
    ;
    let num: i128 = range * f.num as i128;
    let den: i128 = f.den as i128;
    let q: i128 = if num >= 0 {
        num / den
    } else {
        -((-num) / den)
    };
    c.minimum as i128 + q
}

} // verus!
