//! A simulated camera with the PTZ controls of a typical webcam, for
//! running the gateway without hardware.
use vstd::prelude::*;
use crate::control::{CamControl, ControlType, Description};
use crate::error::UVIError;
use vstd::string::StringExecFns;

verus! {

/// The position of a control in the simulated device's tables.
pub open spec fn ctrl_index_spec(c: CamControl) -> int {
    match c {
        CamControl::PanAbsolute => 0,
        CamControl::TiltAbsolute => 1,
        CamControl::ZoomAbsolute => 2,
        CamControl::FocusAbsolute => 3,
        CamControl::FocusAuto => 4,
        CamControl::WhiteBalanceTemperature => 5,
        CamControl::WhiteBalanceTemperatureAuto => 6,
    }
}

fn ctrl_index(c: CamControl) -> (r: usize)
    ensures
        r == ctrl_index_spec(c),
        r < 7,
{
    match c {
        CamControl::PanAbsolute => 0,
        CamControl::TiltAbsolute => 1,
        CamControl::ZoomAbsolute => 2,
        CamControl::FocusAbsolute => 3,
        CamControl::FocusAuto => 4,
        CamControl::WhiteBalanceTemperature => 5,
        CamControl::WhiteBalanceTemperatureAuto => 6,
    }
}

pub open spec fn descr(typ: ControlType, minimum: i64, maximum: i64, default: i64) -> Description {
    Description { typ, minimum, maximum, step: 1, default }
}

/// The descriptors of the simulated controls, in table order.
pub open spec fn mock_descriptions() -> Seq<Description> {
    seq![
        descr(ControlType::Integer, -612000i64, 612000, 0),
        descr(ControlType::Integer, -108000i64, 108000, 0),
        descr(ControlType::Integer, 0, 5680, 0),
        descr(ControlType::Integer, 0, 2900, 0),
        descr(ControlType::Boolean, 0, 1, 1),
        descr(ControlType::Integer, 2500, 8000, 0),
        descr(ControlType::Boolean, 0, 1, 1),
    ]
}

/// The state of the simulated device: the control descriptors and the last
/// value written to each control.
pub struct CamInterno {
    ctrls: Vec<Description>,
    memory: Vec<i64>,
    changed: bool,
}

impl CamInterno {
    pub closed spec fn descriptions(&self) -> Seq<Description> {
        self.ctrls@
    }

    /// The value each control reads back.
    pub closed spec fn values(&self) -> Seq<i64> {
        self.memory@
    }

    /// A value was written since the last call of `take_changed`.
    pub closed spec fn changed_view(&self) -> bool {
        self.changed
    }

    pub open spec fn wf(&self) -> bool {
        self.descriptions() == mock_descriptions() && self.values().len() == 7
    }

    /// The descriptor of a control.
    pub fn get_ctrl_descr(&self, camctrl: CamControl) -> (r: Result<Description, UVIError>)
        requires
            self.wf(),
        ensures
            r == Ok::<Description, UVIError>(mock_descriptions()[ctrl_index_spec(camctrl)]),
    {
        Ok(self.ctrls[ctrl_index(camctrl)])
    }

    /// Writes a control: an integer control keeps the low 32 bits, a
    /// boolean one keeps whether the value is non-zero.
    pub fn set_ctrl(&mut self, camctrl: CamControl, vl: i64) -> (r: Result<(), UVIError>)
        requires
            old(self).wf(),
        ensures
            final(self).wf(),
            r is Ok,
            final(self).changed_view(),
            final(self).values() == old(self).values().update(
                ctrl_index_spec(camctrl),
                if mock_descriptions()[ctrl_index_spec(camctrl)].typ == ControlType::Boolean {
                    if vl != 0 {
                        1
                    } else {
                        0
                    }
                } else {
                    (vl as i32) as i64
                },
            ),
    {
        let i = ctrl_index(camctrl);
        let stored: i64 = match self.ctrls[i].typ {
            ControlType::Integer => {
                #[verifier::truncate]
                let v = vl as i32;
                v as i64
            },
            ControlType::Boolean => if vl != 0 {
                1
            } else {
                0
            },
        };
        self.memory.set(i, stored);
        self.changed = true;
        Ok(())
    }

    /// Reads a control back: the last value written, zero before any.
    pub fn get_ctrl(&self, camctrl: CamControl) -> (r: Result<i64, UVIError>)
        requires
            self.wf(),
        ensures
            r == Ok::<i64, UVIError>(self.values()[ctrl_index_spec(camctrl)]),
    {
        Ok(self.memory[ctrl_index(camctrl)])
    }

    /// Whether a value was written since the last call, clearing the flag.
    pub fn take_changed(&mut self) -> (r: bool)
        ensures
            r == old(self).changed_view(),
            !final(self).changed_view(),
            final(self).descriptions() == old(self).descriptions(),
            final(self).values() == old(self).values(),
    {
        let r = self.changed;
        self.changed = false;
        r
    }
}

/// Opens simulated camera `ncam`: cameras 0 to 2 exist, with card name
/// `mock` and bus `#ncam`; every control reads zero.
pub fn mock_find_camera(ncam: u8) -> (r: Result<(CamInterno, String, String), UVIError>)
    ensures
        ncam > 2 ==> r == Err::<(CamInterno, String, String), UVIError>(UVIError::CameraNotFound),
        ncam <= 2 ==> (r matches Ok((cam, card, bus)) && cam.wf() && !cam.changed_view()
            && cam.values() == Seq::new(7, |i: int| 0i64) && card@ == "mock"@ && bus@ == seq![
            '#',
            ((48 + ncam) as char),
        ]),
{
    if ncam > 2 {
        return Err(UVIError::CameraNotFound);
    }
    let ctrls: Vec<Description> = vec![
        Description { typ: ControlType::Integer, minimum: -612000, maximum: 612000, step: 1, default: 0 },
        Description { typ: ControlType::Integer, minimum: -108000, maximum: 108000, step: 1, default: 0 },
        Description { typ: ControlType::Integer, minimum: 0, maximum: 5680, step: 1, default: 0 },
        Description { typ: ControlType::Integer, minimum: 0, maximum: 2900, step: 1, default: 0 },
        Description { typ: ControlType::Boolean, minimum: 0, maximum: 1, step: 1, default: 1 },
        Description { typ: ControlType::Integer, minimum: 2500, maximum: 8000, step: 1, default: 0 },
        Description { typ: ControlType::Boolean, minimum: 0, maximum: 1, step: 1, default: 1 },
    ];
    assert(ctrls@ =~= mock_descriptions());
    let memory: Vec<i64> = vec![0, 0, 0, 0, 0, 0, 0];
    assert(memory@ =~= Seq::new(7, |i: int| 0i64));
    let card = String::from_str("mock");
    let bus = if ncam == 0 {
        String::from_str("#0")
    } else if ncam == 1 {
        String::from_str("#1")
    } else {
        String::from_str("#2")
    };
    proof {
        reveal_strlit("mock");
        reveal_strlit("#0");
        reveal_strlit("#1");
        reveal_strlit("#2");
        assert(bus@ =~= seq!['#', ((48 + ncam) as char)]);
    }
    Ok((CamInterno { ctrls, memory, changed: false }, card, bus))
}

} // verus!
