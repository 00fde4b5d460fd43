//! The supervisor's registry of active cameras: which device indices to
//! probe, how probe failures are taken, which VISCA port to try, and the
//! bookkeeping of connections and deaths.
use vstd::prelude::*;
use crate::error::UVIError;

verus! {

/// Device indices probed on each pass: `0..MAX_DEVICES`.
pub const MAX_DEVICES: u8 = 8;

/// The VISCA port of camera 0; camera `n` starts at `BASE_PORT + n`.
pub const BASE_PORT: u32 = 5678;

/// The last VISCA port tried.
pub const LAST_PORT: u32 = 5700;

/// Messages to the supervisor.
#[derive(Debug, Clone, Copy, PartialEq, Eq, Structural)]
pub enum CamsMsgs {
    NewViscaConnection(u8),
    LostViscaConnection(u8),
    /// The number of streaming clients of a camera.
    TeleportNumConnections(u8, u64),
    NCamDead(u8),
}

/// What a failure to open a camera means for the pass.
#[derive(Debug, Clone, Copy, PartialEq, Eq, Structural)]
pub enum ProbeFailure {
    /// Not a capture device, or not accessible: try the next index.
    Skip,
    /// The camera works but offers no PTZ controls: stream it without VISCA.
    PlainWebcam,
    /// Anything else ends the pass with the error.
    Abort,
}

/// One active camera.
pub struct CamAppState {
    pub ncam: u8,
    pub viscaport: Option<u32>,
    pub bus: String,
    /// Open VISCA connections.
    pub ncnx: i64,
    /// Streaming clients.
    pub nstream: u64,
}

/// The active cameras, at most one record per device index.
pub struct AllCams {
    cams: Vec<CamAppState>,
}

pub open spec fn ncams_of(cams: Seq<CamAppState>) -> Seq<u8> {
    Seq::new(cams.len(), |i: int| cams[i].ncam)
}

/// The device indices below `MAX_DEVICES` that `active` lacks, in order.
pub open spec fn to_try(active: Seq<u8>, upto: nat) -> Seq<u8>
    decreases upto,
{
    if upto == 0 {
        Seq::empty()
    } else {
        let n = (upto - 1) as u8;
        to_try(active, (upto - 1) as nat) + if active.contains(n) {
            Seq::empty()
        } else {
            seq![n]
        }
    }
}

/// How a failure to find the camera is taken.
pub open spec fn open_failure_spec(e: UVIError) -> ProbeFailure {
    if e == UVIError::IoError || e == UVIError::CameraNotFound {
        ProbeFailure::Skip
    } else {
        ProbeFailure::Abort
    }
}

/// How a failure to read the camera's controls is taken.
pub open spec fn controls_failure_spec(e: UVIError) -> ProbeFailure {
    if e == UVIError::IoError {
        ProbeFailure::Skip
    } else if e == UVIError::CamControlNotFound {
        ProbeFailure::PlainWebcam
    } else {
        ProbeFailure::Abort
    }
}

/// How a failure to find the camera is taken.
pub fn open_failure(e: UVIError) -> (r: ProbeFailure)
    ensures
        r == open_failure_spec(e),
{
    match e {
        UVIError::IoError => ProbeFailure::Skip,
        UVIError::CameraNotFound => ProbeFailure::Skip,
        _ => ProbeFailure::Abort,
    }
}

/// How a failure to read the camera's controls is taken.
pub fn controls_failure(e: UVIError) -> (r: ProbeFailure)
    ensures
        r == controls_failure_spec(e),
{
    match e {
        UVIError::IoError => ProbeFailure::Skip,
        UVIError::CamControlNotFound => ProbeFailure::PlainWebcam,
        _ => ProbeFailure::Abort,
    }
}

/// The first VISCA port tried for camera `ncam`.
pub fn first_port(ncam: u8) -> (r: u32)
    ensures
        r == BASE_PORT + ncam,
{
    BASE_PORT + ncam as u32
}

/// The port tried after `port` was in use, while one is left.
pub fn next_port(port: u32) -> (r: Option<u32>)
    ensures
        port < LAST_PORT ==> r == Some((port + 1) as u32),
        port >= LAST_PORT ==> r is None,
{
    if port < LAST_PORT {
        Some(port + 1)
    } else {
        None
    }
}

impl AllCams {
    pub closed spec fn view_cams(&self) -> Seq<CamAppState> {
        self.cams@
    }

    /// The device indices of the active cameras.
    pub open spec fn active(&self) -> Seq<u8> {
        ncams_of(self.view_cams())
    }

    pub open spec fn wf(&self) -> bool {
        self.active().no_duplicates()
    }

    pub fn new() -> (r: AllCams)
        ensures
            r.wf(),
            r.view_cams().len() == 0,
    {
        let r = AllCams { cams: Vec::new() };
        assert(r.active() =~= Seq::<u8>::empty());
        r
    }

    fn index_of(&self, ncam: u8) -> (r: Option<usize>)
        ensures
            match r {
                Some(i) => i < self.view_cams().len() && self.view_cams()[i as int].ncam == ncam,
                None => !self.active().contains(ncam),
            },
    {
        let mut i: usize = 0;
        while i < self.cams.len()
            invariant
                i <= self.cams@.len(),
                forall|k: int| 0 <= k < i ==> #[trigger] self.cams@[k].ncam != ncam,
            decreases self.cams@.len() - i,
        {
            if self.cams[i].ncam == ncam {
                return Some(i);
            }
            i = i + 1;
        }
        proof {
            if self.active().contains(ncam) {
                let k = choose|k: int| 0 <= k < self.active().len() && self.active()[k] == ncam;
                assert(self.cams@[k].ncam == ncam);
            }
        }
        None
    }

    /// Whether camera `ncam` is active.
    pub fn is_active(&self, ncam: u8) -> (r: bool)
        ensures
            r == self.active().contains(ncam),
    {
        match self.index_of(ncam) {
            Some(i) => {
                assert(self.active()[i as int] == ncam);
                true
            },
            None => false,
        }
    }

    /// The device indices to probe on this pass: those not active.
    pub fn cams_to_try(&self) -> (r: Vec<u8>)
        ensures
            r@ == to_try(self.active(), MAX_DEVICES as nat),
    {
        let mut r: Vec<u8> = Vec::new();
        let mut n: u8 = 0;
        while n < MAX_DEVICES
            invariant
                n <= MAX_DEVICES,
                r@ == to_try(self.active(), n as nat),
            decreases MAX_DEVICES - n,
        {
            if !self.is_active(n) {
                r.push(n);
                assert(r@ =~= to_try(self.active(), (n + 1) as nat));
            } else {
                assert(r@ =~= to_try(self.active(), (n + 1) as nat));
            }
            n = n + 1;
        }
        r
    }

    /// Records a camera that has been brought up, with its VISCA port if it
    /// has one; an index that is already active is left as it is.
    pub fn insert_cam(&mut self, ncam: u8, viscaport: Option<u32>, bus: String)
        requires
            old(self).wf(),
        ensures
            final(self).wf(),
            old(self).active().contains(ncam) ==> final(self).active() == old(self).active(),
            !old(self).active().contains(ncam) ==> final(self).active() == old(self).active().push(
                ncam,
            ) && final(self).view_cams().last().viscaport == viscaport
                && final(self).view_cams().last().bus@ == bus@
                && final(self).view_cams().last().ncnx == 0
                && final(self).view_cams().last().nstream == 0,
            forall|k: int|
                0 <= k < old(self).view_cams().len() ==> #[trigger] final(self).view_cams()[k] == old(
                    self,
                ).view_cams()[k],
    {
        if self.is_active(ncam) {
            return;
        }
        let ghost before = self.active();
        self.cams.push(CamAppState { ncam, viscaport, bus, ncnx: 0, nstream: 0 });
        assert(self.active() =~= before.push(ncam));
    }

    /// Handles one message: connections are counted, a dead camera's record
    /// and port are released. Messages about inactive cameras are ignored.
    pub fn handle_msg(&mut self, msg: CamsMsgs)
        requires
            old(self).wf(),
        ensures
            final(self).wf(),
            msg matches CamsMsgs::NCamDead(n) ==> !final(self).active().contains(n)
                && forall|m: u8| m != n ==> (final(self).active().contains(m) == old(
                    self,
                ).active().contains(m)),
            !(msg is NCamDead) ==> final(self).active() == old(self).active(),
            msg matches CamsMsgs::NCamDead(n) ==> (!old(self).active().contains(n)
                ==> final(self).view_cams() == old(self).view_cams()),
            msg matches CamsMsgs::NCamDead(n) ==> forall|i: int|
                0 <= i < old(self).view_cams().len() && #[trigger] old(self).view_cams()[i].ncam
                    == n ==> final(self).view_cams() == old(self).view_cams().remove(i),
            forall|k: int|
                #![trigger final(self).view_cams()[k]]
                0 <= k < old(self).view_cams().len() && !(msg is NCamDead) ==> {
                    let o = old(self).view_cams()[k];
                    let f = final(self).view_cams()[k];
                    &&& f.ncam == o.ncam
                    &&& f.bus@ == o.bus@
                    &&& f.viscaport == o.viscaport
                    &&& f.ncnx == match msg {
                        CamsMsgs::NewViscaConnection(n) => if n == o.ncam && o.ncnx < i64::MAX {
                            o.ncnx + 1
                        } else {
                            o.ncnx as int
                        },
                        CamsMsgs::LostViscaConnection(n) => if n == o.ncam && o.ncnx > i64::MIN {
                            o.ncnx - 1
                        } else {
                            o.ncnx as int
                        },
                        _ => o.ncnx as int,
                    }
                    &&& f.nstream == match msg {
                        CamsMsgs::TeleportNumConnections(n, c) => if n == o.ncam {
                            c
                        } else {
                            o.nstream
                        },
                        _ => o.nstream,
                    }
                },
    {
        let ghost before = self.cams@;
        match msg {
            CamsMsgs::NCamDead(n) => {
                match self.index_of(n) {
                    Some(i) => {
                        let ghost act = self.active();
                        proof {
                            AllCams::lemma_others_differ(before, i as int, n);
                            assert(act[i as int] == n);
                            assert(act.contains(n));
                        }
                        self.cams.remove(i);
                        proof {
                            assert(self.active() =~= act.remove(i as int));
                            assert forall|a: int, b: int|
                                0 <= a < b < self.active().len() implies self.active()[a]
                                != self.active()[b] by {
                                let oa = if a < i { a } else { a + 1 };
                                let ob = if b < i { b } else { b + 1 };
                                assert(self.active()[a] == act[oa]);
                                assert(self.active()[b] == act[ob]);
                            }
                            assert forall|m: u8| #![auto] m != n implies (self.active().contains(m)
                                == act.contains(m)) by {
                                if act.contains(m) {
                                    let k = choose|k: int| 0 <= k < act.len() && act[k] == m;
                                    assert(k != i);
                                    let j = if k < i { k } else { k - 1 };
                                    assert(self.active()[j] == m);
                                }
                                if self.active().contains(m) {
                                    let j = choose|j: int| 0 <= j < self.active().len() && self.active()[j] == m;
                                    let k = if j < i { j } else { j + 1 };
                                    assert(act[k] == m);
                                }
                            }
                            if self.active().contains(n) {
                                let j = choose|j: int| 0 <= j < self.active().len() && self.active()[j] == n;
                                let k = if j < i { j } else { j + 1 };
                                assert(act[k] == n);
                                assert(act[i as int] == n);
                            }
                        }
                    },
                    None => {
                        proof {
                            AllCams::lemma_absent(before, n);
                        }
                    },
                }
            },
            CamsMsgs::NewViscaConnection(n) => {
                if let Some(i) = self.index_of(n) {
                    let mut c = self.cams.remove(i);
                    if c.ncnx < i64::MAX {
                        c.ncnx = c.ncnx + 1;
                    }
                    self.cams.insert(i, c);
                    proof {
                        self.lemma_same_shape(before, i as int);
                        AllCams::lemma_others_differ(before, i as int, n);
                    }
                } else {
                    proof {
                        self.lemma_unchanged(before);
                        AllCams::lemma_absent(before, n);
                    }
                }
            },
            CamsMsgs::LostViscaConnection(n) => {
                if let Some(i) = self.index_of(n) {
                    let mut c = self.cams.remove(i);
                    if c.ncnx > i64::MIN {
                        c.ncnx = c.ncnx - 1;
                    }
                    self.cams.insert(i, c);
                    proof {
                        self.lemma_same_shape(before, i as int);
                        AllCams::lemma_others_differ(before, i as int, n);
                    }
                } else {
                    proof {
                        self.lemma_unchanged(before);
                        AllCams::lemma_absent(before, n);
                    }
                }
            },
            CamsMsgs::TeleportNumConnections(n, count) => {
                if let Some(i) = self.index_of(n) {
                    let mut c = self.cams.remove(i);
                    c.nstream = count;
                    self.cams.insert(i, c);
                    proof {
                        self.lemma_same_shape(before, i as int);
                        AllCams::lemma_others_differ(before, i as int, n);
                    }
                } else {
                    proof {
                        self.lemma_unchanged(before);
                        AllCams::lemma_absent(before, n);
                    }
                }
            },
        }
    }

    proof fn lemma_same_shape(&self, before: Seq<CamAppState>, i: int)
        requires
            0 <= i < before.len(),
            self.view_cams().len() == before.len(),
            self.view_cams()[i].ncam == before[i].ncam,
            forall|k: int| 0 <= k < before.len() && k != i ==> #[trigger] self.view_cams()[k] == before[k],
        ensures
            self.active() == ncams_of(before),
    {
        assert(self.active() =~= ncams_of(before));
    }

    /// With unique indices, only the record at `i` has index `n`.
    proof fn lemma_others_differ(before: Seq<CamAppState>, i: int, n: u8)
        requires
            ncams_of(before).no_duplicates(),
            0 <= i < before.len(),
            before[i].ncam == n,
        ensures
            forall|k: int| 0 <= k < before.len() && k != i ==> #[trigger] before[k].ncam != n,
    {
        assert forall|k: int| 0 <= k < before.len() && k != i implies #[trigger] before[k].ncam
            != n by {
            assert(ncams_of(before)[k] == before[k].ncam);
            assert(ncams_of(before)[i] == before[i].ncam);
        }
    }

    /// An index that is not active is on no record.
    proof fn lemma_absent(before: Seq<CamAppState>, n: u8)
        requires
            !ncams_of(before).contains(n),
        ensures
            forall|k: int| 0 <= k < before.len() ==> #[trigger] before[k].ncam != n,
    {
        assert forall|k: int| 0 <= k < before.len() implies #[trigger] before[k].ncam != n by {
            assert(ncams_of(before)[k] == before[k].ncam);
        }
    }

    proof fn lemma_unchanged(&self, before: Seq<CamAppState>)
        requires
            self.view_cams() == before,
        ensures
            self.active() == ncams_of(before),
    {
    }

    /// The active cameras, in the order they came up.
    pub fn entries(&self) -> (r: &Vec<CamAppState>)
        ensures
            r@ == self.view_cams(),
    {
        &self.cams
    }
}

} // verus!
