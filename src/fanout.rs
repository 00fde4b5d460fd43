//! Streaming fan-out bookkeeping: the frame message sent to every client,
//! the clients with their slow-client latch, and when the capture worker
//! runs.
use vstd::prelude::*;

verus! {

/// Capacity of each client's queue of frames.
pub const CLIENT_QUEUE: usize = 800;

/// The `n` bytes of `v` in little-endian order.
pub open spec fn le_bytes(v: nat, n: nat) -> Seq<u8>
    decreases n,
{
    if n == 0 {
        Seq::empty()
    } else {
        seq![(v % 256) as u8] + le_bytes(v / 256, (n - 1) as nat)
    }
}

/// A frame message: `JPEG`, the timestamp, the payload size, the image
/// header, then the payload.
pub open spec fn frame_spec(timestamp: u64, jpeg: Seq<u8>, image_header: Seq<u8>) -> Seq<u8> {
    seq![0x4Au8, 0x50, 0x45, 0x47] + le_bytes(timestamp as nat, 8) + le_bytes(jpeg.len(), 4)
        + image_header + jpeg
}

fn push_le(out: &mut Vec<u8>, v: u64, n: usize)
    requires
        n <= 8,
    ensures
        final(out)@ == old(out)@ + le_bytes(v as nat, n as nat),
{
    let mut k: usize = 0;
    let mut rest: u64 = v;
    while k < n
        invariant
            k <= n,
            old(out)@ + le_bytes(v as nat, n as nat) == out@ + le_bytes(rest as nat, (n - k) as nat),
        decreases n - k,
    {
        let ghost before = out@;
        let b: u8 = (rest % 256) as u8;
        let ghost tail = le_bytes((rest / 256) as nat, (n - k - 1) as nat);
        assert(le_bytes(rest as nat, (n - k) as nat) == seq![b] + tail);
        out.push(b);
        rest = rest / 256;
        k = k + 1;
        assert(before + (seq![b] + tail) =~= out@ + tail);
    }
    assert(out@ + le_bytes(rest as nat, 0) =~= out@);
}

/// The message that carries one repaired frame to the clients. The image
/// header holds the colour matrix and ranges.
pub fn frame_message(timestamp: u64, jpeg: &[u8], image_header: &[u8]) -> (r: Vec<u8>)
    requires
        jpeg@.len() <= i32::MAX,
    ensures
        r@ == frame_spec(timestamp, jpeg@, image_header@),
{
    let mut r: Vec<u8> = Vec::new();
    r.push(0x4A);
    r.push(0x50);
    r.push(0x45);
    r.push(0x47);
    assert(r@ =~= seq![0x4Au8, 0x50, 0x45, 0x47]);
    push_le(&mut r, timestamp, 8);
    push_le(&mut r, jpeg.len() as u64, 4);
    append_slice(&mut r, image_header);
    append_slice(&mut r, jpeg);
    r
}

fn append_slice(out: &mut Vec<u8>, src: &[u8])
    ensures
        final(out)@ == old(out)@ + src@,
{
    let mut i: usize = 0;
    while i < src.len()
        invariant
            i <= src@.len(),
            out@ == old(out)@ + src@.take(i as int),
        decreases src@.len() - i,
    {
        out.push(src[i]);
        i = i + 1;
        assert(out@ =~= old(out)@ + src@.take(i as int));
    }
    assert(src@.take(src@.len() as int) =~= src@);
}

/// One streaming client: its id and whether a frame found its queue full.
#[derive(Debug, Clone, Copy, PartialEq, Eq, Structural)]
pub struct ClientState {
    pub id: u64,
    pub buffer_full: bool,
}

/// Ids are unique.
pub open spec fn unique_ids(cs: Seq<ClientState>) -> bool {
    forall|i: int, j: int| 0 <= i < j < cs.len() ==> cs[i].id != cs[j].id
}

/// What the capture worker should do after a change in the number of
/// clients.
#[derive(Debug, Clone, Copy, PartialEq, Eq, Structural)]
pub enum CaptureAction {
    Start,
    Stop,
    Nothing,
}

/// The clients of one camera's stream and whether its capture runs.
pub struct TeleportCam {
    ncam: u8,
    clients: Vec<ClientState>,
    capturing: bool,
}

impl TeleportCam {
    pub closed spec fn clients_view(&self) -> Seq<ClientState> {
        self.clients@
    }

    pub closed spec fn capturing_view(&self) -> bool {
        self.capturing
    }

    pub closed spec fn cam_id(&self) -> u8 {
        self.ncam
    }

    /// The camera whose stream this is.
    pub fn ncam(&self) -> (r: u8)
        ensures
            r == self.cam_id(),
    {
        self.ncam
    }

    pub open spec fn wf(&self) -> bool {
        unique_ids(self.clients_view())
    }

    pub fn new(ncam: u8) -> (r: TeleportCam)
        ensures
            r.wf(),
            r.cam_id() == ncam,
            r.clients_view() == Seq::<ClientState>::empty(),
            !r.capturing_view(),
    {
        TeleportCam { ncam, clients: Vec::new(), capturing: false }
    }

    /// The capture worker's next move for `n` clients: it starts with the
    /// first client and stops with the last.
    pub open spec fn capture_spec(capturing: bool, n: nat) -> (bool, CaptureAction) {
        if n > 0 && !capturing {
            (true, CaptureAction::Start)
        } else if n == 0 && capturing {
            (false, CaptureAction::Stop)
        } else {
            (capturing, CaptureAction::Nothing)
        }
    }

    /// Records the number of clients and tells the capture worker what to do.
    pub fn update_num_clients(&mut self) -> (r: CaptureAction)
        ensures
            final(self).clients_view() == old(self).clients_view(),
            final(self).cam_id() == old(self).cam_id(),
            (final(self).capturing_view(), r) == TeleportCam::capture_spec(
                old(self).capturing_view(),
                old(self).clients_view().len(),
            ),
    {
        let n = self.clients.len();
        if n > 0 && !self.capturing {
            self.capturing = true;
            CaptureAction::Start
        } else if n == 0 && self.capturing {
            self.capturing = false;
            CaptureAction::Stop
        } else {
            CaptureAction::Nothing
        }
    }

    fn find(&self, id: u64) -> (r: Option<usize>)
        ensures
            match r {
                Some(i) => i < self.clients_view().len() && self.clients_view()[i as int].id == id,
                None => forall|k: int|
                    0 <= k < self.clients_view().len() ==> #[trigger] self.clients_view()[k].id
                        != id,
            },
    {
        let mut i: usize = 0;
        while i < self.clients.len()
            invariant
                i <= self.clients@.len(),
                forall|k: int| 0 <= k < i ==> #[trigger] self.clients@[k].id != id,
            decreases self.clients@.len() - i,
        {
            if self.clients[i].id == id {
                return Some(i);
            }
            i = i + 1;
        }
        None
    }

    /// Adds a client with an empty queue; a known id is left as it is.
    /// Returns the number of clients.
    pub fn sender_add(&mut self, id: u64) -> (r: usize)
        requires
            old(self).wf(),
        ensures
            final(self).wf(),
            final(self).cam_id() == old(self).cam_id(),
            final(self).capturing_view() == old(self).capturing_view(),
            (exists|k: int|
                0 <= k < old(self).clients_view().len() && #[trigger] old(
                    self,
                ).clients_view()[k].id == id) ==> final(self).clients_view() == old(
                self,
            ).clients_view(),
            (forall|k: int|
                0 <= k < old(self).clients_view().len() ==> #[trigger] old(
                    self,
                ).clients_view()[k].id != id) ==> final(self).clients_view() == old(
                self,
            ).clients_view().push(ClientState { id, buffer_full: false }),
            r == final(self).clients_view().len(),
    {
        match self.find(id) {
            Some(_) => {},
            None => {
                self.clients.push(ClientState { id, buffer_full: false });
            },
        }
        self.clients.len()
    }

    /// Removes a client. Returns the number of clients.
    pub fn remove_client(&mut self, id: u64) -> (r: usize)
        requires
            old(self).wf(),
        ensures
            final(self).wf(),
            final(self).cam_id() == old(self).cam_id(),
            final(self).capturing_view() == old(self).capturing_view(),
            (forall|k: int|
                0 <= k < old(self).clients_view().len() ==> #[trigger] old(
                    self,
                ).clients_view()[k].id != id) ==> final(self).clients_view() == old(
                self,
            ).clients_view(),
            forall|k: int|
                0 <= k < old(self).clients_view().len() && #[trigger] old(
                    self,
                ).clients_view()[k].id == id ==> final(self).clients_view() == old(
                    self,
                ).clients_view().remove(k),
            r == final(self).clients_view().len(),
    {
        let ghost before = self.clients@;
        match self.find(id) {
            Some(i) => {
                self.clients.remove(i);
                proof {
                    assert forall|k: int|
                        0 <= k < before.len() && #[trigger] before[k].id == id implies self.clients@
                        == before.remove(k) by {
                        assert(k == i as int);
                    }
                    assert forall|a: int, b: int|
                        0 <= a < b < self.clients@.len() implies self.clients@[a].id
                        != self.clients@[b].id by {
                        let oa = if a < i {
                            a
                        } else {
                            a + 1
                        };
                        let ob = if b < i {
                            b
                        } else {
                            b + 1
                        };
                        assert(self.clients@[a] == before[oa]);
                        assert(self.clients@[b] == before[ob]);
                    }
                }
            },
            None => {},
        }
        self.clients.len()
    }

    /// Notes that a frame found client `id`'s queue full.
    pub fn mark_full(&mut self, id: u64)
        requires
            old(self).wf(),
        ensures
            final(self).wf(),
            final(self).cam_id() == old(self).cam_id(),
            final(self).capturing_view() == old(self).capturing_view(),
            final(self).clients_view() == Seq::new(
                old(self).clients_view().len(),
                |k: int|
                    if old(self).clients_view()[k].id == id {
                        ClientState { id, buffer_full: true }
                    } else {
                        old(self).clients_view()[k]
                    },
            ),
    {
        let ghost before = self.clients@;
        match self.find(id) {
            Some(i) => {
                self.clients.set(i, ClientState { id, buffer_full: true });
                assert(self.clients@ =~= Seq::new(
                    before.len(),
                    |k: int|
                        if before[k].id == id {
                            ClientState { id, buffer_full: true }
                        } else {
                            before[k]
                        },
                ));
            },
            None => {
                assert(self.clients@ =~= Seq::new(
                    before.len(),
                    |k: int|
                        if before[k].id == id {
                            ClientState { id, buffer_full: true }
                        } else {
                            before[k]
                        },
                ));
            },
        }
    }

    /// The watchdog's verdict at a tick: the session of client `id` ends
    /// when a frame found its queue full since it joined.
    pub fn watchdog(&self, id: u64) -> (r: bool)
        requires
            self.wf(),
        ensures
            r == exists|k: int|
                0 <= k < self.clients_view().len() && #[trigger] self.clients_view()[k].id == id
                    && self.clients_view()[k].buffer_full,
    {
        match self.find(id) {
            Some(i) => {
                let full = self.clients[i].buffer_full;
                proof {
                    if !full {
                        assert forall|k: int|
                            0 <= k < self.clients_view().len() && #[trigger] self.clients_view()[k].id
                                == id implies !self.clients_view()[k].buffer_full by {
                            if k != i {
                            }
                        }
                    }
                }
                full
            },
            None => false,
        }
    }

    /// The ids of the clients, in the order they joined.
    pub fn client_ids(&self) -> (r: Vec<u64>)
        ensures
            r@.len() == self.clients_view().len(),
            forall|k: int| 0 <= k < r@.len() ==> #[trigger] r@[k] == self.clients_view()[k].id,
    {
        let mut r: Vec<u64> = Vec::new();
        let mut i: usize = 0;
        while i < self.clients.len()
            invariant
                i <= self.clients@.len(),
                r@.len() == i,
                forall|k: int| 0 <= k < i ==> #[trigger] r@[k] == self.clients@[k].id,
            decreases self.clients@.len() - i,
        {
            r.push(self.clients[i].id);
            i = i + 1;
        }
        r
    }
}

} // verus!
