//! An in-memory telemetry store with the repository's semantics: device
//! lookup, an insert that skips existing keys, and a last-seen marker that
//! only moves forward.
use vstd::prelude::*;
use crate::device_id::DeviceId;
use crate::message::{ReadingModel, TelemetryMessage};
use crate::pipeline::{
    accepted_reading, flow_step, FlowAction, FlowEvent, FlowState, InsertOutcome, Outcome,
    StorageStep,
};

verus! {

/// Readings are the same logical record when device, timestamp and sequence agree.
pub open spec fn same_key(a: ReadingModel, b: ReadingModel) -> bool {
    a.device == b.device && a.timestamp == b.timestamp && a.sequence == b.sequence
}

pub open spec fn has_key(rows: Seq<ReadingModel>, m: ReadingModel) -> bool {
    exists|i: int| 0 <= i < rows.len() && same_key(#[trigger] rows[i], m)
}

pub open spec fn keys_unique(rows: Seq<ReadingModel>) -> bool {
    forall|i: int, j: int|
        0 <= i < rows.len() && 0 <= j < rows.len() && i != j ==> !same_key(#[trigger] rows[i], #[trigger] rows[j])
}

/// The rows after an insert that skips a reading whose key is present.
pub open spec fn insert_into(rows: Seq<ReadingModel>, m: ReadingModel) -> Seq<ReadingModel> {
    if has_key(rows, m) {
        rows
    } else {
        rows.push(m)
    }
}

/// A registered device and the timestamp of its latest reading, if any.
#[derive(Clone, Copy, Debug, PartialEq, Eq)]
pub struct DeviceRecord {
    pub id: DeviceId,
    pub last_seen: Option<i64>,
}

pub struct DeviceModel {
    pub id: Seq<u8>,
    pub last_seen: Option<i64>,
}

pub open spec fn device_model(d: DeviceRecord) -> DeviceModel {
    DeviceModel { id: d.id.bytes@, last_seen: d.last_seen }
}

pub open spec fn is_registered(devices: Seq<DeviceModel>, id: Seq<u8>) -> bool {
    exists|i: int| 0 <= i < devices.len() && (#[trigger] devices[i]).id == id
}

/// The marker after a reading at `ts`: it moves only forward.
pub open spec fn advanced(last_seen: Option<i64>, ts: i64) -> Option<i64> {
    match last_seen {
        Some(t) => if t < ts { Some(ts) } else { Some(t) },
        None => Some(ts),
    }
}

/// The devices after a reading of device `id` at `ts`.
pub open spec fn touched(devices: Seq<DeviceModel>, id: Seq<u8>, ts: i64) -> Seq<DeviceModel> {
    Seq::new(devices.len(), |k: int| touch_one(devices[k], id, ts))
}

pub open spec fn touch_one(d: DeviceModel, id: Seq<u8>, ts: i64) -> DeviceModel {
    if d.id == id {
        DeviceModel { id: d.id, last_seen: advanced(d.last_seen, ts) }
    } else {
        d
    }
}

pub struct StoreModel {
    pub rows: Seq<ReadingModel>,
    pub devices: Seq<DeviceModel>,
}

pub struct TelemetryStore {
    rows: Vec<TelemetryMessage>,
    devices: Vec<DeviceRecord>,
}

impl View for TelemetryStore {
    type V = StoreModel;

    closed spec fn view(&self) -> StoreModel {
        StoreModel {
            rows: self.rows@.map_values(|m: TelemetryMessage| m@),
            devices: self.devices@.map_values(|d: DeviceRecord| device_model(d)),
        }
    }
}

fn same_device(a: &DeviceId, b: &DeviceId) -> (r: bool)
    ensures
        r == (a.bytes@ == b.bytes@),
{
    let mut i: usize = 0;
    while i < 16
        invariant
            i <= 16,
            a.bytes@.len() == 16 && b.bytes@.len() == 16,
            forall|k: int| 0 <= k < i ==> a.bytes@[k] == b.bytes@[k],
        decreases 16 - i,
    {
        if a.bytes[i] != b.bytes[i] {
            return false;
        }
        i = i + 1;
    }
    proof {
        assert(a.bytes@ =~= b.bytes@);
    }
    true
}

impl TelemetryStore {
    pub open spec fn wf(&self) -> bool {
        keys_unique(self@.rows)
    }

    /// An empty store with no registered device.
    pub fn new() -> (r: TelemetryStore)
        ensures
            r.wf(),
            r@.rows.len() == 0,
            r@.devices.len() == 0,
    {
        TelemetryStore { rows: Vec::new(), devices: Vec::new() }
    }

    fn device_index(&self, id: &DeviceId) -> (r: Option<usize>)
        ensures
            match r {
                Some(i) => i < self@.devices.len() && self@.devices[i as int].id == id.bytes@,
                None => !is_registered(self@.devices, id.bytes@),
            },
    {
        let mut i: usize = 0;
        while i < self.devices.len()
            invariant
                i <= self.devices@.len(),
                forall|k: int| 0 <= k < i ==> self@.devices[k].id != id.bytes@,
            decreases self.devices@.len() - i,
        {
            if same_device(&self.devices[i].id, id) {
                return Some(i);
            }
            i = i + 1;
        }
        None
    }

    /// Adds a device to the registry, unless it is there already.
    pub fn register(&mut self, id: DeviceId)
        requires
            old(self).wf(),
        ensures
            final(self).wf(),
            final(self)@.rows == old(self)@.rows,
            is_registered(old(self)@.devices, id.bytes@) ==> final(self)@.devices == old(self)@.devices,
            !is_registered(old(self)@.devices, id.bytes@) ==> final(self)@.devices
                == old(self)@.devices.push(DeviceModel { id: id.bytes@, last_seen: None }),
    {
        if self.device_index(&id).is_none() {
            self.devices.push(DeviceRecord { id, last_seen: None });
            proof {
                assert(self@.devices =~= old(self)@.devices.push(DeviceModel { id: id.bytes@, last_seen: None }));
            }
        }
    }

    /// Whether the device is registered.
    pub fn greenhouse_exists(&self, id: &DeviceId) -> (r: bool)
        ensures
            r == is_registered(self@.devices, id.bytes@),
    {
        self.device_index(id).is_some()
    }

    /// The latest timestamp recorded for the device; `None` if it is not
    /// registered or has not been seen.
    pub fn last_seen(&self, id: &DeviceId) -> (r: Option<i64>)
        ensures
            match r {
                Some(t) => exists|i: int| 0 <= i < self@.devices.len()
                    && (#[trigger] self@.devices[i]).id == id.bytes@ && self@.devices[i].last_seen == Some(t),
                None => forall|i: int| 0 <= i < self@.devices.len() && (#[trigger] self@.devices[i]).id == id.bytes@
                    ==> self@.devices[i].last_seen is None,
            },
    {
        let mut i: usize = 0;
        while i < self.devices.len()
            invariant
                i <= self.devices@.len(),
                forall|k: int| 0 <= k < i && (#[trigger] self@.devices[k]).id == id.bytes@
                    ==> self@.devices[k].last_seen is None,
            decreases self.devices@.len() - i,
        {
            if same_device(&self.devices[i].id, id) {
                if let Some(t) = self.devices[i].last_seen {
                    proof {
                        assert(self@.devices[i as int].id == id.bytes@);
                    }
                    return Some(t);
                }
            }
            i = i + 1;
        }
        None
    }

    /// Number of stored readings.
    pub fn row_count(&self) -> (r: usize)
        ensures
            r == self@.rows.len(),
    {
        self.rows.len()
    }

    fn find_key(&self, m: &TelemetryMessage) -> (r: bool)
        ensures
            r == has_key(self@.rows, m@),
    {
        let mut i: usize = 0;
        while i < self.rows.len()
            invariant
                i <= self.rows@.len(),
                forall|k: int| 0 <= k < i ==> !same_key(#[trigger] self@.rows[k], m@),
            decreases self.rows@.len() - i,
        {
            let row = &self.rows[i];
            if row.timestamp == m.timestamp && row.sequence == m.sequence
                && same_device(&row.greenhouse_id, &m.greenhouse_id) {
                proof {
                    assert(same_key(self@.rows[i as int], m@));
                }
                return true;
            }
            i = i + 1;
        }
        false
    }

    /// Stores the reading unless one with the same key is stored already;
    /// a second arrival is no error.
    pub fn insert_if_absent(&mut self, m: TelemetryMessage) -> (r: InsertOutcome)
        requires
            old(self).wf(),
        ensures
            final(self).wf(),
            final(self)@.rows == insert_into(old(self)@.rows, m@),
            final(self)@.devices == old(self)@.devices,
            r == (if has_key(old(self)@.rows, m@) { InsertOutcome::AlreadyPresent } else { InsertOutcome::Inserted }),
    {
        if self.find_key(&m) {
            return InsertOutcome::AlreadyPresent;
        }
        self.rows.push(m);
        proof {
            assert(self@.rows =~= old(self)@.rows.push(m@));
            lemma_push_keeps_unique(old(self)@.rows, m@);
        }
        InsertOutcome::Inserted
    }

    /// Moves the device's last-seen marker to `ts` if that is later than the
    /// marker; an unknown device is left alone.
    pub fn touch_last_seen(&mut self, id: &DeviceId, ts: i64)
        requires
            old(self).wf(),
        ensures
            final(self).wf(),
            final(self)@.rows == old(self)@.rows,
            final(self)@.devices == touched(old(self)@.devices, id.bytes@, ts),
    {
        let ghost target = touched(old(self)@.devices, id.bytes@, ts);
        let mut i: usize = 0;
        while i < self.devices.len()
            invariant
                i <= self.devices@.len(),
                self@.rows == old(self)@.rows,
                self@.devices.len() == old(self)@.devices.len(),
                target == touched(old(self)@.devices, id.bytes@, ts),
                forall|k: int| 0 <= k < i ==> self@.devices[k] == target[k],
                forall|k: int| i <= k < self@.devices.len() ==> self@.devices[k] == old(self)@.devices[k],
            decreases self.devices@.len() - i,
        {
            let d = self.devices[i];
            if same_device(&d.id, id) {
                let next = match d.last_seen {
                    Some(t) => if t < ts { Some(ts) } else { Some(t) },
                    None => Some(ts),
                };
                self.devices.set(i, DeviceRecord { id: d.id, last_seen: next });
            }
            proof {
                assert(old(self)@.devices[i as int] == device_model(d));
                assert(self@.devices[i as int] == device_model(self.devices@[i as int]));
                let od = old(self)@.devices[i as int];
                assert(target[i as int] == touch_one(od, id.bytes@, ts));
                assert(self@.devices[i as int] == target[i as int]);
            }
            i = i + 1;
        }
        proof {
            assert(self@.devices =~= target);
        }
    }
}

impl TelemetryStore {
    /// Handles one delivered payload at time `now` against this store, as
    /// the message flow decides: parse, validate, look the device up, insert
    /// the reading unless its key is stored, then advance the device's
    /// last-seen marker.
    pub fn ingest(&mut self, payload: Vec<u8>, now: i64) -> (r: Outcome)
        requires
            old(self).wf(),
        ensures
            final(self).wf(),
            match accepted_reading(payload@, now) {
                Err(e) => r == Outcome::Rejected(e) && final(self)@ == old(self)@,
                Ok(m) => if !is_registered(old(self)@.devices, m.device) {
                    &&& r is UnknownDevice
                    &&& r->UnknownDevice_0.bytes@ == m.device
                    &&& final(self)@ == old(self)@
                } else {
                    &&& final(self)@.rows == insert_into(old(self)@.rows, m)
                    &&& final(self)@.devices == touched(old(self)@.devices, m.device, m.timestamp)
                    &&& r == (if has_key(old(self)@.rows, m) { Outcome::AlreadyStored } else { Outcome::Stored })
                },
            },
    {
        let (s1, a1) = flow_step(FlowState::Start, &FlowEvent::Delivered { payload, now });
        let id = match a1 {
            FlowAction::CheckDevice(id) => id,
            FlowAction::Finish(o) => return o,
            _ => return Outcome::StorageFailed(StorageStep::Lookup),
        };
        let found = self.greenhouse_exists(&id);
        let (s2, a2) = flow_step(s1, &FlowEvent::DeviceFound(found));
        let m = match a2 {
            FlowAction::Insert(m) => m,
            FlowAction::Finish(o) => return o,
            _ => return Outcome::StorageFailed(StorageStep::Lookup),
        };
        let inserted = self.insert_if_absent(m);
        let (s3, a3) = flow_step(s2, &FlowEvent::InsertDone(inserted));
        let (device, ts) = match a3 {
            FlowAction::TouchLastSeen(device, ts) => (device, ts),
            _ => return Outcome::StorageFailed(StorageStep::Insert),
        };
        self.touch_last_seen(&device, ts);
        let (_s4, a4) = flow_step(s3, &FlowEvent::TouchDone);
        match a4 {
            FlowAction::Finish(o) => o,
            _ => Outcome::StorageFailed(StorageStep::TouchLastSeen),
        }
    }
}

/// Inserting a reading and then one with the same key leaves exactly one
/// row with that key; the second insert changes nothing.
pub proof fn lemma_insert_idempotent(rows: Seq<ReadingModel>, m: ReadingModel, again: ReadingModel)
    requires
        keys_unique(rows),
        same_key(m, again),
    ensures
        insert_into(insert_into(rows, m), again) == insert_into(rows, m),
        keys_unique(insert_into(rows, m)),
        exists|i: int| 0 <= i < insert_into(rows, m).len() && same_key(#[trigger] insert_into(rows, m)[i], m),
        forall|i: int, j: int|
            0 <= i < insert_into(rows, m).len() && 0 <= j < insert_into(rows, m).len()
                && same_key(#[trigger] insert_into(rows, m)[i], m) && same_key(#[trigger] insert_into(rows, m)[j], m)
                ==> i == j,
{
    let r1 = insert_into(rows, m);
    if !has_key(rows, m) {
        lemma_push_keeps_unique(rows, m);
        assert(same_key(r1[rows.len() as int], m));
    }
    assert(has_key(r1, m));
    let i = choose|i: int| 0 <= i < r1.len() && same_key(#[trigger] r1[i], m);
    assert(same_key(r1[i], again));
    assert(has_key(r1, again));
}

/// The last-seen marker never moves backwards, and after a reading at `ts`
/// the device's marker is at least `ts`.
pub proof fn lemma_last_seen_monotonic(devices: Seq<DeviceModel>, id: Seq<u8>, ts: i64)
    ensures
        touched(devices, id, ts).len() == devices.len(),
        forall|i: int| 0 <= i < devices.len() && (#[trigger] devices[i]).last_seen is Some
            ==> touched(devices, id, ts)[i].last_seen is Some
                && devices[i].last_seen->0 <= touched(devices, id, ts)[i].last_seen->0,
        forall|i: int| 0 <= i < devices.len() && (#[trigger] devices[i]).id == id
            ==> touched(devices, id, ts)[i].last_seen is Some && ts <= touched(devices, id, ts)[i].last_seen->0,
{
}

proof fn lemma_push_keeps_unique(rows: Seq<ReadingModel>, m: ReadingModel)
    requires
        keys_unique(rows),
        !has_key(rows, m),
    ensures
        keys_unique(rows.push(m)),
{
    let r = rows.push(m);
    assert forall|i: int, j: int|
        0 <= i < r.len() && 0 <= j < r.len() && i != j implies !same_key(#[trigger] r[i], #[trigger] r[j]) by {
        if i == rows.len() {
            assert(r[j] == rows[j]);
        } else if j == rows.len() {
            assert(r[i] == rows[i]);
        } else {
            assert(r[i] == rows[i] && r[j] == rows[j]);
        }
    }
}

} // verus!
