//! Typed events of the monitor: process records, stats snapshots, log
//! events, and the tagged `Envelope` that is fanned out to viewers.

use vstd::prelude::*;

verus! {

/// One supervised process as reported by one poll cycle. Fields that the
/// external status document does not provide are left at their zero values.
/// The CPU share is carried as the decimal text of the reported number.
pub struct ProcessRecord {
    pub name: String,
    pub id: i64,
    pub pid: i64,
    pub uptime: i64,
    pub status: String,
    pub restart: i64,
    pub user: String,
    pub cpu_text: String,
    pub mem: i64,
}

/// Mathematical image of a `ProcessRecord`.
pub ghost struct RecordView {
    pub name: Seq<char>,
    pub id: int,
    pub pid: int,
    pub uptime: int,
    pub status: Seq<char>,
    pub restart: int,
    pub user: Seq<char>,
    pub cpu_text: Seq<char>,
    pub mem: int,
}

impl View for ProcessRecord {
    type V = RecordView;

    open spec fn view(&self) -> RecordView {
        RecordView {
            name: self.name@,
            id: self.id as int,
            pid: self.pid as int,
            uptime: self.uptime as int,
            status: self.status@,
            restart: self.restart as int,
            user: self.user@,
            cpu_text: self.cpu_text@,
            mem: self.mem as int,
        }
    }
}

impl Clone for ProcessRecord {
    fn clone(&self) -> (r: Self)
        ensures
            r@ == self@,
    {
        ProcessRecord {
            name: self.name.clone(),
            id: self.id,
            pid: self.pid,
            uptime: self.uptime,
            status: self.status.clone(),
            restart: self.restart,
            user: self.user.clone(),
            cpu_text: self.cpu_text.clone(),
            mem: self.mem,
        }
    }
}

/// The complete list of process records captured by one poll cycle,
/// replacing the previous snapshot in full.
pub struct StatsSnapshot {
    pub records: Vec<ProcessRecord>,
    pub captured_at: u128,
}

/// Mathematical image of a `StatsSnapshot`.
pub ghost struct SnapshotView {
    pub records: Seq<RecordView>,
    pub captured_at: int,
}

impl View for StatsSnapshot {
    type V = SnapshotView;

    open spec fn view(&self) -> SnapshotView {
        SnapshotView {
            records: self.records@.map_values(|r: ProcessRecord| r@),
            captured_at: self.captured_at as int,
        }
    }
}

impl Clone for StatsSnapshot {
    fn clone(&self) -> (r: Self)
        ensures
            r@ == self@,
    {
        let mut records: Vec<ProcessRecord> = Vec::new();
        let mut i: usize = 0;
        while i < self.records.len()
            invariant
                i <= self.records.len(),
                records@.len() == i,
                forall|k: int| 0 <= k < i ==> #[trigger] records@[k]@ == self.records@[k]@,
            decreases self.records.len() - i,
        {
            records.push(self.records[i].clone());
            i = i + 1;
        }
        let r = StatsSnapshot { records, captured_at: self.captured_at };
        proof {
            assert(r@.records =~= self@.records);
            assert(r@ =~= self@);
        }
        r
    }
}

/// One normalized line of the combined log stream. The fields are kept as
/// the raw bytes extracted from the line.
pub struct LogEvent {
    pub app: Vec<u8>,
    pub process_id: Vec<u8>,
    pub message: Vec<u8>,
    pub timestamp: Vec<u8>,
    pub log_type: Vec<u8>,
}

/// Mathematical image of a `LogEvent`.
pub ghost struct LogEventView {
    pub app: Seq<u8>,
    pub process_id: Seq<u8>,
    pub message: Seq<u8>,
    pub timestamp: Seq<u8>,
    pub log_type: Seq<u8>,
}

impl View for LogEvent {
    type V = LogEventView;

    open spec fn view(&self) -> LogEventView {
        LogEventView {
            app: self.app@,
            process_id: self.process_id@,
            message: self.message@,
            timestamp: self.timestamp@,
            log_type: self.log_type@,
        }
    }
}

impl Clone for LogEvent {
    fn clone(&self) -> (r: Self)
        ensures
            r@ == self@,
    {
        let r = LogEvent {
            app: self.app.clone(),
            process_id: self.process_id.clone(),
            message: self.message.clone(),
            timestamp: self.timestamp.clone(),
            log_type: self.log_type.clone(),
        };
        proof {
            assert(r@ =~= self@);
        }
        r
    }
}

/// The payload of one outbound wire message: either a full stats snapshot
/// or a single log event.
pub enum Payload {
    Stats(StatsSnapshot),
    Log(LogEvent),
}

/// Mathematical image of a `Payload`.
pub ghost enum PayloadView {
    Stats(SnapshotView),
    Log(LogEventView),
}

impl View for Payload {
    type V = PayloadView;

    open spec fn view(&self) -> PayloadView {
        match self {
            Payload::Stats(s) => PayloadView::Stats(s@),
            Payload::Log(l) => PayloadView::Log(l@),
        }
    }
}

impl Clone for Payload {
    fn clone(&self) -> (r: Self)
        ensures
            r@ == self@,
    {
        match self {
            Payload::Stats(s) => Payload::Stats(s.clone()),
            Payload::Log(l) => Payload::Log(l.clone()),
        }
    }
}

/// The wire unit sent to viewers: a tagged payload together with the epoch
/// milliseconds at which it was emitted.
pub struct Envelope {
    pub payload: Payload,
    pub emitted_at: u128,
}

/// Mathematical image of an `Envelope`.
pub ghost struct EnvelopeView {
    pub payload: PayloadView,
    pub emitted_at: int,
}

impl EnvelopeView {
    /// Whether this envelope carries a stats snapshot.
    pub open spec fn is_stats(self) -> bool {
        self.payload is Stats
    }

    /// Whether this envelope carries a log event.
    pub open spec fn is_log(self) -> bool {
        self.payload is Log
    }
}

impl View for Envelope {
    type V = EnvelopeView;

    open spec fn view(&self) -> EnvelopeView {
        EnvelopeView { payload: self.payload@, emitted_at: self.emitted_at as int }
    }
}

impl Clone for Envelope {
    fn clone(&self) -> (r: Self)
        ensures
            r@ == self@,
    {
        Envelope { payload: self.payload.clone(), emitted_at: self.emitted_at }
    }
}

impl Envelope {
    /// Wraps one cycle's records as a stats envelope; the capture time and
    /// the emission time are both `now_millis`.
    pub fn stats_event(records: Vec<ProcessRecord>, now_millis: u128) -> (e: Envelope)
        ensures
            e@ == (EnvelopeView {
                payload: PayloadView::Stats(
                    SnapshotView {
                        records: records@.map_values(|r: ProcessRecord| r@),
                        captured_at: now_millis as int,
                    },
                ),
                emitted_at: now_millis as int,
            }),
    {
        Envelope {
            payload: Payload::Stats(StatsSnapshot { records, captured_at: now_millis }),
            emitted_at: now_millis,
        }
    }

    /// Wraps one parsed log line as a log envelope emitted at `now_millis`.
    pub fn log_event(event: LogEvent, now_millis: u128) -> (e: Envelope)
        ensures
            e@ == (EnvelopeView {
                payload: PayloadView::Log(event@),
                emitted_at: now_millis as int,
            }),
    {
        Envelope { payload: Payload::Log(event), emitted_at: now_millis }
    }
}

} // verus!
