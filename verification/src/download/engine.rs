use crate::config::{AppConfig, AppConfigView};
use crate::download::runner::{path_for, select_path, DownloadPath};
use crate::error::DownloadError;
use crate::models::{DownloadInfo, DownloadInfoView, DownloadStatus, StatusView};
use crate::network::RemoteMetadata;
use crate::scheduler::AdaptiveScheduler;
use vstd::prelude::*;

verus! {

/// Whether `c` is a digit of lower-case hexadecimal.
pub open spec fn is_hex_digit(c: char) -> bool {
    ('0' <= c <= '9') || ('a' <= c <= 'f')
}

/// Whether `id` has the form of a job id: 36 characters, of which the ninth,
/// the fourteenth, the nineteenth and the twenty-fourth are hyphens and the
/// others digits of lower-case hexadecimal; the digit after the second hyphen
/// is 4, and the digit after the third is 8, 9, a or b.
pub open spec fn is_job_id(id: Seq<char>) -> bool {
    &&& id.len() == 36
    &&& forall|i: int|
        0 <= i < 36 ==> if i == 8 || i == 13 || i == 18 || i == 23 {
            #[trigger] id[i] == '-'
        } else {
            is_hex_digit(id[i])
        }
    &&& id[14] == '4'
    &&& (id[19] == '8' || id[19] == '9' || id[19] == 'a' || id[19] == 'b')
}

/// A new job id, drawn at random. This calls `uuid::Uuid::new_v4` and
/// writes what it returns with `to_string`. Believed, not proved: the text
/// is that of a version 4 UUID, hyphenated and in lower case, whatever the
/// random bits are. The call panics where the system has no random bytes to
/// give.
#[verifier::external_body]
fn new_job_id() -> (id: String)
    ensures
        is_job_id(id@),
{
    uuid::Uuid::new_v4().to_string()
}

/// The record of a job that was accepted and has not begun.
pub open spec fn queued_record(id: Seq<char>, url: Seq<char>, output: Seq<char>) -> DownloadInfoView {
    DownloadInfoView {
        id,
        url,
        output,
        total_bytes: None,
        downloaded_bytes: 0,
        status: StatusView::Queued,
    }
}

/// The records after the job `id` is asked to move to `status`: the move is
/// made where the job is known and its state allows it, and nothing changes
/// where not.
pub open spec fn records_after_status(
    records: Map<Seq<char>, DownloadInfoView>,
    id: Seq<char>,
    status: StatusView,
) -> Map<Seq<char>, DownloadInfoView> {
    if records.contains_key(id) && records[id].status.may_become(status) {
        records.insert(id, DownloadInfoView { status, ..records[id] })
    } else {
        records
    }
}

/// The records after the size of the resource of job `id` is set.
pub open spec fn records_after_total(
    records: Map<Seq<char>, DownloadInfoView>,
    id: Seq<char>,
    total: Option<u64>,
) -> Map<Seq<char>, DownloadInfoView> {
    if records.contains_key(id) {
        records.insert(id, DownloadInfoView { total_bytes: total, ..records[id] })
    } else {
        records
    }
}

/// The records after the byte counter of job `id` is set.
pub open spec fn records_after_progress(
    records: Map<Seq<char>, DownloadInfoView>,
    id: Seq<char>,
    downloaded: u64,
) -> Map<Seq<char>, DownloadInfoView> {
    if records.contains_key(id) {
        records.insert(id, DownloadInfoView { downloaded_bytes: downloaded, ..records[id] })
    } else {
        records
    }
}

/// A byte counter after `len` more bytes; it stops at the largest number
/// that it can hold.
pub open spec fn counter_after(counter: u64, len: u64) -> u64 {
    if counter + len > u64::MAX {
        u64::MAX
    } else {
        (counter + len) as u64
    }
}

/// The records after `len` bytes are added to the byte counter of job `id`.
pub open spec fn records_after_bytes(
    records: Map<Seq<char>, DownloadInfoView>,
    id: Seq<char>,
    len: u64,
) -> Map<Seq<char>, DownloadInfoView> {
    if records.contains_key(id) {
        records_after_progress(records, id, counter_after(records[id].downloaded_bytes, len))
    } else {
        records
    }
}

/// What the runner of a job is told.
#[derive(Debug, PartialEq, Eq)]
pub enum RunnerEvent {
    /// The job's task has begun.
    Started,
    /// The probe has ended, with what it learned or with its error.
    Probed(Result<RemoteMetadata, DownloadError>),
    /// The fetch has ended, merge included.
    Fetched(Result<(), DownloadError>),
}

/// What the runner of a job asks for next.
#[derive(Debug, Clone, Copy, PartialEq, Eq, Structural)]
pub enum RunnerAction {
    /// Probe the remote.
    Probe,
    /// Fetch a resource of this many bytes in ranges.
    FetchChunked(u64),
    /// Fetch the resource in one request.
    FetchSingle,
    /// Nothing: the job has ended.
    Done,
}

/// What the runner asks for after an event.
pub open spec fn action_after(event: RunnerEvent) -> RunnerAction {
    match event {
        RunnerEvent::Started => RunnerAction::Probe,
        RunnerEvent::Probed(Ok(metadata)) => match path_for(metadata) {
            DownloadPath::Chunked(total) => RunnerAction::FetchChunked(total),
            DownloadPath::SingleShot => RunnerAction::FetchSingle,
        },
        RunnerEvent::Probed(Err(_)) => RunnerAction::Done,
        RunnerEvent::Fetched(_) => RunnerAction::Done,
    }
}

/// The records after the runner of job `id` has taken note of an event.
pub open spec fn records_after_event(
    records: Map<Seq<char>, DownloadInfoView>,
    id: Seq<char>,
    event: RunnerEvent,
) -> Map<Seq<char>, DownloadInfoView> {
    match event {
        RunnerEvent::Started => records_after_status(records, id, StatusView::Running),
        RunnerEvent::Probed(Ok(metadata)) => records_after_total(
            records,
            id,
            metadata.content_length,
        ),
        RunnerEvent::Probed(Err(error)) => records_after_status(
            records,
            id,
            StatusView::Failed(error@.message()),
        ),
        RunnerEvent::Fetched(Ok(_)) => records_after_status(records, id, StatusView::Completed),
        RunnerEvent::Fetched(Err(error)) => records_after_status(
            records,
            id,
            StatusView::Failed(error@.message()),
        ),
    }
}

/// The state of a job moves from queued to running and from running to
/// completed or failed, and in no other way, whatever the runner is told. A
/// job that has ended keeps its state.
pub proof fn job_state_moves_forward(
    records: Map<Seq<char>, DownloadInfoView>,
    id: Seq<char>,
    event: RunnerEvent,
)
    requires
        records.contains_key(id),
    ensures
        ({
            let before = records[id].status;
            let after = records_after_event(records, id, event);
            &&& after.contains_key(id)
            &&& after[id].status == before || before.may_become(after[id].status)
            &&& before.is_terminal() ==> after[id].status == before
        }),
{
}

spec fn holds(records: Seq<DownloadInfo>, id: Seq<char>, i: int) -> bool {
    0 <= i < records.len() && records[i].id@ == id
}

spec fn distinct(records: Seq<DownloadInfo>) -> bool {
    forall|i: int, j: int|
        0 <= i < j < records.len() ==> (#[trigger] records[i]).id@ != (#[trigger] records[j]).id@
}

spec fn as_map(records: Seq<DownloadInfo>) -> Map<Seq<char>, DownloadInfoView> {
    Map::new(
        |id: Seq<char>| exists|i: int| holds(records, id, i),
        |id: Seq<char>| records[choose|i: int| holds(records, id, i)]@,
    )
}

proof fn lemma_lookup(records: Seq<DownloadInfo>, id: Seq<char>, i: int)
    requires
        distinct(records),
        holds(records, id, i),
    ensures
        as_map(records).contains_key(id),
        as_map(records)[id] == records[i]@,
{
    let k = choose|k: int| holds(records, id, k);
    assert(k == i);
}

proof fn lemma_absent(records: Seq<DownloadInfo>, id: Seq<char>)
    requires
        forall|i: int| 0 <= i < records.len() ==> (#[trigger] records[i]).id@ != id,
    ensures
        !as_map(records).contains_key(id),
{
    if as_map(records).contains_key(id) {
        let k = choose|k: int| holds(records, id, k);
        assert(records[k].id@ == id);
    }
}

proof fn lemma_push(records: Seq<DownloadInfo>, record: DownloadInfo)
    requires
        distinct(records),
        forall|i: int| 0 <= i < records.len() ==> (#[trigger] records[i]).id@ != record.id@,
    ensures
        distinct(records.push(record)),
        as_map(records.push(record)) == as_map(records).insert(record.id@, record@),
{
    let after = records.push(record);
    assert(distinct(after));
    assert forall|id: Seq<char>|
        as_map(after).contains_key(id) == #[trigger] as_map(records).insert(
            record.id@,
            record@,
        ).contains_key(id) by {
        if as_map(after).contains_key(id) {
            let k = choose|k: int| holds(after, id, k);
            if k < records.len() {
                assert(holds(records, id, k));
            }
        }
        if as_map(records).contains_key(id) {
            let k = choose|k: int| holds(records, id, k);
            assert(holds(after, id, k));
        }
        if id == record.id@ {
            assert(holds(after, id, records.len() as int));
        }
    }
    assert forall|id: Seq<char>| as_map(after).contains_key(id) implies #[trigger] as_map(
        after,
    )[id] == as_map(records).insert(record.id@, record@)[id] by {
        let k = choose|k: int| holds(after, id, k);
        lemma_lookup(after, id, k);
        if k < records.len() {
            assert(holds(records, id, k));
            lemma_lookup(records, id, k);
        }
    }
    assert(as_map(after) =~= as_map(records).insert(record.id@, record@));
}

proof fn lemma_update(records: Seq<DownloadInfo>, at: int, record: DownloadInfo)
    requires
        distinct(records),
        0 <= at < records.len(),
        records[at].id@ == record.id@,
    ensures
        distinct(records.update(at, record)),
        as_map(records.update(at, record)) == as_map(records).insert(record.id@, record@),
{
    let after = records.update(at, record);
    assert(distinct(after)) by {
        assert forall|i: int, j: int| 0 <= i < j < after.len() implies (#[trigger] after[i]).id@ != (
        #[trigger] after[j]).id@ by {
            assert(records[i].id@ != records[j].id@);
        }
    }
    assert forall|id: Seq<char>|
        as_map(after).contains_key(id) == #[trigger] as_map(records).insert(
            record.id@,
            record@,
        ).contains_key(id) by {
        if as_map(after).contains_key(id) {
            let k = choose|k: int| holds(after, id, k);
            assert(holds(records, id, k));
        }
        if as_map(records).contains_key(id) {
            let k = choose|k: int| holds(records, id, k);
            assert(holds(after, id, k));
        }
        if id == record.id@ {
            assert(holds(after, id, at));
        }
    }
    assert forall|id: Seq<char>| as_map(after).contains_key(id) implies #[trigger] as_map(
        after,
    )[id] == as_map(records).insert(record.id@, record@)[id] by {
        let k = choose|k: int| holds(after, id, k);
        lemma_lookup(after, id, k);
        assert(holds(records, id, k));
        lemma_lookup(records, id, k);
    }
    assert(as_map(after) =~= as_map(records).insert(record.id@, record@));
}

/// The jobs of one process, each with its live record, and the settings
/// under which they run.
#[derive(Debug, PartialEq, Eq)]
pub struct DownloadEngine {
    state: Vec<DownloadInfo>,
    scheduler: AdaptiveScheduler,
    config: AppConfig,
}

/// The mathematical value of a `DownloadEngine`: the records by job id, and
/// the settings.
pub struct EngineView {
    pub records: Map<Seq<char>, DownloadInfoView>,
    pub scheduler: AdaptiveScheduler,
    pub config: AppConfigView,
}

impl View for DownloadEngine {
    type V = EngineView;

    closed spec fn view(&self) -> EngineView {
        EngineView {
            records: as_map(self.state@),
            scheduler: self.scheduler,
            config: self.config@,
        }
    }
}

impl DownloadEngine {
    #[verifier::type_invariant]
    spec fn well_formed(self) -> bool {
        distinct(self.state@)
    }

    /// An engine without jobs, whose scheduler has the configured ceiling.
    pub fn new(config: AppConfig) -> (engine: Self)
        ensures
            engine@.records == Map::<Seq<char>, DownloadInfoView>::empty(),
            engine@.scheduler.max_parallel_chunks == config.worker_threads,
            engine@.config == config@,
    {
        let engine = DownloadEngine {
            state: Vec::new(),
            scheduler: AdaptiveScheduler::new(config.worker_threads),
            config,
        };
        assert(as_map(engine.state@) =~= Map::<Seq<char>, DownloadInfoView>::empty());
        engine
    }

    /// The settings that the engine was made with.
    pub fn config(&self) -> (config: &AppConfig)
        ensures
            config@ == self@.config,
    {
        &self.config
    }

    /// The scheduler of the engine.
    pub fn scheduler(&self) -> (scheduler: &AdaptiveScheduler)
        ensures
            *scheduler == self@.scheduler,
    {
        &self.scheduler
    }

    fn position(&self, id: &str) -> (found: Option<usize>)
        ensures
            match found {
                Some(i) => holds(self.state@, id@, i as int),
                None => forall|i: int|
                    0 <= i < self.state@.len() ==> (#[trigger] self.state@[i]).id@ != id@,
            },
    {
        let key = id.to_owned();
        let mut i: usize = 0;
        while i < self.state.len()
            invariant
                i <= self.state.len(),
                key@ == id@,
                forall|k: int| 0 <= k < i ==> (#[trigger] self.state@[k]).id@ != id@,
            decreases self.state.len() - i,
        {
            if self.state[i].id == key {
                return Some(i);
            }
            i = i + 1;
        }
        None
    }

    fn put(&mut self, record: DownloadInfo)
        ensures
            final(self)@ == (EngineView {
                records: old(self)@.records.insert(record.id@, record@),
                ..old(self)@
            }),
    {
        proof {
            use_type_invariant(&*self);
        }
        let found = self.position(record.id.as_str());
        let mut state: Vec<DownloadInfo> = Vec::new();
        std::mem::swap(&mut self.state, &mut state);
        match found {
            Some(i) => {
                proof {
                    lemma_update(state@, i as int, record);
                }
                state.set(i, record);
            },
            None => {
                proof {
                    lemma_push(state@, record);
                }
                state.push(record);
            },
        }
        std::mem::swap(&mut self.state, &mut state);
    }

    /// Takes in a job under the id given: its record is there from now on,
    /// queued, with no size and no bytes. A record that was there under the
    /// same id is gone.
    pub fn insert_queued(&mut self, id: String, url: String, output: String)
        ensures
            final(self)@ == (EngineView {
                records: old(self)@.records.insert(id@, queued_record(id@, url@, output@)),
                ..old(self)@
            }),
    {
        self.put(
            DownloadInfo {
                id,
                url,
                output,
                total_bytes: None,
                downloaded_bytes: 0,
                status: DownloadStatus::Queued,
            },
        );
    }

    /// Takes in a job and gives it a new id, drawn at random, under which its
    /// record is there from now on, queued.
    pub fn enqueue(&mut self, url: String, output: String) -> (id: String)
        ensures
            is_job_id(id@),
            final(self)@ == (EngineView {
                records: old(self)@.records.insert(id@, queued_record(id@, url@, output@)),
                ..old(self)@
            }),
    {
        let id = new_job_id();
        self.insert_queued(id.clone(), url, output);
        id
    }

    /// A copy of the record of job `id`, where the job is known.
    pub fn status(&self, id: &str) -> (record: Option<DownloadInfo>)
        ensures
            match record {
                Some(info) => self@.records.contains_key(id@) && info@ == self@.records[id@],
                None => !self@.records.contains_key(id@),
            },
    {
        proof {
            use_type_invariant(self);
        }
        match self.position(id) {
            Some(i) => {
                proof {
                    lemma_lookup(self.state@, id@, i as int);
                }
                Some(self.state[i].clone())
            },
            None => {
                proof {
                    lemma_absent(self.state@, id@);
                }
                None
            },
        }
    }

    /// Moves job `id` to `status`, where the job is known and its state
    /// allows the move: from queued to running, and from running to
    /// completed or failed. Says whether the move was made.
    pub fn update_status(&mut self, id: &str, status: DownloadStatus) -> (moved: bool)
        ensures
            final(self)@ == (EngineView {
                records: records_after_status(old(self)@.records, id@, status@),
                ..old(self)@
            }),
            moved == (old(self)@.records.contains_key(id@) && old(self)@.records[id@].status.may_become(status@)),
    {
        proof {
            use_type_invariant(&*self);
        }
        match self.position(id) {
            Some(i) => {
                proof {
                    lemma_lookup(self.state@, id@, i as int);
                }
                if self.state[i].status.may_become(&status) {
                    let mut record = self.state[i].clone();
                    record.status = status;
                    self.put(record);
                    true
                } else {
                    false
                }
            },
            None => {
                proof {
                    lemma_absent(self.state@, id@);
                }
                false
            },
        }
    }

    /// Sets the size of the resource of job `id`, where the job is known.
    pub fn set_total_bytes(&mut self, id: &str, total: Option<u64>)
        ensures
            final(self)@ == (EngineView {
                records: records_after_total(old(self)@.records, id@, total),
                ..old(self)@
            }),
    {
        proof {
            use_type_invariant(&*self);
        }
        match self.position(id) {
            Some(i) => {
                proof {
                    lemma_lookup(self.state@, id@, i as int);
                }
                let mut record = self.state[i].clone();
                record.total_bytes = total;
                self.put(record);
            },
            None => {
                proof {
                    lemma_absent(self.state@, id@);
                }
            },
        }
    }

    /// Sets the byte counter of job `id`, where the job is known: the single
    /// request of a job that is fetched in one piece has written this many
    /// bytes.
    pub fn update_progress(&mut self, id: &str, downloaded: u64)
        ensures
            final(self)@ == (EngineView {
                records: records_after_progress(old(self)@.records, id@, downloaded),
                ..old(self)@
            }),
    {
        proof {
            use_type_invariant(&*self);
        }
        match self.position(id) {
            Some(i) => {
                proof {
                    lemma_lookup(self.state@, id@, i as int);
                }
                let mut record = self.state[i].clone();
                record.downloaded_bytes = downloaded;
                self.put(record);
            },
            None => {
                proof {
                    lemma_absent(self.state@, id@);
                }
            },
        }
    }

    /// Adds `len` bytes, which a worker has written, to the byte counter of
    /// job `id`, where the job is known. The counter never falls.
    pub fn add_progress(&mut self, id: &str, len: u64)
        ensures
            final(self)@ == (EngineView {
                records: records_after_bytes(old(self)@.records, id@, len),
                ..old(self)@
            }),
            old(self)@.records.contains_key(id@) ==> final(self)@.records[id@].downloaded_bytes
                >= old(self)@.records[id@].downloaded_bytes,
    {
        proof {
            use_type_invariant(&*self);
        }
        match self.position(id) {
            Some(i) => {
                proof {
                    lemma_lookup(self.state@, id@, i as int);
                }
                let counter: u64 = self.state[i].downloaded_bytes;
                let after: u64 = if len > u64::MAX - counter {
                    u64::MAX
                } else {
                    counter + len
                };
                self.update_progress(id, after);
            },
            None => {
                proof {
                    lemma_absent(self.state@, id@);
                }
            },
        }
    }

    /// The runner of one job: takes note of what has happened and says what
    /// is done next. A job that has begun is running and is probed. What the
    /// probe learned of the size is put on record, and the resource is then
    /// fetched in ranges or in one request. The end of the fetch completes
    /// the job. An error, of the probe or of the fetch, fails it with the
    /// error's message. After the probe's error and after the fetch the job
    /// is no longer running.
    pub fn run_download(&mut self, id: &str, event: RunnerEvent) -> (action: RunnerAction)
        ensures
            action == action_after(event),
            final(self)@ == (EngineView {
                records: records_after_event(old(self)@.records, id@, event),
                ..old(self)@
            }),
            action == RunnerAction::Done && final(self)@.records.contains_key(id@) ==> !(final(self)@.records[id@].status is Running),
    {
        match event {
            RunnerEvent::Started => {
                self.update_status(id, DownloadStatus::Running);
                RunnerAction::Probe
            },
            RunnerEvent::Probed(Ok(metadata)) => {
                self.set_total_bytes(id, metadata.content_length);
                match select_path(&metadata) {
                    DownloadPath::Chunked(total) => RunnerAction::FetchChunked(total),
                    DownloadPath::SingleShot => RunnerAction::FetchSingle,
                }
            },
            RunnerEvent::Probed(Err(error)) => {
                self.update_status(id, DownloadStatus::Failed(error.message()));
                RunnerAction::Done
            },
            RunnerEvent::Fetched(Ok(_)) => {
                self.update_status(id, DownloadStatus::Completed);
                RunnerAction::Done
            },
            RunnerEvent::Fetched(Err(error)) => {
                self.update_status(id, DownloadStatus::Failed(error.message()));
                RunnerAction::Done
            },
        }
    }
}

} // verus!
