use vstd::prelude::*;
use vstd::string::*;
use vstd::arithmetic::power2::pow2;
use vstd::bits::lemma_u8_shr_is_div;
use crate::error::{AppError, AppErrorView};
use crate::ids::{uuid_string, uuid_text};

verus! {

/// Which computation a job runs on the external service.
#[derive(Clone, Copy, Debug, PartialEq, Eq, Structural)]
pub enum JobKind {
    /// Matching a list of IPv4 addresses; the result is decrypted by the KMS.
    Usecase1 { ip_count: usize },
    /// Matching a file hash; the result is decrypted with the user's key.
    Usecase2,
}

/// Whether one submitted IP address matched.
#[derive(Clone, Debug)]
pub struct IpResult {
    pub ip: String,
    pub matched: bool,
}

/// The decrypted result of a job.
#[derive(Clone, Debug)]
pub enum JobResult {
    Usecase1(Vec<IpResult>),
    Usecase2(bool),
}

/// Where a job stands.
#[derive(Clone, Debug)]
pub enum JobStatus {
    /// Submitted; the external service may not have finished.
    Pending,
    /// The external result arrived and is being decrypted.
    Processing,
    Done(JobResult),
    Error(String),
}

/// What the backend keeps of a submitted job.
#[derive(Clone, Debug)]
pub struct JobEntry {
    pub username: String,
    pub external_job_id: u128,
    pub kind: JobKind,
    pub status: JobStatus,
}

/// The answer to a status request.
#[derive(Clone, Debug)]
pub struct JobStatusResponse {
    pub job_id: String,
    pub status: String,
    pub result: Option<JobResult>,
    pub error: Option<String>,
}

pub struct IpResultView {
    pub ip: Seq<char>,
    pub matched: bool,
}

pub enum JobResultView {
    Usecase1(Seq<IpResultView>),
    Usecase2(bool),
}

pub enum JobStatusView {
    Pending,
    Processing,
    Done(JobResultView),
    Error(Seq<char>),
}

pub struct JobEntryView {
    pub username: Seq<char>,
    pub external_job_id: u128,
    pub kind: JobKind,
    pub status: JobStatusView,
}

pub struct JobStatusResponseView {
    pub job_id: Seq<char>,
    pub status: Seq<char>,
    pub result: Option<JobResultView>,
    pub error: Option<Seq<char>>,
}

impl View for IpResult {
    type V = IpResultView;

    open spec fn view(&self) -> IpResultView {
        IpResultView { ip: self.ip@, matched: self.matched }
    }
}

impl View for JobResult {
    type V = JobResultView;

    open spec fn view(&self) -> JobResultView {
        match self {
            JobResult::Usecase1(v) => JobResultView::Usecase1(v@.map_values(|r: IpResult| r@)),
            JobResult::Usecase2(b) => JobResultView::Usecase2(*b),
        }
    }
}

impl View for JobStatus {
    type V = JobStatusView;

    open spec fn view(&self) -> JobStatusView {
        match self {
            JobStatus::Pending => JobStatusView::Pending,
            JobStatus::Processing => JobStatusView::Processing,
            JobStatus::Done(r) => JobStatusView::Done(r@),
            JobStatus::Error(e) => JobStatusView::Error(e@),
        }
    }
}

impl View for JobEntry {
    type V = JobEntryView;

    open spec fn view(&self) -> JobEntryView {
        JobEntryView {
            username: self.username@,
            external_job_id: self.external_job_id,
            kind: self.kind,
            status: self.status@,
        }
    }
}

pub open spec fn opt_result_view(r: Option<JobResult>) -> Option<JobResultView> {
    match r {
        Some(x) => Some(x@),
        None => None,
    }
}

pub open spec fn opt_string_view(s: Option<String>) -> Option<Seq<char>> {
    match s {
        Some(x) => Some(x@),
        None => None,
    }
}

impl View for JobStatusResponse {
    type V = JobStatusResponseView;

    open spec fn view(&self) -> JobStatusResponseView {
        JobStatusResponseView {
            job_id: self.job_id@,
            status: self.status@,
            result: opt_result_view(self.result),
            error: opt_string_view(self.error),
        }
    }
}

/// Builds the answer to a status request.
pub fn to_response(job_id: u128, status: &str, result: Option<JobResult>, error: Option<String>) -> (r:
    JobStatusResponse)
    ensures
        r@.job_id == uuid_text(job_id),
        r@.status == status@,
        r@.result == opt_result_view(result),
        r@.error == opt_string_view(error),
{
    JobStatusResponse { job_id: uuid_string(job_id), status: status.to_string(), result, error }
}

/// The name of the file in which the IP list of a job is kept.
pub open spec fn job_ips_file_name_spec(job_id: u128) -> Seq<char> {
    "job_"@ + uuid_text(job_id) + ".ips.json"@
}

/// The name of the file in which the IP list of a job is kept:
/// `job_<uuid>.ips.json`.
pub fn job_ips_file_name(job_id: u128) -> (r: String)
    ensures
        r@ == job_ips_file_name_spec(job_id),
{
    let mut name = "job_".to_string();
    let id = uuid_string(job_id);
    name.append(id.as_str());
    name.append(".ips.json");
    name
}

/// A freshly submitted job of `username`: pending.
pub fn new_pending_job(username: String, external_job_id: u128, kind: JobKind) -> (e: JobEntry)
    ensures
        e@ == (JobEntryView {
            username: username@,
            external_job_id,
            kind,
            status: JobStatusView::Pending,
        }),
{
    JobEntry { username, external_job_id, kind, status: JobStatus::Pending }
}

// ---------------------------------------------------------------------------
// Usecase 1: the decrypted bit set

/// Whether the `i`-th submitted IP matched: bit `i % 8` (counted from the
/// least significant) of byte `i / 8` of the decrypted plaintext; an IP past
/// the end of the plaintext did not match.
pub open spec fn ip_matched(plaintext: Seq<u8>, i: int) -> bool {
    0 <= i / 8 < plaintext.len() && (plaintext[i / 8] >> ((i % 8) as u32)) & 1u8 == 1u8
}

/// Pairs each submitted IP with whether the decrypted bit set marks it.
pub fn match_ips(plaintext: &[u8], ips: &[String]) -> (r: Vec<IpResult>)
    ensures
        r@.len() == ips@.len(),
        forall|i: int|
            0 <= i < ips@.len() ==> (#[trigger] r@[i])@ == (IpResultView {
                ip: ips@[i]@,
                matched: ip_matched(plaintext@, i),
            }),
{
    let mut out: Vec<IpResult> = Vec::new();
    let n = ips.len();
    let mut i: usize = 0;
    while i < n
        invariant
            n == ips@.len(),
            i <= n,
            out@.len() == i,
            forall|j: int|
                0 <= j < i ==> (#[trigger] out@[j])@ == (IpResultView {
                    ip: ips@[j]@,
                    matched: ip_matched(plaintext@, j),
                }),
        decreases n - i,
    {
        let byte_index = i / 8;
        let matched = if byte_index < plaintext.len() {
            (plaintext[byte_index] >> ((i % 8) as u32)) & 1u8 == 1u8
        } else {
            false
        };
        out.push(IpResult { ip: ips[i].clone(), matched });
        i = i + 1;
    }
    out
}

/// Bit `k` of a byte, counted from the least significant, read with a shift
/// and a mask, is the parity of the byte divided by `2^k`.
proof fn lemma_masked_shift_is_bit(b: u8, k: u32)
    requires
        k < 8,
    ensures
        ((b >> k) & 1u8 == 1u8) == ((b as nat / pow2(k as nat)) % 2 == 1),
{
    let s: u8 = b >> k;
    assert(((b >> k) & 1u8 == 1u8) == ((b >> k) % 2 == 1)) by (bit_vector);
    assert(b >> k == b >> (k as u8)) by (bit_vector)
        requires
            k < 8,
    ;
    lemma_u8_shr_is_div(b, k as u8);
    assert(s == b as nat / pow2(k as nat));
}

/// The `i`-th IP reads bit `i % 8`, counted from the least significant, of
/// byte `i / 8` of the plaintext, wherever the plaintext ends; an IP whose
/// byte lies past the end of the plaintext did not match.
pub proof fn law_ip_reads_its_own_bit(plaintext: Seq<u8>, i: int)
    requires
        0 <= i,
    ensures
        ip_matched(plaintext, i) == (i / 8 < plaintext.len() && (plaintext[i / 8] as nat / pow2(
            (i % 8) as nat,
        )) % 2 == 1),
{
    if i / 8 < plaintext.len() {
        lemma_masked_shift_is_bit(plaintext[i / 8], (i % 8) as u32);
    }
}

/// Bytes appended after the byte of the `i`-th IP do not change whether it
/// matched.
pub proof fn law_appended_bytes_keep_earlier_matches(plaintext: Seq<u8>, more: Seq<u8>, i: int)
    requires
        0 <= i,
        i / 8 < plaintext.len(),
    ensures
        ip_matched(plaintext + more, i) == ip_matched(plaintext, i),
{
    assert((plaintext + more)[i / 8] == plaintext[i / 8]);
}

/// A byte put in front of the plaintext moves every IP's bit eight places:
/// IP `i + 8` of the longer plaintext matched exactly when IP `i` of the
/// shorter one did, and the first eight IPs read the new byte.
pub proof fn law_prepended_byte_shifts_matches(b: u8, plaintext: Seq<u8>, i: int)
    requires
        0 <= i,
    ensures
        ip_matched(seq![b] + plaintext, i + 8) == ip_matched(plaintext, i),
        i < 8 ==> ip_matched(seq![b] + plaintext, i) == ((b as nat / pow2(i as nat)) % 2 == 1),
{
    law_ip_reads_its_own_bit(seq![b] + plaintext, i + 8);
    law_ip_reads_its_own_bit(plaintext, i);
    assert((i + 8) / 8 == i / 8 + 1);
    assert((i + 8) % 8 == i % 8);
    if i / 8 < plaintext.len() {
        assert((seq![b] + plaintext)[i / 8 + 1] == plaintext[i / 8]);
    }
    if i < 8 {
        law_ip_reads_its_own_bit(seq![b] + plaintext, i);
        assert(i / 8 == 0);
        assert(i % 8 == i);
        assert((seq![b] + plaintext)[0] == b);
    }
}

// ---------------------------------------------------------------------------
// Usecase 1: the submitted IP list

/// How many IPs a usecase-1 job may hold.
pub open spec fn ip_count_ok(n: int) -> bool {
    1 <= n <= 256
}

pub open spec fn ip_count_msg() -> Seq<char> {
    "ips must contain 1..=256 entries"@
}

pub open spec fn invalid_ip_msg(ip: Seq<char>) -> Seq<char> {
    "invalid IP: "@ + ip
}

/// The first `k` entries all parsed.
pub open spec fn parsed_before(parsed: Seq<Option<u32>>, k: int) -> bool {
    forall|j: int| 0 <= j < k ==> #[trigger] parsed[j] is Some
}

/// Checks the IP list of a usecase-1 job. `parsed[i]` is the IPv4 address
/// that `ips[i]` (trimmed) denotes, as a big-endian `u32`, or `None` where it
/// denotes none. The list must hold 1 to 256 entries, and every entry must
/// parse; the first one that does not is named in the error.
pub fn validate_usecase1(ips: &Vec<String>, parsed: &Vec<Option<u32>>) -> (r: Result<Vec<u32>, AppError>)
    requires
        parsed@.len() == ips@.len(),
    ensures
        !ip_count_ok(ips@.len() as int) ==> (r matches Err(e) && e@ == AppErrorView::BadRequest(
            ip_count_msg(),
        )),
        ip_count_ok(ips@.len() as int) && parsed_before(parsed@, parsed@.len() as int) ==> (r matches Ok(v)
            && v@.len() == ips@.len() && forall|i: int|
            0 <= i < v@.len() ==> Some(#[trigger] v@[i]) == parsed@[i]),
        forall|k: int|
            #![trigger parsed@[k]]
            ip_count_ok(ips@.len() as int) && 0 <= k < parsed@.len() && parsed@[k] is None
                && parsed_before(parsed@, k) ==> (r matches Err(e) && e@ == AppErrorView::BadRequest(
                invalid_ip_msg(ips@[k]@),
            )),
{
    let n = ips.len();
    if n == 0 || n > 256 {
        return Err(AppError::BadRequest("ips must contain 1..=256 entries".to_string()));
    }
    let mut out: Vec<u32> = Vec::new();
    let mut i: usize = 0;
    while i < n
        invariant
            n == ips@.len(),
            1 <= n <= 256,
            parsed@.len() == n,
            i <= n,
            out@.len() == i,
            parsed_before(parsed@, i as int),
            forall|j: int| 0 <= j < i ==> Some(#[trigger] out@[j]) == parsed@[j],
        decreases n - i,
    {
        match parsed[i] {
            Some(v) => {
                out.push(v);
                i = i + 1;
            },
            None => {
                let mut msg = "invalid IP: ".to_string();
                msg.append(ips[i].as_str());
                return Err(AppError::BadRequest(msg));
            },
        }
    }
    Ok(out)
}

} // verus!

verus! {

// ---------------------------------------------------------------------------
// The job lifecycle: Pending -> Processing -> Done | Error

/// What a status request does next.
pub enum JobLookup {
    /// Answer at once.
    Answer(JobStatusResponse),
    /// Ask the external service whether the job has finished.
    Poll { external_job_id: u128, kind: JobKind },
}

pub enum JobLookupView {
    Answer(JobStatusResponseView),
    Poll { external_job_id: u128, kind: JobKind },
}

impl View for JobLookup {
    type V = JobLookupView;

    open spec fn view(&self) -> JobLookupView {
        match self {
            JobLookup::Answer(r) => JobLookupView::Answer(r@),
            JobLookup::Poll { external_job_id, kind } => JobLookupView::Poll {
                external_job_id: *external_job_id,
                kind: *kind,
            },
        }
    }
}

pub open spec fn lookup_result_view(r: Result<JobLookup, AppError>) -> Result<JobLookupView, AppErrorView> {
    match r {
        Ok(l) => Ok(l@),
        Err(e) => Err(e@),
    }
}

/// The answer `to_response` builds.
pub open spec fn response_view(
    job_id: u128,
    status: Seq<char>,
    result: Option<JobResultView>,
    error: Option<Seq<char>>,
) -> JobStatusResponseView {
    JobStatusResponseView { job_id: uuid_text(job_id), status, result, error }
}

/// The answer that a job's status gives without asking the external
/// service; a pending job has none.
pub open spec fn cached_answer(job_id: u128, status: JobStatusView) -> Option<JobStatusResponseView> {
    match status {
        JobStatusView::Done(r) => Some(response_view(job_id, "done"@, Some(r), None)),
        JobStatusView::Error(e) => Some(response_view(job_id, "error"@, None, Some(e))),
        JobStatusView::Processing => Some(response_view(job_id, "processing"@, None, None)),
        JobStatusView::Pending => None,
    }
}

/// How a status request for `job_id` by `username` proceeds, given the
/// stored entry: an unknown job is not found, another user's job is
/// refused, a job that is no longer pending is answered from its status,
/// and a pending job sends the backend to the external service.
pub open spec fn lookup_spec(entry: Option<JobEntryView>, username: Seq<char>, job_id: u128) -> Result<
    JobLookupView,
    AppErrorView,
> {
    match entry {
        None => Err(AppErrorView::NotFound),
        Some(e) => if e.username != username {
            Err(AppErrorView::Unauthorized)
        } else {
            match cached_answer(job_id, e.status) {
                Some(a) => Ok(JobLookupView::Answer(a)),
                None => Ok(JobLookupView::Poll { external_job_id: e.external_job_id, kind: e.kind }),
            }
        },
    }
}

pub open spec fn opt_entry_view(e: Option<JobEntry>) -> Option<JobEntryView> {
    match e {
        Some(x) => Some(x@),
        None => None,
    }
}

/// The first step of a status request: `entry` is the stored job (a copy of
/// it), `username` the requesting session's user.
pub fn lookup_job(entry: Option<JobEntry>, username: &String, job_id: u128) -> (r: Result<JobLookup, AppError>)
    ensures
        lookup_result_view(r) == lookup_spec(opt_entry_view(entry), username@, job_id),
{
    match entry {
        None => Err(AppError::NotFound),
        Some(e) => {
            if !(e.username == *username) {
                return Err(AppError::Unauthorized);
            }
            match e.status {
                JobStatus::Done(r) => Ok(JobLookup::Answer(to_response(job_id, "done", Some(r), None))),
                JobStatus::Error(msg) => Ok(
                    JobLookup::Answer(to_response(job_id, "error", None, Some(msg))),
                ),
                JobStatus::Processing => Ok(
                    JobLookup::Answer(to_response(job_id, "processing", None, None)),
                ),
                JobStatus::Pending => Ok(
                    JobLookup::Poll { external_job_id: e.external_job_id, kind: e.kind },
                ),
            }
        },
    }
}

/// The answer after the external service was asked: a job whose result is
/// not ready is still pending; one whose result came back is now being
/// decrypted.
pub fn answer_after_poll(job_id: u128, result_ready: bool) -> (r: JobStatusResponse)
    ensures
        r@ == response_view(
            job_id,
            if result_ready {
                "processing"@
            } else {
                "pending"@
            },
            None,
            None,
        ),
{
    if result_ready {
        to_response(job_id, "processing", None, None)
    } else {
        to_response(job_id, "pending", None, None)
    }
}

/// The entry with another status.
pub open spec fn with_status(e: JobEntryView, status: JobStatusView) -> JobEntryView {
    JobEntryView { status, ..e }
}

/// A claim on a job for decryption: a pending job becomes `Processing` and
/// the claim succeeds; a job in any other status is left as it is and the
/// claim fails.
pub open spec fn claim_spec(e: JobEntryView) -> (JobEntryView, bool) {
    if e.status is Pending {
        (with_status(e, JobStatusView::Processing), true)
    } else {
        (e, false)
    }
}

/// Claims a job for decryption, on the stored entry: only the caller whose
/// claim succeeds starts the decryption.
pub fn claim_for_processing(entry: &mut JobEntry) -> (claimed: bool)
    ensures
        (final(entry)@, claimed) == claim_spec(old(entry)@),
{
    match entry.status {
        JobStatus::Pending => {
            entry.status = JobStatus::Processing;
            true
        },
        _ => false,
    }
}

/// The status a finished decryption leaves.
pub open spec fn outcome_status(outcome: Result<JobResultView, Seq<char>>) -> JobStatusView {
    match outcome {
        Ok(r) => JobStatusView::Done(r),
        Err(e) => JobStatusView::Error(e),
    }
}

pub open spec fn outcome_view(outcome: Result<JobResult, String>) -> Result<JobResultView, Seq<char>> {
    match outcome {
        Ok(r) => Ok(r@),
        Err(e) => Err(e@),
    }
}

/// Recording how a decryption ended: a job being decrypted becomes done or
/// failed; a job in any other status is left as it is.
pub open spec fn record_spec(e: JobEntryView, outcome: Result<JobResultView, Seq<char>>) -> (
    JobEntryView,
    bool,
) {
    if e.status is Processing {
        (with_status(e, outcome_status(outcome)), true)
    } else {
        (e, false)
    }
}

/// Records how the decryption of a job ended, and tells whether it did.
pub fn record_outcome(entry: &mut JobEntry, outcome: Result<JobResult, String>) -> (recorded: bool)
    ensures
        (final(entry)@, recorded) == record_spec(old(entry)@, outcome_view(outcome)),
{
    match entry.status {
        JobStatus::Processing => {
            entry.status = match outcome {
                Ok(r) => JobStatus::Done(r),
                Err(e) => JobStatus::Error(e),
            };
            true
        },
        _ => false,
    }
}

/// A job that is done or failed is answered from what was stored, and is
/// never sent to the external service again.
pub proof fn law_finished_jobs_are_answered_from_store(e: JobEntryView, job_id: u128)
    requires
        e.status is Done || e.status is Error,
    ensures
        lookup_spec(Some(e), e.username, job_id) == Ok::<JobLookupView, AppErrorView>(
            JobLookupView::Answer(cached_answer(job_id, e.status).unwrap()),
        ),
        e.status matches JobStatusView::Done(r) ==> cached_answer(job_id, e.status) == Some(
            response_view(job_id, "done"@, Some(r), None),
        ),
        e.status matches JobStatusView::Error(m) ==> cached_answer(job_id, e.status) == Some(
            response_view(job_id, "error"@, None, Some(m)),
        ),
{
}

/// A user who does not own a job learns nothing of it: whatever its
/// status, the request is refused.
pub proof fn law_other_users_are_refused(e: JobEntryView, username: Seq<char>, job_id: u128)
    requires
        username != e.username,
    ensures
        lookup_spec(Some(e), username, job_id) == Err::<JobLookupView, AppErrorView>(
            AppErrorView::Unauthorized,
        ),
{
}

/// The lifecycle of a job: a pending job is polled; the claim on it
/// succeeds and leaves it being decrypted, answered "processing" without a
/// second poll; once its outcome is recorded it is answered with that
/// result or error.
pub proof fn law_job_lifecycle(e: JobEntryView, job_id: u128, outcome: Result<JobResultView, Seq<char>>)
    requires
        e.status is Pending,
    ensures
        lookup_spec(Some(e), e.username, job_id) == Ok::<JobLookupView, AppErrorView>(
            JobLookupView::Poll { external_job_id: e.external_job_id, kind: e.kind },
        ),
        claim_spec(e).1,
        lookup_spec(Some(claim_spec(e).0), e.username, job_id) == Ok::<JobLookupView, AppErrorView>(
            JobLookupView::Answer(response_view(job_id, "processing"@, None, None)),
        ),
        record_spec(claim_spec(e).0, outcome).1,
        outcome matches Ok(r) ==> lookup_spec(
            Some(record_spec(claim_spec(e).0, outcome).0),
            e.username,
            job_id,
        ) == Ok::<JobLookupView, AppErrorView>(
            JobLookupView::Answer(response_view(job_id, "done"@, Some(r), None)),
        ),
        outcome matches Err(m) ==> lookup_spec(
            Some(record_spec(claim_spec(e).0, outcome).0),
            e.username,
            job_id,
        ) == Ok::<JobLookupView, AppErrorView>(
            JobLookupView::Answer(response_view(job_id, "error"@, None, Some(m))),
        ),
{
}

/// What may happen to a stored job.
pub enum JobEvent {
    /// A status request whose poll found the result ready claims the job.
    Claim,
    /// A background decryption records its outcome.
    Record(Result<JobResultView, Seq<char>>),
}

/// One event applied to the stored entry; the flag tells whether the
/// claim or the recording took effect.
pub open spec fn apply_event(e: JobEntryView, ev: JobEvent) -> (JobEntryView, bool) {
    match ev {
        JobEvent::Claim => claim_spec(e),
        JobEvent::Record(o) => record_spec(e, o),
    }
}

/// The entry after a sequence of events.
pub open spec fn after_events(e: JobEntryView, evs: Seq<JobEvent>) -> JobEntryView
    decreases evs.len(),
{
    if evs.len() == 0 {
        e
    } else {
        after_events(apply_event(e, evs[0]).0, evs.drop_first())
    }
}

/// How many claims in a sequence of events succeed, that is, how many
/// decryptions are started.
pub open spec fn claims_won(e: JobEntryView, evs: Seq<JobEvent>) -> nat
    decreases evs.len(),
{
    if evs.len() == 0 {
        0
    } else {
        let step = apply_event(e, evs[0]);
        (if evs[0] is Claim && step.1 {
            1nat
        } else {
            0nat
        }) + claims_won(step.0, evs.drop_first())
    }
}

/// A status may only move forward: `Processing` is written only over
/// `Pending`, `Done` or `Error` only over `Processing`.
pub open spec fn status_step_allowed(before: JobStatusView, after: JobStatusView) -> bool {
    ||| before == after
    ||| before is Pending && after is Processing
    ||| before is Processing && (after is Done || after is Error)
}

/// Every event moves a job's status forward, and changes nothing else of
/// the entry; a done or failed job is never changed again.
pub proof fn law_status_only_moves_forward(e: JobEntryView, ev: JobEvent)
    ensures
        status_step_allowed(e.status, apply_event(e, ev).0.status),
        apply_event(e, ev).0 == with_status(e, apply_event(e, ev).0.status),
        (e.status is Done || e.status is Error) ==> apply_event(e, ev).0 == e,
{
}

/// Whatever the events, a done or failed job stays as it is.
pub proof fn law_finished_jobs_never_change(e: JobEntryView, evs: Seq<JobEvent>)
    requires
        e.status is Done || e.status is Error,
    ensures
        after_events(e, evs) == e,
    decreases evs.len(),
{
    if evs.len() > 0 {
        law_finished_jobs_never_change(apply_event(e, evs[0]).0, evs.drop_first());
    }
}

/// At most one decryption is started per job, whatever the events: only
/// the first claim on a pending job succeeds, and a job that is no longer
/// pending is never claimed.
pub proof fn law_at_most_one_decryption_per_job(e: JobEntryView, evs: Seq<JobEvent>)
    ensures
        claims_won(e, evs) <= 1,
        !(e.status is Pending) ==> claims_won(e, evs) == 0,
    decreases evs.len(),
{
    if evs.len() > 0 {
        let step = apply_event(e, evs[0]);
        law_at_most_one_decryption_per_job(step.0, evs.drop_first());
        if e.status is Pending && evs[0] is Claim {
            assert(!(step.0.status is Pending));
        }
    }
}

} // verus!

verus! {

// ---------------------------------------------------------------------------
// The stored IP list of a usecase-1 job

pub open spec fn strings_view(v: Seq<String>) -> Seq<Seq<char>> {
    v.map_values(|s: String| s@)
}

/// The list of strings that `serde_json::from_slice::<Vec<String>>` reads
/// from `bytes`, or `None` where it reads none.
pub uninterp spec fn json_string_list(bytes: Seq<u8>) -> Option<Seq<Seq<char>>>;

/// The bytes that `serde_json::to_vec` writes for a list of strings.
pub uninterp spec fn json_of_string_list(list: Seq<Seq<char>>) -> Seq<u8>;

/// Reads a JSON array of strings (wraps
/// `serde_json::from_slice::<Vec<String>>(bytes).ok()`). The contract only
/// names the result; the JSON grammar is not written out here.
#[verifier::external_body]
fn parse_string_list(bytes: &[u8]) -> (r: Option<Vec<String>>)
    ensures
        r is None <==> json_string_list(bytes@) is None,
        r matches Some(v) ==> json_string_list(bytes@) == Some(strings_view(v@)),
{
    serde_json::from_slice::<Vec<String>>(bytes).ok()
}

/// Writes a list of strings as a JSON array (wraps `serde_json::to_vec`,
/// with the error turned into its text). The contract claims that writing
/// succeeds (the crate fails only where a `Serialize` impl fails or a map
/// has non-string keys, neither of which a list of strings has), names the
/// bytes, and claims that `serde_json` reads back from them the same strings.
#[verifier::external_body]
fn write_string_list(list: &Vec<String>) -> (r: Result<Vec<u8>, String>)
    ensures
        r is Ok,
        r matches Ok(b) ==> b@ == json_of_string_list(strings_view(list@)),
        r matches Ok(b) ==> json_string_list(b@) == Some(strings_view(list@)),
{
    serde_json::to_vec(list).map_err(|e| e.to_string())
}

/// The IP list read back from a job's file: the strings the file holds
/// as a JSON array, or none where the file is missing or is no such array.
pub open spec fn job_ips_spec(contents: Option<Seq<u8>>) -> Seq<Seq<char>> {
    match contents {
        Some(b) => match json_string_list(b) {
            Some(list) => list,
            None => Seq::empty(),
        },
        None => Seq::empty(),
    }
}

/// Reads the IP list of a job from the contents of its file (`None` where
/// the file could not be read).
pub fn job_ips_from_file(contents: Option<Vec<u8>>) -> (r: Vec<String>)
    ensures
        strings_view(r@) == job_ips_spec(
            match contents {
                Some(b) => Some(b@),
                None => None,
            },
        ),
{
    match contents {
        None => Vec::new(),
        Some(bytes) => match parse_string_list(bytes.as_slice()) {
            Some(list) => list,
            None => {
                let v: Vec<String> = Vec::new();
                assert(strings_view(v@) =~= Seq::<Seq<char>>::empty());
                v
            },
        },
    }
}

/// The contents of the file in which a job's IP list is kept: always
/// written, and read back as the same list.
pub fn job_ips_file_contents(ips: &Vec<String>) -> (r: Result<Vec<u8>, AppError>)
    ensures
        r matches Ok(b) ==> b@ == json_of_string_list(strings_view(ips@)),
        r matches Ok(b) ==> job_ips_spec(Some(b@)) == strings_view(ips@),
        r is Ok,
{
    match write_string_list(ips) {
        Ok(b) => Ok(b),
        Err(msg) => Err(AppError::Internal(msg)),
    }
}

} // verus!
