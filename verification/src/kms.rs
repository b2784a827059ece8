use vstd::prelude::*;
use vstd::string::*;

verus! {

/// The mode of the KMS.
#[derive(Clone, Copy, Debug, PartialEq, Eq, Structural)]
pub enum KmsType {
    Centralized,
    Threshold,
}

/// One KMS server of the client configuration.
#[derive(Clone, Default, Debug, Hash, PartialEq, Eq)]
pub struct CoreConf {
    /// The ID of the given KMS server (monotonically increasing positive integer starting at 1)
    pub party_id: usize,
    /// The address of the given KMS server, including the port
    pub address: String,
    /// The S3 endpoint where the public material of the given server can be reached
    pub s3_endpoint: String,
    /// The folder at the S3 endpoint where the data is stored.
    pub object_folder: String,
}

pub struct CoreConfView {
    pub party_id: usize,
    pub address: Seq<char>,
    pub s3_endpoint: Seq<char>,
    pub object_folder: Seq<char>,
}

impl View for CoreConf {
    type V = CoreConfView;

    open spec fn view(&self) -> CoreConfView {
        CoreConfView {
            party_id: self.party_id,
            address: self.address@,
            s3_endpoint: self.s3_endpoint@,
            object_folder: self.object_folder@,
        }
    }
}

pub open spec fn cores_view(cores: Seq<CoreConf>) -> Seq<CoreConfView> {
    cores.map_values(|c: CoreConf| c@)
}

impl CoreConf {
    /// A field-by-field copy.
    pub fn copy(&self) -> (r: CoreConf)
        ensures
            r@ == self@,
    {
        CoreConf {
            party_id: self.party_id,
            address: self.address.clone(),
            s3_endpoint: self.s3_endpoint.clone(),
            object_folder: self.object_folder.clone(),
        }
    }
}

/// The addresses of the cores.
pub open spec fn core_addresses(cores: Seq<CoreConfView>) -> Seq<Seq<char>> {
    cores.map_values(|c: CoreConfView| c.address)
}

/// The cores of `extra` whose address is not among those of `cores`.
pub open spec fn new_cores(cores: Seq<CoreConfView>, extra: Seq<CoreConfView>) -> Seq<CoreConfView> {
    extra.filter(|c: CoreConfView| !core_addresses(cores).contains(c.address))
}

/// Whether a core of `cores` has the address `address`.
fn address_known(cores: &Vec<CoreConf>, address: &String) -> (r: bool)
    ensures
        r == core_addresses(cores_view(cores@)).contains(address@),
{
    let n = cores.len();
    let mut i: usize = 0;
    while i < n
        invariant
            n == cores@.len(),
            i <= n,
            forall|j: int| 0 <= j < i ==> cores@[j].address@ != address@,
        decreases n - i,
    {
        if cores[i].address == *address {
            assert(core_addresses(cores_view(cores@))[i as int] == address@);
            return true;
        }
        i = i + 1;
    }
    proof {
        if core_addresses(cores_view(cores@)).contains(address@) {
            let k = choose|k: int|
                0 <= k < core_addresses(cores_view(cores@)).len() && core_addresses(
                    cores_view(cores@),
                )[k] == address@;
            assert(cores@[k].address@ == address@);
        }
    }
    false
}

/// Joins two lists of cores read from the client configuration: the cores
/// of `extra` whose address is already known are dropped, the others are
/// appended, in order.
pub fn merge_cores(cores: Vec<CoreConf>, extra: &Vec<CoreConf>) -> (r: Vec<CoreConf>)
    ensures
        cores_view(r@) == cores_view(cores@) + new_cores(cores_view(cores@), cores_view(extra@)),
{
    let ghost known = cores_view(cores@);
    let ghost ex = cores_view(extra@);
    let ghost pred = |c: CoreConfView| !core_addresses(known).contains(c.address);
    let mut added: Vec<CoreConf> = Vec::new();
    let n = extra.len();
    let mut i: usize = 0;
    while i < n
        invariant
            n == extra@.len(),
            i <= n,
            known == cores_view(cores@),
            ex == cores_view(extra@),
            pred == (|c: CoreConfView| !core_addresses(known).contains(c.address)),
            cores_view(added@) == ex.take(i as int).filter(pred),
        decreases n - i,
    {
        reveal_with_fuel(Seq::<_>::filter, 1);
        assert(ex.take(i + 1).drop_last() =~= ex.take(i as int));
        assert(ex.take(i + 1).last() == extra@[i as int]@);
        if !address_known(&cores, &extra[i].address) {
            let c = extra[i].copy();
            added.push(c);
            assert(cores_view(added@) =~= ex.take(i as int).filter(pred).push(extra@[i as int]@));
        }
        i = i + 1;
    }
    assert(ex.take(n as int) =~= ex);
    let mut out = cores;
    let ghost before = out@;
    let mut added = added;
    out.append(&mut added);
    assert(cores_view(out@) =~= cores_view(before) + new_cores(known, ex));
    out
}

/// The URL of a core: its address, with `http://` put in front unless it
/// already starts so.
pub open spec fn core_url_spec(address: Seq<char>) -> Seq<char> {
    if address.len() >= 7 && address.subrange(0, 7) == "http://"@ {
        address
    } else {
        "http://"@ + address
    }
}

/// Makes sure the address of a core starts with `http://`.
pub fn core_url(address: &String) -> (r: String)
    ensures
        r@ == core_url_spec(address@),
{
    let prefix = "http://";
    proof {
        reveal_strlit("http://");
    }
    let s = address.as_str();
    let len = s.unicode_len();
    let mut starts = len >= 7;
    let mut i: usize = 0;
    while starts && i < 7
        invariant
            len == s@.len(),
            s@ == address@,
            prefix@ == "http://"@,
            prefix@.len() == 7,
            i <= 7,
            starts ==> len >= 7,
            starts ==> forall|j: int| 0 <= j < i ==> s@[j] == prefix@[j],
            !starts ==> !(len >= 7 && s@.subrange(0, 7) == prefix@),
        decreases 7 - i,
    {
        if s.get_char(i) != prefix.get_char(i) {
            starts = false;
            proof {
                if len >= 7 && s@.subrange(0, 7) == prefix@ {
                    assert(s@.subrange(0, 7)[i as int] == s@[i as int]);
                }
            }
        }
        i = i + 1;
    }
    if starts {
        assert(s@.subrange(0, 7) =~= prefix@);
        address.clone()
    } else {
        let mut url = prefix.to_string();
        url.append(s);
        url
    }
}

/// The fault tolerance and the quorum of a decryption among `num_parties`
/// servers: `threshold = (num_parties - 1) / 3` servers may be faulty, and
/// `num_parties - threshold` answers are awaited.
pub fn decryption_quorum(num_parties: usize) -> (r: (usize, usize))
    requires
        num_parties >= 1,
    ensures
        r.0 == (num_parties - 1) / 3,
        r.1 == num_parties - r.0,
        r.1 >= 2 * r.0 + 1,
        1 <= r.1 <= num_parties,
{
    let threshold = (num_parties - 1) / 3;
    let min_responses_needed = num_parties - threshold;
    (threshold, min_responses_needed)
}

} // verus!

verus! {

// ---------------------------------------------------------------------------
// Collecting the decryption answers of the cores

/// How often an unavailable core is asked again before the client gives up.
pub const MAX_POLL_RETRIES: usize = 100;

/// What asking a core for its decryption answer gave.
#[derive(Clone, Copy, Debug, PartialEq, Eq, Structural)]
pub enum PollResult {
    /// The core has no answer yet (`tonic::Code::Unavailable`).
    Unavailable,
    /// The core answered.
    Answered,
}

/// What the client does next while collecting answers.
#[derive(Clone, Copy, Debug, PartialEq, Eq, Structural)]
pub enum CollectAction {
    /// Ask core `core` for its answer.
    Poll { core: usize },
    /// Wait a moment, then ask core `core` again.
    PauseAndPoll { core: usize },
    /// Stop collecting: enough answers arrived, or every core answered.
    Finished,
    /// A core stayed unavailable through every retry.
    TimedOut,
}

/// The progress of collecting answers from `num_cores` cores, of which
/// `needed` are awaited: `core` is the core being asked, `retries` how
/// often it has been asked again, `received` how many answers arrived.
#[derive(Clone, Copy, Debug, PartialEq, Eq, Structural)]
pub struct ResponseCollector {
    pub num_cores: usize,
    pub needed: usize,
    pub core: usize,
    pub retries: usize,
    pub received: usize,
}

impl ResponseCollector {
    /// Every core before `core` answered once; a core is asked again at
    /// most `MAX_POLL_RETRIES` times.
    pub open spec fn wf(self) -> bool {
        &&& self.core <= self.num_cores
        &&& self.received == self.core
        &&& self.retries <= MAX_POLL_RETRIES
    }

    /// The collector still waits for an answer from `core`.
    pub open spec fn awaiting(self) -> bool {
        self.core < self.num_cores
    }

    /// Starts collecting: the first core is asked, if there is one (even
    /// when no answer is needed, the first answer is awaited).
    pub fn start(num_cores: usize, needed: usize) -> (r: (ResponseCollector, CollectAction))
        ensures
            r.0 == (ResponseCollector { num_cores, needed, core: 0, retries: 0, received: 0 }),
            r.0.wf(),
            r.1 == if num_cores == 0 {
                CollectAction::Finished
            } else {
                CollectAction::Poll { core: 0 }
            },
    {
        let c = ResponseCollector { num_cores, needed, core: 0, retries: 0, received: 0 };
        if num_cores == 0 {
            (c, CollectAction::Finished)
        } else {
            (c, CollectAction::Poll { core: 0 })
        }
    }

    /// Takes in what asking the current core gave. An unavailable core is
    /// asked again after a pause, up to `MAX_POLL_RETRIES` times; an answer
    /// is counted, and the next core is asked unless `needed` answers are in
    /// or no core is left.
    pub fn on_poll(&mut self, result: PollResult) -> (a: CollectAction)
        requires
            old(self).wf(),
            old(self).awaiting(),
        ensures
            (*final(self), a) == collect_step_spec(*old(self), result),
            final(self).wf(),
            final(self).num_cores == old(self).num_cores,
            final(self).needed == old(self).needed,
            result == PollResult::Unavailable && old(self).retries >= MAX_POLL_RETRIES ==> a
                == CollectAction::TimedOut && *final(self) == *old(self),
            result == PollResult::Unavailable && old(self).retries < MAX_POLL_RETRIES ==> a
                == (CollectAction::PauseAndPoll { core: old(self).core }) && *final(self) == (
            ResponseCollector { retries: (old(self).retries + 1) as usize, ..*old(self) }),
            result == PollResult::Answered ==> *final(self) == (ResponseCollector {
                core: (old(self).core + 1) as usize,
                retries: 0,
                received: (old(self).received + 1) as usize,
                ..*old(self)
            }),
            result == PollResult::Answered ==> a == if old(self).received + 1 >= old(self).needed
                || old(self).core + 1 == old(self).num_cores {
                CollectAction::Finished
            } else {
                CollectAction::Poll { core: (old(self).core + 1) as usize }
            },
    {
        match result {
            PollResult::Unavailable => {
                if self.retries >= MAX_POLL_RETRIES {
                    CollectAction::TimedOut
                } else {
                    self.retries = self.retries + 1;
                    CollectAction::PauseAndPoll { core: self.core }
                }
            },
            PollResult::Answered => {
                self.received = self.received + 1;
                self.core = self.core + 1;
                self.retries = 0;
                if self.received >= self.needed || self.core == self.num_cores {
                    CollectAction::Finished
                } else {
                    CollectAction::Poll { core: self.core }
                }
            },
        }
    }
}

} // verus!

verus! {

// ---------------------------------------------------------------------------
// Fetching the public elements of the cores

/// What the client does next while fetching the public elements.
#[derive(Clone, Copy, Debug, PartialEq, Eq, Structural)]
pub enum FetchAction {
    /// Fetch element `element` from core `core`.
    Fetch { core: usize, element: usize },
    /// Stop: at least one core gave every element (they are listed in the plan).
    Succeeded,
    /// Stop: no core gave every element.
    Failed,
}

/// The progress of fetching `num_elements` public elements from each of
/// `num_cores` cores: core `core` is being asked for element `element`, and
/// `succeeded` lists, in order, the cores that gave every element. Unless
/// `download_all`, the first such core is enough.
pub struct FetchPlan {
    pub num_cores: usize,
    pub num_elements: usize,
    pub download_all: bool,
    pub core: usize,
    pub element: usize,
    pub succeeded: Vec<usize>,
}

pub struct FetchPlanView {
    pub num_cores: nat,
    pub num_elements: nat,
    pub download_all: bool,
    pub core: nat,
    pub element: nat,
    pub succeeded: Seq<usize>,
}

impl View for FetchPlan {
    type V = FetchPlanView;

    open spec fn view(&self) -> FetchPlanView {
        FetchPlanView {
            num_cores: self.num_cores as nat,
            num_elements: self.num_elements as nat,
            download_all: self.download_all,
            core: self.core as nat,
            element: self.element as nat,
            succeeded: self.succeeded@,
        }
    }
}

/// The end of the fetching, by whether some core gave every element.
pub open spec fn fetch_verdict(p: FetchPlanView) -> FetchAction {
    if p.succeeded.len() > 0 {
        FetchAction::Succeeded
    } else {
        FetchAction::Failed
    }
}

/// Where fetching goes on when it moves to core `c`: past the last core it
/// ends; with no element to fetch the core gives them all at once (and,
/// unless `download_all`, ends the fetching); else element 0 of core `c` is
/// fetched.
pub open spec fn settle_spec(p: FetchPlanView, c: nat) -> (FetchPlanView, FetchAction)
    decreases p.num_cores - c,
{
    if c >= p.num_cores {
        let q = FetchPlanView { core: p.num_cores, element: 0, ..p };
        (q, fetch_verdict(q))
    } else if p.num_elements == 0 {
        let q = FetchPlanView { core: c, element: 0, succeeded: p.succeeded.push(c as usize), ..p };
        if !p.download_all {
            (q, FetchAction::Succeeded)
        } else {
            settle_spec(q, c + 1)
        }
    } else {
        (FetchPlanView { core: c, element: 0, ..p }, FetchAction::Fetch { core: c as usize, element: 0 })
    }
}

/// One step of the fetching, after element `element` of core `core` was
/// fetched (`ok`) or not: the next element of the same core follows; a
/// core that gave its last element is recorded and, unless
/// `download_all`, ends the fetching; a core that failed is left for the
/// next one.
pub open spec fn fetch_step_spec(p: FetchPlanView, ok: bool) -> (FetchPlanView, FetchAction) {
    if ok && p.element + 1 < p.num_elements {
        (
            FetchPlanView { element: p.element + 1, ..p },
            FetchAction::Fetch { core: p.core as usize, element: (p.element + 1) as usize },
        )
    } else if ok {
        let q = FetchPlanView { succeeded: p.succeeded.push(p.core as usize), ..p };
        if !p.download_all {
            (q, FetchAction::Succeeded)
        } else {
            settle_spec(q, p.core + 1)
        }
    } else {
        settle_spec(p, p.core + 1)
    }
}

impl FetchPlan {
    /// The cores listed as successful are increasing and lie before `core`
    /// (or are `core` itself once it gave every element).
    pub open spec fn wf(self) -> bool {
        &&& self.core <= self.num_cores
        &&& self.num_cores < usize::MAX
        &&& forall|i: int| 0 <= i < self.succeeded@.len() ==> #[trigger] self.succeeded@[i] <= self.core
        &&& forall|i: int, j: int|
            0 <= i < j < self.succeeded@.len() ==> self.succeeded@[i] < self.succeeded@[j]
    }

    /// The plan waits for the outcome of fetching element `element` of core `core`.
    pub open spec fn awaiting(self) -> bool {
        self.core < self.num_cores && self.element < self.num_elements
            && forall|i: int| 0 <= i < self.succeeded@.len() ==> #[trigger] self.succeeded@[i] < self.core
    }

    fn settle(&mut self, start: usize) -> (a: FetchAction)
        requires
            old(self).wf(),
            start <= old(self).num_cores,
            forall|i: int|
                0 <= i < old(self).succeeded@.len() ==> #[trigger] old(self).succeeded@[i] < start,
        ensures
            (final(self)@, a) == settle_spec(old(self)@, start as nat),
            final(self).wf(),
            a is Fetch ==> final(self).awaiting(),
    {
        let mut c = start;
        while c < self.num_cores && self.num_elements == 0
            invariant
                self.wf(),
                c <= self.num_cores,
                self.num_cores == old(self).num_cores,
                self.num_elements == old(self).num_elements,
                self.download_all == old(self).download_all,
                forall|i: int| 0 <= i < self.succeeded@.len() ==> #[trigger] self.succeeded@[i] < c,
                start <= c,
                settle_spec(old(self)@, start as nat) == settle_spec(self@, c as nat),
            decreases self.num_cores - c,
        {
            let ghost prev = self@;
            self.core = c;
            self.element = 0;
            self.succeeded.push(c);
            assert(self@ == FetchPlanView {
                core: c as nat,
                element: 0,
                succeeded: prev.succeeded.push(c),
                ..prev
            });
            if !self.download_all {
                return FetchAction::Succeeded;
            }
            assert(settle_spec(prev, c as nat) == settle_spec(self@, (c + 1) as nat));
            c = c + 1;
        }
        let ghost prev = self@;
        if c >= self.num_cores {
            self.core = self.num_cores;
            self.element = 0;
            assert(self@ == FetchPlanView { core: prev.num_cores, element: 0, ..prev });
            if self.succeeded.len() > 0 {
                FetchAction::Succeeded
            } else {
                FetchAction::Failed
            }
        } else {
            self.core = c;
            self.element = 0;
            assert(self@ == FetchPlanView { core: c as nat, element: 0, ..prev });
            FetchAction::Fetch { core: c, element: 0 }
        }
    }

    /// Starts fetching: the first element of the first core, if there is one
    /// to fetch.
    pub fn start(num_cores: usize, num_elements: usize, download_all: bool) -> (r: (FetchPlan, FetchAction))
        requires
            num_cores < usize::MAX,
        ensures
            (r.0@, r.1) == settle_spec(
                FetchPlanView {
                    num_cores: num_cores as nat,
                    num_elements: num_elements as nat,
                    download_all,
                    core: 0,
                    element: 0,
                    succeeded: Seq::empty(),
                },
                0,
            ),
            r.0.wf(),
            r.1 is Fetch ==> r.0.awaiting(),
    {
        let mut p = FetchPlan {
            num_cores,
            num_elements,
            download_all,
            core: 0,
            element: 0,
            succeeded: Vec::new(),
        };
        let a = p.settle(0);
        (p, a)
    }

    /// Takes in whether the awaited element was fetched.
    pub fn on_fetched(&mut self, ok: bool) -> (a: FetchAction)
        requires
            old(self).wf(),
            old(self).awaiting(),
        ensures
            (final(self)@, a) == fetch_step_spec(old(self)@, ok),
            final(self).wf(),
            a is Fetch ==> final(self).awaiting(),
    {
        if ok && self.element + 1 < self.num_elements {
            self.element = self.element + 1;
            return FetchAction::Fetch { core: self.core, element: self.element };
        }
        if ok {
            let core = self.core;
            self.succeeded.push(core);
            if !self.download_all {
                return FetchAction::Succeeded;
            }
        }
        let next = self.core + 1;
        self.settle(next)
    }
}

} // verus!

verus! {

/// Joining a list of cores with itself adds nothing: every core's address is
/// already known. (The KMS client reads the same configuration twice and
/// joins the two lists.)
pub proof fn law_merge_with_itself_adds_nothing(cores: Seq<CoreConfView>)
    ensures
        cores + new_cores(cores, cores) == cores,
{
    let pred = |c: CoreConfView| !core_addresses(cores).contains(c.address);
    assert forall|i: int| 0 <= i < cores.len() implies !pred(#[trigger] cores[i]) by {
        assert(core_addresses(cores)[i] == cores[i].address);
    }
    assert(cores.all(|x: CoreConfView| !pred(x)));
    cores.lemma_all_neg_filter_empty(pred);
    assert(new_cores(cores, cores) =~= Seq::<CoreConfView>::empty());
    assert(cores + Seq::<CoreConfView>::empty() =~= cores);
}

/// A core whose full address no core of `cores` has is kept: joining it to
/// `cores` appends it, whatever the addresses have in common otherwise.
pub proof fn law_unknown_core_is_appended(cores: Seq<CoreConfView>, c: CoreConfView)
    requires
        forall|k: int| 0 <= k < cores.len() ==> cores[k].address != c.address,
    ensures
        cores + new_cores(cores, seq![c]) == cores.push(c),
{
    reveal_with_fuel(Seq::<CoreConfView>::filter, 2);
    if core_addresses(cores).contains(c.address) {
        let k = choose|k: int|
            0 <= k < core_addresses(cores).len() && core_addresses(cores)[k] == c.address;
        assert(cores[k].address == c.address);
    }
    assert(seq![c].drop_last() =~= Seq::<CoreConfView>::empty());
    assert(new_cores(cores, seq![c]) =~= seq![c]);
    assert(cores + seq![c] =~= cores.push(c));
}

/// A core whose address a core of `cores` already has is dropped: joining it
/// to `cores` leaves them as they were.
pub proof fn law_known_core_is_dropped(cores: Seq<CoreConfView>, c: CoreConfView, k: int)
    requires
        0 <= k < cores.len(),
        cores[k].address == c.address,
    ensures
        cores + new_cores(cores, seq![c]) == cores,
{
    reveal_with_fuel(Seq::<CoreConfView>::filter, 2);
    assert(core_addresses(cores)[k] == c.address);
    assert(seq![c].drop_last() =~= Seq::<CoreConfView>::empty());
    assert(new_cores(cores, seq![c]) =~= Seq::<CoreConfView>::empty());
    assert(cores + Seq::<CoreConfView>::empty() =~= cores);
}

/// The extra cores are judged one by one against `cores` alone: joining two
/// lists in turn keeps what joining each keeps, in order.
pub proof fn law_new_cores_of_joined_lists(
    cores: Seq<CoreConfView>,
    first: Seq<CoreConfView>,
    second: Seq<CoreConfView>,
)
    ensures
        new_cores(cores, first + second) == new_cores(cores, first) + new_cores(cores, second),
{
    let pred = |c: CoreConfView| !core_addresses(cores).contains(c.address);
    Seq::filter_distributes_over_add(first, second, pred);
}

/// Every extra core whose address is not that of a core of `cores` is among
/// the new cores, and every new core is an extra core with such an address.
pub proof fn law_new_cores_are_the_unknown_extras(
    cores: Seq<CoreConfView>,
    extra: Seq<CoreConfView>,
)
    ensures
        forall|j: int|
            0 <= j < extra.len() && (forall|k: int|
                0 <= k < cores.len() ==> cores[k].address != extra[j].address) ==> new_cores(
                cores,
                extra,
            ).contains(#[trigger] extra[j]),
        forall|c: CoreConfView| #[trigger]
            new_cores(cores, extra).contains(c) ==> extra.contains(c) && forall|k: int|
                0 <= k < cores.len() ==> cores[k].address != c.address,
{
    let pred = |c: CoreConfView| !core_addresses(cores).contains(c.address);
    assert forall|j: int|
        0 <= j < extra.len() && (forall|k: int|
            0 <= k < cores.len() ==> cores[k].address != extra[j].address) implies new_cores(
        cores,
        extra,
    ).contains(#[trigger] extra[j]) by {
        if core_addresses(cores).contains(extra[j].address) {
            let k = choose|k: int|
                0 <= k < core_addresses(cores).len() && core_addresses(cores)[k]
                    == extra[j].address;
            assert(cores[k].address == extra[j].address);
        }
        extra.lemma_filter_contains(pred, j);
    }
    assert forall|c: CoreConfView| #[trigger]
        new_cores(cores, extra).contains(c) implies extra.contains(c) && forall|k: int|
        0 <= k < cores.len() ==> cores[k].address != c.address by {
        extra.lemma_filter_contains_rev(pred, c);
        let i = choose|i: int| 0 <= i < extra.filter(pred).len() && extra.filter(pred)[i] == c;
        extra.lemma_filter_pred(pred, i);
        assert forall|k: int| 0 <= k < cores.len() implies cores[k].address != c.address by {
            assert(core_addresses(cores)[k] == cores[k].address);
        }
    }
}

/// Every core URL starts with `http://`.
pub proof fn law_core_url_starts_with_scheme(address: Seq<char>)
    ensures
        "http://"@.is_prefix_of(core_url_spec(address)),
{
    reveal_strlit("http://");
    if !(address.len() >= 7 && address.subrange(0, 7) == "http://"@) {
        assert(("http://"@ + address).subrange(0, 7) =~= "http://"@);
    }
}

/// An address that does not start with `http://` gets it put in front and is
/// otherwise kept, character for character.
pub proof fn law_core_url_adds_missing_scheme(address: Seq<char>)
    requires
        !"http://"@.is_prefix_of(address),
    ensures
        core_url_spec(address) == "http://"@ + address,
{
    reveal_strlit("http://");
}

/// An address that already starts with `http://` is its own URL.
pub proof fn law_core_url_keeps_present_scheme(address: Seq<char>)
    requires
        "http://"@.is_prefix_of(address),
    ensures
        core_url_spec(address) == address,
{
    reveal_strlit("http://");
}

/// Making a URL of a core URL changes nothing.
pub proof fn law_core_url_is_idempotent(address: Seq<char>)
    ensures
        core_url_spec(core_url_spec(address)) == core_url_spec(address),
{
    law_core_url_starts_with_scheme(address);
    law_core_url_keeps_present_scheme(core_url_spec(address));
}

} // verus!

verus! {

// ---------------------------------------------------------------------------
// What a whole run of the fetching gives

/// Core `c` gives every one of the `num_elements` elements, where
/// `ok(c, e)` tells whether element `e` of core `c` can be fetched.
pub open spec fn core_complete(ok: spec_fn(int, int) -> bool, c: int, num_elements: nat) -> bool {
    forall|e: int| 0 <= e < num_elements ==> #[trigger] ok(c, e)
}

pub open spec fn complete_pred(ok: spec_fn(int, int) -> bool, num_elements: nat) -> spec_fn(usize) -> bool {
    |c: usize| core_complete(ok, c as int, num_elements)
}

pub open spec fn core_indices(n: nat) -> Seq<usize> {
    Seq::new(n, |i: int| i as usize)
}

/// The cores before `n` that give every element, in order.
pub open spec fn complete_cores(ok: spec_fn(int, int) -> bool, n: nat, num_elements: nat) -> Seq<usize> {
    core_indices(n).filter(complete_pred(ok, num_elements))
}

/// The cores a fetching should list: every core that gives every element,
/// or, unless `download_all`, only the first of them.
pub open spec fn expected_cores(
    ok: spec_fn(int, int) -> bool,
    num_cores: nat,
    num_elements: nat,
    download_all: bool,
) -> Seq<usize> {
    let all = complete_cores(ok, num_cores, num_elements);
    if download_all || all.len() == 0 {
        all
    } else {
        seq![all[0]]
    }
}

/// Runs the fetching for at most `fuel` fetches, each answered by `ok`.
pub open spec fn run_fetch(
    p: FetchPlanView,
    a: FetchAction,
    ok: spec_fn(int, int) -> bool,
    fuel: nat,
) -> (FetchPlanView, FetchAction)
    decreases fuel,
{
    match a {
        FetchAction::Fetch { core, element } => if fuel == 0 {
            (p, a)
        } else {
            let next = fetch_step_spec(p, ok(core as int, element as int));
            run_fetch(next.0, next.1, ok, (fuel - 1) as nat)
        },
        _ => (p, a),
    }
}

/// The fetching so far agrees with `ok` for the cores before `c`.
pub open spec fn progress_ok(p: FetchPlanView, ok: spec_fn(int, int) -> bool, c: nat) -> bool {
    if p.download_all {
        p.succeeded == complete_cores(ok, c, p.num_elements)
    } else {
        p.succeeded.len() == 0 && complete_cores(ok, c, p.num_elements).len() == 0
    }
}

pub open spec fn fetch_inv(p: FetchPlanView, a: FetchAction, ok: spec_fn(int, int) -> bool) -> bool {
    match a {
        FetchAction::Fetch { core, element } => {
            &&& p.core == core
            &&& p.element == element
            &&& core < p.num_cores
            &&& element < p.num_elements
            &&& forall|e: int| 0 <= e < element ==> #[trigger] ok(core as int, e)
            &&& progress_ok(p, ok, core as nat)
        },
        _ => {
            &&& p.succeeded == expected_cores(ok, p.num_cores, p.num_elements, p.download_all)
            &&& (a == FetchAction::Succeeded <==> p.succeeded.len() > 0)
        },
    }
}

/// How many fetches are left at most.
pub open spec fn fetch_measure(p: FetchPlanView, a: FetchAction) -> nat {
    match a {
        FetchAction::Fetch { core, element } => ((p.num_cores - core) * p.num_elements - element) as nat,
        _ => 0,
    }
}

proof fn lemma_complete_cores_step(ok: spec_fn(int, int) -> bool, c: nat, num_elements: nat)
    requires
        c < usize::MAX,
    ensures
        complete_cores(ok, c + 1, num_elements) == if core_complete(ok, c as int, num_elements) {
            complete_cores(ok, c, num_elements).push(c as usize)
        } else {
            complete_cores(ok, c, num_elements)
        },
{
    reveal_with_fuel(Seq::<_>::filter, 1);
    assert(core_indices(c + 1).drop_last() =~= core_indices(c));
    assert(core_indices(c + 1).last() == c as usize);
}

proof fn lemma_complete_cores_prefix(ok: spec_fn(int, int) -> bool, c: nat, n: nat, num_elements: nat)
    requires
        c <= n,
    ensures
        complete_cores(ok, n, num_elements) == complete_cores(ok, c, num_elements) + core_indices(
            n,
        ).subrange(c as int, n as int).filter(complete_pred(ok, num_elements)),
{
    broadcast use vstd::seq::Seq::filter_distributes_over_add;

    assert(core_indices(n) =~= core_indices(c) + core_indices(n).subrange(c as int, n as int));
}

proof fn lemma_settle_inv(p: FetchPlanView, ok: spec_fn(int, int) -> bool, c: nat)
    requires
        progress_ok(p, ok, c),
        c <= p.num_cores,
        p.num_cores < usize::MAX,
        p.num_elements <= usize::MAX,
    ensures
        fetch_inv(settle_spec(p, c).0, settle_spec(p, c).1, ok),
        settle_spec(p, c).0.num_cores == p.num_cores,
        settle_spec(p, c).0.num_elements == p.num_elements,
        settle_spec(p, c).0.download_all == p.download_all,
        settle_spec(p, c).1 matches FetchAction::Fetch { core, element } ==> core >= c && element == 0,
    decreases p.num_cores - c,
{
    if c >= p.num_cores {
        let q = FetchPlanView { core: p.num_cores, element: 0, ..p };
        if !p.download_all {
            assert(complete_cores(ok, p.num_cores, p.num_elements).len() == 0);
        }
        assert(q.succeeded == expected_cores(ok, q.num_cores, q.num_elements, q.download_all));
    } else if p.num_elements == 0 {
        let q = FetchPlanView { core: c, element: 0, succeeded: p.succeeded.push(c as usize), ..p };
        lemma_complete_cores_step(ok, c, p.num_elements);
        assert(core_complete(ok, c as int, p.num_elements));
        if !p.download_all {
            lemma_complete_cores_prefix(ok, c + 1, p.num_cores, p.num_elements);
            assert(complete_cores(ok, c + 1, p.num_elements) =~= seq![c as usize]);
            assert(complete_cores(ok, p.num_cores, p.num_elements)[0] == c as usize);
            assert(q.succeeded =~= seq![c as usize]);
        } else {
            lemma_settle_inv(q, ok, c + 1);
        }
    } else {
    }
}

proof fn lemma_fetch_step_inv(p: FetchPlanView, a: FetchAction, ok: spec_fn(int, int) -> bool)
    requires
        fetch_inv(p, a, ok),
        a is Fetch,
        p.num_cores < usize::MAX,
        p.num_elements <= usize::MAX,
    ensures
        fetch_inv(
            fetch_step_spec(p, ok(a->core as int, a->element as int)).0,
            fetch_step_spec(p, ok(a->core as int, a->element as int)).1,
            ok,
        ),
        fetch_measure(
            fetch_step_spec(p, ok(a->core as int, a->element as int)).0,
            fetch_step_spec(p, ok(a->core as int, a->element as int)).1,
        ) < fetch_measure(p, a),
{
    let c = p.core;
    let e = p.element;
    let good = ok(c as int, e as int);
    let n = p.num_cores;
    let m = p.num_elements;
    assert((n - c) * m >= m) by (nonlinear_arith)
        requires
            n - c >= 1,
    ;
    assert(fetch_measure(p, a) == (n - c) * m - e);
    assert(a == FetchAction::Fetch { core: c as usize, element: e as usize });
    if good && e + 1 < m {
        let q = FetchPlanView { element: e + 1, ..p };
        assert(fetch_step_spec(p, good) == (q, FetchAction::Fetch { core: c as usize, element: (e + 1) as usize }));
        assert forall|x: int| 0 <= x < e + 1 implies #[trigger] ok(c as int, x) by {
            if x < e {
            } else {
                assert(x == e);
            }
        }
        assert(fetch_inv(q, FetchAction::Fetch { core: c as usize, element: (e + 1) as usize }, ok));
    } else if good {
        assert(core_complete(ok, c as int, m)) by {
            assert forall|x: int| 0 <= x < m implies #[trigger] ok(c as int, x) by {
                if x < e {
                } else {
                    assert(x == e);
                }
            }
        }
        lemma_complete_cores_step(ok, c, m);
        let q = FetchPlanView { succeeded: p.succeeded.push(c as usize), ..p };
        if !p.download_all {
            lemma_complete_cores_prefix(ok, c + 1, n, m);
            assert(complete_cores(ok, c + 1, m) =~= seq![c as usize]);
            assert(complete_cores(ok, n, m)[0] == c as usize);
            assert(q.succeeded =~= seq![c as usize]);
        } else {
            lemma_settle_inv(q, ok, c + 1);
            let r = settle_spec(q, c + 1);
            if r.1 is Fetch {
                let c2 = r.1->core;
                assert((n - c2) * m <= (n - c - 1) * m) by (nonlinear_arith)
                    requires
                        c2 >= c + 1,
                        c2 <= n,
                ;
                assert((n - c - 1) * m == (n - c) * m - m) by (nonlinear_arith);
            }
        }
    } else {
        assert(!core_complete(ok, c as int, m));
        lemma_complete_cores_step(ok, c, m);
        lemma_settle_inv(p, ok, c + 1);
        let r = settle_spec(p, c + 1);
        if r.1 is Fetch {
            let c2 = r.1->core;
            assert((n - c2) * m <= (n - c - 1) * m) by (nonlinear_arith)
                requires
                    c2 >= c + 1,
                    c2 <= n,
            ;
            assert((n - c - 1) * m == (n - c) * m - m) by (nonlinear_arith);
        }
    }
}

proof fn lemma_run_fetch(p: FetchPlanView, a: FetchAction, ok: spec_fn(int, int) -> bool, fuel: nat)
    requires
        fetch_inv(p, a, ok),
        p.num_cores < usize::MAX,
        p.num_elements <= usize::MAX,
        fuel >= fetch_measure(p, a),
    ensures
        fetch_inv(run_fetch(p, a, ok, fuel).0, run_fetch(p, a, ok, fuel).1, ok),
        !(run_fetch(p, a, ok, fuel).1 is Fetch),
        run_fetch(p, a, ok, fuel).0.num_cores == p.num_cores,
        run_fetch(p, a, ok, fuel).0.num_elements == p.num_elements,
        run_fetch(p, a, ok, fuel).0.download_all == p.download_all,
    decreases fuel,
{
    if a is Fetch {
        let n = p.num_cores;
        let m = p.num_elements;
        assert((n - p.core) * m >= m) by (nonlinear_arith)
            requires
                n - p.core >= 1,
        ;
        assert(fetch_measure(p, a) > 0);
        let next = fetch_step_spec(p, ok(a->core as int, a->element as int));
        lemma_fetch_step_inv(p, a, ok);
        lemma_settle_keeps_params(p, ok(a->core as int, a->element as int));
        lemma_run_fetch(next.0, next.1, ok, (fuel - 1) as nat);
    }
}

proof fn lemma_settle_params(p: FetchPlanView, c: nat)
    ensures
        settle_spec(p, c).0.num_cores == p.num_cores,
        settle_spec(p, c).0.num_elements == p.num_elements,
        settle_spec(p, c).0.download_all == p.download_all,
    decreases p.num_cores - c,
{
    if c < p.num_cores && p.num_elements != 0 {
    } else if c < p.num_cores && p.download_all {
        let q = FetchPlanView { core: c, element: 0, succeeded: p.succeeded.push(c as usize), ..p };
        lemma_settle_params(q, c + 1);
    }
}

proof fn lemma_settle_keeps_params(p: FetchPlanView, good: bool)
    ensures
        fetch_step_spec(p, good).0.num_cores == p.num_cores,
        fetch_step_spec(p, good).0.num_elements == p.num_elements,
        fetch_step_spec(p, good).0.download_all == p.download_all,
{
    lemma_settle_params(p, p.core + 1);
    lemma_settle_params(FetchPlanView { succeeded: p.succeeded.push(p.core as usize), ..p }, p.core + 1);
}

/// What fetching the public elements gives, whatever each fetch gives
/// (`ok(c, e)` for element `e` of core `c`): after at most
/// `num_cores * num_elements` fetches it stops; it lists exactly the cores
/// that gave every element, in order (unless `download_all`, only the first
/// of them), and it succeeds exactly when that list is not empty.
pub proof fn law_fetching_lists_the_complete_cores(
    num_cores: nat,
    num_elements: nat,
    download_all: bool,
    ok: spec_fn(int, int) -> bool,
)
    requires
        num_cores < usize::MAX,
        num_elements <= usize::MAX,
    ensures
        ({
            let start = settle_spec(
                FetchPlanView {
                    num_cores,
                    num_elements,
                    download_all,
                    core: 0,
                    element: 0,
                    succeeded: Seq::empty(),
                },
                0,
            );
            let end = run_fetch(start.0, start.1, ok, num_cores * num_elements);
            &&& !(end.1 is Fetch)
            &&& end.0.succeeded == expected_cores(ok, num_cores, num_elements, download_all)
            &&& (end.1 == FetchAction::Succeeded <==> expected_cores(
                ok,
                num_cores,
                num_elements,
                download_all,
            ).len() > 0)
        }),
{
    let p0 = FetchPlanView {
        num_cores,
        num_elements,
        download_all,
        core: 0,
        element: 0,
        succeeded: Seq::empty(),
    };
    assert(core_indices(0) =~= Seq::<usize>::empty());
    reveal_with_fuel(Seq::<_>::filter, 1);
    assert(complete_cores(ok, 0, num_elements) =~= Seq::<usize>::empty());
    lemma_settle_inv(p0, ok, 0);
    let start = settle_spec(p0, 0);
    if start.1 is Fetch {
        assert(num_cores * num_elements >= (num_cores - start.1->core) * num_elements) by (
        nonlinear_arith)
            requires
                start.1->core >= 0,
                start.1->core < num_cores,
        ;
    }
    lemma_run_fetch(start.0, start.1, ok, num_cores * num_elements);
}

} // verus!

verus! {

// ---------------------------------------------------------------------------
// What a whole run of collecting answers gives

/// One step of collecting answers, as `ResponseCollector::on_poll` takes it.
pub open spec fn collect_step_spec(c: ResponseCollector, result: PollResult) -> (ResponseCollector, CollectAction) {
    match result {
        PollResult::Unavailable => if c.retries >= MAX_POLL_RETRIES {
            (c, CollectAction::TimedOut)
        } else {
            (
                ResponseCollector { retries: (c.retries + 1) as usize, ..c },
                CollectAction::PauseAndPoll { core: c.core },
            )
        },
        PollResult::Answered => {
            let n = ResponseCollector {
                core: (c.core + 1) as usize,
                retries: 0,
                received: (c.received + 1) as usize,
                ..c
            };
            if c.received + 1 >= c.needed || c.core + 1 == c.num_cores {
                (n, CollectAction::Finished)
            } else {
                (n, CollectAction::Poll { core: (c.core + 1) as usize })
            }
        },
    }
}

/// Runs the collecting for at most `fuel` polls; `avail(k, a)` tells
/// whether core `k` answers when asked for the `a`-th time (from 0).
pub open spec fn run_collect(
    c: ResponseCollector,
    a: CollectAction,
    avail: spec_fn(int, int) -> bool,
    fuel: nat,
) -> (ResponseCollector, CollectAction)
    decreases fuel,
{
    if (a is Poll || a is PauseAndPoll) && fuel > 0 {
        let result = if avail(c.core as int, c.retries as int) {
            PollResult::Answered
        } else {
            PollResult::Unavailable
        };
        let next = collect_step_spec(c, result);
        run_collect(next.0, next.1, avail, (fuel - 1) as nat)
    } else {
        (c, a)
    }
}

/// Core `k` answers within the allowed retries.
pub open spec fn core_answers(avail: spec_fn(int, int) -> bool, k: int) -> bool {
    exists|a: int| 0 <= a <= MAX_POLL_RETRIES && #[trigger] avail(k, a)
}

/// How many answers are awaited: `needed`, but at least the first one, and
/// no more than there are cores.
pub open spec fn answers_awaited(num_cores: nat, needed: nat) -> nat {
    let goal = if needed == 0 {
        1
    } else {
        needed
    };
    if goal <= num_cores {
        goal
    } else {
        num_cores
    }
}

pub open spec fn collect_inv(c: ResponseCollector, a: CollectAction, avail: spec_fn(int, int) -> bool) -> bool {
    let reach = answers_awaited(c.num_cores as nat, c.needed as nat);
    &&& c.wf()
    &&& c.num_cores < usize::MAX
    &&& forall|k: int| 0 <= k < c.core ==> core_answers(avail, k)
    &&& match a {
        CollectAction::Poll { core } | CollectAction::PauseAndPoll { core } => {
            &&& core == c.core
            &&& c.core < reach
            &&& forall|t: int| 0 <= t < c.retries ==> !#[trigger] avail(c.core as int, t)
        },
        CollectAction::Finished => c.core == reach,
        CollectAction::TimedOut => {
            &&& c.core < reach
            &&& !core_answers(avail, c.core as int)
        },
    }
}

pub open spec fn collect_measure(c: ResponseCollector, a: CollectAction) -> nat {
    if a is Poll || a is PauseAndPoll {
        ((c.num_cores - c.core) * (MAX_POLL_RETRIES + 1) - c.retries) as nat
    } else {
        0
    }
}

proof fn lemma_collect_step(c: ResponseCollector, a: CollectAction, avail: spec_fn(int, int) -> bool)
    requires
        collect_inv(c, a, avail),
        a is Poll || a is PauseAndPoll,
    ensures
        ({
            let result = if avail(c.core as int, c.retries as int) {
                PollResult::Answered
            } else {
                PollResult::Unavailable
            };
            let next = collect_step_spec(c, result);
            &&& collect_inv(next.0, next.1, avail)
            &&& collect_measure(next.0, next.1) < collect_measure(c, a)
            &&& next.0.num_cores == c.num_cores
            &&& next.0.needed == c.needed
        }),
{
    let n = c.num_cores as int;
    let m = MAX_POLL_RETRIES as int + 1;
    let k = c.core as int;
    assert((n - k) * m >= m) by (nonlinear_arith)
        requires
            n - k >= 1,
            m >= 1,
    ;
    assert((n - k - 1) * m == (n - k) * m - m) by (nonlinear_arith);
    assert(collect_measure(c, a) == (n - k) * m - c.retries);
    if avail(k, c.retries as int) {
        assert(core_answers(avail, k));
    } else if c.retries >= MAX_POLL_RETRIES {
        assert forall|t: int| 0 <= t <= MAX_POLL_RETRIES implies !#[trigger] avail(k, t) by {
            if t < c.retries {
            } else {
                assert(t == c.retries);
            }
        }
    } else {
        assert forall|t: int| 0 <= t < c.retries + 1 implies !#[trigger] avail(k, t) by {
            if t < c.retries {
            } else {
                assert(t == c.retries);
            }
        }
    }
}

proof fn lemma_run_collect(c: ResponseCollector, a: CollectAction, avail: spec_fn(int, int) -> bool, fuel: nat)
    requires
        collect_inv(c, a, avail),
        fuel >= collect_measure(c, a),
    ensures
        collect_inv(run_collect(c, a, avail, fuel).0, run_collect(c, a, avail, fuel).1, avail),
        run_collect(c, a, avail, fuel).1 is Finished || run_collect(c, a, avail, fuel).1 is TimedOut,
        run_collect(c, a, avail, fuel).0.num_cores == c.num_cores,
        run_collect(c, a, avail, fuel).0.needed == c.needed,
    decreases fuel,
{
    if a is Poll || a is PauseAndPoll {
        let n = c.num_cores as int;
        let m = MAX_POLL_RETRIES as int + 1;
        assert((n - c.core) * m >= m) by (nonlinear_arith)
            requires
                n - c.core >= 1,
                m >= 1,
        ;
        lemma_collect_step(c, a, avail);
        let result = if avail(c.core as int, c.retries as int) {
            PollResult::Answered
        } else {
            PollResult::Unavailable
        };
        let next = collect_step_spec(c, result);
        lemma_run_collect(next.0, next.1, avail, (fuel - 1) as nat);
    }
}

/// What collecting answers gives, whatever the cores do (`avail(k, a)`:
/// core `k` answers its `a`-th request): within `num_cores * 101` polls it
/// stops. It finishes exactly when each of the first `answers_awaited`
/// cores answers within the allowed retries, and then holds that many
/// answers; otherwise it times out at the first core that never answers.
pub proof fn law_collecting_stops_with_the_awaited_answers(
    num_cores: usize,
    needed: usize,
    avail: spec_fn(int, int) -> bool,
)
    requires
        num_cores < usize::MAX,
    ensures
        ({
            let c0 = ResponseCollector { num_cores, needed, core: 0, retries: 0, received: 0 };
            let a0 = if num_cores == 0 {
                CollectAction::Finished
            } else {
                CollectAction::Poll { core: 0 }
            };
            let end = run_collect(c0, a0, avail, (num_cores * (MAX_POLL_RETRIES + 1)) as nat);
            let reach = answers_awaited(num_cores as nat, needed as nat);
            &&& end.1 is Finished || end.1 is TimedOut
            &&& end.1 is Finished ==> end.0.received == reach && forall|k: int|
                0 <= k < reach ==> core_answers(avail, k)
            &&& end.1 is TimedOut ==> end.0.core < reach && !core_answers(avail, end.0.core as int)
                && forall|k: int| 0 <= k < end.0.core ==> core_answers(avail, k)
        }),
{
    let c0 = ResponseCollector { num_cores, needed, core: 0, retries: 0, received: 0 };
    let a0 = if num_cores == 0 {
        CollectAction::Finished
    } else {
        CollectAction::Poll { core: 0 }
    };
    assert(collect_inv(c0, a0, avail));
    assert(collect_measure(c0, a0) <= num_cores * (MAX_POLL_RETRIES + 1));
    lemma_run_collect(c0, a0, avail, (num_cores * (MAX_POLL_RETRIES + 1)) as nat);
}

} // verus!
