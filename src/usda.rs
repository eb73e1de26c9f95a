//! The USDA FoodData Central source: its client settings, the decoded search
//! page, and the aggregator that runs one sweep over it.
//!
//! The HTTP request and the JSON decoding are performed by the caller, which
//! hands the decoded page over as the plain types below. Nutrient values are
//! carried as the bit pattern of their `f32`.
use vstd::prelude::*;
use vstd::string::StringExecFns;

use crate::clock::{clamp_i64, instant_after};
use crate::limiter::{RateLimiter, REQUESTS_PER_HOUR};
use crate::normalizer::{FoodEntry, FoodEntryNutrient};
use crate::supervisor::{AggregatorSupervisor, Completion, SupervisorState, WorkerId, WorkerTask};
use crate::{AggregateStatus, SourceError};

verus! {

/// Foods requested per page.
pub const PAGE_SIZE: usize = 200;

/// Name under which USDA foods are stored.
pub open spec fn usda_name() -> Seq<char> {
    "USDA"@
}

/// The parameters of one search request:
/// `GET {url}?api_key=..&pageSize=..&pageNumber=..`.
#[derive(Debug, Clone, PartialEq, Eq)]
pub struct UsdaSearchRequest {
    pub url: String,
    pub api_key: String,
    pub page_size: usize,
    pub page_number: usize,
}

/// Settings of the USDA search endpoint.
#[derive(Debug, Clone)]
pub struct UsdaClient {
    pub page_size: usize,
    pub api_url: String,
    pub api_key: String,
}

impl UsdaClient {
    /// A client for the API rooted at `api_url`.
    pub fn new(api_url: String, api_key: String) -> (r: UsdaClient)
        ensures
            r.api_url@ == api_url@ + "/foods/search"@,
            r.api_key == api_key,
            r.page_size == PAGE_SIZE,
    {
        let api_url = api_url.concat("/foods/search");
        UsdaClient { page_size: PAGE_SIZE, api_url, api_key }
    }

    /// The stable name of the source.
    pub fn name(&self) -> (r: String)
        ensures
            r@ == usda_name(),
    {
        "USDA".to_owned()
    }

    /// The request that fetches `page`.
    pub fn search_request(&self, page: usize) -> (r: UsdaSearchRequest)
        ensures
            r == self.search_request_spec(page),
    {
        UsdaSearchRequest {
            url: self.api_url.clone(),
            api_key: self.api_key.clone(),
            page_size: self.page_size,
            page_number: page,
        }
    }

    /// The outcome of a fetch from the HTTP status and the decoded body: a
    /// non-success status is an upstream error, whatever the body.
    pub fn fetch_outcome(status: u16, body: Result<UsdaFoodSearchResponse, String>) -> (r: Result<
        UsdaFoodSearchResponse,
        SourceError,
    >)
        ensures
            !(200 <= status < 300) ==> r == Err::<UsdaFoodSearchResponse, SourceError>(
                SourceError::Upstream(status),
            ),
            200 <= status < 300 ==> r == match body {
                Ok(page) => Ok(page),
                Err(message) => Err(SourceError::Deserialize(message)),
            },
    {
        if status < 200 || status >= 300 {
            Err(SourceError::Upstream(status))
        } else {
            match body {
                Ok(page) => Ok(page),
                Err(message) => Err(SourceError::Deserialize(message)),
            }
        }
    }
}

/// One nutrient reading of a USDA food; `value` is the bit pattern of the
/// `f32` value, absent when the API omitted it.
#[derive(Debug, Clone, PartialEq, Eq)]
pub struct UsdaFoodNutrient {
    pub nutrient_name: String,
    pub unit_name: String,
    pub value: Option<u32>,
}

impl UsdaFoodNutrient {
    pub fn name(&self) -> (r: &str)
        ensures
            r@ == self.nutrient_name@,
    {
        self.nutrient_name.as_str()
    }

    pub fn unit_name(&self) -> (r: &str)
        ensures
            r@ == self.unit_name@,
    {
        self.unit_name.as_str()
    }

    /// The reading, with a missing value read as `0.0` (bit pattern `0`).
    pub fn value(&self) -> (r: u32)
        ensures
            r == match self.value {
                Some(v) => v,
                None => 0u32,
            },
    {
        match self.value {
            Some(v) => v,
            None => 0,
        }
    }

    /// The source-agnostic form of the reading.
    pub fn to_entry_nutrient(&self) -> (r: FoodEntryNutrient)
        ensures
            r.name == self.nutrient_name,
            r.unit_name == self.unit_name,
            r.value == self.value,
    {
        FoodEntryNutrient {
            name: self.nutrient_name.clone(),
            unit_name: self.unit_name.clone(),
            value: self.value,
        }
    }
}

/// One food of a USDA search page.
#[derive(Debug, Clone, PartialEq, Eq)]
pub struct UsdaFoodSearchFood {
    pub fdc_id: i32,
    pub description: String,
    pub food_code: Option<i32>,
    pub food_category: Option<String>,
    pub food_category_id: Option<i32>,
    pub food_nutrients: Vec<UsdaFoodNutrient>,
}

impl UsdaFoodSearchFood {
    pub fn source(&self) -> (r: String)
        ensures
            r@ == usda_name(),
    {
        "USDA".to_owned()
    }

    /// The WWEIA category `(code, name)`, present when the API gave both.
    pub fn wweia_data(&self) -> (r: Option<(i32, String)>)
        ensures
            r == match (self.food_category_id, self.food_category) {
                (Some(code), Some(name)) => Some((code, name)),
                _ => None,
            },
    {
        match (self.food_category_id, &self.food_category) {
            (Some(code), Some(name)) => Some((code, name.clone())),
            _ => None,
        }
    }

    pub fn name(&self) -> (r: &str)
        ensures
            r@ == self.description@,
    {
        self.description.as_str()
    }

    pub fn fndds_code(&self) -> (r: Option<i32>)
        ensures
            r == self.food_code,
    {
        self.food_code
    }

    pub fn id(&self) -> (r: i32)
        ensures
            r == self.fdc_id,
    {
        self.fdc_id
    }

    pub fn nutrients(&self) -> (r: &Vec<UsdaFoodNutrient>)
        ensures
            r == &self.food_nutrients,
    {
        &self.food_nutrients
    }

    /// The source-agnostic form of the food.
    pub fn to_entry(&self) -> (r: FoodEntry)
        ensures
            r.source@ == usda_name(),
            r.id == self.fdc_id,
            r.name == self.description,
            r.fndds_code == self.food_code,
            r.wweia == match (self.food_category_id, self.food_category) {
                (Some(code), Some(name)) => Some((code, name)),
                _ => None,
            },
            r.nutrients@.len() == self.food_nutrients@.len(),
            forall|j: int|
                0 <= j < r.nutrients@.len() ==> {
                    let n = #[trigger] r.nutrients@[j];
                    &&& n.name == self.food_nutrients@[j].nutrient_name
                    &&& n.unit_name == self.food_nutrients@[j].unit_name
                    &&& n.value == self.food_nutrients@[j].value
                },
    {
        let mut nutrients: Vec<FoodEntryNutrient> = Vec::new();
        let mut j: usize = 0;
        while j < self.food_nutrients.len()
            invariant
                j <= self.food_nutrients@.len(),
                nutrients@.len() == j,
                forall|k: int|
                    0 <= k < j ==> {
                        let n = #[trigger] nutrients@[k];
                        &&& n.name == self.food_nutrients@[k].nutrient_name
                        &&& n.unit_name == self.food_nutrients@[k].unit_name
                        &&& n.value == self.food_nutrients@[k].value
                    },
            decreases self.food_nutrients@.len() - j,
        {
            nutrients.push(self.food_nutrients[j].to_entry_nutrient());
            j = j + 1;
        }
        FoodEntry {
            source: self.source(),
            id: self.fdc_id,
            name: self.description.clone(),
            wweia: self.wweia_data(),
            fndds_code: self.food_code,
            nutrients,
        }
    }
}

/// A decoded USDA search page.
#[derive(Debug, Clone, PartialEq, Eq)]
pub struct UsdaFoodSearchResponse {
    pub total_pages: usize,
    pub foods: Vec<UsdaFoodSearchFood>,
}

impl UsdaFoodSearchResponse {
    /// The foods of the page, in order, in source-agnostic form.
    pub fn entries(&self) -> (r: Vec<FoodEntry>)
        ensures
            r@.len() == self.foods@.len(),
            forall|i: int|
                0 <= i < r@.len() ==> {
                    let e = #[trigger] r@[i];
                    let f = self.foods@[i];
                    &&& e.source@ == usda_name()
                    &&& e.id == f.fdc_id
                    &&& e.name == f.description
                    &&& e.fndds_code == f.food_code
                    &&& e.wweia == match (f.food_category_id, f.food_category) {
                        (Some(code), Some(name)) => Some((code, name)),
                        _ => None,
                    }
                    &&& e.nutrients@.len() == f.food_nutrients@.len()
                    &&& forall|j: int|
                        0 <= j < e.nutrients@.len() ==> {
                            let n = #[trigger] e.nutrients@[j];
                            &&& n.name == f.food_nutrients@[j].nutrient_name
                            &&& n.unit_name == f.food_nutrients@[j].unit_name
                            &&& n.value == f.food_nutrients@[j].value
                        }
                },
    {
        let mut entries: Vec<FoodEntry> = Vec::new();
        let mut i: usize = 0;
        while i < self.foods.len()
            invariant
                i <= self.foods@.len(),
                entries@.len() == i,
                forall|k: int|
                    0 <= k < i ==> {
                        let e = #[trigger] entries@[k];
                        let f = self.foods@[k];
                        &&& e.source@ == usda_name()
                        &&& e.id == f.fdc_id
                        &&& e.name == f.description
                        &&& e.fndds_code == f.food_code
                        &&& e.wweia == match (f.food_category_id, f.food_category) {
                            (Some(code), Some(name)) => Some((code, name)),
                            _ => None,
                        }
                        &&& e.nutrients@.len() == f.food_nutrients@.len()
                        &&& forall|j: int|
                            0 <= j < e.nutrients@.len() ==> {
                                let n = #[trigger] e.nutrients@[j];
                                &&& n.name == f.food_nutrients@[j].nutrient_name
                                &&& n.unit_name == f.food_nutrients@[j].unit_name
                                &&& n.value == f.food_nutrients@[j].value
                            }
                    },
            decreases self.foods@.len() - i,
        {
            entries.push(self.foods[i].to_entry());
            i = i + 1;
        }
        entries
    }
}

/// What a run of the aggregator starts with.
#[derive(Debug, Clone, PartialEq, Eq)]
pub enum AggregateStep {
    /// A new sweep: fetch page 1 with this request, persist it, then report
    /// its page count through `first_page_fetched`.
    FetchFirstPage(UsdaSearchRequest),
    /// A deferred sweep goes on: keep dispatching fetches.
    Resume,
    /// The limiter has no token for page 1: fetch nothing and come back at
    /// this instant.
    DeferUntil(i64),
}

/// Runs sweeps over the USDA source. The limiter lives as long as the
/// aggregator, so a deferred sweep resumes under the same quota, and the sweep
/// in progress is kept across a deferral.
pub struct UsdaAggregator {
    limiter: RateLimiter,
    client: UsdaClient,
    supervisor: Option<AggregatorSupervisor>,
    /// Fetches handed out over the aggregator's life, page 1 included.
    fetches: Ghost<nat>,
}

impl View for UsdaAggregator {
    type V = Option<SupervisorState>;

    /// The sweep in progress, if any.
    closed spec fn view(&self) -> Option<SupervisorState> {
        match self.supervisor {
            Some(s) => Some(s@),
            None => None,
        }
    }
}

impl UsdaAggregator {
    pub closed spec fn wf(&self) -> bool {
        &&& self.supervisor matches Some(s) ==> s@.wf()
        &&& self.fetches@ == self.limiter@
    }

    /// How many fetches the aggregator handed out, page 1 of each sweep
    /// included.
    pub closed spec fn fetches_issued(&self) -> nat {
        self.fetches@
    }

    /// How many tokens its limiter granted.
    pub closed spec fn tokens_granted(&self) -> nat {
        self.limiter@
    }

    pub closed spec fn client_spec(&self) -> UsdaClient {
        self.client
    }

    /// An aggregator over `client` with no sweep in progress, admitting
    /// `REQUESTS_PER_HOUR` fetches per hour.
    pub fn new(client: UsdaClient) -> (r: UsdaAggregator)
        ensures
            r.wf(),
            r@ is None,
            r.client_spec() == client,
            r.fetches_issued() == 0,
    {
        Self::with_quota(client, REQUESTS_PER_HOUR)
    }

    /// An aggregator over `client` with no sweep in progress, admitting
    /// `per_hour` fetches per hour.
    pub fn with_quota(client: UsdaClient, per_hour: u32) -> (r: UsdaAggregator)
        requires
            per_hour > 0,
        ensures
            r.wf(),
            r@ is None,
            r.client_spec() == client,
            r.fetches_issued() == 0,
    {
        UsdaAggregator { limiter: RateLimiter::per_hour(per_hour), client, supervisor: None, fetches: Ghost(0) }
    }

    /// Starts a run at `now`: resumes the deferred sweep if there is one,
    /// else takes the token of page 1 and asks for it. An exhausted limiter is
    /// no error: the run is deferred to when the next token comes, with no
    /// sweep started and nothing fetched.
    pub fn begin(&mut self, now: i64) -> (r: AggregateStep)
        requires
            old(self).wf(),
        ensures
            final(self).wf(),
            final(self).client_spec() == old(self).client_spec(),
            old(self)@ matches Some(s) ==> r == AggregateStep::Resume && final(self)@ == Some(
                SupervisorState { pending: None, ..s },
            ) && final(self).fetches_issued() == old(self).fetches_issued(),
            old(self)@ is None ==> final(self)@ is None,
            old(self)@ is None ==> (r == AggregateStep::FetchFirstPage(
                old(self).client_spec().search_request_spec(1),
            ) && final(self).fetches_issued() == old(self).fetches_issued() + 1) || (exists|wait: u128|
                r == AggregateStep::DeferUntil(#[trigger] clamp_i64(now + wait)))
                && final(self).fetches_issued() == old(self).fetches_issued(),
    {
        match &mut self.supervisor {
            Some(supervisor) => {
                supervisor.resume();
                AggregateStep::Resume
            },
            None => {
                match self.limiter.try_acquire() {
                    Err(wait) => AggregateStep::DeferUntil(instant_after(now, wait)),
                    Ok(()) => {
                        self.fetches = Ghost(self.fetches@ + 1);
                        AggregateStep::FetchFirstPage(self.client.search_request(1))
                    },
                }
            },
        }
    }

    /// Page 1 was fetched and persisted and announced `total_pages`. A sweep
    /// of one page (or none) is then complete and needs no supervisor;
    /// otherwise a supervisor is set up for pages `2..=total_pages`. Returns
    /// whether one was.
    pub fn first_page_fetched(&mut self, total_pages: usize) -> (r: bool)
        requires
            old(self).wf(),
        ensures
            final(self).wf(),
            final(self).client_spec() == old(self).client_spec(),
            r == (total_pages >= 2),
            !r ==> final(self)@ is None,
            r ==> final(self)@ == Some(AggregatorSupervisor::new_spec(total_pages)),
    {
        if total_pages >= 2 {
            let supervisor = AggregatorSupervisor::new(total_pages);
            self.supervisor = Some(supervisor);
            true
        } else {
            self.supervisor = None;
            false
        }
    }

    /// The next fetch to spawn, if the sweep has a candidate and the limiter
    /// grants a token (see `AggregatorSupervisor::next_worker`).
    pub fn next_worker(&mut self, now: i64) -> (r: Option<WorkerTask>)
        requires
            old(self).wf(),
        ensures
            final(self).wf(),
            final(self).client_spec() == old(self).client_spec(),
            old(self)@ is None ==> r is None && final(self)@ is None,
            old(self)@ matches Some(s) ==> exists|permit: Result<(), u128>|
                final(self)@ == Some((#[trigger] s.spawn_spec(permit, now)).0) && r == s.spawn_spec(
                    permit,
                    now,
                ).1,
            r is Some ==> final(self).fetches_issued() == old(self).fetches_issued() + 1,
            r is None ==> final(self).fetches_issued() == old(self).fetches_issued(),
    {
        match &mut self.supervisor {
            Some(supervisor) => {
                let r = supervisor.next_worker(&mut self.limiter, now);
                if r.is_some() {
                    self.fetches = Ghost(self.fetches@ + 1);
                }
                r
            },
            None => None,
        }
    }

    /// The request for a task's page.
    pub fn request_for(&self, task: &WorkerTask) -> (r: UsdaSearchRequest)
        ensures
            r == self.client_spec().search_request_spec(task.page),
    {
        self.client.search_request(task.page)
    }

    /// Reports a finished fetch to the sweep (see
    /// `AggregatorSupervisor::complete`).
    pub fn complete(&mut self, worker_id: WorkerId, fetched: Result<usize, SourceError>) -> (r:
        Completion)
        requires
            old(self).wf(),
        ensures
            final(self).wf(),
            final(self).client_spec() == old(self).client_spec(),
            old(self)@ is None ==> r == Completion::Unknown && final(self)@ is None,
            old(self)@ matches Some(s) ==> final(self)@ == Some(s.complete_spec(worker_id, fetched).0)
                && r == s.complete_spec(worker_id, fetched).1,
    {
        match &mut self.supervisor {
            Some(supervisor) => supervisor.complete(worker_id, fetched),
            None => Completion::Unknown,
        }
    }

    /// Whether the run is over: no sweep, or one with nothing in flight and
    /// nothing left to dispatch.
    pub fn is_done(&self) -> (r: bool)
        ensures
            r == match self@ {
                Some(s) => s.is_done(),
                None => true,
            },
    {
        match &self.supervisor {
            Some(supervisor) => supervisor.is_done(),
            None => true,
        }
    }

    /// Ends the run with its status. A finished sweep is dropped, so the next
    /// run starts a new one; a deferred sweep is kept for resumption.
    pub fn finish(&mut self) -> (r: AggregateStatus)
        requires
            old(self).wf(),
        ensures
            final(self).wf(),
            final(self).client_spec() == old(self).client_spec(),
            r == match old(self)@ {
                Some(s) => s.status(),
                None => AggregateStatus::Finished,
            },
            r == AggregateStatus::Finished ==> final(self)@ is None,
            r != AggregateStatus::Finished ==> final(self)@ == old(self)@,
    {
        let status = match &self.supervisor {
            Some(supervisor) => supervisor.status(),
            None => AggregateStatus::Finished,
        };
        if status == AggregateStatus::Finished {
            self.supervisor = None;
        }
        status
    }

    /// Drops the sweep in progress after a failure: its writes were rolled
    /// back, so the next run starts over.
    pub fn abort(&mut self)
        requires
            old(self).wf(),
        ensures
            final(self).wf(),
            final(self)@ is None,
            final(self).client_spec() == old(self).client_spec(),
    {
        self.supervisor = None;
    }
}

impl UsdaClient {
    pub open spec fn search_request_spec(self, page: usize) -> UsdaSearchRequest {
        UsdaSearchRequest {
            url: self.api_url,
            api_key: self.api_key,
            page_size: self.page_size,
            page_number: page,
        }
    }
}

/// Every fetch an aggregator hands out, page 1 of each sweep and retries
/// included, took one token its limiter granted: over any period the fetches
/// never outnumber the limiter's grants, which governor holds to the quota.
pub proof fn lemma_fetches_take_tokens(a: &UsdaAggregator)
    requires
        a.wf(),
    ensures
        a.fetches_issued() == a.tokens_granted(),
{
}

} // verus!
