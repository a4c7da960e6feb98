use vstd::prelude::*;

use crate::cache::Cache;
use crate::errors::ProvingServerError;
use crate::models::{
    config_of_request, first_missing, has_input, input_value, lemma_input_value_some,
    lemma_none_missing, status_code, status_of_code, Job, JobResponse, JobStatus, ProofInputs,
    ProverConfig, ProverConfigRequest,
};
use crate::queue::JobQueue;
use crate::store::{
    config_matches_row, create_residue, create_rolled_back, find_job, find_prover, fresh_job_id,
    fresh_prover_id, is_job_for, job_matches_row, lemma_find_job_chars, param_names_for,
    params_appended, prover_row_of, provers_matching, update_jobs, JobRowV, Store,
};
use crate::utils::{
    base_path, get_prover_dir, get_r1cs_path, get_wasm_path, get_zkey_path, EnvConfig,
};

verus! {

/// The message a registration records on its new pending job.
pub open spec fn register_message(name: Seq<char>) -> Seq<char> {
    "fetching deps for "@ + name
}

/// The message a job is failed with when its prover row cannot be loaded.
pub open spec fn missing_prover_message() -> Seq<char> {
    "prover configuration missing"@
}

/// What one registration writes: the prover row under a fresh id `pid`,
/// its parameter rows in declared order, and one pending job under a fresh
/// id `jid` carrying the registration message.
pub open spec fn registration_effect(
    s0: Store,
    s1: Store,
    request: ProverConfigRequest,
    pid: i64,
    jid: i64,
) -> bool {
    &&& fresh_prover_id(s0.provers(), pid)
    &&& s1.provers() == s0.provers().push(prover_row_of(pid, config_of_request(request)))
    &&& params_appended(
        s0.params(),
        s1.params(),
        request.builder_params@,
        pid,
        request.builder_params@.len() as int,
    )
    &&& param_names_for(s1.params(), pid) == request.builder_params.deep_view()
    &&& fresh_job_id(s0.jobs(), jid)
    &&& s1.jobs() == s0.jobs().push(
        JobRowV {
            id: jid,
            status: status_code(JobStatus::Pending),
            message: register_message(request.name@),
            prover: pid,
        },
    )
}

/// Registers a prover: persists its configuration and parameters, creates
/// its pending job, and hands the job id to the worker queue. A full queue
/// surfaces `QueueFull` to the caller as a retryable condition; the rows
/// already persisted stay, as a registration that was accepted but not yet
/// scheduled.
pub fn register_prover(store: &mut Store, queue: &mut JobQueue, request: ProverConfigRequest) -> (r:
    Result<i64, ProvingServerError>)
    requires
        old(store).wf(),
    ensures
        final(store).wf(),
        final(store).provers().len() >= old(store).provers().len(),
        final(store).provers().subrange(0, old(store).provers().len() as int) == old(
            store,
        ).provers(),
        final(store).params().len() >= old(store).params().len(),
        final(store).params().subrange(0, old(store).params().len() as int) == old(store).params(),
        final(store).jobs().len() >= old(store).jobs().len(),
        final(store).jobs().subrange(0, old(store).jobs().len() as int) == old(store).jobs(),
        match r {
            Ok(jid) => {
                &&& (exists|pid: i64|
                    registration_effect(*old(store), *final(store), request, pid, jid))
                &&& old(queue).contents() is None
                &&& final(queue).contents() == Some(jid)
            },
            Err(e) => {
                &&& (e matches ProvingServerError::StoreError { message } || e
                    == ProvingServerError::QueueFull)
                &&& final(queue).contents() == old(queue).contents()
                &&& (e matches ProvingServerError::StoreError { message } ==> final(store).jobs()
                    == old(store).jobs())
                &&& (e == ProvingServerError::QueueFull ==> old(queue).contents() is Some && (
                exists|pid: i64, jid: i64|
                    registration_effect(*old(store), *final(store), request, pid, jid)))
            },
        },
{
    let cfg = ProverConfig::from(request);
    let pid = match store.create_prover(&cfg) {
        Ok(id) => id,
        Err(e) => {
            proof {
                lemma_store_prefixes_after_create(*old(store), *store, cfg);
            }
            return Err(e);
        },
    };
    proof {
        assert(store.provers().subrange(0, old(store).provers().len() as int) =~= old(
            store,
        ).provers());
        assert(store.jobs().subrange(0, old(store).jobs().len() as int) =~= old(store).jobs());
    }
    let message = String::from_str("fetching deps for ").concat(cfg.name.as_str());
    let job = Job { id: None, status: JobStatus::Pending, message, prover: pid };
    let jid = match store.create_job(&job) {
        Ok(id) => id,
        Err(e) => {
            return Err(e);
        },
    };
    proof {
        assert(store.jobs().subrange(0, old(store).jobs().len() as int) =~= old(store).jobs());
        assert(registration_effect(*old(store), *store, request, pid, jid));
    }
    match queue.enqueue(jid) {
        Ok(_) => Ok(jid),
        Err(e) => Err(e),
    }
}

/// After `create_prover`, whatever its outcome, every pre-existing row is
/// still there unchanged: the tables only ever grow at the end.
proof fn lemma_store_prefixes_after_create(s0: Store, s1: Store, cfg: ProverConfig)
    requires
        create_rolled_back(s0, s1) || create_residue(s0, s1, cfg),
    ensures
        s1.provers().len() >= s0.provers().len(),
        s1.provers().subrange(0, s0.provers().len() as int) == s0.provers(),
        s1.params().len() >= s0.params().len(),
        s1.params().subrange(0, s0.params().len() as int) == s0.params(),
        s1.jobs().len() >= s0.jobs().len(),
        s1.jobs().subrange(0, s0.jobs().len() as int) == s0.jobs(),
{
    if create_rolled_back(s0, s1) {
        assert(s1.provers().subrange(0, s0.provers().len() as int) =~= s0.provers());
        assert(s1.params().subrange(0, s0.params().len() as int) =~= s0.params());
        assert(s1.jobs().subrange(0, s0.jobs().len() as int) =~= s0.jobs());
    } else {
        let (id, k) = choose|id: i64, k: int|
            {
                &&& fresh_prover_id(s0.provers(), id)
                &&& s1.provers() == s0.provers().push(prover_row_of(id, cfg))
                &&& params_appended(s0.params(), s1.params(), cfg.builder_params@, id, k)
                &&& s1.jobs() == s0.jobs()
            };
        assert(s1.provers().subrange(0, s0.provers().len() as int) =~= s0.provers());
        assert(s1.jobs().subrange(0, s0.jobs().len() as int) =~= s0.jobs());
    }
}

/// Reports where the most recent preparation of prover `(name, version)`
/// stands; `NotFound` exactly when no job of such a prover exists.
pub fn get_job_status(name: &String, version: &String, store: &Store) -> (r: Result<
    JobResponse,
    ProvingServerError,
>)
    requires
        store.wf(),
    ensures
        ({
            let jobs = store.jobs();
            let provers = store.provers();
            match r {
                Ok(resp) => exists|i: int|
                    #[trigger] is_job_for(jobs, provers, name@, version@, i) && status_of_code(
                        jobs[i].status,
                    ) == Some(resp.status) && resp.message@ == jobs[i].message && resp.prover
                        == jobs[i].prover && (forall|i2: int|
                        #[trigger] is_job_for(jobs, provers, name@, version@, i2) ==> jobs[i2].id
                            <= jobs[i].id),
                Err(e) => (e == ProvingServerError::NotFound && (forall|i: int|
                    !(#[trigger] is_job_for(jobs, provers, name@, version@, i)))) || e matches
                    ProvingServerError::StoreError { message },
            }
        }),
{
    match Job::get_by_name_and_version(name, version, store) {
        Ok(job) => {
            proof {
                let jobs = store.jobs();
                let provers = store.provers();
                let i = choose|i: int|
                    #[trigger] is_job_for(jobs, provers, name@, version@, i) && job_matches_row(
                        job,
                        jobs[i],
                    ) && (forall|i2: int|
                        #[trigger] is_job_for(jobs, provers, name@, version@, i2) ==> jobs[i2].id
                            <= jobs[i].id);
                assert(is_job_for(jobs, provers, name@, version@, i));
            }
            Ok(JobResponse::from(job))
        },
        Err(e) => Err(e),
    }
}

/// Everything the worker needs to prepare one job: the job as persisted
/// (now `Processing`), its prover's configuration, and where each artifact
/// is to be fetched to.
#[derive(Debug, Clone, PartialEq)]
pub struct FetchPlan {
    pub job: Job,
    pub prover: ProverConfig,
    pub dir_path: String,
    pub wasm_path: String,
    pub zkey_path: String,
    pub r1cs_path: String,
}

/// The worker's first step for a dequeued id: load the job, mark it
/// `Processing`, and lay out the fetch destinations. A job whose row is
/// gone is reported `NotFound` with the store untouched; a job whose prover
/// row is gone is failed with a descriptive message, and the worker can go
/// on to its next job either way.
pub fn begin_job(store: &mut Store, id: i64, config: &EnvConfig) -> (r: Result<
    FetchPlan,
    ProvingServerError,
>)
    requires
        old(store).wf(),
    ensures
        final(store).wf(),
        final(store).provers() == old(store).provers(),
        final(store).params() == old(store).params(),
        match r {
            Ok(plan) => find_job(old(store).jobs(), id) matches Some(jrow) && (find_prover(
                old(store).provers(),
                jrow.prover,
            ) matches Some(prow) && {
                &&& final(store).jobs() == update_jobs(
                    old(store).jobs(),
                    id,
                    status_code(JobStatus::Processing),
                    jrow.message,
                )
                &&& plan.job.id == Some(id)
                &&& plan.job.status == JobStatus::Processing
                &&& plan.job.message@ == jrow.message
                &&& plan.job.prover == jrow.prover
                &&& config_matches_row(plan.prover, prow)
                &&& plan.prover.builder_params.deep_view() == param_names_for(
                    old(store).params(),
                    jrow.prover,
                )
                &&& plan.dir_path@ == config.zk_file_path@ + "/"@ + prow.version
                &&& plan.wasm_path@ == base_path(config.zk_file_path@, prow.version, prow.name)
                    + ".wasm"@
                &&& plan.zkey_path@ == base_path(config.zk_file_path@, prow.version, prow.name)
                    + ".zkey"@
                &&& plan.r1cs_path@ == base_path(config.zk_file_path@, prow.version, prow.name)
                    + ".r1cs"@
            }),
            Err(e) => {
                ||| (e == ProvingServerError::NotFound && find_job(old(store).jobs(), id) is None
                    && final(store).jobs() == old(store).jobs())
                ||| (e == ProvingServerError::NotFound && (find_job(old(store).jobs(), id)
                    matches Some(jrow) && find_prover(old(store).provers(), jrow.prover) is None
                    && final(store).jobs() == update_jobs(
                    old(store).jobs(),
                    id,
                    status_code(JobStatus::Failed),
                    missing_prover_message(),
                )))
                ||| (e matches ProvingServerError::StoreError { message } && final(store).jobs()
                    == old(store).jobs())
            },
        },
{
    proof {
        lemma_find_job_chars(old(store).jobs(), id);
    }
    let job = match store.get_job(id) {
        Ok(j) => j,
        Err(e) => {
            return Err(e);
        },
    };
    let prover = match store.get_prover(job.prover) {
        Ok(p) => p,
        Err(e) => {
            match e {
                ProvingServerError::NotFound => {
                    let failed = Job {
                        id: job.id,
                        status: JobStatus::Failed,
                        message: String::from_str("prover configuration missing"),
                        prover: job.prover,
                    };
                    match store.update_job(&failed) {
                        Ok(_) => {
                            return Err(ProvingServerError::NotFound);
                        },
                        Err(e2) => {
                            return Err(e2);
                        },
                    }
                },
                other => {
                    return Err(other);
                },
            }
        },
    };
    let updated = Job {
        id: job.id,
        status: JobStatus::Processing,
        message: job.message,
        prover: job.prover,
    };
    match store.update_job(&updated) {
        Ok(_) => (),
        Err(e) => {
            return Err(e);
        },
    }
    let dir_path = get_prover_dir(&prover, config);
    let wasm_path = get_wasm_path(&prover, config);
    let zkey_path = get_zkey_path(&prover, config);
    let r1cs_path = get_r1cs_path(&prover, config);
    Ok(FetchPlan { job: updated, prover, dir_path, wasm_path, zkey_path, r1cs_path })
}

/// Marks job `id` as `Failed` with `message`, leaving every other row — and
/// so every other job's outcome — untouched.
pub fn fail_job(store: &mut Store, id: i64, message: String) -> (r: Result<(), ProvingServerError>)
    requires
        old(store).wf(),
    ensures
        final(store).wf(),
        final(store).provers() == old(store).provers(),
        final(store).params() == old(store).params(),
        match r {
            Ok(_) => find_job(old(store).jobs(), id) is Some && final(store).jobs() == update_jobs(
                old(store).jobs(),
                id,
                status_code(JobStatus::Failed),
                message@,
            ),
            Err(e) => final(store).jobs() == old(store).jobs() && ((e
                == ProvingServerError::NotFound && find_job(old(store).jobs(), id) is None)
                || e matches ProvingServerError::StoreError { message: m }),
        },
{
    proof {
        lemma_find_job_chars(old(store).jobs(), id);
    }
    let job = match store.get_job(id) {
        Ok(j) => j,
        Err(e) => {
            return Err(e);
        },
    };
    let failed = Job { id: job.id, status: JobStatus::Failed, message, prover: job.prover };
    match store.update_job(&failed) {
        Ok(_) => Ok(()),
        Err(e) => Err(e),
    }
}

/// The worker's last step for a prepared job: bind the freshly built
/// capability to the prover's name — overriding any earlier one — and mark
/// the job `Ready`. The capability is cached even if the status write then
/// fails, as the cache is rebuilt from artifacts anyway on a restart.
pub fn complete_job<C>(
    store: &mut Store,
    cache: &mut Cache<C>,
    id: i64,
    name: &String,
    capability: C,
) -> (r: Result<(), ProvingServerError>)
    requires
        old(store).wf(),
    ensures
        final(store).wf(),
        final(store).provers() == old(store).provers(),
        final(store).params() == old(store).params(),
        final(cache).contents() == old(cache).contents().insert(name@, capability),
        match r {
            Ok(_) => find_job(old(store).jobs(), id) matches Some(jrow) && final(store).jobs()
                == update_jobs(old(store).jobs(), id, status_code(JobStatus::Ready), jrow.message),
            Err(e) => final(store).jobs() == old(store).jobs() && ((e
                == ProvingServerError::NotFound && find_job(old(store).jobs(), id) is None)
                || e matches ProvingServerError::StoreError { message }),
        },
{
    cache.insert(name.clone(), capability);
    proof {
        lemma_find_job_chars(old(store).jobs(), id);
    }
    let job = match store.get_job(id) {
        Ok(j) => j,
        Err(e) => {
            return Err(e);
        },
    };
    let ready = Job { id: job.id, status: JobStatus::Ready, message: job.message, prover: job.prover };
    match store.update_job(&ready) {
        Ok(_) => Ok(()),
        Err(e) => Err(e),
    }
}

/// Clears a proof request for execution: the prover's capability must be
/// cached, its configuration must exist, and the inputs must carry every
/// declared parameter. What comes back is the circuit's inputs as ordered
/// `(name, value)` pairs, in the declared parameter order, ready to be fed
/// to the engine.
pub fn authorize_execution<C>(
    store: &Store,
    cache: &Cache<C>,
    name: &String,
    version: &String,
    inputs: &ProofInputs,
) -> (r: Result<Vec<(String, u64)>, ProvingServerError>)
    requires
        store.wf(),
    ensures
        ({
            let ms = provers_matching(store.provers(), name@, version@);
            let required = if ms.len() > 0 {
                param_names_for(store.params(), ms[0].id)
            } else {
                Seq::empty()
            };
            match r {
                Ok(ordered) => {
                    &&& cache.contents().contains_key(name@)
                    &&& ms.len() > 0
                    &&& first_missing(required, inputs.entries@) is None
                    &&& ordered@.len() == required.len()
                    &&& forall|k: int|
                        0 <= k < required.len() ==> (#[trigger] ordered@[k]).0@ == required[k]
                            && Some(ordered@[k].1) == input_value(inputs.entries@, required[k])
                },
                Err(e) => {
                    ||| (e == ProvingServerError::NotReady && !cache.contents().contains_key(
                        name@,
                    ))
                    ||| (e == ProvingServerError::NotFound && cache.contents().contains_key(name@)
                        && ms.len() == 0)
                    ||| (e matches ProvingServerError::MissingParameter { message }
                        && cache.contents().contains_key(name@) && ms.len() > 0 && first_missing(
                        required,
                        inputs.entries@,
                    ) == Some(message@))
                    ||| (e matches ProvingServerError::StoreError { message }
                        && cache.contents().contains_key(name@))
                },
            }
        }),
        !cache.contents().contains_key(name@) ==> r == Err::<
            Vec<(String, u64)>,
            ProvingServerError,
        >(ProvingServerError::NotReady),
{
    if !cache.contains(name) {
        return Err(ProvingServerError::NotReady);
    }
    let cfg = match ProverConfig::get_by_name_and_version(name, version, store) {
        Ok(c) => c,
        Err(e) => {
            return Err(e);
        },
    };
    match cfg.validate_inputs(inputs) {
        Ok(_) => (),
        Err(e) => {
            return Err(e);
        },
    }
    let ghost required = param_names_for(
        store.params(),
        provers_matching(store.provers(), name@, version@)[0].id,
    );
    proof {
        lemma_none_missing(cfg.builder_params.deep_view(), inputs.entries@);
    }
    let n = cfg.builder_params.len();
    let mut ordered: Vec<(String, u64)> = Vec::new();
    let mut i: usize = 0;
    while i < n
        invariant
            n == cfg.builder_params@.len(),
            0 <= i <= n,
            cfg.builder_params.deep_view() == required,
            forall|k: int| 0 <= k < required.len() ==> has_input(
                inputs.entries@,
                #[trigger] required[k],
            ),
            ordered@.len() == i,
            forall|k: int|
                0 <= k < i ==> (#[trigger] ordered@[k]).0@ == required[k] && Some(ordered@[k].1)
                    == input_value(inputs.entries@, required[k]),
        decreases n - i,
    {
        let pname = &cfg.builder_params[i];
        assert(pname@ == required[i as int]);
        match inputs.get(pname) {
            Some(v) => {
                ordered.push((pname.clone(), v));
            },
            None => {
                proof {
                    lemma_input_value_some(inputs.entries@, pname@);
                    assert(false);
                }
                return Err(ProvingServerError::NotFound);
            },
        }
        i = i + 1;
    }
    Ok(ordered)
}

} // verus!
