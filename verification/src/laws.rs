use vstd::prelude::*;

use crate::models::{first_missing, has_input, ProverConfig};
use crate::store::{
    find_job, fresh_job_id, param_names_for, prover_row_of, provers_matching, update_jobs,
    JobRowV, ParamRowV, ProverRowV,
};

verus! {

/// Validation names exactly the first absent parameter: for a declared
/// parameter list whose k-th name is missing from the inputs while every
/// name before it is present, `first_missing` — the specification
/// `ProverConfig::validate_inputs` answers to — is exactly the k-th name.
pub proof fn law_validation_names_kth_missing(
    names: Seq<Seq<char>>,
    inputs: Seq<(String, u64)>,
    k: int,
)
    requires
        0 <= k < names.len(),
        !has_input(inputs, names[k]),
        forall|j: int| 0 <= j < k ==> has_input(inputs, #[trigger] names[j]),
    ensures
        first_missing(names, inputs) == Some(names[k]),
    decreases k,
{
    if k == 0 {
    } else {
        assert(has_input(inputs, names[0]));
        assert forall|j: int| 0 <= j < k - 1 implies has_input(
            inputs,
            #[trigger] names.drop_first()[j],
        ) by {
            assert(names.drop_first()[j] == names[j + 1]);
        }
        assert(names.drop_first()[k - 1] == names[k]);
        law_validation_names_kth_missing(names.drop_first(), inputs, k - 1);
    }
}

/// A new registration never corrupts earlier jobs: appending a job row with
/// a fresh id — which is what `create_job` and `register_prover` do — keeps
/// every prior job row, its id and so its terminal state, exactly as it
/// was.
pub proof fn law_reregistration_preserves_jobs(
    jobs0: Seq<JobRowV>,
    jobs1: Seq<JobRowV>,
    row: JobRowV,
)
    requires
        fresh_job_id(jobs0, row.id),
        jobs1 == jobs0.push(row),
    ensures
        jobs1.len() == jobs0.len() + 1,
        forall|i: int| 0 <= i < jobs0.len() ==> jobs1[i] == jobs0[i],
        forall|i: int| 0 <= i < jobs0.len() ==> (#[trigger] jobs1[i]).id != row.id,
{
    assert forall|i: int| 0 <= i < jobs0.len() implies (#[trigger] jobs1[i]).id != row.id by {
        assert(jobs0[i].id < row.id);
    }
}

/// One job's failure is invisible to every other job: rewriting the row of
/// `id` — which is what `fail_job` does — leaves lookup of any other id,
/// and so the worker's handling of any later job, unchanged.
pub proof fn law_failure_isolation(
    jobs: Seq<JobRowV>,
    id: i64,
    status: int,
    message: Seq<char>,
    other: i64,
)
    requires
        other != id,
    ensures
        find_job(update_jobs(jobs, id, status, message), other) == find_job(jobs, other),
    decreases jobs.len(),
{
    if jobs.len() > 0 {
        let u = update_jobs(jobs, id, status, message);
        assert(u.drop_first() =~= update_jobs(jobs.drop_first(), id, status, message));
        assert(u[0].id == jobs[0].id);
        if jobs[0].id == other {
            assert(u[0] == jobs[0]);
        } else {
            law_failure_isolation(jobs.drop_first(), id, status, message, other);
        }
    }
}

/// A status write is visible: after the row of `id` is rewritten — as
/// `fail_job` and `complete_job` do — looking that id up finds the same row
/// with exactly the new status and message, and a missing id stays missing.
pub proof fn law_status_write_visible(jobs: Seq<JobRowV>, id: i64, status: int, message: Seq<char>)
    ensures
        match find_job(jobs, id) {
            Some(r) => find_job(update_jobs(jobs, id, status, message), id) == Some(
                JobRowV { id: r.id, status, message, prover: r.prover },
            ),
            None => find_job(update_jobs(jobs, id, status, message), id) is None,
        },
    decreases jobs.len(),
{
    if jobs.len() > 0 {
        let u = update_jobs(jobs, id, status, message);
        assert(u.drop_first() =~= update_jobs(jobs.drop_first(), id, status, message));
        assert(u[0].id == jobs[0].id);
        if jobs[0].id != id {
            law_status_write_visible(jobs.drop_first(), id, status, message);
        }
    }
}

/// `provers_matching` distributes over concatenation.
proof fn lemma_matching_concat(
    s1: Seq<ProverRowV>,
    s2: Seq<ProverRowV>,
    name: Seq<char>,
    version: Seq<char>,
)
    ensures
        provers_matching(s1 + s2, name, version) == provers_matching(s1, name, version)
            + provers_matching(s2, name, version),
    decreases s1.len(),
{
    if s1.len() == 0 {
        assert(s1 + s2 =~= s2);
        assert(provers_matching(s1, name, version) + provers_matching(s2, name, version)
            =~= provers_matching(s2, name, version));
    } else {
        assert((s1 + s2).drop_first() =~= s1.drop_first() + s2);
        assert((s1 + s2)[0] == s1[0]);
        lemma_matching_concat(s1.drop_first(), s2, name, version);
        if s1[0].name == name && s1[0].version == version {
            assert(seq![s1[0]] + (provers_matching(s1.drop_first(), name, version)
                + provers_matching(s2, name, version)) =~= (seq![s1[0]] + provers_matching(
                s1.drop_first(),
                name,
                version,
            )) + provers_matching(s2, name, version));
        }
    }
}

/// What `create_prover` persists is what resolution returns: registering a
/// configuration under a `(name, version)` no prover bears yet makes that
/// `(name, version)` resolve to exactly the row just written, carrying
/// every field of the configuration and its complete parameter list in
/// declared order — independent of whatever other rows the tables hold.
pub proof fn law_create_then_get(
    provers0: Seq<ProverRowV>,
    provers1: Seq<ProverRowV>,
    params1: Seq<ParamRowV>,
    cfg: ProverConfig,
    pid: i64,
)
    requires
        provers_matching(provers0, cfg.name@, cfg.version@).len() == 0,
        provers1 == provers0.push(prover_row_of(pid, cfg)),
        param_names_for(params1, pid) == cfg.builder_params.deep_view(),
    ensures
        provers_matching(provers1, cfg.name@, cfg.version@) == seq![prover_row_of(pid, cfg)],
        param_names_for(params1, provers_matching(provers1, cfg.name@, cfg.version@)[0].id)
            == cfg.builder_params.deep_view(),
{
    let row = prover_row_of(pid, cfg);
    assert(provers1 =~= provers0 + seq![row]);
    lemma_matching_concat(provers0, seq![row], cfg.name@, cfg.version@);
    assert(seq![row][0] == row);
    assert(seq![row].drop_first() =~= Seq::<ProverRowV>::empty());
    assert(provers_matching(Seq::<ProverRowV>::empty(), cfg.name@, cfg.version@) =~= Seq::<
        ProverRowV,
    >::empty());
    assert(provers_matching(seq![row], cfg.name@, cfg.version@) =~= seq![row]);
    assert(provers_matching(provers1, cfg.name@, cfg.version@) =~= seq![row]);
}

} // verus!
