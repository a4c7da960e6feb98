use vstd::prelude::*;

use crate::errors::ProvingServerError;

verus! {

/// The named circuit inputs of one proof request, as an association list in
/// arrival order. A name may occur more than once; a lookup finds the first
/// occurrence, as `input_value` says.
pub struct ProofInputs {
    pub entries: Vec<(String, u64)>,
}

/// Whether `inputs` holds an entry named `name`.
pub open spec fn has_input(inputs: Seq<(String, u64)>, name: Seq<char>) -> bool {
    exists|i: int| 0 <= i < inputs.len() && inputs[i].0@ == name
}

/// The value of the first entry named `name`, if any.
pub open spec fn input_value(inputs: Seq<(String, u64)>, name: Seq<char>) -> Option<u64>
    decreases inputs.len(),
{
    if inputs.len() == 0 {
        None
    } else if inputs[0].0@ == name {
        Some(inputs[0].1)
    } else {
        input_value(inputs.drop_first(), name)
    }
}

/// A lookup succeeds exactly when some entry bears the name.
pub proof fn lemma_input_value_some(inputs: Seq<(String, u64)>, name: Seq<char>)
    ensures
        input_value(inputs, name) is Some <==> has_input(inputs, name),
    decreases inputs.len(),
{
    if inputs.len() > 0 {
        if inputs[0].0@ == name {
            assert(has_input(inputs, name));
        } else {
            lemma_input_value_some(inputs.drop_first(), name);
            if has_input(inputs, name) {
                let i = choose|i: int| 0 <= i < inputs.len() && inputs[i].0@ == name;
                assert(inputs.drop_first()[i - 1].0@ == name);
                assert(has_input(inputs.drop_first(), name));
            }
            if has_input(inputs.drop_first(), name) {
                let i = choose|i: int|
                    0 <= i < inputs.drop_first().len() && inputs.drop_first()[i].0@ == name;
                assert(inputs[i + 1].0@ == name);
            }
        }
    }
}

impl ProofInputs {
    pub fn new() -> (r: ProofInputs)
        ensures
            r.entries@ =~= Seq::<(String, u64)>::empty(),
    {
        ProofInputs { entries: Vec::new() }
    }

    /// Appends one named input.
    pub fn insert(&mut self, name: String, value: u64)
        ensures
            final(self).entries@ == old(self).entries@.push((name, value)),
    {
        self.entries.push((name, value));
    }

    /// The value of the first entry named `name`.
    pub fn get(&self, name: &String) -> (r: Option<u64>)
        ensures
            r == input_value(self.entries@, name@),
    {
        let n = self.entries.len();
        let mut i: usize = 0;
        assert(self.entries@.skip(0) =~= self.entries@);
        while i < n
            invariant
                n == self.entries@.len(),
                0 <= i <= n,
                input_value(self.entries@.skip(i as int), name@) == input_value(
                    self.entries@,
                    name@,
                ),
            decreases n - i,
        {
            let e = &self.entries[i];
            if e.0 == *name {
                assert(self.entries@.skip(i as int)[0] == self.entries@[i as int]);
                return Some(e.1);
            }
            assert(self.entries@.skip(i as int).drop_first() =~= self.entries@.skip(i + 1));
            i = i + 1;
        }
        assert(self.entries@.skip(n as int) =~= Seq::<(String, u64)>::empty());
        None
    }

    /// Whether an entry named `name` is present.
    pub fn contains_key(&self, name: &String) -> (r: bool)
        ensures
            r == has_input(self.entries@, name@),
    {
        proof {
            lemma_input_value_some(self.entries@, name@);
        }
        match self.get(name) {
            Some(_) => true,
            None => false,
        }
    }
}

/// One registered circuit: its identity, where its artifacts live, and the
/// ordered names of the inputs the circuit requires at proof time.
#[derive(Debug, Clone, PartialEq)]
pub struct ProverConfig {
    pub id: Option<i64>,
    pub name: String,
    pub version: String,
    pub path_to_wasm: String,
    pub path_to_zkey: String,
    pub path_to_r1cs: String,
    pub builder_params: Vec<String>,
}

/// The first required name absent from `inputs`, walking `names` in their
/// declared order.
pub open spec fn first_missing(names: Seq<Seq<char>>, inputs: Seq<(String, u64)>) -> Option<
    Seq<char>,
>
    decreases names.len(),
{
    if names.len() == 0 {
        None
    } else if !has_input(inputs, names[0]) {
        Some(names[0])
    } else {
        first_missing(names.drop_first(), inputs)
    }
}

/// When no required name is missing, each one is present.
pub proof fn lemma_none_missing(names: Seq<Seq<char>>, inputs: Seq<(String, u64)>)
    requires
        first_missing(names, inputs) is None,
    ensures
        forall|i: int| 0 <= i < names.len() ==> has_input(inputs, #[trigger] names[i]),
    decreases names.len(),
{
    if names.len() > 0 {
        lemma_none_missing(names.drop_first(), inputs);
        assert forall|i: int| 0 <= i < names.len() implies has_input(
            inputs,
            #[trigger] names[i],
        ) by {
            if i > 0 {
                assert(names.drop_first()[i - 1] == names[i]);
                assert(has_input(inputs, names.drop_first()[i - 1]));
            }
        }
    }
}

impl ProverConfig {
    /// Checks a proof request's inputs against the declared required names,
    /// in their declared order; the first absent name is reported, verbatim,
    /// as the `MissingParameter` message.
    pub fn validate_inputs(&self, inputs: &ProofInputs) -> (r: Result<bool, ProvingServerError>)
        ensures
            ({
                let fm = first_missing(self.builder_params.deep_view(), inputs.entries@);
                match r {
                    Ok(b) => b && fm is None,
                    Err(e) => e matches ProvingServerError::MissingParameter { message } && fm
                        == Some(message@),
                }
            }),
    {
        let ghost names = self.builder_params.deep_view();
        let n = self.builder_params.len();
        let mut i: usize = 0;
        assert(names.skip(0) =~= names);
        while i < n
            invariant
                names == self.builder_params.deep_view(),
                n == self.builder_params@.len(),
                n == names.len(),
                0 <= i <= n,
                first_missing(names.skip(i as int), inputs.entries@) == first_missing(
                    names,
                    inputs.entries@,
                ),
            decreases n - i,
        {
            let param = &self.builder_params[i];
            assert(names.skip(i as int)[0] == names[i as int]);
            assert(names[i as int] == param@);
            if !inputs.contains_key(param) {
                return Err(ProvingServerError::MissingParameter { message: param.clone() });
            }
            assert(names.skip(i as int).drop_first() =~= names.skip(i + 1));
            i = i + 1;
        }
        assert(names.skip(n as int) =~= Seq::<Seq<char>>::empty());
        Ok(true)
    }
}

/// The body of a registration request: a `ProverConfig` before the store has
/// assigned it an id.
#[derive(Debug, Clone, PartialEq)]
pub struct ProverConfigRequest {
    pub name: String,
    pub version: String,
    pub path_to_wasm: String,
    pub path_to_zkey: String,
    pub path_to_r1cs: String,
    pub builder_params: Vec<String>,
}

impl From<ProverConfigRequest> for ProverConfig {
    fn from(r: ProverConfigRequest) -> (c: ProverConfig) {
        ProverConfig {
            id: None,
            name: r.name,
            version: r.version,
            path_to_wasm: r.path_to_wasm,
            path_to_zkey: r.path_to_zkey,
            path_to_r1cs: r.path_to_r1cs,
            builder_params: r.builder_params,
        }
    }
}

/// The configuration a registration request carries, before an id exists.
pub open spec fn config_of_request(r: ProverConfigRequest) -> ProverConfig {
    ProverConfig {
        id: None,
        name: r.name,
        version: r.version,
        path_to_wasm: r.path_to_wasm,
        path_to_zkey: r.path_to_zkey,
        path_to_r1cs: r.path_to_r1cs,
        builder_params: r.builder_params,
    }
}

impl vstd::std_specs::convert::FromSpecImpl<ProverConfigRequest> for ProverConfig {
    open spec fn obeys_from_spec() -> bool {
        true
    }

    open spec fn from_spec(r: ProverConfigRequest) -> ProverConfig {
        config_of_request(r)
    }
}

/// Where a preparation run stands. `Pending` is initial; `Ready` and `Failed`
/// are terminal; a retry is a new job, never a reopened one.
#[derive(Debug, Clone, Copy, PartialEq, Eq, Structural)]
pub enum JobStatus {
    Pending,
    Processing,
    Ready,
    Failed,
}

/// The integer each status is stored as.
pub open spec fn status_code(s: JobStatus) -> int {
    match s {
        JobStatus::Pending => 0,
        JobStatus::Processing => 2,
        JobStatus::Ready => 3,
        JobStatus::Failed => 4,
    }
}

/// The status a stored integer decodes to, if any.
pub open spec fn status_of_code(code: int) -> Option<JobStatus> {
    if code == 0 {
        Some(JobStatus::Pending)
    } else if code == 2 {
        Some(JobStatus::Processing)
    } else if code == 3 {
        Some(JobStatus::Ready)
    } else if code == 4 {
        Some(JobStatus::Failed)
    } else {
        None
    }
}

impl JobStatus {
    pub fn to_code(&self) -> (r: i64)
        ensures
            r == status_code(*self),
    {
        match self {
            JobStatus::Pending => 0,
            JobStatus::Processing => 2,
            JobStatus::Ready => 3,
            JobStatus::Failed => 4,
        }
    }

    pub fn from_code(code: i64) -> (r: Option<JobStatus>)
        ensures
            r == status_of_code(code as int),
    {
        if code == 0 {
            Some(JobStatus::Pending)
        } else if code == 2 {
            Some(JobStatus::Processing)
        } else if code == 3 {
            Some(JobStatus::Ready)
        } else if code == 4 {
            Some(JobStatus::Failed)
        } else {
            None
        }
    }
}

/// One tracked preparation run for a prover.
#[derive(Debug, Clone, PartialEq)]
pub struct Job {
    pub id: Option<i64>,
    pub status: JobStatus,
    pub message: String,
    pub prover: i64,
}

/// What a status request reports of a job.
#[derive(Debug, Clone, PartialEq)]
pub struct JobResponse {
    pub status: JobStatus,
    pub message: String,
    pub prover: i64,
}

impl From<Job> for JobResponse {
    fn from(job: Job) -> (r: JobResponse) {
        JobResponse { status: job.status, message: job.message, prover: job.prover }
    }
}

impl vstd::std_specs::convert::FromSpecImpl<Job> for JobResponse {
    open spec fn obeys_from_spec() -> bool {
        true
    }

    open spec fn from_spec(job: Job) -> JobResponse {
        JobResponse { status: job.status, message: job.message, prover: job.prover }
    }
}

} // verus!
