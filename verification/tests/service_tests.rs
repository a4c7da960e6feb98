use proving_server::cache::Cache;
use proving_server::errors::ProvingServerError;
use proving_server::models::{Job, JobStatus, ProofInputs, ProverConfig, ProverConfigRequest};
use proving_server::queue::JobQueue;
use proving_server::service::{
    authorize_execution, begin_job, complete_job, fail_job, get_job_status, register_prover,
};
use proving_server::store::Store;
use proving_server::utils::{
    get_path_from_prover, get_prover_dir, get_r1cs_path, get_wasm_path, get_zkey_path,
    DatabaseMode, EnvConfig,
};

fn df_request() -> ProverConfigRequest {
    ProverConfigRequest {
        name: String::from("test"),
        version: String::from("0.0.1"),
        path_to_r1cs: String::from("https://unpkg.com/@darkforest_eth/snarks@6.6.6/move.r1cs"),
        path_to_wasm: String::from("https://unpkg.com/@darkforest_eth/snarks@6.6.6/move.wasm"),
        path_to_zkey: String::from("https://unpkg.com/@darkforest_eth/snarks@6.6.6/move.zkey"),
        builder_params: vec![
            String::from("x1"),
            String::from("y1"),
            String::from("x2"),
            String::from("y2"),
            String::from("r"),
            String::from("distMax"),
            String::from("PLANETHASH_KEY"),
            String::from("SPACETYPE_KEY"),
            String::from("SCALE"),
            String::from("xMirror"),
            String::from("yMirror"),
        ],
    }
}

fn env_config() -> EnvConfig {
    EnvConfig {
        zk_file_path: String::from("./zkey_files"),
        db_config: DatabaseMode::Memory,
    }
}

#[test]
fn index_greets() {
    assert_eq!(proving_server::index(), "Hello, world!");
}

#[test]
fn add_prover() {
    let mut store = Store::open_in_memory().expect("in-memory store");
    let mut queue = JobQueue::new();
    let prover = df_request();
    let jid = register_prover(&mut store, &mut queue, prover).expect("registration");
    assert_eq!(queue.dequeue(), Some(jid));
}

#[test]
fn insert_into_prover() {
    let mut store = Store::open_in_memory().unwrap();
    let req = df_request();
    let id = store
        .create_prover(&ProverConfig::from(req.clone()))
        .unwrap();
    let read = store.get_prover(id).unwrap();
    assert_eq!(read.id, Some(id));
    assert_eq!(read.name, req.name);
    assert_eq!(read.version, req.version);
    assert_eq!(read.path_to_wasm, req.path_to_wasm);
    assert_eq!(read.path_to_zkey, req.path_to_zkey);
    assert_eq!(read.path_to_r1cs, req.path_to_r1cs);
    assert_eq!(read.builder_params, req.builder_params);
}

#[test]
fn create_job() {
    let mut store = Store::open_in_memory().unwrap();
    let prover_id = store
        .create_prover(&ProverConfig::from(df_request()))
        .unwrap();
    let job = Job {
        id: None,
        status: JobStatus::Pending,
        message: String::from("test initiatization"),
        prover: prover_id,
    };
    let jid = store.create_job(&job).unwrap();
    let j2 = store.get_job(jid).unwrap();
    assert_eq!(j2.id, Some(jid));
    assert_eq!(j2.status, job.status);
    assert_eq!(j2.message, job.message);
    assert_eq!(j2.prover, job.prover);
}

#[test]
fn get_job_not_found() {
    let store = Store::open_in_memory().unwrap();
    assert_eq!(store.get_job(42), Err(ProvingServerError::NotFound));
}

#[test]
fn get_prover_not_found() {
    let store = Store::open_in_memory().unwrap();
    assert_eq!(store.get_prover(7), Err(ProvingServerError::NotFound));
    assert_eq!(
        ProverConfig::get_by_name_and_version(
            &String::from("nobody"),
            &String::from("9.9.9"),
            &store
        ),
        Err(ProvingServerError::NotFound)
    );
}

#[test]
fn status_codes_round_trip() {
    for status in [
        JobStatus::Pending,
        JobStatus::Processing,
        JobStatus::Ready,
        JobStatus::Failed,
    ] {
        assert_eq!(JobStatus::from_code(status.to_code()), Some(status));
    }
    assert_eq!(JobStatus::Pending.to_code(), 0);
    assert_eq!(JobStatus::Processing.to_code(), 2);
    assert_eq!(JobStatus::Ready.to_code(), 3);
    assert_eq!(JobStatus::Failed.to_code(), 4);
    assert_eq!(JobStatus::from_code(1), None);
    assert_eq!(JobStatus::from_code(7), None);
}

#[test]
fn queue_full_is_reported() {
    let mut queue = JobQueue::new();
    assert_eq!(queue.enqueue(1), Ok(()));
    assert_eq!(queue.enqueue(2), Err(ProvingServerError::QueueFull));
    assert_eq!(queue.dequeue(), Some(1));
    assert_eq!(queue.enqueue(3), Ok(()));
    assert_eq!(queue.dequeue(), Some(3));
    assert_eq!(queue.dequeue(), None);
}

#[test]
fn registration_survives_full_queue() {
    let mut store = Store::open_in_memory().unwrap();
    let mut queue = JobQueue::new();
    let first = register_prover(&mut store, &mut queue, df_request()).unwrap();
    let second = register_prover(&mut store, &mut queue, df_request());
    assert_eq!(second, Err(ProvingServerError::QueueFull));
    assert_eq!(queue.dequeue(), Some(first));
}

#[test]
fn validate_inputs_reports_first_missing() {
    let cfg = ProverConfig::from(df_request());
    let mut inputs = ProofInputs::new();
    inputs.insert(String::from("x1"), 100);
    inputs.insert(String::from("y1"), 100);
    // x2 is the first declared name that is absent.
    inputs.insert(String::from("y2"), 120);
    let err = cfg.validate_inputs(&inputs).unwrap_err();
    assert_eq!(
        err,
        ProvingServerError::MissingParameter {
            message: String::from("x2")
        }
    );
}

#[test]
fn validate_inputs_accepts_complete_map() {
    let cfg = ProverConfig::from(df_request());
    let mut inputs = ProofInputs::new();
    for name in &cfg.builder_params {
        inputs.insert(name.clone(), 1);
    }
    assert_eq!(cfg.validate_inputs(&inputs), Ok(true));
}

#[test]
fn validate_inputs_names_first_param_on_empty_map() {
    let cfg = ProverConfig::from(df_request());
    let inputs = ProofInputs::new();
    let err = cfg.validate_inputs(&inputs).unwrap_err();
    assert_eq!(
        err,
        ProvingServerError::MissingParameter {
            message: String::from("x1")
        }
    );
}

#[test]
fn proof_inputs_first_occurrence_wins() {
    let mut inputs = ProofInputs::new();
    inputs.insert(String::from("x"), 1);
    inputs.insert(String::from("x"), 2);
    assert_eq!(inputs.get(&String::from("x")), Some(1));
    assert_eq!(inputs.get(&String::from("y")), None);
    assert!(inputs.contains_key(&String::from("x")));
    assert!(!inputs.contains_key(&String::from("y")));
}

#[test]
fn paths_follow_root_version_name() {
    let config = env_config();
    let mut prover = ProverConfig::from(df_request());
    prover.name = String::from("move");
    prover.version = String::from("6.6.6");
    assert_eq!(
        get_path_from_prover(&prover, &config),
        String::from("./zkey_files/6.6.6/move")
    );
    assert_eq!(get_prover_dir(&prover, &config), "./zkey_files/6.6.6");
    assert_eq!(get_zkey_path(&prover, &config), "./zkey_files/6.6.6/move.zkey");
    assert_eq!(get_wasm_path(&prover, &config), "./zkey_files/6.6.6/move.wasm");
    assert_eq!(get_r1cs_path(&prover, &config), "./zkey_files/6.6.6/move.r1cs");
}

#[test]
fn reregistration_keeps_prior_terminal_job() {
    let mut store = Store::open_in_memory().unwrap();
    let mut queue = JobQueue::new();
    let first_job = register_prover(&mut store, &mut queue, df_request()).unwrap();
    queue.dequeue();
    // Drive the first preparation to its terminal state.
    let mut cache: Cache<u64> = Cache::new();
    let config = env_config();
    let plan = begin_job(&mut store, first_job, &config).unwrap();
    complete_job(
        &mut store,
        &mut cache,
        first_job,
        &plan.prover.name,
        7,
    )
    .unwrap();
    assert_eq!(store.get_job(first_job).unwrap().status, JobStatus::Ready);

    // Re-register the same (name, version): a new pending job appears and
    // the prior job's terminal state is untouched.
    let second_job = register_prover(&mut store, &mut queue, df_request()).unwrap();
    assert_ne!(first_job, second_job);
    assert_eq!(store.get_job(first_job).unwrap().status, JobStatus::Ready);
    assert_eq!(store.get_job(second_job).unwrap().status, JobStatus::Pending);

    // The status route resolves the most recently created job.
    let resp = get_job_status(&String::from("test"), &String::from("0.0.1"), &store).unwrap();
    assert_eq!(resp.status, JobStatus::Pending);
}

#[test]
fn failed_fetch_leaves_worker_usable() {
    let mut store = Store::open_in_memory().unwrap();
    let mut queue = JobQueue::new();
    let mut cache: Cache<u64> = Cache::new();
    let config = env_config();

    let first_job = register_prover(&mut store, &mut queue, df_request()).unwrap();
    let id1 = queue.dequeue().unwrap();
    let plan1 = begin_job(&mut store, id1, &config).unwrap();
    // The fetch of an artifact fails: the worker fails only this job.
    fail_job(
        &mut store,
        id1,
        format!("failed to fetch {}", plan1.prover.path_to_wasm),
    )
    .unwrap();
    assert_eq!(store.get_job(first_job).unwrap().status, JobStatus::Failed);

    // The next enqueued job is processed to completion.
    let second_job = register_prover(&mut store, &mut queue, df_request()).unwrap();
    let id2 = queue.dequeue().unwrap();
    let plan2 = begin_job(&mut store, id2, &config).unwrap();
    complete_job(&mut store, &mut cache, id2, &plan2.prover.name, 9).unwrap();
    assert_eq!(store.get_job(second_job).unwrap().status, JobStatus::Ready);
    assert_eq!(store.get_job(first_job).unwrap().status, JobStatus::Failed);
}

#[test]
fn begin_job_fails_job_with_missing_prover() {
    let mut store = Store::open_in_memory().unwrap();
    let job = Job {
        id: None,
        status: JobStatus::Pending,
        message: String::from("orphan"),
        prover: 9999,
    };
    let jid = store.create_job(&job).unwrap();
    let config = env_config();
    assert_eq!(
        begin_job(&mut store, jid, &config),
        Err(ProvingServerError::NotFound)
    );
    let failed = store.get_job(jid).unwrap();
    assert_eq!(failed.status, JobStatus::Failed);
    assert_eq!(failed.message, "prover configuration missing");
}

#[test]
fn begin_job_unknown_id_is_not_found() {
    let mut store = Store::open_in_memory().unwrap();
    let config = env_config();
    assert_eq!(
        begin_job(&mut store, 12345, &config),
        Err(ProvingServerError::NotFound)
    );
}

#[test]
fn create_prover_then_get_returns_all_fields() {
    let mut store = Store::open_in_memory().unwrap();
    let req = df_request();
    let cfg = ProverConfig::from(req.clone());
    let id = store.create_prover(&cfg).unwrap();
    let read = ProverConfig::get_by_name_and_version(&req.name, &req.version, &store).unwrap();
    assert_eq!(read.id, Some(id));
    assert_eq!(read.name, req.name);
    assert_eq!(read.version, req.version);
    assert_eq!(read.path_to_wasm, req.path_to_wasm);
    assert_eq!(read.path_to_zkey, req.path_to_zkey);
    assert_eq!(read.path_to_r1cs, req.path_to_r1cs);
    assert_eq!(read.builder_params, req.builder_params);
}

#[test]
fn cache_last_insert_wins() {
    let mut cache: Cache<u64> = Cache::new();
    assert!(cache.get(&String::from("move")).is_none());
    cache.insert(String::from("move"), 1);
    cache.insert(String::from("other"), 5);
    cache.insert(String::from("move"), 2);
    assert_eq!(cache.get(&String::from("move")), Some(&2));
    assert_eq!(cache.get(&String::from("other")), Some(&5));
    assert!(cache.contains(&String::from("move")));
    assert!(!cache.contains(&String::from("absent")));
}

#[test]
fn prover_scenario_move_0_0_1() {
    let mut store = Store::open_in_memory().unwrap();
    let mut queue = JobQueue::new();
    let mut cache: Cache<u64> = Cache::new();
    let config = env_config();
    let name = String::from("move");
    let version = String::from("0.0.1");

    let mut request = df_request();
    request.name = name.clone();
    request.builder_params = vec![
        String::from("x1"),
        String::from("y1"),
        String::from("x2"),
        String::from("y2"),
    ];
    register_prover(&mut store, &mut queue, request).unwrap();

    // The worker drains the queue and prepares the prover.
    let id = queue.dequeue().unwrap();
    let plan = begin_job(&mut store, id, &config).unwrap();
    assert_eq!(plan.wasm_path, "./zkey_files/0.0.1/move.wasm");
    assert_eq!(plan.zkey_path, "./zkey_files/0.0.1/move.zkey");
    assert_eq!(plan.r1cs_path, "./zkey_files/0.0.1/move.r1cs");
    complete_job(&mut store, &mut cache, id, &plan.prover.name, 11).unwrap();

    let resp = get_job_status(&name, &version, &store).unwrap();
    assert_eq!(resp.status, JobStatus::Ready);

    // A complete input map is cleared, in declared order.
    let mut inputs = ProofInputs::new();
    inputs.insert(String::from("x1"), 100);
    inputs.insert(String::from("y1"), 100);
    inputs.insert(String::from("x2"), 120);
    inputs.insert(String::from("y2"), 120);
    inputs.insert(String::from("extra"), 1);
    let ordered = authorize_execution(&store, &cache, &name, &version, &inputs).unwrap();
    assert_eq!(
        ordered,
        vec![
            (String::from("x1"), 100),
            (String::from("y1"), 100),
            (String::from("x2"), 120),
            (String::from("y2"), 120),
        ]
    );

    // Omitting x2 names exactly x2.
    let mut partial = ProofInputs::new();
    partial.insert(String::from("x1"), 100);
    partial.insert(String::from("y1"), 100);
    partial.insert(String::from("y2"), 120);
    assert_eq!(
        authorize_execution(&store, &cache, &name, &version, &partial),
        Err(ProvingServerError::MissingParameter {
            message: String::from("x2")
        })
    );
}

#[test]
fn execution_requires_prepared_capability() {
    let mut store = Store::open_in_memory().unwrap();
    let mut queue = JobQueue::new();
    let cache: Cache<u64> = Cache::new();
    register_prover(&mut store, &mut queue, df_request()).unwrap();
    let inputs = ProofInputs::new();
    // Registered but not prepared: a distinct "not ready" condition.
    assert_eq!(
        authorize_execution(
            &store,
            &cache,
            &String::from("test"),
            &String::from("0.0.1"),
            &inputs
        ),
        Err(ProvingServerError::NotReady)
    );
}

#[test]
fn execution_requires_registered_prover() {
    let store = Store::open_in_memory().unwrap();
    let mut cache: Cache<u64> = Cache::new();
    cache.insert(String::from("ghost"), 3);
    let inputs = ProofInputs::new();
    assert_eq!(
        authorize_execution(
            &store,
            &cache,
            &String::from("ghost"),
            &String::from("1.0.0"),
            &inputs
        ),
        Err(ProvingServerError::NotFound)
    );
}

#[test]
fn status_for_unknown_prover_is_not_found() {
    let store = Store::open_in_memory().unwrap();
    assert_eq!(
        get_job_status(&String::from("nobody"), &String::from("0.0.0"), &store),
        Err(ProvingServerError::NotFound)
    );
}

#[test]
fn attach_refuses_preinitialized_database() {
    let conn = rusqlite::Connection::open_in_memory().unwrap();
    conn.execute("CREATE TABLE prover (id INTEGER PRIMARY KEY)", ())
        .unwrap();
    match Store::attach(conn) {
        Err(ProvingServerError::StoreError { message }) => {
            assert!(message.contains("prover"));
        }
        Err(other) => panic!("expected a store error, got {:?}", other),
        Ok(_) => panic!("expected a store error, got a store"),
    }
}

#[test]
fn duplicate_provers_resolve_to_earliest() {
    let mut store = Store::open_in_memory().unwrap();
    let first = df_request();
    let mut second = df_request();
    second.path_to_wasm = String::from("https://example.invalid/other.wasm");
    let id1 = store.create_prover(&ProverConfig::from(first.clone())).unwrap();
    let id2 = store.create_prover(&ProverConfig::from(second)).unwrap();
    assert!(id1 < id2);
    let read = ProverConfig::get_by_name_and_version(&first.name, &first.version, &store).unwrap();
    assert_eq!(read.id, Some(id1));
    assert_eq!(read.path_to_wasm, first.path_to_wasm);
}

#[test]
fn authorized_inputs_follow_declared_order() {
    let mut store = Store::open_in_memory().unwrap();
    let mut queue = JobQueue::new();
    let mut cache: Cache<u64> = Cache::new();
    let config = env_config();
    let mut request = df_request();
    request.builder_params = vec![String::from("a"), String::from("b"), String::from("c")];
    register_prover(&mut store, &mut queue, request).unwrap();
    let id = queue.dequeue().unwrap();
    let plan = begin_job(&mut store, id, &config).unwrap();
    complete_job(&mut store, &mut cache, id, &plan.prover.name, 1).unwrap();

    // The map arrives in another order; the authorized pairs still follow
    // the declared parameter order.
    let mut inputs = ProofInputs::new();
    inputs.insert(String::from("c"), 3);
    inputs.insert(String::from("a"), 1);
    inputs.insert(String::from("b"), 2);
    let ordered = authorize_execution(
        &store,
        &cache,
        &String::from("test"),
        &String::from("0.0.1"),
        &inputs,
    )
    .unwrap();
    assert_eq!(
        ordered,
        vec![
            (String::from("a"), 1),
            (String::from("b"), 2),
            (String::from("c"), 3),
        ]
    );
}
