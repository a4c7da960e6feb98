use vstd::prelude::*;

use crate::errors::ProvingServerError;
use crate::models::{status_code, status_of_code, Job, JobStatus, ProverConfig};

verus! {

//////////////////////////////////////////////////////////////////////////////
// The relational store, held behind a rusqlite connection.
//
// The three tables are modelled as sequences of rows in insertion order.
// Every insert appends a row whose id is larger than every id already in its
// table, so the sequences are also sorted by id; the query wrappers read rows
// back `ORDER BY id`, which under that sortedness is exactly a filter of the
// modelled sequence.
//////////////////////////////////////////////////////////////////////////////

#[verifier::external_type_specification]
#[verifier::external_body]
pub struct ExConnection(rusqlite::Connection);

#[verifier::external_type_specification]
#[verifier::external_body]
pub struct ExSqlError(rusqlite::Error);

/// One row of the prover table.
#[verifier::ext_equal]
pub ghost struct ProverRowV {
    pub id: i64,
    pub name: Seq<char>,
    pub version: Seq<char>,
    pub wasm: Seq<char>,
    pub zkey: Seq<char>,
    pub r1cs: Seq<char>,
}

/// One row of the builder-parameter table.
#[verifier::ext_equal]
pub ghost struct ParamRowV {
    pub id: i64,
    pub name: Seq<char>,
    pub prover: i64,
}

/// One row of the job table; `status` is the stored integer code.
#[verifier::ext_equal]
pub ghost struct JobRowV {
    pub id: i64,
    pub status: int,
    pub message: Seq<char>,
    pub prover: i64,
}

/// The rows of the prover table held by a connection, in insertion order.
pub uninterp spec fn prover_table(conn: rusqlite::Connection) -> Seq<ProverRowV>;

/// The rows of the builder-parameter table, in insertion order.
pub uninterp spec fn param_table(conn: rusqlite::Connection) -> Seq<ParamRowV>;

/// The rows of the job table, in insertion order.
pub uninterp spec fn job_table(conn: rusqlite::Connection) -> Seq<JobRowV>;

/// The prover rows the database would show after a rollback: its committed
/// state. Outside a transaction the committed state and the visible tables
/// coincide; the contracts only ever relate them through the transaction
/// wrappers below.
pub uninterp spec fn committed_provers(conn: rusqlite::Connection) -> Seq<ProverRowV>;

/// The committed builder-parameter rows, as above.
pub uninterp spec fn committed_params(conn: rusqlite::Connection) -> Seq<ParamRowV>;

/// The committed job rows, as above.
pub uninterp spec fn committed_jobs(conn: rusqlite::Connection) -> Seq<JobRowV>;

/// Whether an explicit transaction is open on the connection.
pub uninterp spec fn in_transaction(conn: rusqlite::Connection) -> bool;

/// The three visible tables are the same on both connections' states.
pub open spec fn tables_unchanged(c0: rusqlite::Connection, c1: rusqlite::Connection) -> bool {
    &&& prover_table(c1) == prover_table(c0)
    &&& param_table(c1) == param_table(c0)
    &&& job_table(c1) == job_table(c0)
}

/// The committed state is the same on both connections' states.
pub open spec fn committed_unchanged(c0: rusqlite::Connection, c1: rusqlite::Connection) -> bool {
    &&& committed_provers(c1) == committed_provers(c0)
    &&& committed_params(c1) == committed_params(c0)
    &&& committed_jobs(c1) == committed_jobs(c0)
}

/// The visible tables of `c1` are the committed state of `c0`: what a
/// rollback — explicit, or automatic on a hard error — leaves behind.
pub open spec fn reverted_to_committed(c0: rusqlite::Connection, c1: rusqlite::Connection) -> bool {
    &&& prover_table(c1) == committed_provers(c0)
    &&& param_table(c1) == committed_params(c0)
    &&& job_table(c1) == committed_jobs(c0)
}

//////////////////////////////////////////////////////////////////////////////
// Spec-level readings of the modelled tables.
//////////////////////////////////////////////////////////////////////////////

/// The first prover row bearing `id`, if any.
pub open spec fn find_prover(s: Seq<ProverRowV>, id: i64) -> Option<ProverRowV>
    decreases s.len(),
{
    if s.len() == 0 {
        None
    } else if s[0].id == id {
        Some(s[0])
    } else {
        find_prover(s.drop_first(), id)
    }
}

/// The first job row bearing `id`, if any.
pub open spec fn find_job(s: Seq<JobRowV>, id: i64) -> Option<JobRowV>
    decreases s.len(),
{
    if s.len() == 0 {
        None
    } else if s[0].id == id {
        Some(s[0])
    } else {
        find_job(s.drop_first(), id)
    }
}

/// The prover rows named `(name, version)`, keeping table order.
pub open spec fn provers_matching(s: Seq<ProverRowV>, name: Seq<char>, version: Seq<char>) -> Seq<
    ProverRowV,
>
    decreases s.len(),
{
    if s.len() == 0 {
        Seq::empty()
    } else if s[0].name == name && s[0].version == version {
        seq![s[0]] + provers_matching(s.drop_first(), name, version)
    } else {
        provers_matching(s.drop_first(), name, version)
    }
}

/// The names of the builder parameters owned by prover `prover`, in their
/// declared (insertion) order.
pub open spec fn param_names_for(s: Seq<ParamRowV>, prover: i64) -> Seq<Seq<char>>
    decreases s.len(),
{
    if s.len() == 0 {
        Seq::empty()
    } else if s[0].prover == prover {
        seq![s[0].name] + param_names_for(s.drop_first(), prover)
    } else {
        param_names_for(s.drop_first(), prover)
    }
}

/// The job table after the row bearing `id` is given a new status and
/// message; every other row is untouched.
pub open spec fn update_jobs(s: Seq<JobRowV>, id: i64, status: int, message: Seq<char>) -> Seq<
    JobRowV,
> {
    s.map_values(
        |r: JobRowV|
            if r.id == id {
                JobRowV { id: r.id, status, message, prover: r.prover }
            } else {
                r
            },
    )
}

/// `id` is strictly above every id in the prover table.
pub open spec fn fresh_prover_id(s: Seq<ProverRowV>, id: i64) -> bool {
    forall|k: int| 0 <= k < s.len() ==> s[k].id < id
}

/// `id` is strictly above every id in the job table.
pub open spec fn fresh_job_id(s: Seq<JobRowV>, id: i64) -> bool {
    forall|k: int| 0 <= k < s.len() ==> s[k].id < id
}

/// `id` is strictly above every id in the parameter table.
pub open spec fn fresh_param_id(s: Seq<ParamRowV>, id: i64) -> bool {
    forall|k: int| 0 <= k < s.len() ==> s[k].id < id
}

/// The prover row that persisting `cfg` under `id` writes.
pub open spec fn prover_row_of(id: i64, cfg: ProverConfig) -> ProverRowV {
    ProverRowV {
        id,
        name: cfg.name@,
        version: cfg.version@,
        wasm: cfg.path_to_wasm@,
        zkey: cfg.path_to_zkey@,
        r1cs: cfg.path_to_r1cs@,
    }
}

/// `p1` is `p0` followed by the first `k` of `names` as parameter rows of
/// prover `prover`, in their declared order.
pub open spec fn params_appended(
    p0: Seq<ParamRowV>,
    p1: Seq<ParamRowV>,
    names: Seq<String>,
    prover: i64,
    k: int,
) -> bool {
    &&& 0 <= k <= names.len()
    &&& p1.len() == p0.len() + k
    &&& p1.subrange(0, p0.len() as int) == p0
    &&& forall|m: int|
        0 <= m < k ==> (#[trigger] p1[p0.len() + m]).prover == prover && p1[p0.len() + m].name
            == names[m]@
}

/// A failed registration left the store exactly as it was.
pub open spec fn create_rolled_back(s0: Store, s1: Store) -> bool {
    &&& s1.provers() == s0.provers()
    &&& s1.params() == s0.params()
    &&& s1.jobs() == s0.jobs()
}

/// What a failed registration whose rollback itself failed can leave: the
/// staged prover row under a fresh id and the first `k` parameter rows,
/// with every pre-existing row untouched.
pub open spec fn create_residue(s0: Store, s1: Store, cfg: ProverConfig) -> bool {
    exists|id: i64, k: int|
        {
            &&& fresh_prover_id(s0.provers(), id)
            &&& s1.provers() == s0.provers().push(prover_row_of(id, cfg))
            &&& params_appended(s0.params(), s1.params(), cfg.builder_params@, id, k)
            &&& s1.jobs() == s0.jobs()
        }
}

/// The configuration `cfg` carries exactly the fields of prover row `row`.
pub open spec fn config_matches_row(cfg: ProverConfig, row: ProverRowV) -> bool {
    &&& cfg.id == Some(row.id)
    &&& cfg.name@ == row.name
    &&& cfg.version@ == row.version
    &&& cfg.path_to_wasm@ == row.wasm
    &&& cfg.path_to_zkey@ == row.zkey
    &&& cfg.path_to_r1cs@ == row.r1cs
}

/// The job value `j` carries exactly the fields of job row `row`.
pub open spec fn job_matches_row(j: Job, row: JobRowV) -> bool {
    &&& j.id == Some(row.id)
    &&& status_of_code(row.status) == Some(j.status)
    &&& j.message@ == row.message
    &&& j.prover == row.prover
}

/// The job at index `i` belongs to some prover named `(name, version)`.
pub open spec fn is_job_for(
    jobs: Seq<JobRowV>,
    provers: Seq<ProverRowV>,
    name: Seq<char>,
    version: Seq<char>,
    i: int,
) -> bool {
    &&& 0 <= i < jobs.len()
    &&& exists|q: int|
        0 <= q < provers.len() && provers[q].id == jobs[i].prover && provers[q].name == name
            && provers[q].version == version
}

//////////////////////////////////////////////////////////////////////////////
// Rows as executable values, for the query wrappers.
//////////////////////////////////////////////////////////////////////////////

/// An executable prover row, as read back from the store.
pub struct ProverRow {
    pub id: i64,
    pub name: String,
    pub version: String,
    pub path_to_wasm: String,
    pub path_to_zkey: String,
    pub path_to_r1cs: String,
}

impl View for ProverRow {
    type V = ProverRowV;

    open spec fn view(&self) -> ProverRowV {
        ProverRowV {
            id: self.id,
            name: self.name@,
            version: self.version@,
            wasm: self.path_to_wasm@,
            zkey: self.path_to_zkey@,
            r1cs: self.path_to_r1cs@,
        }
    }
}

impl DeepView for ProverRow {
    type V = ProverRowV;

    open spec fn deep_view(&self) -> ProverRowV {
        self@
    }
}

/// An executable job row, as read back from the store.
pub struct JobRow {
    pub id: i64,
    pub status: i64,
    pub message: String,
    pub prover: i64,
}

impl View for JobRow {
    type V = JobRowV;

    open spec fn view(&self) -> JobRowV {
        JobRowV { id: self.id, status: self.status as int, message: self.message@, prover: self.prover }
    }
}

impl DeepView for JobRow {
    type V = JobRowV;

    open spec fn deep_view(&self) -> JobRowV {
        self@
    }
}

//////////////////////////////////////////////////////////////////////////////
// Trusted wrappers around rusqlite. Each holds one SQL statement.
//////////////////////////////////////////////////////////////////////////////

/// Relies on rusqlite `Connection::open_in_memory`: a fresh private database.
#[verifier::external_body]
fn open_memory_conn() -> (r: Result<rusqlite::Connection, rusqlite::Error>)
    ensures
        r matches Ok(conn) ==> prover_table(conn).len() == 0 && param_table(conn).len() == 0
            && job_table(conn).len() == 0,
{
    rusqlite::Connection::open_in_memory()
}

/// Relies on rusqlite `Connection::execute` of CREATE TABLE: a newly created
/// table is empty, and creating it touches no other table.
#[verifier::external_body]
fn create_prover_table(conn: &mut rusqlite::Connection) -> (r: Result<(), rusqlite::Error>)
    ensures
        r matches Ok(_) ==> prover_table(*final(conn)).len() == 0 && param_table(*final(conn))
            == param_table(*old(conn)) && job_table(*final(conn)) == job_table(*old(conn)),
        r matches Err(_) ==> prover_table(*final(conn)) == prover_table(*old(conn)) && param_table(
            *final(conn),
        ) == param_table(*old(conn)) && job_table(*final(conn)) == job_table(*old(conn)),
{
    conn.execute(
        "CREATE TABLE prover (id INTEGER PRIMARY KEY, name TEXT NOT NULL, version TEXT NOT NULL, path_to_wasm TEXT NOT NULL, path_to_zkey TEXT NOT NULL, path_to_r1cs TEXT NOT NULL)",
        (),
    )?;
    Ok(())
}

/// Relies on rusqlite `Connection::execute` of CREATE TABLE, as above.
#[verifier::external_body]
fn create_param_table(conn: &mut rusqlite::Connection) -> (r: Result<(), rusqlite::Error>)
    ensures
        r matches Ok(_) ==> param_table(*final(conn)).len() == 0 && prover_table(*final(conn))
            == prover_table(*old(conn)) && job_table(*final(conn)) == job_table(*old(conn)),
        r matches Err(_) ==> prover_table(*final(conn)) == prover_table(*old(conn)) && param_table(
            *final(conn),
        ) == param_table(*old(conn)) && job_table(*final(conn)) == job_table(*old(conn)),
{
    conn.execute(
        "CREATE TABLE builder_params (id INTEGER PRIMARY KEY, name TEXT NOT NULL, prover INTEGER)",
        (),
    )?;
    Ok(())
}

/// Relies on rusqlite `Connection::execute` of CREATE TABLE, as above.
#[verifier::external_body]
fn create_job_table(conn: &mut rusqlite::Connection) -> (r: Result<(), rusqlite::Error>)
    ensures
        r matches Ok(_) ==> job_table(*final(conn)).len() == 0 && prover_table(*final(conn))
            == prover_table(*old(conn)) && param_table(*final(conn)) == param_table(*old(conn)),
        r matches Err(_) ==> prover_table(*final(conn)) == prover_table(*old(conn)) && param_table(
            *final(conn),
        ) == param_table(*old(conn)) && job_table(*final(conn)) == job_table(*old(conn)),
{
    conn.execute(
        "CREATE TABLE job (id INTEGER PRIMARY KEY, status INTEGER NOT NULL, message TEXT NOT NULL, prover INTEGER)",
        (),
    )?;
    Ok(())
}

/// Relies on rusqlite `Connection::execute` of an INSERT and
/// `last_insert_rowid`: sqlite appends the row under a rowid one above the
/// largest rowid the table holds, so strictly above every id already
/// there; a failed statement leaves the database unchanged.
#[verifier::external_body]
fn insert_prover_row(
    conn: &mut rusqlite::Connection,
    name: &String,
    version: &String,
    wasm: &String,
    zkey: &String,
    r1cs: &String,
) -> (r: Result<i64, rusqlite::Error>)
    ensures
        r matches Ok(id) ==> fresh_prover_id(prover_table(*old(conn)), id) && prover_table(
            *final(conn),
        ) == prover_table(*old(conn)).push(
            ProverRowV {
                id,
                name: name@,
                version: version@,
                wasm: wasm@,
                zkey: zkey@,
                r1cs: r1cs@,
            },
        ) && param_table(*final(conn)) == param_table(*old(conn)) && job_table(*final(conn))
            == job_table(*old(conn)) && (in_transaction(*old(conn)) ==> in_transaction(
            *final(conn),
        ) && committed_unchanged(*old(conn), *final(conn))),
        r matches Err(_) ==> (tables_unchanged(*old(conn), *final(conn)) && in_transaction(
            *final(conn),
        ) == in_transaction(*old(conn)) && (in_transaction(*old(conn)) ==> committed_unchanged(
            *old(conn),
            *final(conn),
        ))) || (in_transaction(*old(conn)) && !in_transaction(*final(conn))
            && reverted_to_committed(*old(conn), *final(conn)) && committed_unchanged(
            *old(conn),
            *final(conn),
        )),
{
    conn.execute(
        "INSERT INTO prover (name, version, path_to_wasm, path_to_zkey, path_to_r1cs) VALUES (?1, ?2, ?3, ?4, ?5)",
        (name, version, wasm, zkey, r1cs),
    )?;
    Ok(conn.last_insert_rowid())
}

/// Relies on rusqlite `Connection::execute` of an INSERT and
/// `last_insert_rowid`, as for the prover table.
#[verifier::external_body]
fn insert_param_row(conn: &mut rusqlite::Connection, name: &String, prover: i64) -> (r: Result<
    i64,
    rusqlite::Error,
>)
    ensures
        r matches Ok(id) ==> fresh_param_id(param_table(*old(conn)), id) && param_table(
            *final(conn),
        ) == param_table(*old(conn)).push(ParamRowV { id, name: name@, prover }) && prover_table(
            *final(conn),
        ) == prover_table(*old(conn)) && job_table(*final(conn)) == job_table(*old(conn)) && (
        in_transaction(*old(conn)) ==> in_transaction(*final(conn)) && committed_unchanged(
            *old(conn),
            *final(conn),
        )),
        r matches Err(_) ==> (tables_unchanged(*old(conn), *final(conn)) && in_transaction(
            *final(conn),
        ) == in_transaction(*old(conn)) && (in_transaction(*old(conn)) ==> committed_unchanged(
            *old(conn),
            *final(conn),
        ))) || (in_transaction(*old(conn)) && !in_transaction(*final(conn))
            && reverted_to_committed(*old(conn), *final(conn)) && committed_unchanged(
            *old(conn),
            *final(conn),
        )),
{
    conn.execute("INSERT INTO builder_params (name, prover) VALUES (?1, ?2)", (name, &prover))?;
    Ok(conn.last_insert_rowid())
}

/// Relies on rusqlite `Connection::execute` of an INSERT and
/// `last_insert_rowid`: the fresh rowid is one above the largest the table
/// holds, so strictly above every job id already there.
#[verifier::external_body]
fn insert_job_row(conn: &mut rusqlite::Connection, status: i64, message: &String, prover: i64) -> (r:
    Result<i64, rusqlite::Error>)
    ensures
        r matches Ok(id) ==> fresh_job_id(job_table(*old(conn)), id) && job_table(*final(conn))
            == job_table(*old(conn)).push(
            JobRowV { id, status: status as int, message: message@, prover },
        ) && prover_table(*final(conn)) == prover_table(*old(conn)) && param_table(*final(conn))
            == param_table(*old(conn)),
        r matches Err(_) ==> prover_table(*final(conn)) == prover_table(*old(conn)) && param_table(
            *final(conn),
        ) == param_table(*old(conn)) && job_table(*final(conn)) == job_table(*old(conn)),
{
    conn.execute("INSERT INTO job (status, message, prover) VALUES (?1, ?2, ?3)", (&status, message, &prover))?;
    Ok(conn.last_insert_rowid())
}

/// Relies on rusqlite `Connection::execute` of an UPDATE with a WHERE on the
/// primary key: exactly the rows bearing `id` get the new status and
/// message; a failed statement leaves the database unchanged.
#[verifier::external_body]
fn update_job_row(conn: &mut rusqlite::Connection, id: i64, status: i64, message: &String) -> (r:
    Result<(), rusqlite::Error>)
    ensures
        r matches Ok(_) ==> job_table(*final(conn)) == update_jobs(
            job_table(*old(conn)),
            id,
            status as int,
            message@,
        ) && prover_table(*final(conn)) == prover_table(*old(conn)) && param_table(*final(conn))
            == param_table(*old(conn)),
        r matches Err(_) ==> prover_table(*final(conn)) == prover_table(*old(conn)) && param_table(
            *final(conn),
        ) == param_table(*old(conn)) && job_table(*final(conn)) == job_table(*old(conn)),
{
    conn.execute("UPDATE job SET status = ?2, message = ?3 WHERE id = ?1", (&id, &status, message))?;
    Ok(())
}

/// Relies on rusqlite `Connection::execute_batch` of BEGIN: a deferred
/// transaction opens, the visible tables do not move, and the committed
/// state is exactly what the tables hold; a BEGIN inside an open
/// transaction fails and changes nothing.
#[verifier::external_body]
fn begin_tx(conn: &mut rusqlite::Connection) -> (r: Result<(), rusqlite::Error>)
    ensures
        r matches Ok(_) ==> in_transaction(*final(conn)) && tables_unchanged(
            *old(conn),
            *final(conn),
        ) && committed_provers(*final(conn)) == prover_table(*final(conn)) && committed_params(
            *final(conn),
        ) == param_table(*final(conn)) && committed_jobs(*final(conn)) == job_table(*final(conn)),
        r matches Err(_) ==> tables_unchanged(*old(conn), *final(conn)) && committed_unchanged(
            *old(conn),
            *final(conn),
        ) && in_transaction(*final(conn)) == in_transaction(*old(conn)),
{
    conn.execute_batch("BEGIN")?;
    Ok(())
}

/// Relies on rusqlite `Connection::execute_batch` of COMMIT: on success the
/// staged rows become the committed state and the visible tables do not
/// move. A failed COMMIT either leaves the open transaction and all state
/// as they were (busy), or — on a hard error — the transaction is rolled
/// back automatically and the tables revert to the committed state.
#[verifier::external_body]
fn commit_tx(conn: &mut rusqlite::Connection) -> (r: Result<(), rusqlite::Error>)
    ensures
        r matches Ok(_) ==> !in_transaction(*final(conn)) && tables_unchanged(
            *old(conn),
            *final(conn),
        ) && committed_provers(*final(conn)) == prover_table(*final(conn)) && committed_params(
            *final(conn),
        ) == param_table(*final(conn)) && committed_jobs(*final(conn)) == job_table(*final(conn)),
        r matches Err(_) ==> (tables_unchanged(*old(conn), *final(conn)) && committed_unchanged(
            *old(conn),
            *final(conn),
        ) && in_transaction(*final(conn)) == in_transaction(*old(conn))) || (reverted_to_committed(
            *old(conn),
            *final(conn),
        ) && committed_unchanged(*old(conn), *final(conn)) && !in_transaction(*final(conn))),
{
    conn.execute_batch("COMMIT")?;
    Ok(())
}

/// Relies on rusqlite `Connection::execute_batch` of ROLLBACK: on success
/// the visible tables revert to the committed state and the transaction
/// closes; a failed ROLLBACK — including one issued with no transaction
/// open — performs nothing.
#[verifier::external_body]
fn rollback_tx(conn: &mut rusqlite::Connection) -> (r: Result<(), rusqlite::Error>)
    ensures
        r matches Ok(_) ==> reverted_to_committed(*old(conn), *final(conn)) && committed_unchanged(
            *old(conn),
            *final(conn),
        ) && !in_transaction(*final(conn)),
        r matches Err(_) ==> tables_unchanged(*old(conn), *final(conn)) && committed_unchanged(
            *old(conn),
            *final(conn),
        ) && in_transaction(*final(conn)) == in_transaction(*old(conn)),
{
    conn.execute_batch("ROLLBACK")?;
    Ok(())
}

/// Relies on rusqlite `Statement::query_map` of a SELECT with a WHERE on the
/// primary key: the first (under the key, only) row bearing `id`, or none.
#[verifier::external_body]
fn query_prover_row_by_id(conn: &rusqlite::Connection, id: i64) -> (r: Result<
    Option<ProverRow>,
    rusqlite::Error,
>)
    ensures
        r matches Ok(o) ==> match o {
            Some(row) => find_prover(prover_table(*conn), id) == Some(row@),
            None => find_prover(prover_table(*conn), id) is None,
        },
{
    let mut stmt = conn.prepare(
        "SELECT id, name, version, path_to_wasm, path_to_zkey, path_to_r1cs FROM prover WHERE id = ?1",
    )?;
    let mut rows = stmt.query_map((&id,), |row| {
        Ok(ProverRow { id: row.get(0)?, name: row.get(1)?, version: row.get(2)?, path_to_wasm: row.get(3)?, path_to_zkey: row.get(4)?, path_to_r1cs: row.get(5)? })
    })?;
    match rows.next() {
        Some(row) => Ok(Some(row?)),
        None => Ok(None),
    }
}

/// Relies on rusqlite `Statement::query_map` of a SELECT with a WHERE on
/// `(name, version)` ordered by the primary key: the matching rows in id
/// order, which is their insertion order since ids only grow.
#[verifier::external_body]
fn query_prover_rows_by_name_version(
    conn: &rusqlite::Connection,
    name: &String,
    version: &String,
) -> (r: Result<Vec<ProverRow>, rusqlite::Error>)
    ensures
        r matches Ok(v) ==> v.deep_view() == provers_matching(
            prover_table(*conn),
            name@,
            version@,
        ),
{
    let mut stmt = conn.prepare(
        "SELECT id, name, version, path_to_wasm, path_to_zkey, path_to_r1cs FROM prover WHERE name = ?1 AND version = ?2 ORDER BY id",
    )?;
    let rows = stmt.query_map((name, version), |row| {
        Ok(ProverRow { id: row.get(0)?, name: row.get(1)?, version: row.get(2)?, path_to_wasm: row.get(3)?, path_to_zkey: row.get(4)?, path_to_r1cs: row.get(5)? })
    })?;
    let mut out: Vec<ProverRow> = Vec::new();
    for row in rows {
        out.push(row?);
    }
    Ok(out)
}

/// Relies on rusqlite `Statement::query_map` of a SELECT with a WHERE on the
/// owner column ordered by the primary key: the owned parameter names in id
/// order, which is their insertion order since ids only grow.
#[verifier::external_body]
fn query_param_names_for_prover(conn: &rusqlite::Connection, prover: i64) -> (r: Result<
    Vec<String>,
    rusqlite::Error,
>)
    ensures
        r matches Ok(v) ==> v.deep_view() == param_names_for(param_table(*conn), prover),
{
    let mut stmt = conn.prepare("SELECT name FROM builder_params WHERE prover = ?1 ORDER BY id")?;
    let rows = stmt.query_map((&prover,), |row| row.get(0))?;
    let mut out: Vec<String> = Vec::new();
    for row in rows {
        out.push(row?);
    }
    Ok(out)
}

/// Relies on rusqlite `Statement::query_map` of a SELECT with a WHERE on the
/// primary key: the only row bearing `id`, or none.
#[verifier::external_body]
fn query_job_row_by_id(conn: &rusqlite::Connection, id: i64) -> (r: Result<
    Option<JobRow>,
    rusqlite::Error,
>)
    ensures
        r matches Ok(o) ==> match o {
            Some(row) => find_job(job_table(*conn), id) == Some(row@),
            None => find_job(job_table(*conn), id) is None,
        },
{
    let mut stmt = conn.prepare("SELECT id, status, message, prover FROM job WHERE id = ?1")?;
    let mut rows = stmt.query_map((&id,), |row| {
        Ok(JobRow { id: row.get(0)?, status: row.get(1)?, message: row.get(2)?, prover: row.get(3)? })
    })?;
    match rows.next() {
        Some(row) => Ok(Some(row?)),
        None => Ok(None),
    }
}

/// Relies on rusqlite `Statement::query_map` of a SELECT ordered by the
/// primary key: the whole job table in id order, which is its insertion
/// order since ids only grow.
#[verifier::external_body]
fn query_all_job_rows(conn: &rusqlite::Connection) -> (r: Result<Vec<JobRow>, rusqlite::Error>)
    ensures
        r matches Ok(v) ==> v.deep_view() == job_table(*conn),
{
    let mut stmt = conn.prepare("SELECT id, status, message, prover FROM job ORDER BY id")?;
    let rows = stmt.query_map((), |row| {
        Ok(JobRow { id: row.get(0)?, status: row.get(1)?, message: row.get(2)?, prover: row.get(3)? })
    })?;
    let mut out: Vec<JobRow> = Vec::new();
    for row in rows {
        out.push(row?);
    }
    Ok(out)
}

/// Relies on rusqlite's `Display` for `Error`, only to word a message.
#[verifier::external_body]
fn sql_error_message(e: &rusqlite::Error) -> String {
    format!("{}", e)
}

/// Folds a rusqlite error into the service's error taxonomy.
fn store_error(e: rusqlite::Error) -> (r: ProvingServerError)
    ensures
        r matches ProvingServerError::StoreError { message },
{
    ProvingServerError::StoreError { message: sql_error_message(&e) }
}

//////////////////////////////////////////////////////////////////////////////
// Lemmas about the spec-level table readings.
//////////////////////////////////////////////////////////////////////////////

/// A successful `find_job` names a row of the table bearing the id; a failed
/// one means no row bears it.
pub proof fn lemma_find_job_chars(s: Seq<JobRowV>, id: i64)
    ensures
        find_job(s, id) matches Some(r) ==> r.id == id && exists|i: int|
            0 <= i < s.len() && s[i] == r,
        find_job(s, id) is None ==> forall|i: int| 0 <= i < s.len() ==> (#[trigger] s[i]).id != id,
    decreases s.len(),
{
    if s.len() > 0 {
        if s[0].id == id {
            let r = find_job(s, id).unwrap();
            assert(s[0] == r);
            assert(exists|i: int| 0 <= i < s.len() && s[i] == r);
        } else {
            lemma_find_job_chars(s.drop_first(), id);
            if find_job(s.drop_first(), id) is Some {
                let r = find_job(s.drop_first(), id).unwrap();
                let i = choose|i: int| 0 <= i < s.drop_first().len() && s.drop_first()[i] == r;
                assert(s[i + 1] == r);
            } else {
                assert forall|i: int| 0 <= i < s.len() implies (#[trigger] s[i]).id != id by {
                    if i > 0 {
                        assert(s.drop_first()[i - 1] == s[i]);
                    }
                }
            }
        }
    }
}

/// A successful `find_prover` names a row of the table bearing the id; a
/// failed one means no row bears it.
pub proof fn lemma_find_prover_chars(s: Seq<ProverRowV>, id: i64)
    ensures
        find_prover(s, id) matches Some(r) ==> r.id == id && exists|i: int|
            0 <= i < s.len() && s[i] == r,
        find_prover(s, id) is None ==> forall|i: int| 0 <= i < s.len() ==> (#[trigger] s[i]).id
            != id,
    decreases s.len(),
{
    if s.len() > 0 {
        if s[0].id == id {
            let r = find_prover(s, id).unwrap();
            assert(s[0] == r);
            assert(exists|i: int| 0 <= i < s.len() && s[i] == r);
        } else {
            lemma_find_prover_chars(s.drop_first(), id);
            if find_prover(s.drop_first(), id) is Some {
                let r = find_prover(s.drop_first(), id).unwrap();
                let i = choose|i: int| 0 <= i < s.drop_first().len() && s.drop_first()[i] == r;
                assert(s[i + 1] == r);
            } else {
                assert forall|i: int| 0 <= i < s.len() implies (#[trigger] s[i]).id != id by {
                    if i > 0 {
                        assert(s.drop_first()[i - 1] == s[i]);
                    }
                }
            }
        }
    }
}

/// Encoding a status and decoding it again yields the status.
pub proof fn lemma_status_roundtrip(s: JobStatus)
    ensures
        status_of_code(status_code(s)) == Some(s),
{
}

/// `param_names_for` distributes over concatenation.
proof fn lemma_names_for_concat(s1: Seq<ParamRowV>, s2: Seq<ParamRowV>, prover: i64)
    ensures
        param_names_for(s1 + s2, prover) == param_names_for(s1, prover) + param_names_for(
            s2,
            prover,
        ),
    decreases s1.len(),
{
    if s1.len() == 0 {
        assert(s1 + s2 =~= s2);
        assert(param_names_for(s1, prover) + param_names_for(s2, prover) =~= param_names_for(
            s2,
            prover,
        ));
    } else {
        assert((s1 + s2).drop_first() =~= s1.drop_first() + s2);
        assert((s1 + s2)[0] == s1[0]);
        lemma_names_for_concat(s1.drop_first(), s2, prover);
        if s1[0].prover == prover {
            assert(seq![s1[0].name] + (param_names_for(s1.drop_first(), prover) + param_names_for(
                s2,
                prover,
            )) =~= (seq![s1[0].name] + param_names_for(s1.drop_first(), prover)) + param_names_for(
                s2,
                prover,
            ));
        }
    }
}

/// A table with no row of `prover` contributes no names.
proof fn lemma_names_for_none(s: Seq<ParamRowV>, prover: i64)
    requires
        forall|i: int| 0 <= i < s.len() ==> (#[trigger] s[i]).prover != prover,
    ensures
        param_names_for(s, prover) == Seq::<Seq<char>>::empty(),
    decreases s.len(),
{
    if s.len() > 0 {
        assert forall|i: int| 0 <= i < s.drop_first().len() implies (#[trigger] s.drop_first()[
        i]).prover != prover by {
            assert(s.drop_first()[i] == s[i + 1]);
        }
        lemma_names_for_none(s.drop_first(), prover);
    } else {
        assert(param_names_for(s, prover) =~= Seq::<Seq<char>>::empty());
    }
}

/// A table made only of rows of `prover` contributes exactly its names, in
/// order.
proof fn lemma_names_for_all(s: Seq<ParamRowV>, prover: i64)
    requires
        forall|i: int| 0 <= i < s.len() ==> (#[trigger] s[i]).prover == prover,
    ensures
        param_names_for(s, prover) == s.map_values(|p: ParamRowV| p.name),
    decreases s.len(),
{
    if s.len() > 0 {
        assert forall|i: int| 0 <= i < s.drop_first().len() implies (#[trigger] s.drop_first()[
        i]).prover == prover by {
            assert(s.drop_first()[i] == s[i + 1]);
        }
        lemma_names_for_all(s.drop_first(), prover);
        assert(param_names_for(s, prover) =~= seq![s[0].name] + s.drop_first().map_values(
            |p: ParamRowV| p.name,
        ));
        assert(seq![s[0].name] + s.drop_first().map_values(|p: ParamRowV| p.name) =~= s.map_values(
            |p: ParamRowV| p.name,
        ));
    } else {
        assert(param_names_for(s, prover) =~= s.map_values(|p: ParamRowV| p.name));
    }
}

//////////////////////////////////////////////////////////////////////////////
// The store accessor.
//////////////////////////////////////////////////////////////////////////////

/// Typed CRUD over provers, their builder parameters and jobs, backed by one
/// relational connection.
pub struct Store {
    conn: rusqlite::Connection,
}

/// Ids strictly grow along the prover table.
pub open spec fn provers_sorted(s: Seq<ProverRowV>) -> bool {
    forall|i: int, j: int| 0 <= i < j < s.len() ==> s[i].id < s[j].id
}

/// Ids strictly grow along the parameter table.
pub open spec fn params_sorted(s: Seq<ParamRowV>) -> bool {
    forall|i: int, j: int| 0 <= i < j < s.len() ==> s[i].id < s[j].id
}

/// Ids strictly grow along the job table.
pub open spec fn jobs_sorted(s: Seq<JobRowV>) -> bool {
    forall|i: int, j: int| 0 <= i < j < s.len() ==> s[i].id < s[j].id
}

/// The parameter row's owning prover exists.
pub open spec fn param_owner_exists(p: ParamRowV, provers: Seq<ProverRowV>) -> bool {
    exists|j: int| 0 <= j < provers.len() && provers[j].id == p.prover
}

impl Store {
    /// The modelled prover table.
    pub closed spec fn provers(self) -> Seq<ProverRowV> {
        prover_table(self.conn)
    }

    /// The modelled builder-parameter table.
    pub closed spec fn params(self) -> Seq<ParamRowV> {
        param_table(self.conn)
    }

    /// The modelled job table.
    pub closed spec fn jobs(self) -> Seq<JobRowV> {
        job_table(self.conn)
    }

    /// What every store operation establishes and relies on: ids strictly
    /// grow with insertion in each table, every parameter row's owner
    /// exists, and every stored status decodes.
    pub open spec fn wf(self) -> bool {
        &&& provers_sorted(self.provers())
        &&& params_sorted(self.params())
        &&& jobs_sorted(self.jobs())
        &&& forall|i: int|
            0 <= i < self.params().len() ==> param_owner_exists(
                #[trigger] self.params()[i],
                self.provers(),
            )
        &&& forall|i: int|
            0 <= i < self.jobs().len() ==> status_of_code((#[trigger] self.jobs()[i]).status)
                is Some
    }

    /// Initializes the three tables on a connection the caller opened —
    /// for a store kept in a file, the caller opens the file — and takes
    /// the connection over. The database must be fresh: on one that
    /// already holds the tables, creation fails and the connection is
    /// dropped, as a service is never re-attached to an unknown store.
    pub fn attach(conn: rusqlite::Connection) -> (r: Result<Store, ProvingServerError>)
        ensures
            r matches Ok(s) ==> s.wf() && s.provers().len() == 0 && s.params().len() == 0
                && s.jobs().len() == 0,
            r matches Err(e) ==> e matches ProvingServerError::StoreError { message },
    {
        let mut conn = conn;
        match create_prover_table(&mut conn) {
            Ok(_) => (),
            Err(e) => return Err(store_error(e)),
        }
        match create_param_table(&mut conn) {
            Ok(_) => (),
            Err(e) => return Err(store_error(e)),
        }
        match create_job_table(&mut conn) {
            Ok(_) => (),
            Err(e) => return Err(store_error(e)),
        }
        Ok(Store { conn })
    }

    /// Opens a fresh, empty in-memory store with its three tables.
    pub fn open_in_memory() -> (r: Result<Store, ProvingServerError>)
        ensures
            r matches Ok(s) ==> s.wf() && s.provers().len() == 0 && s.params().len() == 0
                && s.jobs().len() == 0,
    {
        let conn = match open_memory_conn() {
            Ok(c) => c,
            Err(e) => return Err(store_error(e)),
        };
        Store::attach(conn)
    }

    /// Persists a prover configuration and each of its builder-parameter
    /// names, all or nothing: the writes run in one transaction, and any
    /// failure rolls the whole registration back. The error contract still
    /// names the staged residue that only a rollback failing in turn — a
    /// condition sqlite's source does not rule out — could leave.
    pub fn create_prover(&mut self, cfg: &ProverConfig) -> (r: Result<i64, ProvingServerError>)
        requires
            old(self).wf(),
        ensures
            final(self).wf(),
            final(self).jobs() == old(self).jobs(),
            match r {
                Ok(id) => {
                    &&& fresh_prover_id(old(self).provers(), id)
                    &&& final(self).provers() == old(self).provers().push(prover_row_of(id, *cfg))
                    &&& params_appended(
                        old(self).params(),
                        final(self).params(),
                        cfg.builder_params@,
                        id,
                        cfg.builder_params@.len() as int,
                    )
                    &&& param_names_for(final(self).params(), id) == cfg.builder_params.deep_view()
                },
                Err(e) => {
                    &&& e matches ProvingServerError::StoreError { message }
                    &&& (create_rolled_back(*old(self), *final(self)) || create_residue(
                        *old(self),
                        *final(self),
                        *cfg,
                    ))
                },
            },
    {
        match begin_tx(&mut self.conn) {
            Ok(_) => (),
            Err(e) => {
                return Err(store_error(e));
            },
        }
        let id = match insert_prover_row(
            &mut self.conn,
            &cfg.name,
            &cfg.version,
            &cfg.path_to_wasm,
            &cfg.path_to_zkey,
            &cfg.path_to_r1cs,
        ) {
            Ok(id) => id,
            Err(e) => {
                let err = store_error(e);
                match rollback_tx(&mut self.conn) {
                    Ok(_) => (),
                    Err(_) => (),
                }
                proof {
                    assert(create_rolled_back(*old(self), *self));
                }
                return Err(err);
            },
        };
        proof {
            assert forall|i: int, j: int|
                0 <= i < j < self.provers().len() implies (self.provers()[i]).id < (
            self.provers()[j]).id by {
                if j < self.provers().len() - 1 {
                    assert(old(self).provers()[i].id < old(self).provers()[j].id);
                }
            }
            assert forall|i: int|
                0 <= i < self.params().len() implies param_owner_exists(
                #[trigger] self.params()[i],
                self.provers(),
            ) by {
                assert(old(self).params()[i] == self.params()[i]);
                assert(param_owner_exists(old(self).params()[i], old(self).provers()));
                let j = choose|j: int|
                    0 <= j < old(self).provers().len() && old(self).provers()[j].id == old(
                        self,
                    ).params()[i].prover;
                assert(self.provers()[j].id == self.params()[i].prover);
            }
            assert(self.params().subrange(0, self.params().len() as int) =~= self.params());
        }
        let n = cfg.builder_params.len();
        let mut i: usize = 0;
        while i < n
            invariant
                old(self).wf(),
                self.wf(),
                n == cfg.builder_params@.len(),
                0 <= i <= n,
                fresh_prover_id(old(self).provers(), id),
                self.provers() == old(self).provers().push(prover_row_of(id, *cfg)),
                self.jobs() == old(self).jobs(),
                params_appended(
                    old(self).params(),
                    self.params(),
                    cfg.builder_params@,
                    id,
                    i as int,
                ),
                in_transaction(self.conn),
                committed_provers(self.conn) == old(self).provers(),
                committed_params(self.conn) == old(self).params(),
                committed_jobs(self.conn) == old(self).jobs(),
            decreases n - i,
        {
            let param = &cfg.builder_params[i];
            let ghost prev = self.params();
            match insert_param_row(&mut self.conn, param, id) {
                Ok(pid) => {
                    proof {
                        let p0 = old(self).params();
                        let row = ParamRowV { id: pid, name: param@, prover: id };
                        assert(self.params() == prev.push(row));
                        assert forall|a: int, b: int|
                            0 <= a < b < self.params().len() implies (self.params()[a]).id < (
                        self.params()[b]).id by {
                            if b < self.params().len() - 1 {
                                assert(prev[a].id < prev[b].id);
                            } else {
                                assert(prev[a].id < pid);
                            }
                        }
                        assert forall|t: int|
                            0 <= t < self.params().len() implies param_owner_exists(
                            #[trigger] self.params()[t],
                            self.provers(),
                        ) by {
                            if t < self.params().len() - 1 {
                                assert(self.params()[t] == prev[t]);
                                assert(param_owner_exists(prev[t], self.provers()));
                            } else {
                                assert(self.provers()[self.provers().len() - 1].id
                                    == row.prover);
                            }
                        }
                        assert(self.params().subrange(0, p0.len() as int) =~= prev.subrange(
                            0,
                            p0.len() as int,
                        ));
                        assert forall|m: int| 0 <= m < i + 1 implies (#[trigger] self.params()[
                        p0.len() + m]).prover == id && self.params()[p0.len() + m].name
                            == cfg.builder_params@[m]@ by {
                            if m < i {
                                assert(self.params()[p0.len() + m] == prev[p0.len() + m]);
                                assert(prev[p0.len() + m].prover == id);
                            } else {
                                assert(self.params()[p0.len() + m] == row);
                            }
                        }
                    }
                },
                Err(e) => {
                    let err = store_error(e);
                    let ghost staged_provers = self.provers();
                    let ghost staged_params = self.params();
                    match rollback_tx(&mut self.conn) {
                        Ok(_) => (),
                        Err(_) => (),
                    }
                    proof {
                        if !create_rolled_back(*old(self), *self) {
                            assert(self.provers() == staged_provers);
                            assert(self.params() == staged_params);
                            assert(create_residue(*old(self), *self, *cfg)) by {
                                assert({
                                    &&& fresh_prover_id(old(self).provers(), id)
                                    &&& self.provers() == old(self).provers().push(
                                        prover_row_of(id, *cfg),
                                    )
                                    &&& params_appended(
                                        old(self).params(),
                                        self.params(),
                                        cfg.builder_params@,
                                        id,
                                        i as int,
                                    )
                                    &&& self.jobs() == old(self).jobs()
                                });
                            }
                        }
                    }
                    return Err(err);
                },
            }
            i = i + 1;
        }
        match commit_tx(&mut self.conn) {
            Ok(_) => (),
            Err(e) => {
                let err = store_error(e);
                let ghost staged_provers = self.provers();
                let ghost staged_params = self.params();
                match rollback_tx(&mut self.conn) {
                    Ok(_) => (),
                    Err(_) => (),
                }
                proof {
                    if !create_rolled_back(*old(self), *self) {
                        assert(self.provers() == staged_provers);
                        assert(self.params() == staged_params);
                        assert(create_residue(*old(self), *self, *cfg)) by {
                            assert({
                                &&& fresh_prover_id(old(self).provers(), id)
                                &&& self.provers() == old(self).provers().push(
                                    prover_row_of(id, *cfg),
                                )
                                &&& params_appended(
                                    old(self).params(),
                                    self.params(),
                                    cfg.builder_params@,
                                    id,
                                    n as int,
                                )
                                &&& self.jobs() == old(self).jobs()
                            });
                        }
                    }
                }
                return Err(err);
            },
        }
        proof {
            let p1 = self.params();
            let p0 = old(self).params();
            let block = p1.subrange(p0.len() as int, p1.len() as int);
            assert(p1 =~= p0 + block);
            lemma_names_for_concat(p0, block, id);
            assert forall|t: int| 0 <= t < p0.len() implies (#[trigger] p0[t]).prover != id by {
                assert(param_owner_exists(p0[t], old(self).provers()));
                let j = choose|j: int|
                    0 <= j < old(self).provers().len() && old(self).provers()[j].id == p0[t].prover;
                assert(old(self).provers()[j].id < id);
            }
            lemma_names_for_none(p0, id);
            assert forall|t: int| 0 <= t < block.len() implies (#[trigger] block[t]).prover
                == id by {
                assert(block[t] == p1[p0.len() + t]);
            }
            lemma_names_for_all(block, id);
            assert(param_names_for(p1, id) =~= block.map_values(|p: ParamRowV| p.name));
            assert forall|t: int| 0 <= t < block.len() implies block.map_values(
                |p: ParamRowV| p.name,
            )[t] == cfg.builder_params.deep_view()[t] by {
                assert(block[t] == p1[p0.len() + t]);
            }
            assert(param_names_for(p1, id) =~= cfg.builder_params.deep_view());
        }
        Ok(id)
    }

    /// Persists a new job row; the job's own `id` field is ignored and a
    /// fresh id, above every job id ever assigned, is returned.
    pub fn create_job(&mut self, job: &Job) -> (r: Result<i64, ProvingServerError>)
        requires
            old(self).wf(),
        ensures
            final(self).wf(),
            final(self).provers() == old(self).provers(),
            final(self).params() == old(self).params(),
            match r {
                Ok(id) => final(self).jobs() == old(self).jobs().push(
                    JobRowV {
                        id,
                        status: status_code(job.status),
                        message: job.message@,
                        prover: job.prover,
                    },
                ) && fresh_job_id(old(self).jobs(), id),
                Err(e) => final(self).jobs() == old(self).jobs()
                    && e matches ProvingServerError::StoreError { message },
            },
    {
        let code = job.status.to_code();
        match insert_job_row(&mut self.conn, code, &job.message, job.prover) {
            Ok(id) => {
                proof {
                    lemma_status_roundtrip(job.status);
                    assert forall|i: int, j: int| 0 <= i < j < self.jobs().len() implies (
                    self.jobs()[i]).id < (self.jobs()[j]).id by {
                        if j < self.jobs().len() - 1 {
                            assert(old(self).jobs()[i].id < old(self).jobs()[j].id);
                        }
                    }
                }
                Ok(id)
            },
            Err(e) => Err(store_error(e)),
        }
    }

    /// Reads the job bearing `id`; `NotFound` exactly when no row bears it.
    pub fn get_job(&self, id: i64) -> (r: Result<Job, ProvingServerError>)
        requires
            self.wf(),
        ensures
            match r {
                Ok(j) => find_job(self.jobs(), id) matches Some(row) && j.id == Some(row.id)
                    && status_of_code(row.status) == Some(j.status) && j.message@ == row.message
                    && j.prover == row.prover,
                Err(e) => (e == ProvingServerError::NotFound && find_job(self.jobs(), id) is None)
                    || e matches ProvingServerError::StoreError { message },
            },
    {
        match query_job_row_by_id(&self.conn, id) {
            Ok(Some(row)) => {
                proof {
                    lemma_find_job_chars(self.jobs(), id);
                }
                match JobStatus::from_code(row.status) {
                    Some(status) => Ok(
                        Job { id: Some(row.id), status, message: row.message, prover: row.prover },
                    ),
                    None => {
                        proof {
                            assert(false);
                        }
                        Err(ProvingServerError::NotFound)
                    },
                }
            },
            Ok(None) => Err(ProvingServerError::NotFound),
            Err(e) => Err(store_error(e)),
        }
    }

    /// Rewrites the status and message of the persisted job row bearing the
    /// job's id; every other row is untouched.
    pub fn update_job(&mut self, job: &Job) -> (r: Result<(), ProvingServerError>)
        requires
            old(self).wf(),
            job.id matches Some(_),
        ensures
            final(self).wf(),
            final(self).provers() == old(self).provers(),
            final(self).params() == old(self).params(),
            match r {
                Ok(_) => job.id matches Some(jid) && final(self).jobs() == update_jobs(
                    old(self).jobs(),
                    jid,
                    status_code(job.status),
                    job.message@,
                ),
                Err(e) => final(self).jobs() == old(self).jobs()
                    && e matches ProvingServerError::StoreError { message },
            },
    {
        let id = match job.id {
            Some(i) => i,
            None => {
                proof {
                    assert(false);
                }
                return Err(ProvingServerError::NotFound);
            },
        };
        let code = job.status.to_code();
        match update_job_row(&mut self.conn, id, code, &job.message) {
            Ok(_) => {
                proof {
                    lemma_status_roundtrip(job.status);
                    let upd = update_jobs(old(self).jobs(), id, status_code(job.status), job.message@);
                    assert(forall|i: int|
                        0 <= i < upd.len() ==> (#[trigger] upd[i]).id == old(self).jobs()[i].id);
                }
                Ok(())
            },
            Err(e) => Err(store_error(e)),
        }
    }
}


impl JobRow {
    /// A field-for-field copy.
    fn duplicate(&self) -> (r: JobRow)
        ensures
            r@ == self@,
    {
        JobRow { id: self.id, status: self.status, message: self.message.clone(), prover: self.prover }
    }
}

impl Store {
    /// Reads the prover bearing `id` together with its builder-parameter
    /// names in declared order; `NotFound` exactly when no row bears `id`.
    pub fn get_prover(&self, id: i64) -> (r: Result<ProverConfig, ProvingServerError>)
        requires
            self.wf(),
        ensures
            match r {
                Ok(cfg) => find_prover(self.provers(), id) matches Some(row) && config_matches_row(
                    cfg,
                    row,
                ) && cfg.builder_params.deep_view() == param_names_for(self.params(), id),
                Err(e) => (e == ProvingServerError::NotFound && find_prover(self.provers(), id)
                    is None) || e matches ProvingServerError::StoreError { message },
            },
    {
        match query_prover_row_by_id(&self.conn, id) {
            Ok(Some(row)) => {
                proof {
                    lemma_find_prover_chars(self.provers(), id);
                }
                match query_param_names_for_prover(&self.conn, id) {
                    Ok(params) => Ok(
                        ProverConfig {
                            id: Some(row.id),
                            name: row.name,
                            version: row.version,
                            path_to_wasm: row.path_to_wasm,
                            path_to_zkey: row.path_to_zkey,
                            path_to_r1cs: row.path_to_r1cs,
                            builder_params: params,
                        },
                    ),
                    Err(e) => Err(store_error(e)),
                }
            },
            Ok(None) => Err(ProvingServerError::NotFound),
            Err(e) => Err(store_error(e)),
        }
    }
}

impl ProverConfig {
    /// The builder-parameter names persisted for prover `id`, in their
    /// declared order.
    pub fn get_builder_params(id: i64, store: &Store) -> (r: Result<
        Vec<String>,
        ProvingServerError,
    >)
        ensures
            match r {
                Ok(v) => v.deep_view() == param_names_for(store.params(), id),
                Err(e) => e matches ProvingServerError::StoreError { message },
            },
    {
        match query_param_names_for_prover(&store.conn, id) {
            Ok(v) => Ok(v),
            Err(e) => Err(store_error(e)),
        }
    }

    /// Reads the earliest-registered prover named `(name, version)`, with
    /// its builder-parameter names; `NotFound` exactly when none matches.
    pub fn get_by_name_and_version(name: &String, version: &String, store: &Store) -> (r: Result<
        ProverConfig,
        ProvingServerError,
    >)
        ensures
            ({
                let ms = provers_matching(store.provers(), name@, version@);
                match r {
                    Ok(cfg) => ms.len() > 0 && config_matches_row(cfg, ms[0])
                        && cfg.builder_params.deep_view() == param_names_for(
                        store.params(),
                        ms[0].id,
                    ),
                    Err(e) => (e == ProvingServerError::NotFound && ms.len() == 0)
                        || e matches ProvingServerError::StoreError { message },
                }
            }),
    {
        let mut rows = match query_prover_rows_by_name_version(&store.conn, name, version) {
            Ok(rows) => rows,
            Err(e) => {
                return Err(store_error(e));
            },
        };
        if rows.len() == 0 {
            return Err(ProvingServerError::NotFound);
        }
        let row = rows.remove(0);
        assert(row@ == provers_matching(store.provers(), name@, version@)[0]);
        match query_param_names_for_prover(&store.conn, row.id) {
            Ok(params) => Ok(
                ProverConfig {
                    id: Some(row.id),
                    name: row.name,
                    version: row.version,
                    path_to_wasm: row.path_to_wasm,
                    path_to_zkey: row.path_to_zkey,
                    path_to_r1cs: row.path_to_r1cs,
                    builder_params: params,
                },
            ),
            Err(e) => Err(store_error(e)),
        }
    }
}

impl Job {
    /// Reads the most recently created job among all jobs of all provers
    /// named `(name, version)`; `NotFound` exactly when no such job exists.
    pub fn get_by_name_and_version(name: &String, version: &String, store: &Store) -> (r: Result<
        Job,
        ProvingServerError,
    >)
        requires
            store.wf(),
        ensures
            ({
                let jobs = store.jobs();
                let provers = store.provers();
                match r {
                    Ok(j) => exists|i: int|
                        #[trigger] is_job_for(jobs, provers, name@, version@, i) && job_matches_row(
                            j,
                            jobs[i],
                        ) && (forall|i2: int|
                            #[trigger] is_job_for(jobs, provers, name@, version@, i2)
                                ==> jobs[i2].id <= jobs[i].id),
                    Err(e) => (e == ProvingServerError::NotFound && (forall|i: int|
                        !(#[trigger] is_job_for(jobs, provers, name@, version@, i))))
                        || e matches ProvingServerError::StoreError { message },
                }
            }),
    {
        let all = match query_all_job_rows(&store.conn) {
            Ok(v) => v,
            Err(e) => {
                return Err(store_error(e));
            },
        };
        let ghost jobs = store.jobs();
        let ghost provers = store.provers();
        let n = all.len();
        let mut best: Option<JobRow> = None;
        let mut i: usize = 0;
        while i < n
            invariant
                store.wf(),
                jobs == store.jobs(),
                provers == store.provers(),
                all.deep_view() == jobs,
                n == all@.len(),
                0 <= i <= n,
                match best {
                    None => forall|i2: int|
                        0 <= i2 < i ==> !(#[trigger] is_job_for(
                            jobs,
                            provers,
                            name@,
                            version@,
                            i2,
                        )),
                    Some(b) => exists|i2: int|
                        0 <= i2 < i && #[trigger] is_job_for(jobs, provers, name@, version@, i2)
                            && b@ == jobs[i2] && (forall|i3: int|
                            0 <= i3 < i && #[trigger] is_job_for(
                                jobs,
                                provers,
                                name@,
                                version@,
                                i3,
                            ) ==> jobs[i3].id <= jobs[i2].id),
                },
            decreases n - i,
        {
            let jrow = &all[i];
            assert(jrow@ == jobs[i as int]);
            match query_prover_row_by_id(&store.conn, jrow.prover) {
                Ok(Some(p)) => {
                    proof {
                        lemma_find_prover_chars(provers, jrow.prover);
                    }
                    if p.name == *name && p.version == *version {
                        proof {
                            let qp = choose|qp: int| 0 <= qp < provers.len() && provers[qp] == p@;
                            assert(is_job_for(jobs, provers, name@, version@, i as int));
                        }
                        best = Some(jrow.duplicate());
                        proof {
                            assert forall|i3: int|
                                0 <= i3 < i + 1 && #[trigger] is_job_for(
                                    jobs,
                                    provers,
                                    name@,
                                    version@,
                                    i3,
                                ) implies jobs[i3].id <= jobs[i as int].id by {
                                if i3 < i {
                                    assert(jobs[i3].id < jobs[i as int].id);
                                }
                            }
                        }
                    } else {
                        proof {
                            if is_job_for(jobs, provers, name@, version@, i as int) {
                                let q = choose|q: int|
                                    0 <= q < provers.len() && provers[q].id == jobs[i as int].prover
                                        && provers[q].name == name@ && provers[q].version
                                        == version@;
                                let qp = choose|qp: int|
                                    0 <= qp < provers.len() && provers[qp] == p@;
                                if q < qp {
                                    assert(provers[q].id < provers[qp].id);
                                }
                                if qp < q {
                                    assert(provers[qp].id < provers[q].id);
                                }
                                assert(q == qp);
                                assert(false);
                            }
                        }
                    }
                },
                Ok(None) => {
                    proof {
                        lemma_find_prover_chars(provers, jrow.prover);
                        if is_job_for(jobs, provers, name@, version@, i as int) {
                            let q = choose|q: int|
                                0 <= q < provers.len() && provers[q].id == jobs[i as int].prover
                                    && provers[q].name == name@ && provers[q].version == version@;
                            assert(false);
                        }
                    }
                },
                Err(e) => {
                    return Err(store_error(e));
                },
            }
            i = i + 1;
        }
        match best {
            Some(b) => {
                proof {
                    let i2 = choose|i2: int|
                        0 <= i2 < n && #[trigger] is_job_for(jobs, provers, name@, version@, i2)
                            && b@ == jobs[i2] && (forall|i3: int|
                            0 <= i3 < n && #[trigger] is_job_for(
                                jobs,
                                provers,
                                name@,
                                version@,
                                i3,
                            ) ==> jobs[i3].id <= jobs[i2].id);
                    assert(status_of_code(jobs[i2].status) is Some);
                }
                match JobStatus::from_code(b.status) {
                    Some(status) => Ok(
                        Job { id: Some(b.id), status, message: b.message, prover: b.prover },
                    ),
                    None => {
                        proof {
                            assert(false);
                        }
                        Err(ProvingServerError::NotFound)
                    },
                }
            },
            None => Err(ProvingServerError::NotFound),
        }
    }
}

} // verus!
