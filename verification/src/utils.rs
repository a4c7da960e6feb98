use vstd::prelude::*;

use crate::models::ProverConfig;

verus! {

/// Where the store lives.
#[derive(Debug, Clone, PartialEq)]
pub enum DatabaseMode {
    Memory,
    File { path_to_file: String },
}

/// Process-wide configuration, read once at startup.
#[derive(Debug, Clone, PartialEq)]
pub struct EnvConfig {
    pub zk_file_path: String,
    pub db_config: DatabaseMode,
}

/// The directory an artifact of `(version, name)` is stored under, then the
/// file itself: `root/version/name` plus an extension per artifact kind.
pub open spec fn base_path(root: Seq<char>, version: Seq<char>, name: Seq<char>) -> Seq<char> {
    root + "/"@ + version + "/"@ + name
}

/// The local path, without extension, of a prover's artifacts: a parent
/// directory shared per `(name, version)`.
pub fn get_path_from_prover(prover: &ProverConfig, config: &EnvConfig) -> (r: String)
    ensures
        r@ == base_path(config.zk_file_path@, prover.version@, prover.name@),
{
    let mut path = config.zk_file_path.clone();
    path.append("/");
    path.append(prover.version.as_str());
    path.append("/");
    path.append(prover.name.as_str());
    path
}

/// The shared parent directory of a prover's artifacts, to be created
/// before fetching into it.
pub fn get_prover_dir(prover: &ProverConfig, config: &EnvConfig) -> (r: String)
    ensures
        r@ == config.zk_file_path@ + "/"@ + prover.version@,
{
    let mut path = config.zk_file_path.clone();
    path.append("/");
    path.append(prover.version.as_str());
    path
}

/// The local destination of a prover's proving-key artifact.
pub fn get_zkey_path(prover: &ProverConfig, config: &EnvConfig) -> (r: String)
    ensures
        r@ == base_path(config.zk_file_path@, prover.version@, prover.name@) + ".zkey"@,
{
    let mut path = get_path_from_prover(prover, config);
    path.append(".zkey");
    path
}

/// The local destination of a prover's witness-generator artifact.
pub fn get_wasm_path(prover: &ProverConfig, config: &EnvConfig) -> (r: String)
    ensures
        r@ == base_path(config.zk_file_path@, prover.version@, prover.name@) + ".wasm"@,
{
    let mut path = get_path_from_prover(prover, config);
    path.append(".wasm");
    path
}

/// The local destination of a prover's constraint-system artifact.
pub fn get_r1cs_path(prover: &ProverConfig, config: &EnvConfig) -> (r: String)
    ensures
        r@ == base_path(config.zk_file_path@, prover.version@, prover.name@) + ".r1cs"@,
{
    let mut path = get_path_from_prover(prover, config);
    path.append(".r1cs");
    path
}

} // verus!
