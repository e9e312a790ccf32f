//! Deploying the escrow contract: building it when no WASM file is given,
//! checking the file, deploying it, and recording the new contract's id in
//! a `.env` file. The decisions are a state machine; whoever drives it runs
//! each action it asks for and hands back what came of it.
use vstd::prelude::*;
use crate::env_file::{upserted, upsert_env_content, lines, assignment, no_line_break, law_upsert_sets_key};
use crate::invocation::{Network, deploy_args, deploy_args_spec, build_args, texts_of};
use crate::json::{Json, entries, keys_unique, text, entry, json_str};
use crate::text::{trimmed, trim, utf8_lossy, decode_lossy, law_trimmed_has_no_outer_space};

verus! {

/// A path to a WASM file: how it shows in messages, and its text when it is
/// valid UTF-8 (which the CLI needs to be given it).
#[derive(Debug)]
pub struct WasmPath {
    pub shown: String,
    pub utf8: Option<String>,
}

impl WasmPath {
    pub fn copy(&self) -> (r: WasmPath)
        ensures
            r == *self,
    {
        WasmPath {
            shown: self.shown.clone(),
            utf8: match &self.utf8 {
                Some(u) => Some(u.clone()),
                None => None,
            },
        }
    }
}

/// What a deployment is asked to do.
pub struct DeployJob {
    pub network: Network,
    /// The WASM file to deploy; when absent, the contract is built first.
    pub wasm: Option<WasmPath>,
    /// The secret key that pays for the deployment.
    pub deployer_secret: String,
    /// How the `.env` file's path shows in messages.
    pub env_file: String,
}

/// Where a deployment stands.
#[derive(Debug)]
pub enum DeployState {
    Building,
    CheckingWasm(WasmPath),
    Deploying,
    /// Deployed; the contract's id is to be written to the `.env` file.
    ReadingEnv(String),
    WritingEnv(String),
    Finished,
    Failed,
}

/// What reading the `.env` file found.
#[derive(Debug)]
pub enum EnvFile {
    Absent,
    Text(String),
    Unreadable,
}

/// What came of the last action.
#[derive(Debug)]
pub enum DeployEvent {
    BuildExited { launched: bool, success: bool },
    WasmChecked { exists: bool },
    DeployExited { launched: bool, success: bool, stdout: Vec<u8>, stderr: Vec<u8> },
    EnvRead(EnvFile),
    EnvWritten { ok: bool },
}

/// Why a deployment failed.
#[derive(Debug)]
pub enum DeployError {
    /// The CLI could not be started to build the contract.
    BuildCliMissing,
    BuildFailed,
    WasmNotFound(String),
    InvalidWasmPath,
    /// The CLI could not be started to deploy the contract.
    DeployCliMissing,
    /// The deployment failed; what the CLI wrote to stderr.
    DeployFailed(String),
    NoContractId,
    EnvReadFailed,
    EnvWriteFailed,
}

/// What the driver is to do next.
#[derive(Debug)]
pub enum DeployAction {
    /// Tell the user `notice`, then run the CLI with `args`.
    RunBuild { notice: String, args: Vec<String> },
    /// Check that the file exists.
    CheckWasm(WasmPath),
    RunDeploy { args: Vec<String> },
    ReadEnv,
    WriteEnv { content: String },
    /// Done: report the new contract's id.
    Report { contract_id: String },
    Fail(DeployError),
}

/// The file that building the contract produces.
pub open spec fn built_wasm() -> Seq<char> {
    "target/wasm32-unknown-unknown/release/escrow.wasm"@
}

/// The `.env` variable that holds the contract's id.
pub open spec fn contract_id_key() -> Seq<char> {
    "ESCROW_CONTRACT_ID"@
}

/// The contract id in the deployment's output.
pub open spec fn contract_id_in(stdout: Seq<u8>) -> Seq<char> {
    trimmed(utf8_lossy(stdout))
}

/// Whether `e` is what the action of state `s` can lead to.
pub open spec fn expects(s: DeployState, e: DeployEvent) -> bool {
    match s {
        DeployState::Building => e is BuildExited,
        DeployState::CheckingWasm(_) => e is WasmChecked,
        DeployState::Deploying => e is DeployExited,
        DeployState::ReadingEnv(_) => e is EnvRead,
        DeployState::WritingEnv(_) => e is EnvWritten,
        _ => false,
    }
}

/// How a deployment begins.
pub open spec fn begins(job: DeployJob, s: DeployState, a: DeployAction) -> bool {
    match job.wasm {
        Some(p) => s == DeployState::CheckingWasm(p) && a == DeployAction::CheckWasm(p),
        None => {
            &&& s is Building
            &&& a matches DeployAction::RunBuild { notice, args }
            &&& notice@ == "No --wasm provided; running `stellar contract build`…"@
            &&& texts_of(args@) == seq!["contract"@, "build"@]
        },
    }
}

pub open spec fn fails(s2: DeployState, a: DeployAction, err: DeployError) -> bool {
    s2 is Failed && a == DeployAction::Fail(err)
}

/// One step of a deployment: from state `s`, on event `e`, to state `s2`
/// with action `a`.
pub open spec fn transition(
    job: DeployJob,
    s: DeployState,
    e: DeployEvent,
    s2: DeployState,
    a: DeployAction,
) -> bool {
    match s {
        DeployState::Building => match e {
            DeployEvent::BuildExited { launched, success } => if !launched {
                fails(s2, a, DeployError::BuildCliMissing)
            } else if !success {
                fails(s2, a, DeployError::BuildFailed)
            } else {
                &&& s2 matches DeployState::CheckingWasm(p)
                &&& p.shown@ == built_wasm()
                &&& p.utf8 matches Some(u) && u@ == built_wasm()
                &&& a == DeployAction::CheckWasm(p)
            },
            _ => false,
        },
        DeployState::CheckingWasm(p) => match e {
            DeployEvent::WasmChecked { exists } => if !exists {
                &&& s2 is Failed
                &&& a matches DeployAction::Fail(DeployError::WasmNotFound(shown))
                &&& shown@ == p.shown@
            } else {
                match p.utf8 {
                    None => fails(s2, a, DeployError::InvalidWasmPath),
                    Some(u) => {
                        &&& s2 is Deploying
                        &&& a matches DeployAction::RunDeploy { args }
                        &&& texts_of(args@) == deploy_args_spec(
                            job.network,
                            u@,
                            job.deployer_secret@,
                        )
                    },
                }
            },
            _ => false,
        },
        DeployState::Deploying => match e {
            DeployEvent::DeployExited { launched, success, stdout, stderr } => if !launched {
                fails(s2, a, DeployError::DeployCliMissing)
            } else if !success {
                &&& s2 is Failed
                &&& a matches DeployAction::Fail(DeployError::DeployFailed(msg))
                &&& msg@ == utf8_lossy(stderr@)
            } else if contract_id_in(stdout@).len() == 0 {
                fails(s2, a, DeployError::NoContractId)
            } else {
                &&& s2 matches DeployState::ReadingEnv(id)
                &&& id@ == contract_id_in(stdout@)
                &&& a is ReadEnv
            },
            _ => false,
        },
        DeployState::ReadingEnv(id) => match e {
            DeployEvent::EnvRead(f) => match f {
                EnvFile::Unreadable => fails(s2, a, DeployError::EnvReadFailed),
                _ => {
                    let existing = match f {
                        EnvFile::Text(t) => t@,
                        _ => seq![],
                    };
                    &&& s2 matches DeployState::WritingEnv(id2)
                    &&& id2@ == id@
                    &&& a matches DeployAction::WriteEnv { content }
                    &&& content@ == upserted(existing, contract_id_key(), id@)
                },
            },
            _ => false,
        },
        DeployState::WritingEnv(id) => match e {
            DeployEvent::EnvWritten { ok } => if !ok {
                fails(s2, a, DeployError::EnvWriteFailed)
            } else {
                &&& s2 is Finished
                &&& a matches DeployAction::Report { contract_id }
                &&& contract_id@ == id@
            },
            _ => false,
        },
        _ => false,
    }
}

impl DeployJob {
    /// The first state and action of the deployment.
    pub fn start(&self) -> (r: (DeployState, DeployAction))
        ensures
            begins(*self, r.0, r.1),
    {
        match &self.wasm {
            Some(p) => (DeployState::CheckingWasm(p.copy()), DeployAction::CheckWasm(p.copy())),
            None => (
                DeployState::Building,
                DeployAction::RunBuild {
                    notice: String::from_str("No --wasm provided; running `stellar contract build`…"),
                    args: build_args(),
                },
            ),
        }
    }

    /// Takes the deployment one step further, given what came of the last
    /// action.
    pub fn step(&self, state: DeployState, event: DeployEvent) -> (r: (DeployState, DeployAction))
        requires
            expects(state, event),
        ensures
            transition(*self, state, event, r.0, r.1),
    {
        match state {
            DeployState::Building => match event {
                DeployEvent::BuildExited { launched, success } => if !launched {
                    (DeployState::Failed, DeployAction::Fail(DeployError::BuildCliMissing))
                } else if !success {
                    (DeployState::Failed, DeployAction::Fail(DeployError::BuildFailed))
                } else {
                    let p = WasmPath {
                        shown: String::from_str("target/wasm32-unknown-unknown/release/escrow.wasm"),
                        utf8: Some(
                            String::from_str("target/wasm32-unknown-unknown/release/escrow.wasm"),
                        ),
                    };
                    let q = p.copy();
                    (DeployState::CheckingWasm(p), DeployAction::CheckWasm(q))
                },
                _ => (DeployState::Failed, DeployAction::Fail(DeployError::BuildFailed)),
            },
            DeployState::CheckingWasm(p) => match event {
                DeployEvent::WasmChecked { exists } => if !exists {
                    (DeployState::Failed, DeployAction::Fail(DeployError::WasmNotFound(p.shown)))
                } else {
                    match &p.utf8 {
                        None => (
                            DeployState::Failed,
                            DeployAction::Fail(DeployError::InvalidWasmPath),
                        ),
                        Some(u) => {
                            let args = deploy_args(
                                &self.network,
                                u.as_str(),
                                self.deployer_secret.as_str(),
                            );
                            (DeployState::Deploying, DeployAction::RunDeploy { args })
                        },
                    }
                },
                _ => (DeployState::Failed, DeployAction::Fail(DeployError::BuildFailed)),
            },
            DeployState::Deploying => match event {
                DeployEvent::DeployExited { launched, success, stdout, stderr } => if !launched {
                    (DeployState::Failed, DeployAction::Fail(DeployError::DeployCliMissing))
                } else if !success {
                    let msg = decode_lossy(stderr.as_slice());
                    (DeployState::Failed, DeployAction::Fail(DeployError::DeployFailed(msg)))
                } else {
                    let out = decode_lossy(stdout.as_slice());
                    let id = trim(out.as_str());
                    if id.as_str().is_empty() {
                        (DeployState::Failed, DeployAction::Fail(DeployError::NoContractId))
                    } else {
                        (DeployState::ReadingEnv(id), DeployAction::ReadEnv)
                    }
                },
                _ => (DeployState::Failed, DeployAction::Fail(DeployError::BuildFailed)),
            },
            DeployState::ReadingEnv(id) => match event {
                DeployEvent::EnvRead(f) => {
                    let existing = match f {
                        EnvFile::Unreadable => {
                            return (
                                DeployState::Failed,
                                DeployAction::Fail(DeployError::EnvReadFailed),
                            );
                        },
                        EnvFile::Absent => String::new(),
                        EnvFile::Text(t) => t,
                    };
                    let content = upsert_env_content(
                        existing.as_str(),
                        "ESCROW_CONTRACT_ID",
                        id.as_str(),
                    );
                    (DeployState::WritingEnv(id), DeployAction::WriteEnv { content })
                },
                _ => (DeployState::Failed, DeployAction::Fail(DeployError::BuildFailed)),
            },
            DeployState::WritingEnv(id) => match event {
                DeployEvent::EnvWritten { ok } => if !ok {
                    (DeployState::Failed, DeployAction::Fail(DeployError::EnvWriteFailed))
                } else {
                    (DeployState::Finished, DeployAction::Report { contract_id: id })
                },
                _ => (DeployState::Failed, DeployAction::Fail(DeployError::BuildFailed)),
            },
            _ => (DeployState::Failed, DeployAction::Fail(DeployError::BuildFailed)),
        }
    }
}

impl DeployState {
    /// Whether `event` is what the action of this state can lead to.
    pub fn expects_event(&self, event: &DeployEvent) -> (b: bool)
        ensures
            b == expects(*self, *event),
    {
        match self {
            DeployState::Building => matches!(event, DeployEvent::BuildExited { .. }),
            DeployState::CheckingWasm(_) => matches!(event, DeployEvent::WasmChecked { .. }),
            DeployState::Deploying => matches!(event, DeployEvent::DeployExited { .. }),
            DeployState::ReadingEnv(_) => matches!(event, DeployEvent::EnvRead(_)),
            DeployState::WritingEnv(_) => matches!(event, DeployEvent::EnvWritten { .. }),
            _ => false,
        }
    }
}

/// The message that reports a failed deployment.
pub open spec fn error_message(e: DeployError) -> Seq<char> {
    match e {
        DeployError::BuildCliMissing => "stellar CLI not found — install from https://developers.stellar.org/docs/tools/developer-tools/cli/install-cli"@,
        DeployError::BuildFailed => "`stellar contract build` failed"@,
        DeployError::WasmNotFound(p) => "WASM file not found: "@ + p@,
        DeployError::InvalidWasmPath => "invalid wasm path"@,
        DeployError::DeployCliMissing => "stellar CLI not found"@,
        DeployError::DeployFailed(msg) => "Deployment failed: "@ + msg@,
        DeployError::NoContractId => "Deployment succeeded but no contract ID was returned"@,
        DeployError::EnvReadFailed => "reading .env file"@,
        DeployError::EnvWriteFailed => "writing .env file"@,
    }
}

impl DeployError {
    pub fn message(&self) -> (m: String)
        ensures
            m@ == error_message(*self),
    {
        match self {
            DeployError::BuildCliMissing => String::from_str(
                "stellar CLI not found — install from https://developers.stellar.org/docs/tools/developer-tools/cli/install-cli",
            ),
            DeployError::BuildFailed => String::from_str("`stellar contract build` failed"),
            DeployError::WasmNotFound(p) => String::from_str("WASM file not found: ").concat(
                p.as_str(),
            ),
            DeployError::InvalidWasmPath => String::from_str("invalid wasm path"),
            DeployError::DeployCliMissing => String::from_str("stellar CLI not found"),
            DeployError::DeployFailed(msg) => String::from_str("Deployment failed: ").concat(
                msg.as_str(),
            ),
            DeployError::NoContractId => String::from_str(
                "Deployment succeeded but no contract ID was returned",
            ),
            DeployError::EnvReadFailed => String::from_str("reading .env file"),
            DeployError::EnvWriteFailed => String::from_str("writing .env file"),
        }
    }
}

/// The message that reports a finished deployment.
pub fn deploy_summary(contract_id: &str, env_file: &str) -> (m: String)
    ensures
        m@ == "Deployed! Contract ID: "@ + contract_id@ + "\nWritten to "@ + env_file@,
{
    String::from_str("Deployed! Contract ID: ").concat(contract_id).concat("\nWritten to ").concat(
        env_file,
    )
}

/// The JSON report of a finished deployment:
/// `{"status": "ok", "contract_id": <id>, "env_file": <path>}`.
pub fn deploy_report(contract_id: &str, env_file: &str) -> (doc: Json)
    ensures
        doc is Object,
        keys_unique(entries(doc)),
        entries(doc).len() == 3,
        entries(doc)[0].0@ == "status"@ && text(entries(doc)[0].1) == Some("ok"@),
        entries(doc)[1].0@ == "contract_id"@ && text(entries(doc)[1].1) == Some(contract_id@),
        entries(doc)[2].0@ == "env_file"@ && text(entries(doc)[2].1) == Some(env_file@),
{
    let mut es: Vec<(String, Json)> = Vec::new();
    es.push(entry("status", json_str("ok")));
    es.push(entry("contract_id", json_str(contract_id)));
    es.push(entry("env_file", json_str(env_file)));
    proof {
        reveal_strlit("status");
        reveal_strlit("contract_id");
        reveal_strlit("env_file");
        let ks = es@;
        assert(ks[0].0@.len() == 6 && ks[1].0@.len() == 11 && ks[2].0@.len() == 8);
    }
    Json::Object(es)
}

/// How far along a deployment is.
pub open spec fn progress(s: DeployState) -> nat {
    match s {
        DeployState::Building => 0,
        DeployState::CheckingWasm(_) => 1,
        DeployState::Deploying => 2,
        DeployState::ReadingEnv(_) => 3,
        DeployState::WritingEnv(_) => 4,
        _ => 5,
    }
}

/// The contract id that a state carries is a nonempty text with no
/// whitespace at either end.
pub open spec fn well_formed(s: DeployState) -> bool {
    match s {
        DeployState::ReadingEnv(id) => id@.len() > 0 && trimmed(id@) == id@,
        DeployState::WritingEnv(id) => id@.len() > 0 && trimmed(id@) == id@,
        _ => true,
    }
}

/// Every step moves the deployment forward, and a finished or failed one
/// takes no more events: a deployment ends within five steps. A step ends
/// it exactly when its action is the final report or a failure.
pub proof fn law_deploy_moves_forward(
    job: DeployJob,
    s: DeployState,
    e: DeployEvent,
    s2: DeployState,
    a: DeployAction,
)
    requires
        transition(job, s, e, s2, a),
    ensures
        progress(s2) > progress(s),
        !expects(s2, e),
        (s2 is Failed) == (a is Fail),
        (s2 is Finished) == (a is Report),
        s2 is Failed || s2 is Finished || exists|e2: DeployEvent| expects(s2, e2),
{
    match s2 {
        DeployState::CheckingWasm(_) => {
            assert(expects(s2, DeployEvent::WasmChecked { exists: true }));
        },
        DeployState::Deploying => {
            assert(expects(
                s2,
                DeployEvent::DeployExited {
                    launched: true,
                    success: true,
                    stdout: vstd::pervasive::arbitrary(),
                    stderr: vstd::pervasive::arbitrary(),
                },
            ));
        },
        DeployState::ReadingEnv(_) => {
            assert(expects(s2, DeployEvent::EnvRead(EnvFile::Absent)));
        },
        DeployState::WritingEnv(_) => {
            assert(expects(s2, DeployEvent::EnvWritten { ok: true }));
        },
        _ => {},
    }
}

/// Every state that a deployment reaches is well formed.
pub proof fn law_deploy_states_well_formed(
    job: DeployJob,
    s: DeployState,
    e: DeployEvent,
    s2: DeployState,
    a: DeployAction,
)
    ensures
        begins(job, s, a) ==> well_formed(s),
        transition(job, s, e, s2, a) && well_formed(s) ==> well_formed(s2),
{
    if transition(job, s, e, s2, a) && s is Deploying {
        if let DeployEvent::DeployExited { stdout, .. } = e {
            law_trimmed_has_no_outer_space(utf8_lossy(stdout@));
        }
    }
}

/// The CLI deploys only a WASM file that was just found to exist, and it is
/// given that file's path.
pub proof fn law_deploys_only_checked_wasm(
    job: DeployJob,
    s: DeployState,
    e: DeployEvent,
    s2: DeployState,
    args: Vec<String>,
)
    requires
        transition(job, s, e, s2, DeployAction::RunDeploy { args }),
    ensures
        s matches DeployState::CheckingWasm(p) && p.utf8 matches Some(u) && texts_of(args@)
            == deploy_args_spec(job.network, u@, job.deployer_secret@),
        e == (DeployEvent::WasmChecked { exists: true }),
{
}

/// The message of a failing action.
pub open spec fn fail_message(a: DeployAction) -> Option<Seq<char>> {
    match a {
        DeployAction::Fail(err) => Some(error_message(err)),
        _ => None,
    }
}

/// A deployment that fails says why: a missing WASM file is named, a
/// failed deployment passes on what the CLI wrote to stderr, and output
/// that is only whitespace is reported as giving no contract id.
pub proof fn law_failures_say_why(
    job: DeployJob,
    s: DeployState,
    e: DeployEvent,
    s2: DeployState,
    a: DeployAction,
)
    requires
        transition(job, s, e, s2, a),
    ensures
        match s {
            DeployState::CheckingWasm(p) => e == (DeployEvent::WasmChecked { exists: false })
                ==> fail_message(a) == Some("WASM file not found: "@ + p.shown@),
            _ => true,
        },
        match e {
            DeployEvent::DeployExited { launched, success, stdout, stderr } => {
                &&& launched && !success ==> fail_message(a) == Some(
                    "Deployment failed: "@ + utf8_lossy(stderr@),
                )
                &&& launched && success && trimmed(utf8_lossy(stdout@)).len() == 0
                    ==> fail_message(a) == Some(
                    "Deployment succeeded but no contract ID was returned"@,
                )
            },
            _ => true,
        },
        a is Fail ==> s2 is Failed,
{
}

/// What a WASM path shows: its text for messages and its UTF-8 text.
pub open spec fn wasm_seen(p: WasmPath) -> (Seq<char>, Option<Seq<char>>) {
    (
        p.shown@,
        match p.utf8 {
            Some(u) => Some(u@),
            None => None,
        },
    )
}

/// Two states that stand at the same point with the same data.
pub open spec fn states_alike(s: DeployState, t: DeployState) -> bool {
    match s {
        DeployState::Building => t is Building,
        DeployState::Deploying => t is Deploying,
        DeployState::Finished => t is Finished,
        DeployState::Failed => t is Failed,
        DeployState::CheckingWasm(p) => t matches DeployState::CheckingWasm(q) && wasm_seen(p)
            == wasm_seen(q),
        DeployState::ReadingEnv(a) => t matches DeployState::ReadingEnv(b) && a@ == b@,
        DeployState::WritingEnv(a) => t matches DeployState::WritingEnv(b) && a@ == b@,
    }
}

/// Two actions that do the same, but that a deployment is paid by
/// `secret_a` in the first and by `secret_b` in the second: the deploy
/// command lines differ at most in the argument after `--source`.
pub open spec fn actions_alike(
    a: DeployAction,
    b: DeployAction,
    secret_a: Seq<char>,
    secret_b: Seq<char>,
) -> bool {
    match a {
        DeployAction::RunBuild { notice, args } => b matches DeployAction::RunBuild {
            notice: n2,
            args: y,
        } && notice@ == n2@ && texts_of(args@) == texts_of(y@),
        DeployAction::CheckWasm(p) => b matches DeployAction::CheckWasm(q) && wasm_seen(p)
            == wasm_seen(q),
        DeployAction::RunDeploy { args } => b matches DeployAction::RunDeploy { args: y } && {
            let x = texts_of(args@);
            let z = texts_of(y@);
            &&& x.len() == z.len() && x.len() > 5
            &&& x[4] == "--source"@ && x[5] == secret_a && z[5] == secret_b
            &&& x.update(5, secret_b) == z
        },
        DeployAction::ReadEnv => b is ReadEnv,
        DeployAction::WriteEnv { content } => b matches DeployAction::WriteEnv { content: c2 }
            && content@ == c2@,
        DeployAction::Report { contract_id } => b matches DeployAction::Report {
            contract_id: c2,
        } && contract_id@ == c2@,
        DeployAction::Fail(e) => b matches DeployAction::Fail(f) && error_message(e)
            == error_message(f),
    }
}

/// Two deployments that differ only in the secret that pays for them go
/// alike: from alike states, on the same event, they reach alike states and
/// ask for the same actions, but that the deploy command passes each its own
/// secret after `--source`. The secret reaches nothing else: not the files
/// checked, the `.env` text, the reported id, nor any message.
pub proof fn law_secret_only_pays(
    j1: DeployJob,
    j2: DeployJob,
    s: DeployState,
    t: DeployState,
    e: DeployEvent,
    s2: DeployState,
    a1: DeployAction,
    t2: DeployState,
    a2: DeployAction,
)
    requires
        j1.network == j2.network,
        j1.wasm == j2.wasm,
        j1.env_file == j2.env_file,
    ensures
        begins(j1, s, a1) && begins(j2, t, a2) ==> states_alike(s, t) && actions_alike(
            a1,
            a2,
            j1.deployer_secret@,
            j2.deployer_secret@,
        ),
        states_alike(s, t) && transition(j1, s, e, s2, a1) && transition(j2, t, e, t2, a2)
            ==> states_alike(s2, t2) && actions_alike(
            a1,
            a2,
            j1.deployer_secret@,
            j2.deployer_secret@,
        ),
{
    if states_alike(s, t) && transition(j1, s, e, s2, a1) && transition(j2, t, e, t2, a2) {
        if let DeployAction::RunDeploy { args } = a1 {
            if let DeployAction::RunDeploy { args: y } = a2 {
                let x = texts_of(args@);
                let z = texts_of(y@);
                assert(x.update(5, j2.deployer_secret@) =~= z);
            }
        }
    }
}

/// The `.env` file is written only with the deployed contract's id, a
/// nonempty text without surrounding whitespace, set under
/// `ESCROW_CONTRACT_ID`; when that id holds no line break the file then has
/// the line `ESCROW_CONTRACT_ID=<id>`. The id that the deployment then
/// reports is that same id.
pub proof fn law_env_file_records_contract_id(
    job: DeployJob,
    s: DeployState,
    e: DeployEvent,
    s2: DeployState,
    content: String,
    e2: DeployEvent,
    s3: DeployState,
    a3: DeployAction,
)
    requires
        well_formed(s),
        transition(job, s, e, s2, DeployAction::WriteEnv { content }),
    ensures
        s matches DeployState::ReadingEnv(id) && {
            &&& id@.len() > 0
            &&& trimmed(id@) == id@
            &&& content@ == upserted(
                match e {
                    DeployEvent::EnvRead(EnvFile::Text(t)) => t@,
                    _ => seq![],
                },
                contract_id_key(),
                id@,
            )
            &&& no_line_break(id@) ==> lines(content@).contains(
                assignment(contract_id_key(), id@),
            )
            &&& (transition(job, s2, e2, s3, a3) && a3 is Report) ==> (a3 matches DeployAction::Report {
                contract_id,
            } && contract_id@ == id@)
        },
{
    if let DeployState::ReadingEnv(id) = s {
        let existing = match e {
            DeployEvent::EnvRead(EnvFile::Text(t)) => t@,
            _ => seq![],
        };
        if no_line_break(id@) {
            reveal_strlit("ESCROW_CONTRACT_ID");
            law_upsert_sets_key(existing, contract_id_key(), id@);
        }
    }
}

} // verus!
