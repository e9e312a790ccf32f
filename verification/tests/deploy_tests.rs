use star_escrow::deploy::{
    deploy_summary, DeployAction, DeployError, DeployEvent, DeployJob, DeployState, EnvFile,
    WasmPath,
};
use star_escrow::invocation::Network;

fn job(wasm: Option<&str>) -> DeployJob {
    DeployJob {
        network: Network {
            rpc_url: "https://rpc".to_string(),
            network_passphrase: "pass".to_string(),
        },
        wasm: wasm.map(|w| WasmPath { shown: w.to_string(), utf8: Some(w.to_string()) }),
        deployer_secret: "SDEP".to_string(),
        env_file: ".env".to_string(),
    }
}

fn deployed(stdout: &[u8]) -> DeployEvent {
    DeployEvent::DeployExited { launched: true, success: true, stdout: stdout.to_vec(), stderr: vec![] }
}

fn failure(action: DeployAction) -> DeployError {
    match action {
        DeployAction::Fail(e) => e,
        other => panic!("expected a failure, got {:?}", other),
    }
}

#[test]
fn deploy_without_wasm_builds_then_deploys_and_records_id() {
    let j = job(None);
    let (s, a) = j.start();
    match a {
        DeployAction::RunBuild { notice, args } => {
            assert_eq!(notice, "No --wasm provided; running `stellar contract build`…");
            assert_eq!(args, vec!["contract".to_string(), "build".to_string()]);
        }
        other => panic!("{:?}", other),
    }
    let (s, a) = j.step(s, DeployEvent::BuildExited { launched: true, success: true });
    match &a {
        DeployAction::CheckWasm(p) => {
            assert_eq!(p.shown, "target/wasm32-unknown-unknown/release/escrow.wasm");
        }
        other => panic!("{:?}", other),
    }
    let (s, a) = j.step(s, DeployEvent::WasmChecked { exists: true });
    match a {
        DeployAction::RunDeploy { args } => assert_eq!(
            args,
            vec![
                "contract", "deploy", "--wasm", "target/wasm32-unknown-unknown/release/escrow.wasm",
                "--source", "SDEP", "--rpc-url", "https://rpc", "--network-passphrase", "pass",
            ]
            .into_iter()
            .map(String::from)
            .collect::<Vec<_>>()
        ),
        other => panic!("{:?}", other),
    }
    let (s, a) = j.step(s, deployed(b"  CNEWCONTRACT\n"));
    assert!(matches!(a, DeployAction::ReadEnv));
    let (s, a) = j.step(s, DeployEvent::EnvRead(EnvFile::Text("A=1\nESCROW_CONTRACT_ID=COLD\n".to_string())));
    match a {
        DeployAction::WriteEnv { content } => assert_eq!(content, "A=1\nESCROW_CONTRACT_ID=CNEWCONTRACT\n"),
        other => panic!("{:?}", other),
    }
    let (s, a) = j.step(s, DeployEvent::EnvWritten { ok: true });
    assert!(matches!(s, DeployState::Finished));
    match a {
        DeployAction::Report { contract_id } => assert_eq!(contract_id, "CNEWCONTRACT"),
        other => panic!("{:?}", other),
    }
}

#[test]
fn deploy_with_given_wasm_checks_it_first() {
    let j = job(Some("my.wasm"));
    let (s, a) = j.start();
    assert!(matches!(&s, DeployState::CheckingWasm(p) if p.shown == "my.wasm"));
    assert!(matches!(&a, DeployAction::CheckWasm(p) if p.shown == "my.wasm"));
    let (_, a) = j.step(s, DeployEvent::WasmChecked { exists: false });
    let e = failure(a);
    assert_eq!(e.message(), "WASM file not found: my.wasm");
}

#[test]
fn env_file_absent_gets_created() {
    let j = job(Some("x.wasm"));
    let (s, _) = j.start();
    let (s, _) = j.step(s, DeployEvent::WasmChecked { exists: true });
    let (s, _) = j.step(s, deployed(b"CID\n"));
    let (_, a) = j.step(s, DeployEvent::EnvRead(EnvFile::Absent));
    match a {
        DeployAction::WriteEnv { content } => assert_eq!(content, "\nESCROW_CONTRACT_ID=CID\n"),
        other => panic!("{:?}", other),
    }
}

#[test]
fn build_failures() {
    let j = job(None);
    let (s, _) = j.start();
    let (s2, a) = j.step(s, DeployEvent::BuildExited { launched: false, success: false });
    assert!(matches!(s2, DeployState::Failed));
    assert_eq!(
        failure(a).message(),
        "stellar CLI not found — install from https://developers.stellar.org/docs/tools/developer-tools/cli/install-cli"
    );
    let (s, _) = j.start();
    let (_, a) = j.step(s, DeployEvent::BuildExited { launched: true, success: false });
    assert_eq!(failure(a).message(), "`stellar contract build` failed");
}

#[test]
fn non_utf8_wasm_path_is_refused() {
    let mut j = job(None);
    j.wasm = Some(WasmPath { shown: "bad\u{fffd}.wasm".to_string(), utf8: None });
    let (s, _) = j.start();
    let (_, a) = j.step(s, DeployEvent::WasmChecked { exists: true });
    assert_eq!(failure(a).message(), "invalid wasm path");
}

#[test]
fn deploy_failures() {
    let j = job(Some("w.wasm"));
    let deploying = || {
        let (s, _) = j.start();
        j.step(s, DeployEvent::WasmChecked { exists: true }).0
    };
    let (_, a) = j.step(deploying(), DeployEvent::DeployExited { launched: false, success: false, stdout: vec![], stderr: vec![] });
    assert_eq!(failure(a).message(), "stellar CLI not found");
    let (_, a) = j.step(deploying(), DeployEvent::DeployExited { launched: true, success: false, stdout: vec![], stderr: b"error: bad key".to_vec() });
    assert_eq!(failure(a).message(), "Deployment failed: error: bad key");
    let (_, a) = j.step(deploying(), deployed(b" \n\t"));
    assert_eq!(failure(a).message(), "Deployment succeeded but no contract ID was returned");
}

#[test]
fn env_file_failures() {
    let j = job(Some("w.wasm"));
    let reading = || {
        let (s, _) = j.start();
        let (s, _) = j.step(s, DeployEvent::WasmChecked { exists: true });
        j.step(s, deployed(b"CID")).0
    };
    let (_, a) = j.step(reading(), DeployEvent::EnvRead(EnvFile::Unreadable));
    assert_eq!(failure(a).message(), "reading .env file");
    let (s, _) = j.step(reading(), DeployEvent::EnvRead(EnvFile::Absent));
    let (_, a) = j.step(s, DeployEvent::EnvWritten { ok: false });
    assert_eq!(failure(a).message(), "writing .env file");
}

#[test]
fn summary_names_contract_and_file() {
    assert_eq!(deploy_summary("CID", ".env"), "Deployed! Contract ID: CID\nWritten to .env");
}

#[test]
fn deploy_report_names_contract_and_file() {
    let doc = star_escrow::deploy::deploy_report("CID", ".env");
    let text = star_escrow::json::report_text(true, &doc, "");
    let v: serde_json::Value = serde_json::from_str(&text).unwrap();
    assert_eq!(v, parse(r#"{"status": "ok", "contract_id": "CID", "env_file": ".env"}"#));
}


fn parse(text: &str) -> serde_json::Value {
    serde_json::from_str(text).unwrap()
}

fn run(j: &DeployJob, events: Vec<DeployEvent>) -> Vec<String> {
    let mut seen = Vec::new();
    let (mut s, a) = j.start();
    seen.push(format!("{:?}", a));
    for e in events {
        let (s2, a) = j.step(s, e);
        seen.push(format!("{:?}", a));
        s = s2;
    }
    seen
}

#[test]
fn the_secret_only_reaches_the_source_argument() {
    let events = || {
        vec![
            DeployEvent::BuildExited { launched: true, success: true },
            DeployEvent::WasmChecked { exists: true },
            deployed(b"CID\n"),
            DeployEvent::EnvRead(EnvFile::Text("A=1\n".to_string())),
            DeployEvent::EnvWritten { ok: true },
        ]
    };
    let a = job(None);
    let mut b = job(None);
    b.deployer_secret = "SOTHER".to_string();
    let ra = run(&a, events());
    let rb = run(&b, events());
    for (x, y) in ra.iter().zip(rb.iter()) {
        assert_eq!(x.replace("SDEP", "SOTHER"), *y);
    }
    assert_eq!(ra.iter().filter(|x| x.contains("SDEP")).count(), 1);
}
