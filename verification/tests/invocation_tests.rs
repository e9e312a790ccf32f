use star_escrow::invocation::{
    address_args, address_from_output, build_args, deploy_args, events_args, invoke_args,
    output_text, query_args, Call, Network,
};

fn testnet() -> Network {
    Network {
        rpc_url: "https://soroban-testnet.stellar.org".to_string(),
        network_passphrase: "Test SDF Network ; September 2015".to_string(),
    }
}

fn strs(v: &[&str]) -> Vec<String> {
    v.iter().map(|s| s.to_string()).collect()
}

#[test]
fn invoke_args_put_contract_args_after_separator() {
    let args = invoke_args(&testnet(), "CID", "SSECRET", "approve", &strs(&["--x", "1"]));
    assert_eq!(
        args,
        strs(&[
            "contract", "invoke", "--id", "CID", "--rpc-url", "https://soroban-testnet.stellar.org",
            "--network-passphrase", "Test SDF Network ; September 2015", "--source", "SSECRET",
            "--", "approve", "--x", "1",
        ])
    );
}

#[test]
fn query_args_are_unsigned() {
    let args = query_args(&testnet(), "CID", "get_escrow");
    assert_eq!(
        args,
        strs(&[
            "contract", "invoke", "--id", "CID", "--rpc-url", "https://soroban-testnet.stellar.org",
            "--network-passphrase", "Test SDF Network ; September 2015", "--", "get_escrow",
        ])
    );
    let signed = invoke_args(&testnet(), "CID", "S", "get_escrow", &[]);
    let mut unsigned = signed[..8].to_vec();
    unsigned.extend_from_slice(&signed[10..]);
    assert_eq!(args, unsigned);
}

#[test]
fn events_build_deploy_and_address_args() {
    assert_eq!(
        events_args(&testnet(), "CID"),
        strs(&[
            "contract", "events", "--id", "CID", "--rpc-url", "https://soroban-testnet.stellar.org",
            "--network-passphrase", "Test SDF Network ; September 2015", "--output", "json",
        ])
    );
    assert_eq!(build_args(), strs(&["contract", "build"]));
    assert_eq!(
        deploy_args(&testnet(), "escrow.wasm", "SDEP"),
        strs(&[
            "contract", "deploy", "--wasm", "escrow.wasm", "--source", "SDEP", "--rpc-url",
            "https://soroban-testnet.stellar.org", "--network-passphrase",
            "Test SDF Network ; September 2015",
        ])
    );
    assert_eq!(address_args("SKEY"), strs(&["keys", "address", "SKEY"]));
}

#[test]
fn create_call_formats_amount_and_deadline() {
    let call = Call::Create {
        payer: "GPAYER".to_string(),
        freelancer: "GFREE".to_string(),
        token: "CTOKEN".to_string(),
        amount: 10_000_000,
        milestone: "Logo design".to_string(),
        deadline: Some(1_700_000_000),
    };
    assert_eq!(call.function(), "create");
    assert_eq!(
        call.args(),
        strs(&[
            "--payer", "GPAYER", "--freelancer", "GFREE", "--token", "CTOKEN", "--amount",
            "10000000", "--milestone", "Logo design", "--deadline", "1700000000",
        ])
    );
    assert_eq!(call.summary(), "Escrow created. Funds locked.");
    let no_deadline = Call::Create {
        payer: "P".to_string(),
        freelancer: "F".to_string(),
        token: "T".to_string(),
        amount: -3,
        milestone: "M".to_string(),
        deadline: None,
    };
    let args = no_deadline.args();
    assert_eq!(args[7], "-3");
    assert_eq!(args[11], "null");
}

#[test]
fn init_call_passes_fee() {
    let call = Call::Init {
        admin: "GADMIN".to_string(),
        fee_bps: 100,
        fee_collector: "GFEE".to_string(),
    };
    assert_eq!(call.function(), "init");
    assert_eq!(
        call.args(),
        strs(&["--admin", "GADMIN", "--fee-bps", "100", "--fee-collector", "GFEE"])
    );
    assert_eq!(call.summary(), "Protocol initialised.");
}

#[test]
fn simple_calls_and_their_messages() {
    let cases = [
        (Call::Pause, "pause", "Contract paused."),
        (Call::Unpause, "unpause", "Contract unpaused."),
        (Call::SubmitWork, "submit_work", "Work submitted. Waiting for payer approval."),
        (Call::Approve, "approve", "Payment released to freelancer."),
        (Call::Cancel, "cancel", "Escrow cancelled. Funds refunded to payer."),
        (Call::Expire, "expire", "Escrow expired. Funds returned to payer."),
    ];
    for (call, name, message) in cases {
        assert_eq!(call.function(), name);
        assert!(call.args().is_empty());
        assert_eq!(call.summary(), message);
    }
}

#[test]
fn transfer_call_names_new_freelancer() {
    let call = Call::TransferFreelancer { new_freelancer: "GNEW".to_string() };
    assert_eq!(call.function(), "transfer_freelancer");
    assert_eq!(call.args(), strs(&["--new-freelancer", "GNEW"]));
    assert_eq!(call.summary(), "Freelancer role transferred to GNEW.");
    let args = call.invocation(&testnet(), "CID", "SFREE");
    assert_eq!(&args[8..], &strs(&["--source", "SFREE", "--", "transfer_freelancer", "--new-freelancer", "GNEW"])[..]);
}

#[test]
fn cli_output_is_decoded_and_trimmed() {
    assert_eq!(address_from_output(b"  GABC123\n"), "GABC123");
    assert_eq!(output_text(b"{\"a\":1}\n"), "{\"a\":1}\n");
    assert_eq!(output_text(&[0x61, 0xff, 0x62]), "a\u{fffd}b");
    assert_eq!(output_text("é".as_bytes()), "é");
}

fn doc_value(doc: &star_escrow::json::Json) -> serde_json::Value {
    serde_json::from_str(&star_escrow::json::report_text(true, doc, "")).unwrap()
}

#[test]
fn create_report_lists_the_escrow() {
    let call = Call::Create {
        payer: "GPAYER".to_string(),
        freelancer: "GFREE".to_string(),
        token: "CTOKEN".to_string(),
        amount: 10_000_000,
        milestone: "Logo".to_string(),
        deadline: None,
    };
    assert!(call.report_fits());
    assert_eq!(
        doc_value(&call.report("CID")),
        parse(r#"{"status": "ok", "action": "create", "contract_id": "CID",
            "payer": "GPAYER", "freelancer": "GFREE", "amount": 10000000,
            "milestone": "Logo", "deadline": null}"#)
    );
    let with_deadline = Call::Create {
        payer: "P".to_string(),
        freelancer: "F".to_string(),
        token: "T".to_string(),
        amount: -5,
        milestone: "M".to_string(),
        deadline: Some(u64::MAX),
    };
    let v = doc_value(&with_deadline.report("C"));
    assert_eq!(v["deadline"], serde_json::Value::from(u64::MAX));
    assert_eq!(v["amount"], serde_json::Value::from(-5));
}

#[test]
fn create_amount_must_fit_a_json_number() {
    let make = |amount: i128| Call::Create {
        payer: "P".to_string(),
        freelancer: "F".to_string(),
        token: "T".to_string(),
        amount,
        milestone: "M".to_string(),
        deadline: None,
    };
    assert!(make(u64::MAX as i128).report_fits());
    assert!(make(i64::MIN as i128).report_fits());
    assert!(!make(u64::MAX as i128 + 1).report_fits());
    assert!(!make(i64::MIN as i128 - 1).report_fits());
    assert!(Call::Pause.report_fits());
}

#[test]
fn other_reports_name_the_action() {
    assert_eq!(
        doc_value(&Call::Pause.report("C")),
        parse(r#"{"status": "ok", "action": "pause"}"#)
    );
    let init = Call::Init { admin: "A".to_string(), fee_bps: 5, fee_collector: "F".to_string() };
    assert_eq!(doc_value(&init.report("C")), parse(r#"{"status": "ok", "action": "init"}"#));
    let transfer = Call::TransferFreelancer { new_freelancer: "GNEW".to_string() };
    assert_eq!(
        doc_value(&transfer.report("C")),
        parse(r#"{"status": "ok", "action": "transfer_freelancer", "new_freelancer": "GNEW"}"#)
    );
}

#[test]
fn report_text_picks_pretty_json_or_the_line() {
    let doc = Call::Approve.report("C");
    assert_eq!(
        star_escrow::json::report_text(true, &doc, "Payment released to freelancer."),
        "{\n  \"action\": \"approve\",\n  \"status\": \"ok\"\n}"
    );
    assert_eq!(
        star_escrow::json::report_text(false, &doc, "Payment released to freelancer."),
        "Payment released to freelancer."
    );
}


fn parse(text: &str) -> serde_json::Value {
    serde_json::from_str(text).unwrap()
}
