//! The command lines given to the `stellar` CLI, and the contract calls
//! that each escrow command makes.
use vstd::prelude::*;
use vstd::utf8::{decode_utf8, valid_utf8};
use crate::text::{law_decimal_round_trip, digits_value, is_digit, decimal, signed_decimal, i128_text, u32_text, u64_text, decode_lossy, utf8_lossy, trim, trimmed};
use crate::json::{
    Json, entries, keys_unique, text, compact_json, entry, json_str, number_from_i128, number_from_u64,
};

verus! {

/// The texts of a vector of strings.
pub open spec fn texts_of(v: Seq<String>) -> Seq<Seq<char>> {
    v.map_values(|s: String| s@)
}

/// The network that the CLI talks to.
#[derive(Debug)]
pub struct Network {
    /// Soroban RPC endpoint.
    pub rpc_url: String,
    /// Network passphrase.
    pub network_passphrase: String,
}

fn push_text(v: &mut Vec<String>, s: &str)
    ensures
        texts_of(final(v)@) == texts_of(old(v)@).push(s@),
{
    let t = String::from_str(s);
    let ghost before = v@;
    v.push(t);
    assert(texts_of(v@) =~= texts_of(before).push(s@));
}

fn push_all(v: &mut Vec<String>, more: &[String])
    ensures
        texts_of(final(v)@) == texts_of(old(v)@) + texts_of(more@),
{
    let ghost start = texts_of(v@);
    let mut i: usize = 0;
    while i < more.len()
        invariant
            i <= more@.len(),
            texts_of(v@) == start + texts_of(more@).take(i as int),
        decreases more.len() - i,
    {
        push_text(v, more[i].as_str());
        assert(texts_of(more@).take(i + 1) =~= texts_of(more@).take(i as int).push(more@[i as int]@));
        i = i + 1;
    }
    assert(texts_of(more@).take(more@.len() as int) =~= texts_of(more@));
}

/// `--id ID --rpc-url URL --network-passphrase PASSPHRASE`.
pub open spec fn target_args(network: Network, contract_id: Seq<char>) -> Seq<Seq<char>> {
    seq![
        "--id"@,
        contract_id,
        "--rpc-url"@,
        network.rpc_url@,
        "--network-passphrase"@,
        network.network_passphrase@,
    ]
}

/// The arguments of a signed contract call: the target, the signing
/// `--source`, then after `--` the function and its own arguments.
pub open spec fn invoke_args_spec(
    network: Network,
    contract_id: Seq<char>,
    secret: Seq<char>,
    function: Seq<char>,
    extra: Seq<Seq<char>>,
) -> Seq<Seq<char>> {
    seq!["contract"@, "invoke"@] + target_args(network, contract_id) + seq![
        "--source"@,
        secret,
        "--"@,
        function,
    ] + extra
}

/// The arguments of an unsigned, read-only contract call.
pub open spec fn query_args_spec(network: Network, contract_id: Seq<char>, function: Seq<char>) -> Seq<
    Seq<char>,
> {
    seq!["contract"@, "invoke"@] + target_args(network, contract_id) + seq!["--"@, function]
}

/// The arguments that list a contract's events as JSON.
pub open spec fn events_args_spec(network: Network, contract_id: Seq<char>) -> Seq<Seq<char>> {
    seq!["contract"@, "events"@] + target_args(network, contract_id) + seq!["--output"@, "json"@]
}

/// The arguments that deploy a WASM file.
pub open spec fn deploy_args_spec(network: Network, wasm: Seq<char>, secret: Seq<char>) -> Seq<
    Seq<char>,
> {
    seq![
        "contract"@,
        "deploy"@,
        "--wasm"@,
        wasm,
        "--source"@,
        secret,
        "--rpc-url"@,
        network.rpc_url@,
        "--network-passphrase"@,
        network.network_passphrase@,
    ]
}

fn push_target(v: &mut Vec<String>, network: &Network, contract_id: &str)
    ensures
        texts_of(final(v)@) == texts_of(old(v)@) + target_args(*network, contract_id@),
{
    let ghost start = texts_of(v@);
    push_text(v, "--id");
    push_text(v, contract_id);
    push_text(v, "--rpc-url");
    push_text(v, network.rpc_url.as_str());
    push_text(v, "--network-passphrase");
    push_text(v, network.network_passphrase.as_str());
    assert(texts_of(v@) =~= start + target_args(*network, contract_id@));
}

/// The CLI arguments that call `function` on the contract, signed by
/// `secret`, with `extra_args` for the function.
pub fn invoke_args(
    network: &Network,
    contract_id: &str,
    secret: &str,
    function: &str,
    extra_args: &[String],
) -> (args: Vec<String>)
    ensures
        texts_of(args@) == invoke_args_spec(
            *network,
            contract_id@,
            secret@,
            function@,
            texts_of(extra_args@),
        ),
{
    let mut v: Vec<String> = Vec::new();
    push_text(&mut v, "contract");
    push_text(&mut v, "invoke");
    push_target(&mut v, network, contract_id);
    push_text(&mut v, "--source");
    push_text(&mut v, secret);
    push_text(&mut v, "--");
    push_text(&mut v, function);
    push_all(&mut v, extra_args);
    assert(texts_of(v@) =~= invoke_args_spec(
        *network,
        contract_id@,
        secret@,
        function@,
        texts_of(extra_args@),
    ));
    v
}

/// The CLI arguments that call the read-only `function` of the contract.
pub fn query_args(network: &Network, contract_id: &str, function: &str) -> (args: Vec<String>)
    ensures
        texts_of(args@) == query_args_spec(*network, contract_id@, function@),
{
    let mut v: Vec<String> = Vec::new();
    push_text(&mut v, "contract");
    push_text(&mut v, "invoke");
    push_target(&mut v, network, contract_id);
    push_text(&mut v, "--");
    push_text(&mut v, function);
    assert(texts_of(v@) =~= query_args_spec(*network, contract_id@, function@));
    v
}

/// The CLI arguments that list the contract's events as JSON.
pub fn events_args(network: &Network, contract_id: &str) -> (args: Vec<String>)
    ensures
        texts_of(args@) == events_args_spec(*network, contract_id@),
{
    let mut v: Vec<String> = Vec::new();
    push_text(&mut v, "contract");
    push_text(&mut v, "events");
    push_target(&mut v, network, contract_id);
    push_text(&mut v, "--output");
    push_text(&mut v, "json");
    assert(texts_of(v@) =~= events_args_spec(*network, contract_id@));
    v
}

/// The CLI arguments that print the public address of a secret key.
pub fn address_args(secret: &str) -> (args: Vec<String>)
    ensures
        texts_of(args@) == seq!["keys"@, "address"@, secret@],
{
    let mut v: Vec<String> = Vec::new();
    push_text(&mut v, "keys");
    push_text(&mut v, "address");
    push_text(&mut v, secret);
    assert(texts_of(v@) =~= seq!["keys"@, "address"@, secret@]);
    v
}

/// The CLI arguments that build the contract.
pub fn build_args() -> (args: Vec<String>)
    ensures
        texts_of(args@) == seq!["contract"@, "build"@],
{
    let mut v: Vec<String> = Vec::new();
    push_text(&mut v, "contract");
    push_text(&mut v, "build");
    assert(texts_of(v@) =~= seq!["contract"@, "build"@]);
    v
}

/// The CLI arguments that deploy the WASM file at `wasm`, paid by `secret`.
pub fn deploy_args(network: &Network, wasm: &str, secret: &str) -> (args: Vec<String>)
    ensures
        texts_of(args@) == deploy_args_spec(*network, wasm@, secret@),
{
    let mut v: Vec<String> = Vec::new();
    push_text(&mut v, "contract");
    push_text(&mut v, "deploy");
    push_text(&mut v, "--wasm");
    push_text(&mut v, wasm);
    push_text(&mut v, "--source");
    push_text(&mut v, secret);
    push_text(&mut v, "--rpc-url");
    push_text(&mut v, network.rpc_url.as_str());
    push_text(&mut v, "--network-passphrase");
    push_text(&mut v, network.network_passphrase.as_str());
    assert(texts_of(v@) =~= deploy_args_spec(*network, wasm@, secret@));
    v
}

/// The text that a CLI command printed, decoded as `from_utf8_lossy` does.
pub fn output_text(stdout: &[u8]) -> (s: String)
    ensures
        s@ == utf8_lossy(stdout@),
        valid_utf8(stdout@) ==> s@ == decode_utf8(stdout@),
{
    decode_lossy(stdout)
}

/// The address printed by `stellar keys address`: the output, decoded and
/// trimmed.
pub fn address_from_output(stdout: &[u8]) -> (s: String)
    ensures
        s@ == trimmed(utf8_lossy(stdout@)),
        valid_utf8(stdout@) ==> s@ == trimmed(decode_utf8(stdout@)),
{
    let out = decode_lossy(stdout);
    trim(out.as_str())
}

/// A read-only query makes the same call as a signed invocation of the same
/// function with no arguments, only without the `--source` pair.
pub proof fn law_query_is_unsigned_invoke(
    network: Network,
    contract_id: Seq<char>,
    secret: Seq<char>,
    function: Seq<char>,
)
    ensures
        ({
            let signed = invoke_args_spec(network, contract_id, secret, function, seq![]);
            query_args_spec(network, contract_id, function) == signed.take(8) + signed.skip(10)
        }),
{
    let signed = invoke_args_spec(network, contract_id, secret, function, seq![]);
    assert(query_args_spec(network, contract_id, function) =~= signed.take(8) + signed.skip(10));
}

/// In a signed invocation the contract's own arguments all come after the
/// `--` that ends the CLI's options, right behind the function's name.
pub proof fn law_contract_args_follow_separator(
    network: Network,
    contract_id: Seq<char>,
    secret: Seq<char>,
    function: Seq<char>,
    extra: Seq<Seq<char>>,
)
    ensures
        ({
            let args = invoke_args_spec(network, contract_id, secret, function, extra);
            &&& args[10] == "--"@
            &&& args[11] == function
            &&& args.skip(12) == extra
            &&& args[8] == "--source"@ && args[9] == secret
        }),
{
    let args = invoke_args_spec(network, contract_id, secret, function, extra);
    assert(args.skip(12) =~= extra);
}

/// A state-changing call of the escrow contract, with the arguments that
/// the command line supplied.
#[derive(Debug)]
pub enum Call {
    /// Set the admin and the protocol fee.
    Init { admin: String, fee_bps: u32, fee_collector: String },
    Pause,
    Unpause,
    /// Create an escrow and lock the amount.
    Create {
        payer: String,
        freelancer: String,
        token: String,
        amount: i128,
        milestone: String,
        deadline: Option<u64>,
    },
    SubmitWork,
    TransferFreelancer { new_freelancer: String },
    Approve,
    Cancel,
    Expire,
}

/// The contract function that a call invokes.
pub open spec fn function_of(call: Call) -> Seq<char> {
    match call {
        Call::Init { .. } => "init"@,
        Call::Pause => "pause"@,
        Call::Unpause => "unpause"@,
        Call::Create { .. } => "create"@,
        Call::SubmitWork => "submit_work"@,
        Call::TransferFreelancer { .. } => "transfer_freelancer"@,
        Call::Approve => "approve"@,
        Call::Cancel => "cancel"@,
        Call::Expire => "expire"@,
    }
}

/// The deadline argument: the number, or `null` when there is none.
pub open spec fn deadline_text(deadline: Option<u64>) -> Seq<char> {
    match deadline {
        Some(d) => decimal(d as nat),
        None => "null"@,
    }
}

/// The arguments that a call passes to its contract function.
pub open spec fn args_of(call: Call) -> Seq<Seq<char>> {
    match call {
        Call::Init { admin, fee_bps, fee_collector } => seq![
            "--admin"@,
            admin@,
            "--fee-bps"@,
            decimal(fee_bps as nat),
            "--fee-collector"@,
            fee_collector@,
        ],
        Call::Create { payer, freelancer, token, amount, milestone, deadline } => seq![
            "--payer"@,
            payer@,
            "--freelancer"@,
            freelancer@,
            "--token"@,
            token@,
            "--amount"@,
            signed_decimal(amount as int),
            "--milestone"@,
            milestone@,
            "--deadline"@,
            deadline_text(deadline),
        ],
        Call::TransferFreelancer { new_freelancer } => seq!["--new-freelancer"@, new_freelancer@],
        _ => seq![],
    }
}

/// The message that reports a call's success.
pub open spec fn summary_of(call: Call) -> Seq<char> {
    match call {
        Call::Init { .. } => "Protocol initialised."@,
        Call::Pause => "Contract paused."@,
        Call::Unpause => "Contract unpaused."@,
        Call::Create { .. } => "Escrow created. Funds locked."@,
        Call::SubmitWork => "Work submitted. Waiting for payer approval."@,
        Call::TransferFreelancer { new_freelancer } => "Freelancer role transferred to "@
            + new_freelancer@ + "."@,
        Call::Approve => "Payment released to freelancer."@,
        Call::Cancel => "Escrow cancelled. Funds refunded to payer."@,
        Call::Expire => "Escrow expired. Funds returned to payer."@,
    }
}

/// Whether a call's JSON report can hold its numbers: JSON numbers reach
/// from `i64::MIN` to `u64::MAX`, which bounds the amount of `create`.
pub open spec fn report_fits(call: Call) -> bool {
    match call {
        Call::Create { amount, .. } => i64::MIN <= amount <= u64::MAX,
        _ => true,
    }
}

/// Whether `doc` is the JSON report of `call` on `contract_id`:
/// `{"status": "ok", "action": <function>}`, followed for `create` by the
/// contract, payer, freelancer, amount, milestone and deadline (`null` when
/// there is none), and for `transfer_freelancer` by the new freelancer.
pub open spec fn is_report(doc: Json, call: Call, contract_id: Seq<char>) -> bool {
    let es = entries(doc);
    &&& doc is Object
    &&& keys_unique(es)
    &&& es.len() >= 2
    &&& es[0].0@ == "status"@ && text(es[0].1) == Some("ok"@)
    &&& es[1].0@ == "action"@ && text(es[1].1) == Some(function_of(call))
    &&& match call {
        Call::Create { payer, freelancer, amount, milestone, deadline, .. } => {
            &&& es.len() == 8
            &&& es[2].0@ == "contract_id"@ && text(es[2].1) == Some(contract_id)
            &&& es[3].0@ == "payer"@ && text(es[3].1) == Some(payer@)
            &&& es[4].0@ == "freelancer"@ && text(es[4].1) == Some(freelancer@)
            &&& es[5].0@ == "amount"@ && es[5].1 is Number
            &&& compact_json(es[5].1) == signed_decimal(amount as int)
            &&& es[6].0@ == "milestone"@ && text(es[6].1) == Some(milestone@)
            &&& es[7].0@ == "deadline"@
            &&& match deadline {
                Some(d) => es[7].1 is Number && compact_json(es[7].1) == decimal(d as nat),
                None => es[7].1 == Json::Null,
            }
        },
        Call::TransferFreelancer { new_freelancer } => {
            &&& es.len() == 3
            &&& es[2].0@ == "new_freelancer"@ && text(es[2].1) == Some(new_freelancer@)
        },
        _ => es.len() == 2,
    }
}

impl Call {
    /// Whether the call's JSON report can hold its numbers.
    pub fn report_fits(&self) -> (b: bool)
        ensures
            b == report_fits(*self),
    {
        match self {
            Call::Create { amount, .. } => -9223372036854775808i128 <= *amount && *amount
                <= 18446744073709551615i128,
            _ => true,
        }
    }

    /// The JSON report of a successful call on `contract_id`.
    pub fn report(&self, contract_id: &str) -> (doc: Json)
        requires
            report_fits(*self),
        ensures
            is_report(doc, *self, contract_id@),
    {
        let mut es: Vec<(String, Json)> = Vec::new();
        es.push(entry("status", json_str("ok")));
        let f = self.function();
        let ghost fname = f@;
        es.push(entry("action", Json::Str(f)));
        proof {
            reveal_strlit("status");
            reveal_strlit("action");
            assert("status"@[0] != "action"@[0]);
        }
        match self {
            Call::Create { payer, freelancer, amount, milestone, deadline, .. } => {
                es.push(entry("contract_id", json_str(contract_id)));
                es.push(entry("payer", json_str(payer.as_str())));
                es.push(entry("freelancer", json_str(freelancer.as_str())));
                let n = number_from_i128(*amount).unwrap();
                es.push(entry("amount", Json::Number(n)));
                es.push(entry("milestone", json_str(milestone.as_str())));
                let d = match deadline {
                    Some(d) => Json::Number(number_from_u64(*d)),
                    None => Json::Null,
                };
                es.push(entry("deadline", d));
                proof {
                    reveal_strlit("contract_id");
                    reveal_strlit("payer");
                    reveal_strlit("freelancer");
                    reveal_strlit("amount");
                    reveal_strlit("milestone");
                    reveal_strlit("deadline");
                    let ks = es@;
                    assert(ks[0].0@[0] == 's' && ks[1].0@[0] == 'a' && ks[1].0@[1] == 'c');
                    assert(ks[5].0@[0] == 'a' && ks[5].0@[1] == 'm');
                    assert(ks[0].0@.len() == 6 && ks[1].0@.len() == 6 && ks[2].0@.len() == 11
                        && ks[3].0@.len() == 5 && ks[4].0@.len() == 10 && ks[5].0@.len() == 6
                        && ks[6].0@.len() == 9 && ks[7].0@.len() == 8);
                    assert(keys_unique(ks));
                }
            },
            Call::TransferFreelancer { new_freelancer } => {
                es.push(entry("new_freelancer", json_str(new_freelancer.as_str())));
                proof {
                    reveal_strlit("new_freelancer");
                    assert(es@[2].0@.len() == 14);
                }
            },
            _ => {},
        }
        Json::Object(es)
    }

    /// The name of the contract function, which is also the action's name
    /// in reports.
    pub fn function(&self) -> (f: String)
        ensures
            f@ == function_of(*self),
    {
        match self {
            Call::Init { .. } => String::from_str("init"),
            Call::Pause => String::from_str("pause"),
            Call::Unpause => String::from_str("unpause"),
            Call::Create { .. } => String::from_str("create"),
            Call::SubmitWork => String::from_str("submit_work"),
            Call::TransferFreelancer { .. } => String::from_str("transfer_freelancer"),
            Call::Approve => String::from_str("approve"),
            Call::Cancel => String::from_str("cancel"),
            Call::Expire => String::from_str("expire"),
        }
    }

    /// The arguments passed to the contract function.
    pub fn args(&self) -> (args: Vec<String>)
        ensures
            texts_of(args@) == args_of(*self),
    {
        let mut v: Vec<String> = Vec::new();
        match self {
            Call::Init { admin, fee_bps, fee_collector } => {
                push_text(&mut v, "--admin");
                push_text(&mut v, admin.as_str());
                push_text(&mut v, "--fee-bps");
                let fee = u32_text(*fee_bps);
                push_text(&mut v, fee.as_str());
                push_text(&mut v, "--fee-collector");
                push_text(&mut v, fee_collector.as_str());
            },
            Call::Create { payer, freelancer, token, amount, milestone, deadline } => {
                push_text(&mut v, "--payer");
                push_text(&mut v, payer.as_str());
                push_text(&mut v, "--freelancer");
                push_text(&mut v, freelancer.as_str());
                push_text(&mut v, "--token");
                push_text(&mut v, token.as_str());
                push_text(&mut v, "--amount");
                let amount_text = i128_text(*amount);
                push_text(&mut v, amount_text.as_str());
                push_text(&mut v, "--milestone");
                push_text(&mut v, milestone.as_str());
                push_text(&mut v, "--deadline");
                let deadline_str = match deadline {
                    Some(d) => u64_text(*d),
                    None => String::from_str("null"),
                };
                push_text(&mut v, deadline_str.as_str());
            },
            Call::TransferFreelancer { new_freelancer } => {
                push_text(&mut v, "--new-freelancer");
                push_text(&mut v, new_freelancer.as_str());
            },
            _ => {},
        }
        assert(texts_of(v@) =~= args_of(*self));
        v
    }

    /// The message printed when the call succeeds.
    pub fn summary(&self) -> (s: String)
        ensures
            s@ == summary_of(*self),
    {
        match self {
            Call::Init { .. } => String::from_str("Protocol initialised."),
            Call::Pause => String::from_str("Contract paused."),
            Call::Unpause => String::from_str("Contract unpaused."),
            Call::Create { .. } => String::from_str("Escrow created. Funds locked."),
            Call::SubmitWork => String::from_str("Work submitted. Waiting for payer approval."),
            Call::TransferFreelancer { new_freelancer } => {
                let s = String::from_str("Freelancer role transferred to ");
                let s = s.concat(new_freelancer.as_str());
                s.concat(".")
            },
            Call::Approve => String::from_str("Payment released to freelancer."),
            Call::Cancel => String::from_str("Escrow cancelled. Funds refunded to payer."),
            Call::Expire => String::from_str("Escrow expired. Funds returned to payer."),
        }
    }

    /// The CLI arguments that make this call on `contract_id`, signed by
    /// `secret`.
    pub fn invocation(&self, network: &Network, contract_id: &str, secret: &str) -> (args: Vec<
        String,
    >)
        ensures
            texts_of(args@) == invoke_args_spec(
                *network,
                contract_id@,
                secret@,
                function_of(*self),
                args_of(*self),
            ),
    {
        let f = self.function();
        let extra = self.args();
        invoke_args(network, contract_id, secret, f.as_str(), extra.as_slice())
    }
}

/// The amount passed to `create` is the decimal numeral of the amount given,
/// and it reads back as that amount.
pub proof fn law_create_passes_amount(
    payer: String,
    freelancer: String,
    token: String,
    amount: i128,
    milestone: String,
    deadline: Option<u64>,
)
    ensures
        ({
            let call = Call::Create { payer, freelancer, token, amount, milestone, deadline };
            let text = args_of(call)[7];
            &&& args_of(call)[6] == "--amount"@
            &&& amount >= 0 ==> crate::text::digits_value(text) == amount
            &&& amount < 0 ==> text[0] == '-' && crate::text::digits_value(text.drop_first())
                == -amount
        }),
{
    if amount >= 0 {
        crate::text::law_decimal_round_trip(amount as nat);
    } else {
        crate::text::law_decimal_round_trip((-amount) as nat);
        let d = decimal((-amount) as nat);
        assert((seq!['-'] + d).drop_first() =~= d);
    }
}

/// The arguments each call passes its contract function: `init` passes the
/// admin, the fee in basis points as a decimal numeral (also when it is 0)
/// and the fee collector; `create` passes payer, freelancer, token, amount,
/// milestone and the deadline (`null` when there is none);
/// `transfer_freelancer` passes the new freelancer; the others pass nothing.
pub proof fn law_call_args(call: Call)
    ensures
        ({
            let a = args_of(call);
            match call {
                Call::Init { admin, fee_bps, fee_collector } => {
                    &&& a.len() == 6
                    &&& a[0] == "--admin"@ && a[1] == admin@
                    &&& a[2] == "--fee-bps"@
                    &&& a[3].len() > 0 && (forall|i: int| 0 <= i < a[3].len() ==> is_digit(#[trigger] a[3][i]))
                    &&& digits_value(a[3]) == fee_bps
                    &&& a[4] == "--fee-collector"@ && a[5] == fee_collector@
                },
                Call::Create { payer, freelancer, token, amount, milestone, deadline } => {
                    &&& a.len() == 12
                    &&& a[0] == "--payer"@ && a[1] == payer@
                    &&& a[2] == "--freelancer"@ && a[3] == freelancer@
                    &&& a[4] == "--token"@ && a[5] == token@
                    &&& a[6] == "--amount"@
                    &&& amount >= 0 ==> digits_value(a[7]) == amount
                    &&& amount < 0 ==> a[7][0] == '-' && digits_value(a[7].drop_first()) == -amount
                    &&& a[8] == "--milestone"@ && a[9] == milestone@
                    &&& a[10] == "--deadline"@
                    &&& match deadline {
                        Some(d) => digits_value(a[11]) == d && a[11].len() > 0 && (forall|i: int|
                            0 <= i < a[11].len() ==> is_digit(#[trigger] a[11][i])),
                        None => a[11] == "null"@,
                    }
                },
                Call::TransferFreelancer { new_freelancer } => a == seq![
                    "--new-freelancer"@,
                    new_freelancer@,
                ],
                _ => a.len() == 0,
            }
        }),
{
    match call {
        Call::Init { fee_bps, .. } => {
            law_decimal_round_trip(fee_bps as nat);
        },
        Call::Create { payer, freelancer, token, amount, milestone, deadline } => {
            law_create_passes_amount(payer, freelancer, token, amount, milestone, deadline);
            if let Some(d) = deadline {
                law_decimal_round_trip(d as nat);
            }
        },
        _ => {},
    }
}

/// Each call invokes the contract function of its own name, and no two
/// calls invoke the same function.
pub proof fn law_call_functions(call: Call, other: Call)
    ensures
        function_of(call) == match call {
            Call::Init { .. } => "init"@,
            Call::Pause => "pause"@,
            Call::Unpause => "unpause"@,
            Call::Create { .. } => "create"@,
            Call::SubmitWork => "submit_work"@,
            Call::TransferFreelancer { .. } => "transfer_freelancer"@,
            Call::Approve => "approve"@,
            Call::Cancel => "cancel"@,
            Call::Expire => "expire"@,
        },
        function_of(call) == function_of(other) ==> call_kind(call) == call_kind(other),
{
    reveal_strlit("init");
    reveal_strlit("pause");
    reveal_strlit("unpause");
    reveal_strlit("create");
    reveal_strlit("submit_work");
    reveal_strlit("transfer_freelancer");
    reveal_strlit("approve");
    reveal_strlit("cancel");
    reveal_strlit("expire");
    if function_of(call) == function_of(other) {
        let f = function_of(call);
        let g = function_of(other);
        assert(f.len() == g.len() && f[0] == g[0] && f[1] == g[1]);
    }
}

/// Which command a call is.
pub open spec fn call_kind(call: Call) -> nat {
    match call {
        Call::Init { .. } => 0,
        Call::Pause => 1,
        Call::Unpause => 2,
        Call::Create { .. } => 3,
        Call::SubmitWork => 4,
        Call::TransferFreelancer { .. } => 5,
        Call::Approve => 6,
        Call::Cancel => 7,
        Call::Expire => 8,
    }
}

/// A call's report names, as its action, the very function that the call's
/// command line invokes (the argument after `--`), and reports success.
pub proof fn law_report_names_invoked_function(
    doc: Json,
    call: Call,
    contract_id: Seq<char>,
    network: Network,
    secret: Seq<char>,
)
    requires
        is_report(doc, call, contract_id),
    ensures
        ({
            let cmd = invoke_args_spec(network, contract_id, secret, function_of(call), args_of(call));
            &&& cmd[10] == "--"@
            &&& entries(doc)[1].0@ == "action"@
            &&& text(entries(doc)[1].1) == Some(cmd[11])
            &&& entries(doc)[0].0@ == "status"@ && text(entries(doc)[0].1) == Some("ok"@)
        }),
{
    law_contract_args_follow_separator(network, contract_id, secret, function_of(call), args_of(call));
}

} // verus!
