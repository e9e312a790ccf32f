//! Escrows as the contract's `escrow_created` events record them: picking a
//! payer's escrows out of the event list that the CLI prints, and the
//! reports made of them; also the report of an escrow's status.
use vstd::prelude::*;
use crate::json::{
    Json, field, item, items, text, text_or_empty, text_or_dash, parsed_json, compact_json,
    parse_json, compact_text, text_is, lookup, entries, keys_unique, entry, json_str,
};
use crate::text::{decimal, decimal_u128, string_from_chars, decode_lossy, utf8_lossy, trim, trimmed};
use crate::invocation::texts_of;

verus! {

/// The events in the CLI's output: the elements of the JSON array it holds,
/// none when it is not a JSON array.
pub open spec fn events_in(output: Seq<u8>) -> Seq<Json> {
    events_from(parsed_json(utf8_lossy(output)))
}

/// The events in a parsed output: the elements of a JSON array, none for
/// any other value or where the output was not JSON.
pub open spec fn events_from(parsed: Option<Json>) -> Seq<Json> {
    match parsed {
        Some(v) => items(v),
        None => seq![],
    }
}

/// Whether an event records the creation of an escrow paid by `payer`: its
/// first topic is `escrow_created` and its first value is the payer.
pub open spec fn is_escrow_of(e: Json, payer: Seq<char>) -> bool {
    &&& text_or_empty(item(field(e, "topic"@), 0)) == "escrow_created"@
    &&& text_or_empty(item(field(e, "value"@), 0)) == payer
}

/// The events of `payer`'s escrows, in order.
pub open spec fn escrows_in(events: Seq<Json>, payer: Seq<char>) -> Seq<Json> {
    events.filter(|e: Json| is_escrow_of(e, payer))
}

/// Whether `rec` is the escrow record of event `e` on `contract_id`: an
/// object with `contract_id`, then `payer`, `freelancer`, `amount` and
/// `milestone` taken from the event's values in that order.
pub open spec fn is_escrow_record(rec: Json, e: Json, contract_id: Seq<char>) -> bool {
    let es = entries(rec);
    let value = field(e, "value"@);
    &&& rec is Object
    &&& keys_unique(es)
    &&& es.len() == 5
    &&& es[0].0@ == "contract_id"@ && text(es[0].1) == Some(contract_id)
    &&& es[1].0@ == "payer"@ && es[1].1 == item(value, 0)
    &&& es[2].0@ == "freelancer"@ && es[2].1 == item(value, 1)
    &&& es[3].0@ == "amount"@ && es[3].1 == item(value, 2)
    &&& es[4].0@ == "milestone"@ && es[4].1 == item(value, 3)
}

fn key_text(k: &str) -> (s: String)
    ensures
        s@ == k@,
{
    String::from_str(k)
}

fn take_item(items: &mut Vec<Json>, i: usize) -> (r: Json)
    ensures
        r == (if i < old(items)@.len() {
            old(items)@[i as int]
        } else {
            Json::Null
        }),
        final(items)@.len() == old(items)@.len(),
        forall|j: int| 0 <= j < old(items)@.len() && j != i ==> final(items)@[j] == old(items)@[j],
{
    if i < items.len() {
        let mut slot = Json::Null;
        items.set_and_swap(i, &mut slot);
        slot
    } else {
        Json::Null
    }
}

/// The escrow record of one escrow event.
fn escrow_record(e: Json, contract_id: &str) -> (rec: Json)
    ensures
        is_escrow_record(rec, e, contract_id@),
{
    let ghost value = field(e, "value"@);
    let v = e.into_field("value");
    let mut vs = v.into_items();
    let payer = take_item(&mut vs, 0);
    let freelancer = take_item(&mut vs, 1);
    let amount = take_item(&mut vs, 2);
    let milestone = take_item(&mut vs, 3);
    let mut es: Vec<(String, Json)> = Vec::new();
    es.push((key_text("contract_id"), Json::Str(String::from_str(contract_id))));
    es.push((key_text("payer"), payer));
    es.push((key_text("freelancer"), freelancer));
    es.push((key_text("amount"), amount));
    es.push((key_text("milestone"), milestone));
    proof {
        reveal_strlit("contract_id");
        reveal_strlit("payer");
        reveal_strlit("freelancer");
        reveal_strlit("amount");
        reveal_strlit("milestone");
        let ks = es@;
        assert(ks[0].0@.len() == 11 && ks[1].0@.len() == 5 && ks[2].0@.len() == 10
            && ks[3].0@.len() == 6 && ks[4].0@.len() == 9);
        assert(keys_unique(ks));
    }
    Json::Object(es)
}

/// Picks the escrows of `payer` out of the events, in order, and makes each
/// into its escrow record on `contract_id`.
pub fn select_escrows(events: Vec<Json>, contract_id: &str, payer: &str) -> (r: Vec<Json>)
    ensures
        r@.len() == escrows_in(events@, payer@).len(),
        forall|k: int|
            0 <= k < r@.len() ==> is_escrow_record(
                #[trigger] r@[k],
                escrows_in(events@, payer@)[k],
                contract_id@,
            ),
{
    let ghost orig = events@;
    let ghost pred = |e: Json| is_escrow_of(e, payer@);
    let mut events = events;
    let mut r: Vec<Json> = Vec::new();
    let mut i: usize = 0;
    proof {
        reveal_with_fuel(Seq::filter, 1);
        assert(orig.take(0) =~= Seq::<Json>::empty());
    }
    while i < events.len()
        invariant
            i <= orig.len() == events@.len(),
            pred == (|e: Json| is_escrow_of(e, payer@)),
            forall|j: int| i <= j < orig.len() ==> events@[j] == orig[j],
            r@.len() == orig.take(i as int).filter(pred).len(),
            forall|k: int|
                0 <= k < r@.len() ==> is_escrow_record(
                    #[trigger] r@[k],
                    orig.take(i as int).filter(pred)[k],
                    contract_id@,
                ),
        decreases events.len() - i,
    {
        let mut e = Json::Null;
        events.set_and_swap(i, &mut e);
        assert(e == orig[i as int]);
        let topic = match e.get("topic") {
            Some(t) => t.at(0),
            None => None,
        };
        let topic_ok = text_is(topic, "escrow_created");
        let first = match e.get("value") {
            Some(v) => v.at(0),
            None => None,
        };
        let payer_ok = text_is(first, payer);
        proof {
            assert(orig.take(i + 1) =~= orig.take(i as int).push(orig[i as int]));
            orig.take(i as int).lemma_filter_push(orig[i as int], pred);
        }
        if topic_ok && payer_ok {
            let rec = escrow_record(e, contract_id);
            r.push(rec);
        }
        i = i + 1;
    }
    assert(orig.take(orig.len() as int) =~= orig);
    r
}

/// The escrow records of `payer`'s escrows in the CLI's event output.
pub fn find_escrows(stdout: &[u8], contract_id: &str, payer: &str) -> (r: Vec<Json>)
    ensures
        r@.len() == escrows_in(events_in(stdout@), payer@).len(),
        forall|k: int|
            0 <= k < r@.len() ==> is_escrow_record(
                #[trigger] r@[k],
                escrows_in(events_in(stdout@), payer@)[k],
                contract_id@,
            ),
{
    let raw = decode_lossy(stdout);
    let parsed = parse_json(raw.as_str());
    select_escrows(events_of(parsed), contract_id, payer)
}

/// The events in the parsed output of the CLI's event listing.
pub fn events_of(parsed: Option<Json>) -> (events: Vec<Json>)
    ensures
        events@ == events_from(parsed),
{
    match parsed {
        Some(v) => v.into_items(),
        None => Vec::new(),
    }
}

/// `{"escrows": [...]}`, the JSON report of the records.
pub fn escrows_document(escrows: Vec<Json>) -> (doc: Json)
    ensures
        doc is Object,
        entries(doc).len() == 1,
        entries(doc)[0].0@ == "escrows"@,
        entries(doc)[0].1 == Json::Array(escrows),
        keys_unique(entries(doc)),
{
    let mut es: Vec<(String, Json)> = Vec::new();
    es.push((key_text("escrows"), Json::Array(escrows)));
    Json::Object(es)
}

/// The line that shows the `k`-th record (counted from 0).
pub open spec fn escrow_line(k: nat, rec: Json) -> Seq<char> {
    "  ["@ + decimal(k + 1) + "] contract="@ + text_or_dash(field(rec, "contract_id"@))
        + " milestone="@ + text_or_dash(field(rec, "milestone"@)) + " amount="@ + compact_json(
        field(rec, "amount"@),
    ) + " freelancer="@ + text_or_dash(field(rec, "freelancer"@))
}

/// The text report of a payer's escrows: a line that says there are none,
/// or a heading and one line per record.
pub open spec fn escrow_listing_spec(payer: Seq<char>, recs: Seq<Json>) -> Seq<Seq<char>> {
    if recs.len() == 0 {
        seq!["No escrows found for payer "@ + payer]
    } else {
        seq!["Escrows for payer "@ + payer + ":"@] + Seq::new(
            recs.len(),
            |k: int| escrow_line(k as nat, recs[k]),
        )
    }
}

fn text_or_dash_of(v: Option<&Json>) -> (s: String)
    ensures
        s@ == text_or_dash(
            match v {
                Some(x) => *x,
                None => Json::Null,
            },
        ),
{
    match v {
        Some(x) => match x.as_str() {
            Some(s) => String::from_str(s.as_str()),
            None => String::from_str("-"),
        },
        None => String::from_str("-"),
    }
}

fn escrow_line_text(k: usize, rec: &Json) -> (s: String)
    ensures
        s@ == escrow_line(k as nat, *rec),
{
    let n = decimal_u128(k as u128 + 1);
    let number = string_from_chars(n.as_slice());
    let contract = text_or_dash_of(rec.get("contract_id"));
    let milestone = text_or_dash_of(rec.get("milestone"));
    let amount = match rec.get("amount") {
        Some(a) => compact_text(a),
        None => compact_text(&Json::Null),
    };
    let freelancer = text_or_dash_of(rec.get("freelancer"));
    let s = String::from_str("  [");
    let s = s.concat(number.as_str());
    let s = s.concat("] contract=");
    let s = s.concat(contract.as_str());
    let s = s.concat(" milestone=");
    let s = s.concat(milestone.as_str());
    let s = s.concat(" amount=");
    let s = s.concat(amount.as_str());
    let s = s.concat(" freelancer=");
    s.concat(freelancer.as_str())
}

/// The lines of the text report on `payer`'s escrows.
pub fn escrow_listing(payer: &str, escrows: &Vec<Json>) -> (lines: Vec<String>)
    ensures
        texts_of(lines@) == escrow_listing_spec(payer@, escrows@),
{
    let mut lines: Vec<String> = Vec::new();
    if escrows.len() == 0 {
        let s = String::from_str("No escrows found for payer ");
        lines.push(s.concat(payer));
        assert(texts_of(lines@) =~= escrow_listing_spec(payer@, escrows@));
        return lines;
    }
    let s = String::from_str("Escrows for payer ");
    let s = s.concat(payer);
    lines.push(s.concat(":"));
    let ghost head = "Escrows for payer "@ + payer@ + ":"@;
    let mut k: usize = 0;
    while k < escrows.len()
        invariant
            k <= escrows@.len(),
            texts_of(lines@) == seq![head] + Seq::new(
                k as nat,
                |j: int| escrow_line(j as nat, escrows@[j]),
            ),
        decreases escrows.len() - k,
    {
        let line = escrow_line_text(k, &escrows[k]);
        let ghost before = lines@;
        let ghost shown = line@;
        lines.push(line);
        assert(lines@ =~= before.push(line));
        assert(texts_of(lines@) =~= texts_of(before).push(shown));
        assert(texts_of(lines@) =~= seq![head] + Seq::new(
            (k + 1) as nat,
            |j: int| escrow_line(j as nat, escrows@[j]),
        ));
        k = k + 1;
    }
    lines
}

/// Whether `doc` is `{"status": "ok", "escrow": escrow}`.
pub open spec fn is_status_document(doc: Json, escrow: Json) -> bool {
    let es = entries(doc);
    &&& doc is Object
    &&& keys_unique(es)
    &&& es.len() == 2
    &&& es[0].0@ == "status"@ && text(es[0].1) == Some("ok"@)
    &&& es[1].0@ == "escrow"@ && es[1].1 == escrow
}

/// The escrow that `get_escrow` printed: the output (trimmed) parsed as
/// JSON, or where it is not JSON that text as a JSON string.
pub open spec fn is_status_escrow(escrow: Json, parsed: Option<Json>, shown: Seq<char>) -> bool {
    match parsed {
        Some(v) => escrow == v,
        None => text(escrow) == Some(shown),
    }
}

/// `{"status": "ok", "escrow": ...}` for the output of the contract's
/// `get_escrow`, given that output trimmed and what parsing it gave.
pub fn status_document_of(parsed: Option<Json>, shown: String) -> (doc: Json)
    ensures
        exists|escrow: Json| is_status_document(doc, escrow) && is_status_escrow(escrow, parsed, shown@),
{
    let ghost s = shown@;
    let escrow = match parsed {
        Some(v) => v,
        None => Json::Str(shown),
    };
    let ghost e = escrow;
    let mut es: Vec<(String, Json)> = Vec::new();
    es.push(entry("status", json_str("ok")));
    es.push(entry("escrow", escrow));
    proof {
        reveal_strlit("status");
        reveal_strlit("escrow");
        assert("status"@[1] != "escrow"@[1]);
    }
    let doc = Json::Object(es);
    assert(is_status_document(doc, e) && is_status_escrow(e, parsed, s));
    doc
}

/// `{"status": "ok", "escrow": ...}` for the output of the contract's
/// `get_escrow`: the escrow is the output (trimmed) parsed as JSON, or that
/// text as a JSON string where it is not JSON.
pub fn status_document(raw: &str) -> (doc: Json)
    ensures
        exists|escrow: Json| is_status_document(doc, escrow) && is_status_escrow(
            escrow,
            parsed_json(trimmed(raw@)),
            trimmed(raw@),
        ),
{
    let t = trim(raw);
    let parsed = parse_json(t.as_str());
    status_document_of(parsed, t)
}

/// The escrows picked for a payer are exactly the payer's `escrow_created`
/// events: each of them is an event of the list whose first topic is
/// `escrow_created` and whose first value is the payer, and each such event
/// of the list is among them. An event whose first value is some other
/// text (the freelancer, say) is never picked.
pub proof fn law_escrows_are_exactly_the_payers(events: Seq<Json>, payer: Seq<char>)
    ensures
        forall|k: int|
            0 <= k < escrows_in(events, payer).len() ==> {
                let e = #[trigger] escrows_in(events, payer)[k];
                &&& events.contains(e)
                &&& text_or_empty(item(field(e, "topic"@), 0)) == "escrow_created"@
                &&& text_or_empty(item(field(e, "value"@), 0)) == payer
            },
        forall|i: int|
            0 <= i < events.len() && text_or_empty(item(field(#[trigger] events[i], "topic"@), 0))
                == "escrow_created"@ && text_or_empty(item(field(events[i], "value"@), 0))
                == payer ==> escrows_in(events, payer).contains(events[i]),
        forall|i: int|
            0 <= i < events.len() && text(item(field(#[trigger] events[i], "value"@), 0)) is Some
                && text(item(field(events[i], "value"@), 0)) != Some(payer) ==> !escrows_in(
                events,
                payer,
            ).contains(events[i]),
{
    broadcast use vstd::seq_lib::group_filter_ensures;

    let pred = |e: Json| is_escrow_of(e, payer);
    assert forall|k: int| 0 <= k < escrows_in(events, payer).len() implies {
        let e = #[trigger] escrows_in(events, payer)[k];
        &&& events.contains(e)
        &&& text_or_empty(item(field(e, "topic"@), 0)) == "escrow_created"@
        &&& text_or_empty(item(field(e, "value"@), 0)) == payer
    } by {
        events.lemma_filter_pred(pred, k);
        events.lemma_filter_contains_rev(pred, escrows_in(events, payer)[k]);
    }
    assert forall|i: int|
        0 <= i < events.len() && text_or_empty(item(field(#[trigger] events[i], "topic"@), 0))
            == "escrow_created"@ && text_or_empty(item(field(events[i], "value"@), 0))
            == payer implies escrows_in(events, payer).contains(events[i]) by {
        events.lemma_filter_contains(pred, i);
    }
    assert forall|i: int|
        0 <= i < events.len() && text(item(field(#[trigger] events[i], "value"@), 0)) is Some
            && text(item(field(events[i], "value"@), 0)) != Some(payer) implies !escrows_in(
            events,
            payer,
        ).contains(events[i]) by {
        let f = escrows_in(events, payer);
        if f.contains(events[i]) {
            let k = choose|k: int| 0 <= k < f.len() && f[k] == events[i];
            events.lemma_filter_pred(pred, k);
        }
    }
}

/// The text listing of a payer's escrows: exactly when there are none, the
/// single line `No escrows found for payer P`; otherwise the heading
/// `Escrows for payer P:` and then, for the `k`-th record, the line
/// numbered `k + 1` that shows its contract, milestone, amount and
/// freelancer.
pub proof fn law_listing_lines(payer: Seq<char>, recs: Seq<Json>)
    ensures
        ({
            let out = escrow_listing_spec(payer, recs);
            &&& (out.len() == 1 && out[0] == "No escrows found for payer "@ + payer) <==> recs.len()
                == 0
            &&& recs.len() > 0 ==> {
                &&& out.len() == recs.len() + 1
                &&& out[0] == "Escrows for payer "@ + payer + ":"@
                &&& forall|k: int|
                    0 <= k < recs.len() ==> #[trigger] out[k + 1] == "  ["@ + decimal((k + 1) as nat)
                        + "] contract="@ + text_or_dash(field(recs[k], "contract_id"@))
                        + " milestone="@ + text_or_dash(field(recs[k], "milestone"@))
                        + " amount="@ + compact_json(field(recs[k], "amount"@)) + " freelancer="@
                        + text_or_dash(field(recs[k], "freelancer"@))
            }
        }),
{
    reveal_strlit("No escrows found for payer ");
    reveal_strlit("Escrows for payer ");
    let out = escrow_listing_spec(payer, recs);
    if recs.len() > 0 {
        assert(out.len() == recs.len() + 1);
        let h = "Escrows for payer "@ + payer + ":"@;
        let n = "No escrows found for payer "@ + payer;
        if out.len() == 1 {
            assert(false);
        }
        assert forall|k: int| 0 <= k < recs.len() implies #[trigger] out[k + 1] == "  ["@
            + decimal((k + 1) as nat) + "] contract="@ + text_or_dash(field(recs[k], "contract_id"@))
            + " milestone="@ + text_or_dash(field(recs[k], "milestone"@)) + " amount="@
            + compact_json(field(recs[k], "amount"@)) + " freelancer="@ + text_or_dash(
            field(recs[k], "freelancer"@),
        ) by {
            assert(out[k + 1] == escrow_line(k as nat, recs[k]));
        }
    }
}

/// Picking escrows from two event lists one after the other gives the
/// escrows of the joined list: the listing does not depend on how the
/// events are split.
pub proof fn law_escrows_of_joined_events(a: Seq<Json>, b: Seq<Json>, payer: Seq<char>)
    ensures
        escrows_in(a + b, payer) == escrows_in(a, payer) + escrows_in(b, payer),
{
    Seq::filter_distributes_over_add(a, b, |e: Json| is_escrow_of(e, payer));
}

/// An escrow record shows its event's data: looking up its keys gives the
/// contract and the event's first four values.
pub proof fn law_record_shows_event(rec: Json, e: Json, contract_id: Seq<char>)
    requires
        is_escrow_record(rec, e, contract_id),
    ensures
        text(field(rec, "contract_id"@)) == Some(contract_id),
        field(rec, "payer"@) == item(field(e, "value"@), 0),
        field(rec, "freelancer"@) == item(field(e, "value"@), 1),
        field(rec, "amount"@) == item(field(e, "value"@), 2),
        field(rec, "milestone"@) == item(field(e, "value"@), 3),
{
    reveal_strlit("contract_id");
    reveal_strlit("payer");
    reveal_strlit("freelancer");
    reveal_strlit("amount");
    reveal_strlit("milestone");
    let es = entries(rec);
    let e1 = es.drop_first();
    let e2 = e1.drop_first();
    let e3 = e2.drop_first();
    let e4 = e3.drop_first();
    assert("contract_id"@[0] != "payer"@[0]);
    assert("contract_id"@[0] != "freelancer"@[0]);
    assert("contract_id"@[0] != "amount"@[0]);
    assert("contract_id"@[0] != "milestone"@[0]);
    assert("payer"@[0] != "freelancer"@[0]);
    assert("payer"@[0] != "amount"@[0]);
    assert("payer"@[0] != "milestone"@[0]);
    assert("freelancer"@[0] != "amount"@[0]);
    assert("freelancer"@[0] != "milestone"@[0]);
    assert("amount"@[0] != "milestone"@[0]);
    assert(lookup(es, "contract_id"@) == Some(es[0].1));
    assert(lookup(e1, "payer"@) == Some(es[1].1));
    assert(lookup(es, "payer"@) == lookup(e1, "payer"@));
    assert(lookup(e2, "freelancer"@) == Some(es[2].1));
    assert(lookup(e1, "freelancer"@) == lookup(e2, "freelancer"@));
    assert(lookup(e3, "amount"@) == Some(es[3].1));
    assert(lookup(e2, "amount"@) == lookup(e3, "amount"@));
    assert(lookup(e1, "amount"@) == lookup(e2, "amount"@));
    assert(lookup(e4, "milestone"@) == Some(es[4].1));
    assert(lookup(e3, "milestone"@) == lookup(e4, "milestone"@));
    assert(lookup(e2, "milestone"@) == lookup(e3, "milestone"@));
    assert(lookup(e1, "milestone"@) == lookup(e2, "milestone"@));
}

} // verus!
