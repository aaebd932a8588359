//! The event stream and the side channel for reports: names of keys, what
//! to do with each stream entry, and when to stop waiting for a report.

use crate::ids::{push_uuid, uuid_text};
use crate::models::CapacityConfig;
use crate::queue::{ack_of, after_event, apply_event, AckPayload, RaidEvent};
use crate::roster::Roster;
use crate::text::{decimal, push_decimal, push_signed_decimal, signed_decimal};
use vstd::prelude::*;
use vstd::string::*;
use vstd::utf8::{decode_utf8, valid_utf8};

verus! {

/// Key of the stream that carries the events.
pub const STREAM_KEY: &'static str = "raid_events";

/// Name of the consumer group that applies the events.
pub const GROUP_NAME: &'static str = "raid_bot";

/// How long a report stays readable, in seconds.
pub const ACK_TTL_SECS: u64 = 5;

/// Pause between two looks for a report, in milliseconds.
pub const POLL_STEP_MS: u64 = 50;

/// How many entries the consumer asks for at once.
pub const BATCH_COUNT: u64 = 20;

/// How long the consumer blocks on an empty stream, in milliseconds.
pub const BLOCK_MS: u64 = 2000;

/// How long the list of a guild's raids stays cached, in seconds.
pub const GUILD_LIST_TTL_SECS: u64 = 86400;

/// Key under which the report for a correlation id is published.
pub fn ack_key(corr_id: &str) -> (key: String)
    ensures
        key@ == "raid_ack:"@ + corr_id@,
{
    let mut key = String::from_str("raid_ack:");
    key.append(corr_id);
    key
}

/// Key under which the list of a guild's raids is cached.
pub fn key_for(guild_id: u64) -> (key: String)
    ensures
        key@ == "guild_raid_list:"@ + decimal(guild_id as nat),
{
    let mut key = String::from_str("guild_raid_list:");
    push_decimal(&mut key, guild_id);
    key
}

/// Key of the claim on the reminder of a raid.
pub fn reminder_key(raid_id: u128) -> (key: String)
    ensures
        key@ == "raid_reminder:"@ + uuid_text(raid_id),
{
    let mut key = String::from_str("raid_reminder:");
    push_uuid(&mut key, raid_id);
    key
}

/// How long a claim on a reminder holds, in seconds: 48 hours.
pub const CLAIM_TTL_SECS: u64 = 172_800;

/// Name under which a process reads the stream.
pub fn consumer_name(process_id: u32) -> (name: String)
    ensures
        name@ == "bot-"@ + decimal(process_id as nat),
{
    let mut name = String::from_str("bot-");
    push_decimal(&mut name, process_id as u64);
    name
}

/// A value as the stream's server hands it out.
pub enum WireValue {
    Nil,
    Int(i64),
    Data(Vec<u8>),
    Bulk(Vec<WireValue>),
    Status(String),
    Okay,
}

/// The text that a value stands for: a number in decimal, bytes as the
/// UTF-8 text they encode, a status as it is, and a list as its first
/// entry. Nothing, bytes that are no UTF-8 and an empty list stand for no
/// text.
pub open spec fn text_of_value(v: WireValue) -> Option<Seq<char>>
    decreases v,
{
    match v {
        WireValue::Nil => None,
        WireValue::Int(i) => Some(signed_decimal(i as int)),
        WireValue::Data(bytes) => if valid_utf8(bytes@) {
            Some(decode_utf8(bytes@))
        } else {
            None
        },
        WireValue::Bulk(items) => if items@.len() > 0 {
            text_of_value(items@[0])
        } else {
            None
        },
        WireValue::Status(s) => Some(s@),
        WireValue::Okay => Some("OK"@),
    }
}

/// Calls `String::from_utf8` of the standard library on a copy of the
/// bytes: it gives the text that the bytes encode, and fails exactly where
/// they are no valid UTF-8.
#[verifier::external_body]
fn utf8_text(bytes: &Vec<u8>) -> (text: Option<String>)
    ensures
        text is Some <==> valid_utf8(bytes@),
        text is Some ==> text->0@ == decode_utf8(bytes@),
{
    String::from_utf8(bytes.clone()).ok()
}

/// The text that a value stands for, if it stands for one.
pub fn val_to_string(v: &WireValue) -> (text: Option<String>)
    ensures
        match text {
            Some(s) => text_of_value(*v) == Some(s@),
            None => text_of_value(*v) is None,
        },
    decreases v,
{
    match v {
        WireValue::Nil => None,
        WireValue::Int(i) => {
            let mut s = String::new();
            push_signed_decimal(&mut s, *i);
            assert(Seq::<char>::empty() + signed_decimal(*i as int) =~= signed_decimal(*i as int));
            Some(s)
        },
        WireValue::Data(bytes) => utf8_text(bytes),
        WireValue::Bulk(items) => {
            if items.len() > 0 {
                val_to_string(&items[0])
            } else {
                None
            }
        },
        WireValue::Status(s) => Some(s.clone()),
        WireValue::Okay => Some(String::from_str("OK")),
    }
}

/// The text of the last field with the given name, if the entry has such a
/// field and its value stands for a text.
pub open spec fn field_text(fields: Seq<(String, WireValue)>, name: Seq<char>) -> Option<
    Seq<char>,
>
    decreases fields.len(),
{
    if fields.len() == 0 {
        None
    } else if fields.last().0@ == name {
        text_of_value(fields.last().1)
    } else {
        field_text(fields.drop_last(), name)
    }
}

/// The text of the last field of an entry with the name.
pub fn read_field(fields: &Vec<(String, WireValue)>, name: &str) -> (text: Option<String>)
    ensures
        match text {
            Some(s) => field_text(fields@, name@) == Some(s@),
            None => field_text(fields@, name@) is None,
        },
{
    let wanted = String::from_str(name);
    let mut k: usize = fields.len();
    assert(fields@.take(k as int) =~= fields@);
    while k > 0
        invariant
            k <= fields.len(),
            wanted@ == name@,
            field_text(fields@, name@) == field_text(fields@.take(k as int), name@),
        decreases k,
    {
        let ghost front = fields@.take(k as int);
        assert(front.last() == fields@[k - 1]);
        assert(front.drop_last() =~= fields@.take(k - 1));
        if fields[k - 1].0 == wanted {
            return val_to_string(&fields[k - 1].1);
        }
        k = k - 1;
    }
    assert(fields@.take(0).len() == 0);
    None
}

/// What the consumer does with one entry of the stream.
pub enum EntryPlan {
    /// The entry lacks a correlation id or a payload: nobody waits for a
    /// report, and the entry is acknowledged so that the log advances.
    Drop,
    /// The payload is to be decoded and applied, and a report published
    /// under the correlation id.
    Handle { corr_id: String, payload: String },
}

/// Decides what to do with an entry from its fields.
pub fn read_entry(fields: &Vec<(String, WireValue)>) -> (plan: EntryPlan)
    ensures
        match plan {
            EntryPlan::Drop => field_text(fields@, "cid"@) is None || field_text(
                fields@,
                "payload"@,
            ) is None,
            EntryPlan::Handle { corr_id, payload } => {
                &&& field_text(fields@, "cid"@) == Some(corr_id@)
                &&& field_text(fields@, "payload"@) == Some(payload@)
            },
        },
{
    match read_field(fields, "cid") {
        None => EntryPlan::Drop,
        Some(corr_id) => match read_field(fields, "payload") {
            None => EntryPlan::Drop,
            Some(payload) => EntryPlan::Handle { corr_id, payload },
        },
    }
}

/// One step that concludes an entry.
pub enum ConsumerAction {
    /// Publish the report under the key, to expire after the given time.
    PublishAck { key: String, ttl_secs: u64, ack: AckPayload },
    /// Acknowledge the entry to the stream.
    Acknowledge,
}

/// The report to publish: that of the handler, or a failure where the
/// payload could not be decoded or the handler failed.
pub open spec fn report_of(outcome: Option<AckPayload>) -> AckPayload {
    match outcome {
        Some(ack) => ack,
        None => AckPayload::failure(),
    }
}

/// Whether the steps conclude the entry as they should: the report, if
/// somebody waits for one, is published under the key of the correlation
/// id before the entry is acknowledged, and the entry is acknowledged
/// whatever became of it.
pub open spec fn concludes(
    steps: Seq<ConsumerAction>,
    plan: EntryPlan,
    outcome: Option<AckPayload>,
) -> bool {
    match plan {
        EntryPlan::Drop => {
            &&& steps.len() == 1
            &&& steps[0] is Acknowledge
        },
        EntryPlan::Handle { corr_id, payload } => {
            &&& steps.len() == 2
            &&& steps[0] matches ConsumerAction::PublishAck { key, ttl_secs, ack } && key@
                == "raid_ack:"@ + corr_id@ && ttl_secs == ACK_TTL_SECS && ack == report_of(
                outcome,
            )
            &&& steps[1] is Acknowledge
        },
    }
}

/// The steps that conclude an entry, in order: the report is published
/// before the entry is acknowledged, so that an interruption between the
/// two leads to a redelivery and never to a lost report. Every entry is
/// acknowledged, whatever became of it.
pub fn conclude(plan: &EntryPlan, outcome: Option<AckPayload>) -> (steps: Vec<ConsumerAction>)
    ensures
        concludes(steps@, *plan, outcome),
{
    let mut steps: Vec<ConsumerAction> = Vec::new();
    match plan {
        EntryPlan::Drop => {},
        EntryPlan::Handle { corr_id, payload } => {
            let ack = match outcome {
                Some(ack) => ack,
                None => AckPayload { ok: false, removed_main: None, removed_alts: None },
            };
            steps.push(
                ConsumerAction::PublishAck {
                    key: ack_key(corr_id.as_str()),
                    ttl_secs: ACK_TTL_SECS,
                    ack,
                },
            );
        },
    }
    steps.push(ConsumerAction::Acknowledge);
    steps
}

/// Applies the event of an entry to the roster of its raid and concludes
/// the entry. `decoded` is the event that the payload was read as, or
/// nothing where it could not be read: such an entry changes nothing, is
/// reported as failed and is acknowledged like any other, so that one bad
/// entry never holds up those behind it.
pub fn consume_entry(
    plan: &EntryPlan,
    decoded: Option<RaidEvent>,
    roster: &mut Roster,
    config: &CapacityConfig,
    row_id: u128,
    now: i64,
    exclusion_ids: &Vec<i64>,
    priority_ids: &Vec<i64>,
) -> (steps: Vec<ConsumerAction>)
    ensures
        match (*plan, decoded) {
            (EntryPlan::Handle { .. }, Some(event)) => {
                &&& final(roster)@ == after_event(
                    old(roster)@,
                    config@,
                    event@,
                    row_id,
                    now,
                    exclusion_ids@,
                    priority_ids@,
                )
                &&& concludes(
                    steps@,
                    *plan,
                    Some(
                        ack_of(
                            old(roster)@,
                            config@,
                            event@,
                            row_id,
                            now,
                            exclusion_ids@,
                            priority_ids@,
                        ),
                    ),
                )
            },
            _ => {
                &&& final(roster)@ == old(roster)@
                &&& concludes(steps@, *plan, None)
            },
        },
{
    match plan {
        EntryPlan::Drop => conclude(plan, None),
        EntryPlan::Handle { .. } => match decoded {
            Some(event) => {
                let done = apply_event(
                    roster,
                    config,
                    event,
                    row_id,
                    now,
                    exclusion_ids,
                    priority_ids,
                );
                conclude(plan, Some(done.ack))
            },
            None => conclude(plan, None),
        },
    }
}

/// What a requester does after a look for the report.
pub enum PollStep {
    /// The report is there: decode it.
    Deliver(String),
    /// The time is up and the outcome unknown: read the current state
    /// instead of taking the request for failed.
    GiveUp,
    /// Sleep for `millis`, then look again with `slept` as the time spent.
    Sleep { millis: u64, slept: u64 },
}

/// The time spent after one more pause of `step_ms`.
pub open spec fn slept_after(slept: u64, step_ms: u64) -> u64 {
    if slept + step_ms > u64::MAX {
        u64::MAX
    } else {
        (slept + step_ms) as u64
    }
}

/// What follows a look for the report, with pauses of `step_ms`.
pub open spec fn next_poll(
    found: Option<String>,
    slept: u64,
    timeout_ms: u64,
    step_ms: u64,
) -> PollStep {
    match found {
        Some(text) => PollStep::Deliver(text),
        None => if slept >= timeout_ms {
            PollStep::GiveUp
        } else {
            PollStep::Sleep { millis: step_ms, slept: slept_after(slept, step_ms) }
        },
    }
}

/// Decides the next step of a wait that pauses for `step_ms` between two
/// looks. `found` is what the look for the report gave, `slept` the time
/// spent sleeping so far.
pub fn poll_ack_every(found: Option<String>, slept: u64, timeout_ms: u64, step_ms: u64) -> (step:
    PollStep)
    ensures
        step == next_poll(found, slept, timeout_ms, step_ms),
{
    match found {
        Some(text) => PollStep::Deliver(text),
        None => if slept >= timeout_ms {
            PollStep::GiveUp
        } else {
            let next = if slept > u64::MAX - step_ms {
                u64::MAX
            } else {
                slept + step_ms
            };
            PollStep::Sleep { millis: step_ms, slept: next }
        },
    }
}

/// Decides the next step of a wait with the usual pause between two looks.
pub fn poll_ack(found: Option<String>, slept: u64, timeout_ms: u64) -> (step: PollStep)
    ensures
        step == next_poll(found, slept, timeout_ms, POLL_STEP_MS),
{
    poll_ack_every(found, slept, timeout_ms, POLL_STEP_MS)
}

/// The time spent after `looks` pauses.
pub open spec fn slept_after_looks(looks: nat) -> u64
    decreases looks,
{
    if looks == 0 {
        0
    } else {
        slept_after(slept_after_looks((looks - 1) as nat), POLL_STEP_MS)
    }
}

/// A wait without a report ends: after `timeout_ms / 50` pauses of the
/// usual length, rounded up, the time spent has reached the timeout, and
/// the next look gives up.
pub proof fn law_wait_is_bounded(timeout_ms: u64)
    ensures
        slept_after_looks(((timeout_ms + POLL_STEP_MS - 1) / POLL_STEP_MS as int) as nat)
            >= timeout_ms,
        next_poll(
            None,
            slept_after_looks(((timeout_ms + POLL_STEP_MS - 1) / POLL_STEP_MS as int) as nat),
            timeout_ms,
            POLL_STEP_MS,
        ) == PollStep::GiveUp,
{
    lemma_slept(((timeout_ms + POLL_STEP_MS - 1) / POLL_STEP_MS as int) as nat);
}

proof fn lemma_slept(looks: nat)
    ensures
        slept_after_looks(looks) == if looks * POLL_STEP_MS > u64::MAX {
            u64::MAX
        } else {
            (looks * POLL_STEP_MS) as u64
        },
    decreases looks,
{
    if looks > 0 {
        lemma_slept((looks - 1) as nat);
    }
}

} // verus!
