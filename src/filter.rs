//! Deciding which subscribers receive which records, and building the
//! outbound messages for them.
use vstd::prelude::*;

use pass_it_on::notifications::{ClientReadyMessage, Message};

use crate::configuration::{default_class_list, default_level_list, Notification, NotificationModel};
use crate::log_record::{LogClass, LogLevel, LogRecord, RecordModel};

verus! {

/// pass_it_on's `Message`, carried through unread.
#[verifier::external_type_specification]
#[verifier::external_body]
pub struct ExMessage(Message);

/// pass_it_on's `ClientReadyMessage`, the unit that its client sends; carried through unread.
#[verifier::external_type_specification]
#[verifier::external_body]
pub struct ExClientReadyMessage(ClientReadyMessage);

/// Relies on pass_it_on's `Message::new`: a message holding `text`, stamped with the current time.
#[verifier::external_body]
fn new_message(text: &str) -> Message {
    Message::new(text)
}

/// Relies on pass_it_on's `Message::to_client_ready_message`: the message assigned to the
/// notification `name`.
#[verifier::external_body]
fn ready_message(message: Message, name: &str) -> ClientReadyMessage {
    message.to_client_ready_message(name)
}

/// A subscriber receives a record when it asks for the record's level or for its class.
pub open spec fn forwards(sub: NotificationModel, level: LogLevel, class: LogClass) -> bool {
    sub.levels.contains(level) || sub.classes.contains(class)
}

pub open spec fn records_model(records: Seq<LogRecord>) -> Seq<RecordModel> {
    records.map_values(|r: LogRecord| r@)
}

pub open spec fn subscribers_model(subs: Seq<Notification>) -> Seq<NotificationModel> {
    subs.map_values(|n: Notification| n@)
}

/// One message to hand to the delivery side: a destination name and a text.
pub struct Delivery {
    pub destination: String,
    pub content: String,
}

impl View for Delivery {
    type V = (Seq<char>, Seq<char>);

    open spec fn view(&self) -> (Seq<char>, Seq<char>) {
        (self.destination@, self.content@)
    }
}

pub open spec fn deliveries_model(ds: Seq<Delivery>) -> Seq<(Seq<char>, Seq<char>)> {
    ds.map_values(|d: Delivery| d@)
}

/// The deliveries of one record, one for each subscriber that receives it, in subscriber order.
pub open spec fn record_deliveries(rec: RecordModel, subs: Seq<NotificationModel>) -> Seq<
    (Seq<char>, Seq<char>),
>
    decreases subs.len(),
{
    if subs.len() == 0 {
        seq![]
    } else {
        let before = record_deliveries(rec, subs.drop_last());
        let sub = subs.last();
        if forwards(sub, rec.level, rec.class) {
            before.push((sub.name, rec.status_message))
        } else {
            before
        }
    }
}

/// The deliveries of a run of records, in record order and, for one record, in subscriber order.
pub open spec fn all_deliveries(recs: Seq<RecordModel>, subs: Seq<NotificationModel>) -> Seq<
    (Seq<char>, Seq<char>),
>
    decreases recs.len(),
{
    if recs.len() == 0 {
        seq![]
    } else {
        all_deliveries(recs.drop_last(), subs) + record_deliveries(recs.last(), subs)
    }
}

/// Whether `subscriber` receives `record`.
pub fn should_forward(record: &LogRecord, subscriber: &Notification) -> (r: bool)
    ensures
        r == forwards(subscriber@, record.level, record.class),
{
    subscriber.includes_level(record.level) || subscriber.includes_class(record.class)
}

/// A subscriber with the default rules never receives a record of level `Info` and class
/// `Other`.
pub proof fn lemma_default_rules_skip_routine(sub: NotificationModel)
    requires
        sub.levels == default_level_list().to_set(),
        sub.classes == default_class_list().to_set(),
    ensures
        !forwards(sub, LogLevel::Info, LogClass::Other),
{
    assert(!default_level_list().contains(LogLevel::Info)) by {
        assert forall|i: int| 0 <= i < default_level_list().len() implies default_level_list()[i]
            != LogLevel::Info by {}
    }
    assert(!default_class_list().contains(LogClass::Other)) by {
        assert forall|i: int| 0 <= i < default_class_list().len() implies default_class_list()[i]
            != LogClass::Other by {}
    }
}

/// For each record in order, a delivery to each subscriber that receives it.
pub fn plan_deliveries(records: &Vec<LogRecord>, subscribers: &[Notification]) -> (r: Vec<
    Delivery,
>)
    ensures
        deliveries_model(r@) == all_deliveries(
            records_model(records@),
            subscribers_model(subscribers@),
        ),
{
    let ghost recs = records_model(records@);
    let ghost subs = subscribers_model(subscribers@);
    let mut out: Vec<Delivery> = Vec::new();
    for i in 0..records.len()
        invariant
            recs == records_model(records@),
            subs == subscribers_model(subscribers@),
            deliveries_model(out@) == all_deliveries(recs.subrange(0, i as int), subs),
    {
        let record = &records[i];
        let ghost before = deliveries_model(out@);
        for j in 0..subscribers.len()
            invariant
                i < records.len(),
                record == &records[i as int],
                recs == records_model(records@),
                subs == subscribers_model(subscribers@),
                deliveries_model(out@) == before + record_deliveries(
                    recs[i as int],
                    subs.subrange(0, j as int),
                ),
        {
            let subscriber = &subscribers[j];
            assert(subs.subrange(0, j + 1).drop_last() =~= subs.subrange(0, j as int));
            if should_forward(record, subscriber) {
                let d = Delivery {
                    destination: subscriber.name().to_owned(),
                    content: record.status_message.clone(),
                };
                let ghost prev = out@;
                out.push(d);
                assert(deliveries_model(out@) =~= deliveries_model(prev).push(d@));
            }
        }
        assert(subs.subrange(0, subscribers.len() as int) =~= subs);
        assert(recs.subrange(0, i + 1).drop_last() =~= recs.subrange(0, i as int));
    }
    assert(recs.subrange(0, records.len() as int) =~= recs);
    out
}

/// The outbound messages for `deliveries`, one each and in the same order.
pub fn to_messages(deliveries: &Vec<Delivery>) -> (r: Vec<ClientReadyMessage>)
    ensures
        r.len() == deliveries.len(),
{
    let mut out: Vec<ClientReadyMessage> = Vec::new();
    for k in 0..deliveries.len()
        invariant
            out.len() == k,
    {
        let d = &deliveries[k];
        out.push(ready_message(new_message(d.content.as_str()), d.destination.as_str()));
    }
    out
}

/// The outbound messages of a run of records: one for each delivery of
/// [`plan_deliveries`], in the same order.
pub fn filter_messages(records: &Vec<LogRecord>, subscribers: &[Notification]) -> (r: Vec<
    ClientReadyMessage,
>)
    ensures
        r.len() == all_deliveries(records_model(records@), subscribers_model(subscribers@)).len(),
{
    let plan = plan_deliveries(records, subscribers);
    to_messages(&plan)
}

} // verus!
