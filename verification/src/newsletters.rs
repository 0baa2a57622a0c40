//! Publishing a newsletter issue: the idempotent command. The coordinator
//! validates the idempotency key, wins or loses the (user, key) reservation,
//! stages the issue and one delivery task per confirmed subscriber, and
//! commits the work together with the replayable response as one atomic unit.

use vstd::prelude::*;
use vstd::string::StringExecFns;
use crate::idempotency::IdempotencyKey;
use crate::idempotency::NextAction;
use crate::idempotency::save_response;
use crate::idempotency::try_processing;
use crate::idempotency::valid_idempotency_key;
use crate::idempotency::release_post;
use crate::response::HttpResponse;
use crate::response::see_other;
use crate::store::Database;
use crate::store::DeliveryTask;
use crate::store::NewsletterIssue;
use crate::store::RecordState;
use crate::store::SubscriberStatus;
use crate::store::Subscription;
use crate::store::TaskStatus;
use crate::store::Transaction;
use crate::store::has_record;
use crate::store::lemma_task_models_add;
use crate::store::model_has_task;
use crate::store::pending_task;
use crate::store::record_index;
use crate::store::record_matches;
use crate::store::record_state;
use crate::store::IdempotencyRecord;
use crate::store::task_models;
use crate::store::TaskModel;

verus! {

/// The fields of a publish request.
pub struct FormData {
    pub title: String,
    pub html: String,
    pub text: String,
    pub idempotency_key: String,
}

/// The outbox rows that staging adds for the given subscribers, in order: one
/// pending task per confirmed subscriber whose (issue, email) pair is not
/// already present. Staging is set-based and idempotent by construction: a
/// pair that is already staged is left alone rather than duplicated.
pub open spec fn enqueue_effect(
    staged: Seq<TaskModel>,
    subs: Seq<Subscription>,
    issue_id: u64,
) -> Seq<TaskModel>
    decreases subs.len(),
{
    if subs.len() == 0 {
        staged
    } else {
        let prev = enqueue_effect(staged, subs.drop_last(), issue_id);
        let s = subs.last();
        if s.status is Confirmed && !model_has_task(prev, issue_id, s.email@) {
            prev.push(pending_task(issue_id, s.email@))
        } else {
            prev
        }
    }
}

/// Everything staging adds is a fresh pending task for the given issue, the
/// previously staged rows are kept unchanged in front, and no two added rows
/// share an email.
pub proof fn lemma_enqueue_effect_properties(
    staged: Seq<TaskModel>,
    subs: Seq<Subscription>,
    issue_id: u64,
)
    ensures
        enqueue_effect(staged, subs, issue_id).len() >= staged.len(),
        enqueue_effect(staged, subs, issue_id).take(staged.len() as int) == staged,
        forall|k: int|
            #![trigger enqueue_effect(staged, subs, issue_id)[k]]
            staged.len() <= k < enqueue_effect(staged, subs, issue_id).len() ==> exists|e: Seq<char>|
                enqueue_effect(staged, subs, issue_id)[k] == #[trigger] pending_task(issue_id, e),
        forall|k1: int, k2: int|
            staged.len() <= k1 < k2 < enqueue_effect(staged, subs, issue_id).len()
                ==> (#[trigger] enqueue_effect(staged, subs, issue_id)[k1]).email
                != (#[trigger] enqueue_effect(staged, subs, issue_id)[k2]).email,
    decreases subs.len(),
{
    if subs.len() == 0 {
        assert(enqueue_effect(staged, subs, issue_id).take(staged.len() as int) =~= staged);
    } else {
        lemma_enqueue_effect_properties(staged, subs.drop_last(), issue_id);
        let prev = enqueue_effect(staged, subs.drop_last(), issue_id);
        let cur = enqueue_effect(staged, subs, issue_id);
        let s = subs.last();
        if s.status is Confirmed && !model_has_task(prev, issue_id, s.email@) {
            assert(cur == prev.push(pending_task(issue_id, s.email@)));
            assert(cur.take(staged.len() as int) =~= prev.take(staged.len() as int));
            let last = cur.len() - 1;
            assert(cur[last] == pending_task(issue_id, s.email@));
            assert forall|k1: int| staged.len() <= k1 < last implies (#[trigger] cur[k1]).email
                != cur[last].email by {
                assert(cur[k1] == prev[k1]);
                let e = choose|e: Seq<char>| prev[k1] == pending_task(issue_id, e);
                if prev[k1].email == s.email@ {
                    assert(prev[k1].issue_id == issue_id);
                    assert(model_has_task(prev, issue_id, s.email@));
                }
            }
        }
    }
}

/// Which (issue, email) pairs exist after staging: exactly those that existed
/// before, together with (issue, email of s) for every confirmed subscriber s.
/// Pairs of other issues are never touched.
pub proof fn lemma_enqueue_membership(
    staged: Seq<TaskModel>,
    subs: Seq<Subscription>,
    issue_id: u64,
    email: Seq<char>,
)
    ensures
        model_has_task(enqueue_effect(staged, subs, issue_id), issue_id, email) <==> (
        model_has_task(staged, issue_id, email) || exists|i: int|
            0 <= i < subs.len() && (#[trigger] subs[i]).status is Confirmed && subs[i].email@
                == email),
        forall|other: u64|
            other != issue_id ==> #[trigger] model_has_task(
                enqueue_effect(staged, subs, issue_id),
                other,
                email,
            ) == model_has_task(staged, other, email),
    decreases subs.len(),
{
    if subs.len() > 0 {
        lemma_enqueue_membership(staged, subs.drop_last(), issue_id, email);
        let prev = enqueue_effect(staged, subs.drop_last(), issue_id);
        let cur = enqueue_effect(staged, subs, issue_id);
        let s = subs.last();
        // Witnesses in the shorter prefix stay witnesses in the full sequence.
        assert(forall|i: int|
            0 <= i < subs.len() - 1 ==> subs.drop_last()[i] == #[trigger] subs[i]);
        if s.status is Confirmed && !model_has_task(prev, issue_id, s.email@) {
            assert(cur == prev.push(pending_task(issue_id, s.email@)));
            assert(cur[cur.len() - 1] == pending_task(issue_id, s.email@));
            assert(forall|i: int| 0 <= i < prev.len() ==> cur[i] == #[trigger] prev[i]);
            if model_has_task(cur, issue_id, email) {
                let w = choose|i: int|
                    0 <= i < cur.len() && cur[i].issue_id == issue_id && cur[i].email == email;
                if w < prev.len() {
                    assert(model_has_task(prev, issue_id, email));
                } else {
                    assert(email == s.email@);
                    assert(subs[subs.len() - 1].status is Confirmed && subs[subs.len() - 1].email@
                        == email);
                }
            }
            if model_has_task(prev, issue_id, email) {
                let w = choose|i: int|
                    0 <= i < prev.len() && prev[i].issue_id == issue_id && prev[i].email == email;
                assert(cur[w].issue_id == issue_id && cur[w].email == email);
            }
            if exists|i: int|
                0 <= i < subs.len() && (#[trigger] subs[i]).status is Confirmed && subs[i].email@
                    == email {
                let w = choose|i: int|
                    0 <= i < subs.len() && (#[trigger] subs[i]).status is Confirmed
                        && subs[i].email@ == email;
                if w == subs.len() - 1 {
                    assert(cur[cur.len() - 1].issue_id == issue_id && cur[cur.len() - 1].email
                        == email);
                } else {
                    assert(subs.drop_last()[w].status is Confirmed && subs.drop_last()[w].email@
                        == email);
                    assert(model_has_task(prev, issue_id, email));
                }
            }
            assert forall|other: u64| other != issue_id implies #[trigger] model_has_task(
                cur,
                other,
                email,
            ) == model_has_task(staged, other, email) by {
                if model_has_task(cur, other, email) {
                    let w = choose|i: int|
                        0 <= i < cur.len() && cur[i].issue_id == other && cur[i].email == email;
                    assert(w < prev.len());
                    assert(model_has_task(prev, other, email));
                }
                if model_has_task(prev, other, email) {
                    let w = choose|i: int|
                        0 <= i < prev.len() && prev[i].issue_id == other && prev[i].email == email;
                    assert(cur[w].issue_id == other && cur[w].email == email);
                }
            }
        } else {
            if exists|i: int|
                0 <= i < subs.len() && (#[trigger] subs[i]).status is Confirmed && subs[i].email@
                    == email {
                let w = choose|i: int|
                    0 <= i < subs.len() && (#[trigger] subs[i]).status is Confirmed
                        && subs[i].email@ == email;
                if w == subs.len() - 1 {
                    assert(model_has_task(prev, issue_id, s.email@));
                } else {
                    assert(subs.drop_last()[w].status is Confirmed && subs.drop_last()[w].email@
                        == email);
                }
            }
        }
    }
}

/// Staging adds nothing when every confirmed subscriber's pair is already
/// present.
pub proof fn lemma_enqueue_saturated(
    staged: Seq<TaskModel>,
    subs: Seq<Subscription>,
    issue_id: u64,
)
    requires
        forall|i: int|
            0 <= i < subs.len() ==> ((#[trigger] subs[i]).status is Confirmed ==> model_has_task(
                staged,
                issue_id,
                subs[i].email@,
            )),
    ensures
        enqueue_effect(staged, subs, issue_id) == staged,
    decreases subs.len(),
{
    if subs.len() > 0 {
        assert(forall|i: int|
            0 <= i < subs.len() - 1 ==> subs.drop_last()[i] == #[trigger] subs[i]);
        lemma_enqueue_saturated(staged, subs.drop_last(), issue_id);
        let s = subs.last();
        if s.status is Confirmed {
            assert(model_has_task(staged, issue_id, subs[subs.len() - 1].email@));
        }
    }
}

/// Staging the same issue for the same subscribers twice is the same as
/// staging it once: a conflicting insert is a no-op, never a duplicate row.
pub proof fn lemma_enqueue_idempotent(
    staged: Seq<TaskModel>,
    subs: Seq<Subscription>,
    issue_id: u64,
)
    ensures
        enqueue_effect(enqueue_effect(staged, subs, issue_id), subs, issue_id) == enqueue_effect(
            staged,
            subs,
            issue_id,
        ),
{
    let once = enqueue_effect(staged, subs, issue_id);
    assert forall|i: int|
        0 <= i < subs.len() && (#[trigger] subs[i]).status is Confirmed implies model_has_task(
        once,
        issue_id,
        subs[i].email@,
    ) by {
        lemma_enqueue_membership(staged, subs, issue_id, subs[i].email@);
    }
    lemma_enqueue_saturated(once, subs, issue_id);
}

/// True exactly when the staged rows already hold the (issue, email) pair.
fn contains_task(tasks: &Vec<DeliveryTask>, issue_id: u64, email: &String) -> (r: bool)
    ensures
        r == model_has_task(task_models(tasks@), issue_id, email@),
{
    let n = tasks.len();
    for i in 0..n
        invariant
            n == tasks@.len(),
            forall|j: int|
                0 <= j < i ==> !((#[trigger] task_models(tasks@)[j]).issue_id == issue_id
                    && task_models(tasks@)[j].email == email@),
    {
        if tasks[i].issue_id == issue_id && tasks[i].email.eq(email) {
            proof {
                assert(task_models(tasks@)[i as int].issue_id == issue_id && task_models(
                    tasks@,
                )[i as int].email == email@);
            }
            return true;
        }
    }
    false
}

/// Stages the newsletter issue itself, under the next free issue id, and
/// hands that id back for the delivery tasks.
pub fn insert_newsletter_issue(
    txn: &mut Transaction,
    db: &Database,
    title: String,
    text_content: String,
    html_content: String,
    now: u64,
) -> (id: u64)
    requires
        old(txn).new_issue is None,
    ensures
        id == db.next_issue_id,
        final(txn).new_issue matches Some(iss) && iss.id == db.next_issue_id && iss.title@
            == title@ && iss.text_content@ == text_content@ && iss.html_content@ == html_content@
            && iss.published_at == now,
        final(txn).reservation == old(txn).reservation,
        final(txn).new_subscriptions == old(txn).new_subscriptions,
        final(txn).new_tokens == old(txn).new_tokens,
        final(txn).new_tasks == old(txn).new_tasks,
        final(txn).response == old(txn).response,
{
    let id = db.next_issue_id;
    txn.new_issue = Some(
        NewsletterIssue { id, title, text_content, html_content, published_at: now },
    );
    id
}

/// Stages one pending delivery task per currently confirmed subscriber, as a
/// single set-based pass over the subscriber directory. Re-staging a pair
/// that is already present is a no-op.
pub fn enqueue_delivery_tasks(txn: &mut Transaction, db: &Database, newsletter_issue_id: u64)
    ensures
        task_models(final(txn).new_tasks@) == enqueue_effect(
            task_models(old(txn).new_tasks@),
            db.subscriptions@,
            newsletter_issue_id,
        ),
        final(txn).reservation == old(txn).reservation,
        final(txn).new_subscriptions == old(txn).new_subscriptions,
        final(txn).new_tokens == old(txn).new_tokens,
        final(txn).new_issue == old(txn).new_issue,
        final(txn).response == old(txn).response,
{
    let ghost staged0 = task_models(old(txn).new_tasks@);
    let n = db.subscriptions.len();
    for i in 0..n
        invariant
            n == db.subscriptions@.len(),
            task_models(txn.new_tasks@) == enqueue_effect(
                staged0,
                db.subscriptions@.take(i as int),
                newsletter_issue_id,
            ),
            txn.reservation == old(txn).reservation,
            txn.new_subscriptions == old(txn).new_subscriptions,
            txn.new_tokens == old(txn).new_tokens,
            txn.new_issue == old(txn).new_issue,
            txn.response == old(txn).response,
    {
        let ghost before = task_models(txn.new_tasks@);
        let sub = &db.subscriptions[i];
        let confirmed = match sub.status {
            SubscriberStatus::Confirmed => true,
            SubscriberStatus::PendingConfirmation => false,
        };
        if confirmed && !contains_task(&txn.new_tasks, newsletter_issue_id, &sub.email) {
            txn.new_tasks.push(
                DeliveryTask {
                    issue_id: newsletter_issue_id,
                    email: String::from_str(sub.email.as_str()),
                    status: TaskStatus::Pending,
                    attempts: 0,
                    last_error: None,
                    claimed_at: 0,
                    next_retry_at: 0,
                },
            );
            proof {
                assert(task_models(txn.new_tasks@) =~= before.push(
                    pending_task(newsletter_issue_id, sub.email@),
                ));
            }
        }
        proof {
            assert(db.subscriptions@.take(i as int + 1).drop_last() =~= db.subscriptions@.take(
                i as int,
            ));
            assert(db.subscriptions@.take(i as int + 1).last() == db.subscriptions@[i as int]);
        }
    }
    proof {
        assert(db.subscriptions@.take(n as int) =~= db.subscriptions@);
    }
}

/// The acknowledgment shown to the administrator when a publish request is
/// accepted or replayed.
pub fn success_message() -> (m: String)
    ensures
        m@ == "The newsletter issue has been accepted - emails will go out shortly."@,
{
    String::from_str("The newsletter issue has been accepted - emails will go out shortly.")
}

/// The flash-message block of the newsletter form: one italic paragraph per
/// message, in order.
pub open spec fn flash_html(messages: Seq<Seq<char>>) -> Seq<char>
    decreases messages.len(),
{
    if messages.len() == 0 {
        Seq::empty()
    } else {
        flash_html(messages.drop_last()) + "<p><i>"@ + messages.last() + "</i></p>\n"@
    }
}

/// Renders the flash messages shown above the newsletter form.
pub fn flash_messages_html(messages: &Vec<String>) -> (out: String)
    ensures
        out@ == flash_html(messages@.map_values(|m: String| m@)),
{
    let ghost views = messages@.map_values(|m: String| m@);
    let mut out = String::new();
    let n = messages.len();
    for i in 0..n
        invariant
            n == messages@.len(),
            views == messages@.map_values(|m: String| m@),
            out@ == flash_html(views.take(i as int)),
    {
        out.append("<p><i>");
        out.append(messages[i].as_str());
        out.append("</i></p>\n");
        proof {
            assert(views.take(i as int + 1).drop_last() =~= views.take(i as int));
            assert(views.take(i as int + 1).last() == views[i as int]);
            assert(out@ =~= flash_html(views.take(i as int + 1)));
        }
    }
    proof {
        assert(views.take(n as int) =~= views);
        assert(Seq::<char>::empty() =~= flash_html(views.take(0)));
    }
    out
}

/// The newsletter form page: the rendered flash messages and the hidden
/// idempotency key spliced into the fixed markup.
pub fn newsletter_form_page(message_html: &String, idempotency_key: &String) -> (page: String)
    ensures
        page@ == "<!DOCTYPE html>\n<html lang=\"en\">\n<head>\n<meta http-equiv=\"content-type\" content=\"text/html; charset=utf-8\">\n<title>Send a news letter</title>\n</head>\n<body>\n"@
            + message_html@
            + "\n<form action=\"/admin/newsletters\" method=\"post\">\n<label>Title\n<input\ntype=\"text\"\nplaceholder=\"Enter newsletter title\"\nname=\"title\"\n>\n</label>\n<br>\n<label>HTML Content\n<input\ntype=\"text\"\nplaceholder=\"Enter HTML content\"\nname=\"html\"\n>\n</label>\n<br>\n<label>Enter text content\n<input\ntype=\"text\"\nplaceholder=\"Enter text content\"\nname=\"text\"\n>\n</label>\n<br>\n<input hidden type=\"text\" name=\"idempotency_key\" value=\""@
            + idempotency_key@
            + "\">\n<button type=\"submit\">Publish</button>\n</form>\n<p><a href=\"/admin/dashboard\">&lt;- Back</a></p>\n</body>\n</html>"@,
{
    let mut page = String::from_str(
        "<!DOCTYPE html>\n<html lang=\"en\">\n<head>\n<meta http-equiv=\"content-type\" content=\"text/html; charset=utf-8\">\n<title>Send a news letter</title>\n</head>\n<body>\n",
    );
    page.append(message_html.as_str());
    page.append(
        "\n<form action=\"/admin/newsletters\" method=\"post\">\n<label>Title\n<input\ntype=\"text\"\nplaceholder=\"Enter newsletter title\"\nname=\"title\"\n>\n</label>\n<br>\n<label>HTML Content\n<input\ntype=\"text\"\nplaceholder=\"Enter HTML content\"\nname=\"html\"\n>\n</label>\n<br>\n<label>Enter text content\n<input\ntype=\"text\"\nplaceholder=\"Enter text content\"\nname=\"text\"\n>\n</label>\n<br>\n<input hidden type=\"text\" name=\"idempotency_key\" value=\"",
    );
    page.append(idempotency_key.as_str());
    page.append(
        "\">\n<button type=\"submit\">Publish</button>\n</form>\n<p><a href=\"/admin/dashboard\">&lt;- Back</a></p>\n</body>\n</html>",
    );
    page
}

/// How a publish request ended: accepted and executed here, replayed from the
/// store, declined because the winner is still in flight, or rejected for a
/// malformed key.
pub enum PublishOutcome {
    Accepted(HttpResponse),
    Replayed(HttpResponse),
    AlreadyStarted,
    InvalidKey(String),
}

/// What `publish_newsletter` does, by outcome.
///
/// A malformed key is rejected before any state is touched. A completed
/// record replays its stored response without re-executing anything. A
/// started record makes the caller back off. Otherwise the request wins the
/// reservation and one commit makes the issue, one pending delivery task per
/// confirmed subscriber, and the replayable 303 response visible all at once.
pub open spec fn publish_post(
    db0: Database,
    db1: Database,
    user_id: u64,
    form: FormData,
    now: u64,
    o: PublishOutcome,
) -> bool {
    match o {
        PublishOutcome::InvalidKey(_) => {
            &&& !valid_idempotency_key(form.idempotency_key@)
            &&& db1 == db0
        },
        PublishOutcome::Replayed(resp) => {
            &&& valid_idempotency_key(form.idempotency_key@)
            &&& has_record(db0.idempotency@, user_id, form.idempotency_key@)
            &&& record_state(db0.idempotency@, user_id, form.idempotency_key@) matches
                RecordState::Completed(r) && resp@ == r@
            &&& db1 == db0
        },
        PublishOutcome::AlreadyStarted => {
            &&& valid_idempotency_key(form.idempotency_key@)
            &&& has_record(db0.idempotency@, user_id, form.idempotency_key@)
            &&& record_state(db0.idempotency@, user_id, form.idempotency_key@) is Started
            &&& db1 == db0
        },
        PublishOutcome::Accepted(resp) => {
            &&& valid_idempotency_key(form.idempotency_key@)
            &&& !has_record(db0.idempotency@, user_id, form.idempotency_key@)
            &&& db1.issues@.len() == db0.issues@.len() + 1
            &&& db1.issues@.drop_last() == db0.issues@
            &&& db1.issues@.last().id == db0.next_issue_id
            &&& db1.issues@.last().title@ == form.title@
            &&& db1.issues@.last().text_content@ == form.text@
            &&& db1.issues@.last().html_content@ == form.html@
            &&& db1.issues@.last().published_at == now
            &&& db1.next_issue_id == db0.next_issue_id + 1
            &&& task_models(db1.tasks@) == task_models(db0.tasks@) + enqueue_effect(
                Seq::empty(),
                db0.subscriptions@,
                db0.next_issue_id,
            )
            &&& resp@.status == 303
            &&& resp@.headers == seq![("Location"@, "/admin/newsletters"@)]
            &&& resp@.body == Seq::<u8>::empty()
            &&& db1.idempotency@.len() == db0.idempotency@.len() + 1
            &&& db1.idempotency@.drop_last() == db0.idempotency@
            &&& record_matches(db1.idempotency@.last(), user_id, form.idempotency_key@)
            &&& db1.idempotency@.last().state matches RecordState::Completed(r) && r@ == resp@
            &&& db1.subscriptions@ == db0.subscriptions@
            &&& db1.tokens@ == db0.tokens@
            &&& db1.next_subscriber_id == db0.next_subscriber_id
        },
    }
}

/// Idempotent replay: publishing twice under the same (user, key) — the
/// second request arriving after the first committed — creates exactly one
/// issue and one set of delivery tasks, and hands the second caller a
/// response identical to the first, while changing nothing at all.
pub proof fn lemma_idempotent_replay(
    db0: Database,
    db1: Database,
    db2: Database,
    user_id: u64,
    form1: FormData,
    form2: FormData,
    now1: u64,
    now2: u64,
    o1: PublishOutcome,
    o2: PublishOutcome,
)
    requires
        db0.wf(),
        db1.wf(),
        form2.idempotency_key@ == form1.idempotency_key@,
        valid_idempotency_key(form1.idempotency_key@),
        !has_record(db0.idempotency@, user_id, form1.idempotency_key@),
        publish_post(db0, db1, user_id, form1, now1, o1),
        publish_post(db1, db2, user_id, form2, now2, o2),
    ensures
        o1 is Accepted,
        o2 is Replayed,
        o1->Accepted_0@ == o2->Replayed_0@,
        db2 == db1,
        db1.issues@.len() == db0.issues@.len() + 1,
        task_models(db1.tasks@) == task_models(db0.tasks@) + enqueue_effect(
            Seq::<TaskModel>::empty(),
            db0.subscriptions@,
            db0.next_issue_id,
        ),
{
    let key = form1.idempotency_key@;
    assert(o1 is Accepted);
    assert(record_matches(db1.idempotency@.last(), user_id, key));
    assert(has_record(db1.idempotency@, user_id, key));
    let idx = record_index(db1.idempotency@, user_id, key);
    assert(0 <= idx < db1.idempotency@.len() && record_matches(db1.idempotency@[idx], user_id, key));
    assert(idx == db1.idempotency@.len() - 1);
    assert(record_state(db1.idempotency@, user_id, key) == db1.idempotency@.last().state);
    assert(o2 is Replayed);
}

/// No partial commit: a winner that crashed before its commit left nothing
/// behind but the started reservation — no issue, no tasks, no response.
/// Releasing that stale reservation and retrying the same request succeeds
/// and produces exactly one issue and one set of delivery tasks, as if the
/// aborted attempt had never run.
pub proof fn lemma_no_partial_commit(
    db0: Database,
    db1: Database,
    db2: Database,
    user_id: u64,
    form: FormData,
    now: u64,
    released: bool,
    o: PublishOutcome,
)
    requires
        db0.wf(),
        db1.wf(),
        valid_idempotency_key(form.idempotency_key@),
        has_record(db0.idempotency@, user_id, form.idempotency_key@),
        record_state(db0.idempotency@, user_id, form.idempotency_key@) is Started,
        release_post(db0, db1, user_id, form.idempotency_key@, released),
        publish_post(db1, db2, user_id, form, now, o),
    ensures
        released,
        o is Accepted,
        db2.issues@.len() == db0.issues@.len() + 1,
        db2.issues@.drop_last() == db0.issues@,
        task_models(db2.tasks@) == task_models(db0.tasks@) + enqueue_effect(
            Seq::<TaskModel>::empty(),
            db0.subscriptions@,
            db0.next_issue_id,
        ),
{
    let key = form.idempotency_key@;
    let idx = record_index(db0.idempotency@, user_id, key);
    assert(0 <= idx < db0.idempotency@.len() && record_matches(db0.idempotency@[idx], user_id, key));
    assert(!has_record(db1.idempotency@, user_id, key)) by {
        if has_record(db1.idempotency@, user_id, key) {
            let w = choose|i: int|
                0 <= i < db1.idempotency@.len() && record_matches(
                    db1.idempotency@[i],
                    user_id,
                    key,
                );
            let ow: int = if w < idx {
                w
            } else {
                w + 1
            };
            assert(db1.idempotency@[w] == db0.idempotency@[ow]);
            assert(record_matches(db0.idempotency@[ow], user_id, key));
        }
    }
    assert(o is Accepted);
}

/// Every subscriber confirmed at publish time is owed the new issue: an
/// accepted publish leaves a delivery task for each of their emails.
pub proof fn lemma_every_confirmed_subscriber_is_staged(
    db0: Database,
    db1: Database,
    user_id: u64,
    form: FormData,
    now: u64,
    o: PublishOutcome,
    i: int,
)
    requires
        publish_post(db0, db1, user_id, form, now, o),
        o is Accepted,
        0 <= i < db0.subscriptions@.len(),
        db0.subscriptions@[i].status is Confirmed,
    ensures
        model_has_task(task_models(db1.tasks@), db0.next_issue_id, db0.subscriptions@[i].email@),
{
    let email = db0.subscriptions@[i].email@;
    let staged = enqueue_effect(Seq::<TaskModel>::empty(), db0.subscriptions@, db0.next_issue_id);
    lemma_enqueue_membership(
        Seq::<TaskModel>::empty(),
        db0.subscriptions@,
        db0.next_issue_id,
        email,
    );
    assert(model_has_task(staged, db0.next_issue_id, email));
    let w = choose|k: int|
        0 <= k < staged.len() && staged[k].issue_id == db0.next_issue_id && staged[k].email
            == email;
    let shifted = db0.tasks@.len() + w;
    assert(task_models(db1.tasks@)[shifted] == staged[w]);
}

/// Nobody else is: a delivery task the publish added belongs to a subscriber
/// who was confirmed at publish time. Pending subscribers receive nothing.
pub proof fn lemma_only_confirmed_subscribers_are_staged(
    db0: Database,
    db1: Database,
    user_id: u64,
    form: FormData,
    now: u64,
    o: PublishOutcome,
    email: Seq<char>,
)
    requires
        publish_post(db0, db1, user_id, form, now, o),
        o is Accepted,
        model_has_task(task_models(db1.tasks@), db0.next_issue_id, email),
        !model_has_task(task_models(db0.tasks@), db0.next_issue_id, email),
    ensures
        exists|i: int|
            0 <= i < db0.subscriptions@.len() && (#[trigger] db0.subscriptions@[i]).status
                is Confirmed && db0.subscriptions@[i].email@ == email,
{
    let staged = enqueue_effect(Seq::<TaskModel>::empty(), db0.subscriptions@, db0.next_issue_id);
    let all = task_models(db1.tasks@);
    let w = choose|k: int|
        0 <= k < all.len() && all[k].issue_id == db0.next_issue_id && all[k].email == email;
    if w < db0.tasks@.len() {
        assert(all[w] == task_models(db0.tasks@)[w]);
        assert(model_has_task(task_models(db0.tasks@), db0.next_issue_id, email));
    } else {
        assert(all[w] == staged[w - db0.tasks@.len()]);
        assert(model_has_task(staged, db0.next_issue_id, email));
    }
    lemma_enqueue_membership(
        Seq::<TaskModel>::empty(),
        db0.subscriptions@,
        db0.next_issue_id,
        email,
    );
}

/// Publishes a newsletter issue idempotently.
///
/// The first request for a (user, key) creates the issue, stages one delivery
/// task per confirmed subscriber (zero subscribers is a valid degenerate
/// case), and commits those together with the 303 acknowledgment; every later
/// request with the same key replays that acknowledgment byte for byte
/// without touching anything.
pub fn publish_newsletter(db: &mut Database, user_id: u64, form: FormData, now: u64) -> (o:
    PublishOutcome)
    requires
        old(db).wf(),
        old(db).next_issue_id < u64::MAX,
    ensures
        final(db).wf(),
        publish_post(*old(db), *final(db), user_id, form, now, o),
{
    let ghost db0 = *db;
    let FormData { title, html, text, idempotency_key } = form;
    let key = match IdempotencyKey::parse(idempotency_key) {
        Ok(k) => k,
        Err(e) => {
            return PublishOutcome::InvalidKey(e);
        },
    };
    let mut txn = match try_processing(db, &key, user_id) {
        NextAction::StartProcessing(txn) => txn,
        NextAction::ReturnSavedResponse(saved) => {
            return PublishOutcome::Replayed(saved);
        },
        NextAction::AlreadyStarted => {
            return PublishOutcome::AlreadyStarted;
        },
    };
    let ghost db_mid = *db;
    let ghost tasks0 = txn.new_tasks@;
    let issue_id = insert_newsletter_issue(&mut txn, &*db, title, text, html, now);
    enqueue_delivery_tasks(&mut txn, &*db, issue_id);
    let response = see_other("/admin/newsletters");
    let ghost txn_g = txn;
    let ghost resp0 = response;
    proof {
        let staged = enqueue_effect(
            Seq::<TaskModel>::empty(),
            db_mid.subscriptions@,
            issue_id,
        );
        assert(task_models(tasks0) =~= Seq::<TaskModel>::empty());
        assert(task_models(txn_g.new_tasks@) == staged);
        lemma_enqueue_effect_properties(Seq::<TaskModel>::empty(), db_mid.subscriptions@, issue_id);
        assert forall|i: int| 0 <= i < txn_g.new_tasks@.len() implies (
        #[trigger] txn_g.new_tasks@[i]).issue_id == db_mid.next_issue_id by {
            assert(task_models(txn_g.new_tasks@)[i] == txn_g.new_tasks@[i]@);
            let e = choose|e: Seq<char>| staged[i] == #[trigger] pending_task(issue_id, e);
            assert(staged[i] == pending_task(issue_id, e));
        }
        assert forall|i: int, j: int| 0 <= i < j < txn_g.new_tasks@.len() implies (
        #[trigger] txn_g.new_tasks@[i]).email@ != (#[trigger] txn_g.new_tasks@[j]).email@ by {
            assert(task_models(txn_g.new_tasks@)[i] == txn_g.new_tasks@[i]@);
            assert(task_models(txn_g.new_tasks@)[j] == txn_g.new_tasks@[j]@);
            assert(staged[i].email != staged[j].email);
        }
        // The reservation pushed by try_processing is the record the commit
        // will complete: it is the last row, and by uniqueness it is the one
        // the record index picks.
        let rows = db_mid.idempotency@;
        assert(record_matches(rows.last(), user_id, key@));
        assert(has_record(rows, user_id, key@));
        let idx = record_index(rows, user_id, key@);
        assert(0 <= idx < rows.len() && record_matches(rows[idx], user_id, key@));
        assert(idx == rows.len() - 1);
        assert(record_state(rows, user_id, key@) is Started);
    }
    let response = save_response(db, txn, &key, user_id, response);
    proof {
        let rows = db_mid.idempotency@;
        let idx = record_index(rows, user_id, key@);
        assert(db.idempotency@ == rows.update(idx, IdempotencyRecord {
            user_id: rows[idx].user_id,
            key: rows[idx].key,
            state: RecordState::Completed(resp0),
        }));
        assert(db.idempotency@.drop_last() =~= db0.idempotency@);
        lemma_task_models_add(db_mid.tasks@, txn_g.new_tasks@);
        assert(response@.headers =~= seq![("Location"@, "/admin/newsletters"@)]);
        assert(response@.body =~= Seq::<u8>::empty());
        assert(db.issues@.drop_last() =~= db0.issues@);
    }
    PublishOutcome::Accepted(response)
}

} // verus!
