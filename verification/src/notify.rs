//! The notification queue: typed records the maintenance pass hands to the
//! delivery adapters, with their outcome bookkeeping. Delivery itself is
//! outside work; the queue and its settlement are verified here.

use vstd::prelude::*;
use vstd::string::StringExecFns;

use crate::audit::{push_audit, spec_push_audit};
use crate::model::audit::AuditEventKind;
use crate::model::errors::CivError;
use crate::model::user::{NotificationChannel, NotificationRecord, User};

verus! {

/// The largest notification id in use, zero when none.
pub open spec fn max_notification_id(s: Seq<NotificationRecord>) -> int
    decreases s.len(),
{
    if s.len() == 0 {
        0
    } else {
        let rest = max_notification_id(s.drop_last());
        if s.last().id > rest {
            s.last().id as int
        } else {
            rest
        }
    }
}

pub proof fn lemma_max_notification_id_bounds(s: Seq<NotificationRecord>)
    ensures
        0 <= max_notification_id(s) <= u64::MAX,
    decreases s.len(),
{
    if s.len() > 0 {
        lemma_max_notification_id_bounds(s.drop_last());
    }
}

/// One past the largest id in use, saturating.
pub open spec fn spec_next_notification_id(s: Seq<NotificationRecord>) -> u64 {
    if max_notification_id(s) >= u64::MAX {
        u64::MAX
    } else {
        (max_notification_id(s) + 1) as u64
    }
}

fn next_notification_id(v: &Vec<NotificationRecord>) -> (r: u64)
    ensures
        r == spec_next_notification_id(v@),
{
    let mut m: u64 = 0;
    let mut i: usize = 0;
    while i < v.len()
        invariant
            i <= v@.len(),
            m == max_notification_id(v@.subrange(0, i as int)),
        decreases v@.len() - i,
    {
        proof {
            assert(v@.subrange(0, i + 1).drop_last() =~= v@.subrange(0, i as int));
            assert(v@.subrange(0, i + 1).last() == v@[i as int]);
        }
        if v[i].id > m {
            m = v[i].id;
        }
        i = i + 1;
    }
    proof {
        assert(v@.subrange(0, v@.len() as int) =~= v@);
        lemma_max_notification_id_bounds(v@);
    }
    if m == u64::MAX {
        u64::MAX
    } else {
        m + 1
    }
}

/// The channel's display name, as the audit events carry it.
pub open spec fn spec_channel_name(c: NotificationChannel) -> Seq<char> {
    match c {
        NotificationChannel::Email => "Email"@,
        NotificationChannel::Sms => "Sms"@,
    }
}

fn channel_name(c: NotificationChannel) -> (r: String)
    ensures
        r@ == spec_channel_name(c),
{
    match c {
        NotificationChannel::Email => <String as StringExecFns>::from_str("Email"),
        NotificationChannel::Sms => <String as StringExecFns>::from_str("Sms"),
    }
}

/// `i` is the index of the first notification with this id.
pub open spec fn first_notification_at(s: Seq<NotificationRecord>, id: u64, i: int) -> bool {
    0 <= i < s.len() && s[i].id == id && forall|j: int| 0 <= j < i ==> s[j].id != id
}

/// Queue one notification under a fresh id and audit the queuing.
pub fn enqueue_notification(
    u: &mut User,
    channel: NotificationChannel,
    template: String,
    payload: String,
    now: u64,
) -> (id: u64)
    ensures
        *final(u) == (User {
            notifications: final(u).notifications,
            audit_log: final(u).audit_log,
            ..*old(u)
        }),
        id == spec_next_notification_id(old(u).notifications@),
        final(u).notifications@.len() == old(u).notifications@.len() + 1,
        final(u).notifications@.drop_last() == old(u).notifications@,
        ({
            let n = final(u).notifications@.last();
            &&& n.id == id
            &&& n.channel == channel
            &&& n.template@ == template@
            &&& n.payload@ == payload@
            &&& n.queued_at == now
            &&& n.sent_at is None
            &&& n.success is None
            &&& n.attempts == 0
        }),
        exists|k: AuditEventKind|
            final(u).audit_log@ == #[trigger] spec_push_audit(old(u).audit_log@, k, now) && (
            k matches AuditEventKind::NotificationQueued { channel: c2, template: t2 } && c2@
                == spec_channel_name(channel) && t2@ == template@),
{
    let next_id = next_notification_id(&u.notifications);
    let template_copy = template.clone();
    u.notifications.push(
        NotificationRecord {
            id: next_id,
            channel,
            template,
            payload,
            queued_at: now,
            sent_at: None,
            success: None,
            attempts: 0,
        },
    );
    let kind = AuditEventKind::NotificationQueued {
        channel: channel_name(channel),
        template: template_copy,
    };
    let ghost gk = kind;
    push_audit(u, kind, now);
    proof {
        assert(u.audit_log@ == spec_push_audit(old(u).audit_log@, gk, now));
    }
    next_id
}

/// Settle one delivery attempt on the first unsent record with the id:
/// the attempt counts, the outcome and instant stick, and the outcome is
/// audited. An unknown or already-sent id changes nothing.
pub fn apply_notification_outcome(u: &mut User, id: u64, ok: bool, now: u64) -> (r: Result<
    (),
    CivError,
>)
    ensures
        r is Err ==> *final(u) == *old(u),
        r is Ok <==> (exists|i: int|
            #[trigger] first_notification_at(old(u).notifications@, id, i) && old(
                u,
            ).notifications@[i].sent_at is None),
        forall|i: int|
            #[trigger] first_notification_at(old(u).notifications@, id, i) && old(
                u,
            ).notifications@[i].sent_at is None ==> ({
                let n0 = old(u).notifications@[i];
                let n = final(u).notifications@[i];
                &&& *final(u) == (User {
                    notifications: final(u).notifications,
                    audit_log: final(u).audit_log,
                    ..*old(u)
                })
                &&& final(u).notifications@ == old(u).notifications@.update(i, n)
                &&& n == (NotificationRecord {
                    sent_at: Some(now),
                    success: Some(ok),
                    attempts: (if n0.attempts == u32::MAX {
                        u32::MAX
                    } else {
                        (n0.attempts + 1) as u32
                    }),
                    ..n0
                })
                &&& (exists|k: AuditEventKind|
                    final(u).audit_log@ == #[trigger] spec_push_audit(old(u).audit_log@, k, now)
                        && (k matches AuditEventKind::NotificationSent {
                        channel: c2,
                        template: t2,
                        success: s2,
                    } && c2@ == spec_channel_name(n0.channel) && t2@ == n0.template@ && s2 == ok))
            }),
{
    let mut i: usize = 0;
    let n = u.notifications.len();
    while i < n
        invariant
            i <= n,
            n == u.notifications@.len(),
            *u == *old(u),
            forall|j: int| 0 <= j < i ==> old(u).notifications@[j].id != id,
        decreases n - i,
    {
        if u.notifications[i].id == id {
            proof {
                assert(first_notification_at(old(u).notifications@, id, i as int));
                assert forall|t: int|
                    #[trigger] first_notification_at(old(u).notifications@, id, t) implies t
                    == i as int by {
                    if t < i as int {
                        assert(old(u).notifications@[t].id == id);
                    }
                    if t > i as int {
                        assert(old(u).notifications@[i as int].id != id);
                    }
                }
            }
            if u.notifications[i].sent_at.is_some() {
                return Err(CivError::Other(
                    <String as StringExecFns>::from_str("notification_already_sent"),
                ));
            }
            let rec = u.notifications.remove(i);
            let attempts = if rec.attempts == u32::MAX {
                u32::MAX
            } else {
                rec.attempts + 1
            };
            let chan = rec.channel;
            let template_copy = rec.template.clone();
            u.notifications.insert(
                i,
                NotificationRecord { sent_at: Some(now), success: Some(ok), attempts, ..rec },
            );
            proof {
                assert(u.notifications@ =~= old(u).notifications@.update(
                    i as int,
                    u.notifications@[i as int],
                ));
            }
            let kind = AuditEventKind::NotificationSent {
                channel: channel_name(chan),
                template: template_copy,
                success: ok,
            };
            let ghost gk = kind;
            push_audit(u, kind, now);
            proof {
                assert(u.audit_log@ == spec_push_audit(old(u).audit_log@, gk, now));
            }
            return Ok(());
        }
        i = i + 1;
    }
    Err(CivError::Other(<String as StringExecFns>::from_str("notification_not_found")))
}

/// The user's notification queue.
pub fn list_notifications(u: &User) -> (r: &Vec<NotificationRecord>)
    ensures
        r@ == u.notifications@,
{
    &u.notifications
}

} // verus!
