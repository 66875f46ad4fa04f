//! Bookkeeping of the notifications that a Neovim instance sends, and of the tasks
//! that wait for one.
//!
//! Time is passed in as nanoseconds since the Unix epoch; waiting tasks are
//! represented by handles of any type `W` that the caller uses to wake them.
use vstd::prelude::*;

use crate::error::NeovimError;
use crate::keyed::KeyedStore;
use crate::text::concat2;

verus! {

/// `rmpv::Value`, a MessagePack value carried as a notification argument.
#[verifier::external_type_specification]
#[verifier::external_body]
pub struct ExMsgpackValue(rmpv::Value);

/// How many notifications are kept at most.
pub const MAX_STORED_NOTIFICATIONS: usize = 100;

/// Notifications older than this many whole seconds are expired.
pub const NOTIFICATION_EXPIRY_SECONDS: u64 = 30;

/// Nanoseconds in a second; timestamps count nanoseconds.
pub const NANOS_PER_SECOND: u64 = 1_000_000_000;

/// Storing more than this many notifications triggers a cleanup
/// (three quarters of `MAX_STORED_NOTIFICATIONS`).
pub const CLEANUP_THRESHOLD: usize = 75;

/// A notification received from Neovim.
#[derive(Debug, Clone)]
pub struct Notification {
    pub name: String,
    pub args: Vec<rmpv::Value>,
    /// When it was received, in nanoseconds since the Unix epoch.
    pub timestamp: u64,
}

/// A notification received at `timestamp` is still fresh at `now`: it is not from the
/// future and fewer than `NOTIFICATION_EXPIRY_SECONDS` whole seconds have passed.
pub open spec fn is_fresh(timestamp: u64, now: u64) -> bool {
    timestamp <= now && (now - timestamp) / (NANOS_PER_SECOND as int) < NOTIFICATION_EXPIRY_SECONDS
}

/// The fresh notifications of `ns`, in their order.
pub open spec fn fresh_only(ns: Seq<Notification>, now: u64) -> Seq<Notification>
    decreases ns.len(),
{
    if ns.len() == 0 {
        Seq::empty()
    } else if is_fresh(ns.last().timestamp, now) {
        fresh_only(ns.drop_last(), now).push(ns.last())
    } else {
        fresh_only(ns.drop_last(), now)
    }
}

/// The last `MAX_STORED_NOTIFICATIONS` entries of `ns`.
pub open spec fn keep_recent(ns: Seq<Notification>) -> Seq<Notification> {
    if ns.len() > MAX_STORED_NOTIFICATIONS {
        ns.skip(ns.len() - MAX_STORED_NOTIFICATIONS)
    } else {
        ns
    }
}

/// `ns` after a cleanup at `now`: expired entries dropped, then only the most recent kept.
pub open spec fn cleaned(ns: Seq<Notification>, now: u64) -> Seq<Notification> {
    keep_recent(fresh_only(ns, now))
}

/// `ns` after `n` is stored at `now`.
pub open spec fn recorded(ns: Seq<Notification>, n: Notification, now: u64) -> Seq<Notification> {
    let pushed = ns.push(n);
    if pushed.len() > CLEANUP_THRESHOLD {
        cleaned(pushed, now)
    } else {
        pushed
    }
}

/// `n` is a fresh notification called `name`.
pub open spec fn answers(n: Notification, name: Seq<char>, now: u64) -> bool {
    n.name@ == name && is_fresh(n.timestamp, now)
}

/// Position of the most recent fresh notification called `name`, or -1.
pub open spec fn latest_answer(ns: Seq<Notification>, name: Seq<char>, now: u64) -> int
    decreases ns.len(),
{
    if ns.len() == 0 {
        -1
    } else if answers(ns.last(), name, now) {
        ns.len() - 1
    } else {
        latest_answer(ns.drop_last(), name, now)
    }
}

/// The waiters registered under `name`, oldest first.
pub open spec fn waiters_of<W>(m: Map<Seq<char>, Seq<W>>, name: Seq<char>) -> Seq<W> {
    if m.dom().contains(name) {
        m[name]
    } else {
        Seq::empty()
    }
}

/// The waiting tasks after `waiter` starts waiting for `name`.
pub open spec fn registered<W>(m: Map<Seq<char>, Seq<W>>, name: Seq<char>, waiter: W) -> Map<
    Seq<char>,
    Seq<W>,
> {
    m.insert(name, waiters_of(m, name).push(waiter))
}

/// What ended a wait for a notification.
pub enum WaitOutcome {
    /// The notification arrived.
    Delivered(Notification),
    /// The waiting channel was dropped before anything arrived.
    ChannelClosed,
    /// The time allowed ran out.
    TimedOut,
}

/// Stored notifications, and tasks waiting for a notification by name.
pub struct NotificationTracker<W> {
    notifications: Vec<Notification>,
    waiters: KeyedStore<Vec<W>>,
}

pub proof fn lemma_fresh_only_facts(ns: Seq<Notification>, now: u64)
    ensures
        fresh_only(ns, now).len() <= ns.len(),
        forall|i: int|
            0 <= i < fresh_only(ns, now).len() ==> is_fresh(
                #[trigger] fresh_only(ns, now)[i].timestamp,
                now,
            ),
    decreases ns.len(),
{
    if ns.len() > 0 {
        lemma_fresh_only_facts(ns.drop_last(), now);
    }
}

pub proof fn lemma_latest_answer(ns: Seq<Notification>, name: Seq<char>, now: u64)
    ensures
        -1 <= latest_answer(ns, name, now) < ns.len(),
        latest_answer(ns, name, now) >= 0 ==> answers(
            ns[latest_answer(ns, name, now)],
            name,
            now,
        ),
        forall|j: int|
            latest_answer(ns, name, now) < j < ns.len() ==> !answers(#[trigger] ns[j], name, now),
    decreases ns.len(),
{
    if ns.len() > 0 && !answers(ns.last(), name, now) {
        lemma_latest_answer(ns.drop_last(), name, now);
        let l = latest_answer(ns, name, now);
        assert forall|j: int| l < j < ns.len() implies !answers(#[trigger] ns[j], name, now) by {
            if j < ns.len() - 1 {
                assert(ns[j] == ns.drop_last()[j]);
            }
        }
    }
}

fn fresh(timestamp: u64, now: u64) -> (res: bool)
    ensures
        res == is_fresh(timestamp, now),
{
    timestamp <= now && (now - timestamp) / NANOS_PER_SECOND < NOTIFICATION_EXPIRY_SECONDS
}

impl<W> NotificationTracker<W> {
    /// The stored notifications, oldest first.
    pub closed spec fn stored(&self) -> Seq<Notification> {
        self.notifications@
    }

    /// The waiting tasks by notification name, oldest first.
    pub closed spec fn waiting(&self) -> Map<Seq<char>, Seq<W>> {
        self.waiters@.map_values(|v: Vec<W>| v@)
    }

    /// At most `MAX_STORED_NOTIFICATIONS` notifications are stored, and every name
    /// that is waited for has at least one waiter.
    #[verifier::type_invariant]
    spec fn inv(&self) -> bool {
        &&& self.notifications@.len() <= MAX_STORED_NOTIFICATIONS
        &&& forall|k: Seq<char>| #[trigger]
            self.waiters@.dom().contains(k) ==> self.waiters@[k]@.len() > 0
    }

    /// A tracker with nothing stored and nobody waiting.
    pub fn new() -> (res: Self)
        ensures
            res.stored() == Seq::<Notification>::empty(),
            res.stored().len() <= MAX_STORED_NOTIFICATIONS,
            res.waiting() == Map::<Seq<char>, Seq<W>>::empty(),
    {
        let res = NotificationTracker { notifications: Vec::new(), waiters: KeyedStore::new() };
        assert(res.waiting() =~= Map::<Seq<char>, Seq<W>>::empty());
        res
    }

    /// `old_list` without its expired notifications, then only its most recent ones.
    fn cleaned_list(old_list: Vec<Notification>, now: u64) -> (res: Vec<Notification>)
        ensures
            res@ == cleaned(old_list@, now),
            res@.len() <= MAX_STORED_NOTIFICATIONS,
    {
        let ghost all = old_list@;
        let mut kept: Vec<Notification> = Vec::new();
        for n in it: old_list.into_iter()
            invariant
                it.seq() == all,
                kept@ == fresh_only(all.take(it.index() as int), now),
        {
            let ghost i = it.index();
            proof {
                assert(all.take(i + 1).drop_last() =~= all.take(i as int));
                assert(all.take(i + 1).last() == n);
            }
            if fresh(n.timestamp, now) {
                kept.push(n);
            }
        }
        assert(all.take(all.len() as int) =~= all);
        if kept.len() > MAX_STORED_NOTIFICATIONS {
            let excess = kept.len() - MAX_STORED_NOTIFICATIONS;
            kept = kept.split_off(excess);
        }
        kept
    }

    /// Stores a notification received at `now`, and hands back the tasks that waited
    /// for its name (oldest first); they no longer wait.
    pub fn record_notification(&mut self, notification: Notification, now: u64) -> (woken: Vec<W>)
        ensures
            final(self).stored() == recorded(old(self).stored(), notification, now),
            final(self).stored().len() <= MAX_STORED_NOTIFICATIONS,
            is_fresh(notification.timestamp, now) ==> final(self).stored().len() > 0
                && final(self).stored().last() == notification,
            woken@ == waiters_of(old(self).waiting(), notification.name@),
            final(self).waiting() == old(self).waiting().remove(notification.name@),
    {
        proof {
            use_type_invariant(&*self);
        }
        let mut waiters: KeyedStore<Vec<W>> = KeyedStore::new();
        std::mem::swap(&mut waiters, &mut self.waiters);
        let woken = match waiters.remove(notification.name.as_str()) {
            Some(list) => list,
            None => Vec::new(),
        };
        self.waiters = waiters;
        assert(self.waiting() =~= old(self).waiting().remove(notification.name@));
        let mut list: Vec<Notification> = Vec::new();
        std::mem::swap(&mut list, &mut self.notifications);
        let ghost before = list@;
        list.push(notification);
        if list.len() > CLEANUP_THRESHOLD {
            list = Self::cleaned_list(list, now);
        }
        self.notifications = list;
        proof {
            if is_fresh(notification.timestamp, now) {
                lemma_recorded_last(before, notification, now);
            }
        }
        woken
    }

    /// The most recent fresh notification called `name`, if any.
    pub fn find_recent_notification(&self, name: &str, now: u64) -> (res: Option<&Notification>)
        ensures
            match res {
                Some(n) => latest_answer(self.stored(), name@, now) >= 0 && *n == self.stored()[latest_answer(self.stored(), name@, now)],
                None => latest_answer(self.stored(), name@, now) == -1,
            },
            res matches Some(n) ==> n.name@ == name@ && is_fresh(n.timestamp, now),
    {
        let mut i = self.notifications.len();
        proof {
            assert(self.notifications@.take(i as int) =~= self.notifications@);
        }
        while i > 0
            invariant
                i <= self.notifications@.len(),
                latest_answer(self.notifications@, name@, now) == latest_answer(
                    self.notifications@.take(i as int),
                    name@,
                    now,
                ),
            decreases i,
        {
            let ghost prefix = self.notifications@.take(i as int);
            let n = &self.notifications[i - 1];
            assert(prefix.last() == *n);
            if fresh(n.timestamp, now) && crate::text::str_eq(n.name.as_str(), name) {
                proof {
                    lemma_latest_answer(self.notifications@, name@, now);
                }
                return Some(n);
            }
            assert(prefix.drop_last() =~= self.notifications@.take(i - 1));
            i = i - 1;
        }
        None
    }

    /// Registers a task waiting for a notification called `name`.
    pub fn register_waiter(&mut self, name: String, waiter: W)
        ensures
            final(self).stored() == old(self).stored(),
            final(self).stored().len() <= MAX_STORED_NOTIFICATIONS,
            final(self).waiting() == registered(old(self).waiting(), name@, waiter),
    {
        proof {
            use_type_invariant(&*self);
        }
        let mut waiters: KeyedStore<Vec<W>> = KeyedStore::new();
        std::mem::swap(&mut waiters, &mut self.waiters);
        let mut list = match waiters.remove(name.as_str()) {
            Some(list) => list,
            None => Vec::new(),
        };
        list.push(waiter);
        let ghost name_view = name@;
        let _ = waiters.insert(name, list);
        self.waiters = waiters;
        assert(self.waiting() =~= registered(old(self).waiting(), name_view, waiter));
    }

    /// Forgets every stored notification; waiting tasks keep waiting.
    pub fn clear_notifications(&mut self)
        ensures
            final(self).stored() == Seq::<Notification>::empty(),
            final(self).stored().len() <= MAX_STORED_NOTIFICATIONS,
            final(self).waiting() == old(self).waiting(),
    {
        proof {
            use_type_invariant(&*self);
        }
        self.notifications = Vec::new();
    }

    /// Drops expired notifications at `now`, then keeps only the most recent ones.
    pub fn cleanup_expired_notifications(&mut self, now: u64)
        ensures
            final(self).stored() == cleaned(old(self).stored(), now),
            final(self).stored().len() <= MAX_STORED_NOTIFICATIONS,
            final(self).waiting() == old(self).waiting(),
    {
        proof {
            use_type_invariant(&*self);
        }
        let mut list: Vec<Notification> = Vec::new();
        std::mem::swap(&mut list, &mut self.notifications);
        self.notifications = Self::cleaned_list(list, now);
    }

    /// How many notifications are stored, and how many names are waited for.
    pub fn get_stats(&self) -> (res: (usize, usize))
        ensures
            res.0 == self.stored().len(),
            res.1 == self.waiting().len(),
    {
        let waiting = self.waiters.len();
        assert(self.waiting().dom() =~= self.waiters@.dom());
        (self.notifications.len(), waiting)
    }
}

proof fn lemma_fresh_only_of_fresh(ns: Seq<Notification>, now: u64)
    requires
        forall|i: int| 0 <= i < ns.len() ==> is_fresh(#[trigger] ns[i].timestamp, now),
    ensures
        fresh_only(ns, now) == ns,
    decreases ns.len(),
{
    if ns.len() > 0 {
        let rest = ns.drop_last();
        assert forall|i: int| 0 <= i < rest.len() implies is_fresh(#[trigger] rest[i].timestamp, now) by {
            assert(rest[i] == ns[i]);
        }
        lemma_fresh_only_of_fresh(rest, now);
        assert(ns.last() == ns[ns.len() - 1]);
        assert(rest.push(ns.last()) =~= ns);
    }
}

/// A fresh notification that is recorded is the last one stored.
proof fn lemma_recorded_last(ns: Seq<Notification>, n: Notification, now: u64)
    requires
        is_fresh(n.timestamp, now),
    ensures
        recorded(ns, n, now).len() > 0,
        recorded(ns, n, now).last() == n,
{
    let pushed = ns.push(n);
    let after = recorded(ns, n, now);
    assert(pushed.drop_last() =~= ns);
    if pushed.len() > CLEANUP_THRESHOLD {
        let kept = fresh_only(pushed, now);
        assert(kept == fresh_only(ns, now).push(n));
        assert(kept.last() == n);
        if kept.len() > MAX_STORED_NOTIFICATIONS {
            let tail = kept.skip(kept.len() - MAX_STORED_NOTIFICATIONS);
            assert(tail.last() == kept.last());
        }
    }
}

/// Lookup right after storing: a notification recorded while it is fresh is the one
/// found for its name at that moment.
pub proof fn law_recorded_notification_is_found(ns: Seq<Notification>, n: Notification, now: u64)
    requires
        is_fresh(n.timestamp, now),
    ensures
        latest_answer(recorded(ns, n, now), n.name@, now) >= 0,
        recorded(ns, n, now)[latest_answer(recorded(ns, n, now), n.name@, now)] == n,
{
    let after = recorded(ns, n, now);
    lemma_recorded_last(ns, n, now);
    assert(answers(after.last(), n.name@, now));
}

/// Bounded storage: after any recording at most `MAX_STORED_NOTIFICATIONS`
/// notifications are stored, and a fresh one just recorded is the last of them.
pub proof fn law_storage_stays_bounded(ns: Seq<Notification>, n: Notification, now: u64)
    ensures
        recorded(ns, n, now).len() <= MAX_STORED_NOTIFICATIONS,
        is_fresh(n.timestamp, now) ==> recorded(ns, n, now).len() > 0 && recorded(ns, n, now).last()
            == n,
{
    if is_fresh(n.timestamp, now) {
        lemma_recorded_last(ns, n, now);
    }
    lemma_fresh_only_facts(ns.push(n), now);
}

/// Cleanup keeps only fresh notifications, at most `MAX_STORED_NOTIFICATIONS` of them,
/// and a second cleanup at the same moment changes nothing.
pub proof fn law_cleanup(ns: Seq<Notification>, now: u64)
    ensures
        cleaned(ns, now).len() <= MAX_STORED_NOTIFICATIONS,
        forall|i: int|
            0 <= i < cleaned(ns, now).len() ==> is_fresh(#[trigger] cleaned(ns, now)[i].timestamp, now),
        cleaned(cleaned(ns, now), now) == cleaned(ns, now),
{
    let kept = fresh_only(ns, now);
    lemma_fresh_only_facts(ns, now);
    let once = cleaned(ns, now);
    assert forall|i: int| 0 <= i < once.len() implies is_fresh(#[trigger] once[i].timestamp, now) by {
        if kept.len() > MAX_STORED_NOTIFICATIONS {
            assert(once[i] == kept[i + kept.len() - MAX_STORED_NOTIFICATIONS]);
        }
    }
    lemma_fresh_only_of_fresh(once, now);
}

/// A task that starts waiting for `name` is the last of those handed over when `name`
/// next arrives; the waiters of other names are untouched.
pub proof fn law_waiter_is_woken<W>(m: Map<Seq<char>, Seq<W>>, name: Seq<char>, waiter: W)
    ensures
        waiters_of(registered(m, name, waiter), name).len() == waiters_of(m, name).len() + 1,
        waiters_of(registered(m, name, waiter), name).last() == waiter,
        forall|k: Seq<char>|
            k != name ==> waiters_of(registered(m, name, waiter), k) == waiters_of(m, k),
{
}

/// The result of a wait for a notification called `name`.
pub fn finish_wait(name: &str, outcome: WaitOutcome) -> (res: Result<Notification, NeovimError>)
    ensures
        match outcome {
            WaitOutcome::Delivered(n) => res == Ok::<Notification, NeovimError>(n),
            WaitOutcome::ChannelClosed => res matches Err(NeovimError::Api(msg)) && msg@
                == "Notification channel closed unexpectedly"@,
            WaitOutcome::TimedOut => res matches Err(NeovimError::Api(msg)) && msg@
                == "Timeout waiting for notification: "@ + name@,
        },
{
    match outcome {
        WaitOutcome::Delivered(n) => Ok(n),
        WaitOutcome::ChannelClosed => Err(
            NeovimError::Api("Notification channel closed unexpectedly".to_owned()),
        ),
        WaitOutcome::TimedOut => Err(
            NeovimError::Api(concat2("Timeout waiting for notification: ", name)),
        ),
    }
}

} // verus!
