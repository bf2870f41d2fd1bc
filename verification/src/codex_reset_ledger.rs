//! A ledger of reset credits. The service tells only how many credits there
//! are; the ledger watches that count and estimates when each one expires.

use vstd::prelude::*;

use crate::decimal;
use crate::text;
use crate::times;
use crate::times::Moment;

verus! {

/// How many days a credit lasts.
pub const RESET_CREDIT_TTL_DAYS: i64 = 30;

#[derive(Clone, Copy, Debug, PartialEq, Eq, Structural)]
pub enum CreditStatus {
    Available,
    UsedOrRemoved,
    Expired,
}

/// A credit that the ledger has seen arrive.
pub struct Credit {
    pub id: i64,
    pub first_seen_at: String,
    pub expires_at: String,
    pub status: CreditStatus,
    pub updated_at: String,
}

/// A count that the service reported.
pub struct Observation {
    pub observed_at: String,
    pub available_count: i64,
}

/// The last count, in decimal, and when it was noted.
pub struct LastCount {
    pub value: String,
    pub updated_at: String,
}

/// The credits in the order of their ids, the last count and all observations.
pub struct Ledger {
    pub credits: Vec<Credit>,
    pub next_id: i64,
    pub last_count: Option<LastCount>,
    pub observations: Vec<Observation>,
}

/// What the ledger makes of the credits at one time.
#[derive(Clone, Debug, PartialEq, Eq)]
pub struct ResetCreditEstimate {
    pub remote_available_count: i64,
    pub tracked_available_count: i64,
    pub untracked_available_count: i64,
    pub next_expires_at: Option<String>,
}

#[verifier::ext_equal]
pub struct CreditView {
    pub id: int,
    pub first_seen_at: Seq<char>,
    pub expires_at: Seq<char>,
    pub status: CreditStatus,
    pub updated_at: Seq<char>,
}

#[verifier::ext_equal]
pub struct LedgerView {
    pub credits: Seq<CreditView>,
    pub next_id: int,
    pub last_count: Option<(Seq<char>, Seq<char>)>,
    pub observations: Seq<(Seq<char>, int)>,
}

#[verifier::ext_equal]
pub struct EstimateView {
    pub remote: int,
    pub followed: int,
    pub unfollowed: int,
    pub next_expires_at: Option<Seq<char>>,
}

impl View for Credit {
    type V = CreditView;

    open spec fn view(&self) -> CreditView {
        CreditView {
            id: self.id as int,
            first_seen_at: self.first_seen_at@,
            expires_at: self.expires_at@,
            status: self.status,
            updated_at: self.updated_at@,
        }
    }
}

impl View for Ledger {
    type V = LedgerView;

    open spec fn view(&self) -> LedgerView {
        LedgerView {
            credits: views(self.credits@),
            next_id: self.next_id as int,
            last_count: match self.last_count {
                Some(last) => Some((last.value@, last.updated_at@)),
                None => None,
            },
            observations: self.observations@.map_values(
                |o: Observation| (o.observed_at@, o.available_count as int),
            ),
        }
    }
}

impl View for ResetCreditEstimate {
    type V = EstimateView;

    open spec fn view(&self) -> EstimateView {
        EstimateView {
            remote: self.remote_available_count as int,
            followed: self.tracked_available_count as int,
            unfollowed: self.untracked_available_count as int,
            next_expires_at: text::opt_text(self.next_expires_at),
        }
    }
}

pub open spec fn views(credits: Seq<Credit>) -> Seq<CreditView> {
    credits.map_values(|c: Credit| c@)
}

// ---------------------------------------------------------------------------
// The model
// ---------------------------------------------------------------------------

impl CreditView {
    pub open spec fn available(self) -> bool {
        self.status == CreditStatus::Available
    }

    /// The credit after it changed its status.
    pub open spec fn turned(self, status: CreditStatus, now: Seq<char>) -> CreditView {
        CreditView { status, updated_at: now, ..self }
    }

    /// The credit as of `now`: expired if its time has come.
    pub open spec fn as_of(self, now: Seq<char>) -> CreditView {
        if self.available() && !text::precedes(now, self.expires_at) {
            self.turned(CreditStatus::Expired, now)
        } else {
            self
        }
    }
}

/// The credits as of `now`.
pub open spec fn as_of(credits: Seq<CreditView>, now: Seq<char>) -> Seq<CreditView> {
    credits.map_values(|c: CreditView| c.as_of(now))
}

/// How many of the credits are available.
pub open spec fn available_count(credits: Seq<CreditView>) -> nat
    decreases credits.len(),
{
    if credits.len() == 0 {
        0
    } else {
        available_count(credits.drop_last()) + if credits.last().available() {
            1nat
        } else {
            0nat
        }
    }
}

/// The place of the available credit that expires first; of those that expire
/// together, the one that was seen first.
pub open spec fn earliest(credits: Seq<CreditView>) -> Option<int>
    decreases credits.len(),
{
    if credits.len() == 0 {
        None
    } else {
        let before = earliest(credits.drop_last());
        let last = credits.last();
        if !last.available() {
            before
        } else {
            match before {
                None => Some(credits.len() - 1),
                Some(i) => if text::precedes(last.expires_at, credits[i].expires_at) {
                    Some(credits.len() - 1)
                } else {
                    Some(i)
                },
            }
        }
    }
}

/// The credits after `n` of the available ones, those that expire first, were used or removed.
pub open spec fn with_removed(credits: Seq<CreditView>, n: nat, now: Seq<char>) -> Seq<CreditView>
    decreases n,
{
    if n == 0 {
        credits
    } else {
        match earliest(credits) {
            None => credits,
            Some(i) => with_removed(
                credits.update(i, credits[i].turned(CreditStatus::UsedOrRemoved, now)),
                (n - 1) as nat,
                now,
            ),
        }
    }
}

/// `n` credits that arrived just now.
pub open spec fn arrived(n: nat, next_id: int, now: Seq<char>, due: Seq<char>) -> Seq<CreditView> {
    Seq::new(
        n,
        |i: int|
            CreditView {
                id: next_id + i,
                first_seen_at: now,
                expires_at: due,
                status: CreditStatus::Available,
                updated_at: now,
            },
    )
}

impl LedgerView {
    /// The last count, where one was noted.
    pub open spec fn previous(self) -> Option<i64> {
        match self.last_count {
            Some((value, _)) => decimal::parsed_i64(value),
            None => None,
        }
    }

    /// The ids rise and stay below the next one, and the last count is no negative number.
    pub open spec fn well_formed(self) -> bool {
        &&& forall|i: int, j: int|
            0 <= i < j < self.credits.len() ==> #[trigger] self.credits[i].id
                < #[trigger] self.credits[j].id
        &&& forall|i: int|
            0 <= i < self.credits.len() ==> #[trigger] self.credits[i].id < self.next_id
        &&& self.previous() matches Some(p) ==> p >= 0
    }

    /// How many credits a count of `remote` adds.
    pub open spec fn growth(self, remote: int) -> int {
        match self.previous() {
            Some(p) => if remote > p {
                remote - p
            } else {
                0
            },
            None => 0,
        }
    }
}

/// A count, taken as zero where it is negative.
pub open spec fn counted(remote: int) -> int {
    if remote < 0 {
        0
    } else {
        remote
    }
}

/// When a credit that arrives at `now` expires.
pub open spec fn due(now: Moment) -> Moment {
    times::days_later(now, RESET_CREDIT_TTL_DAYS as int)
}

/// The credits after a count of `remote` was seen at `now`.
pub open spec fn credits_after(ledger: LedgerView, remote: int, now: Moment) -> Seq<CreditView> {
    let live = as_of(ledger.credits, times::stamp(now));
    match ledger.previous() {
        None => live,
        Some(p) => if remote > p {
            live + arrived(
                (remote - p) as nat,
                ledger.next_id,
                times::stamp(now),
                times::stamp(due(now)),
            )
        } else if remote < p {
            with_removed(live, (p - remote) as nat, times::stamp(now))
        } else {
            live
        },
    }
}

/// The ledger after a count was seen.
pub open spec fn reconciled(ledger: LedgerView, remote: int, now: Moment) -> LedgerView {
    let count = counted(remote);
    LedgerView {
        credits: as_of(credits_after(ledger, count, now), times::stamp(now)),
        next_id: ledger.next_id + ledger.growth(count),
        last_count: Some((decimal::decimal(count), times::stamp(now))),
        observations: ledger.observations.push((times::stamp(now), count)),
    }
}

/// The estimate over credits none of which is overdue.
pub open spec fn estimate_of(credits: Seq<CreditView>, remote: int) -> EstimateView {
    let followed = available_count(credits) as int;
    EstimateView {
        remote: counted(remote),
        followed,
        unfollowed: counted(remote - followed),
        next_expires_at: match earliest(credits) {
            Some(i) => Some(credits[i].expires_at),
            None => None,
        },
    }
}

// ---------------------------------------------------------------------------
// The operations
// ---------------------------------------------------------------------------

impl Ledger {
    /// A ledger that has seen nothing.
    pub fn new() -> (res: Ledger)
        ensures
            res@ == (LedgerView {
                credits: Seq::empty(),
                next_id: 1,
                last_count: None,
                observations: Seq::empty(),
            }),
            res@.well_formed(),
    {
        let res = Ledger { credits: Vec::new(), next_id: 1, last_count: None, observations: Vec::new() };
        assert(res@.credits =~= Seq::empty());
        assert(res@.observations =~= Seq::empty());
        res
    }
}

fn turn(credits: &mut Vec<Credit>, i: usize, status: CreditStatus, now: &str)
    requires
        i < old(credits)@.len(),
    ensures
        views(final(credits)@) == views(old(credits)@).update(
            i as int,
            old(credits)@[i as int]@.turned(status, now@),
        ),
        final(credits)@.len() == old(credits)@.len(),
{
    let updated_at = now.to_owned();
    let old_credit = &credits[i];
    let credit = Credit {
        id: old_credit.id,
        first_seen_at: old_credit.first_seen_at.clone(),
        expires_at: old_credit.expires_at.clone(),
        status,
        updated_at,
    };
    credits.set(i, credit);
    assert(views(credits@) =~= views(old(credits)@).update(
        i as int,
        old(credits)@[i as int]@.turned(status, now@),
    ));
}

/// Marks the available credits whose time has come.
fn expire_old_credits(credits: &mut Vec<Credit>, now: &str)
    ensures
        views(final(credits)@) == as_of(views(old(credits)@), now@),
{
    let ghost before = views(credits@);
    let mut i: usize = 0;
    while i < credits.len()
        invariant
            i <= credits@.len() == before.len(),
            forall|j: int| 0 <= j < i ==> #[trigger] views(credits@)[j] == before[j].as_of(now@),
            forall|j: int| i <= j < before.len() ==> #[trigger] views(credits@)[j] == before[j],
        decreases credits@.len() - i,
    {
        assert(views(credits@)[i as int] == before[i as int]);
        let overdue = match credits[i].status {
            CreditStatus::Available => !text::before(now, credits[i].expires_at.as_str()),
            _ => false,
        };
        if overdue {
            turn(credits, i, CreditStatus::Expired, now);
        }
        i += 1;
    }
    assert(views(credits@) =~= as_of(before, now@));
}

fn find_earliest(credits: &Vec<Credit>) -> (res: Option<usize>)
    ensures
        match res {
            Some(i) => i < credits@.len() && earliest(views(credits@)) == Some(i as int),
            None => earliest(views(credits@)) is None,
        },
{
    let ghost all = views(credits@);
    let mut found: Option<usize> = None;
    let mut i: usize = 0;
    assert(all.take(0) =~= Seq::empty());
    while i < credits.len()
        invariant
            i <= credits@.len(),
            all == views(credits@),
            match found {
                Some(k) => k < i && earliest(all.take(i as int)) == Some(k as int),
                None => earliest(all.take(i as int)) is None,
            },
        decreases credits@.len() - i,
    {
        assert(all.take(i + 1).drop_last() =~= all.take(i as int));
        match credits[i].status {
            CreditStatus::Available => match found {
                None => {
                    found = Some(i);
                },
                Some(k) => {
                    if text::before(credits[i].expires_at.as_str(), credits[k].expires_at.as_str()) {
                        found = Some(i);
                    }
                },
            },
            _ => {},
        }
        i += 1;
    }
    assert(all.take(i as int) =~= all);
    found
}

fn mark_removed_credits(credits: &mut Vec<Credit>, count: i64, now: &str)
    requires
        count >= 0,
    ensures
        views(final(credits)@) == with_removed(views(old(credits)@), count as nat, now@),
{
    let mut left: i64 = count;
    while left > 0
        invariant
            left >= 0,
            with_removed(views(old(credits)@), count as nat, now@) == with_removed(
                views(credits@),
                left as nat,
                now@,
            ),
        decreases left,
    {
        match find_earliest(credits) {
            None => {
                return;
            },
            Some(i) => {
                turn(credits, i, CreditStatus::UsedOrRemoved, now);
                left -= 1;
            },
        }
    }
}

fn insert_new_credits(credits: &mut Vec<Credit>, next_id: i64, count: i64, now: &str, due: &str) -> (res:
    i64)
    requires
        count >= 0,
        next_id + count <= i64::MAX,
    ensures
        views(final(credits)@) == views(old(credits)@) + arrived(
            count as nat,
            next_id as int,
            now@,
            due@,
        ),
        res == next_id + count,
{
    let ghost before = views(credits@);
    let mut i: i64 = 0;
    while i < count
        invariant
            0 <= i <= count,
            next_id + count <= i64::MAX,
            views(credits@) =~= before + arrived(i as nat, next_id as int, now@, due@),
        decreases count - i,
    {
        let credit = Credit {
            id: next_id + i,
            first_seen_at: now.to_owned(),
            expires_at: due.to_owned(),
            status: CreditStatus::Available,
            updated_at: now.to_owned(),
        };
        let ghost prior = credits@;
        credits.push(credit);
        assert(views(credits@) =~= views(prior).push(credit@));
        i += 1;
    }
    next_id + count
}

fn count_available(credits: &Vec<Credit>) -> (res: usize)
    ensures
        res == available_count(views(credits@)),
        res <= credits@.len(),
{
    let ghost all = views(credits@);
    let mut n: usize = 0;
    let mut i: usize = 0;
    while i < credits.len()
        invariant
            n <= i <= credits@.len(),
            all == views(credits@),
            n == available_count(all.take(i as int)),
        decreases credits@.len() - i,
    {
        assert(all.take(i + 1).drop_last() =~= all.take(i as int));
        match credits[i].status {
            CreditStatus::Available => {
                n += 1;
            },
            _ => {},
        }
        i += 1;
    }
    assert(all.take(i as int) =~= all);
    n
}

fn parse_last(last: &Option<LastCount>) -> (res: Option<i64>)
    ensures
        res == match *last {
            Some(l) => decimal::parsed_i64(l.value@),
            None => None,
        },
{
    match last {
        Some(l) => decimal::parse_integer(l.value.as_str()),
        None => None,
    }
}

/// Expires what is overdue and estimates what is left, for a count of
/// `remote_available_count`. Of the credits whose time is told in the years 0
/// to 9999, exactly those expire whose time is not after `now`.
pub fn estimate(ledger: &mut Ledger, remote_available_count: i64, now: &Moment) -> (res:
    ResetCreditEstimate)
    requires
        now.valid(),
        old(ledger)@.well_formed(),
        old(ledger).credits@.len() <= i64::MAX,
        remote_available_count >= i64::MIN + old(ledger).credits@.len(),
    ensures
        final(ledger)@ == (LedgerView {
            credits: as_of(old(ledger)@.credits, times::stamp(*now)),
            ..old(ledger)@
        }),
        res@ == estimate_of(final(ledger)@.credits, remote_available_count as int),
        final(ledger)@.well_formed(),
        match res@.next_expires_at {
            None => forall|i: int|
                0 <= i < final(ledger)@.credits.len() ==> !(
                #[trigger] final(ledger)@.credits[i]).available(),
            Some(end) => {
                &&& exists|i: int|
                    0 <= i < final(ledger)@.credits.len() && (
                    #[trigger] final(ledger)@.credits[i]).available()
                        && final(ledger)@.credits[i].expires_at == end
                &&& forall|i: int|
                    0 <= i < final(ledger)@.credits.len() && (
                    #[trigger] final(ledger)@.credits[i]).available() ==> !text::precedes(
                        final(ledger)@.credits[i].expires_at,
                        end,
                    )
            },
        },
        forall|i: int, end: Moment|
            0 <= i < old(ledger)@.credits.len() && old(ledger)@.credits[i].available()
                && now.common() && end.common() && old(ledger)@.credits[i].expires_at
                == #[trigger] times::stamp(end) ==> (#[trigger] final(ledger)@.credits[i].available()
                <==> now.earlier(end)),
{
    let stamp = times::rfc3339(now);
    let ghost before = ledger@;
    expire_old_credits(&mut ledger.credits, stamp.as_str());
    assert(ledger@.credits == as_of(before.credits, stamp@));
    let tracked_available_count: i64 = count_available(&ledger.credits) as i64;
    let next_expires_at = match find_earliest(&ledger.credits) {
        Some(i) => Some(ledger.credits[i].expires_at.clone()),
        None => None,
    };
    let rest: i64 = remote_available_count - tracked_available_count;
    proof {
        earliest_is_least(ledger@.credits);
        assert forall|i: int, end: Moment|
            0 <= i < before.credits.len() && before.credits[i].available() && now.common()
                && end.common() && before.credits[i].expires_at == #[trigger] times::stamp(
                end,
            ) implies (#[trigger] ledger@.credits[i].available() <==> now.earlier(end)) by {
            text::text_order_is_total(stamp@, times::stamp(end));
            if !now.earlier(end) && !end.earlier(*now) {
                assert(end == *now);
            }
        }
    }
    ResetCreditEstimate {
        remote_available_count: if remote_available_count < 0 {
            0
        } else {
            remote_available_count
        },
        tracked_available_count,
        untracked_available_count: if rest < 0 {
            0
        } else {
            rest
        },
        next_expires_at,
    }
}

/// A ledger that is in order can take note of a count: there are ids and numbers
/// for the credits that it adds, and the calendar holds their end.
pub open spec fn reconcilable(ledger: LedgerView, remote: int, now: Moment) -> bool {
    let growth = ledger.growth(counted(remote));
    &&& now.valid()
    &&& ledger.well_formed()
    &&& ledger.next_id + growth <= i64::MAX
    &&& ledger.credits.len() + growth <= i64::MAX
    &&& growth > 0 ==> now.seconds + RESET_CREDIT_TTL_DAYS * times::DAY_SECONDS
        <= times::LAST_SECOND
}

/// Whether the ids of the credits rise and stay below a number.
fn ids_rise(credits: &Vec<Credit>, next_id: i64) -> (res: bool)
    ensures
        res == ((forall|i: int, j: int|
            0 <= i < j < credits@.len() ==> #[trigger] credits@[i].id < #[trigger] credits@[j].id)
            && (forall|i: int| 0 <= i < credits@.len() ==> #[trigger] credits@[i].id < next_id)),
{
    let mut i: usize = 0;
    while i < credits.len()
        invariant
            i <= credits@.len(),
            forall|a: int, b: int|
                0 <= a < b < i ==> #[trigger] credits@[a].id < #[trigger] credits@[b].id,
            forall|a: int| 0 <= a < i ==> #[trigger] credits@[a].id < next_id,
        decreases credits@.len() - i,
    {
        if credits[i].id >= next_id {
            return false;
        }
        if i > 0 && credits[i - 1].id >= credits[i].id {
            assert(credits@[i - 1].id >= credits@[i as int].id);
            return false;
        }
        i += 1;
    }
    true
}

/// Whether a ledger can take note of a count.
pub fn can_reconcile(ledger: &Ledger, remote_available_count: i64, observed_at: &Moment) -> (res:
    bool)
    ensures
        res == reconcilable(ledger@, remote_available_count as int, *observed_at),
{
    let rise = ids_rise(&ledger.credits, ledger.next_id);
    assert(rise == ((forall|i: int, j: int|
        0 <= i < j < ledger@.credits.len() ==> #[trigger] ledger@.credits[i].id
            < #[trigger] ledger@.credits[j].id) && (forall|i: int|
        0 <= i < ledger@.credits.len() ==> #[trigger] ledger@.credits[i].id < ledger@.next_id))) by {
        let credits = ledger.credits@;
        let seen = ledger@.credits;
        assert forall|i: int| 0 <= i < credits.len() implies #[trigger] seen[i].id
            == credits[i].id by {}
        if rise {
            assert forall|i: int, j: int| 0 <= i < j < seen.len() implies #[trigger] seen[i].id
                < #[trigger] seen[j].id by {
                assert(credits[i].id < credits[j].id);
            }
            assert forall|i: int| 0 <= i < seen.len() implies #[trigger] seen[i].id
                < ledger@.next_id by {
                assert(credits[i].id < ledger.next_id);
            }
        } else if forall|i: int| 0 <= i < credits.len() ==> #[trigger] credits[i].id < ledger.next_id {
            let (i, j) = choose|i: int, j: int|
                0 <= i < j < credits.len() && #[trigger] credits[i].id >= #[trigger] credits[j].id;
            assert(seen[i].id >= seen[j].id);
        } else {
            let i = choose|i: int|
                0 <= i < credits.len() && #[trigger] credits[i].id >= ledger.next_id;
            assert(seen[i].id >= ledger@.next_id);
        }
    }
    if !rise || !observed_at.is_valid() {
        return false;
    }
    let previous = match parse_last(&ledger.last_count) {
        Some(previous) => previous,
        None => {
            return ledger.credits.len() as u64 <= i64::MAX as u64;
        },
    };
    if previous < 0 {
        return false;
    }
    let growth: i64 = if remote_available_count > previous {
        remote_available_count - previous
    } else {
        0
    };
    ledger.next_id <= i64::MAX - growth && ledger.credits.len() as u64 <= (i64::MAX - growth) as u64
        && (growth == 0 || observed_at.seconds <= times::LAST_SECOND - RESET_CREDIT_TTL_DAYS
        * times::DAY_SECONDS)
}

/// Takes note of a count of `remote_available_count`, and estimates. Credits
/// beyond the last count have arrived just now; where the count fell, the
/// credits that expire first are gone.
pub fn reconcile(ledger: &mut Ledger, remote_available_count: i64, observed_at: &Moment) -> (res:
    ResetCreditEstimate)
    requires
        reconcilable(old(ledger)@, remote_available_count as int, *observed_at),
    ensures
        final(ledger)@ == reconciled(old(ledger)@, remote_available_count as int, *observed_at),
        res@ == estimate_of(final(ledger)@.credits, counted(remote_available_count as int)),
        final(ledger)@.well_formed(),
        match res@.next_expires_at {
            None => forall|i: int|
                0 <= i < final(ledger)@.credits.len() ==> !(
                #[trigger] final(ledger)@.credits[i]).available(),
            Some(end) => {
                &&& exists|i: int|
                    0 <= i < final(ledger)@.credits.len() && (
                    #[trigger] final(ledger)@.credits[i]).available()
                        && final(ledger)@.credits[i].expires_at == end
                &&& forall|i: int|
                    0 <= i < final(ledger)@.credits.len() && (
                    #[trigger] final(ledger)@.credits[i]).available() ==> !text::precedes(
                        final(ledger)@.credits[i].expires_at,
                        end,
                    )
            },
        },
        ({
            let count = counted(remote_available_count as int);
            let live = available_count(as_of(old(ledger)@.credits, times::stamp(*observed_at)));
            match old(ledger)@.previous() {
                None => res@.followed == live,
                Some(p) => if count > p {
                    observed_at.common() && due(*observed_at).common() ==> res@.followed == live + (
                    count - p)
                } else {
                    res@.followed == counted(live - (p - count))
                },
            }
        }),
{
    let ghost start = ledger@;
    let count: i64 = if remote_available_count < 0 {
        0
    } else {
        remote_available_count
    };
    let stamp = times::rfc3339(observed_at);
    expire_old_credits(&mut ledger.credits, stamp.as_str());
    let ghost live = as_of(start.credits, stamp@);
    assert(views(ledger.credits@) == live);
    let previous = parse_last(&ledger.last_count);
    if let Some(previous) = previous {
        if count > previous {
            let end = times::after_days(observed_at, RESET_CREDIT_TTL_DAYS);
            let due = times::rfc3339(&end);
            let next_id = ledger.next_id;
            ledger.next_id = insert_new_credits(
                &mut ledger.credits,
                next_id,
                count - previous,
                stamp.as_str(),
                due.as_str(),
            );
        } else if count < previous {
            mark_removed_credits(&mut ledger.credits, previous - count, stamp.as_str());
            proof {
                removal_keeps_length(live, (previous - count) as nat, stamp@);
            }
        }
    }
    let ghost middle = ledger@;
    assert(middle.credits == credits_after(start, count as int, *observed_at));
    let value = decimal::integer_text(count);
    ledger.last_count = Some(LastCount { value, updated_at: stamp.clone() });
    let ghost observations = ledger.observations@;
    ledger.observations.push(Observation { observed_at: stamp, available_count: count });
    assert(ledger@.observations =~= start.observations.push((times::stamp(*observed_at), count as int)));
    proof {
        decimal::numerals_round_trip(count);
        credits_keep_their_ids(start, count as int, *observed_at);
    }
    let res = estimate(ledger, count, observed_at);
    proof {
        assert(as_of(live, stamp@) =~= live);
        if let Some(p) = start.previous() {
            if count <= p {
                let n = (p - count) as nat;
                let left = with_removed(live, n, stamp@);
                a_fall_takes_as_many(live, n, stamp@);
                removal_leaves_nothing_overdue(live, n, stamp@);
                assert(as_of(left, stamp@) =~= left);
            }
        }
        if start.growth(count as int) > 0 && observed_at.common() && due(*observed_at).common() {
            let n = start.growth(count as int) as nat;
            let new = arrived(n, start.next_id, stamp@, times::stamp(due(*observed_at)));
            assert(as_of(live, stamp@) =~= live);
            assert(as_of(new, stamp@) =~= new);
            assert(as_of(live + new, stamp@) =~= live + new);
            available_adds_up(live, new);
            all_arrived_are_available(n, start.next_id, stamp@, times::stamp(due(*observed_at)));
        }
    }
    res
}

// ---------------------------------------------------------------------------
// What holds of the ledger
// ---------------------------------------------------------------------------

proof fn earliest_is_available(credits: Seq<CreditView>)
    ensures
        earliest(credits) matches Some(i) ==> 0 <= i < credits.len() && credits[i].available(),
    decreases credits.len(),
{
    if credits.len() > 0 {
        earliest_is_available(credits.drop_last());
    }
}

/// The earliest credit is one of the available ones, and none of those expires
/// before it or, with an equal time, was seen before it. There is one exactly
/// when any credit is available.
pub proof fn earliest_is_least(credits: Seq<CreditView>)
    ensures
        match earliest(credits) {
            Some(i) => {
                &&& 0 <= i < credits.len()
                &&& credits[i].available()
                &&& forall|j: int|
                    0 <= j < credits.len() && #[trigger] credits[j].available() ==> !text::precedes(
                        credits[j].expires_at,
                        credits[i].expires_at,
                    ) && (credits[j].expires_at == credits[i].expires_at ==> i <= j)
            },
            None => forall|j: int|
                0 <= j < credits.len() ==> !(#[trigger] credits[j]).available(),
        },
    decreases credits.len(),
{
    if credits.len() > 0 {
        let front = credits.drop_last();
        earliest_is_least(front);
        let last = credits.last();
        match earliest(front) {
            Some(k) => {
                assert(front[k] == credits[k]);
                text::text_order_is_total(last.expires_at, credits[k].expires_at);
                if last.available() && text::precedes(last.expires_at, credits[k].expires_at) {
                    assert forall|j: int|
                        0 <= j < credits.len()
                            && #[trigger] credits[j].available() implies !text::precedes(
                        credits[j].expires_at,
                        last.expires_at,
                    ) && (credits[j].expires_at == last.expires_at ==> credits.len() - 1 <= j) by {
                        if j < credits.len() - 1 {
                            assert(front[j].available());
                            if text::precedes(credits[j].expires_at, last.expires_at) {
                                text::text_order_is_transitive(
                                    credits[j].expires_at,
                                    last.expires_at,
                                    credits[k].expires_at,
                                );
                            }
                        } else {
                            text::text_order_is_total(last.expires_at, last.expires_at);
                        }
                    }
                } else {
                    assert forall|j: int|
                        0 <= j < credits.len()
                            && #[trigger] credits[j].available() implies !text::precedes(
                        credits[j].expires_at,
                        credits[k].expires_at,
                    ) && (credits[j].expires_at == credits[k].expires_at ==> k <= j) by {
                        if j < credits.len() - 1 {
                            assert(front[j].available());
                        }
                    }
                }
            },
            None => {
                assert forall|j: int|
                    0 <= j < credits.len() - 1 implies !(#[trigger] credits[j]).available() by {
                    assert(!front[j].available());
                }
                text::text_order_is_total(last.expires_at, last.expires_at);
            },
        }
    }
}

proof fn removal_keeps_length(credits: Seq<CreditView>, n: nat, now: Seq<char>)
    ensures
        with_removed(credits, n, now).len() == credits.len(),
        forall|i: int|
            0 <= i < credits.len() ==> (#[trigger] with_removed(credits, n, now)[i]).id
                == credits[i].id && (!credits[i].available() ==> with_removed(credits, n, now)[i]
                == credits[i]),
    decreases n,
{
    if n > 0 {
        if let Some(i) = earliest(credits) {
            earliest_is_available(credits);
            let next = credits.update(i, credits[i].turned(CreditStatus::UsedOrRemoved, now));
            removal_keeps_length(next, (n - 1) as nat, now);
        }
    }
}

proof fn credits_keep_their_ids(ledger: LedgerView, remote: int, now: Moment)
    requires
        ledger.well_formed(),
        remote >= 0,
    ensures
        ({
            let after = credits_after(ledger, remote, now);
            &&& after.len() == ledger.credits.len() + ledger.growth(remote)
            &&& forall|i: int, j: int|
                0 <= i < j < after.len() ==> #[trigger] after[i].id < #[trigger] after[j].id
            &&& forall|i: int|
                0 <= i < after.len() ==> #[trigger] after[i].id < ledger.next_id + ledger.growth(
                    remote,
                )
        }),
{
    let live = as_of(ledger.credits, times::stamp(now));
    if let Some(p) = ledger.previous() {
        if remote < p {
            removal_keeps_length(live, (p - remote) as nat, times::stamp(now));
        }
    }
}

proof fn available_adds_up(a: Seq<CreditView>, b: Seq<CreditView>)
    ensures
        available_count(a + b) == available_count(a) + available_count(b),
    decreases b.len(),
{
    if b.len() == 0 {
        assert(a + b =~= a);
    } else {
        assert((a + b).drop_last() =~= a + b.drop_last());
        available_adds_up(a, b.drop_last());
    }
}

proof fn all_arrived_are_available(n: nat, next_id: int, now: Seq<char>, due: Seq<char>)
    ensures
        available_count(arrived(n, next_id, now, due)) == n,
    decreases n,
{
    if n > 0 {
        assert(arrived(n, next_id, now, due).drop_last() =~= arrived(
            (n - 1) as nat,
            next_id,
            now,
            due,
        ));
        all_arrived_are_available((n - 1) as nat, next_id, now, due);
    }
}

proof fn expiry_only_lowers(credits: Seq<CreditView>, now: Seq<char>)
    ensures
        available_count(as_of(credits, now)) <= available_count(credits),
    decreases credits.len(),
{
    if credits.len() > 0 {
        assert(as_of(credits, now).drop_last() =~= as_of(credits.drop_last(), now));
        expiry_only_lowers(credits.drop_last(), now);
    }
}

proof fn none_available(credits: Seq<CreditView>)
    requires
        forall|j: int| 0 <= j < credits.len() ==> !(#[trigger] credits[j]).available(),
    ensures
        available_count(credits) == 0,
    decreases credits.len(),
{
    if credits.len() > 0 {
        assert forall|j: int| 0 <= j < credits.len() - 1 implies !(
        #[trigger] credits.drop_last()[j]).available() by {
            assert(!credits[j].available());
        }
        none_available(credits.drop_last());
        assert(!credits[credits.len() - 1].available());
    }
}

proof fn one_less(credits: Seq<CreditView>, i: int, with: CreditView)
    requires
        0 <= i < credits.len(),
        credits[i].available(),
        !with.available(),
    ensures
        available_count(credits.update(i, with)) == available_count(credits) - 1,
    decreases credits.len(),
{
    if i == credits.len() - 1 {
        assert(credits.update(i, with).drop_last() =~= credits.drop_last());
    } else {
        assert(credits.update(i, with).drop_last() =~= credits.drop_last().update(i, with));
        one_less(credits.drop_last(), i, with);
    }
}

proof fn removal_leaves_nothing_overdue(credits: Seq<CreditView>, n: nat, now: Seq<char>)
    requires
        forall|i: int| 0 <= i < credits.len() ==> (#[trigger] credits[i]).as_of(now) == credits[i],
    ensures
        forall|i: int|
            0 <= i < with_removed(credits, n, now).len() ==> (#[trigger] with_removed(
                credits,
                n,
                now,
            )[i]).as_of(now) == with_removed(credits, n, now)[i],
    decreases n,
{
    if n > 0 {
        if let Some(i) = earliest(credits) {
            earliest_is_available(credits);
            let with = credits[i].turned(CreditStatus::UsedOrRemoved, now);
            removal_leaves_nothing_overdue(credits.update(i, with), (n - 1) as nat, now);
        }
    }
}

/// A fall of the count by `n` takes `n` of the available credits away, or all
/// of them where there are fewer.
pub proof fn a_fall_takes_as_many(credits: Seq<CreditView>, n: nat, now: Seq<char>)
    ensures
        available_count(with_removed(credits, n, now)) == counted(
            available_count(credits) - n,
        ),
    decreases n,
{
    earliest_is_least(credits);
    match earliest(credits) {
        None => {
            none_available(credits);
        },
        Some(i) => {
            if n > 0 {
                let with = credits[i].turned(CreditStatus::UsedOrRemoved, now);
                one_less(credits, i, with);
                a_fall_takes_as_many(credits.update(i, with), (n - 1) as nat, now);
            }
        },
    }
}

/// The expiry that an estimate tells next is that of an available credit, and
/// no available credit expires before it; there is none exactly where no credit
/// is available.
pub proof fn the_next_expiry_is_the_first(credits: Seq<CreditView>, remote: int)
    ensures
        match estimate_of(credits, remote).next_expires_at {
            None => forall|i: int| 0 <= i < credits.len() ==> !(#[trigger] credits[i]).available(),
            Some(end) => {
                &&& exists|i: int|
                    0 <= i < credits.len() && (#[trigger] credits[i]).available()
                        && credits[i].expires_at == end
                &&& forall|i: int|
                    0 <= i < credits.len() && (#[trigger] credits[i]).available()
                        ==> !text::precedes(credits[i].expires_at, end)
            },
        },
{
    earliest_is_least(credits);
}

/// An estimate counts the credits whose status is that of available ones, takes
/// a negative count for none, and calls the rest of the count unfollowed.
pub proof fn estimates_count_available_credits(credits: Seq<CreditView>, remote: int)
    ensures
        estimate_of(credits, remote).followed == credits.filter(
            |c: CreditView| c.status == CreditStatus::Available,
        ).len(),
        estimate_of(credits, remote).remote == if remote < 0 {
            0
        } else {
            remote
        },
        estimate_of(credits, remote).unfollowed >= 0,
        estimate_of(credits, remote).followed <= remote ==> estimate_of(credits, remote).followed
            + estimate_of(credits, remote).unfollowed == remote,
        estimate_of(credits, remote).followed >= remote ==> estimate_of(
            credits,
            remote,
        ).unfollowed == 0,
    decreases credits.len(),
{
    reveal(Seq::filter);
    if credits.len() > 0 {
        estimates_count_available_credits(credits.drop_last(), remote);
    }
}

/// A credit is turned to an expired one exactly where it is available and its
/// end does not lie after `now`; every other credit stays as it is.
pub proof fn only_overdue_credits_expire(credits: Seq<CreditView>, now: Seq<char>, i: int)
    requires
        0 <= i < credits.len(),
    ensures
        as_of(credits, now).len() == credits.len(),
        credits[i].status == CreditStatus::Available && !text::precedes(now, credits[i].expires_at)
            ==> as_of(credits, now)[i] == (CreditView {
            status: CreditStatus::Expired,
            updated_at: now,
            ..credits[i]
        }),
        credits[i].status != CreditStatus::Available || text::precedes(now, credits[i].expires_at)
            ==> as_of(credits, now)[i] == credits[i],
{
}

/// A rise of the count from `p` appends as many credits, which were first seen
/// now, expire thirty days later, have the next ids and are available until they
/// expire; it changes no credit that was there before.
pub proof fn a_rise_appends_credits(ledger: LedgerView, remote: i64, now: Moment, p: i64, k: int)
    requires
        ledger.well_formed(),
        ledger.previous() == Some(p),
        p < remote,
        now.common(),
        now.seconds + 30 * 86400 <= times::LAST_COMMON_SECOND,
        0 <= k < remote - p,
    ensures
        ({
            let before = as_of(ledger.credits, times::stamp(now));
            let after = reconciled(ledger, remote as int, now);
            &&& after.credits.len() == before.len() + (remote - p)
            &&& after.credits.take(before.len() as int) == before
            &&& after.credits[before.len() + k].id == ledger.next_id + k
            &&& after.credits[before.len() + k].first_seen_at == times::stamp(now)
            &&& after.credits[before.len() + k].updated_at == times::stamp(now)
            &&& after.credits[before.len() + k].expires_at == times::stamp(
                times::days_later(now, 30),
            )
            &&& (after.credits[before.len() + k].status == CreditStatus::Available)
                == text::precedes(times::stamp(now), times::stamp(times::days_later(now, 30)))
            &&& after.next_id == ledger.next_id + (remote - p)
        }),
{
    let stamp = times::stamp(now);
    let live = as_of(ledger.credits, stamp);
    assert(as_of(live, stamp) =~= live);
    let after = reconciled(ledger, remote as int, now);
    assert(after.credits.take(live.len() as int) =~= live);
}

/// A ledger remembers the last count and the time it was seen, and adds one
/// observation for each count.
pub proof fn counts_are_remembered(ledger: LedgerView, remote: i64, now: Moment)
    ensures
        reconciled(ledger, remote as int, now).previous() == Some(
            if remote < 0 {
                0i64
            } else {
                remote
            },
        ),
        reconciled(ledger, remote as int, now).observations.len() == ledger.observations.len() + 1,
        reconciled(ledger, remote as int, now).observations.last() == (
            times::stamp(now),
            if remote < 0 {
                0int
            } else {
                remote as int
            },
        ),
        reconciled(ledger, remote as int, now).observations.drop_last() =~= ledger.observations,
{
    decimal::numerals_round_trip(counted(remote as int) as i64);
}

proof fn removal_only_removes(credits: Seq<CreditView>, n: nat, now: Seq<char>, j: int)
    requires
        0 <= j < credits.len(),
        with_removed(credits, n, now)[j].available(),
    ensures
        with_removed(credits, n, now)[j] == credits[j],
    decreases n,
{
    if n > 0 {
        if let Some(k) = earliest(credits) {
            earliest_is_available(credits);
            let with = credits[k].turned(CreditStatus::UsedOrRemoved, now);
            removal_only_removes(credits.update(k, with), (n - 1) as nat, now, j);
        }
    }
}

/// Of the credits that a fall takes away, each expires before every one that
/// stays or, with an equal time, was seen before it.
pub proof fn a_fall_takes_the_earliest(
    credits: Seq<CreditView>,
    n: nat,
    now: Seq<char>,
    i: int,
    j: int,
)
    requires
        forall|a: int, b: int|
            0 <= a < b < credits.len() ==> #[trigger] credits[a].id < #[trigger] credits[b].id,
        0 <= i < credits.len(),
        0 <= j < credits.len(),
        credits[i].available(),
        !with_removed(credits, n, now)[i].available(),
        with_removed(credits, n, now)[j].available(),
    ensures
        text::precedes(credits[i].expires_at, credits[j].expires_at) || (credits[i].expires_at
            == credits[j].expires_at && credits[i].id < credits[j].id),
    decreases n,
{
    earliest_is_least(credits);
    removal_only_removes(credits, n, now, j);
    if n > 0 {
        if let Some(k) = earliest(credits) {
            let with = credits[k].turned(CreditStatus::UsedOrRemoved, now);
            let rest = credits.update(k, with);
            if i == k {
                text::text_order_is_total(credits[i].expires_at, credits[j].expires_at);
            } else {
                removal_only_removes(rest, (n - 1) as nat, now, j);
                assert forall|a: int, b: int| 0 <= a < b < rest.len() implies #[trigger] rest[a].id
                    < #[trigger] rest[b].id by {
                    assert(credits[a].id < credits[b].id);
                }
                a_fall_takes_the_earliest(rest, (n - 1) as nat, now, i, j);
            }
        }
    }
}

/// No more credits are available than were last counted, and none before the first count.
pub open spec fn covered(ledger: LedgerView) -> bool {
    available_count(ledger.credits) <= match ledger.previous() {
        Some(p) => p as int,
        None => 0,
    }
}

/// A new ledger is covered.
pub proof fn a_new_ledger_is_covered(ledger: LedgerView)
    requires
        ledger.credits.len() == 0,
        ledger.last_count is None,
    ensures
        covered(ledger),
{
}

/// Every count that a covered ledger takes note of leaves it covered, so the
/// credits that are followed and those that are not make up the count.
pub proof fn counts_keep_the_ledger_covered(ledger: LedgerView, remote: i64, now: Moment)
    requires
        ledger.well_formed(),
        covered(ledger),
    ensures
        covered(reconciled(ledger, remote as int, now)),
        ({
            let after = reconciled(ledger, remote as int, now);
            let estimate = estimate_of(after.credits, counted(remote as int));
            estimate.followed + estimate.unfollowed == estimate.remote
        }),
{
    let stamp = times::stamp(now);
    let count = counted(remote as int);
    let live = as_of(ledger.credits, stamp);
    expiry_only_lowers(ledger.credits, stamp);
    let after = credits_after(ledger, count, now);
    expiry_only_lowers(after, stamp);
    decimal::numerals_round_trip(count as i64);
    if let Some(p) = ledger.previous() {
        if count > p {
            let n = (count - p) as nat;
            available_adds_up(live, arrived(n, ledger.next_id, stamp, times::stamp(due(now))));
            all_arrived_are_available(n, ledger.next_id, stamp, times::stamp(due(now)));
        } else if count < p {
            a_fall_takes_as_many(live, (p - count) as nat, stamp);
        }
    }
}

/// The first count adds no credit to the ledger: it is only a baseline.
pub proof fn the_first_count_is_a_baseline(ledger: LedgerView, remote: i64, now: Moment)
    requires
        ledger.previous() is None,
    ensures
        reconciled(ledger, remote as int, now).credits == as_of(
            ledger.credits,
            times::stamp(now),
        ),
{
    let live = as_of(ledger.credits, times::stamp(now));
    assert(as_of(live, times::stamp(now)) =~= live);
}

/// A credit that expired, was used or was removed never changes again.
pub proof fn settled_credits_stay(ledger: LedgerView, remote: i64, now: Moment, i: int)
    requires
        0 <= i < ledger.credits.len(),
        !ledger.credits[i].available(),
    ensures
        i < reconciled(ledger, remote as int, now).credits.len(),
        reconciled(ledger, remote as int, now).credits[i] == ledger.credits[i],
{
    let stamp = times::stamp(now);
    let live = as_of(ledger.credits, stamp);
    assert(live[i] == ledger.credits[i]);
    if let Some(p) = ledger.previous() {
        if counted(remote as int) < p {
            removal_keeps_length(live, (p - counted(remote as int)) as nat, stamp);
        }
    }
}

/// To see the same count again at the same time changes no credit.
pub proof fn a_repeated_count_changes_no_credit(ledger: LedgerView, remote: i64, now: Moment)
    ensures
        reconciled(reconciled(ledger, remote as int, now), remote as int, now).credits
            == reconciled(ledger, remote as int, now).credits,
{
    let stamp = times::stamp(now);
    let once = reconciled(ledger, remote as int, now);
    decimal::numerals_round_trip(counted(remote as int) as i64);
    assert(as_of(once.credits, stamp) =~= once.credits);
    assert(as_of(as_of(once.credits, stamp), stamp) =~= once.credits);
}

/// No credit that is overdue counts as available after the ledger was brought up to `now`.
pub proof fn no_available_credit_is_overdue(credits: Seq<CreditView>, now: Seq<char>, i: int)
    requires
        0 <= i < credits.len(),
        as_of(credits, now)[i].available(),
    ensures
        text::precedes(now, as_of(credits, now)[i].expires_at),
{
}

proof fn removal_marks_or_keeps(credits: Seq<CreditView>, n: nat, now: Seq<char>, i: int)
    requires
        0 <= i < credits.len(),
    ensures
        with_removed(credits, n, now).len() == credits.len(),
        with_removed(credits, n, now)[i] == credits[i] || (credits[i].status
            == CreditStatus::Available && with_removed(credits, n, now)[i] == (CreditView {
            status: CreditStatus::UsedOrRemoved,
            updated_at: now,
            ..credits[i]
        })),
    decreases n,
{
    if n > 0 {
        earliest_is_least(credits);
        if let Some(k) = earliest(credits) {
            let next = credits.update(k, credits[k].turned(CreditStatus::UsedOrRemoved, now));
            removal_marks_or_keeps(next, (n - 1) as nat, now, i);
        }
    }
}

/// A fall of the count from `p` marks credits as used or removed, now, and as
/// many as the count fell by, as far as there are available ones; it removes no
/// credit from the ledger, adds none and changes nothing else of them.
pub proof fn a_fall_marks_credits_as_used(
    ledger: LedgerView,
    remote: i64,
    now: Moment,
    p: i64,
    i: int,
)
    requires
        ledger.previous() == Some(p),
        0 <= remote < p,
        0 <= i < ledger.credits.len(),
    ensures
        ({
            let live = as_of(ledger.credits, times::stamp(now));
            let after = reconciled(ledger, remote as int, now).credits;
            &&& after.len() == ledger.credits.len()
            &&& after[i] == live[i] || (live[i].status == CreditStatus::Available && after[i] == (
            CreditView {
                status: CreditStatus::UsedOrRemoved,
                updated_at: times::stamp(now),
                ..live[i]
            }))
            &&& available_count(after) == if available_count(live) < p - remote {
                0
            } else {
                available_count(live) - (p - remote)
            }
            &&& reconciled(ledger, remote as int, now).next_id == ledger.next_id
        }),
{
    let stamp = times::stamp(now);
    let live = as_of(ledger.credits, stamp);
    let n = (p - remote) as nat;
    let fallen = with_removed(live, n, stamp);
    removal_marks_or_keeps(live, n, stamp, i);
    a_fall_takes_as_many(live, n, stamp);
    assert forall|k: int| 0 <= k < fallen.len() implies fallen[k].as_of(stamp) == fallen[k] by {
        removal_marks_or_keeps(live, n, stamp, k);
    }
    assert(as_of(fallen, stamp) =~= fallen);
}

} // verus!
