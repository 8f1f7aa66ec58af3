//! The alert lifecycle: decoded alert data, the active-alert set with its
//! deduplication and expiry rules, FIPS relevance, and the status signal
//! derived from the set.
//!
//! The set's identity key is the exact raw SAME header string.  Time is a
//! Unix timestamp in whole seconds; every mutating operation either takes
//! the observation time as an argument or obtains it from the wall clock
//! and states what holds for whatever time it read.

use crate::util::str_eq;
use vstd::prelude::*;
use vstd::seq_lib::group_seq_properties;

verus! {

broadcast use group_seq_properties;

/// Decoded semantic view of a SAME header.  Immutable after construction.
#[derive(Clone, Debug)]
pub struct EasAlertData {
    pub event_text: String,
    pub event_code: String,
    pub originator: String,
    pub fips: Vec<String>,
    pub locations: String,
    pub eas_text: String,
}

/// An alert held in the active set: the decoded data, the raw header that
/// identifies it, and its reception and expiry times in Unix seconds.
#[derive(Clone, Debug)]
pub struct ActiveAlert {
    pub data: EasAlertData,
    pub raw_header: String,
    pub received_at: u64,
    pub expires_at: u64,
}

/// Addition on timestamps that pins the result to the far future instead
/// of wrapping.
pub open spec fn sat_add(a: u64, b: u64) -> u64 {
    if a + b > u64::MAX {
        u64::MAX
    } else {
        (a + b) as u64
    }
}

impl ActiveAlert {
    /// Builds an alert received at `received_at` that expires after the
    /// header's purge duration.
    pub fn new(data: EasAlertData, raw_header: String, received_at: u64, purge_secs: u64) -> (r:
        ActiveAlert)
        ensures
            r.data == data,
            r.raw_header == raw_header,
            r.received_at == received_at,
            r.expires_at == sat_add(received_at, purge_secs),
    {
        let expires_at: u64 = if purge_secs > u64::MAX - received_at {
            u64::MAX
        } else {
            received_at + purge_secs
        };
        ActiveAlert { data, raw_header, received_at, expires_at }
    }
}

/// No two alerts of the sequence carry the same raw header.
pub open spec fn distinct_headers(s: Seq<ActiveAlert>) -> bool {
    forall|i: int, j: int|
        0 <= i < j < s.len() ==> #[trigger] s[i].raw_header@ != #[trigger] s[j].raw_header@
}

/// Keeps an alert that is not yet expired at `now`.
pub open spec fn live_pred(now: u64) -> spec_fn(ActiveAlert) -> bool {
    |a: ActiveAlert| a.expires_at > now
}

/// Keeps an alert that is not yet expired at `now` and does not carry the
/// header `h`.
pub open spec fn keep_pred(now: u64, h: Seq<char>) -> spec_fn(ActiveAlert) -> bool {
    |a: ActiveAlert| a.expires_at > now && a.raw_header@ != h
}

/// The ordered set of currently-valid alerts, keyed by raw header.
#[derive(Debug)]
pub struct AlertSet {
    alerts: Vec<ActiveAlert>,
}

impl View for AlertSet {
    type V = Seq<ActiveAlert>;

    closed spec fn view(&self) -> Seq<ActiveAlert> {
        self.alerts@
    }
}

impl AlertSet {
    /// At most one alert per raw header.
    pub open spec fn wf(&self) -> bool {
        distinct_headers(self@)
    }

    pub fn new() -> (r: AlertSet)
        ensures
            r@ == Seq::<ActiveAlert>::empty(),
            r.wf(),
    {
        AlertSet { alerts: Vec::new() }
    }

    pub fn len(&self) -> (n: usize)
        ensures
            n == self@.len(),
    {
        self.alerts.len()
    }

    /// Read access to the stored alerts, in insertion order.
    pub fn alerts(&self) -> (r: &Vec<ActiveAlert>)
        ensures
            r@ == self@,
    {
        &self.alerts
    }

    /// Inserts or refreshes an alert observed at `now`: any stored alert
    /// that has expired or that carries the same raw header is dropped,
    /// then the new alert is appended.
    pub fn insert(&mut self, alert: ActiveAlert, now: u64)
        requires
            old(self).wf(),
        ensures
            final(self)@ == old(self)@.filter(keep_pred(now, alert.raw_header@)).push(alert),
            final(self).wf(),
    {
        let ghost orig = self.alerts@;
        let ghost pred = keep_pred(now, alert.raw_header@);
        let mut kept: Vec<ActiveAlert> = Vec::new();
        proof {
            reveal(Seq::filter);
        }
        while self.alerts.len() > 0
            invariant
                self.alerts@.len() <= orig.len(),
                self.alerts@ =~= orig.skip(orig.len() - self.alerts@.len()),
                kept@ =~= orig.take(orig.len() - self.alerts@.len()).filter(pred),
                pred == keep_pred(now, alert.raw_header@),
            decreases self.alerts@.len(),
        {
            let ghost i = orig.len() - self.alerts@.len();
            let a = self.alerts.remove(0);
            proof {
                reveal(Seq::filter);
                assert(a == orig[i]);
                assert(self.alerts@ =~= orig.skip(i + 1));
                let t1 = orig.take(i + 1);
                assert(t1.drop_last() =~= orig.take(i));
                assert(t1.last() == orig[i]);
            }
            if a.expires_at > now && !str_eq(a.raw_header.as_str(), alert.raw_header.as_str()) {
                kept.push(a);
            }
            proof {
                reveal(Seq::filter);
                assert(kept@ =~= orig.take(i + 1).filter(pred));
            }
        }
        proof {
            assert(orig.take(orig.len() as int) =~= orig);
        }
        kept.push(alert);
        self.alerts = kept;
        proof {
            lemma_filter_keeps_distinct_headers(orig, pred);
            broadcast use Seq::lemma_filter_pred;

            assert forall|i: int, j: int| 0 <= i < j < self@.len() implies
                #[trigger] self@[i].raw_header@ != #[trigger] self@[j].raw_header@ by {
                if j < self@.len() - 1 {
                    assert(orig.filter(pred)[i] == self@[i]);
                    assert(orig.filter(pred)[j] == self@[j]);
                } else {
                    assert(pred(orig.filter(pred)[i]));
                }
            }
        }
    }

    /// Drops every alert whose expiry time has been reached.
    pub fn cleanup(&mut self, now: u64) -> (removed: usize)
        requires
            old(self).wf(),
        ensures
            final(self)@ == old(self)@.filter(live_pred(now)),
            removed + final(self)@.len() == old(self)@.len(),
            forall|i: int| 0 <= i < final(self)@.len() ==> #[trigger] final(self)@[i].expires_at
                > now,
            final(self).wf(),
    {
        let ghost orig = self.alerts@;
        let ghost pred = live_pred(now);
        let initial = self.alerts.len();
        let mut kept: Vec<ActiveAlert> = Vec::new();
        while self.alerts.len() > 0
            invariant
                self.alerts@.len() <= orig.len(),
                self.alerts@ =~= orig.skip(orig.len() - self.alerts@.len()),
                kept@ =~= orig.take(orig.len() - self.alerts@.len()).filter(pred),
                pred == live_pred(now),
            decreases self.alerts@.len(),
        {
            let ghost i = orig.len() - self.alerts@.len();
            let a = self.alerts.remove(0);
            proof {
                reveal(Seq::filter);
                assert(a == orig[i]);
                assert(self.alerts@ =~= orig.skip(i + 1));
                let t1 = orig.take(i + 1);
                assert(t1.drop_last() =~= orig.take(i));
                assert(t1.last() == orig[i]);
            }
            if a.expires_at > now {
                kept.push(a);
            }
            proof {
                reveal(Seq::filter);
                assert(kept@ =~= orig.take(i + 1).filter(pred));
            }
        }
        proof {
            assert(orig.take(orig.len() as int) =~= orig);
            orig.lemma_filter_len(pred);
            lemma_filter_keeps_distinct_headers(orig, pred);
            broadcast use Seq::lemma_filter_pred;

        }
        let remaining = kept.len();
        self.alerts = kept;
        initial - remaining
    }
}

/// The universal FIPS code that makes an alert relevant everywhere.
pub open spec fn universal_fips() -> Seq<char> {
    "000000"@
}

/// An alert is relevant when no FIPS codes are watched, when it carries
/// the universal code, or when one of its codes is watched.
pub open spec fn spec_relevant(fips: Seq<Seq<char>>, watched: Seq<Seq<char>>) -> bool {
    ||| watched.len() == 0
    ||| fips.contains(universal_fips())
    ||| exists|i: int, j: int|
        0 <= i < fips.len() && 0 <= j < watched.len() && #[trigger] fips[i] == #[trigger] watched[j]
}

/// Whether one of the alert's location codes makes it relevant for the
/// watched set.
pub fn is_alert_relevant(alert_data: &EasAlertData, watched_fips: &Vec<String>) -> (r: bool)
    ensures
        r == spec_relevant(alert_data.fips.deep_view(), watched_fips.deep_view()),
{
    let ghost fips = alert_data.fips.deep_view();
    let ghost watched = watched_fips.deep_view();
    if watched_fips.len() == 0 {
        return true;
    }
    let n = alert_data.fips.len();
    let mut i: usize = 0;
    while i < n
        invariant
            n == fips.len(),
            fips == alert_data.fips.deep_view(),
            watched == watched_fips.deep_view(),
            i <= n,
            forall|k: int| 0 <= k < i ==> #[trigger] fips[k] != universal_fips(),
            forall|k: int, j: int|
                0 <= k < i && 0 <= j < watched.len() ==> #[trigger] fips[k] != #[trigger] watched[j],
        decreases n - i,
    {
        let code = &alert_data.fips[i];
        proof {
            assert(fips[i as int] == alert_data.fips@[i as int]@);
        }
        if str_eq(code.as_str(), "000000") {
            proof {
                assert(fips.contains(universal_fips()));
            }
            return true;
        }
        let m = watched_fips.len();
        let mut j: usize = 0;
        while j < m
            invariant
                m == watched.len(),
                n == fips.len(),
                i < n,
                fips == alert_data.fips.deep_view(),
                watched == watched_fips.deep_view(),
                j <= m,
                fips[i as int] == alert_data.fips@[i as int]@,
                code@ == fips[i as int],
                forall|k: int| 0 <= k < j ==> fips[i as int] != #[trigger] watched[k],
            decreases m - j,
        {
            proof {
                assert(watched[j as int] == watched_fips@[j as int]@);
            }
            let hit = str_eq(code.as_str(), watched_fips[j].as_str());
            proof {
                assert(hit == (fips[i as int] == watched[j as int]));
            }
            if hit {
                proof {
                    assert(spec_relevant(fips, watched));
                }
                return true;
            }
            j = j + 1;
        }
        i = i + 1;
    }
    proof {
        if fips.contains(universal_fips()) {
            let k = choose|k: int| 0 <= k < fips.len() && fips[k] == universal_fips();
            assert(fips[k] != universal_fips());
        }
    }
    false
}

/// The on-disk status expressed for an active set: a severe day, a rainy
/// day, or neither.  Exactly one signal is expressed at a time.
#[derive(Clone, Copy, Debug, PartialEq, Eq, Structural)]
pub enum StatusSignal {
    Severe,
    Rainy,
    Neither,
}

/// Event codes that raise the severe signal.
pub open spec fn is_severe_code(c: Seq<char>) -> bool {
    c == "SVR"@ || c == "TOR"@ || c == "TOA"@
}

/// The active set holds a severe warning or watch.
pub open spec fn has_severe(s: Seq<ActiveAlert>) -> bool {
    exists|i: int| 0 <= i < s.len() && is_severe_code(#[trigger] s[i].data.event_code@)
}

/// The active set holds a severe-thunderstorm watch.
pub open spec fn has_moderate(s: Seq<ActiveAlert>) -> bool {
    exists|i: int| 0 <= i < s.len() && #[trigger] s[i].data.event_code@ == "SVA"@
}

/// The signal the status files must express for a given active set.
pub open spec fn spec_status(s: Seq<ActiveAlert>) -> StatusSignal {
    if has_severe(s) {
        StatusSignal::Severe
    } else if has_moderate(s) {
        StatusSignal::Rainy
    } else {
        StatusSignal::Neither
    }
}

impl AlertSet {
    /// Derives the status signal from the stored alerts.
    pub fn derive_status(&self) -> (st: StatusSignal)
        ensures
            st == spec_status(self@),
    {
        let n = self.alerts.len();
        let mut severe = false;
        let mut moderate = false;
        let mut i: usize = 0;
        while i < n
            invariant
                n == self@.len(),
                self@ == self.alerts@,
                i <= n,
                severe == has_severe(self@.take(i as int)),
                moderate == has_moderate(self@.take(i as int)),
            decreases n - i,
        {
            let code = self.alerts[i].data.event_code.as_str();
            let hit_severe = str_eq(code, "SVR") || str_eq(code, "TOR") || str_eq(code, "TOA");
            let hit_moderate = str_eq(code, "SVA");
            proof {
                let t0 = self@.take(i as int);
                let t1 = self@.take(i + 1);
                assert(t1[i as int] == self@[i as int]);
                assert forall|k: int| 0 <= k < t0.len() implies t1[k] == t0[k] by {}
                if has_severe(t0) {
                    let k = choose|k: int|
                        0 <= k < t0.len() && is_severe_code(t0[k].data.event_code@);
                    assert(is_severe_code(t1[k].data.event_code@));
                }
                if has_moderate(t0) {
                    let k = choose|k: int| 0 <= k < t0.len() && t0[k].data.event_code@ == "SVA"@;
                    assert(t1[k].data.event_code@ == "SVA"@);
                }
                if !has_severe(t0) && !hit_severe && has_severe(t1) {
                    let k = choose|k: int|
                        0 <= k < t1.len() && is_severe_code(t1[k].data.event_code@);
                    if k < i {
                        assert(is_severe_code(t0[k].data.event_code@));
                    }
                }
                if !has_moderate(t0) && !hit_moderate && has_moderate(t1) {
                    let k = choose|k: int| 0 <= k < t1.len() && t1[k].data.event_code@ == "SVA"@;
                    if k < i {
                        assert(t0[k].data.event_code@ == "SVA"@);
                    }
                }
            }
            severe = severe || hit_severe;
            moderate = moderate || hit_moderate;
            i = i + 1;
        }
        proof {
            assert(self@.take(n as int) =~= self@);
        }
        if severe {
            StatusSignal::Severe
        } else if moderate {
            StatusSignal::Rainy
        } else {
            StatusSignal::Neither
        }
    }
}

/// A filter whose predicate holds everywhere keeps the whole sequence.
pub proof fn lemma_filter_all_true<A>(s: Seq<A>, pred: spec_fn(A) -> bool)
    requires
        forall|i: int| 0 <= i < s.len() ==> pred(#[trigger] s[i]),
    ensures
        s.filter(pred) == s,
    decreases s.len(),
{
    reveal(Seq::filter);
    if s.len() == 0 {
        assert(s.filter(pred) =~= s);
    } else {
        let front = s.drop_last();
        lemma_filter_all_true(front, pred);
        assert(s.filter(pred) =~= s);
    }
}

/// A filter whose predicate fails at exactly one position drops exactly
/// one element.
pub proof fn lemma_filter_except_one<A>(s: Seq<A>, pred: spec_fn(A) -> bool, k: int)
    requires
        0 <= k < s.len(),
        !pred(s[k]),
        forall|i: int| 0 <= i < s.len() && i != k ==> pred(#[trigger] s[i]),
    ensures
        s.filter(pred).len() == s.len() - 1,
    decreases s.len(),
{
    reveal(Seq::filter);
    let front = s.drop_last();
    if k == s.len() - 1 {
        lemma_filter_all_true(front, pred);
    } else {
        lemma_filter_except_one(front, pred, k);
    }
}

/// No alert lingers a full janitor period past its expiry: if every
/// stored alert was unexpired at the last tick and at most 60 seconds
/// have passed since, none has been expired for 60 seconds or more.
pub proof fn lemma_no_stale_alerts(s: Seq<ActiveAlert>, last_tick: u64, t: u64)
    requires
        forall|i: int| 0 <= i < s.len() ==> #[trigger] s[i].expires_at > last_tick,
        t <= last_tick + 60,
    ensures
        forall|i: int| 0 <= i < s.len() ==> !(#[trigger] s[i].expires_at <= t - 60),
{
}

/// The active set holds at most one alert per raw header.
pub proof fn lemma_at_most_one_per_header(s: Seq<ActiveAlert>)
    requires
        distinct_headers(s),
    ensures
        forall|i: int, j: int|
            0 <= i < s.len() && 0 <= j < s.len() && #[trigger] s[i].raw_header@
                == #[trigger] s[j].raw_header@ ==> i == j,
{
}

/// While nothing has expired, inserting an unseen header grows the
/// active set by exactly one: with distinct headers and unexpired
/// entries the set's size is monotonic until the earliest expiry.
pub proof fn lemma_insert_grows(s: Seq<ActiveAlert>, alert: ActiveAlert, now: u64)
    requires
        forall|i: int| 0 <= i < s.len() ==> #[trigger] s[i].expires_at > now,
        forall|i: int| 0 <= i < s.len() ==> #[trigger] s[i].raw_header@ != alert.raw_header@,
    ensures
        s.filter(keep_pred(now, alert.raw_header@)).push(alert).len() == s.len() + 1,
{
    lemma_filter_all_true(s, keep_pred(now, alert.raw_header@));
}

/// Re-receiving a header that is already active replaces its entry
/// instead of duplicating it: the set keeps its size, and the refreshed
/// entry is the only one that carries the header.
pub proof fn lemma_refresh_replaces(s: Seq<ActiveAlert>, alert: ActiveAlert, now: u64, k: int)
    requires
        distinct_headers(s),
        0 <= k < s.len(),
        s[k].raw_header@ == alert.raw_header@,
        forall|i: int| 0 <= i < s.len() ==> #[trigger] s[i].expires_at > now,
    ensures
        s.filter(keep_pred(now, alert.raw_header@)).push(alert).len() == s.len(),
        forall|i: int|
            0 <= i < s.filter(keep_pred(now, alert.raw_header@)).len()
                ==> #[trigger] s.filter(keep_pred(now, alert.raw_header@))[i].raw_header@
                != alert.raw_header@,
{
    let pred = keep_pred(now, alert.raw_header@);
    assert forall|i: int| 0 <= i < s.len() && i != k implies pred(#[trigger] s[i]) by {
        if i < k {
            assert(s[i].raw_header@ != s[k].raw_header@);
        } else {
            assert(s[k].raw_header@ != s[i].raw_header@);
        }
    }
    lemma_filter_except_one(s, pred, k);
    broadcast use Seq::lemma_filter_pred;

}

/// Exactly one status signal is expressed at a time, and a severe
/// warning or watch dominates a moderate watch.
pub proof fn lemma_status_priority(s: Seq<ActiveAlert>)
    ensures
        has_severe(s) ==> spec_status(s) == StatusSignal::Severe,
        !has_severe(s) && has_moderate(s) ==> spec_status(s) == StatusSignal::Rainy,
        !has_severe(s) && !has_moderate(s) ==> spec_status(s) == StatusSignal::Neither,
{
}

/// For a non-empty watched set, an alert is relevant exactly when it
/// carries the universal code or shares a code with the watched set.
pub proof fn lemma_fips_relevance(fips: Seq<Seq<char>>, watched: Seq<Seq<char>>)
    requires
        watched.len() > 0,
    ensures
        spec_relevant(fips, watched) <==> (fips.contains(universal_fips()) || exists|i: int, j: int|
            0 <= i < fips.len() && 0 <= j < watched.len() && #[trigger] fips[i]
                == #[trigger] watched[j]),
{
}

/// Relies on chrono::Utc::now for the wall-clock time, reported as a
/// Unix timestamp in whole seconds.
#[verifier::external_body]
fn now_unix_seconds() -> i64 {
    chrono::Utc::now().timestamp()
}

impl AlertSet {
    /// Inserts or refreshes an alert received at the current wall-clock
    /// time, expiring after `purge_secs`.  Whatever time the clock
    /// reports, the set is rewritten by the insertion rule for that time.
    pub fn insert_now(&mut self, data: EasAlertData, raw_header: String, purge_secs: u64)
        requires
            old(self).wf(),
        ensures
            final(self).wf(),
            exists|now: u64|
                final(self)@ == old(self)@.filter(#[trigger] keep_pred(now, raw_header@)).push(
                    ActiveAlert {
                        data: data,
                        raw_header: raw_header,
                        received_at: now,
                        expires_at: sat_add(now, purge_secs),
                    },
                ),
    {
        let t = now_unix_seconds();
        let now: u64 = if t < 0 {
            0
        } else {
            t as u64
        };
        let ghost data_in = data;
        let ghost header_in = raw_header;
        let alert = ActiveAlert::new(data, raw_header, now, purge_secs);
        self.insert(alert, now);
        proof {
            assert(self@ == old(self)@.filter(keep_pred(now, header_in@)).push(
                ActiveAlert {
                    data: data_in,
                    raw_header: header_in,
                    received_at: now,
                    expires_at: sat_add(now, purge_secs),
                },
            ));
        }
    }

    /// Drops the alerts that have expired by the current wall-clock
    /// time.  Whatever time the clock reports, exactly the entries
    /// unexpired at that time remain.
    pub fn purge_expired_now(&mut self) -> (removed: usize)
        requires
            old(self).wf(),
        ensures
            final(self).wf(),
            removed + final(self)@.len() == old(self)@.len(),
            exists|now: u64| final(self)@ == old(self)@.filter(#[trigger] live_pred(now)),
    {
        let t = now_unix_seconds();
        let now: u64 = if t < 0 {
            0
        } else {
            t as u64
        };
        self.cleanup(now)
    }
}

/// Every element of a filtered sequence occurs in the sequence it was
/// filtered from.
pub proof fn lemma_filter_elems<A>(s: Seq<A>, pred: spec_fn(A) -> bool)
    ensures
        forall|i: int| 0 <= i < s.filter(pred).len() ==> s.contains(#[trigger] s.filter(pred)[i]),
    decreases s.len(),
{
    reveal(Seq::filter);
    if s.len() > 0 {
        let front = s.drop_last();
        lemma_filter_elems(front, pred);
        assert forall|i: int| 0 <= i < s.filter(pred).len() implies s.contains(
            #[trigger] s.filter(pred)[i],
        ) by {
            if i < front.filter(pred).len() {
                assert(s.filter(pred)[i] == front.filter(pred)[i]);
                let k = choose|k: int| 0 <= k < front.len() && front[k] == front.filter(pred)[i];
                assert(s[k] == front.filter(pred)[i]);
            } else {
                assert(s.filter(pred)[i] == s.last());
                assert(s[s.len() - 1] == s.last());
            }
        }
    }
}

/// Filtering preserves the one-alert-per-header invariant.
pub proof fn lemma_filter_keeps_distinct_headers(
    s: Seq<ActiveAlert>,
    pred: spec_fn(ActiveAlert) -> bool,
)
    requires
        distinct_headers(s),
    ensures
        distinct_headers(s.filter(pred)),
    decreases s.len(),
{
    reveal(Seq::filter);
    if s.len() > 0 {
        let front = s.drop_last();
        lemma_filter_keeps_distinct_headers(front, pred);
        lemma_filter_elems(front, pred);
        let f = s.filter(pred);
        assert forall|i: int, j: int| 0 <= i < j < f.len() implies #[trigger] f[i].raw_header@
            != #[trigger] f[j].raw_header@ by {
            if j < front.filter(pred).len() {
                assert(f[i] == front.filter(pred)[i]);
                assert(f[j] == front.filter(pred)[j]);
            } else {
                assert(f[j] == s.last());
                assert(f[i] == front.filter(pred)[i]);
                let k = choose|k: int|
                    0 <= k < front.len() && front[k] == front.filter(pred)[i];
                assert(s[k] == f[i]);
            }
        }
    }
}

} // verus!
