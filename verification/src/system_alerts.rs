//! Alerts: short notes to the player that fade after a moment.

use std::collections::VecDeque;
use vstd::prelude::*;
use vstd::string::*;

verus! {

/// How long an alert stays, in milliseconds.
pub const ALERT_TIME_MS: u64 = 1000;

/// How many alerts are kept at most.
pub const MAX_DISPLAYED_ALERTS: usize = 8;

/// An alert as contracts see it: its text and the milliseconds it has left.
pub struct AlertView {
    pub text: Seq<char>,
    pub left: u64,
}

/// An alert: its text and the milliseconds it has left.
pub struct Alert {
    pub text: String,
    pub left: u64,
}

/// The alerts that are on show, oldest first.
pub struct SystemAlerts(VecDeque<Alert>);

impl View for SystemAlerts {
    type V = Seq<AlertView>;

    closed spec fn view(&self) -> Seq<AlertView> {
        self.0@.map_values(|p: Alert| AlertView { text: p.text@, left: p.left })
    }
}

/// The alerts with one more at the end; beyond the limit the oldest goes.
pub open spec fn with_alert(alerts: Seq<AlertView>, text: Seq<char>) -> Seq<AlertView> {
    let longer = alerts.push(AlertView { text, left: ALERT_TIME_MS });
    if longer.len() > MAX_DISPLAYED_ALERTS {
        longer.subrange(1, longer.len() as int)
    } else {
        longer
    }
}

/// The first `n` alerts after `delta` milliseconds: each has that much less
/// time left, and those whose time is up are gone.
pub open spec fn aged(alerts: Seq<AlertView>, delta: u64, n: nat) -> Seq<AlertView>
    decreases n,
{
    if n == 0 {
        seq![]
    } else {
        let a = alerts[n - 1];
        if a.left > delta {
            aged(alerts, delta, (n - 1) as nat).push(
                AlertView { text: a.text, left: (a.left - delta) as u64 },
            )
        } else {
            aged(alerts, delta, (n - 1) as nat)
        }
    }
}

impl SystemAlerts {
    /// No alerts.
    pub fn new() -> (a: Self)
        ensures
            a@ == Seq::<AlertView>::empty(),
    {
        let a = SystemAlerts(VecDeque::new());
        assert(a@ =~= Seq::<AlertView>::empty());
        a
    }

    /// The number of alerts on show.
    pub fn len(&self) -> (n: usize)
        ensures
            n == self@.len(),
    {
        self.0.len()
    }

    /// The text of the alert at `index`, and the milliseconds it has left.
    pub fn get(&self, index: usize) -> (r: Option<Alert>)
        ensures
            index < self@.len() ==> r is Some && r.unwrap().text@ == self@[index as int].text
                && r.unwrap().left == self@[index as int].left,
            index >= self@.len() ==> r is None,
    {
        if index < self.0.len() {
            let entry = &self.0[index];
            Some(Alert { text: entry.text.clone(), left: entry.left })
        } else {
            None
        }
    }

    /// Lets `delta` milliseconds pass: each alert has that much less time
    /// left, and those whose time is up are dropped.
    pub fn age(&mut self, delta: u64)
        ensures
            final(self)@ == aged(old(self)@, delta, old(self)@.len()),
    {
        let count = self.0.len();
        let ghost start = self@;
        let mut i: usize = 0;
        while i < count
            invariant
                i <= count,
                count == start.len(),
                start == old(self)@,
                self@.len() >= count - i,
                self@ == start.subrange(i as int, count as int) + aged(start, delta, i as nat),
            decreases count - i,
        {
            let ghost before = self@;
            match self.0.pop_front() {
                Some(entry) => {
                    assert(entry.text@ == start[i as int].text && entry.left == start[i as int].left)
                        by {
                        assert(before[0] == start[i as int]);
                    }
                    assert(self@ =~= before.subrange(1, before.len() as int));
                    let ghost rest = self@;
                    assert(rest =~= start.subrange(i + 1, count as int) + aged(
                        start,
                        delta,
                        i as nat,
                    ));
                    if entry.left > delta {
                        self.0.push_back(Alert { text: entry.text, left: entry.left - delta });
                        assert(self@ =~= rest.push(
                            AlertView {
                                text: start[i as int].text,
                                left: (start[i as int].left - delta) as u64,
                            },
                        ));
                    }
                    assert(self@ =~= start.subrange(i + 1, count as int) + aged(
                        start,
                        delta,
                        (i + 1) as nat,
                    ));
                },
                None => {},
            }
            i += 1;
        }
        assert(self@ =~= aged(start, delta, count as nat));
    }
}

/// Puts an alert with the text `message` on show. Beyond the limit the
/// oldest alert goes.
pub fn create_system_alert_message(alerts: &mut SystemAlerts, message: &str)
    ensures
        final(alerts)@ == with_alert(old(alerts)@, message@),
{
    alerts.0.push_back(Alert { text: String::from_str(message), left: ALERT_TIME_MS });
    assert(alerts@ =~= old(alerts)@.push(AlertView { text: message@, left: ALERT_TIME_MS }));
    if alerts.0.len() > MAX_DISPLAYED_ALERTS {
        let ghost longer = alerts@;
        let _ = alerts.0.pop_front();
        assert(alerts@ =~= longer.subrange(1, longer.len() as int));
    }
}

} // verus!
