use vstd::prelude::*;

verus! {

/// A transient on-screen message: it counts down one tick per update and
/// deactivates once its remaining time is exhausted.
pub struct Popup {
    pub message: String,
    pub remaining: u32,
    pub active: bool,
}

impl Popup {
    /// The value `update` leaves behind: one tick elapses, and the popup
    /// deactivates when no time remains.
    pub open spec fn spec_updated(self) -> Popup {
        Popup {
            message: self.message,
            remaining: if self.remaining > 0 { (self.remaining - 1) as u32 } else { 0 },
            active: self.active && self.remaining > 1,
        }
    }

    /// The popup after `n` update ticks.
    pub open spec fn spec_updated_n(self, n: nat) -> Popup
        decreases n,
    {
        if n == 0 {
            self
        } else {
            self.spec_updated_n((n - 1) as nat).spec_updated()
        }
    }

    pub fn new_text_box(message: String, duration: u32) -> (r: Popup)
        ensures
            r.message == message,
            r.remaining == duration,
            r.active,
    {
        Popup { message, remaining: duration, active: true }
    }

    pub fn update(&mut self)
        ensures
            *final(self) == old(self).spec_updated(),
    {
        if self.remaining > 0 {
            self.remaining = self.remaining - 1;
        }
        if self.remaining == 0 {
            self.active = false;
        }
    }
}

/// How `n` update ticks change a popup's countdown while time remains.
proof fn lemma_updated_n_state(p: Popup, n: nat)
    requires
        p.active,
        1 <= p.remaining,
        n <= p.remaining,
    ensures
        p.spec_updated_n(n).message == p.message,
        p.spec_updated_n(n).remaining == p.remaining - n,
        p.spec_updated_n(n).active == (p.remaining - n > 0),
    decreases n,
{
    if n > 0 {
        lemma_updated_n_state(p, (n - 1) as nat);
    }
}

/// Law: a popup built with duration `d` stays active through the first
/// `d - 1` update ticks and is inactive from the `d`-th tick on.
pub proof fn lemma_popup_expiry(p: Popup, d: u32)
    requires
        p.active,
        p.remaining == d,
        d >= 1,
    ensures
        forall|k: nat| k < d ==> (#[trigger] p.spec_updated_n(k)).active,
        !p.spec_updated_n(d as nat).active,
{
    assert forall|k: nat| k < d implies (#[trigger] p.spec_updated_n(k)).active by {
        lemma_updated_n_state(p, k);
    }
    lemma_updated_n_state(p, d as nat);
}

/// The popup list after one update pass: every popup advances one tick and
/// the ones no longer active are dropped, keeping the order of the rest.
pub open spec fn popups_after_update(s: Seq<Popup>) -> Seq<Popup>
    decreases s.len(),
{
    if s.len() == 0 {
        Seq::empty()
    } else {
        let done = popups_after_update(s.drop_last());
        let q = s.last().spec_updated();
        if q.active {
            done.push(q)
        } else {
            done
        }
    }
}

} // verus!
