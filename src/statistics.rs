use vstd::prelude::*;

use crate::icmp::Response;

verus! {

/// The counters and round trip samples of a run.
pub struct StatsView {
    pub sent: int,
    pub received: int,
    pub errors: int,
    pub dropped: int,
    pub rtt: Seq<u64>,
}

impl StatsView {
    /// Every transmitted packet is counted once, and each reply has a sample.
    pub open spec fn wf(self) -> bool {
        &&& 0 <= self.received
        &&& 0 <= self.errors
        &&& 0 <= self.dropped
        &&& self.received + self.errors + self.dropped == self.sent
        &&& self.sent <= u32::MAX
        &&& self.rtt.len() == self.received
    }
}

/// The statistics of a run before any outcome.
pub open spec fn initial_stats() -> StatsView {
    StatsView { sent: 0, received: 0, errors: 0, dropped: 0, rtt: Seq::empty() }
}

/// The statistics after accounting for `response`.
pub open spec fn stats_step(s: StatsView, response: Response) -> StatsView {
    match response {
        Response::EchoReply { rtt_micros, .. } => StatsView {
            sent: s.sent + 1,
            received: s.received + 1,
            rtt: s.rtt.push(rtt_micros),
            ..s
        },
        Response::HostUnreachable => StatsView { sent: s.sent + 1, errors: s.errors + 1, ..s },
        Response::Dropped => StatsView { sent: s.sent + 1, dropped: s.dropped + 1, ..s },
    }
}

/// The statistics after accounting for each of `outcomes` in order.
pub open spec fn stats_after(outcomes: Seq<Response>) -> StatsView
    decreases outcomes.len(),
{
    if outcomes.len() == 0 {
        initial_stats()
    } else {
        stats_step(stats_after(outcomes.drop_last()), outcomes.last())
    }
}

/// Packet loss in whole percent, `100 * (sent - received) / sent` rounded
/// to the nearest whole number (halves up); 0 when nothing was sent.
pub open spec fn loss_percent(sent: int, received: int) -> int {
    if sent == 0 {
        0
    } else {
        (200 * (sent - received) + sent) / (2 * sent)
    }
}

proof fn lemma_loss_bounds(sent: int, received: int)
    requires
        0 <= received <= sent,
        0 < sent,
    ensures
        0 <= loss_percent(sent, received) <= 100,
        2 * sent * loss_percent(sent, received) <= 200 * (sent - received) + sent,
        200 * (sent - received) + sent < 2 * sent * (loss_percent(sent, received) + 1),
{
    let n = 200 * (sent - received) + sent;
    let d = 2 * sent;
    let l = n / d;
    assert(0 <= n <= 201 * sent);
    assert(d * l <= n < d * (l + 1)) by (nonlinear_arith)
        requires
            l == n / d,
            0 < d,
            0 <= n,
    ;
    assert(0 <= l <= 100) by (nonlinear_arith)
        requires
            d * l <= n,
            0 <= n < d * (l + 1),
            n <= 201 * sent,
            d == 2 * sent,
            0 < sent,
    ;
}

/// Packet loss is 0 when nothing was sent; otherwise it is the percentage
/// `100 * (sent - received) / sent` rounded to the nearest whole number
/// (within half a percent, halves up), and it lies between 0 and 100.
pub proof fn lemma_packet_loss(sent: int, received: int)
    requires
        0 <= received <= sent,
    ensures
        sent == 0 ==> loss_percent(sent, received) == 0,
        sent > 0 ==> 2 * sent * loss_percent(sent, received) <= 200 * (sent - received) + sent,
        sent > 0 ==> 200 * (sent - received) + sent < 2 * sent * (loss_percent(sent, received) + 1),
        0 <= loss_percent(sent, received) <= 100,
{
    if sent > 0 {
        lemma_loss_bounds(sent, received);
    }
}

/// Over any sequence of outcomes, each one is counted once as transmitted,
/// and received, error and dropped counts together make up the transmitted
/// count; there is one round trip sample per received reply.
pub proof fn lemma_accounting(outcomes: Seq<Response>)
    ensures
        stats_after(outcomes).sent == outcomes.len(),
        stats_after(outcomes).received + stats_after(outcomes).errors + stats_after(outcomes).dropped
            <= stats_after(outcomes).sent,
        stats_after(outcomes).received + stats_after(outcomes).errors + stats_after(outcomes).dropped
            == stats_after(outcomes).sent,
        stats_after(outcomes).rtt.len() == stats_after(outcomes).received,
    decreases outcomes.len(),
{
    if outcomes.len() > 0 {
        lemma_accounting(outcomes.drop_last());
    }
}

/// Sum of `s`.
pub open spec fn sum_of(s: Seq<u64>) -> int
    decreases s.len(),
{
    if s.len() == 0 {
        0
    } else {
        sum_of(s.drop_last()) + s.last()
    }
}

/// Whether `m` is the least element of `s`.
pub open spec fn is_min_of(m: u64, s: Seq<u64>) -> bool {
    &&& exists|i: int| 0 <= i < s.len() && s[i] == m
    &&& forall|i: int| 0 <= i < s.len() ==> m <= s[i]
}

/// Whether `m` is the greatest element of `s`.
pub open spec fn is_max_of(m: u64, s: Seq<u64>) -> bool {
    &&& exists|i: int| 0 <= i < s.len() && s[i] == m
    &&& forall|i: int| 0 <= i < s.len() ==> s[i] <= m
}

/// Transmitted, received, error and dropped counts of a run, and the round
/// trip time of each reply in microseconds.
pub struct Statistics {
    destination: String,
    sent: u32,
    received: u32,
    errors: u32,
    dropped: u32,
    rtt: Vec<u64>,
}

impl View for Statistics {
    type V = StatsView;

    closed spec fn view(&self) -> StatsView {
        StatsView {
            sent: self.sent as int,
            received: self.received as int,
            errors: self.errors as int,
            dropped: self.dropped as int,
            rtt: self.rtt@,
        }
    }
}

impl Statistics {
    pub closed spec fn spec_destination(&self) -> Seq<char> {
        self.destination@
    }

    pub fn new(destination: String) -> (r: Statistics)
        ensures
            r@ == initial_stats(),
            r@.wf(),
            r.spec_destination() == destination@,
    {
        Statistics { destination, sent: 0, received: 0, errors: 0, dropped: 0, rtt: Vec::new() }
    }

    /// Accounts for the outcome of one request cycle.
    pub fn update(&mut self, response: Response)
        requires
            old(self)@.wf(),
            old(self)@.sent < u32::MAX,
        ensures
            final(self)@ == stats_step(old(self)@, response),
            final(self)@.wf(),
            final(self).spec_destination() == old(self).spec_destination(),
    {
        self.sent = self.sent + 1;
        match response {
            Response::EchoReply { rtt_micros, .. } => {
                self.received = self.received + 1;
                self.rtt.push(rtt_micros);
            },
            Response::HostUnreachable => {
                self.errors = self.errors + 1;
            },
            Response::Dropped => {
                self.dropped = self.dropped + 1;
            },
        }
    }

    /// The destination as the user named it.
    pub fn destination(&self) -> (r: &str)
        ensures
            r@ == self.spec_destination(),
    {
        self.destination.as_str()
    }

    pub fn sent(&self) -> (r: u32)
        ensures
            r == self@.sent,
    {
        self.sent
    }

    pub fn received(&self) -> (r: u32)
        ensures
            r == self@.received,
    {
        self.received
    }

    pub fn errors(&self) -> (r: u32)
        ensures
            r == self@.errors,
    {
        self.errors
    }

    pub fn dropped(&self) -> (r: u32)
        ensures
            r == self@.dropped,
    {
        self.dropped
    }

    /// Packet loss in whole percent, rounded to nearest; 0 when nothing was sent.
    pub fn packet_loss_percent(&self) -> (r: u32)
        requires
            self@.wf(),
        ensures
            r == loss_percent(self@.sent, self@.received),
    {
        if self.sent == 0 {
            0
        } else {
            let lost: u64 = (self.sent - self.received) as u64;
            proof {
                lemma_loss_bounds(self@.sent, self@.received);
            }
            let sent: u64 = self.sent as u64;
            ((200 * lost + sent) / (2 * sent)) as u32
        }
    }

    /// The least round trip time, or `None` without samples.
    pub fn rtt_min(&self) -> (r: Option<u64>)
        ensures
            r is None <==> self@.rtt.len() == 0,
            r matches Some(m) ==> is_min_of(m, self@.rtt),
    {
        if self.rtt.len() == 0 {
            return None;
        }
        let mut m: u64 = self.rtt[0];
        let mut i: usize = 1;
        while i < self.rtt.len()
            invariant
                1 <= i <= self.rtt@.len(),
                exists|j: int| 0 <= j < i && self.rtt@[j] == m,
                forall|j: int| 0 <= j < i ==> m <= self.rtt@[j],
            decreases self.rtt@.len() - i,
        {
            if self.rtt[i] < m {
                m = self.rtt[i];
            }
            i = i + 1;
        }
        Some(m)
    }

    /// The greatest round trip time, or `None` without samples.
    pub fn rtt_max(&self) -> (r: Option<u64>)
        ensures
            r is None <==> self@.rtt.len() == 0,
            r matches Some(m) ==> is_max_of(m, self@.rtt),
    {
        if self.rtt.len() == 0 {
            return None;
        }
        let mut m: u64 = self.rtt[0];
        let mut i: usize = 1;
        while i < self.rtt.len()
            invariant
                1 <= i <= self.rtt@.len(),
                exists|j: int| 0 <= j < i && self.rtt@[j] == m,
                forall|j: int| 0 <= j < i ==> self.rtt@[j] <= m,
            decreases self.rtt@.len() - i,
        {
            if self.rtt[i] > m {
                m = self.rtt[i];
            }
            i = i + 1;
        }
        Some(m)
    }

    /// The sum of the round trip times.
    pub fn rtt_total(&self) -> (r: u128)
        ensures
            r == sum_of(self@.rtt),
    {
        let mut total: u128 = 0;
        let mut i: usize = 0;
        while i < self.rtt.len()
            invariant
                i <= self.rtt@.len(),
                total == sum_of(self.rtt@.subrange(0, i as int)),
                total <= i * 0xFFFF_FFFF_FFFF_FFFFu128,
            decreases self.rtt@.len() - i,
        {
            assert(self.rtt@.subrange(0, i + 1).drop_last() =~= self.rtt@.subrange(0, i as int));
            total = total + self.rtt[i] as u128;
            i = i + 1;
        }
        assert(self.rtt@.subrange(0, i as int) =~= self.rtt@);
        total
    }

    /// The round trip time samples in microseconds, in arrival order.
    pub fn rtt(&self) -> (r: &[u64])
        ensures
            r@ == self@.rtt,
    {
        self.rtt.as_slice()
    }
}

} // verus!
