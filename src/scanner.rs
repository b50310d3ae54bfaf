//! The bookkeeping of a port scan: checking a request, splitting the work
//! into batches of addresses and chunks of ports, counting, reporting
//! progress and results, and cooperative cancellation. Probing the ports,
//! and running the batches side by side, is the caller's part.
use vstd::prelude::*;
use vstd::string::*;
use crate::address::{ip_ordinal, ip_text, ip_to_u32, span_ok, u32_to_ip, MAX_SPAN};
use crate::events::{messages_of, EventLog};
use crate::message::ScanRequest;
use crate::text::{decimal, push_char, push_decimal, push_str, texts};

verus! {

/// The number of ports probed side by side on one address.
pub const CHUNK_SIZE: u32 = 50;

/// How often, in addresses begun, progress is reported.
pub const PROGRESS_EVERY: u64 = 5;

/// Relies on `num_cpus::get`: the number of CPUs this process may use, which
/// is always at least one.
#[verifier::external_body]
fn cpu_count() -> (r: usize)
    ensures
        r >= 1,
{
    num_cpus::get()
}

/// Whether `v` splits `start..=end` into consecutive pieces of `size`
/// values each, but for the last, which may be shorter.
pub open spec fn splits_range(v: Seq<(u32, u32)>, start: int, end: int, size: int) -> bool {
    &&& v.len() >= 1
    &&& v[0].0 == start
    &&& v.last().1 == end
    &&& forall|k: int| 0 <= k < v.len() ==> v[k].0 <= #[trigger] v[k].1 && v[k].1 - v[k].0 < size
    &&& forall|k: int|
        0 <= k < v.len() - 1 ==> #[trigger] v[k].1 - v[k].0 == size - 1 && v[k + 1].0 == v[k].1
            + 1
}

/// The number of addresses each batch takes: the addresses shared out over
/// the CPUs, at least one.
pub open spec fn batch_size(total: int, parallelism: int) -> int {
    if total / parallelism >= 1 {
        total / parallelism
    } else {
        1
    }
}

/// Splits `start..=end` into consecutive pieces of `size` values, the last
/// one perhaps shorter.
pub fn split_range(start: u32, end: u32, size: u64) -> (r: Vec<(u32, u32)>)
    requires
        start <= end,
        size >= 1,
    ensures
        splits_range(r@, start as int, end as int, size as int),
{
    let mut r: Vec<(u32, u32)> = Vec::new();
    let mut lo: u32 = start;
    loop
        invariant
            start <= lo <= end,
            size >= 1,
            r@.len() == 0 ==> lo == start,
            r@.len() > 0 ==> r@[0].0 == start && r@.last().1 + 1 == lo,
            forall|k: int|
                0 <= k < r@.len() ==> r@[k].0 <= #[trigger] r@[k].1 && r@[k].1 - r@[k].0 < size,
            forall|k: int|
                0 <= k < r@.len() ==> #[trigger] r@[k].1 - r@[k].0 == size - 1,
            forall|k: int| 0 <= k < r@.len() - 1 ==> r@[k + 1].0 == #[trigger] r@[k].1 + 1,
        decreases end - lo,
    {
        if ((end - lo) as u64) < size {
            r.push((lo, end));
            return r;
        }
        let hi = lo + (size - 1) as u32;
        r.push((lo, hi));
        lo = hi + 1;
    }
}

/// Splits the addresses `start..=end` into batches, sized so that there are
/// about as many batches as `parallelism` says, and never fewer addresses to a
/// batch than one.
pub fn plan_batches(start: u32, end: u32, parallelism: usize) -> (r: Vec<(u32, u32)>)
    requires
        start <= end,
        parallelism >= 1,
    ensures
        splits_range(
            r@,
            start as int,
            end as int,
            batch_size(end - start + 1, parallelism as int),
        ),
{
    let total: u64 = (end - start) as u64 + 1;
    let share: u64 = total / (parallelism as u64);
    let size: u64 = if share >= 1 {
        share
    } else {
        1
    };
    assert(share <= total) by (nonlinear_arith)
        requires
            share == total / (parallelism as u64),
            parallelism >= 1,
    ;
    split_range(start, end, size)
}

/// Splits the ports `start..=end` into chunks of `CHUNK_SIZE`, the last one
/// perhaps shorter.
pub fn plan_port_chunks(start: u16, end: u16) -> (r: Vec<(u16, u16)>)
    requires
        start <= end,
    ensures
        r@.len() >= 1,
        r@[0].0 == start,
        r@.last().1 == end,
        forall|k: int|
            0 <= k < r@.len() ==> r@[k].0 <= #[trigger] r@[k].1 && r@[k].1 - r@[k].0 < CHUNK_SIZE,
        forall|k: int|
            0 <= k < r@.len() - 1 ==> #[trigger] r@[k].1 - r@[k].0 == CHUNK_SIZE - 1 && r@[k + 1].0
                == r@[k].1 + 1,
{
    let pieces = split_range(start as u32, end as u32, CHUNK_SIZE as u64);
    let mut r: Vec<(u16, u16)> = Vec::new();
    let mut i: usize = 0;
    while i < pieces.len()
        invariant
            i <= pieces@.len(),
            splits_range(pieces@, start as int, end as int, CHUNK_SIZE as int),
            end <= 65535,
            r@.len() == i,
            forall|k: int|
                0 <= k < i ==> (#[trigger] r@[k]).0 == pieces@[k].0 && r@[k].1 == pieces@[k].1,
        decreases pieces@.len() - i,
    {
        let (lo, hi) = pieces[i];
        proof {
            assert(pieces@[i as int].1 <= end) by {
                lemma_split_bounded(pieces@, start as int, end as int, CHUNK_SIZE as int, i as int);
            }
        }
        r.push((lo as u16, hi as u16));
        i = i + 1;
    }
    r
}

/// Every piece of a split ends within the range.
proof fn lemma_split_bounded(v: Seq<(u32, u32)>, start: int, end: int, size: int, k: int)
    requires
        splits_range(v, start, end, size),
        0 <= k < v.len(),
    ensures
        v[k].1 <= end,
    decreases v.len() - k,
{
    if k < v.len() - 1 {
        assert(v[k].1 - v[k].0 == size - 1);
        lemma_split_bounded(v, start, end, size, k + 1);
        assert(v[k + 1].0 <= v[k + 1].1);
    }
}

/// Why a scan request is refused, if it is.
pub open spec fn scan_rejection(
    start_ip: Seq<char>,
    end_ip: Seq<char>,
    start_port: u16,
    end_port: u16,
) -> Option<Seq<char>> {
    if ip_ordinal(start_ip) is None || ip_ordinal(end_ip) is None {
        Some("invalid IP address format, cannot start scan"@)
    } else if !span_ok(
        ip_ordinal(start_ip)->0 as int,
        ip_ordinal(end_ip)->0 as int,
        MAX_SPAN as int,
    ) {
        Some("invalid IP range or more than 1000 addresses"@)
    } else if !span_ok(start_port as int, end_port as int, MAX_SPAN as int) {
        Some("invalid port range or more than 1000 ports"@)
    } else {
        None
    }
}

/// The ports of a scan, as reported when it starts.
pub open spec fn port_range_text(start_port: u16, end_port: u16) -> Seq<char> {
    if start_port == end_port {
        "port "@ + decimal(start_port as nat)
    } else {
        "ports "@ + decimal(start_port as nat) + " to "@ + decimal(end_port as nat)
    }
}

/// What is reported when a scan starts.
pub open spec fn scan_start_text(
    start_ip: Seq<char>,
    end_ip: Seq<char>,
    start_port: u16,
    end_port: u16,
) -> Seq<char> {
    "scanning "@ + start_ip + " to "@ + end_ip + ", "@ + port_range_text(start_port, end_port)
}

/// The size of a scan, as reported when it starts.
pub open spec fn scan_totals_text(ips: nat, ports: nat) -> Seq<char> {
    "total: "@ + decimal(ips) + " addresses, "@ + decimal(ports) + " ports, "@ + decimal(ips * ports)
        + " probes"@
}

/// Whether progress is reported once `n` of `total` addresses are begun.
pub open spec fn progress_due(n: nat, total: nat) -> bool {
    n % (PROGRESS_EVERY as nat) == 0 || n == total
}

/// Progress, as `scanned/total (percent%)`.
pub open spec fn progress_text(n: nat, total: nat) -> Seq<char> {
    "progress: "@ + decimal(n) + "/"@ + decimal(total) + " ("@ + decimal(n * 100 / total) + "%)"@
}

/// The result entry for an open port.
pub open spec fn open_result_text(ip: u32, port: u16) -> Seq<char> {
    ip_text(ip) + " - port "@ + decimal(port as nat) + " open"@
}

/// The log entry for an open port.
pub open spec fn open_found_text(ip: u32, port: u16) -> Seq<char> {
    "open port found: "@ + ip_text(ip) + ":"@ + decimal(port as nat)
}

/// The log entry for a closed port.
pub open spec fn closed_text(ip: u32, port: u16) -> Seq<char> {
    ip_text(ip) + ":"@ + decimal(port as nat) + " closed"@
}

/// The summary at the end of a scan.
pub open spec fn summary_text(scanned: nat, open: nat) -> Seq<char> {
    "scan finished: scanned "@ + decimal(scanned) + " IPs, found "@ + decimal(open) + " open"@
}

/// What is logged when a scan ends.
pub open spec fn finish_texts(cancelled: bool, scanned: nat, open: nat) -> Seq<Seq<char>> {
    if cancelled {
        seq!["scan cancelled"@, summary_text(scanned, open)]
    } else {
        seq![summary_text(scanned, open)]
    }
}

/// Whether a scan still takes on work: it runs and is not cancelled.
pub open spec fn admits_work(running: bool, cancelled: bool) -> bool {
    running && !cancelled
}

/// A checked scan: its address and port ranges, the probe timeout, the
/// batches of addresses to run side by side and the chunks of ports to probe
/// together on each address.
pub struct ScanPlan {
    pub start: u32,
    pub end: u32,
    pub start_port: u16,
    pub end_port: u16,
    pub timeout_ms: u64,
    pub batches: Vec<(u32, u32)>,
    pub chunks: Vec<(u16, u16)>,
}

/// The state of the latest scan: what was found, what was logged, how far
/// it got, and whether it runs or was cancelled.
pub struct ScanSession {
    results: Vec<String>,
    log: EventLog,
    total_ips: u64,
    scanned: u64,
    open_count: u64,
    cancelled: bool,
    running: bool,
}

impl ScanSession {
    /// The open ports found, one entry each.
    pub closed spec fn results_view(&self) -> Seq<Seq<char>> {
        texts(self.results@)
    }

    /// The scan log.
    pub closed spec fn log_view(&self) -> Seq<(Seq<char>, Seq<char>)> {
        self.log@
    }

    /// The number of addresses in the scan.
    pub closed spec fn total(&self) -> nat {
        self.total_ips as nat
    }

    /// The number of addresses begun.
    pub closed spec fn scanned(&self) -> nat {
        self.scanned as nat
    }

    /// The number of open ports found.
    pub closed spec fn opened(&self) -> nat {
        self.open_count as nat
    }

    /// Whether the scan was cancelled.
    pub closed spec fn cancelled(&self) -> bool {
        self.cancelled
    }

    /// Whether the scan runs.
    pub closed spec fn running(&self) -> bool {
        self.running
    }

    /// No more addresses are begun than the scan holds, a scan holds at most
    /// `MAX_SPAN + 1` of them, and there is one result per open port counted.
    pub closed spec fn wf(&self) -> bool {
        &&& self.scanned <= self.total_ips <= MAX_SPAN as u64 + 1
        &&& self.open_count as nat == self.results@.len()
    }

    /// No scan yet.
    pub fn new() -> (r: Self)
        ensures
            r.wf(),
            !r.running(),
            !r.cancelled(),
            r.results_view().len() == 0,
            r.log_view().len() == 0,
            r.total() == 0,
            r.scanned() == 0,
            r.opened() == 0,
    {
        let r = ScanSession {
            results: Vec::new(),
            log: EventLog::new(),
            total_ips: 0,
            scanned: 0,
            open_count: 0,
            cancelled: false,
            running: false,
        };
        assert(r.results_view() =~= Seq::<Seq<char>>::empty());
        r
    }

    /// Starts a scan: clears the results and the log of the one before, then
    /// checks the request. A refused request is logged with the reason, and
    /// nothing else happens. An accepted one is logged, the scan runs, and its
    /// plan is returned: batches of addresses shared out over the CPUs, and
    /// chunks of `CHUNK_SIZE` ports.
    pub fn begin(&mut self, request: &ScanRequest) -> (r: Option<ScanPlan>)
        ensures
            final(self).wf(),
            final(self).results_view().len() == 0,
            !final(self).cancelled(),
            final(self).scanned() == 0,
            final(self).opened() == 0,
            match scan_rejection(
                request.start_ip@,
                request.end_ip@,
                request.start_port,
                request.end_port,
            ) {
                Some(reason) => {
                    &&& r is None
                    &&& !final(self).running()
                    &&& messages_of(final(self).log_view()) == seq![reason]
                },
                None => {
                    let start = ip_ordinal(request.start_ip@)->0;
                    let end = ip_ordinal(request.end_ip@)->0;
                    let total_ports = request.end_port - request.start_port + 1;
                    &&& r is Some
                    &&& final(self).running()
                    &&& final(self).total() == end - start + 1
                    &&& messages_of(final(self).log_view()) == seq![
                        scan_start_text(
                            request.start_ip@,
                            request.end_ip@,
                            request.start_port,
                            request.end_port,
                        ),
                        scan_totals_text((end - start + 1) as nat, total_ports as nat),
                    ]
                    &&& r->0.start == start
                    &&& r->0.end == end
                    &&& r->0.start_port == request.start_port
                    &&& r->0.end_port == request.end_port
                    &&& r->0.timeout_ms == request.timeout_ms
                    &&& exists|p: int|
                        p >= 1 && splits_range(
                            r->0.batches@,
                            start as int,
                            end as int,
                            #[trigger] batch_size(end - start + 1, p),
                        )
                    &&& r->0.chunks@.len() >= 1
                    &&& r->0.chunks@[0].0 == request.start_port
                    &&& r->0.chunks@.last().1 == request.end_port
                    &&& forall|k: int|
                        0 <= k < r->0.chunks@.len() ==> r->0.chunks@[k].0 <= #[trigger] r->0.chunks@[k].1
                            && r->0.chunks@[k].1 - r->0.chunks@[k].0 < CHUNK_SIZE
                    &&& forall|k: int|
                        0 <= k < r->0.chunks@.len() - 1 ==> #[trigger] r->0.chunks@[k].1
                            - r->0.chunks@[k].0 == CHUNK_SIZE - 1 && r->0.chunks@[k + 1].0
                            == r->0.chunks@[k].1 + 1
                },
            },
    {
        self.results.clear();
        self.log.clear();
        self.scanned = 0;
        self.open_count = 0;
        self.cancelled = false;
        self.running = false;
        self.total_ips = 0;
        assert(self.results_view() =~= Seq::<Seq<char>>::empty());
        assert(messages_of(self.log@) =~= Seq::<Seq<char>>::empty());
        let start = ip_to_u32(request.start_ip.as_str());
        let end = ip_to_u32(request.end_ip.as_str());
        let (start, end) = match (start, end) {
            (Some(s), Some(e)) => (s, e),
            _ => {
                self.log.add_message(
                    String::from_str("invalid IP address format, cannot start scan"),
                );
                return None;
            },
        };
        if !(start <= end && end - start <= MAX_SPAN) {
            self.log.add_message(String::from_str("invalid IP range or more than 1000 addresses"));
            return None;
        }
        let start_port = request.start_port;
        let end_port = request.end_port;
        if !(start_port <= end_port && end_port - start_port <= MAX_SPAN as u16) {
            self.log.add_message(String::from_str("invalid port range or more than 1000 ports"));
            return None;
        }
        let total_ips: u64 = (end - start) as u64 + 1;
        let total_ports: u64 = (end_port - start_port) as u64 + 1;
        self.log.add_message(
            start_text(request.start_ip.as_str(), request.end_ip.as_str(), start_port, end_port),
        );
        self.log.add_message(totals_text(total_ips, total_ports));
        let parallelism = cpu_count();
        let batches = plan_batches(start, end, parallelism);
        let chunks = plan_port_chunks(start_port, end_port);
        self.total_ips = total_ips;
        self.running = true;
        assert(messages_of(self.log@) =~= seq![
            scan_start_text(request.start_ip@, request.end_ip@, start_port, end_port),
            scan_totals_text(total_ips as nat, total_ports as nat),
        ]);
        Some(
            ScanPlan {
                start,
                end,
                start_port,
                end_port,
                timeout_ms: request.timeout_ms,
                batches,
                chunks,
            },
        )
    }

    /// Asks to begin the next address. If the scan no longer runs, or was
    /// cancelled, the answer is no and the scan counts as cancelled. If every
    /// address was begun, the answer is no. Else the address is counted and
    /// progress is logged every `PROGRESS_EVERY` addresses and at the last.
    pub fn next_address(&mut self) -> (r: bool)
        requires
            old(self).wf(),
        ensures
            final(self).wf(),
            r == (admits_work(old(self).running(), old(self).cancelled()) && old(self).scanned()
                < old(self).total()),
            final(self).cancelled() == (old(self).cancelled() || !admits_work(
                old(self).running(),
                old(self).cancelled(),
            )),
            final(self).running() == old(self).running(),
            final(self).total() == old(self).total(),
            final(self).opened() == old(self).opened(),
            final(self).results_view() == old(self).results_view(),
            r ==> final(self).scanned() == old(self).scanned() + 1,
            r ==> messages_of(final(self).log_view()) == messages_of(old(self).log_view()) + if progress_due(
                final(self).scanned(),
                final(self).total(),
            ) {
                seq![progress_text(final(self).scanned(), final(self).total())]
            } else {
                Seq::empty()
            },
            !r ==> final(self).scanned() == old(self).scanned(),
            !r ==> final(self).log_view() == old(self).log_view(),
    {
        if !self.running || self.cancelled {
            self.cancelled = true;
            return false;
        }
        if self.scanned >= self.total_ips {
            return false;
        }
        self.scanned = self.scanned + 1;
        let ghost before = messages_of(self.log@);
        if self.scanned % PROGRESS_EVERY == 0 || self.scanned == self.total_ips {
            self.log.add_message(progress_string(self.scanned, self.total_ips));
        } else {
            assert(before + Seq::<Seq<char>>::empty() =~= before);
        }
        true
    }

    /// Asks to probe the next chunk of ports. If the scan no longer runs, or
    /// was cancelled, the answer is no and the scan counts as cancelled.
    pub fn next_chunk(&mut self) -> (r: bool)
        ensures
            r == admits_work(old(self).running(), old(self).cancelled()),
            final(self).cancelled() == (old(self).cancelled() || !r),
            final(self).running() == old(self).running(),
            final(self).total() == old(self).total(),
            final(self).scanned() == old(self).scanned(),
            final(self).opened() == old(self).opened(),
            final(self).results_view() == old(self).results_view(),
            final(self).log_view() == old(self).log_view(),
            final(self).wf() == old(self).wf(),
    {
        if !self.running || self.cancelled {
            self.cancelled = true;
            return false;
        }
        true
    }

    /// Records the outcome of one probe. An open port is counted, added to the
    /// results and logged as found; a closed one is only logged. Once the
    /// count has reached `u64::MAX`, an open port is only logged.
    pub fn record_probe(&mut self, ip: u32, port: u16, open: bool)
        requires
            old(self).wf(),
        ensures
            final(self).wf(),
            final(self).cancelled() == old(self).cancelled(),
            final(self).running() == old(self).running(),
            final(self).total() == old(self).total(),
            final(self).scanned() == old(self).scanned(),
            open && old(self).opened() < u64::MAX ==> final(self).results_view()
                == old(self).results_view().push(open_result_text(ip, port)),
            open && old(self).opened() < u64::MAX ==> final(self).opened() == old(self).opened()
                + 1,
            open ==> messages_of(final(self).log_view()) == messages_of(old(self).log_view()).push(
                open_found_text(ip, port),
            ),
            !(open && old(self).opened() < u64::MAX) ==> final(self).results_view() == old(
                self,
            ).results_view(),
            !(open && old(self).opened() < u64::MAX) ==> final(self).opened() == old(
                self,
            ).opened(),
            !open ==> messages_of(final(self).log_view()) == messages_of(old(self).log_view()).push(
                closed_text(ip, port),
            ),
    {
        let address = u32_to_ip(ip);
        if open {
            if self.open_count < u64::MAX {
                self.open_count = self.open_count + 1;
                let mut result = address.clone();
                push_str(&mut result, " - port ");
                push_decimal(&mut result, port as u64);
                push_str(&mut result, " open");
                let ghost m = result@;
                self.results.push(result);
                assert(self.results_view() =~= old(self).results_view().push(m));
                assert(m =~= open_result_text(ip, port));
            }
            let mut found = String::from_str("open port found: ");
            push_str(&mut found, address.as_str());
            push_char(&mut found, ':');
            push_decimal(&mut found, port as u64);
            proof {
                reveal_strlit(":");
            }
            assert(found@ =~= open_found_text(ip, port));
            self.log.add_message(found);
        } else {
            let mut closed = address;
            push_char(&mut closed, ':');
            push_decimal(&mut closed, port as u64);
            push_str(&mut closed, " closed");
            proof {
                reveal_strlit(":");
            }
            assert(closed@ =~= closed_text(ip, port));
            self.log.add_message(closed);
        }
    }

    /// Adds a note to the scan log, such as why typed settings were refused;
    /// nothing else changes.
    pub fn log_message(&mut self, message: String)
        ensures
            final(self).cancelled() == old(self).cancelled(),
            final(self).running() == old(self).running(),
            final(self).total() == old(self).total(),
            final(self).scanned() == old(self).scanned(),
            final(self).opened() == old(self).opened(),
            final(self).results_view() == old(self).results_view(),
            messages_of(final(self).log_view()) == messages_of(old(self).log_view()).push(
                message@,
            ),
            final(self).wf() == old(self).wf(),
    {
        self.log.add_message(message);
    }

    /// Cancels the scan: no address or chunk is begun after this.
    pub fn cancel(&mut self)
        ensures
            final(self).cancelled(),
            final(self).running() == old(self).running(),
            final(self).total() == old(self).total(),
            final(self).scanned() == old(self).scanned(),
            final(self).opened() == old(self).opened(),
            final(self).results_view() == old(self).results_view(),
            final(self).log_view() == old(self).log_view(),
            final(self).wf() == old(self).wf(),
    {
        self.cancelled = true;
    }

    /// Stops the scan at the user's request, and logs that.
    pub fn stop(&mut self)
        ensures
            !final(self).running(),
            final(self).cancelled() == old(self).cancelled(),
            final(self).total() == old(self).total(),
            final(self).scanned() == old(self).scanned(),
            final(self).opened() == old(self).opened(),
            final(self).results_view() == old(self).results_view(),
            messages_of(final(self).log_view()) == messages_of(old(self).log_view()).push(
                "scan stopped by user"@,
            ),
            final(self).wf() == old(self).wf(),
    {
        self.running = false;
        self.log.add_message(String::from_str("scan stopped by user"));
    }

    /// Ends the scan, once every batch is done: logs the cancellation, if
    /// there was one, then a summary of what was scanned and found. The scan
    /// no longer runs.
    pub fn finish(&mut self)
        ensures
            !final(self).running(),
            final(self).cancelled() == old(self).cancelled(),
            final(self).total() == old(self).total(),
            final(self).scanned() == old(self).scanned(),
            final(self).opened() == old(self).opened(),
            final(self).results_view() == old(self).results_view(),
            messages_of(final(self).log_view()) == messages_of(old(self).log_view()) + finish_texts(
                old(self).cancelled(),
                old(self).scanned(),
                old(self).opened(),
            ),
            final(self).wf() == old(self).wf(),
    {
        if self.cancelled {
            self.log.add_message(String::from_str("scan cancelled"));
        }
        let mut summary = String::from_str("scan finished: scanned ");
        push_decimal(&mut summary, self.scanned);
        push_str(&mut summary, " IPs, found ");
        push_decimal(&mut summary, self.open_count);
        push_str(&mut summary, " open");
        self.log.add_message(summary);
        self.running = false;
        assert(messages_of(self.log@) =~= messages_of(old(self).log@) + finish_texts(
            old(self).cancelled,
            old(self).scanned as nat,
            old(self).open_count as nat,
        ));
    }

    /// Whether the scan runs.
    pub fn is_running(&self) -> (r: bool)
        ensures
            r == self.running(),
    {
        self.running
    }

    /// Whether the scan was cancelled.
    pub fn is_cancelled(&self) -> (r: bool)
        ensures
            r == self.cancelled(),
    {
        self.cancelled
    }

    /// The number of addresses begun.
    pub fn scanned_count(&self) -> (r: u64)
        ensures
            r == self.scanned(),
    {
        self.scanned
    }

    /// The number of open ports found.
    pub fn open_count(&self) -> (r: u64)
        ensures
            r == self.opened(),
    {
        self.open_count
    }

    /// The open ports found, one entry each.
    pub fn results(&self) -> (r: &Vec<String>)
        ensures
            texts(r@) == self.results_view(),
    {
        &self.results
    }

    /// The scan log.
    pub fn log(&self) -> (r: &EventLog)
        ensures
            r@ == self.log_view(),
    {
        &self.log
    }
}

/// What is reported when a scan starts.
fn start_text(start_ip: &str, end_ip: &str, start_port: u16, end_port: u16) -> (r: String)
    ensures
        r@ == scan_start_text(start_ip@, end_ip@, start_port, end_port),
{
    let mut r = String::from_str("scanning ");
    push_str(&mut r, start_ip);
    push_str(&mut r, " to ");
    push_str(&mut r, end_ip);
    push_str(&mut r, ", ");
    if start_port == end_port {
        push_str(&mut r, "port ");
        push_decimal(&mut r, start_port as u64);
    } else {
        push_str(&mut r, "ports ");
        push_decimal(&mut r, start_port as u64);
        push_str(&mut r, " to ");
        push_decimal(&mut r, end_port as u64);
    }
    assert(r@ =~= scan_start_text(start_ip@, end_ip@, start_port, end_port));
    r
}

/// The size of a scan, as reported when it starts.
fn totals_text(ips: u64, ports: u64) -> (r: String)
    requires
        ips <= 65536,
        ports <= 65536,
    ensures
        r@ == scan_totals_text(ips as nat, ports as nat),
{
    let mut r = String::from_str("total: ");
    push_decimal(&mut r, ips);
    push_str(&mut r, " addresses, ");
    push_decimal(&mut r, ports);
    push_str(&mut r, " ports, ");
    assert(ips * ports <= 65536 * 65536) by (nonlinear_arith)
        requires
            ips <= 65536,
            ports <= 65536,
    ;
    push_decimal(&mut r, ips * ports);
    push_str(&mut r, " probes");
    assert(r@ =~= scan_totals_text(ips as nat, ports as nat));
    r
}

/// Progress, as `scanned/total (percent%)`.
fn progress_string(n: u64, total: u64) -> (r: String)
    requires
        1 <= total <= 65536,
        n <= total,
    ensures
        r@ == progress_text(n as nat, total as nat),
{
    let mut r = String::from_str("progress: ");
    push_decimal(&mut r, n);
    push_str(&mut r, "/");
    push_decimal(&mut r, total);
    push_str(&mut r, " (");
    push_decimal(&mut r, n * 100 / total);
    push_str(&mut r, "%)");
    assert(r@ =~= progress_text(n as nat, total as nat));
    r
}

/// The count of open ports that a scan reports, in its summary too, is the
/// number of its results.
pub proof fn lemma_open_count_is_result_count(s: &ScanSession)
    requires
        s.wf(),
    ensures
        s.opened() == s.results_view().len(),
{
}

/// Once a scan is cancelled it takes on no more work, and when it ends it
/// logs `scan cancelled` before its summary, whatever it had scanned and
/// found.
pub proof fn lemma_cancelled_scan_ends(running: bool, scanned: nat, open: nat)
    ensures
        !admits_work(running, true),
        finish_texts(true, scanned, open) == seq!["scan cancelled"@, summary_text(scanned, open)],
{
}

} // verus!
