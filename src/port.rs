use vstd::prelude::*;

verus! {

/// First port of the scanned range.
pub const PORT_FIRST: u16 = 8103;

/// One past the last port of the scanned range.
pub const PORT_END: u16 = 8200;

pub open spec fn in_range(p: int) -> bool {
    PORT_FIRST <= p < PORT_END
}

/// What the scan asks for next.
#[derive(Debug, Clone, Copy, PartialEq, Eq, Structural)]
pub enum ScanStep {
    /// Try to bind a loopback listener on this port, release it, and report
    /// whether the bind succeeded.
    Probe(u16),
    /// This port bound: it is the one to serve on.
    Found(u16),
    /// Every port of the range failed to bind.
    Exhausted,
}

/// An ascending scan of the port range for one that a loopback listener can
/// bind. The scan probes one port at a time; the caller performs each probe.
pub struct PortScan {
    next: u16,
    done: bool,
}

impl PortScan {
    /// The port being probed, or the one after the last port probed.
    pub closed spec fn current(&self) -> int {
        self.next as int
    }

    /// Whether the scan has ended, with a port or without.
    pub closed spec fn finished(&self) -> bool {
        self.done
    }

    pub closed spec fn wf(&self) -> bool {
        &&& PORT_FIRST <= self.next <= PORT_END
        &&& !self.done ==> self.next < PORT_END
    }

    /// A scan that starts at the lowest port of the range, with the first probe
    /// to make.
    pub fn start() -> (r: (PortScan, ScanStep))
        ensures
            r.0.wf(),
            !r.0.finished(),
            r.0.current() == PORT_FIRST,
            r.1 == ScanStep::Probe(PORT_FIRST),
    {
        (PortScan { next: PORT_FIRST, done: false }, ScanStep::Probe(PORT_FIRST))
    }

    /// Takes the outcome of the pending probe. A port is chosen only when its
    /// own probe bound, and a port outside the range is never probed or chosen.
    pub fn on_probe(&mut self, bound: bool) -> (r: ScanStep)
        requires
            old(self).wf(),
            !old(self).finished(),
        ensures
            final(self).wf(),
            bound ==> r == ScanStep::Found(old(self).current() as u16) && final(self).finished(),
            !bound && old(self).current() + 1 < PORT_END ==> r == ScanStep::Probe(
                (old(self).current() + 1) as u16,
            ) && !final(self).finished() && final(self).current() == old(self).current() + 1,
            !bound && old(self).current() + 1 == PORT_END ==> r == ScanStep::Exhausted
                && final(self).finished(),
            r matches ScanStep::Found(p) ==> in_range(p as int) && bound,
            r matches ScanStep::Probe(p) ==> in_range(p as int),
    {
        if bound {
            self.done = true;
            ScanStep::Found(self.next)
        } else {
            self.next = self.next + 1;
            if self.next == PORT_END {
                self.done = true;
                ScanStep::Exhausted
            } else {
                ScanStep::Probe(self.next)
            }
        }
    }
}

} // verus!
