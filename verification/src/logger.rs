//! The dashboard's log pane state: a bounded ring of log lines, newest
//! last, and the filter that decides which log targets reach the pane.

use vstd::prelude::*;

verus! {

/// The bytes of "satnogs": only targets under this prefix reach the pane.
pub open spec fn log_prefix() -> Seq<u8> {
    seq![115u8, 97u8, 116u8, 110u8, 111u8, 103u8, 115u8]
}

/// Whether a log record's target is shown: it starts with "satnogs".
pub fn log_target_enabled(target: &[u8]) -> (r: bool)
    ensures
        r == (target@.len() >= 7 && target@.subrange(0, 7) =~= log_prefix()),
{
    let n: usize = target.len();
    if n < 7 {
        return false;
    }
    let mut j: usize = 0;
    let prefix: [u8; 7] = [115u8, 97u8, 116u8, 110u8, 111u8, 103u8, 115u8];
    while j < 7
        invariant
            0 <= j <= 7,
            target@.len() >= 7,
            prefix@ =~= log_prefix(),
            forall|t: int| 0 <= t < j ==> target@[t] == log_prefix()[t],
        decreases 7 - j,
    {
        if target[j] != prefix[j] {
            proof {
                assert(target@[j as int] != log_prefix()[j as int]);
                assert(target@.subrange(0, 7)[j as int] == target@[j as int]);
            }
            return false;
        }
        j = j + 1;
    }
    proof {
        assert(target@.subrange(0, 7) =~= log_prefix());
    }
    true
}

/// A bounded ring of log lines: (time in seconds since the UNIX epoch,
/// severity, message), oldest first. Pushing onto a full ring drops the
/// oldest line.
pub struct LogRing {
    pub entries: Vec<(i64, u8, String)>,
    pub capacity: usize,
}

impl LogRing {
    /// Never over capacity, and the capacity is positive.
    pub open spec fn wf(self) -> bool {
        self.entries@.len() <= self.capacity && self.capacity > 0
    }

    /// An empty ring holding at most `capacity` lines.
    pub fn new(capacity: usize) -> (r: LogRing)
        requires
            capacity > 0,
        ensures
            r.wf(),
            r.capacity == capacity,
            r.entries@.len() == 0,
    {
        LogRing { entries: Vec::new(), capacity }
    }

    /// Append a line, dropping the oldest where the ring is full.
    pub fn push(&mut self, entry: (i64, u8, String))
        requires
            old(self).wf(),
        ensures
            final(self).wf(),
            final(self).capacity == old(self).capacity,
            old(self).entries@.len() < old(self).capacity ==> final(self).entries@
                == old(self).entries@.push(entry),
            old(self).entries@.len() == old(self).capacity ==> final(self).entries@
                == old(self).entries@.skip(1).push(entry),
    {
        if self.entries.len() == self.capacity {
            let _ = self.entries.remove(0);
            proof {
                assert(self.entries@ =~= old(self).entries@.skip(1));
            }
        }
        self.entries.push(entry);
    }

    /// How many lines the ring holds.
    pub fn len(&self) -> (n: usize)
        ensures
            n == self.entries@.len(),
    {
        self.entries.len()
    }
}

} // verus!
