use vstd::prelude::*;

verus! {

/// Traffic counters of one connection; times in milliseconds.
#[derive(Debug, Clone, Copy, PartialEq, Eq, Structural)]
pub struct ConnectionInfo {
    pub last_seen: u64,
    pub connected_since: u64,
    pub bytes_sent: u64,
    pub bytes_received: u64,
    pub packets_sent: u64,
    pub packets_received: u64,
}

impl ConnectionInfo {
    /// A connection opened at `now`, with nothing counted yet.
    pub fn new(now: u64) -> (r: Self)
        ensures
            r == (ConnectionInfo {
                last_seen: now,
                connected_since: now,
                bytes_sent: 0,
                bytes_received: 0,
                packets_sent: 0,
                packets_received: 0,
            }),
    {
        ConnectionInfo {
            last_seen: now,
            connected_since: now,
            bytes_sent: 0,
            bytes_received: 0,
            packets_sent: 0,
            packets_received: 0,
        }
    }

    /// Counts one exchange at `now`: the bytes each way, and one packet each
    /// way.
    pub fn update_stats(&mut self, now: u64, bytes_sent: u64, bytes_received: u64)
        requires
            old(self).bytes_sent + bytes_sent <= u64::MAX,
            old(self).bytes_received + bytes_received <= u64::MAX,
            old(self).packets_sent < u64::MAX,
            old(self).packets_received < u64::MAX,
        ensures
            *final(self) == (ConnectionInfo {
                last_seen: now,
                connected_since: old(self).connected_since,
                bytes_sent: (old(self).bytes_sent + bytes_sent) as u64,
                bytes_received: (old(self).bytes_received + bytes_received) as u64,
                packets_sent: (old(self).packets_sent + 1) as u64,
                packets_received: (old(self).packets_received + 1) as u64,
            }),
    {
        self.last_seen = now;
        self.bytes_sent = self.bytes_sent + bytes_sent;
        self.bytes_received = self.bytes_received + bytes_received;
        self.packets_sent = self.packets_sent + 1;
        self.packets_received = self.packets_received + 1;
    }
}

} // verus!
