//! What the client counts while it runs.

use vstd::prelude::*;

verus! {

/// The seconds of which the bytes sent are kept.
pub const HISTORY_LEN: usize = 361;

/// Counters, and the bytes sent in each of the last seconds, newest first.
#[derive(Debug)]
pub struct Stats {
    pub client_running: bool,
    pub client_suspended: bool,
    pub program_start_time: Option<u64>,
    pub last_server_contact: i64,
    pub files_sent: u64,
    pub files_rcvd: u64,
    pub bytes_sent: u64,
    pub bytes_rcvd: u64,
    pub cache_count: u32,
    pub cache_size: u64,
    pub open_connections: u32,
    /// Whether anybody looks at the history. When false, it is neither written nor shifted.
    pub gui_enabled: bool,
    pub bytes_sent_history: Vec<u64>,
}

impl Stats {
    pub open spec fn wf(&self) -> bool {
        self.bytes_sent_history@.len() == HISTORY_LEN
    }

    /// Whether all but the counters of traffic and the history is the same.
    pub open spec fn same_but_traffic(&self, o: &Stats) -> bool {
        &&& self.client_running == o.client_running
        &&& self.client_suspended == o.client_suspended
        &&& self.program_start_time == o.program_start_time
        &&& self.last_server_contact == o.last_server_contact
        &&& self.files_sent == o.files_sent
        &&& self.files_rcvd == o.files_rcvd
        &&& self.bytes_rcvd == o.bytes_rcvd
        &&& self.cache_count == o.cache_count
        &&& self.cache_size == o.cache_size
        &&& self.open_connections == o.open_connections
        &&& self.gui_enabled == o.gui_enabled
    }

    /// Whether nothing was counted yet.
    pub open spec fn is_fresh(&self) -> bool {
        &&& self.wf()
        &&& *self == (Stats {
            client_running: false,
            client_suspended: false,
            program_start_time: None,
            last_server_contact: 0,
            files_sent: 0,
            files_rcvd: 0,
            bytes_sent: 0,
            bytes_rcvd: 0,
            cache_count: 0,
            cache_size: 0,
            open_connections: 0,
            gui_enabled: false,
            bytes_sent_history: self.bytes_sent_history,
        })
        &&& forall|i: int| 0 <= i < HISTORY_LEN ==> self.bytes_sent_history@[i] == 0
    }

    pub fn new() -> (r: Self)
        ensures
            r.is_fresh(),
    {
        Stats {
            client_running: false,
            client_suspended: false,
            program_start_time: None,
            last_server_contact: 0,
            files_sent: 0,
            files_rcvd: 0,
            bytes_sent: 0,
            bytes_rcvd: 0,
            cache_count: 0,
            cache_size: 0,
            open_connections: 0,
            gui_enabled: false,
            bytes_sent_history: vec![0u64; HISTORY_LEN],
        }
    }

    /// Enable history tracking (call when somebody looks at it).
    pub fn enable_gui(&mut self)
        ensures
            *final(self) == (Stats { gui_enabled: true, ..*old(self) }),
    {
        self.gui_enabled = true;
    }

    /// The program runs from now on.
    pub fn program_started(&mut self, now: u64)
        ensures
            *final(self) == (Stats {
                program_start_time: Some(now),
                client_running: true,
                ..*old(self)
            }),
    {
        self.program_start_time = Some(now);
        self.client_running = true;
    }

    /// A server was in contact. The clock is read.
    pub fn record_server_contact(&mut self)
        ensures
            exists|now: i64| 0 <= now && *final(self) == #[trigger] old(self).contacted(now),
    {
        let now: i64 = crate::utils::timestamp_now();
        self.record_server_contact_at(now);
    }

    /// These counters with another time of contact.
    pub open spec fn contacted(&self, now: i64) -> Stats {
        Stats { last_server_contact: now, ..*self }
    }

    /// A server was in contact at that time.
    pub fn record_server_contact_at(&mut self, now: i64)
        ensures
            *final(self) == old(self).contacted(now),
    {
        self.last_server_contact = now;
    }

    pub fn record_file_sent(&mut self)
        ensures
            *final(self) == (Stats {
                files_sent: old(self).files_sent.wrapping_add(1),
                ..*old(self)
            }),
    {
        self.files_sent = self.files_sent.wrapping_add(1);
    }

    pub fn record_file_rcvd(&mut self)
        ensures
            *final(self) == (Stats {
                files_rcvd: old(self).files_rcvd.wrapping_add(1),
                ..*old(self)
            }),
    {
        self.files_rcvd = self.files_rcvd.wrapping_add(1);
    }

    /// Bytes were sent; they count for the current second where the history is kept.
    pub fn record_bytes_sent(&mut self, bytes: u64)
        requires
            old(self).wf(),
        ensures
            final(self).wf(),
            final(self).same_but_traffic(old(self)),
            final(self).bytes_sent == old(self).bytes_sent.wrapping_add(bytes),
            final(self).bytes_sent_history@ == (if old(self).client_running && old(self).gui_enabled {
                old(self).bytes_sent_history@.update(
                    0,
                    old(self).bytes_sent_history@[0].wrapping_add(bytes),
                )
            } else {
                old(self).bytes_sent_history@
            }),
    {
        self.bytes_sent = self.bytes_sent.wrapping_add(bytes);
        if self.client_running && self.gui_enabled {
            let now: u64 = self.bytes_sent_history[0];
            self.bytes_sent_history.set(0, now.wrapping_add(bytes));
        }
    }

    pub fn record_bytes_rcvd(&mut self, bytes: u64)
        ensures
            *final(self) == (Stats {
                bytes_rcvd: old(self).bytes_rcvd.wrapping_add(bytes),
                ..*old(self)
            }),
    {
        self.bytes_rcvd = self.bytes_rcvd.wrapping_add(bytes);
    }

    pub fn set_open_connections(&mut self, count: u32)
        ensures
            *final(self) == (Stats { open_connections: count, ..*old(self) }),
    {
        self.open_connections = count;
    }

    pub fn set_cache_count(&mut self, count: u32)
        ensures
            *final(self) == (Stats { cache_count: count, ..*old(self) }),
    {
        self.cache_count = count;
    }

    pub fn set_cache_size(&mut self, size: u64)
        ensures
            *final(self) == (Stats { cache_size: size, ..*old(self) }),
    {
        self.cache_size = size;
    }

    /// A second has passed: where the history is kept, each second moves one place back, the
    /// oldest is forgotten, and nothing is sent yet in the new one.
    pub fn shift_bytes_sent_history(&mut self)
        requires
            old(self).wf(),
        ensures
            final(self).wf(),
            final(self).same_but_traffic(old(self)),
            final(self).bytes_sent == old(self).bytes_sent,
            final(self).bytes_sent_history@ == (if old(self).gui_enabled {
                seq![0u64] + old(self).bytes_sent_history@.take(HISTORY_LEN - 1)
            } else {
                old(self).bytes_sent_history@
            }),
    {
        if !self.gui_enabled {
            return;
        }
        let ghost before = self.bytes_sent_history@;
        let ghost start = *self;
        let mut i: usize = HISTORY_LEN - 1;
        while i > 0
            invariant
                i < HISTORY_LEN,
                self.bytes_sent_history@.len() == HISTORY_LEN,
                before.len() == HISTORY_LEN,
                self.same_but_traffic(&start),
                self.bytes_sent == start.bytes_sent,
                forall|j: int| 0 <= j <= i ==> self.bytes_sent_history@[j] == before[j],
                forall|j: int| i < j < HISTORY_LEN ==> self.bytes_sent_history@[j] == before[j - 1],
            decreases i,
        {
            let previous: u64 = self.bytes_sent_history[i - 1];
            self.bytes_sent_history.set(i, previous);
            i -= 1;
        }
        self.bytes_sent_history.set(0, 0);
        assert(self.bytes_sent_history@ =~= seq![0u64] + before.take(HISTORY_LEN - 1));
    }
}

impl Default for Stats {
    fn default() -> (r: Self)
        ensures
            r.is_fresh(),
    {
        Self::new()
    }
}

} // verus!
