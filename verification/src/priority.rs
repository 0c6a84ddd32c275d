//! Critical windows: short spans in which packets go out on the best link.
//!
//! An encoder that is about to send a keyframe opens a window with a datagram of
//! five bytes: a magic byte, then the window's length in milliseconds as a
//! big-endian 32-bit number.

use crate::bytes::{read_word, word_at, word_bytes, word_roundtrip};
use vstd::prelude::*;

verus! {

/// First byte of every datagram.
pub const PROTO_MAGIC: u8 = 0xc1;

/// Length of a datagram.
pub const DATAGRAM_LEN: usize = 5;

/// The end of the present window, and what came in so far. It cannot be copied: the
/// listener and the sender share one.
#[derive(Debug, PartialEq, Eq, Structural)]
pub struct CriticalWindow {
    pub deadline_ms: u64,
    pub windows_received: u64,
    pub malformed_datagrams: u64,
}

/// The later of two times.
pub open spec fn later(a: u64, b: u64) -> u64 {
    if a >= b {
        a
    } else {
        b
    }
}

/// The next value of a counter that starts over after its largest.
pub open spec fn counted(n: u64) -> u64 {
    if n == u64::MAX {
        0
    } else {
        (n + 1) as u64
    }
}

fn count(n: u64) -> (r: u64)
    ensures
        r == counted(n),
{
    if n == u64::MAX {
        0
    } else {
        n + 1
    }
}

/// Whether `data` is a datagram that opens a window.
pub open spec fn opens_window(data: Seq<u8>) -> bool {
    data.len() == DATAGRAM_LEN && data[0] == PROTO_MAGIC
}

impl CriticalWindow {
    /// No window, nothing received.
    pub open spec fn spec_new() -> Self {
        CriticalWindow { deadline_ms: 0, windows_received: 0, malformed_datagrams: 0 }
    }

    /// No window, nothing received.
    pub fn new() -> (w: Self)
        ensures
            w == Self::spec_new(),
    {
        CriticalWindow { deadline_ms: 0, windows_received: 0, malformed_datagrams: 0 }
    }

    /// The state after a window that ends at `deadline_ms` came in.
    pub open spec fn extended(&self, deadline_ms: u64) -> Self {
        CriticalWindow {
            deadline_ms: later(self.deadline_ms, deadline_ms),
            windows_received: counted(self.windows_received),
            ..*self
        }
    }

    /// Takes in a window that ends at `deadline_ms`. It can only push the end
    /// forward.
    pub fn extend_to(&mut self, deadline_ms: u64)
        ensures
            *final(self) == old(self).extended(deadline_ms),
    {
        if deadline_ms > self.deadline_ms {
            self.deadline_ms = deadline_ms;
        }
        self.windows_received = count(self.windows_received);
    }

    /// Whether a window is open at `now_ms`.
    pub fn is_critical_now(&self, now_ms: u64) -> (r: bool)
        ensures
            r == (now_ms < self.deadline_ms),
    {
        self.deadline_ms > now_ms
    }

    /// Windows received so far.
    pub fn windows_received(&self) -> (n: u64)
        ensures
            n == self.windows_received,
    {
        self.windows_received
    }

    /// Datagrams received so far that open no window.
    pub fn malformed_datagrams(&self) -> (n: u64)
        ensures
            n == self.malformed_datagrams,
    {
        self.malformed_datagrams
    }

    /// Opens a window without a datagram.
    pub fn force_window(&mut self, deadline_ms: u64)
        ensures
            *final(self) == old(self).extended(deadline_ms),
    {
        self.extend_to(deadline_ms);
    }

    /// The state after a datagram came in at `now_ms`.
    pub open spec fn after_datagram(&self, data: Seq<u8>, now_ms: u64) -> Self {
        if opens_window(data) {
            self.extended((now_ms + word_at(data, 1)) as u64)
        } else {
            CriticalWindow { malformed_datagrams: counted(self.malformed_datagrams), ..*self }
        }
    }

    /// Takes in a datagram at `now_ms`: the window that it opens, or one more
    /// malformed datagram.
    pub fn handle_datagram(&mut self, data: &[u8], now_ms: u64)
        requires
            now_ms <= u64::MAX - u32::MAX,
        ensures
            *final(self) == old(self).after_datagram(data@, now_ms),
    {
        if data.len() != DATAGRAM_LEN || data[0] != PROTO_MAGIC {
            self.malformed_datagrams = count(self.malformed_datagrams);
            return;
        }
        let window_ms: u64 = read_word(data, 1) as u64;
        self.extend_to(now_ms + window_ms);
    }
}

impl Default for CriticalWindow {
    fn default() -> (w: Self)
        ensures
            w == Self::spec_new(),
    {
        Self::new()
    }
}

/// A window that comes in never closes or shortens the one that is open.
pub proof fn windows_only_extend(w: CriticalWindow, deadline_ms: u64, now_ms: u64)
    ensures
        now_ms < w.deadline_ms ==> now_ms < w.extended(deadline_ms).deadline_ms,
        now_ms < deadline_ms ==> now_ms < w.extended(deadline_ms).deadline_ms,
        now_ms >= w.deadline_ms && now_ms >= deadline_ms ==> now_ms >= w.extended(
            deadline_ms,
        ).deadline_ms,
{
}

/// The window after each of several deadlines came in.
pub open spec fn extended_by_all(w: CriticalWindow, deadlines: Seq<u64>) -> CriticalWindow
    decreases deadlines.len(),
{
    if deadlines.len() == 0 {
        w
    } else {
        extended_by_all(w, deadlines.drop_last()).extended(deadlines.last())
    }
}

/// A window that was new is open exactly before the latest of the deadlines that came
/// in, in whatever order they came.
pub proof fn window_is_open_until_the_latest(w: CriticalWindow, deadlines: Seq<u64>, now_ms: u64)
    requires
        w.deadline_ms == 0,
    ensures
        now_ms < extended_by_all(w, deadlines).deadline_ms <==> exists|i: int|
            0 <= i < deadlines.len() && now_ms < #[trigger] deadlines[i],
    decreases deadlines.len(),
{
    if deadlines.len() > 0 {
        let front = deadlines.drop_last();
        window_is_open_until_the_latest(w, front, now_ms);
        assert forall|i: int| 0 <= i < deadlines.len() && now_ms < #[trigger] deadlines[i] implies now_ms
            < extended_by_all(w, deadlines).deadline_ms by {
            if i < front.len() {
                assert(now_ms < front[i]);
            }
        }
        if now_ms < extended_by_all(w, deadlines).deadline_ms {
            if now_ms < deadlines.last() {
                assert(now_ms < deadlines[deadlines.len() - 1]);
            } else {
                let i = choose|i: int| 0 <= i < front.len() && now_ms < #[trigger] front[i];
                assert(now_ms < deadlines[i]);
            }
        }
    }
}

/// A datagram built from a length opens a window of that length.
pub proof fn datagram_roundtrip(window_ms: u32)
    ensures
        opens_window(seq![PROTO_MAGIC] + word_bytes(window_ms)),
        word_at(seq![PROTO_MAGIC] + word_bytes(window_ms), 1) == window_ms,
{
    let s = seq![PROTO_MAGIC] + word_bytes(window_ms);
    assert(s.subrange(1, 5) =~= word_bytes(window_ms));
    word_roundtrip(s, 1, window_ms);
}

/// A datagram of the first byte 0xc1 and a length in milliseconds opens a window from now
/// on for as long, or leaves a longer one open. Any other datagram opens none and counts as
/// malformed.
pub proof fn datagram_opens_a_window(
    w: CriticalWindow,
    window_ms: u32,
    data: Seq<u8>,
    now_ms: u64,
    at_ms: u64,
)
    requires
        now_ms <= u64::MAX - u32::MAX,
        w.windows_received < u64::MAX,
        w.malformed_datagrams < u64::MAX,
    ensures
        ({
            let good = w.after_datagram(seq![0xc1u8] + word_bytes(window_ms), now_ms);
            &&& at_ms < good.deadline_ms <==> at_ms < w.deadline_ms || at_ms < now_ms + window_ms
            &&& good.windows_received == w.windows_received + 1
            &&& good.malformed_datagrams == w.malformed_datagrams
        }),
        data.len() != 5 || data[0] != 0xc1 ==> {
            let bad = w.after_datagram(data, now_ms);
            &&& bad.deadline_ms == w.deadline_ms
            &&& bad.windows_received == w.windows_received
            &&& bad.malformed_datagrams == w.malformed_datagrams + 1
        },
{
    datagram_roundtrip(window_ms);
}

} // verus!
