//! Decisions behind desktop notifications, and the tray's events.
//!
//! A notification announces a new message with its sender and a preview.
//! They can be switched off, at most one is shown per second, and a long
//! preview is cut at a character boundary to at most 97 bytes followed by
//! an ellipsis. Showing it is left to the caller.
use vstd::prelude::*;
use vstd::string::*;
use crate::text::utf8_len;
use crate::types::Timestamp;

verus! {

/// Least time between two notifications, in milliseconds.
pub const MIN_NOTIFICATION_INTERVAL_MS: i64 = 1000;

/// Longest preview shown whole, in bytes.
pub const MAX_PREVIEW_BYTES: usize = 100;

/// Bytes kept of a preview that is cut.
pub const CUT_PREVIEW_BYTES: usize = 97;

/// What the tray menu asks of the daemon.
#[derive(Debug, Clone, Copy, PartialEq, Eq, Structural)]
pub enum TrayEvent {
    /// Open the chat client.
    OpenChat,
    /// Shut the daemon down.
    Quit,
}

/// A notification to show.
#[derive(Debug)]
pub struct Notice {
    pub summary: String,
    pub body: String,
}

/// `k` characters of `s` are the longest prefix within 97 bytes.
pub open spec fn cut_point(s: Seq<char>, k: int) -> bool {
    &&& 0 <= k <= s.len()
    &&& utf8_len(s.subrange(0, k)) <= CUT_PREVIEW_BYTES
    &&& (k == s.len() || utf8_len(s.subrange(0, k + 1)) > CUT_PREVIEW_BYTES)
}

/// The preview shown for `s`: whole if it is at most 100 bytes, else its
/// longest prefix within 97 bytes followed by "...".
pub open spec fn preview_of(s: Seq<char>, body: Seq<char>) -> bool {
    if utf8_len(s) <= MAX_PREVIEW_BYTES {
        body == s
    } else {
        exists|k: int| cut_point(s, k) && body == s.subrange(0, k) + seq!['.', '.', '.']
    }
}

/// The preview of a message.
pub fn preview(s: &str) -> (r: String)
    ensures
        preview_of(s@, r@),
{
    if s.len() <= MAX_PREVIEW_BYTES {
        return String::from_str(s);
    }
    let n = s.unicode_len();
    let mut k: usize = 0;
    assert(s@.subrange(0, 0) =~= Seq::<char>::empty());
    assert(utf8_len(Seq::<char>::empty()) == 0) by {
        reveal_with_fuel(vstd::utf8::encode_utf8, 1);
    }
    while k < n && s.substring_char(0, k + 1).len() <= CUT_PREVIEW_BYTES
        invariant
            n == s@.len(),
            k <= n,
            utf8_len(s@.subrange(0, k as int)) <= CUT_PREVIEW_BYTES,
        decreases n - k,
    {
        k = k + 1;
    }
    assert(cut_point(s@, k as int));
    let head = String::from_str(s.substring_char(0, k));
    proof {
        reveal_strlit("...");
    }
    let r = head.concat("...");
    assert(r@ =~= s@.subrange(0, k as int) + seq!['.', '.', '.']);
    r
}

/// Whether notifications are on, and when the last one was shown.
#[derive(Debug)]
pub struct NotificationManager {
    pub last_notification: Option<Timestamp>,
    pub enabled: bool,
}

impl NotificationManager {
    /// Notifications on, none shown yet.
    pub fn new() -> (r: Self)
        ensures
            r.enabled,
            r.last_notification is None,
    {
        NotificationManager { last_notification: None, enabled: true }
    }

    /// Switches notifications on or off.
    pub fn set_enabled(&mut self, enabled: bool)
        ensures
            final(self).enabled == enabled,
            final(self).last_notification == old(self).last_notification,
    {
        self.enabled = enabled;
    }

    /// The notification for a message from `sender_name` at time `now`:
    /// none while notifications are off or within a second of the last one.
    pub fn plan(&self, now: Timestamp, sender_name: &str, message: &str) -> (r: Option<Notice>)
        ensures
            r is Some <==> (self.enabled && match self.last_notification {
                Some(last) => now.0 - last.0 >= MIN_NOTIFICATION_INTERVAL_MS,
                None => true,
            }),
            r matches Some(n) ==> n.summary@ == seq!['F', 'a', 'm', 'i', 'l', 'y', 'C', 'o', 'm', ' ', '-', ' ']
                + sender_name@ && preview_of(message@, n.body@),
    {
        if !self.enabled {
            return None;
        }
        match self.last_notification {
            Some(last) => {
                if (now.0 as i128) - (last.0 as i128) < (MIN_NOTIFICATION_INTERVAL_MS as i128) {
                    return None;
                }
            },
            None => {},
        }
        proof {
            reveal_strlit("FamilyCom - ");
        }
        let summary = String::from_str("FamilyCom - ").concat(sender_name);
        Some(Notice { summary, body: preview(message) })
    }

    /// Records that a notification was shown at `now`.
    pub fn shown(&mut self, now: Timestamp)
        ensures
            final(self).last_notification == Some(now),
            final(self).enabled == old(self).enabled,
    {
        self.last_notification = Some(now);
    }
}

} // verus!
