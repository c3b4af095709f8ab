//! What is kept of an observed `Notify` call, and the recognition of the
//! second copy GNOME relays a moment after the first.
//!
//! Summaries and bodies carry private text: nothing here has `Debug`, and
//! nothing here writes anything anywhere.

use crate::domain::{sat_i64, sat_sub, CaptureState, CaptureStatus, CaptureStatusView};
use crate::text::{
    decimal, int_text, is_canonical_numeral, is_digit, lemma_decimal_canonical,
    lemma_decimal_injective, signed_decimal,
};
use std::collections::VecDeque;
use vstd::prelude::*;
use vstd::utf8::{encode_utf8, encode_utf8_decode_utf8};

verus! {

/// GNOME relays each `Notify` call a second time, roughly two milliseconds
/// later. A one-second window absorbs that without swallowing a genuine
/// repeat the user sends deliberately.
pub const DEDUP_WINDOW_MS: i64 = 1_000;

/// Bounds the dedup memory even if the clock jumps backwards.
pub const DEDUP_CAPACITY: usize = 64;

/// The freedesktop default when a notification carries no `urgency` hint.
pub const DEFAULT_URGENCY: u8 = 1;

/// The highest urgency the specification defines: critical.
pub const CRITICAL_URGENCY: u8 = 2;

/// One observed `Notify` call, stripped of everything the app does not need.
#[derive(Clone, PartialEq, Eq)]
pub struct NotifyEvent {
    pub app_name: String,
    pub summary: String,
    pub body: String,
    pub urgency: u8,
    /// The id the sender is replacing: zero for a new notification.
    pub replaces_id: u32,
}

/// The separator between the fields of a dedup key: the ASCII unit
/// separator.
pub open spec fn separator() -> char {
    '\u{1f}'
}

/// How many bytes `text` takes in UTF-8.
pub open spec fn byte_len(text: Seq<char>) -> nat {
    encode_utf8(text).len()
}

/// One field of a key: its length in bytes, a separator, the text, and a
/// separator.
pub open spec fn framed(text: Seq<char>) -> Seq<char> {
    decimal(byte_len(text)) + seq![separator()] + text + seq![separator()]
}

/// The identity of a notification: the app name, summary and body, each
/// length-prefixed, and the `replaces_id` it carries.
pub open spec fn dedup_key_of(
    app_name: Seq<char>,
    summary: Seq<char>,
    body: Seq<char>,
    replaces_id: u32,
) -> Seq<char> {
    framed(app_name) + framed(summary) + framed(body) + decimal(replaces_id as nat)
}

/// Appends `text` framed by its byte length.
fn push_framed(key: &mut String, text: &String)
    ensures
        final(key)@ == old(key)@ + framed(text@),
{
    let bytes: usize = text.as_str().as_bytes().len();
    let stamp = int_text(bytes as i128);
    let separator = "\u{1f}";
    proof {
        reveal_strlit("\u{1f}");
    }
    key.append(stamp.as_str());
    key.append(separator);
    key.append(text.as_str());
    key.append(separator);
    proof {
        assert(bytes as int == byte_len(text@));
        assert(stamp@ == decimal(byte_len(text@)));
        assert(final(key)@ =~= old(key)@ + framed(text@));
    }
}

impl NotifyEvent {
    /// The identity used to recognise the relayed second copy: the relay
    /// keeps the app name, summary, body and `replaces_id` but adds hints of
    /// its own. Fields are length-prefixed so that text containing the
    /// separator cannot make two different notifications look alike.
    pub fn dedup_key(&self) -> (r: String)
        ensures
            r@ == dedup_key_of(self.app_name@, self.summary@, self.body@, self.replaces_id),
    {
        let mut key = String::new();
        push_framed(&mut key, &self.app_name);
        push_framed(&mut key, &self.summary);
        push_framed(&mut key, &self.body);
        let id = int_text(self.replaces_id as i128);
        key.append(id.as_str());
        proof {
            assert(key@ =~= dedup_key_of(
                self.app_name@,
                self.summary@,
                self.body@,
                self.replaces_id,
            ));
        }
        key
    }
}

// ---------------------------------------------------------------------------
// Keys cannot be forged.

proof fn lemma_encode_concat(a: Seq<char>, b: Seq<char>)
    ensures
        encode_utf8(a + b) == encode_utf8(a) + encode_utf8(b),
    decreases a.len(),
{
    if a.len() == 0 {
        assert(a + b =~= b);
        assert(encode_utf8(a) =~= Seq::<u8>::empty());
        assert(encode_utf8(a) + encode_utf8(b) =~= encode_utf8(b));
    } else {
        lemma_encode_concat(a.drop_first(), b);
        assert((a + b).drop_first() =~= a.drop_first() + b);
        assert((a + b)[0] == a[0]);
        assert(encode_utf8(a + b) =~= encode_utf8(a) + encode_utf8(b));
    }
}

/// Two texts with the same encoding are the same text.
proof fn lemma_encode_injective(a: Seq<char>, b: Seq<char>)
    requires
        encode_utf8(a) == encode_utf8(b),
    ensures
        a == b,
{
    encode_utf8_decode_utf8(a);
    encode_utf8_decode_utf8(b);
}

/// Where two keys agree on a framed field followed by anything, the fields
/// and what follows them agree.
proof fn lemma_framed_prefix(a: Seq<char>, x: Seq<char>, b: Seq<char>, y: Seq<char>)
    requires
        framed(a) + x == framed(b) + y,
    ensures
        a == b,
        x == y,
{
    let da = decimal(byte_len(a));
    let db = decimal(byte_len(b));
    lemma_decimal_canonical(byte_len(a));
    lemma_decimal_canonical(byte_len(b));
    let l = framed(a) + x;
    let sep = separator();
    assert(!is_digit(sep));
    assert(l[da.len() as int] == sep);
    assert((framed(b) + y)[db.len() as int] == sep);
    if da.len() < db.len() {
        assert(l[da.len() as int] == db[da.len() as int]);
        assert(is_digit(db[da.len() as int]));
    }
    if db.len() < da.len() {
        assert(l[db.len() as int] == da[db.len() as int]);
        assert(is_digit(da[db.len() as int]));
    }
    assert(da.len() == db.len());
    assert(da =~= l.subrange(0, da.len() as int));
    assert(db =~= l.subrange(0, db.len() as int));
    lemma_decimal_injective(byte_len(a), byte_len(b));
    let start = da.len() + 1;
    let ra = a + seq![sep] + x;
    let rb = b + seq![sep] + y;
    assert(ra =~= l.subrange(start as int, l.len() as int));
    assert(rb =~= l.subrange(start as int, l.len() as int));
    lemma_encode_concat(a, seq![sep] + x);
    lemma_encode_concat(b, seq![sep] + y);
    assert(a + (seq![sep] + x) =~= ra);
    assert(b + (seq![sep] + y) =~= rb);
    let ea = encode_utf8(a);
    let eb = encode_utf8(b);
    assert(ea =~= encode_utf8(ra).subrange(0, ea.len() as int));
    assert(eb =~= encode_utf8(rb).subrange(0, eb.len() as int));
    lemma_encode_injective(a, b);
    assert(x =~= ra.subrange(a.len() as int + 1, ra.len() as int));
    assert(y =~= rb.subrange(b.len() as int + 1, rb.len() as int));
}

/// Two notifications share a dedup key only if they agree on the app name,
/// summary, body and `replaces_id`, whatever characters those contain.
pub proof fn dedup_keys_identify_notifications(
    app_a: Seq<char>,
    summary_a: Seq<char>,
    body_a: Seq<char>,
    id_a: u32,
    app_b: Seq<char>,
    summary_b: Seq<char>,
    body_b: Seq<char>,
    id_b: u32,
)
    requires
        dedup_key_of(app_a, summary_a, body_a, id_a) == dedup_key_of(
            app_b,
            summary_b,
            body_b,
            id_b,
        ),
    ensures
        app_a == app_b,
        summary_a == summary_b,
        body_a == body_b,
        id_a == id_b,
{
    let tail_a = framed(summary_a) + framed(body_a) + decimal(id_a as nat);
    let tail_b = framed(summary_b) + framed(body_b) + decimal(id_b as nat);
    assert(dedup_key_of(app_a, summary_a, body_a, id_a) =~= framed(app_a) + tail_a);
    assert(dedup_key_of(app_b, summary_b, body_b, id_b) =~= framed(app_b) + tail_b);
    lemma_framed_prefix(app_a, tail_a, app_b, tail_b);
    let rest_a = framed(body_a) + decimal(id_a as nat);
    let rest_b = framed(body_b) + decimal(id_b as nat);
    assert(tail_a =~= framed(summary_a) + rest_a);
    assert(tail_b =~= framed(summary_b) + rest_b);
    lemma_framed_prefix(summary_a, rest_a, summary_b, rest_b);
    lemma_framed_prefix(body_a, decimal(id_a as nat), body_b, decimal(id_b as nat));
    lemma_decimal_injective(id_a as nat, id_b as nat);
}

// ---------------------------------------------------------------------------
// The deduplicator.

/// Drops the second sighting of a notification seen within a short window.
pub struct Deduplicator {
    window_ms: i64,
    recent: VecDeque<(String, i64)>,
}

/// What a deduplicator remembers: its window, and the keys it accepted with
/// the moment of each, oldest first.
#[verifier::ext_equal]
pub struct DedupView {
    pub window_ms: i64,
    pub recent: Seq<(Seq<char>, i64)>,
}

pub open spec fn entries(v: Seq<(String, i64)>) -> Seq<(Seq<char>, i64)> {
    v.map_values(|e: (String, i64)| (e.0@, e.1))
}

impl View for Deduplicator {
    type V = DedupView;

    closed spec fn view(&self) -> DedupView {
        DedupView { window_ms: self.window_ms, recent: entries(self.recent@) }
    }
}

/// `recent` without the entries at its front that are older than the window
/// at `now_ms`. The scan stops at the first entry still inside it.
pub open spec fn pruned(recent: Seq<(Seq<char>, i64)>, now_ms: i64, window_ms: i64) -> Seq<
    (Seq<char>, i64),
>
    decreases recent.len(),
{
    if recent.len() > 0 && sat_i64(now_ms - recent[0].1) > window_ms {
        pruned(recent.drop_first(), now_ms, window_ms)
    } else {
        recent
    }
}

/// Some entry of `recent` has this key.
pub open spec fn remembers(recent: Seq<(Seq<char>, i64)>, key: Seq<char>) -> bool {
    exists|i: int| 0 <= i < recent.len() && (#[trigger] recent[i]).0 == key
}

/// The newest [`DEDUP_CAPACITY`] entries.
pub open spec fn newest(recent: Seq<(Seq<char>, i64)>) -> Seq<(Seq<char>, i64)> {
    if recent.len() > DEDUP_CAPACITY {
        recent.subrange(recent.len() - DEDUP_CAPACITY, recent.len() as int)
    } else {
        recent
    }
}

impl DedupView {
    pub open spec fn fresh(window_ms: i64) -> DedupView {
        DedupView { window_ms, recent: Seq::empty() }
    }

    /// Forgets what has left the window, then accepts `key` unless it is
    /// still remembered; an accepted key is remembered, keeping only the
    /// newest [`DEDUP_CAPACITY`].
    pub open spec fn accept(self, key: Seq<char>, now_ms: i64) -> (DedupView, bool) {
        let kept = pruned(self.recent, now_ms, self.window_ms);
        if remembers(kept, key) {
            (DedupView { recent: kept, ..self }, false)
        } else {
            (DedupView { recent: newest(kept.push((key, now_ms))), ..self }, true)
        }
    }
}

impl Deduplicator {
    pub fn new(window_ms: i64) -> (r: Self)
        ensures
            r@ == DedupView::fresh(window_ms),
    {
        let r = Deduplicator { window_ms, recent: VecDeque::new() };
        assert(r@ =~= DedupView::fresh(window_ms));
        r
    }

    /// True the first time a key is seen, false for a repeat inside the
    /// window; see [`DedupView::accept`].
    pub fn accept(&mut self, key: String, now_ms: i64) -> (r: bool)
        ensures
            (final(self)@, r) == old(self)@.accept(key@, now_ms),
    {
        let ghost start = entries(self.recent@);
        assert(start == old(self)@.recent);
        let mut scanning = true;
        while scanning && self.recent.len() > 0
            invariant
                pruned(entries(self.recent@), now_ms, self.window_ms) == pruned(
                    start,
                    now_ms,
                    old(self)@.window_ms,
                ),
                self.window_ms == old(self)@.window_ms,
                !scanning ==> pruned(entries(self.recent@), now_ms, self.window_ms) == entries(
                    self.recent@,
                ),
            decreases self.recent@.len() + if scanning {
                1int
            } else {
                0int
            },
        {
            let seen_at = self.recent[0].1;
            if sat_sub(now_ms, seen_at) > self.window_ms {
                let ghost before = entries(self.recent@);
                self.recent.pop_front();
                assert(entries(self.recent@) =~= before.drop_first());
            } else {
                scanning = false;
            }
        }
        let ghost kept = entries(self.recent@);
        assert(kept == pruned(start, now_ms, self.window_ms));
        let n = self.recent.len();
        let mut i: usize = 0;
        while i < n
            invariant
                n == self.recent@.len(),
                kept == entries(self.recent@),
                kept == pruned(start, now_ms, old(self)@.window_ms),
                self.window_ms == old(self)@.window_ms,
                start == old(self)@.recent,
                i <= n,
                forall|j: int| 0 <= j < i ==> (#[trigger] kept[j]).0 != key@,
            decreases n - i,
        {
            if self.recent[i].0 == key {
                proof {
                    assert(kept[i as int].0 == key@);
                    assert(remembers(kept, key@));
                }
                assert(self@ =~= (DedupView { recent: kept, ..old(self)@ }));
                return false;
            }
            i = i + 1;
        }
        let ghost k = key@;
        self.recent.push_back((key, now_ms));
        assert(entries(self.recent@) =~= kept.push((k, now_ms)));
        while self.recent.len() > DEDUP_CAPACITY
            invariant
                newest(entries(self.recent@)) == newest(kept.push((k, now_ms))),
                self.window_ms == old(self)@.window_ms,
            decreases self.recent@.len(),
        {
            let ghost before = entries(self.recent@);
            self.recent.pop_front();
            assert(entries(self.recent@) =~= before.drop_first());
            assert(newest(entries(self.recent@)) =~= newest(before));
        }
        assert(newest(entries(self.recent@)) == entries(self.recent@));
        assert(self@ =~= (DedupView { recent: newest(kept.push((k, now_ms))), ..old(self)@ }));
        true
    }
}

impl Default for Deduplicator {
    fn default() -> (r: Self)
        ensures
            r@ == DedupView::fresh(DEDUP_WINDOW_MS),
    {
        Deduplicator::new(DEDUP_WINDOW_MS)
    }
}

// ---------------------------------------------------------------------------
// What the deduplicator promises.

proof fn lemma_pruned_keeps_a_live_entry(
    recent: Seq<(Seq<char>, i64)>,
    now_ms: i64,
    window_ms: i64,
    i: int,
)
    requires
        0 <= i < recent.len(),
        sat_i64(now_ms - recent[i].1) <= window_ms,
    ensures
        remembers(pruned(recent, now_ms, window_ms), recent[i].0),
    decreases recent.len(),
{
    if recent.len() > 0 && sat_i64(now_ms - recent[0].1) > window_ms {
        assert(i > 0);
        assert(recent.drop_first()[i - 1] == recent[i]);
        lemma_pruned_keeps_a_live_entry(recent.drop_first(), now_ms, window_ms, i - 1);
    } else {
        assert(pruned(recent, now_ms, window_ms)[i] == recent[i]);
    }
}

proof fn lemma_pruned_shrinks(recent: Seq<(Seq<char>, i64)>, now_ms: i64, window_ms: i64)
    ensures
        pruned(recent, now_ms, window_ms).len() <= recent.len(),
    decreases recent.len(),
{
    if recent.len() > 0 && sat_i64(now_ms - recent[0].1) > window_ms {
        lemma_pruned_shrinks(recent.drop_first(), now_ms, window_ms);
    }
}

/// Once a key is accepted, the same key is refused for as long as it stays
/// inside the window, however the memory fills up meanwhile with nothing.
pub proof fn a_repeat_inside_the_window_is_refused(
    d: DedupView,
    key: Seq<char>,
    first_at: i64,
    second_at: i64,
)
    requires
        d.accept(key, first_at).1,
        first_at <= second_at,
        second_at - first_at <= d.window_ms,
    ensures
        !d.accept(key, first_at).0.accept(key, second_at).1,
{
    let after = d.accept(key, first_at).0;
    let last = after.recent.len() - 1;
    assert(after.recent[last] == (key, first_at));
    lemma_pruned_keeps_a_live_entry(after.recent, second_at, d.window_ms, last);
}

/// The memory never holds more than [`DEDUP_CAPACITY`] keys.
pub proof fn the_memory_stays_bounded(d: DedupView, key: Seq<char>, now_ms: i64)
    requires
        d.recent.len() <= DEDUP_CAPACITY,
    ensures
        d.accept(key, now_ms).0.recent.len() <= DEDUP_CAPACITY,
        d.accept(key, now_ms).0.window_ms == d.window_ms,
{
    lemma_pruned_shrinks(d.recent, now_ms, d.window_ms);
}

// ---------------------------------------------------------------------------
// Urgency hints.

/// An `urgency` hint as it arrives: the specification says a byte, but
/// senders in the wild use other integer types, and some wrap it in a
/// variant.
pub enum HintValue {
    U8(u8),
    I16(i16),
    U16(u16),
    I32(i32),
    U32(u32),
    I64(i64),
    U64(u64),
    Nested(Box<HintValue>),
    Other,
}

/// The number a hint holds, if it holds one at any depth.
pub open spec fn hint_number(value: HintValue) -> Option<int>
    decreases value,
{
    match value {
        HintValue::U8(v) => Some(v as int),
        HintValue::I16(v) => Some(v as int),
        HintValue::U16(v) => Some(v as int),
        HintValue::I32(v) => Some(v as int),
        HintValue::U32(v) => Some(v as int),
        HintValue::I64(v) => Some(v as int),
        HintValue::U64(v) => Some(v as int),
        HintValue::Nested(inner) => hint_number(*inner),
        HintValue::Other => None,
    }
}

/// The urgency a hint gives: any integer that fits in a byte.
pub fn urgency_from_value(value: &HintValue) -> (r: Option<u8>)
    ensures
        r == (match hint_number(*value) {
            Some(n) => if 0 <= n <= 255 {
                Some(n as u8)
            } else {
                None::<u8>
            },
            None => None,
        }),
    decreases value,
{
    match value {
        HintValue::U8(v) => Some(*v),
        HintValue::I16(v) => if 0 <= *v && *v <= 255 {
            Some(*v as u8)
        } else {
            None
        },
        HintValue::U16(v) => if *v <= 255 {
            Some(*v as u8)
        } else {
            None
        },
        HintValue::I32(v) => if 0 <= *v && *v <= 255 {
            Some(*v as u8)
        } else {
            None
        },
        HintValue::U32(v) => if *v <= 255 {
            Some(*v as u8)
        } else {
            None
        },
        HintValue::I64(v) => if 0 <= *v && *v <= 255 {
            Some(*v as u8)
        } else {
            None
        },
        HintValue::U64(v) => if *v <= 255 {
            Some(*v as u8)
        } else {
            None
        },
        HintValue::Nested(inner) => urgency_from_value(inner),
        HintValue::Other => None,
    }
}

/// The urgency filed for a notification: the hint's, or the freedesktop
/// default without one, never above critical.
pub fn urgency_of(hint: Option<&HintValue>) -> (r: u8)
    ensures
        r == ({
            let u = match hint {
                Some(v) => match hint_number(*v) {
                    Some(n) => if 0 <= n <= 255 {
                        n as u8
                    } else {
                        DEFAULT_URGENCY
                    },
                    None => DEFAULT_URGENCY,
                },
                None => DEFAULT_URGENCY,
            };
            if u > CRITICAL_URGENCY {
                CRITICAL_URGENCY
            } else {
                u
            }
        }),
{
    let u = match hint {
        Some(v) => match urgency_from_value(v) {
            Some(u) => u,
            None => DEFAULT_URGENCY,
        },
        None => DEFAULT_URGENCY,
    };
    if u > CRITICAL_URGENCY {
        CRITICAL_URGENCY
    } else {
        u
    }
}

// ---------------------------------------------------------------------------
// The monitor's end.

pub open spec fn bus_closed_message() -> Seq<char> {
    "the session bus closed the connection"@
}

/// What capture is reported as once the monitoring loop has ended: nothing,
/// if a newer monitor has taken over; otherwise failed, with the bus's
/// error, or, when the bus simply closed the connection, with that. A
/// capture that is no longer happening is never reported as healthy.
pub fn status_after_monitor(failure: Option<&str>, superseded: bool) -> (r: Option<CaptureStatus>)
    ensures
        superseded ==> r is None,
        !superseded ==> (r matches Some(status) && status@ == (CaptureStatusView {
            state: CaptureState::Failed,
            detail: match failure {
                Some(detail) => detail@,
                None => bus_closed_message(),
            },
        })),
{
    if superseded {
        return None;
    }
    match failure {
        Some(detail) => Some(CaptureStatus::failed(detail)),
        None => {
            proof {
                reveal_strlit("the session bus closed the connection");
            }
            Some(CaptureStatus::failed("the session bus closed the connection"))
        },
    }
}

} // verus!
