//! The local store's bookkeeping: where it lives, whether it may be written,
//! what an unreadable file is set aside as, and what recovery points are
//! called and which of them are kept.
//!
//! Reading, writing, renaming and listing files are the application's.

use crate::domain::{AppData, AppView, CaptureState, CaptureStatusView};
use crate::ids::texts;
use crate::paths::{begins_with, join_path, joined};
use crate::text::{chars_of, same_text};
use vstd::relations::{sorted_by, total_ordering};
use crate::schema::{DecodeError, DecodeErrorView};
use crate::text::{decimal, int_text, signed_decimal};
use vstd::prelude::*;

verus! {

/// The store's file name inside the data directory.
pub open spec fn store_file_name() -> Seq<char> {
    "pomodoro.json"@
}

/// `d` without the slashes that end it; a root stays a root.
pub open spec fn without_trailing_slashes(d: Seq<char>) -> Seq<char>
    decreases d.len(),
{
    if d.len() > 1 && d.last() == '/' {
        without_trailing_slashes(d.drop_last())
    } else {
        d
    }
}

/// Where the data lives, and whether it may be written.
pub struct Store {
    path: String,
    directory: String,
    writable: bool,
    migration_pending: bool,
}

#[verifier::ext_equal]
pub struct StoreView {
    pub path: Seq<char>,
    pub directory: Seq<char>,
    /// False once an unreadable store could be neither moved nor copied
    /// aside, or is a newer build's: the file is then the only copy of what
    /// the person had, and is left alone for the rest of the session.
    pub writable: bool,
    /// The file on disk is an older schema, to be backed up before the first
    /// save replaces it.
    pub migration_pending: bool,
}

impl View for Store {
    type V = StoreView;

    closed spec fn view(&self) -> StoreView {
        StoreView {
            path: self.path@,
            directory: self.directory@,
            writable: self.writable,
            migration_pending: self.migration_pending,
        }
    }
}

fn trimmed_directory(d: &str) -> (r: String)
    ensures
        r@ == without_trailing_slashes(d@),
{
    let mut end = d.unicode_len();
    assert(d@.subrange(0, end as int) =~= d@);
    while end > 1 && d.get_char(end - 1) == '/'
        invariant
            end <= d@.len(),
            without_trailing_slashes(d@.subrange(0, end as int)) == without_trailing_slashes(d@),
        decreases end,
    {
        proof {
            let s = d@.subrange(0, end as int);
            assert(s.drop_last() =~= d@.subrange(0, end as int - 1));
        }
        end = end - 1;
    }
    proof {
        let s = d@.subrange(0, end as int);
        if end > 1 {
            assert(s.last() == d@[end as int - 1]);
        }
        if end == d@.len() {
            assert(s =~= d@);
        }
    }
    d.substring_char(0, end).to_owned()
}

impl Store {
    /// The store in `data_dir`: `pomodoro.json` there, writable, nothing
    /// waiting to be migrated.
    pub fn new(data_dir: &str) -> (r: Self)
        ensures
            r@ == (StoreView {
                path: joined(data_dir@, store_file_name()),
                directory: without_trailing_slashes(data_dir@),
                writable: true,
                migration_pending: false,
            }),
    {
        let r = Store {
            path: join_path(data_dir, "pomodoro.json"),
            directory: trimmed_directory(data_dir),
            writable: true,
            migration_pending: false,
        };
        assert(r@ =~= (StoreView {
            path: joined(data_dir@, store_file_name()),
            directory: without_trailing_slashes(data_dir@),
            writable: true,
            migration_pending: false,
        }));
        r
    }

    /// The store's file.
    pub fn path(&self) -> (r: &str)
        ensures
            r@ == self@.path,
    {
        self.path.as_str()
    }

    /// The directory the store's file is in.
    pub fn directory(&self) -> (r: &str)
        ensures
            r@ == self@.directory,
    {
        self.directory.as_str()
    }

    pub fn is_writable(&self) -> (r: bool)
        ensures
            r == self@.writable,
    {
        self.writable
    }

    pub fn migration_pending(&self) -> (r: bool)
        ensures
            r == self@.migration_pending,
    {
        self.migration_pending
    }

    /// Closes the store to writing for the rest of the session.
    pub fn close(&mut self)
        ensures
            final(self)@ == (StoreView { writable: false, ..old(self)@ }),
    {
        self.writable = false;
        assert(self@ =~= (StoreView { writable: false, ..old(self)@ }));
    }

    /// Refuses what would replace data the store cannot write: imports and
    /// clearing history.
    pub fn ensure_writable(&self) -> (r: Result<(), String>)
        ensures
            self@.writable ==> r is Ok,
            !self@.writable ==> (r matches Err(m) && m@ == protected_message()),
    {
        if self.writable {
            Ok(())
        } else {
            Err(
                "The local data file is protected. Repair it and restart Pomodoro before importing or clearing data.".to_owned(),
            )
        }
    }

    /// Takes note of how the file on disk decoded: an older schema is
    /// migrated, and backed up first, at the next save; a newer build's file
    /// must stay where it is, so the store closes.
    pub fn note_decoded(&mut self, verdict: &Result<bool, DecodeError>)
        ensures
            final(self)@ == (match *verdict {
                Ok(migrated) => StoreView { migration_pending: migrated, ..old(self)@ },
                Err(e) => match e@ {
                    DecodeErrorView::FutureVersion(_) => StoreView { writable: false, ..old(self)@ },
                    DecodeErrorView::Invalid(_) => old(self)@,
                },
            }),
    {
        match verdict {
            Ok(migrated) => self.migration_pending = *migrated,
            Err(DecodeError::FutureVersion(_)) => self.writable = false,
            Err(DecodeError::Invalid(_)) => {},
        }
        assert(self@ =~= (match *verdict {
            Ok(migrated) => StoreView { migration_pending: migrated, ..old(self)@ },
            Err(e) => match e@ {
                DecodeErrorView::FutureVersion(_) => StoreView { writable: false, ..old(self)@ },
                DecodeErrorView::Invalid(_) => old(self)@,
            },
        }));
    }

    /// What a save is to do: nothing at all for a store closed to writing;
    /// otherwise write, after backing up the file first when it is an older
    /// schema that still exists.
    pub fn save_plan(&self, file_exists: bool) -> (r: SavePlan)
        ensures
            r == (if !self@.writable {
                SavePlan::Skip
            } else {
                SavePlan::Write { backup_first: self@.migration_pending && file_exists }
            }),
    {
        if !self.writable {
            SavePlan::Skip
        } else {
            SavePlan::Write { backup_first: self.migration_pending && file_exists }
        }
    }

    /// A save went through: the migration, if any, is done.
    pub fn note_saved(&mut self)
        ensures
            final(self)@ == (StoreView { migration_pending: false, ..old(self)@ }),
    {
        self.migration_pending = false;
        assert(self@ =~= (StoreView { migration_pending: false, ..old(self)@ }));
    }

    /// Where an unreadable store is kept when it is set aside at `now_ms`:
    /// beside it, under a name that says when.
    pub fn aside_path(&self, now_ms: i64) -> (r: String)
        ensures
            r@ == joined(self@.directory, aside_name(now_ms)),
    {
        let mut name = "pomodoro.unreadable-".to_owned();
        name.append(int_text(now_ms as i128).as_str());
        name.append(".json");
        assert(name@ =~= aside_name(now_ms));
        join_path(self.directory.as_str(), name.as_str())
    }

    /// The data to start from when the store could not be read: defaults,
    /// with the name the file was kept under, or an empty name when it
    /// could not be kept, which also closes the store so that nothing is
    /// saved over the only copy.
    pub fn after_set_aside(&mut self, kept: bool, now_ms: i64) -> (r: AppData)
        ensures
            r@ == (AppView {
                recovered_store: Some(
                    if kept {
                        aside_name(now_ms)
                    } else {
                        Seq::empty()
                    },
                ),
                ..AppView::initial()
            }),
            final(self)@ == (StoreView { writable: old(self)@.writable && kept, ..old(self)@ }),
    {
        let name = if kept {
            let mut name = "pomodoro.unreadable-".to_owned();
            name.append(int_text(now_ms as i128).as_str());
            name.append(".json");
            assert(name@ =~= aside_name(now_ms));
            name
        } else {
            self.writable = false;
            String::new()
        };
        assert(self@ =~= (StoreView { writable: old(self)@.writable && kept, ..old(self)@ }));
        recovered_data(name)
    }

    /// The data to start from when a store closed to writing could not be
    /// read: defaults, and an empty name to say there is no copy.
    pub fn closed_store_data(&self) -> (r: AppData)
        ensures
            r@ == (AppView { recovered_store: Some(Seq::empty()), ..AppView::initial() }),
    {
        recovered_data(String::new())
    }
}

fn recovered_data(name: String) -> (r: AppData)
    ensures
        r@ == (AppView { recovered_store: Some(name@), ..AppView::initial() }),
{
    let mut data = AppData::default();
    data.recovered_store = Some(name);
    assert(data@ =~= (AppView { recovered_store: Some(name@), ..AppView::initial() }));
    data
}

pub open spec fn protected_message() -> Seq<char> {
    "The local data file is protected. Repair it and restart Pomodoro before importing or clearing data."@
}

/// The name an unreadable store is set aside under.
pub open spec fn aside_name(now_ms: i64) -> Seq<char> {
    "pomodoro.unreadable-"@ + signed_decimal(now_ms as int) + ".json"@
}

/// What a save is to do.
#[derive(Clone, Copy, Debug, PartialEq, Eq, Structural)]
pub enum SavePlan {
    /// The store is closed to writing: succeed without touching the disk.
    Skip,
    /// Write the file, after a recovery point of the old one if asked.
    Write { backup_first: bool },
}

/// `n` written as `{:0width$}` writes it: the sign, then zeros up to the
/// width, then the digits.
pub open spec fn zero_padded(n: int, width: nat) -> Seq<char> {
    let sign: Seq<char> = if n < 0 {
        "-"@
    } else {
        Seq::empty()
    };
    let digits = decimal((if n < 0 {
        -n
    } else {
        n
    }) as nat);
    let used = sign.len() + digits.len();
    let zeros: nat = if used < width {
        (width - used) as nat
    } else {
        0
    };
    sign + Seq::new(zeros, |i: int| '0') + digits
}

/// The name of a recovery point made at `now_ms`: the time padded so that
/// names sort as times do, and a unique part so that two made in the same
/// millisecond do not collide.
pub open spec fn backup_name(now_ms: i64, unique: Seq<char>) -> Seq<char> {
    "pomodoro-"@ + zero_padded(now_ms as int, 20) + "-"@ + unique + ".json"@
}

/// The name a file is written under before it replaces its destination,
/// `unique` keeping two writes apart.
pub open spec fn temporary_name(unique: Seq<char>) -> Seq<char> {
    ".pomodoro-"@ + unique + ".tmp"@
}

/// The name of a temporary file; see [`temporary_name`].
pub fn temporary_file_name(unique: &str) -> (r: String)
    ensures
        r@ == temporary_name(unique@),
{
    let mut name = ".pomodoro-".to_owned();
    name.append(unique);
    name.append(".tmp");
    assert(name@ =~= temporary_name(unique@));
    name
}

/// The file name of a recovery point; see [`backup_name`].
pub fn backup_file_name(now_ms: i64, unique: &str) -> (r: String)
    ensures
        r@ == backup_name(now_ms, unique@),
{
    let wide = now_ms as i128;
    let magnitude: i128 = if wide < 0 {
        -wide
    } else {
        wide
    };
    let digits = int_text(magnitude);
    let mut name = "pomodoro-".to_owned();
    let sign_len: usize = if now_ms < 0 {
        name.append("-");
        1
    } else {
        0
    };
    let len = digits.unicode_len();
    let used: usize = if len < 20 {
        sign_len + len
    } else {
        20
    };
    let ghost start = name@;
    if used < 20 {
        let zeros = 20 - used;
        let mut k: usize = 0;
        while k < zeros
            invariant
                k <= zeros,
                name@ == start + Seq::new(k as nat, |i: int| '0'),
            decreases zeros - k,
        {
            name.append("0");
            proof {
                reveal_strlit("0");
                assert(Seq::new((k + 1) as nat, |i: int| '0') =~= Seq::new(k as nat, |i: int| '0')
                    + "0"@);
            }
            k = k + 1;
        }
    } else {
        assert(Seq::new(0, |i: int| '0') =~= Seq::<char>::empty());
        assert(name@ =~= start + Seq::new(0, |i: int| '0'));
    }
    name.append(digits.as_str());
    name.append("-");
    name.append(unique);
    name.append(".json");
    proof {
        reveal_strlit("-");
        assert(digits@ == decimal((if now_ms < 0 {
            -now_ms
        } else {
            now_ms as int
        }) as nat));
        assert(name@ =~= backup_name(now_ms, unique@));
    }
    name
}


// ---------------------------------------------------------------------------
// Rotating recovery points.

/// `a` sorts no later than `b`, character by character as their code
/// points compare, a prefix first. On file names this is the order of their
/// UTF-8 bytes, which is how paths in one directory compare.
pub open spec fn text_le(a: Seq<char>, b: Seq<char>) -> bool
    decreases a.len(),
{
    if a.len() == 0 {
        true
    } else if b.len() == 0 {
        false
    } else if a[0] != b[0] {
        (a[0] as int) < (b[0] as int)
    } else {
        text_le(a.drop_first(), b.drop_first())
    }
}

pub open spec fn text_order() -> spec_fn(Seq<char>, Seq<char>) -> bool {
    |a: Seq<char>, b: Seq<char>| text_le(a, b)
}

proof fn lemma_text_le_reflexive(a: Seq<char>)
    ensures
        text_le(a, a),
    decreases a.len(),
{
    if a.len() > 0 {
        lemma_text_le_reflexive(a.drop_first());
    }
}

proof fn lemma_text_le_antisymmetric(a: Seq<char>, b: Seq<char>)
    requires
        text_le(a, b),
        text_le(b, a),
    ensures
        a == b,
    decreases a.len(),
{
    if a.len() == 0 {
        assert(b.len() == 0);
        assert(a =~= b);
    } else {
        assert(b.len() > 0);
        if a[0] != b[0] {
            assert((a[0] as int) < (b[0] as int) && (b[0] as int) < (a[0] as int));
        } else {
            lemma_text_le_antisymmetric(a.drop_first(), b.drop_first());
            assert(a =~= seq![a[0]] + a.drop_first());
            assert(b =~= seq![b[0]] + b.drop_first());
        }
    }
}

proof fn lemma_text_le_transitive(a: Seq<char>, b: Seq<char>, c: Seq<char>)
    requires
        text_le(a, b),
        text_le(b, c),
    ensures
        text_le(a, c),
    decreases a.len(),
{
    if a.len() > 0 {
        assert(b.len() > 0);
        assert(c.len() > 0);
        if a[0] == b[0] && b[0] == c[0] {
            lemma_text_le_transitive(a.drop_first(), b.drop_first(), c.drop_first());
        } else {
            assert(a[0] as int <= b[0] as int);
            assert(b[0] as int <= c[0] as int);
            if a[0] == c[0] {
                assert(a[0] as int == c[0] as int);
                assert(a[0] == b[0]);
            }
        }
    }
}

proof fn lemma_text_le_total(a: Seq<char>, b: Seq<char>)
    ensures
        text_le(a, b) || text_le(b, a),
    decreases a.len(),
{
    if a.len() > 0 && b.len() > 0 && a[0] == b[0] {
        lemma_text_le_total(a.drop_first(), b.drop_first());
    } else if a.len() > 0 && b.len() > 0 {
        assert(a[0] as int != b[0] as int);
    }
}

/// The text order is a total order.
pub proof fn lemma_text_order_is_total()
    ensures
        total_ordering(text_order()),
{
    assert forall|a: Seq<char>| #[trigger] text_order()(a, a) by {
        lemma_text_le_reflexive(a);
    }
    assert forall|a: Seq<char>, b: Seq<char>|
        #[trigger] text_order()(a, b) && #[trigger] text_order()(b, a) implies a == b by {
        lemma_text_le_antisymmetric(a, b);
    }
    assert forall|a: Seq<char>, b: Seq<char>, c: Seq<char>|
        #[trigger] text_order()(a, b) && #[trigger] text_order()(b, c) implies text_order()(
        a,
        c,
    ) by {
        lemma_text_le_transitive(a, b, c);
    }
    assert forall|a: Seq<char>, b: Seq<char>|
        #[trigger] text_order()(a, b) || #[trigger] text_order()(b, a) by {
        lemma_text_le_total(a, b);
    }
}

/// Whether `a` sorts no later than `b`; see [`text_le`].
pub fn text_not_after(a: &str, b: &str) -> (r: bool)
    ensures
        r == text_le(a@, b@),
{
    let x = chars_of(a);
    let y = chars_of(b);
    let mut i: usize = 0;
    assert(a@.skip(0) =~= a@);
    assert(b@.skip(0) =~= b@);
    while i < x.len() && i < y.len() && x[i] == y[i]
        invariant
            x@ == a@,
            y@ == b@,
            i <= x@.len(),
            i <= y@.len(),
            text_le(a@, b@) == text_le(a@.skip(i as int), b@.skip(i as int)),
        decreases x@.len() - i,
    {
        proof {
            assert(a@.skip(i as int).drop_first() =~= a@.skip(i as int + 1));
            assert(b@.skip(i as int).drop_first() =~= b@.skip(i as int + 1));
            assert(a@.skip(i as int)[0] == b@.skip(i as int)[0]);
        }
        i = i + 1;
    }
    if i == x.len() {
        assert(a@.skip(i as int).len() == 0);
        true
    } else if i == y.len() {
        assert(b@.skip(i as int).len() == 0);
        false
    } else {
        assert(a@.skip(i as int)[0] == x@[i as int]);
        assert(b@.skip(i as int)[0] == y@[i as int]);
        x[i] < y[i]
    }
}

/// `v` sorted by [`text_order`].
pub fn sort_texts(v: &Vec<String>) -> (r: Vec<String>)
    ensures
        texts(r@).to_multiset() == texts(v@).to_multiset(),
        sorted_by(texts(r@), text_order()),
{
    proof {
        lemma_text_order_is_total();
    }
    let mut out: Vec<String> = Vec::new();
    let mut i: usize = 0;
    assert(texts(out@) =~= texts(v@).subrange(0, 0));
    while i < v.len()
        invariant
            i <= v@.len(),
            total_ordering(text_order()),
            texts(out@).to_multiset() == texts(v@).subrange(0, i as int).to_multiset(),
            sorted_by(texts(out@), text_order()),
        decreases v@.len() - i,
    {
        let x = v[i].clone();
        let mut p: usize = 0;
        while p < out.len() && text_not_after(out[p].as_str(), x.as_str())
            invariant
                p <= out@.len(),
                forall|j: int| 0 <= j < p ==> text_le(#[trigger] out@[j]@, x@),
            decreases out@.len() - p,
        {
            p = p + 1;
        }
        let ghost before = texts(out@);
        proof {
            if p < out@.len() {
                lemma_text_le_total(out@[p as int]@, x@);
            }
        }
        out.insert(p, x);
        proof {
            assert(texts(out@) =~= before.insert(p as int, x@));
            vstd::seq_lib::to_multiset_insert(before, p as int, x@);
            let t = texts(v@).subrange(0, i as int + 1);
            assert(t =~= texts(v@).subrange(0, i as int).push(x@));
            vstd::seq_lib::to_multiset_build(texts(v@).subrange(0, i as int), x@);
            let s = texts(out@);
            assert forall|a: int, b: int| 0 <= a < b < s.len() implies #[trigger] text_order()(
                s[a],
                s[b],
            ) by {
                if b == p as int {
                    assert(s[a] == before[a]);
                } else if a == p as int {
                    assert(s[b] == before[b - 1]);
                    if p < before.len() {
                        assert(text_le(x@, before[p as int]));
                        if b - 1 > p as int {
                            assert(text_order()(before[p as int], before[b - 1]));
                            lemma_text_le_transitive(x@, before[p as int], before[b - 1]);
                        }
                    }
                } else if a < p as int && b > p as int {
                    assert(s[a] == before[a]);
                    assert(s[b] == before[b - 1]);
                    assert(text_order()(before[a], before[b - 1]));
                } else if b < p as int {
                    assert(s[a] == before[a] && s[b] == before[b]);
                    assert(text_order()(before[a], before[b]));
                } else {
                    assert(s[a] == before[a - 1] && s[b] == before[b - 1]);
                    assert(text_order()(before[a - 1], before[b - 1]));
                }
            }
        }
        i = i + 1;
    }
    assert(texts(v@).subrange(0, v@.len() as int) =~= texts(v@));
    out
}

/// `s` ends with `suffix`.
pub open spec fn ends_with(s: Seq<char>, suffix: Seq<char>) -> bool {
    s.len() >= suffix.len() && s.subrange(s.len() - suffix.len(), s.len() as int) == suffix
}

/// A file in the backups folder that is one of Pomodoro's recovery points.
pub open spec fn is_backup_name(name: Seq<char>) -> bool {
    begins_with(name, "pomodoro-"@) && ends_with(name, ".json"@)
}

/// The recovery points that rotation may remove: every one but the one
/// just written.
pub open spec fn rotation_candidates(names: Seq<Seq<char>>, newest: Seq<char>) -> Seq<Seq<char>>
    decreases names.len(),
{
    if names.len() == 0 {
        Seq::empty()
    } else {
        let kept = rotation_candidates(names.drop_last(), newest);
        let last = names.last();
        if is_backup_name(last) && last != newest {
            kept.push(last)
        } else {
            kept
        }
    }
}

/// How many recovery points are kept besides the one just written.
pub const KEPT_OLDER_BACKUPS: usize = 4;

/// The recovery points to remove, oldest first: all the candidates but the
/// [`KEPT_OLDER_BACKUPS`] that sort last. Names sort as times do.
pub open spec fn obsolete_backup_names(names: Seq<Seq<char>>, newest: Seq<char>) -> Seq<Seq<char>> {
    let sorted = rotation_candidates(names, newest).sort_by(text_order());
    let count = if sorted.len() > KEPT_OLDER_BACKUPS {
        sorted.len() - KEPT_OLDER_BACKUPS
    } else {
        0
    };
    sorted.take(count)
}

fn ends_with_text(s: &str, suffix: &str) -> (r: bool)
    ensures
        r == ends_with(s@, suffix@),
{
    let n = s.unicode_len();
    let m = suffix.unicode_len();
    n >= m && same_text(s.substring_char(n - m, n), suffix)
}

fn begins_with_text(s: &str, prefix: &str) -> (r: bool)
    ensures
        r == begins_with(s@, prefix@),
{
    let n = s.unicode_len();
    let m = prefix.unicode_len();
    n >= m && same_text(s.substring_char(0, m), prefix)
}

/// The names of the files in the backups folder that rotation removes
/// after writing `newest`: the five newest recovery points, the new one
/// among them, survive, and so does everything that is not a recovery
/// point. The application passes only regular files.
pub fn obsolete_backups(names: &Vec<String>, newest: &str) -> (r: Vec<String>)
    ensures
        texts(r@) == obsolete_backup_names(texts(names@), newest@),
{
    let mut candidates: Vec<String> = Vec::new();
    let mut i: usize = 0;
    while i < names.len()
        invariant
            i <= names@.len(),
            texts(candidates@) == rotation_candidates(texts(names@).subrange(0, i as int), newest@),
        decreases names@.len() - i,
    {
        let name = names[i].as_str();
        proof {
            let s = texts(names@).subrange(0, i as int + 1);
            assert(s.drop_last() =~= texts(names@).subrange(0, i as int));
            assert(s.last() == name@);
        }
        if begins_with_text(name, "pomodoro-") && ends_with_text(name, ".json") && !same_text(
            name,
            newest,
        ) {
            let ghost before = candidates@;
            candidates.push(names[i].clone());
            assert(texts(candidates@) =~= texts(before).push(name@));
        }
        i = i + 1;
    }
    assert(texts(names@).subrange(0, names@.len() as int) =~= texts(names@));
    let sorted = sort_texts(&candidates);
    let ghost want = texts(candidates@).sort_by(text_order());
    proof {
        lemma_text_order_is_total();
        texts(candidates@).lemma_sort_by_ensures(text_order());
        vstd::seq_lib::lemma_sorted_unique(texts(sorted@), want, text_order());
        assert(texts(sorted@).len() == want.len());
    }
    let count = if sorted.len() > KEPT_OLDER_BACKUPS {
        sorted.len() - KEPT_OLDER_BACKUPS
    } else {
        0
    };
    let mut out: Vec<String> = Vec::new();
    let mut k: usize = 0;
    while k < count
        invariant
            k <= count,
            count <= sorted@.len(),
            texts(sorted@) == want,
            texts(out@) == want.take(k as int),
        decreases count - k,
    {
        let ghost before = out@;
        out.push(sorted[k].clone());
        proof {
            assert(texts(out@) =~= texts(before).push(sorted@[k as int]@));
            assert(want.take(k as int + 1) =~= want.take(k as int).push(want[k as int]));
        }
        k = k + 1;
    }
    out
}

/// Rotation never removes the recovery point just written, removes only
/// recovery points, and always keeps the newest of the others: whatever it
/// removes sorts before whatever it keeps.
pub proof fn rotation_keeps_the_newest(names: Seq<Seq<char>>, newest: Seq<char>)
    ensures
        !obsolete_backup_names(names, newest).contains(newest),
        forall|x: Seq<char>|
            obsolete_backup_names(names, newest).contains(x) ==> is_backup_name(x) && names.contains(
                x,
            ),
        obsolete_backup_names(names, newest).len() + KEPT_OLDER_BACKUPS >= rotation_candidates(
            names,
            newest,
        ).len(),
{
    lemma_candidates(names, newest);
    lemma_text_order_is_total();
    let c = rotation_candidates(names, newest);
    c.lemma_sort_by_ensures(text_order());
    let sorted = c.sort_by(text_order());
    let out = obsolete_backup_names(names, newest);
    assert forall|x: Seq<char>| out.contains(x) implies is_backup_name(x) && names.contains(x)
        && x != newest by {
        let w = choose|w: int| 0 <= w < out.len() && out[w] == x;
        assert(sorted[w] == x);
        assert(sorted.contains(x));
        assert(c.contains(x));
    }
    if out.contains(newest) {
        let w = choose|w: int| 0 <= w < out.len() && out[w] == newest;
        assert(sorted[w] == newest);
        assert(sorted.contains(newest));
        assert(c.contains(newest));
    }
    vstd::seq_lib::to_multiset_len(c);
    vstd::seq_lib::to_multiset_len(sorted);
}

proof fn lemma_candidates(names: Seq<Seq<char>>, newest: Seq<char>)
    ensures
        forall|x: Seq<char>|
            #[trigger] rotation_candidates(names, newest).contains(x) ==> is_backup_name(x) && x
                != newest && names.contains(x),
    decreases names.len(),
{
    if names.len() > 0 {
        let rest = names.drop_last();
        lemma_candidates(rest, newest);
        let kept = rotation_candidates(rest, newest);
        let c = rotation_candidates(names, newest);
        let last = names.last();
        assert forall|x: Seq<char>| c.contains(x) implies is_backup_name(x) && x != newest
            && names.contains(x) by {
            let w = choose|w: int| 0 <= w < c.len() && c[w] == x;
            if w < kept.len() {
                assert(c[w] == kept[w]);
                assert(kept.contains(x));
                assert(rest.contains(x));
                let v = choose|v: int| 0 <= v < rest.len() && rest[v] == x;
                assert(names[v] == x);
            } else {
                assert(c == kept.push(last));
                assert(x == last);
                assert(names[names.len() - 1] == x);
            }
        }
    }
}

} // verus!
