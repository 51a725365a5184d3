//! Help cache store: a versioned, keyed, time-bounded record of rebranded
//! help text.
//!
//! The store works on the parsed content of the single backing file: absent,
//! corrupt, or a record. Reading and writing the file itself, and encoding
//! the record, happen outside the library; the rules of the store — version
//! checks, expiry, corrupt-record disposal, and the load-merge-store cycle
//! of a save — are all here.

use vstd::prelude::*;

use crate::errors::LauncherError;
use crate::text::str_eq;

verus! {

/// A record is served only while its age is at most this many seconds.
pub const MAX_AGE_SECS: u64 = 86400;

/// One cache record: the version pair that produced it, its creation time,
/// and the help text for each scope-key (empty key = top-level help).
pub struct CacheRecord {
    /// Version of the delegated tool that generated the cached text.
    pub openclaw_version: String,
    /// Version of the launcher that generated the cached text.
    pub chitin_version: String,
    /// Creation time, seconds since the epoch.
    pub timestamp: u64,
    /// Help text for each scope-key.
    pub entries: Vec<(String, String)>,
}

/// The mathematical content of a record.
pub struct RecordModel {
    pub producer: Seq<char>,
    pub launcher: Seq<char>,
    pub stamp: u64,
    pub entries: Seq<(Seq<char>, Seq<char>)>,
}

/// The view of an entry list.
pub open spec fn entries_view(es: Seq<(String, String)>) -> Seq<(Seq<char>, Seq<char>)> {
    Seq::new(es.len(), |i: int| (es[i].0@, es[i].1@))
}

/// The model of a record.
pub open spec fn record_model(rec: CacheRecord) -> RecordModel {
    RecordModel {
        producer: rec.openclaw_version@,
        launcher: rec.chitin_version@,
        stamp: rec.timestamp,
        entries: entries_view(rec.entries@),
    }
}

/// The text stored under `k`, if any: the value of the first entry whose
/// key is `k`.
pub open spec fn lookup_entry(es: Seq<(Seq<char>, Seq<char>)>, k: Seq<char>) -> Option<Seq<char>>
    decreases es.len(),
{
    if es.len() == 0 {
        None
    } else if es[0].0 == k {
        Some(es[0].1)
    } else {
        lookup_entry(es.skip(1), k)
    }
}

/// `es` with the entry for `k` set to `t`: overwrites the first entry whose
/// key is `k`, or appends one.
pub open spec fn insert_entry(
    es: Seq<(Seq<char>, Seq<char>)>,
    k: Seq<char>,
    t: Seq<char>,
) -> Seq<(Seq<char>, Seq<char>)>
    decreases es.len(),
{
    if es.len() == 0 {
        seq![(k, t)]
    } else if es[0].0 == k {
        seq![(k, t)] + es.skip(1)
    } else {
        seq![es[0]] + insert_entry(es.skip(1), k, t)
    }
}

/// No two entries share a key.
pub open spec fn unique_keys(es: Seq<(Seq<char>, Seq<char>)>) -> bool {
    forall|i: int, j: int| 0 <= i < j < es.len() ==> es[i].0 != es[j].0
}

/// After setting `k` to `t`, looking `k` up yields `t`.
pub proof fn lemma_lookup_insert_same(es: Seq<(Seq<char>, Seq<char>)>, k: Seq<char>, t: Seq<char>)
    ensures
        lookup_entry(insert_entry(es, k, t), k) == Some(t),
    decreases es.len(),
{
    let r = insert_entry(es, k, t);
    if es.len() == 0 {
        assert(r[0] == (k, t));
    } else if es[0].0 == k {
        assert(r[0] == (k, t));
    } else {
        assert(r[0] == es[0]);
        lemma_lookup_insert_same(es.skip(1), k, t);
        assert(r.skip(1) =~= insert_entry(es.skip(1), k, t));
    }
}

/// Setting `k` leaves every other key's entry as it was.
pub proof fn lemma_lookup_insert_other(
    es: Seq<(Seq<char>, Seq<char>)>,
    k: Seq<char>,
    t: Seq<char>,
    k2: Seq<char>,
)
    requires
        k2 != k,
    ensures
        lookup_entry(insert_entry(es, k, t), k2) == lookup_entry(es, k2),
    decreases es.len(),
{
    let r = insert_entry(es, k, t);
    if es.len() == 0 {
        assert(r[0] == (k, t));
        assert(r.skip(1) =~= Seq::<(Seq<char>, Seq<char>)>::empty());
        assert(lookup_entry(r.skip(1), k2) is None);
        assert(lookup_entry(r, k2) is None);
    } else if es[0].0 == k {
        assert(r[0] == (k, t));
        assert(r.skip(1) =~= es.skip(1));
        assert(lookup_entry(r, k2) == lookup_entry(es.skip(1), k2));
        assert(lookup_entry(es, k2) == lookup_entry(es.skip(1), k2));
    } else {
        assert(r[0] == es[0]);
        lemma_lookup_insert_other(es.skip(1), k, t, k2);
        assert(r.skip(1) =~= insert_entry(es.skip(1), k, t));
    }
}

/// `k` holds no entry in `es`.
pub open spec fn key_absent(es: Seq<(Seq<char>, Seq<char>)>, k: Seq<char>) -> bool {
    forall|i: int| 0 <= i < es.len() ==> es[i].0 != k
}

/// Setting an entry keeps the keys unique.
pub proof fn lemma_insert_unique(es: Seq<(Seq<char>, Seq<char>)>, k: Seq<char>, t: Seq<char>)
    requires
        unique_keys(es),
    ensures
        unique_keys(insert_entry(es, k, t)),
        key_absent(es, k) ==> insert_entry(es, k, t) == es + seq![(k, t)],
    decreases es.len(),
{
    let r = insert_entry(es, k, t);
    if es.len() == 0 {
        assert(unique_keys(r)) by {
            assert(r.len() == 1);
        }
        assert(r =~= es + seq![(k, t)]);
    } else if es[0].0 == k {
        assert(r =~= seq![(k, t)] + es.skip(1));
        assert forall|i: int, j: int| 0 <= i < j < r.len() implies r[i].0 != r[j].0 by {
            if i == 0 {
                assert(r[j] == es[j]);
                assert(es[0].0 != es[j].0);
            } else {
                assert(r[i] == es[i] && r[j] == es[j]);
            }
        }
    } else {
        let tail = es.skip(1);
        assert(unique_keys(tail)) by {
            assert(forall|i: int| 0 <= i < tail.len() ==> tail[i] == es[i + 1]);
        }
        lemma_insert_unique(tail, k, t);
        let rt = insert_entry(tail, k, t);
        assert(r =~= seq![es[0]] + rt);
        assert(key_absent(rt, es[0].0)) by {
            assert(key_absent(tail, es[0].0)) by {
                assert(forall|i: int| 0 <= i < tail.len() ==> tail[i] == es[i + 1]);
            }
            lemma_insert_keys(tail, k, t);
        }
        assert forall|i: int, j: int| 0 <= i < j < r.len() implies r[i].0 != r[j].0 by {
            if i == 0 {
                assert(r[j] == rt[j - 1]);
            } else {
                assert(r[i] == rt[i - 1] && r[j] == rt[j - 1]);
            }
        }
        if key_absent(es, k) {
            assert(key_absent(tail, k)) by {
                assert(forall|i: int| 0 <= i < tail.len() ==> tail[i] == es[i + 1]);
            }
            assert(r =~= es + seq![(k, t)]);
        }
    }
}

/// The keys after a set are the old keys, with `k` possibly added: any key
/// distinct from `k` and absent before stays absent.
proof fn lemma_insert_keys(es: Seq<(Seq<char>, Seq<char>)>, k: Seq<char>, t: Seq<char>)
    ensures
        forall|k2: Seq<char>|
            k2 != k && key_absent(es, k2) ==> key_absent(insert_entry(es, k, t), k2),
    decreases es.len(),
{
    let r = insert_entry(es, k, t);
    if es.len() == 0 {
        assert forall|k2: Seq<char>| k2 != k && key_absent(es, k2) implies key_absent(r, k2) by {
            assert(r[0] == (k, t));
        }
    } else if es[0].0 == k {
        assert forall|k2: Seq<char>| k2 != k && key_absent(es, k2) implies key_absent(r, k2) by {
            assert(r[0] == (k, t));
            assert(forall|i: int| 1 <= i < r.len() ==> r[i] == es[i]);
        }
    } else {
        lemma_insert_keys(es.skip(1), k, t);
        let rt = insert_entry(es.skip(1), k, t);
        assert forall|k2: Seq<char>| k2 != k && key_absent(es, k2) implies key_absent(r, k2) by {
            assert(key_absent(es.skip(1), k2)) by {
                assert(forall|i: int| 0 <= i < es.skip(1).len() ==> es.skip(1)[i] == es[i + 1]);
            }
            assert(r[0] == es[0]);
            assert(forall|i: int| 1 <= i < r.len() ==> r[i] == rt[i - 1]);
        }
    }
}

/// The stored versions accept the expected pair: the producer version must
/// match exactly; the launcher version check is skipped when the stored
/// value is empty.
pub open spec fn versions_match(
    stored_producer: Seq<char>,
    stored_launcher: Seq<char>,
    pv: Seq<char>,
    lv: Seq<char>,
) -> bool {
    stored_producer == pv && (stored_launcher.len() == 0 || stored_launcher == lv)
}

/// The record is young enough to serve at time `now`.
pub open spec fn record_fresh(stamp: u64, now: u64) -> bool {
    now <= stamp + MAX_AGE_SECS
}

/// The record may be served for the expected version pair at time `now`.
pub open spec fn record_valid(m: RecordModel, pv: Seq<char>, lv: Seq<char>, now: u64) -> bool {
    versions_match(m.producer, m.launcher, pv, lv) && record_fresh(m.stamp, now)
}

/// What a lookup of `key` in record `m` returns under the expected versions
/// at time `now`.
pub open spec fn get_in(
    m: RecordModel,
    key: Seq<char>,
    pv: Seq<char>,
    lv: Seq<char>,
    now: u64,
) -> Option<Seq<char>> {
    if record_valid(m, pv, lv, now) {
        lookup_entry(m.entries, key)
    } else {
        None
    }
}

/// The parsed content of the backing file.
pub enum CacheBacking {
    /// No backing file.
    Absent,
    /// A backing file that could not be parsed.
    Corrupt,
    /// A parsed record.
    Present(CacheRecord),
}

/// Whether the backing is well-formed: a present record has unique keys.
pub open spec fn backing_wf(b: CacheBacking) -> bool {
    match b {
        CacheBacking::Present(rec) => unique_keys(record_model(rec).entries),
        _ => true,
    }
}

/// What a get on backing `b` returns.
pub open spec fn spec_get(
    b: CacheBacking,
    key: Seq<char>,
    pv: Seq<char>,
    lv: Seq<char>,
    now: u64,
) -> Option<Seq<char>> {
    match b {
        CacheBacking::Present(rec) => get_in(record_model(rec), key, pv, lv, now),
        _ => None,
    }
}

/// The entries a save starts from: the existing record's, when it is still
/// valid under the same version pair; empty otherwise.
pub open spec fn put_base(b: CacheBacking, pv: Seq<char>, lv: Seq<char>, now: u64) -> Seq<
    (Seq<char>, Seq<char>),
> {
    match b {
        CacheBacking::Present(rec) => {
            if record_valid(record_model(rec), pv, lv, now) {
                record_model(rec).entries
            } else {
                Seq::empty()
            }
        },
        _ => Seq::empty(),
    }
}

/// The record a save leaves behind: versions and timestamp refreshed, the
/// one entry merged into the base.
pub open spec fn spec_put(
    b: CacheBacking,
    key: Seq<char>,
    text: Seq<char>,
    pv: Seq<char>,
    lv: Seq<char>,
    now: u64,
) -> RecordModel {
    RecordModel {
        producer: pv,
        launcher: lv,
        stamp: now,
        entries: insert_entry(put_base(b, pv, lv, now), key, text),
    }
}

/// Round trip: a save followed by a get of the same scope-key under the
/// same version pair at the same time yields the saved text.
pub proof fn lemma_round_trip(
    b: CacheBacking,
    key: Seq<char>,
    text: Seq<char>,
    pv: Seq<char>,
    lv: Seq<char>,
    now: u64,
)
    ensures
        get_in(spec_put(b, key, text, pv, lv, now), key, pv, lv, now) == Some(text),
{
    lemma_lookup_insert_same(put_base(b, pv, lv, now), key, text);
}

/// Version isolation: after a save under one version pair, a get under a
/// producer version that differs, or under a launcher version that differs
/// from a non-empty stored one, returns absent — at any time.
pub proof fn lemma_version_isolation(
    b: CacheBacking,
    key: Seq<char>,
    text: Seq<char>,
    pv: Seq<char>,
    lv: Seq<char>,
    now: u64,
    qpv: Seq<char>,
    qlv: Seq<char>,
    then: u64,
)
    requires
        qpv != pv || (lv.len() > 0 && qlv != lv),
    ensures
        get_in(spec_put(b, key, text, pv, lv, now), key, qpv, qlv, then) is None,
{
}

/// Multi-key independence: a save under one scope-key leaves every other
/// key's entry exactly what the base of the save held.
pub proof fn lemma_key_independence(
    b: CacheBacking,
    key: Seq<char>,
    text: Seq<char>,
    pv: Seq<char>,
    lv: Seq<char>,
    now: u64,
    other: Seq<char>,
)
    requires
        other != key,
    ensures
        get_in(spec_put(b, key, text, pv, lv, now), other, pv, lv, now) == lookup_entry(
            put_base(b, pv, lv, now),
            other,
        ),
{
    lemma_lookup_insert_other(put_base(b, pv, lv, now), key, text, other);
}

/// Expiry: a record older than the maximum age is treated as absent,
/// whatever its versions hold.
pub proof fn lemma_expiry(m: RecordModel, key: Seq<char>, pv: Seq<char>, lv: Seq<char>, now: u64)
    requires
        now > m.stamp + MAX_AGE_SECS,
    ensures
        get_in(m, key, pv, lv, now) is None,
{
}

/// The value under `key`, cloned out of the entry list.
fn entries_lookup(es: &Vec<(String, String)>, key: &str) -> (r: Option<String>)
    ensures
        r is Some <==> lookup_entry(entries_view(es@), key@) is Some,
        r is Some ==> r->Some_0@ == lookup_entry(entries_view(es@), key@)->Some_0,
{
    let ghost full = entries_view(es@);
    let mut i: usize = 0;
    proof {
        assert(full.skip(0) =~= full);
    }
    while i < es.len()
        invariant
            i <= es@.len(),
            full == entries_view(es@),
            lookup_entry(full, key@) == lookup_entry(entries_view(es@).skip(i as int), key@),
        decreases es@.len() - i,
    {
        let ghost rest = entries_view(es@).skip(i as int);
        if str_eq(es[i].0.as_str(), key) {
            proof {
                assert(rest[0] == (es@[i as int].0@, es@[i as int].1@));
            }
            return Some(es[i].1.clone());
        }
        i = i + 1;
        proof {
            assert(rest[0] == (es@[i - 1].0@, es@[i - 1].1@));
            assert(rest.skip(1) =~= entries_view(es@).skip(i as int));
        }
    }
    proof {
        assert(entries_view(es@).skip(i as int) =~= Seq::<(Seq<char>, Seq<char>)>::empty());
    }
    None
}

/// A copy of the entry list with the entry for `key` set to `text`.
fn entries_insert(es: &Vec<(String, String)>, key: &str, text: &str) -> (r: Vec<(String, String)>)
    ensures
        entries_view(r@) == insert_entry(entries_view(es@), key@, text@),
{
    let ghost full = entries_view(es@);
    let ghost goal = insert_entry(full, key@, text@);
    let mut r: Vec<(String, String)> = Vec::new();
    let mut i: usize = 0;
    proof {
        assert(entries_view(r@) =~= Seq::<(Seq<char>, Seq<char>)>::empty());
        assert(full.skip(0) =~= full);
        assert(entries_view(r@) + insert_entry(full.skip(0), key@, text@) =~= goal);
    }
    while i < es.len()
        invariant
            i <= es@.len(),
            full == entries_view(es@),
            goal == insert_entry(full, key@, text@),
            forall|k: int| 0 <= k < i ==> full[k].0 != key@,
            goal == entries_view(r@) + insert_entry(full.skip(i as int), key@, text@),
            entries_view(r@).len() == i,
        decreases es@.len() - i,
    {
        let ghost rest = full.skip(i as int);
        let ghost pre = entries_view(r@);
        if str_eq(es[i].0.as_str(), key) {
            // overwrite this entry, copy the rest unchanged
            proof {
                assert(rest[0] == (es@[i as int].0@, es@[i as int].1@));
                assert(insert_entry(rest, key@, text@) == seq![(key@, text@)] + rest.skip(1));
            }
            r.push((key.to_owned(), text.to_owned()));
            proof {
                assert(entries_view(r@) =~= pre + seq![(key@, text@)]);
            }
            let mut j: usize = i + 1;
            while j < es.len()
                invariant
                    i < j <= es@.len(),
                    full == entries_view(es@),
                    goal == insert_entry(full, key@, text@),
                    goal == entries_view(r@) + full.skip(j as int),
                decreases es@.len() - j,
            {
                let ghost pre2 = entries_view(r@);
                r.push((es[j].0.clone(), es[j].1.clone()));
                j = j + 1;
                proof {
                    assert(entries_view(r@) =~= pre2 + seq![full[j - 1]]);
                    assert(full.skip(j - 1)[0] == full[j - 1]);
                    assert(full.skip(j - 1).skip(1) =~= full.skip(j as int));
                    assert(pre2 + full.skip(j - 1) =~= entries_view(r@) + full.skip(j as int));
                }
            }
            proof {
                assert(full.skip(j as int) =~= Seq::<(Seq<char>, Seq<char>)>::empty());
                assert(entries_view(r@) + full.skip(j as int) =~= entries_view(r@));
            }
            return r;
        }
        r.push((es[i].0.clone(), es[i].1.clone()));
        i = i + 1;
        proof {
            assert(rest[0] == (es@[i - 1].0@, es@[i - 1].1@));
            assert(rest[0].0 != key@);
            assert(entries_view(r@) =~= pre + seq![rest[0]]);
            assert(rest.skip(1) =~= full.skip(i as int));
            assert(insert_entry(rest, key@, text@) == seq![rest[0]] + insert_entry(
                full.skip(i as int),
                key@,
                text@,
            ));
            assert(pre + insert_entry(rest, key@, text@) =~= entries_view(r@) + insert_entry(
                full.skip(i as int),
                key@,
                text@,
            ));
        }
    }
    // no entry for the key: append one
    proof {
        assert(full.skip(i as int) =~= Seq::<(Seq<char>, Seq<char>)>::empty());
        assert(insert_entry(full.skip(i as int), key@, text@) =~= seq![(key@, text@)]);
    }
    let ghost pre = entries_view(r@);
    r.push((key.to_owned(), text.to_owned()));
    proof {
        assert(entries_view(r@) =~= pre + seq![(key@, text@)]);
    }
    r
}

/// Whether no two entries of the list share a key.
pub fn entries_have_unique_keys(es: &Vec<(String, String)>) -> (r: bool)
    ensures
        r == unique_keys(entries_view(es@)),
{
    let ghost ev = entries_view(es@);
    let mut i: usize = 0;
    while i < es.len()
        invariant
            i <= es@.len(),
            ev == entries_view(es@),
            forall|a: int, b: int| 0 <= a < b < ev.len() && a < i ==> ev[a].0 != ev[b].0,
        decreases es@.len() - i,
    {
        let mut j: usize = i + 1;
        while j < es.len()
            invariant
                i < j <= es@.len(),
                i < es@.len(),
                ev == entries_view(es@),
                forall|b: int| i < b < j ==> ev[i as int].0 != ev[b].0,
            decreases es@.len() - j,
        {
            if str_eq(es[i].0.as_str(), es[j].0.as_str()) {
                proof {
                    assert(ev[i as int].0 == ev[j as int].0);
                    assert(!unique_keys(ev));
                }
                return false;
            }
            j = j + 1;
        }
        i = i + 1;
    }
    proof {
        assert(unique_keys(ev));
    }
    true
}

/// Whether record `rec` may be served for the expected versions at `now`.
fn record_is_valid(rec: &CacheRecord, pv: &str, lv: &str, now: u64) -> (r: bool)
    ensures
        r == record_valid(record_model(*rec), pv@, lv@, now),
{
    if !str_eq(rec.openclaw_version.as_str(), pv) {
        return false;
    }
    if !rec.chitin_version.as_str().is_empty() && !str_eq(rec.chitin_version.as_str(), lv) {
        return false;
    }
    now <= rec.timestamp || now - rec.timestamp <= MAX_AGE_SECS
}

/// The help cache store, over the parsed content of its backing file.
pub struct HelpCache {
    /// The store's current view of the backing file.
    pub backing: CacheBacking,
}

impl HelpCache {
    /// Whether the store is well-formed.
    pub open spec fn wf(&self) -> bool {
        backing_wf(self.backing)
    }

    /// A store over the given backing-file content.
    pub fn new(backing: CacheBacking) -> (c: HelpCache)
        requires
            backing_wf(backing),
        ensures
            c.backing == backing,
            c.wf(),
    {
        HelpCache { backing }
    }

    /// Cached help for a subcommand (empty scope-key = top-level help):
    /// present exactly when a parseable record exists, both version checks
    /// pass, the record is young enough, and the key has an entry. A corrupt
    /// backing is disposed of and treated as absent; the caller never sees
    /// an error.
    pub fn get_cached_subcommand_help(
        &mut self,
        subcommand: &str,
        openclaw_version: &str,
        chitin_version: &str,
        now: u64,
    ) -> (r: Option<String>)
        requires
            old(self).wf(),
        ensures
            final(self).wf(),
            r is Some <==> spec_get(
                old(self).backing,
                subcommand@,
                openclaw_version@,
                chitin_version@,
                now,
            ) is Some,
            r is Some ==> r->Some_0@ == spec_get(
                old(self).backing,
                subcommand@,
                openclaw_version@,
                chitin_version@,
                now,
            )->Some_0,
            old(self).backing is Corrupt ==> final(self).backing is Absent,
            !(old(self).backing is Corrupt) ==> final(self).backing == old(self).backing,
    {
        if matches!(&self.backing, CacheBacking::Corrupt) {
            self.backing = CacheBacking::Absent;
            return None;
        }
        match &self.backing {
            CacheBacking::Present(rec) => {
                if record_is_valid(rec, openclaw_version, chitin_version, now) {
                    entries_lookup(&rec.entries, subcommand)
                } else {
                    None
                }
            },
            _ => None,
        }
    }

    /// Cached top-level help: the entry under the empty scope-key.
    pub fn get_cached_help(&mut self, openclaw_version: &str, chitin_version: &str, now: u64) -> (r:
        Option<String>)
        requires
            old(self).wf(),
        ensures
            final(self).wf(),
            r is Some <==> spec_get(
                old(self).backing,
                Seq::<char>::empty(),
                openclaw_version@,
                chitin_version@,
                now,
            ) is Some,
            r is Some ==> r->Some_0@ == spec_get(
                old(self).backing,
                Seq::<char>::empty(),
                openclaw_version@,
                chitin_version@,
                now,
            )->Some_0,
            old(self).backing is Corrupt ==> final(self).backing is Absent,
            !(old(self).backing is Corrupt) ==> final(self).backing == old(self).backing,
    {
        proof {
            reveal_strlit("");
            assert(""@ =~= Seq::<char>::empty());
        }
        self.get_cached_subcommand_help("", openclaw_version, chitin_version, now)
    }

    /// Saves help text for a subcommand: merges the one entry into the
    /// existing record when it is still valid under the same version pair,
    /// or into a fresh record otherwise, and refreshes the timestamp and
    /// both version fields.
    pub fn save_subcommand_help(
        &mut self,
        subcommand: &str,
        help_text: &str,
        openclaw_version: &str,
        chitin_version: &str,
        now: u64,
    )
        requires
            old(self).wf(),
        ensures
            final(self).wf(),
            final(self).backing is Present,
            record_model(final(self).backing->Present_0) == spec_put(
                old(self).backing,
                subcommand@,
                help_text@,
                openclaw_version@,
                chitin_version@,
                now,
            ),
    {
        let ghost base = put_base(old(self).backing, openclaw_version@, chitin_version@, now);
        let empty_entries: Vec<(String, String)> = Vec::new();
        let new_entries = match &self.backing {
            CacheBacking::Present(rec) => {
                if record_is_valid(rec, openclaw_version, chitin_version, now) {
                    entries_insert(&rec.entries, subcommand, help_text)
                } else {
                    proof {
                        assert(entries_view(empty_entries@) =~= base);
                    }
                    entries_insert(&empty_entries, subcommand, help_text)
                }
            },
            _ => {
                proof {
                    assert(entries_view(empty_entries@) =~= base);
                }
                entries_insert(&empty_entries, subcommand, help_text)
            },
        };
        proof {
            lemma_insert_unique(base, subcommand@, help_text@);
        }
        self.backing = CacheBacking::Present(
            CacheRecord {
                openclaw_version: openclaw_version.to_owned(),
                chitin_version: chitin_version.to_owned(),
                timestamp: now,
                entries: new_entries,
            },
        );
    }

    /// Saves the top-level help text, under the empty scope-key.
    pub fn save_help(&mut self, help_text: &str, openclaw_version: &str, chitin_version: &str, now: u64)
        requires
            old(self).wf(),
        ensures
            final(self).wf(),
            final(self).backing is Present,
            record_model(final(self).backing->Present_0) == spec_put(
                old(self).backing,
                Seq::<char>::empty(),
                help_text@,
                openclaw_version@,
                chitin_version@,
                now,
            ),
    {
        proof {
            reveal_strlit("");
            assert(""@ =~= Seq::<char>::empty());
        }
        self.save_subcommand_help("", help_text, openclaw_version, chitin_version, now)
    }

    /// Clears the store: the backing file is to be removed; clearing an
    /// already absent store is a success.
    pub fn clear(&mut self)
        ensures
            final(self).wf(),
            final(self).backing is Absent,
    {
        self.backing = CacheBacking::Absent;
    }
}

/// The cache directory: a fixed per-user application directory under the
/// home directory when one is known, the platform cache directory otherwise,
/// and a configuration failure when neither is known.
pub fn cache_dir_path(home: Option<String>, platform_cache: Option<String>) -> (r: Result<
    String,
    LauncherError,
>)
    ensures
        match r {
            Ok(p) => (home is Some && p@ == home->Some_0@ + "/.chitin/cache"@) || (home is None
                && platform_cache is Some && p@ == platform_cache->Some_0@ + "/chitin"@),
            Err(e) => home is None && platform_cache is None && e is Configuration,
        },
{
    match home {
        Some(h) => {
            let mut p = h;
            p.append("/.chitin/cache");
            Ok(p)
        },
        None => match platform_cache {
            Some(c) => {
                let mut p = c;
                p.append("/chitin");
                Ok(p)
            },
            None => Err(LauncherError::Configuration),
        },
    }
}

/// The backing file's path inside the cache directory.
pub fn cache_file_path(dir: &str) -> (r: String)
    ensures
        r@ == dir@ + "/help_cache.json"@,
{
    let mut p = dir.to_owned();
    p.append("/help_cache.json");
    p
}

} // verus!
