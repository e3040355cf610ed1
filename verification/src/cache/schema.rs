//! The versions of the cache's schema, the name of its file, and the clock
//! its rows are stamped with.
use std::time::SystemTime;
use vstd::prelude::*;
use vstd::string::*;
use crate::cache;
use crate::cache::{Cache, CacheModel, meta_keys};
use crate::numbers;
use crate::numbers::{i64_text, u64_text};
use crate::table;
use crate::table::Table;
use crate::text;
use crate::text::chars_of;

verus! {

/// The version of the tables that mirror the service: entitlements, projects,
/// folders and organizations. Another version drops and recreates them; the
/// next refresh fills them again.
pub const CACHE_SCHEMA_VERSION: i64 = 1;

/// The version of the user's own tables, the highest migration there is.
pub const STATE_SCHEMA_VERSION: i64 = 1;

impl CacheModel {
    /// A schema version.
    pub open spec fn version(self, key: Seq<char>) -> Option<i64> {
        self.timestamp(key)
    }

    /// The mirror tables are of another version than this one.
    pub open spec fn mirror_is_foreign(self) -> bool {
        self.version(meta_keys::CACHE_SCHEMA_VERSION@) matches Some(v) && v != CACHE_SCHEMA_VERSION
    }

    /// The cache without its mirror tables, and without the times they were
    /// scanned at.
    pub open spec fn without_mirror(self) -> Self {
        let m1 = table::removed(self.meta, meta_keys::PROJECTS_SCANNED_AT@);
        let m2 = table::removed(m1, meta_keys::FOLDERS_SCANNED_AT@);
        let m3 = table::removed(m2, meta_keys::ORGANIZATIONS_SCANNED_AT@);
        let m4 = table::removed(m3, meta_keys::ENTITLEMENTS_SCANNED_AT@);
        CacheModel {
            meta: m4,
            entitlements: Seq::empty(),
            projects: Seq::empty(),
            folders: Seq::empty(),
            organizations: Seq::empty(),
            ..self
        }
    }

    /// The cache with its mirror tables in this version.
    pub open spec fn with_mirror_schema(self) -> Self {
        let base = if self.mirror_is_foreign() {
            self.without_mirror()
        } else {
            self
        };
        base.with_timestamp(meta_keys::CACHE_SCHEMA_VERSION@, CACHE_SCHEMA_VERSION)
    }

    /// The version of the user's tables; none is older than any.
    pub open spec fn state_version(self) -> i64 {
        match self.version(meta_keys::STATE_SCHEMA_VERSION@) {
            Some(v) => v,
            None => 0,
        }
    }

    /// The cache with the user's tables in this version. Migrations only go
    /// forward.
    pub open spec fn with_state_schema(self) -> Self {
        if self.state_version() < STATE_SCHEMA_VERSION {
            self.with_timestamp(meta_keys::STATE_SCHEMA_VERSION@, STATE_SCHEMA_VERSION)
        } else {
            self
        }
    }
}

/// What has to be done to the stored tables.
#[derive(Debug)]
pub struct SchemaPlan {
    /// The mirror tables are to be dropped before they are created.
    pub drop_mirror: bool,
    /// The migrations of the user's tables that are to be run, in this order.
    pub migrations: Vec<i64>,
    /// The version to back up before the migrations, where there is one.
    pub back_up: Option<i64>,
}

/// The user's tables are of a version that is not known yet.
#[derive(Debug)]
pub struct FutureSchema {
    /// The version of the user's tables.
    pub stored: i64,
    /// The mirror tables are to be dropped before they are created, all the
    /// same.
    pub drop_mirror: bool,
}

impl FutureSchema {
    /// The error as a sentence.
    pub open spec fn sentence(stored: int) -> Seq<char> {
        "cache state schema is v"@ + numbers::int_text(stored) + ", newer than this gpam (v"@
            + numbers::int_text(STATE_SCHEMA_VERSION as int)
            + "). Refusing to downgrade. Use a newer binary or delete the cache file."@
    }

    /// The error as a sentence.
    pub fn message(&self) -> (r: String)
        ensures
            r@ == Self::sentence(self.stored as int),
    {
        let mut r: String = "cache state schema is v".to_owned();
        r.append(i64_text(self.stored).as_str());
        r.append(", newer than this gpam (v");
        r.append(i64_text(STATE_SCHEMA_VERSION).as_str());
        r.append("). Refusing to downgrade. Use a newer binary or delete the cache file.");
        r
    }
}

/// The migrations above a version: all there are, from the lowest on.
pub open spec fn pending_migrations(stored: int) -> Seq<i64> {
    if stored < 1 {
        seq![1i64]
    } else {
        Seq::empty()
    }
}

/// The extension of the file that a version is backed up to.
pub open spec fn backup_name(stored: int) -> Seq<char> {
    "db.v"@ + numbers::int_text(stored) + ".bak"@
}

/// The extension of the file that a version is backed up to.
pub fn backup_extension(stored: i64) -> (r: String)
    ensures
        r@ == backup_name(stored as int),
{
    let mut r: String = "db.v".to_owned();
    r.append(i64_text(stored).as_str());
    r.append(".bak");
    r
}

/// A schema version of a cache.
pub fn read_version(cache: &Cache, key: &str) -> (r: Option<i64>)
    ensures
        r == cache@.version(key@),
{
    cache.meta_timestamp(key)
}

/// Sets a schema version of a cache.
pub fn write_version(cache: &mut Cache, key: &str, value: i64)
    requires
        old(cache).wf(),
    ensures
        final(cache).wf(),
        final(cache)@ == old(cache)@.with_timestamp(key@, value),
{
    cache.set_meta_timestamp(key, value);
}

impl Cache {
    /// Brings the mirror tables to this version. They only mirror the service,
    /// so tables of another version are dropped. Tells whether they were.
    fn ensure_cache_schema(&mut self) -> (r: bool)
        requires
            old(self).wf(),
        ensures
            final(self).wf(),
            final(self)@ == old(self)@.with_mirror_schema(),
            r == old(self)@.mirror_is_foreign(),
    {
        let drop_mirror: bool = match self.meta_timestamp(meta_keys::CACHE_SCHEMA_VERSION) {
            Some(v) => v != CACHE_SCHEMA_VERSION,
            None => false,
        };
        if drop_mirror {
            self.meta.remove(meta_keys::PROJECTS_SCANNED_AT);
            self.meta.remove(meta_keys::FOLDERS_SCANNED_AT);
            self.meta.remove(meta_keys::ORGANIZATIONS_SCANNED_AT);
            self.meta.remove(meta_keys::ENTITLEMENTS_SCANNED_AT);
            self.entitlements = Table::new();
            self.projects = Table::new();
            self.folders = Table::new();
            self.organizations = Table::new();
        }
        self.set_meta_timestamp(meta_keys::CACHE_SCHEMA_VERSION, CACHE_SCHEMA_VERSION);
        drop_mirror
    }

    /// Brings the cache to this version's schema, and says what has to be done
    /// to the stored tables. A cache of a later version is refused, and its
    /// grants are never touched.
    pub fn ensure_schema(&mut self) -> (r: Result<SchemaPlan, FutureSchema>)
        requires
            old(self).wf(),
        ensures
            final(self).wf(),
            ({
                let mirrored = old(self)@.with_mirror_schema();
                let stored = mirrored.state_version();
                match r {
                    Ok(plan) => {
                        &&& stored <= STATE_SCHEMA_VERSION
                        &&& final(self)@ == mirrored.with_state_schema()
                        &&& plan.drop_mirror == old(self)@.mirror_is_foreign()
                        &&& plan.migrations@ == pending_migrations(stored as int)
                        &&& plan.back_up == (if 0 < stored < STATE_SCHEMA_VERSION {
                            Some(stored)
                        } else {
                            None
                        })
                    },
                    Err(e) => {
                        &&& stored > STATE_SCHEMA_VERSION
                        &&& e.stored == stored
                        &&& e.drop_mirror == old(self)@.mirror_is_foreign()
                        &&& final(self)@ == mirrored
                    },
                }
            }),
    {
        let drop_mirror: bool = self.ensure_cache_schema();
        let stored: i64 = match self.meta_timestamp(meta_keys::STATE_SCHEMA_VERSION) {
            Some(v) => v,
            None => 0,
        };
        if stored > STATE_SCHEMA_VERSION {
            return Err(FutureSchema { stored, drop_mirror });
        }
        let mut migrations: Vec<i64> = Vec::new();
        let mut back_up: Option<i64> = None;
        if stored < 1 {
            migrations.push(1);
            self.set_meta_timestamp(meta_keys::STATE_SCHEMA_VERSION, 1);
            if stored > 0 {
                back_up = Some(stored);
            }
        }
        assert(migrations@ =~= pending_migrations(stored as int));
        Ok(SchemaPlan { drop_mirror, migrations, back_up })
    }
}

// ---------------------------------------------------------------------------
// The file
// ---------------------------------------------------------------------------

/// A letter or a digit of any script.
pub uninterp spec fn letter_or_digit(c: char) -> bool;

/// `char::is_alphanumeric`, which depends on the character alone. Of the ASCII
/// characters it holds of the letters and the digits.
pub assume_specification[ char::is_alphanumeric ](c: char) -> (r: bool)
    ensures
        r == letter_or_digit(c),
        (c as int) < 128 ==> r == (48 <= c as int <= 57 || 65 <= c as int <= 90 || 97 <= c as int
            <= 122),
;

/// A character that stands for itself in a file name: a letter, a digit or one
/// of `-.@_`. The percent sign never does.
pub open spec fn safe_char(c: char) -> bool {
    c != '%' && (letter_or_digit(c) || c == '-' || c == '.' || c == '@' || c == '_')
}

/// A character in a file name. One that does not stand for itself is written as
/// its number between percent signs.
pub open spec fn escaped_char(c: char) -> Seq<char> {
    if safe_char(c) {
        seq![c]
    } else {
        seq!['%'] + numbers::decimal(c as nat) + seq!['%']
    }
}

/// A text in a file name.
pub open spec fn escaped(s: Seq<char>) -> Seq<char>
    decreases s.len(),
{
    if s.len() == 0 {
        Seq::empty()
    } else {
        escaped(s.drop_last()) + escaped_char(s.last())
    }
}

/// The name of an account's cache file.
pub open spec fn file_name(account: Seq<char>) -> Seq<char> {
    escaped(account) + ".db"@
}

fn char_number(c: char) -> (r: u64)
    ensures
        r == c as int,
{
    c as u64
}

/// The name of an account's cache file. It never leaves the directory it is
/// put in.
pub fn db_file_name(account: &str) -> (r: String)
    ensures
        r@ == file_name(account@),
        !r@.contains('/'),
        !r@.contains('\\'),
{
    let v: Vec<char> = chars_of(account);
    let mut r: String = String::new();
    let mut i: usize = 0;
    proof {
        assert(r@ =~= escaped(v@.take(0)));
    }
    while i < v.len()
        invariant
            i <= v.len(),
            v@ == account@,
            r@ == escaped(v@.take(i as int)),
            forall|k: int| 0 <= k < r@.len() ==> (#[trigger] r@[k]) != '/' && r@[k] != '\\',
        decreases v.len() - i,
    {
        let c: char = v[i];
        let ghost prior = r@;
        assert(v@.take(i + 1).drop_last() =~= v@.take(i as int));
        let safe: bool = c != '%' && (c.is_alphanumeric() || c == '-' || c == '.' || c == '@' || c
            == '_');
        if safe {
            r.push(c);
            assert(r@ =~= prior + escaped_char(c));
        } else {
            let digits: String = u64_text(char_number(c));
            proof {
                numbers::law_decimal_reads_back(c as nat);
            }
            r.push('%');
            r.append(digits.as_str());
            r.push('%');
            assert(r@ =~= prior + escaped_char(c));
            assert forall|k: int| 0 <= k < r@.len() implies (#[trigger] r@[k]) != '/' && r@[k]
                != '\\' by {
                if k < prior.len() {
                    assert(r@[k] == prior[k]);
                } else if prior.len() < k < r@.len() - 1 {
                    assert(text::is_digit(digits@[k - prior.len() - 1]));
                }
            }
        }
        i += 1;
    }
    proof {
        assert(v@.take(i as int) =~= account@);
        reveal_strlit(".db");
    }
    r.append(".db");
    r
}

proof fn lemma_same_number(x: char, y: char)
    requires
        x as nat == y as nat,
    ensures
        x == y,
{
}

proof fn lemma_escaped_injective(a: Seq<char>, b: Seq<char>)
    requires
        escaped(a) == escaped(b),
    ensures
        a == b,
    decreases a.len(),
{
    let e = escaped(a);
    let n = e.len() as int;
    if a.len() == 0 || b.len() == 0 {
        assert(a =~= b);
    } else {
        let (x, y) = (a.last(), b.last());
        let (u, v) = (escaped(a.drop_last()), escaped(b.drop_last()));
        let (p, q) = (numbers::decimal(x as nat), numbers::decimal(y as nat));
        numbers::law_decimal_reads_back(x as nat);
        numbers::law_decimal_reads_back(y as nat);
        assert(e.last() == escaped_char(x).last());
        assert(e.last() == escaped_char(y).last());
        if safe_char(x) {
            assert(safe_char(y));
            assert(u =~= e.drop_last());
            assert(v =~= e.drop_last());
        } else {
            assert(!safe_char(y));
            assert(e[n - 2 - p.len()] == '%');
            assert(e[n - 2 - q.len()] == '%');
            if p.len() < q.len() {
                let k = q.len() - p.len() - 1;
                assert(e[n - 2 - p.len()] == q[k]);
                assert(text::is_digit(q[k]));
            }
            if q.len() < p.len() {
                let k = p.len() - q.len() - 1;
                assert(e[n - 2 - q.len()] == p[k]);
                assert(text::is_digit(p[k]));
            }
            assert(p =~= e.subrange(n - 1 - p.len(), n - 1));
            assert(q =~= e.subrange(n - 1 - q.len(), n - 1));
            numbers::law_decimal_injective(x as nat, y as nat);
            lemma_same_number(x, y);
            assert(u =~= e.take(n - 2 - p.len()));
            assert(v =~= e.take(n - 2 - q.len()));
        }
        lemma_escaped_injective(a.drop_last(), b.drop_last());
        assert(a =~= a.drop_last().push(x));
        assert(b =~= b.drop_last().push(y));
    }
}

/// Different accounts have different cache files.
pub proof fn law_accounts_have_their_own_files(a: Seq<char>, b: Seq<char>)
    requires
        a != b,
    ensures
        file_name(a) != file_name(b),
{
    if file_name(a) == file_name(b) {
        let n = file_name(a).len() - ".db"@.len();
        assert(escaped(a) =~= file_name(a).take(n));
        assert(escaped(b) =~= file_name(b).take(n));
        lemma_escaped_injective(a, b);
    }
}

/// An account of safe characters keeps its name.
pub proof fn law_plain_accounts_keep_their_names(a: Seq<char>)
    requires
        forall|i: int| 0 <= i < a.len() ==> safe_char(#[trigger] a[i]),
    ensures
        file_name(a) == a + ".db"@,
{
    lemma_plain_is_kept(a);
}

proof fn lemma_plain_is_kept(a: Seq<char>)
    requires
        forall|i: int| 0 <= i < a.len() ==> safe_char(#[trigger] a[i]),
    ensures
        escaped(a) == a,
    decreases a.len(),
{
    if a.len() > 0 {
        let init = a.drop_last();
        assert forall|i: int| 0 <= i < init.len() implies safe_char(#[trigger] init[i]) by {
            assert(init[i] == a[i]);
        }
        lemma_plain_is_kept(init);
        assert(safe_char(a[a.len() - 1]));
        assert(a =~= init.push(a.last()));
    } else {
        assert(a =~= Seq::empty());
    }
}

// ---------------------------------------------------------------------------
// The clock
// ---------------------------------------------------------------------------

/// `std::time::SystemTime`: a moment of the system clock.
#[verifier::external_type_specification]
#[verifier::external_body]
pub struct ExSystemTime(std::time::SystemTime);

/// `SystemTime::now`: what the clock says, of which nothing can be promised.
pub assume_specification[ std::time::SystemTime::now ]() -> (r: std::time::SystemTime)
;

/// `std::time::SystemTimeError`: why there is no time between two moments.
#[verifier::external_type_specification]
#[verifier::external_body]
pub struct ExSystemTimeError(std::time::SystemTimeError);

/// The time from the Unix epoch to a moment, `None` for a moment before it.
pub uninterp spec fn since_epoch(t: std::time::SystemTime) -> Option<std::time::Duration>;

/// `SystemTime::duration_since` with `std::time::UNIX_EPOCH`: the time from the
/// epoch to a moment, which depends on the moment alone; `None` for a moment
/// before the epoch.
#[verifier::external_body]
fn epoch_time(t: &SystemTime) -> (r: Option<std::time::Duration>)
    ensures
        r == since_epoch(*t),
{
    t.duration_since(std::time::UNIX_EPOCH).ok()
}

/// The time from one moment to another, `None` where the other comes before it.
pub uninterp spec fn time_between(
    from: std::time::SystemTime,
    to: std::time::SystemTime,
) -> Option<std::time::Duration>;

/// `SystemTime::duration_since`: the time between two moments, an error where
/// the second one is later. It depends on the two moments alone.
pub assume_specification[ std::time::SystemTime::duration_since ](
    t: &std::time::SystemTime,
    earlier: std::time::SystemTime,
) -> (r: Result<std::time::Duration, std::time::SystemTimeError>)
    ensures
        match r {
            Ok(d) => time_between(earlier, *t) == Some(d),
            Err(_) => time_between(earlier, *t) is None,
        },
;

/// The whole seconds of a duration.
pub uninterp spec fn whole_secs(d: std::time::Duration) -> u64;

/// `Duration::as_secs`: the whole seconds of a duration, which depend on it
/// alone.
pub assume_specification[ std::time::Duration::as_secs ](d: &std::time::Duration) -> (r: u64)
    ensures
        r == whole_secs(*d),
;

/// The whole seconds from one moment to another.
pub open spec fn secs_between(
    from: std::time::SystemTime,
    to: std::time::SystemTime,
) -> Option<u64> {
    match time_between(from, to) {
        Some(d) => Some(whole_secs(d)),
        None => None,
    }
}

/// The whole seconds from one moment to another.
pub fn secs_since(to: &SystemTime, from: SystemTime) -> (r: Option<u64>)
    ensures
        r == secs_between(from, *to),
{
    match to.duration_since(from) {
        Ok(d) => Some(d.as_secs()),
        Err(_) => None,
    }
}

/// A number of seconds as a time stamp: 0 where there is none, and the low 64
/// bits where it does not fit.
pub open spec fn stamp(secs: Option<u64>) -> i64 {
    match secs {
        Some(s) => if s <= i64::MAX {
            s as i64
        } else {
            (s - 0x1_0000_0000_0000_0000) as i64
        },
        None => 0,
    }
}

/// The time stamp for a number of seconds since the epoch.
pub fn unix_stamp(secs: Option<u64>) -> (r: i64)
    ensures
        r == stamp(secs),
{
    match secs {
        Some(s) => {
            assert(s as i64 == if s <= 0x7fff_ffff_ffff_ffff {
                s as int
            } else {
                s - 0x1_0000_0000_0000_0000
            }) by (bit_vector);
            s as i64
        },
        None => 0,
    }
}

/// The whole seconds from the Unix epoch to a moment.
pub open spec fn epoch_secs(t: std::time::SystemTime) -> Option<u64> {
    match since_epoch(t) {
        Some(d) => Some(whole_secs(d)),
        None => None,
    }
}

/// A time stamp that the clock can show: that of the seconds from the epoch to
/// some moment.
pub open spec fn clock_reads(r: i64) -> bool {
    exists|now: SystemTime| r == stamp(#[trigger] epoch_secs(now))
}

/// The current time, in seconds since the epoch. Which moment it is only the
/// clock knows.
pub fn now_unix() -> (r: i64)
    ensures
        clock_reads(r),
{
    let now = SystemTime::now();
    let secs: Option<u64> = match epoch_time(&now) {
        Some(d) => Some(d.as_secs()),
        None => None,
    };
    assert(secs == epoch_secs(now));
    unix_stamp(secs)
}

/// A cache that was brought to this schema is left as it is by bringing it
/// there again.
pub proof fn law_schema_is_stable(c: CacheModel)
    requires
        c.wf(),
        c.state_version() <= STATE_SCHEMA_VERSION,
    ensures
        ({
            let d = c.with_mirror_schema().with_state_schema();
            d.with_mirror_schema().with_state_schema() == d
        }),
{
    lemma_version_keys();
    let ck = meta_keys::CACHE_SCHEMA_VERSION@;
    let sk = meta_keys::STATE_SCHEMA_VERSION@;
    let base = if c.mirror_is_foreign() {
        lemma_without_mirror(c);
        c.without_mirror()
    } else {
        c
    };
    let m = c.with_mirror_schema();
    lemma_stamped(base, ck, CACHE_SCHEMA_VERSION);
    let d = m.with_state_schema();
    if m.state_version() < STATE_SCHEMA_VERSION {
        lemma_stamped(m, sk, STATE_SCHEMA_VERSION);
        assert(table::get(d.meta, ck) == table::get(m.meta, ck));
    }
    assert(d.version(ck) == Some(CACHE_SCHEMA_VERSION));
    lemma_stamped(d, ck, CACHE_SCHEMA_VERSION);
    let e = d.with_mirror_schema();
    table::lemma_slot(d.meta, ck);
    assert(e.meta =~= d.meta);
    assert(e == d);
    assert(d.state_version() >= STATE_SCHEMA_VERSION);
}

/// Bringing a cache to this schema keeps every grant.
pub proof fn law_schema_keeps_grants(c: CacheModel)
    ensures
        c.with_mirror_schema().with_state_schema().grants == c.grants,
{
}

proof fn lemma_version_keys()
    ensures
        meta_keys::CACHE_SCHEMA_VERSION@ != meta_keys::STATE_SCHEMA_VERSION@,
        meta_keys::CACHE_SCHEMA_VERSION@ != meta_keys::PROJECTS_SCANNED_AT@,
        meta_keys::CACHE_SCHEMA_VERSION@ != meta_keys::FOLDERS_SCANNED_AT@,
        meta_keys::CACHE_SCHEMA_VERSION@ != meta_keys::ORGANIZATIONS_SCANNED_AT@,
        meta_keys::CACHE_SCHEMA_VERSION@ != meta_keys::ENTITLEMENTS_SCANNED_AT@,
        meta_keys::STATE_SCHEMA_VERSION@ != meta_keys::PROJECTS_SCANNED_AT@,
        meta_keys::STATE_SCHEMA_VERSION@ != meta_keys::FOLDERS_SCANNED_AT@,
        meta_keys::STATE_SCHEMA_VERSION@ != meta_keys::ORGANIZATIONS_SCANNED_AT@,
        meta_keys::STATE_SCHEMA_VERSION@ != meta_keys::ENTITLEMENTS_SCANNED_AT@,
{
    reveal_strlit("cache_schema_version");
    reveal_strlit("state_schema_version");
    reveal_strlit("projects_scanned_at");
    reveal_strlit("folders_scanned_at");
    reveal_strlit("organizations_scanned_at");
    reveal_strlit("entitlements_scanned_at");
    assert("cache_schema_version"@[0] == 'c' && "state_schema_version"@[0] == 's');
    assert("projects_scanned_at"@[0] == 'p' && "folders_scanned_at"@[0] == 'f');
    assert("organizations_scanned_at"@[0] == 'o' && "entitlements_scanned_at"@[0] == 'e');
}

proof fn lemma_stamped(c: CacheModel, key: Seq<char>, ts: i64)
    requires
        c.wf(),
    ensures
        c.with_timestamp(key, ts).wf(),
        c.with_timestamp(key, ts).version(key) == Some(ts),
        table::get(c.with_timestamp(key, ts).meta, key) == Some(
            cache::rows::MetaModel { key, value: numbers::int_text(ts as int) },
        ),
        forall|o: Seq<char>|
            o != key ==> #[trigger] table::get(c.with_timestamp(key, ts).meta, o) == table::get(
                c.meta,
                o,
            ),
{
    let m = cache::rows::MetaModel { key, value: numbers::int_text(ts as int) };
    table::lemma_stored(c.meta, m);
    numbers::law_int_text_reads_back(ts);
}

proof fn lemma_without_mirror(c: CacheModel)
    requires
        c.wf(),
    ensures
        c.without_mirror().wf(),
{
    let m1 = table::removed(c.meta, meta_keys::PROJECTS_SCANNED_AT@);
    let m2 = table::removed(m1, meta_keys::FOLDERS_SCANNED_AT@);
    let m3 = table::removed(m2, meta_keys::ORGANIZATIONS_SCANNED_AT@);
    table::lemma_removed(c.meta, meta_keys::PROJECTS_SCANNED_AT@);
    table::lemma_removed(m1, meta_keys::FOLDERS_SCANNED_AT@);
    table::lemma_removed(m2, meta_keys::ORGANIZATIONS_SCANNED_AT@);
    table::lemma_removed(m3, meta_keys::ENTITLEMENTS_SCANNED_AT@);
}

/// Mirror tables of this version, or of none, are kept; those of another version
/// are dropped with the times they were scanned at. Other entries stay.
pub proof fn law_foreign_mirror_is_dropped(c: CacheModel, key: Seq<char>)
    requires
        c.wf(),
        key != "projects_scanned_at"@,
        key != "folders_scanned_at"@,
        key != "organizations_scanned_at"@,
        key != "entitlements_scanned_at"@,
        key != "cache_schema_version"@,
    ensures
        ({
            let d = c.with_mirror_schema();
            let v = c.timestamp("cache_schema_version"@);
            &&& d.timestamp("cache_schema_version"@) == Some(1i64)
            &&& d.meta_value(key) == c.meta_value(key)
            &&& v is None || v == Some(1i64) ==> d.entitlements == c.entitlements && d.projects
                == c.projects && d.folders == c.folders && d.organizations == c.organizations
                && d.timestamp("entitlements_scanned_at"@) == c.timestamp(
                "entitlements_scanned_at"@,
            )
            &&& v is Some && v != Some(1i64) ==> d.entitlements.len() == 0 && d.projects.len() == 0
                && d.folders.len() == 0 && d.organizations.len() == 0 && d.timestamp(
                "entitlements_scanned_at"@,
            ) is None && d.timestamp("projects_scanned_at"@) is None && d.timestamp(
                "folders_scanned_at"@,
            ) is None && d.timestamp("organizations_scanned_at"@) is None
        }),
{
    lemma_version_keys();
    let ck = meta_keys::CACHE_SCHEMA_VERSION@;
    let (p, f, o, e) = (
        meta_keys::PROJECTS_SCANNED_AT@,
        meta_keys::FOLDERS_SCANNED_AT@,
        meta_keys::ORGANIZATIONS_SCANNED_AT@,
        meta_keys::ENTITLEMENTS_SCANNED_AT@,
    );
    if c.mirror_is_foreign() {
        lemma_without_mirror(c);
        let m1 = table::removed(c.meta, p);
        let m2 = table::removed(m1, f);
        let m3 = table::removed(m2, o);
        let m4 = table::removed(m3, e);
        table::lemma_removed(c.meta, p);
        table::lemma_removed(m1, f);
        table::lemma_removed(m2, o);
        table::lemma_removed(m3, e);
        let b = c.without_mirror();
        lemma_stamped(b, ck, CACHE_SCHEMA_VERSION);
        reveal_strlit("projects_scanned_at");
        reveal_strlit("folders_scanned_at");
        reveal_strlit("organizations_scanned_at");
        reveal_strlit("entitlements_scanned_at");
        assert(p[0] == 'p' && f[0] == 'f' && o[0] == 'o' && e[0] == 'e');
        assert(table::get(m4, p) == table::get(m3, p));
        assert(table::get(m3, p) == table::get(m2, p));
        assert(table::get(m2, p) == table::get(m1, p));
        assert(table::get(m4, f) == table::get(m3, f));
        assert(table::get(m3, f) == table::get(m2, f));
        assert(table::get(m4, o) == table::get(m3, o));
        assert(table::get(m4, key) == table::get(m3, key));
        assert(table::get(m3, key) == table::get(m2, key));
        assert(table::get(m2, key) == table::get(m1, key));
        assert(table::get(m1, key) == table::get(c.meta, key));
        let d = c.with_mirror_schema();
        assert(table::get(d.meta, key) == table::get(b.meta, key));
        assert(table::get(d.meta, p) == table::get(b.meta, p));
        assert(table::get(d.meta, f) == table::get(b.meta, f));
        assert(table::get(d.meta, o) == table::get(b.meta, o));
        assert(table::get(d.meta, e) == table::get(b.meta, e));
    } else {
        lemma_stamped(c, ck, CACHE_SCHEMA_VERSION);
        let d = c.with_mirror_schema();
        assert(table::get(d.meta, key) == table::get(c.meta, key));
        assert(table::get(d.meta, e) == table::get(c.meta, e));
    }
}

/// The migrations above a stored version are run, up to this version, and the
/// user's tables are of this version then.
pub proof fn law_migrations_go_forward(c: CacheModel, version: i64)
    requires
        c.wf(),
    ensures
        pending_migrations(c.state_version() as int).contains(version) <==> c.state_version()
            < version <= 1 && version >= 1,
        c.state_version() < 1 ==> c.with_state_schema().state_version() == 1,
        c.state_version() >= 1 ==> c.with_state_schema() == c,
        c.timestamp("state_schema_version"@) is None ==> c.state_version() == 0,
        c.timestamp("state_schema_version"@) matches Some(v) ==> c.state_version() == v,
{
    if c.state_version() < 1 {
        lemma_stamped(c, meta_keys::STATE_SCHEMA_VERSION@, STATE_SCHEMA_VERSION);
        assert(pending_migrations(c.state_version() as int)[0] == 1);
    }
}

/// Versions are backed up to different files, each named by its version.
pub proof fn law_backups_differ(a: i64, b: i64)
    requires
        a != b,
    ensures
        backup_name(a as int) != backup_name(b as int),
        text::has_text(backup_name(a as int), numbers::int_text(a as int)),
{
    let (x, y) = (numbers::int_text(a as int), numbers::int_text(b as int));
    text::law_occurrence("db.v"@, x, ".bak"@);
    numbers::law_int_text_reads_back(a);
    numbers::law_int_text_reads_back(b);
    if backup_name(a as int) == backup_name(b as int) {
        let s = backup_name(a as int);
        let n = "db.v"@.len() as int;
        let m = s.len() - ".bak"@.len();
        assert(x =~= s.subrange(n, m));
        assert(y =~= s.subrange(n, m));
    }
}

/// A later version is refused in words that give both versions.
pub proof fn law_refusal_gives_the_version(stored: int)
    ensures
        text::has_text(FutureSchema::sentence(stored), numbers::int_text(stored)),
{
    let rest = ", newer than this gpam (v"@ + numbers::int_text(STATE_SCHEMA_VERSION as int)
        + "). Refusing to downgrade. Use a newer binary or delete the cache file."@;
    text::law_occurrence("cache state schema is v"@, numbers::int_text(stored), rest);
    assert(FutureSchema::sentence(stored) =~= "cache state schema is v"@ + numbers::int_text(stored)
        + rest);
}

/// Seconds since the epoch are their own time stamp as long as it can hold them.
pub proof fn law_stamps_are_seconds(secs: u64)
    ensures
        secs <= i64::MAX ==> stamp(Some(secs)) == secs,
        secs > i64::MAX ==> stamp(Some(secs)) == secs - 0x1_0000_0000_0000_0000,
        stamp(None) == 0,
{
}

/// Letters, digits and the signs `-`, `.`, `@` and `_` are kept in a file name;
/// any other sign is written as its number between percent signs.
pub proof fn law_signs_in_file_names(account: Seq<char>, c: char)
    ensures
        c != '%' && (letter_or_digit(c) || c == '-' || c == '.' || c == '@' || c == '_')
            ==> file_name(account.push(c)) == escaped(account) + seq![c] + ".db"@,
        c == '%' || !(letter_or_digit(c) || c == '-' || c == '.' || c == '@' || c == '_')
            ==> file_name(account.push(c)) == escaped(account) + (seq!['%'] + numbers::decimal(
            c as nat,
        ) + seq!['%']) + ".db"@,
        file_name(Seq::empty()) == ".db"@,
        file_name(account) == escaped(account) + ".db"@,
{
    assert(account.push(c).drop_last() =~= account);
    assert(Seq::<char>::empty() + ".db"@ =~= ".db"@);
}

} // verus!
