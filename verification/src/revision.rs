//! Revisions: what a name says at one point of its history.

use crate::name::{Name, NameView};
use crate::time::{later, rfc3339_text, Instant, Timestamp, DEFAULT_LIFETIME_SECONDS};
use vstd::prelude::*;
use vstd::string::StringExecFns;

verus! {

/// The lifetime that a first revision advises caches to keep it: five minutes, in
/// nanoseconds.
pub const DEFAULT_TTL_NANOS: u64 = 300_000_000_000;

/// What a revision holds, as mathematical values.
pub struct RevisionView {
    pub name: NameView,
    pub value: Seq<char>,
    pub validity: Instant,
    pub sequence: nat,
    pub ttl: nat,
}

/// The value of a name, with the time up to which it holds, its place in the name's history
/// and the lifetime it advises to caches, in nanoseconds.
#[derive(Clone, Debug, PartialEq, Eq)]
pub struct Revision {
    name: Name,
    value: String,
    validity: Timestamp,
    sequence: u64,
    ttl: u64,
}

impl View for Revision {
    type V = RevisionView;

    closed spec fn view(&self) -> RevisionView {
        RevisionView {
            name: self.name@,
            value: self.value@,
            validity: self.validity@,
            sequence: self.sequence as nat,
            ttl: self.ttl as nat,
        }
    }
}

/// The first revision of `name` with `value`, made at the time `now`: valid for the default
/// lifetime from then, with sequence number 0 and the default advice to caches.
pub open spec fn first_revision(name: NameView, value: Seq<char>, now: Instant) -> RevisionView {
    RevisionView {
        name,
        value,
        validity: later(now, DEFAULT_LIFETIME_SECONDS as int),
        sequence: 0,
        ttl: DEFAULT_TTL_NANOS as nat,
    }
}

/// The revision that follows `r` with `value`, made at the time `now`: the same name and
/// advice to caches, the next sequence number, valid for the default lifetime from then.
pub open spec fn next_revision(r: RevisionView, value: Seq<char>, now: Instant) -> RevisionView {
    RevisionView {
        name: r.name,
        value,
        validity: later(now, DEFAULT_LIFETIME_SECONDS as int),
        sequence: r.sequence + 1,
        ttl: r.ttl,
    }
}

impl Revision {
    /// A revision of these five parts.
    pub fn new(name: &Name, value: &str, validity: Timestamp, ttl: u64, sequence: u64) -> (r:
        Revision)
        ensures
            r@ == (RevisionView {
                name: name@,
                value: value@,
                validity: validity@,
                sequence: sequence as nat,
                ttl: ttl as nat,
            }),
    {
        Revision {
            name: name.duplicate(),
            value: String::from_str(value),
            validity,
            sequence,
            ttl,
        }
    }

    /// The first revision of `name` with `value`, made at the time `now`.
    pub fn v0_at(name: &Name, value: &str, now: Timestamp) -> (r: Revision)
        ensures
            r@ == first_revision(name@, value@, now@),
    {
        Revision::new(name, value, now.plus_seconds(DEFAULT_LIFETIME_SECONDS), DEFAULT_TTL_NANOS, 0)
    }

    /// The first revision of `name` with `value`, made now by the clock: the first revision
    /// made at some time.
    pub fn v0(name: &Name, value: &str) -> (r: Revision)
        ensures
            exists|now: Instant| r@ == first_revision(name@, value@, now),
    {
        let now = Timestamp::now();
        let r = Revision::v0_at(name, value, now);
        assert(r@ == first_revision(name@, value@, now@));
        r
    }

    /// The first revision of `name` with `value`, valid up to `validity`, with `ttl` as the
    /// advice to caches.
    pub fn v0_with_validity(name: &Name, value: &str, validity: Timestamp, ttl: u64) -> (r:
        Revision)
        ensures
            r@ == (RevisionView {
                name: name@,
                value: value@,
                validity: validity@,
                sequence: 0,
                ttl: ttl as nat,
            }),
    {
        Revision::new(name, value, validity, ttl, 0)
    }

    /// The revision that follows this one with `value`, made at the time `now`.
    pub fn increment_at(&self, value: &str, now: Timestamp) -> (r: Revision)
        requires
            self@.sequence < u64::MAX,
        ensures
            r@ == next_revision(self@, value@, now@),
    {
        Revision::new(
            &self.name,
            value,
            now.plus_seconds(DEFAULT_LIFETIME_SECONDS),
            self.ttl,
            self.sequence + 1,
        )
    }

    /// The revision that follows this one with `value`, made now by the clock: the next
    /// revision made at some time. Its sequence number is the next one.
    pub fn increment(&self, value: &str) -> (r: Revision)
        requires
            self@.sequence < u64::MAX,
        ensures
            exists|now: Instant| r@ == next_revision(self@, value@, now),
            r@.sequence == self@.sequence + 1,
    {
        let now = Timestamp::now();
        let r = self.increment_at(value, now);
        assert(r@ == next_revision(self@, value@, now@));
        r
    }

    /// The name that this revision speaks for.
    pub fn name(&self) -> (name: &Name)
        ensures
            name@ == self@.name,
    {
        &self.name
    }

    /// The value.
    pub fn value(&self) -> (value: &str)
        ensures
            value@ == self@.value,
    {
        self.value.as_str()
    }

    /// The time up to which the revision holds.
    pub fn validity(&self) -> (validity: &Timestamp)
        ensures
            validity@ == self@.validity,
    {
        &self.validity
    }

    /// The place of this revision in the history of its name.
    pub fn sequence(&self) -> (sequence: u64)
        ensures
            sequence == self@.sequence,
    {
        self.sequence
    }

    /// The lifetime that the revision advises to caches, in nanoseconds.
    pub fn ttl(&self) -> (ttl: u64)
        ensures
            ttl == self@.ttl,
    {
        self.ttl
    }

    /// The validity as RFC 3339 text with nanoseconds and `Z`, where it can be written
    /// so.
    pub fn validity_string(&self) -> (text: Option<String>)
        ensures
            match rfc3339_text(self@.validity.0, self@.validity.1) {
                Some(t) => text matches Some(s) && s@ == t && s@.len() >= 1 && s@.last() == 'Z',
                None => text is None,
            },
    {
        self.validity.to_rfc3339()
    }
}

} // verus!
