//! Configuration data and the watermark store.
//!
//! `Snowflake` is an identifier that is either a 64-bit number or an opaque
//! string; equality and ordering coerce strings to numbers best-effort and
//! are total (ordering yields `Unknown` rather than panicking).
//! `CacheRecords` maps a source identifier's string form to the highest
//! delivered numeric post id for that source; `advance` only ever raises a
//! stored watermark.

use vstd::prelude::*;

use crate::numeral::{parse_u64, spec_parse_u64, spec_u64_string, u64_to_string};

verus! {

/// An ID that is either a `u64` or a `String`. Owned variant of
/// [`SnowflakeRef`].
#[derive(Debug, Clone)]
pub enum Snowflake {
    Number(u64),
    String(String),
}

/// An ID that is either a `u64` or a `str`.
#[derive(Debug, Clone, Copy)]
pub enum SnowflakeRef<'a> {
    Number(u64),
    String(&'a str),
}

/// Result of comparing two identifiers: a total three-way outcome, with
/// `Unknown` when either side cannot be coerced to a number.
#[derive(Debug, Clone, Copy, PartialEq, Eq, Structural)]
pub enum IdOrder {
    Less,
    Equal,
    Greater,
    Unknown,
}

/// Numeric comparison of two coerced identifiers, `Unknown` when either
/// fails to coerce.
pub open spec fn spec_order(a: Option<u64>, b: Option<u64>) -> IdOrder {
    match (a, b) {
        (Some(x), Some(y)) => if x < y {
            IdOrder::Less
        } else if x == y {
            IdOrder::Equal
        } else {
            IdOrder::Greater
        },
        _ => IdOrder::Unknown,
    }
}

/// Identifier equality: numbers by value, strings by contents, and a string
/// against a number by best-effort numeric coercion of the string.
pub open spec fn spec_snowflake_eq(a: Snowflake, b: Snowflake) -> bool {
    match (a, b) {
        (Snowflake::Number(x), Snowflake::Number(y)) => x == y,
        (Snowflake::String(s), Snowflake::String(t)) => s@ == t@,
        (Snowflake::String(s), Snowflake::Number(y)) => spec_parse_u64(s@) == Some(y),
        (Snowflake::Number(x), Snowflake::String(t)) => spec_parse_u64(t@) == Some(x),
    }
}

impl Snowflake {
    /// The string form of the identifier: the decimal digits of a number, or
    /// the string itself.
    pub open spec fn spec_text(&self) -> Seq<char> {
        match self {
            Snowflake::Number(n) => spec_u64_string(*n),
            Snowflake::String(s) => s@,
        }
    }

    /// Best-effort numeric value of the identifier.
    pub open spec fn coerced(&self) -> Option<u64> {
        match self {
            Snowflake::Number(n) => Some(*n),
            Snowflake::String(s) => spec_parse_u64(s@),
        }
    }

    pub fn as_ref(&self) -> (r: SnowflakeRef)
        ensures
            match (self, r) {
                (Snowflake::Number(a), SnowflakeRef::Number(b)) => a == b,
                (Snowflake::String(a), SnowflakeRef::String(b)) => a@ == b@,
                _ => false,
            },
    {
        match self {
            Snowflake::Number(v) => SnowflakeRef::Number(*v),
            Snowflake::String(s) => SnowflakeRef::String(s.as_str()),
        }
    }

    /// The identifier's string form, as used for watermark store keys.
    pub fn to_text(&self) -> (r: String)
        ensures
            r@ == self.spec_text(),
    {
        match self {
            Snowflake::Number(v) => u64_to_string(*v),
            Snowflake::String(s) => s.clone(),
        }
    }

    /// An exact copy (`clone` via `derive` says nothing to the verifier).
    pub fn duplicate(&self) -> (r: Self)
        ensures
            r == *self,
    {
        match self {
            Snowflake::Number(v) => Snowflake::Number(*v),
            Snowflake::String(s) => Snowflake::String(s.clone()),
        }
    }

    /// Total three-way comparison after best-effort coercion of both sides.
    pub fn compare(&self, other: &Snowflake) -> (r: IdOrder)
        ensures
            r == spec_order(self.coerced(), other.coerced()),
    {
        let a = self.coerce_value();
        let b = other.coerce_value();
        match (a, b) {
            (Some(x), Some(y)) => if x < y {
                IdOrder::Less
            } else if x == y {
                IdOrder::Equal
            } else {
                IdOrder::Greater
            },
            _ => IdOrder::Unknown,
        }
    }

    /// Total three-way comparison of this identifier against a plain number.
    pub fn cmp_u64(&self, w: u64) -> (r: IdOrder)
        ensures
            r == spec_order(self.coerced(), Some(w)),
    {
        match self.coerce_value() {
            Some(x) => if x < w {
                IdOrder::Less
            } else if x == w {
                IdOrder::Equal
            } else {
                IdOrder::Greater
            },
            None => IdOrder::Unknown,
        }
    }

    /// Best-effort numeric value of the identifier.
    pub fn coerce_value(&self) -> (r: Option<u64>)
        ensures
            r == self.coerced(),
    {
        match self {
            Snowflake::Number(v) => Some(*v),
            Snowflake::String(s) => parse_u64(s.as_str()),
        }
    }
}

impl PartialEq for Snowflake {
    fn eq(&self, other: &Self) -> (r: bool) {
        match (self, other) {
            (Snowflake::Number(a), Snowflake::Number(b)) => *a == *b,
            (Snowflake::String(a), Snowflake::String(b)) => *a == *b,
            (Snowflake::String(a), Snowflake::Number(b)) => match parse_u64(a.as_str()) {
                Some(v) => v == *b,
                None => false,
            },
            (Snowflake::Number(a), Snowflake::String(b)) => match parse_u64(b.as_str()) {
                Some(v) => v == *a,
                None => false,
            },
        }
    }
}

impl vstd::std_specs::cmp::PartialEqSpecImpl for Snowflake {
    open spec fn obeys_eq_spec() -> bool {
        true
    }

    open spec fn eq_spec(&self, other: &Snowflake) -> bool {
        spec_snowflake_eq(*self, *other)
    }
}

impl<'a> SnowflakeRef<'a> {
    /// Best-effort numeric value of the identifier.
    pub open spec fn coerced(&self) -> Option<u64> {
        match self {
            SnowflakeRef::Number(n) => Some(*n),
            SnowflakeRef::String(s) => spec_parse_u64(s@),
        }
    }

    pub open spec fn is_number(&self) -> bool {
        self is Number
    }

    /// The string form of the identifier: the decimal digits of a number, or
    /// the string itself.
    pub open spec fn spec_text(&self) -> Seq<char> {
        match self {
            SnowflakeRef::Number(n) => spec_u64_string(*n),
            SnowflakeRef::String(s) => s@,
        }
    }

    /// The identifier's string form, as used for watermark store keys.
    pub fn to_text(&self) -> (r: String)
        ensures
            r@ == self.spec_text(),
    {
        match self {
            SnowflakeRef::Number(v) => u64_to_string(*v),
            SnowflakeRef::String(s) => (*s).to_owned(),
        }
    }

    /// The numeric value of a `Number` identifier; callers must not use it on
    /// a string identifier.
    pub fn unwrap_number(&self) -> (r: u64)
        requires
            self.is_number(),
        ensures
            *self == SnowflakeRef::<'a>::Number(r),
    {
        match self {
            SnowflakeRef::Number(v) => *v,
            SnowflakeRef::String(_) => {
                proof {
                    assert(false);
                }
                0
            },
        }
    }

    /// Replaces a string identifier by its numeric value where it coerces;
    /// leaves it alone otherwise.
    pub fn flatten(self) -> (r: Self)
        ensures
            self.coerced() is Some ==> r == SnowflakeRef::<'a>::Number(self.coerced()->0),
            self.coerced() is None ==> r == self,
    {
        match self {
            SnowflakeRef::Number(v) => SnowflakeRef::Number(v),
            SnowflakeRef::String(s) => match parse_u64(s) {
                Some(v) => SnowflakeRef::Number(v),
                None => SnowflakeRef::String(s),
            },
        }
    }
}

/// Full configuration for one run: adapter credentials, the delivery channel,
/// and the accounts to poll.
pub struct Config {
    pub vk_token: String,
    pub twitter_token: String,
    pub telegram_token: String,
    pub telegram_channel: Snowflake,
    pub twitter: Vec<SocialAccount>,
    pub vk: Vec<SocialAccount>,
}

/// One configured source account.
pub struct SocialAccount {
    pub id: Snowflake,
    pub name: Option<String>,
    pub url: Option<String>,
}

/// The mapping a sequence of key/value entries stands for; a later entry for
/// the same key wins.
pub open spec fn entries_map(s: Seq<(String, u64)>) -> Map<Seq<char>, u64>
    decreases s.len(),
{
    if s.len() == 0 {
        Map::empty()
    } else {
        entries_map(s.drop_last()).insert(s.last().0@, s.last().1)
    }
}

/// No two entries share a key.
pub open spec fn unique_keys(s: Seq<(String, u64)>) -> bool {
    forall|i: int, j: int|
        0 <= i < j < s.len() ==> (#[trigger] s[i]).0@ != (#[trigger] s[j]).0@
}

pub proof fn lemma_unique_drop_last(s: Seq<(String, u64)>)
    requires
        unique_keys(s),
        s.len() > 0,
    ensures
        unique_keys(s.drop_last()),
{
    assert forall|i: int, j: int|
        0 <= i < j < s.drop_last().len() implies (#[trigger] s.drop_last()[i]).0@ != (
    #[trigger] s.drop_last()[j]).0@ by {
        assert(s.drop_last()[i] == s[i]);
        assert(s.drop_last()[j] == s[j]);
    }
}

/// A key is in the mapping exactly when some entry carries it.
pub proof fn lemma_entries_map_domain(s: Seq<(String, u64)>)
    ensures
        forall|k: Seq<char>|
            entries_map(s).contains_key(k) <==> exists|i: int|
                0 <= i < s.len() && (#[trigger] s[i]).0@ == k,
    decreases s.len(),
{
    if s.len() > 0 {
        lemma_entries_map_domain(s.drop_last());
        assert forall|k: Seq<char>|
            entries_map(s).contains_key(k) <==> exists|i: int|
                0 <= i < s.len() && (#[trigger] s[i]).0@ == k by {
            let dl = s.drop_last();
            if entries_map(s).contains_key(k) {
                if k == s.last().0@ {
                    assert(s[s.len() - 1].0@ == k);
                } else {
                    assert(entries_map(dl).contains_key(k));
                    let i = choose|i: int| 0 <= i < dl.len() && (#[trigger] dl[i]).0@ == k;
                    assert(s[i].0@ == k);
                }
            }
            if exists|i: int| 0 <= i < s.len() && (#[trigger] s[i]).0@ == k {
                let i = choose|i: int| 0 <= i < s.len() && (#[trigger] s[i]).0@ == k;
                if i < s.len() - 1 {
                    assert(dl[i].0@ == k);
                    assert(entries_map(dl).contains_key(k));
                } else {
                    assert(k == s.last().0@);
                }
                assert(entries_map(s).contains_key(k));
            }
        }
    }
}

/// With unique keys, each entry's key maps to that entry's value.
pub proof fn lemma_entries_map_index(s: Seq<(String, u64)>, i: int)
    requires
        unique_keys(s),
        0 <= i < s.len(),
    ensures
        entries_map(s).contains_key(s[i].0@),
        entries_map(s)[s[i].0@] == s[i].1,
    decreases s.len(),
{
    if i < s.len() - 1 {
        lemma_unique_drop_last(s);
        lemma_entries_map_index(s.drop_last(), i);
        assert(s.drop_last()[i] == s[i]);
        assert(s[i].0@ != s[s.len() - 1].0@);
    }
}

/// With unique keys, changing one entry's value is insertion on the mapping.
pub proof fn lemma_entries_map_update(s: Seq<(String, u64)>, i: int, v: u64)
    requires
        unique_keys(s),
        0 <= i < s.len(),
    ensures
        entries_map(s.update(i, (s[i].0, v))) == entries_map(s).insert(s[i].0@, v),
    decreases s.len(),
{
    let t = s.update(i, (s[i].0, v));
    if i == s.len() - 1 {
        assert(t.drop_last() =~= s.drop_last());
        assert(t.last() == (s[i].0, v));
        assert(entries_map(t) =~= entries_map(s).insert(s[i].0@, v));
    } else {
        lemma_unique_drop_last(s);
        assert(s.drop_last()[i] == s[i]);
        lemma_entries_map_update(s.drop_last(), i, v);
        assert(t.drop_last() =~= s.drop_last().update(i, (s[i].0, v)));
        assert(t.last() == s.last());
        assert(s[i].0@ != s.last().0@);
        assert(entries_map(t) =~= entries_map(s).insert(s[i].0@, v));
    }
}

/// What `advance` does to the mapping: record the candidate only where the
/// key is absent or the candidate is strictly greater.
pub open spec fn spec_advance(m: Map<Seq<char>, u64>, k: Seq<char>, v: u64) -> Map<Seq<char>, u64> {
    if m.contains_key(k) && m[k] >= v {
        m
    } else {
        m.insert(k, v)
    }
}

/// A whole run's worth of `advance` calls, applied in order.
pub open spec fn spec_advance_all(
    m: Map<Seq<char>, u64>,
    calls: Seq<(Seq<char>, u64)>,
) -> Map<Seq<char>, u64>
    decreases calls.len(),
{
    if calls.len() == 0 {
        m
    } else {
        spec_advance(spec_advance_all(m, calls.drop_last()), calls.last().0, calls.last().1)
    }
}

/// Monotonicity: for every sequence of `advance` calls, a stored watermark
/// never decreases, and never disappears.
pub proof fn lemma_watermark_monotonic(
    m: Map<Seq<char>, u64>,
    calls: Seq<(Seq<char>, u64)>,
    k: Seq<char>,
)
    requires
        m.contains_key(k),
    ensures
        spec_advance_all(m, calls).contains_key(k),
        spec_advance_all(m, calls)[k] >= m[k],
    decreases calls.len(),
{
    if calls.len() > 0 {
        lemma_watermark_monotonic(m, calls.drop_last(), k);
    }
}

/// Advancing twice with the same candidate is the same as advancing once.
pub proof fn lemma_advance_idempotent(m: Map<Seq<char>, u64>, k: Seq<char>, v: u64)
    ensures
        spec_advance(spec_advance(m, k, v), k, v) == spec_advance(m, k, v),
{
    assert(spec_advance(spec_advance(m, k, v), k, v) =~= spec_advance(m, k, v));
}

/// Per-source watermarks: the highest delivered numeric post id, keyed by the
/// source identifier's string form.
pub struct CacheRecords {
    pub vk: Vec<(String, u64)>,
}

impl View for CacheRecords {
    type V = Map<Seq<char>, u64>;

    open spec fn view(&self) -> Map<Seq<char>, u64> {
        entries_map(self.vk@)
    }
}

impl CacheRecords {
    /// Entries never repeat a key.
    pub open spec fn wf(&self) -> bool {
        unique_keys(self.vk@)
    }

    /// An empty store: no post from any source has ever been delivered.
    pub fn new() -> (r: Self)
        ensures
            r.wf(),
            r@ == Map::<Seq<char>, u64>::empty(),
    {
        CacheRecords { vk: Vec::new() }
    }

    /// The last known watermark for a source, or `None` when the source has
    /// never had a delivery.
    pub fn get(&self, source_id: &Snowflake) -> (r: Option<u64>)
        requires
            self.wf(),
        ensures
            r == if self@.contains_key(source_id.spec_text()) {
                Some(self@[source_id.spec_text()])
            } else {
                None::<u64>
            },
    {
        let key = source_id.to_text();
        let n = self.vk.len();
        let mut i: usize = 0;
        while i < n
            invariant
                self.wf(),
                i <= n,
                n == self.vk@.len(),
                key@ == source_id.spec_text(),
                forall|j: int| 0 <= j < i ==> (#[trigger] self.vk@[j]).0@ != key@,
            decreases n - i,
        {
            if self.vk[i].0 == key {
                proof {
                    lemma_entries_map_index(self.vk@, i as int);
                }
                return Some(self.vk[i].1);
            }
            i = i + 1;
        }
        proof {
            lemma_entries_map_domain(self.vk@);
        }
        None
    }

    /// Raise the stored watermark for a source to `candidate` where it is
    /// absent or strictly lower; leave it alone otherwise.
    pub fn advance(&mut self, source_id: &Snowflake, candidate: u64)
        requires
            old(self).wf(),
        ensures
            final(self).wf(),
            final(self)@ == spec_advance(old(self)@, source_id.spec_text(), candidate),
    {
        let key = source_id.to_text();
        let n = self.vk.len();
        let mut i: usize = 0;
        while i < n
            invariant
                self == old(self),
                self.wf(),
                i <= n,
                n == self.vk@.len(),
                key@ == source_id.spec_text(),
                forall|j: int| 0 <= j < i ==> (#[trigger] self.vk@[j]).0@ != key@,
            decreases n - i,
        {
            if self.vk[i].0 == key {
                proof {
                    lemma_entries_map_index(self.vk@, i as int);
                }
                if candidate > self.vk[i].1 {
                    let replacement = (self.vk[i].0.clone(), candidate);
                    self.vk[i] = replacement;
                    proof {
                        lemma_entries_map_update(old(self).vk@, i as int, candidate);
                        assert forall|p: int, q: int|
                            0 <= p < q < self.vk@.len() implies (#[trigger] self.vk@[p]).0@ != (
                        #[trigger] self.vk@[q]).0@ by {
                            assert(old(self).vk@[p].0@ != old(self).vk@[q].0@);
                        }
                    }
                }
                return ;
            }
            i = i + 1;
        }
        self.vk.push((key, candidate));
        proof {
            lemma_entries_map_domain(old(self).vk@);
            assert(self.vk@.drop_last() =~= old(self).vk@);
            assert(!old(self)@.contains_key(source_id.spec_text()));
            assert forall|p: int, q: int|
                0 <= p < q < self.vk@.len() implies (#[trigger] self.vk@[p]).0@ != (
            #[trigger] self.vk@[q]).0@ by {
                if q < self.vk@.len() - 1 {
                    assert(old(self).vk@[p].0@ != old(self).vk@[q].0@);
                } else {
                    assert(self.vk@[p] == old(self).vk@[p]);
                }
            }
        }
    }
}

} // verus!
