//! Per-connection state and the registries that find it again.
use std::sync::Arc;

use dashmap::DashMap;
use vstd::prelude::*;

use crate::config::Config;
use crate::wire;
use crate::wire::put_signed;

verus! {

/// The Trino query that a connection is running, by its id; none where the
/// connection is idle.
#[derive(Clone, Debug)]
pub struct ActiveQueryId {
    pub id: Option<String>,
}

impl View for ActiveQueryId {
    type V = Option<Seq<char>>;

    open spec fn view(&self) -> Option<Seq<char>> {
        crate::text::text_view(self.id)
    }
}

/// A concurrent map of `dashmap`.
#[verifier::external_type_specification]
#[verifier::external_body]
#[verifier::reject_recursive_types(K)]
#[verifier::reject_recursive_types(V)]
#[verifier::reject_recursive_types(S)]
pub struct ExDashMap<K, V, S>(dashmap::DashMap<K, V, S>);

/// A map from byte strings to positions.
pub type Index = DashMap<Vec<u8>, usize>;

/// The entries of a map from byte strings to positions.
pub uninterp spec fn positions(index: DashMap<Vec<u8>, usize>) -> Map<Seq<u8>, usize>;

/// No entries.
pub open spec fn no_positions() -> Map<Seq<u8>, usize> {
    Map::empty()
}

/// An empty map: `DashMap::new` of `dashmap`.
#[verifier::external_body]
fn new_index() -> (r: Index)
    ensures
        positions(r) == no_positions(),
{
    DashMap::new()
}

/// Sets the position of a key: `DashMap::insert` of `dashmap`.
#[verifier::external_body]
fn index_insert(index: &mut Index, key: Vec<u8>, position: usize)
    ensures
        positions(*final(index)) == positions(*old(index)).insert(key@, position),
{
    index.insert(key, position);
}

/// The position of a key: `DashMap::get` of `dashmap`.
#[verifier::external_body]
fn index_get(index: &Index, key: &Vec<u8>) -> (r: Option<usize>)
    ensures
        match r {
            Some(i) => positions(*index).contains_key(key@) && positions(*index)[key@] == i,
            None => !positions(*index).contains_key(key@),
        },
{
    index.get(key).map(|entry| *entry.value())
}

/// Removes a key: `DashMap::remove` of `dashmap`.
#[verifier::external_body]
fn index_remove(index: &mut Index, key: &Vec<u8>)
    ensures
        positions(*final(index)) == positions(*old(index)).remove(key@),
{
    index.remove(key);
}

/// Keeps the keys that do not begin with a prefix: `DashMap::retain` of
/// `dashmap`, with a closure that tests the key.
#[verifier::external_body]
fn index_retain_without(index: &mut Index, prefix: &Vec<u8>)
    ensures
        positions(*final(index)) == without_prefix(positions(*old(index)), prefix@),
{
    index.retain(|key, _| !starts_with(key, prefix));
}

/// A map without the keys that begin with a prefix.
pub open spec fn without_prefix<V>(m: Map<Seq<u8>, V>, prefix: Seq<u8>) -> Map<Seq<u8>, V> {
    Map::new(
        |key: Seq<u8>| m.contains_key(key) && !prefix.is_prefix_of(key),
        |key: Seq<u8>| m[key],
    )
}

/// Whether a key begins with a prefix.
fn starts_with(key: &Vec<u8>, prefix: &Vec<u8>) -> (r: bool)
    ensures
        r == prefix@.is_prefix_of(key@),
{
    if prefix.len() > key.len() {
        return false;
    }
    let mut i: usize = 0;
    while i < prefix.len()
        invariant
            i <= prefix@.len() <= key@.len(),
            forall|k: int| 0 <= k < i ==> key@[k] == prefix@[k],
        decreases prefix@.len() - i,
    {
        if key[i] != prefix[i] {
            assert(key@.take(prefix@.len() as int)[i as int] != prefix@[i as int]);
            return false;
        }
        i += 1;
    }
    assert(key@.take(prefix@.len() as int) =~= prefix@);
    true
}

/// Values by key: a concurrent map gives the position of each value.
pub struct Registry<V> {
    index: Index,
    slots: Vec<Option<(Vec<u8>, V)>>,
}

impl<V> View for Registry<V> {
    type V = Map<Seq<u8>, V>;

    closed spec fn view(&self) -> Map<Seq<u8>, V> {
        let at = positions(self.index);
        Map::new(
            |key: Seq<u8>| at.contains_key(key),
            |key: Seq<u8>| (self.slots@[at[key] as int]->0).1,
        )
    }
}

impl<V> Registry<V> {
    /// Every key's position holds that key, and every value that is held can
    /// be found by its key.
    pub closed spec fn wf(self) -> bool {
        let at = positions(self.index);
        &&& forall|key: Seq<u8>| #[trigger]
            at.contains_key(key) ==> at[key] < self.slots@.len() && (
            self.slots@[at[key] as int] matches Some(slot) && slot.0@ == key)
        &&& forall|i: int|
            0 <= i < self.slots@.len() ==> (#[trigger] self.slots@[i] matches Some(slot)
                ==> at.contains_key(slot.0@) && at[slot.0@] == i)
    }

    /// A registry without entries.
    pub fn new() -> (r: Self)
        ensures
            r.wf(),
            r@ == Map::<Seq<u8>, V>::empty(),
    {
        let r = Registry { index: new_index(), slots: Vec::new() };
        assert(r@ =~= Map::<Seq<u8>, V>::empty());
        r
    }

    /// The position of a free slot, which is made where there is none.
    fn free_slot(&mut self) -> (i: usize)
        requires
            old(self).wf(),
        ensures
            final(self).wf(),
            final(self)@ == old(self)@,
            positions(final(self).index) == positions(old(self).index),
            i < final(self).slots@.len(),
            final(self).slots@[i as int] is None,
    {
        let mut i: usize = 0;
        while i < self.slots.len()
            invariant
                *self == *old(self),
                self.wf(),
                i <= self.slots@.len(),
            decreases self.slots@.len() - i,
        {
            if self.slots[i].is_none() {
                return i;
            }
            i += 1;
        }
        self.slots.push(None);
        assert(self@ =~= old(self)@);
        i
    }

    /// Enters a value under a key, in place of the one that was there.
    pub fn insert(&mut self, key: Vec<u8>, value: V)
        requires
            old(self).wf(),
        ensures
            final(self).wf(),
            final(self)@ == old(self)@.insert(key@, value),
    {
        match index_get(&self.index, &key) {
            Some(i) => {
                self.slots.set(i, Some((key, value)));
            },
            None => {
                let i: usize = self.free_slot();
                let copy = copy_bytes(&key);
                self.slots.set(i, Some((copy, value)));
                index_insert(&mut self.index, key, i);
            },
        }
        assert(self@ =~= old(self)@.insert(key@, value));
    }

    /// The value under a key.
    pub fn get(&self, key: &Vec<u8>) -> (r: Option<&V>)
        requires
            self.wf(),
        ensures
            match r {
                Some(v) => self@.contains_key(key@) && *v == self@[key@],
                None => !self@.contains_key(key@),
            },
    {
        match index_get(&self.index, key) {
            Some(i) => match &self.slots[i] {
                Some(slot) => Some(&slot.1),
                None => None,
            },
            None => None,
        }
    }

    /// Removes a key and its value.
    pub fn remove(&mut self, key: &Vec<u8>)
        requires
            old(self).wf(),
        ensures
            final(self).wf(),
            final(self)@ == old(self)@.remove(key@),
    {
        if let Some(i) = index_get(&self.index, key) {
            self.slots.set(i, None);
            index_remove(&mut self.index, key);
        }
        assert(self@ =~= old(self)@.remove(key@));
    }

    /// Removes every key that begins with a prefix, and their values.
    pub fn remove_prefixed(&mut self, prefix: &Vec<u8>)
        requires
            old(self).wf(),
        ensures
            final(self).wf(),
            final(self)@ == without_prefix(old(self)@, prefix@),
    {
        index_retain_without(&mut self.index, prefix);
        let ghost at = positions(old(self).index);
        let ghost kept = without_prefix(at, prefix@);
        let mut i: usize = 0;
        while i < self.slots.len()
            invariant
                i <= self.slots@.len(),
                self.slots@.len() == old(self).slots@.len(),
                old(self).wf(),
                at == positions(old(self).index),
                kept == without_prefix(at, prefix@),
                positions(self.index) == kept,
                forall|k: int|
                    i <= k < self.slots@.len() ==> self.slots@[k] == old(self).slots@[k],
                forall|k: int|
                    0 <= k < i ==> #[trigger] self.slots@[k] == (match old(self).slots@[k] {
                        Some(slot) => if prefix@.is_prefix_of(slot.0@) {
                            None
                        } else {
                            Some(slot)
                        },
                        None => None,
                    }),
            decreases self.slots@.len() - i,
        {
            let stale = match &self.slots[i] {
                Some(slot) => starts_with(&slot.0, prefix),
                None => false,
            };
            if stale {
                self.slots.set(i, None);
            }
            i += 1;
        }
        proof {
            assert forall|key: Seq<u8>| #[trigger] kept.contains_key(key) implies kept[key]
                < self.slots@.len() && (self.slots@[kept[key] as int] matches Some(slot) && slot.0@
                == key) by {
                assert(at.contains_key(key));
                assert(old(self).slots@[at[key] as int] is Some);
            }
            assert forall|k: int| 0 <= k < self.slots@.len() implies (#[trigger] self.slots@[k] matches Some(
                slot,
            ) ==> kept.contains_key(slot.0@) && kept[slot.0@] == k) by {
                if self.slots@[k] is Some {
                    assert(old(self).slots@[k] is Some);
                }
            }
            assert(self@ =~= without_prefix(old(self)@, prefix@)) by {
                assert forall|key: Seq<u8>| self@.contains_key(key) implies self@[key]
                    == without_prefix(old(self)@, prefix@)[key] by {
                    assert(kept.contains_key(key));
                    assert(at.contains_key(key));
                }
            }
        }
    }
}

/// A copy of some bytes.
fn copy_bytes(bytes: &Vec<u8>) -> (r: Vec<u8>)
    ensures
        r@ == bytes@,
{
    let mut r: Vec<u8> = Vec::new();
    append_bytes(&mut r, bytes.as_slice());
    assert(r@ =~= bytes@);
    r
}

/// Appends some bytes.
fn append_bytes(out: &mut Vec<u8>, bytes: &[u8])
    ensures
        final(out)@ == old(out)@ + bytes@,
{
    let mut i: usize = 0;
    while i < bytes.len()
        invariant
            i <= bytes@.len(),
            out@ == old(out)@ + bytes@.take(i as int),
        decreases bytes@.len() - i,
    {
        out.push(bytes[i]);
        i += 1;
        assert(bytes@.take(i as int) =~= bytes@.take(i - 1).push(bytes@[i - 1]));
        assert(out@ =~= old(out)@ + bytes@.take(i as int));
    }
    assert(bytes@.take(i as int) =~= bytes@);
}

/// The secret that authorises a cancel request.
#[derive(Clone, Debug)]
pub enum SecretKey {
    I32(i32),
    Bytes(Vec<u8>),
}

/// A secret, its bytes as a sequence.
pub enum SecretView {
    I32(i32),
    Bytes(Seq<u8>),
}

impl View for SecretKey {
    type V = SecretView;

    open spec fn view(&self) -> SecretView {
        match self {
            SecretKey::I32(n) => SecretView::I32(*n),
            SecretKey::Bytes(b) => SecretView::Bytes(b@),
        }
    }
}

/// The key under which a connection's cancel entry is registered.
pub open spec fn cancel_key(pid: i32, secret: SecretView) -> Seq<u8> {
    wire::signed_big_endian(pid as int, 4) + match secret {
        SecretView::I32(n) => seq![0u8] + wire::signed_big_endian(n as int, 4),
        SecretView::Bytes(b) => seq![1u8] + b,
    }
}

/// The key under which a connection's cancel entry is registered.
fn cancel_key_bytes(pid: i32, secret: &SecretKey) -> (r: Vec<u8>)
    ensures
        r@ == cancel_key(pid, secret@),
{
    let mut out: Vec<u8> = Vec::new();
    put_signed(&mut out, pid as i64, 4);
    match secret {
        SecretKey::I32(n) => {
            out.push(0);
            put_signed(&mut out, *n as i64, 4);
        },
        SecretKey::Bytes(b) => {
            out.push(1);
            append_bytes(&mut out, b.as_slice());
        },
    }
    assert(out@ =~= cancel_key(pid, secret@));
    out
}

/// Equal bytes have equal last bytes, and equal bytes before them.
proof fn last_byte_fixes(a: nat, b: nat, width: nat)
    requires
        width > 0,
        wire::big_endian(a, width) == wire::big_endian(b, width),
    ensures
        a % 256 == b % 256,
        wire::big_endian(a / 256, (width - 1) as nat) == wire::big_endian(
            b / 256,
            (width - 1) as nat,
        ),
{
    let x = wire::big_endian(a / 256, (width - 1) as nat);
    let y = wire::big_endian(b / 256, (width - 1) as nat);
    assert(wire::big_endian(a, width).last() == (a % 256) as u8);
    assert(wire::big_endian(b, width).last() == (b % 256) as u8);
    assert(wire::big_endian(a, width).drop_last() =~= x);
    assert(wire::big_endian(b, width).drop_last() =~= y);
}

/// A number is made up of four bytes and what is above them.
proof fn bytes_make_up(n: nat)
    ensures
        n % 0x1_0000_0000 == n % 256 + 256 * ((n / 256) % 256) + 65536 * ((n / 256 / 256) % 256)
            + 16777216 * ((n / 256 / 256 / 256) % 256),
{
    vstd::arithmetic::div_mod::lemma_mod_breakdown(n as int, 256, 0x100_0000);
    vstd::arithmetic::div_mod::lemma_mod_breakdown((n / 256) as int, 256, 0x1_0000);
    vstd::arithmetic::div_mod::lemma_mod_breakdown((n / 256 / 256) as int, 256, 256);
}

/// Four bytes fix the low 32 bits of a number.
proof fn four_bytes_fix(a: nat, b: nat)
    requires
        wire::big_endian(a, 4) == wire::big_endian(b, 4),
    ensures
        a % 0x1_0000_0000 == b % 0x1_0000_0000,
{
    last_byte_fixes(a, b, 4);
    last_byte_fixes(a / 256, b / 256, 3);
    last_byte_fixes(a / 256 / 256, b / 256 / 256, 2);
    last_byte_fixes(a / 256 / 256 / 256, b / 256 / 256 / 256, 1);
    bytes_make_up(a);
    bytes_make_up(b);
}

/// A number takes as many bytes as are asked for.
proof fn byte_count(n: nat, width: nat)
    ensures
        wire::big_endian(n, width).len() == width,
    decreases width,
{
    if width > 0 {
        byte_count(n / 256, (width - 1) as nat);
    }
}

/// A signed 32-bit number takes four bytes, which fix it.
proof fn signed_bytes_fix(a: i32, b: i32)
    ensures
        wire::signed_big_endian(a as int, 4).len() == 4,
        wire::signed_big_endian(a as int, 4) == wire::signed_big_endian(b as int, 4) ==> a == b,
{
    let x = if a < 0 {
        (a + 0x1_0000_0000_0000_0000) as nat
    } else {
        a as nat
    };
    let y = if b < 0 {
        (b + 0x1_0000_0000_0000_0000) as nat
    } else {
        b as nat
    };
    byte_count(x, 4);
    if wire::signed_big_endian(a as int, 4) == wire::signed_big_endian(b as int, 4) {
        four_bytes_fix(x, y);
        assert(x % 0x1_0000_0000 == if a < 0 {
            a + 0x1_0000_0000
        } else {
            a as int
        });
        assert(y % 0x1_0000_0000 == if b < 0 {
            b + 0x1_0000_0000
        } else {
            b as int
        });
    }
}

/// Two pairs of process id and secret have the same key only where they are the
/// same pair.
pub proof fn cancel_keys_are_distinct(pid: i32, secret: SecretView, pid2: i32, secret2: SecretView)
    requires
        cancel_key(pid, secret) == cancel_key(pid2, secret2),
    ensures
        pid == pid2,
        secret == secret2,
{
    let x = cancel_key(pid, secret);
    let y = cancel_key(pid2, secret2);
    signed_bytes_fix(pid, pid2);
    signed_bytes_fix(pid2, pid);
    assert(x.take(4) =~= wire::signed_big_endian(pid as int, 4));
    assert(y.take(4) =~= wire::signed_big_endian(pid2 as int, 4));
    assert(x[4] == (if secret is I32 {
        0u8
    } else {
        1u8
    }));
    assert(y[4] == (if secret2 is I32 {
        0u8
    } else {
        1u8
    }));
    match (secret, secret2) {
        (SecretView::I32(n), SecretView::I32(m)) => {
            signed_bytes_fix(n, m);
            signed_bytes_fix(m, n);
            assert(x.skip(5) =~= wire::signed_big_endian(n as int, 4));
            assert(y.skip(5) =~= wire::signed_big_endian(m as int, 4));
        },
        (SecretView::Bytes(b), SecretView::Bytes(c)) => {
            assert(x.skip(5) =~= b);
            assert(y.skip(5) =~= c);
        },
        _ => {},
    }
}

/// Where a cancel request is routed to: the Trino client of a connection, and
/// the place that names its running query.
pub struct CancelEntry<C, S> {
    pub trino_client: C,
    pub active_query_id: S,
}

/// A cancel request reaches the connection that it names and no other: what is
/// entered or removed for one pair of process id and secret is found or missed
/// under that pair, and changes nothing under another.
pub proof fn cancel_is_private<V>(
    entries: Map<Seq<u8>, V>,
    pid: i32,
    secret: SecretView,
    entry: V,
    pid2: i32,
    secret2: SecretView,
)
    ensures
        ({
            let key = cancel_key(pid, secret);
            let entered = entries.insert(key, entry);
            let removed = entries.remove(key);
            let other = cancel_key(pid2, secret2);
            &&& entered.contains_key(key) && entered[key] == entry
            &&& !removed.contains_key(key)
            &&& (pid, secret) != (pid2, secret2) ==> {
                &&& entered.contains_key(other) == entries.contains_key(other)
                &&& removed.contains_key(other) == entries.contains_key(other)
                &&& entries.contains_key(other) ==> entered[other] == entries[other]
                    && removed[other] == entries[other]
            }
        }),
{
    if cancel_key(pid, secret) == cancel_key(pid2, secret2) {
        cancel_keys_are_distinct(pid, secret, pid2, secret2);
    }
}

/// Enters the cancel entry of a new connection.
pub fn register_cancel<C, S>(
    registry: &mut Registry<CancelEntry<C, S>>,
    pid: i32,
    secret_key: &SecretKey,
    entry: CancelEntry<C, S>,
)
    requires
        old(registry).wf(),
    ensures
        final(registry).wf(),
        final(registry)@ == old(registry)@.insert(cancel_key(pid, secret_key@), entry),
{
    registry.insert(cancel_key_bytes(pid, secret_key), entry)
}

/// The cancel entry of the connection with this process id and secret.
pub fn lookup_cancel<'a, C, S>(
    registry: &'a Registry<CancelEntry<C, S>>,
    pid: i32,
    secret_key: &SecretKey,
) -> (r: Option<&'a CancelEntry<C, S>>)
    requires
        registry.wf(),
    ensures
        match r {
            Some(e) => registry@.contains_key(cancel_key(pid, secret_key@)) && *e
                == registry@[cancel_key(pid, secret_key@)],
            None => !registry@.contains_key(cancel_key(pid, secret_key@)),
        },
{
    registry.get(&cancel_key_bytes(pid, secret_key))
}

/// Removes the cancel entry of a connection that ended.
pub fn unregister_cancel<C, S>(
    registry: &mut Registry<CancelEntry<C, S>>,
    pid: i32,
    secret_key: &SecretKey,
)
    requires
        old(registry).wf(),
    ensures
        final(registry).wf(),
        final(registry)@ == old(registry)@.remove(cancel_key(pid, secret_key@)),
{
    registry.remove(&cancel_key_bytes(pid, secret_key))
}

/// The maximum number of replies that are kept for one connection.
///
/// Each holds a query open in Trino; without a cap a client could have any
/// number of them by describing portals that it never executes.
pub const MAX_CACHED_PORTALS: usize = 64;

/// A reply that was produced for a SQL text.
///
/// A client may bind a portal's name to another statement, so the text is
/// compared when the reply is taken.
pub struct CachedPortalResponse<R> {
    pub query: String,
    pub response: R,
}

/// Replies by portal name, from the time a portal is described until it is
/// executed.
pub struct PortalCache<R> {
    entries: Vec<(String, CachedPortalResponse<R>)>,
}

/// The position of a name.
pub closed spec fn position<R>(
    entries: Seq<(String, CachedPortalResponse<R>)>,
    name: Seq<char>,
    i: int,
) -> Option<int>
    decreases entries.len() - i,
{
    if 0 <= i < entries.len() {
        if entries[i].0@ == name {
            Some(i)
        } else {
            position(entries, name, i + 1)
        }
    } else {
        None
    }
}

/// A name's position holds it, and no position does where there is none.
proof fn position_is_right<R>(
    entries: Seq<(String, CachedPortalResponse<R>)>,
    name: Seq<char>,
    i: int,
)
    requires
        0 <= i,
    ensures
        match position(entries, name, i) {
            Some(k) => i <= k < entries.len() && entries[k].0@ == name,
            None => forall|k: int| i <= k < entries.len() ==> (#[trigger] entries[k]).0@ != name,
        },
    decreases entries.len() - i,
{
    if i < entries.len() && entries[i].0@ != name {
        position_is_right(entries, name, i + 1);
    }
}

impl<R> View for PortalCache<R> {
    type V = Map<Seq<char>, CachedPortalResponse<R>>;

    closed spec fn view(&self) -> Map<Seq<char>, CachedPortalResponse<R>> {
        Map::new(
            |name: Seq<char>| position(self.entries@, name, 0) is Some,
            |name: Seq<char>| self.entries@[position(self.entries@, name, 0)->0].1,
        )
    }
}

impl<R> PortalCache<R> {
    /// No name stands twice, and there are no more entries than allowed.
    pub closed spec fn wf(self) -> bool {
        &&& self.entries@.len() <= MAX_CACHED_PORTALS
        &&& forall|i: int, j: int|
            0 <= i < j < self.entries@.len() ==> (#[trigger] self.entries@[i]).0@ != (
            #[trigger] self.entries@[j]).0@
    }

    /// The number of entries.
    pub closed spec fn count(self) -> nat {
        self.entries@.len()
    }

    /// An empty cache.
    pub fn new() -> (r: Self)
        ensures
            r.wf(),
            r.count() == 0,
            r@ == Map::<Seq<char>, CachedPortalResponse<R>>::empty(),
    {
        let r = PortalCache { entries: Vec::new() };
        assert(r@ =~= Map::<Seq<char>, CachedPortalResponse<R>>::empty());
        r
    }

    /// The number of entries.
    pub fn len(&self) -> (r: usize)
        ensures
            r == self.count(),
    {
        self.entries.len()
    }

    /// The position of a name.
    fn find(&self, name: &str) -> (r: Option<usize>)
        requires
            self.wf(),
        ensures
            match r {
                Some(i) => i < self.entries@.len() && self.entries@[i as int].0@ == name@
                    && position(self.entries@, name@, 0) == Some(i as int),
                None => position(self.entries@, name@, 0) is None,
            },
    {
        let mut i: usize = 0;
        while i < self.entries.len()
            invariant
                i <= self.entries@.len(),
                position(self.entries@, name@, 0) == position(self.entries@, name@, i as int),
            decreases self.entries@.len() - i,
        {
            if crate::text::same(self.entries[i].0.as_str(), name) {
                return Some(i);
            }
            i += 1;
        }
        None
    }

    /// Keeps a reply under a portal's name, in place of the one that was
    /// there. A full cache takes no further name: the reply is dropped, and
    /// the portal's execution runs the query again.
    pub fn insert(&mut self, name: String, entry: CachedPortalResponse<R>)
        requires
            old(self).wf(),
        ensures
            final(self).wf(),
            old(self)@.contains_key(name@) || old(self).count() < MAX_CACHED_PORTALS
                ==> final(self)@ == old(self)@.insert(name@, entry),
            !old(self)@.contains_key(name@) && old(self).count() >= MAX_CACHED_PORTALS
                ==> final(self)@ == old(self)@,
            final(self).count() == old(self).count() + (if !old(self)@.contains_key(name@)
                && old(self).count() < MAX_CACHED_PORTALS {
                1int
            } else {
                0int
            }),
            final(self).count() <= MAX_CACHED_PORTALS,
    {
        let ghost before = self.entries@;
        match self.find(name.as_str()) {
            Some(i) => {
                proof {
                    position_is_right(before, name@, 0);
                }
                self.entries.set(i, (name, entry));
                proof {
                    assert forall|n: Seq<char>| position(self.entries@, n, 0) == position(
                        before,
                        n,
                        0,
                    ) by {
                        same_names(before, self.entries@, n, 0);
                    }
                    assert forall|n: Seq<char>| n != name@ implies #[trigger] position(
                        before,
                        n,
                        0,
                    ) != Some(i as int) by {
                        position_is_right(before, n, 0);
                    }
                    assert(self.entries@ == before.update(i as int, (name, entry)));
                    let wanted = old(self)@.insert(name@, entry);
                    assert forall|n: Seq<char>| #[trigger] self@.contains_key(n) implies self@[n]
                        == wanted[n] by {
                        position_is_right(before, n, 0);
                        assert(position(self.entries@, n, 0) == position(before, n, 0));
                    }
                    assert(old(self)@.contains_key(name@));
                    assert forall|n: Seq<char>| #[trigger] self@.contains_key(n)
                        == wanted.contains_key(n) by {
                        assert(position(self.entries@, n, 0) == position(before, n, 0));
                    }
                    assert(self@ =~= wanted);
                }
            },
            None => {
                proof {
                    position_is_right(before, name@, 0);
                }
                if self.entries.len() < MAX_CACHED_PORTALS {
                    self.entries.push((name, entry));
                    proof {
                        assert forall|n: Seq<char>| position(self.entries@, n, 0) == (if n
                            == name@ {
                            Some(before.len() as int)
                        } else {
                            position(before, n, 0)
                        }) by {
                            pushed(before, (name, entry), n, 0);
                        }
                        assert forall|n: Seq<char>| #[trigger]
                            position(before, n, 0) is Some implies 0 <= position(before, n, 0)->0
                            < before.len() by {
                            position_is_right(before, n, 0);
                        }
                        assert(self@ =~= old(self)@.insert(name@, entry));
                    }
                }
            },
        }
    }

    /// Takes the reply that is kept under a portal's name.
    pub fn take(&mut self, name: &str) -> (r: Option<CachedPortalResponse<R>>)
        requires
            old(self).wf(),
        ensures
            final(self).wf(),
            match r {
                Some(e) => old(self)@.contains_key(name@) && e == old(self)@[name@],
                None => !old(self)@.contains_key(name@),
            },
            final(self)@ == old(self)@.remove(name@),
            final(self).count() == old(self).count() - (if old(self)@.contains_key(name@) {
                1int
            } else {
                0int
            }),
    {
        let ghost before = self.entries@;
        match self.find(name) {
            Some(i) => {
                let taken = self.entries.remove(i);
                proof {
                    let wanted = old(self)@.remove(name@);
                    assert forall|n: Seq<char>| #[trigger] self@.contains_key(n)
                        == wanted.contains_key(n) by {
                        removed(before, i as int, n);
                    }
                    assert forall|n: Seq<char>| #[trigger] self@.contains_key(n) implies self@[n]
                        == wanted[n] by {
                        removed(before, i as int, n);
                    }
                    assert(self@ =~= wanted);
                }
                Some(taken.1)
            },
            None => {
                proof {
                    assert(self@ =~= old(self)@.remove(name@));
                }
                None
            },
        }
    }
}

/// The number of entries of a cache is the number of names in it.
pub proof fn count_is_size<R>(cache: PortalCache<R>)
    requires
        cache.wf(),
    ensures
        cache.count() == cache@.dom().len(),
{
    let names = Seq::new(cache.entries@.len(), |i: int| cache.entries@[i].0@);
    assert(names.no_duplicates()) by {
        assert forall|i: int, j: int| 0 <= i < names.len() && 0 <= j < names.len() && i != j implies
            names[i] != names[j] by {
            if i < j {
                assert(cache.entries@[i].0@ != cache.entries@[j].0@);
            } else {
                assert(cache.entries@[j].0@ != cache.entries@[i].0@);
            }
        }
    }
    names.unique_seq_to_set();
    assert forall|name: Seq<char>| cache@.dom().contains(name) == names.to_set().contains(name) by {
        position_is_right(cache.entries@, name, 0);
        if let Some(k) = position(cache.entries@, name, 0) {
            assert(names[k] == name);
        }
        if names.contains(name) {
            let k = choose|k: int| 0 <= k < names.len() && names[k] == name;
            assert(cache.entries@[k].0@ == name);
        }
    }
    assert(cache@.dom() =~= names.to_set());
}

/// Positions depend on the names alone.
proof fn same_names<R>(
    a: Seq<(String, CachedPortalResponse<R>)>,
    b: Seq<(String, CachedPortalResponse<R>)>,
    name: Seq<char>,
    i: int,
)
    requires
        0 <= i,
        a.len() == b.len(),
        forall|k: int| 0 <= k < a.len() ==> (#[trigger] a[k]).0@ == b[k].0@,
    ensures
        position(a, name, i) == position(b, name, i),
    decreases a.len() - i,
{
    if i < a.len() {
        assert(a[i].0@ == b[i].0@);
        same_names(a, b, name, i + 1);
    }
}

/// A name that is added at the end is found there, others where they were.
proof fn pushed<R>(
    a: Seq<(String, CachedPortalResponse<R>)>,
    e: (String, CachedPortalResponse<R>),
    name: Seq<char>,
    i: int,
)
    requires
        0 <= i <= a.len(),
        position(a, e.0@, i) is None,
    ensures
        position(a.push(e), name, i) == (if name == e.0@ {
            Some(a.len() as int)
        } else {
            position(a, name, i)
        }),
    decreases a.len() - i,
{
    if i < a.len() {
        assert(a.push(e)[i] == a[i]);
        pushed(a, e, name, i + 1);
    } else {
        assert(a.push(e)[i] == e);
        assert(position(a.push(e), name, i + 1) is None);
    }
}

/// Where names are distinct, removing an entry leaves the others to be found.
proof fn removed<R>(a: Seq<(String, CachedPortalResponse<R>)>, at: int, name: Seq<char>)
    requires
        0 <= at < a.len(),
        forall|i: int, j: int| 0 <= i < j < a.len() ==> (#[trigger] a[i]).0@ != (#[trigger] a[j]).0@,
    ensures
        ({
            let b = a.remove(at);
            let p = position(a, name, 0);
            let q = position(b, name, 0);
            &&& name == a[at].0@ ==> q is None
            &&& name != a[at].0@ ==> (p is Some <==> q is Some)
            &&& name != a[at].0@ && p is Some ==> a[p->0] == b[q->0]
        }),
{
    let b = a.remove(at);
    position_is_right(a, name, 0);
    position_is_right(b, name, 0);
    if let Some(q) = position(b, name, 0) {
        let back = if q < at {
            q
        } else {
            q + 1
        };
        assert(b[q] == a[back]);
        if let Some(p) = position(a, name, 0) {
            if p != back {
                if p < back {
                    assert(a[p].0@ != a[back].0@);
                } else {
                    assert(a[back].0@ != a[p].0@);
                }
            }
        }
        if name == a[at].0@ {
            if back < at {
                assert(a[back].0@ != a[at].0@);
            } else {
                assert(a[at].0@ != a[back].0@);
            }
        }
    } else if let Some(p) = position(a, name, 0) {
        if p != at {
            let there = if p < at {
                p
            } else {
                p - 1
            };
            assert(b[there] == a[p]);
        }
    }
}

/// The state of one connection: its Trino client, the configuration, the
/// replies kept for its portals, the place that names its running query, and
/// the pair under which its cancel entry is registered.
pub struct ConnectionState<C, S, R> {
    pub trino_client: C,
    pub config: Arc<Config>,
    pub portals: PortalCache<R>,
    pub active_query_id: S,
    pub cancel_key: (i32, SecretKey),
}

/// The key of a connection's state.
pub open spec fn connection_key(conn_id: Seq<char>) -> Seq<u8> {
    vstd::utf8::encode_utf8(conn_id)
}

/// Under which key a connection's metadata has its id.
pub const CONNECTION_ID_KEY: &'static str = "_conn_id";

/// Enters the state of a connection under its id.
pub fn register_connection<V>(connections: &mut Registry<V>, conn_id: &str, state: V)
    requires
        old(connections).wf(),
    ensures
        final(connections).wf(),
        final(connections)@ == old(connections)@.insert(connection_key(conn_id@), state),
{
    connections.insert(conn_id.as_bytes_vec(), state)
}

/// The state of the connection with this id.
pub fn get_connection<'a, V>(connections: &'a Registry<V>, conn_id: &str) -> (r: Option<&'a V>)
    requires
        connections.wf(),
    ensures
        match r {
            Some(v) => connections@.contains_key(connection_key(conn_id@)) && *v
                == connections@[connection_key(conn_id@)],
            None => !connections@.contains_key(connection_key(conn_id@)),
        },
{
    connections.get(&conn_id.as_bytes_vec())
}

/// Removes the state of every connection from an address: those whose id
/// begins with the address and an underscore.
pub fn remove_connections_for_addr<V>(connections: &mut Registry<V>, addr: &str)
    requires
        old(connections).wf(),
    ensures
        final(connections).wf(),
        final(connections)@ == without_prefix(old(connections)@, connection_key(addr@ + "_"@)),
{
    let mut prefix = addr.to_owned();
    prefix.append("_");
    connections.remove_prefixed(&prefix.as_str().as_bytes_vec())
}

/// The bytes of a text begin with those of its beginnings.
proof fn beginning_has_prefix(a: Seq<char>, rest: Seq<char>)
    ensures
        vstd::utf8::encode_utf8(a).is_prefix_of(vstd::utf8::encode_utf8(a + rest)),
    decreases a.len(),
{
    let bytes = vstd::utf8::encode_utf8(a);
    let all = vstd::utf8::encode_utf8(a + rest);
    if a.len() == 0 {
        assert(all.take(0) =~= bytes);
    } else {
        assert((a + rest).drop_first() =~= a.drop_first() + rest);
        beginning_has_prefix(a.drop_first(), rest);
        let first = vstd::utf8::encode_scalar(a[0] as u32);
        let tail = vstd::utf8::encode_utf8(a.drop_first());
        let all_tail = vstd::utf8::encode_utf8((a + rest).drop_first());
        assert(bytes == first + tail);
        assert(all == first + all_tail);
        assert(all.take(bytes.len() as int) =~= first + all_tail.take(tail.len() as int));
    }
}

/// Texts whose bytes begin with those of another begin with the other.
proof fn prefix_is_beginning(a: Seq<char>, b: Seq<char>)
    requires
        vstd::utf8::encode_utf8(a).is_prefix_of(vstd::utf8::encode_utf8(b)),
    ensures
        a.is_prefix_of(b),
    decreases a.len(),
{
    if a.len() == 0 {
        assert(b.take(0) =~= a);
    } else {
        let x = vstd::utf8::encode_utf8(a);
        let y = vstd::utf8::encode_utf8(b);
        vstd::utf8::encode_utf8_first_scalar(a);
        let n = vstd::utf8::length_of_first_scalar(x);
        assert(b.len() > 0);
        vstd::utf8::encode_utf8_first_scalar(b);
        assert forall|i: int| 0 <= i < x.len() implies x[i] == y[i] by {
            assert(y.take(x.len() as int)[i] == y[i]);
        }
        assert(a[0] as u32 == b[0] as u32);
        vstd::utf8::char_u32_cast(a[0], a[0] as u32);
        vstd::utf8::char_u32_cast(b[0], b[0] as u32);
        assert(a[0] == b[0]);
        let first = vstd::utf8::encode_scalar(a[0] as u32);
        let p = vstd::utf8::encode_utf8(a.drop_first());
        let q = vstd::utf8::encode_utf8(b.drop_first());
        assert(x == first + p);
        assert(y == first + q);
        assert(q.take(p.len() as int) =~= p) by {
            assert forall|i: int| 0 <= i < p.len() implies q[i] == p[i] by {
                assert(x[first.len() + i] == p[i]);
                assert(y[first.len() + i] == q[i]);
            }
        }
        prefix_is_beginning(a.drop_first(), b.drop_first());
        assert(b.take(a.len() as int) =~= a) by {
            assert forall|i: int| 0 <= i < a.len() implies b[i] == a[i] by {
                if i > 0 {
                    assert(b.drop_first().take(a.len() - 1)[i - 1] == a.drop_first()[i - 1]);
                }
            }
        }
    }
}

/// When the connections of an address are removed, those of every other address
/// stay: no address is taken for the beginning of another.
pub proof fn removal_is_by_address<V>(
    connections: Map<Seq<u8>, V>,
    addr: Seq<char>,
    other: Seq<char>,
    pid: Seq<char>,
)
    requires
        !addr.contains('_'),
        !other.contains('_'),
    ensures
        ({
            let left = without_prefix(connections, connection_key(addr + "_"@));
            let key = connection_key(other + "_"@ + pid);
            &&& left.contains_key(key) <==> connections.contains_key(key) && addr != other
            &&& left.contains_key(key) ==> left[key] == connections[key]
        }),
{
    reveal_strlit("_");
    let start = addr + "_"@;
    let id = other + "_"@ + pid;
    if connection_key(start).is_prefix_of(connection_key(id)) {
        prefix_is_beginning(start, id);
        assert forall|i: int| 0 <= i < start.len() implies start[i] == id[i] by {
            assert(id.take(start.len() as int)[i] == id[i]);
        }
        if addr.len() < other.len() {
            assert(start[addr.len() as int] == '_');
            assert(other[addr.len() as int] == '_');
        } else if other.len() < addr.len() {
            assert(id[other.len() as int] == '_');
            assert(addr[other.len() as int] == '_');
        } else {
            assert forall|i: int| 0 <= i < addr.len() implies addr[i] == other[i] by {
                assert(start[i] == addr[i]);
                assert(id[i] == other[i]);
            }
            assert(addr =~= other);
        }
    }
    if addr == other {
        beginning_has_prefix(start, pid);
    }
}

/// No two connection ids have the same key.
pub proof fn connections_are_told_apart(a: Seq<char>, b: Seq<char>)
    requires
        connection_key(a) == connection_key(b),
    ensures
        a == b,
{
    vstd::utf8::encode_utf8_decode_utf8(a);
    vstd::utf8::encode_utf8_decode_utf8(b);
}

/// Of the keys of a map, those that begin with a prefix go, and all others stay with
/// their values.
pub proof fn prefixed_keys_go<V>(m: Map<Seq<u8>, V>, prefix: Seq<u8>, rest: Seq<u8>, key: Seq<u8>)
    ensures
        !without_prefix(m, prefix).contains_key(prefix + rest),
        !prefix.is_prefix_of(key) ==> (without_prefix(m, prefix).contains_key(key)
            <==> m.contains_key(key)) && (m.contains_key(key) ==> without_prefix(m, prefix)[key]
            == m[key]),
{
    assert((prefix + rest).take(prefix.len() as int) =~= prefix);
}

/// A cache keeps up to 64 replies.
pub proof fn portals_are_bounded<R>(cache: PortalCache<R>)
    requires
        cache.wf(),
    ensures
        cache.count() <= 64,
        MAX_CACHED_PORTALS == 64,
{
}

} // verus!
