//! Principals, ledger accounts, and a small keyed table used by every canister's state.
use vstd::prelude::*;

verus! {

/// Byte-wise equality of two byte strings.
pub fn bytes_equal(a: &[u8], b: &[u8]) -> (r: bool)
    ensures
        r == (a@ == b@),
{
    if a.len() != b.len() {
        return false;
    }
    let mut i: usize = 0;
    while i < a.len()
        invariant
            0 <= i <= a.len(),
            a.len() == b.len(),
            forall|j: int| 0 <= j < i ==> a@[j] == b@[j],
        decreases a.len() - i,
    {
        if a[i] != b[i] {
            return false;
        }
        i += 1;
    }
    assert(a@ =~= b@);
    true
}

/// A fresh vector holding the same bytes.
pub fn copy_bytes(a: &[u8]) -> (r: Vec<u8>)
    ensures
        r@ == a@,
{
    let mut out: Vec<u8> = Vec::new();
    let mut i: usize = 0;
    while i < a.len()
        invariant
            0 <= i <= a.len(),
            out@ =~= a@.subrange(0, i as int),
        decreases a.len() - i,
    {
        out.push(a[i]);
        i += 1;
    }
    assert(out@ =~= a@);
    out
}

/// The identity of a principal (user or canister), held as its raw bytes.
pub struct PrincipalId {
    pub bytes: Vec<u8>,
}

impl View for PrincipalId {
    type V = Seq<u8>;

    open spec fn view(&self) -> Seq<u8> {
        self.bytes@
    }
}

/// Runs `f` for the owner only: its result when `caller` is `owner`; `None`, without
/// running `f`, for anyone else.
pub fn with_owner<T, F: FnOnce() -> T>(owner: &PrincipalId, caller: &PrincipalId, f: F) -> (r: Option<T>)
    requires
        call_requires(f, ()),
    ensures
        (caller@ == owner@) == (r is Some),
        r matches Some(v) ==> call_ensures(f, (), v),
{
    if caller.same(owner) {
        Some(f())
    } else {
        None
    }
}

/// The bytes of the anonymous principal: the single tag byte 4.
pub open spec fn anonymous_bytes() -> Seq<u8> {
    seq![4u8]
}

impl PrincipalId {
    /// The anonymous principal, which anyone can act as without a key.
    pub fn anonymous() -> (p: PrincipalId)
        ensures
            p@ == anonymous_bytes(),
    {
        let mut bytes: Vec<u8> = Vec::new();
        bytes.push(4u8);
        assert(bytes@ =~= anonymous_bytes());
        PrincipalId { bytes }
    }

    pub fn is_anonymous(&self) -> (r: bool)
        ensures
            r == (self@ == anonymous_bytes()),
    {
        let a = PrincipalId::anonymous();
        self.same(&a)
    }

    pub fn from_bytes(bytes: Vec<u8>) -> (p: PrincipalId)
        ensures
            p@ == bytes@,
    {
        PrincipalId { bytes }
    }

    pub fn same(&self, other: &PrincipalId) -> (r: bool)
        ensures
            r == (self@ == other@),
    {
        bytes_equal(self.bytes.as_slice(), other.bytes.as_slice())
    }

    pub fn duplicate(&self) -> (r: PrincipalId)
        ensures
            r@ == self@,
    {
        PrincipalId { bytes: copy_bytes(self.bytes.as_slice()) }
    }
}

/// The mathematical value of an account: an owner and an optional subaccount.
pub struct AccountView {
    pub owner: Seq<u8>,
    pub subaccount: Option<Seq<u8>>,
}

pub open spec fn opt_bytes_view(o: Option<Vec<u8>>) -> Option<Seq<u8>> {
    match o {
        Some(v) => Some(v@),
        None => None,
    }
}

/// The textual form of the principal with the given bytes.
pub uninterp spec fn principal_text_spec(bytes: Seq<u8>) -> Seq<char>;

/// The bytes of the principal that a textual id denotes, if the text is a valid id.
pub uninterp spec fn principal_bytes_of_text(text: Seq<char>) -> Option<Seq<u8>>;

/// Calls `candid::Principal::to_text`. Trusted: the text is a function of the bytes alone and
/// is ASCII (lower-case base32 digits and dashes, as the crate's `Display` writes it).
#[verifier::external_body]
pub(crate) fn principal_to_text(p: &PrincipalId) -> (r: String)
    requires
        p@.len() <= 29,
    ensures
        r@ == principal_text_spec(p@),
        vstd::utf8::is_ascii_chars(r@),
{
    candid::Principal::from_slice(p.bytes.as_slice()).to_text()
}

/// Calls `candid::Principal::from_text`. Trusted: the outcome is a function of the text alone,
/// and a parsed principal has at most 29 bytes (longer data is refused by the crate).
#[verifier::external_body]
pub(crate) fn principal_from_text(text: &str) -> (r: Option<PrincipalId>)
    ensures
        match principal_bytes_of_text(text@) {
            Some(b) => (r matches Some(p) && p@ == b),
            None => r is None,
        },
        r matches Some(p) ==> p@.len() <= 29,
{
    match candid::Principal::from_text(text) {
        Ok(p) => Some(PrincipalId { bytes: p.as_slice().to_vec() }),
        Err(_) => None,
    }
}

/// An ICRC-1 style account.
pub struct Account {
    pub owner: PrincipalId,
    pub subaccount: Option<Vec<u8>>,
}

impl View for Account {
    type V = AccountView;

    open spec fn view(&self) -> AccountView {
        AccountView { owner: self.owner@, subaccount: opt_bytes_view(self.subaccount) }
    }
}

pub fn copy_opt_bytes(o: &Option<Vec<u8>>) -> (r: Option<Vec<u8>>)
    ensures
        opt_bytes_view(r) == opt_bytes_view(*o),
{
    match o {
        Some(v) => Some(copy_bytes(v.as_slice())),
        None => None,
    }
}

impl Account {
    /// The account of `owner` with no subaccount.
    pub fn default_of(owner: PrincipalId) -> (a: Account)
        ensures
            a@ == (AccountView { owner: owner@, subaccount: None }),
    {
        Account { owner, subaccount: None }
    }

    pub fn same(&self, other: &Account) -> (r: bool)
        ensures
            r == (self@ == other@),
    {
        if !self.owner.same(&other.owner) {
            return false;
        }
        match (&self.subaccount, &other.subaccount) {
            (Some(a), Some(b)) => bytes_equal(a.as_slice(), b.as_slice()),
            (None, None) => true,
            _ => false,
        }
    }

    pub fn duplicate(&self) -> (r: Account)
        ensures
            r@ == self@,
    {
        Account { owner: self.owner.duplicate(), subaccount: copy_opt_bytes(&self.subaccount) }
    }
}

/// A key that can be compared and copied by value.
pub trait TableKey: View + Sized {
    fn same_key(&self, other: &Self) -> (r: bool)
        ensures
            r == (self@ == other@),
    ;

    fn copy_key(&self) -> (r: Self)
        ensures
            r@ == self@,
    ;
}

impl TableKey for PrincipalId {
    fn same_key(&self, other: &Self) -> (r: bool) {
        self.same(other)
    }

    fn copy_key(&self) -> (r: Self) {
        self.duplicate()
    }
}

impl TableKey for Account {
    fn same_key(&self, other: &Self) -> (r: bool) {
        self.same(other)
    }

    fn copy_key(&self) -> (r: Self) {
        self.duplicate()
    }
}

impl TableKey for Vec<u8> {
    fn same_key(&self, other: &Self) -> (r: bool) {
        bytes_equal(self.as_slice(), other.as_slice())
    }

    fn copy_key(&self) -> (r: Self) {
        copy_bytes(self.as_slice())
    }
}

/// No two entries share a key.
pub open spec fn keys_unique<K: View, T>(s: Seq<(K, T)>) -> bool {
    forall|i: int, j: int|
        0 <= i < s.len() && 0 <= j < s.len() && i != j ==> #[trigger] s[i].0@ != #[trigger] s[j].0@
}

/// The map that a sequence of entries denotes (later entries win).
pub open spec fn entries_map<K: View, T>(s: Seq<(K, T)>) -> Map<K::V, T>
    decreases s.len(),
{
    if s.len() == 0 {
        Map::empty()
    } else {
        entries_map(s.drop_last()).insert(s.last().0@, s.last().1)
    }
}

pub proof fn lemma_entries_map_has<K: View, T>(s: Seq<(K, T)>, i: int)
    requires
        keys_unique(s),
        0 <= i < s.len(),
    ensures
        entries_map(s).contains_key(s[i].0@),
        entries_map(s)[s[i].0@] == s[i].1,
    decreases s.len(),
{
    if i < s.len() - 1 {
        let t = s.drop_last();
        assert(keys_unique(t)) by {
            assert forall|a: int, b: int|
                0 <= a < t.len() && 0 <= b < t.len() && a != b implies #[trigger] t[a].0@
                != #[trigger] t[b].0@ by {
                assert(t[a] == s[a] && t[b] == s[b]);
            }
        }
        lemma_entries_map_has(t, i);
        assert(t[i] == s[i]);
        assert(s[s.len() - 1].0@ != s[i].0@);
    }
}

pub proof fn lemma_entries_map_lacks<K: View, T>(s: Seq<(K, T)>, k: K::V)
    requires
        forall|i: int| 0 <= i < s.len() ==> #[trigger] s[i].0@ != k,
    ensures
        !entries_map(s).contains_key(k),
    decreases s.len(),
{
    if s.len() > 0 {
        let t = s.drop_last();
        assert forall|i: int| 0 <= i < t.len() implies #[trigger] t[i].0@ != k by {
            assert(t[i] == s[i]);
        }
        lemma_entries_map_lacks(t, k);
        assert(s[s.len() - 1].0@ != k);
    }
}

pub proof fn lemma_entries_map_push<K: View, T>(s: Seq<(K, T)>, e: (K, T))
    ensures
        entries_map(s.push(e)) == entries_map(s).insert(e.0@, e.1),
{
    assert(s.push(e).drop_last() =~= s);
}

pub proof fn lemma_entries_map_update<K: View, T>(s: Seq<(K, T)>, i: int, e: (K, T))
    requires
        keys_unique(s),
        0 <= i < s.len(),
        e.0@ == s[i].0@,
    ensures
        keys_unique(s.update(i, e)),
        entries_map(s.update(i, e)) == entries_map(s).insert(e.0@, e.1),
{
    let u = s.update(i, e);
    assert(keys_unique(u)) by {
        assert forall|a: int, b: int|
            0 <= a < u.len() && 0 <= b < u.len() && a != b implies #[trigger] u[a].0@
            != #[trigger] u[b].0@ by {
            assert(s[a].0@ != s[b].0@);
        }
    }
    let m1 = entries_map(u);
    let m2 = entries_map(s).insert(e.0@, e.1);
    assert forall|k: K::V|
        #![trigger m1.dom().contains(k)]
        #![trigger m2.dom().contains(k)]
        m1.contains_key(k) == m2.contains_key(k) && (m1.contains_key(k) ==> m1[k] == m2[k]) by {
        if k == e.0@ {
            lemma_entries_map_has(u, i);
        } else if exists|j: int| 0 <= j < s.len() && s[j].0@ == k {
            let j = choose|j: int| 0 <= j < s.len() && s[j].0@ == k;
            lemma_entries_map_has(u, j);
            lemma_entries_map_has(s, j);
        } else {
            assert forall|j: int| 0 <= j < u.len() implies #[trigger] u[j].0@ != k by {
                if j != i {
                    assert(u[j] == s[j]);
                }
            }
            lemma_entries_map_lacks(u, k);
            lemma_entries_map_lacks(s, k);
        }
    }
    assert(m1 =~= m2);
}

pub proof fn lemma_entries_map_remove<K: View, T>(s: Seq<(K, T)>, i: int)
    requires
        keys_unique(s),
        0 <= i < s.len(),
    ensures
        keys_unique(s.remove(i)),
        entries_map(s.remove(i)) == entries_map(s).remove(s[i].0@),
{
    let u = s.remove(i);
    assert(keys_unique(u)) by {
        assert forall|a: int, b: int|
            0 <= a < u.len() && 0 <= b < u.len() && a != b implies #[trigger] u[a].0@
            != #[trigger] u[b].0@ by {
            let a2 = if a < i { a } else { a + 1 };
            let b2 = if b < i { b } else { b + 1 };
            assert(u[a] == s[a2] && u[b] == s[b2]);
            assert(s[a2].0@ != s[b2].0@);
        }
    }
    let m1 = entries_map(u);
    let m2 = entries_map(s).remove(s[i].0@);
    assert forall|k: K::V|
        #![trigger m1.dom().contains(k)]
        #![trigger m2.dom().contains(k)]
        m1.contains_key(k) == m2.contains_key(k) && (m1.contains_key(k) ==> m1[k] == m2[k]) by {
        if k == s[i].0@ {
            assert forall|j: int| 0 <= j < u.len() implies #[trigger] u[j].0@ != k by {
                let j2 = if j < i { j } else { j + 1 };
                assert(u[j] == s[j2]);
                assert(s[j2].0@ != s[i].0@);
            }
            lemma_entries_map_lacks(u, k);
        } else if exists|j: int| 0 <= j < s.len() && s[j].0@ == k {
            let j = choose|j: int| 0 <= j < s.len() && s[j].0@ == k;
            lemma_entries_map_has(s, j);
            let j2 = if j < i { j } else { j - 1 };
            assert(u[j2] == s[j]);
            lemma_entries_map_has(u, j2);
        } else {
            assert forall|j: int| 0 <= j < u.len() implies #[trigger] u[j].0@ != k by {
                let j2 = if j < i { j } else { j + 1 };
                assert(u[j] == s[j2]);
            }
            lemma_entries_map_lacks(u, k);
            lemma_entries_map_lacks(s, k);
        }
    }
    assert(m1 =~= m2);
}

/// The sum of `f` over the values of a sequence of entries.
pub open spec fn sum_by<K, T>(s: Seq<(K, T)>, f: spec_fn(T) -> int) -> int
    decreases s.len(),
{
    if s.len() == 0 {
        0
    } else {
        sum_by(s.drop_last(), f) + f(s.last().1)
    }
}

pub proof fn lemma_sum_by_push<K, T>(s: Seq<(K, T)>, e: (K, T), f: spec_fn(T) -> int)
    ensures
        sum_by(s.push(e), f) == sum_by(s, f) + f(e.1),
{
    assert(s.push(e).drop_last() =~= s);
}

pub proof fn lemma_sum_by_update<K, T>(s: Seq<(K, T)>, i: int, e: (K, T), f: spec_fn(T) -> int)
    requires
        0 <= i < s.len(),
    ensures
        sum_by(s.update(i, e), f) == sum_by(s, f) - f(s[i].1) + f(e.1),
    decreases s.len(),
{
    if i == s.len() - 1 {
        assert(s.update(i, e).drop_last() =~= s.drop_last());
    } else {
        assert(s.update(i, e).drop_last() =~= s.drop_last().update(i, e));
        lemma_sum_by_update(s.drop_last(), i, e, f);
    }
}

pub proof fn lemma_sum_by_remove<K, T>(s: Seq<(K, T)>, i: int, f: spec_fn(T) -> int)
    requires
        0 <= i < s.len(),
    ensures
        sum_by(s.remove(i), f) == sum_by(s, f) - f(s[i].1),
    decreases s.len(),
{
    if i == s.len() - 1 {
        assert(s.remove(i) =~= s.drop_last());
    } else {
        assert(s.remove(i).drop_last() =~= s.drop_last().remove(i));
        lemma_sum_by_remove(s.drop_last(), i, f);
    }
}

pub proof fn lemma_sum_by_nonneg<K, T>(s: Seq<(K, T)>, f: spec_fn(T) -> int)
    requires
        forall|t: T| #[trigger] f(t) >= 0,
    ensures
        sum_by(s, f) >= 0,
    decreases s.len(),
{
    if s.len() > 0 {
        lemma_sum_by_nonneg(s.drop_last(), f);
        assert(f(s.last().1) >= 0);
    }
}

/// With non-negative weights, the weight of any one entry is at most the total.
pub proof fn lemma_sum_by_entry_le<K, T>(s: Seq<(K, T)>, i: int, f: spec_fn(T) -> int)
    requires
        forall|t: T| #[trigger] f(t) >= 0,
        0 <= i < s.len(),
    ensures
        f(s[i].1) <= sum_by(s, f),
    decreases s.len(),
{
    lemma_sum_by_nonneg(s.drop_last(), f);
    if i < s.len() - 1 {
        lemma_sum_by_entry_le(s.drop_last(), i, f);
        assert(s.drop_last()[i] == s[i]);
        assert(f(s.last().1) >= 0);
    }
}

/// With non-negative weights, the weight of the value a table holds for `k` is at most the total.
pub proof fn lemma_table_value_le_sum<K: View, T>(s: Seq<(K, T)>, k: K::V, f: spec_fn(T) -> int)
    requires
        forall|t: T| #[trigger] f(t) >= 0,
        keys_unique(s),
        entries_map(s).contains_key(k),
    ensures
        f(entries_map(s)[k]) <= sum_by(s, f),
{
    if forall|i: int| 0 <= i < s.len() ==> #[trigger] s[i].0@ != k {
        lemma_entries_map_lacks(s, k);
    } else {
        let i = choose|i: int| 0 <= i < s.len() && #[trigger] s[i].0@ == k;
        lemma_entries_map_has(s, i);
        lemma_sum_by_entry_le(s, i, f);
    }
}

/// A table from keys to values, kept as a vector of entries with distinct keys.
pub struct Table<K, T> {
    pub entries: Vec<(K, T)>,
}

impl<K: View, T> View for Table<K, T> {
    type V = Map<K::V, T>;

    open spec fn view(&self) -> Map<K::V, T> {
        entries_map(self.entries@)
    }
}

impl<K: TableKey, T> Table<K, T> {
    pub open spec fn wf(&self) -> bool {
        keys_unique(self.entries@)
    }

    pub fn new() -> (t: Self)
        ensures
            t.wf(),
            t@ == Map::<K::V, T>::empty(),
            t.entries@.len() == 0,
    {
        Table { entries: Vec::new() }
    }

    pub fn len(&self) -> (n: usize)
        ensures
            n == self.entries@.len(),
    {
        self.entries.len()
    }

    /// The position of `k`'s entry, if it has one.
    pub fn find(&self, k: &K) -> (r: Option<usize>)
        requires
            self.wf(),
        ensures
            r is Some <==> self@.contains_key(k@),
            r matches Some(i) ==> i < self.entries@.len() && self.entries@[i as int].0@ == k@
                && self@[k@] == self.entries@[i as int].1,
    {
        let mut i: usize = 0;
        while i < self.entries.len()
            invariant
                self.wf(),
                0 <= i <= self.entries@.len(),
                forall|j: int| 0 <= j < i ==> #[trigger] self.entries@[j].0@ != k@,
            decreases self.entries@.len() - i,
        {
            if self.entries[i].0.same_key(k) {
                proof {
                    lemma_entries_map_has(self.entries@, i as int);
                }
                return Some(i);
            }
            i += 1;
        }
        proof {
            lemma_entries_map_lacks(self.entries@, k@);
        }
        None
    }

    pub fn contains(&self, k: &K) -> (r: bool)
        requires
            self.wf(),
        ensures
            r == self@.contains_key(k@),
    {
        self.find(k).is_some()
    }

    pub fn get(&self, k: &K) -> (r: Option<&T>)
        requires
            self.wf(),
        ensures
            r is Some <==> self@.contains_key(k@),
            r matches Some(v) ==> *v == self@[k@],
    {
        match self.find(k) {
            Some(i) => Some(&self.entries[i].1),
            None => None,
        }
    }

    /// Sets the value of `k`, adding an entry if it has none.
    pub fn insert(&mut self, k: K, v: T)
        requires
            old(self).wf(),
        ensures
            final(self).wf(),
            final(self)@ == old(self)@.insert(k@, v),
            forall|f: spec_fn(T) -> int|
                #[trigger] sum_by(final(self).entries@, f) == sum_by(old(self).entries@, f) - (if old(self)@.contains_key(k@) {
                    f(old(self)@[k@])
                } else {
                    0
                }) + f(v),
    {
        let ghost kv = k@;
        let ghost vv = v;
        match self.find(&k) {
            Some(i) => {
                proof {
                    lemma_entries_map_update(self.entries@, i as int, (k, v));
                    assert forall|f: spec_fn(T) -> int|
                        #[trigger] sum_by(self.entries@.update(i as int, (k, v)), f) == sum_by(
                            self.entries@,
                            f,
                        ) - f(self.entries@[i as int].1) + f(v) by {
                        lemma_sum_by_update(self.entries@, i as int, (k, v), f);
                    }
                }
                self.entries.set(i, (k, v));
            },
            None => {
                proof {
                    lemma_entries_map_push(self.entries@, (k, v));
                    assert forall|f: spec_fn(T) -> int|
                        #[trigger] sum_by(self.entries@.push((k, v)), f) == sum_by(self.entries@, f) + f(
                            v,
                        ) by {
                        lemma_sum_by_push(self.entries@, (k, v), f);
                    }
                    assert forall|j: int| 0 <= j < self.entries@.len() implies #[trigger] self.entries@[j].0@
                        != k@ by {
                        if self.entries@[j].0@ == k@ {
                            lemma_entries_map_has(self.entries@, j);
                        }
                    }
                }
                self.entries.push((k, v));
                proof {
                    let s = self.entries@;
                    assert(keys_unique(s)) by {
                        assert forall|a: int, b: int|
                            0 <= a < s.len() && 0 <= b < s.len() && a != b implies #[trigger] s[a].0@
                            != #[trigger] s[b].0@ by {
                            if a < s.len() - 1 && b < s.len() - 1 {
                                assert(s[a] == old(self).entries@[a]);
                                assert(s[b] == old(self).entries@[b]);
                            } else if a < s.len() - 1 {
                                assert(s[a] == old(self).entries@[a]);
                            } else {
                                assert(s[b] == old(self).entries@[b]);
                            }
                        }
                    }
                }
            },
        }
    }

    /// Removes `k`'s entry and hands back its value, if it had one.
    pub fn remove(&mut self, k: &K) -> (r: Option<T>)
        requires
            old(self).wf(),
        ensures
            final(self).wf(),
            final(self)@ == old(self)@.remove(k@),
            r is Some <==> old(self)@.contains_key(k@),
            r matches Some(v) ==> v == old(self)@[k@],
            r is Some ==> final(self).entries@.len() == old(self).entries@.len() - 1,
            r is None ==> final(self).entries@ == old(self).entries@,
            forall|f: spec_fn(T) -> int|
                #[trigger] sum_by(final(self).entries@, f) == sum_by(old(self).entries@, f) - (if old(self)@.contains_key(k@) {
                    f(old(self)@[k@])
                } else {
                    0
                }),
    {
        match self.find(k) {
            Some(i) => {
                proof {
                    lemma_entries_map_remove(self.entries@, i as int);
                    assert forall|f: spec_fn(T) -> int|
                        #[trigger] sum_by(self.entries@.remove(i as int), f) == sum_by(self.entries@, f)
                            - f(self.entries@[i as int].1) by {
                        lemma_sum_by_remove(self.entries@, i as int, f);
                    }
                }
                let e = self.entries.remove(i);
                Some(e.1)
            },
            None => {
                assert(old(self)@.remove(k@) =~= old(self)@);
                None
            },
        }
    }
}

} // verus!
