use vstd::prelude::*;

use crate::error::SdkError;
use crate::models::{OffchainBalance, Payment};

verus! {

/// Lexicographic order of identifiers, character by character by code point; a proper prefix
/// comes first.
pub open spec fn id_precedes(a: Seq<char>, b: Seq<char>) -> bool
    decreases a.len(),
{
    if a.len() == 0 {
        b.len() > 0
    } else if b.len() == 0 {
        false
    } else if a[0] != b[0] {
        (a[0] as int) < (b[0] as int)
    } else {
        id_precedes(a.drop_first(), b.drop_first())
    }
}

/// Whether `p` is listed before `q`: newer first, and by identifier among equal timestamps.
pub open spec fn listed_before(p: Payment, q: Payment) -> bool {
    p.timestamp > q.timestamp || (p.timestamp == q.timestamp && id_precedes(p.id@, q.id@))
}

/// A listing of payment records: strictly in listing order, one record per identifier.
pub open spec fn is_listing(s: Seq<Payment>) -> bool {
    &&& forall|i: int, j: int| 0 <= i < j < s.len() ==> #[trigger] listed_before(s[i], s[j])
    &&& forall|i: int, j: int| 0 <= i < j < s.len() ==> #[trigger] s[i].id@ != #[trigger] s[j].id@
}

proof fn lemma_id_irreflexive(a: Seq<char>)
    ensures
        !id_precedes(a, a),
    decreases a.len(),
{
    if a.len() > 0 {
        lemma_id_irreflexive(a.drop_first());
    }
}

proof fn lemma_id_asymmetric(a: Seq<char>, b: Seq<char>)
    ensures
        !(id_precedes(a, b) && id_precedes(b, a)),
    decreases a.len(),
{
    if a.len() > 0 && b.len() > 0 && a[0] == b[0] {
        lemma_id_asymmetric(a.drop_first(), b.drop_first());
    }
}

proof fn lemma_id_total(a: Seq<char>, b: Seq<char>)
    requires
        a != b,
    ensures
        id_precedes(a, b) || id_precedes(b, a),
    decreases a.len(),
{
    if a.len() == 0 {
        assert(b.len() > 0) by {
            if b.len() == 0 {
                assert(a =~= b);
            }
        }
    } else if b.len() > 0 && a[0] == b[0] {
        if a.drop_first() == b.drop_first() {
            assert(a =~= b) by {
                assert(a.drop_first().len() == b.drop_first().len());
                assert forall|i: int| 0 <= i < a.len() implies a[i] == b[i] by {
                    if i > 0 {
                        assert(a[i] == a.drop_first()[i - 1]);
                        assert(b[i] == b.drop_first()[i - 1]);
                    }
                }
            }
        }
        lemma_id_total(a.drop_first(), b.drop_first());
    }
}

proof fn lemma_id_transitive(a: Seq<char>, b: Seq<char>, c: Seq<char>)
    requires
        id_precedes(a, b),
        id_precedes(b, c),
    ensures
        id_precedes(a, c),
    decreases a.len(),
{
    if a.len() > 0 && b.len() > 0 && c.len() > 0 && a[0] == b[0] && b[0] == c[0] {
        lemma_id_transitive(a.drop_first(), b.drop_first(), c.drop_first());
    }
}

proof fn lemma_listed_irreflexive(p: Payment)
    ensures
        !listed_before(p, p),
{
    lemma_id_irreflexive(p.id@);
}

proof fn lemma_listed_asymmetric(p: Payment, q: Payment)
    ensures
        !(listed_before(p, q) && listed_before(q, p)),
{
    lemma_id_asymmetric(p.id@, q.id@);
}

proof fn lemma_listed_total(p: Payment, q: Payment)
    requires
        p.id@ != q.id@,
    ensures
        listed_before(p, q) || listed_before(q, p),
{
    lemma_id_total(p.id@, q.id@);
}

proof fn lemma_listed_transitive(p: Payment, q: Payment, r: Payment)
    requires
        listed_before(p, q),
        listed_before(q, r),
    ensures
        listed_before(p, r),
{
    if p.timestamp == q.timestamp && q.timestamp == r.timestamp {
        lemma_id_transitive(p.id@, q.id@, r.id@);
    }
}

/// Compares two identifiers in the order of `id_precedes`.
fn id_precedes_exec(a: &String, b: &String) -> (r: bool)
    ensures
        r == id_precedes(a@, b@),
{
    let la = a.as_str().unicode_len();
    let lb = b.as_str().unicode_len();
    let mut i: usize = 0;
    assert(a@.subrange(0, la as int) =~= a@);
    assert(b@.subrange(0, lb as int) =~= b@);
    while i < la && i < lb
        invariant
            la == a@.len(),
            lb == b@.len(),
            i <= la,
            i <= lb,
            id_precedes(a@, b@) == id_precedes(
                a@.subrange(i as int, la as int),
                b@.subrange(i as int, lb as int),
            ),
        decreases la - i,
    {
        let ca = a.as_str().get_char(i);
        let cb = b.as_str().get_char(i);
        let ghost x = a@.subrange(i as int, la as int);
        let ghost y = b@.subrange(i as int, lb as int);
        assert(x[0] == ca);
        assert(y[0] == cb);
        if ca != cb {
            return (ca as u32) < (cb as u32);
        }
        assert(x.drop_first() =~= a@.subrange(i + 1, la as int));
        assert(y.drop_first() =~= b@.subrange(i + 1, lb as int));
        i = i + 1;
    }
    i < lb
}

/// The records after `p` is saved into `records`: any record with the same identifier is
/// replaced by `p`.
pub open spec fn upsert_set(records: Set<Payment>, p: Payment) -> Set<Payment> {
    without_id(records, p.id@).insert(p)
}

/// The records whose identifier is not `id`.
pub open spec fn without_id(records: Set<Payment>, id: Seq<char>) -> Set<Payment> {
    records.filter(|q: Payment| q.id@ != id)
}

/// Whether `list[i]` is the last record in `list` with its identifier.
pub open spec fn is_last_of_id(list: Seq<Payment>, i: int) -> bool {
    forall|j: int| i < j < list.len() ==> #[trigger] list[j].id@ != list[i].id@
}

/// The records that remain after reconciling with `list`: each record of `list` that is the
/// last one with its identifier. Stored records whose identifier is absent from `list` are gone.
pub open spec fn latest_records(list: Seq<Payment>) -> Set<Payment> {
    Set::new(
        |q: Payment|
            exists|i: int| 0 <= i < list.len() && list[i] == q && #[trigger] is_last_of_id(list, i),
    )
}

/// Two listings of the same records are the same sequence.
pub proof fn lemma_listing_canonical(a: Seq<Payment>, b: Seq<Payment>)
    requires
        is_listing(a),
        is_listing(b),
        a.to_set() == b.to_set(),
    ensures
        a == b,
    decreases a.len(),
{
    if a.len() == 0 {
        if b.len() > 0 {
            assert(b.to_set().contains(b[0]));
        }
        assert(a =~= b);
    } else if b.len() == 0 {
        assert(a.to_set().contains(a[0]));
    } else {
        assert(b.to_set().contains(a[0]));
        assert(a.to_set().contains(b[0]));
        let j = choose|j: int| 0 <= j < b.len() && b[j] == a[0];
        let i = choose|i: int| 0 <= i < a.len() && a[i] == b[0];
        if a[0] != b[0] {
            assert(listed_before(b[0], b[j]));
            assert(listed_before(a[0], a[i]));
            lemma_listed_asymmetric(a[0], b[0]);
        }
        let a1 = a.drop_first();
        let b1 = b.drop_first();
        assert(is_listing(a1)) by {
            assert forall|x: int, y: int| 0 <= x < y < a1.len() implies #[trigger] listed_before(
                a1[x],
                a1[y],
            ) by {
                assert(listed_before(a[x + 1], a[y + 1]));
            }
            assert forall|x: int, y: int| 0 <= x < y < a1.len() implies #[trigger] a1[x].id@
                != #[trigger] a1[y].id@ by {
                assert(a[x + 1].id@ != a[y + 1].id@);
            }
        }
        assert(is_listing(b1)) by {
            assert forall|x: int, y: int| 0 <= x < y < b1.len() implies #[trigger] listed_before(
                b1[x],
                b1[y],
            ) by {
                assert(listed_before(b[x + 1], b[y + 1]));
            }
            assert forall|x: int, y: int| 0 <= x < y < b1.len() implies #[trigger] b1[x].id@
                != #[trigger] b1[y].id@ by {
                assert(b[x + 1].id@ != b[y + 1].id@);
            }
        }
        assert(a1.to_set() =~= b1.to_set()) by {
            assert forall|q: Payment| a1.to_set().contains(q) implies b1.to_set().contains(q) by {
                let x = choose|x: int| 0 <= x < a1.len() && a1[x] == q;
                assert(a[x + 1] == q);
                assert(q.id@ != a[0].id@);
                assert(a.to_set().contains(q));
                let y = choose|y: int| 0 <= y < b.len() && b[y] == q;
                assert(y != 0);
                assert(b1[y - 1] == q);
            }
            assert forall|q: Payment| b1.to_set().contains(q) implies a1.to_set().contains(q) by {
                let y = choose|y: int| 0 <= y < b1.len() && b1[y] == q;
                assert(b[y + 1] == q);
                assert(q.id@ != b[0].id@);
                assert(b.to_set().contains(q));
                let x = choose|x: int| 0 <= x < a.len() && a[x] == q;
                assert(x != 0);
                assert(a1[x - 1] == q);
            }
        }
        lemma_listing_canonical(a1, b1);
        assert(a =~= b) by {
            assert forall|k: int| 0 <= k < a.len() implies a[k] == b[k] by {
                if k > 0 {
                    assert(a[k] == a1[k - 1]);
                    assert(b[k] == b1[k - 1]);
                }
            }
        }
    }
}

/// Whether `p` is listed before `q`, as `listed_before` says.
fn listed_before_exec(p: &Payment, q: &Payment) -> (r: bool)
    ensures
        r == listed_before(*p, *q),
{
    if p.timestamp > q.timestamp {
        true
    } else if p.timestamp == q.timestamp {
        id_precedes_exec(&p.id, &q.id)
    } else {
        false
    }
}

/// Saves `p` into the listing `v`, replacing the record with the same identifier if any.
fn upsert(v: &mut Vec<Payment>, p: Payment)
    requires
        is_listing(old(v)@),
    ensures
        is_listing(final(v)@),
        final(v)@.to_set() == upsert_set(old(v)@.to_set(), p),
{
    let ghost start = v@;
    let mut k: usize = 0;
    while k < v.len()
        invariant
            v@ == start,
            k <= v@.len(),
            forall|i: int| 0 <= i < k ==> #[trigger] v@[i].id@ != p.id@,
        ensures
            v@ == start,
            k <= v@.len(),
            forall|i: int| 0 <= i < k ==> #[trigger] v@[i].id@ != p.id@,
            k < v@.len() ==> v@[k as int].id@ == p.id@,
        decreases v@.len() - k,
    {
        if v[k].id == p.id {
            break;
        }
        k = k + 1;
    }
    if k < v.len() {
        v.remove(k);
    }
    let ghost kept = v@;
    assert(is_listing(kept) && (forall|i: int| 0 <= i < kept.len() ==> #[trigger] kept[i].id@
        != p.id@) && kept.to_set() == without_id(start.to_set(), p.id@)) by {
        if k < start.len() {
            assert(start[k as int].id@ == p.id@);
            assert(kept =~= start.remove(k as int));
            assert forall|x: int, y: int| 0 <= x < y < kept.len() implies #[trigger] listed_before(
                kept[x],
                kept[y],
            ) && kept[x].id@ != kept[y].id@ by {
                let sx = if x < k { x } else { x + 1 };
                let sy = if y < k { y } else { y + 1 };
                assert(kept[x] == start[sx] && kept[y] == start[sy]);
                assert(listed_before(start[sx], start[sy]));
                assert(start[sx].id@ != start[sy].id@);
            }
            assert forall|i: int| 0 <= i < kept.len() implies #[trigger] kept[i].id@ != p.id@ by {
                let si = if i < k { i } else { i + 1 };
                assert(kept[i] == start[si]);
                if si > k {
                    assert(start[k as int].id@ != start[si].id@);
                }
            }
            assert forall|q: Payment| #[trigger]
                kept.to_set().contains(q) <==> without_id(start.to_set(), p.id@).contains(q) by {
                if kept.to_set().contains(q) {
                    let i = choose|i: int| 0 <= i < kept.len() && kept[i] == q;
                    let si = if i < k { i } else { i + 1 };
                    assert(start[si] == q);
                    assert(start.to_set().contains(q));
                }
                if without_id(start.to_set(), p.id@).contains(q) {
                    let i = choose|i: int| 0 <= i < start.len() && start[i] == q;
                    assert(i != k);
                    let ki = if i < k { i } else { i - 1 };
                    assert(kept[ki] == q);
                    assert(kept.to_set().contains(q));
                }
            }
            assert(kept.to_set() =~= without_id(start.to_set(), p.id@));
        } else {
            assert(kept.to_set() =~= without_id(start.to_set(), p.id@));
        }
    }
    let mut pos: usize = 0;
    while pos < v.len()
        invariant
            v@ == kept,
            pos <= kept.len(),
            forall|i: int| 0 <= i < pos ==> !listed_before(p, #[trigger] kept[i]),
        ensures
            v@ == kept,
            pos <= kept.len(),
            forall|i: int| 0 <= i < pos ==> !listed_before(p, #[trigger] kept[i]),
            pos < kept.len() ==> listed_before(p, kept[pos as int]),
        decreases kept.len() - pos,
    {
        if listed_before_exec(&p, &v[pos]) {
            break;
        }
        pos = pos + 1;
    }
    v.insert(pos, p);
    proof {
        let w = v@;
        assert(w =~= kept.insert(pos as int, p));
        assert forall|x: int, y: int| 0 <= x < y < w.len() implies #[trigger] listed_before(
            w[x],
            w[y],
        ) && w[x].id@ != w[y].id@ by {
            if y < pos {
                assert(listed_before(kept[x], kept[y]));
                assert(kept[x].id@ != kept[y].id@);
            } else if y == pos {
                assert(kept[x].id@ != p.id@);
                assert(!listed_before(p, kept[x]));
                lemma_listed_total(p, kept[x]);
            } else if x < pos {
                assert(w[y] == kept[y - 1]);
                assert(listed_before(kept[x], kept[y - 1]));
                assert(kept[x].id@ != kept[y - 1].id@);
            } else if x == pos {
                assert(w[y] == kept[y - 1]);
                assert(listed_before(p, kept[pos as int]));
                if y - 1 > pos {
                    assert(listed_before(kept[pos as int], kept[y - 1]));
                    lemma_listed_transitive(p, kept[pos as int], kept[y - 1]);
                }
                assert(kept[y - 1].id@ != p.id@);
            } else {
                assert(w[x] == kept[x - 1] && w[y] == kept[y - 1]);
                assert(listed_before(kept[x - 1], kept[y - 1]));
                assert(kept[x - 1].id@ != kept[y - 1].id@);
            }
        }
        assert forall|q: Payment| #[trigger] w.to_set().contains(q) <==> kept.to_set().insert(
            p,
        ).contains(q) by {
            if w.to_set().contains(q) {
                let i = choose|i: int| 0 <= i < w.len() && w[i] == q;
                if i < pos {
                    assert(kept[i] == q);
                    assert(kept.to_set().contains(q));
                } else if i > pos {
                    assert(kept[i - 1] == q);
                    assert(kept.to_set().contains(q));
                }
            }
            if kept.to_set().contains(q) {
                let i = choose|i: int| 0 <= i < kept.len() && kept[i] == q;
                if i < pos {
                    assert(w[i] == q);
                } else {
                    assert(w[i + 1] == q);
                }
                assert(w.to_set().contains(q));
            }
            if q == p {
                assert(w[pos as int] == p);
                assert(w.to_set().contains(q));
            }
        }
        assert(w.to_set() =~= kept.to_set().insert(p));
    }
}

/// Saving one more record of `list` into its latest records.
proof fn lemma_latest_records_step(list: Seq<Payment>, n: int)
    requires
        0 <= n < list.len(),
    ensures
        latest_records(list.subrange(0, n + 1)) == upsert_set(
            latest_records(list.subrange(0, n)),
            list[n],
        ),
{
    let short = list.subrange(0, n);
    let long = list.subrange(0, n + 1);
    let x = list[n];
    assert forall|q: Payment| #[trigger] latest_records(long).contains(q) <==> upsert_set(
        latest_records(short),
        x,
    ).contains(q) by {
        if latest_records(long).contains(q) {
            let i = choose|i: int| 0 <= i < long.len() && long[i] == q && is_last_of_id(long, i);
            if i < n {
                assert(long[n].id@ != long[i].id@);
                assert(short[i] == q);
                assert(is_last_of_id(short, i)) by {
                    assert forall|j: int| i < j < short.len() implies #[trigger] short[j].id@
                        != short[i].id@ by {
                        assert(long[j] == short[j]);
                    }
                }
                assert(latest_records(short).contains(q));
            }
        }
        if upsert_set(latest_records(short), x).contains(q) {
            if q == x {
                assert(long[n] == q);
                assert(is_last_of_id(long, n));
            } else {
                assert(latest_records(short).contains(q) && q.id@ != x.id@);
                let i = choose|i: int|
                    0 <= i < short.len() && short[i] == q && is_last_of_id(short, i);
                assert(long[i] == q);
                assert(is_last_of_id(long, i)) by {
                    assert forall|j: int| i < j < long.len() implies #[trigger] long[j].id@
                        != long[i].id@ by {
                        if j < n {
                            assert(long[j] == short[j]);
                        }
                    }
                }
            }
            assert(latest_records(long).contains(q));
        }
    }
    assert(latest_records(long) =~= upsert_set(latest_records(short), x));
}

fn copy_records(v: &Vec<Payment>) -> (r: Vec<Payment>)
    ensures
        r@ == v@,
{
    let mut out: Vec<Payment> = Vec::new();
    for i in 0..v.len()
        invariant
            out@ == v@.subrange(0, i as int),
    {
        out.push(v[i].clone());
        assert(out@ =~= v@.subrange(0, i + 1));
    }
    assert(out@ =~= v@);
    out
}

/// The records after saving each record of `list` in turn into `records`.
pub open spec fn upsert_all(records: Set<Payment>, list: Seq<Payment>) -> Set<Payment>
    decreases list.len(),
{
    if list.len() == 0 {
        records
    } else {
        upsert_set(upsert_all(records, list.drop_last()), list.last())
    }
}

/// The identifiers that occur in `list`.
pub open spec fn listed_ids(list: Seq<Payment>) -> Set<Seq<char>> {
    Set::new(|id: Seq<char>| exists|i: int| 0 <= i < list.len() && #[trigger] list[i].id@ == id)
}

/// The records whose identifier is in `ids`.
pub open spec fn with_ids(records: Set<Payment>, ids: Set<Seq<char>>) -> Set<Payment> {
    records.filter(|q: Payment| ids.contains(q.id@))
}

proof fn lemma_upsert_all_split(before: Set<Payment>, list: Seq<Payment>)
    ensures
        upsert_all(before, list) == before.filter(
            |q: Payment| !listed_ids(list).contains(q.id@),
        ).union(latest_records(list)),
    decreases list.len(),
{
    let n = list.len() as int;
    if n == 0 {
        assert(latest_records(list) =~= Set::<Payment>::empty());
        assert(before.filter(|q: Payment| !listed_ids(list).contains(q.id@)).union(
            latest_records(list),
        ) =~= before);
    } else {
        let short = list.drop_last();
        let p = list.last();
        lemma_upsert_all_split(before, short);
        assert(short =~= list.subrange(0, n - 1));
        assert(list =~= list.subrange(0, n));
        lemma_latest_records_step(list, n - 1);
        assert forall|id: Seq<char>| #[trigger] listed_ids(list).contains(id) <==> (listed_ids(
            short,
        ).contains(id) || id == p.id@) by {
            if listed_ids(list).contains(id) {
                let i = choose|i: int| 0 <= i < list.len() && #[trigger] list[i].id@ == id;
                if i < n - 1 {
                    assert(short[i].id@ == id);
                }
            }
            if listed_ids(short).contains(id) {
                let i = choose|i: int| 0 <= i < short.len() && #[trigger] short[i].id@ == id;
                assert(list[i].id@ == id);
            }
            if id == p.id@ {
                assert(list[n - 1].id@ == id);
            }
        }
        assert(upsert_all(before, list) =~= before.filter(
            |q: Payment| !listed_ids(list).contains(q.id@),
        ).union(latest_records(list)));
    }
}

/// Saving every record of `list` over any stored records, then deleting every record whose
/// identifier is absent from `list`, leaves exactly `latest_records(list)`: the records that
/// `MemoryStorage::save_payments` promises.
pub proof fn lemma_upsert_then_prune(before: Set<Payment>, list: Seq<Payment>)
    ensures
        with_ids(upsert_all(before, list), listed_ids(list)) == latest_records(list),
{
    lemma_upsert_all_split(before, list);
    assert forall|q: Payment| #[trigger] latest_records(list).contains(q) implies listed_ids(
        list,
    ).contains(q.id@) by {
        let i = choose|i: int| 0 <= i < list.len() && list[i] == q && is_last_of_id(list, i);
        assert(list[i].id@ == q.id@);
    }
    assert(with_ids(upsert_all(before, list), listed_ids(list)) =~= latest_records(list));
}

/// The window of `s` that starts at `offset` and holds at most `limit` records.
pub open spec fn page(s: Seq<Payment>, offset: int, limit: int) -> Seq<Payment> {
    let start = if offset < s.len() { offset } else { s.len() as int };
    let end = if offset + limit < s.len() { offset + limit } else { s.len() as int };
    s.subrange(start, end)
}

/// The balance that a store reports: the saved snapshot, or zero amounts when none was saved.
pub open spec fn reported_balance(saved: Option<OffchainBalance>) -> OffchainBalance {
    match saved {
        Some(b) => b,
        None => OffchainBalance { pending_sats: 0, confirmed_sats: 0 },
    }
}

/// Persistent store of payment records and of the balance snapshot.
pub trait Storage {
    /// Saves a payment, replacing the record with the same identifier.
    fn save_payment(&mut self, payment: &Payment) -> Result<(), SdkError>;

    /// Saves every payment of the list and removes every stored payment whose identifier is
    /// absent from it, all at once: on failure nothing changes.
    fn save_payments(&mut self, payments: &[Payment]) -> Result<(), SdkError>;

    /// The payment with the given identifier, if stored.
    fn get_payment(&self, id: &str) -> Result<Option<Payment>, SdkError>;

    /// A page of payments, newest first.
    fn list_payments(&self, offset: u32, limit: u32) -> Result<Vec<Payment>, SdkError>;

    /// Saves the balance snapshot, replacing the previous one.
    fn save_offchain_balance(&mut self, balance: &OffchainBalance) -> Result<(), SdkError>;

    /// The saved balance snapshot, or zero amounts when none was saved.
    fn get_offchain_balance(&self) -> Result<OffchainBalance, SdkError>;
}

/// A store held in memory: the payment records in listing order and the balance snapshot.
pub struct MemoryStorage {
    payments: Vec<Payment>,
    balance: Option<OffchainBalance>,
}

impl MemoryStorage {
    #[verifier::type_invariant]
    spec fn listing_kept(&self) -> bool {
        is_listing(self.payments@)
    }

    /// The stored payment records, in listing order.
    pub closed spec fn ledger(&self) -> Seq<Payment> {
        self.payments@
    }

    /// The saved balance snapshot, if any.
    pub closed spec fn saved_balance(&self) -> Option<OffchainBalance> {
        self.balance
    }

    /// An empty store.
    pub fn new() -> (r: Self)
        ensures
            r.ledger() == Seq::<Payment>::empty(),
            r.saved_balance() is None,
    {
        MemoryStorage { payments: Vec::new(), balance: None }
    }

    /// Saves a payment, replacing the record with the same identifier.
    pub fn save_payment(&mut self, payment: &Payment) -> (r: Result<(), SdkError>)
        ensures
            r is Ok,
            is_listing(final(self).ledger()),
            final(self).ledger().to_set() == upsert_set(old(self).ledger().to_set(), *payment),
            final(self).saved_balance() == old(self).saved_balance(),
    {
        proof {
            use_type_invariant(&*self);
        }
        let mut records = copy_records(&self.payments);
        upsert(&mut records, payment.clone());
        self.payments = records;
        Ok(())
    }

    /// Reconciles the store with `payments`: saves each of them, a later record replacing an
    /// earlier one with the same identifier, and removes every stored record whose identifier
    /// is absent from the list. An empty list clears the store.
    pub fn save_payments(&mut self, payments: &[Payment]) -> (r: Result<(), SdkError>)
        ensures
            r is Ok,
            is_listing(final(self).ledger()),
            final(self).ledger().to_set() == latest_records(payments@),
            final(self).saved_balance() == old(self).saved_balance(),
    {
        let mut records: Vec<Payment> = Vec::new();
        let n = payments.len();
        assert(latest_records(payments@.subrange(0, 0)) =~= Set::<Payment>::empty());
        assert(records@.to_set() =~= Set::<Payment>::empty());
        for i in 0..n
            invariant
                n == payments@.len(),
                is_listing(records@),
                records@.to_set() == latest_records(payments@.subrange(0, i as int)),
        {
            upsert(&mut records, payments[i].clone());
            proof {
                lemma_latest_records_step(payments@, i as int);
            }
        }
        assert(payments@.subrange(0, n as int) =~= payments@);
        self.payments = records;
        Ok(())
    }

    /// The payment with the given identifier, if stored.
    pub fn get_payment(&self, id: &str) -> (r: Result<Option<Payment>, SdkError>)
        ensures
            r matches Ok(found) && match found {
                Some(p) => self.ledger().contains(p) && p.id@ == id@,
                None => forall|k: int| 0 <= k < self.ledger().len() ==> #[trigger] self.ledger()[k].id@ != id@,
            },
    {
        let wanted = String::from_str(id);
        let mut k: usize = 0;
        while k < self.payments.len()
            invariant
                wanted@ == id@,
                k <= self.payments@.len(),
                forall|i: int| 0 <= i < k ==> #[trigger] self.payments@[i].id@ != id@,
            decreases self.payments@.len() - k,
        {
            if self.payments[k].id == wanted {
                let found = self.payments[k].clone();
                assert(self.payments@[k as int] == found);
                return Ok(Some(found));
            }
            k = k + 1;
        }
        Ok(None)
    }

    /// A page of payments in listing order: newest first, by identifier among equal timestamps.
    pub fn list_payments(&self, offset: u32, limit: u32) -> (r: Result<Vec<Payment>, SdkError>)
        ensures
            r matches Ok(v) && v@ == page(self.ledger(), offset as int, limit as int),
    {
        let len = self.payments.len();
        let start: usize = if (offset as usize) < len { offset as usize } else { len };
        let remaining: usize = len - start;
        let count: usize = if (limit as usize) < remaining { limit as usize } else { remaining };
        let mut out: Vec<Payment> = Vec::new();
        for i in 0..count
            invariant
                len == self.payments@.len(),
                start + count <= len,
                out@ == self.payments@.subrange(start as int, start + i),
        {
            out.push(self.payments[start + i].clone());
            assert(out@ =~= self.payments@.subrange(start as int, start + i + 1));
        }
        assert(out@ =~= page(self.ledger(), offset as int, limit as int));
        Ok(out)
    }

    /// Saves the balance snapshot, replacing the previous one.
    pub fn save_offchain_balance(&mut self, balance: &OffchainBalance) -> (r: Result<(), SdkError>)
        ensures
            r is Ok,
            final(self).saved_balance() == Some(*balance),
            final(self).ledger() == old(self).ledger(),
    {
        proof {
            use_type_invariant(&*self);
        }
        self.balance = Some(*balance);
        Ok(())
    }

    /// The saved balance snapshot, or zero amounts when none was saved.
    pub fn get_offchain_balance(&self) -> (r: Result<OffchainBalance, SdkError>)
        ensures
            r matches Ok(b) && b == reported_balance(self.saved_balance()),
    {
        match self.balance {
            Some(b) => Ok(b),
            None => Ok(OffchainBalance::default()),
        }
    }
}

/// Whether `after` is what `MemoryStorage::save_payments` leaves when called on `before` with
/// `list`.
pub open spec fn reconciled(before: MemoryStorage, after: MemoryStorage, list: Seq<Payment>) -> bool {
    &&& is_listing(after.ledger())
    &&& after.ledger().to_set() == latest_records(list)
    &&& after.saved_balance() == before.saved_balance()
}

/// Reconciling twice with the same list leaves the store as reconciling once does.
pub proof fn lemma_reconcile_idempotent(
    start: MemoryStorage,
    once: MemoryStorage,
    twice: MemoryStorage,
    list: Seq<Payment>,
)
    requires
        reconciled(start, once, list),
        reconciled(once, twice, list),
    ensures
        twice.ledger() == once.ledger(),
        twice.saved_balance() == once.saved_balance(),
{
    lemma_listing_canonical(once.ledger(), twice.ledger());
}

/// Reconciling with a list of records with distinct identifiers leaves exactly those records:
/// every stored record whose identifier is absent from the list is removed, and an empty list
/// removes every record.
pub proof fn lemma_reconcile_prunes(before: MemoryStorage, after: MemoryStorage, list: Seq<Payment>)
    requires
        reconciled(before, after, list),
        forall|i: int, j: int| 0 <= i < j < list.len() ==> #[trigger] list[i].id@ != #[trigger] list[j].id@,
    ensures
        after.ledger().to_set() == list.to_set(),
        forall|q: Payment| #[trigger] before.ledger().contains(q)
            && (forall|i: int| 0 <= i < list.len() ==> #[trigger] list[i].id@ != q.id@)
            ==> !after.ledger().contains(q),
        list.len() == 0 ==> after.ledger().len() == 0,
{
    assert forall|q: Payment| #[trigger] latest_records(list).contains(q) <==> list.to_set().contains(q) by {
        if list.to_set().contains(q) {
            let i = choose|i: int| 0 <= i < list.len() && list[i] == q;
            assert(is_last_of_id(list, i));
        }
    }
    assert(latest_records(list) =~= list.to_set());
    assert forall|q: Payment| #[trigger] before.ledger().contains(q)
        && (forall|i: int| 0 <= i < list.len() ==> #[trigger] list[i].id@ != q.id@)
        implies !after.ledger().contains(q) by {
        if after.ledger().contains(q) {
            assert(after.ledger().to_set().contains(q));
            let i = choose|i: int| 0 <= i < list.len() && list[i] == q;
            assert(list[i].id@ == q.id@);
        }
    }
    if list.len() == 0 && after.ledger().len() > 0 {
        assert(after.ledger().to_set().contains(after.ledger()[0]));
    }
}

/// Pages of a listing: the page at offset zero with room for every record is the whole
/// listing, newest first, and two adjacent pages make up the page that spans both.
pub proof fn lemma_pages_partition(store: MemoryStorage, k: int)
    requires
        is_listing(store.ledger()),
        0 <= k <= store.ledger().len(),
    ensures
        page(store.ledger(), 0, store.ledger().len() as int) == store.ledger(),
        page(store.ledger(), 0, k) + page(store.ledger(), k, store.ledger().len() - k) == page(
            store.ledger(),
            0,
            store.ledger().len() as int,
        ),
        forall|i: int, j: int| 0 <= i < j < store.ledger().len() ==> #[trigger] store.ledger()[i].timestamp
            >= #[trigger] store.ledger()[j].timestamp,
{
    let s = store.ledger();
    assert(page(s, 0, s.len() as int) =~= s);
    assert(page(s, 0, k) + page(s, k, s.len() - k) =~= s);
    assert forall|i: int, j: int| 0 <= i < j < s.len() implies #[trigger] s[i].timestamp
        >= #[trigger] s[j].timestamp by {
        assert(listed_before(s[i], s[j]));
    }
}

impl Storage for MemoryStorage {
    fn save_payment(&mut self, payment: &Payment) -> Result<(), SdkError> {
        MemoryStorage::save_payment(self, payment)
    }

    fn save_payments(&mut self, payments: &[Payment]) -> Result<(), SdkError> {
        MemoryStorage::save_payments(self, payments)
    }

    fn get_payment(&self, id: &str) -> Result<Option<Payment>, SdkError> {
        MemoryStorage::get_payment(self, id)
    }

    fn list_payments(&self, offset: u32, limit: u32) -> Result<Vec<Payment>, SdkError> {
        MemoryStorage::list_payments(self, offset, limit)
    }

    fn save_offchain_balance(&mut self, balance: &OffchainBalance) -> Result<(), SdkError> {
        MemoryStorage::save_offchain_balance(self, balance)
    }

    fn get_offchain_balance(&self) -> Result<OffchainBalance, SdkError> {
        MemoryStorage::get_offchain_balance(self)
    }
}

} // verus!
