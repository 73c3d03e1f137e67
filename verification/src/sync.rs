//! The merge of what the bank reports for an account into the local store:
//! which fetched transactions are new, which changed, which are known.

use vstd::prelude::*;
use crate::ids::{AccountId, ContentHash, TransactionId};

verus! {

/// A transaction as fetched from the bank: its optional entry reference and
/// the hash of its JSON text.
pub struct FetchedTransaction {
    pub entry_reference: Option<String>,
    pub content_hash: ContentHash,
}

/// A stored transaction of the account that carries an entry reference.
pub struct StoredTransaction {
    pub entry_reference: String,
    pub id: TransactionId,
    pub content_hash: ContentHash,
}

/// What to do with one fetched transaction.
#[derive(Clone, Copy, Debug, PartialEq, Eq, Structural)]
pub enum TransactionWrite {
    /// Store it as a new row.
    Insert,
    /// Replace the content of the stored row with this id.
    Update(TransactionId),
    /// It is already stored as it is.
    Unchanged,
}

/// The entry reference of a fetched transaction, as characters.
pub open spec fn fetched_ref(t: FetchedTransaction) -> Option<Seq<char>> {
    match t.entry_reference {
        Some(s) => Some(s@),
        None => None,
    }
}

/// The stored row that the entry reference `r` finds: of several rows with
/// that reference the last one.
pub open spec fn stored_lookup(stored: Seq<StoredTransaction>, r: Seq<char>) -> Option<(TransactionId, ContentHash)>
    decreases stored.len(),
{
    if stored.len() == 0 {
        None
    } else if stored.last().entry_reference@ == r {
        Some((stored.last().id, stored.last().content_hash))
    } else {
        stored_lookup(stored.drop_last(), r)
    }
}

/// Whether a fetched transaction before position `i` carries the reference `r`.
pub open spec fn reference_seen_before(fetched: Seq<FetchedTransaction>, i: int, r: Seq<char>) -> bool {
    exists|j: int| 0 <= j < i && fetched_ref(#[trigger] fetched[j]) == Some(r)
}

/// Whether a fetched transaction without reference before position `i` has
/// the content hash `h`.
pub open spec fn unreferenced_seen_before(fetched: Seq<FetchedTransaction>, i: int, h: ContentHash) -> bool {
    exists|j: int| 0 <= j < i && fetched_ref(#[trigger] fetched[j]) is None && fetched[j].content_hash == h
}

/// What the merge does with the fetched transaction at position `i`, given the
/// stored rows that carry a reference and the hashes of the stored rows that
/// carry none:
/// - a referenced transaction whose reference finds a stored row updates that
///   row if the hashes differ, and is unchanged otherwise;
/// - a referenced transaction whose reference finds no stored row is inserted,
///   unless an earlier fetched transaction carries the same reference;
/// - a transaction without reference is inserted, unless a stored row without
///   reference or an earlier fetched one without reference has its hash.
pub open spec fn transaction_write(
    fetched: Seq<FetchedTransaction>,
    stored: Seq<StoredTransaction>,
    unreferenced: Seq<ContentHash>,
    i: int,
) -> TransactionWrite {
    let t = fetched[i];
    match fetched_ref(t) {
        Some(r) => match stored_lookup(stored, r) {
            Some((id, h)) => if h != t.content_hash {
                TransactionWrite::Update(id)
            } else {
                TransactionWrite::Unchanged
            },
            None => if reference_seen_before(fetched, i, r) {
                TransactionWrite::Unchanged
            } else {
                TransactionWrite::Insert
            },
        },
        None => if unreferenced.contains(t.content_hash) || unreferenced_seen_before(
            fetched,
            i,
            t.content_hash,
        ) {
            TransactionWrite::Unchanged
        } else {
            TransactionWrite::Insert
        },
    }
}

/// The stored row that the entry reference `r` finds.
pub fn lookup_stored(stored: &Vec<StoredTransaction>, r: &String) -> (res: Option<(TransactionId, ContentHash)>)
    ensures
        res == stored_lookup(stored@, r@),
{
    let n = stored.len();
    let mut found: Option<(TransactionId, ContentHash)> = None;
    let mut j: usize = 0;
    while j < n
        invariant
            n == stored@.len(),
            j <= n,
            found == stored_lookup(stored@.take(j as int), r@),
        decreases n - j,
    {
        let row = &stored[j];
        proof {
            assert(stored@.take(j + 1).drop_last() =~= stored@.take(j as int));
            assert(stored@.take(j + 1).last() == stored@[j as int]);
        }
        if row.entry_reference.eq(r) {
            found = Some((row.id, row.content_hash));
        }
        j = j + 1;
    }
    assert(stored@.take(n as int) =~= stored@);
    found
}

fn reference_seen(fetched: &Vec<FetchedTransaction>, i: usize, r: &String) -> (res: bool)
    requires
        i <= fetched@.len(),
    ensures
        res == reference_seen_before(fetched@, i as int, r@),
{
    let mut j: usize = 0;
    while j < i
        invariant
            i <= fetched@.len(),
            j <= i,
            forall|k: int| 0 <= k < j ==> fetched_ref(#[trigger] fetched@[k]) != Some(r@),
        decreases i - j,
    {
        match &fetched[j].entry_reference {
            Some(s) => {
                if s.eq(r) {
                    assert(fetched_ref(fetched@[j as int]) == Some(r@));
                    return true;
                }
            },
            None => {},
        }
        j = j + 1;
    }
    false
}

fn unreferenced_seen(fetched: &Vec<FetchedTransaction>, i: usize, h: ContentHash) -> (res: bool)
    requires
        i <= fetched@.len(),
    ensures
        res == unreferenced_seen_before(fetched@, i as int, h),
{
    let mut j: usize = 0;
    while j < i
        invariant
            i <= fetched@.len(),
            j <= i,
            forall|k: int|
                0 <= k < j ==> !(fetched_ref(#[trigger] fetched@[k]) is None && fetched@[k].content_hash == h),
        decreases i - j,
    {
        if fetched[j].entry_reference.is_none() && fetched[j].content_hash.0 == h.0 {
            return true;
        }
        j = j + 1;
    }
    false
}

fn hash_listed(hashes: &Vec<ContentHash>, h: ContentHash) -> (res: bool)
    ensures
        res == hashes@.contains(h),
{
    let n = hashes.len();
    let mut j: usize = 0;
    while j < n
        invariant
            n == hashes@.len(),
            j <= n,
            forall|k: int| 0 <= k < j ==> hashes@[k] != h,
        decreases n - j,
    {
        if hashes[j].0 == h.0 {
            assert(hashes@[j as int] == h);
            return true;
        }
        j = j + 1;
    }
    false
}

/// Decides, for each fetched transaction in order, whether it is inserted,
/// updates a stored row, or is already stored.
pub fn plan_transactions(
    fetched: &Vec<FetchedTransaction>,
    stored: &Vec<StoredTransaction>,
    unreferenced: &Vec<ContentHash>,
) -> (res: Vec<TransactionWrite>)
    ensures
        res@.len() == fetched@.len(),
        forall|i: int|
            0 <= i < fetched@.len() ==> #[trigger] res@[i] == transaction_write(
                fetched@,
                stored@,
                unreferenced@,
                i,
            ),
{
    let n = fetched.len();
    let mut actions: Vec<TransactionWrite> = Vec::new();
    let mut i: usize = 0;
    while i < n
        invariant
            n == fetched@.len(),
            i <= n,
            actions@.len() == i,
            forall|k: int|
                0 <= k < i ==> #[trigger] actions@[k] == transaction_write(
                    fetched@,
                    stored@,
                    unreferenced@,
                    k,
                ),
        decreases n - i,
    {
        let t = &fetched[i];
        let action = match &t.entry_reference {
            Some(r) => match lookup_stored(stored, r) {
                Some((id, h)) => {
                    if h.0 != t.content_hash.0 {
                        TransactionWrite::Update(id)
                    } else {
                        TransactionWrite::Unchanged
                    }
                },
                None => {
                    if reference_seen(fetched, i, r) {
                        TransactionWrite::Unchanged
                    } else {
                        TransactionWrite::Insert
                    }
                },
            },
            None => {
                if hash_listed(unreferenced, t.content_hash) || unreferenced_seen(
                    fetched,
                    i,
                    t.content_hash,
                ) {
                    TransactionWrite::Unchanged
                } else {
                    TransactionWrite::Insert
                }
            },
        };
        actions.push(action);
        i = i + 1;
    }
    actions
}


/// How many of `actions` insert.
pub open spec fn count_inserts(actions: Seq<TransactionWrite>) -> nat
    decreases actions.len(),
{
    if actions.len() == 0 {
        0
    } else {
        count_inserts(actions.drop_last()) + if actions.last() is Insert {
            1nat
        } else {
            0nat
        }
    }
}

/// How many of `actions` update.
pub open spec fn count_updates(actions: Seq<TransactionWrite>) -> nat
    decreases actions.len(),
{
    if actions.len() == 0 {
        0
    } else {
        count_updates(actions.drop_last()) + if actions.last() is Update {
            1nat
        } else {
            0nat
        }
    }
}

/// How many of `actions` leave the store as it is.
pub open spec fn count_unchanged(actions: Seq<TransactionWrite>) -> nat
    decreases actions.len(),
{
    if actions.len() == 0 {
        0
    } else {
        count_unchanged(actions.drop_last()) + if actions.last() is Unchanged {
            1nat
        } else {
            0nat
        }
    }
}

/// Every fetched transaction is counted exactly once: as new, as updated or
/// as unchanged.
pub proof fn lemma_counts_cover_all(actions: Seq<TransactionWrite>)
    ensures
        count_inserts(actions) + count_updates(actions) + count_unchanged(actions) == actions.len(),
    decreases actions.len(),
{
    if actions.len() > 0 {
        lemma_counts_cover_all(actions.drop_last());
    }
}

/// The numbers of new, updated and unchanged transactions among `actions`.
pub fn tally_actions(actions: &Vec<TransactionWrite>) -> (res: (usize, usize, usize))
    ensures
        res.0 == count_inserts(actions@),
        res.1 == count_updates(actions@),
        res.2 == count_unchanged(actions@),
        res.0 + res.1 + res.2 == actions@.len(),
{
    let n = actions.len();
    let mut inserts: usize = 0;
    let mut updates: usize = 0;
    let mut unchanged: usize = 0;
    let mut i: usize = 0;
    while i < n
        invariant
            n == actions@.len(),
            i <= n,
            inserts == count_inserts(actions@.take(i as int)),
            updates == count_updates(actions@.take(i as int)),
            unchanged == count_unchanged(actions@.take(i as int)),
            inserts + updates + unchanged == i,
        decreases n - i,
    {
        proof {
            assert(actions@.take(i + 1).drop_last() =~= actions@.take(i as int));
            assert(actions@.take(i + 1).last() == actions@[i as int]);
            lemma_counts_cover_all(actions@.take(i as int));
        }
        match actions[i] {
            TransactionWrite::Insert => inserts = inserts + 1,
            TransactionWrite::Update(_) => updates = updates + 1,
            TransactionWrite::Unchanged => unchanged = unchanged + 1,
        }
        i = i + 1;
    }
    assert(actions@.take(n as int) =~= actions@);
    (inserts, updates, unchanged)
}

/// A fetched transaction that the merge inserts carries a reference that no
/// stored row and no earlier fetched transaction carries; so no two inserted
/// transactions share a reference.
pub proof fn lemma_inserted_references_are_new(
    fetched: Seq<FetchedTransaction>,
    stored: Seq<StoredTransaction>,
    unreferenced: Seq<ContentHash>,
    i: int,
    j: int,
)
    requires
        0 <= j < i < fetched.len(),
        transaction_write(fetched, stored, unreferenced, i) is Insert,
        fetched_ref(fetched[i]) is Some,
    ensures
        stored_lookup(stored, fetched_ref(fetched[i])->Some_0) is None,
        fetched_ref(fetched[j]) != fetched_ref(fetched[i]),
{
}

/// A fetched transaction without reference that the merge inserts has a hash
/// that no stored row without reference and no earlier fetched transaction
/// without reference has; so no two inserted ones share a hash.
pub proof fn lemma_inserted_unreferenced_are_new(
    fetched: Seq<FetchedTransaction>,
    stored: Seq<StoredTransaction>,
    unreferenced: Seq<ContentHash>,
    i: int,
    j: int,
)
    requires
        0 <= j < i < fetched.len(),
        transaction_write(fetched, stored, unreferenced, i) is Insert,
        fetched_ref(fetched[i]) is None,
    ensures
        !unreferenced.contains(fetched[i].content_hash),
        fetched_ref(fetched[j]) is None ==> fetched[j].content_hash != fetched[i].content_hash,
{
}

/// A stored row is only rewritten when the fetched content differs from it.
pub proof fn lemma_updates_only_changed(
    fetched: Seq<FetchedTransaction>,
    stored: Seq<StoredTransaction>,
    unreferenced: Seq<ContentHash>,
    i: int,
)
    requires
        0 <= i < fetched.len(),
        transaction_write(fetched, stored, unreferenced, i) is Update,
    ensures
        fetched_ref(fetched[i]) is Some,
        stored_lookup(stored, fetched_ref(fetched[i])->Some_0) == Some(
            (transaction_write(fetched, stored, unreferenced, i)->Update_0, stored_lookup(stored, fetched_ref(fetched[i])->Some_0)->Some_0.1),
        ),
        stored_lookup(stored, fetched_ref(fetched[i])->Some_0)->Some_0.1 != fetched[i].content_hash,
{
}

/// When the store already holds every fetched transaction as it is (each
/// reference finds a row with the same hash, each hash of a transaction without
/// reference is a stored one), the merge changes nothing.
pub proof fn lemma_agreeing_store_changes_nothing(
    fetched: Seq<FetchedTransaction>,
    stored: Seq<StoredTransaction>,
    unreferenced: Seq<ContentHash>,
)
    requires
        forall|i: int|
            0 <= i < fetched.len() && (#[trigger] fetched_ref(fetched[i])) is Some ==> (stored_lookup(
                stored,
                fetched_ref(fetched[i])->Some_0,
            ) matches Some(row) && row.1 == fetched[i].content_hash),
        forall|i: int|
            0 <= i < fetched.len() && (#[trigger] fetched_ref(fetched[i])) is None
                ==> unreferenced.contains(fetched[i].content_hash),
    ensures
        forall|i: int|
            0 <= i < fetched.len() ==> #[trigger] transaction_write(fetched, stored, unreferenced, i)
                is Unchanged,
{
    assert forall|i: int| 0 <= i < fetched.len() implies #[trigger] transaction_write(
        fetched,
        stored,
        unreferenced,
        i,
    ) is Unchanged by {
        let f = fetched_ref(fetched[i]);
        if f is Some {
        } else {
        }
    }
}

/// The writes that the merge decides for `fetched`, in order.
pub open spec fn planned_writes(
    fetched: Seq<FetchedTransaction>,
    stored: Seq<StoredTransaction>,
    unreferenced: Seq<ContentHash>,
) -> Seq<TransactionWrite> {
    Seq::new(fetched.len(), |i: int| transaction_write(fetched, stored, unreferenced, i))
}

/// The hash that the last update of the row `id` among `writes` gives it.
pub open spec fn last_update(fetched: Seq<FetchedTransaction>, writes: Seq<TransactionWrite>, id: TransactionId) -> Option<
    ContentHash,
>
    decreases writes.len(),
{
    if writes.len() == 0 {
        None
    } else if writes.last() == TransactionWrite::Update(id) {
        Some(fetched[writes.len() - 1].content_hash)
    } else {
        last_update(fetched, writes.drop_last(), id)
    }
}

/// A stored row after the updates among `writes`.
pub open spec fn updated_row(row: StoredTransaction, fetched: Seq<FetchedTransaction>, writes: Seq<TransactionWrite>) -> StoredTransaction {
    match last_update(fetched, writes, row.id) {
        Some(h) => StoredTransaction { content_hash: h, ..row },
        None => row,
    }
}

/// The stored rows after the updates among `writes`, in order.
pub open spec fn updated_rows(stored: Seq<StoredTransaction>, fetched: Seq<FetchedTransaction>, writes: Seq<TransactionWrite>) -> Seq<
    StoredTransaction,
>
    decreases stored.len(),
{
    if stored.len() == 0 {
        seq![]
    } else {
        updated_rows(stored.drop_last(), fetched, writes).push(updated_row(stored.last(), fetched, writes))
    }
}

/// The rows that the inserts among the first `k` writes add, the row of the
/// transaction at position `i` getting the id `new_ids[i]`.
pub open spec fn inserted_rows(
    fetched: Seq<FetchedTransaction>,
    writes: Seq<TransactionWrite>,
    new_ids: Seq<TransactionId>,
    k: int,
) -> Seq<StoredTransaction>
    decreases k,
{
    if k <= 0 {
        seq![]
    } else {
        let before = inserted_rows(fetched, writes, new_ids, k - 1);
        let i = k - 1;
        if writes[i] is Insert && fetched[i].entry_reference is Some {
            before.push(
                StoredTransaction {
                    entry_reference: fetched[i].entry_reference->Some_0,
                    id: new_ids[i],
                    content_hash: fetched[i].content_hash,
                },
            )
        } else {
            before
        }
    }
}

/// The hashes of the rows without reference that the inserts among the first
/// `k` writes add.
pub open spec fn inserted_hashes(fetched: Seq<FetchedTransaction>, writes: Seq<TransactionWrite>, k: int) -> Seq<
    ContentHash,
>
    decreases k,
{
    if k <= 0 {
        seq![]
    } else {
        let before = inserted_hashes(fetched, writes, k - 1);
        let i = k - 1;
        if writes[i] is Insert && fetched[i].entry_reference is None {
            before.push(fetched[i].content_hash)
        } else {
            before
        }
    }
}

/// No two fetched transactions carry the same reference.
pub open spec fn distinct_references(fetched: Seq<FetchedTransaction>) -> bool {
    forall|i: int, j: int|
        0 <= i < fetched.len() && 0 <= j < fetched.len() && i != j && (#[trigger] fetched_ref(fetched[i])) is Some
            ==> fetched_ref(fetched[i]) != #[trigger] fetched_ref(fetched[j])
}

/// No two stored rows share an id.
pub open spec fn distinct_row_ids(stored: Seq<StoredTransaction>) -> bool {
    forall|a: int, b: int| 0 <= a < stored.len() && 0 <= b < stored.len() && a != b ==> (#[trigger] stored[a]).id != (
    #[trigger] stored[b]).id
}

proof fn lemma_lookup_found(stored: Seq<StoredTransaction>, r: Seq<char>)
    ensures
        stored_lookup(stored, r) matches Some((id, h)) ==> exists|k: int|
            0 <= k < stored.len() && (#[trigger] stored[k]).entry_reference@ == r && stored[k].id == id
                && stored[k].content_hash == h,
        stored_lookup(stored, r) is None ==> forall|k: int|
            0 <= k < stored.len() ==> (#[trigger] stored[k]).entry_reference@ != r,
    decreases stored.len(),
{
    if stored.len() > 0 {
        lemma_lookup_found(stored.drop_last(), r);
        let t = stored.drop_last();
        if stored.last().entry_reference@ == r {
            assert(stored[stored.len() - 1] == stored.last());
        } else {
            if stored_lookup(t, r) is Some {
                let k = choose|k: int|
                    0 <= k < t.len() && (#[trigger] t[k]).entry_reference@ == r && t[k].id == stored_lookup(t, r)->Some_0.0
                        && t[k].content_hash == stored_lookup(t, r)->Some_0.1;
                assert(stored[k] == t[k]);
            } else {
                assert forall|k: int| 0 <= k < stored.len() implies (#[trigger] stored[k]).entry_reference@ != r by {
                    if k < t.len() {
                        assert(stored[k] == t[k]);
                    }
                }
            }
        }
    }
}

proof fn lemma_lookup_append(a: Seq<StoredTransaction>, b: Seq<StoredTransaction>, r: Seq<char>)
    requires
        forall|k: int| 0 <= k < b.len() ==> (#[trigger] b[k]).entry_reference@ != r,
    ensures
        stored_lookup(a + b, r) == stored_lookup(a, r),
    decreases b.len(),
{
    if b.len() > 0 {
        assert((a + b).drop_last() =~= a + b.drop_last());
        assert((a + b).last() == b.last());
        assert(b[b.len() - 1] == b.last());
        lemma_lookup_append(a, b.drop_last(), r);
    } else {
        assert(a + b =~= a);
    }
}

proof fn lemma_lookup_updated(stored: Seq<StoredTransaction>, fetched: Seq<FetchedTransaction>, writes: Seq<TransactionWrite>, r: Seq<char>)
    ensures
        stored_lookup(updated_rows(stored, fetched, writes), r) == match stored_lookup(stored, r) {
            Some((id, h)) => Some(
                (
                    id,
                    match last_update(fetched, writes, id) {
                        Some(h2) => h2,
                        None => h,
                    },
                ),
            ),
            None => None,
        },
    decreases stored.len(),
{
    if stored.len() > 0 {
        lemma_lookup_updated(stored.drop_last(), fetched, writes, r);
        let u = updated_rows(stored, fetched, writes);
        assert(u.drop_last() =~= updated_rows(stored.drop_last(), fetched, writes));
    }
}

proof fn lemma_last_update_only(fetched: Seq<FetchedTransaction>, writes: Seq<TransactionWrite>, id: TransactionId, i: int)
    requires
        0 <= i < writes.len(),
        forall|j: int| 0 <= j < writes.len() && j != i ==> #[trigger] writes[j] != TransactionWrite::Update(id),
    ensures
        last_update(fetched, writes, id) == if writes[i] == TransactionWrite::Update(id) {
            Some(fetched[i].content_hash)
        } else {
            None::<ContentHash>
        },
    decreases writes.len(),
{
    if writes.len() - 1 > i {
        assert(writes[writes.len() - 1] != TransactionWrite::Update(id));
        lemma_last_update_only(fetched, writes.drop_last(), id, i);
    } else {
        lemma_last_update_none(fetched, writes.drop_last(), id);
    }
}

proof fn lemma_last_update_none(fetched: Seq<FetchedTransaction>, writes: Seq<TransactionWrite>, id: TransactionId)
    requires
        forall|j: int| 0 <= j < writes.len() ==> #[trigger] writes[j] != TransactionWrite::Update(id),
    ensures
        last_update(fetched, writes, id) is None,
    decreases writes.len(),
{
    if writes.len() > 0 {
        assert(writes[writes.len() - 1] == writes.last());
        lemma_last_update_none(fetched, writes.drop_last(), id);
    }
}

/// Whether `row` is the row that the insert of some fetched transaction
/// before position `k` adds.
pub open spec fn row_from_insert(
    row: StoredTransaction,
    fetched: Seq<FetchedTransaction>,
    writes: Seq<TransactionWrite>,
    new_ids: Seq<TransactionId>,
    k: int,
) -> bool {
    exists|i: int|
        0 <= i < k && writes[i] is Insert && #[trigger] fetched_ref(fetched[i]) == Some(row.entry_reference@) && row.id
            == new_ids[i] && row.content_hash == fetched[i].content_hash
}

proof fn lemma_inserted_rows_refs(
    fetched: Seq<FetchedTransaction>,
    writes: Seq<TransactionWrite>,
    new_ids: Seq<TransactionId>,
    k: int,
)
    requires
        0 <= k <= fetched.len(),
        writes.len() == fetched.len(),
    ensures
        forall|m: int|
            0 <= m < inserted_rows(fetched, writes, new_ids, k).len() ==> #[trigger] row_from_insert(
                inserted_rows(fetched, writes, new_ids, k)[m],
                fetched,
                writes,
                new_ids,
                k,
            ),
    decreases k,
{
    if k > 0 {
        lemma_inserted_rows_refs(fetched, writes, new_ids, k - 1);
        let before = inserted_rows(fetched, writes, new_ids, k - 1);
        let rows = inserted_rows(fetched, writes, new_ids, k);
        assert forall|m: int| 0 <= m < rows.len() implies #[trigger] row_from_insert(rows[m], fetched, writes, new_ids, k) by {
            if m < before.len() {
                assert(rows[m] == before[m]);
                assert(row_from_insert(before[m], fetched, writes, new_ids, k - 1));
                let i = choose|i: int|
                    0 <= i < k - 1 && writes[i] is Insert && #[trigger] fetched_ref(fetched[i]) == Some(before[m].entry_reference@)
                        && before[m].id == new_ids[i] && before[m].content_hash == fetched[i].content_hash;
                assert(fetched_ref(fetched[i]) == Some(rows[m].entry_reference@));
            } else {
                let i = k - 1;
                assert(fetched_ref(fetched[i]) == Some(rows[m].entry_reference@));
            }
        }
    }
}

proof fn lemma_inserted_rows_lookup(
    fetched: Seq<FetchedTransaction>,
    writes: Seq<TransactionWrite>,
    new_ids: Seq<TransactionId>,
    k: int,
    i: int,
)
    requires
        0 <= i < k <= fetched.len(),
        writes.len() == fetched.len(),
        distinct_references(fetched),
        writes[i] is Insert,
        fetched_ref(fetched[i]) is Some,
    ensures
        stored_lookup(inserted_rows(fetched, writes, new_ids, k), fetched_ref(fetched[i])->Some_0) == Some(
            (new_ids[i], fetched[i].content_hash),
        ),
    decreases k,
{
    let r = fetched_ref(fetched[i])->Some_0;
    let rows = inserted_rows(fetched, writes, new_ids, k);
    let before = inserted_rows(fetched, writes, new_ids, k - 1);
    if k - 1 == i {
        assert(rows == before.push(StoredTransaction { entry_reference: fetched[i].entry_reference->Some_0, id: new_ids[i], content_hash: fetched[i].content_hash }));
        assert(rows.drop_last() =~= before);
    } else {
        lemma_inserted_rows_lookup(fetched, writes, new_ids, k - 1, i);
        let j = k - 1;
        if writes[j] is Insert && fetched[j].entry_reference is Some {
            assert(fetched_ref(fetched[j]) != fetched_ref(fetched[i]));
            assert(rows.drop_last() =~= before);
            assert(rows.last().entry_reference@ != r);
        }
    }
}

proof fn lemma_inserted_hashes_contains(fetched: Seq<FetchedTransaction>, writes: Seq<TransactionWrite>, k: int, i: int)
    requires
        0 <= i < k <= fetched.len(),
        writes.len() == fetched.len(),
        writes[i] is Insert,
        fetched_ref(fetched[i]) is None,
    ensures
        inserted_hashes(fetched, writes, k).contains(fetched[i].content_hash),
    decreases k,
{
    let hs = inserted_hashes(fetched, writes, k);
    let before = inserted_hashes(fetched, writes, k - 1);
    if k - 1 == i {
        assert(hs == before.push(fetched[i].content_hash));
        assert(hs[hs.len() - 1] == fetched[i].content_hash);
    } else {
        lemma_inserted_hashes_contains(fetched, writes, k - 1, i);
        let m = choose|m: int| 0 <= m < before.len() && before[m] == fetched[i].content_hash;
        let j = k - 1;
        if writes[j] is Insert && fetched[j].entry_reference is None {
            assert(hs[m] == before[m]);
        } else {
            assert(hs == before);
        }
    }
}

proof fn lemma_unreferenced_kept(
    fetched: Seq<FetchedTransaction>,
    stored: Seq<StoredTransaction>,
    unreferenced: Seq<ContentHash>,
    i: int,
)
    requires
        0 <= i < fetched.len(),
        fetched_ref(fetched[i]) is None,
    ensures
        (unreferenced + inserted_hashes(
            fetched,
            planned_writes(fetched, stored, unreferenced),
            fetched.len() as int,
        )).contains(fetched[i].content_hash),
    decreases i,
{
    let writes = planned_writes(fetched, stored, unreferenced);
    let all = unreferenced + inserted_hashes(fetched, writes, fetched.len() as int);
    let h = fetched[i].content_hash;
    assert(writes[i] == transaction_write(fetched, stored, unreferenced, i));
    if unreferenced.contains(h) {
        let m = choose|m: int| 0 <= m < unreferenced.len() && unreferenced[m] == h;
        assert(all[m] == h);
    } else if unreferenced_seen_before(fetched, i, h) {
        let j = choose|j: int| 0 <= j < i && fetched_ref(#[trigger] fetched[j]) is None && fetched[j].content_hash == h;
        lemma_unreferenced_kept(fetched, stored, unreferenced, j);
    } else {
        lemma_inserted_hashes_contains(fetched, writes, fetched.len() as int, i);
        let ins = inserted_hashes(fetched, writes, fetched.len() as int);
        let m = choose|m: int| 0 <= m < ins.len() && ins[m] == h;
        assert(all[unreferenced.len() + m] == h);
    }
}

/// The merge is idempotent: once its writes are in the store (updated rows
/// take the fetched hash, inserted transactions become rows with whatever new
/// ids, inserted hashes of transactions without reference join the others),
/// merging the same fetched transactions again writes nothing. This holds when
/// no two fetched transactions carry the same reference and no two stored rows
/// share an id.
pub proof fn lemma_merge_is_idempotent(
    fetched: Seq<FetchedTransaction>,
    stored: Seq<StoredTransaction>,
    unreferenced: Seq<ContentHash>,
    new_ids: Seq<TransactionId>,
)
    requires
        distinct_references(fetched),
        distinct_row_ids(stored),
        new_ids.len() == fetched.len(),
    ensures
        forall|i: int|
            0 <= i < fetched.len() ==> #[trigger] transaction_write(
                fetched,
                updated_rows(stored, fetched, planned_writes(fetched, stored, unreferenced)) + inserted_rows(
                    fetched,
                    planned_writes(fetched, stored, unreferenced),
                    new_ids,
                    fetched.len() as int,
                ),
                unreferenced + inserted_hashes(
                    fetched,
                    planned_writes(fetched, stored, unreferenced),
                    fetched.len() as int,
                ),
                i,
            ) is Unchanged,
{
    let writes = planned_writes(fetched, stored, unreferenced);
    let n = fetched.len() as int;
    let upd = updated_rows(stored, fetched, writes);
    let ins = inserted_rows(fetched, writes, new_ids, n);
    let hashes = unreferenced + inserted_hashes(fetched, writes, n);
    lemma_inserted_rows_refs(fetched, writes, new_ids, n);
    assert forall|i: int| 0 <= i < n implies #[trigger] transaction_write(fetched, upd + ins, hashes, i) is Unchanged by {
        let t = fetched[i];
        assert(writes[i] == transaction_write(fetched, stored, unreferenced, i));
        match fetched_ref(t) {
            Some(r) => {
                lemma_lookup_found(stored, r);
                match stored_lookup(stored, r) {
                    Some((id, h)) => {
                        assert forall|m: int| 0 <= m < ins.len() implies (#[trigger] ins[m]).entry_reference@ != r by {
                            assert(row_from_insert(ins[m], fetched, writes, new_ids, n));
                            let j = choose|j: int|
                                0 <= j < n && writes[j] is Insert && #[trigger] fetched_ref(fetched[j]) == Some(ins[m].entry_reference@)
                                    && ins[m].id == new_ids[j] && ins[m].content_hash == fetched[j].content_hash;
                            if ins[m].entry_reference@ == r {
                                if j == i {
                                    assert(writes[i] !is Insert);
                                } else {
                                    assert(fetched_ref(fetched[i]) != fetched_ref(fetched[j]));
                                }
                            }
                        }
                        lemma_lookup_append(upd, ins, r);
                        lemma_lookup_updated(stored, fetched, writes, r);
                        let k = choose|k: int|
                            0 <= k < stored.len() && (#[trigger] stored[k]).entry_reference@ == r && stored[k].id == id
                                && stored[k].content_hash == h;
                        assert forall|j: int| 0 <= j < writes.len() && j != i implies #[trigger] writes[j] != TransactionWrite::Update(id) by {
                            assert(writes[j] == transaction_write(fetched, stored, unreferenced, j));
                            if writes[j] == TransactionWrite::Update(id) {
                                let rj = fetched_ref(fetched[j])->Some_0;
                                lemma_lookup_found(stored, rj);
                                let kj = choose|kj: int|
                                    0 <= kj < stored.len() && (#[trigger] stored[kj]).entry_reference@ == rj
                                        && stored[kj].id == stored_lookup(stored, rj)->Some_0.0
                                        && stored[kj].content_hash == stored_lookup(stored, rj)->Some_0.1;
                                assert(stored[kj].id == id);
                                assert(kj == k);
                                assert(fetched_ref(fetched[j]) == fetched_ref(fetched[i]));
                            }
                        }
                        lemma_last_update_only(fetched, writes, id, i);
                    },
                    None => {
                        assert(!reference_seen_before(fetched, i, r)) by {
                            if reference_seen_before(fetched, i, r) {
                                let j = choose|j: int| 0 <= j < i && fetched_ref(#[trigger] fetched[j]) == Some(r);
                                assert(fetched_ref(fetched[i]) != fetched_ref(fetched[j]));
                            }
                        }
                        assert(writes[i] is Insert);
                        lemma_inserted_rows_lookup(fetched, writes, new_ids, n, i);
                        lemma_lookup_updated(stored, fetched, writes, r);
                        assert(stored_lookup(upd, r) is None);
                        lemma_lookup_found(upd, r);
                        lemma_lookup_prefix_none(upd, ins, r);
                    },
                }
            },
            None => {
                lemma_unreferenced_kept(fetched, stored, unreferenced, i);
            },
        }
    }
}

proof fn lemma_lookup_prefix_none(a: Seq<StoredTransaction>, b: Seq<StoredTransaction>, r: Seq<char>)
    requires
        stored_lookup(a, r) is None,
    ensures
        stored_lookup(a + b, r) == stored_lookup(b, r),
    decreases b.len(),
{
    if b.len() > 0 {
        assert((a + b).drop_last() =~= a + b.drop_last());
        assert((a + b).last() == b.last());
        lemma_lookup_prefix_none(a, b.drop_last(), r);
    } else {
        assert(a + b =~= a);
    }
}

/// What to do with the fetched details of an account.
#[derive(Clone, Copy, Debug, PartialEq, Eq, Structural)]
pub enum AccountWrite {
    /// Store it as a new account.
    Insert,
    /// Replace the stored content of this account.
    Update(AccountId),
    /// The stored content is the same.
    Keep(AccountId),
}

/// What to do with fetched account details whose hash is `new_hash`, given
/// the stored account with the same identification: insert it when there is
/// none, update it when its hash differs, else keep it.
pub open spec fn account_write_spec(existing: Option<(AccountId, ContentHash)>, new_hash: ContentHash) -> AccountWrite {
    match existing {
        None => AccountWrite::Insert,
        Some((id, stored)) => if stored != new_hash {
            AccountWrite::Update(id)
        } else {
            AccountWrite::Keep(id)
        },
    }
}

/// The stored account (its id and hash) once the write decided for
/// `existing` and `new_hash` is done, a new account getting the id `new_id`.
pub open spec fn account_after(existing: Option<(AccountId, ContentHash)>, new_hash: ContentHash, new_id: AccountId) -> (
    AccountId,
    ContentHash,
) {
    match account_write_spec(existing, new_hash) {
        AccountWrite::Insert => (new_id, new_hash),
        AccountWrite::Update(id) => (id, new_hash),
        AccountWrite::Keep(id) => (id, new_hash),
    }
}

/// The transaction writes of a second merge of `fetched`, once the writes
/// of the first merge into `stored` and `unreferenced` are in the store
/// (inserted rows getting the ids `new_ids`).
pub open spec fn second_writes(
    fetched: Seq<FetchedTransaction>,
    stored: Seq<StoredTransaction>,
    unreferenced: Seq<ContentHash>,
    new_ids: Seq<TransactionId>,
) -> Seq<TransactionWrite> {
    let writes = planned_writes(fetched, stored, unreferenced);
    planned_writes(
        fetched,
        updated_rows(stored, fetched, writes) + inserted_rows(fetched, writes, new_ids, fetched.len() as int),
        unreferenced + inserted_hashes(fetched, writes, fetched.len() as int),
    )
}

/// Writes that all leave the store as it is count no insert and no update.
proof fn lemma_all_unchanged_counts(actions: Seq<TransactionWrite>)
    requires
        forall|i: int| 0 <= i < actions.len() ==> #[trigger] actions[i] is Unchanged,
    ensures
        count_inserts(actions) == 0,
        count_updates(actions) == 0,
        count_unchanged(actions) == actions.len(),
    decreases actions.len(),
{
    if actions.len() > 0 {
        let rest = actions.drop_last();
        assert forall|i: int| 0 <= i < rest.len() implies #[trigger] rest[i] is Unchanged by {
            assert(rest[i] == actions[i]);
        }
        assert(actions.last() is Unchanged) by {
            assert(actions[actions.len() - 1] is Unchanged);
        }
        lemma_all_unchanged_counts(rest);
    }
}

/// Syncing an account again with the same fetched details and
/// transactions, once the first sync's writes are in the store, writes
/// nothing: the account is kept, and of the transactions none is new, none
/// is updated and every one is unchanged. This holds when no two fetched
/// transactions carry the same reference and no two stored rows share an id.
pub proof fn lemma_second_sync_writes_nothing(
    existing: Option<(AccountId, ContentHash)>,
    account_hash: ContentHash,
    new_account_id: AccountId,
    fetched: Seq<FetchedTransaction>,
    stored: Seq<StoredTransaction>,
    unreferenced: Seq<ContentHash>,
    new_ids: Seq<TransactionId>,
)
    requires
        distinct_references(fetched),
        distinct_row_ids(stored),
        new_ids.len() == fetched.len(),
    ensures
        account_write_spec(Some(account_after(existing, account_hash, new_account_id)), account_hash) is Keep,
        count_inserts(second_writes(fetched, stored, unreferenced, new_ids)) == 0,
        count_updates(second_writes(fetched, stored, unreferenced, new_ids)) == 0,
        count_unchanged(second_writes(fetched, stored, unreferenced, new_ids)) == fetched.len(),
{
    lemma_merge_is_idempotent(fetched, stored, unreferenced, new_ids);
    let again = second_writes(fetched, stored, unreferenced, new_ids);
    let writes = planned_writes(fetched, stored, unreferenced);
    assert forall|i: int| 0 <= i < again.len() implies #[trigger] again[i] is Unchanged by {
        assert(again[i] == transaction_write(
            fetched,
            updated_rows(stored, fetched, writes) + inserted_rows(fetched, writes, new_ids, fetched.len() as int),
            unreferenced + inserted_hashes(fetched, writes, fetched.len() as int),
            i,
        ));
    }
    lemma_all_unchanged_counts(again);
}

/// Decides what to do with fetched account details whose hash is `new_hash`,
/// given the stored account with the same identification (its id and hash).
pub fn account_write(existing: Option<(AccountId, ContentHash)>, new_hash: ContentHash) -> (res: AccountWrite)
    ensures
        res == account_write_spec(existing, new_hash),
{
    match existing {
        None => AccountWrite::Insert,
        Some((id, stored)) => {
            if stored.0 != new_hash.0 {
                AccountWrite::Update(id)
            } else {
                AccountWrite::Keep(id)
            }
        },
    }
}

/// The entry references of the fetched transactions that carry one, in
/// order: what the store is asked about.
pub open spec fn references_of(fetched: Seq<FetchedTransaction>) -> Seq<Seq<char>>
    decreases fetched.len(),
{
    if fetched.len() == 0 {
        seq![]
    } else {
        match fetched_ref(fetched.last()) {
            Some(r) => references_of(fetched.drop_last()).push(r),
            None => references_of(fetched.drop_last()),
        }
    }
}

/// The entry references of the fetched transactions that carry one.
pub fn entry_references(fetched: &Vec<FetchedTransaction>) -> (res: Vec<String>)
    ensures
        res@.map_values(|r: String| r@) == references_of(fetched@),
{
    let n = fetched.len();
    let mut refs: Vec<String> = Vec::new();
    let mut i: usize = 0;
    while i < n
        invariant
            n == fetched@.len(),
            i <= n,
            refs@.map_values(|r: String| r@) == references_of(fetched@.take(i as int)),
        decreases n - i,
    {
        proof {
            assert(fetched@.take(i + 1).drop_last() =~= fetched@.take(i as int));
            assert(fetched@.take(i + 1).last() == fetched@[i as int]);
        }
        match &fetched[i].entry_reference {
            Some(r) => {
                let ghost before = refs@;
                refs.push(r.clone());
                assert(refs@.map_values(|r: String| r@) =~= before.map_values(|r: String| r@).push(r@));
            },
            None => {},
        }
        i = i + 1;
    }
    assert(fetched@.take(n as int) =~= fetched@);
    refs
}

/// How many entry references or rows one statement binds at most, below
/// SQLite's limit on parameters.
pub const CHUNK_SIZE: usize = 900;

/// Whether `ranges` cut `0..len` into consecutive pieces of `size` items, the
/// last one holding what is left (at least one item), in order.
pub open spec fn chunked(ranges: Seq<(usize, usize)>, len: nat, size: nat) -> bool {
    &&& len == 0 ==> ranges.len() == 0
    &&& len > 0 ==> ranges.len() > 0 && ranges[0].0 == 0 && ranges.last().1 == len
    &&& forall|k: int| 0 <= k < ranges.len() ==> (#[trigger] ranges[k]).0 < ranges[k].1
    &&& forall|k: int| 0 <= k < ranges.len() - 1 ==> (#[trigger] ranges[k]).1 - ranges[k].0 == size
    &&& forall|k: int| 0 <= k < ranges.len() ==> (#[trigger] ranges[k]).1 - ranges[k].0 <= size
    &&& forall|k: int| 0 <= k < ranges.len() - 1 ==> (#[trigger] ranges[k]).1 == ranges[k + 1].0
}

/// The pieces that `slice::chunks(size)` cuts a list of `len` items into, as
/// ranges of positions.
pub fn chunk_ranges(len: usize, size: usize) -> (res: Vec<(usize, usize)>)
    requires
        size > 0,
    ensures
        chunked(res@, len as nat, size as nat),
{
    let mut ranges: Vec<(usize, usize)> = Vec::new();
    let mut start: usize = 0;
    while start < len
        invariant
            size > 0,
            start <= len,
            start == 0 <==> ranges@.len() == 0,
            ranges@.len() > 0 ==> ranges@[0].0 == 0 && ranges@.last().1 == start,
            forall|k: int| 0 <= k < ranges@.len() ==> (#[trigger] ranges@[k]).0 < ranges@[k].1,
            forall|k: int| 0 <= k < ranges@.len() ==> (#[trigger] ranges@[k]).1 - ranges@[k].0 == size,
            forall|k: int| 0 <= k < ranges@.len() - 1 ==> (#[trigger] ranges@[k]).1 == ranges@[k + 1].0,
        decreases len - start,
    {
        let end = if len - start > size {
            start + size
        } else {
            len
        };
        let ghost before = ranges@;
        ranges.push((start, end));
        proof {
            assert forall|k: int| 0 <= k < ranges@.len() - 1 implies (#[trigger] ranges@[k]).1 == ranges@[k + 1].0 by {
                if k < before.len() - 1 {
                    assert(ranges@[k] == before[k] && ranges@[k + 1] == before[k + 1]);
                } else {
                    assert(ranges@[k] == before.last());
                }
            }
        }
        if end == len && end - start < size {
            proof {
                assert(chunked(ranges@, len as nat, size as nat));
            }
            return ranges;
        }
        start = end;
    }
    ranges
}

} // verus!
