//! The authoritative mapping store: the durable table of short code to
//! long URL, the single source of truth. It enforces uniqueness on the
//! short code and resolves concurrent creates with an insert-if-absent
//! policy: a second insert under an existing code is a no-op.

use vstd::prelude::*;

verus! {

/// A durable mapping row: a unique short code, the original long URL, and
/// the creation stamp the store assigned at insert time.
pub struct UrlMapping {
    pub long_url: String,
    pub short_code: String,
    pub created_at: u64,
}

/// The mathematical value of a mapping row.
pub struct RowModel {
    pub long_url: Seq<char>,
    pub short_code: Seq<char>,
    pub created_at: u64,
}

impl View for UrlMapping {
    type V = RowModel;

    open spec fn view(&self) -> RowModel {
        RowModel {
            long_url: self.long_url@,
            short_code: self.short_code@,
            created_at: self.created_at,
        }
    }
}

impl Clone for UrlMapping {
    fn clone(&self) -> (r: Self)
        ensures
            r@ == self@,
    {
        UrlMapping {
            long_url: self.long_url.clone(),
            short_code: self.short_code.clone(),
            created_at: self.created_at,
        }
    }
}

/// Whether some row of `rows` carries the short code `code`.
pub open spec fn has_code(rows: Seq<RowModel>, code: Seq<char>) -> bool {
    exists|i: int| 0 <= i < rows.len() && #[trigger] rows[i].short_code == code
}

/// The first row of `rows` carrying `code`, if any. When the codes of
/// `rows` are unique this is the only such row.
pub open spec fn lookup(rows: Seq<RowModel>, code: Seq<char>) -> Option<RowModel>
    decreases rows.len(),
{
    if rows.len() == 0 {
        None
    } else if rows[0].short_code == code {
        Some(rows[0])
    } else {
        lookup(rows.drop_first(), code)
    }
}

/// `rows` with every row carrying `code` removed.
pub open spec fn remove_code(rows: Seq<RowModel>, code: Seq<char>) -> Seq<RowModel>
    decreases rows.len(),
{
    if rows.len() == 0 {
        rows
    } else if rows[0].short_code == code {
        remove_code(rows.drop_first(), code)
    } else {
        seq![rows[0]] + remove_code(rows.drop_first(), code)
    }
}

/// How many rows of `rows` carry `code`.
pub open spec fn count_code(rows: Seq<RowModel>, code: Seq<char>) -> nat
    decreases rows.len(),
{
    if rows.len() == 0 {
        0
    } else {
        (if rows[0].short_code == code {
            1nat
        } else {
            0nat
        }) + count_code(rows.drop_first(), code)
    }
}

/// No two rows share a short code.
pub open spec fn codes_unique(rows: Seq<RowModel>) -> bool {
    forall|i: int, j: int|
        0 <= i < j < rows.len() ==> (#[trigger] rows[i].short_code) != (#[trigger] rows[j].short_code)
}

/// Creation stamps grow strictly along the sequence, so the insertion order
/// is also the creation order.
pub open spec fn stamps_increasing(rows: Seq<RowModel>) -> bool {
    forall|i: int, j: int|
        0 <= i < j < rows.len() ==> (#[trigger] rows[i].created_at) < (#[trigger] rows[j].created_at)
}

/// `lookup` finds a row exactly when `has_code` says one is there, and the
/// row found carries the code looked up.
pub proof fn lemma_lookup_has_code(rows: Seq<RowModel>, code: Seq<char>)
    ensures
        lookup(rows, code) is Some <==> has_code(rows, code),
        lookup(rows, code) matches Some(r) ==> r.short_code == code && has_code(rows, code),
    decreases rows.len(),
{
    if rows.len() > 0 {
        if rows[0].short_code == code {
        } else {
            lemma_lookup_has_code(rows.drop_first(), code);
            if has_code(rows, code) {
                let i = choose|i: int|
                    0 <= i < rows.len() && #[trigger] rows[i].short_code == code;
                assert(rows.drop_first()[i - 1] == rows[i]);
            }
            if has_code(rows.drop_first(), code) {
                let i = choose|i: int|
                    0 <= i < rows.drop_first().len() && #[trigger] rows.drop_first()[i].short_code == code;
                assert(rows[i + 1] == rows.drop_first()[i]);
            }
        }
    }
}

/// Appending a row leaves the lookup of every other code unchanged, and
/// makes the new row the result for its own code if that code was absent.
pub proof fn lemma_lookup_push(rows: Seq<RowModel>, code: Seq<char>, row: RowModel)
    ensures
        lookup(rows, code) is Some ==> lookup(rows.push(row), code) == lookup(rows, code),
        lookup(rows, code) is None && row.short_code == code ==> lookup(rows.push(row), code)
            == Some(row),
        lookup(rows, code) is None && row.short_code != code ==> lookup(rows.push(row), code)
            is None,
    decreases rows.len(),
{
    if rows.len() == 0 {
        assert(rows.push(row)[0] == row);
        assert(rows.push(row).drop_first() =~= Seq::<RowModel>::empty());
    } else {
        assert(rows.push(row)[0] == rows[0]);
        assert(rows.push(row).drop_first() =~= rows.drop_first().push(row));
        lemma_lookup_push(rows.drop_first(), code, row);
    }
}

/// A code that `rows` holds once and only once is counted exactly once.
pub proof fn lemma_unique_count(rows: Seq<RowModel>, code: Seq<char>)
    requires
        codes_unique(rows),
    ensures
        has_code(rows, code) ==> count_code(rows, code) == 1,
        !has_code(rows, code) ==> count_code(rows, code) == 0,
    decreases rows.len(),
{
    if rows.len() > 0 {
        assert(forall|i: int, j: int|
            0 <= i < j < rows.drop_first().len() ==> (#[trigger] rows.drop_first()[i].short_code) != (#[trigger] rows.drop_first()[j].short_code)) by {
            assert(forall|i: int|
                0 <= i < rows.drop_first().len() ==> #[trigger] rows.drop_first()[i] == rows[i
                    + 1]);
        }
        lemma_unique_count(rows.drop_first(), code);
        if rows[0].short_code == code {
            // the first row matches; uniqueness rules out a second match
            assert(!has_code(rows.drop_first(), code)) by {
                if has_code(rows.drop_first(), code) {
                    let i = choose|i: int|
                        0 <= i < rows.drop_first().len() && #[trigger] rows.drop_first()[i].short_code == code;
                    assert(rows[i + 1] == rows.drop_first()[i]);
                }
            }
        } else {
            if has_code(rows, code) {
                let i = choose|i: int|
                    0 <= i < rows.len() && #[trigger] rows[i].short_code == code;
                assert(rows.drop_first()[i - 1] == rows[i]);
            }
            if has_code(rows.drop_first(), code) {
                let i = choose|i: int|
                    0 <= i < rows.drop_first().len() && #[trigger] rows.drop_first()[i].short_code == code;
                assert(rows[i + 1] == rows.drop_first()[i]);
            }
        }
    }
}

/// Outcome of an insert under the store's conflict policy.
#[derive(PartialEq, Eq, Structural, Clone, Copy, Debug)]
pub enum InsertOutcome {
    /// A new row was written.
    Inserted,
    /// A row with the same short code already existed; nothing changed.
    Conflict,
    /// The store can assign no further creation stamps; nothing changed.
    Full,
}

/// The durable store: rows keyed uniquely by short code, plus the stamp the
/// next inserted row will carry.
pub struct MappingStore {
    rows: Vec<UrlMapping>,
    clock: u64,
}

impl View for MappingStore {
    type V = Seq<RowModel>;

    closed spec fn view(&self) -> Seq<RowModel> {
        self.rows@.map_values(|m: UrlMapping| m@)
    }
}

impl MappingStore {
    /// The stamp the next inserted row will carry.
    pub closed spec fn stamp(&self) -> u64 {
        self.clock
    }

    /// Well-formedness: codes unique, creation stamps strictly increasing
    /// and all below the next stamp.
    pub open spec fn wf(&self) -> bool {
        &&& codes_unique(self@)
        &&& stamps_increasing(self@)
        &&& forall|i: int| 0 <= i < self@.len() ==> (#[trigger] self@[i].created_at) < self.stamp()
    }

    /// An empty store.
    pub fn new() -> (r: Self)
        ensures
            r.wf(),
            r@ == Seq::<RowModel>::empty(),
            r.stamp() == 0,
    {
        let r = MappingStore { rows: Vec::new(), clock: 0 };
        assert(r@ =~= Seq::<RowModel>::empty());
        r
    }

    /// Index of the row carrying `code`, if any.
    fn find_index(&self, code: &String) -> (r: Option<usize>)
        ensures
            match r {
                Some(i) => i < self@.len() && self@[i as int].short_code == code@ && forall|
                    j: int,
                |
                    0 <= j < i ==> (#[trigger] self@[j].short_code) != code@,
                None => !has_code(self@, code@),
            },
    {
        let n = self.rows.len();
        for i in 0..n
            invariant
                n == self.rows.len(),
                forall|j: int| 0 <= j < i ==> (#[trigger] self@[j].short_code) != code@,
        {
            assert(self@[i as int] == self.rows@[i as int]@);
            if self.rows[i].short_code == *code {
                return Some(i);
            }
        }
        None
    }

    /// The row carrying `code`, if any, as a copy.
    pub fn find(&self, code: &String) -> (r: Option<UrlMapping>)
        ensures
            match r {
                Some(m) => lookup(self@, code@) == Some(m@),
                None => lookup(self@, code@) is None,
            },
    {
        proof {
            lemma_lookup_has_code(self@, code@);
        }
        match self.find_index(code) {
            Some(i) => {
                proof {
                    lemma_lookup_at_index(self@, code@, i as int);
                }
                Some(self.rows[i].clone())
            },
            None => None,
        }
    }

    /// Insert a mapping unless its short code is already present: the
    /// store's whole conflict policy. On conflict nothing changes and the
    /// first writer's row stands.
    pub fn insert_if_absent(&mut self, long_url: &String, short_code: &String) -> (r:
        InsertOutcome)
        requires
            old(self).wf(),
        ensures
            final(self).wf(),
            has_code(old(self)@, short_code@) ==> r == InsertOutcome::Conflict && final(self)@
                == old(self)@ && final(self).stamp() == old(self).stamp(),
            !has_code(old(self)@, short_code@) && old(self).stamp() == u64::MAX ==> r
                == InsertOutcome::Full && final(self)@ == old(self)@ && final(self).stamp() == old(self).stamp(),
            !has_code(old(self)@, short_code@) && old(self).stamp() < u64::MAX ==> r
                == InsertOutcome::Inserted && final(self)@ == old(self)@.push(
                RowModel {
                    long_url: long_url@,
                    short_code: short_code@,
                    created_at: old(self).stamp(),
                },
            ) && final(self).stamp() == old(self).stamp() + 1,
    {
        match self.find_index(short_code) {
            Some(_) => InsertOutcome::Conflict,
            None => {
                if self.clock == u64::MAX {
                    InsertOutcome::Full
                } else {
                    let row = UrlMapping {
                        long_url: long_url.clone(),
                        short_code: short_code.clone(),
                        created_at: self.clock,
                    };
                    self.rows.push(row);
                    self.clock = self.clock + 1;
                    proof {
                        assert(self@ =~= old(self)@.push(
                            RowModel {
                                long_url: long_url@,
                                short_code: short_code@,
                                created_at: old(self).stamp(),
                            },
                        ));
                        let rows1 = self@;
                        let n = rows1.len() - 1;
                        assert(forall|i: int| 0 <= i < n ==> rows1[i] == old(self)@[i]);
                        assert(forall|i: int, j: int|
                            0 <= i < j < rows1.len() ==> (#[trigger] rows1[i].short_code) != (
                            #[trigger] rows1[j].short_code)) by {
                            assert(forall|i: int|
                                0 <= i < n ==> (#[trigger] rows1[i].short_code) != short_code@);
                        }
                    }
                    InsertOutcome::Inserted
                }
            },
        }
    }

    /// Delete the row carrying `code`, if any; reports whether one existed.
    pub fn delete(&mut self, code: &String) -> (deleted: bool)
        requires
            old(self).wf(),
        ensures
            final(self).wf(),
            deleted == has_code(old(self)@, code@),
            final(self)@ == remove_code(old(self)@, code@),
            final(self).stamp() == old(self).stamp(),
    {
        match self.find_index(code) {
            Some(i) => {
                proof {
                    lemma_remove_code_at(self@, code@, i as int);
                }
                self.rows.remove(i);
                proof {
                    assert(self@ =~= old(self)@.remove(i as int));
                    let rows1 = self@;
                    assert(forall|k: int|
                        0 <= k < rows1.len() ==> rows1[k] == if k < i as int {
                            old(self)@[k]
                        } else {
                            old(self)@[k + 1]
                        });
                }
                true
            },
            None => {
                proof {
                    lemma_remove_code_absent(self@, code@);
                }
                false
            },
        }
    }

    /// All rows, newest first (creation stamps strictly decreasing).
    pub fn list(&self) -> (r: Vec<UrlMapping>)
        requires
            self.wf(),
        ensures
            r@.map_values(|m: UrlMapping| m@) == self@.reverse(),
            forall|i: int, j: int|
                0 <= i < j < r@.len() ==> (#[trigger] r@[i]@.created_at) > (#[trigger] r@[j]@.created_at),
    {
        let n = self.rows.len();
        let mut r: Vec<UrlMapping> = Vec::new();
        let mut i = n;
        while i > 0
            invariant
                n == self.rows.len(),
                i <= n,
                r@.len() == n - i,
                forall|k: int| 0 <= k < r@.len() ==> #[trigger] r@[k]@ == self@[n - 1 - k],
            decreases i,
        {
            i = i - 1;
            assert(self@[i as int] == self.rows@[i as int]@);
            r.push(self.rows[i].clone());
        }
        proof {
            assert(r@.map_values(|m: UrlMapping| m@) =~= self@.reverse());
        }
        r
    }
}

/// When the first match for `code` stands at index `i`, removing every row
/// with `code` from a store with unique codes is removing the row at `i`.
proof fn lemma_remove_code_at(rows: Seq<RowModel>, code: Seq<char>, i: int)
    requires
        codes_unique(rows),
        0 <= i < rows.len(),
        rows[i].short_code == code,
    ensures
        remove_code(rows, code) == rows.remove(i),
    decreases rows.len(),
{
    if i == 0 {
        assert(!has_code(rows.drop_first(), code)) by {
            if has_code(rows.drop_first(), code) {
                let j = choose|j: int|
                    0 <= j < rows.drop_first().len() && #[trigger] rows.drop_first()[j].short_code == code;
                assert(rows[j + 1] == rows.drop_first()[j]);
            }
        }
        lemma_remove_code_absent(rows.drop_first(), code);
        assert(rows.remove(0) =~= rows.drop_first());
    } else {
        assert(forall|p: int, q: int|
            0 <= p < q < rows.drop_first().len() ==> (#[trigger] rows.drop_first()[p].short_code) != (#[trigger] rows.drop_first()[q].short_code)) by {
            assert(forall|p: int|
                0 <= p < rows.drop_first().len() ==> #[trigger] rows.drop_first()[p] == rows[p
                    + 1]);
        }
        assert(rows.drop_first()[i - 1] == rows[i]);
        lemma_remove_code_at(rows.drop_first(), code, i - 1);
        assert(rows[0].short_code != code);
        assert(remove_code(rows, code) == seq![rows[0]] + rows.drop_first().remove(i - 1));
        assert(seq![rows[0]] + rows.drop_first().remove(i - 1) =~= rows.remove(i));
    }
}

/// Removing an absent code changes nothing.
pub proof fn lemma_remove_code_absent(rows: Seq<RowModel>, code: Seq<char>)
    requires
        !has_code(rows, code),
    ensures
        remove_code(rows, code) == rows,
    decreases rows.len(),
{
    if rows.len() > 0 {
        assert(rows[0].short_code != code);
        assert(!has_code(rows.drop_first(), code)) by {
            if has_code(rows.drop_first(), code) {
                let j = choose|j: int|
                    0 <= j < rows.drop_first().len() && #[trigger] rows.drop_first()[j].short_code == code;
                assert(rows[j + 1] == rows.drop_first()[j]);
            }
        }
        lemma_remove_code_absent(rows.drop_first(), code);
        assert(seq![rows[0]] + rows.drop_first() =~= rows);
    }
}

/// When codes are unique and row `i` carries `code`, the lookup finds
/// exactly that row.
proof fn lemma_lookup_at_index(rows: Seq<RowModel>, code: Seq<char>, i: int)
    requires
        0 <= i < rows.len(),
        rows[i].short_code == code,
        forall|j: int| 0 <= j < i ==> (#[trigger] rows[j].short_code) != code,
    ensures
        lookup(rows, code) == Some(rows[i]),
    decreases i,
{
    if i == 0 {
    } else {
        assert(rows.drop_first()[i - 1] == rows[i]);
        assert(forall|j: int|
            0 <= j < i - 1 ==> (#[trigger] rows.drop_first()[j].short_code) != code) by {
            assert(forall|j: int|
                0 <= j < i - 1 ==> #[trigger] rows.drop_first()[j] == rows[j + 1]);
        }
        lemma_lookup_at_index(rows.drop_first(), code, i - 1);
    }
}

} // verus!
