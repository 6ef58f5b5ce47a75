//! The generic CRUD engine: entity descriptors and the verified store
//! model its operations run against.
//!
//! [`SchemaTable`] is the compile-time entity-descriptor capability: per
//! entity type it fixes the table name, the column order, the primary-key
//! columns and the value/key extraction, and its proof obligations pin the
//! alignment invariants the whole engine depends on.
//!
//! [`DbTable`] is the reference model of one table: a sequence of rows
//! ranked by primary key, with the unique-key constraint as its invariant.
//! Each operation's contract states exactly the per-statement semantics the
//! backing SQL store is contracted to provide — windowed ordered selection
//! for `load`, single committed row for `insert`, the optimistic
//! check-then-apply for `update`, idempotent `delete` — so everything built
//! on the engine (pagination, sessions) is verified against them.

use vstd::prelude::*;

use crate::error::Error;
use crate::schema::UserInfo;
use crate::values::{
    cmp_key, key_lt, lemma_key_lt_asym, lemma_key_lt_irrefl, lemma_key_lt_trans, scalars, Cmp,
    SqlScalar, SqlValue,
};

verus! {

/// The entity-descriptor capability: static metadata mapping one entity
/// type onto one table, implemented once per entity type so that column
/// order, key order and bound-value order are statically aligned.
pub trait SchemaTable: Sized {
    /// The table the entity maps to, as a mathematical value.
    spec fn spec_table_name() -> Seq<char>;

    /// The declared columns, in bind order.
    spec fn spec_column_names() -> Seq<Seq<char>>;

    /// The primary-key columns, in key order.
    spec fn spec_key_attrs() -> Seq<Seq<char>>;

    /// The column values of one row, aligned with the declared columns.
    spec fn spec_values(&self) -> Seq<SqlScalar>;

    /// The primary-key values of one row, aligned with the key columns.
    spec fn spec_key(&self) -> Seq<SqlScalar>;

    /// Whether a raw result row has the declared arity and column shapes.
    spec fn spec_row_ok(row: Seq<SqlScalar>) -> bool;

    /// The descriptor invariants: at least one key column, and every key
    /// column is a declared column.
    proof fn descriptor_wf()
        ensures
            Self::spec_key_attrs().len() >= 1,
            forall|k: Seq<char>|
                Self::spec_key_attrs().contains(k) ==> Self::spec_column_names().contains(k),
    ;

    /// Value/key alignment for every instance.
    proof fn instance_wf(&self)
        ensures
            self.spec_values().len() == Self::spec_column_names().len(),
            self.spec_key().len() == Self::spec_key_attrs().len(),
            Self::spec_row_ok(self.spec_values()),
    ;

    /// The key is extracted from the columns, so equal rows carry equal
    /// keys.
    proof fn key_of_values(a: &Self, b: &Self)
        requires
            a.spec_values() == b.spec_values(),
        ensures
            a.spec_key() == b.spec_key(),
    ;

    /// The table name; constant, never derived from request payloads.
    fn table_name() -> (r: &'static str)
        ensures
            r@ == Self::spec_table_name(),
    ;

    /// The declared columns, in the positional bind order used everywhere.
    fn column_names() -> (r: Vec<&'static str>)
        ensures
            names(r@) == Self::spec_column_names(),
    ;

    /// The primary-key columns, a non-empty subset of the declared columns.
    fn key_attrs() -> (r: Vec<&'static str>)
        ensures
            names(r@) == Self::spec_key_attrs(),
    ;

    /// The bound values of this row, aligned 1:1 with the declared columns.
    fn values(&self) -> (r: Vec<SqlValue>)
        ensures
            scalars(r@) == self.spec_values(),
    ;

    /// The bound key values of this row, aligned 1:1 with the key columns.
    fn key_attr_values(&self) -> (r: Vec<SqlValue>)
        ensures
            scalars(r@) == self.spec_key(),
    ;

    /// A column-for-column duplicate of this row, as handed out by queries.
    fn dup(&self) -> (r: Self)
        ensures
            r.spec_values() == self.spec_values(),
            r.spec_key() == self.spec_key(),
    ;

    /// Materializes an entity from a raw result row, deserializing every
    /// declared column; a missing or mistyped column is rejected.
    fn from_row(row: &Vec<SqlValue>) -> (r: Result<Self, Error>)
        ensures
            r is Ok <==> Self::spec_row_ok(scalars(row@)),
            match r {
                Ok(e) => e.spec_values() == scalars(row@),
                Err(e) => e is DeserializationError,
            },
    ;
}

/// The views of a sequence of column names.
pub open spec fn names(v: Seq<&str>) -> Seq<Seq<char>> {
    Seq::new(v.len(), |i: int| v[i]@)
}

/// The column values of each row in a sequence of rows.
pub open spec fn row_values<T: SchemaTable>(s: Seq<T>) -> Seq<Seq<SqlScalar>> {
    Seq::new(s.len(), |i: int| s[i].spec_values())
}

/// The key values of each row in a sequence of rows.
pub open spec fn row_keys<T: SchemaTable>(s: Seq<T>) -> Seq<Seq<SqlScalar>> {
    Seq::new(s.len(), |i: int| s[i].spec_key())
}

/// Rows ranked strictly ascending by primary key: the order `load` windows
/// over, and strictness is exactly the unique-key constraint.
pub open spec fn sorted_keys<T: SchemaTable>(s: Seq<T>) -> bool {
    forall|i: int, j: int|
        0 <= i < j < s.len() ==> #[trigger] key_lt(s[i].spec_key(), s[j].spec_key())
}

/// Whether some row of `s` carries the key `k`.
pub open spec fn has_key<T: SchemaTable>(s: Seq<T>, k: Seq<SqlScalar>) -> bool {
    exists|i: int| 0 <= i < s.len() && (#[trigger] s[i].spec_key()) == k
}

/// The index of the first row of `s` carrying the key `k` (the only one,
/// when the keys of `s` are unique).
pub open spec fn key_index<T: SchemaTable>(s: Seq<T>, k: Seq<SqlScalar>) -> int
    decreases s.len(),
{
    if s.len() == 0 {
        0
    } else if s[0].spec_key() == k {
        0
    } else {
        1 + key_index(s.drop_first(), k)
    }
}

/// How many rows of `s` rank strictly below the key `k`: the rank at which
/// a row keyed `k` is inserted.
pub open spec fn below_count<T: SchemaTable>(s: Seq<T>, k: Seq<SqlScalar>) -> int
    decreases s.len(),
{
    if s.len() == 0 {
        0
    } else {
        below_count(s.drop_last(), k) + if key_lt(s.last().spec_key(), k) {
            1int
        } else {
            0int
        }
    }
}

/// The rows of `s` whose 1-based rank falls in the closed range
/// `[start, end]`, clamped to the table: the windowed ordered selection
/// `load` is specified by.
pub open spec fn rank_window<T: SchemaTable>(s: Seq<T>, start: int, end: int) -> Seq<T> {
    let lo = if start < 1 {
        0int
    } else {
        start - 1
    };
    let hi = if end > s.len() {
        s.len() as int
    } else {
        end
    };
    if lo <= hi {
        s.subrange(lo, hi)
    } else {
        Seq::empty()
    }
}

/// The reference model of one table: the rows the backing store holds,
/// ranked by primary key.  All engine operations are verified against this
/// model; the wire protocol that replays them onto the external store is
/// glue outside the core.
pub struct DbTable<T: SchemaTable> {
    rows: Vec<T>,
}

impl<T: SchemaTable> DbTable<T> {
    /// The rows, in key rank order.
    pub closed spec fn spec_rows(&self) -> Seq<T> {
        self.rows@
    }

    /// The table invariant: rows strictly ascending by key, hence keys
    /// unique.
    pub open spec fn wf(&self) -> bool {
        sorted_keys(self.spec_rows())
    }

    /// An empty table.
    pub fn new() -> (t: Self)
        ensures
            t.wf(),
            t.spec_rows() == Seq::<T>::empty(),
    {
        let t = DbTable { rows: Vec::new() };
        proof {
            assert(t.spec_rows() =~= Seq::<T>::empty());
        }
        t
    }
}

/// `SELECT COUNT(*)`: the number of rows the table holds.  An empty table
/// simply counts zero; no error path is reachable in the model.
pub fn count_rows<T: SchemaTable>(table: &DbTable<T>) -> (r: Result<usize, Error>)
    ensures
        table.spec_rows().len() <= usize::MAX,
        r == Ok::<usize, Error>(table.spec_rows().len() as usize),
{
    Ok(table.rows.len())
}

/// Windowed ordered selection: the rows whose 1-based rank under the
/// primary-key order falls in the closed range `[record_start, record_end]`,
/// duplicated column-for-column, in ascending key order.
pub fn load_data<T: SchemaTable>(table: &DbTable<T>, record_start: usize, record_end: usize) -> (r:
    Result<Vec<T>, Error>)
    requires
        table.wf(),
    ensures
        match r {
            Ok(v) => {
                let w = rank_window(table.spec_rows(), record_start as int, record_end as int);
                row_values(v@) == row_values(w) && row_keys(v@) == row_keys(w)
            },
            Err(_) => false,
        },
{
    let ghost w = rank_window(table.spec_rows(), record_start as int, record_end as int);
    let mut out: Vec<T> = Vec::new();
    let n: usize = table.rows.len();
    let lo: usize = if record_start < 1 {
        0
    } else {
        record_start - 1
    };
    let hi: usize = if record_end > n {
        n
    } else {
        record_end
    };
    if lo >= hi {
        proof {
            assert(row_values(out@) =~= row_values(w));
            assert(row_keys(out@) =~= row_keys(w));
        }
        return Ok(out);
    }
    let mut i: usize = lo;
    while i < hi
        invariant
            lo <= i <= hi <= n,
            n == table.spec_rows().len(),
            w == table.spec_rows().subrange(lo as int, hi as int),
            out@.len() == i - lo,
            forall|j: int|
                0 <= j < out@.len() ==> #[trigger] out@[j].spec_values() == table.spec_rows()[lo
                    + j].spec_values(),
            forall|j: int|
                0 <= j < out@.len() ==> #[trigger] out@[j].spec_key() == table.spec_rows()[lo
                    + j].spec_key(),
        decreases hi - i,
    {
        let row = &table.rows[i];
        out.push(row.dup());
        i = i + 1;
    }
    proof {
        assert(row_values(out@) =~= row_values(w));
        assert(row_keys(out@) =~= row_keys(w));
    }
    Ok(out)
}

/// In a key-ranked sequence split by `pos` — everything before ranking
/// below `k`, nothing from `pos` on ranking below it — exactly `pos` rows
/// rank below `k`.
proof fn lemma_below_count_split<T: SchemaTable>(s: Seq<T>, k: Seq<SqlScalar>, pos: int)
    requires
        0 <= pos <= s.len(),
        forall|j: int| 0 <= j < pos ==> key_lt(#[trigger] s[j].spec_key(), k),
        forall|j: int| pos <= j < s.len() ==> !key_lt(#[trigger] s[j].spec_key(), k),
    ensures
        below_count(s, k) == pos,
    decreases s.len(),
{
    if s.len() > 0 {
        let d = s.drop_last();
        assert(forall|j: int| 0 <= j < d.len() ==> d[j] == s[j]);
        if pos == s.len() {
            lemma_below_count_split(d, k, pos - 1);
        } else {
            lemma_below_count_split(d, k, pos);
        }
    }
}

/// The first row carrying key `k` sits exactly where a witness says it
/// does, provided no earlier row carries `k`.
proof fn lemma_key_index_at<T: SchemaTable>(s: Seq<T>, k: Seq<SqlScalar>, pos: int)
    requires
        0 <= pos < s.len(),
        s[pos].spec_key() == k,
        forall|j: int| 0 <= j < pos ==> (#[trigger] s[j].spec_key()) != k,
    ensures
        key_index(s, k) == pos,
        has_key(s, k),
    decreases pos,
{
    if pos == 0 {
    } else {
        let d = s.drop_first();
        assert(forall|j: int| 0 <= j < d.len() ==> d[j] == s[j + 1]);
        assert(d[pos - 1].spec_key() == k);
        lemma_key_index_at(d, k, pos - 1);
    }
}

/// One pass over a key-ranked row sequence: the rank of the first row not
/// below `key`, and whether that row carries exactly `key`.
fn scan_key<T: SchemaTable>(rows: &Vec<T>, key: &Vec<SqlValue>) -> (r: (usize, bool))
    requires
        sorted_keys(rows@),
    ensures
        0 <= r.0 <= rows@.len(),
        forall|j: int| 0 <= j < r.0 ==> key_lt(#[trigger] rows@[j].spec_key(), scalars(key@)),
        r.1 ==> r.0 < rows@.len() && rows@[r.0 as int].spec_key() == scalars(key@),
        !r.1 ==> r.0 == rows@.len() || key_lt(scalars(key@), rows@[r.0 as int].spec_key()),
        r.1 == has_key(rows@, scalars(key@)),
        r.1 ==> key_index(rows@, scalars(key@)) == r.0,
        below_count(rows@, scalars(key@)) == r.0,
{
    let ghost k = scalars(key@);
    let n: usize = rows.len();
    let mut i: usize = 0;
    let mut found: bool = false;
    let mut done: bool = false;
    while !done && i < n
        invariant
            0 <= i <= n,
            n == rows@.len(),
            sorted_keys(rows@),
            k == scalars(key@),
            forall|j: int| 0 <= j < i ==> key_lt(#[trigger] rows@[j].spec_key(), k),
            found ==> done,
            found ==> i < n && rows@[i as int].spec_key() == k,
            done && !found ==> i < n && key_lt(k, rows@[i as int].spec_key()),
        decreases
                n - i,
                (if done {
                    0int
                } else {
                    1int
                }),
    {
        let row_key = rows[i].key_attr_values();
        match cmp_key(&row_key, key) {
            Cmp::Lt => {
                i = i + 1;
            },
            Cmp::Eq => {
                found = true;
                done = true;
            },
            Cmp::Gt => {
                done = true;
            },
        }
    }
    proof {
        let s = rows@;
        if found {
            assert(s[i as int].spec_key() == k);
            assert forall|j: int| 0 <= j < i implies (#[trigger] s[j].spec_key()) != k by {
                lemma_key_lt_irrefl(k);
            };
            lemma_key_index_at(s, k, i as int);
            assert forall|j: int| i <= j < s.len() implies !key_lt(
                #[trigger] s[j].spec_key(),
                k,
            ) by {
                if j == i {
                    lemma_key_lt_irrefl(k);
                } else {
                    assert(key_lt(s[i as int].spec_key(), s[j].spec_key()));
                    lemma_key_lt_asym(s[j].spec_key(), k, 0);
                }
            };
            lemma_below_count_split(s, k, i as int);
        } else {
            // either the scan ran off the end, or it stopped strictly above
            assert(i == s.len() || key_lt(k, s[i as int].spec_key()));
            assert forall|j: int| i <= j < s.len() implies !key_lt(
                #[trigger] s[j].spec_key(),
                k,
            ) by {
                if j > i {
                    assert(key_lt(s[i as int].spec_key(), s[j].spec_key()));
                    lemma_key_lt_trans(k, s[i as int].spec_key(), s[j].spec_key(), 0);
                }
                lemma_key_lt_asym(s[j].spec_key(), k, 0);
            };
            lemma_below_count_split(s, k, i as int);
            if has_key(s, k) {
                let w = choose|w: int| 0 <= w < s.len() && (#[trigger] s[w].spec_key()) == k;
                if w < i {
                    lemma_key_lt_irrefl(k);
                }
                assert(false);
            }
        }
    }
    (i, found)
}

/// `INSERT INTO ... VALUES (...)`, committed as one unit: either exactly
/// the new row joins the table at its key rank, or the unique-key
/// constraint rejects the write and the table is unchanged — no partial
/// insert is observable.
pub fn insert_data<T: SchemaTable>(table: &mut DbTable<T>, table_entity: &T) -> (r: Result<
    (),
    Error,
>)
    requires
        old(table).wf(),
    ensures
        final(table).wf(),
        has_key(old(table).spec_rows(), table_entity.spec_key()) ==> final(table).spec_rows()
            == old(table).spec_rows() && match r {
            Err(Error::ConstraintViolation { table_name }) => table_name@
                == T::spec_table_name(),
            _ => false,
        },
        !has_key(old(table).spec_rows(), table_entity.spec_key()) ==> r is Ok && {
            let pos = below_count(old(table).spec_rows(), table_entity.spec_key());
            &&& row_values(final(table).spec_rows()) == row_values(old(table).spec_rows()).insert(
                pos,
                table_entity.spec_values(),
            )
            &&& row_keys(final(table).spec_rows()) == row_keys(old(table).spec_rows()).insert(
                pos,
                table_entity.spec_key(),
            )
        },
{
    let ghost s_old = table.spec_rows();
    let ghost k = table_entity.spec_key();
    let key = table_entity.key_attr_values();
    let (pos, found) = scan_key(&table.rows, &key);
    if found {
        return Err(Error::ConstraintViolation { table_name: T::table_name().to_owned() });
    }
    let fresh = table_entity.dup();
    table.rows.insert(pos, fresh);
    proof {
        let s_new = table.spec_rows();
        let p = pos as int;
        assert(s_new == s_old.insert(p, fresh));
        assert(s_new.len() == s_old.len() + 1);
        assert forall|i: int| 0 <= i < p implies s_new[i] == s_old[i] by {
            assert(s_new[i] == s_old.insert(p, fresh)[i]);
        };
        assert forall|i: int| p < i < s_new.len() implies s_new[i] == s_old[i - 1] by {
            assert(s_new[i] == s_old.insert(p, fresh)[i]);
        };
        assert(s_new[p] == fresh);
        assert forall|a: int, b: int| 0 <= a < b < s_new.len() implies #[trigger] key_lt(
            s_new[a].spec_key(),
            s_new[b].spec_key(),
        ) by {
            if b < p {
                assert(key_lt(s_old[a].spec_key(), s_old[b].spec_key()));
            } else if a < p && b == p {
                assert(key_lt(s_old[a].spec_key(), k));
            } else if a < p && b > p {
                assert(key_lt(s_old[a].spec_key(), s_old[b - 1].spec_key()));
            } else if a == p && b > p {
                if b - 1 > p {
                    assert(key_lt(s_old[p].spec_key(), s_old[b - 1].spec_key()));
                    lemma_key_lt_trans(k, s_old[p].spec_key(), s_old[b - 1].spec_key(), 0);
                }
            } else {
                assert(key_lt(s_old[a - 1].spec_key(), s_old[b - 1].spec_key()));
            }
        };
        assert(row_values(s_new) =~= row_values(s_old).insert(
            p,
            table_entity.spec_values(),
        ));
        assert(row_keys(s_new) =~= row_keys(s_old).insert(p, k));
    }
    Ok(())
}

/// Removing one row from a key-ranked sequence leaves it key-ranked, and
/// removes the only carrier of its key.
proof fn lemma_remove_sorted<T: SchemaTable>(s: Seq<T>, p: int)
    requires
        sorted_keys(s),
        0 <= p < s.len(),
    ensures
        sorted_keys(s.remove(p)),
        !has_key(s.remove(p), s[p].spec_key()),
        forall|k: Seq<SqlScalar>|
            k != s[p].spec_key() ==> #[trigger] has_key(s.remove(p), k) == has_key(s, k),
{
    let m = s.remove(p);
    assert forall|i: int| 0 <= i < p implies m[i] == s[i] by {
        assert(m[i] == s.remove(p)[i]);
    };
    assert forall|i: int| p <= i < m.len() implies m[i] == s[i + 1] by {
        assert(m[i] == s.remove(p)[i]);
    };
    assert forall|a: int, b: int| 0 <= a < b < m.len() implies #[trigger] key_lt(
        m[a].spec_key(),
        m[b].spec_key(),
    ) by {
        if b < p {
            assert(key_lt(s[a].spec_key(), s[b].spec_key()));
        } else if a < p {
            assert(key_lt(s[a].spec_key(), s[b + 1].spec_key()));
        } else {
            assert(key_lt(s[a + 1].spec_key(), s[b + 1].spec_key()));
        }
    };
    assert forall|i: int| 0 <= i < m.len() implies (#[trigger] m[i].spec_key())
        != s[p].spec_key() by {
        if i < p {
            assert(key_lt(s[i].spec_key(), s[p].spec_key()));
            lemma_key_lt_irrefl(s[p].spec_key());
        } else {
            assert(key_lt(s[p].spec_key(), s[i + 1].spec_key()));
            lemma_key_lt_irrefl(s[p].spec_key());
        }
    };
    assert forall|k: Seq<SqlScalar>| k != s[p].spec_key() implies #[trigger] has_key(m, k)
        == has_key(s, k) by {
        if has_key(m, k) {
            let w = choose|w: int| 0 <= w < m.len() && (#[trigger] m[w].spec_key()) == k;
            if w < p {
                assert(s[w].spec_key() == k);
            } else {
                assert(s[w + 1].spec_key() == k);
            }
        }
        if has_key(s, k) {
            let w = choose|w: int| 0 <= w < s.len() && (#[trigger] s[w].spec_key()) == k;
            if w < p {
                assert(m[w].spec_key() == k);
            } else {
                assert(w != p);
                assert(m[w - 1].spec_key() == k);
            }
        }
    };
}

/// Phase one of the optimistic update: whether a row carrying exactly the
/// entity's key exists right now.
fn check_data_key_exists<T: SchemaTable>(table: &DbTable<T>, table_entity: &T) -> (r: Result<
    bool,
    Error,
>)
    requires
        table.wf(),
    ensures
        r == Ok::<bool, Error>(has_key(table.spec_rows(), table_entity.spec_key())),
{
    let key = table_entity.key_attr_values();
    let (_pos, found) = scan_key(&table.rows, &key);
    Ok(found)
}

/// `DELETE ... WHERE` the primary key matches, committed as one unit.
/// There is no pre-existence check: deleting an absent key is a no-op
/// success, so the operation is idempotent.
pub fn delete_data<T: SchemaTable>(table: &mut DbTable<T>, table_entity: &T) -> (r: Result<
    (),
    Error,
>)
    requires
        old(table).wf(),
    ensures
        final(table).wf(),
        r is Ok,
        has_key(old(table).spec_rows(), table_entity.spec_key()) ==> final(table).spec_rows()
            == old(table).spec_rows().remove(
            key_index(old(table).spec_rows(), table_entity.spec_key()),
        ),
        !has_key(old(table).spec_rows(), table_entity.spec_key()) ==> final(table).spec_rows()
            == old(table).spec_rows(),
        !has_key(final(table).spec_rows(), table_entity.spec_key()),
{
    let ghost s_old = table.spec_rows();
    let ghost k = table_entity.spec_key();
    let key = table_entity.key_attr_values();
    let (pos, found) = scan_key(&table.rows, &key);
    if found {
        let _removed = table.rows.remove(pos);
        proof {
            lemma_remove_sorted(s_old, pos as int);
        }
    }
    Ok(())
}

/// `UPDATE ... SET` every declared column `WHERE` the primary key equals
/// the caller's last-known key, in the two documented phases: an
/// existence check guarding against a concurrently deleted or re-keyed
/// row, then the applied write.  (Between the two phases the original
/// design holds no lock; in this per-statement model the phases are
/// adjacent, which is the strongest reading of that contract.)  The
/// updated row takes the rank of its possibly-changed key; a new key that
/// collides with a different row is rejected by the unique-key constraint
/// with no mutation.
pub fn update_data<T: SchemaTable>(
    table: &mut DbTable<T>,
    table_entity_old: &T,
    table_entity_new: &T,
) -> (r: Result<(), Error>)
    requires
        old(table).wf(),
    ensures
        final(table).wf(),
        !has_key(old(table).spec_rows(), table_entity_old.spec_key()) ==> final(table).spec_rows()
            == old(table).spec_rows() && match r {
            Err(Error::KeyNotFound { table_name }) => table_name@ == T::spec_table_name(),
            _ => false,
        },
        has_key(old(table).spec_rows(), table_entity_old.spec_key())
            && table_entity_new.spec_key() != table_entity_old.spec_key() && has_key(
            old(table).spec_rows(),
            table_entity_new.spec_key(),
        ) ==> final(table).spec_rows() == old(table).spec_rows() && match r {
            Err(Error::ConstraintViolation { table_name }) => table_name@
                == T::spec_table_name(),
            _ => false,
        },
        has_key(old(table).spec_rows(), table_entity_old.spec_key()) && (
        table_entity_new.spec_key() == table_entity_old.spec_key() || !has_key(
            old(table).spec_rows(),
            table_entity_new.spec_key(),
        )) ==> r is Ok && {
            let mid = old(table).spec_rows().remove(
                key_index(old(table).spec_rows(), table_entity_old.spec_key()),
            );
            let pos = below_count(mid, table_entity_new.spec_key());
            &&& row_values(final(table).spec_rows()) == row_values(mid).insert(
                pos,
                table_entity_new.spec_values(),
            )
            &&& row_keys(final(table).spec_rows()) == row_keys(mid).insert(
                pos,
                table_entity_new.spec_key(),
            )
        },
{
    let ghost s_old = table.spec_rows();
    let ghost old_k = table_entity_old.spec_key();
    let ghost new_k = table_entity_new.spec_key();
    // first check whether an item with the old key exists, and refuse the
    // update when it does not
    let exists_old = match check_data_key_exists(table, table_entity_old) {
        Ok(b) => b,
        Err(e) => {
            proof {
                assert(false);
            }
            return Err(e);
        },
    };
    if !exists_old {
        return Err(Error::KeyNotFound { table_name: T::table_name().to_owned() });
    }
    let old_key = table_entity_old.key_attr_values();
    let new_key = table_entity_new.key_attr_values();
    let same_key = match cmp_key(&new_key, &old_key) {
        Cmp::Eq => true,
        Cmp::Lt => {
            proof {
                lemma_key_lt_irrefl(new_k);
            }
            false
        },
        Cmp::Gt => {
            proof {
                lemma_key_lt_irrefl(new_k);
            }
            false
        },
    };
    if !same_key {
        let clash = match check_data_key_exists(table, table_entity_new) {
            Ok(b) => b,
            Err(e) => {
                proof {
                    assert(false);
                }
                return Err(e);
            },
        };
        if clash {
            return Err(Error::ConstraintViolation { table_name: T::table_name().to_owned() });
        }
    }
    let (pos, found) = scan_key(&table.rows, &old_key);
    proof {
        assert(found);
    }
    let _old_row = table.rows.remove(pos);
    proof {
        lemma_remove_sorted(s_old, pos as int);
        assert(!has_key(table.spec_rows(), new_k));
    }
    match insert_data(table, table_entity_new) {
        Ok(u) => Ok(u),
        Err(e) => {
            proof {
                assert(false);
            }
            Err(e)
        },
    }
}

/// Looks one user record up by the probe's username — its primary key;
/// the probe's other columns are ignored.  Exactly the record with that
/// key is returned, column for column, or `None` when no such user
/// exists.
pub fn get_user(table: &DbTable<UserInfo>, user: &UserInfo) -> (r: Result<Option<UserInfo>, Error>)
    requires
        table.wf(),
    ensures
        match r {
            Ok(found) => match found {
                Some(u) => has_key(table.spec_rows(), user.spec_key()) && u.spec_key()
                    == user.spec_key() && u.spec_values() == table.spec_rows()[key_index(
                    table.spec_rows(),
                    user.spec_key(),
                )].spec_values(),
                None => !has_key(table.spec_rows(), user.spec_key()),
            },
            Err(_) => false,
        },
{
    let key = user.key_attr_values();
    let (pos, found) = scan_key(&table.rows, &key);
    if found {
        let u = table.rows[pos].dup();
        proof {
            UserInfo::key_of_values(&u, &table.spec_rows()[pos as int]);
        }
        Ok(Some(u))
    } else {
        Ok(None)
    }
}

/// A same-key update leaves every row in place: removing the keyed row
/// and reinserting a row with the same key puts it back at the same rank,
/// so the whole operation is an in-place value update.
pub proof fn lemma_same_key_update<T: SchemaTable>(s: Seq<T>, k: Seq<SqlScalar>, v: Seq<SqlScalar>)
    requires
        sorted_keys(s),
        has_key(s, k),
    ensures
        ({
            let p = key_index(s, k);
            let mid = s.remove(p);
            &&& below_count(mid, k) == p
            &&& row_values(mid).insert(p, v) == row_values(s).update(p, v)
            &&& row_keys(mid).insert(p, k) == row_keys(s)
        }),
{
    let p = key_index(s, k);
    lemma_key_index_props(s, k);
    let mid = s.remove(p);
    assert forall|i: int| 0 <= i < p implies mid[i] == s[i] by {
        assert(mid[i] == s.remove(p)[i]);
    };
    assert forall|i: int| p <= i < mid.len() implies mid[i] == s[i + 1] by {
        assert(mid[i] == s.remove(p)[i]);
    };
    assert forall|j: int| 0 <= j < p implies key_lt(#[trigger] mid[j].spec_key(), k) by {
        assert(key_lt(s[j].spec_key(), s[p].spec_key()));
    };
    assert forall|j: int| p <= j < mid.len() implies !key_lt(#[trigger] mid[j].spec_key(), k) by {
        assert(key_lt(s[p].spec_key(), s[j + 1].spec_key()));
        lemma_key_lt_asym(mid[j].spec_key(), k, 0);
    };
    lemma_below_count_split(mid, k, p);
    assert(row_values(mid).insert(p, v) =~= row_values(s).update(p, v));
    assert(row_keys(mid).insert(p, k) =~= row_keys(s));
}

/// Where the first row carrying key `k` stands, when one does.
pub proof fn lemma_key_index_props<T: SchemaTable>(s: Seq<T>, k: Seq<SqlScalar>)
    requires
        has_key(s, k),
    ensures
        0 <= key_index(s, k) < s.len(),
        s[key_index(s, k)].spec_key() == k,
    decreases s.len(),
{
    if s[0].spec_key() == k {
    } else {
        let d = s.drop_first();
        assert(forall|j: int| 0 <= j < d.len() ==> d[j] == s[j + 1]);
        let w = choose|w: int| 0 <= w < s.len() && (#[trigger] s[w].spec_key()) == k;
        assert(d[w - 1].spec_key() == k);
        lemma_key_index_props(d, k);
    }
}

/// The rows whose 1-based rank falls on page `page` of size `size`, under
/// the pagination contract `lower = (page-1)*size + 1`,
/// `upper = page*size`.
pub open spec fn page_window<T: SchemaTable>(s: Seq<T>, size: int, page: int) -> Seq<T> {
    rank_window(s, (page - 1) * size + 1, page * size)
}

/// Pages `1..=p`, in order, as one sequence.
pub open spec fn pages_concat<T: SchemaTable>(s: Seq<T>, size: int, p: int) -> Seq<T>
    decreases p,
{
    if p <= 0 {
        Seq::empty()
    } else {
        pages_concat(s, size, p - 1) + page_window(s, size, p)
    }
}

/// Pages `1..=p` are exactly the first `min(p*size, N)` ranked rows.
proof fn lemma_pages_prefix<T: SchemaTable>(s: Seq<T>, size: int, p: int)
    requires
        size >= 1,
        p >= 0,
    ensures
        pages_concat(s, size, p) == s.subrange(
            0,
            if p * size > s.len() {
                s.len() as int
            } else {
                p * size
            },
        ),
    decreases p,
{
    let n = s.len() as int;
    if p == 0 {
        assert(pages_concat(s, size, 0) =~= s.subrange(0, 0));
    } else {
        lemma_pages_prefix(s, size, p - 1);
        assert((p - 1) * size + size == p * size) by (nonlinear_arith);
        assert((p - 1) * size >= 0) by (nonlinear_arith)
            requires
                p >= 1,
                size >= 1,
        ;
        let prev = if (p - 1) * size > n {
            n
        } else {
            (p - 1) * size
        };
        let cur = if p * size > n {
            n
        } else {
            p * size
        };
        assert(pages_concat(s, size, p) == s.subrange(0, prev) + page_window(s, size, p));
        assert(page_window(s, size, p) == rank_window(s, (p - 1) * size + 1, p * size));
        assert(rank_window(s, (p - 1) * size + 1, p * size) =~= s.subrange(prev, cur));
        assert(s.subrange(0, prev) + s.subrange(prev, cur) =~= s.subrange(0, cur));
    }
}

/// Pagination coverage: over a table of `N` key-ranked rows, the pages
/// `1..=p` of size `size` — each page the window of ranks
/// `(page-1)*size+1 ..= page*size` — together are exactly the table's rows,
/// each exactly once, in ascending primary-key order, as soon as
/// `p*size >= N` (that is, `p >= ceil(N/size)`).
pub proof fn lemma_pagination_coverage<T: SchemaTable>(s: Seq<T>, size: int, p: int)
    requires
        size >= 1,
        p >= 0,
        p * size >= s.len(),
    ensures
        pages_concat(s, size, p) == s,
{
    lemma_pages_prefix(s, size, p);
    assert(s.subrange(0, s.len() as int) =~= s);
}

/// Round trip: a row inserted into a key-ranked table (as
/// [`insert_data`] ensures on success) is found again by any lookup that
/// includes its key — the table holds, at that key's index, exactly the
/// inserted column values.
pub proof fn lemma_insert_round_trip<T: SchemaTable>(before: Seq<T>, after: Seq<T>, x: T)
    requires
        sorted_keys(before),
        !has_key(before, x.spec_key()),
        row_values(after) == row_values(before).insert(
            below_count(before, x.spec_key()),
            x.spec_values(),
        ),
        row_keys(after) == row_keys(before).insert(
            below_count(before, x.spec_key()),
            x.spec_key(),
        ),
        0 <= below_count(before, x.spec_key()) <= before.len(),
    ensures
        has_key(after, x.spec_key()),
        key_index(after, x.spec_key()) == below_count(before, x.spec_key()),
        after[key_index(after, x.spec_key())].spec_values() == x.spec_values(),
{
    let k = x.spec_key();
    let p = below_count(before, k);
    row_values(before).insert_ensures(p, x.spec_values());
    row_keys(before).insert_ensures(p, k);
    assert(after.len() == row_values(after).len());
    assert(after.len() == before.len() + 1);
    assert(after[p].spec_key() == row_keys(after)[p]);
    assert(row_keys(before).insert(p, k)[p] == k);
    assert forall|j: int| 0 <= j < p implies (#[trigger] after[j].spec_key()) != k by {
        assert(after[j].spec_key() == row_keys(before).insert(p, k)[j]);
        assert(row_keys(before).insert(p, k)[j] == before[j].spec_key());
    };
    lemma_key_index_at(after, k, p);
    assert(after[p].spec_values() == row_values(before).insert(p, x.spec_values())[p]);
}

/// What one `delete` leaves behind: the table without the keyed row, or
/// the table itself when the key is absent.
pub open spec fn delete_result<T: SchemaTable>(s: Seq<T>, k: Seq<SqlScalar>) -> Seq<T> {
    if has_key(s, k) {
        s.remove(key_index(s, k))
    } else {
        s
    }
}

/// Idempotent delete: one delete removes the key entirely, so deleting
/// the same key again changes nothing — both calls succeed, and a
/// subsequent lookup finds nothing (see [`delete_data`], whose success is
/// unconditional).
pub proof fn lemma_delete_idempotent<T: SchemaTable>(s: Seq<T>, k: Seq<SqlScalar>)
    requires
        sorted_keys(s),
    ensures
        sorted_keys(delete_result(s, k)),
        !has_key(delete_result(s, k), k),
        delete_result(delete_result(s, k), k) == delete_result(s, k),
{
    if has_key(s, k) {
        lemma_key_index_props(s, k);
        lemma_remove_sorted(s, key_index(s, k));
    }
}

} // verus!
