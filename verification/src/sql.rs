//! The SQL statements the engine issues, generated from entity
//! descriptors and proved to be exactly the specified text.
//!
//! Every identifier in a generated statement — table name, column name,
//! key column — originates from a compiled [`SchemaTable`] descriptor,
//! never from a request payload; everything request-controlled travels as
//! a positional bind (`:1`, `:2`, ...), in the descriptor's column order.
//! The boundary that owns the wire connection executes these statements;
//! their per-statement semantics are the contracts of
//! [`crate::database_operations`].

use vstd::prelude::*;

use crate::database_operations::{names, SchemaTable};

verus! {

/// One decimal digit.
pub open spec fn spec_digit(d: int) -> Seq<char> {
    if d == 0 {
        "0"@
    } else if d == 1 {
        "1"@
    } else if d == 2 {
        "2"@
    } else if d == 3 {
        "3"@
    } else if d == 4 {
        "4"@
    } else if d == 5 {
        "5"@
    } else if d == 6 {
        "6"@
    } else if d == 7 {
        "7"@
    } else if d == 8 {
        "8"@
    } else {
        "9"@
    }
}

/// The decimal numeral of `n`.
pub open spec fn spec_digits(n: int) -> Seq<char>
    decreases n,
{
    if n < 10 {
        spec_digit(n)
    } else {
        spec_digits(n / 10) + spec_digit(n % 10)
    }
}

/// One positional bind marker, `:n`.
pub open spec fn spec_bind(n: int) -> Seq<char> {
    ":"@ + spec_digits(n)
}

/// The comma-separated bind markers `:lo,...,:hi`.
pub open spec fn spec_bind_list(lo: int, hi: int) -> Seq<char>
    decreases hi - lo,
{
    if lo > hi {
        Seq::empty()
    } else if lo == hi {
        spec_bind(lo)
    } else {
        spec_bind(lo) + ","@ + spec_bind_list(lo + 1, hi)
    }
}

/// The comma-separated identifiers `ns[i],...`, from position `i` on.
pub open spec fn spec_name_list(ns: Seq<Seq<char>>, i: int) -> Seq<char>
    decreases ns.len() - i,
{
    if i < 0 || i >= ns.len() {
        Seq::empty()
    } else if i == ns.len() - 1 {
        ns[i]
    } else {
        ns[i] + ","@ + spec_name_list(ns, i + 1)
    }
}

/// The `sep`-separated assignments `ns[i]=:offset+i+1,...`, from
/// position `i` on: each identifier bound to its positional marker.
pub open spec fn spec_eq_list(ns: Seq<Seq<char>>, i: int, offset: int, sep: Seq<char>) -> Seq<
    char,
>
    decreases ns.len() - i,
{
    if i < 0 || i >= ns.len() {
        Seq::empty()
    } else if i == ns.len() - 1 {
        ns[i] + "=:"@ + spec_digits(offset + i + 1)
    } else {
        ns[i] + "=:"@ + spec_digits(offset + i + 1) + sep + spec_eq_list(ns, i + 1, offset, sep)
    }
}

/// The committed single-row insertion, every declared column bound
/// positionally.
pub open spec fn spec_insert_sql<T: SchemaTable>() -> Seq<char> {
    "insert into "@ + T::spec_table_name() + " values ("@ + spec_bind_list(
        1,
        T::spec_column_names().len() as int,
    ) + ")"@
}

/// The table's row count.
pub open spec fn spec_count_sql<T: SchemaTable>() -> Seq<char> {
    "select count(*) from "@ + T::spec_table_name()
}

/// The windowed ordered selection: rows ranked by the key columns, the
/// rank bounds bound as `:1` and `:2`.
pub open spec fn spec_load_sql<T: SchemaTable>() -> Seq<char> {
    "select "@ + spec_name_list(T::spec_column_names(), 0)
        + " from (select c.*,rownum r from (select * from "@ + T::spec_table_name()
        + " order by "@ + spec_name_list(T::spec_key_attrs(), 0)
        + ") c) where r between :1 and :2"@
}

/// The keyed existence probe of the optimistic update's first phase.
pub open spec fn spec_exists_sql<T: SchemaTable>() -> Seq<char> {
    "select "@ + spec_name_list(T::spec_key_attrs(), 0) + " from "@ + T::spec_table_name()
        + " where "@ + spec_eq_list(T::spec_key_attrs(), 0, 0, " and "@)
}

/// The applied update: every declared column set from its bind, the key
/// columns matched from the binds after them.
pub open spec fn spec_update_sql<T: SchemaTable>() -> Seq<char> {
    "update "@ + T::spec_table_name() + " set "@ + spec_eq_list(T::spec_column_names(), 0, 0, ","@)
        + " where "@ + spec_eq_list(
        T::spec_key_attrs(),
        0,
        T::spec_column_names().len() as int,
        " and "@,
    )
}

/// The keyed deletion.
pub open spec fn spec_delete_sql<T: SchemaTable>() -> Seq<char> {
    "delete from "@ + T::spec_table_name() + " where "@ + spec_eq_list(
        T::spec_key_attrs(),
        0,
        0,
        " and "@,
    )
}

/// One decimal digit as text.
fn digit_str(d: u128) -> (r: &'static str)
    requires
        d < 10,
    ensures
        r@ == spec_digit(d as int),
{
    if d == 0 {
        "0"
    } else if d == 1 {
        "1"
    } else if d == 2 {
        "2"
    } else if d == 3 {
        "3"
    } else if d == 4 {
        "4"
    } else if d == 5 {
        "5"
    } else if d == 6 {
        "6"
    } else if d == 7 {
        "7"
    } else if d == 8 {
        "8"
    } else {
        "9"
    }
}

/// Appends the decimal numeral of `n`.
fn append_digits(out: &mut String, n: u128)
    ensures
        final(out)@ == old(out)@ + spec_digits(n as int),
    decreases n,
{
    let ghost prefix = out@;
    if n >= 10 {
        append_digits(out, n / 10);
    }
    out.append(digit_str(n % 10));
    proof {
        assert(out@ =~= prefix + spec_digits(n as int));
    }
}

/// Appends the bind markers `:lo,...,:hi`.
fn append_bind_list(out: &mut String, lo: u128, hi: u128)
    ensures
        final(out)@ == old(out)@ + spec_bind_list(lo as int, hi as int),
    decreases hi as int - lo as int,
{
    let ghost prefix = out@;
    if lo > hi {
        proof {
            assert(out@ =~= prefix + spec_bind_list(lo as int, hi as int));
        }
        return ;
    }
    out.append(":");
    append_digits(out, lo);
    if lo < hi {
        out.append(",");
        append_bind_list(out, lo + 1, hi);
    }
    proof {
        assert(out@ =~= prefix + spec_bind_list(lo as int, hi as int));
    }
}

/// Appends the comma-separated identifiers of `ns`, from `i` on.
fn append_name_list(out: &mut String, ns: &Vec<&str>, i: usize)
    requires
        i <= ns@.len(),
    ensures
        final(out)@ == old(out)@ + spec_name_list(names(ns@), i as int),
    decreases ns@.len() - i,
{
    let ghost prefix = out@;
    if i < ns.len() {
        out.append(ns[i]);
        if i + 1 < ns.len() {
            out.append(",");
            append_name_list(out, ns, i + 1);
        }
    }
    proof {
        assert(out@ =~= prefix + spec_name_list(names(ns@), i as int));
    }
}

/// Appends the `sep`-separated bound assignments of `ns`, from `i` on,
/// the markers numbered from `offset + i + 1`.
fn append_eq_list(out: &mut String, ns: &Vec<&str>, i: usize, offset: u128, sep: &str)
    requires
        i <= ns@.len(),
        offset <= u64::MAX as u128,
    ensures
        final(out)@ == old(out)@ + spec_eq_list(names(ns@), i as int, offset as int, sep@),
    decreases ns@.len() - i,
{
    let ghost prefix = out@;
    if i < ns.len() {
        out.append(ns[i]);
        out.append("=:");
        append_digits(out, offset + (i as u128) + 1);
        if i + 1 < ns.len() {
            out.append(sep);
            append_eq_list(out, ns, i + 1, offset, sep);
        }
    }
    proof {
        assert(out@ =~= prefix + spec_eq_list(names(ns@), i as int, offset as int, sep@));
    }
}

/// The insert statement for `T`, exactly as specified.
pub fn insert_sql<T: SchemaTable>() -> (r: String)
    ensures
        r@ == spec_insert_sql::<T>(),
{
    let mut out = String::new();
    out.append("insert into ");
    out.append(T::table_name());
    out.append(" values (");
    let cols = T::column_names();
    append_bind_list(&mut out, 1, cols.len() as u128);
    out.append(")");
    proof {
        assert(out@ =~= spec_insert_sql::<T>());
    }
    out
}

/// The count statement for `T`, exactly as specified.
pub fn count_sql<T: SchemaTable>() -> (r: String)
    ensures
        r@ == spec_count_sql::<T>(),
{
    let mut out = String::new();
    out.append("select count(*) from ");
    out.append(T::table_name());
    proof {
        assert(out@ =~= spec_count_sql::<T>());
    }
    out
}

/// The windowed load statement for `T`, exactly as specified.
pub fn load_sql<T: SchemaTable>() -> (r: String)
    ensures
        r@ == spec_load_sql::<T>(),
{
    let mut out = String::new();
    out.append("select ");
    let cols = T::column_names();
    append_name_list(&mut out, &cols, 0);
    out.append(" from (select c.*,rownum r from (select * from ");
    out.append(T::table_name());
    out.append(" order by ");
    let keys = T::key_attrs();
    append_name_list(&mut out, &keys, 0);
    out.append(") c) where r between :1 and :2");
    proof {
        assert(out@ =~= spec_load_sql::<T>());
    }
    out
}

/// The keyed existence probe for `T`, exactly as specified.
pub fn exists_sql<T: SchemaTable>() -> (r: String)
    ensures
        r@ == spec_exists_sql::<T>(),
{
    let mut out = String::new();
    out.append("select ");
    let keys = T::key_attrs();
    append_name_list(&mut out, &keys, 0);
    out.append(" from ");
    out.append(T::table_name());
    out.append(" where ");
    append_eq_list(&mut out, &keys, 0, 0, " and ");
    proof {
        assert(out@ =~= spec_exists_sql::<T>());
    }
    out
}

/// The update statement for `T`, exactly as specified.
pub fn update_sql<T: SchemaTable>() -> (r: String)
    ensures
        r@ == spec_update_sql::<T>(),
{
    let mut out = String::new();
    out.append("update ");
    out.append(T::table_name());
    out.append(" set ");
    let cols = T::column_names();
    append_eq_list(&mut out, &cols, 0, 0, ",");
    out.append(" where ");
    let keys = T::key_attrs();
    let col_len: u128 = cols.len() as u128;
    append_eq_list(&mut out, &keys, 0, col_len, " and ");
    proof {
        assert(out@ =~= spec_update_sql::<T>());
    }
    out
}

/// The keyed delete statement for `T`, exactly as specified.
pub fn delete_sql<T: SchemaTable>() -> (r: String)
    ensures
        r@ == spec_delete_sql::<T>(),
{
    let mut out = String::new();
    out.append("delete from ");
    out.append(T::table_name());
    out.append(" where ");
    let keys = T::key_attrs();
    append_eq_list(&mut out, &keys, 0, 0, " and ");
    proof {
        assert(out@ =~= spec_delete_sql::<T>());
    }
    out
}

} // verus!
