//! Scalar values bound into statements, and a verified total order on
//! primary keys.
//!
//! Every entity column is one of a small set of scalar shapes.  The engine
//! ranks rows by their primary-key columns, so this module defines a total
//! order on scalars (and lexicographically on key tuples) together with the
//! executable three-way comparisons the store uses, each proved equivalent
//! to the mathematical order.

use vstd::prelude::*;

verus! {

/// One scalar bound positionally into a statement, or read back out of a
/// result row.
#[derive(Debug, Clone, PartialEq)]
pub enum SqlValue {
    /// A non-null text column.
    Text(String),
    /// A non-null unsigned numeric column (identifiers, populations, areas).
    Number(usize),
    /// A nullable text column (soft foreign keys by name).
    OptText(Option<String>),
    /// A nullable numeric column (soft foreign keys by identifier).
    OptNumber(Option<usize>),
    /// A timestamp column, as seconds relative to the epoch.
    Stamp(i64),
}

/// The mathematical value of a [`SqlValue`].
pub enum SqlScalar {
    Text(Seq<char>),
    Number(int),
    OptText(Option<Seq<char>>),
    OptNumber(Option<int>),
    Stamp(int),
}

impl View for SqlValue {
    type V = SqlScalar;

    open spec fn view(&self) -> SqlScalar {
        match self {
            SqlValue::Text(s) => SqlScalar::Text(s@),
            SqlValue::Number(n) => SqlScalar::Number(*n as int),
            SqlValue::OptText(o) => match o {
                Some(s) => SqlScalar::OptText(Some(s@)),
                None => SqlScalar::OptText(None),
            },
            SqlValue::OptNumber(o) => match o {
                Some(n) => SqlScalar::OptNumber(Some(*n as int)),
                None => SqlScalar::OptNumber(None),
            },
            SqlValue::Stamp(t) => SqlScalar::Stamp(*t as int),
        }
    }
}

/// The mathematical value of a sequence of bound scalars, such as a key
/// tuple or a whole row.
pub open spec fn scalars(vs: Seq<SqlValue>) -> Seq<SqlScalar> {
    vs.map_values(|v: SqlValue| v@)
}

/// The scalar a nullable text column binds to.
pub open spec fn opt_text(o: Option<String>) -> SqlScalar {
    match o {
        Some(s) => SqlScalar::OptText(Some(s@)),
        None => SqlScalar::OptText(None),
    }
}

/// The scalar a nullable numeric column binds to.
pub open spec fn opt_number(o: Option<usize>) -> SqlScalar {
    match o {
        Some(n) => SqlScalar::OptNumber(Some(n as int)),
        None => SqlScalar::OptNumber(None),
    }
}

/// The result of a three-way comparison.
#[derive(Debug, Clone, Copy, PartialEq, Eq, Structural)]
pub enum Cmp {
    Lt,
    Eq,
    Gt,
}

/// Lexicographic "strictly below" on text, decided from position `i` on:
/// the first differing code point decides, and a strict prefix sorts first.
pub open spec fn text_lt_from(a: Seq<char>, b: Seq<char>, i: int) -> bool
    decreases b.len() - i,
{
    if i >= b.len() {
        false
    } else if i >= a.len() {
        true
    } else if (a[i] as u32) < (b[i] as u32) {
        true
    } else if (b[i] as u32) < (a[i] as u32) {
        false
    } else {
        text_lt_from(a, b, i + 1)
    }
}

/// Lexicographic "strictly below" on text.
pub open spec fn text_lt(a: Seq<char>, b: Seq<char>) -> bool {
    text_lt_from(a, b, 0)
}

/// Scalars of different shapes are ranked by shape, so that the order is
/// total over all of [`SqlScalar`].  Inside one shape the payload decides;
/// a null sorts below every non-null, as the backing store ranks it.
pub open spec fn scalar_shape_rank(v: SqlScalar) -> int {
    match v {
        SqlScalar::Number(_) => 0,
        SqlScalar::Text(_) => 1,
        SqlScalar::OptNumber(_) => 2,
        SqlScalar::OptText(_) => 3,
        SqlScalar::Stamp(_) => 4,
    }
}

/// Total strict order on scalars.
pub open spec fn scalar_lt(a: SqlScalar, b: SqlScalar) -> bool {
    if scalar_shape_rank(a) != scalar_shape_rank(b) {
        scalar_shape_rank(a) < scalar_shape_rank(b)
    } else {
        match (a, b) {
            (SqlScalar::Number(x), SqlScalar::Number(y)) => x < y,
            (SqlScalar::Text(x), SqlScalar::Text(y)) => text_lt(x, y),
            (SqlScalar::OptNumber(x), SqlScalar::OptNumber(y)) => match (x, y) {
                (None, Some(_)) => true,
                (Some(xv), Some(yv)) => xv < yv,
                _ => false,
            },
            (SqlScalar::OptText(x), SqlScalar::OptText(y)) => match (x, y) {
                (None, Some(_)) => true,
                (Some(xv), Some(yv)) => text_lt(xv, yv),
                _ => false,
            },
            (SqlScalar::Stamp(x), SqlScalar::Stamp(y)) => x < y,
            _ => false,
        }
    }
}

/// Lexicographic strict order on key tuples, decided from position `i` on.
pub open spec fn key_lt_from(a: Seq<SqlScalar>, b: Seq<SqlScalar>, i: int) -> bool
    decreases b.len() - i,
{
    if i >= b.len() {
        false
    } else if i >= a.len() {
        true
    } else if scalar_lt(a[i], b[i]) {
        true
    } else if scalar_lt(b[i], a[i]) {
        false
    } else {
        key_lt_from(a, b, i + 1)
    }
}

/// Lexicographic strict order on key tuples: the order in which the engine
/// ranks rows.
pub open spec fn key_lt(a: Seq<SqlScalar>, b: Seq<SqlScalar>) -> bool {
    key_lt_from(a, b, 0)
}

/// Two texts cannot each sort strictly below the other.
pub proof fn lemma_text_lt_asym(a: Seq<char>, b: Seq<char>, i: int)
    ensures
        !(text_lt_from(a, b, i) && text_lt_from(b, a, i)),
    decreases a.len() + b.len() - 2 * i,
{
    if i < a.len() && i < b.len() && !((a[i] as u32) < (b[i] as u32)) && !((b[i] as u32) < (a[i]
        as u32)) {
        lemma_text_lt_asym(a, b, i + 1);
    }
}

/// If neither text sorts below the other from position `i` on, the two
/// agree from `i` to their (equal) ends.
pub proof fn lemma_text_lt_connected(a: Seq<char>, b: Seq<char>, i: int)
    requires
        0 <= i <= a.len(),
        i <= b.len(),
        !text_lt_from(a, b, i),
        !text_lt_from(b, a, i),
    ensures
        a.len() == b.len(),
        forall|j: int| i <= j < a.len() ==> a[j] == b[j],
    decreases a.len() - i,
{
    if i < a.len() && i < b.len() {
        let x: char = a[i];
        let y: char = b[i];
        assert((x as u32) == (y as u32));
        vstd::utf8::char_u32_cast(x, x as u32);
        vstd::utf8::char_u32_cast(y, y as u32);
        assert(x == y);
        lemma_text_lt_connected(a, b, i + 1);
    }
}

/// The text order is transitive.
pub proof fn lemma_text_lt_trans(a: Seq<char>, b: Seq<char>, c: Seq<char>, i: int)
    ensures
        text_lt_from(a, b, i) && text_lt_from(b, c, i) ==> text_lt_from(a, c, i),
    decreases a.len() + b.len() + c.len() - 3 * i,
{
    if text_lt_from(a, b, i) && text_lt_from(b, c, i) {
        if i < a.len() && i < b.len() && i < c.len() && !((a[i] as u32) < (b[i] as u32)) && !((b[i]
            as u32) < (c[i] as u32)) {
            lemma_text_lt_trans(a, b, c, i + 1);
        }
    }
}

/// Two scalars cannot each sort strictly below the other.
pub proof fn lemma_scalar_lt_asym(a: SqlScalar, b: SqlScalar)
    ensures
        !(scalar_lt(a, b) && scalar_lt(b, a)),
{
    match (a, b) {
        (SqlScalar::Text(x), SqlScalar::Text(y)) => lemma_text_lt_asym(x, y, 0),
        (SqlScalar::OptText(Some(x)), SqlScalar::OptText(Some(y))) => lemma_text_lt_asym(x, y, 0),
        _ => (),
    }
}

/// If neither scalar sorts below the other, they are equal.
pub proof fn lemma_scalar_lt_connected(a: SqlScalar, b: SqlScalar)
    requires
        !scalar_lt(a, b),
        !scalar_lt(b, a),
    ensures
        a == b,
{
    match (a, b) {
        (SqlScalar::Text(x), SqlScalar::Text(y)) => {
            lemma_text_lt_connected(x, y, 0);
            assert(x =~= y);
        },
        (SqlScalar::OptText(Some(x)), SqlScalar::OptText(Some(y))) => {
            lemma_text_lt_connected(x, y, 0);
            assert(x =~= y);
        },
        _ => (),
    }
}

/// The scalar order is transitive.
pub proof fn lemma_scalar_lt_trans(a: SqlScalar, b: SqlScalar, c: SqlScalar)
    requires
        scalar_lt(a, b),
        scalar_lt(b, c),
    ensures
        scalar_lt(a, c),
{
    match (a, b) {
        (SqlScalar::Text(x), SqlScalar::Text(y)) => match c {
            SqlScalar::Text(z) => lemma_text_lt_trans(x, y, z, 0),
            _ => (),
        },
        (SqlScalar::OptText(Some(x)), SqlScalar::OptText(Some(y))) => match c {
            SqlScalar::OptText(Some(z)) => lemma_text_lt_trans(x, y, z, 0),
            _ => (),
        },
        _ => (),
    }
}

/// Two key tuples cannot each rank strictly below the other.
pub proof fn lemma_key_lt_asym(a: Seq<SqlScalar>, b: Seq<SqlScalar>, i: int)
    ensures
        !(key_lt_from(a, b, i) && key_lt_from(b, a, i)),
    decreases a.len() + b.len() - 2 * i,
{
    if i < a.len() && i < b.len() && !scalar_lt(a[i], b[i]) && !scalar_lt(b[i], a[i]) {
        lemma_key_lt_asym(a, b, i + 1);
    } else if i < a.len() && i < b.len() {
        lemma_scalar_lt_asym(a[i], b[i]);
    }
}

/// No key tuple ranks strictly below itself.
pub proof fn lemma_key_lt_irrefl(a: Seq<SqlScalar>)
    ensures
        !key_lt(a, a),
{
    lemma_key_lt_asym(a, a, 0);
}

/// The key order is transitive.
pub proof fn lemma_key_lt_trans(a: Seq<SqlScalar>, b: Seq<SqlScalar>, c: Seq<SqlScalar>, i: int)
    ensures
        key_lt_from(a, b, i) && key_lt_from(b, c, i) ==> key_lt_from(a, c, i),
    decreases a.len() + b.len() + c.len() - 3 * i,
{
    if key_lt_from(a, b, i) && key_lt_from(b, c, i) {
        if i < a.len() && i < b.len() && i < c.len() {
            if !scalar_lt(a[i], b[i]) && !scalar_lt(b[i], c[i]) {
                assert(!scalar_lt(b[i], a[i]));
                assert(!scalar_lt(c[i], b[i]));
                lemma_scalar_lt_connected(a[i], b[i]);
                lemma_scalar_lt_connected(b[i], c[i]);
                lemma_scalar_lt_asym(a[i], c[i]);
                lemma_key_lt_trans(a, b, c, i + 1);
                assert(key_lt_from(a, c, i));
            } else {
                lemma_scalar_lt_connected_or_trans(a[i], b[i], c[i]);
                assert(scalar_lt(a[i], c[i]));
            }
        }
    }
}

/// Helper for the transitivity step at one position: whichever of the two
/// hypotheses is a strict scalar step, the combined step is strict.
proof fn lemma_scalar_lt_connected_or_trans(x: SqlScalar, y: SqlScalar, z: SqlScalar)
    requires
        scalar_lt(x, y) || scalar_lt(y, z),
    ensures
        scalar_lt(x, y) && scalar_lt(y, z) ==> scalar_lt(x, z),
        scalar_lt(x, y) && !scalar_lt(y, z) && !scalar_lt(z, y) ==> scalar_lt(x, z),
        scalar_lt(y, z) && !scalar_lt(x, y) && !scalar_lt(y, x) ==> scalar_lt(x, z),
{
    if scalar_lt(x, y) && scalar_lt(y, z) {
        lemma_scalar_lt_trans(x, y, z);
    } else if scalar_lt(x, y) && !scalar_lt(y, z) && !scalar_lt(z, y) {
        lemma_scalar_lt_connected(y, z);
    } else if scalar_lt(y, z) && !scalar_lt(x, y) && !scalar_lt(y, x) {
        lemma_scalar_lt_connected(x, y);
    }
}

/// Text comparison that agrees with position-by-position comparison from
/// any already-agreeing prefix.
proof fn lemma_text_lt_from_skip(a: Seq<char>, b: Seq<char>, k: int, i: int)
    requires
        0 <= k <= i,
        i <= a.len(),
        i <= b.len(),
        forall|j: int| k <= j < i ==> a[j] == b[j],
    ensures
        text_lt_from(a, b, k) == text_lt_from(a, b, i),
    decreases i - k,
{
    if k < i {
        lemma_text_lt_from_skip(a, b, k + 1, i);
    }
}

/// Key comparison that agrees with position-by-position comparison from
/// any already-agreeing prefix.
proof fn lemma_key_lt_from_skip(a: Seq<SqlScalar>, b: Seq<SqlScalar>, k: int, i: int)
    requires
        0 <= k <= i,
        i <= a.len(),
        i <= b.len(),
        forall|j: int| k <= j < i ==> a[j] == b[j],
    ensures
        key_lt_from(a, b, k) == key_lt_from(a, b, i),
    decreases i - k,
{
    if k < i {
        lemma_scalar_lt_asym(a[k], b[k]);
        lemma_key_lt_from_skip(a, b, k + 1, i);
    }
}

/// Executable three-way text comparison, proved to decide the
/// lexicographic order on the views.
pub fn cmp_text(a: &str, b: &str) -> (c: Cmp)
    ensures
        c == Cmp::Lt ==> text_lt(a@, b@),
        c == Cmp::Eq ==> a@ == b@,
        c == Cmp::Gt ==> text_lt(b@, a@),
{
    let a_len: usize = a.unicode_len();
    let b_len: usize = b.unicode_len();
    let mut i: usize = 0;
    while i < a_len && i < b_len
        invariant
            0 <= i <= a_len,
            i <= b_len,
            a_len == a@.len(),
            b_len == b@.len(),
            forall|j: int| 0 <= j < i ==> a@[j] == b@[j],
        decreases a_len - i,
    {
        let ca: char = a.get_char(i);
        let cb: char = b.get_char(i);
        if (ca as u32) < (cb as u32) {
            proof {
                lemma_text_lt_from_skip(a@, b@, 0, i as int);
            }
            return Cmp::Lt;
        }
        if (cb as u32) < (ca as u32) {
            proof {
                lemma_text_lt_from_skip(b@, a@, 0, i as int);
            }
            return Cmp::Gt;
        }
        proof {
            assert(a@[i as int] == b@[i as int]);
        }
        i = i + 1;
    }
    if a_len < b_len {
        proof {
            lemma_text_lt_from_skip(a@, b@, 0, i as int);
        }
        Cmp::Lt
    } else if b_len < a_len {
        proof {
            lemma_text_lt_from_skip(b@, a@, 0, i as int);
        }
        Cmp::Gt
    } else {
        proof {
            assert(a@ =~= b@);
        }
        Cmp::Eq
    }
}

/// Whether two texts are equal.
pub fn text_eq(a: &str, b: &str) -> (r: bool)
    ensures
        r == (a@ == b@),
{
    let sa: String = a.to_owned();
    let sb: String = b.to_owned();
    sa.eq(&sb)
}

/// Executable three-way scalar comparison, proved to decide
/// [`scalar_lt`] on the views.
pub fn cmp_scalar(a: &SqlValue, b: &SqlValue) -> (c: Cmp)
    ensures
        c == Cmp::Lt ==> scalar_lt(a@, b@),
        c == Cmp::Eq ==> a@ == b@,
        c == Cmp::Gt ==> scalar_lt(b@, a@),
{
    match (a, b) {
        (SqlValue::Number(x), SqlValue::Number(y)) => {
            if x < y {
                Cmp::Lt
            } else if y < x {
                Cmp::Gt
            } else {
                Cmp::Eq
            }
        },
        (SqlValue::Text(x), SqlValue::Text(y)) => cmp_text(x.as_str(), y.as_str()),
        (SqlValue::OptNumber(x), SqlValue::OptNumber(y)) => match (x, y) {
            (None, None) => Cmp::Eq,
            (None, Some(_)) => Cmp::Lt,
            (Some(_), None) => Cmp::Gt,
            (Some(xv), Some(yv)) => {
                if xv < yv {
                    Cmp::Lt
                } else if yv < xv {
                    Cmp::Gt
                } else {
                    Cmp::Eq
                }
            },
        },
        (SqlValue::OptText(x), SqlValue::OptText(y)) => match (x, y) {
            (None, None) => Cmp::Eq,
            (None, Some(_)) => Cmp::Lt,
            (Some(_), None) => Cmp::Gt,
            (Some(xv), Some(yv)) => cmp_text(xv.as_str(), yv.as_str()),
        },
        (SqlValue::Stamp(x), SqlValue::Stamp(y)) => {
            if x < y {
                Cmp::Lt
            } else if y < x {
                Cmp::Gt
            } else {
                Cmp::Eq
            }
        },
        (x, y) => {
            let rx: u8 = shape_rank(x);
            let ry: u8 = shape_rank(y);
            if rx < ry {
                Cmp::Lt
            } else {
                Cmp::Gt
            }
        },
    }
}

/// Executable shape rank, matching [`scalar_shape_rank`] on the view.
fn shape_rank(v: &SqlValue) -> (r: u8)
    ensures
        r as int == scalar_shape_rank(v@),
{
    match v {
        SqlValue::Number(_) => 0,
        SqlValue::Text(_) => 1,
        SqlValue::OptNumber(_) => 2,
        SqlValue::OptText(_) => 3,
        SqlValue::Stamp(_) => 4,
    }
}

/// Executable three-way key-tuple comparison, proved to decide
/// [`key_lt`] on the views.
pub fn cmp_key(a: &Vec<SqlValue>, b: &Vec<SqlValue>) -> (c: Cmp)
    ensures
        c == Cmp::Lt ==> key_lt(scalars(a@), scalars(b@)),
        c == Cmp::Eq ==> scalars(a@) == scalars(b@),
        c == Cmp::Gt ==> key_lt(scalars(b@), scalars(a@)),
{
    let a_len: usize = a.len();
    let b_len: usize = b.len();
    let mut i: usize = 0;
    while i < a_len && i < b_len
        invariant
            0 <= i <= a_len,
            i <= b_len,
            a_len == a@.len(),
            b_len == b@.len(),
            forall|j: int| 0 <= j < i ==> scalars(a@)[j] == scalars(b@)[j],
        decreases a_len - i,
    {
        match cmp_scalar(&a[i], &b[i]) {
            Cmp::Lt => {
                proof {
                    lemma_key_lt_from_skip(scalars(a@), scalars(b@), 0, i as int);
                }
                return Cmp::Lt;
            },
            Cmp::Gt => {
                proof {
                    lemma_key_lt_from_skip(scalars(b@), scalars(a@), 0, i as int);
                }
                return Cmp::Gt;
            },
            Cmp::Eq => {
                proof {
                    assert(scalars(a@)[i as int] == scalars(b@)[i as int]);
                }
                i = i + 1;
            },
        }
    }
    if a_len < b_len {
        proof {
            lemma_key_lt_from_skip(scalars(a@), scalars(b@), 0, i as int);
        }
        Cmp::Lt
    } else if b_len < a_len {
        proof {
            lemma_key_lt_from_skip(scalars(b@), scalars(a@), 0, i as int);
        }
        Cmp::Gt
    } else {
        proof {
            assert(scalars(a@) =~= scalars(b@));
        }
        Cmp::Eq
    }
}

} // verus!
