//! Textual rendering of syntax, in the shape that Rust's `{:?}` gives the
//! syntax tree: `Fun(Base(Int), Base(Int))`, `VT(V("x"), Base(Int))`.
//! Error messages of the type checker are built from these renderings.
use vstd::prelude::*;
use crate::ast::{BaseType, Type, VarProd, VarWithType, Operation};

verus! {

/// What `<str as Debug>::fmt` writes for a string: the string in double
/// quotes, with its special characters escaped.
pub uninterp spec fn str_debug(s: Seq<char>) -> Seq<char>;

/// `format!("{:?}", s)`: std's `Debug` rendering of a string.  Its
/// contract only names the result (`str_debug`); the escaping rules of
/// std are not restated here.
#[verifier::external_body]
pub(crate) fn debug_str(s: &str) -> (res: String)
    ensures
        res@ == str_debug(s@),
{
    format!("{:?}", s)
}

/// An owned copy of a string slice.
pub fn string_of(s: &str) -> (res: String)
    ensures
        res@ == s@,
{
    let mut m = String::new();
    m.append(s);
    m
}

pub open spec fn base_type_text(b: BaseType) -> Seq<char> {
    match b {
        BaseType::UInt => "UInt"@,
        BaseType::Int => "Int"@,
        BaseType::Bool => "Bool"@,
        BaseType::Float => "Float"@,
        BaseType::Vect => "Vect"@,
        BaseType::Mat => "Mat"@,
        BaseType::Unit => "Unit"@,
    }
}

/// Rendering of a type, e.g. `Fun(Base(Int), Prod(Base(Int), Base(Unit)))`.
pub open spec fn type_text(t: Type) -> Seq<char>
    decreases t,
{
    match t {
        Type::Base(b) => "Base("@ + base_type_text(b) + ")"@,
        Type::Prod(a, b) => "Prod("@ + type_text(*a) + ", "@ + type_text(*b) + ")"@,
        Type::Fun(a, b) => "Fun("@ + type_text(*a) + ", "@ + type_text(*b) + ")"@,
        Type::Arr(a, b) => "Arr("@ + type_text(*a) + ", "@ + type_text(*b) + ")"@,
        Type::List(a) => "List("@ + type_text(*a) + ")"@,
    }
}

pub open spec fn var_prod_text(vp: VarProd) -> Seq<char>
    decreases vp,
{
    match vp {
        VarProd::Unused => "Unused"@,
        VarProd::V(s) => "V("@ + str_debug(s@) + ")"@,
        VarProd::P(a, b) => "P("@ + var_prod_text(*a) + ", "@ + var_prod_text(*b) + ")"@,
    }
}

pub open spec fn var_with_type_text(vt: VarWithType) -> Seq<char> {
    "VT("@ + var_prod_text(vt.var()) + ", "@ + type_text(vt.typ()) + ")"@
}

pub open spec fn operation_text(op: Operation) -> Seq<char> {
    "Op("@ + str_debug(op.name()) + ")"@
}

pub open spec fn digit_text(d: nat) -> Seq<char> {
    if d == 0 {
        "0"@
    } else if d == 1 {
        "1"@
    } else if d == 2 {
        "2"@
    } else if d == 3 {
        "3"@
    } else if d == 4 {
        "4"@
    } else if d == 5 {
        "5"@
    } else if d == 6 {
        "6"@
    } else if d == 7 {
        "7"@
    } else if d == 8 {
        "8"@
    } else {
        "9"@
    }
}

/// Decimal digits of a natural number.
pub open spec fn nat_text(n: nat) -> Seq<char>
    decreases n,
{
    if n < 10 {
        digit_text(n)
    } else {
        nat_text(n / 10) + digit_text(n % 10)
    }
}

/// The elements of a row, separated by `", "`.
pub open spec fn row_items_text(row: Seq<u32>) -> Seq<char>
    decreases row.len(),
{
    if row.len() == 0 {
        Seq::empty()
    } else if row.len() == 1 {
        nat_text(row[0] as nat)
    } else {
        row_items_text(row.drop_last()) + ", "@ + nat_text(row.last() as nat)
    }
}

pub open spec fn row_text(row: Seq<u32>) -> Seq<char> {
    "["@ + row_items_text(row) + "]"@
}

/// The rows of a matrix, separated by `", "`.
pub open spec fn rows_items_text(rows: Seq<Vec<u32>>) -> Seq<char>
    decreases rows.len(),
{
    if rows.len() == 0 {
        Seq::empty()
    } else if rows.len() == 1 {
        row_text(rows[0]@)
    } else {
        rows_items_text(rows.drop_last()) + ", "@ + row_text(rows.last()@)
    }
}

/// Rendering of a matrix literal as the syntax tree holds it (rows of bit
/// patterns), e.g. `[[1065353216, 0], [0]]`.
pub open spec fn matrix_text(rows: Seq<Vec<u32>>) -> Seq<char> {
    "["@ + rows_items_text(rows) + "]"@
}

fn digit_str(d: u32) -> (res: &'static str)
    requires
        d < 10,
    ensures
        res@ == digit_text(d as nat),
{
    if d == 0 {
        "0"
    } else if d == 1 {
        "1"
    } else if d == 2 {
        "2"
    } else if d == 3 {
        "3"
    } else if d == 4 {
        "4"
    } else if d == 5 {
        "5"
    } else if d == 6 {
        "6"
    } else if d == 7 {
        "7"
    } else if d == 8 {
        "8"
    } else {
        "9"
    }
}

pub fn write_nat(out: &mut String, n: u32)
    ensures
        final(out)@ == old(out)@ + nat_text(n as nat),
    decreases n,
{
    if n < 10 {
        out.append(digit_str(n));
    } else {
        write_nat(out, n / 10);
        out.append(digit_str(n % 10));
        proof {
            assert(old(out)@ + nat_text((n / 10) as nat) + digit_text((n % 10) as nat)
                =~= old(out)@ + nat_text(n as nat));
        }
    }
}

pub fn write_row(out: &mut String, row: &Vec<u32>)
    ensures
        final(out)@ == old(out)@ + row_text(row@),
{
    out.append("[");
    let mut i: usize = 0;
    while i < row.len()
        invariant
            i <= row@.len(),
            out@ == old(out)@ + "["@ + row_items_text(row@.subrange(0, i as int)),
        decreases row.len() - i,
    {
        if i > 0 {
            out.append(", ");
        }
        write_nat(out, row[i]);
        proof {
            let s = row@.subrange(0, i as int + 1);
            assert(s.drop_last() =~= row@.subrange(0, i as int));
            if i == 0 {
                assert(row@.subrange(0, 0) =~= Seq::<u32>::empty());
            }
        }
        i = i + 1;
        assert(out@ =~= old(out)@ + "["@ + row_items_text(row@.subrange(0, i as int)));
    }
    assert(row@.subrange(0, row@.len() as int) =~= row@);
    out.append("]");
    assert(out@ =~= old(out)@ + row_text(row@));
}

pub fn write_matrix(out: &mut String, rows: &Vec<Vec<u32>>)
    ensures
        final(out)@ == old(out)@ + matrix_text(rows@),
{
    out.append("[");
    let mut i: usize = 0;
    while i < rows.len()
        invariant
            i <= rows@.len(),
            out@ == old(out)@ + "["@ + rows_items_text(rows@.subrange(0, i as int)),
        decreases rows.len() - i,
    {
        if i > 0 {
            out.append(", ");
        }
        write_row(out, &rows[i]);
        proof {
            let s = rows@.subrange(0, i as int + 1);
            assert(s.drop_last() =~= rows@.subrange(0, i as int));
            if i == 0 {
                assert(rows@.subrange(0, 0) =~= Seq::<Vec<u32>>::empty());
            }
        }
        i = i + 1;
        assert(out@ =~= old(out)@ + "["@ + rows_items_text(rows@.subrange(0, i as int)));
    }
    assert(rows@.subrange(0, rows@.len() as int) =~= rows@);
    out.append("]");
    assert(out@ =~= old(out)@ + matrix_text(rows@));
}

fn base_type_str(b: BaseType) -> (res: &'static str)
    ensures
        res@ == base_type_text(b),
{
    match b {
        BaseType::UInt => "UInt",
        BaseType::Int => "Int",
        BaseType::Bool => "Bool",
        BaseType::Float => "Float",
        BaseType::Vect => "Vect",
        BaseType::Mat => "Mat",
        BaseType::Unit => "Unit",
    }
}

pub fn write_type(out: &mut String, t: &Type)
    ensures
        final(out)@ == old(out)@ + type_text(*t),
    decreases t,
{
    match t {
        Type::Base(b) => {
            out.append("Base(");
            out.append(base_type_str(*b));
            out.append(")");
        },
        Type::Prod(a, b) => {
            out.append("Prod(");
            write_type(out, a);
            out.append(", ");
            write_type(out, b);
            out.append(")");
        },
        Type::Fun(a, b) => {
            out.append("Fun(");
            write_type(out, a);
            out.append(", ");
            write_type(out, b);
            out.append(")");
        },
        Type::Arr(a, b) => {
            out.append("Arr(");
            write_type(out, a);
            out.append(", ");
            write_type(out, b);
            out.append(")");
        },
        Type::List(a) => {
            out.append("List(");
            write_type(out, a);
            out.append(")");
        },
    }
    assert(out@ =~= old(out)@ + type_text(*t));
}

pub fn write_var_prod(out: &mut String, vp: &VarProd)
    ensures
        final(out)@ == old(out)@ + var_prod_text(*vp),
    decreases vp,
{
    match vp {
        VarProd::Unused => {
            out.append("Unused");
        },
        VarProd::V(s) => {
            out.append("V(");
            let d = debug_str(s.as_str());
            out.append(d.as_str());
            out.append(")");
        },
        VarProd::P(a, b) => {
            out.append("P(");
            write_var_prod(out, a);
            out.append(", ");
            write_var_prod(out, b);
            out.append(")");
        },
    }
    assert(out@ =~= old(out)@ + var_prod_text(*vp));
}

pub fn write_var_with_type(out: &mut String, vt: &VarWithType)
    ensures
        final(out)@ == old(out)@ + var_with_type_text(*vt),
{
    match vt {
        VarWithType::VT(vp, t) => {
            out.append("VT(");
            write_var_prod(out, vp);
            out.append(", ");
            write_type(out, t);
            out.append(")");
        },
    }
    assert(out@ =~= old(out)@ + var_with_type_text(*vt));
}

pub fn write_operation(out: &mut String, op: &Operation)
    ensures
        final(out)@ == old(out)@ + operation_text(*op),
{
    match op {
        Operation::Op(s) => {
            out.append("Op(");
            let d = debug_str(s.as_str());
            out.append(d.as_str());
            out.append(")");
        },
    }
    assert(out@ =~= old(out)@ + operation_text(*op));
}

} // verus!
