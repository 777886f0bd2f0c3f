//! Decimal rendering of integers and the result-message strings.
//!
//! The store compares a stored integer against a where-clause value by its
//! base-10 rendering, and every success or error message embeds table,
//! column, type or value names; both are specified here as functions on
//! character sequences and implemented by verified builders.

use vstd::prelude::*;

use crate::db::ColumnType;
use crate::db::DataType;
use crate::db::ValueV;

verus! {

/// The character for a single decimal digit.
pub open spec fn digit_char(d: nat) -> char {
    if d == 0 {
        '0'
    } else if d == 1 {
        '1'
    } else if d == 2 {
        '2'
    } else if d == 3 {
        '3'
    } else if d == 4 {
        '4'
    } else if d == 5 {
        '5'
    } else if d == 6 {
        '6'
    } else if d == 7 {
        '7'
    } else if d == 8 {
        '8'
    } else {
        '9'
    }
}

/// The base-10 digits of a natural number, most significant first,
/// with no leading zeros (a lone `'0'` for zero).
pub open spec fn dec_digits(n: nat) -> Seq<char>
    decreases n,
{
    if n < 10 {
        seq![digit_char(n)]
    } else {
        dec_digits(n / 10).push(digit_char(n % 10))
    }
}

/// The base-10 rendering of an integer: a `'-'` sign for negative values,
/// then the digits of its magnitude.
pub open spec fn int_to_dec(n: int) -> Seq<char> {
    if n < 0 {
        seq!['-'] + dec_digits((-n) as nat)
    } else {
        dec_digits(n as nat)
    }
}

/// The one-character string for a single decimal digit.
fn digit_str(d: u32) -> (s: &'static str)
    requires
        d < 10,
    ensures
        s@ == seq![digit_char(d as nat)],
{
    proof {
        reveal_strlit("0");
        reveal_strlit("1");
        reveal_strlit("2");
        reveal_strlit("3");
        reveal_strlit("4");
        reveal_strlit("5");
        reveal_strlit("6");
        reveal_strlit("7");
        reveal_strlit("8");
        reveal_strlit("9");
    }
    if d == 0 {
        proof {
            assert("0"@ =~= seq![digit_char(0)]);
        }
        "0"
    } else if d == 1 {
        proof {
            assert("1"@ =~= seq![digit_char(1)]);
        }
        "1"
    } else if d == 2 {
        proof {
            assert("2"@ =~= seq![digit_char(2)]);
        }
        "2"
    } else if d == 3 {
        proof {
            assert("3"@ =~= seq![digit_char(3)]);
        }
        "3"
    } else if d == 4 {
        proof {
            assert("4"@ =~= seq![digit_char(4)]);
        }
        "4"
    } else if d == 5 {
        proof {
            assert("5"@ =~= seq![digit_char(5)]);
        }
        "5"
    } else if d == 6 {
        proof {
            assert("6"@ =~= seq![digit_char(6)]);
        }
        "6"
    } else if d == 7 {
        proof {
            assert("7"@ =~= seq![digit_char(7)]);
        }
        "7"
    } else if d == 8 {
        proof {
            assert("8"@ =~= seq![digit_char(8)]);
        }
        "8"
    } else {
        proof {
            assert("9"@ =~= seq![digit_char(9)]);
        }
        "9"
    }
}

/// Appends the base-10 digits of `n` to `out`.
fn append_dec(n: u32, out: &mut String)
    ensures
        final(out)@ == old(out)@ + dec_digits(n as nat),
    decreases n,
{
    if n >= 10 {
        append_dec(n / 10, out);
    }
    out.append(digit_str(n % 10));
    proof {
        assert(out@ =~= old(out)@ + dec_digits(n as nat));
    }
}

/// The base-10 rendering of a 32-bit integer, as the standard formatter
/// would produce it.
pub fn i32_to_string(n: i32) -> (r: String)
    ensures
        r@ == int_to_dec(n as int),
{
    let mut out = String::new();
    if n < 0 {
        proof {
            reveal_strlit("-");
        }
        out.append("-");
        let mag: u32 = (-(n as i64)) as u32;
        proof {
            assert(mag == -(n as int));
        }
        append_dec(mag, &mut out);
        proof {
            assert("-"@ =~= seq!['-']);
            assert(out@ =~= int_to_dec(n as int));
        }
    } else {
        append_dec(n as u32, &mut out);
    }
    out
}

/// The name under which a column type is reported.
pub open spec fn type_label(t: ColumnType) -> Seq<char> {
    match t {
        ColumnType::Integer => "Integer"@,
        ColumnType::Text => "Text"@,
    }
}

/// How a value is reported: its variant name around its rendering, a
/// text value quoted.
pub open spec fn value_text(v: ValueV) -> Seq<char> {
    match v {
        ValueV::Integer(i) => "Integer("@ + int_to_dec(i) + ")"@,
        ValueV::Text(s) => "Text(\""@ + s + "\")"@,
    }
}

/// The message confirming a create-table command.
pub open spec fn msg_table_created(name: Seq<char>) -> Seq<char> {
    "Table '"@ + name + "' created successfully."@
}

/// The message confirming a successful insert.
pub open spec fn msg_row_inserted(name: Seq<char>) -> Seq<char> {
    "Row inserted into table '"@ + name + "'."@
}

/// The error reported when an insert names an unknown table.
pub open spec fn msg_no_such_table(name: Seq<char>) -> Seq<char> {
    "Table '"@ + name + "' does not exist."@
}

/// The error reported when a select names an unknown table.
pub open spec fn msg_table_not_found(name: Seq<char>) -> Seq<char> {
    "Table '"@ + name + "' not found."@
}

/// The error reported when a row key matches no declared column.
pub open spec fn msg_no_such_column(col: Seq<char>, table: Seq<char>) -> Seq<char> {
    "Column '"@ + col + "' does not exist in table '"@ + table + "'."@
}

/// The error reported when a row value's variant disagrees with its
/// column's declared type.
pub open spec fn msg_type_mismatch(col: Seq<char>, expected: ColumnType, got: ValueV) -> Seq<
    char,
> {
    "Type mismatch for column '"@ + col + "'. Expected "@ + type_label(expected) + ", got "@
        + value_text(got)
}

/// Builds the create-table confirmation.
pub fn fmt_table_created(name: &str) -> (r: String)
    ensures
        r@ == msg_table_created(name@),
{
    let mut s = String::from_str("Table '");
    s.append(name);
    s.append("' created successfully.");
    proof {
        assert(s@ =~= msg_table_created(name@));
    }
    s
}

/// Builds the insert confirmation.
pub fn fmt_row_inserted(name: &str) -> (r: String)
    ensures
        r@ == msg_row_inserted(name@),
{
    let mut s = String::from_str("Row inserted into table '");
    s.append(name);
    s.append("'.");
    proof {
        assert(s@ =~= msg_row_inserted(name@));
    }
    s
}

/// Builds the unknown-table insert error.
pub fn fmt_no_such_table(name: &str) -> (r: String)
    ensures
        r@ == msg_no_such_table(name@),
{
    let mut s = String::from_str("Table '");
    s.append(name);
    s.append("' does not exist.");
    proof {
        assert(s@ =~= msg_no_such_table(name@));
    }
    s
}

/// Builds the unknown-table select error.
pub fn fmt_table_not_found(name: &str) -> (r: String)
    ensures
        r@ == msg_table_not_found(name@),
{
    let mut s = String::from_str("Table '");
    s.append(name);
    s.append("' not found.");
    proof {
        assert(s@ =~= msg_table_not_found(name@));
    }
    s
}

/// Builds the unknown-column insert error.
pub fn fmt_no_such_column(col: &str, table: &str) -> (r: String)
    ensures
        r@ == msg_no_such_column(col@, table@),
{
    let mut s = String::from_str("Column '");
    s.append(col);
    s.append("' does not exist in table '");
    s.append(table);
    s.append("'.");
    proof {
        assert(s@ =~= msg_no_such_column(col@, table@));
    }
    s
}

/// Builds the type-mismatch insert error.
pub fn fmt_type_mismatch(col: &str, expected: &ColumnType, got: &DataType) -> (r: String)
    ensures
        r@ == msg_type_mismatch(col@, *expected, got@),
{
    let mut s = String::from_str("Type mismatch for column '");
    s.append(col);
    s.append("'. Expected ");
    match expected {
        ColumnType::Integer => s.append("Integer"),
        ColumnType::Text => s.append("Text"),
    }
    s.append(", got ");
    match got {
        DataType::Integer(i) => {
            s.append("Integer(");
            let d = i32_to_string(*i);
            s.append(d.as_str());
            s.append(")");
        },
        DataType::Text(t) => {
            s.append("Text(\"");
            s.append(t.as_str());
            s.append("\")");
        },
    }
    proof {
        assert(s@ =~= msg_type_mismatch(col@, *expected, got@));
    }
    s
}

} // verus!
