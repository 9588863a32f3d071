//! Text for logs: numbers in decimal, and row handles as `table[row]`.

use vstd::prelude::*;
use vstd::string::StringExecFns;
use crate::index::CheckedRowId;
use crate::index::GenericRowId;
use crate::tables::GetTableName;
use crate::tables::LockedTable;
use crate::tables::TableName;

verus! {

/// The character of the decimal digit `d`.
pub open spec fn digit(d: nat) -> char
    recommends
        d < 10,
{
    (('0' as nat) + d) as char
}

/// The decimal digits of `n`, the most significant first, without leading
/// zeros.
pub open spec fn decimal_digits(n: nat) -> Seq<char>
    decreases n,
{
    if n < 10 {
        seq![digit(n)]
    } else {
        decimal_digits(n / 10).push(digit(n % 10))
    }
}

/// A row handle as text: the table's name, and the row's position in
/// square brackets.
pub open spec fn row_text(table: Seq<char>, row: nat) -> Seq<char> {
    table + seq!['['] + decimal_digits(row) + seq![']']
}

/// The text of one decimal digit.
fn digit_str(d: usize) -> (s: &'static str)
    requires
        d < 10,
    ensures
        s@ == seq![digit(d as nat)],
{
    proof {
        reveal_strlit("0");
        reveal_strlit("1");
        reveal_strlit("2");
        reveal_strlit("3");
        reveal_strlit("4");
        reveal_strlit("5");
        reveal_strlit("6");
        reveal_strlit("7");
        reveal_strlit("8");
        reveal_strlit("9");
    }
    let s = if d == 0 {
        "0"
    } else if d == 1 {
        "1"
    } else if d == 2 {
        "2"
    } else if d == 3 {
        "3"
    } else if d == 4 {
        "4"
    } else if d == 5 {
        "5"
    } else if d == 6 {
        "6"
    } else if d == 7 {
        "7"
    } else if d == 8 {
        "8"
    } else {
        "9"
    };
    assert(s@ =~= seq![digit(d as nat)]);
    s
}

/// Append the decimal digits of `n` to `text`.
fn append_decimal(text: &mut String, n: usize)
    ensures
        final(text)@ == old(text)@ + decimal_digits(n as nat),
    decreases n,
{
    if n >= 10 {
        append_decimal(text, n / 10);
    }
    text.append(digit_str(n % 10));
    assert(text@ =~= old(text)@ + decimal_digits(n as nat));
}

/// The number `n` in decimal.
pub fn decimal(n: usize) -> (text: String)
    ensures
        text@ == decimal_digits(n as nat),
{
    proof {
        reveal_strlit("");
    }
    let mut text = String::from_str("");
    append_decimal(&mut text, n);
    assert(text@ =~= decimal_digits(n as nat));
    text
}

/// The text of a row of the table called `table`.
fn row_string(table: &str, row: usize) -> (text: String)
    ensures
        text@ == row_text(table@, row as nat),
{
    proof {
        reveal_strlit("[");
        reveal_strlit("]");
    }
    let mut text = String::from_str(table);
    text.append("[");
    append_decimal(&mut text, row);
    text.append("]");
    assert(text@ =~= row_text(table@, row as nat));
    text
}

impl<T: GetTableName> GenericRowId<T> {
    /// The handle as text for logs: `table[row]`.
    pub fn debug_string(&self) -> (text: String)
        ensures
            exists|name: TableName|
                call_ensures(T::get_name, (), name) && text@ == row_text(name@, self@),
    {
        let name = T::get_name();
        let text = row_string(name.0, self.to_usize());
        assert(call_ensures(T::get_name, (), name) && text@ == row_text(name@, self@));
        text
    }
}

impl<'a, T: LockedTable> CheckedRowId<'a, T> {
    /// The handle as text for logs: `table[row]`.
    pub fn debug_string(&self) -> (text: String)
        ensures
            exists|name: TableName|
                call_ensures(<T::Row as GetTableName>::get_name, (), name) && text@ == row_text(
                    name@,
                    self.index(),
                ),
    {
        let name = T::Row::get_name();
        let text = row_string(name.0, self.to_usize());
        assert(call_ensures(<T::Row as GetTableName>::get_name, (), name) && text@ == row_text(
            name@,
            self.index(),
        ));
        text
    }
}

} // verus!
