//! Names and digits: decimal and hexadecimal text, and the names of array elements.
use vstd::prelude::*;
use vstd::string::StringExecFns;

verus! {

/// The lower-case hexadecimal digit of `d`.
pub open spec fn hex_char(d: nat) -> char {
    seq!['0', '1', '2', '3', '4', '5', '6', '7', '8', '9', 'a', 'b', 'c', 'd', 'e', 'f'][d as int]
}

pub(crate) fn hex_digit(d: u64) -> (r: &'static str)
    requires
        d < 16,
    ensures
        r@ == seq![hex_char(d as nat)],
{
    proof {
        reveal_strlit("0");
        reveal_strlit("1");
        reveal_strlit("2");
        reveal_strlit("3");
        reveal_strlit("4");
        reveal_strlit("5");
        reveal_strlit("6");
        reveal_strlit("7");
        reveal_strlit("8");
        reveal_strlit("9");
        reveal_strlit("a");
        reveal_strlit("b");
        reveal_strlit("c");
        reveal_strlit("d");
        reveal_strlit("e");
        reveal_strlit("f");
    }
    let r = match d {
        0 => "0",
        1 => "1",
        2 => "2",
        3 => "3",
        4 => "4",
        5 => "5",
        6 => "6",
        7 => "7",
        8 => "8",
        9 => "9",
        10 => "a",
        11 => "b",
        12 => "c",
        13 => "d",
        14 => "e",
        _ => "f",
    };
    assert(r@ =~= seq![hex_char(d as nat)]);
    r
}

/// `n` in decimal, without leading zeros.
pub open spec fn dec_text(n: nat) -> Seq<char>
    decreases n,
{
    if n < 10 {
        seq![hex_char(n)]
    } else {
        dec_text(n / 10) + seq![hex_char(n % 10)]
    }
}

/// Appends `n` in decimal to `out`.
pub fn append_dec(out: &mut String, n: u64)
    ensures
        final(out)@ == old(out)@ + dec_text(n as nat),
    decreases n,
{
    if n >= 10 {
        append_dec(out, n / 10);
    }
    out.append(hex_digit(n % 10));
    assert(final(out)@ =~= old(out)@ + dec_text(n as nat));
}

/// The name of an array element: the array's name, `_`, and its index in decimal.
pub open spec fn element_name(name: Seq<char>, k: nat) -> Seq<char> {
    name + "_"@ + dec_text(k)
}

/// The name of a concrete peripheral's module.
pub open spec fn instance_name(name: Seq<char>, index: Option<u32>) -> Seq<char> {
    match index {
        None => name,
        Some(k) => element_name(name, k as nat),
    }
}

/// The name of element `k` of an array called `name`.
pub fn element_name_string(name: &String, k: u64) -> (r: String)
    ensures
        r@ == element_name(name@, k as nat),
{
    let mut r = name.clone();
    r.append("_");
    append_dec(&mut r, k);
    r
}

} // verus!
