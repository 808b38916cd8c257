use vstd::prelude::*;
use vstd::string::StringExecFns;

verus! {

/// The decimal digit character of `d` (for `d < 10`).
pub open spec fn digit_char(d: nat) -> char {
    if d == 0 {
        '0'
    } else if d == 1 {
        '1'
    } else if d == 2 {
        '2'
    } else if d == 3 {
        '3'
    } else if d == 4 {
        '4'
    } else if d == 5 {
        '5'
    } else if d == 6 {
        '6'
    } else if d == 7 {
        '7'
    } else if d == 8 {
        '8'
    } else {
        '9'
    }
}

/// The decimal writing of `n`, without leading zeros.
pub open spec fn decimal(n: nat) -> Seq<char>
    decreases n,
{
    if n < 10 {
        seq![digit_char(n)]
    } else {
        decimal(n / 10).push(digit_char(n % 10))
    }
}

/// Name of the directory that holds the gene blocks of chromosome `chr`: `chr_` and two digits.
pub open spec fn chromosome_dir(chr: nat) -> Seq<char> {
    seq!['c', 'h', 'r', '_', digit_char(chr / 10), digit_char(chr % 10)]
}

/// The name that a trait column without a name gets: its position, counted from one.
pub open spec fn default_trait_name(i: nat) -> Seq<char> {
    decimal(i + 1)
}

/// Number of the last chromosome whose directory is scanned.
pub const LAST_CHROMOSOME: usize = 22;

fn digit_str(d: usize) -> (r: &'static str)
    requires
        d < 10,
    ensures
        r@ == seq![digit_char(d as nat)],
{
    if d == 0 {
        proof { reveal_strlit("0"); }
        "0"
    } else if d == 1 {
        proof { reveal_strlit("1"); }
        "1"
    } else if d == 2 {
        proof { reveal_strlit("2"); }
        "2"
    } else if d == 3 {
        proof { reveal_strlit("3"); }
        "3"
    } else if d == 4 {
        proof { reveal_strlit("4"); }
        "4"
    } else if d == 5 {
        proof { reveal_strlit("5"); }
        "5"
    } else if d == 6 {
        proof { reveal_strlit("6"); }
        "6"
    } else if d == 7 {
        proof { reveal_strlit("7"); }
        "7"
    } else if d == 8 {
        proof { reveal_strlit("8"); }
        "8"
    } else {
        proof { reveal_strlit("9"); }
        "9"
    }
}

/// The decimal writing of `n`.
pub fn decimal_string(n: usize) -> (r: String)
    ensures
        r@ == decimal(n as nat),
    decreases n,
{
    if n < 10 {
        String::from_str(digit_str(n))
    } else {
        let mut s = decimal_string(n / 10);
        s.append(digit_str(n % 10));
        s
    }
}

/// The subdirectory of chromosome `chr`, for `1 <= chr <= 22`; `None` for any other number
/// (chromosome `0` stands for the root directory itself).
pub fn chromosome_dir_name(chr: usize) -> (r: Option<String>)
    ensures
        (1 <= chr <= LAST_CHROMOSOME) <==> r is Some,
        r is Some ==> r->Some_0@ == chromosome_dir(chr as nat),
{
    if chr == 0 || chr > LAST_CHROMOSOME {
        return None;
    }
    proof { reveal_strlit("chr_"); }
    let mut s = String::from_str("chr_");
    s.append(digit_str(chr / 10));
    s.append(digit_str(chr % 10));
    assert(s@ =~= chromosome_dir(chr as nat));
    Some(s)
}

/// The names of the `cols` trait columns of a phenotype: its column names where it has them,
/// else `"1"`, `"2"`, ... up to `cols`.
pub fn trait_names(colnames: Option<Vec<String>>, cols: usize) -> (r: Vec<String>)
    ensures
        colnames is Some ==> r@ == colnames->Some_0@,
        colnames is None ==> r@.len() == cols && forall|i: int|
            0 <= i < cols ==> #[trigger] r@[i]@ == default_trait_name(i as nat),
{
    match colnames {
        Some(names) => names,
        None => {
            let mut out: Vec<String> = Vec::new();
            let mut i: usize = 0;
            while i < cols
                invariant
                    i <= cols,
                    out@.len() == i,
                    forall|j: int| 0 <= j < i ==> #[trigger] out@[j]@ == default_trait_name(j as nat),
                decreases cols - i,
            {
                out.push(decimal_string(i + 1));
                i = i + 1;
            }
            out
        },
    }
}

} // verus!
