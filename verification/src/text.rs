//! Text helpers for the persisted layout: decimal rendering of run indices,
//! the deterministic selection file names, and the recovery of a selection
//! name from its file name.

use vstd::prelude::*;
use vstd::string::StringExecFns;

verus! {

/// The decimal digit character for one digit value.
pub open spec fn spec_digit(d: int) -> char {
    if d == 0 {
        '0'
    } else if d == 1 {
        '1'
    } else if d == 2 {
        '2'
    } else if d == 3 {
        '3'
    } else if d == 4 {
        '4'
    } else if d == 5 {
        '5'
    } else if d == 6 {
        '6'
    } else if d == 7 {
        '7'
    } else if d == 8 {
        '8'
    } else {
        '9'
    }
}

/// The decimal rendering of a non-negative integer, most significant digit
/// first, without leading zeros (`0` renders as `"0"`).
pub open spec fn spec_dec(n: int) -> Seq<char>
    decreases n,
{
    if n < 10 {
        seq![spec_digit(n)]
    } else {
        spec_dec(n / 10).push(spec_digit(n % 10))
    }
}

/// The digit characters of a digit sequence, read back to front: the digits
/// are collected least significant first, so this restores rendering order.
spec fn rev_digit_chars(ds: Seq<u64>) -> Seq<char>
    decreases ds.len(),
{
    if ds.len() == 0 {
        Seq::empty()
    } else {
        rev_digit_chars(ds.drop_first()) + seq![spec_digit(ds[0] as int)]
    }
}

proof fn lemma_rev_digit_chars_push(ds: Seq<u64>, d: u64)
    ensures
        rev_digit_chars(ds.push(d)) == seq![spec_digit(d as int)] + rev_digit_chars(ds),
    decreases ds.len(),
{
    if ds.len() == 0 {
        assert(ds.push(d).drop_first() =~= Seq::<u64>::empty());
        assert(rev_digit_chars(Seq::<u64>::empty()) =~= Seq::<char>::empty());
        assert(ds.push(d)[0] == d);
        assert(ds =~= Seq::<u64>::empty());
        assert(rev_digit_chars(ds.push(d)) =~= seq![spec_digit(d as int)] + rev_digit_chars(ds));
    } else {
        assert(ds.push(d).drop_first() =~= ds.drop_first().push(d));
        lemma_rev_digit_chars_push(ds.drop_first(), d);
        assert(rev_digit_chars(ds.push(d)) =~= seq![spec_digit(d as int)] + rev_digit_chars(ds));
    }
}

/// The string literal for one decimal digit.
fn digit_str(d: u64) -> (s: &'static str)
    requires
        d < 10,
    ensures
        s@ == seq![spec_digit(d as int)],
{
    proof {
        reveal_strlit("0");
        reveal_strlit("1");
        reveal_strlit("2");
        reveal_strlit("3");
        reveal_strlit("4");
        reveal_strlit("5");
        reveal_strlit("6");
        reveal_strlit("7");
        reveal_strlit("8");
        reveal_strlit("9");
        assert("0"@ =~= seq![spec_digit(0)]);
        assert("1"@ =~= seq![spec_digit(1)]);
        assert("2"@ =~= seq![spec_digit(2)]);
        assert("3"@ =~= seq![spec_digit(3)]);
        assert("4"@ =~= seq![spec_digit(4)]);
        assert("5"@ =~= seq![spec_digit(5)]);
        assert("6"@ =~= seq![spec_digit(6)]);
        assert("7"@ =~= seq![spec_digit(7)]);
        assert("8"@ =~= seq![spec_digit(8)]);
        assert("9"@ =~= seq![spec_digit(9)]);
    }
    match d {
        0 => "0",
        1 => "1",
        2 => "2",
        3 => "3",
        4 => "4",
        5 => "5",
        6 => "6",
        7 => "7",
        8 => "8",
        _ => "9",
    }
}

/// Renders an integer in decimal.
pub fn u64_to_dec(n: u64) -> (s: String)
    ensures
        s@ == spec_dec(n as int),
{
    let mut m: u64 = n;
    let mut digits: Vec<u64> = Vec::new();
    loop
        invariant_except_break
            spec_dec(n as int) == spec_dec(m as int) + rev_digit_chars(digits@),
            forall|k: int| 0 <= k < digits@.len() ==> digits@[k] < 10,
        ensures
            spec_dec(n as int) == rev_digit_chars(digits@),
            forall|k: int| 0 <= k < digits@.len() ==> digits@[k] < 10,
        decreases m,
    {
        let d = m % 10;
        let ghost ds0 = digits@;
        digits.push(d);
        proof {
            lemma_rev_digit_chars_push(ds0, d);
        }
        if m < 10 {
            break;
        }
        m = m / 10;
    }
    let mut s = String::new();
    let mut i = digits.len();
    while i > 0
        invariant
            i <= digits@.len(),
            forall|k: int| 0 <= k < digits@.len() ==> digits@[k] < 10,
            spec_dec(n as int) == rev_digit_chars(digits@),
            s@ == rev_digit_chars(digits@.subrange(i as int, digits@.len() as int)),
        decreases i,
    {
        i = i - 1;
        let ds = digit_str(digits[i]);
        s.append(ds);
        proof {
            assert(digits@.subrange(i as int, digits@.len() as int).drop_first() =~= digits@
                .subrange(i as int + 1, digits@.len() as int));
            assert(s@ =~= rev_digit_chars(digits@.subrange(i as int, digits@.len() as int)));
        }
    }
    proof {
        assert(digits@.subrange(0, digits@.len() as int) =~= digits@);
    }
    s
}

/// The name of the quality selection produced from run index `i`.
pub fn quality_selection_name(i: u64) -> (s: String)
    ensures
        s@ == "quality_projects_"@ + spec_dec(i as int),
{
    let mut s = "quality_projects_".to_owned();
    let digits = u64_to_dec(i);
    s.append(digits.as_str());
    s
}

/// The path of a selection file relative to the output directory:
/// `selections/<name>.csv`.
pub fn selection_file_path(name: &String) -> (s: String)
    ensures
        s@ == "selections/"@ + name@ + ".csv"@,
{
    let mut s = "selections/".to_owned();
    s.append(name.as_str());
    s.append(".csv");
    s
}

/// The path of a per-selection spec file relative to the output directory:
/// `specs/<name>.csv`.
pub fn spec_file_path(name: &String) -> (s: String)
    ensures
        s@ == "specs/"@ + name@ + ".csv"@,
{
    let mut s = "specs/".to_owned();
    s.append(name.as_str());
    s.append(".csv");
    s
}

/// Whether a file name carries a strippable `.csv` ending: at least four
/// characters, ending in the three letters `csv`, right after any character
/// other than a line break (the character the pattern's leading dot stands
/// for).
pub open spec fn spec_has_csv_ending(s: Seq<char>) -> bool {
    &&& s.len() >= 4
    &&& s[s.len() - 3] == 'c'
    &&& s[s.len() - 2] == 's'
    &&& s[s.len() - 1] == 'v'
    &&& s[s.len() - 4] != '\n'
}

/// A file name with its `.csv` ending stripped: the last four characters go;
/// any other name stays as it is.
pub open spec fn spec_selection_name_of(s: Seq<char>) -> Seq<char> {
    if spec_has_csv_ending(s) {
        s.subrange(0, s.len() - 4)
    } else {
        s
    }
}

/// Relies on regex::Regex::replace with the pattern `.csv$`: it removes the
/// leftmost match, and the anchored pattern matches exactly once — the last
/// four characters, where the dot stands for any character but a line break
/// and `csv` are the literal last three — or never.
#[verifier::external_body]
pub(crate) fn strip_csv_suffix(file_name: &str) -> (r: String)
    ensures
        r@ == spec_selection_name_of(file_name@),
{
    let extension = regex::Regex::new(".csv$").unwrap();
    extension.replace(file_name, "").to_string()
}

} // verus!
