use vstd::prelude::*;

verus! {

pub open spec fn digit_char(d: nat) -> char {
    if d == 0 {
        '0'
    } else if d == 1 {
        '1'
    } else if d == 2 {
        '2'
    } else if d == 3 {
        '3'
    } else if d == 4 {
        '4'
    } else if d == 5 {
        '5'
    } else if d == 6 {
        '6'
    } else if d == 7 {
        '7'
    } else if d == 8 {
        '8'
    } else {
        '9'
    }
}

/// Decimal notation of `n`, without leading zeros.
pub open spec fn decimal(n: nat) -> Seq<char>
    decreases n,
{
    if n < 10 {
        seq![digit_char(n)]
    } else {
        decimal(n / 10).push(digit_char(n % 10))
    }
}

/// Name of the checkpoint written after `counter + 1` files were trained on:
/// `base` followed by the range tag `[0-counter]` and the `.npz` extension.
pub open spec fn checkpoint_name_spec(base: Seq<char>, counter: nat) -> Seq<char> {
    base + seq!['[', '0', '-'] + decimal(counter) + seq![']', '.', 'n', 'p', 'z']
}

/// Name of the result of `times` upscaling passes over `stem.ext`:
/// `stem_ups.ext` for one pass, `stem_upsN.ext` for N passes otherwise.
pub open spec fn upscaled_name_spec(stem: Seq<char>, ext: Seq<char>, times: nat) -> Seq<char> {
    stem + seq!['_', 'u', 'p', 's'] + (if times == 1 { Seq::empty() } else { decimal(times) }) + seq!['.']
        + ext
}

fn digit_str(d: usize) -> (r: &'static str)
    requires
        d < 10,
    ensures
        r@ == seq![digit_char(d as nat)],
{
    if d == 0 {
        proof { reveal_strlit("0"); }
        "0"
    } else if d == 1 {
        proof { reveal_strlit("1"); }
        "1"
    } else if d == 2 {
        proof { reveal_strlit("2"); }
        "2"
    } else if d == 3 {
        proof { reveal_strlit("3"); }
        "3"
    } else if d == 4 {
        proof { reveal_strlit("4"); }
        "4"
    } else if d == 5 {
        proof { reveal_strlit("5"); }
        "5"
    } else if d == 6 {
        proof { reveal_strlit("6"); }
        "6"
    } else if d == 7 {
        proof { reveal_strlit("7"); }
        "7"
    } else if d == 8 {
        proof { reveal_strlit("8"); }
        "8"
    } else {
        proof { reveal_strlit("9"); }
        "9"
    }
}

/// Decimal notation of `n`.
pub fn decimal_string(n: usize) -> (r: String)
    ensures
        r@ == decimal(n as nat),
    decreases n,
{
    if n < 10 {
        String::from_str(digit_str(n))
    } else {
        let mut s = decimal_string(n / 10);
        s.append(digit_str(n % 10));
        s
    }
}

/// The checkpoint path for the given count of completed files, under `base`.
pub fn checkpoint_name(base: &str, counter: usize) -> (r: String)
    ensures
        r@ == checkpoint_name_spec(base@, counter as nat),
{
    let mut s = String::from_str(base);
    proof { reveal_strlit("[0-"); reveal_strlit("].npz"); }
    s.append("[0-");
    let digits = decimal_string(counter);
    s.append(digits.as_str());
    s.append("].npz");
    assert(s@ =~= checkpoint_name_spec(base@, counter as nat));
    s
}

/// The file name of the result of `times` upscaling passes over a file
/// named `stem.ext`; the pass count keeps results of different
/// magnifications apart.
pub fn upscaled_file_name(stem: &str, ext: &str, times: usize) -> (r: String)
    ensures
        r@ == upscaled_name_spec(stem@, ext@, times as nat),
{
    let mut s = String::from_str(stem);
    proof { reveal_strlit("_ups"); reveal_strlit("."); }
    s.append("_ups");
    if times != 1 {
        let digits = decimal_string(times);
        s.append(digits.as_str());
    }
    s.append(".");
    s.append(ext);
    assert(s@ =~= upscaled_name_spec(stem@, ext@, times as nat));
    s
}

} // verus!
