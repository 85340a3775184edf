use vstd::prelude::*;

verus! {

/// The decimal spelling of a digit below ten.
pub open spec fn digit_text(d: nat) -> Seq<char> {
    if d == 0 { "0"@ }
    else if d == 1 { "1"@ }
    else if d == 2 { "2"@ }
    else if d == 3 { "3"@ }
    else if d == 4 { "4"@ }
    else if d == 5 { "5"@ }
    else if d == 6 { "6"@ }
    else if d == 7 { "7"@ }
    else if d == 8 { "8"@ }
    else { "9"@ }
}

/// The decimal spelling of a natural number, most significant digit first.
pub open spec fn dec(n: nat) -> Seq<char>
    decreases n,
{
    if n < 10 { digit_text(n) } else { dec(n / 10) + digit_text(n % 10) }
}

fn digit(d: u64) -> (r: &'static str)
    requires
        d < 10,
    ensures
        r@ == digit_text(d as nat),
{
    if d == 0 { "0" }
    else if d == 1 { "1" }
    else if d == 2 { "2" }
    else if d == 3 { "3" }
    else if d == 4 { "4" }
    else if d == 5 { "5" }
    else if d == 6 { "6" }
    else if d == 7 { "7" }
    else if d == 8 { "8" }
    else { "9" }
}

/// Writes `n` in decimal.
pub fn decimal(n: u64) -> (r: String)
    ensures
        r@ == dec(n as nat),
    decreases n,
{
    if n < 10 {
        String::from_str(digit(n))
    } else {
        let mut head = decimal(n / 10);
        head.append(digit(n % 10));
        head
    }
}

/// Appends `n` in decimal to `s`.
pub fn push_decimal(s: &mut String, n: u64)
    ensures
        final(s)@ == old(s)@ + dec(n as nat),
{
    let d = decimal(n);
    s.append(d.as_str());
}


proof fn digit_text_single(d: nat)
    requires
        d < 10,
    ensures
        digit_text(d).len() == 1,
        forall|e: nat| e < 10 && digit_text(e) == digit_text(d) ==> e == d,
{
    reveal_strlit("0");
    reveal_strlit("1");
    reveal_strlit("2");
    reveal_strlit("3");
    reveal_strlit("4");
    reveal_strlit("5");
    reveal_strlit("6");
    reveal_strlit("7");
    reveal_strlit("8");
    reveal_strlit("9");
    assert forall|e: nat| e < 10 && digit_text(e) == digit_text(d) implies e == d by {
        assert(digit_text(e)[0] == digit_text(d)[0]);
    }
}

/// The decimal spelling has at least one digit, one per power of ten.
pub proof fn dec_len(n: nat)
    ensures
        dec(n).len() >= 1,
        n >= 10 ==> dec(n).len() >= 2,
    decreases n,
{
    if n < 10 {
        digit_text_single(n);
    } else {
        dec_len(n / 10);
        digit_text_single(n % 10);
    }
}

/// Different numbers are spelled differently.
pub proof fn dec_injective(a: nat, b: nat)
    requires
        dec(a) == dec(b),
    ensures
        a == b,
    decreases a,
{
    dec_len(a);
    dec_len(b);
    if a < 10 && b < 10 {
        digit_text_single(a);
    } else if a < 10 {
        digit_text_single(a);
    } else if b < 10 {
        digit_text_single(b);
    } else {
        digit_text_single(a % 10);
        digit_text_single(b % 10);
        dec_len(a / 10);
        dec_len(b / 10);
        let pa = dec(a / 10);
        let pb = dec(b / 10);
        assert(dec(a) == pa + digit_text(a % 10));
        assert(dec(b) == pb + digit_text(b % 10));
        assert(pa.len() == pb.len());
        assert(pa =~= dec(a).subrange(0, pa.len() as int));
        assert(pb =~= dec(b).subrange(0, pb.len() as int));
        assert(digit_text(a % 10) =~= dec(a).subrange(pa.len() as int, dec(a).len() as int));
        assert(digit_text(b % 10) =~= dec(b).subrange(pb.len() as int, dec(b).len() as int));
        dec_injective(a / 10, b / 10);
    }
}

} // verus!
