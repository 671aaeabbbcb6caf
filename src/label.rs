//! Short codes for directories (`a` .. `z`, `a1` .. `z1`, ...) and the
//! decimal rendering of their suffix.

use vstd::prelude::*;
use vstd::string::StrSliceExecFns;
use vstd::string::StringExecFns;

verus! {

/// The lowercase ASCII letter at `i` (0 for `a`).
pub open spec fn letter(i: nat) -> char {
    seq!['a', 'b', 'c', 'd', 'e', 'f', 'g', 'h', 'i', 'j', 'k', 'l', 'm',
         'n', 'o', 'p', 'q', 'r', 's', 't', 'u', 'v', 'w', 'x', 'y', 'z'][i as int]
}

/// The decimal digit for `d < 10`.
pub open spec fn digit(d: nat) -> char {
    seq!['0', '1', '2', '3', '4', '5', '6', '7', '8', '9'][d as int]
}

/// `n` written in base ten, without leading zeros.
pub open spec fn decimal(n: nat) -> Seq<char>
    decreases n,
{
    if n < 10 {
        seq![digit(n)]
    } else {
        decimal(n / 10).push(digit(n % 10))
    }
}

/// The label of the directory at zero-based position `index` in a render:
/// a letter that cycles through the alphabet, followed by the number of
/// completed cycles when that number is not zero.
pub open spec fn label_of(index: nat) -> Seq<char> {
    let round = index / 26;
    if round == 0 {
        seq![letter(index % 26)]
    } else {
        seq![letter(index % 26)] + decimal(round)
    }
}

proof fn lemma_digit_injective(a: nat, b: nat)
    requires
        a < 10,
        b < 10,
        digit(a) == digit(b),
    ensures
        a == b,
{
    let ds = seq!['0', '1', '2', '3', '4', '5', '6', '7', '8', '9'];
    assert(ds[0] == '0' && ds[1] == '1' && ds[2] == '2' && ds[3] == '3' && ds[4] == '4');
    assert(ds[5] == '5' && ds[6] == '6' && ds[7] == '7' && ds[8] == '8' && ds[9] == '9');
}

proof fn lemma_letter_injective(a: nat, b: nat)
    requires
        a < 26,
        b < 26,
        letter(a) == letter(b),
    ensures
        a == b,
{
    let ls = seq!['a', 'b', 'c', 'd', 'e', 'f', 'g', 'h', 'i', 'j', 'k', 'l', 'm',
                  'n', 'o', 'p', 'q', 'r', 's', 't', 'u', 'v', 'w', 'x', 'y', 'z'];
    assert(ls[0] == 'a' && ls[1] == 'b' && ls[2] == 'c' && ls[3] == 'd' && ls[4] == 'e');
    assert(ls[5] == 'f' && ls[6] == 'g' && ls[7] == 'h' && ls[8] == 'i' && ls[9] == 'j');
    assert(ls[10] == 'k' && ls[11] == 'l' && ls[12] == 'm' && ls[13] == 'n' && ls[14] == 'o');
    assert(ls[15] == 'p' && ls[16] == 'q' && ls[17] == 'r' && ls[18] == 's' && ls[19] == 't');
    assert(ls[20] == 'u' && ls[21] == 'v' && ls[22] == 'w' && ls[23] == 'x' && ls[24] == 'y');
    assert(ls[25] == 'z');
}

proof fn lemma_decimal_len(n: nat)
    ensures
        decimal(n).len() >= 1,
        n >= 10 ==> decimal(n).len() >= 2,
    decreases n,
{
    if n >= 10 {
        lemma_decimal_len(n / 10);
    }
}

proof fn lemma_decimal_injective(a: nat, b: nat)
    requires
        decimal(a) == decimal(b),
    ensures
        a == b,
    decreases a + b,
{
    lemma_decimal_len(a);
    lemma_decimal_len(b);
    if a < 10 && b < 10 {
        assert(decimal(a)[0] == digit(a));
        assert(decimal(b)[0] == digit(b));
        lemma_digit_injective(a, b);
    } else if a >= 10 && b >= 10 {
        assert(decimal(a).last() == digit(a % 10));
        assert(decimal(b).last() == digit(b % 10));
        lemma_digit_injective(a % 10, b % 10);
        assert(decimal(a).drop_last() =~= decimal(a / 10));
        assert(decimal(b).drop_last() =~= decimal(b / 10));
        lemma_decimal_injective(a / 10, b / 10);
    }
}

/// Two directories of one render never share a label: the label tells the
/// position back.
pub proof fn lemma_label_injective(a: nat, b: nat)
    requires
        label_of(a) == label_of(b),
    ensures
        a == b,
{
    assert(label_of(a)[0] == letter(a % 26));
    assert(label_of(b)[0] == letter(b % 26));
    lemma_letter_injective(a % 26, b % 26);
    lemma_decimal_len(a / 26);
    lemma_decimal_len(b / 26);
    if a / 26 != 0 && b / 26 != 0 {
        assert(label_of(a).subrange(1, label_of(a).len() as int) =~= decimal(a / 26));
        assert(label_of(b).subrange(1, label_of(b).len() as int) =~= decimal(b / 26));
        lemma_decimal_injective(a / 26, b / 26);
    } else if a / 26 != 0 || b / 26 != 0 {
        assert(label_of(a).len() != label_of(b).len());
    }
}

/// The decimal digit of `d` as a string.
fn digit_string(d: usize) -> (r: String)
    requires
        d < 10,
    ensures
        r@ == seq![digit(d as nat)],
{
    let digits = "0123456789";
    proof {
        reveal_strlit("0123456789");
    }
    String::from_str(digits.substring_char(d, d + 1))
}

/// `n` written in base ten.
pub fn decimal_string(n: u64) -> (r: String)
    ensures
        r@ == decimal(n as nat),
    decreases n,
{
    if n < 10 {
        digit_string(n as usize)
    } else {
        let mut s = decimal_string(n / 10);
        let d = digit_string((n % 10) as usize);
        s.append(d.as_str());
        s
    }
}

/// The label given to the directory at zero-based position `index`.
pub fn directory_label(index: usize) -> (r: String)
    ensures
        r@ == label_of(index as nat),
{
    let letters = "abcdefghijklmnopqrstuvwxyz";
    proof {
        reveal_strlit("abcdefghijklmnopqrstuvwxyz");
    }
    let l = index % 26;
    let mut s = String::from_str(letters.substring_char(l, l + 1));
    let round = index / 26;
    if round > 0 {
        let suffix = decimal_string(round as u64);
        s.append(suffix.as_str());
    }
    s
}

} // verus!
