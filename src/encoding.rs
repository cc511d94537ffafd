use vstd::prelude::*;

verus! {

/// The lowercase hexadecimal digit for a value below 16.
pub open spec fn hex_digit(v: nat) -> char {
    seq!['0', '1', '2', '3', '4', '5', '6', '7', '8', '9', 'a', 'b', 'c', 'd', 'e', 'f'][v as int]
}

/// Lowercase hexadecimal text of a byte string: two digits per byte, high nibble first.
pub open spec fn hex_of(b: Seq<u8>) -> Seq<char>
    decreases b.len(),
{
    if b.len() == 0 {
        Seq::empty()
    } else {
        hex_of(b.drop_last()) + seq![hex_digit(b.last() as nat / 16), hex_digit(b.last() as nat % 16)]
    }
}

pub proof fn lemma_hex_len(b: Seq<u8>)
    ensures
        hex_of(b).len() == 2 * b.len(),
    decreases b.len(),
{
    if b.len() > 0 {
        lemma_hex_len(b.drop_last());
    }
}

/// Relies on hex::encode: each byte becomes two lowercase hex digits, high nibble first.
#[verifier::external_body]
pub(crate) fn to_hex(b: &[u8]) -> (r: String)
    ensures
        r@ == hex_of(b@),
{
    hex::encode(b)
}

/// The last `k` base-256 digits of `n`, most significant first.
pub open spec fn be_digits(n: nat, k: nat) -> Seq<u8>
    decreases k,
{
    if k == 0 {
        Seq::empty()
    } else {
        be_digits(n / 256, (k - 1) as nat).push((n % 256) as u8)
    }
}

fn be_digits_exec(n: u64, k: usize) -> (r: Vec<u8>)
    ensures
        r@ == be_digits(n as nat, k as nat),
    decreases k,
{
    if k == 0 {
        Vec::new()
    } else {
        let mut v = be_digits_exec(n / 256, k - 1);
        v.push((n % 256) as u8);
        v
    }
}

/// The eight big-endian bytes of an escrow id, used as its ledger subaccount.
pub fn escrow_subaccount(escrow_id: u64) -> (r: Vec<u8>)
    ensures
        r@ == be_digits(escrow_id as nat, 8),
        r@.len() == 8,
{
    let r = be_digits_exec(escrow_id, 8);
    proof {
        lemma_be_digits_len(escrow_id as nat, 8);
    }
    r
}

pub proof fn lemma_be_digits_len(n: nat, k: nat)
    ensures
        be_digits(n, k).len() == k,
    decreases k,
{
    if k > 0 {
        lemma_be_digits_len(n / 256, (k - 1) as nat);
    }
}

/// The decimal digit for a value below 10.
pub open spec fn decimal_digit(v: nat) -> char {
    seq!['0', '1', '2', '3', '4', '5', '6', '7', '8', '9'][v as int]
}

/// Decimal text of a number, without leading zeros.
pub open spec fn decimal_of(n: nat) -> Seq<char>
    decreases n,
{
    if n < 10 {
        seq![decimal_digit(n)]
    } else {
        decimal_of(n / 10).push(decimal_digit(n % 10))
    }
}

fn digit_text(d: u64) -> (r: &'static str)
    requires
        d < 10,
    ensures
        r@ == seq![decimal_digit(d as nat)],
{
    proof {
        reveal_strlit("0");
        reveal_strlit("1");
        reveal_strlit("2");
        reveal_strlit("3");
        reveal_strlit("4");
        reveal_strlit("5");
        reveal_strlit("6");
        reveal_strlit("7");
        reveal_strlit("8");
        reveal_strlit("9");
    }
    let r = match d {
        0 => "0",
        1 => "1",
        2 => "2",
        3 => "3",
        4 => "4",
        5 => "5",
        6 => "6",
        7 => "7",
        8 => "8",
        _ => "9",
    };
    assert(r@ =~= seq![decimal_digit(d as nat)]);
    r
}

/// Appends the decimal text of `n` to `s`.
pub fn append_decimal(s: &mut String, n: u64)
    ensures
        final(s)@ == old(s)@ + decimal_of(n as nat),
    decreases n,
{
    if n < 10 {
        s.append(digit_text(n));
    } else {
        append_decimal(s, n / 10);
        s.append(digit_text(n % 10));
        assert(final(s)@ =~= old(s)@ + decimal_of(n as nat));
    }
}

} // verus!
