use vstd::prelude::*;

verus! {

/// The decimal digits of `n`, most significant first, as ASCII bytes.
pub open spec fn decimal(n: nat) -> Seq<u8>
    decreases n,
{
    if n < 10 {
        seq![(48 + n) as u8]
    } else {
        decimal(n / 10).push((48 + n % 10) as u8)
    }
}

/// The name of the file that caches tile `(column, row)` at zoom `zoom` of
/// source `source`: `{source}_{zoom}_{column}_{row}.png`.
pub open spec fn cache_name(source: Seq<u8>, zoom: nat, column: nat, row: nat) -> Seq<u8> {
    source + seq![95u8] + decimal(zoom) + seq![95u8] + decimal(column) + seq![95u8] + decimal(
        row,
    ) + seq![46u8, 112u8, 110u8, 103u8]
}

/// Appends the decimal digits of `n`.
pub fn push_decimal(out: &mut Vec<u8>, n: u64)
    ensures
        final(out)@ == old(out)@ + decimal(n as nat),
    decreases n,
{
    if n >= 10 {
        push_decimal(out, n / 10);
    }
    let digit: u8 = (n % 10) as u8;
    out.push(48 + digit);
    assert(final(out)@ =~= old(out)@ + decimal(n as nat));
}

/// The file name under which a tile is cached; the request's own row is used,
/// before any flip, so each request address has its own file.
pub fn cache_file_name(source: &Vec<u8>, zoom: u8, column: u32, row: u32) -> (r: Vec<u8>)
    ensures
        r@ == cache_name(source@, zoom as nat, column as nat, row as nat),
{
    let mut out: Vec<u8> = Vec::new();
    let mut i: usize = 0;
    while i < source.len()
        invariant
            i <= source@.len(),
            out@ == source@.subrange(0, i as int),
        decreases source@.len() - i,
    {
        out.push(source[i]);
        i = i + 1;
        assert(out@ =~= source@.subrange(0, i as int));
    }
    assert(out@ =~= source@);
    out.push(95u8);
    push_decimal(&mut out, zoom as u64);
    out.push(95u8);
    push_decimal(&mut out, column as u64);
    out.push(95u8);
    push_decimal(&mut out, row as u64);
    out.push(46u8);
    out.push(112u8);
    out.push(110u8);
    out.push(103u8);
    assert(out@ =~= cache_name(source@, zoom as nat, column as nat, row as nat));
    out
}

} // verus!
