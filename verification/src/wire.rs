use vstd::prelude::*;

verus! {

/// The unsigned number that the zig-zag mapping assigns to a signed one:
/// 0, -1, 1, -2, 2, ... become 0, 1, 2, 3, 4, ...
pub open spec fn zigzag(n: int) -> nat {
    if n >= 0 {
        (2 * n) as nat
    } else {
        (-2 * n - 1) as nat
    }
}

/// The variable-length encoding of an unsigned number: seven bits per
/// byte, least significant group first, the high bit set on every byte
/// but the last.
pub open spec fn varint(n: nat) -> Seq<u8>
    decreases n,
{
    if n < 128 {
        seq![n as u8]
    } else {
        seq![(n % 128 + 128) as u8] + varint(n / 128)
    }
}

/// The wire form of a signed number: zig-zag, then variable-length.
pub open spec fn long_bytes(n: int) -> Seq<u8> {
    varint(zigzag(n))
}

/// Appends the variable-length encoding of `x` to `out`.
pub fn write_varint(x: u128, out: &mut Vec<u8>)
    ensures
        final(out)@ == old(out)@ + varint(x as nat),
{
    let ghost before = out@;
    let mut rest: u128 = x;
    while rest >= 128
        invariant
            out@ + varint(rest as nat) == before + varint(x as nat),
        decreases rest,
    {
        let ghost prev = out@;
        let low: u128 = rest % 128 + 128;
        out.push(low as u8);
        proof {
            assert(varint(rest as nat) == seq![(rest % 128 + 128) as u8] + varint(
                (rest / 128) as nat,
            ));
            assert(out@ + varint((rest / 128) as nat) =~= prev + varint(rest as nat));
        }
        rest = rest / 128;
    }
    let ghost prev = out@;
    out.push(rest as u8);
    proof {
        assert(out@ =~= prev + varint(rest as nat));
    }
}

/// Appends the wire form of the signed number `n` to `out`.
pub fn write_long(n: i64, out: &mut Vec<u8>)
    ensures
        final(out)@ == old(out)@ + long_bytes(n as int),
{
    if n >= 0 {
        let half: u128 = n as u128;
        write_varint(2 * half, out);
    } else {
        let m: i64 = -(n + 1);
        let half: u128 = m as u128;
        write_varint(2 * half + 1, out);
    }
}

/// Appends the wire form of a count or an index to `out`.
pub fn write_count(n: usize, out: &mut Vec<u8>)
    ensures
        final(out)@ == old(out)@ + long_bytes(n as int),
{
    let half: u128 = n as u128;
    write_varint(2 * half, out);
}

/// Appends a copy of `bytes` to `out`.
pub fn write_bytes(bytes: &[u8], out: &mut Vec<u8>)
    ensures
        final(out)@ == old(out)@ + bytes@,
{
    let ghost before = out@;
    let mut i: usize = 0;
    while i < bytes.len()
        invariant
            i <= bytes.len(),
            out@ == before + bytes@.subrange(0, i as int),
        decreases bytes.len() - i,
    {
        let ghost prev = out@;
        out.push(bytes[i]);
        proof {
            assert(out@ =~= before + bytes@.subrange(0, i + 1));
        }
        i = i + 1;
    }
    proof {
        assert(bytes@.subrange(0, i as int) =~= bytes@);
    }
}

} // verus!
