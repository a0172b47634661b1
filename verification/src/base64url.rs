use vstd::prelude::*;

verus! {

/// The character of the URL-safe base64 alphabet that stands for `v`.
pub open spec fn b64_symbol(v: int) -> char {
    if v < 26 {
        (65 + v) as char
    } else if v < 52 {
        (97 + (v - 26)) as char
    } else if v < 62 {
        (48 + (v - 52)) as char
    } else if v == 62 {
        '-'
    } else {
        '_'
    }
}

/// The URL-safe base64 text of `data`, without padding: each group of
/// three bytes becomes four symbols, a final group of two bytes three
/// symbols and a final single byte two symbols.
pub open spec fn b64url(data: Seq<u8>) -> Seq<char>
    decreases data.len(),
{
    if data.len() == 0 {
        Seq::empty()
    } else {
        let d0 = data[0] as int;
        if data.len() == 1 {
            seq![b64_symbol(d0 / 4), b64_symbol((d0 % 4) * 16)]
        } else {
            let d1 = data[1] as int;
            if data.len() == 2 {
                seq![
                    b64_symbol(d0 / 4),
                    b64_symbol((d0 % 4) * 16 + d1 / 16),
                    b64_symbol((d1 % 16) * 4),
                ]
            } else {
                let d2 = data[2] as int;
                seq![
                    b64_symbol(d0 / 4),
                    b64_symbol((d0 % 4) * 16 + d1 / 16),
                    b64_symbol((d1 % 16) * 4 + d2 / 64),
                    b64_symbol(d2 % 64),
                ] + b64url(data.skip(3))
            }
        }
    }
}

fn symbol(v: u8) -> (c: char)
    requires
        v < 64,
    ensures
        c == b64_symbol(v as int),
{
    if v < 26 {
        (65 + v) as char
    } else if v < 52 {
        (97 + (v - 26)) as char
    } else if v < 62 {
        (48 + (v - 52)) as char
    } else if v == 62 {
        '-'
    } else {
        '_'
    }
}

/// Encodes `data` in URL-safe base64 without padding.
pub fn encode(data: &[u8]) -> (out: Vec<char>)
    ensures
        out@ == b64url(data@),
{
    let n = data.len();
    let mut out: Vec<char> = Vec::new();
    let mut i: usize = 0;
    proof {
        assert(data@.skip(0) =~= data@);
    }
    while n - i >= 3
        invariant
            n == data@.len(),
            i <= n,
            b64url(data@) == out@ + b64url(data@.skip(i as int)),
        decreases n - i,
    {
        let a = data[i];
        let b = data[i + 1];
        let c = data[i + 2];
        proof {
            let rest = data@.skip(i as int);
            assert(rest[0] == a && rest[1] == b && rest[2] == c);
            assert(rest.skip(3) =~= data@.skip(i + 3));
        }
        out.push(symbol(a / 4));
        out.push(symbol((a % 4) * 16 + b / 16));
        out.push(symbol((b % 16) * 4 + c / 64));
        out.push(symbol(c % 64));
        i = i + 3;
    }
    let ghost rest = data@.skip(i as int);
    if n - i == 1 {
        let a = data[i];
        proof {
            assert(rest[0] == a);
        }
        out.push(symbol(a / 4));
        out.push(symbol((a % 4) * 16));
    } else if n - i == 2 {
        let a = data[i];
        let b = data[i + 1];
        proof {
            assert(rest[0] == a && rest[1] == b);
        }
        out.push(symbol(a / 4));
        out.push(symbol((a % 4) * 16 + b / 16));
        out.push(symbol((b % 16) * 4));
    }
    proof {
        assert(out@ =~= b64url(data@));
    }
    out
}

} // verus!
