use vstd::prelude::*;
use crate::json::hex_digit;

verus! {

/// The last `count` hexadecimal digits of `v`, most significant first,
/// in lowercase, with leading zeros.
pub open spec fn hex_fixed(v: nat, count: nat) -> Seq<char>
    decreases count,
{
    if count == 0 {
        Seq::empty()
    } else {
        hex_fixed(v / 16, (count - 1) as nat) + seq![hex_digit((v % 16) as int)]
    }
}

/// The hyphenated lowercase text of the identifier with value `v`:
/// groups of 8, 4, 4, 4 and 12 hexadecimal digits.
pub open spec fn uuid_text(v: u128) -> Seq<char> {
    let h = hex_fixed(v as nat, 32);
    h.subrange(0, 8) + seq!['-'] + h.subrange(8, 12) + seq!['-'] + h.subrange(12, 16) + seq!['-']
        + h.subrange(16, 20) + seq!['-'] + h.subrange(20, 32)
}

fn push_hex_fixed(out: &mut Vec<char>, v: u128, count: u32)
    ensures
        final(out)@ == old(out)@ + hex_fixed(v as nat, count as nat),
    decreases count,
{
    if count > 0 {
        push_hex_fixed(out, v / 16, count - 1);
        let d = (v % 16) as u8;
        out.push(if d < 10 { (48 + d) as char } else { (87 + d) as char });
        proof {
            assert(final(out)@ =~= old(out)@ + hex_fixed(v as nat, count as nat));
        }
    } else {
        proof {
            assert(final(out)@ =~= old(out)@ + hex_fixed(v as nat, count as nat));
        }
    }
}

proof fn lemma_hex_fixed_len(v: nat, count: nat)
    ensures
        hex_fixed(v, count).len() == count,
    decreases count,
{
    if count > 0 {
        lemma_hex_fixed_len(v / 16, (count - 1) as nat);
    }
}

/// The hyphenated lowercase text of the identifier with value `v`, as
/// the `Display` form of a `uuid::Uuid` writes it.
pub fn uuid_string(v: u128) -> (s: Vec<char>)
    ensures
        s@ == uuid_text(v),
{
    let mut h: Vec<char> = Vec::new();
    push_hex_fixed(&mut h, v, 32);
    proof {
        lemma_hex_fixed_len(v as nat, 32);
        assert(h@ =~= hex_fixed(v as nat, 32));
    }
    let mut s: Vec<char> = Vec::new();
    crate::text::push_range(&mut s, &h, 0, 8);
    s.push('-');
    crate::text::push_range(&mut s, &h, 8, 12);
    s.push('-');
    crate::text::push_range(&mut s, &h, 12, 16);
    s.push('-');
    crate::text::push_range(&mut s, &h, 16, 20);
    s.push('-');
    crate::text::push_range(&mut s, &h, 20, 32);
    proof {
        assert(s@ =~= uuid_text(v));
    }
    s
}

/// What `uuid::Uuid::parse_str` makes of a text: the 128-bit value of the
/// identifier it denotes, if any.
pub uninterp spec fn uuid_parse(s: Seq<char>) -> Option<u128>;

/// `uuid::Uuid::parse_str`, taken to the identifier's 128-bit value.
/// Which texts it accepts is named; that it reads the hyphenated
/// lowercase text of an identifier back as that identifier is stated.
#[verifier::external_body]
pub(crate) fn parse_uuid(s: &str) -> (r: Option<u128>)
    ensures
        r == uuid_parse(s@),
        forall|v: u128| s@ == #[trigger] uuid_text(v) ==> r == Some(v),
{
    match uuid::Uuid::parse_str(s) {
        Ok(u) => Some(u.as_u128()),
        Err(_) => None,
    }
}

} // verus!
