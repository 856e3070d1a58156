//! Line-ending conversion: every CR LF pair becomes a single LF.
use vstd::prelude::*;

verus! {

/// Carriage return.
pub const CR: u8 = 13;

/// Line feed.
pub const LF: u8 = 10;

/// True when a CR LF pair starts at position `i` of `s`.
pub open spec fn pair_at(s: Seq<u8>, i: int) -> bool {
    0 <= i && i + 1 < s.len() && s[i] == CR && s[i + 1] == LF
}

/// True when `s` holds at least one CR LF pair.
pub open spec fn has_pair(s: Seq<u8>) -> bool {
    exists|i: int| #[trigger] pair_at(s, i)
}

/// `s` read from the front, each CR LF pair replaced by LF; every other byte kept.
pub open spec fn crlf_to_lf(s: Seq<u8>) -> Seq<u8>
    decreases s.len(),
{
    if s.len() == 0 {
        s
    } else if s.len() >= 2 && s[0] == CR && s[1] == LF {
        seq![LF] + crlf_to_lf(s.skip(2))
    } else {
        seq![s[0]] + crlf_to_lf(s.skip(1))
    }
}

/// The conversion never lengthens its input, leaves an input without a pair as it
/// is, and shortens every input that holds one.
pub proof fn lemma_crlf_to_lf_shape(s: Seq<u8>)
    ensures
        crlf_to_lf(s).len() <= s.len(),
        !has_pair(s) ==> crlf_to_lf(s) == s,
        has_pair(s) ==> crlf_to_lf(s).len() < s.len(),
    decreases s.len(),
{
    if s.len() == 0 {
    } else if s.len() >= 2 && s[0] == CR && s[1] == LF {
        lemma_crlf_to_lf_shape(s.skip(2));
        assert(pair_at(s, 0));
    } else {
        let t = s.skip(1);
        lemma_crlf_to_lf_shape(t);
        if !has_pair(s) {
            assert(!has_pair(t)) by {
                if has_pair(t) {
                    let i = choose|i: int| #[trigger] pair_at(t, i);
                    assert(pair_at(s, i + 1));
                }
            }
            assert(seq![s[0]] + t =~= s);
        }
        if has_pair(s) {
            let i = choose|i: int| #[trigger] pair_at(s, i);
            if i == 0 {
            } else {
                assert(pair_at(t, i - 1));
            }
        }
    }
}

/// Copies `input`, replacing each CR LF pair by a single LF. A lone CR, and a CR
/// at the very end, are kept.
pub fn convert_crlf_to_lf(input: &[u8]) -> (out: Vec<u8>)
    ensures
        out@ == crlf_to_lf(input@),
{
    let mut out: Vec<u8> = Vec::with_capacity(input.len());
    let mut i: usize = 0;
    assert(input@.skip(0) =~= input@);
    assert(out@ + crlf_to_lf(input@) =~= crlf_to_lf(input@));
    while i < input.len()
        invariant
            i <= input@.len(),
            crlf_to_lf(input@) == out@ + crlf_to_lf(input@.skip(i as int)),
        decreases input@.len() - i,
    {
        let ghost rest = input@.skip(i as int);
        if input[i] == CR && i + 1 < input.len() && input[i + 1] == LF {
            assert(rest.skip(2) =~= input@.skip(i + 2));
            let ghost before = out@;
            out.push(LF);
            assert(before + crlf_to_lf(rest) =~= out@ + crlf_to_lf(input@.skip(i + 2)));
            i += 2;
        } else {
            assert(rest.skip(1) =~= input@.skip(i + 1));
            let ghost before = out@;
            out.push(input[i]);
            assert(before + crlf_to_lf(rest) =~= out@ + crlf_to_lf(input@.skip(i + 1)));
            i += 1;
        }
        assert(crlf_to_lf(input@) == out@ + crlf_to_lf(input@.skip(i as int)));
    }
    assert(input@.skip(i as int) =~= Seq::<u8>::empty());
    assert(out@ + Seq::<u8>::empty() =~= out@);
    out
}

/// Tells whether converting `input` would change it.
pub fn has_crlf(input: &[u8]) -> (r: bool)
    ensures
        r == has_pair(input@),
        r == (crlf_to_lf(input@) != input@),
{
    proof {
        lemma_crlf_to_lf_shape(input@);
    }
    let mut i: usize = 0;
    while i < input.len()
        invariant
            i <= input@.len(),
            forall|j: int| 0 <= j < i ==> !#[trigger] pair_at(input@, j),
        decreases input@.len() - i,
    {
        if i + 1 < input.len() && input[i] == CR && input[i + 1] == LF {
            assert(pair_at(input@, i as int));
            assert(has_pair(input@));
            proof {
                lemma_crlf_to_lf_shape(input@);
            }
            assert(crlf_to_lf(input@).len() < input@.len());
            return true;
        }
        i += 1;
    }
    assert(!has_pair(input@)) by {
        if has_pair(input@) {
            let j = choose|j: int| #[trigger] pair_at(input@, j);
            assert(j < i);
        }
    }
    assert(crlf_to_lf(input@) == input@);
    false
}

} // verus!
