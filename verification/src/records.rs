//! Framing of a transaction-record blob: a sequence of records, each
//! prefixed by its length as a 4-byte big-endian integer. The decoder below
//! is the pipeline's ground truth for the format; what each record's bytes
//! mean is a collaborator's concern and stays opaque here.

use vstd::prelude::*;

verus! {

/// The integer a 4-byte big-endian length prefix denotes.
pub open spec fn u32_from_be(b: Seq<u8>) -> int
    recommends
        b.len() == 4,
{
    b[0] * 0x1000000 + b[1] * 0x10000 + b[2] * 0x100 + b[3]
}

/// Decodes a blob into its records: `None` exactly on a blob that is not a
/// whole number of length-prefixed records.
pub open spec fn decode_records(b: Seq<u8>) -> Option<Seq<Seq<u8>>>
    decreases b.len(),
{
    if b.len() == 0 {
        Some(Seq::empty())
    } else if b.len() < 4 {
        None
    } else {
        let n = u32_from_be(b.subrange(0, 4));
        if b.len() - 4 < n {
            None
        } else {
            match decode_records(b.skip(4 + n)) {
                Option::None => Option::<Seq<Seq<u8>>>::None,
                Option::Some(rest) => Option::Some(seq![b.subrange(4, 4 + n)] + rest),
            }
        }
    }
}

/// The integer value of a big-endian 4-byte length prefix.
fn be_u32(b0: u8, b1: u8, b2: u8, b3: u8) -> (r: u32)
    ensures
        r == b0 * 0x1000000 + b1 * 0x10000 + b2 * 0x100 + b3,
{
    (b0 as u32) * 0x1000000 + (b1 as u32) * 0x10000 + (b2 as u32) * 0x100 + (b3 as u32)
}

/// Splits a record blob into its records, exactly as `decode_records` reads
/// it; `None` on a malformed blob.
pub fn split_records(blob: &Vec<u8>) -> (r: Option<Vec<Vec<u8>>>)
    ensures
        (match r {
            Option::Some(rs) => decode_records(blob@) == Option::Some(rs.deep_view()),
            Option::None => decode_records(blob@) is None,
        }),
{
    let mut out: Vec<Vec<u8>> = Vec::new();
    let mut i: usize = 0;
    proof {
        assert(blob@.skip(0) =~= blob@);
        if let Option::Some(rest) = decode_records(blob@) {
            assert(out.deep_view() + rest =~~= rest);
        }
    }
    while i < blob.len()
        invariant
            i <= blob.len(),
            (match decode_records(blob@.skip(i as int)) {
                Option::Some(rest) => decode_records(blob@) == Option::Some(
                    out.deep_view() + rest,
                ),
                Option::None => decode_records(blob@) is None,
            }),
        decreases blob.len() - i,
    {
        let ghost s = blob@.skip(i as int);
        if blob.len() - i < 4 {
            assert(decode_records(s) is None);
            return None;
        }
        let n32 = be_u32(blob[i], blob[i + 1], blob[i + 2], blob[i + 3]);
        let n = n32 as usize;
        assert(s.subrange(0, 4) =~= seq![blob@[i as int], blob@[i as int + 1], blob@[i as int + 2], blob@[i as int + 3]]);
        assert(u32_from_be(s.subrange(0, 4)) == n);
        if blob.len() - i - 4 < n {
            assert(s.len() - 4 < n);
            assert(decode_records(s) is None);
            return None;
        }
        let rec = vstd::slice::slice_to_vec(
            vstd::slice::slice_subrange(blob.as_slice(), i + 4, i + 4 + n),
        );
        proof {
            assert(rec@ =~= s.subrange(4, 4 + n as int));
            assert(s.skip(4 + n as int) =~= blob@.skip(i as int + 4 + n as int));
        }
        let ghost out_before = out.deep_view();
        out.push(rec);
        proof {
            assert(out.deep_view() =~~= out_before.push(rec@));
        }
        i = i + 4 + n;
        proof {
            let s2 = blob@.skip(i as int);
            assert(decode_records(s) == (match decode_records(s2) {
                Option::None => Option::<Seq<Seq<u8>>>::None,
                Option::Some(rest) => Option::Some(seq![rec@] + rest),
            }));
            if let Option::Some(rest) = decode_records(s2) {
                assert(out_before + (seq![rec@] + rest) =~~= out.deep_view() + rest);
            }
        }
    }
    assert(blob@.skip(i as int) =~= Seq::<u8>::empty());
    assert(decode_records(blob@) == Option::Some(out.deep_view() + Seq::<Seq<u8>>::empty()));
    assert(out.deep_view() + Seq::<Seq<u8>>::empty() =~~= out.deep_view());
    Some(out)
}

} // verus!
