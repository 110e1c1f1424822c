//! The bundle file: `[stub bytes][archive bytes][8-byte little-endian offset]`,
//! where the offset is the length of the stub, i.e. where the archive begins.
use vstd::prelude::*;

verus! {

/// Length of the trailer that closes every bundle file.
pub const TRAILER_LEN: usize = 8;

/// Powers of 256.
pub open spec fn pow256(k: nat) -> nat
    decreases k,
{
    if k == 0 {
        1
    } else {
        256 * pow256((k - 1) as nat)
    }
}

/// The `k` least significant base-256 digits of `n`, least significant first.
pub open spec fn le_bytes(n: nat, k: nat) -> Seq<u8>
    decreases k,
{
    if k == 0 {
        Seq::empty()
    } else {
        seq![(n % 256) as u8] + le_bytes(n / 256, (k - 1) as nat)
    }
}

/// The number that a little-endian byte sequence denotes.
pub open spec fn le_value(s: Seq<u8>) -> nat
    decreases s.len(),
{
    if s.len() == 0 {
        0
    } else {
        s[0] as nat + 256 * le_value(s.drop_first())
    }
}

proof fn lemma_pow256_8()
    ensures
        pow256(8) == 0x1_0000_0000_0000_0000,
{
    reveal_with_fuel(pow256, 9);
}

proof fn lemma_le_bytes_len(n: nat, k: nat)
    ensures
        le_bytes(n, k).len() == k,
    decreases k,
{
    if k > 0 {
        lemma_le_bytes_len(n / 256, (k - 1) as nat);
    }
}

/// Decoding the `k` digits of a number below `256^k` gives the number back.
pub proof fn lemma_le_round_trip(n: nat, k: nat)
    requires
        n < pow256(k),
    ensures
        le_value(le_bytes(n, k)) == n,
    decreases k,
{
    if k > 0 {
        let rest = le_bytes(n / 256, (k - 1) as nat);
        assert(n / 256 < pow256((k - 1) as nat)) by (nonlinear_arith)
            requires
                n < pow256(k),
                pow256(k) == 256 * pow256((k - 1) as nat),
        ;
        lemma_le_round_trip(n / 256, (k - 1) as nat);
        assert(le_bytes(n, k).drop_first() =~= rest);
        assert(n == n % 256 + 256 * (n / 256)) by (nonlinear_arith);
    }
}

/// A little-endian sequence of `k` bytes denotes a number below `256^k`.
pub proof fn lemma_le_value_bound(s: Seq<u8>)
    ensures
        le_value(s) < pow256(s.len()),
    decreases s.len(),
{
    if s.len() > 0 {
        lemma_le_value_bound(s.drop_first());
        let v = le_value(s.drop_first());
        let p = pow256((s.len() - 1) as nat);
        assert(s[0] as nat + 256 * v < 256 * p) by (nonlinear_arith)
            requires
                v < p,
                s[0] < 256,
        ;
    }
}

/// The trailer that records `offset`.
pub open spec fn trailer_of(offset: nat) -> Seq<u8> {
    le_bytes(offset, 8)
}

/// The bundle made of a stub and an archive: stub, archive, then the stub's
/// length as trailer.
pub open spec fn bundle_of(stub: Seq<u8>, archive: Seq<u8>) -> Seq<u8> {
    stub + archive + trailer_of(stub.len())
}

/// The offset that the last eight bytes of `file` record.
pub open spec fn trailer_offset(file: Seq<u8>) -> nat
    recommends
        file.len() >= 8,
{
    le_value(file.subrange(file.len() - 8, file.len() as int))
}

/// A file that can be extracted: it ends in a trailer whose offset lies
/// strictly before the trailer.
pub open spec fn is_extractable(file: Seq<u8>) -> bool {
    file.len() >= 8 && trailer_offset(file) < file.len() - 8
}

/// The archive region of an extractable file: from the offset up to the trailer.
pub open spec fn archive_region(file: Seq<u8>) -> Seq<u8>
    recommends
        is_extractable(file),
{
    file.subrange(trailer_offset(file) as int, file.len() - 8)
}

/// Why a file cannot be extracted.
#[derive(Clone, Copy, Debug, PartialEq, Eq, Structural)]
pub enum FormatError {
    /// The file is shorter than a trailer.
    TooShort,
    /// The trailer's offset does not lie before the trailer.
    OffsetOutOfRange,
}

/// Encodes `offset` as the eight little-endian bytes of a trailer.
pub fn encode_trailer(offset: u64) -> (r: Vec<u8>)
    ensures
        r@ == trailer_of(offset as nat),
        r@.len() == TRAILER_LEN,
{
    let mut out: Vec<u8> = Vec::new();
    let mut rest: u64 = offset;
    let mut i: usize = 0;
    while i < TRAILER_LEN
        invariant
            i <= TRAILER_LEN,
            out@ + le_bytes(rest as nat, (8 - i) as nat) == trailer_of(offset as nat),
        decreases TRAILER_LEN - i,
    {
        let ghost before = out@;
        let ghost k: nat = (8 - i) as nat;
        out.push((rest % 256) as u8);
        proof {
            assert(le_bytes(rest as nat, k) == seq![(rest % 256) as u8] + le_bytes(
                (rest / 256) as nat,
                (k - 1) as nat,
            ));
            assert(out@ + le_bytes((rest / 256) as nat, (k - 1) as nat) =~= before + le_bytes(
                rest as nat,
                k,
            ));
        }
        rest = rest / 256;
        i = i + 1;
    }
    proof {
        assert(out@ + le_bytes(rest as nat, 0) =~= out@);
        lemma_le_bytes_len(offset as nat, 8);
    }
    out
}

/// Decodes the eight little-endian bytes of a trailer.
pub fn decode_trailer(bytes: &[u8]) -> (r: u64)
    requires
        bytes@.len() == TRAILER_LEN,
    ensures
        r as nat == le_value(bytes@),
{
    let mut acc: u64 = 0;
    let mut i: usize = TRAILER_LEN;
    proof {
        assert(bytes@.subrange(8, 8) =~= Seq::<u8>::empty());
    }
    while i > 0
        invariant
            i <= TRAILER_LEN,
            bytes@.len() == TRAILER_LEN,
            acc as nat == le_value(bytes@.subrange(i as int, 8)),
        decreases i,
    {
        let ghost tail = bytes@.subrange(i as int, 8);
        let ghost next = bytes@.subrange(i - 1, 8);
        proof {
            assert(next.drop_first() =~= tail);
            lemma_le_value_bound(tail);
            lemma_pow256_8();
            lemma_pow_mono((8 - i) as nat);
            assert(acc * 256 + bytes@[i - 1] < 0x1_0000_0000_0000_0000) by (nonlinear_arith)
                requires
                    acc < pow256((8 - i) as nat),
                    pow256((8 - i) as nat) * 256 <= 0x1_0000_0000_0000_0000,
                    bytes@[i - 1] < 256,
            ;
        }
        acc = acc * 256 + bytes[i - 1] as u64;
        i = i - 1;
    }
    proof {
        assert(bytes@.subrange(0, 8) =~= bytes@);
    }
    acc
}

proof fn lemma_pow_mono(k: nat)
    requires
        k < 8,
    ensures
        pow256(k) * 256 <= pow256(8),
{
    reveal_with_fuel(pow256, 9);
}

/// Builds a bundle: the stub, then the archive, then the stub's length as
/// trailer.
pub fn assemble_bundle(stub: &[u8], archive: &[u8]) -> (r: Vec<u8>)
    requires
        stub@.len() + archive@.len() + TRAILER_LEN <= usize::MAX,
    ensures
        r@ == bundle_of(stub@, archive@),
{
    let mut out: Vec<u8> = Vec::new();
    let mut i: usize = 0;
    while i < stub.len()
        invariant
            i <= stub@.len(),
            out@ == stub@.subrange(0, i as int),
        decreases stub@.len() - i,
    {
        out.push(stub[i]);
        i = i + 1;
        proof {
            assert(out@ =~= stub@.subrange(0, i as int));
        }
    }
    let mut j: usize = 0;
    while j < archive.len()
        invariant
            j <= archive@.len(),
            i == stub@.len(),
            out@ == stub@ + archive@.subrange(0, j as int),
        decreases archive@.len() - j,
    {
        out.push(archive[j]);
        j = j + 1;
        proof {
            assert(out@ =~= stub@ + archive@.subrange(0, j as int));
        }
    }
    let trailer = encode_trailer(stub.len() as u64);
    let mut k: usize = 0;
    while k < TRAILER_LEN
        invariant
            k <= TRAILER_LEN,
            trailer@.len() == TRAILER_LEN,
            out@ == stub@ + archive@ + trailer@.subrange(0, k as int),
        decreases TRAILER_LEN - k,
    {
        out.push(trailer[k]);
        k = k + 1;
        proof {
            assert(out@ =~= stub@ + archive@ + trailer@.subrange(0, k as int));
        }
    }
    proof {
        assert(trailer@.subrange(0, 8) =~= trailer@);
    }
    out
}

/// Reads the offset that the last eight bytes of `file` record.
pub fn read_offset(file: &[u8]) -> (r: Result<u64, FormatError>)
    ensures
        file@.len() < 8 <==> r == Err::<u64, FormatError>(FormatError::TooShort),
        file@.len() >= 8 ==> (r matches Ok(o) && o as nat == trailer_offset(file@)),
{
    if file.len() < TRAILER_LEN {
        return Err(FormatError::TooShort);
    }
    let n = file.len();
    let mut last: Vec<u8> = Vec::new();
    let mut i: usize = n - TRAILER_LEN;
    while i < n
        invariant
            n == file@.len(),
            n >= 8,
            n - 8 <= i <= n,
            last@ == file@.subrange(n - 8, i as int),
        decreases n - i,
    {
        last.push(file[i]);
        i = i + 1;
        proof {
            assert(last@ =~= file@.subrange(n - 8, i as int));
        }
    }
    Ok(decode_trailer(last.as_slice()))
}

/// The bounds `(start, end)` of the archive region of `file`.
pub fn archive_range(file: &[u8]) -> (r: Result<(usize, usize), FormatError>)
    ensures
        file@.len() < 8 <==> r == Err::<(usize, usize), FormatError>(FormatError::TooShort),
        (file@.len() >= 8 && !is_extractable(file@)) <==> r == Err::<(usize, usize), FormatError>(
            FormatError::OffsetOutOfRange,
        ),
        is_extractable(file@) ==> r == Ok::<(usize, usize), FormatError>(
            (trailer_offset(file@) as usize, (file@.len() - 8) as usize),
        ),
        r matches Ok((start, end)) ==> start < end && end == file@.len() - 8 && start as nat
            == trailer_offset(file@),
{
    match read_offset(file) {
        Err(e) => Err(e),
        Ok(offset) => {
            let end = file.len() - TRAILER_LEN;
            if offset < end as u64 {
                Ok((offset as usize, end))
            } else {
                Err(FormatError::OffsetOutOfRange)
            }
        },
    }
}

/// Copies out the archive region of `file`.
pub fn extract_archive(file: &[u8]) -> (r: Result<Vec<u8>, FormatError>)
    ensures
        file@.len() < 8 <==> r == Err::<Vec<u8>, FormatError>(FormatError::TooShort),
        (file@.len() >= 8 && !is_extractable(file@)) <==> r == Err::<Vec<u8>, FormatError>(
            FormatError::OffsetOutOfRange,
        ),
        is_extractable(file@) ==> (r matches Ok(v) && v@ == archive_region(file@)),
{
    match archive_range(file) {
        Err(e) => Err(e),
        Ok((start, end)) => {
            let mut out: Vec<u8> = Vec::new();
            let mut i: usize = start;
            while i < end
                invariant
                    start <= i <= end,
                    end <= file@.len(),
                    out@ == file@.subrange(start as int, i as int),
                decreases end - i,
            {
                out.push(file[i]);
                i = i + 1;
                proof {
                    assert(out@ =~= file@.subrange(start as int, i as int));
                }
            }
            Ok(out)
        },
    }
}

/// Layout of a bundle: the trailer records the stub's length, which is where
/// the archive begins, and the file's length less the trailer is that offset
/// plus the archive's length.
pub proof fn lemma_bundle_layout(stub: Seq<u8>, archive: Seq<u8>)
    requires
        stub.len() <= u64::MAX,
    ensures
        bundle_of(stub, archive).len() == stub.len() + archive.len() + 8,
        trailer_offset(bundle_of(stub, archive)) == stub.len(),
        bundle_of(stub, archive).len() - 8 == trailer_offset(bundle_of(stub, archive))
            + archive.len(),
        bundle_of(stub, archive).subrange(0, stub.len() as int) == stub,
{
    let f = bundle_of(stub, archive);
    lemma_le_bytes_len(stub.len(), 8);
    assert(f.subrange(f.len() - 8, f.len() as int) =~= trailer_of(stub.len()));
    lemma_pow256_8();
    lemma_le_round_trip(stub.len(), 8);
    assert(f.subrange(0, stub.len() as int) =~= stub);
}

/// Extracting from a bundle gives back exactly the archive it was built with,
/// provided the archive is not empty.
pub proof fn lemma_extract_after_assemble(stub: Seq<u8>, archive: Seq<u8>)
    requires
        stub.len() <= u64::MAX,
        archive.len() > 0,
    ensures
        is_extractable(bundle_of(stub, archive)),
        archive_region(bundle_of(stub, archive)) == archive,
{
    lemma_bundle_layout(stub, archive);
    let f = bundle_of(stub, archive);
    assert(f.subrange(stub.len() as int, f.len() - 8) =~= archive);
}

/// The offset depends on the last eight bytes alone: two files that end in the
/// same eight bytes (among them, the same file read twice) give the same
/// offset and, if of the same length, the same archive region bounds.
pub proof fn lemma_offset_from_trailer_alone(a: Seq<u8>, b: Seq<u8>)
    requires
        a.len() >= 8,
        b.len() >= 8,
        a.subrange(a.len() - 8, a.len() as int) == b.subrange(b.len() - 8, b.len() as int),
    ensures
        trailer_offset(a) == trailer_offset(b),
        a.len() == b.len() ==> (is_extractable(a) <==> is_extractable(b)),
{
}

} // verus!
