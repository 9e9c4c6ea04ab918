//! Maps a guest executable's loadable segments into emulator DRAM, next to
//! the calldata region.
use vstd::prelude::*;

verus! {

/// Guest address at which DRAM starts.
pub const DRAM_BASE: u64 = 0x8000_0000;

/// Size of the emulator's DRAM in bytes.
pub const DRAM_SIZE: u64 = 0x4000_0000;

/// Size of the calldata region at DRAM offset zero.
pub const CALLDATA_REGION_SIZE: usize = 0x10_0000;

/// Program header type of a loadable segment.
pub const PT_LOAD: u32 = 1;

/// The fields of an ELF program header that loading reads.
#[derive(Copy, Clone, Debug, PartialEq, Eq, Structural)]
pub struct ProgramHeader {
    pub p_type: u32,
    pub p_offset: u64,
    pub p_vaddr: u64,
    pub p_filesz: u64,
    pub p_memsz: u64,
}

/// What loading needs of a parsed executable: its entry point and program headers.
pub struct ElfImage {
    pub entry: u64,
    pub program_headers: Vec<ProgramHeader>,
}

/// Why a guest could not be loaded.
#[derive(Copy, Clone, Debug, PartialEq, Eq, Structural)]
pub enum LoadError {
    /// The executable is malformed or a loadable segment falls outside DRAM.
    BadImage,
    /// The calldata does not fit the calldata region behind its length prefix.
    CalldataTooLarge,
}

/// The little-endian bytes of a 64-bit integer.
pub open spec fn le_bytes(n: u64) -> Seq<u8> {
    Seq::new(8, |i: int| ((n >> (8 * i) as u64) & 0xff) as u8)
}

/// A loadable segment lies inside DRAM and reads only bytes that the file has.
pub open spec fn conformant(h: ProgramHeader, elf_len: nat) -> bool {
    &&& h.p_vaddr >= DRAM_BASE
    &&& h.p_vaddr - DRAM_BASE + h.p_memsz <= DRAM_SIZE
    &&& h.p_filesz <= h.p_memsz
    &&& h.p_offset + h.p_filesz <= elf_len
}

/// Every loadable segment among `hs` is conformant.
pub open spec fn all_conformant(hs: Seq<ProgramHeader>, elf_len: nat) -> bool {
    forall|i: int| 0 <= i < hs.len() && (#[trigger] hs[i]).p_type == PT_LOAD ==> conformant(hs[i], elf_len)
}

/// DRAM offset at which a segment starts.
pub open spec fn seg_start(h: ProgramHeader) -> int {
    h.p_vaddr - DRAM_BASE
}

/// The calldata region: the payload length as little-endian u64, the payload,
/// then zeros.
pub open spec fn seeded_region(data: Seq<u8>) -> Seq<u8> {
    Seq::new(
        CALLDATA_REGION_SIZE as nat,
        |i: int|
            if i < 8 {
                le_bytes(data.len() as u64)[i]
            } else if i < 8 + data.len() {
                data[i - 8]
            } else {
                0u8
            },
    )
}

/// DRAM after one segment is loaded: grown with zeros to hold the whole segment,
/// the file bytes copied to its start, everything else kept.
pub open spec fn load_segment(mem: Seq<u8>, h: ProgramHeader, elf: Seq<u8>) -> Seq<u8> {
    let start = seg_start(h);
    let end = start + h.p_memsz;
    let len = if mem.len() < end { end } else { mem.len() as int };
    Seq::new(
        len as nat,
        |i: int|
            if start <= i < start + h.p_filesz {
                elf[h.p_offset + (i - start)]
            } else if i < mem.len() {
                mem[i]
            } else {
                0u8
            },
    )
}

/// DRAM after the loadable segments among `hs` are loaded in order.
pub open spec fn load_segments(mem: Seq<u8>, hs: Seq<ProgramHeader>, elf: Seq<u8>) -> Seq<u8>
    decreases hs.len(),
{
    if hs.len() == 0 {
        mem
    } else {
        let prev = load_segments(mem, hs.drop_last(), elf);
        if hs.last().p_type == PT_LOAD {
            load_segment(prev, hs.last(), elf)
        } else {
            prev
        }
    }
}

/// The whole DRAM image that a guest starts from.
pub open spec fn initial_dram(data: Seq<u8>, hs: Seq<ProgramHeader>, elf: Seq<u8>) -> Seq<u8> {
    load_segments(seeded_region(data), hs, elf)
}

/// Checks one loadable segment against DRAM's bounds and the file's length.
pub fn check_segment(h: &ProgramHeader, elf_len: usize) -> (r: bool)
    ensures
        r == conformant(*h, elf_len as nat),
{
    if h.p_vaddr < DRAM_BASE {
        return false;
    }
    let start = h.p_vaddr - DRAM_BASE;
    if h.p_memsz > DRAM_SIZE || start > DRAM_SIZE - h.p_memsz {
        return false;
    }
    if h.p_filesz > h.p_memsz {
        return false;
    }
    h.p_offset <= elf_len as u64 && h.p_filesz <= elf_len as u64 - h.p_offset
}

/// Fills the calldata region: length prefix, then payload, then zeros.
pub fn seed_calldata(call_data: &[u8]) -> (r: Result<Vec<u8>, LoadError>)
    ensures
        r matches Ok(mem) ==> mem@ == seeded_region(call_data@),
        r is Err <==> call_data@.len() + 8 > CALLDATA_REGION_SIZE,
        r matches Err(e) ==> e == LoadError::CalldataTooLarge,
{
    if call_data.len() > CALLDATA_REGION_SIZE - 8 {
        return Err(LoadError::CalldataTooLarge);
    }
    let n = call_data.len() as u64;
    let mut mem: Vec<u8> = Vec::with_capacity(CALLDATA_REGION_SIZE);
    let mut i: usize = 0;
    while i < 8
        invariant
            i <= 8,
            mem@.len() == i,
            forall|j: int| 0 <= j < i ==> mem@[j] == le_bytes(n)[j],
        decreases 8 - i,
    {
        mem.push(((n >> (8 * i) as u64) & 0xff) as u8);
        i = i + 1;
    }
    let mut k: usize = 0;
    while k < call_data.len()
        invariant
            k <= call_data@.len(),
            call_data@.len() + 8 <= CALLDATA_REGION_SIZE,
            mem@.len() == 8 + k,
            forall|j: int| 0 <= j < 8 ==> mem@[j] == le_bytes(n)[j],
            forall|j: int| 8 <= j < 8 + k ==> mem@[j] == call_data@[j - 8],
        decreases call_data@.len() - k,
    {
        mem.push(call_data[k]);
        k = k + 1;
    }
    while mem.len() < CALLDATA_REGION_SIZE
        invariant
            8 + call_data@.len() <= mem@.len() <= CALLDATA_REGION_SIZE,
            forall|j: int| 0 <= j < 8 ==> mem@[j] == le_bytes(n)[j],
            forall|j: int| 8 <= j < 8 + call_data@.len() ==> mem@[j] == call_data@[j - 8],
            forall|j: int| 8 + call_data@.len() <= j < mem@.len() ==> mem@[j] == 0,
        decreases CALLDATA_REGION_SIZE - mem@.len(),
    {
        mem.push(0u8);
    }
    assert(mem@ =~= seeded_region(call_data@));
    Ok(mem)
}

} // verus!

verus! {

/// Loads one conformant segment: grows DRAM with zeros to hold it and copies
/// its file bytes.
fn load_segment_into(mem: &mut Vec<u8>, h: &ProgramHeader, elf: &[u8])
    requires
        conformant(*h, elf@.len()),
        old(mem)@.len() <= DRAM_SIZE,
    ensures
        final(mem)@ == load_segment(old(mem)@, *h, elf@),
        final(mem)@.len() <= DRAM_SIZE,
{
    let start = (h.p_vaddr - DRAM_BASE) as usize;
    let end = start + h.p_memsz as usize;
    if mem.len() < end {
        mem.resize(end, 0u8);
        assert(forall|i: int| old(mem)@.len() <= i < end ==> mem@[i] == 0u8);
    }
    let ghost grown = mem@;
    assert(forall|i: int| old(mem)@.len() <= i < grown.len() ==> grown[i] == 0u8);
    assert(grown.len() == if old(mem)@.len() < end { end as int } else { old(mem)@.len() as int });
    assert(forall|i: int| 0 <= i < old(mem)@.len() ==> grown[i] == old(mem)@[i]) by {
        if old(mem)@.len() < end {
            assert(grown.subrange(0, old(mem)@.len() as int) == old(mem)@);
        }
    }
    let elf_len = elf.len();
    let off = h.p_offset as usize;
    let n = h.p_filesz as usize;
    let mut j: usize = 0;
    while j < n
        invariant
            j <= n,
            n == h.p_filesz,
            off == h.p_offset,
            start == seg_start(*h),
            start + n <= grown.len(),
            grown.len() <= DRAM_SIZE,
            off + n <= elf@.len(),
            elf_len == elf@.len(),
            forall|i: int| old(mem)@.len() <= i < grown.len() ==> grown[i] == 0u8,
            forall|i: int| 0 <= i < old(mem)@.len() ==> grown[i] == old(mem)@[i],
            grown.len() == if old(mem)@.len() < seg_start(*h) + h.p_memsz {
                seg_start(*h) + h.p_memsz
            } else {
                old(mem)@.len() as int
            },
            mem@.len() == grown.len(),
            forall|i: int| 0 <= i < mem@.len() && !(start <= i < start + j) ==> mem@[i] == grown[i],
            forall|i: int| start <= i < start + j ==> mem@[i] == elf@[off + (i - start)],
        decreases n - j,
    {
        mem.set(start + j, elf[off + j]);
        j = j + 1;
    }
    let ghost want = load_segment(old(mem)@, *h, elf@);
    assert(mem@.len() == want.len());
    assert forall|i: int| 0 <= i < want.len() implies mem@[i] == want[i] by {
        if start <= i < start + n {
            assert(mem@[i] == elf@[off + (i - start)]);
            assert(want[i] == elf@[h.p_offset + (i - start)]);
        } else if i < old(mem)@.len() {
            assert(mem@[i] == grown[i]);
            assert(want[i] == old(mem)@[i]);
        } else {
            assert(mem@[i] == grown[i]);
            assert(want[i] == 0u8);
        }
    }
    assert(mem@ =~= want);
}

/// Loads every loadable segment in order; a later segment overwrites an
/// earlier one where they overlap.
pub fn load_sections(mem: &mut Vec<u8>, headers: &[ProgramHeader], elf: &[u8]) -> (r: Result<(), LoadError>)
    requires
        old(mem)@.len() <= DRAM_SIZE,
    ensures
        r is Ok <==> all_conformant(headers@, elf@.len()),
        r matches Err(e) ==> e == LoadError::BadImage,
        r is Ok ==> final(mem)@ == load_segments(old(mem)@, headers@, elf@),
        final(mem)@.len() <= DRAM_SIZE,
{
    let mut i: usize = 0;
    while i < headers.len()
        invariant
            i <= headers@.len(),
            mem@.len() <= DRAM_SIZE,
            all_conformant(headers@.subrange(0, i as int), elf@.len()),
            mem@ == load_segments(old(mem)@, headers@.subrange(0, i as int), elf@),
        decreases headers@.len() - i,
    {
        let h = &headers[i];
        assert(headers@.subrange(0, i + 1).drop_last() =~= headers@.subrange(0, i as int));
        assert(headers@.subrange(0, i + 1).last() == headers@[i as int]);
        if h.p_type == PT_LOAD {
            if !check_segment(h, elf.len()) {
                assert(!all_conformant(headers@, elf@.len())) by {
                    assert(headers@[i as int].p_type == PT_LOAD);
                }
                return Err(LoadError::BadImage);
            }
            load_segment_into(mem, h, elf);
        }
        assert(all_conformant(headers@.subrange(0, i + 1), elf@.len())) by {
            assert forall|k: int| 0 <= k < i + 1 && (#[trigger] headers@.subrange(0, i + 1)[k]).p_type == PT_LOAD
                implies conformant(headers@.subrange(0, i + 1)[k], elf@.len()) by {
                if k < i {
                    assert(headers@.subrange(0, i + 1)[k] == headers@.subrange(0, i as int)[k]);
                }
            }
        }
        i = i + 1;
    }
    assert(headers@.subrange(0, headers@.len() as int) =~= headers@);
    Ok(())
}

/// Builds the DRAM image a guest starts from: the calldata region, then the
/// executable's loadable segments.
pub fn build_dram(image: &ElfImage, elf: &[u8], call_data: &[u8]) -> (r: Result<Vec<u8>, LoadError>)
    ensures
        r matches Err(LoadError::CalldataTooLarge) <==> call_data@.len() + 8 > CALLDATA_REGION_SIZE,
        r matches Err(LoadError::BadImage) <==> call_data@.len() + 8 <= CALLDATA_REGION_SIZE
            && !all_conformant(image.program_headers@, elf@.len()),
        r matches Ok(mem) ==> mem@ == initial_dram(call_data@, image.program_headers@, elf@),
        r matches Ok(mem) ==> mem@.len() <= DRAM_SIZE,
{
    let mut mem = match seed_calldata(call_data) {
        Ok(m) => m,
        Err(e) => return Err(e),
    };
    match load_sections(&mut mem, image.program_headers.as_slice(), elf) {
        Ok(()) => Ok(mem),
        Err(e) => Err(e),
    }
}

} // verus!

verus! {

/// DRAM offset `p` lies in the file bytes that segment `h` copies.
pub open spec fn in_file_range(h: ProgramHeader, p: int) -> bool {
    seg_start(h) <= p < seg_start(h) + h.p_filesz
}

/// The file bytes of loadable segment `h` miss DRAM offset `p`.
pub open spec fn misses(h: ProgramHeader, p: int) -> bool {
    h.p_type == PT_LOAD ==> !in_file_range(h, p)
}

proof fn lemma_load_segments_grows(mem: Seq<u8>, hs: Seq<ProgramHeader>, elf: Seq<u8>)
    ensures
        load_segments(mem, hs, elf).len() >= mem.len(),
    decreases hs.len(),
{
    if hs.len() > 0 {
        lemma_load_segments_grows(mem, hs.drop_last(), elf);
    }
}

proof fn lemma_load_segments_keeps(mem: Seq<u8>, hs: Seq<ProgramHeader>, elf: Seq<u8>, p: int)
    requires
        0 <= p < mem.len(),
        forall|j: int| 0 <= j < hs.len() ==> misses(#[trigger] hs[j], p),
    ensures
        load_segments(mem, hs, elf)[p] == mem[p],
    decreases hs.len(),
{
    lemma_load_segments_grows(mem, hs, elf);
    if hs.len() > 0 {
        let init = hs.drop_last();
        assert forall|j: int| 0 <= j < init.len() implies misses(#[trigger] init[j], p) by {
            assert(init[j] == hs[j]);
        }
        lemma_load_segments_keeps(mem, init, elf, p);
        lemma_load_segments_grows(mem, init, elf);
        assert(misses(hs[hs.len() - 1], p));
    }
}

proof fn lemma_load_segments_append(mem: Seq<u8>, a: Seq<ProgramHeader>, b: Seq<ProgramHeader>, elf: Seq<u8>)
    ensures
        load_segments(mem, a + b, elf) == load_segments(load_segments(mem, a, elf), b, elf),
    decreases b.len(),
{
    if b.len() == 0 {
        assert(a + b =~= a);
    } else {
        assert((a + b).drop_last() =~= a + b.drop_last());
        assert((a + b).last() == b.last());
        lemma_load_segments_append(mem, a, b.drop_last(), elf);
    }
}

/// Loading places each conformant segment's file bytes at its DRAM offset,
/// unless a later segment's file bytes overwrite them.
pub proof fn lemma_segment_bytes_loaded(data: Seq<u8>, hs: Seq<ProgramHeader>, elf: Seq<u8>, i: int, k: int)
    requires
        data.len() + 8 <= CALLDATA_REGION_SIZE,
        all_conformant(hs, elf.len()),
        0 <= i < hs.len(),
        hs[i].p_type == PT_LOAD,
        0 <= k < hs[i].p_filesz,
        forall|j: int| i < j < hs.len() ==> misses(#[trigger] hs[j], seg_start(hs[i]) + k),
    ensures
        initial_dram(data, hs, elf)[seg_start(hs[i]) + k] == elf[hs[i].p_offset + k],
        seg_start(hs[i]) + k < initial_dram(data, hs, elf).len(),
{
    let h = hs[i];
    let p = seg_start(h) + k;
    let a = hs.subrange(0, i + 1);
    let b = hs.subrange(i + 1, hs.len() as int);
    assert(hs =~= a + b);
    lemma_load_segments_append(seeded_region(data), a, b, elf);
    let mid = load_segments(seeded_region(data), a, elf);
    assert(a.drop_last() =~= hs.subrange(0, i));
    assert(a.last() == h);
    assert(conformant(h, elf.len()));
    assert(mid[p] == elf[h.p_offset + k]);
    assert forall|j: int| 0 <= j < b.len() implies misses(#[trigger] b[j], p) by {
        assert(b[j] == hs[i + 1 + j]);
    }
    lemma_load_segments_keeps(mid, b, elf, p);
    lemma_load_segments_grows(mid, b, elf);
}

proof fn lemma_le_round_trip(n: u64)
    ensures
        crate::storage::u64_from_le(le_bytes(n)) == n,
{
    let b = le_bytes(n);
    let b0 = b[0];
    let b1 = b[1];
    let b2 = b[2];
    let b3 = b[3];
    let b4 = b[4];
    let b5 = b[5];
    let b6 = b[6];
    let b7 = b[7];
    assert(b0 == ((n >> 0u64) & 0xff) as u8);
    assert(b1 == ((n >> 8u64) & 0xff) as u8);
    assert(b2 == ((n >> 16u64) & 0xff) as u8);
    assert(b3 == ((n >> 24u64) & 0xff) as u8);
    assert(b4 == ((n >> 32u64) & 0xff) as u8);
    assert(b5 == ((n >> 40u64) & 0xff) as u8);
    assert(b6 == ((n >> 48u64) & 0xff) as u8);
    assert(b7 == ((n >> 56u64) & 0xff) as u8);
    assert((((n >> 0u64) & 0xff) as u8 as u64) | (((n >> 8u64) & 0xff) as u8 as u64) << 8u64 | (((n >> 16u64)
        & 0xff) as u8 as u64) << 16u64 | (((n >> 24u64) & 0xff) as u8 as u64) << 24u64 | (((n >> 32u64) & 0xff)
        as u8 as u64) << 32u64 | (((n >> 40u64) & 0xff) as u8 as u64) << 40u64 | (((n >> 48u64) & 0xff) as u8
        as u64) << 48u64 | (((n >> 56u64) & 0xff) as u8 as u64) << 56u64 == n) by (bit_vector);
}

/// The file bytes of loadable segment `h` miss the length prefix at DRAM
/// offsets 0 to 8.
pub open spec fn spares_length_prefix(h: ProgramHeader) -> bool {
    h.p_type == PT_LOAD ==> seg_start(h) >= 8 || seg_start(h) + h.p_filesz <= 0
}

/// The first eight bytes of the loaded DRAM spell the calldata length,
/// little-endian, unless a segment's file bytes overwrite them.
pub proof fn lemma_calldata_length_loaded(data: Seq<u8>, hs: Seq<ProgramHeader>, elf: Seq<u8>)
    requires
        data.len() + 8 <= CALLDATA_REGION_SIZE,
        forall|j: int| 0 <= j < hs.len() ==> spares_length_prefix(#[trigger] hs[j]),
    ensures
        crate::storage::u64_from_le(initial_dram(data, hs, elf).subrange(0, 8)) == data.len(),
        initial_dram(data, hs, elf).len() >= 8,
{
    let mem = seeded_region(data);
    let out = initial_dram(data, hs, elf);
    assert forall|p: int| 0 <= p < 8 implies out[p] == le_bytes(data.len() as u64)[p] by {
        assert forall|j: int| 0 <= j < hs.len() implies misses(#[trigger] hs[j], p) by {
            assert(spares_length_prefix(hs[j]));
        }
        lemma_load_segments_keeps(mem, hs, elf, p);
    }
    lemma_load_segments_grows(mem, hs, elf);
    assert(out.subrange(0, 8) =~= le_bytes(data.len() as u64));
    lemma_le_round_trip(data.len() as u64);
}

} // verus!

verus! {

/// A loadable segment whose last byte is DRAM's last byte is accepted when
/// its file bytes exist; one that reaches a byte further is rejected.
pub proof fn lemma_last_dram_byte(h: ProgramHeader, elf_len: nat)
    requires
        h.p_vaddr >= DRAM_BASE,
    ensures
        h.p_vaddr - DRAM_BASE + h.p_memsz == DRAM_SIZE && h.p_filesz <= h.p_memsz && h.p_offset + h.p_filesz
            <= elf_len ==> conformant(h, elf_len),
        h.p_vaddr - DRAM_BASE + h.p_memsz == DRAM_SIZE + 1 ==> !conformant(h, elf_len),
{
}

} // verus!
