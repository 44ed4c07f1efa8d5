//! Reading an application image out of the bytes of an ELF file.

use crate::image::AppImage;
use crate::image::Segment;
use vstd::prelude::*;

verus! {

/// Bytes in the file header.
pub const ELF_HEADER_SIZE: usize = 64;

/// Bytes that are read of each program header.
pub const PROGRAM_HEADER_SIZE: usize = 56;

/// The type of a program header that describes a loadable segment.
pub const PT_LOAD: usize = 1;

/// The number that the `n` bytes at `off` hold, least significant byte
/// first.
pub open spec fn field(bytes: Seq<u8>, off: int, n: nat) -> int
    decreases n,
{
    if n == 0 {
        0
    } else {
        bytes[off] + 256 * field(bytes, off + 1, (n - 1) as nat)
    }
}

/// Where execution starts.
pub open spec fn elf_entry(bytes: Seq<u8>) -> int {
    field(bytes, 24, 8)
}

/// How many program headers the file has.
pub open spec fn elf_header_count(bytes: Seq<u8>) -> int {
    field(bytes, 56, 2)
}

/// Where program header `i` starts in the file.
pub open spec fn header_at(bytes: Seq<u8>, i: int) -> int {
    field(bytes, 32, 8) + i * field(bytes, 54, 2)
}

/// Whether program header `i` describes a loadable segment.
pub open spec fn is_load(bytes: Seq<u8>, i: int) -> bool {
    field(bytes, header_at(bytes, i), 4) == PT_LOAD
}

/// The segment that program header `i` describes.
pub open spec fn segment_at(bytes: Seq<u8>, i: int) -> Segment {
    let at = header_at(bytes, i);
    Segment {
        start_va: field(bytes, at + 16, 8) as usize,
        mem_size: field(bytes, at + 40, 8) as usize,
        flags: field(bytes, at + 4, 4) as u32,
        file_offset: field(bytes, at + 8, 8) as usize,
        file_size: field(bytes, at + 32, 8) as usize,
    }
}

/// Whether program header `i` lies inside the file and, if it describes a
/// loadable segment, names addresses and sizes that fit the machine word
/// and file contents that lie inside the file.
pub open spec fn header_ok(bytes: Seq<u8>, i: int) -> bool {
    let at = header_at(bytes, i);
    &&& at + PROGRAM_HEADER_SIZE <= bytes.len()
    &&& is_load(bytes, i) ==> {
        &&& field(bytes, at + 16, 8) <= usize::MAX
        &&& field(bytes, at + 40, 8) <= usize::MAX
        &&& field(bytes, at + 8, 8) + field(bytes, at + 32, 8) <= bytes.len()
    }
}

/// The loadable segments among the first `k` program headers, in the order
/// of the headers.
pub open spec fn loads(bytes: Seq<u8>, k: nat) -> Seq<Segment>
    decreases k,
{
    if k == 0 {
        Seq::empty()
    } else if is_load(bytes, k - 1) {
        loads(bytes, (k - 1) as nat).push(segment_at(bytes, k - 1))
    } else {
        loads(bytes, (k - 1) as nat)
    }
}

/// Whether the bytes are an ELF file that an image can be read from: they
/// hold a file header that starts with the magic number, an entry point
/// that fits the machine word, and program headers that are all in order.
pub open spec fn elf_ok(bytes: Seq<u8>) -> bool {
    &&& bytes.len() >= ELF_HEADER_SIZE
    &&& bytes[0] == 0x7f
    &&& bytes[1] == 0x45
    &&& bytes[2] == 0x4c
    &&& bytes[3] == 0x46
    &&& elf_entry(bytes) <= usize::MAX
    &&& forall|i: int| 0 <= i < elf_header_count(bytes) ==> header_ok(bytes, i)
}

/// A number of `n` bytes is not negative and below 256 to the `n`; for the
/// widths that the format uses, that is a bound in so many words.
pub proof fn field_bounds(bytes: Seq<u8>, off: int, n: nat)
    requires
        0 <= off,
        off + n <= bytes.len(),
    ensures
        0 <= field(bytes, off, n),
        n == 2 ==> field(bytes, off, n) < 0x1_0000,
        n == 4 ==> field(bytes, off, n) < 0x1_0000_0000,
{
    field_nonnegative(bytes, off, n);
    reveal_with_fuel(field, 5);
}

/// The upper bytes of a number are no more than the number.
proof fn field_tail(bytes: Seq<u8>, off: int, n: nat, i: nat)
    requires
        0 <= off,
        off + n <= bytes.len(),
        i <= n,
    ensures
        0 <= field(bytes, off + i, (n - i) as nat) <= field(bytes, off, n),
    decreases i,
{
    if i == 0 {
        field_nonnegative(bytes, off, n);
    } else {
        field_tail(bytes, off + 1, (n - 1) as nat, (i - 1) as nat);
        assert(off + 1 + (i - 1) == off + i);
        assert((n - 1) - (i - 1) == n - i);
    }
}

/// A number of bytes is not negative.
proof fn field_nonnegative(bytes: Seq<u8>, off: int, n: nat)
    requires
        0 <= off,
        off + n <= bytes.len(),
    ensures
        0 <= field(bytes, off, n),
    decreases n,
{
    if n > 0 {
        field_nonnegative(bytes, off + 1, (n - 1) as nat);
    }
}

/// Reads the number that the `n` bytes at `off` hold, if they lie inside
/// the file and the number fits the machine word.
pub fn read_field(bytes: &[u8], off: usize, n: usize) -> (r: Option<usize>)
    ensures
        r is Some <==> off + n <= bytes@.len() && field(bytes@, off as int, n as nat)
            <= usize::MAX,
        r matches Some(v) ==> v == field(bytes@, off as int, n as nat),
{
    if off > bytes.len() || n > bytes.len() - off {
        return None;
    }
    let mut v: usize = 0;
    let mut i: usize = n;
    while i > 0
        invariant
            i <= n,
            off + n <= bytes@.len(),
            bytes@.len() <= usize::MAX,
            v == field(bytes@, off + i, (n - i) as nat),
        decreases i,
    {
        let b: u8 = bytes[off + i - 1];
        proof {
            assert(field(bytes@, off + i - 1, (n - i + 1) as nat) == b + 256 * field(
                bytes@,
                off + i,
                (n - i) as nat,
            ));
            field_tail(bytes@, off as int, n as nat, (i - 1) as nat);
        }
        if v > (usize::MAX - b as usize) / 256 {
            return None;
        }
        v = v * 256 + b as usize;
        i -= 1;
    }
    Some(v)
}

/// Reads program header `i`, which starts at `at`: `None` if it is not in
/// order, else the segment it describes, if it describes one.
fn read_header(bytes: &[u8], at: usize, Ghost(i): Ghost<int>) -> (r: Option<Option<Segment>>)
    requires
        at == header_at(bytes@, i),
    ensures
        r is Some <==> header_ok(bytes@, i),
        r matches Some(s) ==> s == (if is_load(bytes@, i) {
            Some(segment_at(bytes@, i))
        } else {
            None
        }),
{
    if at > bytes.len() || bytes.len() - at < PROGRAM_HEADER_SIZE {
        return None;
    }
    proof {
        field_bounds(bytes@, at as int, 4);
        field_bounds(bytes@, at + 4, 4);
        field_nonnegative(bytes@, at + 8, 8);
        field_nonnegative(bytes@, at + 32, 8);
    }
    let kind = match read_field(bytes, at, 4) {
        None => {
            return None;
        },
        Some(k) => k,
    };
    if kind != PT_LOAD {
        return Some(None);
    }
    let flags = match read_field(bytes, at + 4, 4) {
        None => {
            return None;
        },
        Some(f) => f,
    };
    let start_va = match read_field(bytes, at + 16, 8) {
        None => {
            return None;
        },
        Some(v) => v,
    };
    let mem_size = match read_field(bytes, at + 40, 8) {
        None => {
            return None;
        },
        Some(v) => v,
    };
    let file_offset = match read_field(bytes, at + 8, 8) {
        None => {
            return None;
        },
        Some(v) => v,
    };
    let file_size = match read_field(bytes, at + 32, 8) {
        None => {
            return None;
        },
        Some(v) => v,
    };
    if file_offset > bytes.len() || file_size > bytes.len() - file_offset {
        return None;
    }
    Some(Some(Segment { start_va, mem_size, flags: flags as u32, file_offset, file_size }))
}

impl AppImage {
    /// Reads the image out of the bytes of an ELF file: the entry point and
    /// the loadable segments, in the order of their program headers. `None`
    /// if the bytes are no ELF file that an image can be read from.
    pub fn from_bytes(elf_data: &[u8]) -> (r: Option<AppImage>)
        ensures
            r is Some <==> elf_ok(elf_data@),
            r matches Some(image) ==> {
                &&& image.entry == elf_entry(elf_data@)
                &&& image.segments@ == loads(elf_data@, elf_header_count(elf_data@) as nat)
            },
    {
        if elf_data.len() < ELF_HEADER_SIZE {
            return None;
        }
        if elf_data[0] != 0x7f || elf_data[1] != 0x45 || elf_data[2] != 0x4c || elf_data[3] != 0x46 {
            return None;
        }
        proof {
            field_bounds(elf_data@, 54, 2);
            field_bounds(elf_data@, 56, 2);
            field_nonnegative(elf_data@, 32, 8);
        }
        let entry = match read_field(elf_data, 24, 8) {
            None => {
                return None;
            },
            Some(e) => e,
        };
        let count = match read_field(elf_data, 56, 2) {
            None => {
                return None;
            },
            Some(c) => c,
        };
        let size = match read_field(elf_data, 54, 2) {
            None => {
                return None;
            },
            Some(s) => s,
        };
        let mut segments: Vec<Segment> = Vec::new();
        if count == 0 {
            return Some(AppImage { entry, segments });
        }
        let mut at = match read_field(elf_data, 32, 8) {
            None => {
                assert(!header_ok(elf_data@, 0)) by {
                    assert(header_at(elf_data@, 0) == field(elf_data@, 32, 8));
                }
                return None;
            },
            Some(p) => p,
        };
        assert(at == header_at(elf_data@, 0));
        let mut i: usize = 0;
        while i < count
            invariant
                i <= count,
                count == elf_header_count(elf_data@),
                size == field(elf_data@, 54, 2),
                size < 0x1_0000,
                elf_data@.len() <= usize::MAX,
                i < count ==> at == header_at(elf_data@, i as int),
                segments@ == loads(elf_data@, i as nat),
                forall|j: int| 0 <= j < i ==> header_ok(elf_data@, j),
            decreases count - i,
        {
            match read_header(elf_data, at, Ghost(i as int)) {
                None => {
                    return None;
                },
                Some(None) => {},
                Some(Some(seg)) => {
                    segments.push(seg);
                },
            }
            let ghost next_at = header_at(elf_data@, i + 1);
            proof {
                assert(next_at == at + size) by (nonlinear_arith)
                    requires
                        next_at == field(elf_data@, 32, 8) + (i + 1) * size,
                        at == field(elf_data@, 32, 8) + i * size,
                ;
            }
            i += 1;
            if i < count {
                at = match at.checked_add(size) {
                    None => {
                        assert(header_at(elf_data@, i as int) == next_at);
                        assert(next_at > usize::MAX);
                        assert(!header_ok(elf_data@, i as int));
                        return None;
                    },
                    Some(p) => p,
                };
            }
        }
        Some(AppImage { entry, segments })
    }
}

} // verus!
