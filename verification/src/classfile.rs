//! The class-file parser: big-endian binary reading, the constant pool
//! with its cross-indexed entries, and the class header.
//!
//! The parser is pure: it turns bytes into structures or a typed error
//! and neither does I/O nor loads referenced classes.  Pool indices are
//! 1-based; index 0 and indices at or beyond the pool count are rejected.
//! A `long` or `double` entry consumes two slots, the second of which is
//! unusable.  Strings are checked as UTF-8 (standard UTF-8, not the
//! modified form class files use for embedded zeros and supplementary
//! characters: those class files are rejected rather than misread).

use vstd::prelude::*;

use crate::def::{spec_tag_from_u8, Constant, ConstantPoolTags, ACC_INTERFACE};

verus! {

/// Why a class file was rejected.
#[derive(Clone, Copy, PartialEq, Eq, Structural, Debug)]
pub enum ClassFileError {
    /// The first word is not the class-file magic.
    BadMagic,
    /// The file ends before the structure it promises.
    UnexpectedEOF,
    /// A constant-pool index is 0 or at least the pool count.
    PoolIndexOutOfRange,
    /// An unknown constant-pool tag byte.
    BadPoolTag,
    /// A string entry is not valid UTF-8.
    BadUtf8,
    /// A class that is neither an interface nor `java.lang.Object` has no
    /// super class.
    NoSuperclass,
    /// A cross-indexed pool entry has the wrong kind.
    WrongPoolEntryKind,
    /// A method carries no `Code` attribute.
    MissingCodeAttribute,
}

/// The big-endian 16-bit word at position `i`.
pub open spec fn be_u16(s: Seq<u8>, i: int) -> int {
    s[i] * 0x100 + s[i + 1]
}

/// The big-endian 32-bit word at position `i`.
pub open spec fn be_u32(s: Seq<u8>, i: int) -> int {
    s[i] * 0x1000000 + s[i + 1] * 0x10000 + s[i + 2] * 0x100 + s[i + 3]
}

/// The big-endian 64-bit word at position `i`.
pub open spec fn be_u64(s: Seq<u8>, i: int) -> int {
    be_u32(s, i) * 0x100000000 + be_u32(s, i + 4)
}

/// Read one byte.
pub fn read_u8(bytes: &Vec<u8>, pos: &mut usize) -> (r: Result<u8, ClassFileError>)
    ensures
        *old(pos) + 1 <= bytes@.len() ==> r == Ok::<u8, ClassFileError>(
            bytes@[*old(pos) as int],
        ) && *final(pos) == *old(pos) + 1,
        *old(pos) + 1 > bytes@.len() ==> r == Err::<u8, ClassFileError>(
            ClassFileError::UnexpectedEOF,
        ) && *final(pos) == *old(pos),
{
    if *pos < bytes.len() {
        let v = bytes[*pos];
        *pos += 1;
        Ok(v)
    } else {
        Err(ClassFileError::UnexpectedEOF)
    }
}

/// Read one big-endian 16-bit word.
pub fn read_u16(bytes: &Vec<u8>, pos: &mut usize) -> (r: Result<u16, ClassFileError>)
    ensures
        *old(pos) + 2 <= bytes@.len() ==> r is Ok && r.unwrap() == be_u16(
            bytes@,
            *old(pos) as int,
        ) && *final(pos) == *old(pos) + 2,
        *old(pos) + 2 > bytes@.len() ==> r == Err::<u16, ClassFileError>(
            ClassFileError::UnexpectedEOF,
        ) && *final(pos) == *old(pos),
{
    if bytes.len() >= 2 && *pos <= bytes.len() - 2 {
        let hi = bytes[*pos] as u16;
        let lo = bytes[*pos + 1] as u16;
        *pos += 2;
        Ok(hi * 0x100 + lo)
    } else {
        Err(ClassFileError::UnexpectedEOF)
    }
}

/// Read one big-endian 32-bit word.
pub fn read_u32(bytes: &Vec<u8>, pos: &mut usize) -> (r: Result<u32, ClassFileError>)
    ensures
        *old(pos) + 4 <= bytes@.len() ==> r is Ok && r.unwrap() == be_u32(
            bytes@,
            *old(pos) as int,
        ) && *final(pos) == *old(pos) + 4,
        *old(pos) + 4 > bytes@.len() ==> r == Err::<u32, ClassFileError>(
            ClassFileError::UnexpectedEOF,
        ) && *final(pos) == *old(pos),
{
    if bytes.len() >= 4 && *pos <= bytes.len() - 4 {
        let b0 = bytes[*pos] as u32;
        let b1 = bytes[*pos + 1] as u32;
        let b2 = bytes[*pos + 2] as u32;
        let b3 = bytes[*pos + 3] as u32;
        *pos += 4;
        Ok(b0 * 0x1000000 + b1 * 0x10000 + b2 * 0x100 + b3)
    } else {
        Err(ClassFileError::UnexpectedEOF)
    }
}

/// Read one big-endian 64-bit word.
pub fn read_u64(bytes: &Vec<u8>, pos: &mut usize) -> (r: Result<u64, ClassFileError>)
    ensures
        *old(pos) + 8 <= bytes@.len() ==> r is Ok && r.unwrap() == be_u64(
            bytes@,
            *old(pos) as int,
        ) && *final(pos) == *old(pos) + 8,
        *old(pos) + 8 > bytes@.len() ==> r == Err::<u64, ClassFileError>(
            ClassFileError::UnexpectedEOF,
        ) && *final(pos) == *old(pos),
{
    let hi = match read_u32(bytes, pos) {
        Ok(v) => v,
        Err(e) => {
            return Err(e);
        },
    };
    match read_u32(bytes, pos) {
        Ok(lo) => Ok(hi as u64 * 0x100000000 + lo as u64),
        Err(e) => {
            *pos -= 4;
            Err(e)
        },
    }
}

/// Copy `n` raw bytes out of the input.
pub fn read_bytes(bytes: &Vec<u8>, pos: &mut usize, n: usize) -> (r: Result<
    Vec<u8>,
    ClassFileError,
>)
    ensures
        *old(pos) + n <= bytes@.len() ==> r is Ok && r.unwrap()@ == bytes@.subrange(
            *old(pos) as int,
            *old(pos) + n,
        ) && *final(pos) == *old(pos) + n,
        *old(pos) + n > bytes@.len() ==> r == Err::<Vec<u8>, ClassFileError>(
            ClassFileError::UnexpectedEOF,
        ) && *final(pos) == *old(pos),
{
    if n <= bytes.len() && *pos <= bytes.len() - n {
        let blen = bytes.len();
        let mut out: Vec<u8> = Vec::new();
        let mut k: usize = 0;
        while k < n
            invariant
                0 <= k <= n,
                *pos + n <= blen == bytes@.len(),
                out@.len() == k,
                forall|j: int| 0 <= j < k ==> out@[j] == bytes@[*pos + j],
            decreases n - k,
        {
            proof {
                assert(*pos + k < bytes@.len());
            }
            out.push(bytes[*pos + k]);
            k += 1;
        }
        proof {
            assert(out@ =~= bytes@.subrange(*pos as int, *pos + n));
        }
        *pos += n;
        Ok(out)
    } else {
        Err(ClassFileError::UnexpectedEOF)
    }
}

/// Relies on `String::from_utf8` of std: it succeeds exactly on valid
/// UTF-8 input and decodes those bytes, so the returned string's encoding
/// is the input.
#[verifier::external_body]
fn utf8_to_string(v: Vec<u8>) -> (r: Option<String>)
    ensures
        r is Some <==> vstd::utf8::valid_utf8(v@),
        r is Some ==> vstd::utf8::encode_utf8(r.unwrap()@) == v@,
{
    match String::from_utf8(v) {
        Ok(s) => Some(s),
        Err(_) => None,
    }
}

/// Whether a tag's entry fills two pool slots.
pub open spec fn spec_two_slots(tag: ConstantPoolTags) -> bool {
    tag is CONSTANT_long || tag is CONSTANT_double
}

/// Whether `v` is a valid 1-based pool index for a pool of `count` slots.
pub open spec fn pool_index_ok(v: int, count: int) -> bool {
    0 < v < count
}

/// Where parsing the body of an entry with tag `tag` at `pos` ends, or
/// why it fails: the file may end early, an index may be out of range, a
/// string may not be UTF-8.
pub open spec fn entry_parse_result(
    tag: ConstantPoolTags,
    bytes: Seq<u8>,
    pos: int,
    count: int,
) -> Result<int, ClassFileError> {
    match tag {
        ConstantPoolTags::CONSTANT_class | ConstantPoolTags::CONSTANT_string
            | ConstantPoolTags::CONSTANT_methodtype => if pos + 2 <= bytes.len() {
            if pool_index_ok(be_u16(bytes, pos), count) {
                Ok(pos + 2)
            } else {
                Err(ClassFileError::PoolIndexOutOfRange)
            }
        } else {
            Err(ClassFileError::UnexpectedEOF)
        },
        ConstantPoolTags::CONSTANT_fieldref | ConstantPoolTags::CONSTANT_methodref
            | ConstantPoolTags::CONSTANT_ifacemethodref | ConstantPoolTags::CONSTANT_nameandtype
            => if pos + 4 <= bytes.len() {
            if pool_index_ok(be_u16(bytes, pos), count) && pool_index_ok(
                be_u16(bytes, pos + 2),
                count,
            ) {
                Ok(pos + 4)
            } else {
                Err(ClassFileError::PoolIndexOutOfRange)
            }
        } else {
            Err(ClassFileError::UnexpectedEOF)
        },
        ConstantPoolTags::CONSTANT_invokedynamic => if pos + 4 <= bytes.len() {
            if pool_index_ok(be_u16(bytes, pos + 2), count) {
                Ok(pos + 4)
            } else {
                Err(ClassFileError::PoolIndexOutOfRange)
            }
        } else {
            Err(ClassFileError::UnexpectedEOF)
        },
        ConstantPoolTags::CONSTANT_methodhandle => if pos + 3 <= bytes.len() {
            if pool_index_ok(be_u16(bytes, pos + 1), count) {
                Ok(pos + 3)
            } else {
                Err(ClassFileError::PoolIndexOutOfRange)
            }
        } else {
            Err(ClassFileError::UnexpectedEOF)
        },
        ConstantPoolTags::CONSTANT_integer | ConstantPoolTags::CONSTANT_float => if pos + 4
            <= bytes.len() {
            Ok(pos + 4)
        } else {
            Err(ClassFileError::UnexpectedEOF)
        },
        ConstantPoolTags::CONSTANT_long | ConstantPoolTags::CONSTANT_double => if pos + 8
            <= bytes.len() {
            Ok(pos + 8)
        } else {
            Err(ClassFileError::UnexpectedEOF)
        },
        ConstantPoolTags::CONSTANT_utf8 => if pos + 2 <= bytes.len() {
            if pos + 2 + be_u16(bytes, pos) <= bytes.len() {
                if vstd::utf8::valid_utf8(bytes.subrange(pos + 2, pos + 2 + be_u16(bytes, pos))) {
                    Ok(pos + 2 + be_u16(bytes, pos))
                } else {
                    Err(ClassFileError::BadUtf8)
                }
            } else {
                Err(ClassFileError::UnexpectedEOF)
            }
        } else {
            Err(ClassFileError::UnexpectedEOF)
        },
    }
}

/// Whether `c` is exactly the entry with tag `tag` encoded at `pos`.
pub open spec fn constant_encodes(
    c: Constant,
    tag: ConstantPoolTags,
    bytes: Seq<u8>,
    pos: int,
) -> bool {
    match tag {
        ConstantPoolTags::CONSTANT_class => c matches Constant::CONSTANT_class_info(x) && x
            == be_u16(bytes, pos),
        ConstantPoolTags::CONSTANT_fieldref => c matches Constant::CONSTANT_fieldref_info(x, y)
            && x == be_u16(bytes, pos) && y == be_u16(bytes, pos + 2),
        ConstantPoolTags::CONSTANT_methodref => c matches Constant::CONSTANT_methodref_info(x, y)
            && x == be_u16(bytes, pos) && y == be_u16(bytes, pos + 2),
        ConstantPoolTags::CONSTANT_ifacemethodref => c matches Constant::CONSTANT_ifacemethodref_info(
            x,
            y,
        ) && x == be_u16(bytes, pos) && y == be_u16(bytes, pos + 2),
        ConstantPoolTags::CONSTANT_string => c matches Constant::CONSTANT_string_info(x) && x
            == be_u16(bytes, pos),
        ConstantPoolTags::CONSTANT_integer => c matches Constant::CONSTANT_integer_info(x) && x
            == be_u32(bytes, pos) as u32 as i32,
        ConstantPoolTags::CONSTANT_float => c matches Constant::CONSTANT_float_info(x) && x
            == be_u32(bytes, pos),
        ConstantPoolTags::CONSTANT_long => c matches Constant::CONSTANT_long_info(x) && x
            == be_u64(bytes, pos) as u64 as i64,
        ConstantPoolTags::CONSTANT_double => c matches Constant::CONSTANT_double_info(x) && x
            == be_u64(bytes, pos),
        ConstantPoolTags::CONSTANT_nameandtype => c matches Constant::CONSTANT_nameandtype_info(
            x,
            y,
        ) && x == be_u16(bytes, pos) && y == be_u16(bytes, pos + 2),
        ConstantPoolTags::CONSTANT_utf8 => c matches Constant::CONSTANT_utf8_info(s)
            && vstd::utf8::encode_utf8(s@) == bytes.subrange(
            pos + 2,
            pos + 2 + be_u16(bytes, pos),
        ),
        ConstantPoolTags::CONSTANT_methodhandle => c matches Constant::CONSTANT_methodhandle_info(
            k,
            x,
        ) && k == bytes[pos] && x == be_u16(bytes, pos + 1),
        ConstantPoolTags::CONSTANT_methodtype => c matches Constant::CONSTANT_methodtype_info(x)
            && x == be_u16(bytes, pos),
        ConstantPoolTags::CONSTANT_invokedynamic => c matches Constant::CONSTANT_invokedynamic_info(
            k,
            x,
        ) && k == be_u16(bytes, pos) && x == be_u16(bytes, pos + 2),
    }
}

/// Parse the body of one constant-pool entry whose tag byte was already
/// consumed.  Indices must be valid for a pool of `count` slots; string
/// entries must be UTF-8.
pub fn read_cpool_entry_body(
    tag: ConstantPoolTags,
    bytes: &Vec<u8>,
    pos: &mut usize,
    count: u16,
) -> (r: Result<Constant, ClassFileError>)
    requires
        bytes@.len() <= usize::MAX - 8,
    ensures
        ({
            let spec = entry_parse_result(tag, bytes@, *old(pos) as int, count as int);
            match r {
                Ok(c) => spec is Ok && *final(pos) == spec.unwrap() && constant_encodes(
                    c,
                    tag,
                    bytes@,
                    *old(pos) as int,
                ),
                Err(e) => spec == Err::<int, ClassFileError>(e),
            }
        }),
{
    match tag {
        ConstantPoolTags::CONSTANT_class => {
            let x = read_index(bytes, pos, count)?;
            Ok(Constant::CONSTANT_class_info(x))
        },
        ConstantPoolTags::CONSTANT_fieldref => {
            let (x, y) = read_index_pair(bytes, pos, count)?;
            Ok(Constant::CONSTANT_fieldref_info(x, y))
        },
        ConstantPoolTags::CONSTANT_methodref => {
            let (x, y) = read_index_pair(bytes, pos, count)?;
            Ok(Constant::CONSTANT_methodref_info(x, y))
        },
        ConstantPoolTags::CONSTANT_ifacemethodref => {
            let (x, y) = read_index_pair(bytes, pos, count)?;
            Ok(Constant::CONSTANT_ifacemethodref_info(x, y))
        },
        ConstantPoolTags::CONSTANT_string => {
            let x = read_index(bytes, pos, count)?;
            Ok(Constant::CONSTANT_string_info(x))
        },
        ConstantPoolTags::CONSTANT_integer => {
            let v = read_u32(bytes, pos)?;
            Ok(Constant::CONSTANT_integer_info(#[verifier::truncate] (v as i32)))
        },
        ConstantPoolTags::CONSTANT_float => {
            let v = read_u32(bytes, pos)?;
            Ok(Constant::CONSTANT_float_info(v))
        },
        ConstantPoolTags::CONSTANT_long => {
            let v = read_u64(bytes, pos)?;
            Ok(Constant::CONSTANT_long_info(#[verifier::truncate] (v as i64)))
        },
        ConstantPoolTags::CONSTANT_double => {
            let v = read_u64(bytes, pos)?;
            Ok(Constant::CONSTANT_double_info(v))
        },
        ConstantPoolTags::CONSTANT_nameandtype => {
            let (x, y) = read_index_pair(bytes, pos, count)?;
            Ok(Constant::CONSTANT_nameandtype_info(x, y))
        },
        ConstantPoolTags::CONSTANT_utf8 => {
            let ghost p0 = *pos;
            let n = read_u16(bytes, pos)?;
            let raw = match read_bytes(bytes, pos, n as usize) {
                Ok(v) => v,
                Err(e) => {
                    *pos -= 2;
                    return Err(e);
                },
            };
            let ghost rawv = raw@;
            match utf8_to_string(raw) {
                Some(s) => Ok(Constant::CONSTANT_utf8_info(s)),
                None => {
                    *pos -= 2 + n as usize;
                    Err(ClassFileError::BadUtf8)
                },
            }
        },
        ConstantPoolTags::CONSTANT_methodhandle => {
            let k = read_u8(bytes, pos)?;
            let x = match read_index(bytes, pos, count) {
                Ok(x) => x,
                Err(e) => {
                    *pos -= 1;
                    return Err(e);
                },
            };
            Ok(Constant::CONSTANT_methodhandle_info(k, x))
        },
        ConstantPoolTags::CONSTANT_methodtype => {
            let x = read_index(bytes, pos, count)?;
            Ok(Constant::CONSTANT_methodtype_info(x))
        },
        ConstantPoolTags::CONSTANT_invokedynamic => {
            let k = read_u16(bytes, pos)?;
            let x = match read_index(bytes, pos, count) {
                Ok(x) => x,
                Err(e) => {
                    *pos -= 2;
                    return Err(e);
                },
            };
            Ok(Constant::CONSTANT_invokedynamic_info(k, x))
        },
    }
}

/// Read one pool index and check it lies in `[1, count)`.
fn read_index(bytes: &Vec<u8>, pos: &mut usize, count: u16) -> (r: Result<u16, ClassFileError>)
    ensures
        *old(pos) + 2 > bytes@.len() ==> r == Err::<u16, ClassFileError>(
            ClassFileError::UnexpectedEOF,
        ) && *final(pos) == *old(pos),
        *old(pos) + 2 <= bytes@.len() && !pool_index_ok(
            be_u16(bytes@, *old(pos) as int),
            count as int,
        ) ==> r == Err::<u16, ClassFileError>(ClassFileError::PoolIndexOutOfRange) && *final(pos)
            == *old(pos),
        *old(pos) + 2 <= bytes@.len() && pool_index_ok(
            be_u16(bytes@, *old(pos) as int),
            count as int,
        ) ==> r is Ok && r.unwrap() == be_u16(bytes@, *old(pos) as int) && *final(pos) == *old(pos)
            + 2,
{
    let v = read_u16(bytes, pos)?;
    if v == 0 || v >= count {
        *pos -= 2;
        return Err(ClassFileError::PoolIndexOutOfRange);
    }
    Ok(v)
}

/// Read two pool indices, both checked.
fn read_index_pair(bytes: &Vec<u8>, pos: &mut usize, count: u16) -> (r: Result<
    (u16, u16),
    ClassFileError,
>)
    ensures
        *old(pos) + 4 > bytes@.len() ==> r == Err::<(u16, u16), ClassFileError>(
            ClassFileError::UnexpectedEOF,
        ) && *final(pos) == *old(pos),
        *old(pos) + 4 <= bytes@.len() && !(pool_index_ok(
            be_u16(bytes@, *old(pos) as int),
            count as int,
        ) && pool_index_ok(be_u16(bytes@, *old(pos) + 2), count as int)) ==> r == Err::<
            (u16, u16),
            ClassFileError,
        >(ClassFileError::PoolIndexOutOfRange) && *final(pos) == *old(pos),
        *old(pos) + 4 <= bytes@.len() && pool_index_ok(
            be_u16(bytes@, *old(pos) as int),
            count as int,
        ) && pool_index_ok(be_u16(bytes@, *old(pos) + 2), count as int) ==> r is Ok && r.unwrap().0
            == be_u16(bytes@, *old(pos) as int) && r.unwrap().1 == be_u16(bytes@, *old(pos) + 2)
            && *final(pos) == *old(pos) + 4,
{
    let x = read_u16(bytes, pos)?;
    let y = match read_u16(bytes, pos) {
        Ok(y) => y,
        Err(e) => {
            *pos -= 2;
            return Err(e);
        },
    };
    if x == 0 || x >= count || y == 0 || y >= count {
        *pos -= 4;
        return Err(ClassFileError::PoolIndexOutOfRange);
    }
    Ok((x, y))
}

/// Where parsing the pool entries for slots `i` up to `count` ends, or
/// why it fails.
pub open spec fn pool_parse_from(bytes: Seq<u8>, pos: int, count: int, i: int) -> Result<
    int,
    ClassFileError,
>
    decreases count - i,
{
    if i >= count {
        Ok(pos)
    } else if pos >= bytes.len() || pos < 0 {
        Err(ClassFileError::UnexpectedEOF)
    } else {
        match spec_tag_from_u8(bytes[pos]) {
            None => Err(ClassFileError::BadPoolTag),
            Some(tag) => match entry_parse_result(tag, bytes, pos + 1, count) {
                Err(e) => Err(e),
                Ok(np) => pool_parse_from(
                    bytes,
                    np,
                    count,
                    if spec_two_slots(tag) {
                        if i + 2 <= count {
                            i + 2
                        } else {
                            count
                        }
                    } else {
                        i + 1
                    },
                ),
            },
        }
    }
}

/// Whether `cs` is exactly the entry list encoded from slot `i` up to
/// `count` at position `pos`, with an unusable filler after every
/// two-slot entry.
pub open spec fn pool_encodes(cs: Seq<Constant>, bytes: Seq<u8>, pos: int, count: int, i: int)
    -> bool
    decreases count - i,
{
    if i >= count {
        cs.len() == 0
    } else if 0 <= pos < bytes.len() && spec_tag_from_u8(bytes[pos]) is Some {
        let tag = spec_tag_from_u8(bytes[pos]).unwrap();
        entry_parse_result(tag, bytes, pos + 1, count) is Ok && {
            let np = entry_parse_result(tag, bytes, pos + 1, count).unwrap();
            if spec_two_slots(tag) {
                cs.len() >= 2 && constant_encodes(cs[0], tag, bytes, pos + 1) && cs[1]
                    is CONSTANT_unusable && pool_encodes(
                    cs.skip(2),
                    bytes,
                    np,
                    count,
                    if i + 2 <= count {
                        i + 2
                    } else {
                        count
                    },
                )
            } else {
                cs.len() >= 1 && constant_encodes(cs[0], tag, bytes, pos + 1) && pool_encodes(
                    cs.skip(1),
                    bytes,
                    np,
                    count,
                    i + 1,
                )
            }
        }
    } else {
        false
    }
}

/// Parse the pool entries for slots `i` up to `count`: each entry is a
/// tag byte and its body, and a two-slot entry is followed by an
/// unusable filler in the result.
fn parse_pool_entries(bytes: &Vec<u8>, pos: &mut usize, count: u16, i: u16) -> (r: Result<
    Vec<Constant>,
    ClassFileError,
>)
    requires
        bytes@.len() <= usize::MAX - 8,
    ensures
        ({
            let spec = pool_parse_from(bytes@, *old(pos) as int, count as int, i as int);
            match r {
                Ok(cs) => spec is Ok && *final(pos) == spec.unwrap() && pool_encodes(
                    cs@,
                    bytes@,
                    *old(pos) as int,
                    count as int,
                    i as int,
                ),
                Err(e) => spec == Err::<int, ClassFileError>(e),
            }
        }),
    decreases count - i,
{
    if i >= count {
        return Ok(Vec::new());
    }
    let tagv = read_u8(bytes, pos)?;
    let tag = match ConstantPoolTags::from_u8(tagv) {
        Some(t) => t,
        None => {
            return Err(ClassFileError::BadPoolTag);
        },
    };
    let c = match read_cpool_entry_body(tag, bytes, pos, count) {
        Ok(c) => c,
        Err(e) => {
            return Err(e);
        },
    };
    let two = match tag {
        ConstantPoolTags::CONSTANT_long => true,
        ConstantPoolTags::CONSTANT_double => true,
        _ => false,
    };
    let step: u16 = if two {
        if i >= count - 1 {
            // the second slot of a trailing two-slot entry may run past
            // the declared count
            count - i
        } else {
            2
        }
    } else {
        1
    };
    let ghost np = *pos;
    let mut rest = match parse_pool_entries(bytes, pos, count, i + step) {
        Ok(cs) => cs,
        Err(e) => {
            return Err(e);
        },
    };
    let ghost restv = rest@;
    let mut out: Vec<Constant> = Vec::new();
    out.push(c);
    if two {
        out.push(Constant::CONSTANT_unusable);
    }
    out.append(&mut rest);
    proof {
        if two {
            assert(out@.skip(2) =~= restv);
        } else {
            assert(out@.skip(1) =~= restv);
        }
    }
    Ok(out)
}

/// Parse the whole constant pool: the slot count, then the entries for
/// slots 1 up to the count.  A declared count of zero is invalid.
pub fn load_constant_pool(bytes: &Vec<u8>, pos: &mut usize) -> (r: Result<
    Vec<Constant>,
    ClassFileError,
>)
    requires
        bytes@.len() <= usize::MAX - 8,
    ensures
        *old(pos) + 2 > bytes@.len() ==> r == Err::<Vec<Constant>, ClassFileError>(
            ClassFileError::UnexpectedEOF,
        ),
        *old(pos) + 2 <= bytes@.len() && be_u16(bytes@, *old(pos) as int) == 0 ==> r == Err::<
            Vec<Constant>,
            ClassFileError,
        >(ClassFileError::PoolIndexOutOfRange),
        *old(pos) + 2 <= bytes@.len() && be_u16(bytes@, *old(pos) as int) > 0 ==> ({
            let count = be_u16(bytes@, *old(pos) as int);
            let spec = pool_parse_from(bytes@, *old(pos) + 2, count, 1);
            match r {
                Ok(cs) => spec is Ok && *final(pos) == spec.unwrap() && pool_encodes(
                    cs@,
                    bytes@,
                    *old(pos) + 2,
                    count,
                    1,
                ),
                Err(e) => spec == Err::<int, ClassFileError>(e),
            }
        }),
{
    let count = read_u16(bytes, pos)?;
    if count == 0 {
        return Err(ClassFileError::PoolIndexOutOfRange);
    }
    parse_pool_entries(bytes, pos, count, 1)
}

/// Two pool entries that agree up to the identity of their strings: the
/// same shape and payloads, with string payloads compared by their
/// characters.
pub open spec fn constant_equiv(a: Constant, b: Constant) -> bool {
    match a {
        Constant::CONSTANT_utf8_info(x) => match b {
            Constant::CONSTANT_utf8_info(y) => x@ == y@,
            _ => false,
        },
        _ => a == b,
    }
}

/// Parsing is deterministic: one byte string encodes at most one
/// constant pool, entry for entry, up to string identity.  Serializing a
/// parsed pool and parsing it again therefore yields an equivalent pool.
pub proof fn lemma_pool_reparse_equivalent(
    cs1: Seq<Constant>,
    cs2: Seq<Constant>,
    bytes: Seq<u8>,
    pos: int,
    count: int,
    i: int,
)
    requires
        pool_encodes(cs1, bytes, pos, count, i),
        pool_encodes(cs2, bytes, pos, count, i),
    ensures
        cs1.len() == cs2.len(),
        forall|k: int| 0 <= k < cs1.len() ==> constant_equiv(#[trigger] cs1[k], cs2[k]),
    decreases count - i,
{
    if i >= count {
    } else {
        let tag = spec_tag_from_u8(bytes[pos]).unwrap();
        let np = entry_parse_result(tag, bytes, pos + 1, count).unwrap();
        assert(constant_equiv(cs1[0], cs2[0])) by {
            if tag is CONSTANT_utf8 {
                let s1 = cs1[0]->CONSTANT_utf8_info_0;
                let s2 = cs2[0]->CONSTANT_utf8_info_0;
                vstd::utf8::encode_utf8_decode_utf8(s1@);
                vstd::utf8::encode_utf8_decode_utf8(s2@);
            }
        }
        if spec_two_slots(tag) {
            let ni: int = if i + 2 <= count {
                i + 2
            } else {
                count
            };
            lemma_pool_reparse_equivalent(cs1.skip(2), cs2.skip(2), bytes, np, count, ni);
            assert forall|k: int| 0 <= k < cs1.len() implies constant_equiv(
                #[trigger] cs1[k],
                cs2[k],
            ) by {
                if k >= 2 {
                    assert(cs1.skip(2)[k - 2] == cs1[k]);
                    assert(cs2.skip(2)[k - 2] == cs2[k]);
                }
            }
        } else {
            lemma_pool_reparse_equivalent(cs1.skip(1), cs2.skip(1), bytes, np, count, i + 1);
            assert forall|k: int| 0 <= k < cs1.len() implies constant_equiv(
                #[trigger] cs1[k],
                cs2[k],
            ) by {
                if k >= 1 {
                    assert(cs1.skip(1)[k - 1] == cs1[k]);
                    assert(cs2.skip(1)[k - 1] == cs2[k]);
                }
            }
        }
    }
}

/// The view of `s` with every `/` replaced by `.` (internal form to
/// binary form).
pub open spec fn dotted(s: Seq<char>) -> Seq<char> {
    Seq::new(
        s.len(),
        |i: int|
            if s[i] == '/' {
                '.'
            } else {
                s[i]
            },
    )
}

/// Replace every `/` by `.` in a class name.
pub fn replace_slashes(s: &str) -> (r: String)
    ensures
        r@ == dotted(s@),
{
    let n = s.unicode_len();
    let mut out = String::new();
    let mut start: usize = 0;
    let mut i: usize = 0;
    while i < n
        invariant
            0 <= start <= i <= n == s@.len(),
            out@ == dotted(s@.take(start as int)),
            forall|j: int| start <= j < i ==> s@[j] != '/',
        decreases n - i,
    {
        let c = s.get_char(i);
        if c == '/' {
            let piece = s.substring_char(start, i);
            out.append(piece);
            out.append(".");
            proof {
                reveal_strlit(".");
                assert(out@ =~= dotted(s@.take(i as int + 1)));
            }
            start = i + 1;
        }
        i += 1;
    }
    let piece = s.substring_char(start, n);
    out.append(piece);
    proof {
        assert(out@ =~= dotted(s@));
    }
    out
}


/// The UTF-8 string at 1-based pool slot `ix`, if that slot holds one.
pub open spec fn resolve_name_spec(cs: Seq<Constant>, ix: int) -> Result<
    Seq<char>,
    ClassFileError,
> {
    if !(1 <= ix <= cs.len()) {
        Err(ClassFileError::PoolIndexOutOfRange)
    } else {
        match cs[ix - 1] {
            Constant::CONSTANT_utf8_info(s) => Ok(s@),
            _ => Err(ClassFileError::WrongPoolEntryKind),
        }
    }
}

/// The dotted class name reached through the class entry at 1-based pool
/// slot `ix`.
pub open spec fn resolve_class_spec(cs: Seq<Constant>, ix: int) -> Result<
    Seq<char>,
    ClassFileError,
> {
    if !(1 <= ix <= cs.len()) {
        Err(ClassFileError::PoolIndexOutOfRange)
    } else {
        match cs[ix - 1] {
            Constant::CONSTANT_class_info(u) => if !(1 <= u <= cs.len()) {
                Err(ClassFileError::PoolIndexOutOfRange)
            } else {
                match cs[u - 1] {
                    Constant::CONSTANT_utf8_info(s) => Ok(dotted(s@)),
                    _ => Err(ClassFileError::WrongPoolEntryKind),
                }
            },
            _ => Err(ClassFileError::WrongPoolEntryKind),
        }
    }
}

/// Locate the UTF-8 entry at 1-based slot `oneb_index` of a parsed pool.
pub fn resolve_name_cpool_entry(constants: &Vec<Constant>, oneb_index: u16) -> (r: Result<
    String,
    ClassFileError,
>)
    ensures
        ({
            let spec = resolve_name_spec(constants@, oneb_index as int);
            match r {
                Ok(s) => spec is Ok && s@ == spec.unwrap(),
                Err(e) => spec == Err::<Seq<char>, ClassFileError>(e),
            }
        }),
{
    if oneb_index == 0 || oneb_index as usize > constants.len() {
        return Err(ClassFileError::PoolIndexOutOfRange);
    }
    match &constants[oneb_index as usize - 1] {
        Constant::CONSTANT_utf8_info(s) => Ok(s.clone()),
        _ => Err(ClassFileError::WrongPoolEntryKind),
    }
}

/// Locate the class entry at 1-based slot `oneb_index` and resolve its
/// dotted name.
pub fn resolve_class_cpool_entry(constants: &Vec<Constant>, oneb_index: u16) -> (r: Result<
    String,
    ClassFileError,
>)
    ensures
        ({
            let spec = resolve_class_spec(constants@, oneb_index as int);
            match r {
                Ok(s) => spec is Ok && s@ == spec.unwrap(),
                Err(e) => spec == Err::<Seq<char>, ClassFileError>(e),
            }
        }),
{
    if oneb_index == 0 || oneb_index as usize > constants.len() {
        return Err(ClassFileError::PoolIndexOutOfRange);
    }
    let u = match &constants[oneb_index as usize - 1] {
        Constant::CONSTANT_class_info(u) => *u,
        _ => {
            return Err(ClassFileError::WrongPoolEntryKind);
        },
    };
    if u == 0 || u as usize > constants.len() {
        return Err(ClassFileError::PoolIndexOutOfRange);
    }
    match &constants[u as usize - 1] {
        Constant::CONSTANT_utf8_info(s) => Ok(replace_slashes(s.as_str())),
        _ => Err(ClassFileError::WrongPoolEntryKind),
    }
}

/// The parsed header of one class file.
pub struct ClassFile {
    pub minor: u16,
    pub major: u16,
    /// The constant pool entries for slots 1 up to the pool count.
    pub constants: Vec<Constant>,
    /// The class access flags.
    pub access: u16,
    /// 1-based pool slot of this class's own class entry.
    pub this_class: u16,
    /// 1-based pool slot of the super class entry, or 0 for
    /// `java.lang.Object` and interfaces.
    pub super_class: u16,
    /// 1-based pool slots of the implemented interfaces.
    pub interfaces: Vec<u16>,
    /// Number of field entries that follow the header.
    pub fields_count: u16,
    /// The class name stored in the file itself, in dotted form.
    pub own_name: String,
    /// Dotted names of the super class (first, when present) and the
    /// implemented interfaces.
    pub parent_names: Vec<String>,
}

/// The pool parser never reports errors of the later header stages.
proof fn lemma_pool_error_kinds(bytes: Seq<u8>, pos: int, count: int, i: int)
    ensures
        pool_parse_from(bytes, pos, count, i) != Err::<int, ClassFileError>(
            ClassFileError::NoSuperclass,
        ),
        pool_parse_from(bytes, pos, count, i) != Err::<int, ClassFileError>(
            ClassFileError::BadMagic,
        ),
        pool_parse_from(bytes, pos, count, i) != Err::<int, ClassFileError>(
            ClassFileError::WrongPoolEntryKind,
        ),
    decreases count - i,
{
    if i >= count || pos >= bytes.len() || pos < 0 {
    } else {
        match spec_tag_from_u8(bytes[pos]) {
            None => {},
            Some(tag) => match entry_parse_result(tag, bytes, pos + 1, count) {
                Err(_e) => {},
                Ok(np) => {
                    lemma_pool_error_kinds(
                        bytes,
                        np,
                        count,
                        if spec_two_slots(tag) {
                            if i + 2 <= count {
                                i + 2
                            } else {
                                count
                            }
                        } else {
                            i + 1
                        },
                    );
                },
            },
        }
    }
}

/// Where parsing a class-file header up to and including the constant
/// pool ends, or why it fails.
pub open spec fn class_parse_pre(bytes: Seq<u8>) -> Result<int, ClassFileError> {
    if bytes.len() < 4 {
        Err(ClassFileError::UnexpectedEOF)
    } else if be_u32(bytes, 0) != 0xCAFEBABE {
        Err(ClassFileError::BadMagic)
    } else if bytes.len() < 6 {
        Err(ClassFileError::UnexpectedEOF)
    } else if bytes.len() < 8 {
        Err(ClassFileError::UnexpectedEOF)
    } else if bytes.len() < 10 {
        Err(ClassFileError::UnexpectedEOF)
    } else if be_u16(bytes, 8) == 0 {
        Err(ClassFileError::PoolIndexOutOfRange)
    } else {
        pool_parse_from(bytes, 10, be_u16(bytes, 8), 1)
    }
}

/// Where resolving the interface entries `k` up to `count` at `pos`
/// ends, or why it fails.
pub open spec fn ifaces_resolve_from(
    bytes: Seq<u8>,
    cs: Seq<Constant>,
    pos: int,
    k: int,
    count: int,
) -> Result<int, ClassFileError>
    decreases count - k,
{
    if k >= count {
        Ok(pos)
    } else if pos + 2 > bytes.len() {
        Err(ClassFileError::UnexpectedEOF)
    } else {
        match resolve_class_spec(cs, be_u16(bytes, pos)) {
            Err(e) => Err(e),
            Ok(_) => ifaces_resolve_from(bytes, cs, pos + 2, k + 1, count),
        }
    }
}

/// Where parsing the header after the constant pool ends (just past the
/// fields count), or why it fails, given a pool `cs` and the position
/// `pp` where the pool ended: access flags, own class name, super class,
/// interfaces, the rule that only `java.lang.Object` and interfaces go
/// without parents, and the fields count.
pub open spec fn header_parse_after_pool(
    name: Seq<char>,
    bytes: Seq<u8>,
    cs: Seq<Constant>,
    pp: int,
) -> Result<int, ClassFileError> {
    if pp + 2 > bytes.len() {
        Err(ClassFileError::UnexpectedEOF)
    } else if pp + 4 > bytes.len() {
        Err(ClassFileError::UnexpectedEOF)
    } else {
        match resolve_class_spec(cs, be_u16(bytes, pp + 2)) {
            Err(e) => Err(e),
            Ok(_) => if pp + 6 > bytes.len() {
                Err(ClassFileError::UnexpectedEOF)
            } else {
                let sup = be_u16(bytes, pp + 4);
                let sup_res: Result<Seq<char>, ClassFileError> = if sup == 0 {
                    Ok(Seq::empty())
                } else {
                    resolve_class_spec(cs, sup)
                };
                match sup_res {
                    Err(e) => Err(e),
                    Ok(_) => if pp + 8 > bytes.len() {
                        Err(ClassFileError::UnexpectedEOF)
                    } else {
                        let ic = be_u16(bytes, pp + 6);
                        match ifaces_resolve_from(bytes, cs, pp + 8, 0, ic) {
                            Err(e) => Err(e),
                            Ok(end) => if sup == 0 && ic == 0 && !(name
                                == "java.lang.Object"@) && (be_u16(bytes, pp) as u16)
                                & ACC_INTERFACE == 0 {
                                Err(ClassFileError::NoSuperclass)
                            } else if end + 2 > bytes.len() {
                                Err(ClassFileError::UnexpectedEOF)
                            } else {
                                Ok(end + 2)
                            },
                        }
                    },
                }
            },
        }
    }
}

/// Equivalent pools resolve alike: entry shapes and stored indices agree,
/// and string payloads have the same characters.
proof fn lemma_resolve_equiv(cs1: Seq<Constant>, cs2: Seq<Constant>, ix: int)
    requires
        cs1.len() == cs2.len(),
        forall|k: int| 0 <= k < cs1.len() ==> constant_equiv(#[trigger] cs1[k], cs2[k]),
    ensures
        resolve_name_spec(cs1, ix) == resolve_name_spec(cs2, ix),
        resolve_class_spec(cs1, ix) == resolve_class_spec(cs2, ix),
{
    if 1 <= ix <= cs1.len() {
        assert(constant_equiv(cs1[ix - 1], cs2[ix - 1]));
        match cs1[ix - 1] {
            Constant::CONSTANT_utf8_info(s1) => {
                match cs2[ix - 1] {
                    Constant::CONSTANT_utf8_info(s2) => {
                        assert(s1@ == s2@);
                    },
                    _ => {
                        assert(false);
                    },
                }
            },
            Constant::CONSTANT_class_info(u) => {
                assert(cs2[ix - 1] == cs1[ix - 1]);
                if 1 <= u <= cs1.len() {
                    assert(constant_equiv(cs1[u - 1], cs2[u - 1]));
                    match cs1[u - 1] {
                        Constant::CONSTANT_utf8_info(s1) => {
                            match cs2[u - 1] {
                                Constant::CONSTANT_utf8_info(s2) => {
                                    assert(s1@ == s2@);
                                    assert(dotted(s1@) == dotted(s2@));
                                },
                                _ => {
                                    assert(false);
                                },
                            }
                        },
                        _ => {
                            assert(cs2[u - 1] == cs1[u - 1]);
                        },
                    }
                }
            },
            _ => {
                assert(cs2[ix - 1] == cs1[ix - 1]);
            },
        }
    }
}

/// Equivalent pools resolve the interface list alike.
proof fn lemma_ifaces_equiv(
    bytes: Seq<u8>,
    cs1: Seq<Constant>,
    cs2: Seq<Constant>,
    pos: int,
    k: int,
    count: int,
)
    requires
        cs1.len() == cs2.len(),
        forall|j: int| 0 <= j < cs1.len() ==> constant_equiv(#[trigger] cs1[j], cs2[j]),
    ensures
        ifaces_resolve_from(bytes, cs1, pos, k, count) == ifaces_resolve_from(
            bytes,
            cs2,
            pos,
            k,
            count,
        ),
    decreases count - k,
{
    if k >= count || pos + 2 > bytes.len() {
    } else {
        lemma_resolve_equiv(cs1, cs2, be_u16(bytes, pos));
        if resolve_class_spec(cs1, be_u16(bytes, pos)) is Ok {
            lemma_ifaces_equiv(bytes, cs1, cs2, pos + 2, k + 1, count);
        }
    }
}

/// Equivalent pools parse the whole post-pool header alike.
proof fn lemma_header_equiv(
    name: Seq<char>,
    bytes: Seq<u8>,
    cs1: Seq<Constant>,
    cs2: Seq<Constant>,
    pp: int,
)
    requires
        cs1.len() == cs2.len(),
        forall|j: int| 0 <= j < cs1.len() ==> constant_equiv(#[trigger] cs1[j], cs2[j]),
    ensures
        header_parse_after_pool(name, bytes, cs1, pp) == header_parse_after_pool(
            name,
            bytes,
            cs2,
            pp,
        ),
{
    if pp + 4 <= bytes.len() {
        lemma_resolve_equiv(cs1, cs2, be_u16(bytes, pp + 2));
        if pp + 6 <= bytes.len() {
            lemma_resolve_equiv(cs1, cs2, be_u16(bytes, pp + 4));
            if pp + 8 <= bytes.len() {
                lemma_ifaces_equiv(bytes, cs1, cs2, pp + 8, 0, be_u16(bytes, pp + 6));
            }
        }
    }
}

/// A post-pool parse outcome observed on one encoding of the pool holds
/// for every encoding of it: the byte string alone decides the outcome.
proof fn lemma_header_outcome_all(
    name: Seq<char>,
    bytes: Seq<u8>,
    csw: Seq<Constant>,
    pp: int,
)
    requires
        pool_encodes(csw, bytes, 10, be_u16(bytes, 8), 1),
    ensures
        forall|cs: Seq<Constant>|
            pool_encodes(cs, bytes, 10, be_u16(bytes, 8), 1) ==> header_parse_after_pool(
                name,
                bytes,
                cs,
                pp,
            ) == header_parse_after_pool(name, bytes, csw, pp),
{
    assert forall|cs: Seq<Constant>|
        pool_encodes(cs, bytes, 10, be_u16(bytes, 8), 1) implies header_parse_after_pool(
        name,
        bytes,
        cs,
        pp,
    ) == header_parse_after_pool(name, bytes, csw, pp) by {
        lemma_pool_reparse_equivalent(cs, csw, bytes, 10, be_u16(bytes, 8), 1);
        lemma_header_equiv(name, bytes, cs, csw, pp);
    }
}

/// Parse the header of a class file presented under the name `name`:
/// magic, version, constant pool, access flags, own name, super class
/// and interfaces, and the field count.  A class without parents must be
/// `java.lang.Object` or an interface.  Success is owed: the result is
/// `Err(e)` exactly when the header parse of the bytes fails with `e`
/// (`class_parse_pre` for the stages up to the pool,
/// `header_parse_after_pool` for the rest, whose outcome the byte string
/// alone decides).
#[verifier::rlimit(50)]
pub fn parse_class_file(name: &str, bytes: &Vec<u8>) -> (r: Result<ClassFile, ClassFileError>)
    requires
        bytes@.len() <= usize::MAX - 8,
    ensures
        bytes@.len() >= 4 && be_u32(bytes@, 0) != 0xCAFEBABE ==> r == Err::<
            ClassFile,
            ClassFileError,
        >(ClassFileError::BadMagic),
        bytes@.len() < 4 ==> r == Err::<ClassFile, ClassFileError>(ClassFileError::UnexpectedEOF),
        r is Ok ==> ({
            let c = r.unwrap();
            let count = be_u16(bytes@, 8);
            let pp = pool_parse_from(bytes@, 10, count, 1).unwrap();
            &&& bytes@.len() >= 10
            &&& be_u32(bytes@, 0) == 0xCAFEBABE
            &&& c.minor == be_u16(bytes@, 4)
            &&& c.major == be_u16(bytes@, 6)
            &&& count > 0
            &&& pool_parse_from(bytes@, 10, count, 1) is Ok
            &&& pool_encodes(c.constants@, bytes@, 10, count, 1)
            &&& c.access == be_u16(bytes@, pp)
            &&& c.this_class == be_u16(bytes@, pp + 2)
            &&& resolve_class_spec(c.constants@, c.this_class as int) is Ok
            &&& c.own_name@ == resolve_class_spec(c.constants@, c.this_class as int).unwrap()
            &&& c.super_class == be_u16(bytes@, pp + 4)
            &&& c.interfaces@.len() == be_u16(bytes@, pp + 6)
            &&& forall|k: int|
                0 <= k < c.interfaces@.len() ==> c.interfaces@[k] == be_u16(bytes@, pp + 8 + 2 * k)
            &&& c.parent_names@.len() == (if c.super_class == 0 {
                0int
            } else {
                1int
            }) + c.interfaces@.len()
            &&& (c.super_class != 0 ==> c.parent_names@[0]@ == resolve_class_spec(
                c.constants@,
                c.super_class as int,
            ).unwrap())
            &&& ({
                let b: int = if c.super_class == 0 {
                    0
                } else {
                    1
                };
                forall|k: int|
                    #![trigger c.interfaces@[k]]
                    0 <= k < c.interfaces@.len() ==> c.parent_names@[k + b]@ == resolve_class_spec(
                        c.constants@,
                        c.interfaces@[k] as int,
                    ).unwrap()
            })
            &&& c.fields_count == be_u16(bytes@, pp + 8 + 2 * c.interfaces@.len())
            // a class without parents is java.lang.Object or an interface
            &&& (c.parent_names@.len() == 0 ==> name@ == "java.lang.Object"@ || c.access
                & ACC_INTERFACE != 0)
        }),
        r == Err::<ClassFile, ClassFileError>(ClassFileError::NoSuperclass) ==> ({
            let count = be_u16(bytes@, 8);
            let pp = pool_parse_from(bytes@, 10, count, 1).unwrap();
            be_u16(bytes@, pp + 4) == 0 && be_u16(bytes@, pp + 6) == 0 && !(name@
                == "java.lang.Object"@) && (be_u16(bytes@, pp) as u16) & ACC_INTERFACE == 0
        }),
        r matches Err(e) ==> match class_parse_pre(bytes@) {
            Err(e2) => e == e2,
            Ok(pp) => forall|cs: Seq<Constant>|
                pool_encodes(cs, bytes@, 10, be_u16(bytes@, 8), 1) ==> header_parse_after_pool(
                    name@,
                    bytes@,
                    cs,
                    pp,
                ) == Err::<int, ClassFileError>(e),
        },
        r is Ok ==> class_parse_pre(bytes@) is Ok && header_parse_after_pool(
            name@,
            bytes@,
            r.unwrap().constants@,
            class_parse_pre(bytes@).unwrap(),
        ) is Ok,
{
    let mut pos: usize = 0;
    let magic = read_u32(bytes, &mut pos)?;
    if magic != 0xCAFEBABE {
        return Err(ClassFileError::BadMagic);
    }
    let minor = read_u16(bytes, &mut pos)?;
    let major = read_u16(bytes, &mut pos)?;
    proof {
        if bytes@.len() >= 10 && be_u16(bytes@, 8) > 0 {
            lemma_pool_error_kinds(bytes@, 10, be_u16(bytes@, 8), 1);
        }
    }
    let constants = load_constant_pool(bytes, &mut pos)?;
    let ghost count0 = be_u16(bytes@, 8);
    let ghost pp0 = pool_parse_from(bytes@, 10, count0, 1).unwrap();
    proof {
        assert(class_parse_pre(bytes@) == Ok::<int, ClassFileError>(pp0));
    }
    let access = match read_u16(bytes, &mut pos) {
        Ok(v) => v,
        Err(e) => {
            proof {
                assert(header_parse_after_pool(name@, bytes@, constants@, pp0) == Err::<
                    int,
                    ClassFileError,
                >(e));
                lemma_header_outcome_all(name@, bytes@, constants@, pp0);
            }
            return Err(e);
        },
    };
    let this_class = match read_u16(bytes, &mut pos) {
        Ok(v) => v,
        Err(e) => {
            proof {
                assert(header_parse_after_pool(name@, bytes@, constants@, pp0) == Err::<
                    int,
                    ClassFileError,
                >(e));
                lemma_header_outcome_all(name@, bytes@, constants@, pp0);
            }
            return Err(e);
        },
    };
    let own_name = match resolve_class_cpool_entry(&constants, this_class) {
        Ok(v) => v,
        Err(e) => {
            proof {
                assert(header_parse_after_pool(name@, bytes@, constants@, pp0) == Err::<
                    int,
                    ClassFileError,
                >(e));
                lemma_header_outcome_all(name@, bytes@, constants@, pp0);
            }
            return Err(e);
        },
    };
    let super_class = match read_u16(bytes, &mut pos) {
        Ok(v) => v,
        Err(e) => {
            proof {
                assert(header_parse_after_pool(name@, bytes@, constants@, pp0) == Err::<
                    int,
                    ClassFileError,
                >(e));
                lemma_header_outcome_all(name@, bytes@, constants@, pp0);
            }
            return Err(e);
        },
    };
    let mut parent_names: Vec<String> = Vec::new();
    if super_class != 0 {
        let pn = match resolve_class_cpool_entry(&constants, super_class) {
            Ok(v) => v,
            Err(e) => {
                proof {
                    assert(header_parse_after_pool(name@, bytes@, constants@, pp0) == Err::<
                        int,
                        ClassFileError,
                    >(e));
                    lemma_header_outcome_all(name@, bytes@, constants@, pp0);
                }
                return Err(e);
            },
        };
        parent_names.push(pn);
    }
    let ifaces_count = match read_u16(bytes, &mut pos) {
        Ok(v) => v,
        Err(e) => {
            proof {
                assert(header_parse_after_pool(name@, bytes@, constants@, pp0) == Err::<
                    int,
                    ClassFileError,
                >(e));
                lemma_header_outcome_all(name@, bytes@, constants@, pp0);
            }
            return Err(e);
        },
    };
    let mut interfaces: Vec<u16> = Vec::new();
    let ghost ifpos = pos;
    let ghost base = parent_names@.len();
    let mut k: usize = 0;
    while k < ifaces_count as usize
        invariant
            0 <= k <= ifaces_count as usize,
            pos == ifpos + 2 * k,
            pos <= bytes@.len(),
            bytes@.len() <= usize::MAX - 8,
            bytes@.len() >= 10,
            be_u32(bytes@, 0) == 0xCAFEBABE,
            minor == be_u16(bytes@, 4),
            major == be_u16(bytes@, 6),
            count0 == be_u16(bytes@, 8),
            count0 > 0,
            pool_parse_from(bytes@, 10, count0, 1) == Ok::<int, ClassFileError>(pp0),
            pool_encodes(constants@, bytes@, 10, count0, 1),
            access == be_u16(bytes@, pp0),
            this_class == be_u16(bytes@, pp0 + 2),
            resolve_class_spec(constants@, this_class as int) is Ok,
            own_name@ == resolve_class_spec(constants@, this_class as int).unwrap(),
            super_class == be_u16(bytes@, pp0 + 4),
            super_class != 0 ==> resolve_class_spec(constants@, super_class as int) is Ok,
            ifaces_count == be_u16(bytes@, pp0 + 6),
            ifpos == pp0 + 8,
            pp0 + 8 <= bytes@.len(),
            ifaces_resolve_from(bytes@, constants@, ifpos as int, 0, ifaces_count as int)
                == ifaces_resolve_from(
                bytes@,
                constants@,
                pos as int,
                k as int,
                ifaces_count as int,
            ),
            interfaces@.len() == k,
            parent_names@.len() == base + k,
            base == (if super_class == 0 {
                0int
            } else {
                1int
            }),
            forall|j: int| 0 <= j < k ==> interfaces@[j] == be_u16(bytes@, ifpos + 2 * j),
            forall|j: int|
                #![trigger interfaces@[j]]
                0 <= j < k ==> resolve_class_spec(constants@, interfaces@[j] as int) is Ok
                    && parent_names@[base + j]@ == resolve_class_spec(
                    constants@,
                    interfaces@[j] as int,
                ).unwrap(),
            super_class != 0 ==> parent_names@.len() >= 1 && parent_names@[0]@
                == resolve_class_spec(constants@, super_class as int).unwrap(),
        decreases ifaces_count as int - k,
    {
        let iindex = match read_u16(bytes, &mut pos) {
            Ok(v) => v,
            Err(e) => {
                proof {
                    assert(class_parse_pre(bytes@) == Ok::<int, ClassFileError>(pp0));
                    assert(header_parse_after_pool(name@, bytes@, constants@, pp0) == Err::<
                        int,
                        ClassFileError,
                    >(e));
                    lemma_header_outcome_all(name@, bytes@, constants@, pp0);
                }
                return Err(e);
            },
        };
        let pn = match resolve_class_cpool_entry(&constants, iindex) {
            Ok(v) => v,
            Err(e) => {
                proof {
                    assert(class_parse_pre(bytes@) == Ok::<int, ClassFileError>(pp0));
                    assert(header_parse_after_pool(name@, bytes@, constants@, pp0) == Err::<
                        int,
                        ClassFileError,
                    >(e));
                    lemma_header_outcome_all(name@, bytes@, constants@, pp0);
                }
                return Err(e);
            },
        };
        let ghost prev_if = interfaces@;
        let ghost prev_pn = parent_names@;
        interfaces.push(iindex);
        parent_names.push(pn);
        proof {
            assert(interfaces@[k as int] == iindex);
            assert(parent_names@[base + k] == pn);
            assert forall|j: int| #![trigger interfaces@[j]] 0 <= j < k + 1 implies
                resolve_class_spec(constants@, interfaces@[j] as int) is Ok && parent_names@[base
                + j]@ == resolve_class_spec(constants@, interfaces@[j] as int).unwrap() by {
                if j < k {
                    assert(interfaces@[j] == prev_if[j]);
                    assert(parent_names@[base + j] == prev_pn[base + j]);
                }
            }
        }
        k += 1;
    }
    proof {
        assert(ifaces_resolve_from(bytes@, constants@, ifpos as int, 0, ifaces_count as int)
            == Ok::<int, ClassFileError>(pos as int));
    }
    if parent_names.len() == 0 {
        let is_object = str_eq(name, "java.lang.Object");
        if !is_object && (access & ACC_INTERFACE) == 0 {
            proof {
                assert(header_parse_after_pool(name@, bytes@, constants@, pp0) == Err::<
                    int,
                    ClassFileError,
                >(ClassFileError::NoSuperclass));
                lemma_header_outcome_all(name@, bytes@, constants@, pp0);
            }
            return Err(ClassFileError::NoSuperclass);
        }
    }
    let fields_count = match read_u16(bytes, &mut pos) {
        Ok(v) => v,
        Err(e) => {
            proof {
                assert(header_parse_after_pool(name@, bytes@, constants@, pp0) == Err::<
                    int,
                    ClassFileError,
                >(e));
                lemma_header_outcome_all(name@, bytes@, constants@, pp0);
            }
            return Err(e);
        },
    };
    proof {
        assert(header_parse_after_pool(name@, bytes@, constants@, pp0) == Ok::<
            int,
            ClassFileError,
        >(pos as int));
    }
    Ok(
        ClassFile {
            minor,
            major,
            constants,
            access,
            this_class,
            super_class,
            interfaces,
            fields_count,
            own_name,
            parent_names,
        },
    )
}

/// Whether two strings hold the same characters.
pub fn str_eq(a: &str, b: &str) -> (r: bool)
    ensures
        r == (a@ == b@),
{
    let na = a.unicode_len();
    let nb = b.unicode_len();
    if na != nb {
        proof {
            assert(a@ != b@);
        }
        return false;
    }
    let mut i: usize = 0;
    while i < na
        invariant
            0 <= i <= na == a@.len() == b@.len(),
            forall|j: int| 0 <= j < i ==> a@[j] == b@[j],
        decreases na - i,
    {
        if a.get_char(i) != b.get_char(i) {
            return false;
        }
        i += 1;
    }
    proof {
        assert(a@ =~= b@);
    }
    true
}

} // verus!
