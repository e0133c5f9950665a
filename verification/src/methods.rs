//! Parsing of the methods section of a class file: per method its name,
//! descriptor and the required `Code` attribute with the bytecode and the
//! exception handler table.

use vstd::prelude::*;

use crate::class::JavaMethod;
use crate::classfile::{
    be_u16, read_bytes, read_u16, resolve_class_cpool_entry, resolve_class_spec,
    resolve_name_cpool_entry, resolve_name_spec, str_eq, ClassFileError,
};
use crate::code::{CodeBlock, ExceptionHandler};
use crate::def::Constant;

verus! {

/// Whether `h` is exactly the exception-handler record at `pos`: the
/// protected range, the handler entry, and the caught class resolved
/// through the pool.
pub open spec fn handler_encodes(
    h: ExceptionHandler,
    bytes: Seq<u8>,
    cs: Seq<Constant>,
    pos: int,
) -> bool {
    &&& h.start_pc == be_u16(bytes, pos)
    &&& h.end_pc == be_u16(bytes, pos + 2)
    &&& h.handler_pc == be_u16(bytes, pos + 4)
    &&& resolve_class_spec(cs, be_u16(bytes, pos + 6)) is Ok
    &&& h.catch_type@ == resolve_class_spec(cs, be_u16(bytes, pos + 6)).unwrap()
}

/// Where parsing the handler records `h` up to `count` at `pos` ends, or
/// why it fails.
pub open spec fn handlers_parse_from(
    bytes: Seq<u8>,
    cs: Seq<Constant>,
    pos: int,
    h: int,
    count: int,
) -> Result<int, ClassFileError>
    decreases count - h,
{
    if h >= count {
        Ok(pos)
    } else if pos + 8 > bytes.len() {
        Err(ClassFileError::UnexpectedEOF)
    } else {
        match resolve_class_spec(cs, be_u16(bytes, pos + 6)) {
            Err(e) => Err(e),
            Ok(_) => handlers_parse_from(bytes, cs, pos + 8, h + 1, count),
        }
    }
}

/// Where parsing a `Code` attribute body at `pos` ends, or why it fails.
pub open spec fn code_attr_parse(bytes: Seq<u8>, cs: Seq<Constant>, pos: int) -> Result<
    int,
    ClassFileError,
> {
    if pos + 6 > bytes.len() {
        Err(ClassFileError::UnexpectedEOF)
    } else {
        let cl = be_u16(bytes, pos + 4);
        if pos + 6 + cl + 2 > bytes.len() {
            Err(ClassFileError::UnexpectedEOF)
        } else {
            handlers_parse_from(bytes, cs, pos + 8 + cl, 0, be_u16(bytes, pos + 6 + cl))
        }
    }
}

/// Whether `cb` is exactly the `Code` attribute body at `pos`.
pub open spec fn code_block_encodes(
    cb: CodeBlock,
    bytes: Seq<u8>,
    cs: Seq<Constant>,
    pos: int,
) -> bool {
    let cl = be_u16(bytes, pos + 4);
    let ec = be_u16(bytes, pos + 6 + cl);
    &&& cb.max_stack == be_u16(bytes, pos)
    &&& cb.max_locals == be_u16(bytes, pos + 2)
    &&& cb.code@ == bytes.subrange(pos + 6, pos + 6 + cl)
    &&& cb.exceptions@.len() == ec
    &&& forall|h: int|
        0 <= h < ec ==> handler_encodes(#[trigger] cb.exceptions@[h], bytes, cs, pos + 8 + cl + 8
            * h)
}

/// Parse a single `Code` attribute whose header was already consumed:
/// stack and local sizes, the raw bytecode, and the handler table, whose
/// caught classes are resolved through the pool.
pub fn load_code_attribute(constants: &Vec<Constant>, bytes: &Vec<u8>, pos: &mut usize) -> (r:
    Result<CodeBlock, ClassFileError>)
    requires
        bytes@.len() <= usize::MAX - 8,
    ensures
        ({
            let spec = code_attr_parse(bytes@, constants@, *old(pos) as int);
            match r {
                Ok(cb) => spec is Ok && *final(pos) == spec.unwrap() && code_block_encodes(
                    cb,
                    bytes@,
                    constants@,
                    *old(pos) as int,
                ),
                Err(e) => spec == Err::<int, ClassFileError>(e),
            }
        }),
{
    let ghost p0 = *pos;
    let max_stack = read_u16(bytes, pos)?;
    let max_locals = match read_u16(bytes, pos) {
        Ok(v) => v,
        Err(e) => {
            return Err(e);
        },
    };
    let code_len = match read_u16(bytes, pos) {
        Ok(v) => v,
        Err(e) => {
            return Err(e);
        },
    };
    let code = match read_bytes(bytes, pos, code_len as usize) {
        Ok(v) => v,
        Err(e) => {
            return Err(e);
        },
    };
    let exc_len = match read_u16(bytes, pos) {
        Ok(v) => v,
        Err(e) => {
            return Err(e);
        },
    };
    let ghost hbase = *pos;
    let mut exc_rec: Vec<ExceptionHandler> = Vec::new();
    let mut i: usize = 0;
    while i < exc_len as usize
        invariant
            0 <= i <= exc_len as usize,
            *pos == hbase + 8 * i,
            bytes@.len() <= usize::MAX - 8,
            p0 == *old(pos) as int,
            p0 + 6 <= bytes@.len(),
            max_stack == be_u16(bytes@, p0 as int),
            max_locals == be_u16(bytes@, p0 + 2),
            code_len == be_u16(bytes@, p0 + 4),
            p0 + 6 + code_len + 2 <= bytes@.len(),
            code@ == bytes@.subrange(p0 + 6, p0 + 6 + code_len),
            exc_len == be_u16(bytes@, p0 + 6 + code_len),
            hbase == p0 + 8 + code_len,
            exc_rec@.len() == i,
            forall|h: int|
                0 <= h < i ==> handler_encodes(
                    #[trigger] exc_rec@[h],
                    bytes@,
                    constants@,
                    hbase + 8 * h,
                ),
            handlers_parse_from(bytes@, constants@, hbase as int, 0, exc_len as int)
                == handlers_parse_from(bytes@, constants@, *pos as int, i as int, exc_len as int),
        decreases exc_len as int - i,
    {
        let start_pc = match read_u16(bytes, pos) {
            Ok(v) => v,
            Err(e) => {
                return Err(e);
            },
        };
        let end_pc = match read_u16(bytes, pos) {
            Ok(v) => v,
            Err(e) => {
                return Err(e);
            },
        };
        let handler_pc = match read_u16(bytes, pos) {
            Ok(v) => v,
            Err(e) => {
                return Err(e);
            },
        };
        let catch_type_index = match read_u16(bytes, pos) {
            Ok(v) => v,
            Err(e) => {
                return Err(e);
            },
        };
        let catch_type = match resolve_class_cpool_entry(constants, catch_type_index) {
            Ok(v) => v,
            Err(e) => {
                return Err(e);
            },
        };
        exc_rec.push(ExceptionHandler { start_pc, end_pc, handler_pc, catch_type });
        i += 1;
    }
    Ok(CodeBlock::new(max_stack, max_locals, code, exc_rec))
}

/// Where scanning the attribute records `j` up to `count` at `pos` ends,
/// together with the body position of the last `Code` attribute seen so
/// far (`codep`, -1 when none), or why it fails.
pub open spec fn attrs_parse_from(
    bytes: Seq<u8>,
    cs: Seq<Constant>,
    pos: int,
    j: int,
    count: int,
    codep: int,
) -> Result<(int, int), ClassFileError>
    decreases count - j,
{
    if j >= count {
        Ok((pos, codep))
    } else if pos + 2 > bytes.len() {
        Err(ClassFileError::UnexpectedEOF)
    } else {
        match resolve_name_spec(cs, be_u16(bytes, pos)) {
            Err(e) => Err(e),
            Ok(nm) => if nm == "Code"@ {
                match code_attr_parse(bytes, cs, pos + 2) {
                    Err(e) => Err(e),
                    Ok(np) => attrs_parse_from(bytes, cs, np, j + 1, count, pos + 2),
                }
            } else {
                attrs_parse_from(bytes, cs, pos + 2, j + 1, count, codep)
            },
        }
    }
}

/// Scan the attribute records `j` up to `count`, keeping the last parsed
/// `Code` attribute.
fn parse_attrs(
    bytes: &Vec<u8>,
    pos: &mut usize,
    constants: &Vec<Constant>,
    j: u16,
    count: u16,
    current: Option<CodeBlock>,
    Ghost(cpin): Ghost<int>,
) -> (r: Result<Option<CodeBlock>, ClassFileError>)
    requires
        bytes@.len() <= usize::MAX - 8,
        current is None <==> cpin == -1,
        current matches Some(cb) ==> cpin >= 0 && code_block_encodes(
            cb,
            bytes@,
            constants@,
            cpin,
        ),
    ensures
        ({
            let spec = attrs_parse_from(
                bytes@,
                constants@,
                *old(pos) as int,
                j as int,
                count as int,
                cpin,
            );
            match r {
                Ok(cur) => spec is Ok && *final(pos) == spec.unwrap().0 && (cur is None
                    <==> spec.unwrap().1 == -1) && (cur matches Some(cb) ==> spec.unwrap().1 >= 0
                    && code_block_encodes(cb, bytes@, constants@, spec.unwrap().1)),
                Err(e) => spec == Err::<(int, int), ClassFileError>(e),
            }
        }),
    decreases count - j,
{
    if j >= count {
        return Ok(current);
    }
    let name_ix = read_u16(bytes, pos)?;
    let name = match resolve_name_cpool_entry(constants, name_ix) {
        Ok(v) => v,
        Err(e) => {
            return Err(e);
        },
    };
    if str_eq(name.as_str(), "Code") {
        let ghost cp = *pos;
        let cb = match load_code_attribute(constants, bytes, pos) {
            Ok(v) => v,
            Err(e) => {
                return Err(e);
            },
        };
        parse_attrs(bytes, pos, constants, j + 1, count, Some(cb), Ghost(cp as int))
    } else {
        parse_attrs(bytes, pos, constants, j + 1, count, current, Ghost(cpin))
    }
}

/// Where parsing the method records `k` up to `count` at `pos` ends, or
/// why it fails.  Every method must carry a `Code` attribute.
pub open spec fn methods_parse_from(
    bytes: Seq<u8>,
    cs: Seq<Constant>,
    pos: int,
    k: int,
    count: int,
) -> Result<int, ClassFileError>
    decreases count - k,
{
    if k >= count {
        Ok(pos)
    } else if pos + 4 > bytes.len() {
        Err(ClassFileError::UnexpectedEOF)
    } else {
        match resolve_name_spec(cs, be_u16(bytes, pos + 2)) {
            Err(e) => Err(e),
            Ok(_) => if pos + 6 > bytes.len() {
                Err(ClassFileError::UnexpectedEOF)
            } else {
                match resolve_name_spec(cs, be_u16(bytes, pos + 4)) {
                    Err(e) => Err(e),
                    Ok(_) => if pos + 8 > bytes.len() {
                        Err(ClassFileError::UnexpectedEOF)
                    } else {
                        match attrs_parse_from(
                            bytes,
                            cs,
                            pos + 8,
                            0,
                            be_u16(bytes, pos + 6),
                            -1,
                        ) {
                            Err(e) => Err(e),
                            Ok((np, cp)) => if cp < 0 {
                                Err(ClassFileError::MissingCodeAttribute)
                            } else {
                                methods_parse_from(bytes, cs, np, k + 1, count)
                            },
                        }
                    },
                }
            },
        }
    }
}

/// Whether `ms` is exactly the method list encoded from record `k` up to
/// `count` at `pos`: each method's name and descriptor resolve through
/// the pool, and its code block is the last `Code` attribute of the
/// record.
pub open spec fn methods_encode(
    ms: Seq<JavaMethod>,
    bytes: Seq<u8>,
    cs: Seq<Constant>,
    pos: int,
    k: int,
    count: int,
) -> bool
    decreases count - k,
{
    if k >= count {
        ms.len() == 0
    } else if pos + 8 <= bytes.len() && resolve_name_spec(cs, be_u16(bytes, pos + 2)) is Ok
        && resolve_name_spec(cs, be_u16(bytes, pos + 4)) is Ok && attrs_parse_from(
        bytes,
        cs,
        pos + 8,
        0,
        be_u16(bytes, pos + 6),
        -1,
    ) is Ok {
        let np = attrs_parse_from(bytes, cs, pos + 8, 0, be_u16(bytes, pos + 6), -1).unwrap().0;
        let cp = attrs_parse_from(bytes, cs, pos + 8, 0, be_u16(bytes, pos + 6), -1).unwrap().1;
        &&& cp >= 0
        &&& ms.len() >= 1
        &&& ms[0].name@ == resolve_name_spec(cs, be_u16(bytes, pos + 2)).unwrap()
        &&& ms[0].descriptor@ == resolve_name_spec(cs, be_u16(bytes, pos + 4)).unwrap()
        &&& code_block_encodes(ms[0].code, bytes, cs, cp)
        &&& methods_encode(ms.skip(1), bytes, cs, np, k + 1, count)
    } else {
        false
    }
}

/// Parse the method records `k` up to `count`.
fn parse_method_entries(bytes: &Vec<u8>, pos: &mut usize, constants: &Vec<Constant>, k: u16, count: u16)
    -> (r: Result<Vec<JavaMethod>, ClassFileError>)
    requires
        bytes@.len() <= usize::MAX - 8,
    ensures
        ({
            let spec = methods_parse_from(
                bytes@,
                constants@,
                *old(pos) as int,
                k as int,
                count as int,
            );
            match r {
                Ok(ms) => spec is Ok && *final(pos) == spec.unwrap() && methods_encode(
                    ms@,
                    bytes@,
                    constants@,
                    *old(pos) as int,
                    k as int,
                    count as int,
                ) && (k <= count ==> ms@.len() == count - k),
                Err(e) => spec == Err::<int, ClassFileError>(e),
            }
        }),
    decreases count - k,
{
    if k >= count {
        return Ok(Vec::new());
    }
    let _access = read_u16(bytes, pos)?;
    let name_ix = match read_u16(bytes, pos) {
        Ok(v) => v,
        Err(e) => {
            return Err(e);
        },
    };
    let name = match resolve_name_cpool_entry(constants, name_ix) {
        Ok(v) => v,
        Err(e) => {
            return Err(e);
        },
    };
    let desc_ix = match read_u16(bytes, pos) {
        Ok(v) => v,
        Err(e) => {
            return Err(e);
        },
    };
    let desc = match resolve_name_cpool_entry(constants, desc_ix) {
        Ok(v) => v,
        Err(e) => {
            return Err(e);
        },
    };
    let attr_count = match read_u16(bytes, pos) {
        Ok(v) => v,
        Err(e) => {
            return Err(e);
        },
    };
    let code_attr = match parse_attrs(bytes, pos, constants, 0, attr_count, None, Ghost(-1)) {
        Ok(v) => v,
        Err(e) => {
            return Err(e);
        },
    };
    let code = match code_attr {
        Some(cb) => cb,
        None => {
            return Err(ClassFileError::MissingCodeAttribute);
        },
    };
    let m = JavaMethod::new(name, desc, code);
    let mut rest = match parse_method_entries(bytes, pos, constants, k + 1, count) {
        Ok(ms) => ms,
        Err(e) => {
            return Err(e);
        },
    };
    let ghost restv = rest@;
    let mut out: Vec<JavaMethod> = Vec::new();
    out.push(m);
    out.append(&mut rest);
    proof {
        assert(out@.skip(1) =~= restv);
    }
    Ok(out)
}

/// Parse the methods section: a record count, then per method its access
/// flags (not retained), name, descriptor and attributes, of which the
/// `Code` attribute is required.
pub fn read_methods(bytes: &Vec<u8>, pos: &mut usize, constants: &Vec<Constant>) -> (r: Result<
    Vec<JavaMethod>,
    ClassFileError,
>)
    requires
        bytes@.len() <= usize::MAX - 8,
    ensures
        *old(pos) + 2 > bytes@.len() ==> r == Err::<Vec<JavaMethod>, ClassFileError>(
            ClassFileError::UnexpectedEOF,
        ),
        *old(pos) + 2 <= bytes@.len() ==> ({
            let count = be_u16(bytes@, *old(pos) as int);
            let spec = methods_parse_from(bytes@, constants@, *old(pos) + 2, 0, count);
            match r {
                Ok(ms) => spec is Ok && *final(pos) == spec.unwrap() && methods_encode(
                    ms@,
                    bytes@,
                    constants@,
                    *old(pos) + 2,
                    0,
                    count,
                ) && ms@.len() == count,
                Err(e) => spec == Err::<int, ClassFileError>(e),
            }
        }),
{
    let count = read_u16(bytes, pos)?;
    parse_method_entries(bytes, pos, constants, 0, count)
}

} // verus!
