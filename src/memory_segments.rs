//! The memory segments of the virtual machine and their addressing bases.
use vstd::prelude::*;

verus! {

/// A named region of virtual-machine state.
#[derive(Clone, Copy, Debug, PartialEq, Eq, Structural)]
pub enum Segment {
    Sp,
    Local,
    Argument,
    This,
    That,
    Temp,
    Static,
    Pointer,
    Constant,
}

/// How a segment is addressed on the target machine.
#[derive(Clone, Copy, Debug, PartialEq, Eq, Structural)]
pub enum Base {
    /// A register cell holds a pointer; the cell addressed is pointer + offset.
    Register(Reg),
    /// The cell addressed is the fixed address + offset.
    Fixed(u64),
    /// One symbolic cell per source file and offset.
    Symbolic,
    /// Offset 0 selects `THIS`, any other offset `THAT`.
    PointerCells,
    /// Not memory: the offset is the value.
    Immediate,
}

/// The predefined pointer cells of the target machine.
#[derive(Clone, Copy, Debug, PartialEq, Eq, Structural)]
pub enum Reg {
    Sp,
    Lcl,
    Arg,
    This,
    That,
}

/// Address of the fixed cell that holds the base of the temp segment.
pub const TEMP_BASE: u64 = 5;

/// The segment named by a token of the source language.
pub open spec fn segment_named(name: Seq<char>) -> Option<Segment> {
    if name == "sp"@ {
        Some(Segment::Sp)
    } else if name == "local"@ {
        Some(Segment::Local)
    } else if name == "argument"@ {
        Some(Segment::Argument)
    } else if name == "this"@ {
        Some(Segment::This)
    } else if name == "that"@ {
        Some(Segment::That)
    } else if name == "temp"@ {
        Some(Segment::Temp)
    } else if name == "static"@ {
        Some(Segment::Static)
    } else if name == "pointer"@ {
        Some(Segment::Pointer)
    } else if name == "constant"@ {
        Some(Segment::Constant)
    } else {
        None
    }
}

/// The addressing base of each segment.
pub open spec fn spec_base(s: Segment) -> Base {
    match s {
        Segment::Sp => Base::Register(Reg::Sp),
        Segment::Local => Base::Register(Reg::Lcl),
        Segment::Argument => Base::Register(Reg::Arg),
        Segment::This => Base::Register(Reg::This),
        Segment::That => Base::Register(Reg::That),
        Segment::Temp => Base::Fixed(TEMP_BASE),
        Segment::Static => Base::Symbolic,
        Segment::Pointer => Base::PointerCells,
        Segment::Constant => Base::Immediate,
    }
}

impl Segment {
    /// The addressing base of this segment.
    pub fn base(self) -> (r: Base)
        ensures
            r == spec_base(self),
    {
        match self {
            Segment::Sp => Base::Register(Reg::Sp),
            Segment::Local => Base::Register(Reg::Lcl),
            Segment::Argument => Base::Register(Reg::Arg),
            Segment::This => Base::Register(Reg::This),
            Segment::That => Base::Register(Reg::That),
            Segment::Temp => Base::Fixed(TEMP_BASE),
            Segment::Static => Base::Symbolic,
            Segment::Pointer => Base::PointerCells,
            Segment::Constant => Base::Immediate,
        }
    }
}

/// Whether two strings hold the same characters.
pub fn same_text(a: &str, b: &str) -> (r: bool)
    ensures
        r == (a@ == b@),
{
    let n = a.unicode_len();
    if n != b.unicode_len() {
        return false;
    }
    let mut i: usize = 0;
    while i < n
        invariant
            n == a@.len(),
            n == b@.len(),
            i <= n,
            a@.subrange(0, i as int) == b@.subrange(0, i as int),
        decreases n - i,
    {
        if a.get_char(i) != b.get_char(i) {
            return false;
        }
        assert(a@.subrange(0, i + 1) == a@.subrange(0, i as int).push(a@[i as int]));
        assert(b@.subrange(0, i + 1) == b@.subrange(0, i as int).push(b@[i as int]));
        i = i + 1;
    }
    assert(a@ == a@.subrange(0, n as int));
    assert(b@ == b@.subrange(0, n as int));
    true
}

/// The segment that a token names, if it names one.
pub fn segment_from_name(name: &str) -> (r: Option<Segment>)
    ensures
        r == segment_named(name@),
{
    if same_text(name, "sp") {
        Some(Segment::Sp)
    } else if same_text(name, "local") {
        Some(Segment::Local)
    } else if same_text(name, "argument") {
        Some(Segment::Argument)
    } else if same_text(name, "this") {
        Some(Segment::This)
    } else if same_text(name, "that") {
        Some(Segment::That)
    } else if same_text(name, "temp") {
        Some(Segment::Temp)
    } else if same_text(name, "static") {
        Some(Segment::Static)
    } else if same_text(name, "pointer") {
        Some(Segment::Pointer)
    } else if same_text(name, "constant") {
        Some(Segment::Constant)
    } else {
        None
    }
}

} // verus!
