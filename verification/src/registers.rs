//! The 8086 register-naming table: a 3-bit selector and an operand-width
//! flag pick one of sixteen canonical register names.

use vstd::prelude::*;

verus! {

/// The canonical 8086 register name for a 3-bit selector. When `w` is false
/// the selector picks a byte register, when `w` is true a word register.
pub open spec fn spec_register_name(sel: u8, w: bool) -> Seq<char> {
    if w {
        if sel == 0 {
            "ax"@
        } else if sel == 1 {
            "cx"@
        } else if sel == 2 {
            "dx"@
        } else if sel == 3 {
            "bx"@
        } else if sel == 4 {
            "sp"@
        } else if sel == 5 {
            "bp"@
        } else if sel == 6 {
            "si"@
        } else {
            "di"@
        }
    } else {
        if sel == 0 {
            "al"@
        } else if sel == 1 {
            "cl"@
        } else if sel == 2 {
            "dl"@
        } else if sel == 3 {
            "bl"@
        } else if sel == 4 {
            "ah"@
        } else if sel == 5 {
            "ch"@
        } else if sel == 6 {
            "dh"@
        } else {
            "bh"@
        }
    }
}

/// Every register name is exactly two characters, none of them a newline.
pub proof fn lemma_register_name_wf(sel: u8, w: bool)
    ensures
        spec_register_name(sel, w).len() == 2,
        forall|i: int|
            0 <= i < spec_register_name(sel, w).len() ==> #[trigger] spec_register_name(sel, w)[i]
                != '\n',
{
    reveal_strlit("ax");
    reveal_strlit("cx");
    reveal_strlit("dx");
    reveal_strlit("bx");
    reveal_strlit("sp");
    reveal_strlit("bp");
    reveal_strlit("si");
    reveal_strlit("di");
    reveal_strlit("al");
    reveal_strlit("cl");
    reveal_strlit("dl");
    reveal_strlit("bl");
    reveal_strlit("ah");
    reveal_strlit("ch");
    reveal_strlit("dh");
    reveal_strlit("bh");
}

/// The table is injective per width: within one operand width, two distinct
/// selectors always resolve to distinct, non-empty register names.
pub proof fn lemma_register_table_injective(s1: u8, s2: u8, w: bool)
    requires
        s1 < 8,
        s2 < 8,
        s1 != s2,
    ensures
        spec_register_name(s1, w) != spec_register_name(s2, w),
        spec_register_name(s1, w).len() > 0,
{
    reveal_strlit("ax");
    reveal_strlit("cx");
    reveal_strlit("dx");
    reveal_strlit("bx");
    reveal_strlit("sp");
    reveal_strlit("bp");
    reveal_strlit("si");
    reveal_strlit("di");
    reveal_strlit("al");
    reveal_strlit("cl");
    reveal_strlit("dl");
    reveal_strlit("bl");
    reveal_strlit("ah");
    reveal_strlit("ch");
    reveal_strlit("dh");
    reveal_strlit("bh");
    let a = spec_register_name(s1, w);
    let b = spec_register_name(s2, w);
    if a == b {
        assert(a[0] == b[0] && a[1] == b[1]);
        assert(false);
    }
}

/// Resolve a 3-bit register selector to its canonical name. A selector
/// outside the table's domain would mean the caller's bit masking is broken,
/// so it is excluded outright rather than given a default.
pub fn byte_to_register(byte: u8, w: bool) -> (r: String)
    requires
        byte < 8,
    ensures
        r@ == spec_register_name(byte, w),
{
    let name: &str = if w {
        if byte == 0 {
            "ax"
        } else if byte == 1 {
            "cx"
        } else if byte == 2 {
            "dx"
        } else if byte == 3 {
            "bx"
        } else if byte == 4 {
            "sp"
        } else if byte == 5 {
            "bp"
        } else if byte == 6 {
            "si"
        } else {
            "di"
        }
    } else {
        if byte == 0 {
            "al"
        } else if byte == 1 {
            "cl"
        } else if byte == 2 {
            "dl"
        } else if byte == 3 {
            "bl"
        } else if byte == 4 {
            "ah"
        } else if byte == 5 {
            "ch"
        } else if byte == 6 {
            "dh"
        } else {
            "bh"
        }
    };
    name.to_owned()
}

} // verus!
