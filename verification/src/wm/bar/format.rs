use vstd::prelude::*;

verus! {

/// Where a format string reader stands: inside braces or not, the placeholder name read
/// inside braces, and the text written so far.
pub struct FormatState {
    pub in_brace: bool,
    pub brace: Seq<char>,
    pub out: Seq<char>,
}

/// One character of a format string. Outside braces it is written, except `{`, which
/// opens a placeholder. Inside braces, `}` closes the placeholder and writes what `subst`
/// gives for its name; any other character is added to the name. When `clear` holds, the
/// name starts afresh after each placeholder; otherwise names pile up.
pub open spec fn format_step(st: FormatState, c: char, clear: bool, subst: spec_fn(Seq<char>) -> Seq<char>) -> FormatState {
    if !st.in_brace {
        if c == '{' {
            FormatState { in_brace: true, ..st }
        } else {
            FormatState { out: st.out.push(c), ..st }
        }
    } else if c == '}' {
        FormatState {
            in_brace: false,
            brace: if clear {
                seq![]
            } else {
                st.brace
            },
            out: st.out + subst(st.brace),
        }
    } else {
        FormatState { brace: st.brace.push(c), ..st }
    }
}

/// The reader's state after the characters of `fmt`.
pub open spec fn format_fold(fmt: Seq<char>, clear: bool, subst: spec_fn(Seq<char>) -> Seq<char>) -> FormatState
    decreases fmt.len(),
{
    if fmt.len() == 0 {
        FormatState { in_brace: false, brace: seq![], out: seq![] }
    } else {
        format_step(format_fold(fmt.drop_last(), clear, subst), fmt.last(), clear, subst)
    }
}

/// The text of a format string, or `None` when a placeholder is left open.
pub open spec fn format_text(fmt: Seq<char>, clear: bool, subst: spec_fn(Seq<char>) -> Seq<char>) -> Option<Seq<char>> {
    let st = format_fold(fmt, clear, subst);
    if st.in_brace {
        None
    } else {
        Some(st.out)
    }
}

} // verus!
