//! The decisions around starting a shell under a kill-on-close job object: the UTF-16
//! command line handed to Win32, which job handles are usable, and the exit code.
use vstd::prelude::*;
use vstd::string::*;
use crate::config::push_decimal;
use crate::text::{chars_of, decimal};

verus! {

/// The UTF-16 code units of one character.
pub open spec fn utf16_units(c: char) -> Seq<u16> {
    let n = c as u32;
    if n < 0x10000 {
        seq![n as u16]
    } else {
        let m = (n - 0x10000) as u32;
        seq![(0xD800 + m / 0x400) as u16, (0xDC00 + m % 0x400) as u16]
    }
}

/// The UTF-16 encoding of `s`.
pub open spec fn utf16(s: Seq<char>) -> Seq<u16>
    decreases s.len(),
{
    if s.len() == 0 {
        Seq::empty()
    } else {
        utf16(s.drop_last()) + utf16_units(s.last())
    }
}

/// `s` as a NUL-terminated UTF-16 string, the form Win32 wide-character functions take.
pub fn to_wide(s: &str) -> (w: Vec<u16>)
    ensures
        w@ == utf16(s@).push(0u16),
{
    let c = chars_of(s);
    let mut w: Vec<u16> = Vec::new();
    let mut i: usize = 0;
    while i < c.len()
        invariant
            i <= c.len(),
            w@ == utf16(c@.take(i as int)),
        decreases c.len() - i,
    {
        let ch = c[i];
        let n = ch as u32;
        assert(c@.take(i + 1).drop_last() =~= c@.take(i as int));
        assert(c@.take(i + 1).last() == ch);
        if n < 0x10000 {
            w.push(n as u16);
        } else {
            let m = n - 0x10000;
            assert(m < 0x100000) by {
                vstd::utf8::char_is_scalar(ch);
            }
            w.push((0xD800 + m / 0x400) as u16);
            w.push((0xDC00 + m % 0x400) as u16);
        }
        assert(w@ =~= utf16(c@.take(i as int)) + utf16_units(ch));
        i += 1;
    }
    assert(c@.take(i as int) =~= c@);
    w.push(0);
    w
}

/// A job handle of 0 stands for "no job": it is neither assigned to nor closed.
pub fn is_job_handle(job: isize) -> (b: bool)
    ensures
        b == (job != 0),
{
    job != 0
}

/// The exit code reported for a launched shell: 1 when it could not be started or its
/// exit code could not be read, its own exit code otherwise.
pub fn launch_exit_code(created: bool, exit_code: Option<u32>) -> (code: u32)
    ensures
        !created ==> code == 1,
        created ==> code == match exit_code {
            Some(c) => c,
            None => 1,
        },
{
    if !created {
        return 1;
    }
    match exit_code {
        Some(c) => c,
        None => 1,
    }
}

/// The text used for a Win32 error code that the system cannot describe: `error <code>`.
pub fn unknown_error_text(code: u32) -> (s: String)
    ensures
        s@ == "error "@ + decimal(code as nat),
{
    let mut s = String::from_str("error ");
    push_decimal(&mut s, code as usize);
    s
}

proof fn lemma_units_nonzero(c: char)
    requires
        c != '\0',
    ensures
        forall|i: int| 0 <= i < utf16_units(c).len() ==> utf16_units(c)[i] != 0,
{
}

/// A string without NUL characters becomes a wide string whose only zero unit is the
/// final terminator.
pub proof fn law_wide_string_has_single_terminator(s: Seq<char>)
    requires
        forall|i: int| 0 <= i < s.len() ==> s[i] != '\0',
    ensures
        forall|i: int| 0 <= i < utf16(s).len() ==> utf16(s)[i] != 0,
        utf16(s).push(0u16).last() == 0,
    decreases s.len(),
{
    if s.len() > 0 {
        law_wide_string_has_single_terminator(s.drop_last());
        lemma_units_nonzero(s.last());
        let a = utf16(s.drop_last());
        let b = utf16_units(s.last());
        assert forall|i: int| 0 <= i < utf16(s).len() implies utf16(s)[i] != 0 by {
            if i < a.len() {
                assert(utf16(s)[i] == a[i]);
            } else {
                assert(utf16(s)[i] == b[i - a.len()]);
            }
        }
    }
}

} // verus!
