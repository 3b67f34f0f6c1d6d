//! Windows paths as WSL sees them: `C:\Users\x` becomes `/mnt/c/Users/x`.
use vstd::prelude::*;
use vstd::string::*;
use crate::text::{ascii_lower, ascii_lower_exec, chars_of};

verus! {

/// `s` with every backslash turned into a forward slash.
pub open spec fn forward_slashes(s: Seq<char>) -> Seq<char> {
    s.map_values(|c: char| if c == '\\' { '/' } else { c })
}

/// `w` begins with an ASCII drive letter followed by `:`.
pub open spec fn has_drive_prefix(w: Seq<char>) -> bool {
    w.len() >= 2 && (w[0] as u32) < 128 && w[1] == ':'
}

/// The WSL form of the Windows path `w`.
pub open spec fn wsl_path(w: Seq<char>) -> Seq<char> {
    if has_drive_prefix(w) {
        "/mnt/"@ + seq![ascii_lower(w[0])] + forward_slashes(w.skip(2))
    } else {
        forward_slashes(w)
    }
}

/// Appends `s[from..]` to `out` with backslashes turned into forward slashes.
fn push_forward_slashes(out: &mut String, s: &Vec<char>, from: usize)
    requires
        from <= s.len(),
    ensures
        final(out)@ == old(out)@ + forward_slashes(s@.skip(from as int)),
{
    let mut i = from;
    while i < s.len()
        invariant
            from <= i <= s.len(),
            out@ == old(out)@ + forward_slashes(s@.subrange(from as int, i as int)),
        decreases s.len() - i,
    {
        let c = s[i];
        if c == '\\' {
            out.push('/');
        } else {
            out.push(c);
        }
        assert(forward_slashes(s@.subrange(from as int, i + 1)) =~= forward_slashes(
            s@.subrange(from as int, i as int),
        ).push(if c == '\\' { '/' } else { c }));
        i += 1;
    }
    assert(s@.subrange(from as int, i as int) =~= s@.skip(from as int));
}

/// Converts a Windows path to its WSL form: a leading drive `X:` becomes `/mnt/x`
/// (lower case) and every backslash becomes a forward slash.
pub fn to_wsl_path(win: &str) -> (r: String)
    ensures
        r@ == wsl_path(win@),
{
    let w = chars_of(win);
    if w.len() >= 2 && (w[0] as u32) < 128 && w[1] == ':' {
        let mut r = String::from_str("/mnt/");
        r.push(ascii_lower_exec(w[0]));
        push_forward_slashes(&mut r, &w, 2);
        r
    } else {
        let mut r = String::new();
        push_forward_slashes(&mut r, &w, 0);
        assert(w@.skip(0) =~= w@);
        assert(Seq::<char>::empty() + forward_slashes(w@) =~= forward_slashes(w@));
        r
    }
}

/// A WSL path holds no backslash (unless the drive letter itself is one).
pub proof fn law_wsl_path_has_no_backslash(w: Seq<char>)
    requires
        !(has_drive_prefix(w) && w[0] == '\\'),
    ensures
        forall|i: int| 0 <= i < wsl_path(w).len() ==> wsl_path(w)[i] != '\\',
{
    reveal_strlit("/mnt/");
    if has_drive_prefix(w) {
        let head = "/mnt/"@ + seq![ascii_lower(w[0])];
        assert forall|i: int| 0 <= i < wsl_path(w).len() implies wsl_path(w)[i] != '\\' by {
            if i >= head.len() {
                assert(wsl_path(w)[i] == forward_slashes(w.skip(2))[i - head.len()]);
            } else if i == 5 {
                assert(wsl_path(w)[i] == ascii_lower(w[0]));
            } else {
                assert(wsl_path(w)[i] == "/mnt/"@[i]);
            }
        }
    }
}

/// Converting a path that is already in WSL form changes nothing (unless the drive
/// letter itself is a backslash).
pub proof fn law_wsl_path_idempotent(w: Seq<char>)
    requires
        !(has_drive_prefix(w) && w[0] == '\\'),
    ensures
        wsl_path(wsl_path(w)) == wsl_path(w),
{
    reveal_strlit("/mnt/");
    let r = wsl_path(w);
    law_wsl_path_has_no_backslash(w);
    if has_drive_prefix(w) {
        assert(r[1] == 'm');
    } else {
        assert(r.len() == w.len());
        if w.len() >= 2 {
            assert(r[1] == ':' <==> w[1] == ':');
            assert(w[1] == ':' ==> r[0] == w[0]);
        }
    }
    assert(!has_drive_prefix(r));
    assert(forward_slashes(r) =~= r);
}

} // verus!
