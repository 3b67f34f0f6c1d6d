//! Temporary command scripts: their names, which leftover files the start-up cleanup
//! removes, and how often the creation of a fresh name is retried.
use vstd::prelude::*;
use vstd::string::*;
use crate::text::{chars_of, ends_with, ends_with_exec, starts_with, starts_with_exec};

verus! {

/// `c` is a lower-case hexadecimal digit.
pub open spec fn is_lower_hex(c: char) -> bool {
    ('0' <= c && c <= '9') || ('a' <= c && c <= 'f')
}

/// `u` is a random (version 4, RFC 4122 variant) UUID in lower-case hyphenated form,
/// such as `2f1c1a5e-8d3b-4c6f-9a2e-5b7d4e3c2a10`.
pub open spec fn is_hyphenated_v4(u: Seq<char>) -> bool {
    &&& u.len() == 36
    &&& forall|i: int|
        0 <= i < 36 ==> if i == 8 || i == 13 || i == 18 || i == 23 {
            u[i] == '-'
        } else {
            is_lower_hex(#[trigger] u[i])
        }
    &&& u[14] == '4'
    &&& (u[19] == '8' || u[19] == '9' || u[19] == 'a' || u[19] == 'b')
}

/// The lower-case hexadecimal digit for `n` (below 16).
pub open spec fn hex_digit(n: u8) -> char {
    if n < 10 {
        (n + 48) as char
    } else {
        (n + 87) as char
    }
}

/// `b` in lower-case hexadecimal, two digits per byte, high nibble first.
pub open spec fn hex_of(b: Seq<u8>) -> Seq<char> {
    Seq::new(
        2 * b.len(),
        |i: int|
            if i % 2 == 0 {
                hex_digit(b[i / 2] >> 4)
            } else {
                hex_digit(b[i / 2] & 0x0f)
            },
    )
}

/// The 16 bytes `b` with the bits of a version 4, RFC 4122 variant UUID set: the high
/// nibble of byte 6 becomes 4, the top two bits of byte 8 become `10`.
pub open spec fn v4_bytes(b: Seq<u8>) -> Seq<u8> {
    b.update(6, (b[6] & 0x0f) | 0x40).update(8, (b[8] & 0x3f) | 0x80)
}

/// The 16 bytes `b` as a hyphenated UUID: hex digits grouped 8-4-4-4-12.
pub open spec fn hyphenated(b: Seq<u8>) -> Seq<char> {
    let h = hex_of(b);
    h.subrange(0, 8) + seq!['-'] + h.subrange(8, 12) + seq!['-'] + h.subrange(12, 16) + seq!['-']
        + h.subrange(16, 20) + seq!['-'] + h.subrange(20, 32)
}

/// `uuid::Builder::from_random_bytes(bytes).into_uuid()` rendered by `Display`: uuid sets
/// the version 4 and RFC 4122 variant bits of the given bytes (`with_version`,
/// `with_variant`) and prints them as lower-case hyphenated hex (`fmt::LowerHex`).
#[verifier::external_body]
fn uuid_v4_text(bytes: [u8; 16]) -> (u: String)
    ensures
        u@ == hyphenated(v4_bytes(bytes@)),
{
    uuid::Builder::from_random_bytes(bytes).into_uuid().to_string()
}

proof fn lemma_hex_digit(n: u8)
    requires
        n < 16,
    ensures
        is_lower_hex(hex_digit(n)),
{
}

/// A hyphenated UUID made from 16 random bytes has the shape of a version 4 UUID.
pub proof fn law_random_bytes_make_v4_uuid(b: Seq<u8>)
    requires
        b.len() == 16,
    ensures
        is_hyphenated_v4(hyphenated(v4_bytes(b))),
{
    let v = v4_bytes(b);
    let h = hex_of(v);
    let u = hyphenated(v);
    assert(h.len() == 32);
    assert forall|k: int| 0 <= k < 32 implies is_lower_hex(#[trigger] h[k]) by {
        let x = v[k / 2];
        assert(x >> 4 < 16 && x & 0x0f < 16) by (bit_vector);
        lemma_hex_digit(x >> 4);
        lemma_hex_digit(x & 0x0f);
    }
    assert(u.len() == 36);
    assert forall|i: int|
        0 <= i < 36 implies if i == 8 || i == 13 || i == 18 || i == 23 {
        u[i] == '-'
    } else {
        is_lower_hex(#[trigger] u[i])
    } by {
        if i < 8 {
            assert(u[i] == h[i]);
        } else if 8 < i < 13 {
            assert(u[i] == h[i - 1]);
        } else if 13 < i < 18 {
            assert(u[i] == h[i - 2]);
        } else if 18 < i < 23 {
            assert(u[i] == h[i - 3]);
        } else if 23 < i {
            assert(u[i] == h[i - 4]);
        }
    }
    let b6 = b[6];
    let b8 = b[8];
    assert(((b6 & 0x0f) | 0x40) >> 4 == 4) by (bit_vector);
    let w = ((b8 & 0x3f) | 0x80) >> 4;
    assert(8 <= w <= 11) by (bit_vector)
        requires
            w == ((b8 & 0x3f) | 0x80) >> 4,
    ;
    assert(u[14] == h[12]);
    assert(u[19] == h[16]);
    assert(v[6] == (b6 & 0x0f) | 0x40);
    assert(v[8] == (b8 & 0x3f) | 0x80);
}

/// The file name of a command script: `ssh-cmd-`, a UUID, then the extension.
pub open spec fn script_name(uuid: Seq<char>, ext: Seq<char>) -> Seq<char> {
    "ssh-cmd-"@ + uuid + ext
}

/// The file name of a command script with the given UUID and extension.
pub fn script_file_name(uuid: &str, ext: &str) -> (n: String)
    ensures
        n@ == script_name(uuid@, ext@),
{
    let mut n = String::from_str("ssh-cmd-");
    n.append(uuid);
    n.append(ext);
    n
}

/// The file name of a command script whose UUID is made from the 16 random bytes
/// `random`; it has the shape of a version 4 UUID.
pub fn script_file_name_from_random(random: [u8; 16], ext: &str) -> (n: String)
    ensures
        n@ == script_name(hyphenated(v4_bytes(random@)), ext@),
        is_hyphenated_v4(hyphenated(v4_bytes(random@))),
{
    let u = uuid_v4_text(random);
    proof {
        law_random_bytes_make_v4_uuid(random@);
    }
    script_file_name(u.as_str(), ext)
}

/// The names of the command scripts that the start-up cleanup looks at:
/// `ssh-cmd-*.ps1` and `ssh-cmd-*.sh`.
pub open spec fn is_temp_script_name(name: Seq<char>) -> bool {
    starts_with(name, "ssh-cmd-"@) && (ends_with(name, ".ps1"@) || ends_with(name, ".sh"@))
}

/// Whether `name` is the name of a command script.
pub fn is_temp_script(name: &str) -> (b: bool)
    ensures
        b == is_temp_script_name(name@),
{
    let n = chars_of(name);
    let prefix = chars_of("ssh-cmd-");
    let ps1 = chars_of(".ps1");
    let sh = chars_of(".sh");
    starts_with_exec(&n, &prefix) && (ends_with_exec(&n, &ps1) || ends_with_exec(&n, &sh))
}

/// Scripts older than this (one day, in nanoseconds) are left over by a run that did
/// not end normally.
pub const STALE_AFTER_NANOS: u128 = 86_400_000_000_000;

/// The start-up cleanup removes a directory entry when its name is a command script's,
/// it is a regular file (`None`: its type could not be read), and its age (`None`: its
/// modification time could not be read or lies in the future) exceeds `stale_after_nanos`.
pub open spec fn removes_entry(
    name: Seq<char>,
    is_regular_file: Option<bool>,
    age_nanos: Option<u128>,
    stale_after_nanos: u128,
) -> bool {
    is_temp_script_name(name) && is_regular_file == Some(true) && (age_nanos matches Some(a)
        && a > stale_after_nanos)
}

/// Whether the start-up cleanup removes a directory entry (see [`removes_entry`]).
pub fn should_remove_entry(
    name: &str,
    is_regular_file: Option<bool>,
    age_nanos: Option<u128>,
    stale_after_nanos: u128,
) -> (b: bool)
    ensures
        b == removes_entry(name@, is_regular_file, age_nanos, stale_after_nanos),
{
    if !is_temp_script(name) {
        return false;
    }
    match is_regular_file {
        Some(true) => {},
        _ => return false,
    }
    match age_nanos {
        Some(a) => a > stale_after_nanos,
        None => false,
    }
}

/// How many fresh names are tried before creating a script gives up.
pub const CREATE_ATTEMPTS: usize = 10;

/// The error text when every fresh name was already taken.
pub const NAMES_EXHAUSTED_MESSAGE: &'static str = "failed to allocate a unique temp script name";

/// What happened when a script file was created under a fresh name.
pub enum CreateOutcome {
    Created,
    AlreadyExists,
    Failed,
}

/// What to do after an attempt to create a script file.
pub enum CreateStep {
    /// The script exists: hand it out.
    Done,
    /// The name was taken: try another fresh name.
    TryAgain,
    /// Creation failed for another reason: report that error.
    Fail,
    /// Every attempt found its name taken: report that no unique name was found.
    GiveUp,
}

/// The decision after the `attempts_made`-th attempt to create a script file.
pub fn after_create_attempt(attempts_made: usize, outcome: CreateOutcome) -> (s: CreateStep)
    ensures
        outcome is Created ==> s is Done,
        outcome is Failed ==> s is Fail,
        outcome is AlreadyExists && attempts_made < CREATE_ATTEMPTS ==> s is TryAgain,
        outcome is AlreadyExists && attempts_made >= CREATE_ATTEMPTS ==> s is GiveUp,
{
    match outcome {
        CreateOutcome::Created => CreateStep::Done,
        CreateOutcome::Failed => CreateStep::Fail,
        CreateOutcome::AlreadyExists => {
            if attempts_made < CREATE_ATTEMPTS {
                CreateStep::TryAgain
            } else {
                CreateStep::GiveUp
            }
        },
    }
}

/// Every script this crate names with the extension `.sh` or `.ps1` is one that the
/// start-up cleanup recognises.
pub proof fn law_own_scripts_are_recognised(u: Seq<char>, ext: Seq<char>)
    requires
        ext == ".sh"@ || ext == ".ps1"@,
    ensures
        is_temp_script_name(script_name(u, ext)),
{
    reveal_strlit("ssh-cmd-");
    reveal_strlit(".sh");
    reveal_strlit(".ps1");
    let n = script_name(u, ext);
    assert(n.subrange(0, 8) =~= "ssh-cmd-"@);
    assert(n.subrange(n.len() - ext.len(), n.len() as int) =~= ext);
}

/// The UUID of a script name is what lies between the `ssh-cmd-` prefix and the extension.
pub proof fn law_script_name_holds_its_uuid(u: Seq<char>, ext: Seq<char>)
    ensures
        script_name(u, ext).subrange(8, 8 + u.len() as int) == u,
        script_name(u, ext).len() == 8 + u.len() + ext.len(),
{
    reveal_strlit("ssh-cmd-");
    assert(script_name(u, ext).subrange(8, 8 + u.len() as int) =~= u);
}

/// An entry that the cleanup removes at some age is removed at any greater age too, and
/// an entry no older than the threshold is never removed.
pub proof fn law_cleanup_monotone_in_age(
    name: Seq<char>,
    is_regular_file: Option<bool>,
    a: u128,
    b: u128,
    stale: u128,
)
    requires
        a <= b,
    ensures
        removes_entry(name, is_regular_file, Some(a), stale) ==> removes_entry(
            name,
            is_regular_file,
            Some(b),
            stale,
        ),
        a <= stale ==> !removes_entry(name, is_regular_file, Some(a), stale),
{
}

/// The cleanup recognises a name exactly when it is a command script's name: `ssh-cmd-`,
/// some text, then `.ps1` or `.sh`; no other file is ever taken for one.
pub proof fn law_only_command_scripts_are_recognised(name: Seq<char>)
    ensures
        is_temp_script_name(name) <==> exists|u: Seq<char>|
            name == script_name(u, ".ps1"@) || name == script_name(u, ".sh"@),
{
    reveal_strlit("ssh-cmd-");
    reveal_strlit(".ps1");
    reveal_strlit(".sh");
    let pre = "ssh-cmd-"@;
    if is_temp_script_name(name) {
        let ext = if ends_with(name, ".ps1"@) {
            ".ps1"@
        } else {
            ".sh"@
        };
        assert(ends_with(name, ext));
        assert(name.len() >= 8 + ext.len()) by {
            if name.len() < 8 + ext.len() {
                let k = name.len() - ext.len();
                assert(name.subrange(0, 8)[k] == name[k]);
                assert(name.subrange(k, name.len() as int)[0] == name[k]);
            }
        }
        let u = name.subrange(8, name.len() - ext.len());
        assert(name =~= pre + u + ext) by {
            assert forall|i: int| 0 <= i < name.len() implies name[i] == (pre + u + ext)[i] by {
                if i < 8 {
                    assert(name.subrange(0, 8)[i] == name[i]);
                } else if i >= name.len() - ext.len() {
                    assert(name.subrange(name.len() - ext.len(), name.len() as int)[i - (
                    name.len() - ext.len())] == name[i]);
                }
            }
        }
        assert(name == script_name(u, ext));
    } else {
        assert forall|u: Seq<char>|
            !(name == script_name(u, ".ps1"@) || name == script_name(u, ".sh"@)) by {
            if name == script_name(u, ".ps1"@) {
                law_own_scripts_are_recognised(u, ".ps1"@);
            }
            if name == script_name(u, ".sh"@) {
                law_own_scripts_are_recognised(u, ".sh"@);
            }
        }
    }
}

} // verus!
