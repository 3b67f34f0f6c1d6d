//! The installation status shown by the tray application, assembled from what the
//! file system, the registry and the service manager report.
use vstd::prelude::*;
use vstd::string::*;
use crate::actions::CLI_DEPLOY_PATH;
use crate::text::{
    ascii_lower, ascii_lower_exec, chars_of, eq_ignore_ascii_case, string_of_range,
    strip_trailing,
};

verus! {

/// The installation status.
pub struct Status {
    pub cli_deployed: bool,
    pub cli_path: String,
    pub default_shell_set: bool,
    pub default_shell_value: String,
    pub config_exists: bool,
    pub sshd_running: bool,
    pub sshd_status: String,
}

/// The state code of a running service.
pub const SERVICE_RUNNING: u32 = 4;

/// What the service manager reports about sshd.
pub enum SshdProbe {
    /// The service manager or the sshd service could not be opened, or the service's
    /// status could not be queried.
    Unavailable,
    /// The service's current state code.
    State(u32),
}

/// Whether sshd runs, and the word that describes its state: `Running`, `Stopped`, or
/// `Not installed` when the service manager gave no answer.
pub open spec fn sshd_report(p: SshdProbe) -> (bool, Seq<char>) {
    match p {
        SshdProbe::Unavailable => (false, "Not installed"@),
        SshdProbe::State(s) => if s == SERVICE_RUNNING {
            (true, "Running"@)
        } else {
            (false, "Stopped"@)
        },
    }
}

/// Whether sshd runs, and the word that describes its state.
pub fn sshd_status(p: &SshdProbe) -> (r: (bool, String))
    ensures
        (r.0, r.1@) == sshd_report(*p),
{
    match p {
        SshdProbe::Unavailable => (false, String::from_str("Not installed")),
        SshdProbe::State(s) => {
            if *s == SERVICE_RUNNING {
                (true, String::from_str("Running"))
            } else {
                (false, String::from_str("Stopped"))
            }
        },
    }
}

/// The registered default shell (`raw` is the registry value, `None` when it could not
/// be read) without trailing NULs, and whether it names the deployed CLI, compared
/// without regard to ASCII case.
pub open spec fn default_shell_report(raw: Option<Seq<char>>) -> (Seq<char>, bool) {
    match raw {
        None => (Seq::empty(), false),
        Some(v) => {
            let value = strip_trailing(v, '\0');
            (value, eq_ignore_ascii_case(value, CLI_DEPLOY_PATH@))
        },
    }
}

/// Whether `s` equals `t` when ASCII letters are compared without regard to case.
pub fn eq_ignore_ascii_case_exec(s: &Vec<char>, t: &Vec<char>) -> (b: bool)
    ensures
        b == eq_ignore_ascii_case(s@, t@),
{
    if s.len() != t.len() {
        return false;
    }
    let mut i: usize = 0;
    while i < s.len()
        invariant
            s.len() == t.len(),
            i <= s.len(),
            forall|j: int| 0 <= j < i ==> ascii_lower(s@[j]) == ascii_lower(t@[j]),
        decreases s.len() - i,
    {
        if ascii_lower_exec(s[i]) != ascii_lower_exec(t[i]) {
            return false;
        }
        i += 1;
    }
    true
}

/// The registered default shell and whether it is the deployed CLI.
pub fn default_shell_state(raw: Option<&str>) -> (r: (String, bool))
    ensures
        (r.0@, r.1) == default_shell_report(match raw {
            Some(v) => Some(v@),
            None => None,
        }),
{
    match raw {
        None => (String::new(), false),
        Some(v) => {
            let c = chars_of(v);
            let mut k = c.len();
            assert(c@.take(k as int) =~= c@);
            while k > 0 && c[k - 1] == '\0'
                invariant
                    k <= c.len(),
                    strip_trailing(c@, '\0') == strip_trailing(c@.take(k as int), '\0'),
                decreases k,
            {
                assert(c@.take(k as int).drop_last() =~= c@.take(k - 1));
                k -= 1;
            }
            let value = string_of_range(&c, 0, k);
            assert(c@.subrange(0, k as int) =~= c@.take(k as int));
            let cli = chars_of(CLI_DEPLOY_PATH);
            let value_chars = chars_of(value.as_str());
            let is_set = eq_ignore_ascii_case_exec(&value_chars, &cli);
            (value, is_set)
        },
    }
}

impl Status {
    /// The status from what was found: whether the CLI file exists, the raw registry
    /// value of the default shell (`None` when unreadable), whether the configuration
    /// file exists, and what the service manager said about sshd.
    pub fn from_probes(
        cli_deployed: bool,
        default_shell_raw: Option<&str>,
        config_exists: bool,
        sshd: &SshdProbe,
    ) -> (s: Status)
        ensures
            s.cli_deployed == cli_deployed,
            s.cli_path@ == CLI_DEPLOY_PATH@,
            (s.default_shell_value@, s.default_shell_set) == default_shell_report(
                match default_shell_raw {
                    Some(v) => Some(v@),
                    None => None,
                },
            ),
            s.config_exists == config_exists,
            (s.sshd_running, s.sshd_status@) == sshd_report(*sshd),
    {
        let (default_shell_value, default_shell_set) = default_shell_state(default_shell_raw);
        let (sshd_running, sshd_status) = sshd_status(sshd);
        Status {
            cli_deployed,
            cli_path: String::from_str(CLI_DEPLOY_PATH),
            default_shell_set,
            default_shell_value,
            config_exists,
            sshd_running,
            sshd_status,
        }
    }
}

} // verus!
