//! The routing configuration (`ssh-router.json`): ports, shells and command templates.
use vstd::prelude::*;
use vstd::string::*;
use crate::text::{decimal, digit_char};

verus! {

/// One port routing rule.
#[derive(Clone)]
pub struct Route {
    pub port: u16,
    pub name: String,
    pub shell: String,
    pub interactive_template: String,
    pub command_template: String,
    pub tmp_file_ext: String,
    pub default: bool,
}

/// The whole routing configuration.
#[derive(Clone)]
pub struct Config {
    pub routes: Vec<Route>,
    pub sftp_command: String,
}

/// The number of routes marked as default.
pub open spec fn default_count(routes: Seq<Route>) -> nat
    decreases routes.len(),
{
    if routes.len() == 0 {
        0
    } else {
        default_count(routes.drop_last()) + if routes.last().default {
            1nat
        } else {
            0nat
        }
    }
}

/// The message with which a configuration with `n` default routes is refused.
pub open spec fn default_count_message(n: nat) -> Seq<char> {
    "必须恰好有一条默认路由，当前有 "@ + decimal(n) + " 条"@
}

/// The three-port configuration written when none exists yet.
pub open spec fn is_default_config(c: Config) -> bool {
    let r = c.routes@;
    &&& r.len() == 3
    &&& r[0].port == 22
    &&& r[0].name@ == "PowerShell"@
    &&& r[0].shell@ == "C:\\Program Files\\PowerShell\\7\\pwsh.exe"@
    &&& r[0].interactive_template@ == "\"{shell}\" -l"@
    &&& r[0].command_template@ == "\"{shell}\" -File \"{tmpfile}\""@
    &&& r[0].tmp_file_ext@ == ".ps1"@
    &&& r[0].default
    &&& r[1].port == 2222
    &&& r[1].name@ == "Git Bash"@
    &&& r[1].shell@ == "C:\\Program Files\\Git\\usr\\bin\\bash.exe"@
    &&& r[1].interactive_template@ == "\"{shell}\" -l"@
    &&& r[1].command_template@ == "\"{shell}\" -l -c '. \"{tmpfile}\"'"@
    &&& r[1].tmp_file_ext@ == ".sh"@
    &&& !r[1].default
    &&& r[2].port == 2223
    &&& r[2].name@ == "WSL Ubuntu"@
    &&& r[2].shell@ == "wsl.exe"@
    &&& r[2].interactive_template@
        == "wsl.exe -d Ubuntu -- bash -lc 'cd /home/thirking && exec bash -l'"@
    &&& r[2].command_template@
        == "wsl.exe -d Ubuntu -- bash -c 'cd /home/thirking && . \"{tmpfile_wsl}\"'"@
    &&& r[2].tmp_file_ext@ == ".sh"@
    &&& !r[2].default
    &&& c.sftp_command@ == "cmd.exe /c \"C:\\Windows\\System32\\OpenSSH\\sftp-server.exe\""@
}

impl Config {
    /// The three-port default configuration: PowerShell on 22 (the default route),
    /// Git Bash on 2222 and WSL Ubuntu on 2223.
    pub fn default_config() -> (c: Self)
        ensures
            is_default_config(c),
    {
        let powershell = Route {
            port: 22,
            name: String::from_str("PowerShell"),
            shell: String::from_str("C:\\Program Files\\PowerShell\\7\\pwsh.exe"),
            interactive_template: String::from_str("\"{shell}\" -l"),
            command_template: String::from_str("\"{shell}\" -File \"{tmpfile}\""),
            tmp_file_ext: String::from_str(".ps1"),
            default: true,
        };
        let git_bash = Route {
            port: 2222,
            name: String::from_str("Git Bash"),
            shell: String::from_str("C:\\Program Files\\Git\\usr\\bin\\bash.exe"),
            interactive_template: String::from_str("\"{shell}\" -l"),
            command_template: String::from_str("\"{shell}\" -l -c '. \"{tmpfile}\"'"),
            tmp_file_ext: String::from_str(".sh"),
            default: false,
        };
        let wsl = Route {
            port: 2223,
            name: String::from_str("WSL Ubuntu"),
            shell: String::from_str("wsl.exe"),
            interactive_template: String::from_str(
                "wsl.exe -d Ubuntu -- bash -lc 'cd /home/thirking && exec bash -l'",
            ),
            command_template: String::from_str(
                "wsl.exe -d Ubuntu -- bash -c 'cd /home/thirking && . \"{tmpfile_wsl}\"'",
            ),
            tmp_file_ext: String::from_str(".sh"),
            default: false,
        };
        let mut routes: Vec<Route> = Vec::new();
        routes.push(powershell);
        routes.push(git_bash);
        routes.push(wsl);
        Config {
            routes,
            sftp_command: String::from_str(
                "cmd.exe /c \"C:\\Windows\\System32\\OpenSSH\\sftp-server.exe\"",
            ),
        }
    }

    /// The number of routes marked as default.
    pub fn count_defaults(&self) -> (n: usize)
        ensures
            n == default_count(self.routes@),
    {
        let mut n: usize = 0;
        let mut i: usize = 0;
        while i < self.routes.len()
            invariant
                i <= self.routes.len(),
                n <= i,
                n == default_count(self.routes@.take(i as int)),
            decreases self.routes.len() - i,
        {
            assert(self.routes@.take(i + 1).drop_last() =~= self.routes@.take(i as int));
            if self.routes[i].default {
                n += 1;
            }
            i += 1;
        }
        assert(self.routes@.take(i as int) =~= self.routes@);
        n
    }

    /// Accepts a configuration for saving only when exactly one route is the default;
    /// otherwise the error says how many there are.
    pub fn validate_single_default(&self) -> (r: Result<(), String>)
        ensures
            r is Ok <==> default_count(self.routes@) == 1,
            r matches Err(m) ==> m@ == default_count_message(default_count(self.routes@)),
    {
        let n = self.count_defaults();
        if n == 1 {
            Ok(())
        } else {
            let mut m = String::from_str("必须恰好有一条默认路由，当前有 ");
            push_decimal(&mut m, n);
            m.append(" 条");
            Err(m)
        }
    }
}

/// Appends the decimal representation of `n` to `out`.
pub fn push_decimal(out: &mut String, n: usize)
    ensures
        final(out)@ == old(out)@ + decimal(n as nat),
    decreases n,
{
    if n >= 10 {
        push_decimal(out, n / 10);
    }
    let d = (n % 10) as u8;
    out.push((d + 48) as char);
    proof {
        if n >= 10 {
            assert(old(out)@ + decimal(n as nat) =~= old(out)@ + decimal((n / 10) as nat) + seq![
                digit_char((n % 10) as nat),
            ]);
        }
    }
}

/// The default configuration has exactly one default route, so it can be saved as it is.
pub proof fn law_default_config_has_single_default(c: Config)
    requires
        is_default_config(c),
    ensures
        default_count(c.routes@) == 1,
        c.routes@[0].default && c.routes@[0].port == 22,
{
    let r = c.routes@;
    assert(r.take(3) =~= r);
    assert(r.drop_last() =~= r.take(2));
    assert(r.take(2).drop_last() =~= r.take(1));
    assert(r.take(1).drop_last() =~= r.take(0));
    assert(default_count(r.take(0)) == 0);
    assert(default_count(r.take(1)) == 1);
    assert(default_count(r.take(2)) == 1);
    assert(default_count(r.take(3)) == 1);
}

/// The ports of the default configuration are pairwise different.
pub proof fn law_default_config_ports_distinct(c: Config)
    requires
        is_default_config(c),
    ensures
        forall|i: int, j: int|
            0 <= i < j < c.routes@.len() ==> c.routes@[i].port != c.routes@[j].port,
{
}

/// The default count of two route lists put together is the sum of their counts, and a
/// single route counts one exactly when it is a default: the count adds up the routes
/// marked as default, wherever they stand.
pub proof fn law_default_count_adds_up(a: Seq<Route>, b: Seq<Route>, r: Route)
    ensures
        default_count(a + b) == default_count(a) + default_count(b),
        default_count(seq![r]) == if r.default {
            1nat
        } else {
            0nat
        },
    decreases b.len(),
{
    assert(seq![r].drop_last() =~= Seq::<Route>::empty());
    assert(default_count(Seq::<Route>::empty()) == 0);
    assert(seq![r].last() == r);
    if b.len() == 0 {
        assert(a + b =~= a);
    } else {
        assert((a + b).drop_last() =~= a + b.drop_last());
        law_default_count_adds_up(a, b.drop_last(), r);
    }
}

/// The default count is the number of routes marked as default.
pub proof fn law_default_count_counts(routes: Seq<Route>)
    ensures
        default_count(routes) == routes.filter(|x: Route| x.default).len(),
    decreases routes.len(),
{
    reveal(Seq::filter);
    if routes.len() > 0 {
        law_default_count_counts(routes.drop_last());
    }
}

proof fn lemma_no_default(routes: Seq<Route>)
    requires
        forall|j: int| 0 <= j < routes.len() ==> !(#[trigger] routes[j]).default,
    ensures
        default_count(routes) == 0,
    decreases routes.len(),
{
    if routes.len() > 0 {
        assert(!routes[routes.len() - 1].default);
        lemma_no_default(routes.drop_last());
    }
}

/// Routes with exactly one default, at any position, count one default, so such a
/// configuration is accepted for saving.
pub proof fn law_one_default_anywhere_counts_one(routes: Seq<Route>, k: int)
    requires
        0 <= k < routes.len(),
        routes[k].default,
        forall|j: int| 0 <= j < routes.len() && j != k ==> !(#[trigger] routes[j]).default,
    ensures
        default_count(routes) == 1,
{
    let before = routes.take(k);
    let after = routes.skip(k + 1);
    assert(routes =~= before + seq![routes[k]] + after);
    lemma_no_default(before);
    assert forall|j: int| 0 <= j < after.len() implies !(#[trigger] after[j]).default by {
        assert(after[j] == routes[j + k + 1]);
    }
    lemma_no_default(after);
    law_default_count_adds_up(before, seq![routes[k]], routes[k]);
    law_default_count_adds_up(before + seq![routes[k]], after, routes[k]);
}

} // verus!
