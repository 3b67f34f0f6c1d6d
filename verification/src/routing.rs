//! Routing decisions: which route serves a port, whether a command is the SFTP
//! subsystem, and how a command template is rendered.
use vstd::prelude::*;
use vstd::string::*;
use crate::config::{is_default_config, Config, Route};
use crate::text::{
    chars_of, contains_chars, contains_seq, decimal, digit_char, law_replace_inserts_verbatim,
    law_replace_pattern_alone, law_replace_without_first_char, law_replace_without_occurrence,
    replace_all, replace_chars, starts_with,
};

verus! {

/// `c` is one of the ASCII digits `0`..`9`.
pub open spec fn is_ascii_digit(c: char) -> bool {
    '0' <= c && c <= '9'
}

/// Every character of `d` is an ASCII digit.
pub open spec fn all_digits(d: Seq<char>) -> bool {
    forall|i: int| 0 <= i < d.len() ==> is_ascii_digit(#[trigger] d[i])
}

/// The number written by the decimal digits `d`.
pub open spec fn digits_value(d: Seq<char>) -> nat
    decreases d.len(),
{
    if d.len() == 0 {
        0
    } else {
        digits_value(d.drop_last()) * 10 + ((d.last() as int) - 48) as nat
    }
}

/// The digits of an unsigned number in `s`: `s` without one leading `+`.
pub open spec fn unsigned_digits(s: Seq<char>) -> Seq<char> {
    if s.len() > 0 && s[0] == '+' {
        s.skip(1)
    } else {
        s
    }
}

/// The `u16` written in decimal by `s` (as `str::parse::<u16>` reads it): an optional
/// `+`, then at least one digit, and a value that fits in 16 bits.
pub open spec fn u16_from_decimal(s: Seq<char>) -> Option<u16> {
    let d = unsigned_digits(s);
    if d.len() > 0 && all_digits(d) && digits_value(d) <= 65535 {
        Some(digits_value(d) as u16)
    } else {
        None
    }
}

/// The port that the text `s` names; text that is not a `u16` names port 0.
pub open spec fn port_number(s: Seq<char>) -> u16 {
    match u16_from_decimal(s) {
        Some(p) => p,
        None => 0,
    }
}

/// The first route at or after index `i` whose port is `p`.
pub open spec fn first_with_port(routes: Seq<Route>, p: u16, i: int) -> Option<int>
    decreases routes.len() - i,
{
    if i < 0 || i >= routes.len() {
        None
    } else if routes[i].port == p {
        Some(i)
    } else {
        first_with_port(routes, p, i + 1)
    }
}

/// The first route at or after index `i` that is marked as default.
pub open spec fn first_default(routes: Seq<Route>, i: int) -> Option<int>
    decreases routes.len() - i,
{
    if i < 0 || i >= routes.len() {
        None
    } else if routes[i].default {
        Some(i)
    } else {
        first_default(routes, i + 1)
    }
}

/// The route that serves port `p`: the first route with that port, else the first
/// default route, else none.
pub open spec fn route_index(routes: Seq<Route>, p: u16) -> Option<int> {
    match first_with_port(routes, p, 0) {
        Some(i) => Some(i),
        None => first_default(routes, 0),
    }
}

/// `Some` of the view of `t`, or `None`.
pub open spec fn opt_view(t: Option<&str>) -> Option<Seq<char>> {
    match t {
        Some(s) => Some(s@),
        None => None,
    }
}

/// `s` with `pat` replaced by `rep` when a replacement is given; `s` otherwise.
pub open spec fn replace_if_given(s: Seq<char>, pat: Seq<char>, rep: Option<Seq<char>>) -> Seq<
    char,
> {
    match rep {
        Some(r) => replace_all(s, pat, r),
        None => s,
    }
}

/// A rendered command template: `{shell}` first, then `{tmpfile}`, then `{tmpfile_wsl}`.
pub open spec fn rendered(
    template: Seq<char>,
    shell: Seq<char>,
    tmpfile: Option<Seq<char>>,
    tmpfile_wsl: Option<Seq<char>>,
) -> Seq<char> {
    replace_if_given(
        replace_if_given(replace_all(template, "{shell}"@, shell), "{tmpfile}"@, tmpfile),
        "{tmpfile_wsl}"@,
        tmpfile_wsl,
    )
}

/// Whether the command runs the SFTP subsystem: it mentions `sftp-server`.
pub fn is_sftp_command(command: &str) -> (b: bool)
    ensures
        b == contains_seq(command@, "sftp-server"@),
{
    let c = chars_of(command);
    let pat = chars_of("sftp-server");
    contains_chars(&c, &pat)
}

proof fn lemma_digits_value_prefix(d: Seq<char>, k: int)
    requires
        0 <= k <= d.len(),
        all_digits(d),
    ensures
        digits_value(d) >= digits_value(d.take(k)),
    decreases d.len(),
{
    if k < d.len() {
        assert(d.drop_last().take(k) =~= d.take(k));
        assert(all_digits(d.drop_last())) by {
            assert forall|i: int| 0 <= i < d.drop_last().len() implies is_ascii_digit(
                #[trigger] d.drop_last()[i],
            ) by {
                assert(d.drop_last()[i] == d[i]);
            }
        }
        lemma_digits_value_prefix(d.drop_last(), k);
    } else {
        assert(d.take(k) =~= d);
    }
}

/// Reads `s` as a decimal `u16`, as `str::parse::<u16>` does.
pub fn parse_u16_decimal(s: &str) -> (r: Option<u16>)
    ensures
        r == u16_from_decimal(s@),
{
    let v = chars_of(s);
    let start: usize = if v.len() > 0 && v[0] == '+' {
        1
    } else {
        0
    };
    let ghost d = unsigned_digits(s@);
    assert(d =~= v@.skip(start as int));
    if start == v.len() {
        return None;
    }
    let mut value: u32 = 0;
    let mut i: usize = start;
    assert(d.take(0) =~= Seq::<char>::empty());
    while i < v.len()
        invariant
            start <= i <= v.len(),
            d =~= v@.skip(start as int),
            d == unsigned_digits(s@),
            v@ == s@,
            value <= 65535,
            value == digits_value(d.take(i - start)),
            all_digits(d.take(i - start)),
        decreases v.len() - i,
    {
        let c = v[i];
        assert(d[i - start] == c);
        if !('0' <= c && c <= '9') {
            assert(!all_digits(d));
            return None;
        }
        let ghost k = (i - start) as int;
        assert(d.take(k + 1).drop_last() =~= d.take(k));
        assert(d.take(k + 1).last() == c);
        let digit = (c as u32) - 48;
        value = value * 10 + digit;
        assert(all_digits(d.take(k + 1))) by {
            assert forall|j: int| 0 <= j < d.take(k + 1).len() implies is_ascii_digit(
                #[trigger] d.take(k + 1)[j],
            ) by {
                if j < k {
                    assert(d.take(k + 1)[j] == d.take(k)[j]);
                }
            }
        }
        if value > 65535 {
            proof {
                if all_digits(d) {
                    lemma_digits_value_prefix(d, k + 1);
                }
            }
            return None;
        }
        i += 1;
    }
    assert(d.take(i - start) =~= d);
    Some(value as u16)
}

/// The port named by `port`, or 0 when it is not a decimal `u16`.
pub fn port_number_of(port: &str) -> (p: u16)
    ensures
        p == port_number(port@),
{
    match parse_u16_decimal(port) {
        Some(p) => p,
        None => 0,
    }
}

/// The route that serves the server port `port`: an exact port match first, then the
/// first default route; `None` when neither exists.
pub fn match_route<'a>(config: &'a Config, port: &str) -> (r: Option<&'a Route>)
    ensures
        match r {
            Some(route) => route_index(config.routes@, port_number(port@)) matches Some(i) && *route
                == config.routes@[i],
            None => route_index(config.routes@, port_number(port@)) is None,
        },
{
    let port_num = port_number_of(port);
    let ghost routes = config.routes@;
    let mut i: usize = 0;
    while i < config.routes.len()
        invariant
            i <= config.routes.len(),
            routes == config.routes@,
            port_num == port_number(port@),
            first_with_port(routes, port_num, 0) == first_with_port(routes, port_num, i as int),
        decreases config.routes.len() - i,
    {
        if config.routes[i].port == port_num {
            assert(first_with_port(routes, port_num, i as int) == Some(i as int));
            assert(route_index(routes, port_num) == Some(i as int));
            let found = &config.routes[i];
            assert(*found == routes[i as int]);
            return Some(found);
        }
        i += 1;
    }
    let mut j: usize = 0;
    while j < config.routes.len()
        invariant
            j <= config.routes.len(),
            routes == config.routes@,
            port_num == port_number(port@),
            first_with_port(routes, port_num, 0) is None,
            first_default(routes, 0) == first_default(routes, j as int),
        decreases config.routes.len() - j,
    {
        if config.routes[j].default {
            assert(first_default(routes, j as int) == Some(j as int));
            assert(route_index(routes, port_num) == Some(j as int));
            let found = &config.routes[j];
            assert(*found == routes[j as int]);
            return Some(found);
        }
        j += 1;
    }
    None
}

/// Renders a command template: `{shell}` becomes `shell`; `{tmpfile}` becomes `tmpfile`
/// and `{tmpfile_wsl}` becomes `tmpfile_wsl`, each only when given.
pub fn render_template(
    template: &str,
    shell: &str,
    tmpfile: Option<&str>,
    tmpfile_wsl: Option<&str>,
) -> (r: String)
    ensures
        r@ == rendered(template@, shell@, opt_view(tmpfile), opt_view(tmpfile_wsl)),
{
    proof {
        reveal_strlit("{shell}");
        reveal_strlit("{tmpfile}");
        reveal_strlit("{tmpfile_wsl}");
    }
    let t = chars_of(template);
    let shell_pat = chars_of("{shell}");
    let mut result = replace_chars(&t, &shell_pat, shell);
    if let Some(tf) = tmpfile {
        let cur = chars_of(result.as_str());
        let pat = chars_of("{tmpfile}");
        result = replace_chars(&cur, &pat, tf);
    }
    if let Some(tfw) = tmpfile_wsl {
        let cur = chars_of(result.as_str());
        let pat = chars_of("{tmpfile_wsl}");
        result = replace_chars(&cur, &pat, tfw);
    }
    result
}

proof fn lemma_first_with_port(routes: Seq<Route>, p: u16, i: int)
    requires
        0 <= i,
    ensures
        match first_with_port(routes, p, i) {
            Some(k) => i <= k < routes.len() && routes[k].port == p && forall|j: int|
                i <= j < k ==> routes[j].port != p,
            None => forall|j: int| i <= j < routes.len() ==> routes[j].port != p,
        },
    decreases routes.len() - i,
{
    if i < routes.len() && routes[i].port != p {
        lemma_first_with_port(routes, p, i + 1);
    }
}

proof fn lemma_first_default(routes: Seq<Route>, i: int)
    requires
        0 <= i,
    ensures
        match first_default(routes, i) {
            Some(k) => i <= k < routes.len() && routes[k].default && forall|j: int|
                i <= j < k ==> !routes[j].default,
            None => forall|j: int| i <= j < routes.len() ==> !routes[j].default,
        },
    decreases routes.len() - i,
{
    if i < routes.len() && !routes[i].default {
        lemma_first_default(routes, i + 1);
    }
}

/// An exact port match takes precedence: the first route with the port serves it,
/// whatever routes are marked as default.
pub proof fn law_exact_port_wins(routes: Seq<Route>, p: u16, i: int)
    requires
        0 <= i < routes.len(),
        routes[i].port == p,
        forall|j: int| 0 <= j < i ==> routes[j].port != p,
    ensures
        route_index(routes, p) == Some(i),
{
    lemma_first_with_port(routes, p, 0);
}

/// A port that no route names falls back to the first default route.
pub proof fn law_unmatched_port_uses_first_default(routes: Seq<Route>, p: u16, i: int)
    requires
        forall|j: int| 0 <= j < routes.len() ==> routes[j].port != p,
        0 <= i < routes.len(),
        routes[i].default,
        forall|j: int| 0 <= j < i ==> !routes[j].default,
    ensures
        route_index(routes, p) == Some(i),
{
    lemma_first_with_port(routes, p, 0);
    lemma_first_default(routes, 0);
}

/// No route serves a port exactly when no route names it and none is a default.
pub proof fn law_no_route_iff_no_match_and_no_default(routes: Seq<Route>, p: u16)
    ensures
        route_index(routes, p) is None <==> (forall|j: int|
            0 <= j < routes.len() ==> routes[j].port != p && !routes[j].default),
{
    lemma_first_with_port(routes, p, 0);
    lemma_first_default(routes, 0);
}

proof fn lemma_replace_without_brace(s: Seq<char>, pat: Seq<char>, rep: Seq<char>)
    requires
        pat.len() > 0,
        pat[0] == '{',
        forall|i: int| 0 <= i < s.len() ==> s[i] != '{',
    ensures
        replace_all(s, pat, rep) == s,
    decreases s.len(),
{
    if s.len() > 0 {
        assert(!starts_with(s, pat)) by {
            if starts_with(s, pat) {
                assert(s.subrange(0, pat.len() as int)[0] == s[0]);
            }
        }
        lemma_replace_without_brace(s.skip(1), pat, rep);
        assert(seq![s[0]] + s.skip(1) =~= s);
    }
}

/// A template without any `{` renders to itself, whatever the shell and temp file paths.
pub proof fn law_plain_template_renders_unchanged(
    template: Seq<char>,
    shell: Seq<char>,
    tmpfile: Option<Seq<char>>,
    tmpfile_wsl: Option<Seq<char>>,
)
    requires
        forall|i: int| 0 <= i < template.len() ==> template[i] != '{',
    ensures
        rendered(template, shell, tmpfile, tmpfile_wsl) == template,
{
    reveal_strlit("{shell}");
    reveal_strlit("{tmpfile}");
    reveal_strlit("{tmpfile_wsl}");
    lemma_replace_without_brace(template, "{shell}"@, shell);
    if let Some(t) = tmpfile {
        lemma_replace_without_brace(template, "{tmpfile}"@, t);
    }
    if let Some(t) = tmpfile_wsl {
        lemma_replace_without_brace(template, "{tmpfile_wsl}"@, t);
    }
}

/// With the default configuration, ports 22, 2222 and 2223 reach PowerShell, Git Bash
/// and WSL respectively, and every other port falls back to PowerShell.
pub proof fn law_default_config_routing(c: Config, p: u16)
    requires
        is_default_config(c),
    ensures
        p == 2222 ==> route_index(c.routes@, p) == Some(1int),
        p == 2223 ==> route_index(c.routes@, p) == Some(2int),
        p != 2222 && p != 2223 ==> route_index(c.routes@, p) == Some(0int),
{
    let r = c.routes@;
    if p == 2222 {
        law_exact_port_wins(r, p, 1);
    } else if p == 2223 {
        law_exact_port_wins(r, p, 2);
    } else if p == 22 {
        law_exact_port_wins(r, p, 0);
    } else {
        law_unmatched_port_uses_first_default(r, p, 0);
    }
}

/// A template that is just `{shell}` renders to the shell path exactly as given.
pub proof fn law_shell_placeholder_renders_verbatim(shell: Seq<char>)
    ensures
        rendered("{shell}"@, shell, None, None) == shell,
{
    reveal_strlit("{shell}");
    law_replace_pattern_alone("{shell}"@, shell);
}

/// The command template of the default PowerShell route renders to the shell path and
/// the script path, each inserted verbatim between the template's own quotes (for paths
/// without `{`, which the later placeholders could otherwise match).
pub proof fn law_powershell_command_rendering(shell: Seq<char>, tmpfile: Seq<char>)
    requires
        forall|i: int| 0 <= i < shell.len() ==> shell[i] != '{',
        forall|i: int| 0 <= i < tmpfile.len() ==> tmpfile[i] != '{',
    ensures
        rendered("\"{shell}\" -File \"{tmpfile}\""@, shell, Some(tmpfile), None) == "\""@ + shell
            + "\" -File \""@ + tmpfile + "\""@,
{
    reveal_strlit("\"{shell}\" -File \"{tmpfile}\"");
    reveal_strlit("{shell}");
    reveal_strlit("{tmpfile}");
    reveal_strlit("\"");
    reveal_strlit("\" -File \"");
    let q = "\""@;
    let mid = "\" -File \""@;
    let ps = "{shell}"@;
    let pt = "{tmpfile}"@;
    let y = mid + pt + q;
    assert("\"{shell}\" -File \"{tmpfile}\""@ =~= q + ps + y);
    law_replace_inserts_verbatim(q, ps, y, shell);
    assert forall|i: int| 0 <= i < y.len() implies !starts_with(#[trigger] y.skip(i), ps) by {
        if starts_with(y.skip(i), ps) {
            assert(y.skip(i).subrange(0, 7)[0] == y[i]);
            assert(y.skip(i).subrange(0, 7)[1] == y[i + 1]);
        }
    }
    law_replace_without_occurrence(y, ps, shell);
    let x = q + shell + mid;
    assert(q + shell + y =~= x + pt + q);
    law_replace_inserts_verbatim(x, pt, q, tmpfile);
    law_replace_without_first_char(q, pt, tmpfile);
}

proof fn lemma_decimal_digits(n: nat)
    ensures
        decimal(n).len() > 0,
        decimal(n)[0] != '+',
        all_digits(decimal(n)),
        digits_value(decimal(n)) == n,
    decreases n,
{
    assert(digit_char(n % 10) as int == n % 10 + 48);
    if n < 10 {
        assert(decimal(n) =~= seq![digit_char(n)]);
        assert(decimal(n).drop_last() =~= Seq::<char>::empty());
        assert(digits_value(Seq::<char>::empty()) == 0);
    } else {
        lemma_decimal_digits(n / 10);
        let d = decimal(n / 10);
        assert(decimal(n).drop_last() =~= d);
        assert(decimal(n).last() == digit_char(n % 10));
        assert(decimal(n)[0] == d[0]);
        assert forall|i: int| 0 <= i < decimal(n).len() implies is_ascii_digit(
            #[trigger] decimal(n)[i],
        ) by {
            if i < d.len() {
                assert(decimal(n)[i] == d[i]);
            }
        }
    }
}

/// The text of a port number written in decimal names that port: every `u16` is read
/// back as itself.
pub proof fn law_port_number_reads_decimal(n: u16)
    ensures
        u16_from_decimal(decimal(n as nat)) == Some(n),
        port_number(decimal(n as nat)) == n,
{
    lemma_decimal_digits(n as nat);
}

/// A port given in decimal reaches the first route configured with that port.
pub proof fn law_decimal_port_reaches_its_route(routes: Seq<Route>, n: u16, i: int)
    requires
        0 <= i < routes.len(),
        routes[i].port == n,
        forall|j: int| 0 <= j < i ==> routes[j].port != n,
    ensures
        route_index(routes, port_number(decimal(n as nat))) == Some(i),
{
    law_port_number_reads_decimal(n);
    law_exact_port_wins(routes, n, i);
}

} // verus!
