//! Running a PowerShell script with administrator rights: the scripts and command line
//! handed to the elevated process, the wait for its result file, and the reading of
//! the result it writes.
use vstd::prelude::*;
use vstd::string::*;
use crate::config::push_decimal;
use crate::text::{
    chars_of, decimal, find_chars, find_from, is_white_space, is_white_space_exec, matches_at,
    matches_at_exec, starts_with, starts_with_exec, string_of_range, strip_leading, trim,
    trim_end, trim_end_index, trim_start, trim_start_index,
};

verus! {

/// File name (in the temp directory) of the JSON result written by the elevated script.
pub const RESULT_FILE_NAME: &'static str = "ssh-router-action-result.json";

/// File name (in the temp directory) of the script to run elevated.
pub const SCRIPT_FILE_NAME: &'static str = "ssh-router-action.ps1";

/// File name (in the temp directory) of the wrapper that runs the script and records its result.
pub const WRAPPER_FILE_NAME: &'static str = "ssh-router-wrapper.ps1";

/// How long to wait for the result file, in milliseconds.
pub const RESULT_TIMEOUT_MS: u128 = 30000;

/// How long to sleep between two looks for the result file, in milliseconds.
pub const POLL_INTERVAL_MS: u64 = 500;

/// The error reported when no result arrived in time: the action may still be running.
pub const TIMEOUT_MESSAGE: &'static str = "操作可能仍在进行中，请检查状态";

/// What to do after one look for the result file.
pub enum PollStep {
    /// The result file is there: read it.
    ResultReady,
    /// The wait is over without a result.
    TimedOut,
    /// Sleep and look again.
    Wait,
}

/// The decision after looking for the result file once, `elapsed_ms` after the start.
pub fn poll_step(result_exists: bool, elapsed_ms: u128) -> (s: PollStep)
    ensures
        result_exists ==> s is ResultReady,
        !result_exists && elapsed_ms >= RESULT_TIMEOUT_MS ==> s is TimedOut,
        !result_exists && elapsed_ms < RESULT_TIMEOUT_MS ==> s is Wait,
{
    if result_exists {
        PollStep::ResultReady
    } else if elapsed_ms >= RESULT_TIMEOUT_MS {
        PollStep::TimedOut
    } else {
        PollStep::Wait
    }
}

/// The text of the wrapper script: it runs the script at `script_path` and writes a JSON
/// object with `success` and `message` to `result_path`.
pub open spec fn wrapper_script_text(script_path: Seq<char>, result_path: Seq<char>) -> Seq<
    char,
> {
    "$ErrorActionPreference = \"Stop\"\ntry {\n    & \""@ + script_path
        + "\"\n    $result = @{ success = $true; message = \"OK\" } | ConvertTo-Json\n} catch {\n    $result = @{ success = $false; message = $_.Exception.Message } | ConvertTo-Json\n}\n$result | Out-File -FilePath \""@
        + result_path + "\" -Encoding UTF8\n"@
}

/// The wrapper script that runs `script_path` and records its outcome in `result_path`.
pub fn wrapper_script(script_path: &str, result_path: &str) -> (s: String)
    ensures
        s@ == wrapper_script_text(script_path@, result_path@),
{
    let mut s = String::from_str("$ErrorActionPreference = \"Stop\"\ntry {\n    & \"");
    s.append(script_path);
    s.append(
        "\"\n    $result = @{ success = $true; message = \"OK\" } | ConvertTo-Json\n} catch {\n    $result = @{ success = $false; message = $_.Exception.Message } | ConvertTo-Json\n}\n$result | Out-File -FilePath \"",
    );
    s.append(result_path);
    s.append("\" -Encoding UTF8\n");
    s
}

/// The PowerShell arguments that run the wrapper script hidden and without a profile.
pub open spec fn runas_parameters_text(wrapper_path: Seq<char>) -> Seq<char> {
    "-ExecutionPolicy Bypass -NoProfile -WindowStyle Hidden -File \""@ + wrapper_path + "\""@
}

/// The PowerShell arguments that run the wrapper script at `wrapper_path`.
pub fn runas_parameters(wrapper_path: &str) -> (s: String)
    ensures
        s@ == runas_parameters_text(wrapper_path@),
{
    let mut s = String::from_str("-ExecutionPolicy Bypass -NoProfile -WindowStyle Hidden -File \"");
    s.append(wrapper_path);
    s.append("\"");
    s
}

/// The UTF-8 byte order mark.
pub open spec fn utf8_bom() -> Seq<u8> {
    seq![0xEFu8, 0xBBu8, 0xBFu8]
}

/// The UTF-8 bytes of `text` after a byte order mark, so that PowerShell reads it as UTF-8.
pub fn with_utf8_bom(text: &str) -> (b: Vec<u8>)
    ensures
        b@ == utf8_bom() + text.spec_bytes(),
{
    let bytes = text.as_bytes();
    let mut b: Vec<u8> = Vec::new();
    b.push(0xEF);
    b.push(0xBB);
    b.push(0xBF);
    let mut i: usize = 0;
    while i < bytes.len()
        invariant
            i <= bytes@.len(),
            bytes@ == text.spec_bytes(),
            b@ == utf8_bom() + bytes@.take(i as int),
        decreases bytes.len() - i,
    {
        b.push(bytes[i]);
        assert(bytes@.take(i + 1) =~= bytes@.take(i as int).push(bytes@[i as int]));
        i += 1;
    }
    assert(bytes@.take(i as int) =~= bytes@);
    b
}

/// The outcome of `ShellExecuteW`: it succeeded when the value it returned exceeds 32.
pub fn shell_execute_outcome(code: usize) -> (r: Result<(), String>)
    ensures
        r is Ok <==> code > 32,
        r matches Err(m) ==> m@ == "ShellExecuteW failed, error code: "@ + decimal(code as nat),
{
    if code > 32 {
        Ok(())
    } else {
        let mut m = String::from_str("ShellExecuteW failed, error code: ");
        push_decimal(&mut m, code);
        Err(m)
    }
}

/// `"key":`, the text that introduces the value of `key` in a JSON object.
pub open spec fn key_pattern(key: Seq<char>) -> Seq<char> {
    seq!['"'] + key + seq!['"', ':']
}

/// A character that ends a value that is not a string: `,`, `}` or white space.
pub open spec fn ends_value(c: char) -> bool {
    c == ',' || c == '}' || is_white_space(c)
}

/// The first position at or after `i` of a character that ends a value.
pub open spec fn first_value_end(s: Seq<char>, i: int) -> Option<int>
    decreases s.len() - i,
{
    if i < 0 || i >= s.len() {
        None
    } else if ends_value(s[i]) {
        Some(i)
    } else {
        first_value_end(s, i + 1)
    }
}

/// The value of `key` in the flat JSON text `json`, read without a JSON parser: after
/// the first `"key":` and any white space, either the characters up to the next `"`
/// of a string, or the characters up to the first `,`, `}` or white space, trimmed.
pub open spec fn json_value(json: Seq<char>, key: Seq<char>) -> Option<Seq<char>> {
    let pattern = key_pattern(key);
    match find_from(json, pattern, 0) {
        None => None,
        Some(idx) => {
            let rest = trim_start(json.skip(idx + pattern.len()));
            if rest.len() > 0 && rest[0] == '"' {
                match find_from(rest.skip(1), seq!['"'], 0) {
                    None => None,
                    Some(e) => Some(rest.subrange(1, e + 1)),
                }
            } else {
                match first_value_end(rest, 0) {
                    None => None,
                    Some(end) => Some(trim(rest.take(end))),
                }
            }
        }
    }
}

/// The characters `s[from..to]`.
fn sub_vec(s: &Vec<char>, from: usize, to: usize) -> (v: Vec<char>)
    requires
        from <= to <= s.len(),
    ensures
        v@ == s@.subrange(from as int, to as int),
{
    let mut v: Vec<char> = Vec::new();
    let mut i = from;
    while i < to
        invariant
            from <= i <= to <= s.len(),
            v@ == s@.subrange(from as int, i as int),
        decreases to - i,
    {
        v.push(s[i]);
        assert(s@.subrange(from as int, i + 1) =~= s@.subrange(from as int, i as int).push(
            s@[i as int],
        ));
        i += 1;
    }
    v
}

/// `v` without leading and trailing white space.
fn trim_chars(v: &Vec<char>) -> (r: String)
    ensures
        r@ == trim(v@),
{
    let a = trim_start_index(v);
    let w = sub_vec(v, a, v.len());
    assert(w@ =~= v@.skip(a as int));
    let b = trim_end_index(&w, w.len());
    assert(w@.take(w@.len() as int) =~= w@);
    string_of_range(&w, 0, b)
}

/// The value of `key` in the flat JSON text `json` (see [`json_value`]).
#[verifier::loop_isolation(false)]
pub fn extract_json_value(json: &str, key: &str) -> (r: Option<String>)
    ensures
        match r {
            Some(v) => json_value(json@, key@) == Some(v@),
            None => json_value(json@, key@) is None,
        },
{
    let j = chars_of(json);
    let k = chars_of(key);
    let mut pattern: Vec<char> = Vec::new();
    pattern.push('"');
    let mut i: usize = 0;
    while i < k.len()
        invariant
            i <= k.len(),
            pattern@ == seq!['"'] + k@.take(i as int),
        decreases k.len() - i,
    {
        pattern.push(k[i]);
        assert(k@.take(i + 1) =~= k@.take(i as int).push(k@[i as int]));
        i += 1;
    }
    pattern.push('"');
    pattern.push(':');
    assert(k@.take(i as int) =~= k@);
    assert(pattern@ =~= key_pattern(key@));
    let idx = match find_chars(&j, &pattern, 0) {
        Some(idx) => idx,
        None => return None,
    };
    assert(matches_at(j@, pattern@, idx as int)) by {
        lemma_find_from_found(j@, pattern@, 0, idx as int);
    }
    let plen = pattern.len();
    let jlen = j.len();
    assert(idx + plen <= jlen);
    let after = sub_vec(&j, idx + plen, jlen);
    assert(after@ =~= j@.skip(idx + pattern@.len()));
    let t = trim_start_index(&after);
    let rest = sub_vec(&after, t, after.len());
    assert(rest@ =~= after@.skip(t as int));
    if rest.len() > 0 && rest[0] == '"' {
        let tail = sub_vec(&rest, 1, rest.len());
        assert(tail@ =~= rest@.skip(1));
        let mut quote: Vec<char> = Vec::new();
        quote.push('"');
        assert(quote@ =~= seq!['"']);
        match find_chars(&tail, &quote, 0) {
            Some(e) => {
                proof {
                    lemma_find_from_found(tail@, quote@, 0, e as int);
                }
                Some(string_of_range(&rest, 1, e + 1))
            },
            None => None,
        }
    } else {
        let mut end: usize = 0;
        while end < rest.len()
            invariant
                end <= rest.len(),
                first_value_end(rest@, 0) == first_value_end(rest@, end as int),
            decreases rest.len() - end,
        {
            let c = rest[end];
            if c == ',' || c == '}' || is_white_space_exec(c) {
                let head = sub_vec(&rest, 0, end);
                assert(head@ =~= rest@.take(end as int));
                return Some(trim_chars(&head));
            }
            end += 1;
        }
        None
    }
}

proof fn lemma_find_from_found(s: Seq<char>, pat: Seq<char>, i: int, k: int)
    requires
        0 <= i,
        find_from(s, pat, i) == Some(k),
    ensures
        matches_at(s, pat, k),
        i <= k,
        forall|j: int| i <= j < k ==> !matches_at(s, pat, j),
    decreases s.len() - i,
{
    if i + pat.len() <= s.len() && s.subrange(i, i + pat.len()) != pat {
        if pat.len() == 0 {
            assert(s.subrange(i, i + pat.len()) =~= pat);
        }
        lemma_find_from_found(s, pat, i + 1, k);
    }
}

proof fn lemma_find_from_first(s: Seq<char>, pat: Seq<char>, i: int, k: int)
    requires
        0 <= i <= k,
        matches_at(s, pat, k),
        forall|j: int| i <= j < k ==> !matches_at(s, pat, j),
    ensures
        find_from(s, pat, i) == Some(k),
    decreases k - i,
{
    if i < k {
        assert(!matches_at(s, pat, i));
        lemma_find_from_first(s, pat, i + 1, k);
    }
}

/// `c` says `"success":` at position `i`, followed by any white space and then `true`.
pub open spec fn reports_success_at(c: Seq<char>, i: int) -> bool {
    let key = "\"success\":"@;
    matches_at(c, key, i) && starts_with(trim_start(c.skip(i + key.len())), "true"@)
}

/// `c` says somewhere that the run succeeded: `"success":`, any white space, `true`
/// (as `ConvertTo-Json` writes it, with one or two spaces, or none).
pub open spec fn reports_success(c: Seq<char>) -> bool {
    exists|i: int| reports_success_at(c, i)
}

/// Whether `c` says that the run succeeded (see [`reports_success`]).
fn reports_success_exec(c: &Vec<char>) -> (b: bool)
    ensures
        b == reports_success(c@),
{
    proof {
        reveal_strlit("\"success\":");
    }
    let key = chars_of("\"success\":");
    let word = chars_of("true");
    let mut i: usize = 0;
    while i < c.len()
        invariant
            key@ == "\"success\":"@,
            word@ == "true"@,
            key@.len() == 10,
            forall|j: int| 0 <= j < i ==> !reports_success_at(c@, j),
        decreases c.len() - i,
    {
        if matches_at_exec(c, &key, i) {
            let rest = sub_vec(c, i + key.len(), c.len());
            assert(rest@ =~= c@.skip(i + key@.len()));
            let k = trim_start_index(&rest);
            let after = sub_vec(&rest, k, rest.len());
            assert(after@ =~= rest@.skip(k as int));
            if starts_with_exec(&after, &word) {
                assert(reports_success_at(c@, i as int));
                return true;
            }
        }
        i += 1;
    }
    assert forall|j: int| !reports_success_at(c@, j) by {
        if 0 <= j < i {
        } else if j >= i {
            assert(!matches_at(c@, key@, j));
        }
    }
    false
}

/// The result record of an elevated run: `Ok` with its message when it reports
/// success, `Err` with its message otherwise (see [`interpret_elevated_result`]).
pub open spec fn elevated_outcome(content: Seq<char>) -> Result<Seq<char>, Seq<char>> {
    let c = trim(strip_leading(content, '\u{feff}'));
    let success = reports_success(c);
    let message = match json_value(c, "message"@) {
        Some(m) => m,
        None => "未知结果"@,
    };
    if success {
        Ok(message)
    } else {
        Err(message)
    }
}

/// The views of a result of strings.
pub open spec fn result_view(r: Result<String, String>) -> Result<Seq<char>, Seq<char>> {
    match r {
        Ok(s) => Ok(s@),
        Err(s) => Err(s@),
    }
}

/// Reads the result file written by the wrapper script: a leading byte order mark and
/// surrounding white space are ignored; the run succeeded when the text holds
/// `"success":` followed by any white space and `true`; the message is the `message`
/// value, or `未知结果` when there is none.
pub fn interpret_elevated_result(content: &str) -> (r: Result<String, String>)
    ensures
        result_view(r) == elevated_outcome(content@),
{
    let v = chars_of(content);
    let mut s: usize = 0;
    assert(v@.skip(0) =~= v@);
    while s < v.len() && v[s] == '\u{feff}'
        invariant
            s <= v.len(),
            strip_leading(v@, '\u{feff}') == strip_leading(v@.skip(s as int), '\u{feff}'),
        decreases v.len() - s,
    {
        assert(v@.skip(s as int).skip(1) =~= v@.skip(s + 1));
        s += 1;
    }
    let stripped = sub_vec(&v, s, v.len());
    assert(stripped@ =~= v@.skip(s as int));
    let trimmed = trim_chars(&stripped);
    let c = chars_of(trimmed.as_str());
    let success = reports_success_exec(&c);
    let message = match extract_json_value(trimmed.as_str(), "message") {
        Some(m) => m,
        None => String::from_str("未知结果"),
    };
    if success {
        Ok(message)
    } else {
        Err(message)
    }
}

/// A string value written as `{"key": "value"}` is read back as it was written, as long
/// as it holds no `"`.
pub proof fn law_string_value_read_back(key: Seq<char>, value: Seq<char>)
    requires
        forall|i: int| 0 <= i < value.len() ==> value[i] != '"',
    ensures
        json_value("{\""@ + key + "\": \""@ + value + "\"}"@, key) == Some(value),
{
    reveal_strlit("{\"");
    reveal_strlit("\": \"");
    reveal_strlit("\"}");
    let json = "{\""@ + key + "\": \""@ + value + "\"}"@;
    let pattern = key_pattern(key);
    let n = key.len();
    assert(json.len() == n + value.len() + 8);
    assert(json.subrange(1, 1 + pattern.len() as int) =~= pattern);
    assert(!matches_at(json, pattern, 0)) by {
        assert(json.subrange(0, pattern.len() as int)[0] == '{');
    }
    lemma_find_from_first(json, pattern, 0, 1);
    let after = json.skip(1 + pattern.len() as int);
    assert(after =~= seq![' ', '"'] + value + seq!['"', '}']);
    assert(is_white_space(' '));
    assert(after.skip(1) =~= seq!['"'] + value + seq!['"', '}']);
    assert(!is_white_space('"'));
    let rest = after.skip(1);
    assert(trim_start(after) == trim_start(rest));
    assert(trim_start(rest) == rest);
    let tail = rest.skip(1);
    assert(tail =~= value + seq!['"', '}']);
    assert(matches_at(tail, seq!['"'], value.len() as int)) by {
        assert(tail.subrange(value.len() as int, value.len() as int + 1) =~= seq!['"']);
    }
    assert forall|j: int| 0 <= j < value.len() implies !matches_at(tail, seq!['"'], j) by {
        assert(tail.subrange(j, j + 1)[0] == value[j]);
    }
    lemma_find_from_first(tail, seq!['"'], 0, value.len() as int);
    assert(rest.subrange(1, value.len() as int + 1) =~= value);
}

/// A result record that reports success with a message (holding no `"`) is read as
/// `Ok` of that message.
pub proof fn law_success_record_is_ok(m: Seq<char>)
    requires
        forall|i: int| 0 <= i < m.len() ==> m[i] != '"',
    ensures
        elevated_outcome("{\"success\": true, \"message\": \""@ + m + "\"}"@) == Ok::<
            Seq<char>,
            Seq<char>,
        >(m),
{
    reveal_strlit("{\"success\": true, \"message\": \"");
    reveal_strlit("\"}");
    reveal_strlit("\"success\":");
    reveal_strlit("true");
    reveal_strlit("message");
    let c = "{\"success\": true, \"message\": \""@ + m + "\"}"@;
    assert(c.len() == m.len() + 32);
    // The record has no byte order mark and no surrounding white space.
    assert(strip_leading(c, '\u{feff}') == c);
    assert(!is_white_space(c[0]));
    assert(trim_start(c) == c);
    assert(c.last() == '}');
    assert(!is_white_space(c.last()));
    assert(trim_end(c) == c);
    // It says `"success":`, a space and `true` at position 1.
    assert(c.subrange(1, 11) =~= "\"success\":"@);
    let flag = c.skip(11);
    assert(flag[0] == ' ' && is_white_space(flag[0]));
    assert(flag.skip(1) =~= c.skip(12));
    assert(!is_white_space(c[12]));
    assert(trim_start(flag) == trim_start(c.skip(12)));
    assert(trim_start(c.skip(12)) == c.skip(12));
    assert(c.skip(12).subrange(0, 4) =~= "true"@);
    assert(reports_success_at(c, 1));
    // Its `"message":` starts at position 18 and nowhere earlier.
    let pattern = key_pattern("message"@);
    assert(pattern.len() == 10);
    assert(c.subrange(18, 28) =~= pattern);
    assert forall|j: int| 0 <= j < 18 implies !matches_at(c, pattern, j) by {
        if matches_at(c, pattern, j) {
            assert(c.subrange(j, j + 10)[0] == c[j]);
            assert(c.subrange(j, j + 10)[1] == c[j + 1]);
            assert(c[j] == '"');
            assert(c[j + 1] == 'm');
        }
    }
    lemma_find_from_first(c, pattern, 0, 18);
    let after = c.skip(28);
    assert(after =~= seq![' ', '"'] + m + seq!['"', '}']);
    let rest = after.skip(1);
    assert(rest =~= seq!['"'] + m + seq!['"', '}']);
    assert(trim_start(after) == trim_start(rest));
    assert(trim_start(rest) == rest);
    let tail = rest.skip(1);
    assert(tail =~= m + seq!['"', '}']);
    assert(tail.subrange(m.len() as int, m.len() as int + 1) =~= seq!['"']);
    assert forall|j: int| 0 <= j < m.len() implies !matches_at(tail, seq!['"'], j) by {
        assert(tail.subrange(j, j + 1)[0] == m[j]);
    }
    lemma_find_from_first(tail, seq!['"'], 0, m.len() as int);
    assert(rest.subrange(1, m.len() as int + 1) =~= m);
    assert(json_value(c, "message"@) == Some(m));
}

/// A result record that reports failure with a message (holding no `"`) is read as
/// `Err` of that message.
pub proof fn law_failure_record_is_err(m: Seq<char>)
    requires
        forall|i: int| 0 <= i < m.len() ==> m[i] != '"',
    ensures
        elevated_outcome("{\"success\": false, \"message\": \""@ + m + "\"}"@) == Err::<
            Seq<char>,
            Seq<char>,
        >(m),
{
    let head = "{\"success\": false, \"message\": \""@;
    reveal_strlit("{\"success\": false, \"message\": \"");
    reveal_strlit("\"}");
    reveal_strlit("\"success\":");
    reveal_strlit("true");
    reveal_strlit("message");
    let c = head + m + "\"}"@;
    let n = m.len() as int;
    assert(head.len() == 31);
    assert(c.len() == n + 33);
    assert forall|j: int| 0 <= j < 31 implies c[j] == head[j] by {}
    assert forall|j: int| 31 <= j < 31 + n implies c[j] == m[j - 31] by {}
    assert(c[31 + n] == '"' && c[32 + n] == '}');
    assert(strip_leading(c, '\u{feff}') == c);
    assert(!is_white_space(c[0]));
    assert(trim_start(c) == c);
    assert(!is_white_space(c.last()));
    assert(trim_end(c) == c);
    // `"success":` occurs only at position 1, and `false` follows it.
    let key = "\"success\":"@;
    assert(key.len() == 10);
    assert forall|j: int| matches_at(c, key, j) implies j == 1 by {
        let w = c.subrange(j, j + 10);
        assert(w[0] == c[j] && w[1] == c[j + 1] && w[8] == c[j + 8] && w[9] == c[j + 9]);
        assert(c[j] == '"' && c[j + 1] == 's' && c[j + 8] == '"' && c[j + 9] == ':');
    }
    let flag = c.skip(11);
    assert(flag[0] == ' ' && is_white_space(flag[0]));
    assert(flag.skip(1) =~= c.skip(12));
    assert(!is_white_space(c[12]));
    assert(trim_start(flag) == trim_start(c.skip(12)));
    assert(trim_start(c.skip(12)) == c.skip(12));
    assert(c.skip(12)[0] == 'f');
    assert(!starts_with(c.skip(12), "true"@)) by {
        if starts_with(c.skip(12), "true"@) {
            assert(c.skip(12).subrange(0, 4)[0] == c.skip(12)[0]);
        }
    }
    assert(!reports_success(c));
    // Its `"message":` starts at position 19 and nowhere earlier.
    let pattern = key_pattern("message"@);
    assert(c.subrange(19, 29) =~= pattern);
    assert forall|j: int| 0 <= j < 19 implies !matches_at(c, pattern, j) by {
        if matches_at(c, pattern, j) {
            assert(c.subrange(j, j + 10)[0] == c[j]);
            assert(c.subrange(j, j + 10)[1] == c[j + 1]);
        }
    }
    lemma_find_from_first(c, pattern, 0, 19);
    let after = c.skip(29);
    assert(after =~= seq![' ', '"'] + m + seq!['"', '}']);
    let rest = after.skip(1);
    assert(rest =~= seq!['"'] + m + seq!['"', '}']);
    assert(trim_start(after) == trim_start(rest));
    assert(trim_start(rest) == rest);
    let tail = rest.skip(1);
    assert(tail =~= m + seq!['"', '}']);
    assert(tail.subrange(n, n + 1) =~= seq!['"']);
    assert forall|j: int| 0 <= j < n implies !matches_at(tail, seq!['"'], j) by {
        assert(tail.subrange(j, j + 1)[0] == m[j]);
    }
    lemma_find_from_first(tail, seq!['"'], 0, n);
    assert(rest.subrange(1, n + 1) =~= m);
    assert(json_value(c, "message"@) == Some(m));
}

} // verus!
