use vstd::prelude::*;

use crate::config::{AuthMethod, BackendConfig, SigNozConfig};
use crate::text::{
    chars_of, dec_str, is_digit_char, parse_u64_range, push_char, spec_parse_u64, str_eq,
    u64_to_string,
};

verus! {

// The configuration wire format: JSON objects with the members in
// declaration order, the auth object internally tagged by "type", and
// "timeout_secs" optional on decode (it defaults to 30). Strings use the
// standard JSON escapes; "\uXXXX" is accepted for codes below 128.

/// The character-level content of an authentication method.
pub enum AuthView {
    ApiKey { header_name: Seq<char>, key: Seq<char> },
    BearerToken { token: Seq<char> },
    NoAuth,
}

/// The character-level content of a configuration.
pub struct ConfigView {
    pub base_url: Seq<char>,
    pub auth: AuthView,
    pub timeout_secs: u64,
}

pub open spec fn auth_view(a: AuthMethod) -> AuthView {
    match a {
        AuthMethod::ApiKey { header_name, key } => AuthView::ApiKey {
            header_name: header_name@,
            key: key@,
        },
        AuthMethod::BearerToken { token } => AuthView::BearerToken { token: token@ },
        AuthMethod::NoAuth => AuthView::NoAuth,
    }
}

pub open spec fn config_view(c: SigNozConfig) -> ConfigView {
    ConfigView { base_url: c.base_url@, auth: auth_view(c.auth), timeout_secs: c.timeout_secs }
}

// ---------------------------------------------------------------------------
// String escaping
// ---------------------------------------------------------------------------

pub open spec fn hex_digit(d: nat) -> char {
    if d == 0 {
        '0'
    } else if d == 1 {
        '1'
    } else if d == 2 {
        '2'
    } else if d == 3 {
        '3'
    } else if d == 4 {
        '4'
    } else if d == 5 {
        '5'
    } else if d == 6 {
        '6'
    } else if d == 7 {
        '7'
    } else if d == 8 {
        '8'
    } else if d == 9 {
        '9'
    } else if d == 10 {
        'a'
    } else if d == 11 {
        'b'
    } else if d == 12 {
        'c'
    } else if d == 13 {
        'd'
    } else if d == 14 {
        'e'
    } else {
        'f'
    }
}

/// How one character is written inside a JSON string: quote and backslash
/// escaped, the named control escapes, other controls as `\u00XX` with
/// lowercase hex, and everything else verbatim.
pub open spec fn esc_char(c: char) -> Seq<char> {
    let v = c as u32;
    if c == '"' {
        seq!['\\', '"']
    } else if c == '\\' {
        seq!['\\', '\\']
    } else if v == 8 {
        seq!['\\', 'b']
    } else if v == 9 {
        seq!['\\', 't']
    } else if v == 10 {
        seq!['\\', 'n']
    } else if v == 12 {
        seq!['\\', 'f']
    } else if v == 13 {
        seq!['\\', 'r']
    } else if v < 32 {
        seq!['\\', 'u', '0', '0', hex_digit((v / 16) as nat), hex_digit((v % 16) as nat)]
    } else {
        seq![c]
    }
}

pub open spec fn spec_escape(s: Seq<char>) -> Seq<char>
    decreases s.len(),
{
    if s.len() == 0 {
        Seq::<char>::empty()
    } else {
        spec_escape(s.drop_last()) + esc_char(s.last())
    }
}

fn hex_digit_char(d: u64) -> (r: char)
    requires
        d < 16,
    ensures
        r == hex_digit(d as nat),
{
    if d == 0 {
        '0'
    } else if d == 1 {
        '1'
    } else if d == 2 {
        '2'
    } else if d == 3 {
        '3'
    } else if d == 4 {
        '4'
    } else if d == 5 {
        '5'
    } else if d == 6 {
        '6'
    } else if d == 7 {
        '7'
    } else if d == 8 {
        '8'
    } else if d == 9 {
        '9'
    } else if d == 10 {
        'a'
    } else if d == 11 {
        'b'
    } else if d == 12 {
        'c'
    } else if d == 13 {
        'd'
    } else if d == 14 {
        'e'
    } else {
        'f'
    }
}

/// Write a string's characters with JSON escaping.
#[verifier::loop_isolation(false)]
fn escape_json(s: &str) -> (r: String)
    ensures
        r@ == spec_escape(s@),
{
    proof {
        reveal_strlit("\\\"");
        reveal_strlit("\\\\");
        reveal_strlit("\\b");
        reveal_strlit("\\t");
        reveal_strlit("\\n");
        reveal_strlit("\\f");
        reveal_strlit("\\r");
        reveal_strlit("\\u00");
    }
    let n = s.unicode_len();
    let mut out = String::new();
    let mut i: usize = 0;
    while i < n
        invariant
            i <= n == s@.len(),
            out@ =~= spec_escape(s@.take(i as int)),
        decreases n - i,
    {
        let c = s.get_char(i);
        let v = c as u32;
        if c == '"' {
            out.append("\\\"");
        } else if c == '\\' {
            out.append("\\\\");
        } else if v == 8 {
            out.append("\\b");
        } else if v == 9 {
            out.append("\\t");
        } else if v == 10 {
            out.append("\\n");
        } else if v == 12 {
            out.append("\\f");
        } else if v == 13 {
            out.append("\\r");
        } else if v < 32 {
            out.append("\\u00");
            push_char(&mut out, hex_digit_char((v / 16) as u64));
            push_char(&mut out, hex_digit_char((v % 16) as u64));
        } else {
            push_char(&mut out, c);
        }
        proof {
            assert(s@.take(i + 1).drop_last() =~= s@.take(i as int));
            assert(s@.take(i + 1).last() == s@[i as int]);
            assert(out@ =~= spec_escape(s@.take(i as int)) + esc_char(s@[i as int]));
        }
        i += 1;
    }
    proof {
        assert(s@.take(n as int) =~= s@);
    }
    out
}

// ---------------------------------------------------------------------------
// Encoding
// ---------------------------------------------------------------------------

pub open spec fn spec_encode_auth(a: AuthView) -> Seq<char> {
    match a {
        AuthView::ApiKey { header_name, key } => "{\"type\":\"api_key\",\"header_name\":\""@
            + spec_escape(header_name) + "\",\"key\":\""@ + spec_escape(key) + "\"}"@,
        AuthView::BearerToken { token } => "{\"type\":\"bearer_token\",\"token\":\""@
            + spec_escape(token) + "\"}"@,
        AuthView::NoAuth => "{\"type\":\"none\"}"@,
    }
}

pub open spec fn spec_encode_config_tail(c: ConfigView) -> Seq<char> {
    "\"base_url\":\""@ + spec_escape(c.base_url) + "\",\"auth\":"@ + spec_encode_auth(c.auth)
        + ",\"timeout_secs\":"@ + dec_str(c.timeout_secs as nat) + "}"@
}

pub open spec fn spec_encode_config(c: ConfigView) -> Seq<char> {
    "{"@ + spec_encode_config_tail(c)
}

pub open spec fn spec_encode_backend(c: ConfigView) -> Seq<char> {
    "{\"backend\":\"signoz\","@ + spec_encode_config_tail(c)
}

fn encode_config_tail(c: &SigNozConfig) -> (r: String)
    ensures
        r@ == spec_encode_config_tail(config_view(*c)),
{
    let mut out = "\"base_url\":\"".to_owned();
    out = out.concat(escape_json(c.base_url.as_str()).as_str());
    out = out.concat("\",\"auth\":");
    out = out.concat(c.auth.to_json().as_str());
    out = out.concat(",\"timeout_secs\":");
    out = out.concat(u64_to_string(c.timeout_secs).as_str());
    out = out.concat("}");
    proof {
        assert(out@ =~= spec_encode_config_tail(config_view(*c)));
    }
    out
}

impl AuthMethod {
    /// Render this method in the configuration wire format.
    pub fn to_json(&self) -> (r: String)
        ensures
            r@ == spec_encode_auth(auth_view(*self)),
    {
        match self {
            AuthMethod::ApiKey { header_name, key } => {
                let mut out = "{\"type\":\"api_key\",\"header_name\":\"".to_owned();
                out = out.concat(escape_json(header_name.as_str()).as_str());
                out = out.concat("\",\"key\":\"");
                out = out.concat(escape_json(key.as_str()).as_str());
                out = out.concat("\"}");
                proof {
                    assert(out@ =~= spec_encode_auth(auth_view(*self)));
                }
                out
            },
            AuthMethod::BearerToken { token } => {
                let mut out = "{\"type\":\"bearer_token\",\"token\":\"".to_owned();
                out = out.concat(escape_json(token.as_str()).as_str());
                out = out.concat("\"}");
                proof {
                    assert(out@ =~= spec_encode_auth(auth_view(*self)));
                }
                out
            },
            AuthMethod::NoAuth => "{\"type\":\"none\"}".to_owned(),
        }
    }
}

impl SigNozConfig {
    /// Render this configuration in the wire format.
    pub fn to_json(&self) -> (r: String)
        ensures
            r@ == spec_encode_config(config_view(*self)),
    {
        let out = "{".to_owned().concat(encode_config_tail(self).as_str());
        proof {
            assert(out@ =~= spec_encode_config(config_view(*self)));
        }
        out
    }
}

impl BackendConfig {
    /// Render this configuration in the wire format, tagged by its backend
    /// kind.
    pub fn to_json(&self) -> (r: String)
        ensures
            self matches BackendConfig::SigNoz(c) ==> r@ == spec_encode_backend(config_view(*c)),
    {
        match self {
            BackendConfig::SigNoz(c) => {
                let out = "{\"backend\":\"signoz\",".to_owned().concat(
                    encode_config_tail(c).as_str(),
                );
                proof {
                    assert(out@ =~= spec_encode_backend(config_view(*c)));
                }
                out
            },
        }
    }
}

// ---------------------------------------------------------------------------
// Decoding
// ---------------------------------------------------------------------------

pub open spec fn is_json_ws(c: char) -> bool {
    c as u32 == 32 || c as u32 == 9 || c as u32 == 10 || c as u32 == 13
}

/// First index at or after `i` that is not JSON whitespace.
pub open spec fn ws_end(s: Seq<char>, i: int) -> int
    decreases s.len() - i,
{
    if 0 <= i < s.len() && is_json_ws(s[i]) {
        ws_end(s, i + 1)
    } else {
        i
    }
}

/// End of the digit run starting at `i`.
pub open spec fn digit_run_end(s: Seq<char>, i: int) -> int
    decreases s.len() - i,
{
    if 0 <= i < s.len() && is_digit_char(s[i]) {
        digit_run_end(s, i + 1)
    } else {
        i
    }
}

pub open spec fn hex_val(c: char) -> int {
    let v = c as u32;
    if 48 <= v && v <= 57 {
        v - 48
    } else if 97 <= v && v <= 102 {
        v - 87
    } else if 65 <= v && v <= 70 {
        v - 55
    } else {
        -1
    }
}

/// One escape sequence, starting after the backslash: the replacement
/// character and the index after the sequence.
pub open spec fn spec_unescape(s: Seq<char>, i: int) -> Option<(char, int)> {
    if !(0 <= i < s.len()) {
        None
    } else {
        let c = s[i];
        if c == '"' {
            Some(('"', i + 1))
        } else if c == '\\' {
            Some(('\\', i + 1))
        } else if c == '/' {
            Some(('/', i + 1))
        } else if c == 'b' {
            Some(('\u{8}', i + 1))
        } else if c == 'f' {
            Some(('\u{c}', i + 1))
        } else if c == 'n' {
            Some(('\n', i + 1))
        } else if c == 'r' {
            Some(('\r', i + 1))
        } else if c == 't' {
            Some(('\t', i + 1))
        } else if c == 'u' {
            if i + 5 <= s.len() {
                let h1 = hex_val(s[i + 1]);
                let h2 = hex_val(s[i + 2]);
                let h3 = hex_val(s[i + 3]);
                let h4 = hex_val(s[i + 4]);
                if h1 >= 0 && h2 >= 0 && h3 >= 0 && h4 >= 0 {
                    let v = h1 * 4096 + h2 * 256 + h3 * 16 + h4;
                    if v < 128 {
                        Some((((v as u8) as char), i + 5))
                    } else {
                        None
                    }
                } else {
                    None
                }
            } else {
                None
            }
        } else {
            None
        }
    }
}

/// The body of a JSON string, starting after the opening quote: its decoded
/// content and the index after the closing quote. Raw control characters
/// are rejected.
pub open spec fn spec_str_body(s: Seq<char>, i: int) -> Option<(Seq<char>, int)>
    decreases s.len() - i,
{
    if !(0 <= i < s.len()) {
        None
    } else if s[i] == '"' {
        Some((Seq::<char>::empty(), i + 1))
    } else if s[i] == '\\' {
        match spec_unescape(s, i + 1) {
            Some((c, j)) => if i + 1 < j && j <= s.len() {
                match spec_str_body(s, j) {
                    Some((rest, k)) => Some((seq![c] + rest, k)),
                    None => None,
                }
            } else {
                None
            },
            None => None,
        }
    } else if (s[i] as u32) < 32 {
        None
    } else {
        match spec_str_body(s, i + 1) {
            Some((rest, k)) => Some((seq![s[i]] + rest, k)),
            None => None,
        }
    }
}

/// A string token: quoted content, then whitespace.
pub open spec fn spec_string_tok(s: Seq<char>, i: int) -> Option<(Seq<char>, int)> {
    if 0 <= i < s.len() && s[i] == '"' {
        match spec_str_body(s, i + 1) {
            Some((content, j)) => Some((content, ws_end(s, j))),
            None => None,
        }
    } else {
        None
    }
}

/// A number token: a run of digits whose value fits in a `u64`, then
/// whitespace.
pub open spec fn spec_num_tok(s: Seq<char>, i: int) -> Option<(u64, int)> {
    let j = digit_run_end(s, i);
    if j == i {
        None
    } else {
        match spec_parse_u64(s.subrange(i, j)) {
            Some(v) => Some((v, ws_end(s, j))),
            None => None,
        }
    }
}

/// A member key: the quoted name, whitespace, a colon, whitespace.
pub open spec fn spec_member_key(s: Seq<char>, i: int, name: Seq<char>) -> Option<int> {
    match spec_string_tok(s, i) {
        Some((content, j)) => if content == name && j < s.len() && s[j] == ':' {
            Some(ws_end(s, j + 1))
        } else {
            None
        },
        None => None,
    }
}

/// A comma, then whitespace.
pub open spec fn spec_comma(s: Seq<char>, i: int) -> Option<int> {
    if 0 <= i < s.len() && s[i] == ',' {
        Some(ws_end(s, i + 1))
    } else {
        None
    }
}

/// An auth object at `i`: internally tagged by "type", with that member
/// first and the variant's fields after it, in order.
pub open spec fn spec_auth_at(s: Seq<char>, i: int) -> Option<(AuthView, int)> {
    if 0 <= i < s.len() && s[i] == '{' {
        let j = ws_end(s, i + 1);
        match spec_member_key(s, j, "type"@) {
            Some(k) => match spec_string_tok(s, k) {
                Some((tv, p)) => if tv == "api_key"@ {
                    match spec_comma(s, p) {
                        Some(q) => match spec_member_key(s, q, "header_name"@) {
                            Some(q2) => match spec_string_tok(s, q2) {
                                Some((hn, q3)) => match spec_comma(s, q3) {
                                    Some(q4) => match spec_member_key(s, q4, "key"@) {
                                        Some(q5) => match spec_string_tok(s, q5) {
                                            Some((kv, q6)) => if q6 < s.len() && s[q6] == '}' {
                                                Some(
                                                    (
                                                        AuthView::ApiKey {
                                                            header_name: hn,
                                                            key: kv,
                                                        },
                                                        q6 + 1,
                                                    ),
                                                )
                                            } else {
                                                None
                                            },
                                            None => None,
                                        },
                                        None => None,
                                    },
                                    None => None,
                                },
                                None => None,
                            },
                            None => None,
                        },
                        None => None,
                    }
                } else if tv == "bearer_token"@ {
                    match spec_comma(s, p) {
                        Some(q) => match spec_member_key(s, q, "token"@) {
                            Some(q2) => match spec_string_tok(s, q2) {
                                Some((tok, q3)) => if q3 < s.len() && s[q3] == '}' {
                                    Some((AuthView::BearerToken { token: tok }, q3 + 1))
                                } else {
                                    None
                                },
                                None => None,
                            },
                            None => None,
                        },
                        None => None,
                    }
                } else if tv == "none"@ {
                    if p < s.len() && s[p] == '}' {
                        Some((AuthView::NoAuth, p + 1))
                    } else {
                        None
                    }
                } else {
                    None
                },
                None => None,
            },
            None => None,
        }
    } else {
        None
    }
}

/// The members of a configuration, starting at "base_url": the URL, the
/// auth object, and optionally "timeout_secs" (absent means 30), then the
/// closing brace.
pub open spec fn spec_config_tail(s: Seq<char>, i: int) -> Option<(ConfigView, int)> {
    match spec_member_key(s, i, "base_url"@) {
        Some(j) => match spec_string_tok(s, j) {
            Some((url, k)) => match spec_comma(s, k) {
                Some(m) => match spec_member_key(s, m, "auth"@) {
                    Some(p) => match spec_auth_at(s, p) {
                        Some((av, q0)) => {
                            let q = ws_end(s, q0);
                            if q < s.len() && s[q] == '}' {
                                Some(
                                    (
                                        ConfigView { base_url: url, auth: av, timeout_secs: 30 },
                                        q + 1,
                                    ),
                                )
                            } else {
                                match spec_comma(s, q) {
                                    Some(t0) => match spec_member_key(s, t0, "timeout_secs"@) {
                                        Some(t1) => match spec_num_tok(s, t1) {
                                            Some((tv, t2)) => if t2 < s.len() && s[t2] == '}' {
                                                Some(
                                                    (
                                                        ConfigView {
                                                            base_url: url,
                                                            auth: av,
                                                            timeout_secs: tv,
                                                        },
                                                        t2 + 1,
                                                    ),
                                                )
                                            } else {
                                                None
                                            },
                                            None => None,
                                        },
                                        None => None,
                                    },
                                    None => None,
                                }
                            }
                        },
                        None => None,
                    },
                    None => None,
                },
                None => None,
            },
            None => None,
        },
        None => None,
    }
}

pub open spec fn spec_decode_auth(s: Seq<char>) -> Option<AuthView> {
    let i = ws_end(s, 0);
    match spec_auth_at(s, i) {
        Some((a, j)) => if ws_end(s, j) == s.len() {
            Some(a)
        } else {
            None
        },
        None => None,
    }
}

pub open spec fn spec_decode_config(s: Seq<char>) -> Option<ConfigView> {
    let i = ws_end(s, 0);
    if i < s.len() && s[i] == '{' {
        let j = ws_end(s, i + 1);
        match spec_config_tail(s, j) {
            Some((c, k)) => if ws_end(s, k) == s.len() {
                Some(c)
            } else {
                None
            },
            None => None,
        }
    } else {
        None
    }
}

pub open spec fn spec_decode_backend(s: Seq<char>) -> Option<ConfigView> {
    let i = ws_end(s, 0);
    if i < s.len() && s[i] == '{' {
        let j = ws_end(s, i + 1);
        match spec_member_key(s, j, "backend"@) {
            Some(k) => match spec_string_tok(s, k) {
                Some((bv, m)) => if bv == "signoz"@ {
                    match spec_comma(s, m) {
                        Some(p) => match spec_config_tail(s, p) {
                            Some((c, q)) => if ws_end(s, q) == s.len() {
                                Some(c)
                            } else {
                                None
                            },
                            None => None,
                        },
                        None => None,
                    }
                } else {
                    None
                },
                None => None,
            },
            None => None,
        }
    } else {
        None
    }
}

// ---------------------------------------------------------------------------
// Decoder execution
// ---------------------------------------------------------------------------

proof fn lemma_ws_end_at(s: Seq<char>, i: int, j: int)
    requires
        0 <= i <= j <= s.len(),
        forall|t: int| i <= t < j ==> is_json_ws(#[trigger] s[t]),
        j == s.len() || !is_json_ws(s[j]),
    ensures
        ws_end(s, i) == j,
    decreases j - i,
{
    if i < j {
        lemma_ws_end_at(s, i + 1, j);
    }
}

proof fn lemma_digit_run_at(s: Seq<char>, i: int, j: int)
    requires
        0 <= i <= j <= s.len(),
        forall|t: int| i <= t < j ==> is_digit_char(#[trigger] s[t]),
        j == s.len() || !is_digit_char(s[j]),
    ensures
        digit_run_end(s, i) == j,
    decreases j - i,
{
    if i < j {
        lemma_digit_run_at(s, i + 1, j);
    }
}

/// Skip whitespace.
#[verifier::loop_isolation(false)]
fn ws_to(cs: &Vec<char>, i: usize) -> (j: usize)
    requires
        i <= cs@.len(),
    ensures
        j == ws_end(cs@, i as int),
        i <= j <= cs@.len(),
{
    let n = cs.len();
    let mut j = i;
    while j < n && is_json_ws_exec(cs[j])
        invariant
            i <= j <= n,
            forall|t: int| i <= t < j ==> is_json_ws(#[trigger] cs@[t]),
        decreases n - j,
    {
        j += 1;
    }
    proof {
        lemma_ws_end_at(cs@, i as int, j as int);
    }
    j
}

fn is_json_ws_exec(c: char) -> (r: bool)
    ensures
        r == is_json_ws(c),
{
    let v = c as u32;
    v == 32 || v == 9 || v == 10 || v == 13
}

/// A string token at `i`.
#[verifier::loop_isolation(false)]
fn string_tok(cs: &Vec<char>, i: usize) -> (r: Option<(String, usize)>)
    requires
        i <= cs@.len(),
    ensures
        match r {
            Some(p) => (spec_string_tok(cs@, i as int) matches Some(q) && q.0 == p.0@ && q.1
                == p.1) && p.1 <= cs@.len(),
            None => spec_string_tok(cs@, i as int) is None,
        },
{
    let n = cs.len();
    if !(i < n && cs[i] == '"') {
        return None;
    }
    let mut acc = String::new();
    let mut j: usize = i + 1;
    loop
        invariant
            i + 1 <= j <= n == cs@.len(),
            (match spec_str_body(cs@, j as int) {
                Some((rest, k)) => spec_str_body(cs@, i as int + 1) == Some::<(Seq<char>, int)>(
                    (acc@ + rest, k),
                ),
                None => spec_str_body(cs@, i as int + 1) is None,
            }),
        decreases n - j,
    {
        if j >= n {
            return None;
        }
        let c = cs[j];
        if c == '"' {
            proof {
                assert(acc@ + Seq::<char>::empty() =~= acc@);
            }
            let end = ws_to(cs, j + 1);
            return Some((acc, end));
        }
        if c == '\\' {
            if j + 1 >= n {
                return None;
            }
            let e = cs[j + 1];
            let (dec, next): (char, usize) = if e == '"' {
                ('"', j + 2)
            } else if e == '\\' {
                ('\\', j + 2)
            } else if e == '/' {
                ('/', j + 2)
            } else if e == 'b' {
                ('\u{8}', j + 2)
            } else if e == 'f' {
                ('\u{c}', j + 2)
            } else if e == 'n' {
                ('\n', j + 2)
            } else if e == 'r' {
                ('\r', j + 2)
            } else if e == 't' {
                ('\t', j + 2)
            } else if e == 'u' {
                if n - j < 6 {
                    return None;
                }
                let h1 = hex_val_exec(cs[j + 2]);
                let h2 = hex_val_exec(cs[j + 3]);
                let h3 = hex_val_exec(cs[j + 4]);
                let h4 = hex_val_exec(cs[j + 5]);
                if !(h1 >= 0 && h2 >= 0 && h3 >= 0 && h4 >= 0) {
                    return None;
                }
                let v: i32 = h1 * 4096 + h2 * 256 + h3 * 16 + h4;
                if !(v < 128) {
                    return None;
                }
                ((v as u8) as char, j + 6)
            } else {
                return None;
            };
            let ghost prev = acc@;
            push_char(&mut acc, dec);
            proof {
                assert(spec_unescape(cs@, j as int + 1) == Some::<(char, int)>(
                    (dec, next as int),
                ));
                match spec_str_body(cs@, next as int) {
                    Some((rest, k)) => {
                        assert(spec_str_body(cs@, j as int) == Some::<(Seq<char>, int)>(
                            (seq![dec] + rest, k),
                        ));
                        assert(prev + (seq![dec] + rest) =~= acc@ + rest);
                    },
                    None => {},
                }
            }
            j = next;
        } else {
            let v = c as u32;
            if v < 32 {
                return None;
            }
            let ghost prev = acc@;
            push_char(&mut acc, c);
            proof {
                match spec_str_body(cs@, j as int + 1) {
                    Some((rest, k)) => {
                        assert(spec_str_body(cs@, j as int) == Some::<(Seq<char>, int)>(
                            (seq![c] + rest, k),
                        ));
                        assert(prev + (seq![c] + rest) =~= acc@ + rest);
                    },
                    None => {},
                }
            }
            j = j + 1;
        }
    }
}

fn is_digit_exec(c: char) -> (r: bool)
    ensures
        r == is_digit_char(c),
{
    let v = c as u32;
    48 <= v && v <= 57
}

fn hex_val_exec(c: char) -> (r: i32)
    ensures
        r == hex_val(c),
        -1 <= r < 16,
{
    let v = c as u32;
    if 48 <= v && v <= 57 {
        (v - 48) as i32
    } else if 97 <= v && v <= 102 {
        (v - 87) as i32
    } else if 65 <= v && v <= 70 {
        (v - 55) as i32
    } else {
        -1
    }
}

/// A number token at `i`.
#[verifier::loop_isolation(false)]
fn num_tok(cs: &Vec<char>, i: usize) -> (r: Option<(u64, usize)>)
    requires
        i <= cs@.len(),
    ensures
        match r {
            Some(p) => spec_num_tok(cs@, i as int) == Some::<(u64, int)>((p.0, p.1 as int)) && p.1
                <= cs@.len(),
            None => spec_num_tok(cs@, i as int) is None,
        },
{
    let n = cs.len();
    let mut j = i;
    while j < n && is_digit_exec(cs[j])
        invariant
            i <= j <= n,
            forall|t: int| i <= t < j ==> is_digit_char(#[trigger] cs@[t]),
        decreases n - j,
    {
        j += 1;
    }
    proof {
        lemma_digit_run_at(cs@, i as int, j as int);
    }
    if j == i {
        return None;
    }
    match parse_u64_range(cs, i, j) {
        Some(v) => {
            let end = ws_to(cs, j);
            Some((v, end))
        },
        None => None,
    }
}

/// A member key at `i`.
fn member_key(cs: &Vec<char>, i: usize, name: &str) -> (r: Option<usize>)
    requires
        i <= cs@.len(),
    ensures
        match r {
            Some(j) => spec_member_key(cs@, i as int, name@) == Some(j as int) && j <= cs@.len(),
            None => spec_member_key(cs@, i as int, name@) is None,
        },
{
    match string_tok(cs, i) {
        Some((content, j)) => {
            if str_eq(content.as_str(), name) && j < cs.len() && cs[j] == ':' {
                Some(ws_to(cs, j + 1))
            } else {
                None
            }
        },
        None => None,
    }
}

/// A comma at `i`.
fn comma(cs: &Vec<char>, i: usize) -> (r: Option<usize>)
    requires
        i <= cs@.len(),
    ensures
        match r {
            Some(j) => spec_comma(cs@, i as int) == Some(j as int) && j <= cs@.len(),
            None => spec_comma(cs@, i as int) is None,
        },
{
    if i < cs.len() && cs[i] == ',' {
        Some(ws_to(cs, i + 1))
    } else {
        None
    }
}

/// An auth object at `i`.
fn auth_at(cs: &Vec<char>, i: usize) -> (r: Option<(AuthMethod, usize)>)
    requires
        i <= cs@.len(),
    ensures
        match r {
            Some(p) => (spec_auth_at(cs@, i as int) matches Some(q) && auth_view(p.0) == q.0 && q.1
                == p.1) && p.1 <= cs@.len(),
            None => spec_auth_at(cs@, i as int) is None,
        },
{
    let n = cs.len();
    if !(i < n && cs[i] == '{') {
        return None;
    }
    let j = ws_to(cs, i + 1);
    let k = match member_key(cs, j, "type") {
        Some(k) => k,
        None => {
            return None;
        },
    };
    let (tv, p) = match string_tok(cs, k) {
        Some(x) => x,
        None => {
            return None;
        },
    };
    if str_eq(tv.as_str(), "api_key") {
        let q = match comma(cs, p) {
            Some(x) => x,
            None => {
                return None;
            },
        };
        let q2 = match member_key(cs, q, "header_name") {
            Some(x) => x,
            None => {
                return None;
            },
        };
        let (hn, q3) = match string_tok(cs, q2) {
            Some(x) => x,
            None => {
                return None;
            },
        };
        let q4 = match comma(cs, q3) {
            Some(x) => x,
            None => {
                return None;
            },
        };
        let q5 = match member_key(cs, q4, "key") {
            Some(x) => x,
            None => {
                return None;
            },
        };
        let (kv, q6) = match string_tok(cs, q5) {
            Some(x) => x,
            None => {
                return None;
            },
        };
        if q6 < n && cs[q6] == '}' {
            Some((AuthMethod::ApiKey { header_name: hn, key: kv }, q6 + 1))
        } else {
            None
        }
    } else if str_eq(tv.as_str(), "bearer_token") {
        let q = match comma(cs, p) {
            Some(x) => x,
            None => {
                return None;
            },
        };
        let q2 = match member_key(cs, q, "token") {
            Some(x) => x,
            None => {
                return None;
            },
        };
        let (tok, q3) = match string_tok(cs, q2) {
            Some(x) => x,
            None => {
                return None;
            },
        };
        if q3 < n && cs[q3] == '}' {
            Some((AuthMethod::BearerToken { token: tok }, q3 + 1))
        } else {
            None
        }
    } else if str_eq(tv.as_str(), "none") {
        if p < n && cs[p] == '}' {
            Some((AuthMethod::NoAuth, p + 1))
        } else {
            None
        }
    } else {
        None
    }
}

/// The configuration members, from "base_url" on.
fn config_tail(cs: &Vec<char>, i: usize) -> (r: Option<(SigNozConfig, usize)>)
    requires
        i <= cs@.len(),
    ensures
        match r {
            Some(p) => (spec_config_tail(cs@, i as int) matches Some(q) && config_view(p.0) == q.0
                && q.1 == p.1) && p.1 <= cs@.len(),
            None => spec_config_tail(cs@, i as int) is None,
        },
{
    let n = cs.len();
    let j = match member_key(cs, i, "base_url") {
        Some(x) => x,
        None => {
            return None;
        },
    };
    let (url, k) = match string_tok(cs, j) {
        Some(x) => x,
        None => {
            return None;
        },
    };
    let m = match comma(cs, k) {
        Some(x) => x,
        None => {
            return None;
        },
    };
    let p = match member_key(cs, m, "auth") {
        Some(x) => x,
        None => {
            return None;
        },
    };
    let (auth, q0) = match auth_at(cs, p) {
        Some(x) => x,
        None => {
            return None;
        },
    };
    let q = ws_to(cs, q0);
    if q < n && cs[q] == '}' {
        return Some((SigNozConfig { base_url: url, auth, timeout_secs: 30 }, q + 1));
    }
    let t0 = match comma(cs, q) {
        Some(x) => x,
        None => {
            return None;
        },
    };
    let t1 = match member_key(cs, t0, "timeout_secs") {
        Some(x) => x,
        None => {
            return None;
        },
    };
    let (tv, t2) = match num_tok(cs, t1) {
        Some(x) => x,
        None => {
            return None;
        },
    };
    if t2 < n && cs[t2] == '}' {
        Some((SigNozConfig { base_url: url, auth, timeout_secs: tv }, t2 + 1))
    } else {
        None
    }
}

impl AuthMethod {
    /// Decode a method from the configuration wire format; `None` on any
    /// malformed input.
    pub fn from_json(s: &str) -> (r: Option<AuthMethod>)
        ensures
            match spec_decode_auth(s@) {
                Some(av) => r matches Some(a) && auth_view(a) == av,
                None => r is None,
            },
    {
        let cs = chars_of(s);
        let i = ws_to(&cs, 0);
        match auth_at(&cs, i) {
            Some((a, j)) => {
                if ws_to(&cs, j) == cs.len() {
                    Some(a)
                } else {
                    None
                }
            },
            None => None,
        }
    }
}

impl SigNozConfig {
    /// Decode a configuration from the wire format; a missing
    /// "timeout_secs" member defaults to 30.
    pub fn from_json(s: &str) -> (r: Option<SigNozConfig>)
        ensures
            match spec_decode_config(s@) {
                Some(cv) => r matches Some(c) && config_view(c) == cv,
                None => r is None,
            },
    {
        let cs = chars_of(s);
        let i = ws_to(&cs, 0);
        if !(i < cs.len() && cs[i] == '{') {
            return None;
        }
        let j = ws_to(&cs, i + 1);
        match config_tail(&cs, j) {
            Some((c, k)) => {
                if ws_to(&cs, k) == cs.len() {
                    Some(c)
                } else {
                    None
                }
            },
            None => None,
        }
    }
}

impl BackendConfig {
    /// Decode a tagged configuration from the wire format.
    pub fn from_json(s: &str) -> (r: Option<BackendConfig>)
        ensures
            match spec_decode_backend(s@) {
                Some(cv) => r matches Some(BackendConfig::SigNoz(c)) && config_view(c) == cv,
                None => r is None,
            },
    {
        let cs = chars_of(s);
        let i = ws_to(&cs, 0);
        if !(i < cs.len() && cs[i] == '{') {
            return None;
        }
        let j = ws_to(&cs, i + 1);
        let k = match member_key(&cs, j, "backend") {
            Some(x) => x,
            None => {
                return None;
            },
        };
        let (bv, m) = match string_tok(&cs, k) {
            Some(x) => x,
            None => {
                return None;
            },
        };
        if !str_eq(bv.as_str(), "signoz") {
            return None;
        }
        let p = match comma(&cs, m) {
            Some(x) => x,
            None => {
                return None;
            },
        };
        match config_tail(&cs, p) {
            Some((c, q)) => {
                if ws_to(&cs, q) == cs.len() {
                    Some(BackendConfig::SigNoz(c))
                } else {
                    None
                }
            },
            None => None,
        }
    }
}

} // verus!
