//! Argument shapes and input validation for the server-configuration
//! command. The listing, loading and storing of configurations live with
//! the enclosing program; what is verified here is the name rule and the
//! KEY=VALUE argument form.

use vstd::prelude::*;

verus! {

use crate::pipeline::{is_space, is_space_char};

/// Which server-configuration operation was asked for.
pub enum McpSubcommand {
    List(ListArgs),
    Get(GetArgs),
    Add(AddArgs),
    Remove(RemoveArgs),
}

/// Arguments of the listing operation.
pub struct ListArgs {
    /// Output the configured servers as JSON.
    pub json: bool,
}

/// Arguments for showing a single server.
pub struct GetArgs {
    /// Name of the server to display.
    pub name: String,
    /// Output the server configuration as JSON.
    pub json: bool,
}

/// Arguments for adding a server entry.
pub struct AddArgs {
    /// Name for the server configuration.
    pub name: String,
    pub transport_args: AddMcpTransportArgs,
}

/// Exactly one transport: a launcher command or a streamable HTTP URL.
pub struct AddMcpTransportArgs {
    pub stdio: Option<AddMcpStdioArgs>,
    pub streamable_http: Option<AddMcpStreamableHttpArgs>,
}

/// A server launched as a child process.
pub struct AddMcpStdioArgs {
    /// Command to launch the server, followed by its arguments.
    pub command: Vec<String>,
    /// Environment variables to set when launching the server.
    pub env: Vec<(String, String)>,
}

/// A server reached over streamable HTTP.
pub struct AddMcpStreamableHttpArgs {
    /// URL of the server.
    pub url: String,
    /// Optional environment variable to read for a bearer token.
    pub bearer_token_env_var: Option<String>,
}

/// Arguments for removing a server entry.
pub struct RemoveArgs {
    /// Name of the server configuration to remove.
    pub name: String,
}

/// A character a server name may hold: ASCII letters, digits, `-` and `_`.
pub open spec fn valid_name_char(c: char) -> bool {
    ('a' <= c && c <= 'z') || ('A' <= c && c <= 'Z') || ('0' <= c && c <= '9') || c == '-' || c
        == '_'
}

/// A valid server name: non-empty, every character allowed.
pub open spec fn spec_valid_server_name(s: Seq<char>) -> bool {
    s.len() > 0 && forall|i: int| 0 <= i < s.len() ==> valid_name_char(#[trigger] s[i])
}

/// Accept a server name or explain why it is rejected. A name is valid
/// exactly when it is non-empty and made of ASCII letters, digits, `-`
/// and `_`.
pub fn validate_server_name(name: &str) -> (r: Result<(), String>)
    ensures
        r is Ok <==> spec_valid_server_name(name@),
        r matches Err(m) ==> m@ == "invalid server name '"@ + name@
            + "' (use letters, numbers, '-', '_')"@,
{
    let n = name.unicode_len();
    let mut ok = n > 0;
    let mut i: usize = 0;
    while i < n
        invariant
            n == name@.len(),
            i <= n,
            ok == (n > 0 && forall|j: int| 0 <= j < i ==> valid_name_char(#[trigger] name@[j])),
        decreases n - i,
    {
        let c = name.get_char(i);
        let c_ok = ('a' <= c && c <= 'z') || ('A' <= c && c <= 'Z') || ('0' <= c && c <= '9') || c
            == '-' || c == '_';
        ok = ok && c_ok;
        i = i + 1;
    }
    if ok {
        Ok(())
    } else {
        let msg = String::from_str("invalid server name '").concat(name).concat(
            "' (use letters, numbers, '-', '_')",
        );
        Err(msg)
    }
}

/// Where the first `=` stands, if anywhere.
pub open spec fn find_eq(s: Seq<char>) -> Option<int>
    decreases s.len(),
{
    if s.len() == 0 {
        None
    } else if s[0] == '=' {
        Some(0int)
    } else {
        match find_eq(s.drop_first()) {
            Some(i) => Some(i + 1),
            None => None,
        }
    }
}

/// Leading whitespace removed.
pub open spec fn trim_front(s: Seq<char>) -> Seq<char>
    decreases s.len(),
{
    if s.len() > 0 && is_space(s[0]) {
        trim_front(s.drop_first())
    } else {
        s
    }
}

/// Trailing whitespace removed.
pub open spec fn trim_back(s: Seq<char>) -> Seq<char>
    decreases s.len(),
{
    if s.len() > 0 && is_space(s.last()) {
        trim_back(s.drop_last())
    } else {
        s
    }
}

/// Whitespace removed from both ends.
pub open spec fn trim(s: Seq<char>) -> Seq<char> {
    trim_back(trim_front(s))
}

/// A KEY=VALUE pair: the key is what stands before the first `=`, with
/// surrounding whitespace trimmed, and must not be empty; the value is
/// everything after the first `=`, untouched.
pub open spec fn spec_parse_env_pair(s: Seq<char>) -> Option<(Seq<char>, Seq<char>)> {
    match find_eq(s) {
        None => None,
        Some(i) => {
            let key = trim(s.take(i));
            if key.len() == 0 {
                None
            } else {
                Some((key, s.skip(i + 1)))
            }
        },
    }
}

/// Scanning past `=`-free characters moves the search along.
proof fn lemma_find_eq_skip(s: Seq<char>, i: int)
    requires
        0 <= i <= s.len(),
        forall|j: int| 0 <= j < i ==> s[j] != '=',
    ensures
        find_eq(s) == (match find_eq(s.skip(i)) {
            Some(k) => Some(i + k),
            None => None::<int>,
        }),
    decreases i,
{
    if i == 0 {
        assert(s.skip(0) =~= s);
    } else {
        assert(s.len() > 0);
        assert(s[0] != '=');
        assert(s.drop_first() =~= s.skip(1));
        assert(s.skip(1).skip(i - 1) =~= s.skip(i));
        lemma_find_eq_skip(s.skip(1), i - 1);
        assert(forall|j: int| 0 <= j < i - 1 ==> s.skip(1)[j] == s[j + 1]);
    }
}

/// Dropping the leading whitespace is skipping to the first non-space.
proof fn lemma_trim_front_skip(s: Seq<char>, a: int)
    requires
        0 <= a <= s.len(),
        forall|j: int| 0 <= j < a ==> is_space(#[trigger] s[j]),
        a == s.len() || !is_space(s[a]),
    ensures
        trim_front(s) == s.skip(a),
    decreases a,
{
    if a == 0 {
        assert(s.skip(0) =~= s);
    } else {
        assert(is_space(s[0]));
        assert(s.drop_first() =~= s.skip(1));
        assert(s.skip(1).skip(a - 1) =~= s.skip(a));
        lemma_trim_front_skip(s.skip(1), a - 1);
        assert(forall|j: int| 0 <= j < a - 1 ==> s.skip(1)[j] == s[j + 1]);
    }
}

/// Dropping the trailing whitespace is taking up to the last non-space.
proof fn lemma_trim_back_take(s: Seq<char>, b: int)
    requires
        0 <= b <= s.len(),
        forall|j: int| b <= j < s.len() ==> is_space(#[trigger] s[j]),
        b == 0 || !is_space(s[b - 1]),
    ensures
        trim_back(s) == s.take(b),
    decreases s.len() - b,
{
    if b == s.len() {
        if s.len() > 0 && is_space(s.last()) {
            assert(!is_space(s[b - 1]));
            assert(false);
        }
        assert(s.take(b) =~= s);
    } else {
        assert(is_space(s.last()));
        assert(s.drop_last() =~= s.take(s.len() - 1));
        lemma_trim_back_take(s.take(s.len() - 1), b);
        assert(s.take(s.len() - 1).take(b) =~= s.take(b));
    }
}

/// Split a KEY=VALUE argument, trimming the key, exactly as
/// `spec_parse_env_pair` says.
pub fn parse_env_pair(raw: &str) -> (r: Result<(String, String), String>)
    ensures
        match r {
            Ok((k, v)) => spec_parse_env_pair(raw@) == Some((k@, v@)),
            Err(m) => spec_parse_env_pair(raw@) is None && m@
                == "environment entries must be in KEY=VALUE form"@,
        },
{
    let n = raw.unicode_len();
    let mut eq_idx: usize = n;
    let mut i: usize = 0;
    while i < n
        invariant
            n == raw@.len(),
            i <= n,
            eq_idx <= n,
            eq_idx < n ==> i > eq_idx && raw@[eq_idx as int] == '=' && (forall|j: int|
                0 <= j < eq_idx ==> raw@[j] != '='),
            eq_idx == n ==> forall|j: int| 0 <= j < i ==> raw@[j] != '=',
        decreases n - i,
    {
        if eq_idx == n && raw.get_char(i) == '=' {
            eq_idx = i;
        }
        i = i + 1;
    }
    if eq_idx == n {
        proof {
            lemma_find_eq_skip(raw@, n as int);
            assert(raw@.skip(n as int) =~= Seq::<char>::empty());
        }
        return Err("environment entries must be in KEY=VALUE form".to_owned());
    }
    proof {
        lemma_find_eq_skip(raw@, eq_idx as int);
        assert(raw@.skip(eq_idx as int)[0] == raw@[eq_idx as int]);
        assert(find_eq(raw@) == Some(eq_idx as int));
    }
    let mut a: usize = eq_idx;
    let mut i2: usize = 0;
    while i2 < eq_idx
        invariant
            n == raw@.len(),
            eq_idx < n,
            i2 <= eq_idx,
            a == eq_idx || a < i2,
            a == eq_idx ==> forall|j: int| 0 <= j < i2 ==> is_space(#[trigger] raw@[j]),
            a < eq_idx ==> !is_space(raw@[a as int]) && (forall|j: int|
                0 <= j < a ==> is_space(#[trigger] raw@[j])),
        decreases eq_idx - i2,
    {
        let c = raw.get_char(i2);
        if a == eq_idx && !is_space_char(c) {
            a = i2;
        }
        i2 = i2 + 1;
    }
    let ghost key_raw = raw@.take(eq_idx as int);
    proof {
        assert(forall|j: int| 0 <= j < eq_idx ==> key_raw[j] == raw@[j]);
    }
    if a == eq_idx {
        proof {
            lemma_trim_front_skip(key_raw, eq_idx as int);
            assert(key_raw.skip(eq_idx as int) =~= Seq::<char>::empty());
            assert(trim(key_raw).len() == 0);
        }
        return Err("environment entries must be in KEY=VALUE form".to_owned());
    }
    let mut b: usize = a;
    let mut i3: usize = a;
    while i3 < eq_idx
        invariant
            n == raw@.len(),
            eq_idx < n,
            a <= b,
            b <= i3 <= eq_idx,
            forall|j: int| b <= j < i3 ==> is_space(#[trigger] raw@[j]),
            b > a ==> !is_space(raw@[b - 1]),
        decreases eq_idx - i3,
    {
        let c = raw.get_char(i3);
        if !is_space_char(c) {
            b = i3 + 1;
        }
        i3 = i3 + 1;
    }
    if b == a {
        proof {
            assert(is_space(raw@[a as int]));
            assert(false);
        }
    }
    proof {
        lemma_trim_front_skip(key_raw, a as int);
        let tail = key_raw.skip(a as int);
        assert(forall|j: int| 0 <= j < tail.len() ==> tail[j] == raw@[j + a]);
        lemma_trim_back_take(tail, b as int - a as int);
        assert(trim(key_raw) =~= raw@.subrange(a as int, b as int));
    }
    let key = raw.substring_char(a, b);
    let value = raw.substring_char(eq_idx + 1, n);
    Ok((String::from_str(key), String::from_str(value)))
}

} // verus!
