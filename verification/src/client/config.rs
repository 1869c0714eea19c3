//! Client configuration: the server connection, the vaults to keep in sync,
//! and how a vault's files are named on the server.
use vstd::prelude::*;
use crate::client::error::{ClientError, ClientResult};
use crate::text::{ascii_upper, ascii_upper_str, is_white, lower_char, push_char, strip_prefix, trim_chars, trim_is_empty, ascii_lower, in_trim_set, is_ascii_alnum, strip_prefix_spec, trim_spec, trim_start_spec, trim_end_spec, TrimSet};

verus! {

/// What the client does when a local and a remote file disagree.
#[derive(Debug, Clone, PartialEq, Eq)]
pub enum SyncConflictPolicy {
    SkipAndLogConflict,
}

impl Default for SyncConflictPolicy {
    fn default() -> (r: Self)
        ensures r == SyncConflictPolicy::SkipAndLogConflict,
    {
        SyncConflictPolicy::SkipAndLogConflict
    }
}

#[derive(Debug, Clone, PartialEq, Eq)]
pub struct ServerConnectionConfig {
    pub url: String,
    pub api_key: String,
}

#[derive(Debug, Clone, PartialEq, Eq)]
pub struct VaultConfig {
    pub name: String,
    /// The vault's directory on this device.
    pub local_path: String,
    pub remote_id: Option<String>,
}

#[derive(Debug, Clone, PartialEq, Eq)]
pub struct ClientConfig {
    pub server: ServerConnectionConfig,
    pub vaults: Vec<VaultConfig>,
    pub sync_conflict_policy: SyncConflictPolicy,
}

/// The namespace used when a name normalises to nothing.
pub open spec fn default_namespace() -> Seq<char> {
    seq!['v', 'a', 'u', 'l', 't']
}

/// Lower-cases ASCII letters and digits and turns every run of other
/// characters into a single dash.
pub open spec fn collapse_spec(s: Seq<char>) -> Seq<char>
    decreases s.len(),
{
    if s.len() == 0 {
        seq![]
    } else {
        let prev = collapse_spec(s.drop_last());
        let c = s.last();
        if is_ascii_alnum(c) {
            prev.push(ascii_lower(c))
        } else if prev.len() > 0 && prev.last() == '-' {
            prev
        } else {
            prev.push('-')
        }
    }
}

/// The namespace that a name normalises to.
pub open spec fn normalize_namespace_spec(s: Seq<char>) -> Seq<char> {
    let t = trim_spec(TrimSet::Dash, collapse_spec(s));
    if t.len() == 0 {
        default_namespace()
    } else {
        t
    }
}

/// Back-slashes become forward slashes.
pub open spec fn normalize_relative_path_spec(s: Seq<char>) -> Seq<char> {
    s.map_values(|c: char| if c == '\\' { '/' } else { c })
}

/// The namespace of a vault: its remote id when that is not blank, else its name.
pub open spec fn namespace_spec(v: VaultConfig) -> Seq<char> {
    match v.remote_id {
        Some(r) => {
            let t = trim_spec(TrimSet::White, r@);
            if t.len() > 0 {
                normalize_namespace_spec(t)
            } else {
                normalize_namespace_spec(v.name@)
            }
        },
        None => normalize_namespace_spec(v.name@),
    }
}

pub open spec fn remote_prefix_spec(v: VaultConfig) -> Seq<char> {
    namespace_spec(v).push('/')
}

pub open spec fn to_remote_path_spec(v: VaultConfig, relative: Seq<char>) -> Seq<char> {
    remote_prefix_spec(v) + normalize_relative_path_spec(relative)
}

pub open spec fn from_remote_path_spec(v: VaultConfig, remote: Seq<char>) -> Option<Seq<char>> {
    match strip_prefix_spec(remote, remote_prefix_spec(v)) {
        Some(rest) => Some(normalize_relative_path_spec(rest)),
        None => None,
    }
}

/// The message of the first problem of a vault, if any.
pub open spec fn vault_error_spec(v: VaultConfig) -> Option<Seq<char>> {
    if trim_spec(TrimSet::White, v.name@).len() == 0 {
        Some("Vault name cannot be empty"@)
    } else if namespace_spec(v).len() == 0 {
        Some("Vault namespace cannot be empty"@)
    } else {
        None
    }
}

/// The message of the first problem among the vaults, in order.
pub open spec fn vaults_error_spec(vs: Seq<VaultConfig>) -> Option<Seq<char>>
    decreases vs.len(),
{
    if vs.len() == 0 {
        None
    } else {
        match vault_error_spec(vs[0]) {
            Some(e) => Some(e),
            None => vaults_error_spec(vs.drop_first()),
        }
    }
}

/// The message of the first problem of a configuration, if any.
pub open spec fn config_error_spec(c: ClientConfig) -> Option<Seq<char>> {
    if trim_spec(TrimSet::White, c.server.url@).len() == 0 {
        Some("server.url cannot be empty"@)
    } else if trim_spec(TrimSet::White, c.server.api_key@).len() == 0 {
        Some("server.api_key cannot be empty"@)
    } else if c.vaults@.len() == 0 {
        Some("At least one vault must be configured"@)
    } else {
        vaults_error_spec(c.vaults@)
    }
}

/// A result that is `Ok` exactly when there is no error message, and an
/// `InvalidConfig` error with that message otherwise.
pub open spec fn matches_config_error(r: ClientResult<()>, e: Option<Seq<char>>) -> bool {
    match e {
        None => r is Ok,
        Some(m) => r matches Err(ClientError::InvalidConfig(msg)) && msg@ == m,
    }
}

/// A well-formed namespace: non-empty, made of lower-case ASCII letters,
/// digits and single dashes, and neither starting nor ending with a dash.
pub open spec fn is_namespace(s: Seq<char>) -> bool {
    &&& s.len() > 0
    &&& s[0] != '-'
    &&& s.last() != '-'
    &&& dash_words(s)
}

/// Every character is a lower-case letter, a digit or a dash, and no two dashes touch.
pub open spec fn dash_words(s: Seq<char>) -> bool {
    &&& forall|i: int| 0 <= i < s.len() ==> is_namespace_char(#[trigger] s[i])
    &&& forall|i: int| 0 <= i < s.len() - 1 ==> !(#[trigger] s[i] == '-' && s[i + 1] == '-')
}

pub open spec fn is_namespace_char(c: char) -> bool {
    ('a' <= c && c <= 'z') || ('0' <= c && c <= '9') || c == '-'
}

proof fn lemma_lower_of_alnum(c: char)
    requires
        is_ascii_alnum(c),
    ensures
        is_namespace_char(ascii_lower(c)),
        ascii_lower(c) != '-',
        ('a' <= c <= 'z' || '0' <= c <= '9') ==> ascii_lower(c) == c,
{
}

proof fn lemma_collapse_dash_words(s: Seq<char>)
    ensures
        dash_words(collapse_spec(s)),
    decreases s.len(),
{
    if s.len() > 0 {
        lemma_collapse_dash_words(s.drop_last());
        let prev = collapse_spec(s.drop_last());
        let c = s.last();
        if is_ascii_alnum(c) {
            lemma_lower_of_alnum(c);
            let r = prev.push(ascii_lower(c));
            assert forall|i: int| 0 <= i < r.len() - 1 implies !(#[trigger] r[i] == '-' && r[i + 1] == '-') by {
                if i < prev.len() - 1 {
                    assert(r[i] == prev[i] && r[i + 1] == prev[i + 1]);
                }
            }
        } else if prev.len() > 0 && prev.last() == '-' {
        } else {
            let r = prev.push('-');
            assert forall|i: int| 0 <= i < r.len() - 1 implies !(#[trigger] r[i] == '-' && r[i + 1] == '-') by {
                if i < prev.len() - 1 {
                    assert(r[i] == prev[i] && r[i + 1] == prev[i + 1]);
                }
            }
            assert forall|i: int| 0 <= i < r.len() implies is_namespace_char(#[trigger] r[i]) by {
                if i < prev.len() {
                    assert(r[i] == prev[i]);
                }
            }
        }
    }
}

proof fn lemma_dash_words_subrange(s: Seq<char>, a: int, b: int)
    requires
        dash_words(s),
        0 <= a <= b <= s.len(),
    ensures
        dash_words(s.subrange(a, b)),
{
    let t = s.subrange(a, b);
    assert forall|i: int| 0 <= i < t.len() - 1 implies !(#[trigger] t[i] == '-' && t[i + 1] == '-') by {
        assert(t[i] == s[a + i] && t[i + 1] == s[a + i + 1]);
    }
    assert forall|i: int| 0 <= i < t.len() implies is_namespace_char(#[trigger] t[i]) by {
        assert(t[i] == s[a + i]);
    }
}

/// Trimming a sequence gives one of its contiguous pieces with no trimmed
/// character at either end.
proof fn lemma_trim_dash_shape(s: Seq<char>)
    ensures
        exists|a: int, b: int| 0 <= a <= b <= s.len() && trim_spec(TrimSet::Dash, s) == s.subrange(a, b),
        trim_spec(TrimSet::Dash, s).len() > 0 ==> trim_spec(TrimSet::Dash, s)[0] != '-'
            && trim_spec(TrimSet::Dash, s).last() != '-',
{
    lemma_trim_start_piece(TrimSet::Dash, s);
    let t = trim_start_spec(TrimSet::Dash, s);
    let a = choose|a: int| 0 <= a <= s.len() && t == s.subrange(a, s.len() as int);
    lemma_trim_end_piece(TrimSet::Dash, t);
    let b = choose|b: int| 0 <= b <= t.len() && trim_end_spec(TrimSet::Dash, t) == t.subrange(0, b);
    assert(t.subrange(0, b) =~= s.subrange(a, a + b));
    if trim_spec(TrimSet::Dash, s).len() > 0 {
        lemma_trim_start_first(TrimSet::Dash, s);
        lemma_trim_end_last(TrimSet::Dash, t);
        assert(t.subrange(0, b)[0] == t[0]);
    }
}

pub proof fn lemma_trim_start_piece(set: TrimSet, s: Seq<char>)
    ensures
        exists|a: int| 0 <= a <= s.len() && trim_start_spec(set, s) == s.subrange(a, s.len() as int),
    decreases s.len(),
{
    if s.len() > 0 && in_trim_set(set, s[0]) {
        lemma_trim_start_piece(set, s.drop_first());
        let a = choose|a: int| 0 <= a <= s.drop_first().len() && trim_start_spec(set, s.drop_first()) == s.drop_first().subrange(a, s.drop_first().len() as int);
        assert(s.drop_first().subrange(a, s.drop_first().len() as int) =~= s.subrange(a + 1, s.len() as int));
    } else {
        assert(s.subrange(0, s.len() as int) =~= s);
    }
}

pub proof fn lemma_trim_end_piece(set: TrimSet, s: Seq<char>)
    ensures
        exists|b: int| 0 <= b <= s.len() && trim_end_spec(set, s) == s.subrange(0, b),
    decreases s.len(),
{
    if s.len() > 0 && in_trim_set(set, s.last()) {
        lemma_trim_end_piece(set, s.drop_last());
        let b = choose|b: int| 0 <= b <= s.drop_last().len() && trim_end_spec(set, s.drop_last()) == s.drop_last().subrange(0, b);
        assert(s.drop_last().subrange(0, b) =~= s.subrange(0, b));
    } else {
        assert(s.subrange(0, s.len() as int) =~= s);
    }
}

pub proof fn lemma_trim_start_first(set: TrimSet, s: Seq<char>)
    ensures
        trim_start_spec(set, s).len() > 0 ==> !in_trim_set(set, trim_start_spec(set, s)[0]),
    decreases s.len(),
{
    if s.len() > 0 && in_trim_set(set, s[0]) {
        lemma_trim_start_first(set, s.drop_first());
    }
}

pub proof fn lemma_trim_end_last(set: TrimSet, s: Seq<char>)
    ensures
        trim_end_spec(set, s).len() > 0 ==> !in_trim_set(set, trim_end_spec(set, s).last()),
    decreases s.len(),
{
    if s.len() > 0 && in_trim_set(set, s.last()) {
        lemma_trim_end_last(set, s.drop_last());
    }
}

/// Law: every name normalises to a well-formed namespace, so a vault's
/// namespace is never empty.
pub proof fn lemma_normalize_namespace_well_formed(s: Seq<char>)
    ensures
        is_namespace(normalize_namespace_spec(s)),
{
    let c = collapse_spec(s);
    lemma_collapse_dash_words(s);
    lemma_trim_dash_shape(c);
    let t = trim_spec(TrimSet::Dash, c);
    if t.len() > 0 {
        let (a, b) = choose|a: int, b: int| 0 <= a <= b <= c.len() && t == c.subrange(a, b);
        lemma_dash_words_subrange(c, a, b);
    } else {
        let d = default_namespace();
        assert(d[0] == 'v' && d[1] == 'a' && d[2] == 'u' && d[3] == 'l' && d[4] == 't');
    }
}

/// Lower-cases ASCII letters and digits, turns every run of other characters
/// into one dash, drops dashes at both ends, and falls back to `vault`.
pub fn normalize_namespace(input: &str) -> (r: String)
    ensures
        r@ == normalize_namespace_spec(input@),
{
    let n = input.unicode_len();
    let mut out = String::new();
    let mut last_was_dash = false;
    let mut i: usize = 0;
    assert(input@.subrange(0, 0) =~= Seq::<char>::empty());
    while i < n
        invariant
            i <= n,
            n == input@.len(),
            out@ == collapse_spec(input@.subrange(0, i as int)),
            last_was_dash == (out@.len() > 0 && out@.last() == '-'),
        decreases n - i,
    {
        let ch = input.get_char(i);
        let ghost pre = input@.subrange(0, i as int);
        assert(input@.subrange(0, i + 1).drop_last() =~= pre);
        assert(input@.subrange(0, i + 1).last() == ch);
        if is_alnum_char(ch) {
            proof { lemma_lower_of_alnum(ch); }
            push_char(&mut out, lower_char(ch));
            last_was_dash = false;
        } else if !last_was_dash {
            push_char(&mut out, '-');
            last_was_dash = true;
        }
        i += 1;
    }
    assert(input@.subrange(0, n as int) =~= input@);
    let trimmed = trim_chars(out.as_str(), TrimSet::Dash);
    if trimmed.as_str().unicode_len() == 0 {
        let v = String::from_str("vault");
        proof { reveal_strlit("vault"); }
        assert(v@ =~= default_namespace());
        v
    } else {
        trimmed
    }
}

/// `char::is_ascii_alphanumeric`.
pub fn is_alnum_char(c: char) -> (r: bool)
    ensures r == is_ascii_alnum(c),
{
    ('a' <= c && c <= 'z') || ('A' <= c && c <= 'Z') || ('0' <= c && c <= '9')
}

/// Replaces every back-slash by a forward slash.
pub fn normalize_relative_path(path: &str) -> (r: String)
    ensures
        r@ == normalize_relative_path_spec(path@),
{
    let n = path.unicode_len();
    let mut out = String::new();
    let mut i: usize = 0;
    while i < n
        invariant
            i <= n,
            n == path@.len(),
            out@ =~= normalize_relative_path_spec(path@.subrange(0, i as int)),
        decreases n - i,
    {
        let c = path.get_char(i);
        if c == '\\' {
            push_char(&mut out, '/');
        } else {
            push_char(&mut out, c);
        }
        i += 1;
    }
    assert(path@.subrange(0, n as int) =~= path@);
    out
}

impl VaultConfig {
    /// Checks the vault's name and namespace.
    pub fn validate(&self) -> (r: ClientResult<()>)
        ensures
            matches_config_error(r, vault_error_spec(*self)),
    {
        if trim_is_empty(self.name.as_str()) {
            return Err(ClientError::InvalidConfig(String::from_str("Vault name cannot be empty")));
        }
        let ns = self.namespace();
        if ns.as_str().unicode_len() == 0 {
            return Err(ClientError::InvalidConfig(String::from_str("Vault namespace cannot be empty")));
        }
        Ok(())
    }

    /// The vault's namespace on the server: the normalised remote id when it
    /// is not blank, else the normalised name.
    pub fn namespace(&self) -> (r: String)
        ensures
            r@ == namespace_spec(*self),
    {
        if let Some(remote_id) = &self.remote_id {
            let trimmed = trim_chars(remote_id.as_str(), TrimSet::White);
            if trimmed.as_str().unicode_len() != 0 {
                return normalize_namespace(trimmed.as_str());
            }
        }
        normalize_namespace(self.name.as_str())
    }

    /// The server path of a file of this vault: `<namespace>/<relative path>`.
    pub fn to_remote_path(&self, relative_path: &str) -> (r: String)
        ensures
            r@ == to_remote_path_spec(*self, relative_path@),
    {
        let mut out = self.namespace();
        push_char(&mut out, '/');
        let rel = normalize_relative_path(relative_path);
        out.append(rel.as_str());
        out
    }

    /// The relative path of a server path inside this vault's namespace, if it is one.
    pub fn from_remote_path(&self, remote_path: &str) -> (r: Option<String>)
        ensures
            match r {
                Some(p) => from_remote_path_spec(*self, remote_path@) == Some(p@),
                None => from_remote_path_spec(*self, remote_path@) is None,
            },
    {
        let mut prefix = self.namespace();
        push_char(&mut prefix, '/');
        match strip_prefix(remote_path, prefix.as_str()) {
            Some(rest) => Some(normalize_relative_path(rest.as_str())),
            None => None,
        }
    }
}

impl ClientConfig {
    /// Checks the server settings, that there is a vault, and every vault in order.
    pub fn validate(&self) -> (r: ClientResult<()>)
        ensures
            matches_config_error(r, config_error_spec(*self)),
    {
        if trim_is_empty(self.server.url.as_str()) {
            return Err(ClientError::InvalidConfig(String::from_str("server.url cannot be empty")));
        }
        if trim_is_empty(self.server.api_key.as_str()) {
            return Err(ClientError::InvalidConfig(String::from_str("server.api_key cannot be empty")));
        }
        let n = self.vaults.len();
        if n == 0 {
            return Err(ClientError::InvalidConfig(String::from_str("At least one vault must be configured")));
        }
        let mut i: usize = 0;
        assert(self.vaults@.subrange(0, n as int) =~= self.vaults@);
        while i < n
            invariant
                i <= n,
                n == self.vaults@.len(),
                config_error_spec(*self) == vaults_error_spec(self.vaults@),
                vaults_error_spec(self.vaults@) == vaults_error_spec(self.vaults@.subrange(i as int, n as int)),
            decreases n - i,
        {
            let ghost rest = self.vaults@.subrange(i as int, n as int);
            assert(rest[0] == self.vaults@[i as int]);
            assert(rest.drop_first() =~= self.vaults@.subrange(i + 1, n as int));
            let r = self.vaults[i].validate();
            if r.is_err() {
                assert(vault_error_spec(rest[0]) is Some);
                assert(vaults_error_spec(rest) == vault_error_spec(rest[0]));
                return r;
            }
            i += 1;
        }
        Ok(())
    }

    /// A starting configuration with one vault.
    pub fn sample() -> (r: Self)
        ensures
            r.server.url@ == "http://127.0.0.1:8080"@,
            r.server.api_key@ == "replace-with-server-api-key"@,
            r.vaults@.len() == 1,
            r.vaults@[0].name@ == "Default Vault"@,
            r.vaults@[0].local_path@ == "./vault"@,
            r.vaults@[0].remote_id matches Some(id) && id@ == "default-vault"@,
            r.sync_conflict_policy == SyncConflictPolicy::SkipAndLogConflict,
    {
        let vault = VaultConfig {
            name: String::from_str("Default Vault"),
            local_path: String::from_str("./vault"),
            remote_id: Some(String::from_str("default-vault")),
        };
        let mut vaults = Vec::new();
        vaults.push(vault);
        ClientConfig {
            server: ServerConnectionConfig {
                url: String::from_str("http://127.0.0.1:8080"),
                api_key: String::from_str("replace-with-server-api-key"),
            },
            vaults,
            sync_conflict_policy: SyncConflictPolicy::SkipAndLogConflict,
        }
    }
}

/// Law: a relative path sent to the server comes back from it unchanged,
/// up to back-slashes becoming forward slashes.
pub proof fn lemma_remote_path_roundtrip(v: VaultConfig, relative: Seq<char>)
    ensures
        from_remote_path_spec(v, to_remote_path_spec(v, relative)) == Some(normalize_relative_path_spec(relative)),
        (forall|i: int| 0 <= i < relative.len() ==> relative[i] != '\\') ==>
            from_remote_path_spec(v, to_remote_path_spec(v, relative)) == Some(relative),
{
    let p = remote_prefix_spec(v);
    let n = normalize_relative_path_spec(relative);
    let full = p + n;
    assert(p.is_prefix_of(full)) by {
        assert(full.subrange(0, p.len() as int) =~= p);
    }
    assert(full.subrange(p.len() as int, full.len() as int) =~= n);
    assert(normalize_relative_path_spec(n) =~= n);
    if forall|i: int| 0 <= i < relative.len() ==> relative[i] != '\\' {
        assert(n =~= relative);
    }
}

/// Law: normalising a namespace twice gives the same namespace.
pub proof fn lemma_normalize_namespace_idempotent(s: Seq<char>)
    ensures
        normalize_namespace_spec(normalize_namespace_spec(s)) == normalize_namespace_spec(s),
{
    let t = normalize_namespace_spec(s);
    lemma_normalize_namespace_well_formed(s);
    lemma_collapse_of_dash_words(t);
    lemma_trim_dash_noop(t);
}

proof fn lemma_collapse_of_dash_words(s: Seq<char>)
    requires
        dash_words(s),
    ensures
        collapse_spec(s) == s,
    decreases s.len(),
{
    if s.len() > 0 {
        let p = s.drop_last();
        lemma_dash_words_subrange(s, 0, s.len() - 1);
        assert(p =~= s.subrange(0, s.len() - 1));
        lemma_collapse_of_dash_words(p);
        let c = s.last();
        assert(is_namespace_char(s[s.len() - 1]));
        if c == '-' && p.len() > 0 {
            assert(!(s[s.len() - 2] == '-' && s[s.len() - 1] == '-'));
            assert(p.last() == s[s.len() - 2]);
        }
        assert(p.push(c) =~= s);
    }
}

proof fn lemma_trim_dash_noop(s: Seq<char>)
    requires
        s.len() > 0,
        s[0] != '-',
        s.last() != '-',
    ensures
        trim_spec(TrimSet::Dash, s) == s,
{
}

proof fn lemma_upper_char(c: char)
    ensures
        is_ascii_alnum(ascii_upper(c)) == is_ascii_alnum(c),
        ascii_lower(ascii_upper(c)) == ascii_lower(c),
{
    if 'a' <= c && c <= 'z' {
        let u = ascii_upper(c);
        assert(u as u32 == (c as u32) - 32);
        assert(((u as u32) + 32) as char == c);
    }
}

proof fn lemma_collapse_upper(s: Seq<char>)
    ensures
        collapse_spec(ascii_upper_str(s)) == collapse_spec(s),
    decreases s.len(),
{
    if s.len() > 0 {
        let u = ascii_upper_str(s);
        assert(u.drop_last() =~= ascii_upper_str(s.drop_last()));
        lemma_collapse_upper(s.drop_last());
        lemma_upper_char(s.last());
        assert(u.last() == ascii_upper(s.last()));
    }
}

/// The collapsed name with its outer dashes removed, before the fallback.
spec fn collapse_trimmed(s: Seq<char>) -> Seq<char> {
    trim_spec(TrimSet::Dash, collapse_spec(s))
}

proof fn lemma_collapse_prepend(c: char, s: Seq<char>)
    requires
        !is_ascii_alnum(c),
    ensures
        collapse_spec(seq![c] + s) == (if collapse_spec(s).len() > 0 && collapse_spec(s)[0] == '-' {
            collapse_spec(s)
        } else {
            seq!['-'] + collapse_spec(s)
        }),
    decreases s.len(),
{
    if s.len() == 0 {
        assert(seq![c] + s =~= seq![c]);
        assert(seq![c].drop_last() =~= Seq::<char>::empty());
        assert(seq![c].last() == c);
        assert(collapse_spec(Seq::<char>::empty()) == Seq::<char>::empty());
        assert(collapse_spec(seq![c]) == Seq::<char>::empty().push('-'));
        assert(seq!['-'] + collapse_spec(s) =~= Seq::<char>::empty().push('-'));
    } else {
        let p = s.drop_last();
        let d = s.last();
        lemma_collapse_prepend(c, p);
        assert((seq![c] + s).drop_last() =~= seq![c] + p);
        assert((seq![c] + s).last() == d);
        let cp = collapse_spec(p);
        if is_ascii_alnum(d) {
            lemma_lower_of_alnum(d);
            if cp.len() > 0 && cp[0] == '-' {
                assert(cp.push(ascii_lower(d))[0] == '-');
            } else {
                assert((seq!['-'] + cp).push(ascii_lower(d)) =~= seq!['-'] + cp.push(ascii_lower(d)));
                assert(cp.push(ascii_lower(d))[0] != '-');
            }
        } else {
            if cp.len() > 0 && cp[0] == '-' {
                assert(cp.push('-')[0] == '-');
            } else if cp.len() == 0 {
                assert(seq!['-'] + cp =~= seq!['-']);
                assert(cp.push('-') =~= seq!['-']);
            } else {
                assert((seq!['-'] + cp).last() == cp.last());
                assert((seq!['-'] + cp).push('-') =~= seq!['-'] + cp.push('-'));
                assert(cp.push('-')[0] == cp[0]);
            }
        }
    }
}

proof fn lemma_trim_start_push(set: TrimSet, x: Seq<char>, d: char)
    ensures
        trim_start_spec(set, x.push(d)) == (if trim_start_spec(set, x).len() > 0 {
            trim_start_spec(set, x).push(d)
        } else {
            trim_start_spec(set, seq![d])
        }),
    decreases x.len(),
{
    if x.len() > 0 {
        assert(x.push(d)[0] == x[0]);
        assert(x.push(d).drop_first() =~= x.drop_first().push(d));
        if in_trim_set(set, x[0]) {
            lemma_trim_start_push(set, x.drop_first(), d);
        }
    } else {
        assert(x.push(d) =~= seq![d]);
    }
}

proof fn lemma_collapse_trimmed_prepend(c: char, s: Seq<char>)
    requires
        !is_ascii_alnum(c),
    ensures
        collapse_trimmed(seq![c] + s) == collapse_trimmed(s),
{
    lemma_collapse_prepend(c, s);
    let x = collapse_spec(s);
    if !(x.len() > 0 && x[0] == '-') {
        let y = seq!['-'] + x;
        assert(y[0] == '-');
        assert(y.drop_first() =~= x);
        assert(trim_start_spec(TrimSet::Dash, y) == trim_start_spec(TrimSet::Dash, x));
    }
}

proof fn lemma_collapse_trimmed_append(s: Seq<char>, c: char)
    requires
        !is_ascii_alnum(c),
    ensures
        collapse_trimmed(s.push(c)) == collapse_trimmed(s),
{
    assert(s.push(c).drop_last() =~= s);
    assert(s.push(c).last() == c);
    let x = collapse_spec(s);
    if !(x.len() > 0 && x.last() == '-') {
        lemma_trim_start_push(TrimSet::Dash, x, '-');
        let t = trim_start_spec(TrimSet::Dash, x);
        if t.len() > 0 {
            assert(t.push('-').drop_last() =~= t);
            assert(t.push('-').last() == '-');
        } else {
            assert(seq!['-'].drop_first() =~= Seq::<char>::empty());
            assert(seq!['-'][0] == '-');
            assert(trim_start_spec(TrimSet::Dash, Seq::<char>::empty()) == Seq::<char>::empty());
            assert(trim_start_spec(TrimSet::Dash, seq!['-']) =~= Seq::<char>::empty());
        }
    }
}

proof fn lemma_collapse_trimmed_trim_start(s: Seq<char>)
    ensures
        collapse_trimmed(trim_start_spec(TrimSet::White, s)) == collapse_trimmed(s),
    decreases s.len(),
{
    if s.len() > 0 && is_white(s[0]) {
        lemma_collapse_trimmed_trim_start(s.drop_first());
        assert(seq![s[0]] + s.drop_first() =~= s);
        lemma_collapse_trimmed_prepend(s[0], s.drop_first());
    }
}

proof fn lemma_collapse_trimmed_trim_end(s: Seq<char>)
    ensures
        collapse_trimmed(trim_end_spec(TrimSet::White, s)) == collapse_trimmed(s),
    decreases s.len(),
{
    if s.len() > 0 && is_white(s.last()) {
        lemma_collapse_trimmed_trim_end(s.drop_last());
        assert(s.drop_last().push(s.last()) =~= s);
        lemma_collapse_trimmed_append(s.drop_last(), s.last());
    }
}

/// Law: a name's namespace does not depend on the ASCII case of its letters
/// nor on white space around it.
pub proof fn lemma_normalize_namespace_ignores_case_and_trim(s: Seq<char>)
    ensures
        normalize_namespace_spec(ascii_upper_str(s)) == normalize_namespace_spec(s),
        normalize_namespace_spec(trim_spec(TrimSet::White, s)) == normalize_namespace_spec(s),
{
    lemma_collapse_upper(s);
    lemma_collapse_trimmed_trim_start(s);
    lemma_collapse_trimmed_trim_end(trim_start_spec(TrimSet::White, s));
}

/// Law: a vault's namespace is always well formed, hence never empty.
pub proof fn lemma_namespace_well_formed(v: VaultConfig)
    ensures
        is_namespace(namespace_spec(v)),
        vault_error_spec(v) is None <==> trim_spec(TrimSet::White, v.name@).len() > 0,
{
    match v.remote_id {
        Some(r) => {
            lemma_normalize_namespace_well_formed(trim_spec(TrimSet::White, r@));
            lemma_normalize_namespace_well_formed(v.name@);
        },
        None => {
            lemma_normalize_namespace_well_formed(v.name@);
        },
    }
}

} // verus!
