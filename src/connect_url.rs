use vstd::prelude::*;
use vstd::string::*;

use crate::text::str_eq;

verus! {

/// How an SSH account proves who it is.
#[derive(Debug)]
pub enum SshAuth {
    Agent,
    Password(String),
    PrivateKey { private_key: String, passphrase: Option<String> },
}

/// An SSH account that a tunnel goes through.
#[derive(Debug)]
pub struct SshCredentials {
    pub user_name: String,
    pub host: String,
    pub port: u16,
    /// The credentials as the settings wrote them; tunnels are shared by it.
    pub line: String,
    pub auth: SshAuth,
}

/// A private key that a secret store gave for an SSH account.
#[derive(Debug)]
pub struct ResolvedPrivateKey {
    pub content: String,
    pub pass_phrase: Option<String>,
}

/// The credentials to open a session with: the account's own, or, where a
/// secret store resolved a private key for it, the same account with that key.
pub fn resolve_ssh_credentials(
    credentials: &SshCredentials,
    private_key: Option<ResolvedPrivateKey>,
) -> (r: SshCredentials)
    ensures
        r.user_name == credentials.user_name,
        r.host == credentials.host,
        r.port == credentials.port,
        r.line == credentials.line,
        private_key matches Some(k) ==> r.auth == (SshAuth::PrivateKey {
            private_key: k.content,
            passphrase: k.pass_phrase,
        }),
        private_key is None ==> r.auth == credentials.auth,
{
    let auth = match private_key {
        Some(key) => SshAuth::PrivateKey { private_key: key.content, passphrase: key.pass_phrase },
        None => clone_auth(&credentials.auth),
    };
    SshCredentials {
        user_name: credentials.user_name.clone(),
        host: credentials.host.clone(),
        port: credentials.port,
        line: credentials.line.clone(),
        auth,
    }
}

fn clone_auth(auth: &SshAuth) -> (r: SshAuth)
    ensures
        r == *auth,
{
    match auth {
        SshAuth::Agent => SshAuth::Agent,
        SshAuth::Password(p) => SshAuth::Password(p.clone()),
        SshAuth::PrivateKey { private_key, passphrase } => SshAuth::PrivateKey {
            private_key: private_key.clone(),
            passphrase: match passphrase {
                Some(p) => Some(p.clone()),
                None => None,
            },
        },
    }
}

/// The hop of an endpoint that is reached through SSH: the account, and the
/// endpoint behind it as a string and as a host and a port.
#[derive(Debug)]
pub struct OverSshSettings {
    pub credentials: SshCredentials,
    pub remote_resource: String,
    pub remote_host: String,
    pub remote_port: Option<u16>,
}

/// Where a channel connects: a TCP endpoint, possibly behind an SSH hop, or
/// a UNIX socket.
#[derive(Debug)]
pub enum GrpcConnectUrl {
    Tcp { raw: String, over_ssh: Option<OverSshSettings> },
    UnixSocket(String),
}

/// A path to a UNIX socket starts with `/` or `~/`.
pub open spec fn is_unix_socket_path(s: Seq<char>) -> bool {
    (s.len() >= 1 && s[0] == '/') || (s.len() >= 2 && s[0] == '~' && s[1] == '/')
}

/// The code of the ASCII lower case of `c`.
pub open spec fn ascii_lower(c: char) -> int {
    if 'A' <= c && c <= 'Z' {
        (c as u32) + 32
    } else {
        c as u32 as int
    }
}

/// `s` starts with `prefix`, ASCII letters compared without case.
pub open spec fn starts_with_ignoring_case(s: Seq<char>, prefix: Seq<char>) -> bool {
    prefix.len() <= s.len() && forall|i: int|
        0 <= i < prefix.len() ==> #[trigger] ascii_lower(s[i]) == ascii_lower(prefix[i])
}

/// The first index at or after `from` where `pat` occurs in `s`.
pub open spec fn find_from(s: Seq<char>, pat: Seq<char>, from: int) -> Option<int>
    decreases s.len() + 1 - from,
{
    if from < 0 || from + pat.len() > s.len() {
        None
    } else if s.subrange(from, from + pat.len()) == pat {
        Some(from)
    } else {
        find_from(s, pat, from + 1)
    }
}

/// The host of a URL: what follows `://` (or the whole), up to a `:`.
pub open spec fn domain_name(s: Seq<char>) -> Seq<char> {
    let start = match find_from(s, "://"@, 0) {
        Some(i) => i + 3,
        None => 0,
    };
    let rest = s.subrange(start, s.len() as int);
    let end = match find_from(rest, ":"@, 0) {
        Some(j) => j,
        None => rest.len() as int,
    };
    rest.subrange(0, end)
}

proof fn lemma_find_from_bounds(s: Seq<char>, pat: Seq<char>, from: int)
    ensures
        find_from(s, pat, from) matches Some(i) ==> from <= i && i + pat.len() <= s.len()
            && s.subrange(i, i + pat.len()) == pat,
    decreases s.len() + 1 - from,
{
    if !(from < 0 || from + pat.len() > s.len()) && s.subrange(from, from + pat.len()) != pat {
        lemma_find_from_bounds(s, pat, from + 1);
    }
}

/// Where `pat` first occurs in `s`.
fn find_str(s: &str, pat: &str) -> (r: Option<usize>)
    ensures
        r matches Some(i) ==> find_from(s@, pat@, 0) == Some(i as int),
        r is None ==> find_from(s@, pat@, 0) is None,
{
    let n = s.unicode_len();
    let m = pat.unicode_len();
    if m == 0 {
        proof {
            assert(s@.subrange(0, 0) =~= pat@);
        }
        return Some(0);
    }
    let mut i: usize = 0;
    while i <= n && m <= n - i
        invariant
            1 <= m,
            i <= n,
            n == s@.len(),
            m == pat@.len(),
            find_from(s@, pat@, i as int) == find_from(s@, pat@, 0),
        decreases n + 1 - i,
    {
        if str_eq(s.substring_char(i, i + m), pat) {
            return Some(i);
        }
        i = i + 1;
    }
    None
}

/// The host that a TLS connection names (SNI): the part of the URL after
/// the scheme and before the port.
pub fn extract_domain_name(src: &str) -> (r: &str)
    ensures
        r@ == domain_name(src@),
{
    let n = src.unicode_len();
    proof {
        lemma_find_from_bounds(src@, "://"@, 0);
        reveal_strlit("://");
    }
    let start = match find_str(src, "://") {
        Some(index) => index + 3,
        None => 0,
    };
    let rest = src.substring_char(start, n);
    proof {
        lemma_find_from_bounds(rest@, ":"@, 0);
    }
    let end = match find_str(rest, ":") {
        Some(index) => index,
        None => rest.unicode_len(),
    };
    rest.substring_char(0, end)
}

impl GrpcConnectUrl {
    pub open spec fn spec_raw(&self) -> Seq<char> {
        match self {
            GrpcConnectUrl::Tcp { raw, .. } => raw@,
            GrpcConnectUrl::UnixSocket(raw) => raw@,
        }
    }

    /// The endpoint that the channel dials, behind the SSH hop if there is one.
    pub open spec fn spec_host(&self) -> Seq<char> {
        match self {
            GrpcConnectUrl::Tcp { raw, over_ssh } => match over_ssh {
                Some(ssh) => ssh.remote_resource@,
                None => raw@,
            },
            GrpcConnectUrl::UnixSocket(raw) => raw@,
        }
    }

    /// Reads an endpoint string: a UNIX socket where it is a path, else TCP.
    pub fn parse(raw: String) -> (r: Self)
        ensures
            r == parse_connect_url(raw),
    {
        let n = raw.as_str().unicode_len();
        let is_path = (n >= 1 && raw.as_str().get_char(0) == '/') || (n >= 2 && raw.as_str().get_char(
            0,
        ) == '~' && raw.as_str().get_char(1) == '/');
        if is_path {
            GrpcConnectUrl::UnixSocket(raw)
        } else {
            GrpcConnectUrl::Tcp { raw, over_ssh: None }
        }
    }

    /// A TCP endpoint reached through an SSH hop.
    pub fn new_over_ssh(raw: String, over_ssh: OverSshSettings) -> (r: Self)
        ensures
            r.spec_raw() == raw@,
            r == (GrpcConnectUrl::Tcp { raw, over_ssh: Some(over_ssh) }),
    {
        GrpcConnectUrl::Tcp { raw, over_ssh: Some(over_ssh) }
    }

    pub fn as_str(&self) -> (r: &str)
        ensures
            r@ == self.spec_raw(),
    {
        match self {
            GrpcConnectUrl::Tcp { raw, .. } => raw.as_str(),
            GrpcConnectUrl::UnixSocket(raw) => raw.as_str(),
        }
    }

    pub fn get_grpc_host(&self) -> (r: &str)
        ensures
            r@ == self.spec_host(),
    {
        match self {
            GrpcConnectUrl::Tcp { raw, over_ssh } => match over_ssh {
                Some(ssh) => ssh.remote_resource.as_str(),
                None => raw.as_str(),
            },
            GrpcConnectUrl::UnixSocket(raw) => raw.as_str(),
        }
    }

    pub fn is_unix_socket(&self) -> (r: bool)
        ensures
            r == self is UnixSocket,
    {
        match self {
            GrpcConnectUrl::UnixSocket(_) => true,
            _ => false,
        }
    }

    pub fn is_over_ssh(&self) -> (r: bool)
        ensures
            r == (self matches GrpcConnectUrl::Tcp { over_ssh: Some(_), .. }),
    {
        match self {
            GrpcConnectUrl::Tcp { over_ssh, .. } => over_ssh.is_some(),
            GrpcConnectUrl::UnixSocket(_) => false,
        }
    }

    /// The SSH account of a TCP endpoint, where it has an SSH hop.
    pub fn get_ssh_credentials(&self) -> (r: Option<&SshCredentials>)
        requires
            self is Tcp,
        ensures
            r is Some <==> self.is_over_ssh_spec(),
            r matches Some(c) ==> self matches GrpcConnectUrl::Tcp { over_ssh: Some(ssh), .. } && *c
                == ssh.credentials,
    {
        match self {
            GrpcConnectUrl::Tcp { over_ssh, .. } => match over_ssh {
                Some(ssh) => Some(&ssh.credentials),
                None => None,
            },
            GrpcConnectUrl::UnixSocket(_) => None,
        }
    }

    pub open spec fn is_over_ssh_spec(&self) -> bool {
        self matches GrpcConnectUrl::Tcp { over_ssh: Some(_), .. }
    }

    /// Whether the endpoint asks for TLS: its host starts with `https`, in
    /// any case.
    pub fn is_grpc_tls_endpoint(&self) -> (r: bool)
        ensures
            r == starts_with_ignoring_case(self.spec_host(), "https"@),
    {
        starts_with_case_insensitive(self.get_grpc_host(), "https")
    }
}

fn to_ascii_lower(c: char) -> (r: u32)
    ensures
        r == ascii_lower(c),
{
    if 'A' <= c && c <= 'Z' {
        (c as u32) + 32
    } else {
        c as u32
    }
}

/// Whether `s` starts with `prefix`, ASCII letters compared without case.
pub fn starts_with_case_insensitive(s: &str, prefix: &str) -> (r: bool)
    ensures
        r == starts_with_ignoring_case(s@, prefix@),
{
    let n = s.unicode_len();
    let m = prefix.unicode_len();
    if m > n {
        return false;
    }
    let mut i: usize = 0;
    while i < m
        invariant
            m <= n,
            n == s@.len(),
            m == prefix@.len(),
            i <= m,
            forall|k: int| 0 <= k < i ==> #[trigger] ascii_lower(s@[k]) == ascii_lower(prefix@[k]),
        decreases m - i,
    {
        if to_ascii_lower(s.get_char(i)) != to_ascii_lower(prefix.get_char(i)) {
            return false;
        }
        i = i + 1;
    }
    true
}

/// The endpoint that a string names: a UNIX socket where it is a path,
/// else TCP with no SSH hop.
pub open spec fn parse_connect_url(raw: String) -> GrpcConnectUrl {
    if is_unix_socket_path(raw@) {
        GrpcConnectUrl::UnixSocket(raw)
    } else {
        GrpcConnectUrl::Tcp { raw, over_ssh: None }
    }
}

/// Reading an endpoint string keeps the string: `parse(s).as_str() == s`,
/// and the host dialled is that string too.
pub proof fn lemma_connect_url_round_trip(raw: String)
    ensures
        parse_connect_url(raw).spec_raw() == raw@,
        parse_connect_url(raw).spec_host() == raw@,
{
}

} // verus!
