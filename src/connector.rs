use vstd::prelude::*;
use vstd::string::*;

use crate::connect_url::{
    domain_name, extract_domain_name, starts_with_ignoring_case, GrpcConnectUrl, SshCredentials,
};
use crate::telemetry::{decimal, u64_to_string};
use crate::text::str_eq;

verus! {

/// The number of tries that the connector makes to dial an endpoint.
pub const CONNECT_ATTEMPTS: usize = 4;

/// The text of an optional port: its decimal form, or nothing.
pub open spec fn port_text(port: Option<u16>) -> Seq<char> {
    match port {
        Some(p) => decimal(p as int),
        None => Seq::empty(),
    }
}

/// The UNIX socket that the tunnel to `remote_host:remote_port` through the
/// SSH account listens on, in `home` (`/tmp` where there is none).
pub open spec fn unix_socket_file(
    credentials: SshCredentials,
    remote_host: Seq<char>,
    remote_port: Option<u16>,
    home: Option<Seq<char>>,
) -> Seq<char> {
    let root = match home {
        Some(h) => h,
        None => "/tmp"@,
    };
    root + "/grpc-"@ + credentials.user_name@ + "-"@ + credentials.host@ + "_"@ + decimal(
        credentials.port as int,
    ) + "--"@ + remote_host + "_"@ + port_text(remote_port) + ".sock"@
}

/// The key under which a tunnel is shared: the SSH credentials, `->`, and the
/// endpoint behind them.
pub open spec fn forward_key(credentials_line: Seq<char>, remote: Seq<char>) -> Seq<char> {
    credentials_line + "->"@ + remote
}

/// Names the UNIX socket of the tunnel to `remote_host:remote_port` through
/// the SSH account `credentials`.
pub fn generate_unix_socket_file(
    credentials: &SshCredentials,
    remote_host: &str,
    remote_port: Option<u16>,
    home: Option<&str>,
) -> (r: String)
    ensures
        r@ == unix_socket_file(
            *credentials,
            remote_host@,
            remote_port,
            match home {
                Some(h) => Some(h@),
                None => None,
            },
        ),
{
    let mut r = match home {
        Some(h) => String::from_str(h),
        None => String::from_str("/tmp"),
    };
    r.append("/grpc-");
    r.append(credentials.user_name.as_str());
    r.append("-");
    r.append(credentials.host.as_str());
    r.append("_");
    let ssh_port = u64_to_string(credentials.port as u64);
    r.append(ssh_port.as_str());
    r.append("--");
    r.append(remote_host);
    r.append("_");
    match remote_port {
        Some(p) => {
            let port = u64_to_string(p as u64);
            r.append(port.as_str());
        },
        None => {},
    }
    r.append(".sock");
    proof {
        assert(r@ =~= unix_socket_file(
            *credentials,
            remote_host@,
            remote_port,
            match home {
                Some(h) => Some(h@),
                None => None,
            },
        ));
    }
    r
}

/// The key of the tunnel to `remote` through the SSH account written `line`.
pub fn port_forward_key(credentials_line: &str, remote: &str) -> (r: String)
    ensures
        r@ == forward_key(credentials_line@, remote@),
{
    let mut r = String::from_str(credentials_line);
    r.append("->");
    r.append(remote);
    r
}

/// How the connector dials an endpoint.
#[derive(Debug)]
pub enum ConnectPlan {
    /// Dial a UNIX socket.
    UnixSocket { path: String },
    /// Make sure that the tunnel under `forward_key` is up, then dial its
    /// UNIX socket.
    SshTunnel {
        socket_path: String,
        forward_key: String,
        remote_host: String,
        remote_port: Option<u16>,
    },
    /// Dial a TCP endpoint, with TLS naming `tls_domain` where there is one.
    Tcp { endpoint: String, tls_domain: Option<String> },
}

/// Decides how to dial `url`: a UNIX socket directly; an endpoint behind SSH
/// through the tunnel's socket; else over TCP, with TLS where the host
/// starts with `https`.
pub fn plan_connection(url: &GrpcConnectUrl, home: Option<&str>) -> (r: ConnectPlan)
    ensures
        url matches GrpcConnectUrl::UnixSocket(path) ==> r == (ConnectPlan::UnixSocket {
            path: *path,
        }),
        url matches GrpcConnectUrl::Tcp { over_ssh: Some(ssh), .. } ==> (r matches ConnectPlan::SshTunnel {
            socket_path,
            forward_key: key,
            remote_host,
            remote_port,
        } && socket_path@ == unix_socket_file(
            ssh.credentials,
            ssh.remote_host@,
            ssh.remote_port,
            match home {
                Some(h) => Some(h@),
                None => None,
            },
        ) && key@ == forward_key(ssh.credentials.line@, ssh.remote_resource@) && remote_host@
            == ssh.remote_host@ && remote_port == ssh.remote_port),
        url matches GrpcConnectUrl::Tcp { raw, over_ssh: None } ==> (r matches ConnectPlan::Tcp {
            endpoint,
            tls_domain,
        } && endpoint@ == raw@ && (tls_domain is Some <==> starts_with_ignoring_case(
            raw@,
            "https"@,
        )) && (tls_domain matches Some(d) ==> d@ == domain_name(raw@))),
{
    match url {
        GrpcConnectUrl::UnixSocket(path) => ConnectPlan::UnixSocket { path: path.clone() },
        GrpcConnectUrl::Tcp { raw, over_ssh } => match over_ssh {
            Some(ssh) => {
                let socket_path = generate_unix_socket_file(
                    &ssh.credentials,
                    ssh.remote_host.as_str(),
                    ssh.remote_port,
                    home,
                );
                let key = port_forward_key(
                    ssh.credentials.line.as_str(),
                    ssh.remote_resource.as_str(),
                );
                ConnectPlan::SshTunnel {
                    socket_path,
                    forward_key: key,
                    remote_host: ssh.remote_host.clone(),
                    remote_port: ssh.remote_port,
                }
            },
            None => {
                let tls = url.is_grpc_tls_endpoint();
                let tls_domain = if tls {
                    Some(String::from_str(extract_domain_name(raw.as_str())))
                } else {
                    None
                };
                ConnectPlan::Tcp { endpoint: raw.clone(), tls_domain }
            },
        },
    }
}

/// What to do to have the tunnel under a key.
#[derive(Debug, PartialEq, Eq, Structural)]
pub enum ForwardAction {
    /// The tunnel is up already.
    AlreadyOpen,
    /// Start the tunnel to this port, then record it.
    Start(u16),
    /// The endpoint names no port: a tunnel cannot be made.
    MissingPort,
}

/// The SSH tunnels that are up, by key. No key is held twice: `new` starts
/// with none and `record_started` adds a key only where it is missing.
pub struct PortForwardsPool {
    port_forwards: Vec<String>,
}

impl PortForwardsPool {

    /// The keys of the tunnels that are up.
    pub closed spec fn keys(&self) -> Seq<Seq<char>> {
        self.port_forwards@.map_values(|k: String| k@)
    }

    pub fn new() -> (r: Self)
        ensures
            r.keys() == Seq::<Seq<char>>::empty(),
            r.keys().no_duplicates(),
    {
        let r = PortForwardsPool { port_forwards: Vec::new() };
        proof {
            assert(r.keys() =~= Seq::<Seq<char>>::empty());
        }
        r
    }

    pub fn contains(&self, key: &str) -> (r: bool)
        ensures
            r == self.keys().contains(key@),
    {
        let mut i: usize = 0;
        while i < self.port_forwards.len()
            invariant
                i <= self.port_forwards@.len(),
                forall|j: int| 0 <= j < i ==> #[trigger] self.keys()[j] != key@,
            decreases self.port_forwards@.len() - i,
        {
            if str_eq(self.port_forwards[i].as_str(), key) {
                assert(self.keys()[i as int] == key@);
                return true;
            }
            i = i + 1;
        }
        false
    }

    /// What to do to have the tunnel under `key` to `remote_port`: nothing
    /// where it is up; else start it, where there is a port to forward to.
    pub fn start_port_forward(&self, key: &str, remote_port: Option<u16>) -> (r: ForwardAction)
        ensures
            self.keys().contains(key@) ==> r == ForwardAction::AlreadyOpen,
            !self.keys().contains(key@) ==> r == match remote_port {
                Some(p) => ForwardAction::Start(p),
                None => ForwardAction::MissingPort,
            },
    {
        if self.contains(key) {
            return ForwardAction::AlreadyOpen;
        }
        match remote_port {
            Some(p) => ForwardAction::Start(p),
            None => ForwardAction::MissingPort,
        }
    }

    /// Records that the tunnel under `key` is up.
    pub fn record_started(&mut self, key: String)
        ensures
            old(self).keys().no_duplicates() ==> final(self).keys().no_duplicates(),
            old(self).keys().contains(key@) ==> final(self).keys() == old(self).keys(),
            !old(self).keys().contains(key@) ==> final(self).keys() == old(self).keys().push(
                key@,
            ),
    {
        if !self.contains(key.as_str()) {
            self.port_forwards.push(key);
            proof {
                assert(self.keys() =~= old(self).keys().push(key@));
            }
        }
    }
}

} // verus!
