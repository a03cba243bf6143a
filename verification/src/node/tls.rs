//! Which certificate files the program works with.
use vstd::prelude::*;
use vstd::string::*;

use crate::node::cli::AdminClientTlsArgs;
use crate::text::joined;

verus! {

/// Certificates of the transport between peers.
#[derive(Debug)]
pub struct PeerTlsConfig {
    pub cert: std::path::PathBuf,
    pub key: std::path::PathBuf,
    pub ca: std::path::PathBuf,
}

/// Certificates of the admin server.
#[derive(Debug)]
pub struct AdminTlsConfig {
    pub cert: std::path::PathBuf,
    pub key: std::path::PathBuf,
    pub ca: std::path::PathBuf,
}

/// True where some but not all of three are given.
pub open spec fn partial(cert: bool, key: bool, ca: bool) -> bool {
    (cert || key || ca) && !(cert && key && ca)
}

/// The certificates of the transport between peers: all three files, or none for plaintext.
pub fn peer_tls_config(
    cert: Option<std::path::PathBuf>,
    key: Option<std::path::PathBuf>,
    ca: Option<std::path::PathBuf>,
) -> (r: Result<Option<PeerTlsConfig>, String>)
    ensures
        match r {
            Err(line) => partial(cert is Some, key is Some, ca is Some) && line@
                == "--peer-tls-cert, --peer-tls-key, and --peer-tls-ca must all be set together"@,
            Ok(None) => cert is None && key is None && ca is None,
            Ok(Some(files)) => cert == Some(files.cert) && key == Some(files.key) && ca == Some(
                files.ca,
            ),
        },
{
    match (cert, key, ca) {
        (None, None, None) => Ok(None),
        (Some(cert), Some(key), Some(ca)) => Ok(Some(PeerTlsConfig { cert, key, ca })),
        _ => Err(
            String::from_str(
                "--peer-tls-cert, --peer-tls-key, and --peer-tls-ca must all be set together",
            ),
        ),
    }
}

/// The certificates of the admin server: all three files, or none for plaintext.
pub fn admin_tls_config(
    cert: Option<std::path::PathBuf>,
    key: Option<std::path::PathBuf>,
    ca: Option<std::path::PathBuf>,
) -> (r: Result<Option<AdminTlsConfig>, String>)
    ensures
        match r {
            Err(line) => partial(cert is Some, key is Some, ca is Some) && line@
                == "--admin-tls-cert, --admin-tls-key, and --admin-tls-ca must all be set together"@,
            Ok(None) => cert is None && key is None && ca is None,
            Ok(Some(files)) => cert == Some(files.cert) && key == Some(files.key) && ca == Some(
                files.ca,
            ),
        },
{
    match (cert, key, ca) {
        (None, None, None) => Ok(None),
        (Some(cert), Some(key), Some(ca)) => Ok(Some(AdminTlsConfig { cert, key, ca })),
        _ => Err(
            String::from_str(
                "--admin-tls-cert, --admin-tls-key, and --admin-tls-ca must all be set together",
            ),
        ),
    }
}

/// The certificates that an admin call presents: all three files, or none for plaintext.
#[derive(Clone, Copy, Debug)]
pub struct AdminClientTls<'a> {
    pub cert: &'a std::path::PathBuf,
    pub key: &'a std::path::PathBuf,
    pub ca: &'a std::path::PathBuf,
}

/// The certificates that an admin call presents: all three files, or none for plaintext.
pub fn admin_client_tls<'a>(args: &'a AdminClientTlsArgs) -> (r: Result<
    Option<AdminClientTls<'a>>,
    String,
>)
    ensures
        match r {
            Err(line) => partial(
                args.client_tls_cert is Some,
                args.client_tls_key is Some,
                args.client_tls_ca is Some,
            ) && line@
                == "--client-tls-cert, --client-tls-key, and --client-tls-ca must all be set together"@,
            Ok(None) => args.client_tls_cert is None && args.client_tls_key is None
                && args.client_tls_ca is None,
            Ok(Some(files)) => args.client_tls_cert == Some(*files.cert) && args.client_tls_key
                == Some(*files.key) && args.client_tls_ca == Some(*files.ca),
        },
{
    match (&args.client_tls_cert, &args.client_tls_key, &args.client_tls_ca) {
        (None, None, None) => Ok(None),
        (Some(cert), Some(key), Some(ca)) => Ok(Some(AdminClientTls { cert, key, ca })),
        _ => Err(
            String::from_str(
                "--client-tls-cert, --client-tls-key, and --client-tls-ca must all be set together",
            ),
        ),
    }
}

/// The certificates of the client-facing server; with `client_ca`, clients must present one too.
#[derive(Clone, Copy, Debug)]
pub struct ServerTls<'a> {
    pub cert: &'a std::path::PathBuf,
    pub key: &'a std::path::PathBuf,
    pub client_ca: Option<&'a std::path::PathBuf>,
}

/// The certificates of the client-facing server: certificate and key together, with or without an
/// authority for clients; none of them for plaintext.
pub fn client_tls_config<'a>(
    tls_cert: &'a Option<std::path::PathBuf>,
    tls_key: &'a Option<std::path::PathBuf>,
    tls_client_ca: &'a Option<std::path::PathBuf>,
) -> (r: Result<Option<ServerTls<'a>>, String>)
    ensures
        match r {
            Ok(None) => tls_cert is None && tls_key is None && tls_client_ca is None,
            Ok(Some(files)) => *tls_cert == Some(*files.cert) && *tls_key == Some(*files.key)
                && match files.client_ca {
                Some(ca) => *tls_client_ca == Some(*ca),
                None => tls_client_ca is None,
            },
            Err(line) => if tls_cert is None && tls_key is None {
                tls_client_ca is Some && line@
                    == "--tls-client-ca requires --tls-cert and --tls-key"@
            } else {
                (tls_cert is None || tls_key is None) && line@
                    == "--tls-cert and --tls-key must be provided together"@
            },
        },
{
    match (tls_cert, tls_key) {
        (None, None) => if tls_client_ca.is_some() {
            Err(String::from_str("--tls-client-ca requires --tls-cert and --tls-key"))
        } else {
            Ok(None)
        },
        (Some(cert), Some(key)) => {
            let client_ca = match tls_client_ca {
                Some(ca) => Some(ca),
                None => None,
            };
            Ok(Some(ServerTls { cert, key, client_ca }))
        },
        _ => Err(String::from_str("--tls-cert and --tls-key must be provided together")),
    }
}

/// A file that was read: its path as it is shown, and its bytes or how reading it failed.
#[derive(Debug)]
pub struct FileRead {
    pub shown: String,
    pub bytes: Result<Vec<u8>, String>,
}

impl FileRead {
    /// What is said of a file that could not be read, and why.
    pub open spec fn failure(self) -> Option<(Seq<char>, Seq<char>)> {
        match self.bytes {
            Ok(_) => None,
            Err(cause) => Some(("read "@ + self.shown@, cause@)),
        }
    }

    /// The file's bytes; else what is said of it, and why.
    fn loaded(self) -> (r: Result<Vec<u8>, (String, String)>)
        ensures
            match r {
                Ok(bytes) => self.bytes == Ok::<Vec<u8>, String>(bytes),
                Err((line, cause)) => self.failure() == Some((line@, cause@)),
            },
    {
        match self.bytes {
            Ok(bytes) => Ok(bytes),
            Err(cause) => Err((joined("read ", self.shown.as_str()), cause)),
        }
    }
}

/// A certificate with its key, and an authority where there is one, as the files hold them.
#[derive(Debug)]
pub struct PemFiles {
    pub cert: Vec<u8>,
    pub key: Vec<u8>,
    pub ca: Option<Vec<u8>>,
}

impl PemFiles {
    /// True of what the files hold, all of them read.
    pub open spec fn read_from(self, cert: FileRead, key: FileRead, ca: Option<FileRead>) -> bool {
        &&& cert.bytes == Ok::<Vec<u8>, String>(self.cert)
        &&& key.bytes == Ok::<Vec<u8>, String>(self.key)
        &&& match (ca, self.ca) {
            (Some(file), Some(bytes)) => file.bytes == Ok::<Vec<u8>, String>(bytes),
            (None, None) => true,
            _ => false,
        }
    }
}

/// What is said of the first file that could not be read, where there is one: the certificate's,
/// then the key's, then the authority's.
pub open spec fn first_failure(cert: FileRead, key: FileRead, ca: Option<FileRead>) -> Option<
    (Seq<char>, Seq<char>),
> {
    if cert.failure() is Some {
        cert.failure()
    } else if key.failure() is Some {
        key.failure()
    } else {
        match ca {
            Some(file) => file.failure(),
            None => None,
        }
    }
}

/// What the files hold; else what is said of the first that could not be read, and why.
pub fn read_pem(cert: FileRead, key: FileRead, ca: Option<FileRead>) -> (r: Result<
    PemFiles,
    (String, String),
>)
    ensures
        match r {
            Ok(pem) => first_failure(cert, key, ca) is None && pem.read_from(cert, key, ca),
            Err((line, cause)) => first_failure(cert, key, ca) == Some((line@, cause@)),
        },
{
    let cert = match cert.loaded() {
        Ok(bytes) => bytes,
        Err(failed) => {
            return Err(failed);
        },
    };
    let key = match key.loaded() {
        Ok(bytes) => bytes,
        Err(failed) => {
            return Err(failed);
        },
    };
    let ca = match ca {
        Some(file) => match file.loaded() {
            Ok(bytes) => Some(bytes),
            Err(failed) => {
                return Err(failed);
            },
        },
        None => None,
    };
    Ok(PemFiles { cert, key, ca })
}

/// Builds a server's acceptor with `tonic::transport::Server::tls_config`, for a certificate and
/// its key, and drops it. Nothing is claimed of the outcome: it rests on the cryptography that the
/// process has chosen as well as on the bytes. An error is given as its text, with those of the
/// errors behind it.
#[verifier::external_body]
fn build_acceptor(cert: &Vec<u8>, key: &Vec<u8>) -> (r: Result<(), String>) {
    let identity = tonic::transport::Identity::from_pem(cert, key);
    let config = tonic::transport::ServerTlsConfig::new().identity(identity);
    match tonic::transport::Server::builder().tls_config(config) {
        Ok(_) => Ok(()),
        Err(error) => Err(format!("{:#}", anyhow::Error::new(error))),
    }
}

/// Builds a server's acceptor with `tonic::transport::Server::tls_config`, for a certificate, its
/// key and the authority that clients' certificates are checked against, and drops it. Nothing is
/// claimed of the outcome, as with [`build_acceptor`].
#[verifier::external_body]
fn build_mutual_acceptor(cert: &Vec<u8>, key: &Vec<u8>, ca: &Vec<u8>) -> (r: Result<(), String>) {
    let identity = tonic::transport::Identity::from_pem(cert, key);
    let authority = tonic::transport::Certificate::from_pem(ca);
    let config = tonic::transport::ServerTlsConfig::new().identity(identity);
    match tonic::transport::Server::builder().tls_config(config.client_ca_root(authority)) {
        Ok(_) => Ok(()),
        Err(error) => Err(format!("{:#}", anyhow::Error::new(error))),
    }
}

/// What is said of building the client-facing server's acceptor: nothing where it was built, else
/// that the configuration is invalid, and why.
pub fn tried_out(built: Result<(), String>) -> (r: Result<(), (String, String)>)
    ensures
        match (built, r) {
            (Ok(_), Ok(_)) => true,
            (Err(cause), Err(failed)) => failed.0@ == "invalid client-API TLS configuration"@
                && failed.1 == cause,
            _ => false,
        },
{
    match built {
        Ok(_) => Ok(()),
        Err(cause) => Err((String::from_str("invalid client-API TLS configuration"), cause)),
    }
}

/// True of what building an acceptor from the files came to: with the authority for clients where
/// the files hold one.
pub closed spec fn acceptor_tried(pem: PemFiles, built: Result<(), String>) -> bool {
    match pem.ca {
        Some(ca) => call_ensures(build_mutual_acceptor, (&pem.cert, &pem.key, &ca), built),
        None => call_ensures(build_acceptor, (&pem.cert, &pem.key), built),
    }
}

/// True where no acceptor could be built from what the files hold, for this reason.
pub open spec fn acceptor_failed(
    cert: FileRead,
    key: FileRead,
    ca: Option<FileRead>,
    cause: String,
) -> bool {
    exists|pem: PemFiles| #[trigger]
        acceptor_tried(pem, Err(cause)) && pem.read_from(cert, key, ca)
}

/// What the client-facing server's files hold, tried out: a server would apply them only after it
/// has announced itself, so a file that cannot be read, and one that no acceptor can be built from,
/// is reported here. Whether an acceptor can be built rests on more than the files; what is said of
/// each outcome is [`tried_out`].
pub fn server_pem(cert: FileRead, key: FileRead, client_ca: Option<FileRead>) -> (r: Result<
    PemFiles,
    (String, String),
>)
    ensures
        match r {
            Ok(pem) => first_failure(cert, key, client_ca) is None && pem.read_from(
                cert,
                key,
                client_ca,
            ) && acceptor_tried(pem, Ok(())),
            Err((line, cause)) => match first_failure(cert, key, client_ca) {
                Some(failed) => failed == (line@, cause@),
                None => line@ == "invalid client-API TLS configuration"@ && acceptor_failed(
                    cert,
                    key,
                    client_ca,
                    cause,
                ),
            },
        },
{
    let pem = match read_pem(cert, key, client_ca) {
        Ok(pem) => pem,
        Err(failed) => {
            return Err(failed);
        },
    };
    let with_authority = build_mutual_acceptor;
    let without = build_acceptor;
    let built = match &pem.ca {
        Some(ca) => with_authority(&pem.cert, &pem.key, ca),
        None => without(&pem.cert, &pem.key),
    };
    assert(acceptor_tried(pem, built));
    assert(built is Ok ==> built->Ok_0 == ());
    match tried_out(built) {
        Ok(_) => Ok(pem),
        Err(failed) => Err(failed),
    }
}

/// Three files make a configuration exactly where all are given, each in its own place; none make
/// plaintext, and anything in between is refused. So for peers, for the admin server and for whoever
/// calls it.
pub proof fn law_three_files_or_none(
    cert: Option<std::path::PathBuf>,
    key: Option<std::path::PathBuf>,
    ca: Option<std::path::PathBuf>,
    peer: Result<Option<PeerTlsConfig>, String>,
    admin: Result<Option<AdminTlsConfig>, String>,
    args: &AdminClientTlsArgs,
    caller: Result<Option<AdminClientTls<'_>>, String>,
)
    requires
        call_ensures(peer_tls_config, (cert, key, ca), peer),
        call_ensures(admin_tls_config, (cert, key, ca), admin),
        args.client_tls_cert == cert && args.client_tls_key == key && args.client_tls_ca == ca,
        call_ensures(admin_client_tls, (args,), caller),
    ensures
        ({
            let all = cert is Some && key is Some && ca is Some;
            let none = cert is None && key is None && ca is None;
            &&& peer is Ok <==> all || none
            &&& admin is Ok <==> all || none
            &&& caller is Ok <==> all || none
            &&& all ==> (peer matches Ok(Some(files)) && files.cert == cert->0 && files.key
                == key->0 && files.ca == ca->0)
            &&& all ==> (admin matches Ok(Some(files)) && files.cert == cert->0 && files.key
                == key->0 && files.ca == ca->0)
            &&& all ==> (caller matches Ok(Some(files)) && *files.cert == cert->0 && *files.key
                == key->0 && *files.ca == ca->0)
            &&& none ==> peer == Ok::<Option<PeerTlsConfig>, String>(None)
            &&& none ==> admin == Ok::<Option<AdminTlsConfig>, String>(None)
            &&& none ==> (caller matches Ok(None))
            &&& peer matches Err(line) ==> line@
                == "--peer-tls-cert, --peer-tls-key, and --peer-tls-ca must all be set together"@
            &&& admin matches Err(line) ==> line@
                == "--admin-tls-cert, --admin-tls-key, and --admin-tls-ca must all be set together"@
            &&& caller matches Err(line) ==> line@
                == "--client-tls-cert, --client-tls-key, and --client-tls-ca must all be set together"@
        }),
{
}

/// The client-facing server has TLS exactly where certificate and key are given, and asks clients for
/// certificates exactly where an authority is too; one of the two alone is refused, and so is an
/// authority without them.
pub proof fn law_certificate_and_key_together(
    cert: &Option<std::path::PathBuf>,
    key: &Option<std::path::PathBuf>,
    client_ca: &Option<std::path::PathBuf>,
    chosen: Result<Option<ServerTls<'_>>, String>,
)
    requires
        call_ensures(client_tls_config, (cert, key, client_ca), chosen),
    ensures
        chosen is Ok <==> (cert is Some && key is Some) || (cert is None && key is None
            && client_ca is None),
        chosen matches Ok(Some(files)) ==> *cert == Some(*files.cert) && *key == Some(*files.key)
            && (files.client_ca is Some <==> client_ca is Some) && (files.client_ca matches Some(
            ca,
        ) ==> *client_ca == Some(*ca)),
        chosen matches Ok(None) ==> cert is None && key is None && client_ca is None,
        chosen matches Err(line) ==> line@ == if cert is None && key is None {
            "--tls-client-ca requires --tls-cert and --tls-key"@
        } else {
            "--tls-cert and --tls-key must be provided together"@
        },
{
}

/// Files are read together exactly where each of them was, and hold then what each holds; else the
/// first that was not, in the order certificate, key, authority, is named with its cause. What the
/// server's files hold comes out alike where an acceptor could be built from them.
pub proof fn law_what_the_files_hold(
    cert: FileRead,
    key: FileRead,
    ca: Option<FileRead>,
    read: Result<PemFiles, (String, String)>,
    served: Result<PemFiles, (String, String)>,
)
    requires
        call_ensures(read_pem, (cert, key, ca), read),
        call_ensures(server_pem, (cert, key, ca), served),
    ensures
        read is Ok <==> cert.bytes is Ok && key.bytes is Ok && (ca is Some ==> ca->0.bytes is Ok),
        read matches Ok(pem) ==> cert.bytes == Ok::<Vec<u8>, String>(pem.cert) && key.bytes == Ok::<
            Vec<u8>,
            String,
        >(pem.key) && (pem.ca is Some <==> ca is Some) && (pem.ca matches Some(bytes)
            ==> ca->0.bytes == Ok::<Vec<u8>, String>(bytes)),
        read matches Err((line, cause)) ==> {
            let failed = if cert.bytes is Err {
                cert
            } else if key.bytes is Err {
                key
            } else {
                ca->0
            };
            line@ == "read "@ + failed.shown@ && failed.bytes is Err && cause@
                == failed.bytes->Err_0@
        },
        served matches Ok(pem) ==> served == read && acceptor_tried(pem, Ok(())),
        read is Ok ==> (served matches Err((_, cause)) ==> acceptor_tried(read->Ok_0, Err(cause))),
        read matches Err((line, cause)) ==> (served matches Err((same, why)) && same@ == line@
            && why@ == cause@),
        read is Ok ==> (served matches Err((line, _)) ==> line@
            == "invalid client-API TLS configuration"@),
{
}

/// What is said of an acceptor that could not be built, and why.
pub proof fn law_what_is_said_of_an_acceptor(
    built: Result<(), String>,
    said: Result<(), (String, String)>,
)
    requires
        call_ensures(tried_out, (built,), said),
    ensures
        said is Ok <==> built is Ok,
        said matches Err((line, cause)) ==> line@ == "invalid client-API TLS configuration"@
            && built == Err::<(), String>(cause),
{
}

} // verus!
