//! Process configuration and the credential store.
//!
//! A `Config` holds the run mode, the listen and upstream addresses, the
//! TLS material paths, and the accepted credentials.  Each configured
//! password is hashed once at construction: the store keeps the lowercase
//! hex encoding of its SHA-224 digest, and `hash_pwd` answers membership
//! against those bytes.

use crate::utility::vec_u8_eq;
use sha2::Digest;
use vstd::prelude::*;
use vstd::string::StrSliceExecFns;
use vstd::utf8::encode_utf8;

verus! {

/// The two run modes of the process.
#[derive(Clone, Copy, Debug, PartialEq, Eq, Structural)]
pub enum RunType {
    Server,
    Client,
}

/// TLS certificate and private-key file paths.
pub struct Tls {
    cert: String,
    key: String,
}

/// Mathematical form of a [`Tls`].
#[verifier::ext_equal]
pub struct TlsView {
    pub cert: Seq<char>,
    pub key: Seq<char>,
}

impl View for Tls {
    type V = TlsView;

    closed spec fn view(&self) -> TlsView {
        TlsView { cert: self.cert@, key: self.key@ }
    }
}

impl Tls {
    /// TLS material with the given certificate and key paths.
    pub fn new(cert: String, key: String) -> (r: Tls)
        ensures
            r@ == (TlsView { cert: cert@, key: key@ }),
    {
        Tls { cert, key }
    }
}

/// The full configuration, with passwords already hashed.
pub struct Config {
    run_type: String,
    local_addr: String,
    local_port: u16,
    remote_addr: String,
    remote_port: u16,
    password: Vec<Vec<u8>>,
    log_level: u8,
    tls: Tls,
}

/// Mathematical form of a [`Config`].
#[verifier::ext_equal]
pub struct ConfigView {
    pub run_type: Seq<char>,
    pub local_addr: Seq<char>,
    pub local_port: u16,
    pub remote_addr: Seq<char>,
    pub remote_port: u16,
    pub password: Seq<Seq<u8>>,
    pub log_level: u8,
    pub tls: TlsView,
}

impl View for Config {
    type V = ConfigView;

    closed spec fn view(&self) -> ConfigView {
        ConfigView {
            run_type: self.run_type@,
            local_addr: self.local_addr@,
            local_port: self.local_port,
            remote_addr: self.remote_addr@,
            remote_port: self.remote_port,
            password: Seq::new(self.password@.len(), |i: int| self.password@[i]@),
            log_level: self.log_level,
            tls: self.tls@,
        }
    }
}

/// The lowercase hex digit for a value below sixteen, as an ASCII byte.
pub open spec fn hex_digit(n: u8) -> u8 {
    if n < 10 {
        (48 + n) as u8
    } else {
        (87 + n) as u8
    }
}

/// The lowercase hex encoding of a byte sequence: two digits per byte,
/// high nibble first.
pub open spec fn hex_bytes(s: Seq<u8>) -> Seq<u8> {
    Seq::new(
        2 * s.len(),
        |i: int|
            if i % 2 == 0 {
                hex_digit(s[i / 2] / 16)
            } else {
                hex_digit(s[i / 2] % 16)
            },
    )
}

/// The lowercase hex encoding of `bytes`.
pub fn to_hex(bytes: &Vec<u8>) -> (r: Vec<u8>)
    ensures
        r@ == hex_bytes(bytes@),
{
    let mut out: Vec<u8> = Vec::new();
    let mut i: usize = 0;
    while i < bytes.len()
        invariant
            i <= bytes@.len(),
            out@.len() == 2 * i,
            forall|k: int| 0 <= k < out@.len() ==> out@[k] == hex_bytes(bytes@)[k],
        decreases bytes@.len() - i,
    {
        let b: u8 = bytes[i];
        let hi: u8 = b / 16;
        let lo: u8 = b % 16;
        out.push(if hi < 10 { 48 + hi } else { 87 + hi });
        out.push(if lo < 10 { 48 + lo } else { 87 + lo });
        proof {
            assert(hex_bytes(bytes@)[2 * i] == hex_digit(hi));
            assert(hex_bytes(bytes@)[2 * i + 1] == hex_digit(lo));
        }
        i = i + 1;
    }
    proof {
        assert(out@ =~= hex_bytes(bytes@));
    }
    out
}

/// What the SHA-224 digest of a byte sequence is.  The digest is a pure
/// function of the input; its value is fixed by the outside hash
/// implementation.
pub uninterp spec fn sha224_of(data: Seq<u8>) -> Seq<u8>;

/// Relies on `sha2::Sha224`: the digest depends on the input bytes alone
/// and is 28 bytes long.
#[verifier::external_body]
fn sha224_digest(data: &Vec<u8>) -> (r: Vec<u8>)
    ensures
        r@ == sha224_of(data@),
        r@.len() == 28,
{
    let mut hash = sha2::Sha224::new();
    hash.update(data.as_slice());
    hash.finalize().to_vec()
}

/// The stored form of one configured password: the lowercase hex encoding
/// of the SHA-224 digest of its text.
pub open spec fn hashed_password(pwd: Seq<char>) -> Seq<u8> {
    hex_bytes(sha224_of(encode_utf8(pwd)))
}

/// Whether `pwd` is one of the credentials in `passwords`.
pub open spec fn credential_known(passwords: Seq<Seq<u8>>, pwd: Seq<u8>) -> bool {
    exists|i: int| 0 <= i < passwords.len() && passwords[i] == pwd
}

impl Config {
    /// A configuration from its raw fields.  Every configured password is
    /// hashed here, once: the store keeps only digest encodings.
    pub fn new(
        run_type: String,
        local_addr: String,
        local_port: u16,
        remote_addr: String,
        remote_port: u16,
        password: Vec<String>,
        log_level: u8,
        tls: Tls,
    ) -> (r: Config)
        ensures
            r@.run_type == run_type@,
            r@.local_addr == local_addr@,
            r@.local_port == local_port,
            r@.remote_addr == remote_addr@,
            r@.remote_port == remote_port,
            r@.log_level == log_level,
            r@.tls == tls@,
            r@.password.len() == password@.len(),
            forall|i: int|
                0 <= i < password@.len() ==> r@.password[i] == hashed_password(password@[i]@),
    {
        let mut hashed: Vec<Vec<u8>> = Vec::new();
        let mut i: usize = 0;
        while i < password.len()
            invariant
                i <= password@.len(),
                hashed@.len() == i,
                forall|j: int| 0 <= j < i ==> hashed@[j]@ == hashed_password(password@[j]@),
            decreases password@.len() - i,
        {
            let bytes = password[i].as_str().as_bytes_vec();
            let digest = sha224_digest(&bytes);
            let hex = to_hex(&digest);
            hashed.push(hex);
            i = i + 1;
        }
        let r = Config {
            run_type,
            local_addr,
            local_port,
            remote_addr,
            remote_port,
            password: hashed,
            log_level,
            tls,
        };
        proof {
            assert forall|i2: int| 0 <= i2 < password@.len() implies r@.password[i2]
                == hashed_password(password@[i2]@) by {
                assert(r@.password[i2] == r.password@[i2]@);
            }
        }
        r
    }

    /// The run mode the configuration names, or an error for any other
    /// mode string.
    pub fn run_type(&self) -> (r: Result<RunType, ()>)
        ensures
            self@.run_type == "Server"@ ==> r == Ok::<RunType, ()>(RunType::Server),
            self@.run_type == "Client"@ ==> r == Ok::<RunType, ()>(RunType::Client),
            self@.run_type != "Server"@ && self@.run_type != "Client"@ ==> r == Err::<
                RunType,
                (),
            >(()),
    {
        proof {
            reveal_strlit("Server");
            reveal_strlit("Client");
            assert("Server"@[0] != "Client"@[0]);
        }
        let server: String = "Server".to_owned();
        if self.run_type == server {
            return Ok(RunType::Server);
        }
        let client: String = "Client".to_owned();
        if self.run_type == client {
            return Ok(RunType::Client);
        }
        Err(())
    }

    /// The local listen host and port.
    pub fn local_host(&self) -> (r: (String, u16))
        ensures
            r.0@ == self@.local_addr,
            r.1 == self@.local_port,
    {
        (self.local_addr.clone(), self.local_port)
    }

    /// The default upstream host and port.
    pub fn remote_host(&self) -> (r: (String, u16))
        ensures
            r.0@ == self@.remote_addr,
            r.1 == self@.remote_port,
    {
        (self.remote_addr.clone(), self.remote_port)
    }

    /// Whether `pwd` matches one of the stored credential digests.
    pub fn hash_pwd(&self, pwd: &Vec<u8>) -> (r: bool)
        ensures
            r == credential_known(self@.password, pwd@),
    {
        let mut i: usize = 0;
        while i < self.password.len()
            invariant
                i <= self@.password.len(),
                self@.password.len() == self.password@.len(),
                forall|j: int| 0 <= j < i ==> self@.password[j] != pwd@,
            decreases self@.password.len() - i,
        {
            if vec_u8_eq(&self.password[i], pwd) {
                proof {
                    assert(self@.password[i as int] == pwd@);
                }
                return true;
            }
            proof {
                assert(self@.password[i as int] == self.password@[i as int]@);
            }
            i = i + 1;
        }
        false
    }

    /// The TLS certificate file path.
    pub fn tls_cert(&self) -> (r: String)
        ensures
            r@ == self@.tls.cert,
    {
        self.tls.cert.clone()
    }

    /// The TLS private-key file path.
    pub fn tls_key(&self) -> (r: String)
        ensures
            r@ == self@.tls.key,
    {
        self.tls.key.clone()
    }
}

} // verus!
