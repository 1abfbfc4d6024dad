//! Configuration.

use vstd::prelude::*;

use crate::text;
use crate::text::nat_text;

verus! {

/// The configuration of a standalone registry.
#[derive(Debug, Clone)]
pub struct Config {
    /// Host to listen on (default: 0.0.0.0)
    pub host: String,
    /// Port to listen on (default: 5000)
    pub port: u16,
    /// S3 bucket name (required)
    pub s3_bucket: String,
    /// S3 region (default: us-east-1)
    pub s3_region: String,
    /// Custom S3 endpoint URL, for Cloudflare R2 or MinIO.
    /// E.g.: https://<account>.r2.cloudflarestorage.com
    pub s3_endpoint: Option<String>,
    /// Optional public base URL for R2/S3 bucket (enables direct URL redirects).
    /// E.g.: https://registry-assets.example.com
    /// When set, blob GET requests redirect here instead of using presigned URLs.
    pub s3_public_url: Option<String>,
    /// Presigned URL expiry seconds (default: 3600)
    pub presign_ttl_secs: u64,
    /// SQLite database path (default: ./yatch.db)
    pub db_path: String,
    /// Optional static Bearer token for authentication.
    /// If set, all requests require `Authorization: Bearer <token>`.
    pub auth_token: Option<String>,
    /// Log level (default: info)
    pub log_level: String,
}

impl Config {
    /// The address to listen on.
    pub fn listen_address(&self) -> (res: String)
        ensures
            res@ == self.host@ + ":"@ + text::decimal(self.port as int),
    {
        let mut res = self.host.clone();
        let port = nat_text(self.port as u64);
        res.append(":");
        res.append(&port);
        res
    }
}

/// The address to listen on is the host and, after a colon, the port in digits.
pub proof fn law_listen_address(config: Config, address: String)
    requires
        call_ensures(Config::listen_address, (&config,), address),
    ensures
        address@.len() > config.host@.len(),
        address@.take(config.host@.len() as int) == config.host@,
        address@[config.host@.len() as int] == ':',
        text::writes(address@.skip((config.host@.len() + 1) as int), config.port as int),
{
    reveal_strlit(":");
    text::law_decimal_writes(config.port as int);
    assert(address@.take(config.host@.len() as int) =~= config.host@);
    assert(address@.skip((config.host@.len() + 1) as int) =~= text::decimal(
        config.port as int,
    ));
}

/// The host to listen on where none is given.
pub fn default_host() -> (res: String)
    ensures
        res@ == "0.0.0.0"@,
{
    "0.0.0.0".to_owned()
}

/// The port to listen on where none is given.
pub fn default_port() -> (res: u16)
    ensures
        res == 5000,
{
    5000
}

/// The region where none is given.
pub fn default_region() -> (res: String)
    ensures
        res@ == "us-east-1"@,
{
    "us-east-1".to_owned()
}

/// The lifetime of presigned URLs, in seconds, where none is given.
pub fn default_presign_ttl() -> (res: u64)
    ensures
        res == 3600,
{
    3600
}

/// The path of the database where none is given.
pub fn default_db_path() -> (res: String)
    ensures
        res@ == "./yatch.db"@,
{
    "./yatch.db".to_owned()
}

/// The log level where none is given.
pub fn default_log_level() -> (res: String)
    ensures
        res@ == "info"@,
{
    "info".to_owned()
}

} // verus!
