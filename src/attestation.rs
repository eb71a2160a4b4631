//! Attestation reports over a configuration digest.
use vstd::prelude::*;
use vstd::utf8::encode_utf8;
use vstd::string::StringExecFns;
use crate::clock::unix_now_secs;
use crate::crypto::{sha256, sha256_of};
use crate::error::Error;
use crate::VERSION;

verus! {

/// A quote over 64 bytes of report data.
#[derive(Debug, Clone)]
pub struct TdxQuote {
    /// The quote as produced by the quoting backend.
    pub quote_data: Vec<u8>,
    /// Report data the quote covers.
    pub report_data: [u8; 64],
    /// Seconds since the Unix epoch when the quote was taken.
    pub timestamp: u64,
}

/// What a relayer shows others about itself.
#[derive(Debug, Clone)]
pub struct AttestationReport {
    /// The quote.
    pub quote: TdxQuote,
    /// Relayer version.
    pub fisher_version: String,
    /// Digest of the configuration.
    pub config_hash: [u8; 32],
    /// Public key for encrypted intents; empty while no key pair exists.
    pub public_key: Vec<u8>,
}

/// Produces and checks attestation reports when switched on.
pub struct AttestationManager {
    enabled: bool,
}

/// The quote returned by the development backend.
pub open spec fn development_quote() -> Seq<u8> {
    seq![0xDEu8, 0xADu8, 0xBEu8, 0xEFu8]
}

/// Report data over a configuration digest: the digest, then the SHA-256 of the
/// version string.
pub open spec fn report_data_spec(config_hash: Seq<u8>) -> Seq<u8> {
    config_hash + sha256_of(encode_utf8(VERSION@))
}

impl AttestationManager {
    /// Whether the manager is switched on.
    pub closed spec fn is_enabled(&self) -> bool {
        self.enabled
    }

    /// A manager, switched on or off.
    pub fn new(enabled: bool) -> (m: Self)
        ensures
            m.is_enabled() == enabled,
    {
        AttestationManager { enabled }
    }

    /// A report over `config_hash`: an `Attestation` error when switched off;
    /// otherwise the report carries the digest, the version, an empty public
    /// key, and a quote over `report_data_spec(config_hash)` taken now.
    pub fn generate_report(&self, config_hash: [u8; 32]) -> (r: Result<AttestationReport, Error>)
        ensures
            r.is_ok() == self.is_enabled(),
            r matches Err(e) ==> e is Attestation,
            r matches Ok(rep) ==> {
                &&& rep.quote.report_data@ == report_data_spec(config_hash@)
                &&& rep.quote.quote_data@ == development_quote()
                &&& rep.fisher_version@ == VERSION@
                &&& rep.config_hash == config_hash
                &&& rep.public_key@.len() == 0
            },
    {
        if !self.enabled {
            return Err(Error::Attestation(String::from_str("Attestation not enabled")));
        }
        let report_data = self.prepare_report_data(&config_hash);
        let quote_data = match self.get_tdx_quote(&report_data) {
            Ok(q) => q,
            Err(e) => return Err(e),
        };
        Ok(AttestationReport {
            quote: TdxQuote { quote_data, report_data, timestamp: unix_now_secs() },
            fisher_version: String::from_str(VERSION),
            config_hash,
            public_key: Vec::new(),
        })
    }

    /// The 64 bytes of report data over `config_hash`.
    fn prepare_report_data(&self, config_hash: &[u8; 32]) -> (r: [u8; 64])
        ensures
            r@ == report_data_spec(config_hash@),
    {
        let version_hash = sha256(VERSION.as_bytes());
        let mut report_data = [0u8; 64];
        let mut i: usize = 0;
        while i < 64
            invariant
                i <= 64,
                report_data@.len() == 64,
                version_hash@.len() == 32,
                forall|j: int|
                    0 <= j < i ==> #[trigger] report_data@[j] == if j < 32 {
                        config_hash@[j]
                    } else {
                        version_hash@[j - 32]
                    },
            decreases 64 - i,
        {
            if i < 32 {
                report_data[i] = config_hash[i];
            } else {
                report_data[i] = version_hash[i - 32];
            }
            i = i + 1;
        }
        assert(report_data@ =~= config_hash@ + version_hash@);
        report_data
    }

    /// A quote over `report_data` from the development backend, which returns a
    /// fixed marker.
    fn get_tdx_quote(&self, report_data: &[u8; 64]) -> (r: Result<Vec<u8>, Error>)
        ensures
            r matches Ok(q) && q@ == development_quote(),
    {
        Ok(vec![0xDEu8, 0xADu8, 0xBEu8, 0xEFu8])
    }

    /// Checks another relayer's report; quote verification is not available,
    /// so every report is accepted.
    pub fn verify_attestation(&self, report: &AttestationReport) -> (r: Result<bool, Error>)
        ensures
            r == Ok::<bool, Error>(true),
    {
        Ok(true)
    }
}

} // verus!
