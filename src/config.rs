//! The content source's public configuration and where it is cached.
use vstd::prelude::*;
use base64::Engine;
use vstd::utf8::{decode_utf8, valid_utf8};
use crate::catalog::{join_path, join_path_exec};

verus! {

/// Address of the content source and the shared decryption password.
#[derive(Debug, Clone, PartialEq, Default)]
pub struct PublicConfig {
    pub base_uri: String,
    pub password: String,
}

/// Why a configuration document was refused.
#[derive(Debug)]
pub enum ConfigError {
    /// The password field is not a string.
    InvalidFormat,
    /// The password field is not valid base64.
    Base64Error,
    /// The decoded password is not UTF-8.
    Utf8Error,
}

/// What `base64::engine::general_purpose::STANDARD.decode` makes of a
/// string: its bytes, or `None` where it refuses the input.
pub uninterp spec fn base64_decoded(s: Seq<char>) -> Option<Seq<u8>>;

/// Relies on `base64`'s standard engine `decode`: the decoded bytes, or an
/// error for input that is not padded standard base64.
#[verifier::external_body]
fn base64_decode(s: &str) -> (r: Option<Vec<u8>>)
    ensures
        r is Some <==> base64_decoded(s@) is Some,
        r matches Some(v) ==> base64_decoded(s@) == Some(v@),
{
    base64::engine::general_purpose::STANDARD.decode(s).ok()
}

/// Relies on `String::from_utf8`: the text of the bytes when they are
/// valid UTF-8, else an error.
#[verifier::external_body]
fn utf8_text(b: Vec<u8>) -> (r: Option<String>)
    ensures
        r is Some <==> valid_utf8(b@),
        r matches Some(s) ==> s@ == decode_utf8(b@),
{
    String::from_utf8(b).ok()
}

impl PublicConfig {
    /// The configuration from the fields of its document: `baseUri` as it
    /// stands (empty when absent) and `password` decoded from base64 (an
    /// absent password reads as empty).
    pub fn from_fields(base_uri: Option<&str>, raw_password: Option<&str>) -> (r: Result<
        PublicConfig,
        ConfigError,
    >)
        ensures
            ({
                let raw = match raw_password {
                    Some(p) => p@,
                    None => Seq::<char>::empty(),
                };
                match base64_decoded(raw) {
                    None => r matches Err(ConfigError::Base64Error),
                    Some(bytes) => if valid_utf8(bytes) {
                        r matches Ok(c) && c.password@ == decode_utf8(bytes) && c.base_uri@ == match base_uri {
                            Some(b) => b@,
                            None => Seq::<char>::empty(),
                        }
                    } else {
                        r matches Err(ConfigError::Utf8Error)
                    },
                }
            }),
    {
        let raw = match raw_password {
            Some(p) => p,
            None => "",
        };
        proof {
            reveal_strlit("");
            assert(""@ =~= Seq::<char>::empty());
        }
        let bytes = match base64_decode(raw) {
            Some(b) => b,
            None => {
                return Err(ConfigError::Base64Error);
            },
        };
        let password = match utf8_text(bytes) {
            Some(s) => s,
            None => {
                return Err(ConfigError::Utf8Error);
            },
        };
        let base = match base_uri {
            Some(b) => b.to_owned(),
            None => String::new(),
        };
        Ok(PublicConfig { base_uri: base, password })
    }
}

/// Where the configuration document is cached.
pub struct ConfigService {
    cache_dir: String,
}

impl ConfigService {
    pub closed spec fn cache_dir_view(&self) -> Seq<char> {
        self.cache_dir@
    }

    pub fn new(cache_dir: &str) -> (r: Self)
        ensures
            r.cache_dir_view() == cache_dir@,
    {
        ConfigService { cache_dir: cache_dir.to_owned() }
    }

    /// The cached configuration file.
    pub fn cache_path(&self) -> (r: String)
        ensures
            r@ == join_path(self.cache_dir_view(), "vrp-public.json"@),
    {
        join_path_exec(self.cache_dir.as_str(), "vrp-public.json")
    }
}

} // verus!
