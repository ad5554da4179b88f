//! Connection-level configuration of a Celeborn client.

use vstd::prelude::*;
use vstd::string::*;

use crate::text::to_uppercase;

verus! {

/// Connection-level configuration used to construct a Celeborn client.
///
/// Per-shuffle metadata such as the number of mappers is registered with the
/// connected client instead, so that one client serves many shuffles.
#[derive(Clone, Debug)]
pub struct CelebornClientConfig {
    /// LifecycleManager hostname or IP address.
    pub lm_host: String,
    /// LifecycleManager port.
    pub lm_port: i32,
    /// Application-level identifier; usually the query or session id.
    pub app_id: String,
    /// Compression codec for shuffle blocks. One of `"lz4" | "zstd" | "none"`.
    pub compression: String,
}

impl Default for CelebornClientConfig {
    fn default() -> (r: Self)
        ensures
            r.lm_host@ == Seq::<char>::empty(),
            r.lm_port == 0,
            r.app_id@ == Seq::<char>::empty(),
            r.compression@ == "lz4"@,
    {
        Self {
            lm_host: String::new(),
            lm_port: 0,
            app_id: String::new(),
            compression: String::from_str("lz4"),
        }
    }
}

/// What the native client is given to connect with.
#[derive(Debug)]
pub struct ConnectRequest {
    pub app_id: String,
    /// The size of the native push buffer; zero selects the native default.
    pub push_buffer_max_size: i32,
    /// The codec name as the native client spells it.
    pub shuffle_compression_codec: String,
    pub lm_host: String,
    pub lm_port: i32,
}

impl CelebornClientConfig {
    /// What the native client is given to connect with. The codec name is passed on
    /// in upper case.
    pub fn connect_request(&self) -> (r: ConnectRequest)
        ensures
            r.app_id@ == self.app_id@,
            r.push_buffer_max_size == 0,
            r.shuffle_compression_codec@ == crate::text::uppercase(self.compression@),
            vstd::utf8::is_ascii_chars(self.compression@) ==> r.shuffle_compression_codec@
                == self.compression@.map_values(|c: char| crate::text::ascii_upper(c)),
            r.lm_host@ == self.lm_host@,
            r.lm_port == self.lm_port,
    {
        ConnectRequest {
            app_id: self.app_id.clone(),
            push_buffer_max_size: 0,
            shuffle_compression_codec: to_uppercase(self.compression.as_str()),
            lm_host: self.lm_host.clone(),
            lm_port: self.lm_port,
        }
    }
}

/// The native client is given the application, the host and the port as they are
/// configured, its own default for the push buffer, and the codec in upper case.
pub proof fn law_connection_follows_configuration(config: CelebornClientConfig, r: ConnectRequest)
    requires
        call_ensures(CelebornClientConfig::connect_request, (&config,), r),
    ensures
        r.app_id@ == config.app_id@,
        r.lm_host@ == config.lm_host@,
        r.lm_port == config.lm_port,
        r.push_buffer_max_size == 0,
        r.shuffle_compression_codec@ == crate::text::uppercase(config.compression@),
{
}

} // verus!
