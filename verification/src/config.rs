//! The config file and its codec.
//!
//! The config file is UTF-8 JSON with a fixed schema and a canonical pretty
//! layout. Both directions of the codec are verified here, down to the
//! bytes: encoding escapes string fields and lays the document out
//! canonically, and reading accepts the schema in any member order with
//! whitespace anywhere between tokens — the canonical layout through a
//! direct recognizer, everything else through a general reader. Reading a
//! config that does not exist yields the documented default together with
//! the bytes to persist for it. The surrounding application only moves the
//! bytes to and from disk.

use vstd::prelude::*;
use vstd::string::StringSliceAdditionalSpecFns;

use crate::byteseq::bytes_eq;
use vstd::utf8::{decode_utf8, encode_utf8, valid_utf8};

verus! {

/// Connection settings for the GPU server.
pub struct GpuServerConfig {
    pub host: String,
    pub port: u16,
    pub use_ssl: bool,
}

/// API keys for external services.
pub struct ApiKeysConfig {
    pub openai: String,
    pub fal: String,
}

/// Feature toggles.
pub struct FeaturesConfig {
    pub prompt_sanitizer: bool,
    pub seed_generation: bool,
    pub use_standalone_engine: bool,
}

/// The full user configuration.
pub struct AppConfig {
    pub gpu_server: GpuServerConfig,
    pub api_keys: ApiKeysConfig,
    pub features: FeaturesConfig,
}

/// Mathematical model of a configuration: every field as a plain value.
#[verifier::ext_equal]
pub struct ConfigModel {
    pub host: Seq<char>,
    pub port: u16,
    pub use_ssl: bool,
    pub openai: Seq<char>,
    pub fal: Seq<char>,
    pub prompt_sanitizer: bool,
    pub seed_generation: bool,
    pub use_standalone_engine: bool,
}

/// The model of a configuration value.
pub open spec fn config_model(c: AppConfig) -> ConfigModel {
    ConfigModel {
        host: c.gpu_server.host@,
        port: c.gpu_server.port,
        use_ssl: c.gpu_server.use_ssl,
        openai: c.api_keys.openai@,
        fal: c.api_keys.fal@,
        prompt_sanitizer: c.features.prompt_sanitizer,
        seed_generation: c.features.seed_generation,
        use_standalone_engine: c.features.use_standalone_engine,
    }
}

/// The documented default: local server on port 8082 without SSL, empty
/// keys, every feature enabled.
pub open spec fn spec_default_model() -> ConfigModel {
    ConfigModel {
        host: "localhost"@,
        port: 8082,
        use_ssl: false,
        openai: Seq::empty(),
        fal: Seq::empty(),
        prompt_sanitizer: true,
        seed_generation: true,
        use_standalone_engine: true,
    }
}

impl Default for AppConfig {
    /// The documented default configuration.
    fn default() -> (r: Self)
        ensures
            config_model(r) == spec_default_model(),
    {
        let r = AppConfig {
            gpu_server: GpuServerConfig {
                host: String::from_str("localhost"),
                port: 8082,
                use_ssl: false,
            },
            api_keys: ApiKeysConfig { openai: String::new(), fal: String::new() },
            features: FeaturesConfig {
                prompt_sanitizer: true,
                seed_generation: true,
                use_standalone_engine: true,
            },
        };
        proof {
            assert(config_model(r) =~= spec_default_model());
        }
        r
    }
}

/// The quote byte `"`.
pub open spec fn quote_byte() -> u8 {
    34u8
}

/// The backslash byte.
pub open spec fn backslash_byte() -> u8 {
    92u8
}

/// The hexadecimal digit for a value below 16: `0`-`9` then `a`-`f`.
pub open spec fn hex_digit_byte(n: u8) -> u8 {
    if n < 10 {
        (48 + n) as u8
    } else {
        (87 + n) as u8
    }
}

/// The JSON escape of one content byte: quote and backslash get a
/// two-byte escape, control bytes a six-byte `\u00..` escape, and every
/// other byte (multi-byte UTF-8 sequences included) stands as itself.
pub open spec fn esc1(b: u8) -> Seq<u8> {
    if b == quote_byte() {
        seq![backslash_byte(), quote_byte()]
    } else if b == backslash_byte() {
        seq![backslash_byte(), backslash_byte()]
    } else if b < 32 {
        seq![
            backslash_byte(),
            117u8,
            48u8,
            48u8,
            hex_digit_byte(b / 16),
            hex_digit_byte(b % 16),
        ]
    } else {
        seq![b]
    }
}

/// The JSON escape of a content byte string.
pub open spec fn spec_escape(s: Seq<u8>) -> Seq<u8>
    decreases s.len(),
{
    if s.len() == 0 {
        Seq::empty()
    } else {
        esc1(s[0]) + spec_escape(s.drop_first())
    }
}

proof fn lemma_escape_push(s: Seq<u8>, x: u8)
    ensures
        spec_escape(s.push(x)) == spec_escape(s) + esc1(x),
    decreases s.len(),
{
    if s.len() == 0 {
        let t = s.push(x);
        assert(t[0] == x);
        assert(t.drop_first() =~= Seq::<u8>::empty());
        assert(spec_escape(t) == esc1(x) + spec_escape(Seq::<u8>::empty()));
        assert(spec_escape(Seq::<u8>::empty()) == Seq::<u8>::empty());
        assert(spec_escape(t) =~= esc1(x));
        assert(spec_escape(s) + esc1(x) =~= esc1(x));
    } else {
        assert(s.push(x)[0] == s[0]);
        assert(s.push(x).drop_first() =~= s.drop_first().push(x));
        assert(spec_escape(s.push(x)) == esc1(s[0]) + spec_escape(s.drop_first().push(x)));
        lemma_escape_push(s.drop_first(), x);
        assert(esc1(s[0]) + (spec_escape(s.drop_first()) + esc1(x)) =~= (esc1(s[0])
            + spec_escape(s.drop_first())) + esc1(x));
        assert(spec_escape(s.push(x)) =~= spec_escape(s) + esc1(x));
    }
}

/// The decimal digits of a non-negative integer, most significant first.
pub open spec fn spec_dec(n: int) -> Seq<u8>
    decreases n,
{
    if n < 10 {
        seq![(48 + if n >= 0 { n } else { 0 }) as u8]
    } else {
        spec_dec(n / 10).push((48 + n % 10) as u8)
    }
}

/// The JSON encoding of a boolean.
pub open spec fn spec_bool_bytes(b: bool) -> Seq<u8> {
    if b {
        spec_lit_true()
    } else {
        spec_lit_false()
    }
}

/// The bytes of the gpu server section, up to the ssl flag.
pub open spec fn spec_gpu_section(m: ConfigModel) -> Seq<u8> {
    spec_lit_head() + spec_escape(encode_utf8(m.host)) + spec_lit_after_host() + spec_dec(
        m.port as int,
    ) + spec_lit_after_port() + spec_bool_bytes(m.use_ssl)
}

/// The bytes of the api keys section, up to the fal key.
pub open spec fn spec_keys_section(m: ConfigModel) -> Seq<u8> {
    spec_lit_after_ssl() + spec_escape(encode_utf8(m.openai)) + spec_lit_after_openai()
        + spec_escape(encode_utf8(m.fal))
}

/// The bytes of the features section, through the closing brace.
pub open spec fn spec_features_section(m: ConfigModel) -> Seq<u8> {
    spec_lit_after_fal() + spec_bool_bytes(m.prompt_sanitizer) + spec_lit_after_sanitizer()
        + spec_bool_bytes(m.seed_generation) + spec_lit_after_seed() + spec_bool_bytes(
        m.use_standalone_engine,
    ) + spec_lit_tail()
}

/// The canonical bytes of a configuration: the fixed pretty layout with
/// each field's encoding interpolated.
pub open spec fn spec_config_bytes(m: ConfigModel) -> Seq<u8> {
    spec_gpu_section(m) + spec_keys_section(m) + spec_features_section(m)
}

fn push_bytes(out: &mut Vec<u8>, lit: &Vec<u8>)
    ensures
        final(out)@ == old(out)@ + lit@,
{
    let mut i: usize = 0;
    proof {
        assert(out@ =~= old(out)@ + lit@.subrange(0, 0));
    }
    while i < lit.len()
        invariant
            i <= lit.len(),
            out@ == old(out)@ + lit@.subrange(0, i as int),
        decreases lit.len() - i,
    {
        out.push(lit[i]);
        proof {
            assert(out@ =~= old(out)@ + lit@.subrange(0, i + 1));
        }
        i += 1;
    }
    proof {
        assert(lit@.subrange(0, lit@.len() as int) =~= lit@);
    }
}

fn push_escaped(out: &mut Vec<u8>, s: &str)
    ensures
        final(out)@ == old(out)@ + spec_escape(encode_utf8(s@)),
{
    let bytes = s.as_bytes();
    let mut i: usize = 0;
    proof {
        assert(bytes@.subrange(0, 0) =~= Seq::<u8>::empty());
        assert(out@ =~= old(out)@ + spec_escape(bytes@.subrange(0, 0)));
    }
    while i < bytes.len()
        invariant
            i <= bytes.len(),
            bytes@ == s.spec_bytes(),
            out@ == old(out)@ + spec_escape(bytes@.subrange(0, i as int)),
        decreases bytes.len() - i,
    {
        let b = bytes[i];
        proof {
            assert(bytes@.subrange(0, i + 1) =~= bytes@.subrange(0, i as int).push(b));
            lemma_escape_push(bytes@.subrange(0, i as int), b);
        }
        if b == 34 {
            out.push(92);
            out.push(34);
        } else if b == 92 {
            out.push(92);
            out.push(92);
        } else if b < 32 {
            out.push(92);
            out.push(117);
            out.push(48);
            out.push(48);
            let h = b / 16;
            let l = b % 16;
            out.push(if h < 10 { 48 + h } else { 87 + h });
            out.push(if l < 10 { 48 + l } else { 87 + l });
        } else {
            out.push(b);
        }
        proof {
            assert(out@ =~= old(out)@ + spec_escape(bytes@.subrange(0, i + 1)));
        }
        i += 1;
    }
    proof {
        assert(bytes@.subrange(0, bytes@.len() as int) =~= bytes@);
    }
}

fn push_dec_u16(out: &mut Vec<u8>, n: u16)
    ensures
        final(out)@ == old(out)@ + spec_dec(n as int),
    decreases n,
{
    if n < 10 {
        out.push(48 + (n as u8));
        proof {
            assert(out@ =~= old(out)@ + spec_dec(n as int));
        }
    } else {
        push_dec_u16(out, n / 10);
        out.push(48 + ((n % 10) as u8));
        proof {
            assert(out@ =~= old(out)@ + spec_dec(n as int));
        }
    }
}

fn push_bool(out: &mut Vec<u8>, b: bool)
    ensures
        final(out)@ == old(out)@ + spec_bool_bytes(b),
{
    if b {
        let lit = lit_true();
        push_bytes(out, &lit);
    } else {
        let lit = lit_false();
        push_bytes(out, &lit);
    }
}

fn push_gpu_section(out: &mut Vec<u8>, c: &AppConfig)
    ensures
        final(out)@ == old(out)@ + spec_gpu_section(config_model(*c)),
{
    let lit = lit_head();
    push_bytes(out, &lit);
    push_escaped(out, c.gpu_server.host.as_str());
    let lit = lit_after_host();
    push_bytes(out, &lit);
    push_dec_u16(out, c.gpu_server.port);
    let lit = lit_after_port();
    push_bytes(out, &lit);
    push_bool(out, c.gpu_server.use_ssl);
    proof {
        assert(out@ =~= old(out)@ + spec_gpu_section(config_model(*c)));
    }
}

fn push_keys_section(out: &mut Vec<u8>, c: &AppConfig)
    ensures
        final(out)@ == old(out)@ + spec_keys_section(config_model(*c)),
{
    let lit = lit_after_ssl();
    push_bytes(out, &lit);
    push_escaped(out, c.api_keys.openai.as_str());
    let lit = lit_after_openai();
    push_bytes(out, &lit);
    push_escaped(out, c.api_keys.fal.as_str());
    proof {
        assert(out@ =~= old(out)@ + spec_keys_section(config_model(*c)));
    }
}

fn push_features_section(out: &mut Vec<u8>, c: &AppConfig)
    ensures
        final(out)@ == old(out)@ + spec_features_section(config_model(*c)),
{
    let lit = lit_after_fal();
    push_bytes(out, &lit);
    push_bool(out, c.features.prompt_sanitizer);
    let lit = lit_after_sanitizer();
    push_bytes(out, &lit);
    push_bool(out, c.features.seed_generation);
    let lit = lit_after_seed();
    push_bytes(out, &lit);
    push_bool(out, c.features.use_standalone_engine);
    let lit = lit_tail();
    push_bytes(out, &lit);
    proof {
        assert(out@ =~= old(out)@ + spec_features_section(config_model(*c)));
    }
}

/// The canonical bytes of a configuration, ready to write to disk.
pub fn encode_config(c: &AppConfig) -> (r: Vec<u8>)
    ensures
        r@ == spec_config_bytes(config_model(*c)),
{
    let mut out: Vec<u8> = Vec::new();
    push_gpu_section(&mut out, c);
    push_keys_section(&mut out, c);
    push_features_section(&mut out, c);
    proof {
        assert(out@ =~= spec_config_bytes(config_model(*c)));
    }
    out
}

/// The canonical layout chunk `{\n  "gpu_server": {\n    "host": "`.
pub open spec fn spec_lit_head() -> Seq<u8> {
    seq![123u8, 10u8, 32u8, 32u8, 34u8, 103u8, 112u8, 117u8, 95u8, 115u8, 101u8, 114u8, 118u8, 101u8, 114u8, 34u8, 58u8, 32u8, 123u8, 10u8, 32u8, 32u8, 32u8, 32u8, 34u8, 104u8, 111u8, 115u8, 116u8, 34u8, 58u8, 32u8, 34u8]
}

fn lit_head() -> (r: Vec<u8>)
    ensures
        r@ == spec_lit_head(),
{
    let r: Vec<u8> = vec![123u8, 10u8, 32u8, 32u8, 34u8, 103u8, 112u8, 117u8, 95u8, 115u8, 101u8, 114u8, 118u8, 101u8, 114u8, 34u8, 58u8, 32u8, 123u8, 10u8, 32u8, 32u8, 32u8, 32u8, 34u8, 104u8, 111u8, 115u8, 116u8, 34u8, 58u8, 32u8, 34u8];
    proof {
        assert(r@ =~= spec_lit_head());
    }
    r
}

/// The canonical layout chunk `",\n    "port": `.
pub open spec fn spec_lit_after_host() -> Seq<u8> {
    seq![34u8, 44u8, 10u8, 32u8, 32u8, 32u8, 32u8, 34u8, 112u8, 111u8, 114u8, 116u8, 34u8, 58u8, 32u8]
}

fn lit_after_host() -> (r: Vec<u8>)
    ensures
        r@ == spec_lit_after_host(),
{
    let r: Vec<u8> = vec![34u8, 44u8, 10u8, 32u8, 32u8, 32u8, 32u8, 34u8, 112u8, 111u8, 114u8, 116u8, 34u8, 58u8, 32u8];
    proof {
        assert(r@ =~= spec_lit_after_host());
    }
    r
}

/// The canonical layout chunk `,\n    "use_ssl": `.
pub open spec fn spec_lit_after_port() -> Seq<u8> {
    seq![44u8, 10u8, 32u8, 32u8, 32u8, 32u8, 34u8, 117u8, 115u8, 101u8, 95u8, 115u8, 115u8, 108u8, 34u8, 58u8, 32u8]
}

fn lit_after_port() -> (r: Vec<u8>)
    ensures
        r@ == spec_lit_after_port(),
{
    let r: Vec<u8> = vec![44u8, 10u8, 32u8, 32u8, 32u8, 32u8, 34u8, 117u8, 115u8, 101u8, 95u8, 115u8, 115u8, 108u8, 34u8, 58u8, 32u8];
    proof {
        assert(r@ =~= spec_lit_after_port());
    }
    r
}

/// The canonical layout chunk `\n  },\n  "api_keys": {\n    "openai": "`.
pub open spec fn spec_lit_after_ssl() -> Seq<u8> {
    seq![10u8, 32u8, 32u8, 125u8, 44u8, 10u8, 32u8, 32u8, 34u8, 97u8, 112u8, 105u8, 95u8, 107u8, 101u8, 121u8, 115u8, 34u8, 58u8, 32u8, 123u8, 10u8, 32u8, 32u8, 32u8, 32u8, 34u8, 111u8, 112u8, 101u8, 110u8, 97u8, 105u8, 34u8, 58u8, 32u8, 34u8]
}

fn lit_after_ssl() -> (r: Vec<u8>)
    ensures
        r@ == spec_lit_after_ssl(),
{
    let r: Vec<u8> = vec![10u8, 32u8, 32u8, 125u8, 44u8, 10u8, 32u8, 32u8, 34u8, 97u8, 112u8, 105u8, 95u8, 107u8, 101u8, 121u8, 115u8, 34u8, 58u8, 32u8, 123u8, 10u8, 32u8, 32u8, 32u8, 32u8, 34u8, 111u8, 112u8, 101u8, 110u8, 97u8, 105u8, 34u8, 58u8, 32u8, 34u8];
    proof {
        assert(r@ =~= spec_lit_after_ssl());
    }
    r
}

/// The canonical layout chunk `",\n    "fal": "`.
pub open spec fn spec_lit_after_openai() -> Seq<u8> {
    seq![34u8, 44u8, 10u8, 32u8, 32u8, 32u8, 32u8, 34u8, 102u8, 97u8, 108u8, 34u8, 58u8, 32u8, 34u8]
}

fn lit_after_openai() -> (r: Vec<u8>)
    ensures
        r@ == spec_lit_after_openai(),
{
    let r: Vec<u8> = vec![34u8, 44u8, 10u8, 32u8, 32u8, 32u8, 32u8, 34u8, 102u8, 97u8, 108u8, 34u8, 58u8, 32u8, 34u8];
    proof {
        assert(r@ =~= spec_lit_after_openai());
    }
    r
}

/// The canonical layout chunk `"\n  },\n  "features": {\n    "prompt_sanitizer": `.
pub open spec fn spec_lit_after_fal() -> Seq<u8> {
    seq![34u8, 10u8, 32u8, 32u8, 125u8, 44u8, 10u8, 32u8, 32u8, 34u8, 102u8, 101u8, 97u8, 116u8, 117u8, 114u8, 101u8, 115u8, 34u8, 58u8, 32u8, 123u8, 10u8, 32u8, 32u8, 32u8, 32u8, 34u8, 112u8, 114u8, 111u8, 109u8, 112u8, 116u8, 95u8, 115u8, 97u8, 110u8, 105u8, 116u8, 105u8, 122u8, 101u8, 114u8, 34u8, 58u8, 32u8]
}

fn lit_after_fal() -> (r: Vec<u8>)
    ensures
        r@ == spec_lit_after_fal(),
{
    let r: Vec<u8> = vec![34u8, 10u8, 32u8, 32u8, 125u8, 44u8, 10u8, 32u8, 32u8, 34u8, 102u8, 101u8, 97u8, 116u8, 117u8, 114u8, 101u8, 115u8, 34u8, 58u8, 32u8, 123u8, 10u8, 32u8, 32u8, 32u8, 32u8, 34u8, 112u8, 114u8, 111u8, 109u8, 112u8, 116u8, 95u8, 115u8, 97u8, 110u8, 105u8, 116u8, 105u8, 122u8, 101u8, 114u8, 34u8, 58u8, 32u8];
    proof {
        assert(r@ =~= spec_lit_after_fal());
    }
    r
}

/// The canonical layout chunk `,\n    "seed_generation": `.
pub open spec fn spec_lit_after_sanitizer() -> Seq<u8> {
    seq![44u8, 10u8, 32u8, 32u8, 32u8, 32u8, 34u8, 115u8, 101u8, 101u8, 100u8, 95u8, 103u8, 101u8, 110u8, 101u8, 114u8, 97u8, 116u8, 105u8, 111u8, 110u8, 34u8, 58u8, 32u8]
}

fn lit_after_sanitizer() -> (r: Vec<u8>)
    ensures
        r@ == spec_lit_after_sanitizer(),
{
    let r: Vec<u8> = vec![44u8, 10u8, 32u8, 32u8, 32u8, 32u8, 34u8, 115u8, 101u8, 101u8, 100u8, 95u8, 103u8, 101u8, 110u8, 101u8, 114u8, 97u8, 116u8, 105u8, 111u8, 110u8, 34u8, 58u8, 32u8];
    proof {
        assert(r@ =~= spec_lit_after_sanitizer());
    }
    r
}

/// The canonical layout chunk `,\n    "use_standalone_engine": `.
pub open spec fn spec_lit_after_seed() -> Seq<u8> {
    seq![44u8, 10u8, 32u8, 32u8, 32u8, 32u8, 34u8, 117u8, 115u8, 101u8, 95u8, 115u8, 116u8, 97u8, 110u8, 100u8, 97u8, 108u8, 111u8, 110u8, 101u8, 95u8, 101u8, 110u8, 103u8, 105u8, 110u8, 101u8, 34u8, 58u8, 32u8]
}

fn lit_after_seed() -> (r: Vec<u8>)
    ensures
        r@ == spec_lit_after_seed(),
{
    let r: Vec<u8> = vec![44u8, 10u8, 32u8, 32u8, 32u8, 32u8, 34u8, 117u8, 115u8, 101u8, 95u8, 115u8, 116u8, 97u8, 110u8, 100u8, 97u8, 108u8, 111u8, 110u8, 101u8, 95u8, 101u8, 110u8, 103u8, 105u8, 110u8, 101u8, 34u8, 58u8, 32u8];
    proof {
        assert(r@ =~= spec_lit_after_seed());
    }
    r
}

/// The canonical layout chunk `\n  }\n}`.
pub open spec fn spec_lit_tail() -> Seq<u8> {
    seq![10u8, 32u8, 32u8, 125u8, 10u8, 125u8]
}

fn lit_tail() -> (r: Vec<u8>)
    ensures
        r@ == spec_lit_tail(),
{
    let r: Vec<u8> = vec![10u8, 32u8, 32u8, 125u8, 10u8, 125u8];
    proof {
        assert(r@ =~= spec_lit_tail());
    }
    r
}

/// The canonical layout chunk `true`.
pub open spec fn spec_lit_true() -> Seq<u8> {
    seq![116u8, 114u8, 117u8, 101u8]
}

fn lit_true() -> (r: Vec<u8>)
    ensures
        r@ == spec_lit_true(),
{
    let r: Vec<u8> = vec![116u8, 114u8, 117u8, 101u8];
    proof {
        assert(r@ =~= spec_lit_true());
    }
    r
}

/// The canonical layout chunk `false`.
pub open spec fn spec_lit_false() -> Seq<u8> {
    seq![102u8, 97u8, 108u8, 115u8, 101u8]
}

fn lit_false() -> (r: Vec<u8>)
    ensures
        r@ == spec_lit_false(),
{
    let r: Vec<u8> = vec![102u8, 97u8, 108u8, 115u8, 101u8];
    proof {
        assert(r@ =~= spec_lit_false());
    }
    r
}


/// A decimal digit byte.
pub open spec fn is_digit(b: u8) -> bool {
    48 <= b <= 57
}

/// A lowercase hexadecimal digit byte.
pub open spec fn is_hex(b: u8) -> bool {
    is_digit(b) || (97 <= b <= 102)
}

/// The value of a lowercase hexadecimal digit byte.
pub open spec fn hex_val(b: u8) -> int {
    if is_digit(b) {
        b - 48
    } else {
        b - 87
    }
}

/// The position after `lit` when `lit` stands at `i` in `b`.
pub open spec fn spec_expect(b: Seq<u8>, i: int, lit: Seq<u8>) -> Option<int> {
    if 0 <= i && i + lit.len() <= b.len() && b.subrange(i, i + lit.len() as int) == lit {
        Some(i + lit.len() as int)
    } else {
        None
    }
}

/// The content bytes of a JSON string read from `i` up to its closing quote
/// (which is not consumed), unescaped as written by `esc1`; nothing on
/// malformed input.
pub open spec fn spec_take_string(b: Seq<u8>, i: int) -> Option<(Seq<u8>, int)>
    decreases b.len() - i,
{
    if i < 0 || i >= b.len() {
        None
    } else if b[i] == quote_byte() {
        Some((Seq::empty(), i))
    } else if b[i] == backslash_byte() {
        if i + 2 <= b.len() && (b[i + 1] == quote_byte() || b[i + 1] == backslash_byte()) {
            match spec_take_string(b, i + 2) {
                Some((s, j)) => Some((seq![b[i + 1]] + s, j)),
                None => None,
            }
        } else if i + 6 <= b.len() && b[i + 1] == 117u8 && b[i + 2] == 48u8 && b[i + 3] == 48u8
            && is_hex(b[i + 4]) && is_hex(b[i + 5]) && hex_val(b[i + 4]) * 16 + hex_val(b[i + 5])
            < 128 {
            match spec_take_string(b, i + 6) {
                Some((s, j)) => Some(
                    (seq![(hex_val(b[i + 4]) * 16 + hex_val(b[i + 5])) as u8] + s, j),
                ),
                None => None,
            }
        } else {
            None
        }
    } else if b[i] < 32 {
        None
    } else {
        match spec_take_string(b, i + 1) {
            Some((s, j)) => Some((seq![b[i]] + s, j)),
            None => None,
        }
    }
}

/// The end of the run of digit bytes starting at `i`.
pub open spec fn digit_run_end(b: Seq<u8>, i: int) -> int
    decreases b.len() - i,
{
    if 0 <= i && i < b.len() && is_digit(b[i]) {
        digit_run_end(b, i + 1)
    } else {
        i
    }
}

/// The number written by a digit byte string, most significant digit first.
pub open spec fn spec_num(s: Seq<u8>) -> int
    decreases s.len(),
{
    if s.len() == 0 {
        0
    } else {
        spec_num(s.drop_last()) * 10 + (s.last() - 48)
    }
}

/// The port read from a run of one to five digits at `i`, when its value
/// fits a 16-bit integer.
pub open spec fn spec_take_port(b: Seq<u8>, i: int) -> Option<(u16, int)> {
    let j = digit_run_end(b, i);
    if i < j <= i + 5 && 0 <= spec_num(b.subrange(i, j)) <= 65535 {
        Some((spec_num(b.subrange(i, j)) as u16, j))
    } else {
        None
    }
}

/// The boolean literal at `i`.
pub open spec fn spec_take_bool(b: Seq<u8>, i: int) -> Option<(bool, int)> {
    if spec_expect(b, i, spec_lit_true()) is Some {
        Some((true, i + 4))
    } else if spec_expect(b, i, spec_lit_false()) is Some {
        Some((false, i + 5))
    } else {
        None
    }
}

/// The configuration written in `b`, when `b` is exactly the canonical
/// layout read to its end; nothing otherwise.
pub open spec fn spec_parse_canonical(b: Seq<u8>) -> Option<ConfigModel> {
    match spec_expect(b, 0, spec_lit_head()) {
        None => None,
        Some(i1) => match spec_take_string(b, i1) {
            None => None,
            Some((hostb, i2)) => match spec_expect(b, i2, spec_lit_after_host()) {
                None => None,
                Some(i3) => match spec_take_port(b, i3) {
                    None => None,
                    Some((port, i4)) => match spec_expect(b, i4, spec_lit_after_port()) {
                        None => None,
                        Some(i5) => match spec_take_bool(b, i5) {
                            None => None,
                            Some((use_ssl, i6)) => match spec_expect(b, i6, spec_lit_after_ssl()) {
                                None => None,
                                Some(i7) => match spec_take_string(b, i7) {
                                    None => None,
                                    Some((openaib, i8)) => spec_parse_canonical_rest(
                                        b,
                                        hostb,
                                        port,
                                        use_ssl,
                                        openaib,
                                        i8,
                                    ),
                                },
                            },
                        },
                    },
                },
            },
        },
    }
}

/// The tail of the canonical layout, from the end of the openai key on.
pub open spec fn spec_parse_canonical_rest(
    b: Seq<u8>,
    hostb: Seq<u8>,
    port: u16,
    use_ssl: bool,
    openaib: Seq<u8>,
    i8: int,
) -> Option<ConfigModel> {
    match spec_expect(b, i8, spec_lit_after_openai()) {
        None => None,
        Some(i9) => match spec_take_string(b, i9) {
            None => None,
            Some((falb, i10)) => match spec_expect(b, i10, spec_lit_after_fal()) {
                None => None,
                Some(i11) => match spec_take_bool(b, i11) {
                    None => None,
                    Some((ps, i12)) => match spec_expect(b, i12, spec_lit_after_sanitizer()) {
                        None => None,
                        Some(i13) => match spec_take_bool(b, i13) {
                            None => None,
                            Some((sg, i14)) => match spec_expect(b, i14, spec_lit_after_seed()) {
                                None => None,
                                Some(i15) => match spec_take_bool(b, i15) {
                                    None => None,
                                    Some((us, i16)) => match spec_expect(b, i16, spec_lit_tail()) {
                                        None => None,
                                        Some(iend) => if iend == b.len() && valid_utf8(hostb)
                                            && valid_utf8(openaib) && valid_utf8(falb) {
                                            Some(
                                                ConfigModel {
                                                    host: decode_utf8(hostb),
                                                    port,
                                                    use_ssl,
                                                    openai: decode_utf8(openaib),
                                                    fal: decode_utf8(falb),
                                                    prompt_sanitizer: ps,
                                                    seed_generation: sg,
                                                    use_standalone_engine: us,
                                                },
                                            )
                                        } else {
                                            None
                                        },
                                    },
                                },
                            },
                        },
                    },
                },
            },
        },
    }
}

fn expect_at(b: &[u8], i: usize, lit: &Vec<u8>) -> (r: Option<usize>)
    ensures
        r matches Some(j) ==> spec_expect(b@, i as int, lit@) == Some(j as int),
        r is None ==> spec_expect(b@, i as int, lit@) is None,
{
    if i > b.len() || lit.len() > b.len() - i {
        return None;
    }
    let mut k: usize = 0;
    while k < lit.len()
        invariant
            k <= lit.len(),
            i + lit.len() <= b.len(),
            forall|t: int| 0 <= t < k ==> b@[i + t] == lit@[t],
        decreases lit.len() - k,
    {
        if b[i + k] != lit[k] {
            proof {
                assert(b@.subrange(i as int, i + lit@.len())[k as int] != lit@[k as int]);
            }
            return None;
        }
        k += 1;
    }
    proof {
        assert(b@.subrange(i as int, i + lit@.len()) =~= lit@);
    }
    Some(i + lit.len())
}

/// Prefixing accumulated content onto a string-scan outcome.
pub open spec fn spec_prefix_take(pre: Seq<u8>, o: Option<(Seq<u8>, int)>) -> Option<
    (Seq<u8>, int),
> {
    match o {
        Some((s, j)) => Some((pre + s, j)),
        None => None,
    }
}

fn take_string_at(b: &[u8], i: usize) -> (r: Option<(Vec<u8>, usize)>)
    ensures
        r matches Some(p) ==> spec_take_string(b@, i as int) == Some((p.0@, p.1 as int)) && p.1
            < b@.len(),
        r is None ==> spec_take_string(b@, i as int) is None,
{
    if i >= b.len() {
        return None;
    }
    let mut acc: Vec<u8> = Vec::new();
    let mut cur: usize = i;
    proof {
        let o = spec_take_string(b@, i as int);
        if o is Some {
            assert(Seq::<u8>::empty() + o->Some_0.0 =~= o->Some_0.0);
        }
        assert(spec_prefix_take(acc@, o) == o);
    }
    loop
        invariant
            i <= cur <= b@.len(),
            spec_prefix_take(acc@, spec_take_string(b@, cur as int)) == spec_take_string(
                b@,
                i as int,
            ),
        decreases b@.len() - cur,
    {
        if cur >= b.len() {
            return None;
        }
        let c = b[cur];
        if c == 34 {
            proof {
                assert(acc@ + Seq::<u8>::empty() =~= acc@);
            }
            return Some((acc, cur));
        } else if c == 92 {
            if cur + 1 < b.len() && (b[cur + 1] == 34 || b[cur + 1] == 92) {
                let e = b[cur + 1];
                let ghost acc_old = acc@;
                acc.push(e);
                proof {
                    let o2 = spec_take_string(b@, cur + 2);
                    if o2 is Some {
                        let s = o2->Some_0.0;
                        assert(acc_old + (seq![e] + s) =~= acc_old.push(e) + s);
                    }
                }
                cur = cur + 2;
            } else if b.len() - cur >= 6 && b[cur + 1] == 117 && b[cur + 2] == 48 && b[cur + 3]
                == 48 && hex_ok(b[cur + 4]) && hex_ok(b[cur + 5]) {
                let hi = hex_value(b[cur + 4]);
                let lo = hex_value(b[cur + 5]);
                let v: u8 = if hi * 16 + lo < 128 {
                    (hi * 16 + lo) as u8
                } else {
                    return None;
                };
                let ghost acc_old = acc@;
                acc.push(v);
                proof {
                    let o2 = spec_take_string(b@, cur + 6);
                    if o2 is Some {
                        let s = o2->Some_0.0;
                        assert(acc_old + (seq![v] + s) =~= acc_old.push(v) + s);
                    }
                }
                cur = cur + 6;
            } else {
                return None;
            }
        } else if c < 32 {
            return None;
        } else {
            let ghost acc_old = acc@;
            acc.push(c);
            proof {
                let o2 = spec_take_string(b@, cur + 1);
                if o2 is Some {
                    let s = o2->Some_0.0;
                    assert(acc_old + (seq![c] + s) =~= acc_old.push(c) + s);
                }
            }
            cur = cur + 1;
        }
    }
}

fn hex_ok(b: u8) -> (r: bool)
    ensures
        r == is_hex(b),
{
    (48 <= b && b <= 57) || (97 <= b && b <= 102)
}

fn hex_value(b: u8) -> (r: u16)
    requires
        is_hex(b),
    ensures
        r as int == hex_val(b),
        r < 16,
{
    if b <= 57 {
        (b - 48) as u16
    } else {
        (b - 87) as u16
    }
}

/// Ten to the `k`.
pub open spec fn pow10(k: nat) -> int
    decreases k,
{
    if k == 0 {
        1
    } else {
        10 * pow10((k - 1) as nat)
    }
}

proof fn lemma_num_bound(s: Seq<u8>)
    requires
        forall|t: int| 0 <= t < s.len() ==> is_digit(#[trigger] s[t]),
    ensures
        0 <= spec_num(s) < pow10(s.len()),
    decreases s.len(),
{
    if s.len() > 0 {
        lemma_num_bound(s.drop_last());
    }
}

proof fn lemma_pow10_pos(a: nat)
    ensures
        pow10(a) >= 1,
    decreases a,
{
    if a > 0 {
        lemma_pow10_pos((a - 1) as nat);
    }
}

proof fn lemma_pow10_le(a: nat, b: nat)
    requires
        a <= b,
    ensures
        1 <= pow10(a) <= pow10(b),
    decreases b,
{
    lemma_pow10_pos(a);
    if a < b {
        lemma_pow10_le(a, (b - 1) as nat);
        lemma_pow10_pos((b - 1) as nat);
    }
}

fn take_port_at(b: &[u8], i: usize) -> (r: Option<(u16, usize)>)
    ensures
        r matches Some(p) ==> spec_take_port(b@, i as int) == Some((p.0, p.1 as int)),
        r is None ==> spec_take_port(b@, i as int) is None,
{
    if i >= b.len() {
        return None;
    }
    let mut j: usize = i;
    while j < b.len() && 48 <= b[j] && b[j] <= 57
        invariant
            i <= j <= b@.len(),
            digit_run_end(b@, i as int) == digit_run_end(b@, j as int),
            forall|t: int| i <= t < j ==> is_digit(#[trigger] b@[t]),
        decreases b@.len() - j,
    {
        j += 1;
    }
    proof {
        assert(digit_run_end(b@, j as int) == j as int);
    }
    if j == i || j - i > 5 {
        return None;
    }
    let ghost run = b@.subrange(i as int, j as int);
    proof {
        lemma_num_bound(run);
    }
    let mut acc: u32 = 0;
    let mut k: usize = i;
    proof {
        assert(b@.subrange(i as int, i as int) =~= Seq::<u8>::empty());
    }
    while k < j
        invariant
            i <= k <= j <= b@.len(),
            j - i <= 5,
            forall|t: int| i <= t < j ==> is_digit(#[trigger] b@[t]),
            acc as int == spec_num(b@.subrange(i as int, k as int)),
            run == b@.subrange(i as int, j as int),
        decreases j - k,
    {
        proof {
            assert(b@.subrange(i as int, k + 1).drop_last() =~= b@.subrange(i as int, k as int));
            assert(b@.subrange(i as int, k + 1).last() == b@[k as int]);
            lemma_num_bound(b@.subrange(i as int, k as int));
            lemma_pow10_le(b@.subrange(i as int, k as int).len(), 4);
            reveal_with_fuel(pow10, 6);
            assert(acc < 10000);
        }
        acc = acc * 10 + ((b[k] - 48) as u32);
        k += 1;
    }
    proof {
        lemma_num_bound(run);
    }
    if acc <= 65535 {
        Some((acc as u16, j))
    } else {
        None
    }
}

fn take_bool_at(b: &[u8], i: usize) -> (r: Option<(bool, usize)>)
    ensures
        r matches Some(p) ==> spec_take_bool(b@, i as int) == Some((p.0, p.1 as int)),
        r is None ==> spec_take_bool(b@, i as int) is None,
{
    let t = lit_true();
    match expect_at(b, i, &t) {
        Some(j) => Some((true, j)),
        None => {
            let f = lit_false();
            match expect_at(b, i, &f) {
                Some(j) => Some((false, j)),
                None => None,
            }
        },
    }
}

/// Relies on String::from_utf8: it accepts exactly the valid UTF-8 byte
/// strings and decodes them to their characters.
#[verifier::external_body]
fn string_from_bytes(v: Vec<u8>) -> (r: Option<String>)
    ensures
        r matches Some(s) ==> valid_utf8(v@) && s@ == decode_utf8(v@),
        r is None ==> !valid_utf8(v@),
{
    match String::from_utf8(v) {
        Ok(s) => Some(s),
        Err(_) => None,
    }
}

fn parse_error() -> (r: String)
    ensures
        r@ == "Failed to parse config file"@,
{
    String::from_str("Failed to parse config file")
}

/// The configuration read back from exactly canonical config bytes.
fn parse_canonical(b: &[u8]) -> (r: Option<AppConfig>)
    ensures
        r matches Some(c) ==> spec_parse_canonical(b@) == Some(config_model(c)),
        r is None ==> spec_parse_canonical(b@) is None,
{
    let lit = lit_head();
    let i1 = match expect_at(b, 0, &lit) {
        Some(j) => j,
        None => {
            return None;
        },
    };
    let (hostv, i2) = match take_string_at(b, i1) {
        Some(p) => p,
        None => {
            return None;
        },
    };
    let lit = lit_after_host();
    let i3 = match expect_at(b, i2, &lit) {
        Some(j) => j,
        None => {
            return None;
        },
    };
    let (port, i4) = match take_port_at(b, i3) {
        Some(p) => p,
        None => {
            return None;
        },
    };
    let lit = lit_after_port();
    let i5 = match expect_at(b, i4, &lit) {
        Some(j) => j,
        None => {
            return None;
        },
    };
    let (use_ssl, i6) = match take_bool_at(b, i5) {
        Some(p) => p,
        None => {
            return None;
        },
    };
    let lit = lit_after_ssl();
    let i7 = match expect_at(b, i6, &lit) {
        Some(j) => j,
        None => {
            return None;
        },
    };
    let (openaiv, i8) = match take_string_at(b, i7) {
        Some(p) => p,
        None => {
            return None;
        },
    };
    let lit = lit_after_openai();
    let i9 = match expect_at(b, i8, &lit) {
        Some(j) => j,
        None => {
            return None;
        },
    };
    let (falv, i10) = match take_string_at(b, i9) {
        Some(p) => p,
        None => {
            return None;
        },
    };
    let lit = lit_after_fal();
    let i11 = match expect_at(b, i10, &lit) {
        Some(j) => j,
        None => {
            return None;
        },
    };
    let (prompt_sanitizer, i12) = match take_bool_at(b, i11) {
        Some(p) => p,
        None => {
            return None;
        },
    };
    let lit = lit_after_sanitizer();
    let i13 = match expect_at(b, i12, &lit) {
        Some(j) => j,
        None => {
            return None;
        },
    };
    let (seed_generation, i14) = match take_bool_at(b, i13) {
        Some(p) => p,
        None => {
            return None;
        },
    };
    let lit = lit_after_seed();
    let i15 = match expect_at(b, i14, &lit) {
        Some(j) => j,
        None => {
            return None;
        },
    };
    let (use_standalone_engine, i16) = match take_bool_at(b, i15) {
        Some(p) => p,
        None => {
            return None;
        },
    };
    let lit = lit_tail();
    let iend = match expect_at(b, i16, &lit) {
        Some(j) => j,
        None => {
            return None;
        },
    };
    if iend != b.len() {
        return None;
    }
    let ghost hostb = hostv@;
    let ghost openaib = openaiv@;
    let ghost falb = falv@;
    let host = match string_from_bytes(hostv) {
        Some(s) => s,
        None => {
            return None;
        },
    };
    let openai = match string_from_bytes(openaiv) {
        Some(s) => s,
        None => {
            return None;
        },
    };
    let fal = match string_from_bytes(falv) {
        Some(s) => s,
        None => {
            return None;
        },
    };
    let c = AppConfig {
        gpu_server: GpuServerConfig { host, port, use_ssl },
        api_keys: ApiKeysConfig { openai, fal },
        features: FeaturesConfig { prompt_sanitizer, seed_generation, use_standalone_engine },
    };
    proof {
        assert(spec_parse_canonical(b@) matches Some(m) && m =~= config_model(c));
    }
    Some(c)
}


proof fn lemma_take_string_escape(b: Seq<u8>, i: int, sb: Seq<u8>)
    requires
        0 <= i,
        i + spec_escape(sb).len() < b.len(),
        b.subrange(i, i + spec_escape(sb).len() as int) == spec_escape(sb),
        b[i + spec_escape(sb).len()] == quote_byte(),
    ensures
        spec_take_string(b, i) == Some((sb, i + spec_escape(sb).len())),
    decreases sb.len(),
{
    let e = spec_escape(sb);
    assert forall|t: int| 0 <= t < e.len() implies b[i + t] == e[t] by {
        assert(b.subrange(i, i + e.len() as int)[t] == e[t]);
    }
    if sb.len() == 0 {
        assert(b[i] == quote_byte());
        assert(Seq::<u8>::empty() =~= sb);
    } else {
        let x = sb[0];
        let e1 = esc1(x);
        let rest = spec_escape(sb.drop_first());
        assert(e == e1 + rest);
        let i2 = i + e1.len();
        assert forall|t: int| 0 <= t < rest.len() implies b[i2 + t] == rest[t] by {
            assert(b[i + (e1.len() + t)] == e[e1.len() + t]);
            assert(e[e1.len() + t] == rest[t]);
        }
        assert(b.subrange(i2, i2 + rest.len() as int) =~= rest);
        assert(b[i2 + rest.len()] == quote_byte());
        lemma_take_string_escape(b, i2, sb.drop_first());
        assert forall|t: int| 0 <= t < e1.len() implies b[i + t] == e1[t] by {
            assert(e[t] == e1[t]);
        }
        if x == quote_byte() || x == backslash_byte() {
            assert(b[i] == backslash_byte());
            assert(b[i + 1] == x);
            assert(seq![x] + sb.drop_first() =~= sb);
        } else if x < 32 {
            assert(b[i] == backslash_byte());
            assert(b[i + 1] == 117u8);
            assert(b[i + 2] == 48u8);
            assert(b[i + 3] == 48u8);
            assert(b[i + 4] == hex_digit_byte(x / 16));
            assert(b[i + 5] == hex_digit_byte(x % 16));
            assert(is_hex(b[i + 4]) && hex_val(b[i + 4]) == x / 16);
            assert(is_hex(b[i + 5]) && hex_val(b[i + 5]) == x % 16);
            assert(hex_val(b[i + 4]) * 16 + hex_val(b[i + 5]) == x);
            assert(seq![x] + sb.drop_first() =~= sb);
        } else {
            assert(b[i + 0] == e1[0]);
            assert(b[i] == x);
            assert(seq![x] + sb.drop_first() =~= sb);
        }
    }
}

proof fn lemma_dec_props(n: int)
    requires
        0 <= n,
    ensures
        forall|t: int| 0 <= t < spec_dec(n).len() ==> is_digit(#[trigger] spec_dec(n)[t]),
        spec_num(spec_dec(n)) == n,
        1 <= spec_dec(n).len(),
        n < 10 ==> spec_dec(n).len() == 1,
        n < 100 ==> spec_dec(n).len() <= 2,
        n < 1000 ==> spec_dec(n).len() <= 3,
        n < 10000 ==> spec_dec(n).len() <= 4,
        n < 100000 ==> spec_dec(n).len() <= 5,
    decreases n,
{
    if n < 10 {
        let s = spec_dec(n);
        assert(s.drop_last() =~= Seq::<u8>::empty());
        assert(spec_num(s) == spec_num(s.drop_last()) * 10 + (s.last() - 48));
    } else {
        lemma_dec_props(n / 10);
        let s = spec_dec(n);
        let pre = spec_dec(n / 10);
        assert(s == pre.push((48 + n % 10) as u8));
        assert(s.drop_last() =~= pre);
        assert(spec_num(s) == spec_num(pre) * 10 + (s.last() - 48));
        assert forall|t: int| 0 <= t < s.len() implies is_digit(#[trigger] s[t]) by {
            if t < pre.len() {
                assert(s[t] == pre[t]);
            }
        }
    }
}

proof fn lemma_run_end(b: Seq<u8>, i: int, k: int)
    requires
        0 <= i <= k <= b.len(),
        forall|t: int| i <= t < k ==> is_digit(#[trigger] b[t]),
        k == b.len() || !is_digit(b[k]),
    ensures
        digit_run_end(b, i) == k,
    decreases k - i,
{
    if i < k {
        lemma_run_end(b, i + 1, k);
    }
}

proof fn lemma_take_port_dec(b: Seq<u8>, i: int, n: int)
    requires
        0 <= i,
        0 <= n <= 65535,
        i + spec_dec(n).len() <= b.len(),
        b.subrange(i, i + spec_dec(n).len() as int) == spec_dec(n),
        i + spec_dec(n).len() == b.len() || !is_digit(b[i + spec_dec(n).len()]),
    ensures
        spec_take_port(b, i) == Some((n as u16, i + spec_dec(n).len())),
{
    lemma_dec_props(n);
    let d = spec_dec(n);
    let j = i + d.len();
    assert forall|t: int| i <= t < j implies is_digit(#[trigger] b[t]) by {
        assert(b.subrange(i, j)[t - i] == d[t - i]);
    }
    lemma_run_end(b, i, j);
}

proof fn lemma_take_bool_lit(b: Seq<u8>, i: int, v: bool)
    requires
        0 <= i,
        i + spec_bool_bytes(v).len() <= b.len(),
        b.subrange(i, i + spec_bool_bytes(v).len() as int) == spec_bool_bytes(v),
    ensures
        spec_take_bool(b, i) == Some((v, i + spec_bool_bytes(v).len())),
{
    if v {
    } else {
        if spec_expect(b, i, spec_lit_true()) is Some {
            assert(b.subrange(i, i + 4)[0] == spec_lit_true()[0]);
            assert(b.subrange(i, i + 5)[0] == spec_lit_false()[0]);
            assert(false);
        }
    }
}

spec fn off0(m: ConfigModel) -> int {
    0
}

spec fn off1(m: ConfigModel) -> int {
    off0(m) + spec_lit_head().len()
}

spec fn off2(m: ConfigModel) -> int {
    off1(m) + spec_escape(encode_utf8(m.host)).len()
}

spec fn off3(m: ConfigModel) -> int {
    off2(m) + spec_lit_after_host().len()
}

spec fn off4(m: ConfigModel) -> int {
    off3(m) + spec_dec(m.port as int).len()
}

spec fn off5(m: ConfigModel) -> int {
    off4(m) + spec_lit_after_port().len()
}

spec fn off6(m: ConfigModel) -> int {
    off5(m) + spec_bool_bytes(m.use_ssl).len()
}

spec fn off7(m: ConfigModel) -> int {
    off6(m) + spec_lit_after_ssl().len()
}

spec fn off8(m: ConfigModel) -> int {
    off7(m) + spec_escape(encode_utf8(m.openai)).len()
}

spec fn off9(m: ConfigModel) -> int {
    off8(m) + spec_lit_after_openai().len()
}

spec fn off10(m: ConfigModel) -> int {
    off9(m) + spec_escape(encode_utf8(m.fal)).len()
}

spec fn off11(m: ConfigModel) -> int {
    off10(m) + spec_lit_after_fal().len()
}

spec fn off12(m: ConfigModel) -> int {
    off11(m) + spec_bool_bytes(m.prompt_sanitizer).len()
}

spec fn off13(m: ConfigModel) -> int {
    off12(m) + spec_lit_after_sanitizer().len()
}

spec fn off14(m: ConfigModel) -> int {
    off13(m) + spec_bool_bytes(m.seed_generation).len()
}

spec fn off15(m: ConfigModel) -> int {
    off14(m) + spec_lit_after_seed().len()
}

spec fn off16(m: ConfigModel) -> int {
    off15(m) + spec_bool_bytes(m.use_standalone_engine).len()
}

spec fn off17(m: ConfigModel) -> int {
    off16(m) + spec_lit_tail().len()
}

#[verifier::spinoff_prover]
#[verifier::rlimit(100)]
proof fn lemma_config_layout_head(m: ConfigModel)
    ensures
        spec_config_bytes(m).subrange(off0(m), off1(m)) == spec_lit_head(),
        spec_config_bytes(m).subrange(off1(m), off2(m)) == spec_escape(encode_utf8(m.host)),
        spec_config_bytes(m).subrange(off2(m), off3(m)) == spec_lit_after_host(),
        spec_config_bytes(m).subrange(off3(m), off4(m)) == spec_dec(m.port as int),
        spec_config_bytes(m).subrange(off4(m), off5(m)) == spec_lit_after_port(),
        spec_config_bytes(m).subrange(off5(m), off6(m)) == spec_bool_bytes(m.use_ssl),
{
    assert(spec_config_bytes(m).subrange(off0(m), off1(m)) =~= spec_lit_head());
    assert(spec_config_bytes(m).subrange(off1(m), off2(m)) =~= spec_escape(encode_utf8(m.host)));
    assert(spec_config_bytes(m).subrange(off2(m), off3(m)) =~= spec_lit_after_host());
    assert(spec_config_bytes(m).subrange(off3(m), off4(m)) =~= spec_dec(m.port as int));
    assert(spec_config_bytes(m).subrange(off4(m), off5(m)) =~= spec_lit_after_port());
    assert(spec_config_bytes(m).subrange(off5(m), off6(m)) =~= spec_bool_bytes(m.use_ssl));
}

#[verifier::spinoff_prover]
#[verifier::rlimit(100)]
proof fn lemma_config_layout_mid(m: ConfigModel)
    ensures
        spec_config_bytes(m).subrange(off6(m), off7(m)) == spec_lit_after_ssl(),
        spec_config_bytes(m).subrange(off7(m), off8(m)) == spec_escape(encode_utf8(m.openai)),
        spec_config_bytes(m).subrange(off8(m), off9(m)) == spec_lit_after_openai(),
        spec_config_bytes(m).subrange(off9(m), off10(m)) == spec_escape(encode_utf8(m.fal)),
        spec_config_bytes(m).subrange(off10(m), off11(m)) == spec_lit_after_fal(),
        spec_config_bytes(m).subrange(off11(m), off12(m)) == spec_bool_bytes(m.prompt_sanitizer),
{
    assert(spec_config_bytes(m).subrange(off6(m), off7(m)) =~= spec_lit_after_ssl());
    assert(spec_config_bytes(m).subrange(off7(m), off8(m)) =~= spec_escape(encode_utf8(m.openai)));
    assert(spec_config_bytes(m).subrange(off8(m), off9(m)) =~= spec_lit_after_openai());
    assert(spec_config_bytes(m).subrange(off9(m), off10(m)) =~= spec_escape(encode_utf8(m.fal)));
    assert(spec_config_bytes(m).subrange(off10(m), off11(m)) =~= spec_lit_after_fal());
    assert(spec_config_bytes(m).subrange(off11(m), off12(m)) =~= spec_bool_bytes(m.prompt_sanitizer));
}

#[verifier::spinoff_prover]
#[verifier::rlimit(100)]
proof fn lemma_config_layout_tail(m: ConfigModel)
    ensures
        spec_config_bytes(m).subrange(off12(m), off13(m)) == spec_lit_after_sanitizer(),
        spec_config_bytes(m).subrange(off13(m), off14(m)) == spec_bool_bytes(m.seed_generation),
        spec_config_bytes(m).subrange(off14(m), off15(m)) == spec_lit_after_seed(),
        spec_config_bytes(m).subrange(off15(m), off16(m)) == spec_bool_bytes(m.use_standalone_engine),
        spec_config_bytes(m).subrange(off16(m), off17(m)) == spec_lit_tail(),
{
    assert(spec_config_bytes(m).subrange(off12(m), off13(m)) =~= spec_lit_after_sanitizer());
    assert(spec_config_bytes(m).subrange(off13(m), off14(m)) =~= spec_bool_bytes(m.seed_generation));
    assert(spec_config_bytes(m).subrange(off14(m), off15(m)) =~= spec_lit_after_seed());
    assert(spec_config_bytes(m).subrange(off15(m), off16(m)) =~= spec_bool_bytes(m.use_standalone_engine));
    assert(spec_config_bytes(m).subrange(off16(m), off17(m)) =~= spec_lit_tail());
}

#[verifier::spinoff_prover]
proof fn lemma_config_total_len(m: ConfigModel)
    ensures
        spec_config_bytes(m).len() == off17(m),
{
}

#[verifier::spinoff_prover]
#[verifier::rlimit(100)]
proof fn lemma_config_steps_head(m: ConfigModel)
    ensures
        spec_expect(spec_config_bytes(m), 0, spec_lit_head()) == Some(off1(m)),
        spec_take_string(spec_config_bytes(m), off1(m)) == Some((encode_utf8(m.host), off2(m))),
        spec_expect(spec_config_bytes(m), off2(m), spec_lit_after_host()) == Some(off3(m)),
        spec_take_port(spec_config_bytes(m), off3(m)) == Some((m.port, off4(m))),
        spec_expect(spec_config_bytes(m), off4(m), spec_lit_after_port()) == Some(off5(m)),
        spec_take_bool(spec_config_bytes(m), off5(m)) == Some((m.use_ssl, off6(m))),
        spec_expect(spec_config_bytes(m), off6(m), spec_lit_after_ssl()) == Some(off7(m)),
        spec_take_string(spec_config_bytes(m), off7(m)) == Some((encode_utf8(m.openai), off8(m))),
        spec_expect(spec_config_bytes(m), off8(m), spec_lit_after_openai()) == Some(off9(m)),
{
    let b = spec_config_bytes(m);
    lemma_config_layout_head(m);
    lemma_config_layout_mid(m);
    lemma_config_total_len(m);

    assert(spec_expect(b, 0, spec_lit_head()) == Some(off1(m)));

    assert(b[off2(m)] == spec_lit_after_host()[0]) by {
        assert(b.subrange(off2(m), off3(m))[0] == spec_lit_after_host()[0]);
    }
    lemma_take_string_escape(b, off1(m), encode_utf8(m.host));

    assert(spec_expect(b, off2(m), spec_lit_after_host()) == Some(off3(m)));

    assert(b[off4(m)] == spec_lit_after_port()[0]) by {
        assert(b.subrange(off4(m), off5(m))[0] == spec_lit_after_port()[0]);
    }
    assert(!is_digit(b[off4(m)]));
    lemma_take_port_dec(b, off3(m), m.port as int);

    assert(spec_expect(b, off4(m), spec_lit_after_port()) == Some(off5(m)));

    lemma_take_bool_lit(b, off5(m), m.use_ssl);

    assert(spec_expect(b, off6(m), spec_lit_after_ssl()) == Some(off7(m)));

    assert(b[off8(m)] == spec_lit_after_openai()[0]) by {
        assert(b.subrange(off8(m), off9(m))[0] == spec_lit_after_openai()[0]);
    }
    lemma_take_string_escape(b, off7(m), encode_utf8(m.openai));

    assert(spec_expect(b, off8(m), spec_lit_after_openai()) == Some(off9(m)));
}

#[verifier::spinoff_prover]
#[verifier::rlimit(100)]
proof fn lemma_config_steps_tail(m: ConfigModel)
    ensures
        spec_take_string(spec_config_bytes(m), off9(m)) == Some((encode_utf8(m.fal), off10(m))),
        spec_expect(spec_config_bytes(m), off10(m), spec_lit_after_fal()) == Some(off11(m)),
        spec_take_bool(spec_config_bytes(m), off11(m)) == Some((m.prompt_sanitizer, off12(m))),
        spec_expect(spec_config_bytes(m), off12(m), spec_lit_after_sanitizer()) == Some(off13(m)),
        spec_take_bool(spec_config_bytes(m), off13(m)) == Some((m.seed_generation, off14(m))),
        spec_expect(spec_config_bytes(m), off14(m), spec_lit_after_seed()) == Some(off15(m)),
        spec_take_bool(spec_config_bytes(m), off15(m)) == Some((m.use_standalone_engine, off16(m))),
        spec_expect(spec_config_bytes(m), off16(m), spec_lit_tail()) == Some(off17(m)),
        spec_config_bytes(m).len() == off17(m),
{
    let b = spec_config_bytes(m);
    lemma_config_layout_mid(m);
    lemma_config_layout_tail(m);
    lemma_config_total_len(m);

    assert(b[off10(m)] == spec_lit_after_fal()[0]) by {
        assert(b.subrange(off10(m), off11(m))[0] == spec_lit_after_fal()[0]);
    }
    lemma_take_string_escape(b, off9(m), encode_utf8(m.fal));

    assert(spec_expect(b, off10(m), spec_lit_after_fal()) == Some(off11(m)));

    lemma_take_bool_lit(b, off11(m), m.prompt_sanitizer);

    assert(spec_expect(b, off12(m), spec_lit_after_sanitizer()) == Some(off13(m)));

    lemma_take_bool_lit(b, off13(m), m.seed_generation);

    assert(spec_expect(b, off14(m), spec_lit_after_seed()) == Some(off15(m)));

    lemma_take_bool_lit(b, off15(m), m.use_standalone_engine);

    assert(spec_expect(b, off16(m), spec_lit_tail()) == Some(off17(m)));
}

/// Round trip: the canonical bytes of any configuration are read back as
/// exactly that configuration, both by the canonical recognizer and hence
/// by the reader.
#[verifier::spinoff_prover]
#[verifier::rlimit(100)]
pub proof fn lemma_config_round_trip(m: ConfigModel)
    ensures
        spec_parse_canonical(spec_config_bytes(m)) == Some(m),
        spec_read_config(spec_config_bytes(m)) == Some(m),
{
    broadcast use vstd::utf8::encode_utf8_decode_utf8;
    broadcast use vstd::utf8::encode_utf8_valid_utf8;

    let b = spec_config_bytes(m);
    lemma_config_steps_head(m);
    lemma_config_steps_tail(m);
    assert(spec_parse_canonical(b) matches Some(r) && r =~= m);
}

/// The member key `host`.
pub open spec fn key_host() -> Seq<u8> {
    seq![104u8, 111u8, 115u8, 116u8]
}

fn key_host_name() -> (r: Vec<u8>)
    ensures
        r@ == key_host(),
{
    let r: Vec<u8> = vec![104u8, 111u8, 115u8, 116u8];
    proof {
        assert(r@ =~= key_host());
    }
    r
}

/// The member key `port`.
pub open spec fn key_port() -> Seq<u8> {
    seq![112u8, 111u8, 114u8, 116u8]
}

fn key_port_name() -> (r: Vec<u8>)
    ensures
        r@ == key_port(),
{
    let r: Vec<u8> = vec![112u8, 111u8, 114u8, 116u8];
    proof {
        assert(r@ =~= key_port());
    }
    r
}

/// The member key `use_ssl`.
pub open spec fn key_use_ssl() -> Seq<u8> {
    seq![117u8, 115u8, 101u8, 95u8, 115u8, 115u8, 108u8]
}

fn key_use_ssl_name() -> (r: Vec<u8>)
    ensures
        r@ == key_use_ssl(),
{
    let r: Vec<u8> = vec![117u8, 115u8, 101u8, 95u8, 115u8, 115u8, 108u8];
    proof {
        assert(r@ =~= key_use_ssl());
    }
    r
}

/// The member key `openai`.
pub open spec fn key_openai() -> Seq<u8> {
    seq![111u8, 112u8, 101u8, 110u8, 97u8, 105u8]
}

fn key_openai_name() -> (r: Vec<u8>)
    ensures
        r@ == key_openai(),
{
    let r: Vec<u8> = vec![111u8, 112u8, 101u8, 110u8, 97u8, 105u8];
    proof {
        assert(r@ =~= key_openai());
    }
    r
}

/// The member key `fal`.
pub open spec fn key_fal() -> Seq<u8> {
    seq![102u8, 97u8, 108u8]
}

fn key_fal_name() -> (r: Vec<u8>)
    ensures
        r@ == key_fal(),
{
    let r: Vec<u8> = vec![102u8, 97u8, 108u8];
    proof {
        assert(r@ =~= key_fal());
    }
    r
}

/// The member key `prompt_sanitizer`.
pub open spec fn key_prompt_sanitizer() -> Seq<u8> {
    seq![112u8, 114u8, 111u8, 109u8, 112u8, 116u8, 95u8, 115u8, 97u8, 110u8, 105u8, 116u8, 105u8, 122u8, 101u8, 114u8]
}

fn key_prompt_sanitizer_name() -> (r: Vec<u8>)
    ensures
        r@ == key_prompt_sanitizer(),
{
    let r: Vec<u8> = vec![112u8, 114u8, 111u8, 109u8, 112u8, 116u8, 95u8, 115u8, 97u8, 110u8, 105u8, 116u8, 105u8, 122u8, 101u8, 114u8];
    proof {
        assert(r@ =~= key_prompt_sanitizer());
    }
    r
}

/// The member key `seed_generation`.
pub open spec fn key_seed_generation() -> Seq<u8> {
    seq![115u8, 101u8, 101u8, 100u8, 95u8, 103u8, 101u8, 110u8, 101u8, 114u8, 97u8, 116u8, 105u8, 111u8, 110u8]
}

fn key_seed_generation_name() -> (r: Vec<u8>)
    ensures
        r@ == key_seed_generation(),
{
    let r: Vec<u8> = vec![115u8, 101u8, 101u8, 100u8, 95u8, 103u8, 101u8, 110u8, 101u8, 114u8, 97u8, 116u8, 105u8, 111u8, 110u8];
    proof {
        assert(r@ =~= key_seed_generation());
    }
    r
}

/// The member key `use_standalone_engine`.
pub open spec fn key_use_standalone_engine() -> Seq<u8> {
    seq![117u8, 115u8, 101u8, 95u8, 115u8, 116u8, 97u8, 110u8, 100u8, 97u8, 108u8, 111u8, 110u8, 101u8, 95u8, 101u8, 110u8, 103u8, 105u8, 110u8, 101u8]
}

fn key_use_standalone_engine_name() -> (r: Vec<u8>)
    ensures
        r@ == key_use_standalone_engine(),
{
    let r: Vec<u8> = vec![117u8, 115u8, 101u8, 95u8, 115u8, 116u8, 97u8, 110u8, 100u8, 97u8, 108u8, 111u8, 110u8, 101u8, 95u8, 101u8, 110u8, 103u8, 105u8, 110u8, 101u8];
    proof {
        assert(r@ =~= key_use_standalone_engine());
    }
    r
}

/// The member key `gpu_server`.
pub open spec fn key_gpu_server() -> Seq<u8> {
    seq![103u8, 112u8, 117u8, 95u8, 115u8, 101u8, 114u8, 118u8, 101u8, 114u8]
}

fn key_gpu_server_name() -> (r: Vec<u8>)
    ensures
        r@ == key_gpu_server(),
{
    let r: Vec<u8> = vec![103u8, 112u8, 117u8, 95u8, 115u8, 101u8, 114u8, 118u8, 101u8, 114u8];
    proof {
        assert(r@ =~= key_gpu_server());
    }
    r
}

/// The member key `api_keys`.
pub open spec fn key_api_keys() -> Seq<u8> {
    seq![97u8, 112u8, 105u8, 95u8, 107u8, 101u8, 121u8, 115u8]
}

fn key_api_keys_name() -> (r: Vec<u8>)
    ensures
        r@ == key_api_keys(),
{
    let r: Vec<u8> = vec![97u8, 112u8, 105u8, 95u8, 107u8, 101u8, 121u8, 115u8];
    proof {
        assert(r@ =~= key_api_keys());
    }
    r
}

/// The member key `features`.
pub open spec fn key_features() -> Seq<u8> {
    seq![102u8, 101u8, 97u8, 116u8, 117u8, 114u8, 101u8, 115u8]
}

fn key_features_name() -> (r: Vec<u8>)
    ensures
        r@ == key_features(),
{
    let r: Vec<u8> = vec![102u8, 101u8, 97u8, 116u8, 117u8, 114u8, 101u8, 115u8];
    proof {
        assert(r@ =~= key_features());
    }
    r
}

/// A JSON whitespace byte: space, tab, line feed or carriage return.
pub open spec fn is_ws_byte(b: u8) -> bool {
    b == 32 || b == 9 || b == 10 || b == 13
}

/// The first position at or after `i` holding no whitespace.
pub open spec fn spec_skip_ws(b: Seq<u8>, i: int) -> int
    decreases b.len() - i,
{
    if 0 <= i && i < b.len() && is_ws_byte(b[i]) {
        spec_skip_ws(b, i + 1)
    } else {
        i
    }
}

/// The position after the punctuation byte `c`, whitespace before it
/// allowed.
pub open spec fn spec_tok_byte(b: Seq<u8>, i: int, c: u8) -> Option<int> {
    let j = spec_skip_ws(b, i);
    if 0 <= j && j < b.len() && b[j] == c {
        Some(j + 1)
    } else {
        None
    }
}

/// A quoted string token, whitespace before it allowed: its unescaped
/// content and the position after the closing quote.
pub open spec fn spec_tok_string(b: Seq<u8>, i: int) -> Option<(Seq<u8>, int)> {
    let j = spec_skip_ws(b, i);
    if 0 <= j && j < b.len() && b[j] == quote_byte() {
        match spec_take_string(b, j + 1) {
            Some((s, k)) => Some((s, k + 1)),
            None => None,
        }
    } else {
        None
    }
}

/// A port number token, whitespace before it allowed.
pub open spec fn spec_tok_port(b: Seq<u8>, i: int) -> Option<(u16, int)> {
    spec_take_port(b, spec_skip_ws(b, i))
}

/// A boolean token, whitespace before it allowed.
pub open spec fn spec_tok_bool(b: Seq<u8>, i: int) -> Option<(bool, int)> {
    spec_take_bool(b, spec_skip_ws(b, i))
}

/// One `"key": value` member of the gpu server object, filling the one
/// slot its key names; an unknown or repeated key is rejected.
pub open spec fn spec_gpu_member(b: Seq<u8>, i: int, st: (Option<Seq<u8>>, Option<u16>, Option<bool>)) -> Option<
    ((Option<Seq<u8>>, Option<u16>, Option<bool>), int),
> {
    match spec_tok_string(b, i) {
        None => None,
        Some((key, i2)) => match spec_tok_byte(b, i2, 58u8) {
            None => None,
            Some(i3) => if key == key_host() {
                if st.0 is Some {
                    None
                } else {
                    match spec_tok_string(b, i3) {
                        Some((v, i4)) => Some(((Some(v), st.1, st.2), i4)),
                        None => None,
                    }
                }
            } else if key == key_port() {
                if st.1 is Some {
                    None
                } else {
                    match spec_tok_port(b, i3) {
                        Some((v, i4)) => Some(((st.0, Some(v), st.2), i4)),
                        None => None,
                    }
                }
            } else if key == key_use_ssl() {
                if st.2 is Some {
                    None
                } else {
                    match spec_tok_bool(b, i3) {
                        Some((v, i4)) => Some(((st.0, st.1, Some(v)), i4)),
                        None => None,
                    }
                }
            } else {
                None
            },
        },
    }
}

/// The gpu server object: three members in any order, each key once.
pub open spec fn spec_gpu_object(b: Seq<u8>, i: int) -> Option<((Seq<u8>, u16, bool), int)> {
    match spec_tok_byte(b, i, 123u8) {
        None => None,
        Some(i1) => match spec_gpu_member(b, i1, (None, None, None)) {
            None => None,
            Some((s1, i2)) => match spec_tok_byte(b, i2, 44u8) {
                None => None,
                Some(i3) => match spec_gpu_member(b, i3, s1) {
                    None => None,
                    Some((s2, i4)) => match spec_tok_byte(b, i4, 44u8) {
                        None => None,
                        Some(i5) => match spec_gpu_member(b, i5, s2) {
                            None => None,
                            Some((s3, i6)) => match spec_tok_byte(b, i6, 125u8) {
                                None => None,
                                Some(i7) => match s3 {
                                    (Some(h), Some(p), Some(u)) => Some(((h, p, u), i7)),
                                    _ => None,
                                },
                            },
                        },
                    },
                },
            },
        },
    }
}

/// One member of the api keys object.
pub open spec fn spec_keys_member(b: Seq<u8>, i: int, st: (Option<Seq<u8>>, Option<Seq<u8>>)) -> Option<
    ((Option<Seq<u8>>, Option<Seq<u8>>), int),
> {
    match spec_tok_string(b, i) {
        None => None,
        Some((key, i2)) => match spec_tok_byte(b, i2, 58u8) {
            None => None,
            Some(i3) => if key == key_openai() {
                if st.0 is Some {
                    None
                } else {
                    match spec_tok_string(b, i3) {
                        Some((v, i4)) => Some(((Some(v), st.1), i4)),
                        None => None,
                    }
                }
            } else if key == key_fal() {
                if st.1 is Some {
                    None
                } else {
                    match spec_tok_string(b, i3) {
                        Some((v, i4)) => Some(((st.0, Some(v)), i4)),
                        None => None,
                    }
                }
            } else {
                None
            },
        },
    }
}

/// The api keys object: two members in any order, each key once.
pub open spec fn spec_keys_object(b: Seq<u8>, i: int) -> Option<((Seq<u8>, Seq<u8>), int)> {
    match spec_tok_byte(b, i, 123u8) {
        None => None,
        Some(i1) => match spec_keys_member(b, i1, (None, None)) {
            None => None,
            Some((s1, i2)) => match spec_tok_byte(b, i2, 44u8) {
                None => None,
                Some(i3) => match spec_keys_member(b, i3, s1) {
                    None => None,
                    Some((s2, i4)) => match spec_tok_byte(b, i4, 125u8) {
                        None => None,
                        Some(i5) => match s2 {
                            (Some(o), Some(f)) => Some(((o, f), i5)),
                            _ => None,
                        },
                    },
                },
            },
        },
    }
}

/// One member of the features object.
pub open spec fn spec_features_member(b: Seq<u8>, i: int, st: (Option<bool>, Option<bool>, Option<bool>)) -> Option<
    ((Option<bool>, Option<bool>, Option<bool>), int),
> {
    match spec_tok_string(b, i) {
        None => None,
        Some((key, i2)) => match spec_tok_byte(b, i2, 58u8) {
            None => None,
            Some(i3) => if key == key_prompt_sanitizer() {
                if st.0 is Some {
                    None
                } else {
                    match spec_tok_bool(b, i3) {
                        Some((v, i4)) => Some(((Some(v), st.1, st.2), i4)),
                        None => None,
                    }
                }
            } else if key == key_seed_generation() {
                if st.1 is Some {
                    None
                } else {
                    match spec_tok_bool(b, i3) {
                        Some((v, i4)) => Some(((st.0, Some(v), st.2), i4)),
                        None => None,
                    }
                }
            } else if key == key_use_standalone_engine() {
                if st.2 is Some {
                    None
                } else {
                    match spec_tok_bool(b, i3) {
                        Some((v, i4)) => Some(((st.0, st.1, Some(v)), i4)),
                        None => None,
                    }
                }
            } else {
                None
            },
        },
    }
}

/// The features object: three members in any order, each key once.
pub open spec fn spec_features_object(b: Seq<u8>, i: int) -> Option<((bool, bool, bool), int)> {
    match spec_tok_byte(b, i, 123u8) {
        None => None,
        Some(i1) => match spec_features_member(b, i1, (None, None, None)) {
            None => None,
            Some((s1, i2)) => match spec_tok_byte(b, i2, 44u8) {
                None => None,
                Some(i3) => match spec_features_member(b, i3, s1) {
                    None => None,
                    Some((s2, i4)) => match spec_tok_byte(b, i4, 44u8) {
                        None => None,
                        Some(i5) => match spec_features_member(b, i5, s2) {
                            None => None,
                            Some((s3, i6)) => match spec_tok_byte(b, i6, 125u8) {
                                None => None,
                                Some(i7) => match s3 {
                                    (Some(ps), Some(sg), Some(us)) => Some(((ps, sg, us), i7)),
                                    _ => None,
                                },
                            },
                        },
                    },
                },
            },
        },
    }
}

/// One member of the top-level object, its value the named section object.
pub open spec fn spec_top_member(
    b: Seq<u8>,
    i: int,
    st: (Option<(Seq<u8>, u16, bool)>, Option<(Seq<u8>, Seq<u8>)>, Option<(bool, bool, bool)>),
) -> Option<
    (
        (Option<(Seq<u8>, u16, bool)>, Option<(Seq<u8>, Seq<u8>)>, Option<(bool, bool, bool)>),
        int,
    ),
> {
    match spec_tok_string(b, i) {
        None => None,
        Some((key, i2)) => match spec_tok_byte(b, i2, 58u8) {
            None => None,
            Some(i3) => if key == key_gpu_server() {
                if st.0 is Some {
                    None
                } else {
                    match spec_gpu_object(b, i3) {
                        Some((v, i4)) => Some(((Some(v), st.1, st.2), i4)),
                        None => None,
                    }
                }
            } else if key == key_api_keys() {
                if st.1 is Some {
                    None
                } else {
                    match spec_keys_object(b, i3) {
                        Some((v, i4)) => Some(((st.0, Some(v), st.2), i4)),
                        None => None,
                    }
                }
            } else if key == key_features() {
                if st.2 is Some {
                    None
                } else {
                    match spec_features_object(b, i3) {
                        Some((v, i4)) => Some(((st.0, st.1, Some(v)), i4)),
                        None => None,
                    }
                }
            } else {
                None
            },
        },
    }
}

/// The configuration written in `b` as schema JSON: the three section
/// objects and their members in any order, whitespace anywhere between
/// tokens, trailing whitespace allowed, every key exactly once.
pub open spec fn spec_parse_general(b: Seq<u8>) -> Option<ConfigModel> {
    match spec_tok_byte(b, 0, 123u8) {
        None => None,
        Some(i1) => match spec_top_member(b, i1, (None, None, None)) {
            None => None,
            Some((s1, i2)) => match spec_tok_byte(b, i2, 44u8) {
                None => None,
                Some(i3) => match spec_top_member(b, i3, s1) {
                    None => None,
                    Some((s2, i4)) => match spec_tok_byte(b, i4, 44u8) {
                        None => None,
                        Some(i5) => match spec_top_member(b, i5, s2) {
                            None => None,
                            Some((s3, i6)) => match spec_tok_byte(b, i6, 125u8) {
                                None => None,
                                Some(i7) => match s3 {
                                    (Some(g), Some(k), Some(f)) => if spec_skip_ws(b, i7)
                                        == b.len() && valid_utf8(g.0) && valid_utf8(k.0)
                                        && valid_utf8(k.1) {
                                        Some(
                                            ConfigModel {
                                                host: decode_utf8(g.0),
                                                port: g.1,
                                                use_ssl: g.2,
                                                openai: decode_utf8(k.0),
                                                fal: decode_utf8(k.1),
                                                prompt_sanitizer: f.0,
                                                seed_generation: f.1,
                                                use_standalone_engine: f.2,
                                            },
                                        )
                                    } else {
                                        None
                                    },
                                    _ => None,
                                },
                            },
                        },
                    },
                },
            },
        },
    }
}

/// The configuration a config file's bytes denote: the canonical layout is
/// recognized directly, and any other layout of the same schema through the
/// general reader.
pub open spec fn spec_read_config(b: Seq<u8>) -> Option<ConfigModel> {
    if spec_parse_canonical(b) is Some {
        spec_parse_canonical(b)
    } else {
        spec_parse_general(b)
    }
}

/// The byte-string model of an optional buffer.
pub open spec fn opt_buf_model(o: Option<Vec<u8>>) -> Option<Seq<u8>> {
    match o {
        Some(v) => Some(v@),
        None => None,
    }
}

/// The model of the gpu member slots.
pub open spec fn gpu_state_model(st: (Option<Vec<u8>>, Option<u16>, Option<bool>)) -> (
    Option<Seq<u8>>,
    Option<u16>,
    Option<bool>,
) {
    (opt_buf_model(st.0), st.1, st.2)
}

/// The model of the api keys member slots.
pub open spec fn keys_state_model(st: (Option<Vec<u8>>, Option<Vec<u8>>)) -> (
    Option<Seq<u8>>,
    Option<Seq<u8>>,
) {
    (opt_buf_model(st.0), opt_buf_model(st.1))
}

/// The model of the top-level member slots.
pub open spec fn top_state_model(
    st: (Option<(Vec<u8>, u16, bool)>, Option<(Vec<u8>, Vec<u8>)>, Option<(bool, bool, bool)>),
) -> (Option<(Seq<u8>, u16, bool)>, Option<(Seq<u8>, Seq<u8>)>, Option<(bool, bool, bool)>) {
    (
        match st.0 {
            Some(t) => Some((t.0@, t.1, t.2)),
            None => None,
        },
        match st.1 {
            Some(t) => Some((t.0@, t.1@)),
            None => None,
        },
        st.2,
    )
}

fn skip_ws_at(b: &[u8], i: usize) -> (r: usize)
    ensures
        r as int == spec_skip_ws(b@, i as int),
        i <= r,
{
    let mut j = i;
    while j < b.len() && (b[j] == 32 || b[j] == 9 || b[j] == 10 || b[j] == 13)
        invariant
            i <= j,
            spec_skip_ws(b@, i as int) == spec_skip_ws(b@, j as int),
        decreases b@.len() - j,
    {
        j += 1;
    }
    proof {
        assert(spec_skip_ws(b@, j as int) == j as int);
    }
    j
}

fn tok_byte_at(b: &[u8], i: usize, c: u8) -> (r: Option<usize>)
    ensures
        r matches Some(j) ==> spec_tok_byte(b@, i as int, c) == Some(j as int),
        r is None ==> spec_tok_byte(b@, i as int, c) is None,
{
    let j = skip_ws_at(b, i);
    if j < b.len() && b[j] == c {
        Some(j + 1)
    } else {
        None
    }
}

fn tok_string_at(b: &[u8], i: usize) -> (r: Option<(Vec<u8>, usize)>)
    ensures
        r matches Some(p) ==> spec_tok_string(b@, i as int) == Some((p.0@, p.1 as int)) && p.1
            <= b@.len(),
        r is None ==> spec_tok_string(b@, i as int) is None,
{
    let j = skip_ws_at(b, i);
    if j < b.len() && b[j] == 34 {
        match take_string_at(b, j + 1) {
            Some(p) => Some((p.0, p.1 + 1)),
            None => None,
        }
    } else {
        None
    }
}

fn tok_port_at(b: &[u8], i: usize) -> (r: Option<(u16, usize)>)
    ensures
        r matches Some(p) ==> spec_tok_port(b@, i as int) == Some((p.0, p.1 as int)),
        r is None ==> spec_tok_port(b@, i as int) is None,
{
    let j = skip_ws_at(b, i);
    take_port_at(b, j)
}

fn tok_bool_at(b: &[u8], i: usize) -> (r: Option<(bool, usize)>)
    ensures
        r matches Some(p) ==> spec_tok_bool(b@, i as int) == Some((p.0, p.1 as int)),
        r is None ==> spec_tok_bool(b@, i as int) is None,
{
    let j = skip_ws_at(b, i);
    take_bool_at(b, j)
}

fn gpu_member_at(b: &[u8], i: usize, st: (Option<Vec<u8>>, Option<u16>, Option<bool>)) -> (r:
    Option<((Option<Vec<u8>>, Option<u16>, Option<bool>), usize)>)
    ensures
        r matches Some(p) ==> spec_gpu_member(b@, i as int, gpu_state_model(st)) == Some(
            (gpu_state_model(p.0), p.1 as int),
        ),
        r is None ==> spec_gpu_member(b@, i as int, gpu_state_model(st)) is None,
{
    let (key, i2) = match tok_string_at(b, i) {
        Some(p) => p,
        None => {
            return None;
        },
    };
    let i3 = match tok_byte_at(b, i2, 58) {
        Some(j) => j,
        None => {
            return None;
        },
    };
    let host_key = key_host_name();
    let port_key = key_port_name();
    let ssl_key = key_use_ssl_name();
    let (sh, sp, ss) = st;
    if bytes_eq(key.as_slice(), host_key.as_slice()) {
        if sh.is_some() {
            return None;
        }
        match tok_string_at(b, i3) {
            Some((v, i4)) => Some(((Some(v), sp, ss), i4)),
            None => None,
        }
    } else if bytes_eq(key.as_slice(), port_key.as_slice()) {
        if sp.is_some() {
            return None;
        }
        match tok_port_at(b, i3) {
            Some((v, i4)) => Some(((sh, Some(v), ss), i4)),
            None => None,
        }
    } else if bytes_eq(key.as_slice(), ssl_key.as_slice()) {
        if ss.is_some() {
            return None;
        }
        match tok_bool_at(b, i3) {
            Some((v, i4)) => Some(((sh, sp, Some(v)), i4)),
            None => None,
        }
    } else {
        None
    }
}

fn keys_member_at(b: &[u8], i: usize, st: (Option<Vec<u8>>, Option<Vec<u8>>)) -> (r: Option<
    ((Option<Vec<u8>>, Option<Vec<u8>>), usize),
>)
    ensures
        r matches Some(p) ==> spec_keys_member(b@, i as int, keys_state_model(st)) == Some(
            (keys_state_model(p.0), p.1 as int),
        ),
        r is None ==> spec_keys_member(b@, i as int, keys_state_model(st)) is None,
{
    let (key, i2) = match tok_string_at(b, i) {
        Some(p) => p,
        None => {
            return None;
        },
    };
    let i3 = match tok_byte_at(b, i2, 58) {
        Some(j) => j,
        None => {
            return None;
        },
    };
    let openai_key = key_openai_name();
    let fal_key = key_fal_name();
    let (so, sf) = st;
    if bytes_eq(key.as_slice(), openai_key.as_slice()) {
        if so.is_some() {
            return None;
        }
        match tok_string_at(b, i3) {
            Some((v, i4)) => Some(((Some(v), sf), i4)),
            None => None,
        }
    } else if bytes_eq(key.as_slice(), fal_key.as_slice()) {
        if sf.is_some() {
            return None;
        }
        match tok_string_at(b, i3) {
            Some((v, i4)) => Some(((so, Some(v)), i4)),
            None => None,
        }
    } else {
        None
    }
}

fn features_member_at(b: &[u8], i: usize, st: (Option<bool>, Option<bool>, Option<bool>)) -> (r:
    Option<((Option<bool>, Option<bool>, Option<bool>), usize)>)
    ensures
        r matches Some(p) ==> spec_features_member(b@, i as int, st) == Some((p.0, p.1 as int)),
        r is None ==> spec_features_member(b@, i as int, st) is None,
{
    let (key, i2) = match tok_string_at(b, i) {
        Some(p) => p,
        None => {
            return None;
        },
    };
    let i3 = match tok_byte_at(b, i2, 58) {
        Some(j) => j,
        None => {
            return None;
        },
    };
    let ps_key = key_prompt_sanitizer_name();
    let sg_key = key_seed_generation_name();
    let us_key = key_use_standalone_engine_name();
    let (s0, s1, s2) = st;
    if bytes_eq(key.as_slice(), ps_key.as_slice()) {
        if s0.is_some() {
            return None;
        }
        match tok_bool_at(b, i3) {
            Some((v, i4)) => Some(((Some(v), s1, s2), i4)),
            None => None,
        }
    } else if bytes_eq(key.as_slice(), sg_key.as_slice()) {
        if s1.is_some() {
            return None;
        }
        match tok_bool_at(b, i3) {
            Some((v, i4)) => Some(((s0, Some(v), s2), i4)),
            None => None,
        }
    } else if bytes_eq(key.as_slice(), us_key.as_slice()) {
        if s2.is_some() {
            return None;
        }
        match tok_bool_at(b, i3) {
            Some((v, i4)) => Some(((s0, s1, Some(v)), i4)),
            None => None,
        }
    } else {
        None
    }
}

fn gpu_object_at(b: &[u8], i: usize) -> (r: Option<((Vec<u8>, u16, bool), usize)>)
    ensures
        r matches Some(p) ==> spec_gpu_object(b@, i as int) == Some(
            ((p.0.0@, p.0.1, p.0.2), p.1 as int),
        ),
        r is None ==> spec_gpu_object(b@, i as int) is None,
{
    let i1 = match tok_byte_at(b, i, 123) {
        Some(j) => j,
        None => {
            return None;
        },
    };
    let (s1, i2) = match gpu_member_at(b, i1, (None, None, None)) {
        Some(p) => p,
        None => {
            return None;
        },
    };
    let i3 = match tok_byte_at(b, i2, 44) {
        Some(j) => j,
        None => {
            return None;
        },
    };
    let (s2, i4) = match gpu_member_at(b, i3, s1) {
        Some(p) => p,
        None => {
            return None;
        },
    };
    let i5 = match tok_byte_at(b, i4, 44) {
        Some(j) => j,
        None => {
            return None;
        },
    };
    let (s3, i6) = match gpu_member_at(b, i5, s2) {
        Some(p) => p,
        None => {
            return None;
        },
    };
    let i7 = match tok_byte_at(b, i6, 125) {
        Some(j) => j,
        None => {
            return None;
        },
    };
    match s3 {
        (Some(h), Some(p), Some(u)) => Some(((h, p, u), i7)),
        _ => None,
    }
}

fn keys_object_at(b: &[u8], i: usize) -> (r: Option<((Vec<u8>, Vec<u8>), usize)>)
    ensures
        r matches Some(p) ==> spec_keys_object(b@, i as int) == Some(
            ((p.0.0@, p.0.1@), p.1 as int),
        ),
        r is None ==> spec_keys_object(b@, i as int) is None,
{
    let i1 = match tok_byte_at(b, i, 123) {
        Some(j) => j,
        None => {
            return None;
        },
    };
    let (s1, i2) = match keys_member_at(b, i1, (None, None)) {
        Some(p) => p,
        None => {
            return None;
        },
    };
    let i3 = match tok_byte_at(b, i2, 44) {
        Some(j) => j,
        None => {
            return None;
        },
    };
    let (s2, i4) = match keys_member_at(b, i3, s1) {
        Some(p) => p,
        None => {
            return None;
        },
    };
    let i5 = match tok_byte_at(b, i4, 125) {
        Some(j) => j,
        None => {
            return None;
        },
    };
    match s2 {
        (Some(o), Some(f)) => Some(((o, f), i5)),
        _ => None,
    }
}

fn features_object_at(b: &[u8], i: usize) -> (r: Option<((bool, bool, bool), usize)>)
    ensures
        r matches Some(p) ==> spec_features_object(b@, i as int) == Some((p.0, p.1 as int)),
        r is None ==> spec_features_object(b@, i as int) is None,
{
    let i1 = match tok_byte_at(b, i, 123) {
        Some(j) => j,
        None => {
            return None;
        },
    };
    let (s1, i2) = match features_member_at(b, i1, (None, None, None)) {
        Some(p) => p,
        None => {
            return None;
        },
    };
    let i3 = match tok_byte_at(b, i2, 44) {
        Some(j) => j,
        None => {
            return None;
        },
    };
    let (s2, i4) = match features_member_at(b, i3, s1) {
        Some(p) => p,
        None => {
            return None;
        },
    };
    let i5 = match tok_byte_at(b, i4, 44) {
        Some(j) => j,
        None => {
            return None;
        },
    };
    let (s3, i6) = match features_member_at(b, i5, s2) {
        Some(p) => p,
        None => {
            return None;
        },
    };
    let i7 = match tok_byte_at(b, i6, 125) {
        Some(j) => j,
        None => {
            return None;
        },
    };
    match s3 {
        (Some(ps), Some(sg), Some(us)) => Some(((ps, sg, us), i7)),
        _ => None,
    }
}

fn top_member_at(
    b: &[u8],
    i: usize,
    st: (Option<(Vec<u8>, u16, bool)>, Option<(Vec<u8>, Vec<u8>)>, Option<(bool, bool, bool)>),
) -> (r: Option<
    (
        (Option<(Vec<u8>, u16, bool)>, Option<(Vec<u8>, Vec<u8>)>, Option<(bool, bool, bool)>),
        usize,
    ),
>)
    ensures
        r matches Some(p) ==> spec_top_member(b@, i as int, top_state_model(st)) == Some(
            (top_state_model(p.0), p.1 as int),
        ),
        r is None ==> spec_top_member(b@, i as int, top_state_model(st)) is None,
{
    let (key, i2) = match tok_string_at(b, i) {
        Some(p) => p,
        None => {
            return None;
        },
    };
    let i3 = match tok_byte_at(b, i2, 58) {
        Some(j) => j,
        None => {
            return None;
        },
    };
    let gpu_key = key_gpu_server_name();
    let keys_key = key_api_keys_name();
    let features_key = key_features_name();
    let (sg, sk, sf) = st;
    if bytes_eq(key.as_slice(), gpu_key.as_slice()) {
        if sg.is_some() {
            return None;
        }
        match gpu_object_at(b, i3) {
            Some((v, i4)) => Some(((Some(v), sk, sf), i4)),
            None => None,
        }
    } else if bytes_eq(key.as_slice(), keys_key.as_slice()) {
        if sk.is_some() {
            return None;
        }
        match keys_object_at(b, i3) {
            Some((v, i4)) => Some(((sg, Some(v), sf), i4)),
            None => None,
        }
    } else if bytes_eq(key.as_slice(), features_key.as_slice()) {
        if sf.is_some() {
            return None;
        }
        match features_object_at(b, i3) {
            Some((v, i4)) => Some(((sg, sk, Some(v)), i4)),
            None => None,
        }
    } else {
        None
    }
}

/// The general reader: the same schema in any member order and whitespace.
fn parse_general(b: &[u8]) -> (r: Option<AppConfig>)
    ensures
        r matches Some(c) ==> spec_parse_general(b@) == Some(config_model(c)),
        r is None ==> spec_parse_general(b@) is None,
{
    let i1 = match tok_byte_at(b, 0, 123) {
        Some(j) => j,
        None => {
            return None;
        },
    };
    let (s1, i2) = match top_member_at(b, i1, (None, None, None)) {
        Some(p) => p,
        None => {
            return None;
        },
    };
    let i3 = match tok_byte_at(b, i2, 44) {
        Some(j) => j,
        None => {
            return None;
        },
    };
    let (s2, i4) = match top_member_at(b, i3, s1) {
        Some(p) => p,
        None => {
            return None;
        },
    };
    let i5 = match tok_byte_at(b, i4, 44) {
        Some(j) => j,
        None => {
            return None;
        },
    };
    let (s3, i6) = match top_member_at(b, i5, s2) {
        Some(p) => p,
        None => {
            return None;
        },
    };
    let i7 = match tok_byte_at(b, i6, 125) {
        Some(j) => j,
        None => {
            return None;
        },
    };
    let (g, k, f) = match s3 {
        (Some(g), Some(k), Some(f)) => (g, k, f),
        _ => {
            return None;
        },
    };
    let end = skip_ws_at(b, i7);
    if end != b.len() {
        return None;
    }
    let (hostv, port, use_ssl) = g;
    let (openaiv, falv) = k;
    let host = match string_from_bytes(hostv) {
        Some(s) => s,
        None => {
            return None;
        },
    };
    let openai = match string_from_bytes(openaiv) {
        Some(s) => s,
        None => {
            return None;
        },
    };
    let fal = match string_from_bytes(falv) {
        Some(s) => s,
        None => {
            return None;
        },
    };
    let c = AppConfig {
        gpu_server: GpuServerConfig { host, port, use_ssl },
        api_keys: ApiKeysConfig { openai, fal },
        features: FeaturesConfig {
            prompt_sanitizer: f.0,
            seed_generation: f.1,
            use_standalone_engine: f.2,
        },
    };
    proof {
        assert(spec_parse_general(b@) matches Some(m) && m =~= config_model(c));
    }
    Some(c)
}

/// The configuration read from config bytes: the canonical layout is
/// recognized directly, and any other member order or whitespace of the
/// same schema through the general reader. A failure carries the fixed
/// parse error message.
pub fn parse_config(b: &[u8]) -> (r: Result<AppConfig, String>)
    ensures
        r matches Ok(c) ==> spec_read_config(b@) == Some(config_model(c)),
        r matches Err(m) ==> spec_read_config(b@) is None && m@
            == "Failed to parse config file"@,
{
    match parse_canonical(b) {
        Some(c) => Ok(c),
        None => match parse_general(b) {
            Some(c) => Ok(c),
            None => Err(parse_error()),
        },
    }
}

/// The read decision for the config file: absent contents yield the
/// documented default together with the canonical bytes to persist for it,
/// so that the file left on disk reads back as exactly that default;
/// present contents are parsed.
pub fn read_config_from(contents: Option<Vec<u8>>) -> (r: Result<
    (AppConfig, Option<Vec<u8>>),
    String,
>)
    ensures
        contents is None ==> (r matches Ok(p) && config_model(p.0) == spec_default_model() && (
        p.1 matches Some(w)
            && w@ == spec_config_bytes(spec_default_model()))),
        contents matches Some(b) ==> match spec_read_config(b@) {
            Some(m) => r matches Ok(p) && config_model(p.0) == m && p.1 is None,
            None => (r matches Err(m) && m@ == "Failed to parse config file"@),
        },
{
    match contents {
        None => {
            let c = AppConfig::default();
            let w = encode_config(&c);
            Ok((c, Some(w)))
        },
        Some(bytes) => match parse_config(bytes.as_slice()) {
            Ok(c) => Ok((c, None)),
            Err(m) => Err(m),
        },
    }
}

} // verus!
