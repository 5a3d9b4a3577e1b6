//! The security level of a node, its key, and what it signs and accepts.

use crate::keys::signature_accepted;
use crate::keys::signature_of;
use crate::keys::too_long_to_sign;
use crate::keys::PublicKey;
use crate::keys::SecurityKey;
use crate::keys::SignError;
use crate::keys::SignatureScheme;
use vstd::prelude::*;
use vstd::string::is_ascii_spec_bytes;
use vstd::utf8::is_ascii_chars;
use vstd::std_specs::convert::TryFromSpecImpl;
use vstd::utf8::encode_utf8;

verus! {

/// How strictly the nodes check each other.
#[derive(Debug, Copy, Clone, PartialEq, Eq, Structural)]
pub enum SecurityLevel {
    /// There are no strict restrictions: nothing is signed and everything is accepted.
    ZeroRestriction,
    /// What is sent is signed, and what arrives is checked.
    Normal,
}

/// Why a node cannot start.
#[derive(Debug, Copy, Clone, PartialEq, Eq, Structural)]
pub enum ConfigError {
    /// The security level is neither 0 nor 1.
    InvalidSecurityLevel,
    /// Signing is required and there is no key.
    MissingKey,
}

/// The security level that a number stands for.
pub open spec fn level_of(value: u16) -> Result<SecurityLevel, ConfigError> {
    if value == 0 {
        Ok(SecurityLevel::ZeroRestriction)
    } else if value == 1 {
        Ok(SecurityLevel::Normal)
    } else {
        Err(ConfigError::InvalidSecurityLevel)
    }
}

/// Whether every character is one of the ten decimal digits.
pub open spec fn all_digits(text: Seq<char>) -> bool {
    forall|i: int| 0 <= i < text.len() ==> '0' <= #[trigger] text[i] <= '9'
}

/// The number that decimal digits stand for.
pub open spec fn decimal_value(digits: Seq<char>) -> nat
    decreases digits.len(),
{
    if digits.len() == 0 {
        0
    } else {
        decimal_value(digits.drop_last()) * 10 + (digits.last() as u32 - '0' as u32) as nat
    }
}

/// The digits of a decimal number: the text without a leading plus sign.
pub open spec fn unsigned_part(text: Seq<char>) -> Seq<char> {
    if text.len() > 0 && text[0] == '+' {
        text.drop_first()
    } else {
        text
    }
}

/// The 16-bit number that a text stands for: an optional plus sign, then one
/// or more decimal digits whose value fits.
pub open spec fn decimal_u16(text: Seq<char>) -> Option<u16> {
    let digits = unsigned_part(text);
    if digits.len() > 0 && all_digits(digits) && decimal_value(digits) <= u16::MAX {
        Some(decimal_value(digits) as u16)
    } else {
        None
    }
}

/// The security level that a setting stands for; without a setting nothing is restricted.
pub open spec fn level_of_setting(
    setting: Option<Seq<char>>,
) -> Result<SecurityLevel, ConfigError> {
    match setting {
        None => Ok(SecurityLevel::ZeroRestriction),
        Some(text) => match decimal_u16(text) {
            Some(value) => level_of(value),
            None => Err(ConfigError::InvalidSecurityLevel),
        },
    }
}

/// The characters of a setting, if there is one.
pub open spec fn setting_text(setting: Option<&str>) -> Option<Seq<char>> {
    match setting {
        Some(text) => Some(text@),
        None => None,
    }
}

/// The digits of a number stand for no less than those in front of them do.
proof fn lemma_decimal_grows(digits: Seq<char>, k: int)
    requires
        0 <= k <= digits.len(),
    ensures
        decimal_value(digits.take(k)) <= decimal_value(digits),
    decreases digits.len() - k,
{
    if k < digits.len() {
        lemma_decimal_grows(digits, k + 1);
        assert(digits.take(k + 1).drop_last() =~= digits.take(k));
    } else {
        assert(digits.take(k) =~= digits);
    }
}

/// The 16-bit number that a text stands for, read as `u16::from_str` reads
/// it: an optional plus sign, then decimal digits and nothing else, and no
/// value above 65535.
fn parse_u16(text: &str) -> (res: Option<u16>)
    ensures
        res == decimal_u16(text@),
{
    let ghost digits = unsigned_part(text@);
    if !text.is_ascii() {
        proof {
            if digits.len() > 0 && all_digits(digits) {
                assert forall|i: int| 0 <= i < text@.len() implies '\0' <= #[trigger] text@[i]
                    <= '\u{7f}' by {
                    if text@[0] == '+' {
                        if i > 0 {
                            assert(text@[i] == digits[i - 1]);
                        }
                    } else {
                        assert(text@[i] == digits[i]);
                    }
                }
            }
        }
        return None;
    }
    proof {
        is_ascii_spec_bytes(text);
    }
    let raw = text.as_bytes();
    let start: usize = if raw.len() > 0 && raw[0] == 43 {
        1
    } else {
        0
    };
    proof {
        if raw.len() > 0 {
            assert('\0' <= text@[0] <= '\u{7f}');
            assert((text@[0] == '+') == (raw[0] == 43));
        }
        assert(digits =~= text@.skip(start as int));
    }
    if start == raw.len() {
        return None;
    }
    let mut value: u32 = 0;
    let mut i: usize = start;
    proof {
        assert(digits.take(0) =~= Seq::<char>::empty());
    }
    while i < raw.len()
        invariant
            start <= i <= raw@.len(),
            raw@.len() == text@.len(),
            is_ascii_chars(text@),
            forall|j: int| 0 <= j < raw@.len() ==> raw@[j] == text@[j] as u8,
            digits == unsigned_part(text@),
            digits == text@.skip(start as int),
            digits.len() == raw@.len() - start,
            forall|j: int| 0 <= j < i - start ==> '0' <= #[trigger] digits[j] <= '9',
            value == decimal_value(digits.take(i - start)),
            value <= u16::MAX,
        decreases raw@.len() - i,
    {
        let byte: u8 = raw[i];
        proof {
            assert('\0' <= text@[i as int] <= '\u{7f}');
            assert(digits[i - start] == text@[i as int]);
            assert(byte as char == text@[i as int]);
            assert(digits.take(i + 1 - start).drop_last() =~= digits.take(i - start));
            assert(digits.take(i + 1 - start).last() == digits[i - start]);
        }
        proof {
            assert(digits[i - start] as u32 == byte as u32);
        }
        if byte < 48 || byte > 57 {
            proof {
                assert(!('0' <= digits[i - start] <= '9'));
            }
            return None;
        }
        let next: u32 = value * 10 + (byte - 48) as u32;
        proof {
            assert(decimal_value(digits.take(i + 1 - start)) == next);
        }
        if next > 65535 {
            proof {
                lemma_decimal_grows(digits, i + 1 - start);
            }
            return None;
        }
        value = next;
        i += 1;
    }
    proof {
        assert(digits.take(i - start) =~= digits);
    }
    Some(value as u16)
}

impl Default for SecurityLevel {
    fn default() -> (level: SecurityLevel)
        ensures
            level == SecurityLevel::ZeroRestriction,
    {
        SecurityLevel::ZeroRestriction
    }
}

impl TryFrom<u16> for SecurityLevel {
    type Error = ConfigError;

    fn try_from(value: u16) -> (res: Result<SecurityLevel, ConfigError>) {
        match value {
            0 => Ok(SecurityLevel::ZeroRestriction),
            1 => Ok(SecurityLevel::Normal),
            _ => Err(ConfigError::InvalidSecurityLevel),
        }
    }
}

impl TryFromSpecImpl<u16> for SecurityLevel {
    open spec fn obeys_try_from_spec() -> bool {
        true
    }

    open spec fn try_from_spec(value: u16) -> Result<SecurityLevel, ConfigError> {
        level_of(value)
    }
}

impl SecurityLevel {
    /// The security level that the node's setting asks for. Without a setting
    /// nothing is restricted; a setting that is not the number 0 or 1 is an error.
    pub fn get_app_security_level(
        setting: Option<&str>,
    ) -> (res: Result<SecurityLevel, ConfigError>)
        ensures
            res == level_of_setting(setting_text(setting)),
    {
        match setting {
            None => Ok(SecurityLevel::default()),
            Some(text) => match parse_u16(text) {
                Some(value) => SecurityLevel::try_from(value),
                None => Err(ConfigError::InvalidSecurityLevel),
            },
        }
    }
}

/// The security level of a node together with the key that the level needs.
#[derive(Debug)]
pub struct SecurityConf {
    security_level: SecurityLevel,
    rsa_private_key: Option<SecurityKey>,
}

impl Clone for SecurityConf {
    fn clone(&self) -> (conf: SecurityConf)
        ensures
            conf.level() == self.level(),
            conf.key() is Some <==> self.key() is Some,
            conf.key() is Some ==> conf.key().unwrap()@ == self.key().unwrap()@,
    {
        proof {
            use_type_invariant(self);
        }
        let rsa_private_key = match &self.rsa_private_key {
            Some(key) => Some(key.clone()),
            None => None,
        };
        SecurityConf { security_level: self.security_level, rsa_private_key }
    }
}

impl SecurityConf {
    #[verifier::type_invariant]
    spec fn satisfiable(self) -> bool {
        self.security_level == SecurityLevel::Normal ==> self.rsa_private_key is Some
    }

    /// The security level.
    pub closed spec fn level(self) -> SecurityLevel {
        self.security_level
    }

    /// The key, if there is one.
    pub closed spec fn key(self) -> Option<SecurityKey> {
        self.rsa_private_key
    }

    /// Puts a security level and a key together. Signing without a key
    /// cannot be done, so the normal level without a key is refused.
    pub fn load(
        security_level: SecurityLevel,
        rsa_private_key: Option<SecurityKey>,
    ) -> (res: Result<SecurityConf, ConfigError>)
        ensures
            match res {
                Ok(conf) => {
                    &&& conf.level() == security_level
                    &&& conf.key() == rsa_private_key
                    &&& (security_level == SecurityLevel::Normal ==> rsa_private_key is Some)
                },
                Err(e) => {
                    &&& e == ConfigError::MissingKey
                    &&& security_level == SecurityLevel::Normal
                    &&& rsa_private_key is None
                },
            },
    {
        let missing = match (&security_level, &rsa_private_key) {
            (SecurityLevel::Normal, None) => true,
            _ => false,
        };
        if missing {
            Err(ConfigError::MissingKey)
        } else {
            Ok(SecurityConf { security_level, rsa_private_key })
        }
    }

    /// The security level of this node.
    pub fn security_level(&self) -> (level: SecurityLevel)
        ensures
            level == self.level(),
    {
        self.security_level
    }

    /// The key of this node, if it has one.
    pub fn rsa_private_key(&self) -> (key: &Option<SecurityKey>)
        ensures
            *key == self.key(),
    {
        &self.rsa_private_key
    }

    /// Signs a payload. Where nothing is restricted the signature is empty;
    /// otherwise it is the key's signature of the payload's SHA-256 digest.
    pub fn sign(&self, payload: &[u8]) -> (res: Result<Vec<u8>, SignError>)
        ensures
            self.level() == SecurityLevel::ZeroRestriction ==> (res matches Ok(signature)
                && signature@.len() == 0),
            self.level() == SecurityLevel::Normal ==> self.key() is Some && match res {
                Ok(signature) => signature_of(
                    self.key().unwrap()@,
                    SignatureScheme::Sha256,
                    payload@,
                ) == Some(signature@),
                Err(e) => {
                    &&& signature_of(self.key().unwrap()@, SignatureScheme::Sha256, payload@)
                        is None
                    &&& e == SignError::MessageTooLong <==> too_long_to_sign(
                        self.key().unwrap()@.n,
                        SignatureScheme::Sha256,
                        payload@,
                    )
                },
            },
    {
        proof {
            use_type_invariant(self);
        }
        match self.security_level {
            SecurityLevel::ZeroRestriction => Ok(Vec::new()),
            SecurityLevel::Normal => match &self.rsa_private_key {
                Some(key) => key.sign(SignatureScheme::Sha256, payload),
                // Ruled out by the invariant of the type: this level has a key.
                None => Err(SignError::Internal),
            },
        }
    }

    /// Whether a payload that arrived with a signature is to be accepted as
    /// coming from the holder of `public_key`. Where nothing is restricted
    /// everything is accepted; a malformed signature is not an error but a
    /// signature that is not accepted.
    pub fn verify(&self, payload: &[u8], signature: &[u8], public_key: &PublicKey) -> (ok: bool)
        ensures
            ok == trusted(self.level(), *public_key, payload@, signature@),
    {
        match self.security_level {
            SecurityLevel::ZeroRestriction => true,
            SecurityLevel::Normal => public_key.accepts(
                SignatureScheme::Sha256,
                payload,
                signature,
            ),
        }
    }
}

/// All that a node is configured with.
#[derive(Debug, Clone)]
pub struct DelicateConf {
    pub security_conf: SecurityConf,
}

impl DelicateConf {
    /// The configuration of a node with this security level and key.
    pub fn new(security_conf: SecurityConf) -> (conf: DelicateConf)
        ensures
            conf.security_conf == security_conf,
    {
        DelicateConf { security_conf }
    }
}

/// Whether a payload with a signature is accepted at a security level.
pub open spec fn trusted(
    level: SecurityLevel,
    public_key: PublicKey,
    payload: Seq<u8>,
    signature: Seq<u8>,
) -> bool {
    level == SecurityLevel::ZeroRestriction || signature_accepted(
        public_key,
        SignatureScheme::Sha256,
        payload,
        signature,
    )
}

/// Where nothing is restricted, every payload is accepted with every
/// signature and whatever the key.
pub proof fn lemma_zero_restriction_accepts(
    public_key: PublicKey,
    payload: Seq<u8>,
    signature: Seq<u8>,
)
    ensures
        trusted(SecurityLevel::ZeroRestriction, public_key, payload, signature),
{
}

/// What a scheduler tells an executor of itself: its host, signed.
#[derive(Debug, Clone, Default, PartialEq, Eq)]
pub struct Scheduler {
    pub host: String,
    pub signature: Vec<u8>,
}

impl Scheduler {
    /// Signs the host with the scheduler's key and keeps the signature. The
    /// host's bytes are signed as they are; when they cannot be signed
    /// nothing changes.
    pub fn sign_self(&mut self, priv_key: &SecurityKey) -> (res: Result<(), SignError>)
        ensures
            final(self).host == old(self).host,
            match res {
                Ok(_) => signature_of(
                    priv_key@,
                    SignatureScheme::Raw,
                    encode_utf8(old(self).host@),
                ) == Some(final(self).signature@),
                Err(e) => {
                    &&& final(self).signature == old(self).signature
                    &&& signature_of(
                        priv_key@,
                        SignatureScheme::Raw,
                        encode_utf8(old(self).host@),
                    ) is None
                    &&& e == SignError::MessageTooLong <==> too_long_to_sign(
                        priv_key@.n,
                        SignatureScheme::Raw,
                        encode_utf8(old(self).host@),
                    )
                },
            },
    {
        match priv_key.sign(SignatureScheme::Raw, self.host.as_str().as_bytes()) {
            Ok(signature) => {
                self.signature = signature;
                Ok(())
            },
            Err(e) => Err(e),
        }
    }

    /// Whether the signature is the one that the holder of `public_key`
    /// gives to the host.
    pub fn is_signed_by(&self, public_key: &PublicKey) -> (ok: bool)
        ensures
            ok == signature_accepted(
                *public_key,
                SignatureScheme::Raw,
                encode_utf8(self.host@),
                self.signature@,
            ),
    {
        public_key.accepts(
            SignatureScheme::Raw,
            self.host.as_str().as_bytes(),
            self.signature.as_slice(),
        )
    }
}

} // verus!
