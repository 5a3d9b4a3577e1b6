use delicate::keys::KeyError;
use delicate::keys::PublicKey;
use delicate::keys::SecurityKey;
use delicate::keys::SignError;
use delicate::keys::SignatureScheme;
use delicate::number::at_least_two;
use delicate::number::significant_length;
use delicate::security::ConfigError;
use delicate::security::Scheduler;
use delicate::security::SecurityConf;
use delicate::security::SecurityLevel;
use rand::rngs::StdRng;
use rand::SeedableRng;
use rsa::BigUint;
use rsa::PaddingScheme;
use rsa::PublicKey as RsaPublicKey;
use rsa::PublicKeyParts;
use rsa::RSAPrivateKey;
use rsa::RSAPublicKey;
use sha2::Digest;
use sha2::Sha256;

const MODULUS: &[u8] = b"9353930466774385905609975137998169297361893554149986716853295022578535724979677252958524466350471210367835187480748268864277464700638583474144061408845077";
const PRIVATE_EXPONENT: &[u8] = b"7266398431328116344057699379749222532279343923819063639497049039389899328538543087657733766554155839834519529439851673014800261285757759040931985506583861";
const PRIME_ONE: &[u8] =
    b"98920366548084643601728869055592650835572950932266967461790948584315647051443";
const PRIME_TWO: &[u8] =
    b"94560208308847015747498523884063394671606671904944666360068158221458669711639";

fn number(decimal: &[u8]) -> Vec<u8> {
    BigUint::parse_bytes(decimal, 10).expect("a decimal number").to_bytes_be()
}

fn small_key() -> SecurityKey {
    SecurityKey::from_components(
        number(MODULUS),
        number(b"65537"),
        number(PRIVATE_EXPONENT),
        vec![number(PRIME_ONE), number(PRIME_TWO)],
    )
    .expect("the key is sound")
}

fn small_rsa_key() -> RSAPrivateKey {
    RSAPrivateKey::from_components(
        BigUint::from_bytes_be(&number(MODULUS)),
        BigUint::from_bytes_be(&number(b"65537")),
        BigUint::from_bytes_be(&number(PRIVATE_EXPONENT)),
        vec![
            BigUint::from_bytes_be(&number(PRIME_ONE)),
            BigUint::from_bytes_be(&number(PRIME_TWO)),
        ],
    )
}

fn library_key(priv_key: &RSAPrivateKey) -> SecurityKey {
    SecurityKey::from_components(
        priv_key.n().to_bytes_be(),
        priv_key.e().to_bytes_be(),
        priv_key.d().to_bytes_be(),
        priv_key.primes().iter().map(|p| p.to_bytes_be()).collect(),
    )
    .expect("a generated key is sound")
}

#[test]
fn test_rsa_crypt() {
    // A fixed seed: the search for the primes of a key takes the same time at every run.
    let mut rng = StdRng::seed_from_u64(5);
    let bits = 2048;
    let priv_key = RSAPrivateKey::new(&mut rng, bits).expect("failed to generate a key");
    let pub_key = RSAPublicKey::from(&priv_key);

    // Encrypt
    let data = b"hello world";
    let enc_data = pub_key
        .encrypt(&mut rng, PaddingScheme::new_pkcs1v15_encrypt(), &data[..])
        .expect("failed to encrypt");
    assert_ne!(&data[..], &enc_data[..]);

    // Decrypt
    let dec_data = priv_key
        .decrypt(PaddingScheme::new_pkcs1v15_encrypt(), &enc_data)
        .expect("failed to decrypt");
    assert_eq!(&data[..], &dec_data[..]);

    // The key that encrypts and decrypts is one that the library takes.
    let key = library_key(&priv_key);
    assert_eq!(key.public_key().modulus, pub_key.n().to_bytes_be());
}

#[test]
fn test_rsa_sign() {
    // A fixed seed: the search for the primes of a key takes the same time at every run.
    let mut rng = StdRng::seed_from_u64(6);
    let bits = 2048;
    let priv_key = RSAPrivateKey::new(&mut rng, bits).expect("failed to generate a key");
    let pub_key = RSAPublicKey::from(&priv_key);

    let data = b"hello world";

    // Sign
    let sign_data = priv_key
        .sign(PaddingScheme::new_pkcs1v15_sign(None), data)
        .expect("failed to sign");
    assert_ne!(&data[..], &sign_data[..]);

    // Verify
    pub_key
        .verify(PaddingScheme::new_pkcs1v15_sign(None), data, &sign_data[..])
        .expect("failed to Verify");

    // The library signs and verifies as the crate does.
    let key = library_key(&priv_key);
    let signature = key.sign(SignatureScheme::Raw, data).expect("failed to sign");
    assert_eq!(signature, sign_data);
    assert!(key.public_key().accepts(SignatureScheme::Raw, data, &sign_data));
}

#[test]
fn scheduler_signs_its_host() {
    let key = small_key();
    let mut scheduler = Scheduler { host: String::from("127.0.0.1:8090"), signature: Vec::new() };
    assert_eq!(scheduler.sign_self(&key), Ok(()));
    let expected = small_rsa_key()
        .sign(PaddingScheme::new_pkcs1v15_sign(None), b"127.0.0.1:8090")
        .expect("failed to sign");
    assert_eq!(scheduler.host, "127.0.0.1:8090");
    assert_eq!(scheduler.signature, expected);
    assert_eq!(scheduler.signature.len(), 64);
    assert!(scheduler.is_signed_by(&key.public_key()));
}

#[test]
fn scheduler_with_a_forged_signature_is_refused() {
    let key = small_key();
    let mut scheduler = Scheduler { host: String::from("scheduler.example"), signature: vec![] };
    scheduler.sign_self(&key).expect("failed to sign");
    let mut forged = scheduler.clone();
    forged.host = String::from("scheduler.exemple");
    assert!(!forged.is_signed_by(&key.public_key()));
    let mut damaged = scheduler.clone();
    damaged.signature[10] ^= 0x01;
    assert!(!damaged.is_signed_by(&key.public_key()));
    let unsigned = Scheduler { host: String::from("scheduler.example"), signature: vec![] };
    assert!(!unsigned.is_signed_by(&key.public_key()));
}

#[test]
fn scheduler_host_too_long_is_not_signed() {
    let key = small_key();
    // A modulus of 64 bytes leaves room for 53 bytes.
    let fits = "h".repeat(53);
    let too_long = "h".repeat(54);
    let mut scheduler = Scheduler { host: fits, signature: vec![7, 7] };
    assert_eq!(scheduler.sign_self(&key), Ok(()));
    assert_eq!(scheduler.signature.len(), 64);
    let mut scheduler = Scheduler { host: too_long.clone(), signature: vec![7, 7] };
    assert_eq!(scheduler.sign_self(&key), Err(SignError::MessageTooLong));
    assert_eq!(scheduler.host, too_long);
    assert_eq!(scheduler.signature, vec![7, 7]);
}

#[test]
fn digest_scheme_signs_the_sha256_digest() {
    let key = small_key();
    let message = vec![0x5au8; 1000];
    let signature = key.sign(SignatureScheme::Sha256, &message).expect("failed to sign");
    let digest = Sha256::digest(&message).to_vec();
    let expected = small_rsa_key()
        .sign(PaddingScheme::new_pkcs1v15_sign(Some(rsa::Hash::SHA2_256)), &digest)
        .expect("failed to sign");
    assert_eq!(signature, expected);
    assert_ne!(signature, message);
    assert_ne!(signature, digest);
    let public = key.public_key();
    assert!(public.accepts(SignatureScheme::Sha256, &message, &signature));
    assert!(!public.accepts(SignatureScheme::Raw, &message, &signature));
    let mut other = message.clone();
    other[999] = 0x5b;
    assert!(!public.accepts(SignatureScheme::Sha256, &other, &signature));
}

#[test]
fn public_key_that_cannot_be_built_accepts_nothing() {
    let key = small_key();
    let signature = key.sign(SignatureScheme::Raw, b"payload").expect("failed to sign");
    let good = key.public_key();
    assert!(good.accepts(SignatureScheme::Raw, b"payload", &signature));
    let exponent_too_small = PublicKey::new(good.modulus.clone(), vec![1]);
    assert!(!exponent_too_small.accepts(SignatureScheme::Raw, b"payload", &signature));
    let no_modulus = PublicKey::new(vec![], good.exponent.clone());
    assert!(!no_modulus.accepts(SignatureScheme::Raw, b"payload", &signature));
    assert!(!good.accepts(SignatureScheme::Raw, b"payload", &[]));
    assert!(!good.accepts(SignatureScheme::Raw, b"payload", &[0xff; 200]));
}

#[test]
fn key_with_too_few_primes_is_refused() {
    let res = SecurityKey::from_components(
        number(MODULUS),
        number(b"65537"),
        number(PRIVATE_EXPONENT),
        vec![number(PRIME_ONE)],
    );
    assert_eq!(res, Err(KeyError::TooFewPrimes));
    let res = SecurityKey::from_components(vec![1], vec![3], vec![3], vec![]);
    assert_eq!(res, Err(KeyError::TooFewPrimes));
}

#[test]
fn key_with_a_prime_below_two_is_refused() {
    for bad in [vec![], vec![0u8], vec![1u8], vec![0u8, 0, 1]] {
        let res = SecurityKey::from_components(
            number(MODULUS),
            number(b"65537"),
            number(PRIVATE_EXPONENT),
            vec![number(PRIME_ONE), bad],
        );
        assert_eq!(res, Err(KeyError::InvalidPrime));
    }
}

const SMALL_FACTOR: &[u8] = b"3";
const LARGE_FACTOR: &[u8] = b"618970019642690137449562111";
const LOPSIDED_MODULUS: &[u8] = b"1856910058928070412348686333";
const LOPSIDED_EXPONENT: &[u8] = b"463625422192654777564758143";

#[test]
fn key_with_a_longer_second_factor_is_refused() {
    // Signing with it would take some 10^26 additions.
    let res = SecurityKey::from_components(
        number(LOPSIDED_MODULUS),
        number(b"65537"),
        number(LOPSIDED_EXPONENT),
        vec![number(SMALL_FACTOR), number(LARGE_FACTOR)],
    );
    assert_eq!(res, Err(KeyError::UnbalancedPrimes));
    // Leading zero bytes do not make a factor longer.
    let mut padded = vec![0u8; 20];
    padded.extend(number(SMALL_FACTOR));
    let res = SecurityKey::from_components(
        number(LOPSIDED_MODULUS),
        number(b"65537"),
        number(LOPSIDED_EXPONENT),
        vec![padded, number(LARGE_FACTOR)],
    );
    assert_eq!(res, Err(KeyError::UnbalancedPrimes));
    // The test of the factors comes before that of the whole key.
    let res = SecurityKey::from_components(
        number(MODULUS),
        number(b"65537"),
        number(PRIVATE_EXPONENT),
        vec![number(SMALL_FACTOR), number(LARGE_FACTOR)],
    );
    assert_eq!(res, Err(KeyError::UnbalancedPrimes));
}

#[test]
fn key_with_the_longer_factor_first_signs() {
    let key = SecurityKey::from_components(
        number(LOPSIDED_MODULUS),
        number(b"65537"),
        number(LOPSIDED_EXPONENT),
        vec![number(LARGE_FACTOR), number(SMALL_FACTOR)],
    )
    .expect("the key is sound");
    let signature = key.sign(SignatureScheme::Raw, &[120]).expect("failed to sign");
    let expected = RSAPrivateKey::from_components(
        BigUint::from_bytes_be(&number(LOPSIDED_MODULUS)),
        BigUint::from_bytes_be(&number(b"65537")),
        BigUint::from_bytes_be(&number(LOPSIDED_EXPONENT)),
        vec![
            BigUint::from_bytes_be(&number(LARGE_FACTOR)),
            BigUint::from_bytes_be(&number(SMALL_FACTOR)),
        ],
    )
    .sign(PaddingScheme::new_pkcs1v15_sign(None), &[120])
    .expect("failed to sign");
    assert_eq!(signature, expected);
    assert_eq!(signature.len(), 12);
    assert!(key.public_key().accepts(SignatureScheme::Raw, &[120], &signature));
    assert_eq!(key.sign(SignatureScheme::Raw, &[120, 120]), Err(SignError::MessageTooLong));
}

#[test]
fn factors_of_one_length_are_balanced() {
    // The second factor is the larger one, and as long as the first.
    let res = SecurityKey::from_components(vec![0x0c, 0xa1], vec![17], vec![0x0a, 0xc1], vec![
        vec![53],
        vec![61],
    ]);
    assert!(res.is_ok());
    let res = SecurityKey::from_components(vec![0x0c, 0xa1], vec![17], vec![0x0a, 0xc1], vec![
        vec![61],
        vec![0, 0, 53],
    ]);
    assert!(res.is_ok());
}

#[test]
fn lengths_without_leading_zero_bytes() {
    assert_eq!(significant_length(&vec![]), 0);
    assert_eq!(significant_length(&vec![0]), 0);
    assert_eq!(significant_length(&vec![0, 0, 0]), 0);
    assert_eq!(significant_length(&vec![1]), 1);
    assert_eq!(significant_length(&vec![0, 1]), 1);
    assert_eq!(significant_length(&vec![1, 0]), 2);
    assert_eq!(significant_length(&vec![0, 0, 7, 0, 0]), 3);
    assert_eq!(significant_length(&vec![255; 16]), 16);
}

#[test]
fn key_whose_numbers_do_not_fit_is_refused() {
    // The modulus is not the product of the primes.
    let mut modulus = number(MODULUS);
    let last = modulus.len() - 1;
    modulus[last] ^= 0x02;
    let res = SecurityKey::from_components(
        modulus,
        number(b"65537"),
        number(PRIVATE_EXPONENT),
        vec![number(PRIME_ONE), number(PRIME_TWO)],
    );
    assert_eq!(res, Err(KeyError::Unsound));
    // The private exponent does not undo the public one.
    let res = SecurityKey::from_components(
        number(MODULUS),
        number(b"65537"),
        number(b"12345"),
        vec![number(PRIME_ONE), number(PRIME_TWO)],
    );
    assert_eq!(res, Err(KeyError::Unsound));
    // The public exponent is out of range.
    let res = SecurityKey::from_components(
        number(MODULUS),
        vec![1],
        number(PRIVATE_EXPONENT),
        vec![number(PRIME_ONE), number(PRIME_TWO)],
    );
    assert_eq!(res, Err(KeyError::Unsound));
}

#[test]
fn sound_key_keeps_its_numbers() {
    let key = small_key();
    let public = key.public_key();
    assert_eq!(public.modulus, number(MODULUS));
    assert_eq!(public.exponent, vec![1, 0, 1]);
    let copy = key.clone();
    assert_eq!(copy, key);
    let first = key.sign(SignatureScheme::Raw, b"twice").expect("failed to sign");
    let second = copy.sign(SignatureScheme::Raw, b"twice").expect("failed to sign");
    assert_eq!(first, second);
}

#[test]
fn numbers_of_two_or_more() {
    assert!(!at_least_two(&vec![]));
    assert!(!at_least_two(&vec![0]));
    assert!(!at_least_two(&vec![1]));
    assert!(at_least_two(&vec![2]));
    assert!(!at_least_two(&vec![0, 0, 0, 1]));
    assert!(at_least_two(&vec![0, 0, 0, 2]));
    assert!(at_least_two(&vec![1, 0]));
    assert!(at_least_two(&vec![0, 1, 0]));
    assert!(at_least_two(&vec![255, 255, 255]));
}

#[test]
fn security_level_from_number() {
    assert_eq!(SecurityLevel::try_from(0u16), Ok(SecurityLevel::ZeroRestriction));
    assert_eq!(SecurityLevel::try_from(1u16), Ok(SecurityLevel::Normal));
    assert_eq!(SecurityLevel::try_from(2u16), Err(ConfigError::InvalidSecurityLevel));
    assert_eq!(SecurityLevel::try_from(u16::MAX), Err(ConfigError::InvalidSecurityLevel));
    assert_eq!(SecurityLevel::default(), SecurityLevel::ZeroRestriction);
}

#[test]
fn security_level_from_setting() {
    let level = SecurityLevel::get_app_security_level;
    assert_eq!(level(None), Ok(SecurityLevel::ZeroRestriction));
    assert_eq!(level(Some("0")), Ok(SecurityLevel::ZeroRestriction));
    assert_eq!(level(Some("1")), Ok(SecurityLevel::Normal));
    assert_eq!(level(Some("+1")), Ok(SecurityLevel::Normal));
    assert_eq!(level(Some("0001")), Ok(SecurityLevel::Normal));
    assert_eq!(level(Some("+0")), Ok(SecurityLevel::ZeroRestriction));
    assert_eq!(level(Some("000000000000000000000000000001")), Ok(SecurityLevel::Normal));
    for bad in [
        "2", "", "+", "-0", "-1", " 1", "1 ", "one", "65535", "65536", "99999999999", "1.0",
        "++1", "1+", "+-1", "0x1", "1_", "\u{ff11}", "\u{661}", "1\u{e9}", "\u{e9}1",
        "18446744073709551617",
    ] {
        assert_eq!(level(Some(bad)), Err(ConfigError::InvalidSecurityLevel));
        // The library reads a number as the standard library does.
        assert!(bad.parse::<u16>().map_or(true, |value| value > 1));
    }
    for good in ["0", "1", "+0", "+1", "00", "01", "0001"] {
        let expected = good.parse::<u16>().expect("a number");
        assert_eq!(level(Some(good)), SecurityLevel::try_from(expected));
    }
}

#[test]
fn normal_level_without_a_key_does_not_start() {
    let res = SecurityConf::load(SecurityLevel::Normal, None);
    assert_eq!(res.err(), Some(ConfigError::MissingKey));
}

#[test]
fn levels_that_can_be_met_start() {
    let conf = SecurityConf::load(SecurityLevel::ZeroRestriction, None).expect("starts");
    assert_eq!(conf.security_level(), SecurityLevel::ZeroRestriction);
    assert!(conf.rsa_private_key().is_none());
    let conf = SecurityConf::load(SecurityLevel::Normal, Some(small_key())).expect("starts");
    assert_eq!(conf.security_level(), SecurityLevel::Normal);
    assert_eq!(conf.rsa_private_key(), &Some(small_key()));
    let conf = SecurityConf::load(SecurityLevel::ZeroRestriction, Some(small_key()))
        .expect("starts");
    assert_eq!(conf.security_level(), SecurityLevel::ZeroRestriction);
    assert!(conf.rsa_private_key().is_some());
    let copy = conf.clone();
    assert_eq!(copy.security_level(), SecurityLevel::ZeroRestriction);
    assert_eq!(copy.rsa_private_key(), conf.rsa_private_key());
}

#[test]
fn zero_restriction_signs_nothing_and_accepts_everything() {
    let conf = SecurityConf::load(SecurityLevel::ZeroRestriction, None).expect("starts");
    assert_eq!(conf.sign(b"anything"), Ok(vec![]));
    let nobody = PublicKey::new(vec![], vec![]);
    assert!(conf.verify(b"anything", b"", &nobody));
    assert!(conf.verify(b"anything", b"not a signature", &nobody));
}

#[test]
fn normal_level_signs_and_checks() {
    let conf = SecurityConf::load(SecurityLevel::Normal, Some(small_key())).expect("starts");
    let public = small_key().public_key();
    let signature = conf.sign(b"payload").expect("failed to sign");
    assert_eq!(signature.len(), 64);
    assert!(conf.verify(b"payload", &signature, &public));
    assert!(!conf.verify(b"payloae", &signature, &public));
    assert!(!conf.verify(b"payload", b"", &public));
    assert!(!conf.verify(b"payload", b"\x00\x01\x02", &public));
    let mut damaged = signature.clone();
    damaged[0] ^= 0x80;
    assert!(!conf.verify(b"payload", &damaged, &public));
    let stranger = PublicKey::new(number(PRIME_ONE), vec![1, 0, 1]);
    assert!(!conf.verify(b"payload", &signature, &stranger));
}
