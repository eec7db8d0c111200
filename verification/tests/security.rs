use des::cipher::{BlockCipherDecrypt, BlockCipherEncrypt, KeyInit};
use vnc_server::auth_provider::{PasswordTable, UserPermissions};
use vnc_server::protocol::handshake::security::mslogonii::{
    can_modpow, credentials, decrypt_field, modpow, order_primes, try_to_generate_prime, u8_null_to_string,
    vnc_decrypt_bytes, MsLogonError, MAX_NUM,
};
use vnc_server::protocol::handshake::security::vnc_authent::{
    authorize, challenge_response, check, des_key, reverse_bits,
};
use vnc_server::protocol::handshake::security::{
    security_types_to_bytes, SecurityResult, SecurityType,
};

fn des_encrypt(key: &[u8], block: &[u8]) -> Vec<u8> {
    let cipher = des::Des::new_from_slice(key).unwrap();
    let mut b = des::cipher::Array::try_from(block).unwrap();
    cipher.encrypt_block(&mut b);
    b.to_vec()
}

fn des_decrypt(key: &[u8], block: &[u8]) -> Vec<u8> {
    let cipher = des::Des::new_from_slice(key).unwrap();
    let mut b = des::cipher::Array::try_from(block).unwrap();
    cipher.decrypt_block(&mut b);
    b.to_vec()
}

fn xor(a: &[u8], b: &[u8]) -> Vec<u8> {
    a.iter().zip(b.iter()).map(|(x, y)| x ^ y).collect()
}

#[test]
fn security_type_bytes() {
    assert_eq!(SecurityType::from_byte(0), SecurityType::Invalid);
    assert_eq!(SecurityType::from_byte(1), SecurityType::NoAuthentication);
    assert_eq!(SecurityType::from_byte(2), SecurityType::VNCAuthentication);
    assert_eq!(SecurityType::from_byte(113), SecurityType::MSLogonII);
    assert_eq!(SecurityType::from_byte(77), SecurityType::Invalid);
    assert_eq!(SecurityType::MSLogonII.to_byte(), 113);
    assert_eq!(
        security_types_to_bytes(&[SecurityType::VNCAuthentication, SecurityType::MSLogonII]),
        vec![2, 2, 113]
    );
    assert_eq!(security_types_to_bytes(&[]), vec![0]);
}

#[test]
fn immediate_security_results() {
    assert_eq!(
        SecurityType::Invalid.immediate_result(),
        Some(SecurityResult::Denied("Invalid or unknown Authentication Type".to_string()))
    );
    assert_eq!(
        SecurityType::NoAuthentication.immediate_result(),
        Some(SecurityResult::Authorized(UserPermissions { view: true, control: true }))
    );
    assert_eq!(SecurityType::VNCAuthentication.immediate_result(), None);
    assert_eq!(SecurityType::MSLogonII.immediate_result(), None);
}

#[test]
fn security_result_values_and_bytes() {
    let denied = SecurityResult::Denied("no".to_string());
    let ok = SecurityResult::Authorized(UserPermissions { view: true, control: false });
    assert_eq!(denied.get_value(), 1);
    assert_eq!(ok.get_value(), 0);
    assert!(denied.is_denied());
    assert!(!ok.is_denied());
    assert_eq!(denied.get_permissions(), UserPermissions::empty());
    assert_eq!(ok.get_permissions(), UserPermissions { view: true, control: false });
    assert_eq!(denied.to_bytes(), vec![0, 0, 0, 1, 0, 0, 0, 2, b'n', b'o']);
    assert_eq!(ok.to_bytes(), vec![0, 0, 0, 0]);
}

#[test]
fn vnc_key_reverses_bits_and_pads() {
    assert_eq!(reverse_bits(0b0000_0001), 0b1000_0000);
    assert_eq!(reverse_bits(0x13), 0xc8);
    assert_eq!(des_key("ab"), vec![reverse_bits(b'a'), reverse_bits(b'b'), 0, 0, 0, 0, 0, 0]);
    assert_eq!(des_key("abcdefghij").len(), 8);
    assert_eq!(des_key("abcdefghij")[7], reverse_bits(b'h'));
}

#[test]
fn vnc_challenge_response_and_check() {
    let challenge: Vec<u8> = (0u8..16).collect();
    let key = des_key("secret");
    let mut expected = des_encrypt(&key, &challenge[0..8]);
    expected.extend(des_encrypt(&key, &challenge[8..16]));
    let response = challenge_response("secret", &challenge);
    assert_eq!(response, expected);
    assert!(check("secret", &challenge, &response));
    assert!(!check("Secret", &challenge, &response));
    assert!(!check("secret", &challenge, &response[0..15]));
}

#[test]
fn vnc_authorize_against_table() {
    let challenge: Vec<u8> = (100u8..116).collect();
    let table = PasswordTable {
        entries: vec![
            ("one".to_string(), UserPermissions { view: true, control: false }),
            ("two".to_string(), UserPermissions { view: true, control: true }),
        ],
    };
    let response = challenge_response("two", &challenge);
    assert_eq!(
        authorize(&table, &challenge, &response),
        SecurityResult::Authorized(UserPermissions { view: true, control: true })
    );
    let wrong = challenge_response("three", &challenge);
    assert_eq!(
        authorize(&table, &challenge, &wrong),
        SecurityResult::Denied("Wrong password".to_string())
    );
}

#[test]
fn modpow_values() {
    assert_eq!(modpow(4, 13, 497), 445);
    assert_eq!(modpow(7, 0, 13), 1);
    assert_eq!(modpow(2, 10, 1000), 24);
    assert_eq!(modpow(5, 1, 1), 0);
    assert_eq!(modpow(3, 2, 1 << 40), 9);
}

#[test]
fn shared_secret_agrees() {
    let (g, m) = (5u64, 2_147_483_647u64);
    let (a, b) = (123_456_789u64, 987_654_321u64);
    let pa = modpow(g, a, m);
    let pb = modpow(g, b, m);
    assert_eq!(modpow(pb, a, m), modpow(pa, b, m));
}

#[test]
fn prime_search() {
    assert_eq!(try_to_generate_prime(14), Some(17));
    assert_eq!(try_to_generate_prime(17), Some(17));
    assert_eq!(try_to_generate_prime(0), Some(3));
    assert_eq!(try_to_generate_prime(MAX_NUM - 2), Some(2_147_483_647));
    // 2^31 + 1 = 3 * 715827883 and the search stops at the bound.
    assert_eq!(try_to_generate_prime(MAX_NUM), None);
    assert_eq!(order_primes(11, 7), (7, 11));
    assert_eq!(order_primes(7, 11), (7, 11));
}

#[test]
fn latin1_string_up_to_nul() {
    assert_eq!(u8_null_to_string(b"abc\0def"), Ok("abc".to_string()));
    assert_eq!(u8_null_to_string(&[0xe9, b'!', 0]), Ok("é!".to_string()));
    assert_eq!(u8_null_to_string(&[0]), Ok(String::new()));
    assert_eq!(u8_null_to_string(b"abc"), Err(MsLogonError::NoNulByte));
}

/// Encrypts as the decryption expects: block 0 with the key, block 1 with
/// cipher block 0, later blocks with the plain block before them.
fn encrypt_fields(plain: &[u8], key: &[u8]) -> Vec<u8> {
    let mut out = Vec::new();
    for k in 0..plain.len() / 8 {
        let p = &plain[8 * k..8 * k + 8];
        let chain = if k == 0 {
            key.to_vec()
        } else if k == 1 {
            out[0..8].to_vec()
        } else {
            plain[8 * (k - 1)..8 * k].to_vec()
        };
        out.extend(des_encrypt(key, &xor(p, &chain)));
    }
    out
}

#[test]
fn vnc_decrypt_bytes_chains_blocks() {
    let key = [1u8, 2, 3, 4, 5, 6, 7, 8];
    let plain: Vec<u8> = (0u8..32).collect();
    let mut data = encrypt_fields(&plain, &key);
    let first_cipher = data[0..8].to_vec();
    vnc_decrypt_bytes(&mut data, &key);
    assert_eq!(data, plain);
    assert_eq!(
        xor(&des_decrypt(&key, &first_cipher), &key),
        plain[0..8].to_vec()
    );
}

#[test]
fn mslogon_credentials_are_decrypted() {
    let modulus = 2_147_483_647u64;
    let client_public = 48_271u64;
    let private_key = 1_000_003u64;
    let secret = modpow(client_public, private_key, modulus);
    let key = secret.to_be_bytes();
    let mut user = vec![0u8; 256];
    user[..5].copy_from_slice(b"alice");
    let mut pass = vec![0u8; 64];
    pass[..3].copy_from_slice(b"pw!");
    let user_c = encrypt_fields(&user, &key);
    let pass_c = encrypt_fields(&pass, &key);
    assert_eq!(decrypt_field(secret, &user_c), Ok("alice".to_string()));
    assert_eq!(
        credentials(client_public, private_key, modulus, &user_c, &pass_c),
        Ok(("alice".to_string(), "pw!".to_string()))
    );
    let full = vec![b'x'; 64];
    let full_c = encrypt_fields(&full, &key);
    assert_eq!(
        credentials(client_public, private_key, modulus, &user_c, &full_c),
        Err(MsLogonError::NoNulByte)
    );
}

#[test]
fn exchange_failures_are_denials() {
    assert_eq!(
        SecurityResult::denied_by_error("No null byte found"),
        SecurityResult::Denied("Authentication Denied : No null byte found".to_string())
    );
}

#[test]
fn modpow_overflow_condition() {
    assert!(can_modpow(3, 2, 1 << 40));
    assert!(can_modpow(u32::MAX as u64, 5, 1 << 31));
    assert!(!can_modpow(1 << 33, 2, 1 << 40));
    assert!(can_modpow(5, 0, 0));
    assert!(!can_modpow(5, 1, 0));
}
