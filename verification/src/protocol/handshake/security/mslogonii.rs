//! MS-Logon II: a Diffie-Hellman exchange gives a DES key with which the client
//! sends its user name and password.
use vstd::prelude::*;
use vstd::arithmetic::power::{pow, lemma_pow_adds, lemma_pow_mod_noop, lemma_pow_multiplies, lemma_pow0, lemma_pow1};
use vstd::arithmetic::div_mod::{lemma_mul_mod_noop_left, lemma_mul_mod_noop_right};
use vstd::arithmetic::mul::lemma_mul_is_commutative;
use crate::protocol::handshake::security::des_block::{des_decrypt, des_decrypt_block};
use crate::text::{latin1_chars, lemma_encode_utf8_push, push_latin1_char, utf8_lossy};
use crate::wire::{push_u64_be, u64_be_bytes};

verus! {

/// `base` to the power `exp`, modulo `modulus` (1 for a zero exponent).
pub open spec fn spec_modpow(base: u64, exp: u64, modulus: u64) -> u64 {
    if exp == 0 {
        1
    } else {
        (pow(base as int, exp as nat) % modulus as int) as u64
    }
}

/// One squaring step of modular exponentiation keeps `result * base^exp`
/// unchanged modulo `m`.
proof fn lemma_modpow_step(result: int, base: int, exp: nat, m: int)
    requires
        m > 0,
    ensures
        exp % 2 == 1 ==> ((result * base) % m * pow((base * base) % m, exp / 2)) % m == (result
            * pow(base, exp)) % m,
        exp % 2 == 0 ==> (result * pow((base * base) % m, exp / 2)) % m == (result * pow(
            base,
            exp,
        )) % m,
{
    let k = exp / 2;
    let sq = base * base;
    lemma_pow_mod_noop(sq, k, m);
    lemma_pow1(base);
    lemma_pow_adds(base, 1, 1);
    assert(pow(base, 2) == sq);
    lemma_pow_multiplies(base, 2, k);
    assert(pow(sq, k) == pow(base, 2 * k));
    if exp % 2 == 1 {
        lemma_mul_pow_mod(result * base, sq, k, m);
        lemma_mul_mod_noop_left(result * base, pow(sq % m, k), m);
        lemma_mul_mod_noop_left(result * base, pow(base, 2 * k), m);
        assert(((result * base) % m * pow(sq % m, k)) % m == ((result * base) * pow(sq % m, k))
            % m);
        lemma_pow_adds(base, 1, 2 * k);
        assert(exp == 1 + 2 * k);
        assert((result * base) * pow(base, 2 * k) == result * (base * pow(base, 2 * k))) by (nonlinear_arith);
    } else {
        lemma_mul_pow_mod(result, sq, k, m);
        assert(exp == 2 * k);
    }
}

/// Reducing the base of a power modulo `m` does not change a product with it
/// modulo `m`.
proof fn lemma_mul_pow_mod(a: int, x: int, k: nat, m: int)
    requires
        m > 0,
    ensures
        (a * pow(x % m, k)) % m == (a * pow(x, k)) % m,
{
    lemma_pow_mod_noop(x, k, m);
    lemma_mul_mod_noop_right(a, pow(x % m, k), m);
    lemma_mul_mod_noop_right(a, pow(x, k), m);
}

/// Repeated squaring from `result`, `base` and `exp` on never overflows a
/// `u64`: each product it takes (`result * base` for an odd exponent, and
/// `base * base`) fits before it is reduced modulo `m`.
pub open spec fn modpow_fits(result: u64, base: u64, exp: u64, m: u64) -> bool
    decreases exp,
{
    if exp == 0 {
        true
    } else {
        let odd = exp % 2 == 1;
        &&& odd ==> result * base <= u64::MAX
        &&& base * base <= u64::MAX
        &&& modpow_fits(
            if odd {
                ((result * base) % (m as int)) as u64
            } else {
                result
            },
            ((base * base) % (m as int)) as u64,
            exp / 2,
            m,
        )
    }
}

/// `modpow(base, exp, modulus)` runs without a panic: with a positive
/// exponent the modulus is positive and no product overflows.
pub open spec fn modpow_defined(base: u64, exp: u64, modulus: u64) -> bool {
    exp > 0 ==> modulus > 0 && modpow_fits(1, base, exp, modulus)
}

/// Whether `modpow(base, exp, modulus)` runs without a panic.
pub fn can_modpow(base: u64, exp: u64, modulus: u64) -> (b: bool)
    ensures
        b == modpow_defined(base, exp, modulus),
{
    if exp == 0 {
        return true;
    }
    if modulus == 0 {
        return false;
    }
    let mut sq = base;
    let mut e = exp;
    let mut result: u64 = 1;
    while e > 0
        invariant
            modulus > 0,
            exp > 0,
            modpow_defined(base, exp, modulus) == modpow_fits(result, sq, e, modulus),
        decreases e,
    {
        proof {
            assert(e & 1 == e % 2) by (bit_vector);
            assert(e >> 1 == e / 2) by (bit_vector);
        }
        let ghost r_before = result;
        if e & 1 == 1 {
            match result.checked_mul(sq) {
                Some(p) => {
                    result = p % modulus;
                },
                None => {
                    assert(!modpow_fits(result, sq, e, modulus));
                    return false;
                },
            }
        }
        match sq.checked_mul(sq) {
            Some(q) => {
                sq = q % modulus;
            },
            None => {
                assert(!modpow_fits(r_before, sq, e, modulus));
                return false;
            },
        }
        e = e >> 1;
    }
    true
}

/// `base` to the power `exp`, modulo `modulus`, by repeated squaring.
pub fn modpow(base: u64, exp: u64, modulus: u64) -> (r: u64)
    requires
        modpow_defined(base, exp, modulus),
    ensures
        r == spec_modpow(base, exp, modulus),
{
    let ghost b0 = base;
    let ghost e0 = exp;
    let mut base = base;
    let mut exp = exp;
    let mut result: u64 = 1;
    if exp == 0 {
        return 1;
    }
    proof {
        lemma_pow0(b0 as int);
        assert(result * pow(base as int, exp as nat) == pow(b0 as int, e0 as nat));
    }
    while exp > 0
        invariant
            0 < modulus,
            e0 > 0,
            modpow_fits(result, base, exp, modulus),
            result == 1 || result < modulus,
            exp == 0 ==> result < modulus,
            (result * pow(base as int, exp as nat)) % (modulus as int) == pow(b0 as int, e0 as nat)
                % (modulus as int),
        decreases exp,
    {
        let ghost r_old = result as int;
        let ghost b_old = base as int;
        let ghost e_old = exp as nat;
        proof {
            lemma_modpow_step(r_old, b_old, e_old, modulus as int);
            assert(exp & 1 == exp % 2) by (bit_vector);
            assert(exp >> 1 == exp / 2) by (bit_vector);
        }
        if exp & 1 == 1 {
            result = result * base % modulus;
        }
        base = base * base % modulus;
        exp = exp >> 1;
    }
    proof {
        lemma_pow0(base as int);
        assert(result * pow(base as int, exp as nat) == result);
        vstd::arithmetic::div_mod::lemma_small_mod(result as nat, modulus as nat);
        assert(result as int == pow(b0 as int, e0 as nat) % (modulus as int));
    }
    result
}

/// Computing a shared secret either way round gives the same value: raising
/// `g^a` to `b` equals raising `g^b` to `a`, modulo `modulus`.  (With a modulus
/// of 1 and exactly one exponent zero the two sides are 0 and 1.)
pub proof fn lemma_shared_secret_agrees(g: u64, a: u64, b: u64, modulus: u64)
    requires
        modulus > 0,
        modulus > 1 || (a > 0) == (b > 0),
    ensures
        spec_modpow(spec_modpow(g, a, modulus), b, modulus) == spec_modpow(
            spec_modpow(g, b, modulus),
            a,
            modulus,
        ),
{
    let m = modulus as int;
    if a > 0 && b > 0 {
        lemma_pow_of_mod_pow(g as int, a as nat, b as nat, m);
        lemma_pow_of_mod_pow(g as int, b as nat, a as nat, m);
        lemma_mul_is_commutative(a as int, b as int);
    } else if a == 0 && b == 0 {
    } else if a == 0 {
        lemma_pow1_of_one(b as nat, m);
    } else {
        lemma_pow1_of_one(a as nat, m);
    }
}

/// `(g^a mod m)^b mod m == g^(a*b) mod m`.
proof fn lemma_pow_of_mod_pow(g: int, a: nat, b: nat, m: int)
    requires
        m > 0,
        g >= 0,
    ensures
        pow(pow(g, a) % m, b) % m == pow(g, a * b) % m,
{
    lemma_pow_mod_noop(pow(g, a), b, m);
    lemma_pow_multiplies(g, a, b);
}

/// `1^k mod m` is 1 for `m > 1`.
proof fn lemma_pow1_of_one(k: nat, m: int)
    requires
        m > 1,
    ensures
        pow(1, k) % m == 1,
{
    vstd::arithmetic::power::lemma1_pow(k);
    vstd::arithmetic::div_mod::lemma_small_mod(1, m as nat);
}

/// Candidates for the exchange's numbers are taken below this bound.
pub const MAX_NUM: u64 = 0x8000_0000;

/// `n` is a prime number.
pub open spec fn is_prime_number(n: nat) -> bool {
    n >= 2 && forall|d: nat| 2 <= d < n ==> #[trigger] (n % d) != 0
}

/// Tests `n` for primality with `num_prime::nt_funcs::is_prime` and
/// `Primality::probably`.  For a `u64` the crate runs its deterministic test
/// (`is_prime64`), so the claim is that the answer is exact primality.
#[verifier::external_body]
fn is_prime(n: u64) -> (b: bool)
    ensures
        b == is_prime_number(n as nat),
{
    num_prime::nt_funcs::is_prime(&n, None).probably()
}

/// `q` is among the numbers that the search from `n` tries: the odd number
/// `n | 1` itself, then every second number after it while below `MAX_NUM`.
pub open spec fn is_candidate(n: u64, q: int) -> bool {
    let s = (n | 1) as int;
    &&& s <= q
    &&& (q - s) % 2 == 0
    &&& (q == s || q < MAX_NUM)
}

/// The first prime among the candidates from `n`, or `None` when there is none.
pub fn try_to_generate_prime(n: u64) -> (r: Option<u64>)
    requires
        n < u64::MAX - 1,
    ensures
        match r {
            Some(p) => is_candidate(n, p as int) && is_prime_number(p as nat) && forall|q: int|
                is_candidate(n, q) && q < p ==> !is_prime_number(q as nat),
            None => forall|q: int| is_candidate(n, q) ==> !is_prime_number(q as nat),
        },
{
    let s = n | 1;
    assert(s == n || s == n + 1) by (bit_vector)
        requires
            s == n | 1,
    ;
    assert(s % 2 == 1) by (bit_vector)
        requires
            s == n | 1,
    ;
    let mut c = s;
    loop
        invariant
            s == (n | 1),
            s % 2 == 1,
            s <= c,
            s == n || s == n + 1,
            n < u64::MAX - 1,
            (c - s) % 2 == 0,
            c == s || c < MAX_NUM,
            forall|q: int| is_candidate(n, q) && q < c ==> !is_prime_number(q as nat),
        decreases u64::MAX - c,
    {
        if is_prime(c) {
            return Some(c);
        }
        c = c + 2;
        if c >= MAX_NUM {
            assert forall|q: int| is_candidate(n, q) implies !is_prime_number(q as nat) by {
                if q >= c {
                    assert(q != s);
                }
            }
            return None;
        }
    }
}

/// The two numbers in increasing order.
pub fn order_primes(g: u64, modulus: u64) -> (r: (u64, u64))
    ensures
        r == (if g > modulus { (modulus, g) } else { (g, modulus) }),
{
    if g > modulus {
        (modulus, g)
    } else {
        (g, modulus)
    }
}

/// The 8-byte block number `k` of `s`.
pub open spec fn block_of(s: Seq<u8>, k: int) -> Seq<u8> {
    s.subrange(8 * k, 8 * k + 8)
}

/// The bytewise exclusive or of two 8-byte blocks.
pub open spec fn xor8(a: Seq<u8>, b: Seq<u8>) -> Seq<u8> {
    Seq::new(8, |j: int| a[j] ^ b[j])
}

/// Block `k` of the plain text that `vnc_decrypt_bytes` makes of `cipher`:
/// each block is DES-decrypted, then the first is xored with the key, the
/// second with the first cipher block, and each later one with the plain
/// block before it.
pub open spec fn plain_block(cipher: Seq<u8>, key: Seq<u8>, k: nat) -> Seq<u8>
    decreases k,
{
    let d = des_decrypt(key, block_of(cipher, k as int));
    if k == 0 {
        xor8(d, key)
    } else if k == 1 {
        xor8(d, block_of(cipher, 0))
    } else {
        xor8(d, plain_block(cipher, key, (k - 1) as nat))
    }
}

/// Decrypts `data` in place, block by block, with the 8-byte `key`.
pub fn vnc_decrypt_bytes(data: &mut [u8], key: &[u8; 8])
    requires
        old(data)@.len() >= 8,
        old(data)@.len() % 8 == 0,
    ensures
        final(data)@.len() == old(data)@.len(),
        forall|k: int|
            0 <= k < old(data)@.len() / 8 ==> block_of(final(data)@, k) == plain_block(
                old(data)@,
                key@,
                k as nat,
            ),
{
    let ghost cipher = data@;
    let ghost nb = cipher.len() / 8;
    let key_slice = key.as_slice();
    let mut i: usize = 8;
    while i < data.len()
        invariant
            data@.len() == cipher.len(),
            cipher.len() % 8 == 0,
            nb == cipher.len() / 8,
            i % 8 == 0,
            8 <= i <= cipher.len(),
            key_slice@ == key@,
            key@.len() == 8,
            block_of(data@, 0) == block_of(cipher, 0),
            forall|k: int| 1 <= k < i / 8 ==> block_of(data@, k) == plain_block(cipher, key@, k as nat),
            forall|idx: int| i <= idx < cipher.len() ==> data@[idx] == cipher[idx],
        decreases data@.len() - i,
    {
        let ghost k = (i / 8) as int;
        let ghost before = data@;
        assert(block_of(before, k) == block_of(cipher, k));
        let decrypted = des_decrypt_block(key_slice, &data[i..i + 8]);
        assert(data@.subrange(i as int, i + 8) == block_of(cipher, k));
        let ghost prev = block_of(before, k - 1);
        assert(prev == if k == 1 { block_of(cipher, 0) } else { plain_block(cipher, key@, (k - 1) as nat) });
        let mut j: usize = 0;
        while j < 8
            invariant
                0 <= j <= 8,
                8 <= i,
                i + 8 <= cipher.len(),
                cipher.len() <= usize::MAX,
                data@.len() == cipher.len(),
                decrypted@.len() == 8,
                forall|idx: int| 0 <= idx < i ==> data@[idx] == before[idx],
                forall|idx: int| i + j <= idx < cipher.len() ==> data@[idx] == before[idx],
                forall|t: int| 0 <= t < j ==> data@[i + t] == decrypted@[t] ^ before[i - 8 + t],
            decreases 8 - j,
        {
            let x = decrypted[j] ^ data[i + j - 8];
            data[i + j] = x;
            j = j + 1;
        }
        assert(block_of(data@, k) =~= xor8(decrypted@, prev));
        assert forall|q: int| 1 <= q < (i + 8) / 8 implies block_of(data@, q) == plain_block(cipher, key@, q as nat) by {
            if q < k {
                assert(block_of(data@, q) =~= block_of(before, q));
            }
        }
        assert(block_of(data@, 0) =~= block_of(before, 0));
        i = i + 8;
    }
    let ghost before = data@;
    let decrypted = des_decrypt_block(key_slice, &data[0..8]);
    assert(data@.subrange(0, 8) == block_of(cipher, 0));
    let mut j: usize = 0;
    while j < 8
        invariant
            0 <= j <= 8,
            data@.len() == cipher.len(),
            cipher.len() >= 8,
            decrypted@.len() == 8,
            key@.len() == 8,
            forall|idx: int| j <= idx < cipher.len() ==> data@[idx] == before[idx],
            forall|t: int| 0 <= t < j ==> data@[t] == decrypted@[t] ^ key@[t],
        decreases 8 - j,
    {
        let x = decrypted[j] ^ key[j];
        data[j] = x;
        j = j + 1;
    }
    assert(block_of(data@, 0) =~= xor8(decrypted@, key@));
    assert forall|q: int| 0 <= q < nb implies block_of(data@, q) == plain_block(cipher, key@, q as nat) by {
        if q > 0 {
            assert(block_of(data@, q) =~= block_of(before, q));
        }
    }
}

/// Why received credentials could not be read.
#[derive(Debug, Clone, Copy, PartialEq, Eq, Structural)]
pub enum MsLogonError {
    /// A field holds no NUL byte to end it.
    NoNulByte,
}

/// `data` holds a NUL byte at `n` and none before it.
pub open spec fn first_nul_at(data: Seq<u8>, n: int) -> bool {
    0 <= n < data.len() && data[n] == 0 && forall|k: int| 0 <= k < n ==> data[k] != 0
}

/// The characters before the first NUL byte of `data`, each byte read as the
/// code point it holds; an error when `data` holds no NUL byte.
pub fn u8_null_to_string(data: &[u8]) -> (r: Result<String, MsLogonError>)
    ensures
        r is Ok <==> has_nul(data@),
        r matches Ok(s) ==> nul_terminated_ok(data@, s@),
        r matches Err(e) ==> e == MsLogonError::NoNulByte,
{
    let mut bytes: Vec<u8> = Vec::new();
    let mut i: usize = 0;
    while i < data.len()
        invariant
            i <= data@.len(),
            forall|k: int| 0 <= k < i ==> data@[k] != 0,
            bytes@ == vstd::utf8::encode_utf8(latin1_chars(data@.take(i as int))),
        decreases data.len() - i,
    {
        if data[i] == 0 {
            proof {
                let chars = latin1_chars(data@.take(i as int));
                vstd::utf8::encode_utf8_valid_utf8(chars);
                vstd::utf8::encode_utf8_decode_utf8(chars);
                assert(first_nul_at(data@, i as int));
            }
            return Ok(utf8_lossy(bytes.as_slice()));
        }
        proof {
            let c = data@[i as int] as char;
            assert(latin1_chars(data@.take(i + 1)) =~= latin1_chars(data@.take(i as int)).push(c));
            lemma_encode_utf8_push(latin1_chars(data@.take(i as int)), c);
        }
        push_latin1_char(&mut bytes, data[i]);
        i = i + 1;
    }
    Err(MsLogonError::NoNulByte)
}

/// The plain text of a field that the client sent encrypted with the key made
/// of `shared_secret`'s big-endian bytes.
pub open spec fn decrypted_field(shared_secret: u64, field: Seq<u8>) -> Seq<u8> {
    Seq::new(field.len(), |i: int| plain_block(field, u64_be_bytes(shared_secret), (i / 8) as nat)[i % 8])
}

/// What `u8_null_to_string` gives for `data`.
pub open spec fn nul_terminated_ok(data: Seq<u8>, s: Seq<char>) -> bool {
    exists|n: int| first_nul_at(data, n) && s == latin1_chars(data.take(n))
}

/// `data` holds a NUL byte.
pub open spec fn has_nul(data: Seq<u8>) -> bool {
    exists|n: int| 0 <= n < data.len() && data[n] == 0
}

/// Decrypts a received field with the shared secret and reads the string in it.
pub fn decrypt_field(shared_secret: u64, field: &[u8]) -> (r: Result<String, MsLogonError>)
    requires
        field@.len() >= 8,
        field@.len() % 8 == 0,
    ensures
        r is Ok <==> has_nul(decrypted_field(shared_secret, field@)),
        r matches Ok(s) ==> nul_terminated_ok(decrypted_field(shared_secret, field@), s@),
        r matches Err(e) ==> e == MsLogonError::NoNulByte,
{
    let mut key_bytes: Vec<u8> = Vec::new();
    push_u64_be(&mut key_bytes, shared_secret);
    let key: [u8; 8] = [
        key_bytes[0],
        key_bytes[1],
        key_bytes[2],
        key_bytes[3],
        key_bytes[4],
        key_bytes[5],
        key_bytes[6],
        key_bytes[7],
    ];
    assert(key@ =~= u64_be_bytes(shared_secret));
    let mut data: Vec<u8> = Vec::new();
    crate::wire::push_bytes(&mut data, field);
    vnc_decrypt_bytes(data.as_mut_slice(), &key);
    let ghost plain = decrypted_field(shared_secret, field@);
    assert(data@ =~= plain) by {
        assert forall|i: int| 0 <= i < data@.len() implies data@[i] == plain[i] by {
            let k = i / 8;
            assert(block_of(data@, k)[i % 8] == data@[i]);
        }
    }
    u8_null_to_string(data.as_slice())
}

/// The user name and password that the client sent: the shared secret is the
/// client's public value raised to the server's private key modulo `modulus`;
/// each field is decrypted with it and read up to its first NUL byte.
pub fn credentials(
    client_public: u64,
    private_key: u64,
    modulus: u64,
    username_crypted: &[u8],
    password_crypted: &[u8],
) -> (r: Result<(String, String), MsLogonError>)
    requires
        modpow_defined(client_public, private_key, modulus),
        username_crypted@.len() >= 8,
        username_crypted@.len() % 8 == 0,
        password_crypted@.len() >= 8,
        password_crypted@.len() % 8 == 0,
    ensures
        ({
            let secret = spec_modpow(client_public, private_key, modulus);
            let user = decrypted_field(secret, username_crypted@);
            let pass = decrypted_field(secret, password_crypted@);
            &&& r is Ok <==> has_nul(user) && has_nul(pass)
            &&& r matches Ok((u, p)) ==> nul_terminated_ok(user, u@) && nul_terminated_ok(pass, p@)
            &&& r matches Err(e) ==> e == MsLogonError::NoNulByte
        }),
{
    let secret = modpow(client_public, private_key, modulus);
    let username = decrypt_field(secret, username_crypted)?;
    let password = decrypt_field(secret, password_crypted)?;
    Ok((username, password))
}

} // verus!
