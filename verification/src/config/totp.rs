//! The TOTP applications of the configuration, and their codes.
//!
//! Codes are RFC 6238 codes of 6 digits over HMAC-SHA-1 with a 30 second
//! step, computed by the `totp_rs` crate. Secrets are written in the
//! configuration in base32 (without padding; spaces are ignored).

use vstd::prelude::*;
use crate::text::{decimal, push_char, push_decimal};

verus! {

#[verifier::external_type_specification]
#[verifier::external_body]
pub struct ExSystemTimeError(std::time::SystemTimeError);

#[verifier::external_type_specification]
#[verifier::external_body]
pub struct ExSecretParseError(totp_rs::SecretParseError);

/// The hash function of an HOTP/TOTP code (the variants of `totp_rs::Algorithm`).
#[derive(Debug, PartialEq, Eq)]
pub enum HashAlgorithm {
    Sha1,
    Sha256,
    Sha512,
}

/// Number of digits of a code.
pub const TOTP_DIGITS: usize = 6;

/// Number of steps of clock drift tolerated when a code is checked.
pub const TOTP_SKEW: u8 = 1;

/// Length of a time step, in seconds.
pub const TOTP_STEP: u64 = 30;

/// The code that `totp_rs::TOTP::generate` computes for a TOTP with the
/// given hash, number of digits and secret in time step number `counter`
/// (the Unix time divided by the length of a step): the HMAC of the counter,
/// truncated as RFC 4226 says.
pub uninterp spec fn totp_token(
    algorithm: HashAlgorithm,
    digits: usize,
    secret: Seq<u8>,
    counter: u64,
) -> Seq<char>;

/// The code of the bot's TOTPs (HMAC-SHA-1, 6 digits, 30 second steps) for
/// `secret` at Unix time `time`.
pub open spec fn totp_code(secret: Seq<u8>, time: u64) -> Seq<char> {
    totp_token(HashAlgorithm::Sha1, TOTP_DIGITS, secret, time / TOTP_STEP)
}

/// Two instants in one time step have the same code.
pub proof fn lemma_code_constant_within_step(secret: Seq<u8>, t1: u64, t2: u64)
    requires
        t1 / TOTP_STEP == t2 / TOTP_STEP,
    ensures
        totp_code(secret, t1) == totp_code(secret, t2),
{
}

/// The bytes that the base32 text `encoded` (RFC 4648 alphabet, no padding)
/// stands for, as `totp_rs::Secret::Encoded(..).to_bytes()` decodes it;
/// `None` where it is no such text.
pub uninterp spec fn base32_secret(encoded: Seq<char>) -> Option<Seq<u8>>;

/// `s` is a code of `digits` decimal digits.
pub open spec fn is_code(s: Seq<char>, digits: nat) -> bool {
    &&& s.len() == digits
    &&& forall|i: int| 0 <= i < s.len() ==> '0' <= #[trigger] s[i] <= '9'
}

/// `totp_rs::TOTP::generate`: the code of a TOTP built of these parameters
/// at Unix time `time`. `totp_rs` signs `time / step` only, and formats the
/// truncated HMAC value modulo 10^digits with `digits` digits, zero-padded,
/// so the code has exactly `digits` decimal digits; it does not depend on
/// `skew`.
#[verifier::external_body]
fn totp_generate(
    algorithm: HashAlgorithm,
    digits: usize,
    skew: u8,
    step: u64,
    secret: &Vec<u8>,
    time: u64,
) -> (code: String)
    requires
        1 <= digits <= 9,
        step > 0,
    ensures
        code@ == totp_token(algorithm, digits, secret@, time / step),
        is_code(code@, digits as nat),
{
    let algorithm = match algorithm {
        HashAlgorithm::Sha1 => totp_rs::Algorithm::SHA1,
        HashAlgorithm::Sha256 => totp_rs::Algorithm::SHA256,
        HashAlgorithm::Sha512 => totp_rs::Algorithm::SHA512,
    };
    totp_rs::TOTP { algorithm, digits, skew, step, secret: secret.clone() }.generate(time)
}

/// `totp_rs::TOTP::generate_current`: the code at the current system time,
/// or the error of reading a clock that stands before the Unix epoch.
/// `totp_rs` computes `generate(t)` for the current Unix time `t`; which `t`
/// that is, is left open.
#[verifier::external_body]
fn totp_generate_current(
    algorithm: HashAlgorithm,
    digits: usize,
    skew: u8,
    step: u64,
    secret: &Vec<u8>,
) -> (res: Result<String, std::time::SystemTimeError>)
    requires
        1 <= digits <= 9,
        step > 0,
    ensures
        res matches Ok(code) ==> exists|t: u64|
            code@ == #[trigger] totp_token(algorithm, digits, secret@, t / step),
        res matches Ok(code) ==> is_code(code@, digits as nat),
{
    let algorithm = match algorithm {
        HashAlgorithm::Sha1 => totp_rs::Algorithm::SHA1,
        HashAlgorithm::Sha256 => totp_rs::Algorithm::SHA256,
        HashAlgorithm::Sha512 => totp_rs::Algorithm::SHA512,
    };
    totp_rs::TOTP { algorithm, digits, skew, step, secret: secret.clone() }.generate_current()
}

/// `totp_rs::Secret::to_bytes` of `Secret::Encoded(encoded)`: base32 decoding.
#[verifier::external_body]
fn secret_to_bytes(encoded: String) -> (res: Result<Vec<u8>, totp_rs::SecretParseError>)
    ensures
        match res {
            Ok(bytes) => base32_secret(encoded@) == Some(bytes@),
            Err(_) => base32_secret(encoded@) is None,
        },
{
    totp_rs::Secret::Encoded(encoded).to_bytes()
}

/// `s` with its spaces taken out.
pub open spec fn without_spaces(s: Seq<char>) -> Seq<char>
    decreases s.len(),
{
    if s.len() == 0 {
        s
    } else if s.last() == ' ' {
        without_spaces(s.drop_last())
    } else {
        without_spaces(s.drop_last()).push(s.last())
    }
}

/// Taking the spaces out works piece by piece: the text of two pieces loses
/// the spaces of each, and a single character is dropped exactly when it is
/// a space.
pub proof fn lemma_without_spaces_concat(s: Seq<char>, t: Seq<char>)
    ensures
        without_spaces(s + t) == without_spaces(s) + without_spaces(t),
    decreases t.len(),
{
    if t.len() == 0 {
        assert(s + t =~= s);
        assert(without_spaces(s) + without_spaces(t) =~= without_spaces(s));
    } else {
        lemma_without_spaces_concat(s, t.drop_last());
        assert((s + t).drop_last() =~= s + t.drop_last());
        assert((s + t).last() == t.last());
        assert(without_spaces(s + t) =~= without_spaces(s) + without_spaces(t));
    }
}

/// A single character is kept exactly when it is not a space.
pub proof fn lemma_without_spaces_char(c: char)
    ensures
        c == ' ' ==> without_spaces(seq![c]).len() == 0,
        c != ' ' ==> without_spaces(seq![c]) == seq![c],
{
    let e = Seq::<char>::empty();
    assert(without_spaces(e) == e);
    assert(seq![c].drop_last() =~= e);
    assert(seq![c].len() == 1);
    assert(seq![c].last() == c);
    if c != ' ' {
        assert(Seq::<char>::empty().push(c) =~= seq![c]);
    }
}

proof fn lemma_spaceless_unchanged(t: Seq<char>)
    requires
        !t.contains(' '),
    ensures
        without_spaces(t) == t,
    decreases t.len(),
{
    if t.len() > 0 {
        assert(t.last() == t[t.len() - 1]);
        assert(!t.drop_last().contains(' ')) by {
            if t.drop_last().contains(' ') {
                let i: int = choose|i: int| 0 <= i < t.drop_last().len() && t.drop_last()[i] == ' ';
                assert(t[i] == ' ');
            }
        }
        lemma_spaceless_unchanged(t.drop_last());
        assert(t.drop_last().push(t.last()) =~= t);
    }
}

/// Taking the spaces out of a text leaves none, and taking them out again
/// changes nothing: a secret decodes alike with or without its spaces.
pub proof fn lemma_without_spaces(s: Seq<char>)
    ensures
        !without_spaces(s).contains(' '),
        without_spaces(without_spaces(s)) == without_spaces(s),
    decreases s.len(),
{
    if s.len() > 0 {
        lemma_without_spaces(s.drop_last());
        let rest = without_spaces(s.drop_last());
        if s.last() != ' ' {
            let w = rest.push(s.last());
            assert(!w.contains(' ')) by {
                if w.contains(' ') {
                    let i: int = choose|i: int| 0 <= i < w.len() && w[i] == ' ';
                    if i < rest.len() {
                        assert(rest[i] == ' ');
                    }
                }
            }
        }
    }
    lemma_spaceless_unchanged(without_spaces(s));
}

/// Decodes a secret as the configuration writes it: base32 text in which
/// spaces are ignored.
pub fn decode_secret(encoded: &str) -> (res: Result<Vec<u8>, totp_rs::SecretParseError>)
    ensures
        match res {
            Ok(bytes) => base32_secret(without_spaces(encoded@)) == Some(bytes@),
            Err(_) => base32_secret(without_spaces(encoded@)) is None,
        },
{
    let mut compact = String::new();
    let ghost text = encoded@;
    for c in it: encoded.chars()
        invariant
            it.seq() == text,
            compact@ == without_spaces(text.take(it.index() as int)),
    {
        proof {
            assert(text.take(it.index() + 1).drop_last() =~= text.take(it.index() as int));
        }
        if c != ' ' {
            push_char(&mut compact, c);
        }
    }
    proof {
        assert(text.take(text.len() as int) =~= text);
    }
    secret_to_bytes(compact)
}

/// Why no code could be made.
#[derive(Debug)]
pub enum TotpError {
    /// The number of digits is not between 6 and 8.
    DigitsNumber(usize),
    /// The secret is shorter than 128 bits; the number of bits it has.
    SecretSize(usize),
    /// The system clock stands before the Unix epoch.
    SystemTime(std::time::SystemTimeError),
}

/// `format!("{}", e)`: what a `SystemTimeError` says.
#[verifier::external_body]
fn system_time_error_text(e: &std::time::SystemTimeError) -> String {
    format!("{}", e)
}

impl TotpError {
    /// `s` is what the error says (the texts of `totp_rs::TotpUrlError`).
    pub open spec fn message_spec(&self, s: Seq<char>) -> bool {
        match self {
            TotpError::DigitsNumber(d) => s == "Implementations MUST extract a 6-digit code at a minimum and possibly 7 and 8-digit code. "@
                + decimal(*d as nat) + " digits is not allowed"@,
            TotpError::SecretSize(bits) => s == "The length of the shared secret MUST be at least 128 bits. "@
                + decimal(*bits as nat) + " bits is not enough"@,
            TotpError::SystemTime(_) => true,
        }
    }

    /// What the error says.
    pub fn to_string(&self) -> (s: String)
        ensures
            self.message_spec(s@),
    {
        match self {
            TotpError::DigitsNumber(d) => {
                let mut s = String::from_str(
                    "Implementations MUST extract a 6-digit code at a minimum and possibly 7 and 8-digit code. ",
                );
                push_decimal(&mut s, *d as u64);
                s.append(" digits is not allowed");
                s
            },
            TotpError::SecretSize(bits) => {
                let mut s = String::from_str("The length of the shared secret MUST be at least 128 bits. ");
                push_decimal(&mut s, *bits as u64);
                s.append(" bits is not enough");
                s
            },
            TotpError::SystemTime(e) => system_time_error_text(e),
        }
    }
}

/// The verdict of the checks that `totp_rs::TOTP::new` makes of its
/// parameters: 6 to 8 digits, and a secret of at least 128 bits.
pub open spec fn totp_params_check(digits: usize, secret_len: nat) -> Result<(), TotpError> {
    if !(6 <= digits <= 8) {
        Err(TotpError::DigitsNumber(digits))
    } else if secret_len < 16 {
        Err(TotpError::SecretSize((secret_len * 8) as usize))
    } else {
        Ok(())
    }
}

fn check_totp_params(digits: usize, secret: &Vec<u8>) -> (res: Result<(), TotpError>)
    ensures
        res == totp_params_check(digits, secret@.len()),
{
    if !(6 <= digits && digits <= 8) {
        Err(TotpError::DigitsNumber(digits))
    } else if secret.len() < 16 {
        Err(TotpError::SecretSize(secret.len() * 8))
    } else {
        Ok(())
    }
}

/// One TOTP application: its name, its description and its secret.
pub struct Totp {
    pub name: String,
    desc: String,
    secret: Vec<u8>,
}

impl Totp {
    /// The name.
    pub closed spec fn app_name(&self) -> Seq<char> {
        self.name@
    }

    /// The description.
    pub closed spec fn description(&self) -> Seq<char> {
        self.desc@
    }

    /// The secret, decoded.
    pub closed spec fn secret_bytes(&self) -> Seq<u8> {
        self.secret@
    }

    /// An application with the given name, description and decoded secret.
    pub fn new(name: String, desc: String, secret: Vec<u8>) -> (t: Totp)
        ensures
            t.app_name() == name@,
            t.description() == desc@,
            t.secret_bytes() == secret@,
    {
        Totp { name, desc, secret }
    }

    /// The name.
    pub fn name(&self) -> (n: &String)
        ensures
            n@ == self.app_name(),
    {
        &self.name
    }

    /// The description.
    pub fn desc(&self) -> (d: &String)
        ensures
            d@ == self.description(),
    {
        &self.desc
    }

    /// The code of this application at Unix time `time`.
    pub fn generate_totp_at(&self, time: u64) -> (res: Result<String, TotpError>)
        ensures
            match res {
                Ok(code) => {
                    &&& self.secret_bytes().len() >= 16
                    &&& code@ == totp_code(self.secret_bytes(), time)
                    &&& is_code(code@, TOTP_DIGITS as nat)
                },
                Err(e) => {
                    &&& self.secret_bytes().len() < 16
                    &&& e == TotpError::SecretSize((self.secret_bytes().len() * 8) as usize)
                },
            },
    {
        check_totp_params(TOTP_DIGITS, &self.secret)?;
        Ok(totp_generate(HashAlgorithm::Sha1, TOTP_DIGITS, TOTP_SKEW, TOTP_STEP, &self.secret, time))
    }

    /// The code of this application now.
    pub fn generate_totp(&self) -> (res: Result<String, TotpError>)
        ensures
            self.secret_bytes().len() < 16 ==> res == Err::<String, TotpError>(
                TotpError::SecretSize((self.secret_bytes().len() * 8) as usize),
            ),
            self.secret_bytes().len() >= 16 ==> (res is Ok || res matches Err(
                TotpError::SystemTime(_),
            )),
            res matches Ok(code) ==> is_code(code@, TOTP_DIGITS as nat) && exists|t: u64|
                code@ == #[trigger] totp_code(self.secret_bytes(), t),
    {
        check_totp_params(TOTP_DIGITS, &self.secret)?;
        match totp_generate_current(HashAlgorithm::Sha1, TOTP_DIGITS, TOTP_SKEW, TOTP_STEP, &self.secret) {
            Ok(code) => {
                proof {
                    let t: u64 = choose|t: u64|
                        code@ == #[trigger] totp_token(
                            HashAlgorithm::Sha1,
                            TOTP_DIGITS,
                            self.secret_bytes(),
                            t / TOTP_STEP,
                        );
                    assert(code@ == totp_code(self.secret_bytes(), t));
                }
                Ok(code)
            },
            Err(e) => Err(TotpError::SystemTime(e)),
        }
    }
}

} // verus!
