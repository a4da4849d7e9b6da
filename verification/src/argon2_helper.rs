//! Hashes of token secrets.
use argon2::password_hash::{PasswordHash, PasswordHasher, PasswordVerifier, SaltString};
use argon2::{Algorithm, Argon2, Params, Version};
use vstd::prelude::*;
use vstd::string::StringSliceAdditionalSpecFns;

use crate::random::random_bytes;
use crate::secret::Secret;
use crate::text::{
    cat, chars_of, join, joined, lemma_joined_holds, lemma_joined_is_split, lemma_split_parts,
    opt_text, parse_u64, split, split_spec, starts, starts_with, string_of, texts, u64_of,
};

verus! {

/// Why a secret was not hashed or tested.
#[derive(Debug)]
pub enum HashError {
    /// The secret could not be hashed, or the hash could not be read.
    Hash(String),
    /// The secret could not be tested.
    Verify(String),
    /// The cost parameters are not allowed.
    Params(String),
}

/// What a [`HashError`] says.
pub ghost enum HashErrorView {
    Hash(Seq<char>),
    Verify(Seq<char>),
    Params(Seq<char>),
}

impl View for HashError {
    type V = HashErrorView;

    open spec fn view(&self) -> HashErrorView {
        match self {
            HashError::Hash(m) => HashErrorView::Hash(m@),
            HashError::Verify(m) => HashErrorView::Verify(m@),
            HashError::Params(m) => HashErrorView::Params(m@),
        }
    }
}

/// The text of an error.
pub open spec fn hash_error_message(e: HashErrorView) -> Seq<char> {
    match e {
        HashErrorView::Hash(m) => "argon2 hash: "@ + m,
        HashErrorView::Verify(m) => "argon2 verify: "@ + m,
        HashErrorView::Params(m) => "argon2 params: "@ + m,
    }
}

impl HashError {
    /// The text of the error.
    pub fn message(&self) -> (r: String)
        ensures
            r@ == hash_error_message(self@),
    {
        match self {
            HashError::Hash(m) => cat("argon2 hash: ", m.as_str()),
            HashError::Verify(m) => cat("argon2 verify: ", m.as_str()),
            HashError::Params(m) => cat("argon2 params: ", m.as_str()),
        }
    }
}

/// The cost of a hash: memory in KiB, passes, lanes, and the bytes of the
/// output.
#[derive(Debug, Clone, Copy)]
pub struct Cost {
    pub memory_kib: u32,
    pub passes: u32,
    pub lanes: u32,
    pub output_len: usize,
}

/// Four mebibytes, three passes, one lane, 256 bits.
pub open spec fn token_cost() -> Cost {
    Cost { memory_kib: 4096, passes: 3, lanes: 1, output_len: 32 }
}

fn cost() -> (r: Cost)
    ensures
        r == token_cost(),
{
    Cost { memory_kib: 4096, passes: 3, lanes: 1, output_len: 32 }
}

/// The PHC string of a secret hashed with Argon2id, version 0x13.
pub uninterp spec fn argon2id_hash(secret: Seq<u8>, salt: Seq<u8>, cost: Cost) -> Result<
    Seq<char>,
    HashErrorView,
>;

/// Whether a secret is the one behind a PHC string.
pub uninterp spec fn argon2id_check(phc: Seq<char>, secret: Seq<u8>, cost: Cost) -> Result<
    bool,
    HashErrorView,
>;

/// Why a text cannot be read as a PHC string, if so.
pub uninterp spec fn phc_fault(phc: Seq<char>) -> Option<Seq<char>>;

/// The salt that a PHC string holds.
pub uninterp spec fn phc_salt(phc: Seq<char>) -> Seq<u8>;

/// Whether a parameter asks for so many lanes that eight blocks for each are more than
/// 32 bits can count: a number from 2^29 on, below 2^32.
pub open spec fn overflows(part: Seq<char>) -> bool {
    &&& starts(part, "p="@)
    &&& part.len() > 2
    &&& '1' <= part[2] <= '9'
    &&& u64_of(part.skip(2)) is Some
    &&& 0x2000_0000 <= u64_of(part.skip(2))->Some_0 <= 0xffff_ffff
}

/// Whether no parameter in a field of a PHC string asks for too many lanes.
pub open spec fn field_fits(field: Seq<char>) -> bool {
    let parts = split_spec(field, ',');
    forall|k: int| 0 <= k < parts.len() ==> !overflows(#[trigger] parts[k])
}

/// Whether no parameter of a PHC string asks for too many lanes.
pub open spec fn lanes_fit(phc: Seq<char>) -> bool {
    let fields = split_spec(phc, '$');
    forall|i: int| 0 <= i < fields.len() ==> field_fits(#[trigger] fields[i])
}

/// A parameter, with no lanes in place of too many.
pub open spec fn capped_part(part: Seq<char>) -> Seq<char> {
    if overflows(part) {
        "p=0"@
    } else {
        part
    }
}

/// A field of a PHC string, with no lanes in place of too many.
pub open spec fn capped_field(field: Seq<char>) -> Seq<char> {
    joined(split_spec(field, ',').map_values(|part: Seq<char>| capped_part(part)), ","@)
}

/// A PHC string, with no lanes in place of too many.
pub open spec fn capped(phc: Seq<char>) -> Seq<char> {
    joined(split_spec(phc, '$').map_values(|field: Seq<char>| capped_field(field)), "$"@)
}

proof fn lemma_capped_field(field: Seq<char>)
    ensures
        field_fits(capped_field(field)),
        !field.contains('$') ==> !capped_field(field).contains('$'),
{
    reveal_strlit("p=0");
    reveal_strlit("p=");
    reveal_strlit(",");
    assert(","@ =~= seq![',']);
    lemma_split_parts(field, ',');
    let parts = split_spec(field, ',');
    let caps = parts.map_values(|part: Seq<char>| capped_part(part));
    assert forall|k: int| 0 <= k < caps.len() implies !(#[trigger] caps[k]).contains(',')
        && !overflows(caps[k]) && (!field.contains('$') ==> !caps[k].contains('$')) by {
        assert(caps[k] == capped_part(parts[k]));
        if parts[k].contains(',') {
            assert(field.contains(','));
        }
        if parts[k].contains('$') {
            assert(field.contains('$'));
        }
    }
    lemma_joined_is_split(caps, ',');
    if !field.contains('$') {
        lemma_joined_holds(caps, ","@, '$');
    }
}

proof fn lemma_capped(phc: Seq<char>)
    ensures
        lanes_fit(capped(phc)),
{
    reveal_strlit("$");
    assert("$"@ =~= seq!['$']);
    lemma_split_parts(phc, '$');
    let fields = split_spec(phc, '$');
    let caps = fields.map_values(|field: Seq<char>| capped_field(field));
    assert forall|i: int| 0 <= i < caps.len() implies !(#[trigger] caps[i]).contains('$')
        && field_fits(caps[i]) by {
        assert(caps[i] == capped_field(fields[i]));
        if fields[i].contains('$') {
            assert(phc.contains('$'));
        }
        lemma_capped_field(fields[i]);
    }
    lemma_joined_is_split(caps, '$');
}

fn has_overflow(part: &str) -> (r: bool)
    ensures
        r == overflows(part@),
{
    proof {
        reveal_strlit("p=");
    }
    if !starts_with(part, "p=") {
        return false;
    }
    let cs = chars_of(part);
    if cs.len() <= 2 || cs[2] < '1' || cs[2] > '9' {
        return false;
    }
    let digits = string_of(&cs, 2, cs.len());
    assert(digits@ =~= part@.skip(2));
    match parse_u64(digits.as_str()) {
        Some(n) => 0x2000_0000 <= n && n <= 0xffff_ffff,
        None => false,
    }
}

fn cap_field(field: &str) -> (r: (String, bool))
    ensures
        r.0@ == capped_field(field@),
        r.1 == field_fits(field@),
{
    let parts = split(field, ',');
    let ghost all = split_spec(field@, ',');
    let ghost caps = all.map_values(|part: Seq<char>| capped_part(part));
    let mut out: Vec<String> = Vec::new();
    let mut fits = true;
    let mut k: usize = 0;
    assert(texts(out@) =~= caps.take(0));
    while k < parts.len()
        invariant
            k <= parts@.len(),
            all == texts(parts@),
            all == split_spec(field@, ','),
            caps == all.map_values(|part: Seq<char>| capped_part(part)),
            texts(out@) == caps.take(k as int),
            fits == (forall|j: int| 0 <= j < k ==> !overflows(#[trigger] all[j])),
        decreases parts.len() - k,
    {
        let ghost before = out@;
        assert(all[k as int] == parts@[k as int]@);
        assert(caps[k as int] == capped_part(all[k as int]));
        let part = if has_overflow(parts[k].as_str()) {
            fits = false;
            "p=0".to_string()
        } else {
            parts[k].clone()
        };
        let ghost x = part@;
        out.push(part);
        assert(texts(out@) =~= texts(before).push(x));
        assert(caps.take(k + 1) =~= caps.take(k as int).push(x));
        k = k + 1;
    }
    assert(caps.take(caps.len() as int) =~= caps);
    (join(&out, ","), fits)
}

/// A PHC string with no lanes in place of too many, and whether it had not too many.
fn cap(phc: &str) -> (r: (String, bool))
    ensures
        r.0@ == capped(phc@),
        r.1 == lanes_fit(phc@),
{
    let fields = split(phc, '$');
    let ghost all = split_spec(phc@, '$');
    let ghost caps = all.map_values(|field: Seq<char>| capped_field(field));
    let mut out: Vec<String> = Vec::new();
    let mut fits = true;
    let mut i: usize = 0;
    assert(texts(out@) =~= caps.take(0));
    while i < fields.len()
        invariant
            i <= fields@.len(),
            all == texts(fields@),
            all == split_spec(phc@, '$'),
            caps == all.map_values(|field: Seq<char>| capped_field(field)),
            texts(out@) == caps.take(i as int),
            fits == (forall|j: int| 0 <= j < i ==> field_fits(#[trigger] all[j])),
        decreases fields.len() - i,
    {
        let ghost before = out@;
        assert(all[i as int] == fields@[i as int]@);
        assert(caps[i as int] == capped_field(all[i as int]));
        let (field, here) = cap_field(fields[i].as_str());
        let ghost x = field@;
        out.push(field);
        fits = fits && here;
        assert(texts(out@) =~= texts(before).push(x));
        assert(caps.take(i + 1) =~= caps.take(i as int).push(x));
        i = i + 1;
    }
    assert(caps.take(caps.len() as int) =~= caps);
    (join(&out, "$"), fits)
}

/// The bytes of a salt.
pub const SALT_LEN: usize = 16;

/// The bytes of the longest secret that can be hashed.
pub const SECRET_MAX: u64 = 0xffff_ffff;

/// `Argon2::hash_password`, for Argon2id of version 0x13 with the cost of token
/// secrets and a salt of sixteen bytes: what comes out depends on the secret, the
/// salt and the cost alone. It fails only on a secret of more than 2^32 - 1 bytes,
/// with an error of the hash. The PHC string can be read, begins with the name of the
/// algorithm, names the one lane of the cost and holds the salt, and the secret that
/// was hashed passes the test against it. Salts of less than three bytes make it panic,
/// and so can other costs.
#[verifier::external_body]
fn hash_with(secret: &[u8], salt: &[u8], cost: Cost) -> (r: Result<String, HashError>)
    requires
        salt@.len() == SALT_LEN,
        cost == token_cost(),
    ensures
        r is Ok <==> secret@.len() <= SECRET_MAX,
        match r {
            Ok(phc) => argon2id_hash(secret@, salt@, cost) == Ok::<Seq<char>, HashErrorView>(phc@)
                && starts(phc@, "$argon2id$"@) && phc_fault(phc@) is None && phc_salt(phc@)
                == salt@ && lanes_fit(phc@) && argon2id_check(phc@, secret@, cost) == Ok::<
                bool,
                HashErrorView,
            >(true),
            Err(e) => e is Hash && argon2id_hash(secret@, salt@, cost) == Err::<
                Seq<char>,
                HashErrorView,
            >(e@),
        },
{
    let salt = SaltString::encode_b64(salt).map_err(|e| HashError::Hash(e.to_string()))?;
    let params = Params::new(cost.memory_kib, cost.passes, cost.lanes, Some(cost.output_len))
        .map_err(|e| HashError::Params(e.to_string()))?;
    Argon2::new(Algorithm::Argon2id, Version::V0x13, params)
        .hash_password(secret, &salt)
        .map(|phc| phc.to_string())
        .map_err(|e| HashError::Hash(e.to_string()))
}

/// `PasswordHash::new`: why a text cannot be read as a PHC string, if so. That depends on
/// the text alone.
#[verifier::external_body]
fn read_fault(phc: &str) -> (r: Option<String>)
    ensures
        opt_text(r) == phc_fault(phc@),
{
    PasswordHash::new(phc).err().map(|e| e.to_string())
}

/// `PasswordVerifier::verify_password` of Argon2id: whether the secret is the
/// one behind the PHC string, whose own parameters are used. What comes out
/// depends on the string, the secret and the cost alone. It can panic where the
/// string asks for 2^29 lanes or more, or at another cost. The memory and the time
/// that it takes are those that the string asks for.
#[verifier::external_body]
fn check_with(phc: &str, secret: &[u8], cost: Cost) -> (r: Result<bool, HashError>)
    requires
        lanes_fit(phc@),
        cost == token_cost(),
    ensures
        match r {
            Ok(b) => argon2id_check(phc@, secret@, cost) == Ok::<bool, HashErrorView>(b),
            Err(e) => argon2id_check(phc@, secret@, cost) == Err::<bool, HashErrorView>(e@),
        },
{
    let parsed = PasswordHash::new(phc).map_err(|e| HashError::Hash(e.to_string()))?;
    let params = Params::new(cost.memory_kib, cost.passes, cost.lanes, Some(cost.output_len))
        .map_err(|e| HashError::Params(e.to_string()))?;
    let hasher = Argon2::new(Algorithm::Argon2id, Version::V0x13, params);
    match hasher.verify_password(secret, &parsed) {
        Ok(()) => Ok(true),
        Err(argon2::password_hash::Error::Password) => Ok(false),
        Err(e) => Err(HashError::Verify(e.to_string())),
    }
}

/// Whether the secret with the given text is the one behind a PHC string. A text that
/// cannot be read is an error of the hash. A string that asks for more lanes than can be
/// counted is tested as one that asks for none, which is refused as well.
pub open spec fn secret_matches(phc: Seq<char>, secret: Seq<char>) -> Result<bool, HashErrorView> {
    match phc_fault(phc) {
        Some(m) => Err(HashErrorView::Hash(m)),
        None => argon2id_check(
            if lanes_fit(phc) {
                phc
            } else {
                capped(phc)
            },
            vstd::utf8::encode_utf8(secret),
            token_cost(),
        ),
    }
}

/// The PHC string of the secret with the given text and a salt.
pub open spec fn salted(secret: Seq<char>, salt: Seq<u8>) -> Result<Seq<char>, HashErrorView> {
    argon2id_hash(vstd::utf8::encode_utf8(secret), salt, token_cost())
}

/// Whether the secret with the given text is short enough to be hashed.
pub open spec fn hashable(secret: Seq<char>) -> bool {
    vstd::utf8::encode_utf8(secret).len() <= SECRET_MAX
}

proof fn lemma_encoded_len(text: Seq<char>)
    ensures
        vstd::utf8::encode_utf8(text).len() <= 4 * text.len(),
    decreases text.len(),
{
    if text.len() > 0 {
        lemma_encoded_len(text.drop_first());
    }
}

/// A secret of at most a billion characters can be hashed.
pub proof fn lemma_short_is_hashable(secret: Seq<char>)
    requires
        secret.len() <= 1_000_000_000,
    ensures
        hashable(secret),
{
    lemma_encoded_len(secret);
}

/// Whether a hash came from a secret: its salt has sixteen bytes, and with it it is that
/// secret's hash.
pub open spec fn hash_of(phc: Seq<char>, secret: Seq<char>) -> bool {
    phc_salt(phc).len() == SALT_LEN && salted(secret, phc_salt(phc)) == Ok::<
        Seq<char>,
        HashErrorView,
    >(phc)
}

/// Whether a text is a hash of a secret, and good for it: it can be read as it is, and the
/// secret passes the test against it.
pub open spec fn hashed(phc: Seq<char>, secret: Seq<char>) -> bool {
    &&& hash_of(phc, secret)
    &&& starts(phc, "$argon2id$"@)
    &&& phc_fault(phc) is None
    &&& lanes_fit(phc)
    &&& secret_matches(phc, secret) == Ok::<bool, HashErrorView>(true)
}

/// Whether an error says that there were no random bytes for a salt.
pub open spec fn no_salt(e: HashErrorView) -> bool {
    e matches HashErrorView::Hash(m) && starts(m, "OS RNG unavailable: "@)
}

/// Whether a text is that of an error that says that there were no random bytes for
/// a salt.
pub open spec fn no_salt_message(text: Seq<char>) -> bool {
    exists|e: HashErrorView| no_salt(e) && text == #[trigger] hash_error_message(e)
}

/// Whether an error says that a secret is too long to be hashed.
pub open spec fn secret_too_long(e: HashErrorView, secret: Seq<char>) -> bool {
    !hashable(secret) && exists|salt: Seq<u8>|
        salt.len() == SALT_LEN && #[trigger] salted(secret, salt) == Err::<
            Seq<char>,
            HashErrorView,
        >(e)
}

/// The PHC string of a secret with a salt of sixteen bytes. The secret passes the
/// test against it.
pub fn hash_salted(secret: &Secret, salt: &[u8]) -> (r: Result<String, HashError>)
    requires
        salt@.len() == SALT_LEN,
    ensures
        r is Ok <==> hashable(secret@),
        match r {
            Ok(phc) => phc_salt(phc@) == salt@ && hashed(phc@, secret@),
            Err(e) => e is Hash && salted(secret@, salt@) == Err::<Seq<char>, HashErrorView>(e@),
        },
{
    hash_with(secret.expose().as_bytes(), salt, cost())
}

/// The PHC string of a secret, hashed with a fresh random salt. The secret
/// passes the test against it. It fails only where there are no random bytes for
/// the salt, or the secret is too long.
pub fn hash(secret: &Secret) -> (r: Result<String, HashError>)
    ensures
        match r {
            Ok(phc) => hashable(secret@) && hashed(phc@, secret@),
            Err(e) => no_salt(e@) || secret_too_long(e@, secret@),
        },
{
    let salt = match random_bytes(SALT_LEN) {
        Ok(s) => s,
        Err(e) => {
            let message = cat("OS RNG unavailable: ", e.as_str());
            assert(message@.take("OS RNG unavailable: "@.len() as int) =~= "OS RNG unavailable: "@);
            return Err(HashError::Hash(message));
        },
    };
    hash_salted(secret, salt.as_slice())
}

/// Whether `secret` is the one behind `phc_hash`. An error only where the hash
/// cannot be read.
pub fn verify(phc_hash: &str, secret: &Secret) -> (r: Result<bool, HashError>)
    ensures
        match r {
            Ok(b) => secret_matches(phc_hash@, secret@) == Ok::<bool, HashErrorView>(b),
            Err(e) => secret_matches(phc_hash@, secret@) == Err::<bool, HashErrorView>(e@),
        },
{
    if let Some(m) = read_fault(phc_hash) {
        return Err(HashError::Hash(m));
    }
    let (capped_hash, fits) = cap(phc_hash);
    if fits {
        return check_with(phc_hash, secret.expose().as_bytes(), cost());
    }
    proof {
        lemma_capped(phc_hash@);
    }
    check_with(capped_hash.as_str(), secret.expose().as_bytes(), cost())
}

/// Two hashes of a secret are good for that secret, and they are not the same where their
/// salts are not. A secret of which the test says that it is another one is turned away.
pub proof fn law_hashes_are_good_for_their_secret(
    a: Seq<char>,
    b: Seq<char>,
    secret: Seq<char>,
    other: Seq<char>,
)
    requires
        hashed(a, secret),
        hashed(b, secret),
    ensures
        secret_matches(a, secret) == Ok::<bool, HashErrorView>(true),
        secret_matches(b, secret) == Ok::<bool, HashErrorView>(true),
        starts(a, "$argon2id$"@),
        phc_salt(a) != phc_salt(b) ==> a != b,
        argon2id_check(a, vstd::utf8::encode_utf8(other), token_cost()) == Ok::<
            bool,
            HashErrorView,
        >(false) ==> secret_matches(a, other) == Ok::<bool, HashErrorView>(false),
{
}

/// Tokens are hashed with four mebibytes, three passes and one lane, to 32 bytes.
pub proof fn law_cost_of_a_token()
    ensures
        token_cost().memory_kib == 4 * 1024,
        token_cost().passes == 3,
        token_cost().lanes == 1,
        token_cost().output_len == 32,
{
}

/// A secret is tested against a hash that can be read, at the cost of tokens; a hash that
/// cannot be read is a fault, and never a match.
pub proof fn law_only_readable_hashes_are_tested(phc: Seq<char>, secret: Seq<char>)
    ensures
        phc_fault(phc) is Some ==> (secret_matches(phc, secret) matches Err(e) && e is Hash),
        phc_fault(phc) is None && lanes_fit(phc) ==> secret_matches(phc, secret) == argon2id_check(
            phc,
            vstd::utf8::encode_utf8(secret),
            token_cost(),
        ),
{
}

/// The message of an error ends in what the hash function said.
pub proof fn law_messages_end_in_the_cause(m: Seq<char>)
    ensures
        crate::text::ends_in(hash_error_message(HashErrorView::Hash(m)), m),
        crate::text::ends_in(hash_error_message(HashErrorView::Verify(m)), m),
        crate::text::ends_in(hash_error_message(HashErrorView::Params(m)), m),
{
    broadcast use crate::text::lemma_ends_in;

}

/// A hash that asks for no more lanes than can be counted is left as it is, and what is left
/// of any other asks for none.
pub proof fn law_only_too_many_lanes_are_capped(phc: Seq<char>)
    ensures
        lanes_fit(phc) ==> capped(phc) == phc,
        lanes_fit(capped(phc)),
{
    reveal_strlit("$");
    reveal_strlit(",");
    assert("$"@ =~= seq!['$']);
    assert(","@ =~= seq![',']);
    lemma_capped(phc);
    if lanes_fit(phc) {
        let fields = split_spec(phc, '$');
        let caps = fields.map_values(|field: Seq<char>| capped_field(field));
        assert forall|i: int| 0 <= i < fields.len() implies #[trigger] caps[i] == fields[i] by {
            let field = fields[i];
            assert(field_fits(field));
            let parts = split_spec(field, ',');
            let kept = parts.map_values(|part: Seq<char>| capped_part(part));
            assert forall|k: int| 0 <= k < parts.len() implies #[trigger] kept[k] == parts[k] by {
                assert(!overflows(parts[k]));
            }
            assert(kept =~= parts);
            crate::text::law_joining_undoes_splitting(field, ',');
        }
        assert(caps =~= fields);
        crate::text::law_joining_undoes_splitting(phc, '$');
    }
}

/// A number of lanes is too large from 2^29 on, as far as it is a number of 32 bits.
pub proof fn law_what_is_too_many_lanes(digits: Seq<char>, n: u64)
    requires
        digits.len() > 0,
        '1' <= digits[0] <= '9',
        u64_of(digits) == Some(n),
    ensures
        overflows("p="@ + digits) <==> 536_870_912 <= n < 4_294_967_296,
        capped_part("p="@ + digits) == if 536_870_912 <= n < 4_294_967_296 {
            "p=0"@
        } else {
            "p="@ + digits
        },
{
    reveal_strlit("p=");
    let part = "p="@ + digits;
    assert(part.take(2) =~= "p="@);
    assert(part.skip(2) =~= digits);
    assert(part[2] == digits[0]);
}

/// A secret can be hashed up to four gibibytes, and a longer one is told apart from a missing
/// salt.
pub proof fn law_what_secrets_can_be_hashed(secret: Seq<char>, e: HashErrorView)
    ensures
        hashable(secret) <==> vstd::utf8::encode_utf8(secret).len() < 4_294_967_296,
        secret_too_long(e, secret) ==> !hashable(secret),
        no_salt(e) ==> e is Hash && no_salt_message(hash_error_message(e)),
{
}

} // verus!
