//! Invite codes: the base58 form of a network's public key followed by a
//! secret.
use crate::text::{dec, push_dec};
use vstd::prelude::*;

verus! {

/// How many bytes the public key of a network has.
pub const KEY_LEN: usize = 32;

// ---------------------------------------------------------------------------
// Base58
// ---------------------------------------------------------------------------

/// The base58 digits in the order of their values.
pub open spec fn base58_digits() -> Seq<char> {
    "123456789ABCDEFGHJKLMNPQRSTUVWXYZabcdefghijkmnopqrstuvwxyz"@
}

/// Every character is a base58 digit.
pub open spec fn is_base58(code: Seq<char>) -> bool {
    forall|i: int| 0 <= i < code.len() ==> base58_digits().contains(#[trigger] code[i])
}

/// The number that base58 digits denote, the most significant one first.
pub open spec fn base58_value(code: Seq<char>) -> int
    decreases code.len(),
{
    if code.len() == 0 {
        0
    } else {
        58 * base58_value(code.drop_last()) + base58_digits().index_of(code.last())
    }
}

/// The number that bytes denote, the most significant one first.
pub open spec fn bytes_value(bytes: Seq<u8>) -> int
    decreases bytes.len(),
{
    if bytes.len() == 0 {
        0
    } else {
        256 * bytes_value(bytes.drop_last()) + bytes.last()
    }
}

/// How many times `x` stands at the start of `s`.
pub open spec fn leading<T>(s: Seq<T>, x: T) -> nat
    decreases s.len(),
{
    if s.len() > 0 && s[0] == x {
        1 + leading(s.skip(1), x)
    } else {
        0
    }
}

/// `code` is the base58 form of `bytes`: both denote the same number, and each
/// leading zero byte is a leading digit `1`.
pub open spec fn is_base58_of(code: Seq<char>, bytes: Seq<u8>) -> bool {
    &&& is_base58(code)
    &&& base58_value(code) == bytes_value(bytes)
    &&& leading(code, '1') == leading(bytes, 0u8)
}

/// What `bs58` says of a text that is no base58.
pub uninterp spec fn base58_error(code: Seq<char>) -> Seq<char>;

/// `bs58::decode(..).into_vec()`, with the default alphabet and without a
/// checksum. It succeeds on every text of base58 digits, and only on those, and
/// then returns the bytes that the text is the base58 form of. The text of its
/// error is named and not spelled out.
#[verifier::external_body]
fn base58_decode(code: &str) -> (r: Result<Vec<u8>, String>)
    ensures
        r matches Ok(bytes) ==> is_base58_of(code@, bytes@),
        r matches Err(e) ==> !is_base58(code@) && e@ == base58_error(code@),
{
    bs58::decode(code).into_vec().map_err(|e| e.to_string())
}

// ---------------------------------------------------------------------------
// Network keys
// ---------------------------------------------------------------------------

/// The identity of an endpoint, which is a public key.
#[verifier::external_type_specification]
#[verifier::external_body]
pub struct ExEndpointId(iroh::EndpointId);

/// The endpoint that 32 bytes identify, or what `iroh` says of bytes that are
/// no public key.
pub uninterp spec fn endpoint_id(key: Seq<u8>) -> Result<iroh::EndpointId, Seq<char>>;

/// The model of the outcome of reading a key.
pub open spec fn key_outcome(r: Result<iroh::EndpointId, String>) -> Result<
    iroh::EndpointId,
    Seq<char>,
> {
    match r {
        Ok(id) => Ok(id),
        Err(e) => Err(e@),
    }
}

/// `iroh::EndpointId::from_bytes`: the identity that the bytes are, or an error
/// where they are no point of the curve, which always reads the same. Which
/// bytes are a point, is named and not spelled out.
#[verifier::external_body]
fn endpoint_from_bytes(key: &[u8; 32]) -> (r: Result<iroh::EndpointId, String>)
    ensures
        key_outcome(r) == endpoint_id(key@),
        r matches Err(e) ==> e@ == "data is not a valid public key"@,
{
    iroh::EndpointId::from_bytes(key).map_err(|e| e.to_string())
}

// ---------------------------------------------------------------------------
// Invite codes
// ---------------------------------------------------------------------------

/// The key and the secret in a payload, or why it has none.
pub open spec fn payload_parts(bytes: Seq<u8>) -> Result<(Seq<u8>, Seq<u8>), Seq<char>> {
    if bytes.len() <= KEY_LEN {
        Err("invalid invite code: expected more than 32 bytes, got "@ + dec(bytes.len()))
    } else {
        Ok((bytes.take(KEY_LEN as int), bytes.skip(KEY_LEN as int)))
    }
}

/// What an invite with this endpoint and secret comes to.
pub open spec fn with_endpoint(
    endpoint: Result<iroh::EndpointId, Seq<char>>,
    secret: Seq<u8>,
) -> Result<(iroh::EndpointId, Seq<u8>), Seq<char>> {
    match endpoint {
        Ok(id) => Ok((id, secret)),
        Err(e) => Err("invalid network key in invite: "@ + e),
    }
}

/// What an invite with this payload comes to.
pub open spec fn invite_of_payload(bytes: Seq<u8>) -> Result<
    (iroh::EndpointId, Seq<u8>),
    Seq<char>,
> {
    match payload_parts(bytes) {
        Ok((key, secret)) => with_endpoint(endpoint_id(key), secret),
        Err(e) => Err(e),
    }
}

/// The bytes that a base58 text stands for.
pub open spec fn base58_payload(code: Seq<char>) -> Seq<u8> {
    choose|bytes: Seq<u8>| #[trigger] is_base58_of(code, bytes)
}

/// What an invite code comes to.
pub open spec fn invite_of(code: Seq<char>) -> Result<(iroh::EndpointId, Seq<u8>), Seq<char>> {
    if is_base58(code) {
        invite_of_payload(base58_payload(code))
    } else {
        Err("invalid invite code: "@ + base58_error(code))
    }
}

/// The model of the outcome of decoding an invite.
pub open spec fn outcome(r: Result<(iroh::EndpointId, Vec<u8>), String>) -> Result<
    (iroh::EndpointId, Seq<u8>),
    Seq<char>,
> {
    match r {
        Ok((id, secret)) => Ok((id, secret@)),
        Err(e) => Err(e@),
    }
}

/// Takes a payload apart into the key and the secret.
pub fn split_payload(bytes: &Vec<u8>) -> (r: Result<([u8; 32], Vec<u8>), String>)
    ensures
        match r {
            Ok((key, secret)) => payload_parts(bytes@) == Ok::<
                (Seq<u8>, Seq<u8>),
                Seq<char>,
            >((key@, secret@)),
            Err(e) => payload_parts(bytes@) == Err::<(Seq<u8>, Seq<u8>), Seq<char>>(e@),
        },
{
    if bytes.len() <= KEY_LEN {
        let mut e: String = "invalid invite code: expected more than 32 bytes, got ".to_owned();
        push_dec(&mut e, bytes.len() as u64);
        return Err(e);
    }
    let mut key: [u8; 32] = [0;32];
    for i in 0..KEY_LEN
        invariant
            bytes.len() > KEY_LEN,
            forall|j: int| 0 <= j < i ==> key@[j] == bytes@[j],
    {
        key[i] = bytes[i];
    }
    let mut secret: Vec<u8> = Vec::new();
    for i in KEY_LEN..bytes.len()
        invariant
            bytes.len() > KEY_LEN,
            secret@ == bytes@.subrange(KEY_LEN as int, i as int),
    {
        secret.push(bytes[i]);
    }
    assert(key@ == bytes@.take(KEY_LEN as int));
    assert(secret@ == bytes@.skip(KEY_LEN as int));
    Ok((key, secret))
}

/// Puts the endpoint of an invite, or the reason why it has none, together
/// with the secret.
pub fn join_endpoint(endpoint: Result<iroh::EndpointId, String>, secret: Vec<u8>) -> (r: Result<
    (iroh::EndpointId, Vec<u8>),
    String,
>)
    ensures
        outcome(r) == with_endpoint(key_outcome(endpoint), secret@),
{
    match endpoint {
        Ok(id) => Ok((id, secret)),
        Err(e) => {
            let mut text: String = "invalid network key in invite: ".to_owned();
            text.append(e.as_str());
            Err(text)
        },
    }
}

/// Decodes an invite code into the public key of the network and the secret.
pub fn decode_invite_code(code: &str) -> (r: Result<(iroh::EndpointId, Vec<u8>), String>)
    ensures
        outcome(r) == invite_of(code@),
        is_base58(code@) ==> is_base58_of(code@, base58_payload(code@)),
{
    let bytes: Vec<u8> = match base58_decode(code) {
        Ok(bytes) => bytes,
        Err(e) => {
            let mut text: String = "invalid invite code: ".to_owned();
            text.append(e.as_str());
            return Err(text);
        },
    };
    proof {
        law_base58_is_unambiguous(code@, bytes@, base58_payload(code@));
    }
    match split_payload(&bytes) {
        Ok((key, secret)) => join_endpoint(endpoint_from_bytes(&key), secret),
        Err(e) => Err(e),
    }
}

proof fn lemma_value_not_negative(s: Seq<u8>)
    ensures
        bytes_value(s) >= 0,
        s.len() > 0 && s[0] != 0 ==> bytes_value(s) > 0,
    decreases s.len(),
{
    if s.len() > 0 {
        lemma_value_not_negative(s.drop_last());
    }
}

proof fn lemma_value_of_zero_first(s: Seq<u8>)
    requires
        s.len() > 0,
        s[0] == 0,
    ensures
        bytes_value(s) == bytes_value(s.skip(1)),
    decreases s.len(),
{
    if s.len() > 1 {
        lemma_value_of_zero_first(s.drop_last());
        assert(s.drop_last().skip(1) == s.skip(1).drop_last());
    } else {
        assert(s.drop_last() == Seq::<u8>::empty());
        assert(s.skip(1) == Seq::<u8>::empty());
        reveal_with_fuel(bytes_value, 2);
    }
}

proof fn lemma_value_unique(a: Seq<u8>, b: Seq<u8>)
    requires
        a.len() > 0 ==> a[0] != 0,
        b.len() > 0 ==> b[0] != 0,
        bytes_value(a) == bytes_value(b),
    ensures
        a == b,
    decreases a.len(),
{
    lemma_value_not_negative(a);
    lemma_value_not_negative(b);
    if a.len() == 0 || b.len() == 0 {
        assert(a == b);
    } else {
        lemma_value_unique(a.drop_last(), b.drop_last());
        assert(a == a.drop_last().push(a.last()));
        assert(b == b.drop_last().push(b.last()));
    }
}

proof fn lemma_bytes_unique(a: Seq<u8>, b: Seq<u8>)
    requires
        bytes_value(a) == bytes_value(b),
        leading(a, 0u8) == leading(b, 0u8),
    ensures
        a == b,
    decreases a.len(),
{
    if a.len() > 0 && a[0] == 0 {
        lemma_value_of_zero_first(a);
        lemma_value_of_zero_first(b);
        lemma_bytes_unique(a.skip(1), b.skip(1));
        assert(a == seq![a[0]] + a.skip(1));
        assert(b == seq![b[0]] + b.skip(1));
    } else {
        lemma_value_unique(a, b);
    }
}

/// A base58 text stands for one sequence of bytes only.
pub proof fn law_base58_is_unambiguous(code: Seq<char>, a: Seq<u8>, b: Seq<u8>)
    requires
        is_base58_of(code, a),
        is_base58_of(code, b),
    ensures
        a == b,
{
    lemma_bytes_unique(a, b);
}

/// The bytes of a number, the most significant one first and no zero in front.
spec fn bytes_of(n: nat) -> Seq<u8>
    decreases n,
{
    if n == 0 {
        Seq::empty()
    } else {
        bytes_of(n / 256).push((n % 256) as u8)
    }
}

proof fn lemma_bytes_of(n: nat)
    ensures
        bytes_value(bytes_of(n)) == n,
        n > 0 ==> bytes_of(n).len() > 0 && bytes_of(n)[0] != 0,
    decreases n,
{
    if n > 0 {
        lemma_bytes_of(n / 256);
        let s = bytes_of(n);
        assert(s.drop_last() == bytes_of(n / 256));
    }
}

proof fn lemma_zeros_in_front(k: nat, s: Seq<u8>)
    requires
        s.len() > 0 ==> s[0] != 0,
    ensures
        bytes_value(Seq::new(k, |i: int| 0u8) + s) == bytes_value(s),
        leading(Seq::new(k, |i: int| 0u8) + s, 0u8) == k,
    decreases k,
{
    let all = Seq::new(k, |i: int| 0u8) + s;
    if k == 0 {
        assert(all == s);
    } else {
        lemma_zeros_in_front((k - 1) as nat, s);
        assert(all.skip(1) == Seq::new((k - 1) as nat, |i: int| 0u8) + s);
        lemma_value_of_zero_first(all);
    }
}

proof fn lemma_base58_value_not_negative(code: Seq<char>)
    requires
        is_base58(code),
    ensures
        base58_value(code) >= 0,
    decreases code.len(),
{
    if code.len() > 0 {
        let front = code.drop_last();
        assert forall|i: int| 0 <= i < front.len() implies base58_digits().contains(
            #[trigger] front[i],
        ) by {
            assert(base58_digits().contains(code[i]));
        }
        lemma_base58_value_not_negative(front);
        let k = code.len() - 1;
        assert(base58_digits().contains(code[k]));
    }
}

/// Every base58 text stands for a sequence of bytes.
pub proof fn law_base58_has_payload(code: Seq<char>)
    requires
        is_base58(code),
    ensures
        is_base58_of(code, base58_payload(code)),
{
    lemma_base58_value_not_negative(code);
    let v = base58_value(code) as nat;
    let k = leading(code, '1');
    let bytes = Seq::new(k, |i: int| 0u8) + bytes_of(v);
    lemma_bytes_of(v);
    lemma_zeros_in_front(k, bytes_of(v));
    assert(is_base58_of(code, bytes));
}

/// An invite code gives back what it was made of: the code of a network's
/// public key followed by a secret decodes to that network and that secret.
pub proof fn law_invite_gives_back(
    code: Seq<char>,
    key: Seq<u8>,
    secret: Seq<u8>,
    id: iroh::EndpointId,
)
    requires
        is_base58_of(code, key + secret),
        key.len() == KEY_LEN,
        secret.len() > 0,
        endpoint_id(key) == Ok::<iroh::EndpointId, Seq<char>>(id),
    ensures
        invite_of(code) == Ok::<(iroh::EndpointId, Seq<u8>), Seq<char>>((id, secret)),
{
    law_base58_is_unambiguous(code, key + secret, base58_payload(code));
    assert((key + secret).take(KEY_LEN as int) == key);
    assert((key + secret).skip(KEY_LEN as int) == secret);
}

/// An invite without a secret is refused, whatever its bytes are.
pub proof fn law_invite_needs_secret(code: Seq<char>, bytes: Seq<u8>)
    requires
        is_base58_of(code, bytes),
        bytes.len() <= KEY_LEN,
    ensures
        invite_of(code) == Err::<(iroh::EndpointId, Seq<u8>), Seq<char>>(
            "invalid invite code: expected more than 32 bytes, got "@ + dec(bytes.len()),
        ),
{
    law_base58_is_unambiguous(code, bytes, base58_payload(code));
}

/// A text that is no base58 is refused, with what is wrong with it.
pub proof fn law_invite_needs_base58(code: Seq<char>)
    requires
        !is_base58(code),
    ensures
        invite_of(code) == Err::<(iroh::EndpointId, Seq<u8>), Seq<char>>(
            "invalid invite code: "@ + base58_error(code),
        ),
{
}

/// An invite whose first bytes are no key of a network is refused, with what is
/// wrong with them.
pub proof fn law_invite_needs_network(
    code: Seq<char>,
    key: Seq<u8>,
    secret: Seq<u8>,
    e: Seq<char>,
)
    requires
        is_base58_of(code, key + secret),
        key.len() == 32,
        secret.len() > 0,
        endpoint_id(key) == Err::<iroh::EndpointId, Seq<char>>(e),
    ensures
        invite_of(code) == Err::<(iroh::EndpointId, Seq<u8>), Seq<char>>(
            "invalid network key in invite: "@ + e,
        ),
{
    law_base58_is_unambiguous(code, key + secret, base58_payload(code));
    assert((key + secret).take(KEY_LEN as int) == key);
    assert((key + secret).skip(KEY_LEN as int) == secret);
}

/// A payload is its first 32 bytes followed by the secret, which is not empty.
pub proof fn law_payload_parts(bytes: Seq<u8>)
    ensures
        payload_parts(bytes) is Ok <==> bytes.len() > 32,
        payload_parts(bytes) matches Ok((key, secret)) ==> key.len() == 32 && key + secret == bytes,
        payload_parts(bytes) matches Err(e) ==> e
            == "invalid invite code: expected more than 32 bytes, got "@ + dec(bytes.len()),
{
    if bytes.len() > 32 {
        assert(bytes.take(32) + bytes.skip(32) =~= bytes);
    }
}

/// The models of outcomes hold what the outcomes hold.
pub proof fn law_invite_models(id: iroh::EndpointId, secret: Vec<u8>, e: String)
    ensures
        outcome(Ok((id, secret))) == Ok::<(iroh::EndpointId, Seq<u8>), Seq<char>>((id, secret@)),
        outcome(Err(e)) == Err::<(iroh::EndpointId, Seq<u8>), Seq<char>>(e@),
        key_outcome(Ok(id)) == Ok::<iroh::EndpointId, Seq<char>>(id),
        key_outcome(Err(e)) == Err::<iroh::EndpointId, Seq<char>>(e@),
        with_endpoint(Ok(id), secret@) == Ok::<(iroh::EndpointId, Seq<u8>), Seq<char>>(
            (id, secret@),
        ),
        with_endpoint(Err(e@), secret@) == Err::<(iroh::EndpointId, Seq<u8>), Seq<char>>(
            "invalid network key in invite: "@ + e@,
        ),
{
}

} // verus!
