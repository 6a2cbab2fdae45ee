use hmac::{Hmac, Mac, NewMac};
use sha2::Sha256;
use vstd::prelude::*;
use vstd::string::StringExecFns;
use vstd::utf8::encode_utf8;

verus! {

/// The HMAC-SHA256 code of `message` under `key`.
pub uninterp spec fn hmac_sha256(key: Seq<u8>, message: Seq<u8>) -> Seq<u8>;

/// Computes the HMAC-SHA256 code of `message` under `key` with the `hmac`
/// and `sha2` crates: `Hmac::<Sha256>::new_from_slice`, which takes a key of
/// any length, then `update` and `finalize`. The code depends on the two
/// byte strings alone; nothing else is claimed of it.
#[verifier::external_body]
fn hmac_sha256_code(key: &[u8], message: &[u8]) -> (code: Vec<u8>)
    ensures
        code@ == hmac_sha256(key@, message@),
{
    let mut signed_key = Hmac::<Sha256>::new_from_slice(key).unwrap();
    signed_key.update(message);
    signed_key.finalize().into_bytes().to_vec()
}

/// The lower-case hexadecimal digit of a value below sixteen.
pub open spec fn hex_digit(v: int) -> char {
    if v == 0 {
        '0'
    } else if v == 1 {
        '1'
    } else if v == 2 {
        '2'
    } else if v == 3 {
        '3'
    } else if v == 4 {
        '4'
    } else if v == 5 {
        '5'
    } else if v == 6 {
        '6'
    } else if v == 7 {
        '7'
    } else if v == 8 {
        '8'
    } else if v == 9 {
        '9'
    } else if v == 10 {
        'a'
    } else if v == 11 {
        'b'
    } else if v == 12 {
        'c'
    } else if v == 13 {
        'd'
    } else if v == 14 {
        'e'
    } else {
        'f'
    }
}

/// Bytes in hexadecimal: two lower-case digits for each byte, the high
/// half first.
pub open spec fn hex_text(bytes: Seq<u8>) -> Seq<char>
    decreases bytes.len(),
{
    if bytes.len() == 0 {
        Seq::empty()
    } else {
        hex_text(bytes.drop_last()) + seq![
            hex_digit(bytes.last() as int / 16),
            hex_digit(bytes.last() as int % 16),
        ]
    }
}

/// Writes bytes in hexadecimal with `hex::encode`, which gives each byte
/// two lower-case digits, the high half first.
#[verifier::external_body]
fn hex_encode(bytes: &Vec<u8>) -> (text: String)
    ensures
        text@ == hex_text(bytes@),
{
    hex::encode(bytes)
}

/// The signature of a request: the code of its text under the secret, in
/// hexadecimal.
pub open spec fn signature_text(api_secret: Seq<char>, request: Seq<char>) -> Seq<char> {
    hex_text(hmac_sha256(encode_utf8(api_secret), encode_utf8(request)))
}

/// The address of a signed request. Without a query the signature is that
/// of the empty text.
pub open spec fn signed_url(
    host: Seq<char>,
    api_secret: Seq<char>,
    endpoint: Seq<char>,
    req: Option<Seq<char>>,
) -> Seq<char> {
    url_text(
        host,
        endpoint,
        req,
        signature_text(
            api_secret,
            match req {
                Some(request) => request,
                None => Seq::empty(),
            },
        ),
    )
}

/// The address of a request that carries `signature`.
pub open spec fn url_text(
    host: Seq<char>,
    endpoint: Seq<char>,
    req: Option<Seq<char>>,
    signature: Seq<char>,
) -> Seq<char> {
    match req {
        Some(request) => host + endpoint + "?"@ + request + "&signature="@ + signature,
        None => host + endpoint + "?"@ + "&signature="@ + signature,
    }
}

/// Puts the address of a signed request together: host, endpoint, a
/// question mark, the query if there is one, and the signature.
pub fn signed_url_with(host: &str, endpoint: &str, req: Option<&str>, signature: &str) -> (url:
    String)
    ensures
        url@ == url_text(
            host@,
            endpoint@,
            match req {
                Some(request) => Some(request@),
                None => None,
            },
            signature@,
        ),
{
    let front: String = String::from_str(host).concat(endpoint).concat("?");
    match req {
        Some(request) => front.concat(request).concat("&signature=").concat(signature),
        None => front.concat("&signature=").concat(signature),
    }
}

/// Signs requests for one host with one secret.
pub struct RequestSigner {
    api_secret: String,
    host: String,
}

impl RequestSigner {
    pub closed spec fn spec_host(&self) -> Seq<char> {
        self.host@
    }

    pub closed spec fn spec_secret(&self) -> Seq<char> {
        self.api_secret@
    }

    pub fn new(api_secret: String, host: String) -> (signer: Self)
        ensures
            signer.spec_host() == host@,
            signer.spec_secret() == api_secret@,
    {
        Self { api_secret, host }
    }

    /// The host that the requests go to.
    pub fn host(&self) -> (host: &str)
        ensures
            host@ == self.spec_host(),
    {
        self.host.as_str()
    }

    /// The signature of `request` under the secret.
    pub fn signature(&self, request: &str) -> (signature: String)
        ensures
            signature@ == signature_text(self.spec_secret(), request@),
    {
        let code: Vec<u8> = hmac_sha256_code(self.api_secret.as_str().as_bytes(), request.as_bytes());
        hex_encode(&code)
    }

    /// The address of the request `req` to `endpoint`, with its signature.
    pub fn sign_request(&self, endpoint: String, req: Option<String>) -> (url: String)
        ensures
            url@ == signed_url(
                self.spec_host(),
                self.spec_secret(),
                endpoint@,
                match req {
                    Some(request) => Some(request@),
                    None => None,
                },
            ),
    {
        match req {
            Some(request) => {
                let signature: String = self.signature(request.as_str());
                signed_url_with(
                    self.host.as_str(),
                    endpoint.as_str(),
                    Some(request.as_str()),
                    signature.as_str(),
                )
            },
            None => {
                proof {
                    reveal_strlit("");
                    assert(""@ =~= Seq::<char>::empty());
                }
                let signature: String = self.signature("");
                signed_url_with(self.host.as_str(), endpoint.as_str(), None, signature.as_str())
            },
        }
    }
}

} // verus!
