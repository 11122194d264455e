//! The requests that a run sends to the node: JSON-RPC 2.0 texts, numbered
//! in the order in which they are made. Sending them is the caller's part.
use crate::action::Address;
use crate::hex::hex_of;
use vstd::prelude::*;

verus! {

/// The port of the node's endpoint on the local machine.
pub const PORT: u16 = 8545;

/// The decimal digit for a value below ten.
pub open spec fn decimal_digit(d: nat) -> char {
    ((48 + d) as u8) as char
}

/// A number in decimal: its digits, the most significant first, without
/// leading zeros; `0` for zero.
pub open spec fn decimal_of(n: nat) -> Seq<char>
    decreases n,
{
    if n < 10 {
        seq![decimal_digit(n)]
    } else {
        decimal_of(n / 10).push(decimal_digit(n % 10))
    }
}

/// A number as decimal text: `ToString::to_string` of std on a `usize`,
/// which writes the number's decimal digits and nothing else.
#[verifier::external_body]
fn decimal(n: usize) -> (text: String)
    ensures
        text@ == decimal_of(n as nat),
{
    n.to_string()
}

/// The text of a request: a JSON object with the protocol version, the
/// method, its parameters and the request's number.
pub open spec fn request_text(method: Seq<char>, params: Seq<char>, id: nat) -> Seq<char> {
    "{\"jsonrpc\":\"2.0\",\"method\":\""@ + method + "\",\"params\":["@ + params + "],\"id\":"@
        + decimal_of(id) + "}"@
}

/// An address as a JSON string: in quotes, `0x` and its hexadecimal digits.
pub open spec fn quoted_address(address: Address) -> Seq<char> {
    "\"0x"@ + hex_of(address.bytes@) + "\""@
}

/// The text of a request.
pub fn request(method: &str, params: &str, id: usize) -> (text: String)
    ensures
        text@ == request_text(method@, params@, id as nat),
{
    let number = decimal(id);
    let mut text = String::from_str("{\"jsonrpc\":\"2.0\",\"method\":\"");
    text.append(method);
    text.append("\",\"params\":[");
    text.append(params);
    text.append("],\"id\":");
    text.append(number.as_str());
    text.append("}");
    text
}

/// An address as a JSON string.
pub fn quote_address(address: &Address) -> (text: String)
    ensures
        text@ == quoted_address(*address),
{
    let hex = crate::hex::to_hex(&address.bytes);
    let mut text = String::from_str("\"0x");
    text.append(hex.as_str());
    text.append("\"");
    text
}

/// The node's endpoint and the number of the next request.
pub struct Client {
    server_url: String,
    req_id: usize,
}

impl Client {
    /// The address of the endpoint.
    pub closed spec fn url(&self) -> Seq<char> {
        self.server_url@
    }

    /// The number that the next request gets at the earliest.
    pub closed spec fn next_id(&self) -> nat {
        self.req_id as nat
    }

    /// A client of the node on the local machine, before its first request.
    pub fn new() -> (client: Client)
        ensures
            client.url() == "http://localhost:"@ + decimal_of(PORT as nat),
            client.next_id() == 1,
    {
        let port = decimal(PORT as usize);
        let mut server_url = String::from_str("http://localhost:");
        server_url.append(port.as_str());
        Client { server_url, req_id: 1 }
    }

    /// The address of the endpoint.
    pub fn server_url(&self) -> (url: &String)
        ensures
            url@ == self.url(),
    {
        &self.server_url
    }

    /// The number that the next request gets at the earliest.
    pub fn request_id(&self) -> (id: usize)
        ensures
            id == self.next_id(),
    {
        self.req_id
    }

    /// The request for the balance of an account at the latest block. It
    /// has the next number, and the numbers move on by one.
    pub fn balance(&mut self, address: Address) -> (text: String)
        requires
            old(self).next_id() < usize::MAX,
        ensures
            text@ == request_text(
                "eth_getBalance"@,
                quoted_address(address) + ",\"latest\""@,
                old(self).next_id(),
            ),
            final(self).next_id() == old(self).next_id() + 1,
            final(self).url() == old(self).url(),
    {
        let mut params = quote_address(&address);
        params.append(",\"latest\"");
        let text = request("eth_getBalance", params.as_str(), self.req_id);
        self.req_id = self.req_id + 1;
        text
    }

    /// The request to author blocks as the given address. It skips one
    /// number, and the numbers then move on by one.
    pub fn set_author(&mut self, address: Address) -> (text: String)
        requires
            old(self).next_id() + 1 < usize::MAX,
        ensures
            text@ == request_text(
                "ethcore_setAuthor"@,
                quoted_address(address),
                old(self).next_id() + 1,
            ),
            final(self).next_id() == old(self).next_id() + 2,
            final(self).url() == old(self).url(),
    {
        self.req_id = self.req_id + 1;
        let params = quote_address(&address);
        let text = request("ethcore_setAuthor", params.as_str(), self.req_id);
        self.req_id = self.req_id + 1;
        text
    }
}

} // verus!
