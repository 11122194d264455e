use testgen::action::{Account, ActionKind, Address, Secret};
use testgen::directories::{node_program, Directories, NodeArgument};
use testgen::hex::prefixed_hex;
use testgen::rpc::{quote_address, request, Client, PORT};
use std::path::PathBuf;

fn address() -> Address {
    let mut bytes = [0u8; 20];
    for i in 0..20 {
        bytes[i] = (i as u8) * 13 + 1;
    }
    Address { bytes }
}

const ADDRESS_HEX: &str = "0x010e1b2835424f5c697683909daab7c4d1deebf8";

#[test]
fn bytes_are_written_as_two_lowercase_digits_each() {
    assert_eq!(prefixed_hex(&[0u8; 0]), "0x");
    assert_eq!(prefixed_hex(&[0x00u8, 0x0f, 0xf0, 0xff, 0x9a]), "0x000ff0ff9a");
    assert_eq!(address().to_hex(), ADDRESS_HEX);
    assert_eq!(
        Secret { bytes: [0xab; 32] }.to_hex(),
        format!("0x{}", "ab".repeat(32))
    );
}

#[test]
fn kinds_have_their_names() {
    let account = Account::new(address(), Secret { bytes: [1; 32] }, "pass".to_string());
    assert_eq!(ActionKind::CreateAccount(account).name(), "CreateAccount");
    assert_eq!(ActionKind::SetAuthor(address()).name(), "SetAuthor");
    assert_eq!(ActionKind::RetireAccount(address()).name(), "RetireAccount");
    assert_eq!(ActionKind::BlockMined(vec![1, 2]).name(), "BlockMined");
}

#[test]
fn request_is_a_json_rpc_object() {
    assert_eq!(
        request("m", "1,2", 0),
        "{\"jsonrpc\":\"2.0\",\"method\":\"m\",\"params\":[1,2],\"id\":0}"
    );
    assert_eq!(
        request("eth_x", "", 1234567890),
        "{\"jsonrpc\":\"2.0\",\"method\":\"eth_x\",\"params\":[],\"id\":1234567890}"
    );
    assert_eq!(quote_address(&address()), format!("\"{}\"", ADDRESS_HEX));
}

#[test]
fn client_numbers_its_requests_upwards() {
    let mut client = Client::new();
    assert_eq!(PORT, 8545);
    assert_eq!(client.server_url(), "http://localhost:8545");
    assert_eq!(client.request_id(), 1);
    let balance = client.balance(address());
    assert_eq!(
        balance,
        format!(
            "{{\"jsonrpc\":\"2.0\",\"method\":\"eth_getBalance\",\"params\":[\"{}\",\"latest\"],\"id\":1}}",
            ADDRESS_HEX
        )
    );
    assert_eq!(client.request_id(), 2);
    let author = client.set_author(address());
    assert_eq!(
        author,
        format!(
            "{{\"jsonrpc\":\"2.0\",\"method\":\"ethcore_setAuthor\",\"params\":[\"{}\"],\"id\":3}}",
            ADDRESS_HEX
        )
    );
    assert_eq!(client.request_id(), 4);
    assert_eq!(client.server_url(), "http://localhost:8545");
}

#[test]
fn node_is_started_with_its_directories() {
    assert_eq!(node_program(None), "parity");
    assert_eq!(node_program(Some("/opt/node".to_string())), "/opt/node");
    let dirs = Directories::with_root(PathBuf::from("/r"));
    let arguments = dirs.node_arguments();
    let mut shown: Vec<String> = Vec::new();
    for argument in arguments {
        match argument {
            NodeArgument::Text(text) => shown.push(text),
            NodeArgument::Path(path) => shown.push(path.to_str().unwrap().to_string()),
        }
    }
    assert_eq!(
        shown,
        vec![
            "--keys-path",
            "/r/keys",
            "--jsonrpc-apis",
            "eth,ethcore,personal",
            "--db-path",
            "/r/db",
            "--chain",
            "/r/chain.json"
        ]
    );
}
