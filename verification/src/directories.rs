//! The directories of a run: a root, and the places below it where the key
//! store, the database and the chain description live.
use crate::random::{is_lowercase_letter, random_ascii_lowercase};
use std::path::PathBuf;
use vstd::prelude::*;

verus! {

/// An owned file-system path of std. Nothing is known of its inside but
/// what `path_bytes` names.
#[verifier::external_type_specification]
#[verifier::external_body]
pub struct ExPathBuf(PathBuf);

/// The bytes that a path holds.
pub uninterp spec fn path_bytes(path: PathBuf) -> Seq<u8>;

/// The bytes of the path that `PathBuf::push` makes of a path with the
/// given bytes and a component: for a relative component, the path
/// extended by it.
pub uninterp spec fn joined_bytes(base: Seq<u8>, component: Seq<char>) -> Seq<u8>;

/// The length of the name of a random root directory.
pub const PATH_LEN: usize = 12;

/// A copy of a path: `Clone::clone` of `PathBuf`. The copy equals the path.
#[verifier::external_body]
fn clone_path(path: &PathBuf) -> (copy: PathBuf)
    ensures
        copy == *path,
        path_bytes(copy) == path_bytes(*path),
{
    path.clone()
}

/// Extends a path by a component: `PathBuf::push` of std. The path holds
/// afterwards what `joined_bytes` names for its bytes before and the
/// component.
#[verifier::external_body]
fn push_component(path: &mut PathBuf, component: &str)
    ensures
        path_bytes(*final(path)) == joined_bytes(path_bytes(*old(path)), component@),
{
    path.push(component)
}

/// One argument of the command that starts the node: a flag or a value
/// given as text, or a path.
pub enum NodeArgument {
    Text(String),
    Path(PathBuf),
}

impl NodeArgument {
    /// The argument is the given text.
    pub open spec fn is_text(&self, text: Seq<char>) -> bool {
        self matches NodeArgument::Text(t) && t@ == text
    }

    /// The argument is a path with the given bytes.
    pub open spec fn is_path(&self, bytes: Seq<u8>) -> bool {
        self matches NodeArgument::Path(p) && path_bytes(*p) == bytes
    }
}

/// The program that runs the node: the one chosen, or `parity`.
pub fn node_program(chosen: Option<String>) -> (program: String)
    ensures
        program@ == match chosen {
            Some(name) => name@,
            None => "parity"@,
        },
{
    match chosen {
        Some(name) => name,
        None => String::from_str("parity"),
    }
}

/// Keeps track of the directories of a run.
pub struct Directories {
    root: PathBuf,
}

impl Directories {
    /// The root directory.
    pub closed spec fn root_path(&self) -> PathBuf {
        self.root
    }

    /// The path made of the root and one component below it.
    pub open spec fn below_root(&self, component: Seq<char>) -> Seq<u8> {
        joined_bytes(path_bytes(self.root_path()), component)
    }

    /// With a new, temporary, random root: a directory below the given
    /// temporary directory whose name has `PATH_LEN` random lowercase
    /// letters.
    pub fn temp_random(temp_dir: PathBuf) -> (dirs: Directories)
        ensures
            exists|name: Seq<char>|
                {
                    &&& name.len() == PATH_LEN
                    &&& forall|i: int| 0 <= i < name.len() ==> is_lowercase_letter(#[trigger] name[i])
                    &&& path_bytes(dirs.root_path()) == #[trigger] joined_bytes(
                        path_bytes(temp_dir),
                        name,
                    )
                },
    {
        let mut root = temp_dir;
        let random_dir: String = random_ascii_lowercase(PATH_LEN);
        push_component(&mut root, random_dir.as_str());
        Directories::with_root(root)
    }

    /// With a given root.
    pub fn with_root(root: PathBuf) -> (dirs: Directories)
        ensures
            dirs.root_path() == root,
    {
        Directories { root }
    }

    /// Get the root directory.
    pub fn root(&self) -> (root: PathBuf)
        ensures
            root == self.root_path(),
    {
        clone_path(&self.root)
    }

    /// Get the keystore directory: `keys` below the root.
    pub fn keys(&self) -> (keys: PathBuf)
        ensures
            path_bytes(keys) == self.below_root("keys"@),
    {
        let mut keys = clone_path(&self.root);
        push_component(&mut keys, "keys");
        keys
    }

    /// Get the database directory: `db` below the root.
    pub fn db(&self) -> (db: PathBuf)
        ensures
            path_bytes(db) == self.below_root("db"@),
    {
        let mut db = clone_path(&self.root);
        push_component(&mut db, "db");
        db
    }

    /// The arguments with which the node is started: where its keys, its
    /// database and its chain description are, and the interfaces it is to
    /// offer.
    pub fn node_arguments(&self) -> (arguments: Vec<NodeArgument>)
        ensures
            arguments@.len() == 8,
            arguments@[0].is_text("--keys-path"@),
            arguments@[1].is_path(self.below_root("keys"@)),
            arguments@[2].is_text("--jsonrpc-apis"@),
            arguments@[3].is_text("eth,ethcore,personal"@),
            arguments@[4].is_text("--db-path"@),
            arguments@[5].is_path(self.below_root("db"@)),
            arguments@[6].is_text("--chain"@),
            arguments@[7].is_path(self.below_root("chain.json"@)),
    {
        let mut arguments: Vec<NodeArgument> = Vec::new();
        arguments.push(NodeArgument::Text(String::from_str("--keys-path")));
        arguments.push(NodeArgument::Path(self.keys()));
        arguments.push(NodeArgument::Text(String::from_str("--jsonrpc-apis")));
        arguments.push(NodeArgument::Text(String::from_str("eth,ethcore,personal")));
        arguments.push(NodeArgument::Text(String::from_str("--db-path")));
        arguments.push(NodeArgument::Path(self.db()));
        arguments.push(NodeArgument::Text(String::from_str("--chain")));
        arguments.push(NodeArgument::Path(self.chain_file()));
        arguments
    }

    /// Get the chain description file: `chain.json` below the root.
    pub fn chain_file(&self) -> (chain: PathBuf)
        ensures
            path_bytes(chain) == self.below_root("chain.json"@),
    {
        let mut chain = clone_path(&self.root);
        push_component(&mut chain, "chain.json");
        chain
    }
}

} // verus!
