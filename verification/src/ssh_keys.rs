//! The key pair of the application: where it lies, how the key generator is
//! asked for it, and how the public key is read.
//!
//! The private key never leaves the disk. Nothing here reads a file or
//! starts a process: the caller does, and hands over what it found.

use vstd::prelude::*;
use crate::config::{agentsync_dir, agentsync_dir_names, home_missing_message, LocalPath};
use crate::rclone::{ProcessOutcome, ProcessOutcomeView};
use crate::text::{concat2, concat3, text_result, texts, trim, trimmed};

verus! {

/// A key pair that is there: the place of the private key, and the public key.
#[derive(Debug)]
pub struct EnsureSshKeypairResult {
    pub private_key_path: String,
    pub public_key: String,
}

/// What an [`EnsureSshKeypairResult`] holds.
pub struct EnsureSshKeypairResultView {
    pub private_key_path: Seq<char>,
    pub public_key: Seq<char>,
}

impl View for EnsureSshKeypairResult {
    type V = EnsureSshKeypairResultView;

    open spec fn view(&self) -> EnsureSshKeypairResultView {
        EnsureSshKeypairResultView {
            private_key_path: self.private_key_path@,
            public_key: self.public_key@,
        }
    }
}

/// The names that lead from the home directory to the directory of the key
/// pair.
pub open spec fn keys_dir_names() -> Seq<Seq<char>> {
    agentsync_dir_names().push("keys"@)
}

/// The directory that holds the key pair: `keys` in the directory of the
/// application.
pub fn keys_dir() -> (r: Result<LocalPath, String>)
    ensures
        r is Err ==> r->Err_0@ == home_missing_message(),
        r is Ok ==> r->Ok_0@.names == keys_dir_names(),
{
    match agentsync_dir() {
        Ok(dir) => Ok(dir.child("keys")),
        Err(e) => Err(e),
    }
}

/// The place of the private key: the file `agentsync_ed25519` in the
/// directory of the key pair.
pub fn default_private_key_path() -> (r: Result<LocalPath, String>)
    ensures
        r is Err ==> r->Err_0@ == home_missing_message(),
        r is Ok ==> r->Ok_0@.names == keys_dir_names().push("agentsync_ed25519"@),
{
    match keys_dir() {
        Ok(dir) => Ok(dir.child("agentsync_ed25519")),
        Err(e) => Err(e),
    }
}

/// The place of the public key that belongs to the private key at `private`.
pub open spec fn public_key_path(private: Seq<char>) -> Seq<char> {
    private + ".pub"@
}

/// The place of the public key that belongs to the private key at
/// `private_key_path`.
pub fn public_key_path_for_private(private_key_path: &str) -> (r: String)
    ensures
        r@ == public_key_path(private_key_path@),
{
    concat2(private_key_path, ".pub")
}

/// The arguments that make the key generator print the public key of the
/// private key at `private`.
pub open spec fn derive_args(private: Seq<char>) -> Seq<Seq<char>> {
    seq!["-y"@, "-f"@, private]
}

/// The arguments that make the key generator write a new key pair at
/// `private`: an Ed25519 key without a passphrase.
pub open spec fn generate_args(private: Seq<char>) -> Seq<Seq<char>> {
    seq!["-t"@, "ed25519"@, "-C"@, "agentsync"@, "-N"@, ""@, "-f"@, private, "-q"@]
}

/// The arguments that make the key generator print the public key of the
/// private key at `private_key_path`.
pub fn keygen_derive_args(private_key_path: &str) -> (r: Vec<String>)
    ensures
        texts(r@) == derive_args(private_key_path@),
{
    let mut r: Vec<String> = Vec::new();
    r.push("-y".to_string());
    r.push("-f".to_string());
    r.push(private_key_path.to_owned());
    assert(texts(r@) =~= derive_args(private_key_path@));
    r
}

/// The arguments that make the key generator write a new key pair at
/// `private_key_path`.
pub fn keygen_generate_args(private_key_path: &str) -> (r: Vec<String>)
    ensures
        texts(r@) == generate_args(private_key_path@),
{
    let mut r: Vec<String> = Vec::new();
    r.push("-t".to_string());
    r.push("ed25519".to_string());
    r.push("-C".to_string());
    r.push("agentsync".to_string());
    r.push("-N".to_string());
    r.push("".to_string());
    r.push("-f".to_string());
    r.push(private_key_path.to_owned());
    r.push("-q".to_string());
    assert(texts(r@) =~= generate_args(private_key_path@));
    r
}

/// Whether a key pair has to be generated: it has, unless both of its files
/// are there.
pub fn needs_generation(private_is_file: bool, public_is_file: bool) -> (r: bool)
    ensures
        r == !(private_is_file && public_is_file),
{
    !private_is_file || !public_is_file
}

/// The message of a key generator that could not be started.
pub open spec fn keygen_spawn_message(cause: Seq<char>) -> Seq<char> {
    "执行 ssh-keygen 失败（"@ + cause + "）。请确认已安装 OpenSSH 客户端。"@
}

/// The message of a key generator that could not be started.
fn keygen_spawn_text(cause: &str) -> (r: String)
    ensures
        r@ == keygen_spawn_message(cause@),
{
    concat3("执行 ssh-keygen 失败（", cause, "）。请确认已安装 OpenSSH 客户端。")
}

/// What the attempt to generate a key pair came to: nothing to report if
/// the generator succeeded, else why it did not.
pub open spec fn generated(outcome: ProcessOutcomeView) -> Result<(), Seq<char>> {
    match outcome {
        ProcessOutcomeView::SpawnFailed { cause } => Err(keygen_spawn_message(cause)),
        ProcessOutcomeView::Exited { success, code, stdout, stderr } => if success {
            Ok(())
        } else {
            Err("生成密钥失败（ssh-keygen）："@ + trim(stderr))
        },
    }
}

/// What a result without a value holds.
pub open spec fn unit_result(r: Result<(), String>) -> Result<(), Seq<char>> {
    match r {
        Ok(_) => Ok(()),
        Err(e) => Err(e@),
    }
}

/// Judges the attempt to generate a key pair.
pub fn generation_result(outcome: &ProcessOutcome) -> (r: Result<(), String>)
    ensures
        unit_result(r) == generated(outcome@),
{
    match outcome {
        ProcessOutcome::SpawnFailed { cause } => Err(keygen_spawn_text(cause.as_str())),
        ProcessOutcome::Exited { success, code, stdout, stderr } => {
            if *success {
                Ok(())
            } else {
                let why = trimmed(stderr.as_str());
                Err(concat2("生成密钥失败（ssh-keygen）：", why.as_str()))
            }
        },
    }
}

/// Where the public key is read from.
#[derive(Debug)]
pub enum KeySource {
    /// The file beside the private key.
    PublicFile { path: String },
    /// The key generator, asked with `args`, where that file is missing.
    Keygen { args: Vec<String> },
}

/// What a [`KeySource`] holds.
pub enum KeySourceView {
    PublicFile { path: Seq<char> },
    Keygen { args: Seq<Seq<char>> },
}

impl View for KeySource {
    type V = KeySourceView;

    open spec fn view(&self) -> KeySourceView {
        match *self {
            KeySource::PublicFile { path } => KeySourceView::PublicFile { path: path@ },
            KeySource::Keygen { args } => KeySourceView::Keygen { args: texts(args@) },
        }
    }
}

/// What the result of choosing a source holds.
pub open spec fn source_result(r: Result<KeySource, String>) -> Result<KeySourceView, Seq<char>> {
    match r {
        Ok(s) => Ok(s@),
        Err(e) => Err(e@),
    }
}

/// Where the public key of the private key at `private` is read from:
/// nowhere without the private key; from the file beside it where that is
/// there; else from the key generator.
pub open spec fn key_source(private: Seq<char>, private_is_file: bool, public_is_file: bool)
    -> Result<KeySourceView, Seq<char>> {
    if !private_is_file {
        Err("私钥文件不存在："@ + private)
    } else if public_is_file {
        Ok(KeySourceView::PublicFile { path: public_key_path(private) })
    } else {
        Ok(KeySourceView::Keygen { args: derive_args(private) })
    }
}

/// Chooses where the public key is read from. `private_is_file` and
/// `public_is_file` say whether the private key and the file beside it are
/// files on disk.
pub fn read_public_key(
    private_key_path: &str,
    private_is_file: bool,
    public_is_file: bool,
) -> (r: Result<KeySource, String>)
    ensures
        source_result(r) == key_source(private_key_path@, private_is_file, public_is_file),
{
    if !private_is_file {
        return Err(concat2("私钥文件不存在：", private_key_path));
    }
    if public_is_file {
        return Ok(KeySource::PublicFile { path: public_key_path_for_private(private_key_path) });
    }
    Ok(KeySource::Keygen { args: keygen_derive_args(private_key_path) })
}

/// The public key in the text of the file at `path`: the text, trimmed,
/// unless nothing is left of it then.
pub open spec fn key_in_file(path: Seq<char>, text: Seq<char>) -> Result<Seq<char>, Seq<char>> {
    if trim(text).len() == 0 {
        Err("公钥文件内容为空："@ + path)
    } else {
        Ok(trim(text))
    }
}

/// Takes the public key out of the text of the file at `pub_path`.
pub fn read_pub_from_file(pub_path: &str, text: &str) -> (r: Result<String, String>)
    ensures
        text_result(r) == key_in_file(pub_path@, text@),
{
    let key = trimmed(text);
    if key.as_str().unicode_len() == 0 {
        return Err(concat2("公钥文件内容为空：", pub_path));
    }
    Ok(key)
}

/// The public key in what the key generator printed: why it failed, if it
/// did; else its output, trimmed, unless nothing is left of it then.
pub open spec fn key_from_keygen(outcome: ProcessOutcomeView) -> Result<Seq<char>, Seq<char>> {
    match outcome {
        ProcessOutcomeView::SpawnFailed { cause } => Err(keygen_spawn_message(cause)),
        ProcessOutcomeView::Exited { success, code, stdout, stderr } => if !success {
            Err("读取公钥失败（ssh-keygen -y）："@ + trim(stderr))
        } else if trim(stdout).len() == 0 {
            Err("读取公钥失败：ssh-keygen 输出为空"@)
        } else {
            Ok(trim(stdout))
        },
    }
}

/// Takes the public key out of what the key generator printed.
pub fn read_pub_by_keygen(outcome: &ProcessOutcome) -> (r: Result<String, String>)
    ensures
        text_result(r) == key_from_keygen(outcome@),
{
    match outcome {
        ProcessOutcome::SpawnFailed { cause } => Err(keygen_spawn_text(cause.as_str())),
        ProcessOutcome::Exited { success, code, stdout, stderr } => {
            if !*success {
                let why = trimmed(stderr.as_str());
                return Err(concat2("读取公钥失败（ssh-keygen -y）：", why.as_str()));
            }
            let key = trimmed(stdout.as_str());
            if key.as_str().unicode_len() == 0 {
                return Err("读取公钥失败：ssh-keygen 输出为空".to_string());
            }
            Ok(key)
        },
    }
}

} // verus!
