use agentsync::rclone::ProcessOutcome;
use agentsync::ssh_keys::{
    default_private_key_path, generation_result, keygen_derive_args, keygen_generate_args,
    keys_dir, needs_generation, public_key_path_for_private, read_pub_by_keygen,
    read_pub_from_file, read_public_key, KeySource,
};

fn exited(success: bool, stdout: &str, stderr: &str) -> ProcessOutcome {
    ProcessOutcome::Exited {
        success,
        code: Some(if success { 0 } else { 1 }),
        stdout: stdout.to_string(),
        stderr: stderr.to_string(),
    }
}

#[test]
fn key_pair_lies_in_the_keys_directory() {
    match keys_dir() {
        Ok(dir) => {
            assert_eq!(dir.names, vec![".agentsync", "keys"]);
            let private = default_private_key_path().unwrap();
            assert_eq!(private.base, dir.base);
            assert_eq!(private.names, vec![".agentsync", "keys", "agentsync_ed25519"]);
        }
        Err(e) => {
            assert_eq!(e, "找不到用户目录（home directory）");
            assert!(default_private_key_path().is_err());
        }
    }
}

#[test]
fn public_key_file_is_named_after_the_private_key() {
    assert_eq!(public_key_path_for_private("/k/agentsync_ed25519"), "/k/agentsync_ed25519.pub");
    assert_eq!(public_key_path_for_private(""), ".pub");
}

#[test]
fn keygen_arguments() {
    assert_eq!(keygen_derive_args("/k/id"), vec!["-y", "-f", "/k/id"]);
    assert_eq!(
        keygen_generate_args("/k/id"),
        vec!["-t", "ed25519", "-C", "agentsync", "-N", "", "-f", "/k/id", "-q"]
    );
}

#[test]
fn generation_is_needed_unless_both_files_are_there() {
    assert!(needs_generation(false, false));
    assert!(needs_generation(true, false));
    assert!(needs_generation(false, true));
    assert!(!needs_generation(true, true));
}

#[test]
fn generation_result_reports_why_the_generator_failed() {
    assert_eq!(generation_result(&exited(true, "", "")), Ok(()));
    assert_eq!(
        generation_result(&exited(false, "", "  bad passphrase \n")),
        Err("生成密钥失败（ssh-keygen）：bad passphrase".to_string())
    );
    assert_eq!(
        generation_result(&ProcessOutcome::SpawnFailed { cause: "not found".to_string() }),
        Err("执行 ssh-keygen 失败（not found）。请确认已安装 OpenSSH 客户端。".to_string())
    );
}

#[test]
fn public_key_needs_the_private_key() {
    assert_eq!(
        read_public_key("/k/id", false, true).err(),
        Some("私钥文件不存在：/k/id".to_string())
    );
}

#[test]
fn public_key_is_read_from_the_file_beside_the_private_key() {
    match read_public_key("/k/id", true, true).unwrap() {
        KeySource::PublicFile { path } => assert_eq!(path, "/k/id.pub"),
        other => panic!("unexpected source {:?}", other),
    }
}

#[test]
fn public_key_is_derived_where_the_file_is_missing() {
    match read_public_key("/k/id", true, false).unwrap() {
        KeySource::Keygen { args } => assert_eq!(args, vec!["-y", "-f", "/k/id"]),
        other => panic!("unexpected source {:?}", other),
    }
}

#[test]
fn public_key_file_is_trimmed_and_must_not_be_blank() {
    assert_eq!(
        read_pub_from_file("/k/id.pub", "ssh-ed25519 AAAA agentsync\n"),
        Ok("ssh-ed25519 AAAA agentsync".to_string())
    );
    assert_eq!(
        read_pub_from_file("/k/id.pub", " \n"),
        Err("公钥文件内容为空：/k/id.pub".to_string())
    );
}

#[test]
fn derived_public_key_is_trimmed_and_must_not_be_blank() {
    assert_eq!(
        read_pub_by_keygen(&exited(true, "ssh-ed25519 BBBB\n", "")),
        Ok("ssh-ed25519 BBBB".to_string())
    );
    assert_eq!(
        read_pub_by_keygen(&exited(true, "\n", "")),
        Err("读取公钥失败：ssh-keygen 输出为空".to_string())
    );
    assert_eq!(
        read_pub_by_keygen(&exited(false, "ignored", " invalid format\n")),
        Err("读取公钥失败（ssh-keygen -y）：invalid format".to_string())
    );
    assert_eq!(
        read_pub_by_keygen(&ProcessOutcome::SpawnFailed { cause: "gone".to_string() }),
        Err("执行 ssh-keygen 失败（gone）。请确认已安装 OpenSSH 客户端。".to_string())
    );
}
