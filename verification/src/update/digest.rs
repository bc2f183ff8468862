//! SHA-256 fingerprints of downloaded and installed files, in lowercase hex.

use vstd::prelude::*;
use sha2::Digest;
use crate::text::{chars_to_string, push_all, str_chars};
use crate::update::download::{CompressedPackageEntry, DataFileEntry};
use crate::update::modules::ModulesFileEntry;

verus! {

/// The SHA-256 digest of a byte sequence.
pub uninterp spec fn sha256_of(data: Seq<u8>) -> Seq<u8>;

/// Calls `sha2::Sha256::digest` on the bytes. The contract equates the
/// result with `sha256_of` and states the digest length of 32 bytes; what
/// the digest is, is left to the name.
#[verifier::external_body]
fn sha256_bytes(data: &[u8]) -> (r: Vec<u8>)
    ensures
        r@ == sha256_of(data@),
        r@.len() == 32,
{
    sha2::Sha256::digest(data).to_vec()
}

/// The lowercase hexadecimal digit of a value below sixteen.
pub open spec fn hex_digit(v: nat) -> char {
    if v < 10 {
        ((v + 48) as u8) as char
    } else {
        ((v + 87) as u8) as char
    }
}

/// Two lowercase hexadecimal digits per byte, high nibble first.
pub open spec fn hex_lower(bytes: Seq<u8>) -> Seq<char>
    decreases bytes.len(),
{
    if bytes.len() == 0 {
        Seq::empty()
    } else {
        let b = bytes.last();
        hex_lower(bytes.drop_last()) + seq![hex_digit((b / 16) as nat), hex_digit((b % 16) as nat)]
    }
}

/// Calls `hex::encode`, which writes each byte as two lowercase
/// hexadecimal digits, high nibble first.
#[verifier::external_body]
fn hex_encode(bytes: &[u8]) -> (r: String)
    ensures
        r@ == hex_lower(bytes@),
{
    hex::encode(bytes)
}

/// The SHA-256 fingerprint of some bytes as lowercase hexadecimal text (the
/// form in which manifests record file hashes).
pub fn sha256_hex(data: &[u8]) -> (r: String)
    ensures
        r@ == hex_lower(sha256_of(data@)),
        r@.len() == 64,
{
    let digest = sha256_bytes(data);
    proof {
        lemma_hex_len(digest@);
    }
    hex_encode(digest.as_slice())
}

proof fn lemma_hex_len(b: Seq<u8>)
    ensures
        hex_lower(b).len() == 2 * b.len(),
    decreases b.len(),
{
    if b.len() > 0 {
        lemma_hex_len(b.drop_last());
    }
}

/// Whether the bytes have the expected fingerprint.
pub fn hash_matches(data: &[u8], expected: &str) -> (r: bool)
    ensures
        r == (hex_lower(sha256_of(data@)) == expected@),
{
    let h = sha256_hex(data);
    let a = str_chars(h.as_str());
    let b = str_chars(expected);
    crate::text::chars_equal(&a, &b)
}

/// `数据文件 <path> 哈希验证失败。`
pub open spec fn data_hash_message(path: Seq<char>) -> Seq<char> {
    seq!['数', '据', '文', '件', ' '] + path + seq![' ', '哈', '希', '验', '证', '失', '败', '。']
}

/// Checks a downloaded data file against its manifest entry.
pub fn verify_data_file(data: &[u8], entry: &DataFileEntry) -> (r: Result<(), String>)
    ensures
        r is Ok <==> hex_lower(sha256_of(data@)) == entry.hash@,
        r matches Err(m) ==> m@ == data_hash_message(entry.path@),
{
    if hash_matches(data, entry.hash.as_str()) {
        Ok(())
    } else {
        let mut m: Vec<char> = Vec::new();
        m.push('数');
        m.push('据');
        m.push('文');
        m.push('件');
        m.push(' ');
        push_all(&mut m, &str_chars(entry.path.as_str()));
        m.push(' ');
        m.push('哈');
        m.push('希');
        m.push('验');
        m.push('证');
        m.push('失');
        m.push('败');
        m.push('。');
        assert(m@ =~= data_hash_message(entry.path@));
        Err(chars_to_string(&m))
    }
}

/// `模块 <name> 哈希校验失败，更新已取消。`
pub open spec fn module_hash_message(name: Seq<char>) -> Seq<char> {
    seq!['模', '块', ' '] + name + seq![' ', '哈', '希', '校', '验', '失', '败', '，', '更', '新', '已', '取', '消', '。']
}

/// Checks a downloaded module library against its manifest entry.
pub fn verify_module_file(data: &[u8], entry: &ModulesFileEntry) -> (r: Result<(), String>)
    ensures
        r is Ok <==> hex_lower(sha256_of(data@)) == entry.hash@,
        r matches Err(m) ==> m@ == module_hash_message(entry.name@),
{
    if hash_matches(data, entry.hash.as_str()) {
        Ok(())
    } else {
        let mut m: Vec<char> = Vec::new();
        m.push('模');
        m.push('块');
        m.push(' ');
        push_all(&mut m, &str_chars(entry.name.as_str()));
        m.push(' ');
        m.push('哈');
        m.push('希');
        m.push('校');
        m.push('验');
        m.push('失');
        m.push('败');
        m.push('，');
        m.push('更');
        m.push('新');
        m.push('已');
        m.push('取');
        m.push('消');
        m.push('。');
        assert(m@ =~= module_hash_message(entry.name@));
        Err(chars_to_string(&m))
    }
}

/// `下载文件哈希验证失败，更新已取消。`
pub open spec fn app_hash_message() -> Seq<char> {
    seq!['下', '载', '文', '件', '哈', '希', '验', '证', '失', '败', '，', '更', '新', '已', '取', '消', '。']
}

/// Checks a downloaded application binary against the expected hash.
pub fn verify_app_binary(data: &[u8], expected_hash: &str) -> (r: Result<(), String>)
    ensures
        r is Ok <==> hex_lower(sha256_of(data@)) == expected_hash@,
        r matches Err(m) ==> m@ == app_hash_message(),
{
    if hash_matches(data, expected_hash) {
        Ok(())
    } else {
        let mut m: Vec<char> = Vec::new();
        m.push('下');
        m.push('载');
        m.push('文');
        m.push('件');
        m.push('哈');
        m.push('希');
        m.push('验');
        m.push('证');
        m.push('失');
        m.push('败');
        m.push('，');
        m.push('更');
        m.push('新');
        m.push('已');
        m.push('取');
        m.push('消');
        m.push('。');
        assert(m@ =~= app_hash_message());
        Err(chars_to_string(&m))
    }
}

/// `<what> <path> 哈希值验证失败。本地: <local>, 清单: <expected>`.
pub open spec fn mismatch_message(what: Seq<char>, path: Seq<char>, local: Seq<char>, expected: Seq<char>) -> Seq<char> {
    what + " "@ + path + " 哈希值验证失败。本地: "@ + local + ", 清单: "@ + expected
}

fn mismatch_text(what: &str, path: &str, local: &str, expected: &str) -> (r: String)
    ensures
        r@ == mismatch_message(what@, path@, local@, expected@),
{
    let mut m = str_chars(what);
    push_all(&mut m, &str_chars(" "));
    push_all(&mut m, &str_chars(path));
    push_all(&mut m, &str_chars(" 哈希值验证失败。本地: "));
    push_all(&mut m, &str_chars(local));
    push_all(&mut m, &str_chars(", 清单: "));
    push_all(&mut m, &str_chars(expected));
    chars_to_string(&m)
}

/// Checks a downloaded application file against the hash its manifest
/// lists; the error names the file and both hashes.
pub fn verify_update_file(data: &[u8], rel_path: &str, expected_hash: &str) -> (r: Result<(), String>)
    ensures
        r is Ok <==> hex_lower(sha256_of(data@)) == expected_hash@,
        r matches Err(m) ==> m@ == mismatch_message("下载的文件"@, rel_path@, hex_lower(sha256_of(data@)), expected_hash@),
{
    let local = sha256_hex(data);
    if crate::text::chars_equal(&str_chars(local.as_str()), &str_chars(expected_hash)) {
        Ok(())
    } else {
        Err(mismatch_text("下载的文件", rel_path, local.as_str(), expected_hash))
    }
}

/// Checks a downloaded compressed package against its manifest entry; the
/// error names the package and both hashes.
pub fn verify_package(data: &[u8], package: &CompressedPackageEntry) -> (r: Result<(), String>)
    ensures
        r is Ok <==> hex_lower(sha256_of(data@)) == package.hash@,
        r matches Err(m) ==> m@ == mismatch_message("下载的压缩包"@, package.path@, hex_lower(sha256_of(data@)), package.hash@),
{
    let local = sha256_hex(data);
    if crate::text::chars_equal(&str_chars(local.as_str()), &str_chars(package.hash.as_str())) {
        Ok(())
    } else {
        Err(mismatch_text("下载的压缩包", package.path.as_str(), local.as_str(), package.hash.as_str()))
    }
}

} // verus!
