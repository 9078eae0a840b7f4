use base64::Engine;
use purplecoin_vm::authorization::check_authorization_header;
use purplecoin_vm::authorization::read_basic_token;
use purplecoin_vm::sanity::read_named_checksum;
use purplecoin_vm::sanity::verify_addresses_checksum;
use purplecoin_vm::sanity::ChecksumError;
use purplecoin_vm::sanity::SumType;
use purplecoin_vm::text::contains_bytes;
use purplecoin_vm::text::same_bytes;
use purplecoin_vm::text::split_bytes;
use sha2::Digest;

fn parts(text: &str, separator: char) -> Vec<String> {
    split_bytes(text.as_bytes(), separator as u8)
        .into_iter()
        .map(|part| String::from_utf8(part).unwrap())
        .collect()
}

#[test]
fn text_is_split_as_std_splits_it() {
    for text in ["", ".", "a", "a.b", "a.", ".a", "a..b", "..", "genesis.blake3_ab.x.json", "a b c"] {
        for separator in ['.', ' ', '_'] {
            let expected: Vec<String> = text.split(separator).map(str::to_owned).collect();
            assert_eq!(parts(text, separator), expected);
        }
    }
    assert_eq!(parts("a.b.c", '.'), vec!["a", "b", "c"]);
    assert_eq!(parts("", '.'), vec![""]);
    assert_eq!(parts("a.", '.'), vec!["a", ""]);
}

#[test]
fn words_are_found_as_std_finds_them() {
    for text in ["", "a", "blake3", "xblake3x", "blake", "blablake3", "3ekalb", "bblake3"] {
        for word in ["", "a", "blake3", "b", "3x", "blake33"] {
            assert_eq!(contains_bytes(text.as_bytes(), word.as_bytes()), text.contains(word));
        }
    }
    assert!(same_bytes(b"abc", b"abc"));
    assert!(!same_bytes(b"abc", b"abd"));
    assert!(!same_bytes(b"abc", b"ab"));
    assert!(same_bytes(b"", b""));
}

#[test]
fn the_checksum_in_a_name() {
    let read = |path: &str, sumtype| read_named_checksum(path.as_bytes(), sumtype);
    assert_eq!(
        read("genesisbalances.blake3_abcd.mainnet.json", SumType::Blake3),
        Ok(b"abcd".to_vec())
    );
    assert_eq!(
        read("dir/genesisbalances.x.sha256_12_34.txt", SumType::Sha256),
        Ok(b"12".to_vec())
    );
    assert_eq!(
        read("genesisbalances.blake3_.a.b", SumType::Blake3),
        Ok(b"".to_vec())
    );
    assert_eq!(
        read("genesisbalances.ablake3b_c.blake3_d.e", SumType::Blake3),
        Ok(b"c".to_vec())
    );
    assert_eq!(read("balances.blake3_ab.x.json", SumType::Blake3), Err(ChecksumError::InvalidPath));
    assert_eq!(read("genesisbalances.blake3_ab.json", SumType::Blake3), Err(ChecksumError::InvalidPath));
    assert_eq!(read("", SumType::Blake3), Err(ChecksumError::InvalidPath));
    assert_eq!(
        read("genesisbalances.blake3_ab.x.json", SumType::Sha256),
        Err(ChecksumError::NoChecksum)
    );
    assert_eq!(
        read("genesisbalances.a.b.blake3_ab", SumType::Blake3),
        Err(ChecksumError::NoChecksum)
    );
    assert_eq!(
        read("genesisbalances.blake3.x.json", SumType::Blake3),
        Err(ChecksumError::NoChecksum)
    );
}

#[test]
fn an_address_file_is_checked_against_its_name() {
    let raw = "address one\naddress two\n";
    let blake3 = hex::encode(blake3::hash(raw.as_bytes()).as_bytes());
    let sha256 = hex::encode(sha2::Sha256::digest(raw.as_bytes()));
    assert_eq!(blake3.len(), 64);
    let path = format!("genesisbalances.blake3_{blake3}.mainnet.json");
    assert_eq!(verify_addresses_checksum(path.as_bytes(), raw.as_bytes(), SumType::Blake3), Ok(()));
    assert_eq!(
        verify_addresses_checksum(path.as_bytes(), b"address one\n", SumType::Blake3),
        Err(ChecksumError::Mismatch)
    );
    assert_eq!(
        verify_addresses_checksum(path.as_bytes(), raw.as_bytes(), SumType::Sha256),
        Err(ChecksumError::NoChecksum)
    );
    let upper = format!("genesisbalances.blake3_{}.mainnet.json", blake3.to_uppercase());
    assert_eq!(
        verify_addresses_checksum(upper.as_bytes(), raw.as_bytes(), SumType::Blake3),
        Err(ChecksumError::Mismatch)
    );
    let path = format!("genesisbalances.sha256_{sha256}.testnet.json");
    assert_eq!(verify_addresses_checksum(path.as_bytes(), raw.as_bytes(), SumType::Sha256), Ok(()));
    let path = format!("genesisbalances.sha256_{blake3}.testnet.json");
    assert_eq!(
        verify_addresses_checksum(path.as_bytes(), raw.as_bytes(), SumType::Sha256),
        Err(ChecksumError::Mismatch)
    );
    assert_eq!(
        verify_addresses_checksum(b"addresses.json", raw.as_bytes(), SumType::Blake3),
        Err(ChecksumError::InvalidPath)
    );
    // the checksum of the raw bytes themselves is none
    let path = format!("genesisbalances.blake3_{raw}.mainnet.json");
    assert_eq!(
        verify_addresses_checksum(path.as_bytes(), raw.as_bytes(), SumType::Blake3),
        Err(ChecksumError::Mismatch)
    );
}

fn header(credentials: &str) -> Vec<u8> {
    format!("Basic {}", base64::engine::general_purpose::STANDARD.encode(credentials)).into_bytes()
}

#[test]
fn the_token_of_a_header() {
    assert_eq!(read_basic_token(b"Basic abc"), Some(b"abc".to_vec()));
    assert_eq!(read_basic_token(b"Basic "), Some(b"".to_vec()));
    assert_eq!(read_basic_token(b"Basic"), None);
    assert_eq!(read_basic_token(b"Basic a b"), None);
    assert_eq!(read_basic_token(b"Basic  a"), None);
    assert_eq!(read_basic_token(b"basic abc"), None);
    assert_eq!(read_basic_token(b"Bearer abc"), None);
    assert_eq!(read_basic_token(b" Basic"), None);
    assert_eq!(read_basic_token(b""), None);
}

#[test]
fn an_authorization_header_is_checked() {
    assert!(check_authorization_header(&header("user:secret"), b"user", b"secret"));
    assert!(check_authorization_header(&header(":"), b"", b""));
    assert!(check_authorization_header(&header("a:b:c"), b"a", b"b:c"));
    assert!(check_authorization_header(&header("a:b:c"), b"a:b", b"c"));
    assert!(!check_authorization_header(&header("user:secret"), b"user", b"secre"));
    assert!(!check_authorization_header(&header("user:secret"), b"use", b"secret"));
    assert!(!check_authorization_header(&header("usersecret"), b"user", b"secret"));
    assert!(!check_authorization_header(b"Basic user:secret", b"user", b"secret"));
    assert!(!check_authorization_header(b"Basic !!!!", b"user", b"secret"));
    assert!(!check_authorization_header(b"Basic dXNlcjpzZWNyZXQ", b"user", b"secret"));
    assert!(check_authorization_header(b"Basic dXNlcjpzZWNyZXQ=", b"user", b"secret"));
    assert!(!check_authorization_header(b"Bearer dXNlcjpzZWNyZXQ=", b"user", b"secret"));
    assert!(!check_authorization_header(b"Basic dXNlcjpzZWNyZXQ= x", b"user", b"secret"));
    assert!(!check_authorization_header(b"", b"", b""));
    let mut other = header("user:secret");
    other.extend_from_slice(b" ");
    assert!(!check_authorization_header(&other, b"user", b"secret"));
}
