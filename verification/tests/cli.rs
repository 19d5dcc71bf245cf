use caesar_cipher::command::decrypt_command;
use caesar_cipher::command::encrypt_command;

/// Parses an argument vector the way the command-line tool does (via clap's
/// builder API) and dispatches to the library's commands, returning either
/// the printed output or an error message.
fn run<I, T>(args: I) -> Result<String, String>
where
    I: IntoIterator<Item = T>,
    T: Into<String>,
{
    let args: Vec<String> = args.into_iter().map(|s| s.into()).collect();
    let cmd = clap::Command::new("shit")
        .subcommand_required(true)
        .subcommand(
            clap::Command::new("encrypt")
                .arg(clap::Arg::new("key").required(true))
                .arg(clap::Arg::new("plaintext").required(true)),
        )
        .subcommand(
            clap::Command::new("decrypt")
                .arg(clap::Arg::new("key").required(true))
                .arg(clap::Arg::new("ciphertext").required(true)),
        );
    let matches = cmd.try_get_matches_from(args).map_err(|e| e.to_string())?;
    match matches.subcommand() {
        Some(("encrypt", sub)) => {
            let key: u8 = sub
                .get_one::<String>("key")
                .unwrap()
                .parse()
                .map_err(|e: std::num::ParseIntError| e.to_string())?;
            let plaintext = sub.get_one::<String>("plaintext").unwrap();
            encrypt_command(plaintext, key).map_err(|e| e.message())
        }
        Some(("decrypt", sub)) => {
            let key: u8 = sub
                .get_one::<String>("key")
                .unwrap()
                .parse()
                .map_err(|e: std::num::ParseIntError| e.to_string())?;
            let ciphertext = sub.get_one::<String>("ciphertext").unwrap();
            decrypt_command(ciphertext, key).map_err(|e| e.message())
        }
        _ => Err("unknown subcommand".to_string()),
    }
}

#[test]
fn test_cli_encrypt() {
    // "encrypt <key> <plaintext>" is parsed and routed to encrypt_command:
    // the user types plaintext and gets hex ciphertext back.
    let args = vec!["shit", "encrypt", "5", "hello"];
    let result = run(args.into_iter().map(String::from)).unwrap();
    assert_eq!(result, "6d6a717174");
}

#[test]
fn test_cli_decrypt() {
    // "decrypt <key> <hex>" is parsed and routed to decrypt_command: hex
    // input is decoded and decrypted back to the original plaintext.
    let args = vec!["shit", "decrypt", "5", "6d6a717174"];
    let result = run(args.into_iter().map(String::from)).unwrap();
    assert_eq!(result, "hello");
}

#[test]
fn test_cli_missing_args() {
    // A forgotten argument is caught by argument parsing and reported as an
    // error rather than a panic or garbage output.
    let args = vec!["shit", "encrypt", "5"];
    let result = run(args.into_iter().map(String::from));
    assert!(result.is_err());
}

#[test]
fn test_cli_invalid_key() {
    // The key must be a number that fits in a byte; "abc" is rejected at the
    // parsing layer before the cipher is ever called.
    let args = vec!["shit", "encrypt", "abc", "hello"];
    let result = run(args.into_iter().map(String::from));
    assert!(result.is_err());
}

#[test]
fn test_cli_invalid_hex() {
    // Malformed hex input fails in hex_decode and the error propagates up
    // through the command layer with a clear message.
    let args = vec!["shit", "decrypt", "5", "6d6g71"];
    let result = run(args.into_iter().map(String::from));
    assert!(result.is_err());
    assert!(result.unwrap_err().contains("invalid hex"));
}
