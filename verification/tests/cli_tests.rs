use immich_auto_uploader::cli::{
    check_login_input, interpret_login_output, interpret_version_output, login_args,
    login_launch_failed_message, not_found_message, version_launch_failed_message,
};

const HINT: &str = "\n\nインストール手順:\n  1. Node.js をインストール (https://nodejs.org/)\n  2. ターミナルで `npm install -g @immich/cli` を実行\n  3. アプリを再起動";

#[test]
fn version_output_is_trimmed() {
    assert_eq!(interpret_version_output(true, b"2.2.4\n", b""), Ok("2.2.4".to_string()));
    assert_eq!(
        interpret_version_output(false, b"", b"bad flag"),
        Err("immich --version が失敗しました: bad flag".to_string())
    );
}

#[test]
fn invalid_utf8_is_replaced() {
    assert_eq!(interpret_version_output(true, b" v\xff1 ", b""), Ok("v\u{fffd}1".to_string()));
}

#[test]
fn login_input_checks_url_then_key() {
    assert_eq!(check_login_input("  ", "k"), Err("サーバー URL が空です".to_string()));
    assert_eq!(check_login_input("", ""), Err("サーバー URL が空です".to_string()));
    assert_eq!(check_login_input("http://x", " \t"), Err("API キーが空です".to_string()));
    assert_eq!(check_login_input("http://x", "key"), Ok(()));
    assert_eq!(login_args("http://x", "key"), vec!["login", "http://x", "key"]);
}

#[test]
fn login_output() {
    assert_eq!(
        interpret_login_output(true, b"Logged in as a@b\n", b""),
        Ok("Logged in as a@b".to_string())
    );
    assert_eq!(interpret_login_output(true, b"", b""), Ok("".to_string()));
    assert_eq!(
        interpret_login_output(true, b" out ", b" warn \n"),
        Ok("out\nwarn".to_string())
    );
    assert_eq!(
        interpret_login_output(false, b"x\n", b"Invalid API key\n"),
        Err("ログイン失敗:\nx\nInvalid API key".to_string())
    );
}

#[test]
fn cli_messages() {
    assert_eq!(
        not_found_message("cannot find binary path"),
        format!("Immich CLI (`immich`) が PATH に見つかりません: cannot find binary path{HINT}")
    );
    assert_eq!(
        version_launch_failed_message("e"),
        format!("Immich CLI の起動に失敗しました: e{HINT}")
    );
    assert_eq!(login_launch_failed_message("e"), "immich login の起動に失敗しました: e");
}
