//! What the library makes of the Immich CLI's answers: the messages for a
//! missing or failing CLI, the validation of the login input, and the reading of the
//! output of `immich --version` and `immich login`.
use vstd::prelude::*;
use vstd::string::*;
use vstd::utf8::{decode_utf8, valid_utf8};
use crate::config::strings_view;
use crate::text::{is_blank, is_blank_spec, push_str, trim, trim_spec};

verus! {

broadcast use vstd::string::group_string_axioms;

/// How to install the CLI, appended to the messages about a missing CLI.
pub open spec fn install_hint() -> Seq<char> {
    "\n\nインストール手順:\n  1. Node.js をインストール (https://nodejs.org/)\n  2. ターミナルで `npm install -g @immich/cli` を実行\n  3. アプリを再起動"@
}

fn push_install_hint(s: &mut String)
    ensures
        final(s)@ == old(s)@ + install_hint(),
{
    push_str(
        s,
        "\n\nインストール手順:\n  1. Node.js をインストール (https://nodejs.org/)\n  2. ターミナルで `npm install -g @immich/cli` を実行\n  3. アプリを再起動",
    );
}

/// The text of the bytes `bytes` as `String::from_utf8_lossy` decodes them.
pub uninterp spec fn utf8_lossy_spec(bytes: Seq<u8>) -> Seq<char>;

/// `String::from_utf8_lossy`, owned: the bytes decoded as UTF-8, with each
/// invalid sequence replaced by U+FFFD. The result is named; beside the name
/// the contract states only that valid UTF-8 decodes to its characters.
#[verifier::external_body]
fn utf8_lossy(bytes: &[u8]) -> (s: String)
    ensures
        s@ == utf8_lossy_spec(bytes@),
        valid_utf8(bytes@) ==> s@ == decode_utf8(bytes@),
{
    String::from_utf8_lossy(bytes).into_owned()
}

/// The message when `immich` cannot be found on the search path; `e` is the
/// lookup's error text.
pub open spec fn not_found_message_spec(e: Seq<char>) -> Seq<char> {
    "Immich CLI (`immich`) が PATH に見つかりません: "@ + e + install_hint()
}

/// The message when `immich` cannot be found on the search path.
pub fn not_found_message(e: &str) -> (m: String)
    ensures
        m@ == not_found_message_spec(e@),
{
    let mut m = String::from_str("Immich CLI (`immich`) が PATH に見つかりません: ");
    push_str(&mut m, e);
    push_install_hint(&mut m);
    m
}

/// The message when `immich --version` cannot be started.
pub open spec fn version_launch_failed_spec(e: Seq<char>) -> Seq<char> {
    "Immich CLI の起動に失敗しました: "@ + e + install_hint()
}

/// The message when `immich --version` cannot be started; `e` is the error text.
pub fn version_launch_failed_message(e: &str) -> (m: String)
    ensures
        m@ == version_launch_failed_spec(e@),
{
    let mut m = String::from_str("Immich CLI の起動に失敗しました: ");
    push_str(&mut m, e);
    push_install_hint(&mut m);
    m
}

/// The result of the CLI check, given whether `immich --version` succeeded
/// and what it wrote: the trimmed version text, or the error with what it
/// wrote to standard error.
pub open spec fn version_result_spec(success: bool, stdout: Seq<u8>, stderr: Seq<u8>) -> Result<
    Seq<char>,
    Seq<char>,
> {
    if success {
        Ok(trim_spec(utf8_lossy_spec(stdout)))
    } else {
        Err("immich --version が失敗しました: "@ + utf8_lossy_spec(stderr))
    }
}

/// The version reported by `immich --version`, or why the CLI is unusable.
pub fn interpret_version_output(success: bool, stdout: &[u8], stderr: &[u8]) -> (r: Result<
    String,
    String,
>)
    ensures
        match r {
            Ok(v) => version_result_spec(success, stdout@, stderr@) == Ok::<Seq<char>, Seq<char>>(v@),
            Err(e) => version_result_spec(success, stdout@, stderr@) == Err::<Seq<char>, Seq<char>>(e@),
        },
{
    if !success {
        let mut m = String::from_str("immich --version が失敗しました: ");
        let err = utf8_lossy(stderr);
        push_str(&mut m, err.as_str());
        return Err(m);
    }
    let out = utf8_lossy(stdout);
    Ok(trim(out.as_str()))
}

/// The message for empty login input, if any: the server URL is checked
/// first, then the API key; each counts as empty when it is blank.
pub open spec fn login_input_error_spec(url: Seq<char>, key: Seq<char>) -> Option<Seq<char>> {
    if is_blank_spec(url) {
        Some("サーバー URL が空です"@)
    } else if is_blank_spec(key) {
        Some("API キーが空です"@)
    } else {
        None
    }
}

/// Checks that a login has a server URL and an API key.
pub fn check_login_input(url: &str, key: &str) -> (r: Result<(), String>)
    ensures
        match r {
            Ok(_) => login_input_error_spec(url@, key@) is None,
            Err(e) => login_input_error_spec(url@, key@) == Some(e@),
        },
{
    if is_blank(url) {
        return Err(String::from_str("サーバー URL が空です"));
    }
    if is_blank(key) {
        return Err(String::from_str("API キーが空です"));
    }
    Ok(())
}

/// The arguments of `immich` that log in to `url` with `key`.
pub fn login_args(url: &str, key: &str) -> (args: Vec<String>)
    ensures
        strings_view(args@) == seq!["login"@, url@, key@],
{
    let mut args: Vec<String> = Vec::new();
    args.push(String::from_str("login"));
    args.push(String::from_str(url));
    args.push(String::from_str(key));
    assert(strings_view(args@) =~= seq!["login"@, url@, key@]);
    args
}

/// The message when `immich login` cannot be started.
pub open spec fn login_launch_failed_spec(e: Seq<char>) -> Seq<char> {
    "immich login の起動に失敗しました: "@ + e
}

/// The message when `immich login` cannot be started; `e` is the error text.
pub fn login_launch_failed_message(e: &str) -> (m: String)
    ensures
        m@ == login_launch_failed_spec(e@),
{
    let mut m = String::from_str("immich login の起動に失敗しました: ");
    push_str(&mut m, e);
    m
}

/// The result of a login, given whether `immich login` succeeded and what it
/// wrote: both outputs trimmed and joined by a line break, the whole trimmed
/// again on success, or behind "ログイン失敗:" on failure.
pub open spec fn login_result_spec(success: bool, stdout: Seq<u8>, stderr: Seq<u8>) -> Result<
    Seq<char>,
    Seq<char>,
> {
    let out = trim_spec(utf8_lossy_spec(stdout));
    let err = trim_spec(utf8_lossy_spec(stderr));
    if success {
        Ok(trim_spec(out + "\n"@ + err))
    } else {
        Err("ログイン失敗:\n"@ + out + "\n"@ + err)
    }
}

/// What a login came to, from the outcome of `immich login`.
pub fn interpret_login_output(success: bool, stdout: &[u8], stderr: &[u8]) -> (r: Result<
    String,
    String,
>)
    ensures
        match r {
            Ok(v) => login_result_spec(success, stdout@, stderr@) == Ok::<Seq<char>, Seq<char>>(v@),
            Err(e) => login_result_spec(success, stdout@, stderr@) == Err::<Seq<char>, Seq<char>>(e@),
        },
{
    let out_raw = utf8_lossy(stdout);
    let err_raw = utf8_lossy(stderr);
    let out = trim(out_raw.as_str());
    let err = trim(err_raw.as_str());
    if !success {
        let mut m = String::from_str("ログイン失敗:\n");
        push_str(&mut m, out.as_str());
        push_str(&mut m, "\n");
        push_str(&mut m, err.as_str());
        return Err(m);
    }
    let mut combined = out;
    push_str(&mut combined, "\n");
    push_str(&mut combined, err.as_str());
    Ok(trim(combined.as_str()))
}

} // verus!
